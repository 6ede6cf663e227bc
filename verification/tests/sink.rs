use monit::sink::{console_line, file_entry};

#[test]
fn alert_line_is_red() {
    assert_eq!(console_line("down", true, true), "\u{1b}[31mdown\u{1b}[0m");
}

#[test]
fn healthy_line_is_green() {
    assert_eq!(console_line("up", false, true), "\u{1b}[32mup\u{1b}[0m");
}

#[test]
fn line_without_colours_is_the_line() {
    assert_eq!(console_line("up", false, false), "up");
    assert_eq!(console_line("down", true, false), "down");
}

#[test]
fn empty_line_still_carries_its_colour() {
    assert_eq!(console_line("", true, true), "\u{1b}[31m\u{1b}[0m");
}

#[test]
fn file_entry_is_line_and_line_feed() {
    assert_eq!(file_entry("a b c"), "a b c\n");
    assert_eq!(file_entry(""), "\n");
}
