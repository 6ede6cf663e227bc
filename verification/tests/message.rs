use monit::elapsed::Elapsed;
use monit::message::{format_line, Output, OutputMessage};
use monit::status::HttpStatus;
use monit::timestamp::Timestamp;

/// Reads a line of double-quoted, comma-separated fields, in which a quote
/// inside a field is written twice.
fn read_quoted_fields(line: &str) -> Option<Vec<String>> {
    let chars: Vec<char> = line.chars().collect();
    let mut fields = Vec::new();
    let mut i = 0;
    loop {
        if chars.get(i) != Some(&'"') {
            return None;
        }
        i += 1;
        let mut field = String::new();
        loop {
            match chars.get(i) {
                None => return None,
                Some('"') if chars.get(i + 1) == Some(&'"') => {
                    field.push('"');
                    i += 2;
                }
                Some('"') => {
                    i += 1;
                    break;
                }
                Some(c) => {
                    field.push(*c);
                    i += 1;
                }
            }
        }
        fields.push(field);
        match chars.get(i) {
            None => return Some(fields),
            Some(',') => i += 1,
            Some(_) => return None,
        }
    }
}

fn sample(url: &str, code: u16) -> OutputMessage {
    OutputMessage::new(
        Timestamp::new(2024, 1, 2, 3, 4, 5).unwrap(),
        url.to_string(),
        HttpStatus::new(code),
        Elapsed::new(0, 123_456_789).unwrap(),
    )
}

#[test]
fn text_line_has_the_four_values() {
    let m = sample("http://example.com", 200);
    assert_eq!(
        m.to_formatted(Output::Text),
        "2024-01-02 03:04:05 http://example.com 200 0.123"
    );
}

#[test]
fn csv_line_has_four_quoted_fields() {
    let m = sample("http://example.com", 404);
    assert_eq!(
        m.to_formatted(Output::Csv),
        "\"2024-01-02 03:04:05\",\"http://example.com\",\"404\",\"0.123\""
    );
}

#[test]
fn csv_doubles_a_quote_inside_a_value() {
    let m = sample("http://example.com/?q=\"a\",\"b\"", 200);
    assert_eq!(
        m.to_formatted(Output::Csv),
        "\"2024-01-02 03:04:05\",\"http://example.com/?q=\"\"a\"\",\"\"b\"\"\",\"200\",\"0.123\""
    );
}

#[test]
fn json_line_is_one_object() {
    let m = sample("http://example.com", 200);
    assert_eq!(
        m.to_formatted(Output::Json),
        "{\"datetime\": \"2024-01-02 03:04:05\",\"url\": \"http://example.com\",\"statusCode\": \"200\",\"responseTime\": \"0.123\"}"
    );
}

#[test]
fn json_line_parses_back() {
    let url = "http://example.com/?q=\"x\"\\y\n\tz\u{1}\u{1f}é";
    let m = sample(url, 503);
    let line = m.to_formatted(Output::Json);
    let parsed: serde_json::Value = serde_json::from_str(&line).unwrap();
    let object = parsed.as_object().unwrap();
    assert_eq!(object.len(), 4);
    assert_eq!(object["datetime"].as_str(), Some("2024-01-02 03:04:05"));
    assert_eq!(object["url"].as_str(), Some(url));
    assert_eq!(object["statusCode"].as_str(), Some("503"));
    assert_eq!(object["responseTime"].as_str(), Some("0.123"));
}

#[test]
fn json_escapes_control_characters() {
    let m = sample("a\u{0}b\u{1f}c\rd", 200);
    let line = m.to_formatted(Output::Json);
    assert!(line.contains("\"url\": \"a\\u0000b\\u001fc\\rd\""));
}

#[test]
fn absent_status_is_a_dash() {
    let m = OutputMessage::new(
        Timestamp::new(2024, 1, 2, 3, 4, 5).unwrap(),
        "http://example.com".to_string(),
        None,
        Elapsed::new(1, 0).unwrap(),
    );
    assert_eq!(
        m.to_formatted(Output::Text),
        "2024-01-02 03:04:05 http://example.com - 1.000"
    );
}

#[test]
fn status_without_a_registered_meaning_is_its_code() {
    let m = sample("u", 999);
    assert_eq!(
        m.to_formatted(Output::Text),
        "2024-01-02 03:04:05 u 999 0.123"
    );
}

#[test]
fn csv_line_reads_back_as_four_fields() {
    let urls = [
        "http://example.com",
        "",
        ",",
        "\"",
        "\",\"",
        "a\"\"b",
        "\"http://example.com/?a=1,2\",\"x\"",
        "line\nbreak",
    ];
    for url in urls {
        let m = sample(url, 301);
        let fields = read_quoted_fields(&m.to_formatted(Output::Csv)).unwrap();
        assert_eq!(
            fields,
            vec![
                "2024-01-02 03:04:05".to_string(),
                url.to_string(),
                "301".to_string(),
                "0.123".to_string(),
            ]
        );
    }
}

#[test]
fn json_line_is_valid_for_any_url() {
    let urls = ["", "\"", "\\", "\\\"", "\n", "\u{0}", "{\"a\": 1}", "a\"},{\"b"];
    for url in urls {
        let m = sample(url, 200);
        let line = m.to_formatted(Output::Json);
        let parsed: serde_json::Value = serde_json::from_str(&line).unwrap();
        let object = parsed.as_object().unwrap();
        let keys: Vec<&str> = object.keys().map(|k| k.as_str()).collect();
        let mut expected = vec!["datetime", "url", "statusCode", "responseTime"];
        expected.sort();
        let mut found = keys.clone();
        found.sort();
        assert_eq!(found, expected);
        assert_eq!(object["url"].as_str(), Some(url));
        assert!(!line.contains('\n'));
    }
}

#[test]
fn json_keys_come_in_order() {
    let line = sample("u", 200).to_formatted(Output::Json);
    let datetime = line.find("\"datetime\"").unwrap();
    let url = line.find("\"url\"").unwrap();
    let status = line.find("\"statusCode\"").unwrap();
    let time = line.find("\"responseTime\"").unwrap();
    assert!(datetime < url && url < status && status < time);
}

#[test]
fn message_with_equal_parts_is_equal() {
    assert_eq!(sample("u", 200), sample("u", 200));
    assert_ne!(sample("u", 200), sample("v", 200));
}

#[test]
fn message_keeps_its_parts() {
    let m = sample("http://example.com", 204);
    assert_eq!(m.datetime(), Timestamp::new(2024, 1, 2, 3, 4, 5).unwrap());
    assert_eq!(m.url(), "http://example.com");
    assert_eq!(m.status_code(), HttpStatus::new(204));
    assert_eq!(m.elapsed(), Elapsed::new(0, 123_456_789).unwrap());
}

#[test]
fn line_of_four_given_values() {
    assert_eq!(format_line("t", "u", "s", "r", Output::Text), "t u s r");
    assert_eq!(format_line("t", "u", "s", "r", Output::Csv), "\"t\",\"u\",\"s\",\"r\"");
    assert_eq!(
        format_line("t", "u", "s", "r", Output::Json),
        "{\"datetime\": \"t\",\"url\": \"u\",\"statusCode\": \"s\",\"responseTime\": \"r\"}"
    );
}

#[test]
fn line_of_empty_values() {
    assert_eq!(format_line("", "", "", "", Output::Text), "   ");
    assert_eq!(format_line("", "", "", "", Output::Csv), "\"\",\"\",\"\",\"\"");
    assert_eq!(
        format_line("", "", "", "", Output::Json),
        "{\"datetime\": \"\",\"url\": \"\",\"statusCode\": \"\",\"responseTime\": \"\"}"
    );
}

#[test]
fn line_escapes_every_value() {
    assert_eq!(
        format_line("\"", "\"", "\"", "\"", Output::Csv),
        "\"\"\"\",\"\"\"\",\"\"\"\",\"\"\"\""
    );
    let line = format_line("\"", "\\", "\n", "\u{1}", Output::Json);
    let parsed: serde_json::Value = serde_json::from_str(&line).unwrap();
    assert_eq!(parsed["datetime"].as_str(), Some("\""));
    assert_eq!(parsed["url"].as_str(), Some("\\"));
    assert_eq!(parsed["statusCode"].as_str(), Some("\n"));
    assert_eq!(parsed["responseTime"].as_str(), Some("\u{1}"));
}

#[test]
fn csv_line_of_a_success_in_three_seconds_seven_millis() {
    let m = OutputMessage::new(
        Timestamp::new(2024, 1, 2, 3, 4, 5).unwrap(),
        "http://example.com".to_string(),
        HttpStatus::new(200),
        Elapsed::new(3, 7_000_000).unwrap(),
    );
    assert_eq!(
        m.to_formatted(Output::Csv),
        r#""2024-01-02 03:04:05","http://example.com","200","3.007""#
    );
}

#[test]
fn text_line_of_a_not_found_at_the_end_of_the_year() {
    let m = OutputMessage::new(
        Timestamp::new(2024, 12, 31, 23, 59, 59).unwrap(),
        "https://example.com/a?b=1".to_string(),
        HttpStatus::new(404),
        Elapsed::new(12, 340_999_999).unwrap(),
    );
    assert_eq!(
        m.to_formatted(Output::Text),
        "2024-12-31 23:59:59 https://example.com/a?b=1 404 12.340"
    );
}

#[test]
fn csv_line_of_a_url_without_quotes_is_the_values_between_quotes() {
    let urls = ["http://example.com", "", "a,b", "a b", "https://example.com/a?b=1&c=d,e"];
    for url in urls {
        for code in [100u16, 200, 404, 599, 999] {
            let m = sample(url, code);
            assert_eq!(
                m.to_formatted(Output::Csv),
                format!(
                    "\"{}\",\"{}\",\"{}\",\"{}\"",
                    "2024-01-02 03:04:05", url, code, "0.123"
                )
            );
        }
    }
}
