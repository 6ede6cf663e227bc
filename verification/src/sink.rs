//! What goes to the console and to the log file for one rendered line.

use crate::text::{lemma_line_feeds_concat, lemma_one_line_has_no_line_feeds, line_feeds, one_line};
use vstd::prelude::*;

verus! {

/// The two colours of a console line.
#[derive(Clone, Copy, Debug, PartialEq, Eq, Structural)]
pub enum Tint {
    Green,
    Red,
}

/// `line` between the escape sequence that sets the foreground colour, `ESC
/// [ 3 2 m` for green and `ESC [ 3 1 m` for red, and the one that resets it,
/// `ESC [ 0 m`.
pub open spec fn painted(tint: Tint, line: Seq<char>) -> Seq<char> {
    let digit = match tint {
        Tint::Green => '2',
        Tint::Red => '1',
    };
    seq!['\u{1b}', '[', '3', digit, 'm'] + line + seq!['\u{1b}', '[', '0', 'm']
}

/// `ansi_term::Colour::paint` on `Colour::Green` or `Colour::Red`, and
/// `to_string` on what it returns: the text with the colour's escape
/// sequence before it and the reset sequence after it.
#[verifier::external_body]
fn paint(tint: Tint, line: &str) -> (r: String)
    ensures
        r@ == painted(tint, line@),
{
    let colour = match tint {
        Tint::Green => ansi_term::Colour::Green,
        Tint::Red => ansi_term::Colour::Red,
    };
    colour.paint(line).to_string()
}

/// The colour of a line: red for an alert, green otherwise.
pub open spec fn tint_of(is_alerting: bool) -> Tint {
    if is_alerting {
        Tint::Red
    } else {
        Tint::Green
    }
}

/// What the console shows for `line`: the line in its colour, or the bare
/// line where colours are off.
pub open spec fn console_text(line: Seq<char>, is_alerting: bool, colored: bool) -> Seq<char> {
    if colored {
        painted(tint_of(is_alerting), line)
    } else {
        line
    }
}

/// The text to print for `line`, without a line break: red for an alert,
/// green otherwise, and without any escape sequence where `colored` is
/// false, as it should be when the output is not a terminal.
pub fn console_line(line: &str, is_alerting: bool, colored: bool) -> (r: String)
    ensures
        r@ == console_text(line@, is_alerting, colored),
{
    if colored {
        let tint = if is_alerting {
            Tint::Red
        } else {
            Tint::Green
        };
        paint(tint, line)
    } else {
        line.to_owned()
    }
}

/// What the log file gains for `line`: the line and one line feed.
pub open spec fn file_entry_text(line: Seq<char>) -> Seq<char> {
    line.push('\n')
}

/// The text to append to the log file for `line`.
pub fn file_entry(line: &str) -> (r: String)
    ensures
        r@ == file_entry_text(line@),
{
    let mut entry = line.to_owned();
    entry.push('\n');
    entry
}

/// Whether `entry` is one line ended by its line feed.
pub open spec fn is_entry(entry: Seq<char>) -> bool {
    entry.len() > 0 && entry.last() == '\n' && one_line(entry.drop_last())
}

/// The log file after `entries` were appended to it one by one.
pub open spec fn log_after(log: Seq<char>, entries: Seq<Seq<char>>) -> Seq<char>
    decreases entries.len(),
{
    if entries.len() == 0 {
        log
    } else {
        log_after(log, entries.drop_last()) + entries.last()
    }
}

/// Appending leaves what the log held before as it was: the old log is the
/// beginning of the new one.
pub proof fn lemma_log_keeps_prior_content(log: Seq<char>, entries: Seq<Seq<char>>)
    ensures
        log.is_prefix_of(log_after(log, entries)),
    decreases entries.len(),
{
    if entries.len() > 0 {
        lemma_log_keeps_prior_content(log, entries.drop_last());
    }
}

/// Appending entries that are one line each, ended by its line feed, adds
/// exactly one line feed for each, and leaves a line feed at the end of the
/// log.
pub proof fn lemma_log_gains_one_line_each(log: Seq<char>, entries: Seq<Seq<char>>)
    requires
        forall|i: int| 0 <= i < entries.len() ==> is_entry(#[trigger] entries[i]),
    ensures
        line_feeds(log_after(log, entries)) == line_feeds(log) + entries.len(),
        entries.len() > 0 ==> log_after(log, entries).last() == '\n',
    decreases entries.len(),
{
    if entries.len() > 0 {
        let before = log_after(log, entries.drop_last());
        let entry = entries.last();
        assert forall|i: int| 0 <= i < entries.drop_last().len() implies is_entry(
            #[trigger] entries.drop_last()[i],
        ) by {
            assert(entries.drop_last()[i] == entries[i]);
        }
        lemma_log_gains_one_line_each(log, entries.drop_last());
        lemma_line_feeds_concat(before, entry);
        assert(is_entry(entry));
        lemma_one_line_has_no_line_feeds(entry.drop_last());
    }
}

} // verus!
