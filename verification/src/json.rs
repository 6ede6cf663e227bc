//! JSON strings and flat JSON objects: how they are written, and how the
//! written text reads back.

use crate::text::{one_line, with_first};
use vstd::prelude::*;
use vstd::std_specs::iter::IteratorSpec;

verus! {

broadcast use vstd::string::group_string_axioms;

/// The lower-case character for a hexadecimal digit.
pub open spec fn hex_digit(d: nat) -> char
    recommends
        d < 16,
{
    if d < 10 {
        (48 + d) as char
    } else {
        (87 + d) as char
    }
}

/// How one character stands inside a JSON string: the quote and the
/// backslash behind a backslash, control characters as `\n`, `\r`, `\t` or
/// `\u00XX`, every other character as itself.
pub open spec fn escape_char(c: char) -> Seq<char> {
    if c == '"' {
        seq!['\\', '"']
    } else if c == '\\' {
        seq!['\\', '\\']
    } else if c == '\n' {
        seq!['\\', 'n']
    } else if c == '\r' {
        seq!['\\', 'r']
    } else if c == '\t' {
        seq!['\\', 't']
    } else if (c as nat) < 0x20 {
        seq!['\\', 'u', '0', '0', hex_digit(c as nat / 16), hex_digit(c as nat % 16)]
    } else {
        seq![c]
    }
}

/// The characters of `s`, each as it stands inside a JSON string.
pub open spec fn escape(s: Seq<char>) -> Seq<char>
    decreases s.len(),
{
    if s.len() == 0 {
        Seq::empty()
    } else {
        escape(s.drop_last()) + escape_char(s.last())
    }
}

/// `s` as a JSON string: escaped, between double quotes.
pub open spec fn quoted(s: Seq<char>) -> Seq<char> {
    seq!['"'] + escape(s) + seq!['"']
}

/// Whether every character of `s` stands inside a JSON string as itself:
/// `s` holds no double quote, no backslash and no control character.
pub open spec fn escape_free(s: Seq<char>) -> bool {
    forall|i: int| 0 <= i < s.len() ==> s[i] != '"' && s[i] != '\\' && (s[i] as nat) >= 0x20
}

/// One member of an object: the key, a colon and a space, the value.
pub open spec fn member_text(key: Seq<char>, value: Seq<char>) -> Seq<char> {
    quoted(key) + seq![':', ' '] + quoted(value)
}

/// The members, separated by commas.
pub open spec fn members_text(members: Seq<(Seq<char>, Seq<char>)>) -> Seq<char>
    decreases members.len(),
{
    if members.len() == 0 {
        Seq::empty()
    } else if members.len() == 1 {
        member_text(members[0].0, members[0].1)
    } else {
        member_text(members[0].0, members[0].1) + seq![','] + members_text(members.skip(1))
    }
}

/// A JSON object whose values are all strings, on one line.
pub open spec fn object_text(members: Seq<(Seq<char>, Seq<char>)>) -> Seq<char> {
    seq!['{'] + members_text(members) + seq!['}']
}

/// The number a hexadecimal digit stands for, in either case.
pub open spec fn hex_value(c: char) -> Option<nat> {
    if '0' <= c <= '9' {
        Some((c as nat - 48) as nat)
    } else if 'a' <= c <= 'f' {
        Some((c as nat - 87) as nat)
    } else if 'A' <= c <= 'F' {
        Some((c as nat - 55) as nat)
    } else {
        None
    }
}

/// The character that a backslash and `e` stand for, `\u` aside.
pub open spec fn simple_escape(e: char) -> Option<char> {
    if e == '"' || e == '\\' || e == '/' {
        Some(e)
    } else if e == 'b' {
        Some('\u{8}')
    } else if e == 'f' {
        Some('\u{c}')
    } else if e == 'n' {
        Some('\n')
    } else if e == 'r' {
        Some('\r')
    } else if e == 't' {
        Some('\t')
    } else {
        None
    }
}

/// Whether `v` is a code point that a `char` can hold.
pub open spec fn is_scalar(v: nat) -> bool {
    v < 0xD800 || 0xE000 <= v <= 0x10FFFF
}

/// Reads a JSON string from behind its opening quote: its value, and what
/// follows the closing quote. `None` where the text ends before the string
/// does, holds a raw control character or a malformed escape. An escaped
/// surrogate is not accepted.
pub open spec fn read_string_body(s: Seq<char>) -> Option<(Seq<char>, Seq<char>)>
    decreases s.len(),
{
    if s.len() == 0 {
        None
    } else if s[0] == '"' {
        Some((Seq::empty(), s.skip(1)))
    } else if s[0] == '\\' {
        if s.len() >= 6 && s[1] == 'u' {
            match (hex_value(s[2]), hex_value(s[3]), hex_value(s[4]), hex_value(s[5])) {
                (Some(a), Some(b), Some(c), Some(d)) => {
                    let v = a * 4096 + b * 256 + c * 16 + d;
                    if is_scalar(v) {
                        with_first(v as char, read_string_body(s.skip(6)))
                    } else {
                        None
                    }
                },
                _ => None,
            }
        } else if s.len() >= 2 {
            match simple_escape(s[1]) {
                Some(c) => with_first(c, read_string_body(s.skip(2))),
                None => None,
            }
        } else {
            None
        }
    } else if (s[0] as nat) < 0x20 {
        None
    } else {
        with_first(s[0], read_string_body(s.skip(1)))
    }
}

/// Reads a JSON string at the front of `s`: its value, and what follows it.
pub open spec fn read_string(s: Seq<char>) -> Option<(Seq<char>, Seq<char>)> {
    if s.len() > 0 && s[0] == '"' {
        read_string_body(s.skip(1))
    } else {
        None
    }
}

/// Whether `c` is JSON whitespace.
pub open spec fn is_space(c: char) -> bool {
    c == ' ' || c == '\t' || c == '\n' || c == '\r'
}

/// `s` without the whitespace at its front.
pub open spec fn skip_space(s: Seq<char>) -> Seq<char>
    decreases s.len(),
{
    if s.len() > 0 && is_space(s[0]) {
        skip_space(s.skip(1))
    } else {
        s
    }
}

/// Reads one member, a string key and a string value with a colon between
/// them: the pair, and what follows it.
pub open spec fn read_member(s: Seq<char>) -> Option<((Seq<char>, Seq<char>), Seq<char>)> {
    match read_string(s) {
        Some((key, after_key)) => {
            let t = skip_space(after_key);
            if t.len() > 0 && t[0] == ':' {
                match read_string(skip_space(t.skip(1))) {
                    Some((value, rest)) => Some(((key, value), rest)),
                    None => None,
                }
            } else {
                None
            }
        },
        None => None,
    }
}

/// Reads one or more members, separated by commas, and the closing brace:
/// the members in order, and what follows the brace.
#[verifier::opaque]
pub open spec fn read_members(s: Seq<char>) -> Option<(Seq<(Seq<char>, Seq<char>)>, Seq<char>)>
    decreases s.len(),
    via read_members_ends
{
    match read_member(s) {
        Some((first, rest)) => {
            let t = skip_space(rest);
            if t.len() == 0 {
                None
            } else if t[0] == '}' {
                Some((seq![first], t.skip(1)))
            } else if t[0] == ',' {
                match read_members(skip_space(t.skip(1))) {
                    Some((others, tail)) => Some((seq![first] + others, tail)),
                    None => None,
                }
            } else {
                None
            }
        },
        None => None,
    }
}

/// Reading members ends: what follows a member is shorter than the text,
/// and skipping whitespace never makes it longer.
#[via_fn]
proof fn read_members_ends(s: Seq<char>) {
    lemma_read_member_consumes(s);
    match read_member(s) {
        Some((_, rest)) => {
            lemma_skip_space_shortens(rest);
            let t = skip_space(rest);
            if t.len() > 0 {
                lemma_skip_space_shortens(t.skip(1));
            }
        },
        None => {},
    }
}

/// Reads the whole of `s` as a JSON object whose values are all strings:
/// its members in order, or `None` where `s` is not such an object.
pub open spec fn read_object(s: Seq<char>) -> Option<Seq<(Seq<char>, Seq<char>)>> {
    let t = skip_space(s);
    if t.len() > 0 && t[0] == '{' {
        let u = skip_space(t.skip(1));
        if u.len() > 0 && u[0] == '}' {
            if skip_space(u.skip(1)).len() == 0 {
                Some(Seq::empty())
            } else {
                None
            }
        } else {
            match read_members(u) {
                Some((members, tail)) => if skip_space(tail).len() == 0 {
                    Some(members)
                } else {
                    None
                },
                None => None,
            }
        }
    } else {
        None
    }
}

/// What follows a string body that was read is shorter than the text.
proof fn lemma_read_string_body_consumes(s: Seq<char>)
    ensures
        read_string_body(s) matches Some((_, rest)) ==> rest.len() < s.len(),
    decreases s.len(),
{
    if s.len() > 0 && s[0] != '"' {
        if s[0] == '\\' {
            if s.len() >= 6 && s[1] == 'u' {
                lemma_read_string_body_consumes(s.skip(6));
            } else if s.len() >= 2 {
                lemma_read_string_body_consumes(s.skip(2));
            }
        } else {
            lemma_read_string_body_consumes(s.skip(1));
        }
    }
}

/// Skipping whitespace never makes a text longer.
proof fn lemma_skip_space_shortens(s: Seq<char>)
    ensures
        skip_space(s).len() <= s.len(),
    decreases s.len(),
{
    if s.len() > 0 && is_space(s[0]) {
        lemma_skip_space_shortens(s.skip(1));
    }
}

/// What follows a string that was read is shorter than the text it was
/// read from.
proof fn lemma_read_string_consumes(s: Seq<char>)
    ensures
        read_string(s) matches Some((_, rest)) ==> rest.len() < s.len(),
{
    if s.len() > 0 {
        lemma_read_string_body_consumes(s.skip(1));
    }
}

/// What follows a member that was read is shorter than the text it was
/// read from.
proof fn lemma_read_member_consumes(s: Seq<char>)
    ensures
        read_member(s) matches Some((_, rest)) ==> rest.len() < s.len(),
{
    lemma_read_string_consumes(s);
    match read_string(s) {
        Some((_, after_key)) => {
            lemma_skip_space_shortens(after_key);
            let t = skip_space(after_key);
            if t.len() > 0 && t[0] == ':' {
                lemma_skip_space_shortens(t.skip(1));
                lemma_read_string_consumes(skip_space(t.skip(1)));
            }
        },
        None => {},
    }
}

/// The lower-case character for a hexadecimal digit.
fn hex_char(d: u8) -> (c: char)
    requires
        d < 16,
    ensures
        c == hex_digit(d as nat),
{
    if d < 10 {
        (48u8 + d) as char
    } else {
        (87u8 + d) as char
    }
}

/// Appends `c` as it stands inside a JSON string.
fn push_escaped_char(out: &mut String, c: char)
    ensures
        final(out)@ == old(out)@ + escape_char(c),
{
    if c == '"' {
        out.push('\\');
        out.push('"');
    } else if c == '\\' {
        out.push('\\');
        out.push('\\');
    } else if c == '\n' {
        out.push('\\');
        out.push('n');
    } else if c == '\r' {
        out.push('\\');
        out.push('r');
    } else if c == '\t' {
        out.push('\\');
        out.push('t');
    } else if (c as u32) < 0x20 {
        let b = c as u8;
        out.push('\\');
        out.push('u');
        out.push('0');
        out.push('0');
        out.push(hex_char(b / 16));
        out.push(hex_char(b % 16));
    } else {
        out.push(c);
    }
    assert(out@ =~= old(out)@ + escape_char(c));
}

/// Appends `s` as a JSON string.
pub fn push_quoted(out: &mut String, s: &str)
    ensures
        final(out)@ == old(out)@ + quoted(s@),
{
    let ghost before = out@;
    out.push('"');
    let mut it = s.chars();
    let ghost mut done: Seq<char> = Seq::empty();
    loop
        invariant
            done + it.remaining() == s@,
            out@ == before + seq!['"'] + escape(done),
        ensures
            out@ == before + seq!['"'] + escape(s@),
        decreases s@.len() - done.len(),
    {
        match it.next() {
            Some(c) => {
                proof {
                    assert(done.push(c).drop_last() =~= done);
                    done = done.push(c);
                }
                push_escaped_char(out, c);
            },
            None => {
                proof {
                    assert(done =~= s@);
                }
                break ;
            },
        }
    }
    out.push('"');
    assert(out@ =~= before + quoted(s@));
}

/// Appends one member of an object.
pub fn push_member(out: &mut String, key: &str, value: &str)
    ensures
        final(out)@ == old(out)@ + member_text(key@, value@),
{
    push_quoted(out, key);
    out.push(':');
    out.push(' ');
    push_quoted(out, value);
    assert(out@ =~= old(out)@ + member_text(key@, value@));
}

/// Escaping goes character by character: a text in two parts escapes to
/// the two escaped parts, one after the other.
pub proof fn lemma_escape_concat(a: Seq<char>, b: Seq<char>)
    ensures
        escape(a + b) == escape(a) + escape(b),
    decreases b.len(),
{
    if b.len() == 0 {
        assert(a + b =~= a);
        assert(escape(a) + escape(b) =~= escape(a));
    } else {
        lemma_escape_concat(a, b.drop_last());
        assert((a + b).drop_last() =~= a + b.drop_last());
        assert(escape(a + b) =~= escape(a) + escape(b));
    }
}

/// A text escapes to its first character escaped, then the rest escaped.
proof fn lemma_escape_front(x: Seq<char>)
    requires
        x.len() > 0,
    ensures
        escape(x) == escape_char(x[0]) + escape(x.skip(1)),
{
    let head = seq![x[0]];
    lemma_escape_concat(head, x.skip(1));
    assert(head + x.skip(1) =~= x);
    assert(head.drop_last() =~= Seq::<char>::empty());
    assert(escape(Seq::<char>::empty()) =~= Seq::<char>::empty());
    assert(escape(head) =~= escape_char(x[0]));
}

/// A hexadecimal digit reads back as its number.
proof fn lemma_hex_digit(d: nat)
    requires
        d < 16,
    ensures
        hex_value(hex_digit(d)) == Some(d),
{
}

/// An escaped character reads back as the character.
proof fn lemma_read_escaped_char(c: char, tail: Seq<char>)
    ensures
        read_string_body(escape_char(c) + tail) == with_first(c, read_string_body(tail)),
{
    let e = escape_char(c);
    let s = e + tail;
    if c == '"' || c == '\\' || c == '\n' || c == '\r' || c == '\t' {
        assert(s[0] == '\\');
        assert(s[1] == e[1]);
        assert(s.skip(2) =~= tail);
    } else if (c as nat) < 0x20 {
        let hi = c as nat / 16;
        let lo = c as nat % 16;
        lemma_hex_digit(hi);
        lemma_hex_digit(lo);
        assert(s[0] == '\\');
        assert(s[1] == 'u');
        assert(s[2] == '0');
        assert(s[3] == '0');
        assert(s[4] == hex_digit(hi));
        assert(s[5] == hex_digit(lo));
        assert(s.skip(6) =~= tail);
        assert(hi * 16 + lo == c as nat);
        assert((hi * 16 + lo) as char == c);
    } else {
        assert(s[0] == c);
        assert(s.skip(1) =~= tail);
    }
}

/// What was escaped reads back, up to the closing quote.
proof fn lemma_read_body(x: Seq<char>, rest: Seq<char>)
    ensures
        read_string_body(escape(x) + seq!['"'] + rest) == Some((x, rest)),
    decreases x.len(),
{
    let s = escape(x) + seq!['"'] + rest;
    if x.len() == 0 {
        assert(s[0] == '"');
        assert(s.skip(1) =~= rest);
        assert(x =~= Seq::<char>::empty());
    } else {
        let tail = escape(x.skip(1)) + seq!['"'] + rest;
        lemma_escape_front(x);
        lemma_read_body(x.skip(1), rest);
        lemma_read_escaped_char(x[0], tail);
        assert(s =~= escape_char(x[0]) + tail);
        assert(seq![x[0]] + x.skip(1) =~= x);
    }
}

/// A written string reads back as its value, whatever follows it.
pub proof fn lemma_read_quoted(x: Seq<char>, rest: Seq<char>)
    ensures
        read_string(quoted(x) + rest) == Some((x, rest)),
{
    let s = quoted(x) + rest;
    lemma_read_body(x, rest);
    assert(s[0] == '"');
    assert(s.skip(1) =~= escape(x) + seq!['"'] + rest);
}

/// A written string begins with its opening quote.
proof fn lemma_quoted_front(x: Seq<char>, rest: Seq<char>)
    ensures
        (quoted(x) + rest).len() > 0,
        (quoted(x) + rest)[0] == '"',
        skip_space(quoted(x) + rest) == quoted(x) + rest,
{
}

/// A written member reads back as its key and value, whatever follows it.
pub proof fn lemma_read_member(key: Seq<char>, value: Seq<char>, rest: Seq<char>)
    ensures
        read_member(member_text(key, value) + rest) == Some(((key, value), rest)),
{
    let s = member_text(key, value) + rest;
    let after_key = seq![':', ' '] + quoted(value) + rest;
    assert(s =~= quoted(key) + after_key);
    lemma_read_quoted(key, after_key);
    assert(after_key[0] == ':');
    assert(skip_space(after_key) == after_key);
    let after_colon = after_key.skip(1);
    assert(after_colon[0] == ' ');
    assert(after_colon.skip(1) =~= quoted(value) + rest);
    lemma_quoted_front(value, rest);
    assert(skip_space(after_colon) == quoted(value) + rest);
    lemma_read_quoted(value, rest);
}

/// A last member and the closing brace read back as that member.
proof fn lemma_read_last_member(key: Seq<char>, value: Seq<char>, rest: Seq<char>)
    ensures
        read_members(member_text(key, value) + seq!['}'] + rest) == Some(
            (seq![(key, value)], rest),
        ),
{
    reveal(read_members);
    let after = seq!['}'] + rest;
    let s = member_text(key, value) + seq!['}'] + rest;
    assert(s =~= member_text(key, value) + after);
    lemma_read_member(key, value, after);
    assert(after[0] == '}');
    assert(skip_space(after) == after);
    assert(after.skip(1) =~= rest);
}

/// A member, a comma and further members read back as the member put
/// before the further ones.
proof fn lemma_read_next_member(
    key: Seq<char>,
    value: Seq<char>,
    further: Seq<char>,
    others: Seq<(Seq<char>, Seq<char>)>,
    rest: Seq<char>,
)
    requires
        further.len() > 0,
        further[0] == '"',
        read_members(further) == Some((others, rest)),
    ensures
        read_members(member_text(key, value) + seq![','] + further) == Some(
            (seq![(key, value)] + others, rest),
        ),
{
    reveal(read_members);
    let after = seq![','] + further;
    let s = member_text(key, value) + seq![','] + further;
    assert(s =~= member_text(key, value) + after);
    lemma_read_member(key, value, after);
    assert(after[0] == ',');
    assert(skip_space(after) == after);
    assert(after.skip(1) =~= further);
    assert(skip_space(further) == further);
}

/// More than one member is written as the first, a comma, and the others.
proof fn lemma_members_text_more(members: Seq<(Seq<char>, Seq<char>)>, rest: Seq<char>)
    requires
        members.len() > 1,
    ensures
        members_text(members) + seq!['}'] + rest == member_text(members[0].0, members[0].1) + seq![
            ',',
        ] + (members_text(members.skip(1)) + seq!['}'] + rest),
{
    let first = member_text(members[0].0, members[0].1);
    let others = members_text(members.skip(1));
    assert(members_text(members) == first + seq![','] + others);
    assert(first + seq![','] + others + seq!['}'] + rest =~= first + seq![','] + (others + seq![
        '}',
    ] + rest));
}

/// Written members read back, up to the closing brace.
proof fn lemma_read_members(members: Seq<(Seq<char>, Seq<char>)>, rest: Seq<char>)
    requires
        members.len() >= 1,
    ensures
        read_members(members_text(members) + seq!['}'] + rest) == Some((members, rest)),
    decreases members.len(),
{
    let first = members[0];
    if members.len() == 1 {
        lemma_read_last_member(first.0, first.1, rest);
        assert(seq![first] =~= members);
    } else {
        let others = members.skip(1);
        let further = members_text(others) + seq!['}'] + rest;
        lemma_read_members(others, rest);
        lemma_members_front(others, seq!['}'] + rest);
        assert(further =~= members_text(others) + (seq!['}'] + rest));
        lemma_read_next_member(first.0, first.1, further, others, rest);
        lemma_members_text_more(members, rest);
        assert(seq![first] + others =~= members);
    }
}

/// Written members begin with the opening quote of the first key.
proof fn lemma_members_front(members: Seq<(Seq<char>, Seq<char>)>, rest: Seq<char>)
    requires
        members.len() >= 1,
    ensures
        (members_text(members) + rest).len() > 0,
        (members_text(members) + rest)[0] == '"',
        skip_space(members_text(members) + rest) == members_text(members) + rest,
{
    let first = members[0];
    assert(members_text(members)[0] == '"');
}

/// A written object reads back as its members, in order: the text is a
/// JSON object, and nothing of the keys and values is lost in it.
pub proof fn lemma_object_reads_back(members: Seq<(Seq<char>, Seq<char>)>)
    ensures
        read_object(object_text(members)) == Some(members),
{
    let s = object_text(members);
    assert(s[0] == '{');
    assert(skip_space(s) == s);
    let u = s.skip(1);
    let empty = Seq::<char>::empty();
    if members.len() == 0 {
        assert(u =~= seq!['}']);
        assert(skip_space(u) == u);
        assert(u.skip(1) =~= empty);
        assert(skip_space(u.skip(1)) == u.skip(1));
        assert(members =~= Seq::empty());
    } else {
        assert(u =~= members_text(members) + seq!['}']);
        lemma_members_front(members, seq!['}']);
        assert(u =~= members_text(members) + seq!['}'] + empty);
        lemma_read_members(members, empty);
        assert(skip_space(empty) == empty);
    }
}

/// Escaping brings in no line feed.
proof fn lemma_escape_one_line(s: Seq<char>)
    ensures
        one_line(escape(s)),
    decreases s.len(),
{
    if s.len() > 0 {
        lemma_escape_one_line(s.drop_last());
    }
}

/// Written members hold no line feed.
proof fn lemma_members_text_one_line(members: Seq<(Seq<char>, Seq<char>)>)
    ensures
        one_line(members_text(members)),
    decreases members.len(),
{
    if members.len() > 0 {
        lemma_escape_one_line(members[0].0);
        lemma_escape_one_line(members[0].1);
        assert(one_line(member_text(members[0].0, members[0].1)));
        if members.len() > 1 {
            lemma_members_text_one_line(members.skip(1));
        }
    }
}

/// A written object holds no line feed, whatever its keys and values hold.
pub proof fn lemma_object_text_one_line(members: Seq<(Seq<char>, Seq<char>)>)
    ensures
        one_line(object_text(members)),
{
    lemma_members_text_one_line(members);
}

/// A text without a double quote, a backslash or a control character
/// stands inside a JSON string as it is.
pub proof fn lemma_escape_plain(s: Seq<char>)
    requires
        escape_free(s),
    ensures
        escape(s) == s,
    decreases s.len(),
{
    if s.len() > 0 {
        lemma_escape_plain(s.drop_last());
        assert(s.drop_last() + seq![s.last()] =~= s);
    } else {
        assert(s =~= Seq::<char>::empty());
    }
}

/// A member whose key and value need no escape is the key and the value as
/// they are, each between double quotes, with a colon and a space between
/// them.
pub proof fn lemma_member_text_plain(key: Seq<char>, value: Seq<char>)
    requires
        escape_free(key),
        escape_free(value),
    ensures
        member_text(key, value) == seq!['"'] + key + seq!['"', ':', ' ', '"'] + value + seq!['"'],
{
    lemma_escape_plain(key);
    lemma_escape_plain(value);
    assert(member_text(key, value) =~= seq!['"'] + key + seq!['"', ':', ' ', '"'] + value + seq![
        '"',
    ]);
}

} // verus!
