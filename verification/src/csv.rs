//! Records of double-quoted, comma-separated fields: how they are written,
//! and how the written text reads back.

use crate::text::{one_line, with_first};
use vstd::prelude::*;
use vstd::std_specs::iter::IteratorSpec;

verus! {

broadcast use vstd::string::group_string_axioms;

/// How one character stands inside a quoted field: the double quote twice,
/// every other character as itself.
pub open spec fn escape_char(c: char) -> Seq<char> {
    if c == '"' {
        seq!['"', '"']
    } else {
        seq![c]
    }
}

/// The characters of `s`, each as it stands inside a quoted field.
pub open spec fn escape(s: Seq<char>) -> Seq<char>
    decreases s.len(),
{
    if s.len() == 0 {
        Seq::empty()
    } else {
        escape(s.drop_last()) + escape_char(s.last())
    }
}

/// `s` as a field: between double quotes, its own double quotes doubled.
pub open spec fn quoted(s: Seq<char>) -> Seq<char> {
    seq!['"'] + escape(s) + seq!['"']
}

/// Whether `s` holds no double quote.
pub open spec fn quote_free(s: Seq<char>) -> bool {
    forall|i: int| 0 <= i < s.len() ==> s[i] != '"'
}

/// The fields, each quoted, separated by commas.
pub open spec fn record_text(fields: Seq<Seq<char>>) -> Seq<char>
    decreases fields.len(),
{
    if fields.len() == 0 {
        Seq::empty()
    } else if fields.len() == 1 {
        quoted(fields[0])
    } else {
        quoted(fields[0]) + seq![','] + record_text(fields.skip(1))
    }
}

/// Reads a quoted field from behind its opening quote: its value, and what
/// follows the closing quote. A quote followed by a quote is one quote of
/// the value. `None` where the text ends before the field does.
pub open spec fn read_field_body(s: Seq<char>) -> Option<(Seq<char>, Seq<char>)>
    decreases s.len(),
{
    if s.len() == 0 {
        None
    } else if s[0] == '"' {
        if s.len() >= 2 && s[1] == '"' {
            with_first('"', read_field_body(s.skip(2)))
        } else {
            Some((Seq::empty(), s.skip(1)))
        }
    } else {
        with_first(s[0], read_field_body(s.skip(1)))
    }
}

/// Reads a quoted field at the front of `s`: its value, and what follows it.
pub open spec fn read_field(s: Seq<char>) -> Option<(Seq<char>, Seq<char>)> {
    if s.len() > 0 && s[0] == '"' {
        read_field_body(s.skip(1))
    } else {
        None
    }
}

/// Reads the whole of `s` as one or more quoted fields with a comma between
/// each two: the fields in order, or `None` where `s` is not such a record.
pub open spec fn read_record(s: Seq<char>) -> Option<Seq<Seq<char>>>
    decreases s.len(),
    via read_record_ends
{
    match read_field(s) {
        Some((first, rest)) => {
            if rest.len() == 0 {
                Some(seq![first])
            } else if rest[0] == ',' {
                match read_record(rest.skip(1)) {
                    Some(others) => Some(seq![first] + others),
                    None => None,
                }
            } else {
                None
            }
        },
        None => None,
    }
}

/// Reading a record ends: what follows a field is shorter than the text.
#[via_fn]
proof fn read_record_ends(s: Seq<char>) {
    lemma_read_field_consumes(s);
}

/// What follows a field body that was read is shorter than the text.
proof fn lemma_read_field_body_consumes(s: Seq<char>)
    ensures
        read_field_body(s) matches Some((_, rest)) ==> rest.len() < s.len(),
    decreases s.len(),
{
    if s.len() > 0 {
        if s[0] == '"' {
            if s.len() >= 2 && s[1] == '"' {
                lemma_read_field_body_consumes(s.skip(2));
            }
        } else {
            lemma_read_field_body_consumes(s.skip(1));
        }
    }
}

/// What follows a field that was read is shorter than the text it was read
/// from.
proof fn lemma_read_field_consumes(s: Seq<char>)
    ensures
        read_field(s) matches Some((_, rest)) ==> rest.len() < s.len(),
{
    if s.len() > 0 {
        lemma_read_field_body_consumes(s.skip(1));
    }
}

/// Appends `s` as a quoted field.
pub fn push_quoted(out: &mut String, s: &str)
    ensures
        final(out)@ == old(out)@ + quoted(s@),
{
    let ghost before = out@;
    out.push('"');
    let mut it = s.chars();
    let ghost mut done: Seq<char> = Seq::empty();
    loop
        invariant
            done + it.remaining() == s@,
            out@ == before + seq!['"'] + escape(done),
        ensures
            out@ == before + seq!['"'] + escape(s@),
        decreases s@.len() - done.len(),
    {
        match it.next() {
            Some(c) => {
                proof {
                    assert(done.push(c).drop_last() =~= done);
                    done = done.push(c);
                }
                if c == '"' {
                    out.push('"');
                }
                out.push(c);
                assert(out@ =~= before + seq!['"'] + escape(done));
            },
            None => {
                proof {
                    assert(done =~= s@);
                }
                break ;
            },
        }
    }
    out.push('"');
    assert(out@ =~= before + quoted(s@));
}

/// Escaping goes character by character: a text in two parts escapes to
/// the two escaped parts, one after the other.
pub proof fn lemma_escape_concat(a: Seq<char>, b: Seq<char>)
    ensures
        escape(a + b) == escape(a) + escape(b),
    decreases b.len(),
{
    if b.len() == 0 {
        assert(a + b =~= a);
        assert(escape(a) + escape(b) =~= escape(a));
    } else {
        lemma_escape_concat(a, b.drop_last());
        assert((a + b).drop_last() =~= a + b.drop_last());
        assert(escape(a + b) =~= escape(a) + escape(b));
    }
}

/// A text escapes to its first character escaped, then the rest escaped.
proof fn lemma_escape_front(x: Seq<char>)
    requires
        x.len() > 0,
    ensures
        escape(x) == escape_char(x[0]) + escape(x.skip(1)),
{
    let head = seq![x[0]];
    lemma_escape_concat(head, x.skip(1));
    assert(head + x.skip(1) =~= x);
    assert(head.drop_last() =~= Seq::<char>::empty());
    assert(escape(Seq::<char>::empty()) =~= Seq::<char>::empty());
    assert(escape(head) =~= escape_char(x[0]));
}

/// What was escaped reads back, up to the closing quote.
proof fn lemma_read_body(x: Seq<char>, rest: Seq<char>)
    requires
        rest.len() == 0 || rest[0] != '"',
    ensures
        read_field_body(escape(x) + seq!['"'] + rest) == Some((x, rest)),
    decreases x.len(),
{
    let s = escape(x) + seq!['"'] + rest;
    if x.len() == 0 {
        assert(s[0] == '"');
        assert(s.len() >= 2 ==> s[1] == rest[0]);
        assert(s.skip(1) =~= rest);
        assert(x =~= Seq::<char>::empty());
    } else {
        let tail = escape(x.skip(1)) + seq!['"'] + rest;
        lemma_escape_front(x);
        lemma_read_body(x.skip(1), rest);
        assert(s =~= escape_char(x[0]) + tail);
        if x[0] == '"' {
            assert(s[1] == '"');
            assert(s.skip(2) =~= tail);
        } else {
            assert(s.skip(1) =~= tail);
        }
        assert(seq![x[0]] + x.skip(1) =~= x);
    }
}

/// A written field reads back as its value, where no double quote follows
/// it.
pub proof fn lemma_read_quoted(x: Seq<char>, rest: Seq<char>)
    requires
        rest.len() == 0 || rest[0] != '"',
    ensures
        read_field(quoted(x) + rest) == Some((x, rest)),
{
    let s = quoted(x) + rest;
    lemma_read_body(x, rest);
    assert(s[0] == '"');
    assert(s.skip(1) =~= escape(x) + seq!['"'] + rest);
}

/// A written record reads back as its fields, in order: it has as many
/// quoted fields as were written, and nothing of them is lost.
pub proof fn lemma_record_reads_back(fields: Seq<Seq<char>>)
    requires
        fields.len() >= 1,
    ensures
        read_record(record_text(fields)) == Some(fields),
    decreases fields.len(),
{
    let s = record_text(fields);
    let first = fields[0];
    let empty = Seq::<char>::empty();
    if fields.len() == 1 {
        assert(s =~= quoted(first) + empty);
        lemma_read_quoted(first, empty);
        assert(seq![first] =~= fields);
    } else {
        let others = fields.skip(1);
        let rest = seq![','] + record_text(others);
        assert(s =~= quoted(first) + rest);
        assert(rest[0] == ',');
        lemma_read_quoted(first, rest);
        assert(rest.skip(1) =~= record_text(others));
        lemma_record_reads_back(others);
        assert(seq![first] + others =~= fields);
    }
}

/// Escaping brings in no line feed.
proof fn lemma_escape_one_line(s: Seq<char>)
    requires
        one_line(s),
    ensures
        one_line(escape(s)),
    decreases s.len(),
{
    if s.len() > 0 {
        lemma_escape_one_line(s.drop_last());
    }
}

/// A written record holds no line feed, unless one of its fields does.
pub proof fn lemma_record_text_one_line(fields: Seq<Seq<char>>)
    requires
        forall|i: int| 0 <= i < fields.len() ==> one_line(#[trigger] fields[i]),
    ensures
        one_line(record_text(fields)),
    decreases fields.len(),
{
    if fields.len() > 0 {
        assert(one_line(fields[0]));
        lemma_escape_one_line(fields[0]);
        assert(one_line(quoted(fields[0])));
        if fields.len() > 1 {
            assert forall|i: int| 0 <= i < fields.skip(1).len() implies one_line(
                #[trigger] fields.skip(1)[i],
            ) by {
                assert(fields.skip(1)[i] == fields[i + 1]);
            }
            lemma_record_text_one_line(fields.skip(1));
        }
    }
}

/// A text without a double quote stands in a field as it is.
pub proof fn lemma_escape_plain(s: Seq<char>)
    requires
        quote_free(s),
    ensures
        escape(s) == s,
    decreases s.len(),
{
    if s.len() > 0 {
        lemma_escape_plain(s.drop_last());
        assert(s.drop_last() + seq![s.last()] =~= s);
    } else {
        assert(s =~= Seq::<char>::empty());
    }
}

} // verus!
