//! The time a probe took, and its rendering as seconds and milliseconds.

use crate::text::{decimal, decimal_value, is_digit, lemma_decimal, lemma_zero_padded, push_decimal,
    push_zero_padded, zero_padded};
use vstd::prelude::*;

verus! {

/// A non-negative span of time: whole seconds and the nanoseconds beyond
/// them, always fewer than a second's worth.
#[derive(Clone, Copy, Debug, PartialEq, Eq, Structural)]
pub struct Elapsed {
    secs: u64,
    subsec_nanos: u32,
}

impl Elapsed {
    /// The whole seconds.
    pub closed spec fn secs(self) -> nat {
        self.secs as nat
    }

    /// The nanoseconds beyond the whole seconds.
    pub closed spec fn subsec_nanos(self) -> nat {
        self.subsec_nanos as nat
    }

    /// The whole milliseconds beyond the whole seconds.
    pub open spec fn millis(self) -> nat {
        self.subsec_nanos() / 1_000_000
    }

    /// The fraction stays below one second.
    #[verifier::type_invariant]
    pub open spec fn wf(self) -> bool {
        self.subsec_nanos() < 1_000_000_000
    }

    /// A span of `secs` seconds and `subsec_nanos` nanoseconds; `None` where
    /// the nanoseconds amount to a second or more.
    pub fn new(secs: u64, subsec_nanos: u32) -> (r: Option<Elapsed>)
        ensures
            r is Some <==> subsec_nanos < 1_000_000_000,
            r matches Some(e) ==> e.wf() && e.secs() == secs && e.subsec_nanos() == subsec_nanos,
    {
        if subsec_nanos < 1_000_000_000 {
            Some(Elapsed { secs, subsec_nanos })
        } else {
            None
        }
    }

    /// The whole seconds.
    pub fn as_secs(&self) -> (r: u64)
        ensures
            r == self.secs(),
    {
        self.secs
    }

    /// The whole milliseconds beyond the whole seconds, below 1000.
    pub fn subsec_millis(&self) -> (r: u32)
        ensures
            r == self.millis(),
            r < 1000,
    {
        proof {
            use_type_invariant(self);
        }
        self.subsec_nanos / 1_000_000
    }
}

/// Seconds, a dot, and the milliseconds in exactly three digits.
pub open spec fn elapsed_text(secs: nat, millis: nat) -> Seq<char> {
    decimal(secs) + seq!['.'] + zero_padded(millis, 3)
}

/// Renders a span as `seconds.milliseconds`, the milliseconds zero-padded to
/// three digits; what lies below a millisecond is cut off.
pub fn format_elapsed(elapsed: Elapsed) -> (r: String)
    ensures
        r@ == elapsed_text(elapsed.secs(), elapsed.millis()),
{
    let mut out = String::new();
    push_decimal(&mut out, elapsed.as_secs());
    out.push('.');
    push_zero_padded(&mut out, elapsed.subsec_millis() as u64, 3);
    out
}

/// Every rendered span is one or more digits, a dot, and exactly three
/// digits. The digits before the dot read back as the seconds; those after
/// it are the milliseconds zero-padded to three digits, and read back as
/// the milliseconds.
pub proof fn lemma_elapsed_text_shape(elapsed: Elapsed)
    requires
        elapsed.wf(),
    ensures
        ({
            let t = elapsed_text(elapsed.secs(), elapsed.millis());
            let dot = t.len() - 4;
            &&& dot >= 1
            &&& t[dot] == '.'
            &&& forall|i: int| 0 <= i < t.len() && i != dot ==> is_digit(#[trigger] t[i])
            &&& t.subrange(0, dot) == decimal(elapsed.secs())
            &&& t.subrange(dot + 1, t.len() as int) == zero_padded(elapsed.millis(), 3)
            &&& decimal_value(t.subrange(0, dot)) == elapsed.secs()
            &&& decimal_value(t.subrange(dot + 1, t.len() as int)) == elapsed.millis()
        }),
{
    let secs = elapsed.secs();
    let millis = elapsed.millis();
    lemma_decimal(secs);
    lemma_zero_padded(millis, 3);
    lemma_three_digits(millis);
    let t = elapsed_text(secs, millis);
    let dot = t.len() - 4;
    assert(dot == decimal(secs).len());
    assert(t.subrange(0, dot) =~= decimal(secs));
    assert(t.subrange(dot + 1, t.len() as int) =~= zero_padded(millis, 3));
    assert forall|i: int| 0 <= i < t.len() && i != dot implies is_digit(#[trigger] t[i]) by {
        if i < dot {
            assert(t[i] == decimal(secs)[i]);
        } else {
            assert(t[i] == zero_padded(millis, 3)[i - dot - 1]);
        }
    }
}

/// A rendered span holds digits and one dot: no other character.
pub proof fn lemma_elapsed_text_chars(secs: nat, millis: nat)
    ensures
        forall|i: int|
            0 <= i < elapsed_text(secs, millis).len() ==> {
                let x = #[trigger] elapsed_text(secs, millis)[i];
                is_digit(x) || x == '.'
            },
{
    lemma_decimal(secs);
    lemma_zero_padded(millis, 3);
}

/// A number below 1000 has at most three decimal digits.
proof fn lemma_three_digits(n: nat)
    requires
        n < 1000,
    ensures
        decimal(n).len() <= 3,
{
    reveal_with_fuel(decimal, 3);
}

} // verus!
