//! HTTP status codes.

use crate::text::decimal;
use vstd::prelude::*;

verus! {

/// `reqwest::StatusCode::from_u16`, which accepts every code from 100 to
/// 999, and then `as_str` on the status (the type is the one of the `http`
/// crate, which reqwest hands out under its own name): the code in its
/// three decimal digits, without a reason phrase.
#[verifier::external_body]
fn code_digits(code: u16) -> (r: String)
    requires
        100 <= code <= 999,
    ensures
        r@ == decimal(code as nat),
{
    reqwest::StatusCode::from_u16(code).unwrap().as_str().to_string()
}

/// The status code of an HTTP response. HTTP gives meaning to 100 through
/// 599; any three-digit code can arrive and is accepted.
#[derive(Clone, Copy, Debug, PartialEq, Eq, Structural)]
pub struct HttpStatus {
    code: u16,
}

impl HttpStatus {
    /// The numeric code.
    pub closed spec fn code(self) -> u16 {
        self.code
    }

    /// The code has three digits.
    #[verifier::type_invariant]
    pub open spec fn wf(self) -> bool {
        100 <= self.code() <= 999
    }

    /// Whether the code lies in the success class, 200 to 299.
    pub open spec fn spec_is_success(&self) -> bool {
        200 <= self.code() <= 299
    }

    /// The status with the given code; `None` unless the code has three
    /// digits.
    pub fn new(code: u16) -> (r: Option<HttpStatus>)
        ensures
            r is Some <==> 100 <= code <= 999,
            r matches Some(s) ==> s.wf() && s.code() == code,
    {
        if 100 <= code && code <= 999 {
            Some(HttpStatus { code })
        } else {
            None
        }
    }

    /// The numeric code.
    pub fn as_u16(&self) -> (r: u16)
        ensures
            r == self.code(),
    {
        self.code
    }

    /// Whether the code lies in the success class, 200 to 299.
    #[verifier::when_used_as_spec(spec_is_success)]
    pub fn is_success(&self) -> (r: bool)
        ensures
            r == self.spec_is_success(),
    {
        200 <= self.code && self.code <= 299
    }

    /// The code in decimal digits, such as `200`.
    pub fn text(&self) -> (r: String)
        ensures
            r@ == decimal(self.code() as nat),
    {
        proof {
            use_type_invariant(self);
        }
        code_digits(self.code)
    }
}

} // verus!
