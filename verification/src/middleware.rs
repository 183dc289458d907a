use vstd::prelude::*;
use crate::text::{decimal_digits, decimal_string};

verus! {

/// The request header that carries a request's trace id.
pub const X_REQUEST_ID: &'static str = "x-request-id";

/// A middleware's refusal of a request: the status to answer with and a
/// message.
#[derive(Clone, Debug)]
pub struct MiddlewareError {
    code: u16,
    message: String,
}

/// The JSON text of a refusal: `{"code":<code>,"message":<message>}`, the
/// message written as it is.
pub open spec fn refusal_body(code: u16, message: Seq<char>) -> Seq<char> {
    "{\"code\":"@ + decimal_digits(code as nat) + ",\"message\":"@ + message + "}"@
}

impl MiddlewareError {
    /// The status of the refusal.
    pub closed spec fn code(&self) -> u16 {
        self.code
    }

    /// The message of the refusal.
    pub closed spec fn message(&self) -> Seq<char> {
        self.message@
    }

    pub fn from(code: u16, s: &str) -> (r: Self)
        ensures
            r.code() == code,
            r.message() == s@,
    {
        MiddlewareError { code, message: String::from_str(s) }
    }

    /// The message of the refusal as text.
    pub fn message_str(&self) -> (r: &str)
        ensures
            r@ == self.message(),
    {
        self.message.as_str()
    }

    pub fn status_code(&self) -> (r: u16)
        ensures
            r == self.code(),
    {
        self.code
    }

    /// The text that the refusal is shown as, which is also the body of the
    /// answer.
    pub fn body(&self) -> (r: String)
        ensures
            r@ == refusal_body(self.code(), self.message()),
    {
        let mut s = String::from_str("{\"code\":");
        let digits = decimal_string(self.code);
        s.append(digits.as_str());
        s.append(",\"message\":");
        s.append(self.message.as_str());
        s.append("}");
        s
    }
}

} // verus!
