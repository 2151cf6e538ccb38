//! Requests to the platform and what comes back.
use vstd::prelude::*;

use crate::text::decimal;

verus! {

pub const NOT_FOUND: u16 = 404;

pub const CONFLICT: u16 = 409;

pub const BAD_GATEWAY: u16 = 502;

pub const SERVICE_UNAVAILABLE: u16 = 503;

pub const GATEWAY_TIMEOUT: u16 = 504;

/// The reason phrase that `reqwest::StatusCode` shows behind a code.
pub uninterp spec fn reason_phrase(code: u16) -> Seq<char>;

/// Calls `reqwest::StatusCode::from_u16`, which takes the codes from 100 to 999
/// and no others, and shows the code with `Display`: in base ten, and behind a
/// space the reason phrase that belongs to the code.
#[verifier::external_body]
fn show_status(code: u16) -> (text: String)
    requires
        100 <= code <= 999,
    ensures
        text@ == decimal(code as nat).push(' ') + reason_phrase(code),
{
    match reqwest::StatusCode::from_u16(code) {
        Ok(status) => status.to_string(),
        Err(invalid) => invalid.to_string(),
    }
}

/// The status code of an answer.
#[derive(Clone, Copy, PartialEq, Eq, Structural, Debug)]
pub struct HttpStatus {
    code: u16,
}

impl HttpStatus {
    #[verifier::type_invariant]
    spec fn valid(self) -> bool {
        100 <= self.code <= 999
    }

    /// The code as a number.
    pub closed spec fn number(self) -> u16 {
        self.code
    }

    /// Codes with three digits are status codes, and nothing else is.
    pub fn new(code: u16) -> (status: Option<HttpStatus>)
        ensures
            match status {
                Some(status) => 100 <= code <= 999 && status.number() == code,
                None => !(100 <= code <= 999),
            },
    {
        if 100 <= code && code <= 999 {
            Some(HttpStatus { code })
        } else {
            None
        }
    }

    pub fn as_u16(self) -> (code: u16)
        ensures
            code == self.number(),
    {
        self.code
    }

    pub open spec fn succeeded(self) -> bool {
        200 <= self.number() < 300
    }

    /// Whether the request was carried out.
    pub fn is_success(self) -> (success: bool)
        ensures
            success == self.succeeded(),
    {
        200 <= self.code && self.code < 300
    }

    /// The code and its reason phrase.
    pub open spec fn text(self) -> Seq<char> {
        decimal(self.number() as nat).push(' ') + reason_phrase(self.number())
    }

    /// Shows the code with its reason phrase.
    pub fn to_text(self) -> (text: String)
        ensures
            text@ == self.text(),
    {
        proof {
            use_type_invariant(self);
        }
        show_status(self.code)
    }
}

#[derive(Clone, Copy, PartialEq, Eq, Structural, Debug)]
pub enum Method {
    Get,
    Post,
    Delete,
}

/// A request, apart from its body.
#[derive(Debug)]
pub struct ApiRequest {
    pub method: Method,
    pub url: String,
}

impl ApiRequest {
    pub open spec fn is(self, method: Method, url: Seq<char>) -> bool {
        self.method == method && self.url@ == url
    }
}

/// The body of an answer.
#[derive(Debug)]
pub enum ReplyBody<T> {
    /// The connection broke before the body was complete.
    Unreadable { cause: String },
    /// The text of the body, and what it says if it is JSON of the expected
    /// form.
    Text { text: String, parsed: Result<T, String> },
}

impl<T> ReplyBody<T> {
    /// The text of the body; a body that could not be read counts as empty.
    pub open spec fn shown(self) -> Seq<char> {
        match self {
            ReplyBody::Unreadable { .. } => Seq::empty(),
            ReplyBody::Text { text, .. } => text@,
        }
    }

    pub fn into_text(self) -> (text: String)
        ensures
            text@ == self.shown(),
    {
        match self {
            ReplyBody::Unreadable { .. } => String::new(),
            ReplyBody::Text { text, .. } => text,
        }
    }
}

/// What became of a request.
#[derive(Debug)]
pub enum Reply<T> {
    /// No answer came.
    Unsent { cause: String },
    Answered { status: HttpStatus, body: ReplyBody<T> },
}

} // verus!
