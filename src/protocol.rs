use vstd::prelude::*;

verus! {

/// What the gateway sends back for one request.
#[derive(Debug, Clone, PartialEq)]
pub enum Response {
    Previous { code: i32, reason: String, new_session: bool, platform: String, host: String },
    Pong(Option<i32>),
    Authentication { code: i32, token: Option<String>, new_session: bool, reason: String },
    Outcome { code: i32, response: String },
    NotImplemented,
    NotAllowed,
    /// The request could not be decoded; only its id could be read.
    MalformedRequest,
}

/// What a client may ask for.
#[derive(Debug, Clone, PartialEq)]
pub enum Request {
    Previous { token: Option<String> },
    Ping(Option<i32>),
    Login { user: String, passwd: String },
    Run { cmd: String },
}

/// A request with the correlation id its client chose.
#[derive(Debug, Clone, PartialEq)]
pub struct SeqRequest {
    pub id: u64,
    pub msg: Request,
}

/// A response, carrying the id of the request it answers.
#[derive(Debug, Clone, PartialEq)]
pub struct SeqResponse {
    pub id: u64,
    pub msg: Response,
}

/// The text of an optional string.
pub open spec fn opt_text(s: Option<String>) -> Option<Seq<char>> {
    match s {
        Some(t) => Some(t@),
        None => None,
    }
}

/// `r` is `Previous` with these fields and the fixed platform and host.
pub open spec fn is_previous(r: Response, code: i32, reason: Seq<char>, new_session: bool) -> bool {
    match r {
        Response::Previous { code: c, reason: m, new_session: n, platform, host } => c == code
            && m@ == reason && n == new_session && platform@ == "generic"@ && host@
            == "unknown"@,
        _ => false,
    }
}

/// `r` is `Authentication` with these fields.
pub open spec fn is_authentication(
    r: Response,
    code: i32,
    token: Option<Seq<char>>,
    new_session: bool,
    reason: Seq<char>,
) -> bool {
    match r {
        Response::Authentication { code: c, token: t, new_session: n, reason: m } => c == code
            && opt_text(t) == token && n == new_session && m@ == reason,
        _ => false,
    }
}

/// `r` is `Outcome` with these fields.
pub open spec fn is_outcome(r: Response, code: i32, text: Seq<char>) -> bool {
    match r {
        Response::Outcome { code: c, response } => c == code && response@ == text,
        _ => false,
    }
}

} // verus!
