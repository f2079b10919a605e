//! The QR login handshake: what each poll answer means.

use vstd::prelude::*;
use crate::error::BiliLiveError;
use crate::query::{first_value, query_pairs, query_value, url_query};

verus! {

/// The status code of a poll: the code is waiting to be scanned.
pub const CODE_WAITING: i32 = 86101;

/// The status code of a poll: scanned, waiting for the user to confirm.
pub const CODE_SCANNED: i32 = 86090;

/// The status code of a poll: the login is confirmed.
pub const CODE_SUCCESS: i32 = 0;

/// What a poll answer says of the login.
#[derive(Debug, Clone, PartialEq, Eq)]
pub enum QrStatus {
    Waiting,
    Scanned,
    Success,
    /// Any other code, with the service's message.
    Other(i32, String),
}

impl QrStatus {
    /// The status that a poll answer's code stands for.
    pub fn from_code(code: i32, message: &str) -> (r: QrStatus)
        ensures
            code == CODE_WAITING ==> r is Waiting,
            code == CODE_SCANNED ==> r is Scanned,
            code == CODE_SUCCESS ==> r is Success,
            code != CODE_WAITING && code != CODE_SCANNED && code != CODE_SUCCESS ==> (r matches QrStatus::Other(c, m) && c == code && m@ == message@),
    {
        if code == CODE_WAITING {
            QrStatus::Waiting
        } else if code == CODE_SCANNED {
            QrStatus::Scanned
        } else if code == CODE_SUCCESS {
            QrStatus::Success
        } else {
            QrStatus::Other(code, message.to_owned())
        }
    }
}

/// Where a login attempt stands.
#[derive(Debug, Clone, Copy, PartialEq, Eq, Structural)]
pub enum LoginState {
    Pending,
    Scanned,
    Confirmed,
    Failed,
}

pub open spec fn is_terminal(s: LoginState) -> bool {
    s is Confirmed || s is Failed
}

/// The moves that a login attempt may make.
pub open spec fn legal_transition(from: LoginState, to: LoginState) -> bool {
    match from {
        LoginState::Pending => true,
        LoginState::Scanned => !(to is Pending),
        _ => false,
    }
}

/// Whether a code keeps the poll loop going.
pub open spec fn keeps_polling(code: i32) -> bool {
    code == CODE_WAITING || code == CODE_SCANNED
}

/// The state after a poll answer with `code`; `url_ok` says whether the
/// answer's redirect URL carries both tokens.
pub open spec fn next_state(s: LoginState, code: i32, url_ok: bool) -> LoginState {
    if code == CODE_WAITING {
        s
    } else if code == CODE_SCANNED {
        LoginState::Scanned
    } else if code == CODE_SUCCESS && url_ok {
        LoginState::Confirmed
    } else {
        LoginState::Failed
    }
}

/// The session token and the anti-forgery token that the URL written `url`
/// carries in its `SESSDATA` and `bili_jct` parameters, where it is a URL and
/// neither is empty.
pub open spec fn tokens_of(url: Seq<char>) -> Option<(Seq<char>, Seq<char>)> {
    match url_query(url) {
        Some(p) => {
            let s = first_value(p, "SESSDATA"@);
            let c = first_value(p, "bili_jct"@);
            if s.len() > 0 && c.len() > 0 {
                Some((s, c))
            } else {
                None
            }
        },
        None => None,
    }
}

/// One answer of the poll endpoint.
#[derive(Debug, Clone, PartialEq, Eq)]
pub struct PollReply {
    pub code: i32,
    pub message: String,
    /// The redirect URL; only meaningful on success.
    pub url: String,
}

/// What the caller does after a poll answer.
#[derive(Debug, Clone, PartialEq, Eq)]
pub enum PollAction {
    /// Wait and poll again.
    PollAgain,
    /// Logged in: these are the session token and the anti-forgery token.
    Finish { sessdata: String, csrf_token: String },
    /// The attempt is over and failed.
    Fail(BiliLiveError),
}

/// The state and the next action after a poll answer.
pub fn on_poll(state: LoginState, reply: &PollReply) -> (r: (LoginState, PollAction))
    requires
        !is_terminal(state),
    ensures
        r.0 == next_state(state, reply.code, tokens_of(reply.url@) is Some),
        (r.1 is PollAgain) == keeps_polling(reply.code),
        reply.code == CODE_SUCCESS ==> match tokens_of(reply.url@) {
            Some((s, c)) => (r.1 matches PollAction::Finish { sessdata, csrf_token } && sessdata@
                == s && csrf_token@ == c),
            None => r.1 matches PollAction::Fail(BiliLiveError::ParseError(_)),
        },
        !keeps_polling(reply.code) && reply.code != CODE_SUCCESS ==> (r.1 matches PollAction::Fail(
            BiliLiveError::LoginError(c, m)) && c == reply.code && m@ == reply.message@),
{
    match QrStatus::from_code(reply.code, reply.message.as_str()) {
        QrStatus::Waiting => (state, PollAction::PollAgain),
        QrStatus::Scanned => (LoginState::Scanned, PollAction::PollAgain),
        QrStatus::Success => {
            match redirect_tokens(reply.url.as_str()) {
                Some((sessdata, csrf_token)) => (
                    LoginState::Confirmed,
                    PollAction::Finish { sessdata, csrf_token },
                ),
                None => (
                    LoginState::Failed,
                    PollAction::Fail(
                        BiliLiveError::ParseError("no tokens in the redirect URL".to_owned()),
                    ),
                ),
            }
        },
        QrStatus::Other(code, message) => (
            LoginState::Failed,
            PollAction::Fail(BiliLiveError::LoginError(code, message)),
        ),
    }
}

/// The session token and the anti-forgery token that a redirect URL carries
/// in its `SESSDATA` and `bili_jct` parameters; `None` where it is no URL or
/// either is missing or empty.
pub fn redirect_tokens(url: &str) -> (r: Option<(String, String)>)
    ensures
        match tokens_of(url@) {
            Some((s, c)) => match r {
                Some((x, y)) => x@ == s && y@ == c,
                None => false,
            },
            None => r is None,
        },
{
    match query_pairs(url) {
        Some(v) => {
            let s = query_value(&v, "SESSDATA");
            let c = query_value(&v, "bili_jct");
            if s.as_str().is_empty() || c.as_str().is_empty() {
                None
            } else {
                Some((s, c))
            }
        },
        None => None,
    }
}

/// A poll never leaves a final state and never returns to the waiting state
/// once scanned; the loop goes on exactly while the state is not final.
pub proof fn lemma_poll_transitions(s: LoginState, code: i32, url_ok: bool)
    requires
        !is_terminal(s),
    ensures
        legal_transition(s, next_state(s, code, url_ok)),
        keeps_polling(code) <==> !is_terminal(next_state(s, code, url_ok)),
{
}

} // verus!
