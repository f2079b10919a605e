//! Whether the stored credentials still hold.

use vstd::prelude::*;
use crate::cookies::Cookies;
use crate::error::BiliLiveError;

verus! {

/// The next step of a login check.
#[derive(Debug, PartialEq, Eq)]
pub enum ProbeStep {
    /// The check is over with this answer.
    Answer(Result<bool, BiliLiveError>),
    /// Ask the identity endpoint with this session token.
    AskIdentity(String),
}

/// The first step of a login check, from what loading the credentials gave:
/// none stored means not logged in, which is no error.
pub fn probe_start(stored: Result<Cookies, BiliLiveError>) -> (r: ProbeStep)
    ensures
        stored matches Err(BiliLiveError::NotFound) ==> r == ProbeStep::Answer(
            Ok::<bool, BiliLiveError>(false),
        ),
        stored is Err && !(stored->Err_0 is NotFound) ==> r == ProbeStep::Answer(
            Err::<bool, BiliLiveError>(stored->Err_0),
        ),
        stored matches Ok(k) ==> (r matches ProbeStep::AskIdentity(s) && s@ == k.sessdata@),
{
    match stored {
        Ok(k) => ProbeStep::AskIdentity(k.sessdata),
        Err(BiliLiveError::NotFound) => ProbeStep::Answer(Ok(false)),
        Err(e) => ProbeStep::Answer(Err(e)),
    }
}

/// The answer of a login check from the identity endpoint's status code:
/// zero means logged in, any other code means not, and a missing code is an
/// error.
pub fn probe_finish(code: Option<i64>) -> (r: Result<bool, BiliLiveError>)
    ensures
        code == Some(0i64) ==> r == Ok::<bool, BiliLiveError>(true),
        code is Some && code != Some(0i64) ==> r == Ok::<bool, BiliLiveError>(false),
        code is None ==> r matches Err(BiliLiveError::ParseError(_)),
{
    match code {
        Some(c) => Ok(c == 0),
        None => Err(BiliLiveError::ParseError("no status code in the answer".to_owned())),
    }
}

} // verus!
