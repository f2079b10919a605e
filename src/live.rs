//! Starting and stopping a broadcast: the request bodies, and what the
//! service's answers mean.

use vstd::prelude::*;
use crate::cookies::Cookies;
use crate::error::BiliLiveError;
use crate::text::{char_vec, int_text, parse_u64, push_decimal, push_text, u64_value};

verus! {

/// The top-level fields of an answer of the service.
#[derive(Debug, Clone, PartialEq, Eq)]
pub struct ApiReply {
    /// The status code; `None` where it is absent or no integer.
    pub code: Option<i64>,
    pub message: Option<String>,
}

/// An answer to the begin-broadcast request.
#[derive(Debug, Clone, PartialEq, Eq)]
pub struct StartReply {
    pub status: ApiReply,
    /// `data.rtmp.addr`: where to send the stream.
    pub rtmp_addr: Option<String>,
    /// `data.rtmp.code`: the stream key.
    pub rtmp_code: Option<String>,
    /// `data.live_key`: the session key, as text.
    pub live_key: Option<String>,
}

/// A running broadcast.
#[derive(Debug, Clone, PartialEq, Eq)]
pub struct LiveSession {
    pub area_id: u32,
    pub live_key: u64,
    pub rtmp_addr: String,
    pub rtmp_code: String,
}

/// An answer to the summary request.
#[derive(Debug, Clone, PartialEq, Eq)]
pub struct SummaryReply {
    pub status: ApiReply,
    pub add_fans: Option<i64>,
    pub danmu_num: Option<i64>,
    pub hamster_rmb: Option<i64>,
    pub live_time: Option<i64>,
    pub max_online: Option<i64>,
    pub new_fans_club: Option<i64>,
    pub watched_count: Option<i64>,
}

/// What a finished broadcast gathered.
#[derive(Debug, Clone, Copy, PartialEq, Eq, Structural)]
pub struct LiveSummary {
    pub add_fans: i64,
    pub danmu_num: i64,
    pub hamster_rmb: i64,
    pub live_time: i64,
    pub max_online: i64,
    pub new_fans_club: i64,
    pub watched_count: i64,
}

pub open spec fn or_zero(v: Option<i64>) -> i64 {
    match v {
        Some(x) => x,
        None => 0,
    }
}

/// The text of the error for an answer with a non-zero code: the service's
/// message as it stands.
pub open spec fn api_message(message: Option<String>) -> Seq<char> {
    match message {
        Some(m) => m@,
        None => "未知错误"@,
    }
}

/// Whether the service accepted the request.
pub open spec fn accepted(reply: ApiReply) -> bool {
    reply.code == Some(0i64)
}

/// The body of the begin-broadcast request.
pub open spec fn start_form_text(k: (int, Seq<char>, Seq<char>), area_id: int) -> Seq<char> {
    "room_id="@ + int_text(k.0) + "&area_v2="@ + int_text(area_id) + "&csrf="@ + k.2
        + "&platform=pc_link"@
}

/// The body of the end-broadcast request.
pub open spec fn stop_form_text(k: (int, Seq<char>, Seq<char>)) -> Seq<char> {
    "room_id="@ + int_text(k.0) + "&csrf="@ + k.2 + "&platform=web_electron_link"@
}

/// The body of the begin-broadcast request for the category `area_id`.
pub fn start_form(cookies: &Cookies, area_id: u32) -> (r: String)
    ensures
        r@ == start_form_text(cookies@, area_id as int),
{
    let mut r = String::new();
    push_text(&mut r, "room_id=");
    push_decimal(&mut r, cookies.room_id as i64);
    push_text(&mut r, "&area_v2=");
    push_decimal(&mut r, area_id as i64);
    push_text(&mut r, "&csrf=");
    push_text(&mut r, cookies.csrf_token.as_str());
    push_text(&mut r, "&platform=pc_link");
    r
}

/// The body of the end-broadcast request.
pub fn stop_form(cookies: &Cookies) -> (r: String)
    ensures
        r@ == stop_form_text(cookies@),
{
    let mut r = String::new();
    push_text(&mut r, "room_id=");
    push_decimal(&mut r, cookies.room_id as i64);
    push_text(&mut r, "&csrf=");
    push_text(&mut r, cookies.csrf_token.as_str());
    push_text(&mut r, "&platform=web_electron_link");
    r
}

/// The credentials that a broadcast request needs, from what loading them
/// gave: none stored means that the user must log in first.
pub fn require_login(stored: Result<Cookies, BiliLiveError>) -> (r: Result<Cookies, BiliLiveError>)
    ensures
        stored matches Err(BiliLiveError::NotFound) ==> r == Err::<Cookies, BiliLiveError>(
            BiliLiveError::AuthRequired,
        ),
        !(stored matches Err(BiliLiveError::NotFound)) ==> r == stored,
{
    match stored {
        Err(BiliLiveError::NotFound) => Err(BiliLiveError::AuthRequired),
        other => other,
    }
}

/// Succeeds where the service accepted the request; otherwise the error
/// carries the service's message.
pub fn check_reply(reply: &ApiReply) -> (r: Result<(), BiliLiveError>)
    ensures
        r is Ok <==> accepted(*reply),
        !accepted(*reply) ==> (r matches Err(BiliLiveError::ApiError(m)) && m@ == api_message(
            reply.message,
        )),
{
    match reply.code {
        Some(c) => if c == 0 {
            return Ok(());
        },
        None => {},
    }
    let m = match &reply.message {
        Some(m) => m.clone(),
        None => "未知错误".to_owned(),
    };
    Err(BiliLiveError::ApiError(m))
}

/// The session that a begin-broadcast answer opens.
pub fn start_session(area_id: u32, reply: &StartReply) -> (r: Result<LiveSession, BiliLiveError>)
    ensures
        !accepted(reply.status) ==> (r matches Err(BiliLiveError::ApiError(m)) && m@
            == api_message(reply.status.message)),
        accepted(reply.status) && (reply.rtmp_addr is None || reply.rtmp_code is None
            || reply.live_key is None) ==> r matches Err(BiliLiveError::ParseError(_)),
        accepted(reply.status) ==> match (reply.rtmp_addr, reply.rtmp_code, reply.live_key) {
            (Some(addr), Some(code), Some(key)) => match u64_value(key@) {
                Some(k) => r matches Ok(s) && s.live_key == k && s.area_id == area_id
                    && s.rtmp_addr@ == addr@ && s.rtmp_code@ == code@,
                None => r matches Err(BiliLiveError::ParseError(_)),
            },
            _ => true,
        },
{
    match check_reply(&reply.status) {
        Ok(()) => {},
        Err(e) => return Err(e),
    }
    let rtmp_addr = match &reply.rtmp_addr {
        Some(a) => a.clone(),
        None => return Err(BiliLiveError::ParseError("missing rtmp address".to_owned())),
    };
    let rtmp_code = match &reply.rtmp_code {
        Some(c) => c.clone(),
        None => return Err(BiliLiveError::ParseError("missing rtmp code".to_owned())),
    };
    let key_text = match &reply.live_key {
        Some(k) => k,
        None => return Err(BiliLiveError::ParseError("missing live_key".to_owned())),
    };
    let chars = char_vec(key_text.as_str());
    match parse_u64(chars.as_slice()) {
        Some(live_key) => Ok(LiveSession { area_id, live_key, rtmp_addr, rtmp_code }),
        None => Err(BiliLiveError::ParseError("live_key is not a number".to_owned())),
    }
}

/// The summary that a summary answer holds; an absent count reads as zero.
pub fn summary_of(reply: &SummaryReply) -> (r: Result<LiveSummary, BiliLiveError>)
    ensures
        !accepted(reply.status) ==> (r matches Err(BiliLiveError::ApiError(m)) && m@
            == api_message(reply.status.message)),
        accepted(reply.status) ==> r == summary_value(*reply),
{
    match check_reply(&reply.status) {
        Ok(()) => {},
        Err(e) => return Err(e),
    }
    Ok(
        LiveSummary {
            add_fans: count(reply.add_fans),
            danmu_num: count(reply.danmu_num),
            hamster_rmb: count(reply.hamster_rmb),
            live_time: count(reply.live_time),
            max_online: count(reply.max_online),
            new_fans_club: count(reply.new_fans_club),
            watched_count: count(reply.watched_count),
        },
    )
}

fn count(v: Option<i64>) -> (r: i64)
    ensures
        r == or_zero(v),
{
    match v {
        Some(x) => x,
        None => 0,
    }
}

/// The outcome of stopping a broadcast. The end-broadcast answer alone
/// decides success; the summary is best effort, and a failure to get it
/// only leaves it out.
pub fn stop_outcome(
    stop_reply: &ApiReply,
    summary: Result<SummaryReply, BiliLiveError>,
) -> (r: Result<Option<LiveSummary>, BiliLiveError>)
    ensures
        r is Ok <==> accepted(*stop_reply),
        !accepted(*stop_reply) ==> (r matches Err(BiliLiveError::ApiError(m)) && m@
            == api_message(stop_reply.message)),
        accepted(*stop_reply) ==> match summary {
            Ok(s) => if accepted(s.status) {
                r matches Ok(Some(v)) && Ok::<LiveSummary, BiliLiveError>(v) == summary_value(s)
            } else {
                r == Ok::<Option<LiveSummary>, BiliLiveError>(None)
            },
            Err(_) => r == Ok::<Option<LiveSummary>, BiliLiveError>(None),
        },
{
    match check_reply(stop_reply) {
        Ok(()) => {},
        Err(e) => return Err(e),
    }
    match summary {
        Ok(s) => match summary_of(&s) {
            Ok(v) => Ok(Some(v)),
            Err(_) => Ok(None),
        },
        Err(_) => Ok(None),
    }
}

/// The summary of an accepted summary answer.
pub open spec fn summary_value(s: SummaryReply) -> Result<LiveSummary, BiliLiveError> {
    Ok(
        LiveSummary {
            add_fans: or_zero(s.add_fans),
            danmu_num: or_zero(s.danmu_num),
            hamster_rmb: or_zero(s.hamster_rmb),
            live_time: or_zero(s.live_time),
            max_online: or_zero(s.max_online),
            new_fans_club: or_zero(s.new_fans_club),
            watched_count: or_zero(s.watched_count),
        },
    )
}

} // verus!
