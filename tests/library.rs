use bililive::area::{area_id, parse_area_id, recent_area, wants_recent_area, menu_step, Area, AreaGroup, MenuAction, MenuState};
use bililive::cookies::{cookies_from_file, login_cookies, Cookies, StoredText};
use bililive::error::BiliLiveError;
use bililive::live::{
    check_reply, require_login, start_form, start_session, stop_form, stop_outcome, summary_of, ApiReply,
    LiveSummary, StartReply, SummaryReply,
};
use bililive::login::{on_poll, redirect_tokens, LoginState, PollAction, PollReply, QrStatus};
use bililive::qr::terminal_qr;
use bililive::query::{get_query_string, is_url, query_value};
use bililive::status::{probe_finish, probe_start, ProbeStep};
use bililive::text::{char_vec, parse_u64};

fn cookies(room_id: i32, sessdata: &str, csrf: &str) -> Cookies {
    Cookies { room_id, sessdata: sessdata.to_string(), csrf_token: csrf.to_string() }
}

fn reply(code: Option<i64>, message: Option<&str>) -> ApiReply {
    ApiReply { code, message: message.map(|m| m.to_string()) }
}

fn start_reply(code: Option<i64>, key: Option<&str>) -> StartReply {
    StartReply {
        status: reply(code, Some("ok")),
        rtmp_addr: Some("rtmp://live-push.example/live-bvc/".to_string()),
        rtmp_code: Some("?streamname=live_1&key=k".to_string()),
        live_key: key.map(|k| k.to_string()),
    }
}

fn summary_reply(code: Option<i64>) -> SummaryReply {
    SummaryReply {
        status: reply(code, Some("0")),
        add_fans: Some(3),
        danmu_num: Some(42),
        hamster_rmb: None,
        live_time: Some(3600),
        max_online: Some(17),
        new_fans_club: None,
        watched_count: Some(250),
    }
}

fn poll(code: i32, message: &str, url: &str) -> PollReply {
    PollReply { code, message: message.to_string(), url: url.to_string() }
}

const REDIRECT: &str = "https://passport.biligame.com/x/passport-login/web/crossDomain?DedeUserID=1&DedeUserID__ckMd5=ab&Expires=15551000&SESSDATA=abc123&bili_jct=xyz789&gourl=https%3A%2F%2Fwww.bilibili.com";

#[test]
fn record_text_is_pretty_json() {
    let k = cookies(123, "abc", "def");
    assert_eq!(
        k.to_json(),
        "{\n  \"room_id\": 123,\n  \"sessdata\": \"abc\",\n  \"csrf_token\": \"def\"\n}"
    );
}

#[test]
fn record_round_trip() {
    let k = cookies(5_201_314, "a1b2%2Cc3*d4", "0123456789abcdef");
    assert_eq!(Cookies::from_json(&k.to_json()), Ok(k));
}

#[test]
fn record_round_trip_odd_characters() {
    let k = cookies(-2_147_483_648, "q\"uo\\te\nline\ttab", "");
    assert_eq!(Cookies::from_json(&k.to_json()), Ok(k.clone()));
    let k = cookies(2_147_483_647, "é字", "/");
    assert_eq!(Cookies::from_json(&k.to_json()), Ok(k));
}

#[test]
fn record_reads_escapes_and_trailing_newline() {
    let text = "{\n  \"room_id\": 7,\n  \"sessdata\": \"a\\/b\\u\",\n  \"csrf_token\": \"c\"\n}\n";
    assert!(matches!(Cookies::from_json(text), Err(BiliLiveError::JsonError(_))));
    let text = "{\n  \"room_id\": 7,\n  \"sessdata\": \"a\\/b\\f\",\n  \"csrf_token\": \"c\"\n}\n";
    assert_eq!(Cookies::from_json(text), Ok(cookies(7, "a/b\u{c}", "c")));
}

#[test]
fn empty_record_is_not_found_blank_is_malformed() {
    assert_eq!(Cookies::from_json(""), Err(BiliLiveError::NotFound));
    assert!(matches!(Cookies::from_json(" \n\t\r\n"), Err(BiliLiveError::JsonError(_))));
    assert!(matches!(Cookies::from_json(" "), Err(BiliLiveError::JsonError(_))));
}

#[test]
fn malformed_record_is_json_error() {
    for text in [
        "{}",
        "not json",
        "{\n  \"room_id\": 2147483648,\n  \"sessdata\": \"a\",\n  \"csrf_token\": \"c\"\n}",
        "{\n  \"room_id\": -,\n  \"sessdata\": \"a\",\n  \"csrf_token\": \"c\"\n}",
        "{\n  \"room_id\": 1,\n  \"sessdata\": \"a,\n  \"csrf_token\": \"c\"\n}",
        "{\n  \"room_id\": 1,\n  \"sessdata\": \"a\",\n  \"csrf_token\": \"c\"\n}x",
    ] {
        assert!(matches!(Cookies::from_json(text), Err(BiliLiveError::JsonError(_))), "{text}");
    }
}

#[test]
fn missing_file_is_not_found() {
    assert_eq!(cookies_from_file(StoredText::Missing), Err(BiliLiveError::NotFound));
    assert_eq!(cookies_from_file(StoredText::Text(String::new())), Err(BiliLiveError::NotFound));
    assert!(matches!(
        cookies_from_file(StoredText::Text("\n".to_string())),
        Err(BiliLiveError::JsonError(_))
    ));
    assert_eq!(
        cookies_from_file(StoredText::Unreadable("denied".to_string())),
        Err(BiliLiveError::IoError("denied".to_string()))
    );
    let k = cookies(9, "s", "c");
    assert_eq!(cookies_from_file(StoredText::Text(k.to_json())), Ok(k));
}

#[test]
fn login_cookies_checks_room_range() {
    assert_eq!(
        login_cookies(21_452_505, "s".to_string(), "c".to_string()),
        Ok(cookies(21_452_505, "s", "c"))
    );
    assert!(matches!(
        login_cookies(4_294_967_296, "s".to_string(), "c".to_string()),
        Err(BiliLiveError::ParseError(_))
    ));
}

#[test]
fn query_string_extraction() {
    assert_eq!(get_query_string("SESSDATA", REDIRECT), "abc123");
    assert_eq!(get_query_string("bili_jct", REDIRECT), "xyz789");
    assert_eq!(get_query_string("gourl", REDIRECT), "https://www.bilibili.com");
    assert_eq!(get_query_string("missing", REDIRECT), "");
    assert_eq!(get_query_string("SESSDATA", "not a url"), "");
}

#[test]
fn query_string_any_order_and_decoding() {
    let url = "https://x.example/p?bili_jct=xyz789&other=1&SESSDATA=abc%2C123&SESSDATA=second";
    assert_eq!(get_query_string("SESSDATA", url), "abc,123");
    assert_eq!(get_query_string("bili_jct", url), "xyz789");
}

#[test]
fn query_value_first_match() {
    let pairs = vec![
        ("a".to_string(), "1".to_string()),
        ("b".to_string(), "2".to_string()),
        ("a".to_string(), "3".to_string()),
    ];
    assert_eq!(query_value(&pairs, "a"), "1");
    assert_eq!(query_value(&pairs, "b"), "2");
    assert_eq!(query_value(&pairs, "c"), "");
}

#[test]
fn redirect_tokens_extracted() {
    assert_eq!(
        redirect_tokens("https://a.example/?SESSDATA=abc123&bili_jct=xyz789"),
        Some(("abc123".to_string(), "xyz789".to_string()))
    );
    assert_eq!(redirect_tokens(""), None);
}

#[test]
fn qr_status_codes() {
    assert_eq!(QrStatus::from_code(86101, "m"), QrStatus::Waiting);
    assert_eq!(QrStatus::from_code(86090, "m"), QrStatus::Scanned);
    assert_eq!(QrStatus::from_code(0, "m"), QrStatus::Success);
    assert_eq!(QrStatus::from_code(86038, "expired"), QrStatus::Other(86038, "expired".to_string()));
}

#[test]
fn poll_waiting_and_scanned_keep_polling() {
    assert_eq!(on_poll(LoginState::Pending, &poll(86101, "", "")), (LoginState::Pending, PollAction::PollAgain));
    assert_eq!(on_poll(LoginState::Pending, &poll(86090, "", "")), (LoginState::Scanned, PollAction::PollAgain));
    assert_eq!(on_poll(LoginState::Scanned, &poll(86090, "", "")), (LoginState::Scanned, PollAction::PollAgain));
    assert_eq!(on_poll(LoginState::Scanned, &poll(86101, "", "")), (LoginState::Scanned, PollAction::PollAgain));
}

#[test]
fn poll_success_extracts_tokens() {
    let (state, action) = on_poll(LoginState::Scanned, &poll(0, "", REDIRECT));
    assert_eq!(state, LoginState::Confirmed);
    assert_eq!(
        action,
        PollAction::Finish { sessdata: "abc123".to_string(), csrf_token: "xyz789".to_string() }
    );
}

#[test]
fn poll_success_without_url_fails() {
    let (state, action) = on_poll(LoginState::Pending, &poll(0, "", ""));
    assert_eq!(state, LoginState::Failed);
    assert!(matches!(action, PollAction::Fail(BiliLiveError::ParseError(_))));
}

#[test]
fn poll_other_code_fails_with_code_and_message() {
    let (state, action) = on_poll(LoginState::Pending, &poll(86038, "二维码已失效", ""));
    assert_eq!(state, LoginState::Failed);
    assert_eq!(action, PollAction::Fail(BiliLiveError::LoginError(86038, "二维码已失效".to_string())));
}

#[test]
fn start_returns_session() {
    let s = start_session(235, &start_reply(Some(0), Some("33214532104"))).unwrap();
    assert_eq!(s.live_key, 33_214_532_104);
    assert_eq!(s.area_id, 235);
    assert_eq!(s.rtmp_addr, "rtmp://live-push.example/live-bvc/");
    assert_eq!(s.rtmp_code, "?streamname=live_1&key=k");
}

#[test]
fn start_live_key_limits() {
    assert_eq!(start_session(1, &start_reply(Some(0), Some("+7"))).unwrap().live_key, 7);
    assert_eq!(
        start_session(1, &start_reply(Some(0), Some("18446744073709551615"))).unwrap().live_key,
        u64::MAX
    );
    for bad in ["18446744073709551616", "abc", "", "+", "-1", " 1", "1e3"] {
        assert!(
            matches!(start_session(1, &start_reply(Some(0), Some(bad))), Err(BiliLiveError::ParseError(_))),
            "{bad}"
        );
    }
}

#[test]
fn start_missing_fields() {
    assert!(matches!(start_session(1, &start_reply(Some(0), None)), Err(BiliLiveError::ParseError(_))));
    let mut r = start_reply(Some(0), Some("1"));
    r.rtmp_addr = None;
    assert!(matches!(start_session(1, &r), Err(BiliLiveError::ParseError(_))));
    let mut r = start_reply(Some(0), Some("1"));
    r.rtmp_code = None;
    assert!(matches!(start_session(1, &r), Err(BiliLiveError::ParseError(_))));
}

#[test]
fn start_rejected_carries_message() {
    let mut r = start_reply(Some(60024), Some("1"));
    r.status.message = Some("目标分区需要人脸认证".to_string());
    assert_eq!(start_session(1, &r), Err(BiliLiveError::ApiError("目标分区需要人脸认证".to_string())));
    let mut r = start_reply(None, Some("1"));
    r.status.message = None;
    assert_eq!(start_session(1, &r), Err(BiliLiveError::ApiError("未知错误".to_string())));
}

#[test]
fn check_reply_codes() {
    assert_eq!(check_reply(&reply(Some(0), None)), Ok(()));
    assert_eq!(check_reply(&reply(Some(-101), Some("账号未登录"))), Err(BiliLiveError::ApiError("账号未登录".to_string())));
}

#[test]
fn stop_succeeds_without_summary() {
    let err = Err(BiliLiveError::NetworkError("timed out".to_string()));
    assert_eq!(stop_outcome(&reply(Some(0), None), err), Ok(None));
    assert_eq!(stop_outcome(&reply(Some(0), None), Ok(summary_reply(Some(1)))), Ok(None));
}

#[test]
fn stop_with_summary() {
    let expected = LiveSummary {
        add_fans: 3,
        danmu_num: 42,
        hamster_rmb: 0,
        live_time: 3600,
        max_online: 17,
        new_fans_club: 0,
        watched_count: 250,
    };
    assert_eq!(stop_outcome(&reply(Some(0), None), Ok(summary_reply(Some(0)))), Ok(Some(expected)));
    assert_eq!(summary_of(&summary_reply(Some(0))), Ok(expected));
}

#[test]
fn stop_rejected_fails() {
    assert_eq!(
        stop_outcome(&reply(Some(65530), Some("token错误")), Ok(summary_reply(Some(0)))),
        Err(BiliLiveError::ApiError("token错误".to_string()))
    );
    assert_eq!(
        summary_of(&summary_reply(Some(3))),
        Err(BiliLiveError::ApiError("0".to_string()))
    );
}

#[test]
fn request_bodies() {
    let k = cookies(21_452_505, "s", "deadbeef");
    assert_eq!(start_form(&k, 235), "room_id=21452505&area_v2=235&csrf=deadbeef&platform=pc_link");
    assert_eq!(stop_form(&k), "room_id=21452505&csrf=deadbeef&platform=web_electron_link");
    let k = cookies(-3, "s", "x");
    assert_eq!(stop_form(&k), "room_id=-3&csrf=x&platform=web_electron_link");
    assert_eq!(start_form(&k, 0), "room_id=-3&area_v2=0&csrf=x&platform=pc_link");
}

#[test]
fn probe_without_credentials_is_false() {
    assert_eq!(probe_start(Err(BiliLiveError::NotFound)), ProbeStep::Answer(Ok(false)));
    assert_eq!(
        probe_start(Err(BiliLiveError::JsonError("x".to_string()))),
        ProbeStep::Answer(Err(BiliLiveError::JsonError("x".to_string())))
    );
    assert_eq!(probe_start(Ok(cookies(1, "tok", "c"))), ProbeStep::AskIdentity("tok".to_string()));
}

#[test]
fn probe_identity_codes() {
    assert_eq!(probe_finish(Some(0)), Ok(true));
    assert_eq!(probe_finish(Some(-101)), Ok(false));
    assert!(matches!(probe_finish(None), Err(BiliLiveError::ParseError(_))));
}

#[test]
fn u64_parsing() {
    assert_eq!(parse_u64(&char_vec("0")), Some(0));
    assert_eq!(parse_u64(&char_vec("00123")), Some(123));
    assert_eq!(parse_u64(&char_vec("+9")), Some(9));
    assert_eq!(parse_u64(&char_vec("")), None);
    assert_eq!(parse_u64(&char_vec("12a")), None);
}

fn groups() -> Vec<AreaGroup> {
    let area = |id: &str, name: &str| Area { id: id.to_string(), name: name.to_string() };
    vec![
        AreaGroup { name: "网游".to_string(), areas: Some(vec![area("86", "英雄联盟"), area("id-3", "x")]) },
        AreaGroup { name: "empty".to_string(), areas: None },
        AreaGroup { name: "手游".to_string(), areas: Some(vec![area("", "bad"), area("٣5", "arabic")]) },
    ]
}

#[test]
fn area_ids() {
    assert_eq!(area_id("235"), Some(235));
    assert_eq!(area_id("id-3"), Some(3));
    assert_eq!(area_id(""), None);
    assert_eq!(area_id("4294967296"), None);
    assert_eq!(area_id("٣5"), None);
}

#[test]
fn menu_groups() {
    let g = groups();
    assert_eq!(menu_step(&g, MenuState::Groups, "1"), MenuAction::Ask(MenuState::Areas(0)));
    assert_eq!(menu_step(&g, MenuState::Groups, "0"), MenuAction::Ask(MenuState::Groups));
    assert_eq!(menu_step(&g, MenuState::Groups, "2"), MenuAction::Ask(MenuState::Groups));
    assert_eq!(menu_step(&g, MenuState::Groups, "4"), MenuAction::Ask(MenuState::Groups));
    assert!(matches!(menu_step(&g, MenuState::Groups, "x"), MenuAction::Fail(BiliLiveError::InputError(_))));
}

#[test]
fn menu_areas() {
    let g = groups();
    assert_eq!(menu_step(&g, MenuState::Areas(0), "1"), MenuAction::Chosen(86, 0));
    assert_eq!(menu_step(&g, MenuState::Areas(0), "2"), MenuAction::Chosen(3, 1));
    assert_eq!(menu_step(&g, MenuState::Areas(0), "0"), MenuAction::Ask(MenuState::Groups));
    assert_eq!(menu_step(&g, MenuState::Areas(0), "3"), MenuAction::Ask(MenuState::Areas(0)));
    assert!(matches!(menu_step(&g, MenuState::Areas(2), "1"), MenuAction::Fail(BiliLiveError::ParseError(_))));
    assert!(matches!(menu_step(&g, MenuState::Areas(2), "2"), MenuAction::Fail(BiliLiveError::ParseError(_))));
}

#[test]
fn qr_drawn_as_square_of_blocks() {
    let art = terminal_qr("https://account.bilibili.com/h5/account-h5/auth/scan-web?qrcode_key=abc").unwrap();
    let lines: Vec<&str> = art.lines().collect();
    assert!(lines.len() >= 21);
    for line in &lines {
        assert_eq!(line.chars().count(), 2 * lines.len());
        assert!(line.chars().all(|c| c == ' ' || c == '█'));
    }
    assert!(art.contains('█'));
    assert_eq!(art, terminal_qr("https://account.bilibili.com/h5/account-h5/auth/scan-web?qrcode_key=abc").unwrap());
}

#[test]
fn qr_too_long_fails() {
    let long = "x".repeat(8000);
    assert!(matches!(terminal_qr(&long), Err(BiliLiveError::QrCodeError(_))));
}

#[test]
fn recent_area_fields() {
    assert_eq!(
        recent_area(Some("235".to_string()), Some("单机".to_string())),
        Ok(("235".to_string(), "单机".to_string()))
    );
    assert_eq!(
        recent_area(Some("12a".to_string()), Some("x".to_string())),
        Ok(("12a".to_string(), "x".to_string()))
    );
    assert!(matches!(recent_area(None, Some("x".to_string())), Err(BiliLiveError::ParseError(_))));
    assert!(matches!(recent_area(Some("1".to_string()), None), Err(BiliLiveError::ParseError(_))));
}

#[test]
fn area_id_parsing() {
    assert_eq!(parse_area_id("235"), Ok(235));
    assert_eq!(parse_area_id("+7"), Ok(7));
    assert!(matches!(parse_area_id("12a"), Err(BiliLiveError::ParseError(_))));
    assert!(matches!(parse_area_id("4294967296"), Err(BiliLiveError::ParseError(_))));
    assert!(matches!(parse_area_id(""), Err(BiliLiveError::ParseError(_))));
}

#[test]
fn broadcast_needs_login() {
    assert_eq!(require_login(Err(BiliLiveError::NotFound)), Err(BiliLiveError::AuthRequired));
    assert_eq!(
        require_login(Err(BiliLiveError::IoError("x".to_string()))),
        Err(BiliLiveError::IoError("x".to_string()))
    );
    assert_eq!(require_login(Ok(cookies(1, "s", "c"))), Ok(cookies(1, "s", "c")));
}

#[test]
fn record_control_characters_use_unicode_escapes() {
    let k = cookies(1, "a\u{1}b\u{1f}", "\u{8}\u{c}\u{0}");
    let text = k.to_json();
    assert!(text.contains("a\\u0001b\\u001f"));
    assert!(text.contains("\\b\\f\\u0000"));
    assert_eq!(Cookies::from_json(&text), Ok(k));
}

#[test]
fn record_reads_unicode_escapes() {
    let text = "{\n  \"room_id\": 7,\n  \"sessdata\": \"\\u00e9\\u4E2D\\u001F\",\n  \"csrf_token\": \"c\"\n}";
    assert_eq!(Cookies::from_json(text), Ok(cookies(7, "é中\u{1f}", "c")));
    let text = "{\n  \"room_id\": 7,\n  \"sessdata\": \"\\ud800\",\n  \"csrf_token\": \"c\"\n}";
    assert!(matches!(Cookies::from_json(text), Err(BiliLiveError::JsonError(_))));
    let text = "{\n  \"room_id\": 7,\n  \"sessdata\": \"\\u00g0\",\n  \"csrf_token\": \"c\"\n}";
    assert!(matches!(Cookies::from_json(text), Err(BiliLiveError::JsonError(_))));
}

#[test]
fn recent_area_answers() {
    assert!(wants_recent_area(""));
    assert!(wants_recent_area("y"));
    assert!(wants_recent_area("Y"));
    assert!(!wants_recent_area("n"));
    assert!(!wants_recent_area("yes"));
}

#[test]
fn url_recognised() {
    assert!(is_url("https://account.bilibili.com/h5/account-h5/auth/scan-web?qrcode_key=abc"));
    assert!(!is_url("not a url"));
    assert!(!is_url(""));
}

#[test]
fn login_needs_both_tokens() {
    for url in [
        "https://a.example/?bili_jct=xyz789",
        "https://a.example/?SESSDATA=abc123",
        "https://a.example/?SESSDATA=&bili_jct=xyz789",
        "https://a.example/?SESSDATA=abc123&bili_jct=",
    ] {
        assert_eq!(redirect_tokens(url), None, "{url}");
        let (state, action) = on_poll(LoginState::Scanned, &poll(0, "", url));
        assert_eq!(state, LoginState::Failed);
        assert!(matches!(action, PollAction::Fail(BiliLiveError::ParseError(_))), "{url}");
    }
}

#[test]
fn login_cookies_refuses_empty_tokens() {
    assert!(matches!(login_cookies(1, String::new(), "c".to_string()), Err(BiliLiveError::ParseError(_))));
    assert!(matches!(login_cookies(1, "s".to_string(), String::new()), Err(BiliLiveError::ParseError(_))));
}

#[test]
fn record_rejects_what_json_forbids() {
    let rec = |room: &str, sess: &str| {
        format!("{{\n  \"room_id\": {room},\n  \"sessdata\": \"{sess}\",\n  \"csrf_token\": \"c\"\n}}")
    };
    for (room, sess) in [("07", "s"), ("-07", "s"), ("00", "s"), ("1", "a\u{1}b"), ("1", "a\tb")] {
        assert!(matches!(Cookies::from_json(&rec(room, sess)), Err(BiliLiveError::JsonError(_))), "{room} {sess:?}");
    }
    assert_eq!(Cookies::from_json(&rec("0", "s")), Ok(cookies(0, "s", "c")));
    assert_eq!(Cookies::from_json(&rec("-0", "s")), Ok(cookies(0, "s", "c")));
    assert_eq!(Cookies::from_json(&rec("-10", "s")), Ok(cookies(-10, "s", "c")));
}

#[test]
fn record_writes_backspace_and_form_feed_short() {
    let k = cookies(1, "\u{8}", "\u{c}");
    let text = k.to_json();
    assert!(text.contains("\"\\b\""));
    assert!(text.contains("\"\\f\""));
    assert_eq!(Cookies::from_json(&text), Ok(k));
}
