use std::time::Instant;
use jx_keymapper::membership::{
    after_send_failure, forbidden_error, gateway, gateway_outcome, gateway_url, heartbeat_due,
    is_member, local_status, membership_active, status_with, require_active, DeviceEntry,
    GatewayReply, SendFailure, Session, ShutdownTracker, GATEWAY_COUNT, HEARTBEAT_GRACE_MS,
};

fn token32() -> String {
    "0123456789abcdef0123456789abcdef".to_string()
}

#[test]
fn grace_period_decides_membership() {
    assert!(membership_active(true, Some(0)));
    assert!(membership_active(true, Some(HEARTBEAT_GRACE_MS - 1)));
    assert!(!membership_active(true, Some(HEARTBEAT_GRACE_MS)));
    assert!(!membership_active(false, Some(10)));
    assert!(!membership_active(true, None));
}

#[test]
fn default_session_is_logged_out() {
    let s = Session::default();
    assert!(s.token.is_none());
    assert!(s.account.is_none());
    assert!(!s.member);
    assert!(s.checked.is_none());
    assert!(!is_member(&s));
}

#[test]
fn login_with_member_flag_makes_active_member() {
    let mut s = Session::default();
    let t = token32();
    let r = s.complete_login("alice".to_string(), Some(t.as_str()), Some(true), Instant::now());
    assert!(r.is_ok());
    assert_eq!(s.token.as_deref(), Some(t.as_str()));
    assert_eq!(s.account.as_deref(), Some("alice"));
    assert!(s.member);
    assert!(is_member(&s));
}

#[test]
fn login_without_member_field_is_not_member() {
    let mut s = Session::default();
    let r = s.complete_login("bob".to_string(), Some(token32().as_str()), None, Instant::now());
    assert!(r.is_ok());
    assert!(!s.member);
    assert!(!is_member(&s));
}

#[test]
fn login_with_short_token_is_gateway_error() {
    let mut s = Session::default();
    let r = s.complete_login("bob".to_string(), Some("short"), Some(true), Instant::now());
    let e = r.unwrap_err();
    assert_eq!(e.status, 502);
    assert_eq!(e.message, "登录响应缺少会话");
    assert!(s.token.is_none());
    let r = s.complete_login("bob".to_string(), None, Some(true), Instant::now());
    assert_eq!(r.unwrap_err().status, 502);
}

#[test]
fn token_length_counts_bytes() {
    // 11 three-byte characters: 33 bytes, although only 11 characters.
    let mut s = Session::default();
    let wide = "会会会会会会会会会会会";
    assert!(s.complete_login("c".to_string(), Some(wide), Some(false), Instant::now()).is_ok());
}

#[test]
fn redeem_needs_login() {
    let s = Session::default();
    let e = s.redeem_token().unwrap_err();
    assert_eq!(e.status, 401);
    assert_eq!(e.message, "请先登录");
    let mut s = Session::default();
    s.complete_login("a".to_string(), Some(token32().as_str()), Some(false), Instant::now()).unwrap();
    assert_eq!(s.redeem_token().unwrap(), token32());
}

#[test]
fn redeem_reply_for_current_token_updates_membership() {
    let mut s = Session::default();
    s.complete_login("a".to_string(), Some(token32().as_str()), Some(false), Instant::now()).unwrap();
    s.complete_redeem(&token32(), Some(true), Instant::now());
    assert!(s.member);
    assert!(is_member(&s));
}

#[test]
fn stale_redeem_reply_is_ignored() {
    let mut s = Session::default();
    s.complete_login("a".to_string(), Some(token32().as_str()), Some(false), Instant::now()).unwrap();
    s.complete_redeem(&"another-token".to_string(), Some(true), Instant::now());
    assert!(!s.member);
}

#[test]
fn failed_heartbeat_revokes_membership() {
    let mut s = Session::default();
    s.complete_login("a".to_string(), Some(token32().as_str()), Some(true), Instant::now()).unwrap();
    s.complete_refresh(&token32(), Err(forbidden_error()), Instant::now());
    assert!(!s.member);
    assert!(s.checked.is_none());
    assert_eq!(s.account.as_deref(), Some("a"));
    assert!(!is_member(&s));
}

#[test]
fn heartbeat_reply_sets_membership() {
    let mut s = Session::default();
    s.complete_login("a".to_string(), Some(token32().as_str()), Some(false), Instant::now()).unwrap();
    s.complete_refresh(&token32(), Ok(Some(true)), Instant::now());
    assert!(is_member(&s));
    s.complete_refresh(&token32(), Ok(None), Instant::now());
    assert!(!s.member);
}

#[test]
fn stale_heartbeat_is_ignored() {
    let mut s = Session::default();
    s.complete_login("a".to_string(), Some(token32().as_str()), Some(true), Instant::now()).unwrap();
    s.complete_refresh(&"old".to_string(), Err(forbidden_error()), Instant::now());
    assert!(s.member);
    assert!(s.checked.is_some());
}

#[test]
fn logout_returns_token_and_clears_session() {
    let mut s = Session::default();
    s.complete_login("a".to_string(), Some(token32().as_str()), Some(true), Instant::now()).unwrap();
    assert_eq!(s.logout(), Some(token32()));
    assert!(s.token.is_none() && s.account.is_none() && !s.member && s.checked.is_none());
    assert_eq!(s.logout(), None);
}

#[test]
fn local_status_reports_suffix() {
    let mut s = Session::default();
    s.complete_login("a".to_string(), Some(token32().as_str()), Some(true), Instant::now()).unwrap();
    let st = local_status(&s, Some("0123456789abcdef"));
    assert!(st.logged_in);
    assert!(st.member);
    assert_eq!(st.account.as_deref(), Some("a"));
    assert_eq!(st.device_suffix.as_deref(), Some("89abcdef"));
    let st = local_status(&Session::default(), None);
    assert!(!st.logged_in && !st.member);
    assert!(st.account.is_none() && st.device_suffix.is_none());
}

#[test]
fn require_active_guards_api_routes() {
    assert!(!require_active("/api/device/list", false));
    assert!(require_active("/api/device/list", true));
    assert!(require_active("/api/member/login", false));
    assert!(require_active("/api/config/get_config", false));
    assert!(!require_active("/api/config/get_config2", false));
    assert!(require_active("/index.html", false));
    assert!(require_active("/api", false));
    let e = forbidden_error();
    assert_eq!(e.status, 403);
    assert_eq!(e.message, "会员未开通或验证已失效");
}

#[test]
fn gateways_and_urls() {
    assert_eq!(GATEWAY_COUNT, 2);
    assert_eq!(gateway(0), "https://jxzs.host.mg");
    assert_eq!(gateway(1), "https://www.jxzs.top");
    assert_eq!(gateway_url(0, "login"), "https://jxzs.host.mg/v1/login");
    assert_eq!(gateway_url(1, "heartbeat"), "https://www.jxzs.top/v1/heartbeat");
}

#[test]
fn only_connect_failures_move_to_next_gateway() {
    assert!(matches!(after_send_failure(0, true), SendFailure::TryNext));
    match after_send_failure(1, true) {
        SendFailure::Fail(e) => {
            assert_eq!(e.status, 503);
            assert_eq!(e.message, "无法连接服务器");
        }
        SendFailure::TryNext => panic!("no gateway is left"),
    }
    assert!(matches!(after_send_failure(0, false), SendFailure::Fail(_)));
}

#[test]
fn gateway_outcomes() {
    let ok: GatewayReply<u32> = GatewayReply { ok: true, data: Some(7), error: None };
    assert_eq!(gateway_outcome(200, Some(ok)).ok(), Some(7));

    let e = gateway_outcome::<u32>(200, None).err().unwrap();
    assert_eq!((e.status, e.message.as_str()), (502, "会员服务器返回格式错误"));

    let missing: GatewayReply<u32> = GatewayReply { ok: true, data: None, error: None };
    let e = gateway_outcome(200, Some(missing)).err().unwrap();
    assert_eq!((e.status, e.message.as_str()), (502, "会员服务器缺少数据"));

    let refused: GatewayReply<u32> =
        GatewayReply { ok: false, data: Some(1), error: Some("卡密无效".to_string()) };
    let e = gateway_outcome(200, Some(refused)).err().unwrap();
    assert_eq!((e.status, e.message.as_str()), (502, "卡密无效"));

    let client: GatewayReply<u32> = GatewayReply { ok: true, data: Some(1), error: None };
    let e = gateway_outcome(404, Some(client)).err().unwrap();
    assert_eq!((e.status, e.message.as_str()), (404, "会员验证失败"));

    let server: GatewayReply<u32> = GatewayReply { ok: true, data: Some(1), error: None };
    let e = gateway_outcome(500, Some(server)).err().unwrap();
    assert_eq!(e.status, 502);
}

#[test]
fn heartbeat_interval() {
    assert!(!heartbeat_due(59_999));
    assert!(heartbeat_due(60_000));
}

fn entry(main: bool, scid: &str) -> DeviceEntry {
    DeviceEntry { main, scid: scid.to_string() }
}

#[test]
fn shutdown_sent_once_per_projection() {
    let mut t = ShutdownTracker::new();
    let devices = vec![entry(true, "a"), entry(false, "b"), entry(true, "c"), entry(true, "a")];
    assert_eq!(t.step(false, &devices), vec!["a".to_string(), "c".to_string()]);
    assert!(t.step(false, &devices).is_empty());
    let more = vec![entry(true, "d"), entry(true, "a")];
    assert_eq!(t.step(false, &more), vec!["d".to_string()]);
}

#[test]
fn membership_clears_shutdown_memory() {
    let mut t = ShutdownTracker::new();
    let devices = vec![entry(true, "a")];
    assert_eq!(t.step(false, &devices).len(), 1);
    assert!(t.step(true, &devices).is_empty());
    assert_eq!(t.step(false, &devices), vec!["a".to_string()]);
}

#[test]
fn status_never_shows_the_token() {
    let mut a = Session::default();
    a.complete_login("acc".to_string(), Some(token32().as_str()), Some(true), Instant::now()).unwrap();
    let mut b = Session::default();
    let other = "ffffffffffffffffffffffffffffffffffff".to_string();
    b.complete_login("acc".to_string(), Some(other.as_str()), Some(true), Instant::now()).unwrap();
    let sa = status_with(&a, Some("0123456789abcdef"), true);
    let sb = status_with(&b, Some("0123456789abcdef"), true);
    assert_eq!((sa.logged_in, sa.member, sa.account.clone(), sa.device_suffix.clone()),
        (sb.logged_in, sb.member, sb.account.clone(), sb.device_suffix.clone()));
    assert_eq!(sa.device_suffix.as_deref(), Some("89abcdef"));
    let text = format!("{:?}", sa);
    assert!(!text.contains(&token32()));
    let inactive = status_with(&a, None, false);
    assert!(inactive.logged_in && !inactive.member && inactive.device_suffix.is_none());
}

#[test]
fn completions_after_logout_never_restore_membership() {
    let mut s = Session::default();
    s.complete_login("a".to_string(), Some(token32().as_str()), Some(true), Instant::now()).unwrap();
    let old = s.redeem_token().unwrap();
    assert_eq!(s.logout(), Some(token32()));
    s.complete_redeem(&old, Some(true), Instant::now());
    s.complete_refresh(&old, Ok(Some(true)), Instant::now());
    s.complete_redeem(&old, None, Instant::now());
    assert!(!is_member(&s));
    assert!(s.token.is_none() && !s.member && s.checked.is_none());
}

#[test]
fn a_run_without_membership_shuts_each_projection_once() {
    let mut tracker = ShutdownTracker::new();
    let ticks = vec![
        vec![entry(true, "a"), entry(false, "x"), entry(true, "a")],
        vec![entry(true, "a"), entry(true, "b")],
        vec![entry(true, "b"), entry(true, "c"), entry(false, "c2")],
        vec![entry(true, "a"), entry(true, "b"), entry(true, "c")],
    ];
    let mut all = Vec::new();
    for devices in &ticks {
        all.extend(tracker.step(false, devices));
    }
    assert_eq!(all, vec!["a".to_string(), "b".to_string(), "c".to_string()]);
    assert!(tracker.step(true, &ticks[0]).is_empty());
    assert_eq!(tracker.step(false, &ticks[0]), vec!["a".to_string()]);
}
