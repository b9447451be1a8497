use jx_keymapper::startup::{
    connect_ip, instance_probe_request, is_instance_response, select_available_server_ports,
    webview_bounds, webview_url, WebViewSync, PORT_FALLBACK_ATTEMPTS,
};
use std::cell::Cell;

#[test]
fn connect_address() {
    assert_eq!(connect_ip([0, 0, 0, 0]), [127, 0, 0, 1]);
    assert_eq!(connect_ip([192, 168, 1, 2]), [192, 168, 1, 2]);
}

#[test]
fn recognises_running_instance() {
    let reply = "HTTP/1.1 200 OK\r\n\r\n{\"web_port\":1,\"controller_port\":2}";
    assert!(is_instance_response(reply));
    assert!(!is_instance_response("HTTP/1.1 404 Not Found\r\n\r\n{\"web_port\":1,\"controller_port\":2}"));
    assert!(!is_instance_response("HTTP/1.1 200 OK\r\n\r\n{\"web_port\":1}"));
    assert!(!is_instance_response(""));
    assert!(instance_probe_request().starts_with("GET /api/config/get_config HTTP/1.1\r\n"));
}

#[test]
fn configured_ports_when_free() {
    assert_eq!(select_available_server_ports(27183, 27184, |_, _| true), Some((27183, 27184)));
}

#[test]
fn shifts_ports_until_free() {
    let calls = Cell::new(0u32);
    let r = select_available_server_ports(1000, 2000, |c, w| {
        calls.set(calls.get() + 1);
        c >= 1003 && w == c + 1000
    });
    assert_eq!(r, Some((1003, 2003)));
    assert_eq!(calls.get(), 4);
}

#[test]
fn equal_ports_are_never_probed() {
    let calls = Cell::new(0u32);
    let r = select_available_server_ports(5000, 5000, |_, _| {
        calls.set(calls.get() + 1);
        true
    });
    assert_eq!(r, None);
    assert_eq!(calls.get(), 0);
}

#[test]
fn gives_up_after_attempts_or_overflow() {
    let calls = Cell::new(0u32);
    assert_eq!(
        select_available_server_ports(1000, 2000, |_, _| {
            calls.set(calls.get() + 1);
            false
        }),
        None
    );
    assert_eq!(calls.get(), PORT_FALLBACK_ATTEMPTS as u32 + 1);
    let calls = Cell::new(0u32);
    assert_eq!(
        select_available_server_ports(65530, 100, |_, _| {
            calls.set(calls.get() + 1);
            false
        }),
        None
    );
    assert_eq!(calls.get(), 6);
}

#[test]
fn webview_geometry_and_url() {
    assert_eq!(webview_bounds(0, 0), (1, 1));
    assert_eq!(webview_bounds(1280, 720), (1280, 720));
    assert_eq!(webview_url([0, 0, 0, 0], 27184), "http://127.0.0.1:27184");
    assert_eq!(webview_url([192, 168, 0, 10], 80), "http://192.168.0.10:80");
}

#[test]
fn webview_sync_retries_failures() {
    let mut s = WebViewSync::default();
    assert_eq!(s.last_size, (0, 0));
    s.created((800, 600), true);
    let u = s.plan((800, 600), true);
    assert!(!u.resize && !u.change_visibility);
    let u = s.plan((1024, 600), false);
    assert!(u.resize && u.change_visibility);
    s.resized((1024, 600), false);
    assert_eq!(s.last_size, (800, 600));
    s.resized((1024, 600), true);
    assert_eq!(s.last_size, (1024, 600));
    s.visibility_set(false, true);
    assert!(!s.last_visible);
}

#[test]
fn webview_is_built_once_when_the_timer_runs_out() {
    let mut s = WebViewSync::default();
    assert!(!s.build_due(false));
    assert!(s.build_due(true));
    s.created((800, 600), true);
    assert!(s.built);
    assert!(!s.build_due(true));
    s.resized((900, 600), true);
    s.visibility_set(false, true);
    assert!(!s.build_due(true) && !s.build_due(false));
}
