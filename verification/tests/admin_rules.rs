use time_tracker::admin::forms::{
    device_page_location, log_page_location, parse_device_form, parse_log_form, require_found,
    require_rows_affected,
};
use time_tracker::admin::pages::{
    devices_page, edit_device_page, edit_log_page, log_filter, login_html, logs_page, page,
    shared_style, LOG_LIST_LIMIT,
};
use time_tracker::admin::session::{
    admin_gate, find_cookie_value, has_valid_admin_cookie, AdminGate, login, logout_cookie, session_cookie,
    AdminAuthState, LoginReply, ADMIN_COOKIE_NAME,
};
use time_tracker::crypto::generate_auth_token;
use time_tracker::model::{Log, PubDevice};

#[test]
fn admin_cookie_must_match_the_generated_session() {
    let header = "other=x; time_tracker_admin=correct";
    assert!(has_valid_admin_cookie(Some(header), "correct"));
    assert!(!has_valid_admin_cookie(Some(header), "incorrect"));
}

#[test]
fn admin_cookie_absent_or_malformed_is_rejected() {
    assert!(!has_valid_admin_cookie(None, "correct"));
    assert!(!has_valid_admin_cookie(Some(""), ""));
    assert!(!has_valid_admin_cookie(Some("time_tracker_admin"), "time_tracker_admin"));
    assert!(!has_valid_admin_cookie(Some("other=correct"), "correct"));
    assert!(!has_valid_admin_cookie(Some("time_tracker_admin=correctx"), "correct"));
    assert!(!has_valid_admin_cookie(Some("xtime_tracker_admin=correct"), "correct"));
}

#[test]
fn admin_cookie_pieces_are_trimmed_and_the_first_match_counts() {
    assert!(has_valid_admin_cookie(Some("  time_tracker_admin=tok  ;a=b"), "tok"));
    assert!(has_valid_admin_cookie(Some("a=b;time_tracker_admin=t=k"), "t=k"));
    assert!(!has_valid_admin_cookie(Some("time_tracker_admin=one; time_tracker_admin=two"), "two"));
    assert_eq!(find_cookie_value("a; time_tracker_admin=v; c=d", ADMIN_COOKIE_NAME), Some("v"));
    assert_eq!(find_cookie_value("a; b", ADMIN_COOKIE_NAME), None);
}

#[test]
fn the_session_cookie_is_accepted_back() {
    let token = generate_auth_token().unwrap();
    let set_cookie = session_cookie(&token);
    assert_eq!(set_cookie, format!("time_tracker_admin={}; Path=/admin; HttpOnly; SameSite=Strict", token));
    let echoed = set_cookie.split(';').next().unwrap();
    assert!(has_valid_admin_cookie(Some(echoed), &token));
    assert_eq!(
        logout_cookie(),
        "time_tracker_admin=; Path=/admin; HttpOnly; SameSite=Strict; Max-Age=0"
    );
}

#[test]
fn login_accepts_only_the_configured_password() {
    let auth = AdminAuthState::new("use-a-long-password-here", "session-token".to_string());
    match login(&auth, "use-a-long-password-here") {
        LoginReply::Accepted { location, set_cookie } => {
            assert_eq!(location, "/admin/devices");
            assert_eq!(set_cookie, "time_tracker_admin=session-token; Path=/admin; HttpOnly; SameSite=Strict");
        }
        LoginReply::Rejected { .. } => panic!("the configured password was rejected"),
    }
    match login(&auth, "wrong") {
        LoginReply::Rejected { status, html } => {
            assert_eq!(status, 401);
            assert_eq!(html, login_html(Some("Incorrect password")));
            assert!(html.contains("<p class=\"error\">Incorrect password</p>"));
        }
        LoginReply::Accepted { .. } => panic!("a wrong password was accepted"),
    }
}

#[test]
fn pages_escape_their_title_and_carry_the_style() {
    let p = page("<Devices>", "<b>body</b>");
    assert!(p.starts_with("<!doctype html><html><head><meta charset=\"utf-8\">"));
    assert!(p.contains("<title>&lt;Devices&gt;</title><style>"));
    assert!(p.contains(shared_style()));
    assert!(p.ends_with("<main><b>body</b></main></body></html>"));
    let l = login_html(None);
    assert!(!l.contains("class=\"error\""));
    assert!(l.contains("<title>Admin login</title>"));
}

fn pub_device(uuid: &str, name: &str, last: i64, active: bool) -> PubDevice {
    PubDevice { uuid: uuid.to_string(), name: name.to_string(), last_sync_id: last, is_active: active }
}

#[test]
fn device_list_counts_waiting_devices_and_escapes_names() {
    let ds = vec![pub_device("u-1", "<laptop>", 4, false), pub_device("u-2", "desk", -3, true)];
    let html = devices_page(&ds);
    assert!(html.contains("<p>1 waiting · 2 total</p>"));
    assert!(html.contains("<strong>&lt;laptop&gt;</strong>"));
    assert!(html.contains("/admin/devices/u-1/activate"));
    assert!(html.contains("/admin/devices/u-2/deactivate"));
    assert!(html.contains("<td>-3</td>"));
    assert!(html.contains("<span class=\"status pending\">Waiting for approval</span>"));
}

#[test]
fn device_page_shows_the_form_values() {
    let html = edit_device_page(&pub_device("u-9", "a\"b", 77, true));
    assert!(html.contains("<p>Status: Active</p>"));
    assert!(html.contains("value=\"a&quot;b\""));
    assert!(html.contains("value=\"77\""));
    assert!(html.contains("/admin/logs?device_uuid=u-9"));
}

fn log(id: i64, dev: &str, app: &str) -> Log {
    Log { id, device_uuid: dev.to_string(), app: app.to_string(), timestamp: 100, duration: 15 }
}

#[test]
fn log_list_filter_and_rows() {
    assert_eq!(log_filter(Some("")), None);
    assert_eq!(log_filter(None), None);
    assert_eq!(log_filter(Some("u")), Some("u"));
    assert_eq!(LOG_LIST_LIMIT, 2000);
    let html = logs_page(Some("u-1"), &vec![log(7, "u-1", "Editor")]);
    assert!(html.contains("<p>Filtered by device: u-1</p>"));
    assert!(html.contains("<p>Showing up to 2000 rows (newest first).</p>"));
    assert!(html.contains("<tr><td>7</td><td>u-1</td><td>Editor</td><td>100</td><td>15</td><td><a href=\"/admin/logs/u-1/7\">edit</a></td></tr>"));
    let unfiltered = logs_page(Some(""), &vec![]);
    assert!(!unfiltered.contains("Filtered by device"));
    assert!(unfiltered.contains("value=\"\" size=\"40\""));
    let page = edit_log_page(&log(8, "u-2", "Browser & co"));
    assert!(page.contains("<p>device_uuid: u-2</p><p>id: 8</p>"));
    assert!(page.contains("value=\"Browser &amp; co\""));
}

#[test]
fn forms_are_read_after_trimming() {
    let u = parse_device_form("  Laptop ", " 42 ").unwrap();
    assert_eq!((u.name.as_str(), u.last_sync_id), ("Laptop", 42));
    let e = parse_device_form("x", "4x").unwrap_err();
    assert_eq!((e.status, e.message.as_str()), (400, "last_sync_id must be a number"));
    let l = parse_log_form(" Editor ", "100", " 45").unwrap();
    assert_eq!((l.app.as_str(), l.timestamp, l.duration), ("Editor", 100, 45));
    let e = parse_log_form("a", "x", "y").unwrap_err();
    assert_eq!(e.message, "timestamp must be a number");
    let e = parse_log_form("a", "1", "y").unwrap_err();
    assert_eq!((e.status, e.message.as_str()), (400, "duration must be a number"));
}

#[test]
fn missing_rows_are_not_found() {
    let e = require_rows_affected(0, "device not found").unwrap_err();
    assert_eq!((e.status, e.message.as_str()), (404, "device not found"));
    assert!(require_rows_affected(1, "device not found").is_ok());
    assert_eq!(require_found(Some(3), "log not found").unwrap(), 3);
    assert_eq!(require_found::<i64>(None, "log not found").unwrap_err().status, 404);
    assert_eq!(device_page_location("u-1"), "/admin/devices/u-1");
    assert_eq!(log_page_location("u-1", -5), "/admin/logs/u-1/-5");
}

#[test]
fn the_admin_gate_lets_only_the_session_through() {
    assert!(matches!(admin_gate(Some("time_tracker_admin=tok"), "tok"), AdminGate::Allow));
    for header in [None, Some("time_tracker_admin=other"), Some("a=b"), Some("time_tracker_admin=")] {
        match admin_gate(header, "tok") {
            AdminGate::RedirectToLogin { location } => assert_eq!(location, "/admin/login"),
            AdminGate::Allow => panic!("a request without the session passed"),
        }
    }
}
