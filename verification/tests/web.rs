use dsondt::web::{
    check_external_url, child_navigation, inject_script, memories_push_script,
    open_memory_event_script, Activation, ChildNavigation, DsondtAction, WebState,
};
use dsondt::web_script::INJECT_JS;

#[test]
fn web_state_flags() {
    let mut s = WebState::default();
    assert!(!s.is_active() && !s.is_suppressed());
    s.set_active(true);
    s.set_suppressed(true);
    assert!(s.is_active() && s.is_suppressed());
    s.set_home_url("http://tauri.localhost/".to_string());
    assert_eq!(s.home_url(), "http://tauri.localhost/");
}

#[test]
fn pending_api_is_consumed_once() {
    let mut s = WebState::default();
    s.set_active(true);
    s.set_home_url("http://tauri.localhost/".to_string());
    let home = s.leave_web_mode(true);
    assert_eq!(home, "http://tauri.localhost/");
    assert!(!s.is_active() && !s.is_suppressed());
    assert!(s.take_pending_api());
    assert!(!s.take_pending_api());
    s.set_pending_api(true);
    assert!(s.take_pending_api());
    s.set_active(true);
    s.set_suppressed(true);
    s.leave_web_mode(false);
    assert!(!s.is_active() && !s.is_suppressed());
    assert!(!s.take_pending_api());
}

#[test]
fn main_navigation_records_local_home() {
    let mut s = WebState::default();
    s.set_active(true);
    assert!(s.note_main_navigation("chat.deepseek.com", "https://chat.deepseek.com/".to_string(), true));
    assert!(s.is_active());
    assert_eq!(s.home_url(), "");
    assert!(s.note_main_navigation("tauri.localhost", "http://tauri.localhost/".to_string(), false));
    assert!(s.is_active());
    assert!(s.note_main_navigation("tauri.localhost", "http://tauri.localhost/".to_string(), true));
    assert!(!s.is_active());
    assert_eq!(s.home_url(), "http://tauri.localhost/");
    assert!(s.note_main_navigation("asset.localhost", "http://asset.localhost/x".to_string(), true));
    assert_eq!(s.home_url(), "http://asset.localhost/x");
}

#[test]
fn inject_script_bakes_memories() {
    let js = inject_script("[{\"content\":\"c\",\"origin\":\"web\"}]");
    assert!(!js.contains("__DSONDT_MEMORIES__"));
    assert!(js.contains("var MEMORIES = [{\"content\":\"c\",\"origin\":\"web\"}];"));
    assert_eq!(js, INJECT_JS.replace("__DSONDT_MEMORIES__", "[{\"content\":\"c\",\"origin\":\"web\"}]"));
}

#[test]
fn push_script() {
    assert_eq!(
        memories_push_script("[]"),
        "try{window.__DSONDT__&&window.__DSONDT__.setMemories([])}catch(e){}"
    );
}

#[test]
fn page_requests() {
    assert_eq!(child_navigation("https", "chat.deepseek.com"), ChildNavigation::Allow);
    assert_eq!(child_navigation("dsondt", "open-memory"), ChildNavigation::Intercept(DsondtAction::OpenMemory));
    assert_eq!(child_navigation("dsondt", "other"), ChildNavigation::Intercept(DsondtAction::Ignore));
    assert_eq!(open_memory_event_script(), "window.dispatchEvent(new CustomEvent('dsondt:open-memory'))");
}

#[test]
fn only_web_addresses_open() {
    assert_eq!(check_external_url("https://github.com"), Ok(()));
    assert_eq!(check_external_url("http://x"), Ok(()));
    assert_eq!(check_external_url("file:///etc"), Err("仅允许打开 http/https 链接".to_string()));
    assert_eq!(check_external_url("HTTPS://x"), Err("仅允许打开 http/https 链接".to_string()));
}

#[test]
fn activation_decisions() {
    let mut s = WebState::default();
    assert_eq!(s.start_web_mode(true), Activation::Open);
    assert!(!s.is_active());
    s.web_mode_opened(true);
    assert!(s.is_active());
    s.set_suppressed(true);
    assert_eq!(s.start_web_mode(true), Activation::AlreadyOpen);
    assert!(s.is_active() && s.is_suppressed());
    assert_eq!(s.start_web_mode(false), Activation::Reveal);
    assert!(s.is_active() && !s.is_suppressed());
    assert_eq!(s.start_web_mode(false), Activation::AlreadyOpen);
    let mut t = WebState::default();
    t.set_suppressed(true);
    assert_eq!(t.start_web_mode(false), Activation::Open);
    t.web_mode_opened(false);
    assert!(t.is_active() && !t.is_suppressed());
}

#[test]
fn active_is_the_last_value_set() {
    let mut s = WebState::default();
    s.set_active(true);
    s.set_suppressed(true);
    s.set_home_url("http://tauri.localhost/".to_string());
    s.set_pending_api(true);
    let _ = s.take_pending_api();
    let _ = s.start_web_mode(true);
    assert!(s.is_active());
    s.note_main_navigation("chat.deepseek.com", "https://chat.deepseek.com/".to_string(), true);
    assert!(s.is_active());
    s.set_active(false);
    let _ = s.start_web_mode(false);
    assert!(!s.is_active());
}
