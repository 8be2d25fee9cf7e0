use aura::shell::{engine_library_name, HostOs};
use aura::engine::{
    key_phase, mouse_action, platform_from_code, surface_size, user_agent, EngineState, KeyPhase, MouseAction,
    Platform, Snapshot, DEFAULT_USER_AGENT, ENGINE_VERSION,
};
use aura::hot_swap::{check_ffi_url, navigation_reply, EngineSlot, IoErrorKind, SwapError};

#[test]
fn cold_engine_shows_start_page() {
    let e = EngineState::new_cold();
    assert_eq!(e.current_url(), "https://www.google.com");
    assert_eq!(ENGINE_VERSION, "1.4.2");
}

#[test]
fn navigation_keeps_text_as_written() {
    let mut e = EngineState::new_cold();
    let loaded = e.navigate("HTTPS://Example.com");
    assert_eq!(loaded.unwrap().as_str(), "https://example.com/");
    assert_eq!(e.current_url(), "HTTPS://Example.com");
    assert!(e.navigate("not a url").is_none());
    assert_eq!(e.current_url(), "HTTPS://Example.com");
}

#[test]
fn snapshot_carries_page_across_swap() {
    let mut old = EngineState::new_cold();
    old.navigate("https://rust-lang.org/learn");
    let snap = old.serialise_state();
    let mut fresh = EngineState::new_cold();
    let (ok, load) = fresh.restore_from_snapshot(&snap);
    assert!(ok);
    assert_eq!(fresh.current_url(), "https://rust-lang.org/learn");
    assert_eq!(load.unwrap().as_str(), "https://rust-lang.org/learn");
}

#[test]
fn empty_snapshot_changes_nothing() {
    let mut e = EngineState::new_cold();
    let (ok, load) = e.restore_from_snapshot(&Snapshot { current_url: None });
    assert!(ok && load.is_none());
    assert_eq!(e.current_url(), "https://www.google.com");
    let (ok, load) = e.restore_from_snapshot(&Snapshot { current_url: Some("junk".into()) });
    assert!(ok && load.is_none());
    assert_eq!(e.current_url(), "junk");
}

#[test]
fn raw_codes() {
    assert_eq!(platform_from_code(0), Some(Platform::Windows));
    assert_eq!(platform_from_code(1), Some(Platform::MacOs));
    assert_eq!(platform_from_code(2), Some(Platform::X11));
    assert_eq!(platform_from_code(3), Some(Platform::Wayland));
    assert_eq!(platform_from_code(4), None);
    assert_eq!(mouse_action(0), Some(MouseAction::Move));
    assert_eq!(mouse_action(1), Some(MouseAction::LeftDown));
    assert_eq!(mouse_action(2), Some(MouseAction::LeftUp));
    assert_eq!(mouse_action(-1), None);
    assert_eq!(key_phase(0), KeyPhase::Down);
    assert_eq!(key_phase(1), KeyPhase::Up);
    assert_eq!(key_phase(-7), KeyPhase::Up);
}

#[test]
fn user_agent_default() {
    assert_eq!(user_agent(None), DEFAULT_USER_AGENT);
    assert_eq!(user_agent(None), "Aura/1.0 (Subtractive Glassmorphism; Rust)");
    assert_eq!(user_agent(Some("Custom".into())), "Custom");
}

#[test]
fn slot_routes_to_serving_engine() {
    let mut slot: EngineSlot<&str, u32> = EngineSlot::new();
    assert_eq!(slot.engine().err(), Some(SwapError::InitFailed));
    assert_eq!(slot.handles().err(), Some(SwapError::InitFailed));
    slot.remember_handles(7);
    assert_eq!(slot.handles().ok(), Some(&7));
    assert_eq!(slot.install("v1"), None);
    assert_eq!(slot.install("v2"), Some("v1"));
    assert_eq!(slot.engine().ok(), Some(&"v2"));
    assert_eq!(slot.handles().ok(), Some(&7));
}

#[test]
fn ffi_url_checks() {
    assert!(check_ffi_url("https://a.test/").is_ok());
    assert_eq!(check_ffi_url("a\0b").err(), Some(SwapError::Io(IoErrorKind::InvalidInput, "Invalid URL string".into())));
    assert_eq!(navigation_reply(true), Ok(()));
    assert_eq!(navigation_reply(false), Err(SwapError::InitFailed));
    assert_eq!(SwapError::InitFailed.message(), "Init failed");
    assert_eq!(SwapError::Io(IoErrorKind::Other, "x".into()).message(), "IO error: x");
    assert_eq!(SwapError::Net("y".into()).message(), "Network error: y");
}

#[test]
fn nul_url_snapshot_is_empty() {
    let mut e = EngineState::new_cold();
    let snap = e.serialise_state();
    assert_eq!(snap.current_url.as_deref(), Some("https://www.google.com"));
    e.restore_from_snapshot(&Snapshot { current_url: Some("a\0b".into()) });
    let snap = e.serialise_state();
    assert_eq!(snap.current_url.as_deref(), Some(""));
}

#[test]
fn surfaces_resize_only_to_real_sizes() {
    assert_eq!(surface_size(800, 600), Some((800, 600)));
    assert_eq!(surface_size(0, 600), None);
    assert_eq!(surface_size(800, 0), None);
}

#[test]
fn engine_library_per_host() {
    assert_eq!(engine_library_name(HostOs::Windows), "aura_engine.dll");
    assert_eq!(engine_library_name(HostOs::MacOs), "libaura_engine.dylib");
    assert_eq!(engine_library_name(HostOs::Other), "libaura_engine.so");
}
