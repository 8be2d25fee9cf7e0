use aura::hot_swap::SwapError;
use aura::net::InterceptDecision;
use aura::shell::{
    favicon_url, lotus_step, navigation_target, resolve_navigation, silo_status, summary_error,
    toggle_command_bar, AuraError, STATUS_READY, STATUS_THINKING,
};
use aura::silo::SiloError;
use aura::summary::AiError;
use aura::tabs::{add_tab, sage_glow, tint_active, Rgb, Tab};
use aura::weburl::WebUrl;

#[test]
fn words_become_a_search() {
    let u = resolve_navigation("rust lang").unwrap();
    assert_eq!(u.as_str(), "https://duckduckgo.com/?q=rust+lang");
    let u = resolve_navigation("weather").unwrap();
    assert_eq!(u.as_str(), "https://duckduckgo.com/?q=weather");
}

#[test]
fn addresses_get_a_scheme() {
    assert_eq!(resolve_navigation("example.com").unwrap().as_str(), "https://example.com/");
    assert_eq!(resolve_navigation("localhost:8080").unwrap().as_str(), "https://localhost:8080/");
    assert_eq!(resolve_navigation("http://example.com").unwrap().as_str(), "http://example.com/");
}

#[test]
fn unparsable_address_is_invalid() {
    assert_eq!(
        resolve_navigation("http://[bad.com").err(),
        Some(AuraError::InvalidUrl("http://[bad.com".into()))
    );
}

#[test]
fn blocked_navigation_reports_reason() {
    let r = navigation_target(InterceptDecision::Block { reason: "adblock_matched" });
    assert_eq!(r.err(), Some(AuraError::EngineError("Blocked: adblock_matched".into())));
    let u = WebUrl::parse("https://a.test/").unwrap();
    assert_eq!(navigation_target(InterceptDecision::Redirect(u)).unwrap().as_str(), "https://a.test/");
}

#[test]
fn favicon_next_to_page() {
    assert_eq!(favicon_url("https://a.com/"), "https://a.com/favicon.ico");
    assert_eq!(favicon_url("https://a.com///"), "https://a.com/favicon.ico");
    assert_eq!(favicon_url("https://a.com/x"), "https://a.com/x/favicon.ico");
    assert_eq!(favicon_url(""), "/favicon.ico");
}

#[test]
fn overlay_toggles() {
    assert!(toggle_command_bar(false));
    assert!(!toggle_command_bar(true));
    let open = lotus_step(false);
    assert!(open.breathe_visible && open.summarize);
    assert_eq!(open.status, STATUS_THINKING);
    assert_eq!(STATUS_THINKING, "Aura is thinking...");
    let close = lotus_step(true);
    assert!(!close.breathe_visible && !close.summarize);
    assert_eq!(close.status, STATUS_READY);
}

#[test]
fn silo_status_answers() {
    assert_eq!(silo_status(Ok(())), Ok(true));
    assert_eq!(
        silo_status(Err(SiloError::Db("no such table".into()))),
        Err(AuraError::EngineError("Silo error: Database error: no such table".into()))
    );
}

#[test]
fn summary_errors() {
    assert_eq!(summary_error(None), AuraError::EngineError("AI Engine failed to load".into()));
    assert_eq!(
        summary_error(Some(&AiError::Api("offline".into()))),
        AuraError::EngineError("API error: offline".into())
    );
}

#[test]
fn aura_error_messages() {
    assert_eq!(AuraError::InvalidUrl("x y".into()).message(), "Invalid URL");
    assert_eq!(AuraError::EngineError("boom".into()).message(), "Engine error: boom");
    assert_eq!(
        AuraError::from_swap(&SwapError::Library("missing symbol".into())),
        AuraError::EngineError("Library error: missing symbol".into())
    );
}

fn tab(id: i32, active: bool) -> Tab {
    Tab { id, title: format!("t{}", id), glow_color: Rgb { r: 1, g: 2, b: 3 }, active, pinned: id == 2 }
}

#[test]
fn new_tab_takes_next_id_and_focus() {
    let tabs = vec![tab(3, false), tab(7, true), tab(2, false)];
    let after = add_tab(&tabs, "New".into());
    assert_eq!(after.len(), 4);
    let ids: Vec<i32> = after.iter().map(|t| t.id).collect();
    assert_eq!(ids, vec![3, 7, 2, 8]);
    assert_eq!(after.iter().filter(|t| t.active).count(), 1);
    let last = &after[3];
    assert!(last.active && !last.pinned);
    assert_eq!(last.title, "New");
    assert_eq!(last.glow_color, sage_glow());
    assert_eq!(sage_glow(), Rgb { r: 212, g: 225, b: 209 });
    assert!(after[2].pinned);
    assert_eq!(after[1].title, "t7");
}

#[test]
fn first_tab_is_one() {
    let after = add_tab(&vec![], "Home".into());
    assert_eq!(after.len(), 1);
    assert_eq!(after[0].id, 1);
    let neg = add_tab(&vec![tab(-5, true)], "n".into());
    assert_eq!(neg[1].id, -4);
}

#[test]
fn active_tabs_take_the_favicon_colour() {
    let tabs = vec![tab(1, true), tab(2, false)];
    let red = Rgb { r: 255, g: 0, b: 0 };
    let after = tint_active(&tabs, red);
    assert_eq!(after[0].glow_color, red);
    assert_eq!(after[1].glow_color, Rgb { r: 1, g: 2, b: 3 });
    assert_eq!(after[1].id, 2);
}
