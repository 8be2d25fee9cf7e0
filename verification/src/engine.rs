//! The rendering engine's own state behind its C interface: the page it
//! shows, the snapshot it hands over in a hot swap, and how the raw codes
//! of the interface are read.
use vstd::prelude::*;
use crate::text::{contains_char, has_char};
use crate::weburl::{url_parse, WebUrl};

verus! {

/// The engine's version, as `aura_engine_version` reports it.
pub const ENGINE_VERSION: &'static str = "1.4.2";

/// The user agent used when the configuration names none.
pub const DEFAULT_USER_AGENT: &'static str = "Aura/1.0 (Subtractive Glassmorphism; Rust)";

/// The page a cold engine opens.
pub const START_PAGE: &'static str = "https://www.google.com";

/// The user agent of an engine: the configured one, else the default.
pub fn user_agent(configured: Option<String>) -> (ua: String)
    ensures
        ua@ == (match configured {
            Some(s) => s@,
            None => DEFAULT_USER_AGENT@,
        }),
{
    match configured {
        Some(s) => s,
        None => DEFAULT_USER_AGENT.to_owned(),
    }
}

/// The windowing system an engine draws into.
#[derive(Clone, Copy, Debug, PartialEq, Eq, Structural)]
pub enum Platform {
    Windows,
    MacOs,
    X11,
    Wayland,
}

/// The windowing system of a platform code: 0 Windows, 1 macOS, 2 X11,
/// 3 Wayland; any other code names none.
pub open spec fn platform_of(code: u32) -> Option<Platform> {
    if code == 0 {
        Some(Platform::Windows)
    } else if code == 1 {
        Some(Platform::MacOs)
    } else if code == 2 {
        Some(Platform::X11)
    } else if code == 3 {
        Some(Platform::Wayland)
    } else {
        None
    }
}

/// The windowing system of a platform code.
pub fn platform_from_code(code: u32) -> (p: Option<Platform>)
    ensures
        p == platform_of(code),
{
    match code {
        0 => Some(Platform::Windows),
        1 => Some(Platform::MacOs),
        2 => Some(Platform::X11),
        3 => Some(Platform::Wayland),
        _ => None,
    }
}

/// The size a drawing surface is resized to: none where either side is 0.
pub fn surface_size(width: u32, height: u32) -> (s: Option<(u32, u32)>)
    ensures
        s == (if width == 0 || height == 0 {
            None
        } else {
            Some((width, height))
        }),
{
    if width == 0 || height == 0 {
        None
    } else {
        Some((width, height))
    }
}

/// A pointer action.
#[derive(Clone, Copy, Debug, PartialEq, Eq, Structural)]
pub enum MouseAction {
    Move,
    LeftDown,
    LeftUp,
}

/// The pointer action of an event code: 0 a move, 1 a left press, 2 a left
/// release; other codes are ignored.
pub fn mouse_action(event_type: i32) -> (a: Option<MouseAction>)
    ensures
        a == (if event_type == 0 {
            Some(MouseAction::Move)
        } else if event_type == 1 {
            Some(MouseAction::LeftDown)
        } else if event_type == 2 {
            Some(MouseAction::LeftUp)
        } else {
            None
        }),
{
    match event_type {
        0 => Some(MouseAction::Move),
        1 => Some(MouseAction::LeftDown),
        2 => Some(MouseAction::LeftUp),
        _ => None,
    }
}

/// Whether a key goes down or up.
#[derive(Clone, Copy, Debug, PartialEq, Eq, Structural)]
pub enum KeyPhase {
    Down,
    Up,
}

/// The phase of a key event code: 0 is a press, anything else a release.
pub fn key_phase(state: i32) -> (p: KeyPhase)
    ensures
        p == (if state == 0 {
            KeyPhase::Down
        } else {
            KeyPhase::Up
        }),
{
    if state == 0 {
        KeyPhase::Down
    } else {
        KeyPhase::Up
    }
}

/// The state an engine hands to its successor: the page URL, `None` for a
/// null pointer. Scroll positions travel beside it.
#[derive(Debug)]
pub struct Snapshot {
    pub current_url: Option<String>,
}

/// What an engine keeps across a hot swap: the URL of the page it shows.
pub struct EngineState {
    current_url: String,
}

/// What a snapshot says of a URL: the URL itself, unless it holds a NUL,
/// which no C string can carry; then the empty string.
pub open spec fn snapshot_url(url: Seq<char>) -> Seq<char> {
    if has_char(url, '\0') {
        Seq::empty()
    } else {
        url
    }
}

impl EngineState {
    /// The URL of the page shown.
    pub closed spec fn url(&self) -> Seq<char> {
        self.current_url@
    }

    /// A cold engine, showing the start page.
    pub fn new_cold() -> (s: Self)
        ensures
            s.url() == START_PAGE@,
    {
        EngineState { current_url: START_PAGE.to_owned() }
    }

    /// The URL of the page shown.
    pub fn current_url(&self) -> (u: &String)
        ensures
            u@ == self.url(),
    {
        &self.current_url
    }

    /// Navigates to `url_str`: where it parses, it becomes the page shown,
    /// as written, and the parsed URL is handed back to be loaded; where it
    /// does not, nothing changes.
    pub fn navigate(&mut self, url_str: &str) -> (loaded: Option<WebUrl>)
        ensures
            match url_parse(url_str@) {
                Some(p) => loaded matches Some(u) && u.parts() == p && final(self).url()
                    == url_str@,
                None => loaded is None && final(self).url() == old(self).url(),
            },
    {
        match WebUrl::parse(url_str) {
            Some(u) => {
                self.current_url = url_str.to_owned();
                Some(u)
            },
            None => None,
        }
    }

    /// The snapshot this engine hands over: its URL, or the empty string
    /// where the URL holds a NUL.
    pub fn serialise_state(&self) -> (snap: Snapshot)
        ensures
            snap.current_url matches Some(u) && u@ == snapshot_url(self.url()),
    {
        if contains_char(self.current_url.as_str(), '\0') {
            Snapshot { current_url: Some(String::new()) }
        } else {
            Snapshot { current_url: Some(self.current_url.clone()) }
        }
    }

    /// Takes over a predecessor's snapshot: its URL, if any, becomes the
    /// page shown, and is handed back parsed where it parses, to be loaded.
    /// The engine always accepts a snapshot.
    pub fn restore_from_snapshot(&mut self, snapshot: &Snapshot) -> (r: (bool, Option<WebUrl>))
        ensures
            r.0,
            match &snapshot.current_url {
                Some(u) => final(self).url() == u@ && match url_parse(u@) {
                    Some(p) => r.1 matches Some(w) && w.parts() == p,
                    None => r.1 is None,
                },
                None => final(self).url() == old(self).url() && r.1 is None,
            },
    {
        match &snapshot.current_url {
            Some(u) => {
                self.current_url = u.clone();
                (true, WebUrl::parse(u.as_str()))
            },
            None => (true, None),
        }
    }
}

/// A hot swap carries the page over: an engine that takes the snapshot of
/// another shows the same URL, unless that URL held a NUL, in which case it
/// shows the empty URL.
pub proof fn handoff_keeps_page(old_engine: &EngineState, snap: &Snapshot, new_engine: &EngineState)
    requires
        snap.current_url matches Some(u) && u@ == snapshot_url(old_engine.url()),
        new_engine.url() == snap.current_url->0@,
    ensures
        !has_char(old_engine.url(), '\0') ==> new_engine.url() == old_engine.url(),
        has_char(old_engine.url(), '\0') ==> new_engine.url() == Seq::<char>::empty(),
{
}

} // verus!
