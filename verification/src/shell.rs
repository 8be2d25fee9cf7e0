//! The browser shell's decisions: what an address-bar entry navigates to,
//! what comes of an intercepted navigation, the tab constellation, the
//! overlays, and the errors handed back to the interface.
use vstd::prelude::*;
use crate::hot_swap::SwapError;
use crate::net::InterceptDecision;
use crate::silo::SiloError;
use crate::summary::AiError;
use crate::text::{
    concat_str, contains_char, contains_str, has_char, has_prefix, has_substring, starts_with_str,
    chars_of, string_of,
};
use crate::weburl::{url_parse, url_parse_with_param, WebUrl};

verus! {

/// An error handed back to the interface.
#[derive(Debug, PartialEq, Eq)]
pub enum AuraError {
    InvalidUrl(String),
    EngineError(String),
}

impl AuraError {
    /// The text this error displays; the rejected input of `InvalidUrl` is
    /// not part of it.
    pub open spec fn spec_message(&self) -> Seq<char> {
        match self {
            AuraError::InvalidUrl(_) => "Invalid URL"@,
            AuraError::EngineError(m) => "Engine error: "@ + m@,
        }
    }

    /// The text this error displays.
    pub fn message(&self) -> (s: String)
        ensures
            s@ == self.spec_message(),
    {
        match self {
            AuraError::InvalidUrl(_) => "Invalid URL".to_owned(),
            AuraError::EngineError(m) => concat_str("Engine error: ", m.as_str()),
        }
    }

    /// The engine error that reports a failed swap, with that failure's
    /// message.
    pub fn from_swap(err: &SwapError) -> (e: AuraError)
        ensures
            e matches AuraError::EngineError(m) && m@ == err.spec_message(),
    {
        AuraError::EngineError(err.message())
    }
}

/// The search page that non-address input is sent to.
pub const SEARCH_ENGINE: &'static str = "https://duckduckgo.com/";

/// The query parameter of a search.
pub const SEARCH_PARAM: &'static str = "q";

/// The scheme put in front of an address typed without one.
pub const DEFAULT_SCHEME: &'static str = "https://";

/// Whether address-bar input is a search rather than an address: it holds
/// a space, or it holds no `.` and does not start with `localhost`.
pub open spec fn is_search_input(input: Seq<char>) -> bool {
    has_char(input, ' ') || (!has_char(input, '.') && !has_prefix(input, "localhost"@))
}

/// An address with `https://` in front unless it already holds `://`.
pub open spec fn with_scheme(input: Seq<char>) -> Seq<char> {
    if has_substring(input, "://"@) {
        input
    } else {
        DEFAULT_SCHEME@ + input
    }
}

/// What address-bar input navigates to: a search for it, or the address
/// it names; `None` where that does not parse as a URL.
pub open spec fn navigation_url(input: Seq<char>) -> Option<(Seq<char>, Seq<char>)> {
    if is_search_input(input) {
        url_parse_with_param(SEARCH_ENGINE@, SEARCH_PARAM@, input)
    } else {
        url_parse(with_scheme(input))
    }
}

/// Input that starts with `localhost` and holds no space is an address,
/// never a search, with or without a port or a path after it.
pub proof fn localhost_is_an_address(input: Seq<char>)
    requires
        has_prefix(input, "localhost"@),
        !has_char(input, ' '),
    ensures
        navigation_url(input) == url_parse(with_scheme(input)),
{
}

/// Input that holds a space is always a search on DuckDuckGo, with the
/// whole input as the `q` parameter.
pub proof fn spaced_input_is_a_search(input: Seq<char>)
    requires
        has_char(input, ' '),
    ensures
        navigation_url(input) == url_parse_with_param("https://duckduckgo.com/"@, "q"@, input),
{
}

/// Input without a space that holds a `.` is an address: taken as it is
/// where it holds `://`, else with `https://` in front.
pub proof fn dotted_input_is_an_address(input: Seq<char>)
    requires
        has_char(input, '.'),
        !has_char(input, ' '),
    ensures
        navigation_url(input) == url_parse(
            if has_substring(input, "://"@) {
                input
            } else {
                "https://"@ + input
            },
        ),
{
}

/// A single word (no space, no `.`) that does not start with `localhost`
/// is a search.
pub proof fn bare_word_is_a_search(input: Seq<char>)
    requires
        !has_char(input, ' '),
        !has_char(input, '.'),
        !has_prefix(input, "localhost"@),
    ensures
        navigation_url(input) == url_parse_with_param("https://duckduckgo.com/"@, "q"@, input),
{
}

/// The URL that address-bar input navigates to: a search engine query for
/// a search, else the address, with `https://` added when it has no scheme
/// separator. Input that gives no URL is an `InvalidUrl` carrying it.
pub fn resolve_navigation(input: &str) -> (r: Result<WebUrl, AuraError>)
    ensures
        match navigation_url(input@) {
            Some(p) => r matches Ok(u) && u.parts() == p,
            None => r matches Err(AuraError::InvalidUrl(m)) && m@ == input@,
        },
{
    let search = contains_char(input, ' ') || (!contains_char(input, '.') && !starts_with_str(
        input,
        "localhost",
    ));
    let parsed = if search {
        WebUrl::parse_with_param(SEARCH_ENGINE, SEARCH_PARAM, input)
    } else if contains_str(input, "://") {
        WebUrl::parse(input)
    } else {
        let full = concat_str(DEFAULT_SCHEME, input);
        WebUrl::parse(full.as_str())
    };
    match parsed {
        Some(u) => Ok(u),
        None => Err(AuraError::InvalidUrl(input.to_owned())),
    }
}

/// Where an intercepted navigation goes: an allowed or redirected request
/// goes to its URL; a blocked one is an engine error that gives the reason.
pub fn navigation_target(decision: InterceptDecision) -> (r: Result<WebUrl, AuraError>)
    ensures
        match decision {
            InterceptDecision::Allow(u) => r matches Ok(v) && v.parts() == u.parts(),
            InterceptDecision::Redirect(u) => r matches Ok(v) && v.parts() == u.parts(),
            InterceptDecision::Block { reason } => r matches Err(AuraError::EngineError(m))
                && m@ == "Blocked: "@ + reason@,
        },
{
    match decision {
        InterceptDecision::Allow(u) => Ok(u),
        InterceptDecision::Redirect(u) => Ok(u),
        InterceptDecision::Block { reason } => Err(
            AuraError::EngineError(concat_str("Blocked: ", reason)),
        ),
    }
}

/// `s` without its trailing `/` characters.
pub open spec fn trim_trailing_slashes(s: Seq<char>) -> Seq<char>
    decreases s.len(),
{
    if s.len() > 0 && s.last() == '/' {
        trim_trailing_slashes(s.drop_last())
    } else {
        s
    }
}

/// Where a page's icon is fetched from: its URL without trailing slashes,
/// then `/favicon.ico`.
pub fn favicon_url(page_url: &str) -> (s: String)
    ensures
        s@ == trim_trailing_slashes(page_url@) + "/favicon.ico"@,
{
    let cs = chars_of(page_url);
    let mut end = cs.len();
    assert(cs@.take(end as int) == cs@);
    while end > 0 && cs[end - 1] == '/'
        invariant
            end <= cs@.len(),
            cs@ == page_url@,
            trim_trailing_slashes(page_url@) == trim_trailing_slashes(cs@.take(end as int)),
        decreases end,
    {
        assert(cs@.take(end as int).drop_last() == cs@.take(end - 1));
        end = end - 1;
    }
    let base = string_of(&cs, 0, end);
    assert(cs@.subrange(0, end as int) == cs@.take(end as int));
    concat_str(base.as_str(), "/favicon.ico")
}

/// The operating system the shell runs on, as far as the engine library's
/// file name goes.
#[derive(Clone, Copy, Debug, PartialEq, Eq, Structural)]
pub enum HostOs {
    Windows,
    MacOs,
    Other,
}

/// The file name of the engine library on a host.
pub fn engine_library_name(os: HostOs) -> (name: &'static str)
    ensures
        name@ == (match os {
            HostOs::Windows => "aura_engine.dll"@,
            HostOs::MacOs => "libaura_engine.dylib"@,
            HostOs::Other => "libaura_engine.so"@,
        }),
{
    match os {
        HostOs::Windows => "aura_engine.dll",
        HostOs::MacOs => "libaura_engine.dylib",
        HostOs::Other => "libaura_engine.so",
    }
}

/// Whether the command bar shows after a toggle.
pub fn toggle_command_bar(visible: bool) -> (shown: bool)
    ensures
        shown == !visible,
{
    !visible
}

/// The status shown while a summary is being made.
pub const STATUS_THINKING: &'static str = "Aura is thinking...";

/// The status shown once the summary overlay is closed.
pub const STATUS_READY: &'static str = "Ready";

/// The status shown once the bullets are in.
pub const STATUS_BREATHE: &'static str = "Breathe.";

/// The status shown when the model cannot be loaded.
pub const STATUS_AI_OFFLINE: &'static str = "AI offline";

/// What a click on the lotus does: whether the summary overlay shows, the
/// status line, and whether a summary is to be made.
#[derive(Debug)]
pub struct LotusStep {
    pub breathe_visible: bool,
    pub status: &'static str,
    pub summarize: bool,
}

/// A click on the lotus: a hidden overlay opens, says it is thinking and
/// starts a summary; an open one closes and says it is ready.
pub fn lotus_step(breathe_visible: bool) -> (step: LotusStep)
    ensures
        step.breathe_visible == !breathe_visible,
        step.summarize == !breathe_visible,
        step.status@ == (if breathe_visible {
            STATUS_READY@
        } else {
            STATUS_THINKING@
        }),
{
    if breathe_visible {
        LotusStep { breathe_visible: false, status: STATUS_READY, summarize: false }
    } else {
        LotusStep { breathe_visible: true, status: STATUS_THINKING, summarize: true }
    }
}

/// The answer to a silo status request: a silo that opens is secured; one
/// that does not is an engine error with the silo's message.
pub fn silo_status(opened: Result<(), SiloError>) -> (r: Result<bool, AuraError>)
    ensures
        match opened {
            Ok(_) => r == Ok::<bool, AuraError>(true),
            Err(e) => r matches Err(AuraError::EngineError(m)) && m@ == "Silo error: "@
                + e.spec_message(),
        },
{
    match opened {
        Ok(_) => Ok(true),
        Err(e) => {
            let msg = e.message();
            Err(AuraError::EngineError(concat_str("Silo error: ", msg.as_str())))
        },
    }
}

/// The message of a summary that could not be made because the model
/// failed to load.
pub const AI_LOAD_FAILED: &'static str = "AI Engine failed to load";

/// The error for a summary that could not be made: the model's failure
/// where it ran and failed, else the failure to load it.
pub fn summary_error(failure: Option<&AiError>) -> (e: AuraError)
    ensures
        match failure {
            Some(f) => e matches AuraError::EngineError(m) && m@ == f.spec_message(),
            None => e matches AuraError::EngineError(m) && m@ == AI_LOAD_FAILED@,
        },
{
    match failure {
        Some(f) => AuraError::EngineError(f.message()),
        None => AuraError::EngineError(AI_LOAD_FAILED.to_owned()),
    }
}

} // verus!
