//! The hot-swap slot of the rendering engine: which engine serves, the
//! window handles a replacement is built with, and the errors of the swap.
use vstd::prelude::*;
use crate::text::{concat_str, has_char, contains_char};

verus! {

/// The kind of an I/O failure, in the terms of `std::io::ErrorKind`: input
/// that the engine's interface cannot take is `InvalidInput`; every other
/// kind is `Other`.
#[derive(Debug, Clone, Copy, PartialEq, Eq)]
pub enum IoErrorKind {
    InvalidInput,
    Other,
}

/// What can go wrong while loading, driving or swapping an engine. The
/// I/O variant carries the kind and the message of the I/O error; the
/// library and network variants carry the message of the underlying error.
#[derive(Debug, PartialEq, Eq)]
pub enum SwapError {
    InitFailed,
    Io(IoErrorKind, String),
    Library(String),
    Net(String),
}

impl SwapError {
    /// The text this error displays.
    pub open spec fn spec_message(&self) -> Seq<char> {
        match self {
            SwapError::InitFailed => "Init failed"@,
            SwapError::Io(_, m) => "IO error: "@ + m@,
            SwapError::Library(m) => "Library error: "@ + m@,
            SwapError::Net(m) => "Network error: "@ + m@,
        }
    }

    /// The text this error displays.
    pub fn message(&self) -> (s: String)
        ensures
            s@ == self.spec_message(),
    {
        match self {
            SwapError::InitFailed => "Init failed".to_owned(),
            SwapError::Io(_, m) => concat_str("IO error: ", m.as_str()),
            SwapError::Library(m) => concat_str("Library error: ", m.as_str()),
            SwapError::Net(m) => concat_str("Network error: ", m.as_str()),
        }
    }
}

/// The message of the error for a URL that cannot cross the engine's C
/// interface.
pub const INVALID_URL_MESSAGE: &'static str = "Invalid URL string";

/// Checks that a URL can be handed to the engine as a C string: one with a
/// NUL character is an I/O error of kind `InvalidInput`, with the message
/// `INVALID_URL_MESSAGE`.
pub fn check_ffi_url(url: &str) -> (r: Result<(), SwapError>)
    ensures
        r is Ok <==> !has_char(url@, '\0'),
        r matches Err(e) ==> (e matches SwapError::Io(k, m) && k == IoErrorKind::InvalidInput
            && m@ == INVALID_URL_MESSAGE@),
{
    if contains_char(url, '\0') {
        Err(SwapError::Io(IoErrorKind::InvalidInput, INVALID_URL_MESSAGE.to_owned()))
    } else {
        Ok(())
    }
}


/// What the engine's answer to a navigation means: it refused the URL, or
/// took it.
pub fn navigation_reply(accepted: bool) -> (r: Result<(), SwapError>)
    ensures
        r is Ok <==> accepted,
        r matches Err(e) ==> e == SwapError::InitFailed,
{
    if accepted {
        Ok(())
    } else {
        Err(SwapError::InitFailed)
    }
}

/// The slot of the serving engine, and the window handles that any engine
/// put into it is made with.
pub struct EngineSlot<E, H> {
    current: Option<E>,
    handles: Option<H>,
}

impl<E, H> EngineSlot<E, H> {
    /// The engine that serves, if any.
    pub closed spec fn serving(&self) -> Option<E> {
        self.current
    }

    /// The window handles remembered, if any.
    pub closed spec fn window(&self) -> Option<H> {
        self.handles
    }

    /// An empty slot: no engine, no handles.
    pub fn new() -> (s: Self)
        ensures
            s.serving() is None,
            s.window() is None,
    {
        EngineSlot { current: None, handles: None }
    }

    /// Remembers the window handles; the serving engine stays.
    pub fn remember_handles(&mut self, handles: H)
        ensures
            final(self).window() == Some(handles),
            final(self).serving() == old(self).serving(),
    {
        self.handles = Some(handles);
    }

    /// The window handles a new engine is made with; `InitFailed` before
    /// any are known.
    pub fn handles(&self) -> (r: Result<&H, SwapError>)
        ensures
            match self.window() {
                Some(h) => r matches Ok(x) && *x == h,
                None => r matches Err(e) && e == SwapError::InitFailed,
            },
    {
        match &self.handles {
            Some(h) => Ok(h),
            None => Err(SwapError::InitFailed),
        }
    }

    /// The serving engine, which every request is routed to; `InitFailed`
    /// when none is loaded.
    pub fn engine(&self) -> (r: Result<&E, SwapError>)
        ensures
            match self.serving() {
                Some(x) => r matches Ok(y) && *y == x,
                None => r matches Err(e) && e == SwapError::InitFailed,
            },
    {
        match &self.current {
            Some(e) => Ok(e),
            None => Err(SwapError::InitFailed),
        }
    }

    /// Puts `engine` in service and hands back the one it replaces, to be
    /// released once the new one serves. The window handles stay.
    pub fn install(&mut self, engine: E) -> (previous: Option<E>)
        ensures
            final(self).serving() == Some(engine),
            final(self).window() == old(self).window(),
            previous == old(self).serving(),
    {
        let previous = self.current.take();
        self.current = Some(engine);
        previous
    }
}

} // verus!
