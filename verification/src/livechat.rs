//! The live-chat overlay window: validating the configured URL and describing
//! the transparent, click-through window that shows it.

use vstd::prelude::*;

use crate::wide::{trim_whitespace, trim_ws};

verus! {

/// What the `url` crate makes of `text`: its serialization when `text` parses
/// as an absolute URL, nothing when it does not.
pub uninterp spec fn url_parsed(text: Seq<char>) -> Option<Seq<char>>;

/// Parses `text` as an absolute URL.
///
/// Trusted: `url::Url::parse`; the contract claims only that the outcome is a
/// function of `text`, named `url_parsed`, and that the string returned is the
/// parsed URL's serialization. Which texts parse is the WHATWG URL standard as the
/// crate implements it and is not stated.
#[verifier::external_body]
fn parse_url(text: &str) -> (res: Option<String>)
    ensures
        match res {
            Some(u) => url_parsed(text@) == Some(u@),
            None => url_parsed(text@) is None,
        },
{
    match url::Url::parse(text) {
        Ok(u) => Some(u.to_string()),
        Err(_) => None,
    }
}

/// Why the live-chat window cannot be opened.
#[derive(Clone, Copy, Debug, PartialEq, Eq, Structural)]
pub enum LivechatError {
    /// The configured URL does not parse.
    InvalidUrl,
}

impl LivechatError {
    /// The error text the window command returns.
    pub fn message(&self) -> (m: String)
        ensures
            m@ == "Error parsing URL"@,
    {
        String::from_str("Error parsing URL")
    }

    /// The body of the warning box shown to the user.
    pub fn warning_message(&self) -> (m: String)
        ensures
            m@ == "Invalid URL to parse"@,
    {
        String::from_str("Invalid URL to parse")
    }

    /// The title of the warning box shown to the user.
    pub fn warning_title(&self) -> (m: String)
        ensures
            m@ == "Error parsing URL"@,
    {
        String::from_str("Error parsing URL")
    }
}

/// The live-chat window to open: the page it shows and the left edge of the
/// monitor it covers.
pub struct LivechatWindow {
    pub url: String,
    pub pos_x: i32,
}

/// The window to open for an already parsed URL: `None` means the URL did not parse.
pub fn livechat_window_from_parsed(parsed: Option<String>, pos_x: i32) -> (res: Result<
    LivechatWindow,
    LivechatError,
>)
    ensures
        match parsed {
            Some(u) => res matches Ok(w) && w.url@ == u@ && w.pos_x == pos_x,
            None => res == Err::<LivechatWindow, LivechatError>(LivechatError::InvalidUrl),
        },
{
    match parsed {
        Some(u) => Ok(LivechatWindow { url: u, pos_x }),
        None => Err(LivechatError::InvalidUrl),
    }
}

/// The live-chat window for the configured `url` (surrounding whitespace ignored)
/// on the monitor whose left edge is `pos_x`; an error when the URL does not parse.
pub fn livechat_window(url: &str, pos_x: i32) -> (res: Result<LivechatWindow, LivechatError>)
    ensures
        match url_parsed(trim_ws(url@)) {
            Some(u) => res matches Ok(w) && w.url@ == u && w.pos_x == pos_x,
            None => res == Err::<LivechatWindow, LivechatError>(LivechatError::InvalidUrl),
        },
{
    let trimmed = trim_whitespace(url);
    let parsed = parse_url(trimmed.as_str());
    livechat_window_from_parsed(parsed, pos_x)
}

/// Label of the live-chat window.
pub fn livechat_window_label() -> (s: String)
    ensures
        s@ == "livechat"@,
{
    String::from_str("livechat")
}

/// Title of the live-chat window.
pub fn livechat_window_title() -> (s: String)
    ensures
        s@ == "Transparent Overlay"@,
{
    String::from_str("Transparent Overlay")
}

/// `WS_EX_TOPMOST`
pub const WS_EX_TOPMOST: u32 = 0x0000_0008;

/// `WS_EX_TRANSPARENT`
pub const WS_EX_TRANSPARENT: u32 = 0x0000_0020;

/// `WS_EX_APPWINDOW`
pub const WS_EX_APPWINDOW: u32 = 0x0004_0000;

/// `WS_EX_LAYERED`
pub const WS_EX_LAYERED: u32 = 0x0008_0000;

/// `WS_EX_COMPOSITED`
pub const WS_EX_COMPOSITED: u32 = 0x0200_0000;

/// The extended window style that makes the live-chat window a layered,
/// composited, click-through, topmost application window, as the `i32` that
/// `SetWindowLongA(GWL_EXSTYLE, ..)` takes.
pub fn overlay_ex_style() -> (style: i32)
    ensures
        style as u32 == WS_EX_APPWINDOW | WS_EX_COMPOSITED | WS_EX_LAYERED | WS_EX_TRANSPARENT
            | WS_EX_TOPMOST,
{
    let bits: u32 = WS_EX_APPWINDOW | WS_EX_COMPOSITED | WS_EX_LAYERED | WS_EX_TRANSPARENT
        | WS_EX_TOPMOST;
    assert(bits == 0x020C_0028u32) by (bit_vector)
        requires
            bits == 0x0004_0000u32 | 0x0200_0000u32 | 0x0008_0000u32 | 0x0000_0020u32
                | 0x0000_0008u32,
    ;
    0x020C_0028i32
}

} // verus!
