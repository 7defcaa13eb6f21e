//! Verified core of the MediaChat transparent overlay: configuration defaults,
//! monitor discovery decisions, live-chat window placement, tray menu handling,
//! socket command classification and the UTF-16 text conversions the Windows
//! side of the application relies on.

pub mod config;
pub mod config_window;
pub mod livechat;
pub mod monitors;
pub mod socket;
pub mod tray;
pub mod wide;
