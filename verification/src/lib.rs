//! Verified core of a full-screen session-lock overlay.
//!
//! The library holds the pure logic of the lock session: the privacy box
//! blur, the monitor blanking decision, the tamper-warning timer, the
//! typing mini-game, the keyboard interrupt gate decision and the
//! authentication dispatch. The platform glue (screen capture, window
//! creation, the OS keyboard hook, painting) lives outside and feeds the
//! library plain values.

pub mod blur;
pub mod capture;
pub mod game;
pub mod keyboard;
pub mod layout;
pub mod monitors;
pub mod notifications;
pub mod settings;
pub mod state;
pub mod text;
