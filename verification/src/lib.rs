//! The verified core of nixlock, a Wayland session locker that keeps designated kiosk outputs
//! live while every other output is a password lock screen.
//!
//! Everything that decides is here: the role of each output, the password buffer and the
//! single gate in front of the unlock request, the backoff after a rejected attempt, the kiosk
//! display protocol, the choice of the pixels an output shows, the diagnostics, the command line.
//! The program around it talks to the compositor, to PAM, to the socket and to the terminal; it
//! hands events in and carries the returned actions out.

pub mod auth;
pub mod cli;
pub mod config;
pub mod content;
pub mod daemon;
pub mod diagnostics;
pub mod event_laws;
pub mod locker;
pub mod locker_laws;
pub mod lockscreen;
pub mod render;
pub mod screen_laws;
pub mod secret;
pub mod socket;
pub mod socket_laws;
pub mod startup_laws;
pub mod text;
pub mod text_laws;
pub mod theme;

pub use auth::diagnose as check_auth;
pub use config::{builder, Builder, Config, LockError};
pub use content::{AuthState, AuthView, Frame, KioskContent, OutputRole};
