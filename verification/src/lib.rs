//! Verified core of the vps terminal launcher and the vpsd PTY daemon.
pub mod text;
pub mod paths;
pub mod protocol;
pub mod hub;
pub mod daemon_config;
pub mod client_config;
pub mod terminal;
pub mod settings;
pub mod picker;
pub mod procinfo;
pub mod screen;
pub mod session;
pub mod ui;
pub mod fonts;
