//! Verified core of the mihomo tray application.

pub mod text;
pub mod http;
pub mod host;
pub mod ipc;
pub mod order;
pub mod paths;
pub mod profile;
pub mod api;
pub mod i18n;
pub mod settings;
pub mod tray;
pub mod platform;
pub mod session;
pub mod icon;
