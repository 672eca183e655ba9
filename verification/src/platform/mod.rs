//! Per-OS decisions: which backends a host gets and the text they exchange with the OS.

pub mod system;
pub mod mihomo_core;
pub mod service;
pub mod tun;
pub mod appearance;
pub mod event_loop;
pub mod layout;
