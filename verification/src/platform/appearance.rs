//! How the tray icon looks on each host: template icons on macOS, and whether the icon is
//! drawn light because the tray background is dark.

use vstd::prelude::*;

use crate::host::HostOs;

verus! {

/// How often a host whose theme can change is polled, in milliseconds.
pub const THEME_POLL_INTERVAL_MS: u64 = 5000;

/// Linux and the BSDs: the desktop theme decides.
#[derive(Debug, Clone, Copy, Default)]
pub struct LinuxAppearance;

/// macOS: a template icon, which the menu bar tints itself.
#[derive(Debug, Clone, Copy, Default)]
pub struct MacosAppearance;

/// Hosts without a tray theme.
#[derive(Debug, Clone, Copy, Default)]
pub struct NoopAppearance;

/// Windows: the taskbar theme in the registry decides.
#[derive(Debug, Clone, Copy, Default)]
pub struct WindowsAppearance;

/// Whether the desktop uses a dark theme (`dark_light::detect`). It reads the desktop's
/// settings, so nothing is promised of the answer; an error counts as light.
#[verifier::external_body]
fn desktop_is_dark() -> (r: bool) {
    matches!(dark_light::detect(), Ok(dark_light::Mode::Dark))
}

/// Whether the Windows taskbar is dark, from the `Personalize` registry values: the system
/// value when present (0 means dark), else the apps value, else light; light too when the
/// key cannot be opened.
pub fn taskbar_is_dark(key_opened: bool, system_light: Option<u32>, apps_light: Option<u32>) -> (r: bool)
    ensures
        r == (key_opened && match system_light {
            Some(v) => v == 0,
            None => apps_light == Some(0u32),
        }),
{
    if !key_opened {
        return false;
    }
    match system_light {
        Some(v) => v == 0,
        None => match apps_light {
            Some(a) => a == 0,
            None => false,
        },
    }
}

/// The appearance backend of a host.
#[derive(Debug, Clone, Copy)]
pub enum AppearanceBackend {
    Linux(LinuxAppearance),
    Macos(MacosAppearance),
    Windows(WindowsAppearance),
    Noop(NoopAppearance),
}

/// How the icon is picked once the host's theme reading is known.
pub open spec fn template_of(b: AppearanceBackend) -> bool {
    b is Macos
}

pub open spec fn poll_of(b: AppearanceBackend) -> Option<u64> {
    match b {
        AppearanceBackend::Linux(_) => Some(THEME_POLL_INTERVAL_MS),
        AppearanceBackend::Windows(_) => Some(THEME_POLL_INTERVAL_MS),
        _ => None,
    }
}

impl AppearanceBackend {
    /// Whether the icon is a template image that the menu bar tints.
    pub fn uses_template_icon(&self) -> (r: bool)
        ensures
            r == template_of(*self),
    {
        matches!(self, AppearanceBackend::Macos(_))
    }

    /// How often the theme is polled (`None`: never).
    pub fn theme_poll_interval_ms(&self) -> (r: Option<u64>)
        ensures
            r == poll_of(*self),
    {
        match self {
            AppearanceBackend::Linux(_) => Some(THEME_POLL_INTERVAL_MS),
            AppearanceBackend::Windows(_) => Some(THEME_POLL_INTERVAL_MS),
            _ => None,
        }
    }

    /// Whether the tray background is dark. On Linux the desktop is asked; on Windows the
    /// registry reading (made by the caller) decides; elsewhere it is light.
    pub fn tray_background_is_dark(&self, taskbar_dark: bool) -> (r: bool)
        ensures
            (*self is Macos || *self is Noop) ==> !r,
            *self is Windows ==> r == taskbar_dark,
    {
        match self {
            AppearanceBackend::Linux(_) => desktop_is_dark(),
            AppearanceBackend::Windows(_) => taskbar_dark,
            _ => false,
        }
    }
}

/// The appearance of a host.
pub fn create_appearance(host: HostOs) -> (r: AppearanceBackend)
    ensures
        host is Macos ==> r is Macos,
        host is Windows ==> r is Windows,
        (host is Linux || host is OtherUnix) ==> r is Linux,
{
    match host {
        HostOs::Macos => AppearanceBackend::Macos(MacosAppearance),
        HostOs::Windows => AppearanceBackend::Windows(WindowsAppearance),
        _ => AppearanceBackend::Linux(LinuxAppearance),
    }
}

/// Whether the icon must be redrawn after a theme poll.
pub fn theme_changed(dark: bool, last_dark: bool) -> (r: bool)
    ensures
        r == (dark != last_dark),
{
    dark != last_dark
}

/// Whether a theme poll is due: when none is scheduled, or its time has come.
pub fn theme_poll_due(now_ms: u64, next_ms: Option<u64>) -> (r: bool)
    ensures
        r == match next_ms {
            Some(n) => now_ms >= n,
            None => true,
        },
{
    match next_ms {
        Some(n) => now_ms >= n,
        None => true,
    }
}

} // verus!
