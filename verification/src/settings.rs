//! The tray's preferences: interface locale and the two switches (system proxy, TUN).
//!
//! The preferences live in `settings.json` in the data directory. Every change is written
//! out in full by the caller right after the setter; the values here are the single
//! source the caller writes from.

use vstd::prelude::*;

use crate::i18n::{normalize, normalized_locale};
use crate::paths::{join, path_join};

verus! {

pub const SETTINGS_FILE: &'static str = "settings.json";

#[derive(Debug)]
pub struct Settings {
    /// `zh-CN` or `en`.
    locale: String,
    system_proxy: bool,
    tun: bool,
}

/// The interface locales the tray has.
pub open spec fn locale_ok(l: Seq<char>) -> bool {
    l == "zh-CN"@ || l == "en"@
}

pub struct SettingsView {
    pub locale: Seq<char>,
    pub system_proxy: bool,
    pub tun: bool,
}

impl View for Settings {
    type V = SettingsView;

    closed spec fn view(&self) -> SettingsView {
        SettingsView { locale: self.locale@, system_proxy: self.system_proxy, tun: self.tun }
    }
}

impl Clone for Settings {
    fn clone(&self) -> (r: Self)
        ensures
            r@ == self@,
    {
        proof {
            use_type_invariant(self);
        }
        Settings { locale: self.locale.clone(), system_proxy: self.system_proxy, tun: self.tun }
    }
}

impl Settings {
    /// Every value of the preferences has one of the two locales.
    #[verifier::type_invariant]
    spec fn well_formed(self) -> bool {
        locale_ok(self.locale@)
    }

    /// Settings with the given values (as read back from `settings.json`); the locale is
    /// normalised to one of the two the tray has.
    pub fn from_parts(locale: String, system_proxy: bool, tun: bool) -> (r: Self)
        ensures
            r@ == (SettingsView { locale: normalized_locale(locale@), system_proxy, tun }),
    {
        Settings { locale: normalize(locale.as_str()), system_proxy, tun }
    }

    /// First-run settings: the detected locale (normalised), both switches off.
    pub fn from_environment(detected_locale: String) -> (r: Self)
        ensures
            r@ == (SettingsView {
                locale: normalized_locale(detected_locale@),
                system_proxy: false,
                tun: false,
            }),
    {
        Settings { locale: normalize(detected_locale.as_str()), system_proxy: false, tun: false }
    }

    /// `zh-CN` or `en`.
    pub fn locale(&self) -> (r: &str)
        ensures
            r@ == self@.locale,
            locale_ok(r@),
    {
        proof {
            use_type_invariant(self);
        }
        self.locale.as_str()
    }

    pub fn system_proxy(&self) -> (r: bool)
        ensures
            r == self@.system_proxy,
    {
        self.system_proxy
    }

    pub fn tun(&self) -> (r: bool)
        ensures
            r == self@.tun,
    {
        self.tun
    }

    /// Sets the locale, normalised to one of the two the tray has.
    pub fn set_locale(&mut self, locale: String)
        ensures
            final(self)@ == (SettingsView { locale: normalized_locale(locale@), ..old(self)@ }),
    {
        self.locale = normalize(locale.as_str());
    }

    pub fn set_system_proxy(&mut self, enabled: bool)
        ensures
            final(self)@ == (SettingsView { system_proxy: enabled, ..old(self)@ }),
    {
        proof {
            use_type_invariant(&*self);
        }
        self.system_proxy = enabled;
    }

    pub fn set_tun(&mut self, enabled: bool)
        ensures
            final(self)@ == (SettingsView { tun: enabled, ..old(self)@ }),
    {
        proof {
            use_type_invariant(&*self);
        }
        self.tun = enabled;
    }

    /// Both switches at once (one write of the file).
    pub fn set_switches(&mut self, system_proxy: bool, tun: bool)
        ensures
            final(self)@ == (SettingsView { system_proxy, tun, ..old(self)@ }),
    {
        proof {
            use_type_invariant(&*self);
        }
        self.system_proxy = system_proxy;
        self.tun = tun;
    }
}

/// Where the settings file lives.
pub fn settings_path(config_dir: &str) -> (r: String)
    ensures
        r@ == path_join(config_dir@, SETTINGS_FILE@),
{
    join(config_dir, SETTINGS_FILE)
}

/// What reading `settings.json` gave.
#[derive(Debug, Clone)]
pub enum LoadOutcome {
    Loaded(Settings),
    /// There is no settings file yet.
    Missing,
    /// The file exists but could not be read or parsed.
    Unreadable,
}

impl Settings {
    /// The settings to start with, and whether they must be written out: loaded settings as
    /// they are; otherwise the environment's defaults, written out (which also replaces an
    /// unreadable file).
    pub fn load_or_init(outcome: LoadOutcome, detected_locale: String) -> (r: (Settings, bool))
        ensures
            match outcome {
                LoadOutcome::Loaded(s) => r.0@ == s@ && !r.1,
                _ => r.0@ == (SettingsView {
                    locale: normalized_locale(detected_locale@),
                    system_proxy: false,
                    tun: false,
                }) && r.1,
            },
            locale_ok(r.0@.locale),
    {
        let r = match outcome {
            LoadOutcome::Loaded(s) => (s, false),
            _ => (Settings::from_environment(detected_locale), true),
        };
        proof {
            use_type_invariant(&r.0);
        }
        r
    }
}

} // verus!
