//! What the tray reads from a profile (a mihomo YAML configuration), importing profiles,
//! and recognising changes to the active one.

use vstd::prelude::*;

use crate::paths::{
    file_name, is_profile, is_profile_file, opt_str_view, parent, path_file_name, path_parent,
};
use crate::text::{chars_of, string_from_chars, trim, trim_chars};

verus! {

/// Port used when a profile names none.
pub const DEFAULT_PORT: u16 = 7890;

/// The fields of a profile the tray uses.
#[derive(Debug, Clone)]
pub struct ProfileMeta {
    pub mixed_port: Option<u16>,
    pub port: Option<u16>,
    pub socks_port: Option<u16>,
    /// Not used for the API: the tray talks to the core over its local endpoint.
    pub external_controller: Option<String>,
    pub secret: Option<String>,
}

/// A port, with 0 (a disabled listener) read as absent.
pub open spec fn nonzero(p: Option<u16>) -> Option<u16> {
    match p {
        Some(v) => if v != 0 {
            Some(v)
        } else {
            None
        },
        None => None,
    }
}

pub fn nonzero_port(p: Option<u16>) -> (r: Option<u16>)
    ensures
        r == nonzero(p),
{
    match p {
        Some(v) => if v != 0 {
            Some(v)
        } else {
            None
        },
        None => None,
    }
}

/// The first usable port of two, else the default port.
pub open spec fn port_or_default(first: Option<u16>, second: Option<u16>) -> u16 {
    match nonzero(first) {
        Some(p) => p,
        None => match nonzero(second) {
            Some(p) => p,
            None => DEFAULT_PORT,
        },
    }
}

pub fn pick_port(first: Option<u16>, second: Option<u16>) -> (r: u16)
    ensures
        r == port_or_default(first, second),
        r != 0,
{
    match nonzero_port(first) {
        Some(p) => p,
        None => match nonzero_port(second) {
            Some(p) => p,
            None => DEFAULT_PORT,
        },
    }
}

/// A secret with surrounding white space removed; empty means none.
pub open spec fn secret_of(secret: Option<Seq<char>>) -> Option<Seq<char>> {
    match secret {
        Some(s) => if trim(s).len() > 0 {
            Some(trim(s))
        } else {
            None
        },
        None => None,
    }
}

impl ProfileMeta {
    /// The HTTP proxy port: `mixed-port`, else `port`, else the default.
    pub fn http_port(&self) -> (r: u16)
        ensures
            r == port_or_default(self.mixed_port, self.port),
            r != 0,
    {
        pick_port(self.mixed_port, self.port)
    }

    /// The SOCKS proxy port: `socks-port`, else `mixed-port`, else the default.
    pub fn socks_port(&self) -> (r: u16)
        ensures
            r == port_or_default(self.socks_port, self.mixed_port),
            r != 0,
    {
        pick_port(self.socks_port, self.mixed_port)
    }

    /// The API secret, trimmed; none when missing or blank.
    pub fn secret(&self) -> (r: Option<String>)
        ensures
            opt_str_view(r) == secret_of(opt_str_view(self.secret)),
    {
        match &self.secret {
            Some(s) => {
                let v = chars_of(s.as_str());
                let t = trim_chars(v.as_slice());
                if t.len() > 0 {
                    Some(string_from_chars(t.as_slice()))
                } else {
                    None
                }
            },
            None => None,
        }
    }
}

/// The first run writes the bundled default profile when the data directory holds none.
pub fn needs_default_profile(profiles: &Vec<String>) -> (r: bool)
    ensures
        r == (profiles@.len() == 0),
{
    profiles.len() == 0
}

/// Why a file cannot be imported as a profile.
#[derive(Debug, Clone, Copy, PartialEq, Eq, Structural)]
pub enum ImportError {
    NotAFile,
    NotYaml,
    NoFileName,
}

/// The file name a source file is imported under: it must be a regular file with a YAML
/// extension.
pub open spec fn import_name(source: Seq<char>, is_file: bool) -> Result<Seq<char>, ImportError> {
    if !is_file {
        Err(ImportError::NotAFile)
    } else if !is_profile(source) {
        Err(ImportError::NotYaml)
    } else {
        match path_file_name(source) {
            Some(n) => Ok(n),
            None => Err(ImportError::NoFileName),
        }
    }
}

pub fn import_profile_name(source: &str, is_file: bool) -> (r: Result<String, ImportError>)
    ensures
        match import_name(source@, is_file) {
            Ok(n) => r matches Ok(s) && s@ == n,
            Err(e) => r == Err::<String, ImportError>(e),
        },
{
    if !is_file {
        return Err(ImportError::NotAFile);
    }
    if !is_profile_file(source) {
        return Err(ImportError::NotYaml);
    }
    match file_name(source) {
        Some(n) => Ok(n),
        None => Err(ImportError::NoFileName),
    }
}

/// Equality of paths (`Path`'s `==`, which compares components).
pub uninterp spec fn path_eq(a: Seq<char>, b: Seq<char>) -> bool;

/// Whether two paths are equal, by `std::path::Path`'s `==`; the result is named `path_eq`.
#[verifier::external_body]
pub(crate) fn paths_equal(a: &str, b: &str) -> (r: bool)
    ensures
        r == path_eq(a@, b@),
{
    std::path::Path::new(a) == std::path::Path::new(b)
}

pub open spec fn opt_path_eq(a: Option<Seq<char>>, b: Option<Seq<char>>) -> bool {
    match (a, b) {
        (Some(x), Some(y)) => path_eq(x, y),
        (None, None) => true,
        _ => false,
    }
}

/// Whether a changed file is the active profile: the same path; else, when both could be
/// resolved to canonical paths, the same canonical path; else the same file name in the
/// same directory.
pub open spec fn same_profile_spec(
    event: Seq<char>,
    active: Seq<char>,
    canonical: Option<(Seq<char>, Seq<char>)>,
) -> bool {
    if path_eq(event, active) {
        true
    } else {
        match canonical {
            Some((a, b)) => path_eq(a, b),
            None => path_file_name(event) == path_file_name(active) && opt_path_eq(
                path_parent(event),
                path_parent(active),
            ),
        }
    }
}

fn opt_paths_equal(a: &Option<String>, b: &Option<String>) -> (r: bool)
    ensures
        r == opt_path_eq(opt_str_view(*a), opt_str_view(*b)),
{
    match (a, b) {
        (Some(x), Some(y)) => paths_equal(x.as_str(), y.as_str()),
        (None, None) => true,
        _ => false,
    }
}

fn opt_strings_equal(a: &Option<String>, b: &Option<String>) -> (r: bool)
    ensures
        r == (opt_str_view(*a) == opt_str_view(*b)),
{
    match (a, b) {
        (Some(x), Some(y)) => {
            let xv = chars_of(x.as_str());
            let yv = chars_of(y.as_str());
            crate::text::chars_eq(xv.as_slice(), yv.as_slice())
        },
        (None, None) => true,
        _ => false,
    }
}

pub open spec fn canonical_view(c: Option<(String, String)>) -> Option<(Seq<char>, Seq<char>)> {
    match c {
        Some((a, b)) => Some((a@, b@)),
        None => None,
    }
}

/// See `same_profile_spec`; `canonical` holds both canonical paths when both resolved.
pub fn same_profile(event: &str, active: &str, canonical: &Option<(String, String)>) -> (r: bool)
    ensures
        r == same_profile_spec(event@, active@, canonical_view(*canonical)),
{
    if paths_equal(event, active) {
        return true;
    }
    match canonical {
        Some((a, b)) => paths_equal(a.as_str(), b.as_str()),
        None => {
            let fe = file_name(event);
            let fa = file_name(active);
            let pe = parent(event);
            let pa = parent(active);
            opt_strings_equal(&fe, &fa) && opt_paths_equal(&pe, &pa)
        },
    }
}

} // verus!
