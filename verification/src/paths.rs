//! File layout of the tray's data directory, and the choice of the active profile.
//!
//! Paths are carried as strings. The component logic of paths (file names, extensions,
//! joining) is `std::path`'s; its results are named here and not restated.

use vstd::prelude::*;

use crate::host::HostOs;
use crate::order::{sort_by_key, sorted_by_key};
use crate::text::{
    chars_of, eq_ignore_ascii_case, eq_ignore_case, string_from_chars, trim, trim_chars,
};

verus! {

pub const APP_DIR_NAME: &'static str = "mihomo-tray";

pub const ACTIVE_MARKER: &'static str = ".active";

pub const DEFAULT_PROFILE: &'static str = "config.yaml";

pub const DELAY_TEST_URL: &'static str = "https://www.gstatic.com/generate_204";

pub const DELAY_TIMEOUT_MS: u32 = 5000;

/// `Path::file_name` of a path.
pub uninterp spec fn path_file_name(p: Seq<char>) -> Option<Seq<char>>;

/// `Path::extension` of a path.
pub uninterp spec fn path_extension(p: Seq<char>) -> Option<Seq<char>>;

/// `Path::join` of a base path and another path.
pub uninterp spec fn path_join(base: Seq<char>, p: Seq<char>) -> Seq<char>;

/// `Path::parent` of a path.
pub uninterp spec fn path_parent(p: Seq<char>) -> Option<Seq<char>>;

pub open spec fn opt_str_view(o: Option<String>) -> Option<Seq<char>> {
    match o {
        Some(s) => Some(s@),
        None => None,
    }
}

/// The final component of a path (`std::path::Path::file_name`); the result is named
/// `path_file_name`.
#[verifier::external_body]
pub(crate) fn file_name(p: &str) -> (r: Option<String>)
    ensures
        opt_str_view(r) == path_file_name(p@),
{
    std::path::Path::new(p).file_name().map(|n| n.to_string_lossy().into_owned())
}

/// The extension of a path's file name (`std::path::Path::extension`); the result is
/// named `path_extension`.
#[verifier::external_body]
pub(crate) fn extension(p: &str) -> (r: Option<String>)
    ensures
        opt_str_view(r) == path_extension(p@),
{
    std::path::Path::new(p).extension().map(|n| n.to_string_lossy().into_owned())
}

/// `base` joined with `p` (`std::path::Path::join`); the result is named `path_join`.
#[verifier::external_body]
pub(crate) fn join(base: &str, p: &str) -> (r: String)
    ensures
        r@ == path_join(base@, p@),
{
    std::path::Path::new(base).join(p).to_string_lossy().into_owned()
}

/// The parent of a path (`std::path::Path::parent`); the result is named `path_parent`.
#[verifier::external_body]
pub(crate) fn parent(p: &str) -> (r: Option<String>)
    ensures
        opt_str_view(r) == path_parent(p@),
{
    std::path::Path::new(p).parent().map(|n| n.to_string_lossy().into_owned())
}

/// The tray's data directory inside the platform data directory.
pub fn config_dir(data_dir: &str) -> (r: String)
    ensures
        r@ == path_join(data_dir@, APP_DIR_NAME@),
{
    join(data_dir, APP_DIR_NAME)
}

pub fn bin_dir(config_dir: &str) -> (r: String)
    ensures
        r@ == path_join(config_dir@, "bin"@),
{
    join(config_dir, "bin")
}

pub open spec fn core_binary_name(host: HostOs) -> Seq<char> {
    if host is Windows {
        "mihomo.exe"@
    } else {
        "mihomo"@
    }
}

/// Where the core binary is installed.
pub fn core_binary_path(config_dir: &str, host: HostOs) -> (r: String)
    ensures
        r@ == path_join(path_join(config_dir@, "bin"@), core_binary_name(host)),
{
    let bin = bin_dir(config_dir);
    let name = if host.is_windows() {
        "mihomo.exe"
    } else {
        "mihomo"
    };
    join(bin.as_str(), name)
}

/// The file recording which profile is active.
pub fn active_marker_path(config_dir: &str) -> (r: String)
    ensures
        r@ == path_join(config_dir@, ACTIVE_MARKER@),
{
    join(config_dir, ACTIVE_MARKER)
}

/// Whether a file extension is `yaml` or `yml`, in any ASCII case.
pub open spec fn yaml_ext(e: Seq<char>) -> bool {
    eq_ignore_ascii_case(e, "yaml"@) || eq_ignore_ascii_case(e, "yml"@)
}

pub fn is_yaml_extension(ext: &str) -> (r: bool)
    ensures
        r == yaml_ext(ext@),
{
    let ev = chars_of(ext);
    let yaml = chars_of("yaml");
    let yml = chars_of("yml");
    eq_ignore_case(ev.as_slice(), yaml.as_slice()) || eq_ignore_case(ev.as_slice(), yml.as_slice())
}

/// A profile is a file whose extension is `yaml` or `yml`, in any ASCII case.
pub open spec fn is_profile(p: Seq<char>) -> bool {
    match path_extension(p) {
        Some(e) => yaml_ext(e),
        None => false,
    }
}

pub fn is_profile_file(path: &str) -> (r: bool)
    ensures
        r == is_profile(path@),
{
    match extension(path) {
        Some(e) => is_yaml_extension(e.as_str()),
        None => false,
    }
}

/// A directory entry as listed by the caller.
#[derive(Debug, Clone)]
pub struct DirEntryInfo {
    pub path: String,
    pub is_file: bool,
}

/// The entries that are profile files, in listing order.
pub open spec fn profile_entries(entries: Seq<DirEntryInfo>) -> Seq<String>
    decreases entries.len(),
{
    if entries.len() == 0 {
        Seq::empty()
    } else {
        let pre = profile_entries(entries.drop_last());
        let e = entries.last();
        if e.is_file && is_profile(e.path@) {
            pre.push(e.path)
        } else {
            pre
        }
    }
}

/// The profiles of a directory listing: regular files with a YAML extension, sorted by
/// path. (All entries share the directory, so this is the order of their file names.)
pub fn list_profiles(entries: Vec<DirEntryInfo>) -> (r: Vec<String>)
    ensures
        r@ == sorted_by_key(profile_entries(entries@)),
{
    let mut keep: Vec<String> = Vec::new();
    let mut i: usize = 0;
    while i < entries.len()
        invariant
            i <= entries@.len(),
            keep@ == profile_entries(entries@.take(i as int)),
        decreases entries@.len() - i,
    {
        let e = &entries[i];
        assert(entries@.take(i + 1).drop_last() =~= entries@.take(i as int));
        if e.is_file && is_profile_file(e.path.as_str()) {
            keep.push(e.path.clone());
        }
        i += 1;
    }
    assert(entries@.take(i as int) =~= entries@);
    sort_by_key(keep)
}

/// The name shown for a profile: its file name, or the whole path when it has none.
pub open spec fn display_name(p: Seq<char>) -> Seq<char> {
    match path_file_name(p) {
        Some(n) => n,
        None => p,
    }
}

pub fn profile_display_name(path: &str) -> (r: String)
    ensures
        r@ == display_name(path@),
{
    match file_name(path) {
        Some(n) => n,
        None => {
            let v = chars_of(path);
            string_from_chars(v.as_slice())
        },
    }
}

/// Errors of the profile layout.
#[derive(Debug, Clone, Copy, PartialEq, Eq, Structural)]
pub enum PathsError {
    /// No profile exists in the data directory.
    NoProfile,
    /// A profile path without a file name.
    NoFileName,
}

/// The text written to the active marker for a profile: its file name.
pub fn marker_content(profile: &str) -> (r: Result<String, PathsError>)
    ensures
        r matches Ok(s) ==> path_file_name(profile@) == Some(s@),
        r matches Err(e) ==> e == PathsError::NoFileName && path_file_name(profile@) is None,
{
    match file_name(profile) {
        Some(n) => Ok(n),
        None => Err(PathsError::NoFileName),
    }
}

/// The profile the marker names: its trimmed content joined to the data directory, when
/// not empty.
pub open spec fn marker_target(dir: Seq<char>, content: Seq<char>) -> Option<Seq<char>> {
    if trim(content).len() == 0 {
        None
    } else {
        Some(path_join(dir, trim(content)))
    }
}

pub fn marker_candidate(dir: &str, content: &str) -> (r: Option<String>)
    ensures
        opt_str_view(r) == marker_target(dir@, content@),
{
    let cv = chars_of(content);
    let t = trim_chars(cv.as_slice());
    if t.len() == 0 {
        None
    } else {
        let name = string_from_chars(t.as_slice());
        Some(join(dir, name.as_str()))
    }
}

/// The active profile, and whether the marker must be rewritten to name it.
#[derive(Debug, Clone)]
pub struct ActiveChoice {
    pub path: String,
    pub write_marker: bool,
}

/// Which profile is active: the one the marker names if that file exists; else the
/// default profile if it exists; else the first profile in the listing. The last two are
/// recorded in the marker.
pub open spec fn active_choice(
    named: Option<Seq<char>>,
    default_path: Seq<char>,
    default_exists: bool,
    profiles: Seq<Seq<char>>,
) -> Result<(Seq<char>, bool), PathsError> {
    match named {
        Some(p) => Ok((p, false)),
        None => if default_exists {
            Ok((default_path, true))
        } else if profiles.len() > 0 {
            Ok((profiles[0], true))
        } else {
            Err(PathsError::NoProfile)
        },
    }
}

/// See `active_choice`. `named_existing` is the marker's target when that file exists.
pub fn resolve_active_profile(
    named_existing: Option<String>,
    default_path: &str,
    default_exists: bool,
    profiles: &Vec<String>,
) -> (r: Result<ActiveChoice, PathsError>)
    ensures
        match active_choice(
            opt_str_view(named_existing),
            default_path@,
            default_exists,
            profiles@.map_values(|s: String| s@),
        ) {
            Ok((p, w)) => r matches Ok(c) && c.path@ == p && c.write_marker == w,
            Err(e) => r == Err::<ActiveChoice, PathsError>(e),
        },
{
    match named_existing {
        Some(p) => Ok(ActiveChoice { path: p, write_marker: false }),
        None => {
            if default_exists {
                let v = chars_of(default_path);
                Ok(ActiveChoice { path: string_from_chars(v.as_slice()), write_marker: true })
            } else if profiles.len() > 0 {
                Ok(ActiveChoice { path: profiles[0].clone(), write_marker: true })
            } else {
                Err(PathsError::NoProfile)
            }
        },
    }
}

} // verus!
