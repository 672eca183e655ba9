//! The mihomo core: running it as a sidecar process and installing it from the latest
//! GitHub release (which asset fits the host, how its archive is unpacked).

use vstd::prelude::*;

use crate::host::HostOs;
use crate::ipc::{controller_flag_of, core_args, ipc_path_of};
use crate::paths::{core_binary_name, core_binary_path, file_name, opt_str_view, parent, path_file_name, path_parent};
use crate::text::{
    chars_eq, chars_of, ends_with, extend_chars, extend_str, has_prefix, has_suffix, replace_all,
    replace_chars, starts_with, string_from_chars, sub_chars,
};

verus! {

/// Where the latest release is described.
pub const RELEASE_URL: &'static str = "https://api.github.com/repos/MetaCubeX/mihomo/releases/latest";

/// The user agent sent to GitHub.
pub const USER_AGENT: &'static str = "mihomo-tray";

/// The Wintun driver archive installed next to the core on Windows.
pub const WINTUN_URL: &'static str = "https://www.wintun.net/builds/wintun-0.14.1.zip";

/// Progress of a core installation, as shown in the download window.
#[derive(Debug, Clone)]
pub enum InstallProgress {
    Resolving,
    Downloading { downloaded: u64, total: Option<u64> },
    Extracting,
    Done,
    Failed(String),
}

/// One downloadable file of a release.
#[derive(Debug, Clone)]
pub struct GithubAsset {
    pub name: String,
    pub browser_download_url: String,
}

/// The latest release: its tag and its files.
#[derive(Debug, Clone)]
pub struct GithubRelease {
    pub tag_name: String,
    pub assets: Vec<GithubAsset>,
}

/// Why an installation failed.
#[derive(Debug, Clone, Copy, PartialEq, Eq, Structural)]
pub enum InstallError {
    /// No asset of the release has one of the candidate names.
    NoMatchingAsset,
    /// The `.gz` asset does not decompress.
    Decompress,
    /// The `.zip` asset is not a readable archive.
    OpenZip,
    /// An entry of the archive cannot be read.
    ZipEntry,
    /// No entry of the archive is the core.
    NoCoreInZip,
    /// The asset is neither `.gz` nor `.zip`.
    UnsupportedFormat,
}

pub open spec fn install_error_text(e: InstallError) -> Seq<char> {
    match e {
        InstallError::NoMatchingAsset => "no matching release asset"@,
        InstallError::Decompress => "decompress gz"@,
        InstallError::OpenZip => "open zip"@,
        InstallError::ZipEntry => "read zip entry"@,
        InstallError::NoCoreInZip => "zip did not contain mihomo binary"@,
        InstallError::UnsupportedFormat => "unsupported asset format"@,
    }
}

impl InstallError {
    pub fn message(&self) -> (r: &'static str)
        ensures
            r@ == install_error_text(*self),
    {
        match self {
            InstallError::NoMatchingAsset => "no matching release asset",
            InstallError::Decompress => "decompress gz",
            InstallError::OpenZip => "open zip",
            InstallError::ZipEntry => "read zip entry",
            InstallError::NoCoreInZip => "zip did not contain mihomo binary",
            InstallError::UnsupportedFormat => "unsupported asset format",
        }
    }
}

fn str_is(a: &str, b: &str) -> (r: bool)
    ensures
        r == (a@ == b@),
{
    let x = chars_of(a);
    let y = chars_of(b);
    chars_eq(x.as_slice(), y.as_slice())
}

// ------------------------------------------------------------------ choosing the asset
/// The tag without its leading `v`s (`trim_start_matches('v')`).
pub open spec fn without_v(tag: Seq<char>) -> Seq<char>
    decreases tag.len(),
{
    if tag.len() > 0 && tag[0] == 'v' {
        without_v(tag.drop_first())
    } else {
        tag
    }
}

/// The release's name for the host OS and its architecture names, best first; `None` for
/// a host without a release build.
pub open spec fn release_target(os: Seq<char>, arch: Seq<char>) -> Option<(Seq<char>, Seq<Seq<char>>)> {
    let name = if os == "macos"@ {
        Some("darwin"@)
    } else if os == "linux"@ {
        Some("linux"@)
    } else if os == "windows"@ {
        Some("windows"@)
    } else {
        None
    };
    match name {
        Some(n) => if arch == "aarch64"@ {
            Some((n, seq!["arm64"@]))
        } else if arch == "x86_64"@ {
            Some((n, seq!["amd64"@, "amd64-compatible"@, "amd64-v1"@]))
        } else {
            None
        },
        None => None,
    }
}

/// The archive extension of the release builds for an OS.
pub open spec fn archive_ext(os: Seq<char>) -> Seq<char> {
    if os == "windows"@ {
        ".zip"@
    } else {
        ".gz"@
    }
}

/// For each architecture, the asset named with `v` and the version, then the one named with
/// the tag.
pub open spec fn arch_candidates(
    target: Seq<char>,
    archs: Seq<Seq<char>>,
    ver: Seq<char>,
    tag: Seq<char>,
    ext: Seq<char>,
) -> Seq<Seq<char>>
    decreases archs.len(),
{
    if archs.len() == 0 {
        Seq::empty()
    } else {
        let a = archs.last();
        arch_candidates(target, archs.drop_last(), ver, tag, ext) + seq![
            "mihomo-"@ + target + "-"@ + a + "-v"@ + ver + ext,
            "mihomo-"@ + target + "-"@ + a + "-"@ + tag + ext,
        ]
    }
}

/// The asset names to look for, in order of preference, for a release tag on a host
/// (`os` and `arch` as `std::env::consts` names them).
pub open spec fn asset_candidates(tag: Seq<char>, os: Seq<char>, arch: Seq<char>) -> Seq<Seq<char>> {
    match release_target(os, arch) {
        Some((target, archs)) => arch_candidates(target, archs, without_v(tag), tag, archive_ext(os)),
        None => seq!["unsupported-"@ + os + "-"@ + arch],
    }
}

/// The two asset names of one build of a release: `mihomo-<os>-<arch>-v<version>` and
/// `mihomo-<os>-<arch>-<tag>`, each with the archive extension.
pub open spec fn build_asset_names(os_name: Seq<char>, arch_name: Seq<char>, tag: Seq<char>, ext: Seq<char>) -> Seq<Seq<char>> {
    seq![
        "mihomo-"@ + os_name + "-"@ + arch_name + "-v"@ + without_v(tag) + ext,
        "mihomo-"@ + os_name + "-"@ + arch_name + "-"@ + tag + ext,
    ]
}

proof fn lemma_arch_candidates_one(target: Seq<char>, a: Seq<char>, tag: Seq<char>, ext: Seq<char>)
    ensures
        arch_candidates(target, seq![a], without_v(tag), tag, ext) == build_asset_names(
            target,
            a,
            tag,
            ext,
        ),
{
    assert(seq![a].drop_last() =~= Seq::<Seq<char>>::empty());
    assert(seq![a].last() == a);
    assert(arch_candidates(target, Seq::<Seq<char>>::empty(), without_v(tag), tag, ext)
        == Seq::<Seq<char>>::empty());
    assert(arch_candidates(target, seq![a], without_v(tag), tag, ext) =~= build_asset_names(
        target,
        a,
        tag,
        ext,
    ));
}

proof fn lemma_arch_candidates_three(
    target: Seq<char>,
    a: Seq<char>,
    b: Seq<char>,
    c: Seq<char>,
    tag: Seq<char>,
    ext: Seq<char>,
)
    ensures
        arch_candidates(target, seq![a, b, c], without_v(tag), tag, ext) == build_asset_names(
            target,
            a,
            tag,
            ext,
        ) + build_asset_names(target, b, tag, ext) + build_asset_names(target, c, tag, ext),
{
    let v = without_v(tag);
    assert(seq![a, b, c].drop_last() =~= seq![a, b]);
    assert(seq![a, b].drop_last() =~= seq![a]);
    lemma_arch_candidates_one(target, a, tag, ext);
    assert(arch_candidates(target, seq![a, b], v, tag, ext) =~= build_asset_names(
        target,
        a,
        tag,
        ext,
    ) + build_asset_names(target, b, tag, ext));
    assert(arch_candidates(target, seq![a, b, c], v, tag, ext) =~= build_asset_names(
        target,
        a,
        tag,
        ext,
    ) + build_asset_names(target, b, tag, ext) + build_asset_names(target, c, tag, ext));
}

/// The assets looked for on each host with a release build, best first: on a 64-bit
/// Intel/AMD host (`x86_64`) the `amd64` build, then `amd64-compatible`, then `amd64-v1`; on
/// a 64-bit ARM host (`aarch64`) the `arm64` build. macOS builds are named `darwin`;
/// Windows builds are zip archives, the others gzip.
pub proof fn lemma_host_assets(tag: Seq<char>)
    ensures
        asset_candidates(tag, "macos"@, "x86_64"@) == build_asset_names(
            "darwin"@,
            "amd64"@,
            tag,
            ".gz"@,
        ) + build_asset_names("darwin"@, "amd64-compatible"@, tag, ".gz"@) + build_asset_names(
            "darwin"@,
            "amd64-v1"@,
            tag,
            ".gz"@,
        ),
        asset_candidates(tag, "macos"@, "aarch64"@) == build_asset_names(
            "darwin"@,
            "arm64"@,
            tag,
            ".gz"@,
        ),
        asset_candidates(tag, "linux"@, "x86_64"@) == build_asset_names(
            "linux"@,
            "amd64"@,
            tag,
            ".gz"@,
        ) + build_asset_names("linux"@, "amd64-compatible"@, tag, ".gz"@) + build_asset_names(
            "linux"@,
            "amd64-v1"@,
            tag,
            ".gz"@,
        ),
        asset_candidates(tag, "linux"@, "aarch64"@) == build_asset_names(
            "linux"@,
            "arm64"@,
            tag,
            ".gz"@,
        ),
        asset_candidates(tag, "windows"@, "x86_64"@) == build_asset_names(
            "windows"@,
            "amd64"@,
            tag,
            ".zip"@,
        ) + build_asset_names("windows"@, "amd64-compatible"@, tag, ".zip"@) + build_asset_names(
            "windows"@,
            "amd64-v1"@,
            tag,
            ".zip"@,
        ),
        asset_candidates(tag, "windows"@, "aarch64"@) == build_asset_names(
            "windows"@,
            "arm64"@,
            tag,
            ".zip"@,
        ),
{
    reveal_strlit("macos");
    reveal_strlit("linux");
    reveal_strlit("windows");
    reveal_strlit("x86_64");
    reveal_strlit("aarch64");
    let a3 = seq!["amd64"@, "amd64-compatible"@, "amd64-v1"@];
    lemma_arch_candidates_three("darwin"@, "amd64"@, "amd64-compatible"@, "amd64-v1"@, tag, ".gz"@);
    lemma_arch_candidates_three("linux"@, "amd64"@, "amd64-compatible"@, "amd64-v1"@, tag, ".gz"@);
    lemma_arch_candidates_three(
        "windows"@,
        "amd64"@,
        "amd64-compatible"@,
        "amd64-v1"@,
        tag,
        ".zip"@,
    );
    lemma_arch_candidates_one("darwin"@, "arm64"@, tag, ".gz"@);
    lemma_arch_candidates_one("linux"@, "arm64"@, tag, ".gz"@);
    lemma_arch_candidates_one("windows"@, "arm64"@, tag, ".zip"@);
    assert("macos"@[0] == 'm' && "linux"@[0] == 'l' && "windows"@[0] == 'w');
    assert("aarch64"@[0] == 'a' && "x86_64"@[0] == 'x');
    assert("macos"@ != "windows"@);
    assert("linux"@ != "windows"@);
    assert("aarch64"@ != "x86_64"@);
    assert("linux"@ != "macos"@);
    assert("windows"@ != "macos"@);
    assert("windows"@ != "linux"@);
}

/// Hosts other than macOS, Linux and Windows on `x86_64` or `aarch64` have no release build:
/// the only name is `unsupported-<os>-<arch>`, which no release asset has.
pub proof fn lemma_unsupported_host(tag: Seq<char>, os: Seq<char>, arch: Seq<char>)
    requires
        !(os == "macos"@ || os == "linux"@ || os == "windows"@) || !(arch == "x86_64"@ || arch
            == "aarch64"@),
    ensures
        asset_candidates(tag, os, arch) == seq!["unsupported-"@ + os + "-"@ + arch],
{
}

fn without_v_chars(tag: &[char]) -> (r: Vec<char>)
    ensures
        r@ == without_v(tag@),
{
    let mut i: usize = 0;
    assert(tag@.skip(0) =~= tag@);
    while i < tag.len() && tag[i] == 'v'
        invariant
            i <= tag@.len(),
            without_v(tag@) == without_v(tag@.skip(i as int)),
        decreases tag@.len() - i,
    {
        assert(tag@.skip(i as int).drop_first() =~= tag@.skip(i + 1));
        i += 1;
    }
    let r = sub_chars(tag, i, tag.len());
    assert(r@ =~= tag@.skip(i as int));
    r
}

fn release_target_exec(os: &str, arch: &str) -> (r: Option<(&'static str, Vec<&'static str>)>)
    ensures
        match release_target(os@, arch@) {
            Some((n, a)) => (r matches Some((rn, ra)) && rn@ == n && ra@.map_values(
                |s: &str| s@,
            ) == a),
            None => r is None,
        },
{
    let name: Option<&'static str> = if str_is(os, "macos") {
        Some("darwin")
    } else if str_is(os, "linux") {
        Some("linux")
    } else if str_is(os, "windows") {
        Some("windows")
    } else {
        None
    };
    match name {
        Some(n) => {
            if str_is(arch, "aarch64") {
                let v: Vec<&'static str> = vec!["arm64"];
                assert(v@.map_values(|s: &str| s@) =~= seq!["arm64"@]);
                Some((n, v))
            } else if str_is(arch, "x86_64") {
                let v: Vec<&'static str> = vec!["amd64", "amd64-compatible", "amd64-v1"];
                assert(v@.map_values(|s: &str| s@) =~= seq![
                    "amd64"@,
                    "amd64-compatible"@,
                    "amd64-v1"@,
                ]);
                Some((n, v))
            } else {
                None
            }
        },
        None => None,
    }
}

fn candidate_name(target: &str, arch: &str, middle: &str, ver: &[char], ext: &str) -> (r: String)
    ensures
        r@ == "mihomo-"@ + target@ + "-"@ + arch@ + middle@ + ver@ + ext@,
{
    let mut v = chars_of("mihomo-");
    extend_str(&mut v, target);
    extend_str(&mut v, "-");
    extend_str(&mut v, arch);
    extend_str(&mut v, middle);
    extend_chars(&mut v, ver);
    extend_str(&mut v, ext);
    string_from_chars(v.as_slice())
}

/// The release asset names that fit the host, best first.
pub fn platform_asset_candidates(tag: &str, os: &str, arch: &str) -> (r: Vec<String>)
    ensures
        r@.map_values(|s: String| s@) == asset_candidates(tag@, os@, arch@),
{
    let mut out: Vec<String> = Vec::new();
    match release_target_exec(os, arch) {
        None => {
            let mut v = chars_of("unsupported-");
            extend_str(&mut v, os);
            extend_str(&mut v, "-");
            extend_str(&mut v, arch);
            out.push(string_from_chars(v.as_slice()));
            assert(out@.map_values(|s: String| s@) =~= asset_candidates(tag@, os@, arch@));
            out
        },
        Some((target, archs)) => {
            let tv = chars_of(tag);
            let ver = without_v_chars(tv.as_slice());
            let ext: &'static str = if str_is(os, "windows") {
                ".zip"
            } else {
                ".gz"
            };
            let ghost av = archs@.map_values(|s: &str| s@);
            let mut i: usize = 0;
            assert(av.take(0) =~= Seq::<Seq<char>>::empty());
            assert(out@.map_values(|s: String| s@) =~= Seq::<Seq<char>>::empty());
            while i < archs.len()
                invariant
                    i <= archs@.len(),
                    av == archs@.map_values(|s: &str| s@),
                    ver@ == without_v(tag@),
                    tv@ == tag@,
                    ext@ == archive_ext(os@),
                    out@.map_values(|s: String| s@) == arch_candidates(
                        target@,
                        av.take(i as int),
                        without_v(tag@),
                        tag@,
                        ext@,
                    ),
                decreases archs@.len() - i,
            {
                let ghost before = out@.map_values(|s: String| s@);
                let a = archs[i];
                let first = candidate_name(target, a, "-v", ver.as_slice(), ext);
                let second = candidate_name(target, a, "-", tv.as_slice(), ext);
                out.push(first);
                out.push(second);
                proof {
                    assert(av.take(i + 1).drop_last() =~= av.take(i as int));
                    assert(av.take(i + 1).last() == a@);
                    assert(out@.map_values(|s: String| s@) =~= before + seq![
                        "mihomo-"@ + target@ + "-"@ + a@ + "-v"@ + without_v(tag@) + ext@,
                        "mihomo-"@ + target@ + "-"@ + a@ + "-"@ + tag@ + ext@,
                    ]);
                }
                i += 1;
            }
            assert(av.take(i as int) =~= av);
            out
        },
    }
}

/// The names of a release's assets.
pub open spec fn asset_names(assets: Seq<GithubAsset>) -> Seq<Seq<char>> {
    assets.map_values(|a: GithubAsset| a.name@)
}

pub open spec fn has_name(names: Seq<Seq<char>>, want: Seq<char>) -> bool {
    exists|k: int| 0 <= k < names.len() && names[k] == want
}

/// `i` is the first position of `want` in `names`.
pub open spec fn first_index_of(names: Seq<Seq<char>>, want: Seq<char>, i: int) -> bool {
    &&& 0 <= i < names.len()
    &&& names[i] == want
    &&& forall|k: int| 0 <= k < i ==> names[k] != want
}

/// Asset `i` is the one installed: the first asset named like the first candidate that
/// names any asset.
pub open spec fn picks_asset(cands: Seq<Seq<char>>, names: Seq<Seq<char>>, i: int) -> bool {
    exists|c: int|
        0 <= c < cands.len() && first_index_of(names, cands[c], i) && forall|d: int|
            0 <= d < c ==> !has_name(names, #[trigger] cands[d])
}

fn index_of_name(assets: &Vec<GithubAsset>, want: &str) -> (r: Option<usize>)
    ensures
        match r {
            Some(i) => first_index_of(asset_names(assets@), want@, i as int),
            None => !has_name(asset_names(assets@), want@),
        },
{
    let ghost names = asset_names(assets@);
    let mut i: usize = 0;
    while i < assets.len()
        invariant
            i <= assets@.len(),
            names == asset_names(assets@),
            forall|k: int| 0 <= k < i ==> names[k] != want@,
        decreases assets@.len() - i,
    {
        if str_is(assets[i].name.as_str(), want) {
            return Some(i);
        }
        i += 1;
    }
    assert forall|k: int| 0 <= k < names.len() implies names[k] != want@ by {}
    None
}

/// Which asset of the release to install: the first asset named like the first candidate
/// that the release has; `None` when it has none of them.
pub fn select_asset(candidates: &Vec<String>, release: &GithubRelease) -> (r: Option<usize>)
    ensures
        match r {
            Some(i) => picks_asset(
                candidates@.map_values(|s: String| s@),
                asset_names(release.assets@),
                i as int,
            ),
            None => forall|c: int|
                0 <= c < candidates@.len() ==> !has_name(
                    asset_names(release.assets@),
                    #[trigger] candidates@[c]@,
                ),
        },
{
    let ghost cands = candidates@.map_values(|s: String| s@);
    let ghost names = asset_names(release.assets@);
    let mut c: usize = 0;
    while c < candidates.len()
        invariant
            c <= candidates@.len(),
            cands == candidates@.map_values(|s: String| s@),
            names == asset_names(release.assets@),
            forall|d: int| 0 <= d < c ==> !has_name(names, #[trigger] cands[d]),
        decreases candidates@.len() - c,
    {
        match index_of_name(&release.assets, candidates[c].as_str()) {
            Some(i) => {
                assert(cands[c as int] == candidates@[c as int]@);
                assert(first_index_of(names, cands[c as int], i as int));
                return Some(i);
            },
            None => {
                assert(cands[c as int] == candidates@[c as int]@);
            },
        }
        c += 1;
    }
    assert forall|k: int| 0 <= k < candidates@.len() implies !has_name(
        names,
        #[trigger] candidates@[k]@,
    ) by {
        assert(cands[k] == candidates@[k]@);
    }
    None
}

// ------------------------------------------------------------------ downloading
/// The progress after another chunk of `n` bytes of the download.
pub fn after_chunk(downloaded: u64, n: usize, total: Option<u64>) -> (r: (u64, InstallProgress))
    requires
        downloaded + n <= u64::MAX,
    ensures
        r.0 == downloaded + n,
        r.1 == (InstallProgress::Downloading { downloaded: r.0, total }),
{
    let d = downloaded + n as u64;
    (d, InstallProgress::Downloading { downloaded: d, total })
}

// ------------------------------------------------------------------ unpacking
/// How an asset is unpacked.
#[derive(Debug, Clone, Copy, PartialEq, Eq, Structural)]
pub enum ArchiveKind {
    /// A single gzip-compressed file (not a tarball).
    Gzip,
    Zip,
    Unsupported,
}

pub open spec fn archive_kind_of(name: Seq<char>) -> ArchiveKind {
    if ends_with(name, ".gz"@) && !ends_with(name, ".tar.gz"@) {
        ArchiveKind::Gzip
    } else if ends_with(name, ".zip"@) {
        ArchiveKind::Zip
    } else {
        ArchiveKind::Unsupported
    }
}

pub fn archive_kind(name: &str) -> (r: ArchiveKind)
    ensures
        r == archive_kind_of(name@),
{
    let n = chars_of(name);
    let gz = chars_of(".gz");
    let tgz = chars_of(".tar.gz");
    let zip = chars_of(".zip");
    if has_suffix(n.as_slice(), gz.as_slice()) && !has_suffix(n.as_slice(), tgz.as_slice()) {
        ArchiveKind::Gzip
    } else if has_suffix(n.as_slice(), zip.as_slice()) {
        ArchiveKind::Zip
    } else {
        ArchiveKind::Unsupported
    }
}

/// What `flate2::read::GzDecoder` yields from reading `bytes` to the end (`None`: an error).
pub uninterp spec fn gzip_decoded(bytes: Seq<u8>) -> Option<Seq<u8>>;

/// Decompresses a gzip stream with `flate2::read::GzDecoder`, read to the end; the result
/// is named `gzip_decoded`.
#[verifier::external_body]
fn gunzip(bytes: &[u8]) -> (r: Option<Vec<u8>>)
    ensures
        match r {
            Some(v) => gzip_decoded(bytes@) == Some(v@),
            None => gzip_decoded(bytes@) is None,
        },
{
    let mut out: Vec<u8> = Vec::new();
    match std::io::Read::read_to_end(&mut flate2::read::GzDecoder::new(bytes), &mut out) {
        Ok(_) => Some(out),
        Err(_) => None,
    }
}

/// The number of entries `zip::ZipArchive` finds in an archive (`None`: it cannot open it).
pub uninterp spec fn zip_entry_count(bytes: Seq<u8>) -> Option<nat>;

/// The name of entry `index` of an archive (`ZipArchive::by_index` then `ZipFile::name`).
pub uninterp spec fn zip_entry_name(bytes: Seq<u8>, index: nat) -> Option<Seq<char>>;

/// The contents of entry `index` of an archive, read to the end.
pub uninterp spec fn zip_entry_data(bytes: Seq<u8>, index: nat) -> Option<Seq<u8>>;

/// Opens an archive with `zip::ZipArchive::new` and counts its entries (`len`); the result
/// is named `zip_entry_count`.
#[verifier::external_body]
fn zip_len(bytes: &[u8]) -> (r: Option<usize>)
    ensures
        match r {
            Some(n) => zip_entry_count(bytes@) == Some(n as nat),
            None => zip_entry_count(bytes@) is None,
        },
{
    match zip::ZipArchive::new(std::io::Cursor::new(bytes)) {
        Ok(archive) => Some(archive.len()),
        Err(_) => None,
    }
}

/// The name of an archive entry (`ZipArchive::by_index`, `ZipFile::name`); the result is
/// named `zip_entry_name`.
#[verifier::external_body]
fn zip_name(bytes: &[u8], index: usize) -> (r: Option<String>)
    ensures
        opt_str_view(r) == zip_entry_name(bytes@, index as nat),
{
    let mut archive = zip::ZipArchive::new(std::io::Cursor::new(bytes)).ok()?;
    let file = archive.by_index(index).ok()?;
    Some(file.name().to_string())
}

/// The contents of an archive entry (`ZipArchive::by_index`, read to the end); the result
/// is named `zip_entry_data`.
#[verifier::external_body]
fn zip_data(bytes: &[u8], index: usize) -> (r: Option<Vec<u8>>)
    ensures
        match r {
            Some(v) => zip_entry_data(bytes@, index as nat) == Some(v@),
            None => zip_entry_data(bytes@, index as nat) is None,
        },
{
    let mut archive = zip::ZipArchive::new(std::io::Cursor::new(bytes)).ok()?;
    let mut file = archive.by_index(index).ok()?;
    let mut out: Vec<u8> = Vec::new();
    std::io::Read::read_to_end(&mut file, &mut out).ok()?;
    Some(out)
}

/// The file name part of an entry name, or nothing.
pub open spec fn base_or_empty(name: Seq<char>) -> Seq<char> {
    match path_file_name(name) {
        Some(b) => b,
        None => ""@,
    }
}

/// Whether an entry's file name marks it as the core.
pub open spec fn is_core_base(base: Seq<char>) -> bool {
    starts_with(base, "mihomo"@)
}

pub fn is_core_file_name(base: &str) -> (r: bool)
    ensures
        r == is_core_base(base@),
{
    let b = chars_of(base);
    let p = chars_of("mihomo");
    has_prefix(b.as_slice(), p.as_slice())
}

/// The core found among entries `i..n` of an archive: the first entry whose file name starts
/// with `mihomo`; reading an entry stops the search with an error.
pub open spec fn zip_core_from(bytes: Seq<u8>, i: nat, n: nat) -> Result<Seq<u8>, InstallError>
    decreases n - i,
{
    if i >= n {
        Err(InstallError::NoCoreInZip)
    } else {
        match zip_entry_name(bytes, i) {
            None => Err(InstallError::ZipEntry),
            Some(name) => if is_core_base(base_or_empty(name)) {
                match zip_entry_data(bytes, i) {
                    Some(d) => Ok(d),
                    None => Err(InstallError::ZipEntry),
                }
            } else {
                zip_core_from(bytes, (i + 1) as nat, n)
            },
        }
    }
}

/// The core binary unpacked from a downloaded asset.
pub open spec fn extracted_core(name: Seq<char>, bytes: Seq<u8>) -> Result<Seq<u8>, InstallError> {
    match archive_kind_of(name) {
        ArchiveKind::Gzip => match gzip_decoded(bytes) {
            Some(d) => Ok(d),
            None => Err(InstallError::Decompress),
        },
        ArchiveKind::Zip => match zip_entry_count(bytes) {
            Some(n) => zip_core_from(bytes, 0, n),
            None => Err(InstallError::OpenZip),
        },
        ArchiveKind::Unsupported => Err(InstallError::UnsupportedFormat),
    }
}

pub open spec fn bytes_result(r: Result<Vec<u8>, InstallError>) -> Result<Seq<u8>, InstallError> {
    match r {
        Ok(v) => Ok(v@),
        Err(e) => Err(e),
    }
}

fn core_from_zip(bytes: &[u8], n: usize) -> (r: Result<Vec<u8>, InstallError>)
    requires
        zip_entry_count(bytes@) == Some(n as nat),
    ensures
        bytes_result(r) == zip_core_from(bytes@, 0, n as nat),
{
    let mut i: usize = 0;
    while i < n
        invariant
            i <= n,
            zip_core_from(bytes@, 0, n as nat) == zip_core_from(bytes@, i as nat, n as nat),
        decreases n - i,
    {
        let name = match zip_name(bytes, i) {
            Some(s) => s,
            None => {
                return Err(InstallError::ZipEntry);
            },
        };
        let base = match file_name(name.as_str()) {
            Some(b) => b,
            None => String::new(),
        };
        proof {
            reveal_strlit("");
            assert(base@ == base_or_empty(name@));
        }
        if is_core_file_name(base.as_str()) {
            return match zip_data(bytes, i) {
                Some(d) => Ok(d),
                None => Err(InstallError::ZipEntry),
            };
        }
        i += 1;
    }
    Err(InstallError::NoCoreInZip)
}

/// Unpacks the core from a downloaded asset: a `.gz` file is decompressed; in a `.zip`
/// archive the first entry whose file name starts with `mihomo` is the core.
pub fn extract_core(asset_name: &str, bytes: &[u8]) -> (r: Result<Vec<u8>, InstallError>)
    ensures
        bytes_result(r) == extracted_core(asset_name@, bytes@),
{
    match archive_kind(asset_name) {
        ArchiveKind::Gzip => match gunzip(bytes) {
            Some(d) => Ok(d),
            None => Err(InstallError::Decompress),
        },
        ArchiveKind::Zip => match zip_len(bytes) {
            Some(n) => core_from_zip(bytes, n),
            None => Err(InstallError::OpenZip),
        },
        ArchiveKind::Unsupported => Err(InstallError::UnsupportedFormat),
    }
}

// ------------------------------------------------------------------ Wintun
/// The archive entry of the Wintun driver for an architecture.
pub open spec fn wintun_entry_of(arch: Seq<char>) -> Seq<char> {
    if arch == "aarch64"@ {
        "wintun/bin/arm64/wintun.dll"@
    } else {
        "wintun/bin/amd64/wintun.dll"@
    }
}

pub fn wintun_entry(arch: &str) -> (r: &'static str)
    ensures
        r@ == wintun_entry_of(arch@),
{
    if str_is(arch, "aarch64") {
        "wintun/bin/arm64/wintun.dll"
    } else {
        "wintun/bin/amd64/wintun.dll"
    }
}

/// The driver found among entries `i..n`: the first entry whose name, with `\` read as `/`,
/// is `want`; nothing when an entry cannot be read or none matches.
pub open spec fn wintun_from(bytes: Seq<u8>, i: nat, n: nat, want: Seq<char>) -> Option<Seq<u8>>
    decreases n - i,
{
    if i >= n {
        None
    } else {
        match zip_entry_name(bytes, i) {
            None => None,
            Some(name) => if replace_all(name, "\\"@, "/"@) == want {
                zip_entry_data(bytes, i)
            } else {
                wintun_from(bytes, (i + 1) as nat, n, want)
            },
        }
    }
}

pub open spec fn extracted_wintun(bytes: Seq<u8>, arch: Seq<char>) -> Option<Seq<u8>> {
    match zip_entry_count(bytes) {
        Some(n) => wintun_from(bytes, 0, n, wintun_entry_of(arch)),
        None => None,
    }
}

/// The Wintun driver for an architecture, from the downloaded Wintun archive.
pub fn extract_wintun(bytes: &[u8], arch: &str) -> (r: Option<Vec<u8>>)
    ensures
        match r {
            Some(v) => extracted_wintun(bytes@, arch@) == Some(v@),
            None => extracted_wintun(bytes@, arch@) is None,
        },
{
    let n = match zip_len(bytes) {
        Some(n) => n,
        None => {
            return None;
        },
    };
    let want = chars_of(wintun_entry(arch));
    let bs = chars_of("\\");
    let fs = chars_of("/");
    proof {
        reveal_strlit("\\");
        reveal_strlit("/");
    }
    let mut i: usize = 0;
    while i < n
        invariant
            i <= n,
            want@ == wintun_entry_of(arch@),
            bs@ == "\\"@,
            bs@.len() == 1,
            fs@ == "/"@,
            extracted_wintun(bytes@, arch@) == wintun_from(bytes@, i as nat, n as nat, want@),
        decreases n - i,
    {
        let name = match zip_name(bytes, i) {
            Some(s) => s,
            None => {
                return None;
            },
        };
        let nv = chars_of(name.as_str());
        let norm = replace_chars(nv.as_slice(), bs.as_slice(), fs.as_slice());
        if chars_eq(norm.as_slice(), want.as_slice()) {
            return zip_data(bytes, i);
        }
        i += 1;
    }
    None
}

// ------------------------------------------------------------------ checking the core
/// The flag of the `attempt`-th version check of an installed core: `-v`, then
/// `--version`; the core is broken when both fail.
pub fn version_flag(attempt: u32) -> (r: Option<&'static str>)
    ensures
        attempt == 0 ==> (r matches Some(f) && f@ == "-v"@),
        attempt == 1 ==> (r matches Some(f) && f@ == "--version"@),
        attempt > 1 ==> r is None,
{
    if attempt == 0 {
        Some("-v")
    } else if attempt == 1 {
        Some("--version")
    } else {
        None
    }
}

/// Installs the core from the latest GitHub release into the tray's data directory.
#[derive(Debug, Clone)]
pub struct GithubCoreInstaller {
    pub config_dir: String,
    pub host: HostOs,
}

impl GithubCoreInstaller {
    pub fn new(config_dir: String, host: HostOs) -> (r: Self)
        ensures
            r.config_dir@ == config_dir@,
            r.host == host,
    {
        GithubCoreInstaller { config_dir, host }
    }

    /// Where the core is installed.
    pub fn core_path(&self) -> (r: String)
        ensures
            r@ == crate::paths::path_join(
                crate::paths::path_join(self.config_dir@, "bin"@),
                core_binary_name(self.host),
            ),
    {
        core_binary_path(self.config_dir.as_str(), self.host)
    }

    /// A download is needed unless the core exists and answers a version check.
    pub fn needs_install(&self, exists: bool, answers_version: bool) -> (r: bool)
        ensures
            r == !(exists && answers_version),
    {
        !(exists && answers_version)
    }
}

// ------------------------------------------------------------------ sidecar
/// Runs the core as a child process of the tray.
#[derive(Debug, Clone)]
pub struct SidecarCoreRunner {
    pub config_dir: String,
    pub host: HostOs,
}

/// The separator of the core's `SAFE_PATHS` list on a host.
pub open spec fn safe_separator_of(host: HostOs) -> Seq<char> {
    if host is Windows {
        ";"@
    } else {
        ":"@
    }
}

/// `SAFE_PATHS` for the core: the data directory, then the profile's directory (empty when
/// the profile has none).
pub open spec fn safe_paths_of(config_dir: Seq<char>, sep: Seq<char>, profile: Seq<char>) -> Seq<char> {
    config_dir + sep + match path_parent(profile) {
        Some(p) => p,
        None => ""@,
    }
}

/// `SAFE_PATHS` from the data directory and the profile, joined by `sep`.
pub fn safe_paths(config_dir: &str, sep: &str, profile: &str) -> (r: String)
    ensures
        r@ == safe_paths_of(config_dir@, sep@, profile@),
{
    let mut v = chars_of(config_dir);
    extend_str(&mut v, sep);
    match parent(profile) {
        Some(p) => {
            extend_str(&mut v, p.as_str());
            assert(v@ =~= safe_paths_of(config_dir@, sep@, profile@));
        },
        None => {
            proof {
                reveal_strlit("");
            }
            assert(v@ =~= safe_paths_of(config_dir@, sep@, profile@));
        },
    }
    string_from_chars(v.as_slice())
}

impl SidecarCoreRunner {
    pub fn new(config_dir: String, host: HostOs) -> (r: Self)
        ensures
            r.config_dir@ == config_dir@,
            r.host == host,
    {
        SidecarCoreRunner { config_dir, host }
    }

    pub fn safe_paths_separator(&self) -> (r: &'static str)
        ensures
            r@ == safe_separator_of(self.host),
    {
        if self.host.is_windows() {
            ";"
        } else {
            ":"
        }
    }

    /// The `SAFE_PATHS` value the core is started with.
    pub fn safe_paths(&self, profile: &str) -> (r: String)
        ensures
            r@ == safe_paths_of(self.config_dir@, safe_separator_of(self.host), profile@),
    {
        safe_paths(self.config_dir.as_str(), self.safe_paths_separator(), profile)
    }

    /// The core's arguments: its home directory, the profile, then the local controller.
    pub fn args(&self, profile: &str) -> (r: Vec<String>)
        ensures
            r@.len() == 6,
            r@[0]@ == "-d"@,
            r@[1]@ == self.config_dir@,
            r@[2]@ == "-f"@,
            r@[3]@ == profile@,
            r@[4]@ == controller_flag_of(self.host),
            r@[5]@ == ipc_path_of(self.host),
    {
        core_args(self.config_dir.as_str(), profile, self.host)
    }
}

pub fn create_core_runner(config_dir: String, host: HostOs) -> (r: SidecarCoreRunner)
    ensures
        r.config_dir@ == config_dir@,
        r.host == host,
{
    SidecarCoreRunner::new(config_dir, host)
}

pub fn create_core_installer(config_dir: String, host: HostOs) -> (r: GithubCoreInstaller)
    ensures
        r.config_dir@ == config_dir@,
        r.host == host,
{
    GithubCoreInstaller::new(config_dir, host)
}

} // verus!
