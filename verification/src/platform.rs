//! The artifact locator: platform-specific naming of downloadable artifacts
//! and selection of the matching file from a point-release listing.

use vstd::prelude::*;

use crate::errors::MariaDbVmError;
use crate::text::str_eq;

verus! {

/// The operating systems the naming conventions distinguish.
#[derive(Debug, PartialEq, Eq, Structural, Clone, Copy)]
pub enum HostOs {
    Linux,
    Windows,
    FreeBsd,
    /// Any other system: no artifact naming convention exists, and building
    /// from source is required.
    Other,
}

/// The base of the release-listing service.
pub open spec fn api_base_spec() -> Seq<char> {
    "https://downloads.mariadb.org/rest-api/mariadb"@
}

/// The base of the release-listing service.
pub fn api_base() -> (r: &'static str)
    ensures
        r@ == api_base_spec(),
{
    "https://downloads.mariadb.org/rest-api/mariadb"
}

/// The platform tag a file entry carries in a point-release listing.
pub open spec fn spec_file_os_tag(os: HostOs) -> Seq<char> {
    match os {
        HostOs::Linux => "Linux"@,
        HostOs::Windows => "Windows"@,
        _ => "Source"@,
    }
}

/// The platform tag a file entry carries in a point-release listing.
pub fn file_os_tag(os: HostOs) -> (r: &'static str)
    ensures
        r@ == spec_file_os_tag(os),
{
    match os {
        HostOs::Linux => "Linux",
        HostOs::Windows => "Windows",
        _ => "Source",
    }
}

/// The architecture part of a Windows archive name: "x86" shortens to
/// "x32", "x86_64" to "x64", anything else passes through.
pub open spec fn spec_win_arch(arch: Seq<char>) -> Seq<char> {
    if arch == "x86"@ {
        "x32"@
    } else if arch == "x86_64"@ {
        "x64"@
    } else {
        arch
    }
}

/// The archive name of a release for a platform.
pub open spec fn spec_file_name(os: HostOs, version: Seq<char>, arch: Seq<char>) -> Seq<char> {
    match os {
        HostOs::Linux => "mariadb-"@ + version + "-linux-systemd-"@ + arch + ".tar.gz"@,
        HostOs::Windows => "mariadb-"@ + version + "-win"@ + spec_win_arch(arch) + ".zip"@,
        HostOs::FreeBsd => "mariadb-"@ + version + "-freebsd13.0-"@ + arch + ".tar.gz"@,
        HostOs::Other => Seq::empty(),
    }
}

/// The direct download location of a release's archive for a platform.
pub open spec fn spec_download_url(os: HostOs, version: Seq<char>, arch: Seq<char>) -> Seq<char> {
    match os {
        HostOs::Linux | HostOs::Windows => api_base_spec() + "/"@ + version + "/"@ + spec_file_name(
            os,
            version,
            arch,
        ),
        HostOs::FreeBsd => "https://archive.mariadb.org/mariadb-"@ + version + "/bintar-freebsd130-"@
            + arch + "/"@ + spec_file_name(os, version, arch),
        HostOs::Other => Seq::empty(),
    }
}

/// Names the archive and its direct download location for a release on a
/// platform; fails only on a platform without a naming convention.
pub fn artifact_location(version: &str, os: HostOs, arch: &str) -> (r: Result<
    (String, String),
    MariaDbVmError,
>)
    ensures
        match r {
            Ok(loc) => os != HostOs::Other && loc.0@ == spec_download_url(os, version@, arch@)
                && loc.1@ == spec_file_name(os, version@, arch@),
            Err(e) => os == HostOs::Other && e matches MariaDbVmError::UnsupportedPlatform,
        },
{
    match os {
        HostOs::Linux => {
            let file_name = String::from_str("mariadb-").concat(version).concat(
                "-linux-systemd-",
            ).concat(arch).concat(".tar.gz");
            let url = String::from_str(api_base()).concat("/").concat(version).concat("/").concat(
                file_name.as_str(),
            );
            proof {
                assert(file_name@ =~= spec_file_name(os, version@, arch@));
                assert(url@ =~= spec_download_url(os, version@, arch@));
            }
            Ok((url, file_name))
        },
        HostOs::Windows => {
            let win_arch = if str_eq(arch, "x86") {
                "x32"
            } else if str_eq(arch, "x86_64") {
                "x64"
            } else {
                arch
            };
            let file_name = String::from_str("mariadb-").concat(version).concat("-win").concat(
                win_arch,
            ).concat(".zip");
            let url = String::from_str(api_base()).concat("/").concat(version).concat("/").concat(
                file_name.as_str(),
            );
            proof {
                assert(file_name@ =~= spec_file_name(os, version@, arch@));
                assert(url@ =~= spec_download_url(os, version@, arch@));
            }
            Ok((url, file_name))
        },
        HostOs::FreeBsd => {
            let file_name = String::from_str("mariadb-").concat(version).concat(
                "-freebsd13.0-",
            ).concat(arch).concat(".tar.gz");
            let url = String::from_str("https://archive.mariadb.org/mariadb-").concat(
                version,
            ).concat("/bintar-freebsd130-").concat(arch).concat("/").concat(file_name.as_str());
            proof {
                assert(file_name@ =~= spec_file_name(os, version@, arch@));
                assert(url@ =~= spec_download_url(os, version@, arch@));
            }
            Ok((url, file_name))
        },
        HostOs::Other => Err(MariaDbVmError::UnsupportedPlatform),
    }
}

/// The location of the separate checksum document for an archive.
pub open spec fn spec_checksum_url(version: Seq<char>, file_name: Seq<char>) -> Seq<char> {
    api_base_spec() + "/"@ + version + "/"@ + file_name + "/checksum"@
}

/// Builds the location of the separate checksum document for an archive.
pub fn checksum_url(version: &str, file_name: &str) -> (r: String)
    ensures
        r@ == spec_checksum_url(version@, file_name@),
{
    let r = String::from_str(api_base()).concat("/").concat(version).concat("/").concat(
        file_name,
    ).concat("/checksum");
    proof {
        assert(r@ =~= spec_checksum_url(version@, file_name@));
    }
    r
}

/// The location of the point-release listing of a major.minor family.
pub open spec fn spec_listing_url(family: Seq<char>) -> Seq<char> {
    api_base_spec() + "/"@ + family + "/"@
}

/// Builds the location of the point-release listing of a major.minor family.
pub fn listing_url(family: &str) -> (r: String)
    ensures
        r@ == spec_listing_url(family@),
{
    let r = String::from_str(api_base()).concat("/").concat(family).concat("/");
    proof {
        assert(r@ =~= spec_listing_url(family@));
    }
    r
}

/// The directory all artifacts are kept under, below the target root.
pub open spec fn spec_target_dir(root: Seq<char>) -> Seq<char> {
    root + "/downloads/mariadb"@
}

/// The path an artifact is kept at, below the target root.
pub open spec fn spec_target_file(root: Seq<char>, file_name: Seq<char>) -> Seq<char> {
    spec_target_dir(root) + "/"@ + file_name
}

/// Builds the directory all artifacts are kept under.
pub fn target_dir(root: &str) -> (r: String)
    ensures
        r@ == spec_target_dir(root@),
{
    String::from_str(root).concat("/downloads/mariadb")
}

/// Builds the path an artifact is kept at.
pub fn target_file(root: &str, file_name: &str) -> (r: String)
    ensures
        r@ == spec_target_file(root@, file_name@),
{
    let r = String::from_str(root).concat("/downloads/mariadb").concat("/").concat(file_name);
    proof {
        assert(r@ =~= spec_target_file(root@, file_name@));
    }
    r
}

/// The checksums a point-release listing carries for one file.
#[derive(Debug)]
pub struct Checksum {
    pub md5sum: Option<String>,
    pub sha1sum: Option<String>,
    pub sha256sum: Option<String>,
    pub sha512sum: Option<String>,
}

/// One downloadable file of a point release.
#[derive(Debug)]
pub struct ReleaseFile {
    /// Identifier enabling a mirror-qualified download.
    pub file_id: u64,
    pub file_name: String,
    /// Platform tag, such as "Linux" or "Windows"; absent on some entries.
    pub os: Option<String>,
    pub checksum: Checksum,
}

/// One point release and its downloadable files, as listed for a family.
#[derive(Debug)]
pub struct Release {
    pub release_id: String,
    pub files: Vec<ReleaseFile>,
}

/// Whether a file entry carries the given platform tag.
pub open spec fn file_os_matches(f: ReleaseFile, tag: Seq<char>) -> bool {
    match f.os {
        Some(o) => o@ == tag,
        None => false,
    }
}

/// Index of the first file with the given platform tag, scanning in listing
/// order.
pub open spec fn first_os_file(files: Seq<ReleaseFile>, tag: Seq<char>) -> Option<int>
    decreases files.len(),
{
    if files.len() == 0 {
        None
    } else if file_os_matches(files[0], tag) {
        Some(0)
    } else {
        match first_os_file(files.skip(1), tag) {
            Some(i) => Some(i + 1),
            None => None,
        }
    }
}

/// Finds the first file with the given platform tag, as the locator does
/// when it reads a point-release listing.
pub fn find_os_file(files: &Vec<ReleaseFile>, tag: &str) -> (r: Option<usize>)
    ensures
        match r {
            Some(i) => i < files@.len() && first_os_file(files@, tag@) == Some(i as int),
            None => first_os_file(files@, tag@) is None,
        },
{
    let mut k: usize = 0;
    while k < files.len()
        invariant
            k <= files@.len(),
            forall|j: int| 0 <= j < k ==> !file_os_matches(#[trigger] files@[j], tag@),
        decreases files@.len() - k,
    {
        let matches_tag = match &files[k].os {
            Some(o) => str_eq(o.as_str(), tag),
            None => false,
        };
        if matches_tag {
            proof {
                lemma_first_os_file_at(files@, tag@, k as int);
            }
            return Some(k);
        }
        k = k + 1;
    }
    proof {
        lemma_first_os_file_none(files@, tag@);
    }
    None
}

proof fn lemma_first_os_file_at(files: Seq<ReleaseFile>, tag: Seq<char>, i: int)
    requires
        0 <= i < files.len(),
        file_os_matches(files[i], tag),
        forall|j: int| 0 <= j < i ==> !file_os_matches(#[trigger] files[j], tag),
    ensures
        first_os_file(files, tag) == Some(i),
    decreases files.len(),
{
    if i > 0 {
        lemma_first_os_file_at(files.skip(1), tag, i - 1);
    }
}

proof fn lemma_first_os_file_none(files: Seq<ReleaseFile>, tag: Seq<char>)
    requires
        forall|j: int| 0 <= j < files.len() ==> !file_os_matches(#[trigger] files[j], tag),
    ensures
        first_os_file(files, tag) is None,
    decreases files.len(),
{
    if files.len() > 0 {
        lemma_first_os_file_none(files.skip(1), tag);
    }
}

} // verus!
