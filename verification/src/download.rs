//! The acquisition orchestrator, as a pure state machine.
//!
//! One acquisition is a linear run: resolve the request, locate the
//! artifact, obtain its expected checksum, reuse a verified cached file or
//! fetch a fresh one, and verify what was fetched.  Every decision lives
//! here; every effect (network round-trip, file read or write) is a
//! [`DownloadAction`] the caller performs, answering with a
//! [`DownloadEvent`].  The caller owns the I/O and the library owns the
//! rules: a cache hit ends the run at once with no further action, a cached
//! file with a wrong digest is re-fetched rather than returned, and a fresh
//! download with a wrong digest fails and never yields a path.

use vstd::prelude::*;

use crate::catalog::MajorReleases;
use crate::checksum::{hex_of, sha256_of, verify_bytes};
use crate::errors::MariaDbVmError;
use crate::mirror::{select_mirror, MirrorCategory};
use crate::platform::{
    api_base, api_base_spec, artifact_location, checksum_url, file_os_tag, find_os_file,
    first_os_file, listing_url, spec_checksum_url, spec_download_url, spec_file_name,
    spec_file_os_tag, spec_listing_url, spec_target_dir, spec_target_file, target_dir,
    target_file, Checksum, HostOs, Release,
};
use crate::resolve::{resolve_spec, resolve_version};
use crate::text::{dec_str, u64_to_dec};
use crate::version_order::{count_dots, dot_count};

verus! {

/// The inputs of one acquisition.
#[derive(Debug)]
pub struct DownloadConfig {
    /// The symbolic version request: an alias or a literal version.
    pub version: String,
    /// The root under which artifacts are kept.
    pub target_root: String,
    /// Fetch afresh even when a verified cached file exists.
    pub force: bool,
    /// Operator-chosen mirror identifier, used unvalidated when given.
    pub mirror: Option<String>,
    /// The host operating system.
    pub os: HostOs,
    /// The host architecture, as spelled in artifact names ("x86_64").
    pub arch: String,
}

/// Everything known about the artifact once it is located.
#[derive(Debug)]
pub struct ArtifactPlan {
    /// The concrete release the artifact belongs to.
    pub version: String,
    /// The artifact's archive name.
    pub file_name: String,
    /// The direct, mirror-less download location.
    pub download_url: String,
    /// Identifier for a mirror-qualified download, when the listing gave one.
    pub file_id: Option<u64>,
    /// The directory the artifact is kept in.
    pub target_dir: String,
    /// The path the artifact is kept at.
    pub target_file: String,
    /// Fetch afresh even when a verified cached file exists.
    pub force: bool,
    /// Operator-chosen mirror identifier.
    pub mirror: Option<String>,
    /// The host operating system.
    pub os: HostOs,
}

/// Where an acquisition stands between two effects.
#[derive(Debug)]
pub enum DownloadState {
    /// Waiting for the point-release listing of a major.minor family; the
    /// config's version holds the resolved family identifier.
    AwaitListing { cfg: DownloadConfig },
    /// Waiting for the separate checksum document of the artifact.
    AwaitChecksum { plan: ArtifactPlan },
    /// Waiting for the bytes of a possibly cached file.
    AwaitCache { plan: ArtifactPlan, sha256: String },
    /// Waiting for the target directory to exist.
    AwaitDir { plan: ArtifactPlan, sha256: String },
    /// Waiting for the mirror list.
    AwaitMirrors { plan: ArtifactPlan, sha256: String },
    /// Waiting for the artifact bytes, fetched from `url` and written to the
    /// target file.
    AwaitArtifact { plan: ArtifactPlan, sha256: String, url: String },
    /// The run ended with a verified artifact at `path`.
    Done { path: String },
    /// The run ended with an error.
    Stopped { error: MariaDbVmError },
}

/// The next effect the caller must perform.
#[derive(Debug)]
pub enum DownloadAction {
    /// GET the point-release listing at `url`; answer with `Listing`.
    FetchListing { url: String },
    /// GET the checksum document at `url`; answer with `ChecksumDoc`.
    FetchChecksum { url: String },
    /// Read the file at `path` if it exists; answer with `CacheFile`.
    ProbeCache { path: String },
    /// Create the directory at `path` if it is missing; answer with
    /// `DirReady`.
    EnsureDir { path: String },
    /// GET the mirror list; answer with `Mirrors`.
    FetchMirrors,
    /// GET `url` and write the whole body to `path`; answer with
    /// `ArtifactBytes` holding the bytes as written.
    FetchArtifact { url: String, path: String },
    /// The run has ended; the state holds the outcome.
    Finish,
}

/// The caller's answer to an action.
#[derive(Debug)]
pub enum DownloadEvent {
    /// The point releases of the family, in listing order, newest last.
    Listing { releases: Vec<Release> },
    /// The parsed checksum document.
    ChecksumDoc { checksum: Checksum },
    /// The cached file's bytes, or `None` when it is absent or unreadable.
    CacheFile { bytes: Option<Vec<u8>> },
    /// The target directory exists.
    DirReady,
    /// The parsed mirror list.
    Mirrors { categories: Vec<MirrorCategory> },
    /// The body of the freshly fetched artifact, as written to disk.
    ArtifactBytes { body: Vec<u8> },
    /// The action failed; the run stops with this error, unchanged.
    Failed { error: MariaDbVmError },
}

/// The mirror-qualified download location of a listed file.
pub open spec fn spec_mirror_url(version: Seq<char>, file_id: u64, mirror_id: Seq<char>) -> Seq<
    char,
> {
    api_base_spec() + "/"@ + version + "/"@ + dec_str(file_id as nat) + "?mirror="@ + mirror_id
}

/// Builds the mirror-qualified download location of a listed file.
pub fn mirror_url(version: &str, file_id: u64, mirror_id: &str) -> (r: String)
    ensures
        r@ == spec_mirror_url(version@, file_id, mirror_id@),
{
    let r = String::from_str(api_base()).concat("/").concat(version).concat("/").concat(
        u64_to_dec(file_id).as_str(),
    ).concat("?mirror=").concat(mirror_id);
    proof {
        assert(r@ =~= spec_mirror_url(version@, file_id, mirror_id@));
    }
    r
}

/// A plan names the artifact of release `v` for the platform in `cfg`, with
/// the listing data `fid`, and keeps the caller's choices.
pub open spec fn plan_wf(
    plan: ArtifactPlan,
    cfg: DownloadConfig,
    v: Seq<char>,
    fid: Option<u64>,
) -> bool {
    &&& plan.version@ == v
    &&& plan.file_name@ == spec_file_name(cfg.os, v, cfg.arch@)
    &&& plan.download_url@ == spec_download_url(cfg.os, v, cfg.arch@)
    &&& plan.file_id == fid
    &&& plan.target_dir@ == spec_target_dir(cfg.target_root@)
    &&& plan.target_file@ == spec_target_file(cfg.target_root@, plan.file_name@)
    &&& plan.force == cfg.force
    &&& plan.mirror == cfg.mirror
    &&& plan.os == cfg.os
}

/// Names the artifact of release `version` and lays out its target paths.
fn build_plan(cfg: DownloadConfig, version: String, file_id: Option<u64>) -> (r: Result<
    ArtifactPlan,
    MariaDbVmError,
>)
    ensures
        match r {
            Ok(plan) => cfg.os != HostOs::Other && plan_wf(plan, cfg, version@, file_id),
            Err(e) => cfg.os == HostOs::Other && e matches MariaDbVmError::UnsupportedPlatform,
        },
{
    match artifact_location(version.as_str(), cfg.os, cfg.arch.as_str()) {
        Err(e) => Err(e),
        Ok((download_url, file_name)) => {
            let dir = target_dir(cfg.target_root.as_str());
            let file = target_file(cfg.target_root.as_str(), file_name.as_str());
            Ok(
                ArtifactPlan {
                    version,
                    file_name,
                    download_url,
                    file_id,
                    target_dir: dir,
                    target_file: file,
                    force: cfg.force,
                    mirror: cfg.mirror,
                    os: cfg.os,
                },
            )
        },
    }
}

/// With the expected checksum in hand, either probe the cache or, when a
/// fresh fetch is forced, go straight to preparing the target directory.
fn with_checksum(plan: ArtifactPlan, sha256: String) -> (r: (DownloadState, DownloadAction))
    ensures
        if !plan.force {
            r.0 == (DownloadState::AwaitCache { plan, sha256 }) && (r.1 matches
                DownloadAction::ProbeCache { path } && path@ == plan.target_file@)
        } else {
            r.0 == (DownloadState::AwaitDir { plan, sha256 }) && (r.1 matches
                DownloadAction::EnsureDir { path } && path@ == plan.target_dir@)
        },
{
    if !plan.force {
        let path = plan.target_file.clone();
        (DownloadState::AwaitCache { plan, sha256 }, DownloadAction::ProbeCache { path })
    } else {
        let path = plan.target_dir.clone();
        (DownloadState::AwaitDir { plan, sha256 }, DownloadAction::EnsureDir { path })
    }
}

fn stop_io_mismatch() -> (r: (DownloadState, DownloadAction))
    ensures
        r.0 matches DownloadState::Stopped { error } && (error matches MariaDbVmError::Io {
            message,
        } && message@ == "event does not answer this state"@),
        r.1 is Finish,
{
    (
        DownloadState::Stopped {
            error: MariaDbVmError::Io {
                message: String::from_str("event does not answer this state"),
            },
        },
        DownloadAction::Finish,
    )
}

fn stop_failed(error: MariaDbVmError) -> (r: (DownloadState, DownloadAction))
    ensures
        r.0 == (DownloadState::Stopped { error }),
        r.1 is Finish,
{
    (DownloadState::Stopped { error }, DownloadAction::Finish)
}

/// Whether an event is the answer the state awaits.
pub open spec fn expects(st: DownloadState, ev: DownloadEvent) -> bool {
    match ev {
        DownloadEvent::Failed { .. } => true,
        DownloadEvent::Listing { .. } => st is AwaitListing,
        DownloadEvent::ChecksumDoc { .. } => st is AwaitChecksum,
        DownloadEvent::CacheFile { .. } => st is AwaitCache,
        DownloadEvent::DirReady => st is AwaitDir,
        DownloadEvent::Mirrors { .. } => st is AwaitMirrors,
        DownloadEvent::ArtifactBytes { .. } => st is AwaitArtifact,
    }
}

/// The expected checksum a point-release listing carries for the host
/// platform's file, when it carries one.
pub open spec fn listed_sha(newest: Release, os: HostOs) -> Option<Seq<char>> {
    match first_os_file(newest.files@, spec_file_os_tag(os)) {
        Some(i) => match newest.files@[i].checksum.sha256sum {
            Some(s) => Some(s@),
            None => None,
        },
        None => None,
    }
}

/// The mirror-capable file identifier a point-release listing carries for
/// the host platform's file, when it carries one.
pub open spec fn listed_file_id(newest: Release, os: HostOs) -> Option<u64> {
    match first_os_file(newest.files@, spec_file_os_tag(os)) {
        Some(i) => Some(newest.files@[i].file_id),
        None => None,
    }
}

/// Begins an acquisition: resolves the request against the catalog and asks
/// either for the family's point-release listing or, when the request names
/// a full point release already, directly for its checksum document.
pub fn download_start(cfg: DownloadConfig, releases: &Vec<MajorReleases>) -> (r: (
    DownloadState,
    DownloadAction,
))
    ensures
        match resolve_spec(cfg.version@, releases@) {
            Err(cause) => r.0 matches DownloadState::Stopped { error } && (error matches
                MariaDbVmError::Resolution { cause: c } && c == cause) && r.1 is Finish,
            Ok(v) => {
                if dot_count(v) > 1 {
                    if cfg.os == HostOs::Other {
                        r.0 matches DownloadState::Stopped { error } && error matches
                            MariaDbVmError::UnsupportedPlatform && r.1 is Finish
                    } else {
                        r.0 matches DownloadState::AwaitChecksum { plan } && plan_wf(
                            plan,
                            cfg,
                            v,
                            None,
                        ) && (r.1 matches DownloadAction::FetchChecksum { url } && url@
                            == spec_checksum_url(v, spec_file_name(cfg.os, v, cfg.arch@)))
                    }
                } else {
                    r.0 matches DownloadState::AwaitListing { cfg: c } && c.version@ == v
                        && c.target_root == cfg.target_root && c.force == cfg.force && c.mirror
                        == cfg.mirror && c.os == cfg.os && c.arch == cfg.arch && (r.1 matches
                        DownloadAction::FetchListing { url } && url@ == spec_listing_url(v))
                }
            },
        },
{
    let resolved = match resolve_version(cfg.version.as_str(), releases) {
        Ok(v) => v,
        Err(error) => {
            return (DownloadState::Stopped { error }, DownloadAction::Finish);
        },
    };
    if count_dots(resolved.as_str()) > 1 {
        match build_plan(cfg, resolved, None) {
            Err(error) => (DownloadState::Stopped { error }, DownloadAction::Finish),
            Ok(plan) => {
                let url = checksum_url(plan.version.as_str(), plan.file_name.as_str());
                (DownloadState::AwaitChecksum { plan }, DownloadAction::FetchChecksum { url })
            },
        }
    } else {
        let url = listing_url(resolved.as_str());
        let cfg2 = DownloadConfig { version: resolved, ..cfg };
        (DownloadState::AwaitListing { cfg: cfg2 }, DownloadAction::FetchListing { url })
    }
}

/// Advances the acquisition by one step.
///
/// The contract carries the acquisition's guarantees: a reported failure
/// stops the run with that error unchanged; a cached file whose digest
/// matches ends the run at once with its path and no further effect; one
/// whose digest does not match is treated as absent and fetched afresh; and
/// a freshly fetched artifact whose digest does not match stops the run with
/// `ChecksumMismatch` and yields no path.
pub fn download_step(st: DownloadState, ev: DownloadEvent) -> (r: (DownloadState, DownloadAction))
    ensures
        (ev matches DownloadEvent::Failed { error } ==> r.0 == (DownloadState::Stopped { error })
            && r.1 is Finish),
        !expects(st, ev) ==> (r.0 matches DownloadState::Stopped { error } && (error matches
            MariaDbVmError::Io { message } && message@ == "event does not answer this state"@)
            && r.1 is Finish),
        st matches DownloadState::AwaitListing { cfg } ==> ev matches DownloadEvent::Listing {
            releases,
        } ==> {
            if releases@.len() == 0 {
                r.0 matches DownloadState::Stopped { error } && (error matches
                    MariaDbVmError::Parse { message } && message@
                    == "empty point-release listing"@) && r.1 is Finish
            } else {
                let newest = releases@.last();
                let v = newest.release_id@;
                if cfg.os == HostOs::Other {
                    r.0 matches DownloadState::Stopped { error } && error matches
                        MariaDbVmError::UnsupportedPlatform && r.1 is Finish
                } else {
                    match listed_sha(newest, cfg.os) {
                        None => r.0 matches DownloadState::AwaitChecksum { plan } && plan_wf(
                            plan,
                            cfg,
                            v,
                            listed_file_id(newest, cfg.os),
                        ) && (r.1 matches DownloadAction::FetchChecksum { url } && url@
                            == spec_checksum_url(v, spec_file_name(cfg.os, v, cfg.arch@))),
                        Some(h) => {
                            if !cfg.force {
                                r.0 matches DownloadState::AwaitCache { plan, sha256 } && plan_wf(
                                    plan,
                                    cfg,
                                    v,
                                    listed_file_id(newest, cfg.os),
                                ) && sha256@ == h && (r.1 matches DownloadAction::ProbeCache {
                                    path,
                                } && path@ == plan.target_file@)
                            } else {
                                r.0 matches DownloadState::AwaitDir { plan, sha256 } && plan_wf(
                                    plan,
                                    cfg,
                                    v,
                                    listed_file_id(newest, cfg.os),
                                ) && sha256@ == h && (r.1 matches DownloadAction::EnsureDir { path }
                                    && path@ == plan.target_dir@)
                            }
                        },
                    }
                }
            }
        },
        st matches DownloadState::AwaitChecksum { plan } ==> ev matches
            DownloadEvent::ChecksumDoc { checksum } ==> {
            match checksum.sha256sum {
                None => r.0 matches DownloadState::Stopped { error } && (error matches
                    MariaDbVmError::Parse { message } && message@
                    == "checksum document without a sha256 field"@) && r.1 is Finish,
                Some(h) => {
                    if !plan.force {
                        r.0 == (DownloadState::AwaitCache { plan, sha256: h }) && (r.1 matches
                            DownloadAction::ProbeCache { path } && path@ == plan.target_file@)
                    } else {
                        r.0 == (DownloadState::AwaitDir { plan, sha256: h }) && (r.1 matches
                            DownloadAction::EnsureDir { path } && path@ == plan.target_dir@)
                    }
                },
            }
        },
        st matches DownloadState::AwaitCache { plan, sha256 } ==> ev matches
            DownloadEvent::CacheFile { bytes } ==> {
            let hit = match bytes {
                Some(data) => hex_of(sha256_of(data@)) == sha256@,
                None => false,
            };
            if hit {
                r.0 matches DownloadState::Done { path } && path@ == plan.target_file@
                    && r.1 is Finish
            } else {
                r.0 == (DownloadState::AwaitDir { plan, sha256 }) && (r.1 matches
                    DownloadAction::EnsureDir { path } && path@ == plan.target_dir@)
            }
        },
        st matches DownloadState::AwaitDir { plan, sha256 } ==> ev matches
            DownloadEvent::DirReady ==> {
            let direct = r.0 matches DownloadState::AwaitArtifact { plan: p, sha256: s, url } && p
                == plan && s == sha256 && url@ == plan.download_url@ && (r.1 matches
                DownloadAction::FetchArtifact { url: u, path } && u@ == url@ && path@
                == plan.target_file@);
            if plan.os == HostOs::FreeBsd {
                direct
            } else {
                match (plan.file_id, plan.mirror) {
                    (Some(fid), Some(m)) => r.0 matches DownloadState::AwaitArtifact {
                        plan: p,
                        sha256: s,
                        url,
                    } && p == plan && s == sha256 && url@ == spec_mirror_url(
                        plan.version@,
                        fid,
                        m@,
                    ) && (r.1 matches DownloadAction::FetchArtifact { url: u, path } && u@ == url@
                        && path@ == plan.target_file@),
                    (Some(_), None) => r.0 == (DownloadState::AwaitMirrors { plan, sha256 })
                        && r.1 is FetchMirrors,
                    (None, _) => direct,
                }
            }
        },
        st matches DownloadState::AwaitMirrors { plan, sha256 } ==> ev matches
            DownloadEvent::Mirrors { categories } ==> {
            match plan.file_id {
                None => r.0 matches DownloadState::Stopped { error } && (error matches
                    MariaDbVmError::Io { message } && message@
                    == "event does not answer this state"@) && r.1 is Finish,
                Some(fid) => {
                    if plan.os == HostOs::FreeBsd {
                        r.0 matches DownloadState::Stopped { error } && (error matches
                            MariaDbVmError::Io { message } && message@
                            == "event does not answer this state"@) && r.1 is Finish
                    } else {
                        ||| (r.0 matches DownloadState::AwaitArtifact { plan: p, sha256: s, url }
                            && p == plan && s == sha256 && (exists|k: int, j: int|
                            0 <= k < categories@.len() && 0 <= j < categories@[k].mirrors@.len()
                                && url@ == spec_mirror_url(
                                plan.version@,
                                fid,
                                (#[trigger] categories@[k].mirrors@[j]).mirror_id@,
                            )) && (r.1 matches DownloadAction::FetchArtifact { url: u, path } && u@
                            == url@ && path@ == plan.target_file@))
                        ||| (r.0 matches DownloadState::Stopped { error } && error matches
                            MariaDbVmError::Parse { .. } && (categories@.len() == 0 || exists|
                            k: int,
                        |
                            0 <= k < categories@.len() && (#[trigger] categories@[k]).mirrors@.len()
                                == 0) && r.1 is Finish)
                    }
                },
            }
        },
        st matches DownloadState::AwaitArtifact { plan, sha256, url } ==> ev matches
            DownloadEvent::ArtifactBytes { body } ==> {
            if hex_of(sha256_of(body@)) == sha256@ {
                r.0 matches DownloadState::Done { path } && path@ == plan.target_file@
                    && r.1 is Finish
            } else {
                r.0 matches DownloadState::Stopped { error } && error matches
                    MariaDbVmError::ChecksumMismatch && r.1 is Finish
            }
        },
{
    match st {
        DownloadState::AwaitListing { cfg } => match ev {
            DownloadEvent::Listing { releases } => {
                if releases.len() == 0 {
                    (
                        DownloadState::Stopped {
                            error: MariaDbVmError::Parse {
                                message: String::from_str("empty point-release listing"),
                            },
                        },
                        DownloadAction::Finish,
                    )
                } else {
                    let newest = &releases[releases.len() - 1];
                    let tag = file_os_tag(cfg.os);
                    let (file_id, sha): (Option<u64>, Option<String>) = match find_os_file(
                        &newest.files,
                        tag,
                    ) {
                        Some(i) => {
                            let f = &newest.files[i];
                            let s = match &f.checksum.sha256sum {
                                Some(s) => Some(s.clone()),
                                None => None,
                            };
                            (Some(f.file_id), s)
                        },
                        None => (None, None),
                    };
                    let version = newest.release_id.clone();
                    match build_plan(cfg, version, file_id) {
                        Err(error) => stop_failed(error),
                        Ok(plan) => match sha {
                            Some(h) => with_checksum(plan, h),
                            None => {
                                let url = checksum_url(
                                    plan.version.as_str(),
                                    plan.file_name.as_str(),
                                );
                                (
                                    DownloadState::AwaitChecksum { plan },
                                    DownloadAction::FetchChecksum { url },
                                )
                            },
                        },
                    }
                }
            },
            DownloadEvent::Failed { error } => stop_failed(error),
            _ => stop_io_mismatch(),
        },
        DownloadState::AwaitChecksum { plan } => match ev {
            DownloadEvent::ChecksumDoc { checksum } => match checksum.sha256sum {
                Some(h) => with_checksum(plan, h),
                None => (
                    DownloadState::Stopped {
                        error: MariaDbVmError::Parse {
                            message: String::from_str("checksum document without a sha256 field"),
                        },
                    },
                    DownloadAction::Finish,
                ),
            },
            DownloadEvent::Failed { error } => stop_failed(error),
            _ => stop_io_mismatch(),
        },
        DownloadState::AwaitCache { plan, sha256 } => match ev {
            DownloadEvent::CacheFile { bytes } => {
                let cached_ok = match &bytes {
                    Some(data) => verify_bytes(data, sha256.as_str()),
                    None => false,
                };
                if cached_ok {
                    (DownloadState::Done { path: plan.target_file }, DownloadAction::Finish)
                } else {
                    let path = plan.target_dir.clone();
                    (DownloadState::AwaitDir { plan, sha256 }, DownloadAction::EnsureDir { path })
                }
            },
            DownloadEvent::Failed { error } => stop_failed(error),
            _ => stop_io_mismatch(),
        },
        DownloadState::AwaitDir { plan, sha256 } => match ev {
            DownloadEvent::DirReady => {
                if matches!(plan.os, HostOs::FreeBsd) || plan.file_id.is_none() {
                    let url = plan.download_url.clone();
                    let u = url.clone();
                    let path = plan.target_file.clone();
                    (
                        DownloadState::AwaitArtifact { plan, sha256, url },
                        DownloadAction::FetchArtifact { url: u, path },
                    )
                } else if plan.mirror.is_some() {
                    let url = match (&plan.file_id, &plan.mirror) {
                        (Some(fid), Some(m)) => mirror_url(plan.version.as_str(), *fid, m.as_str()),
                        _ => String::new(),
                    };
                    let u = url.clone();
                    let path = plan.target_file.clone();
                    (
                        DownloadState::AwaitArtifact { plan, sha256, url },
                        DownloadAction::FetchArtifact { url: u, path },
                    )
                } else {
                    (DownloadState::AwaitMirrors { plan, sha256 }, DownloadAction::FetchMirrors)
                }
            },
            DownloadEvent::Failed { error } => stop_failed(error),
            _ => stop_io_mismatch(),
        },
        DownloadState::AwaitMirrors { plan, sha256 } => match ev {
            DownloadEvent::Mirrors { categories } => {
                if matches!(plan.os, HostOs::FreeBsd) || plan.file_id.is_none() {
                    stop_io_mismatch()
                } else {
                    let no_explicit: Option<String> = None;
                    match select_mirror(&no_explicit, plan.os, &categories) {
                        Err(error) => stop_failed(error),
                        Ok(mirror_id) => {
                            let url = match &plan.file_id {
                                Some(fid) => mirror_url(
                                    plan.version.as_str(),
                                    *fid,
                                    mirror_id.as_str(),
                                ),
                                None => String::new(),
                            };
                            let u = url.clone();
                            let path = plan.target_file.clone();
                            (
                                DownloadState::AwaitArtifact { plan, sha256, url },
                                DownloadAction::FetchArtifact { url: u, path },
                            )
                        },
                    }
                }
            },
            DownloadEvent::Failed { error } => stop_failed(error),
            _ => stop_io_mismatch(),
        },
        DownloadState::AwaitArtifact { plan, sha256, url: _ } => match ev {
            DownloadEvent::ArtifactBytes { body } => {
                if verify_bytes(&body, sha256.as_str()) {
                    (DownloadState::Done { path: plan.target_file }, DownloadAction::Finish)
                } else {
                    (
                        DownloadState::Stopped { error: MariaDbVmError::ChecksumMismatch },
                        DownloadAction::Finish,
                    )
                }
            },
            DownloadEvent::Failed { error } => stop_failed(error),
            _ => stop_io_mismatch(),
        },
        DownloadState::Done { path: _ } => match ev {
            DownloadEvent::Failed { error } => stop_failed(error),
            _ => stop_io_mismatch(),
        },
        DownloadState::Stopped { error: _ } => match ev {
            DownloadEvent::Failed { error } => stop_failed(error),
            _ => stop_io_mismatch(),
        },
    }
}

} // verus!
