use mariadb_vm::catalog::offline_major_releases;
use mariadb_vm::download::{
    download_start, download_step, DownloadAction, DownloadConfig, DownloadEvent, DownloadState,
};
use mariadb_vm::errors::{MariaDbVmError, ResolutionError};
use mariadb_vm::mirror::{select_mirror, Mirror, MirrorCategory};
use mariadb_vm::platform::{artifact_location, Checksum, HostOs, Release, ReleaseFile};

const ABC_SHA256: &str = "ba7816bf8f01cfea414140de5dae2223b00361a396177a9cb410ff61f20015ad";

fn linux_config(version: &str) -> DownloadConfig {
    DownloadConfig {
        version: String::from(version),
        target_root: String::from("/tmp/vm-root"),
        force: false,
        mirror: None,
        os: HostOs::Linux,
        arch: String::from("x86_64"),
    }
}

fn checksum_with(sha256: Option<&str>) -> Checksum {
    Checksum {
        md5sum: None,
        sha1sum: None,
        sha256sum: sha256.map(String::from),
        sha512sum: None,
    }
}

const TARGET_1011_7: &str =
    "/tmp/vm-root/downloads/mariadb/mariadb-10.11.7-linux-systemd-x86_64.tar.gz";

#[test]
fn locating_a_point_release_on_linux_names_the_archive() {
    let (url, file_name) = artifact_location("10.11.7", HostOs::Linux, "x86_64").unwrap();
    assert_eq!(file_name, "mariadb-10.11.7-linux-systemd-x86_64.tar.gz");
    assert_eq!(
        url,
        "https://downloads.mariadb.org/rest-api/mariadb/10.11.7/mariadb-10.11.7-linux-systemd-x86_64.tar.gz"
    );
}

#[test]
fn locating_on_windows_shortens_the_architecture() {
    let (_, x86) = artifact_location("10.11", HostOs::Windows, "x86").unwrap();
    assert_eq!(x86, "mariadb-10.11-winx32.zip");
    let (_, x64) = artifact_location("10.11", HostOs::Windows, "x86_64").unwrap();
    assert_eq!(x64, "mariadb-10.11-winx64.zip");
    let (_, other) = artifact_location("10.11", HostOs::Windows, "arm64").unwrap();
    assert_eq!(other, "mariadb-10.11-winarm64.zip");
}

#[test]
fn locating_on_freebsd_uses_the_archive_host() {
    let (url, file_name) = artifact_location("10.11.7", HostOs::FreeBsd, "x86_64").unwrap();
    assert_eq!(file_name, "mariadb-10.11.7-freebsd13.0-x86_64.tar.gz");
    assert_eq!(
        url,
        "https://archive.mariadb.org/mariadb-10.11.7/bintar-freebsd130-x86_64/mariadb-10.11.7-freebsd13.0-x86_64.tar.gz"
    );
}

#[test]
fn locating_on_an_unknown_system_is_unsupported() {
    let e = artifact_location("10.11.7", HostOs::Other, "x86_64").unwrap_err();
    assert!(matches!(e, MariaDbVmError::UnsupportedPlatform));
}

#[test]
fn point_release_request_asks_for_its_checksum_document() {
    let catalog = offline_major_releases();
    let (st, action) = download_start(linux_config("10.11.7"), &catalog);
    assert!(matches!(st, DownloadState::AwaitChecksum { .. }));
    match action {
        DownloadAction::FetchChecksum { url } => assert_eq!(
            url,
            "https://downloads.mariadb.org/rest-api/mariadb/10.11.7/mariadb-10.11.7-linux-systemd-x86_64.tar.gz/checksum"
        ),
        other => panic!("expected a checksum fetch, got {:?}", other),
    }
}

#[test]
fn family_request_asks_for_the_point_release_listing() {
    let catalog = offline_major_releases();
    let (st, action) = download_start(linux_config("latest"), &catalog);
    assert!(matches!(st, DownloadState::AwaitListing { .. }));
    match action {
        DownloadAction::FetchListing { url } => {
            assert_eq!(url, "https://downloads.mariadb.org/rest-api/mariadb/11.3/")
        },
        other => panic!("expected a listing fetch, got {:?}", other),
    }
}

#[test]
fn unresolvable_request_stops_before_any_fetch() {
    let catalog = Vec::new();
    let (st, action) = download_start(linux_config("latest"), &catalog);
    assert!(matches!(
        st,
        DownloadState::Stopped {
            error: MariaDbVmError::Resolution { cause: ResolutionError::NoMatch }
        }
    ));
    assert!(matches!(action, DownloadAction::Finish));
}

#[test]
fn cache_hit_returns_the_same_path_with_no_further_action() {
    let catalog = offline_major_releases();
    let (st, _) = download_start(linux_config("10.11.7"), &catalog);
    let (st, action) = download_step(
        st,
        DownloadEvent::ChecksumDoc { checksum: checksum_with(Some(ABC_SHA256)) },
    );
    let probed = match &action {
        DownloadAction::ProbeCache { path } => path.clone(),
        other => panic!("expected a cache probe, got {:?}", other),
    };
    assert_eq!(probed, TARGET_1011_7);
    let (st, action) = download_step(
        st,
        DownloadEvent::CacheFile { bytes: Some(b"abc".to_vec()) },
    );
    match st {
        DownloadState::Done { path } => assert_eq!(path, probed),
        other => panic!("expected a finished run, got {:?}", other),
    }
    assert!(matches!(action, DownloadAction::Finish));
}

#[test]
fn corrupt_cached_file_is_fetched_afresh() {
    let catalog = offline_major_releases();
    let (st, _) = download_start(linux_config("10.11.7"), &catalog);
    let (st, _) = download_step(
        st,
        DownloadEvent::ChecksumDoc { checksum: checksum_with(Some(ABC_SHA256)) },
    );
    let (st, action) = download_step(
        st,
        DownloadEvent::CacheFile { bytes: Some(b"corrupted".to_vec()) },
    );
    assert!(matches!(st, DownloadState::AwaitDir { .. }));
    match action {
        DownloadAction::EnsureDir { path } => {
            assert_eq!(path, "/tmp/vm-root/downloads/mariadb")
        },
        other => panic!("expected the target directory, got {:?}", other),
    }
    let (st, action) = download_step(st, DownloadEvent::DirReady);
    assert!(matches!(st, DownloadState::AwaitArtifact { .. }));
    match action {
        DownloadAction::FetchArtifact { url, path } => {
            assert_eq!(
                url,
                "https://downloads.mariadb.org/rest-api/mariadb/10.11.7/mariadb-10.11.7-linux-systemd-x86_64.tar.gz"
            );
            assert_eq!(path, TARGET_1011_7);
        },
        other => panic!("expected an artifact fetch, got {:?}", other),
    }
}

#[test]
fn fresh_download_with_wrong_digest_fails_and_yields_no_path() {
    let catalog = offline_major_releases();
    let (st, _) = download_start(linux_config("10.11.7"), &catalog);
    let (st, _) = download_step(
        st,
        DownloadEvent::ChecksumDoc { checksum: checksum_with(Some(ABC_SHA256)) },
    );
    let (st, _) = download_step(st, DownloadEvent::CacheFile { bytes: None });
    let (st, _) = download_step(st, DownloadEvent::DirReady);
    let (st, action) = download_step(
        st,
        DownloadEvent::ArtifactBytes { body: b"not the artifact".to_vec() },
    );
    assert!(matches!(
        st,
        DownloadState::Stopped { error: MariaDbVmError::ChecksumMismatch }
    ));
    assert!(matches!(action, DownloadAction::Finish));
}

#[test]
fn fresh_download_with_matching_digest_finishes() {
    let catalog = offline_major_releases();
    let (st, _) = download_start(linux_config("10.11.7"), &catalog);
    let (st, _) = download_step(
        st,
        DownloadEvent::ChecksumDoc { checksum: checksum_with(Some(ABC_SHA256)) },
    );
    let (st, _) = download_step(st, DownloadEvent::CacheFile { bytes: None });
    let (st, _) = download_step(st, DownloadEvent::DirReady);
    let (st, _) = download_step(st, DownloadEvent::ArtifactBytes { body: b"abc".to_vec() });
    match st {
        DownloadState::Done { path } => assert_eq!(path, TARGET_1011_7),
        other => panic!("expected a finished run, got {:?}", other),
    }
}

#[test]
fn checksum_document_without_sha256_is_a_parse_failure() {
    let catalog = offline_major_releases();
    let (st, _) = download_start(linux_config("10.11.7"), &catalog);
    let (st, action) = download_step(
        st,
        DownloadEvent::ChecksumDoc { checksum: checksum_with(None) },
    );
    assert!(matches!(
        st,
        DownloadState::Stopped { error: MariaDbVmError::Parse { .. } }
    ));
    assert!(matches!(action, DownloadAction::Finish));
}

#[test]
fn listing_supplies_version_file_id_and_checksum() {
    let catalog = offline_major_releases();
    let (st, _) = download_start(linux_config("10.11"), &catalog);
    let listing = DownloadEvent::Listing {
        releases: vec![
            Release { release_id: String::from("10.11.6"), files: vec![] },
            Release {
                release_id: String::from("10.11.7"),
                files: vec![
                    ReleaseFile {
                        file_id: 2676,
                        file_name: String::from("mariadb-10.11.7-winx64.zip"),
                        os: Some(String::from("Windows")),
                        checksum: checksum_with(None),
                    },
                    ReleaseFile {
                        file_id: 5339,
                        file_name: String::from(
                            "mariadb-10.11.7-linux-systemd-x86_64.tar.gz",
                        ),
                        os: Some(String::from("Linux")),
                        checksum: checksum_with(Some(ABC_SHA256)),
                    },
                ],
            },
        ],
    };
    let (st, action) = download_step(st, listing);
    match &st {
        DownloadState::AwaitCache { plan, sha256 } => {
            assert_eq!(plan.version, "10.11.7");
            assert_eq!(plan.file_id, Some(5339));
            assert_eq!(sha256, ABC_SHA256);
        },
        other => panic!("expected a cache probe state, got {:?}", other),
    }
    assert!(matches!(action, DownloadAction::ProbeCache { .. }));
    let (st, action) = download_step(st, DownloadEvent::CacheFile { bytes: None });
    assert!(matches!(st, DownloadState::AwaitDir { .. }));
    assert!(matches!(action, DownloadAction::EnsureDir { .. }));
    let (st, action) = download_step(st, DownloadEvent::DirReady);
    assert!(matches!(st, DownloadState::AwaitMirrors { .. }));
    assert!(matches!(action, DownloadAction::FetchMirrors));
    let mirrors = DownloadEvent::Mirrors {
        categories: vec![MirrorCategory {
            region: String::from("asia"),
            mirrors: vec![Mirror {
                mirror_id: String::from("osuosl"),
                mirror_name: String::from("Oregon State University"),
            }],
        }],
    };
    let (_, action) = download_step(st, mirrors);
    match action {
        DownloadAction::FetchArtifact { url, path } => {
            assert_eq!(
                url,
                "https://downloads.mariadb.org/rest-api/mariadb/10.11.7/5339?mirror=osuosl"
            );
            assert_eq!(path, TARGET_1011_7);
        },
        other => panic!("expected an artifact fetch, got {:?}", other),
    }
}

#[test]
fn explicit_mirror_skips_the_mirror_list() {
    let catalog = offline_major_releases();
    let mut cfg = linux_config("10.11");
    cfg.mirror = Some(String::from("my-mirror"));
    let (st, _) = download_start(cfg, &catalog);
    let listing = DownloadEvent::Listing {
        releases: vec![Release {
            release_id: String::from("10.11.7"),
            files: vec![ReleaseFile {
                file_id: 5339,
                file_name: String::from("mariadb-10.11.7-linux-systemd-x86_64.tar.gz"),
                os: Some(String::from("Linux")),
                checksum: checksum_with(Some(ABC_SHA256)),
            }],
        }],
    };
    let (st, _) = download_step(st, listing);
    let (st, _) = download_step(st, DownloadEvent::CacheFile { bytes: None });
    let (_, action) = download_step(st, DownloadEvent::DirReady);
    match action {
        DownloadAction::FetchArtifact { url, .. } => {
            assert_eq!(
                url,
                "https://downloads.mariadb.org/rest-api/mariadb/10.11.7/5339?mirror=my-mirror"
            );
        },
        other => panic!("expected an artifact fetch, got {:?}", other),
    }
}

#[test]
fn empty_listing_is_a_parse_failure() {
    let catalog = offline_major_releases();
    let (st, _) = download_start(linux_config("10.11"), &catalog);
    let (st, action) = download_step(st, DownloadEvent::Listing { releases: vec![] });
    assert!(matches!(
        st,
        DownloadState::Stopped { error: MariaDbVmError::Parse { .. } }
    ));
    assert!(matches!(action, DownloadAction::Finish));
}

#[test]
fn reported_transport_failure_stops_the_run_unchanged() {
    let catalog = offline_major_releases();
    let (st, _) = download_start(linux_config("10.11"), &catalog);
    let (st, action) = download_step(
        st,
        DownloadEvent::Failed {
            error: MariaDbVmError::Transport { message: String::from("connection refused") },
        },
    );
    match st {
        DownloadState::Stopped { error: MariaDbVmError::Transport { message } } => {
            assert_eq!(message, "connection refused")
        },
        other => panic!("expected the transport failure, got {:?}", other),
    }
    assert!(matches!(action, DownloadAction::Finish));
}

#[test]
fn mirror_selection_honors_platform_and_operator_choice() {
    let no_mirrors: Vec<MirrorCategory> = Vec::new();
    assert_eq!(
        select_mirror(&None, HostOs::FreeBsd, &no_mirrors).unwrap(),
        ""
    );
    assert_eq!(
        select_mirror(&Some(String::from("chosen")), HostOs::Linux, &no_mirrors).unwrap(),
        "chosen"
    );
    let e = select_mirror(&None, HostOs::Linux, &no_mirrors).unwrap_err();
    assert!(matches!(e, MariaDbVmError::Parse { .. }));
    let one = vec![MirrorCategory {
        region: String::from("europe"),
        mirrors: vec![Mirror {
            mirror_id: String::from("only-one"),
            mirror_name: String::from("Only One"),
        }],
    }];
    assert_eq!(select_mirror(&None, HostOs::Linux, &one).unwrap(), "only-one");
}
