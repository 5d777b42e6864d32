use mariadb_vm::catalog::{MajorReleases, ReleaseStatus, SupportType};
use mariadb_vm::errors::{MariaDbVmError, ResolutionError};
use mariadb_vm::resolve::resolve_version;

fn entry(id: &str, status: ReleaseStatus, support: SupportType) -> MajorReleases {
    MajorReleases {
        release_id: String::from(id),
        release_name: format!("MariaDB Server {}", id),
        release_status: status,
        release_support_type: support,
        release_eol_date: None,
    }
}

#[test]
fn literal_version_passes_through_unchanged() {
    let catalog = vec![
        entry("10.4", ReleaseStatus::Stable, SupportType::LongTermSupport),
    ];
    let r = resolve_version("10.11.7", &catalog).unwrap();
    assert_eq!(r, "10.11.7");
}

#[test]
fn literal_version_ignores_catalog_contents() {
    let empty: Vec<MajorReleases> = Vec::new();
    assert_eq!(resolve_version("10.4", &empty).unwrap(), "10.4");
    assert_eq!(resolve_version("11.4.2", &empty).unwrap(), "11.4.2");
}

#[test]
fn latest_takes_greatest_stable() {
    let catalog = vec![
        entry("10.4", ReleaseStatus::Stable, SupportType::LongTermSupport),
        entry("10.11", ReleaseStatus::Stable, SupportType::LongTermSupport),
        entry("11.4", ReleaseStatus::RC, SupportType::LongTermSupport),
    ];
    assert_eq!(resolve_version("latest", &catalog).unwrap(), "10.11");
    assert_eq!(resolve_version("rc", &catalog).unwrap(), "11.4");
}

#[test]
fn lts_takes_greatest_long_term_support() {
    let catalog = vec![
        entry("10.4", ReleaseStatus::Stable, SupportType::LongTermSupport),
        entry("10.11", ReleaseStatus::Stable, SupportType::LongTermSupport),
        entry("11.1", ReleaseStatus::Stable, SupportType::ShortTermSupport),
    ];
    assert_eq!(resolve_version("lts", &catalog).unwrap(), "10.11");
}

#[test]
fn lts_alias_is_case_insensitive() {
    let catalog = vec![
        entry("10.4", ReleaseStatus::Stable, SupportType::LongTermSupport),
        entry("10.11", ReleaseStatus::Stable, SupportType::LongTermSupport),
    ];
    assert_eq!(
        resolve_version("LTS", &catalog).unwrap(),
        resolve_version("lts", &catalog).unwrap()
    );
    assert_eq!(resolve_version("LATEST", &catalog).unwrap(), "10.11");
}

#[test]
fn rc_takes_first_not_last_candidate() {
    let catalog = vec![
        entry("10.4", ReleaseStatus::RC, SupportType::LongTermSupport),
        entry("10.11", ReleaseStatus::Stable, SupportType::LongTermSupport),
        entry("11.4", ReleaseStatus::RC, SupportType::LongTermSupport),
    ];
    assert_eq!(resolve_version("rc", &catalog).unwrap(), "10.4");
}

#[test]
fn alpha_takes_greatest_alpha() {
    let catalog = vec![
        entry("11.4", ReleaseStatus::Alpha, SupportType::ShortTermSupport),
        entry("11.5", ReleaseStatus::Alpha, SupportType::ShortTermSupport),
    ];
    assert_eq!(resolve_version("alpha", &catalog).unwrap(), "11.5");
}

#[test]
fn alias_with_no_match_fails_with_no_match() {
    let empty: Vec<MajorReleases> = Vec::new();
    for alias in ["latest", "lts", "alpha", "rc"] {
        let e = resolve_version(alias, &empty).unwrap_err();
        assert!(matches!(
            e,
            MariaDbVmError::Resolution { cause: ResolutionError::NoMatch }
        ));
    }
    let only_alpha = vec![entry("11.5", ReleaseStatus::Alpha, SupportType::ShortTermSupport)];
    let e = resolve_version("latest", &only_alpha).unwrap_err();
    assert!(matches!(
        e,
        MariaDbVmError::Resolution { cause: ResolutionError::NoMatch }
    ));
}

#[test]
fn unknown_request_fails_with_unknown_alias() {
    let catalog = vec![
        entry("10.4", ReleaseStatus::Stable, SupportType::LongTermSupport),
    ];
    for bad in ["stable", "newest", "10.x", "", ".", "10..4", "v10.4", "10.4."] {
        let e = resolve_version(bad, &catalog).unwrap_err();
        assert!(
            matches!(
                e,
                MariaDbVmError::Resolution { cause: ResolutionError::UnknownAlias }
            ),
            "request {:?} should be an unknown alias",
            bad
        );
    }
}
