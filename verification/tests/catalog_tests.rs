use mariadb_vm::catalog::{
    offline_major_releases, parse_from_year_month_date, parse_release_status, parse_support_type,
    sort_releases, Date, MajorReleases, ReleaseStatus, SupportType,
};
use mariadb_vm::resolve::resolve_version;
use mariadb_vm::text::u64_to_dec;
use mariadb_vm::version_order::version_le_exec;

#[test]
fn offline_snapshot_holds_ten_families_ascending() {
    let releases = offline_major_releases();
    assert_eq!(releases.len(), 10);
    let ids: Vec<&str> = releases.iter().map(|r| r.release_id.as_str()).collect();
    assert_eq!(
        ids,
        vec!["10.4", "10.5", "10.6", "10.11", "11.0", "11.1", "11.2", "11.3", "11.4", "11.5"]
    );
    assert_eq!(releases[0].release_status, ReleaseStatus::Stable);
    assert_eq!(releases[0].release_support_type, SupportType::LongTermSupport);
    assert_eq!(
        releases[0].release_eol_date,
        Some(Date { year: 2024, month: 6, day: 18 })
    );
    assert_eq!(releases[3].release_name, "MariaDB Server 10.11");
    assert_eq!(releases[8].release_status, ReleaseStatus::RC);
    assert_eq!(releases[8].release_support_type, SupportType::LongTermSupport);
    assert_eq!(releases[8].release_eol_date, None);
    assert_eq!(releases[9].release_status, ReleaseStatus::Alpha);
}

#[test]
fn offline_snapshot_resolves_all_aliases() {
    let releases = offline_major_releases();
    assert_eq!(resolve_version("latest", &releases).unwrap(), "11.3");
    assert_eq!(resolve_version("lts", &releases).unwrap(), "11.4");
    assert_eq!(resolve_version("rc", &releases).unwrap(), "11.4");
    assert_eq!(resolve_version("alpha", &releases).unwrap(), "11.5");
}

#[test]
fn sorting_orders_components_numerically() {
    let mut shuffled = offline_major_releases();
    shuffled.reverse();
    let sorted = sort_releases(shuffled);
    let ids: Vec<&str> = sorted.iter().map(|r| r.release_id.as_str()).collect();
    assert_eq!(
        ids,
        vec!["10.4", "10.5", "10.6", "10.11", "11.0", "11.1", "11.2", "11.3", "11.4", "11.5"]
    );
}

#[test]
fn sorting_keeps_every_entry() {
    let releases = vec![
        MajorReleases {
            release_id: String::from("10.11"),
            release_name: String::from("b"),
            release_status: ReleaseStatus::Stable,
            release_support_type: SupportType::LongTermSupport,
            release_eol_date: None,
        },
        MajorReleases {
            release_id: String::from("10.4"),
            release_name: String::from("a"),
            release_status: ReleaseStatus::Stable,
            release_support_type: SupportType::LongTermSupport,
            release_eol_date: None,
        },
        MajorReleases {
            release_id: String::from("10.4"),
            release_name: String::from("c"),
            release_status: ReleaseStatus::Alpha,
            release_support_type: SupportType::ShortTermSupport,
            release_eol_date: None,
        },
    ];
    let sorted = sort_releases(releases);
    assert_eq!(sorted.len(), 3);
    assert_eq!(sorted[0].release_id, "10.4");
    assert_eq!(sorted[1].release_id, "10.4");
    assert_eq!(sorted[2].release_id, "10.11");
    let mut names: Vec<&str> = sorted.iter().map(|r| r.release_name.as_str()).collect();
    names.sort();
    assert_eq!(names, vec!["a", "b", "c"]);
}

#[test]
fn version_order_compares_numerically_not_lexically() {
    assert!(version_le_exec("10.4", "10.11"));
    assert!(!version_le_exec("10.11", "10.4"));
    assert!(version_le_exec("10.4", "10.4"));
    assert!(version_le_exec("9.9", "10.0"));
    assert!(version_le_exec("10.4", "10.4.1"));
    assert!(!version_le_exec("10.4.1", "10.4"));
    assert!(version_le_exec("1.02", "1.2"));
    assert!(version_le_exec("1.2", "1.02"));
    assert!(version_le_exec("007", "8"));
}

#[test]
fn date_parsing_accepts_exact_calendar_dates() {
    assert_eq!(
        parse_from_year_month_date("2024-06-18"),
        Some(Date { year: 2024, month: 6, day: 18 })
    );
    assert_eq!(
        parse_from_year_month_date("2024-02-29"),
        Some(Date { year: 2024, month: 2, day: 29 })
    );
    assert_eq!(
        parse_from_year_month_date("2000-02-29"),
        Some(Date { year: 2000, month: 2, day: 29 })
    );
}

#[test]
fn date_parsing_rejects_malformed_and_impossible_dates() {
    assert_eq!(parse_from_year_month_date("2023-02-29"), None);
    assert_eq!(parse_from_year_month_date("1900-02-29"), None);
    assert_eq!(parse_from_year_month_date("2024-13-01"), None);
    assert_eq!(parse_from_year_month_date("2024-00-10"), None);
    assert_eq!(parse_from_year_month_date("2024-04-31"), None);
    assert_eq!(parse_from_year_month_date("2024-6-18"), None);
    assert_eq!(parse_from_year_month_date("2024/06/18"), None);
    assert_eq!(parse_from_year_month_date(""), None);
    assert_eq!(parse_from_year_month_date("2024-06-180"), None);
}

#[test]
fn date_construction_checks_the_calendar() {
    assert!(Date::new(2024, 2, 29).is_some());
    assert!(Date::new(2023, 2, 29).is_none());
    assert!(Date::new(2024, 0, 1).is_none());
    assert!(Date::new(2024, 12, 31).is_some());
}

#[test]
fn status_and_support_spellings_parse() {
    assert_eq!(parse_release_status("Stable"), Some(ReleaseStatus::Stable));
    assert_eq!(parse_release_status("RC"), Some(ReleaseStatus::RC));
    assert_eq!(parse_release_status("Alpha"), Some(ReleaseStatus::Alpha));
    assert_eq!(parse_release_status("Beta"), Some(ReleaseStatus::Beta));
    assert_eq!(parse_release_status("stable"), None);
    assert_eq!(
        parse_support_type("Long Term Support"),
        Some(SupportType::LongTermSupport)
    );
    assert_eq!(
        parse_support_type("Short Term Support"),
        Some(SupportType::ShortTermSupport)
    );
    assert_eq!(parse_support_type("LTS"), None);
}

#[test]
fn decimal_spelling_of_numbers() {
    assert_eq!(u64_to_dec(0), "0");
    assert_eq!(u64_to_dec(7), "7");
    assert_eq!(u64_to_dec(10), "10");
    assert_eq!(u64_to_dec(5339862), "5339862");
    assert_eq!(u64_to_dec(u64::MAX), "18446744073709551615");
}
