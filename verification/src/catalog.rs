//! Release metadata: the catalog of known major.minor release families.

use vstd::multiset::Multiset;
use vstd::prelude::*;

use crate::text::{is_digit, is_digit_exec, str_eq};
use crate::version_order::{
    component_vals, digit_of, digit_val, digits_val, lemma_component_vals_two, lemma_val1,
    lemma_val2, lemma_version_le_total, lemma_version_le_trans, lemma_version_lt_trans,
    lemma_version_lt_two, version_le, version_le_exec, version_lt,
};

verus! {

/// A catalog is strictly ascending when every earlier entry's identifier
/// precedes every later entry's; strictness also makes identifiers unique.
pub open spec fn catalog_sorted(c: Seq<MajorReleases>) -> bool {
    forall|i: int, j: int|
        0 <= i < j < c.len() ==> version_lt(
            #[trigger] c[i].release_id@,
            #[trigger] c[j].release_id@,
        )
}

/// A catalog is ascending when no earlier entry's identifier exceeds a later
/// entry's; entries with equal identifiers may stand in either order.
pub open spec fn catalog_ascending(c: Seq<MajorReleases>) -> bool {
    forall|i: int, j: int|
        0 <= i < j < c.len() ==> version_le(
            #[trigger] c[i].release_id@,
            #[trigger] c[j].release_id@,
        )
}

/// A sorted catalog is ascending.
pub proof fn lemma_sorted_implies_ascending(c: Seq<MajorReleases>)
    requires
        catalog_sorted(c),
    ensures
        catalog_ascending(c),
{
}

/// One catalog entry: the metadata of a major.minor release family.
#[derive(Debug)]
pub struct MajorReleases {
    /// Dot-separated numeric family identifier, such as "10.11".
    pub release_id: String,
    /// Human-readable label.
    pub release_name: String,
    /// Maturity of the family.
    pub release_status: ReleaseStatus,
    /// How long the family is maintained.
    pub release_support_type: SupportType,
    /// End of life, when one is announced.
    pub release_eol_date: Option<Date>,
}

/// Maturity of a release family.
#[derive(Debug, PartialEq, Eq, Structural, Clone, Copy)]
pub enum ReleaseStatus {
    Alpha,
    Beta,
    RC,
    Stable,
}

/// How long a release family is maintained.
#[derive(Debug, PartialEq, Eq, Structural, Clone, Copy)]
pub enum SupportType {
    ShortTermSupport,
    LongTermSupport,
}

/// Every pair of a catalog is ordered when every adjacent pair is.
proof fn lemma_catalog_lt_chain(c: Seq<MajorReleases>, i: int, j: int)
    requires
        forall|k: int|
            0 <= k < c.len() - 1 ==> version_lt(
                #[trigger] c[k].release_id@,
                c[k + 1].release_id@,
            ),
        0 <= i < j < c.len(),
    ensures
        version_lt(c[i].release_id@, c[j].release_id@),
    decreases j - i,
{
    if i + 1 < j {
        lemma_catalog_lt_chain(c, i, j - 1);
        lemma_version_lt_trans(c[i].release_id@, c[j - 1].release_id@, c[j].release_id@);
    }
}

/// A catalog whose adjacent entries ascend is sorted.
proof fn lemma_sorted_from_adjacent(c: Seq<MajorReleases>)
    requires
        forall|k: int|
            0 <= k < c.len() - 1 ==> version_lt(
                #[trigger] c[k].release_id@,
                c[k + 1].release_id@,
            ),
    ensures
        catalog_sorted(c),
{
    assert forall|i: int, j: int| 0 <= i < j < c.len() implies version_lt(
        c[i].release_id@,
        c[j].release_id@,
    ) by {
        lemma_catalog_lt_chain(c, i, j);
    }
}

/// Component values of a two-digit major, one-digit minor identifier.
proof fn lemma_vals_dd_d(s: Seq<char>)
    requires
        s.len() == 4,
        s[0] != '.',
        s[1] != '.',
        s[2] == '.',
        s[3] != '.',
    ensures
        component_vals(s) == seq![
            digit_val(s[0]) * 10 + digit_val(s[1]),
            digit_val(s[3]),
        ],
{
    lemma_val2(s.take(2));
    lemma_val1(s.skip(3));
    lemma_component_vals_two(
        s,
        2,
        digit_val(s[0]) * 10 + digit_val(s[1]),
        digit_val(s[3]),
    );
}

/// Component values of a two-digit major, two-digit minor identifier.
proof fn lemma_vals_dd_dd(s: Seq<char>)
    requires
        s.len() == 5,
        s[0] != '.',
        s[1] != '.',
        s[2] == '.',
        s[3] != '.',
        s[4] != '.',
    ensures
        component_vals(s) == seq![
            digit_val(s[0]) * 10 + digit_val(s[1]),
            digit_val(s[3]) * 10 + digit_val(s[4]),
        ],
{
    lemma_val2(s.take(2));
    lemma_val2(s.skip(3));
    lemma_component_vals_two(
        s,
        2,
        digit_val(s[0]) * 10 + digit_val(s[1]),
        digit_val(s[3]) * 10 + digit_val(s[4]),
    );
}

/// Reads a release status from its catalog spelling.
pub open spec fn spec_parse_release_status(s: Seq<char>) -> Option<ReleaseStatus> {
    if s == "Alpha"@ {
        Some(ReleaseStatus::Alpha)
    } else if s == "Beta"@ {
        Some(ReleaseStatus::Beta)
    } else if s == "RC"@ {
        Some(ReleaseStatus::RC)
    } else if s == "Stable"@ {
        Some(ReleaseStatus::Stable)
    } else {
        None
    }
}

/// Parses a release status from its catalog spelling.
pub fn parse_release_status(s: &str) -> (r: Option<ReleaseStatus>)
    ensures
        r == spec_parse_release_status(s@),
{
    if str_eq(s, "Alpha") {
        Some(ReleaseStatus::Alpha)
    } else if str_eq(s, "Beta") {
        Some(ReleaseStatus::Beta)
    } else if str_eq(s, "RC") {
        Some(ReleaseStatus::RC)
    } else if str_eq(s, "Stable") {
        Some(ReleaseStatus::Stable)
    } else {
        None
    }
}

/// Reads a support type from its catalog spelling.
pub open spec fn spec_parse_support_type(s: Seq<char>) -> Option<SupportType> {
    if s == "Short Term Support"@ {
        Some(SupportType::ShortTermSupport)
    } else if s == "Long Term Support"@ {
        Some(SupportType::LongTermSupport)
    } else {
        None
    }
}

/// Parses a support type from its catalog spelling.
pub fn parse_support_type(s: &str) -> (r: Option<SupportType>)
    ensures
        r == spec_parse_support_type(s@),
{
    if str_eq(s, "Short Term Support") {
        Some(SupportType::ShortTermSupport)
    } else if str_eq(s, "Long Term Support") {
        Some(SupportType::LongTermSupport)
    } else {
        None
    }
}

/// Whether a year has 366 days.
pub open spec fn is_leap_year(y: int) -> bool {
    y % 4 == 0 && (y % 100 != 0 || y % 400 == 0)
}

/// The number of days in a month of a year.
pub open spec fn days_in_month(y: int, m: int) -> int {
    if m == 2 {
        if is_leap_year(y) {
            29
        } else {
            28
        }
    } else if m == 4 || m == 6 || m == 9 || m == 11 {
        30
    } else {
        31
    }
}

/// A calendar date, held as plain year, month and day values.
#[derive(Debug, PartialEq, Eq, Structural, Clone, Copy)]
pub struct Date {
    pub year: u16,
    pub month: u8,
    pub day: u8,
}

impl Date {
    /// A date is well formed when its month exists and its day exists in
    /// that month of that year.
    pub open spec fn wf(self) -> bool {
        1 <= self.month <= 12 && 1 <= self.day <= days_in_month(
            self.year as int,
            self.month as int,
        )
    }

    /// Builds a date after checking it exists in the calendar.
    pub fn new(year: u16, month: u8, day: u8) -> (d: Option<Date>)
        ensures
            match d {
                Some(date) => date == (Date { year, month, day }) && date.wf(),
                None => !(Date { year, month, day }).wf(),
            },
    {
        if 1 <= month && month <= 12 && 1 <= day && day <= days_in_month_exec(year, month) {
            Some(Date { year, month, day })
        } else {
            None
        }
    }
}

/// Computes the number of days in a month of a year.
pub fn days_in_month_exec(y: u16, m: u8) -> (n: u8)
    ensures
        n == days_in_month(y as int, m as int),
{
    if m == 2 {
        if y % 4 == 0 && (y % 100 != 0 || y % 400 == 0) {
            29
        } else {
            28
        }
    } else if m == 4 || m == 6 || m == 9 || m == 11 {
        30
    } else {
        31
    }
}

/// Reads a date from its "YYYY-MM-DD" spelling: four digit characters for
/// the year, two for the month, two for the day, and nothing else; the date
/// must exist in the calendar.
pub open spec fn date_of_str(s: Seq<char>) -> Option<Date> {
    if s.len() == 10 && s[4] == '-' && s[7] == '-' && is_digit(s[0]) && is_digit(s[1]) && is_digit(
        s[2],
    ) && is_digit(s[3]) && is_digit(s[5]) && is_digit(s[6]) && is_digit(s[8]) && is_digit(s[9]) {
        let y = digits_val(s.subrange(0, 4));
        let m = digits_val(s.subrange(5, 7));
        let d = digits_val(s.subrange(8, 10));
        if 1 <= m <= 12 && 1 <= d <= days_in_month(y as int, m as int) {
            Some(Date { year: y as u16, month: m as u8, day: d as u8 })
        } else {
            None
        }
    } else {
        None
    }
}

/// Parses a date from its "YYYY-MM-DD" spelling.
pub fn parse_from_year_month_date(s: &str) -> (d: Option<Date>)
    ensures
        d == date_of_str(s@),
{
    if s.unicode_len() != 10 {
        return None;
    }
    let c4 = s.get_char(4);
    let c7 = s.get_char(7);
    if c4 != '-' || c7 != '-' {
        return None;
    }
    let c0 = s.get_char(0);
    let c1 = s.get_char(1);
    let c2 = s.get_char(2);
    let c3 = s.get_char(3);
    let c5 = s.get_char(5);
    let c6 = s.get_char(6);
    let c8 = s.get_char(8);
    let c9 = s.get_char(9);
    if !(is_digit_exec(c0) && is_digit_exec(c1) && is_digit_exec(c2) && is_digit_exec(c3)
        && is_digit_exec(c5) && is_digit_exec(c6) && is_digit_exec(c8) && is_digit_exec(c9)) {
        return None;
    }
    let y: u32 = ((digit_of(c0) * 10 + digit_of(c1)) * 10 + digit_of(c2)) * 10 + digit_of(c3);
    let m: u32 = digit_of(c5) * 10 + digit_of(c6);
    let d: u32 = digit_of(c8) * 10 + digit_of(c9);
    proof {
        let sv = s@;
        assert(sv.subrange(0, 4).drop_last() =~= sv.subrange(0, 3));
        assert(sv.subrange(0, 3).drop_last() =~= sv.subrange(0, 2));
        assert(sv.subrange(0, 2).drop_last() =~= sv.subrange(0, 1));
        assert(sv.subrange(0, 1).drop_last() =~= sv.subrange(0, 0));
        assert(digits_val(sv.subrange(0, 0)) == 0);
        assert(digits_val(sv.subrange(0, 1)) == digits_val(sv.subrange(0, 0)) * 10 + digit_val(
            sv[0],
        ));
        assert(digits_val(sv.subrange(0, 2)) == digits_val(sv.subrange(0, 1)) * 10 + digit_val(
            sv[1],
        ));
        assert(digits_val(sv.subrange(0, 3)) == digits_val(sv.subrange(0, 2)) * 10 + digit_val(
            sv[2],
        ));
        assert(digits_val(sv.subrange(0, 4)) == digits_val(sv.subrange(0, 3)) * 10 + digit_val(
            sv[3],
        ));
        assert(sv.subrange(5, 7).drop_last() =~= sv.subrange(5, 6));
        assert(sv.subrange(5, 6).drop_last() =~= sv.subrange(5, 5));
        assert(digits_val(sv.subrange(5, 5)) == 0);
        assert(digits_val(sv.subrange(5, 6)) == digits_val(sv.subrange(5, 5)) * 10 + digit_val(
            sv[5],
        ));
        assert(digits_val(sv.subrange(5, 7)) == digits_val(sv.subrange(5, 6)) * 10 + digit_val(
            sv[6],
        ));
        assert(sv.subrange(8, 10).drop_last() =~= sv.subrange(8, 9));
        assert(sv.subrange(8, 9).drop_last() =~= sv.subrange(8, 8));
        assert(digits_val(sv.subrange(8, 8)) == 0);
        assert(digits_val(sv.subrange(8, 9)) == digits_val(sv.subrange(8, 8)) * 10 + digit_val(
            sv[8],
        ));
        assert(digits_val(sv.subrange(8, 10)) == digits_val(sv.subrange(8, 9)) * 10 + digit_val(
            sv[9],
        ));
    }
    if !(1 <= m && m <= 12) {
        return None;
    }
    if !(1 <= d && d <= days_in_month_exec(y as u16, m as u8) as u32) {
        return None;
    }
    Some(Date { year: y as u16, month: m as u8, day: d as u8 })
}

/// The bundled catalog snapshot, for runs that must not touch the network:
/// the ten release families known at the time the snapshot was taken,
/// ascending by release identifier.
pub fn offline_major_releases() -> (r: Vec<MajorReleases>)
    ensures
        r@.len() == 10,
        catalog_sorted(r@),
        catalog_ascending(r@),
        r@[0].release_id@ == "10.4"@,
        r@[0].release_name@ == "MariaDB Server 10.4"@,
        r@[0].release_status == ReleaseStatus::Stable,
        r@[0].release_support_type == SupportType::LongTermSupport,
        r@[0].release_eol_date == Some(Date { year: 2024, month: 6, day: 18 }),
        r@[1].release_id@ == "10.5"@,
        r@[1].release_name@ == "MariaDB Server 10.5"@,
        r@[1].release_status == ReleaseStatus::Stable,
        r@[1].release_support_type == SupportType::LongTermSupport,
        r@[1].release_eol_date == Some(Date { year: 2025, month: 6, day: 24 }),
        r@[2].release_id@ == "10.6"@,
        r@[2].release_name@ == "MariaDB Server 10.6"@,
        r@[2].release_status == ReleaseStatus::Stable,
        r@[2].release_support_type == SupportType::LongTermSupport,
        r@[2].release_eol_date == Some(Date { year: 2026, month: 7, day: 6 }),
        r@[3].release_id@ == "10.11"@,
        r@[3].release_name@ == "MariaDB Server 10.11"@,
        r@[3].release_status == ReleaseStatus::Stable,
        r@[3].release_support_type == SupportType::LongTermSupport,
        r@[3].release_eol_date == Some(Date { year: 2028, month: 2, day: 16 }),
        r@[4].release_id@ == "11.0"@,
        r@[4].release_name@ == "MariaDB Server 11.0"@,
        r@[4].release_status == ReleaseStatus::Stable,
        r@[4].release_support_type == SupportType::ShortTermSupport,
        r@[4].release_eol_date == Some(Date { year: 2024, month: 6, day: 6 }),
        r@[5].release_id@ == "11.1"@,
        r@[5].release_name@ == "MariaDB Server 11.1"@,
        r@[5].release_status == ReleaseStatus::Stable,
        r@[5].release_support_type == SupportType::ShortTermSupport,
        r@[5].release_eol_date == Some(Date { year: 2024, month: 8, day: 21 }),
        r@[6].release_id@ == "11.2"@,
        r@[6].release_name@ == "MariaDB Server 11.2"@,
        r@[6].release_status == ReleaseStatus::Stable,
        r@[6].release_support_type == SupportType::ShortTermSupport,
        r@[6].release_eol_date == Some(Date { year: 2024, month: 11, day: 21 }),
        r@[7].release_id@ == "11.3"@,
        r@[7].release_name@ == "MariaDB Server 11.3"@,
        r@[7].release_status == ReleaseStatus::Stable,
        r@[7].release_support_type == SupportType::ShortTermSupport,
        r@[7].release_eol_date.is_none(),
        r@[8].release_id@ == "11.4"@,
        r@[8].release_name@ == "MariaDB Server 11.4"@,
        r@[8].release_status == ReleaseStatus::RC,
        r@[8].release_support_type == SupportType::LongTermSupport,
        r@[8].release_eol_date.is_none(),
        r@[9].release_id@ == "11.5"@,
        r@[9].release_name@ == "MariaDB Server 11.5"@,
        r@[9].release_status == ReleaseStatus::Alpha,
        r@[9].release_support_type == SupportType::ShortTermSupport,
        r@[9].release_eol_date.is_none(),
{
    let mut releases: Vec<MajorReleases> = Vec::new();
    releases.push(
        MajorReleases {
            release_id: String::from_str("10.4"),
            release_name: String::from_str("MariaDB Server 10.4"),
            release_status: ReleaseStatus::Stable,
            release_support_type: SupportType::LongTermSupport,
            release_eol_date: Some(Date { year: 2024, month: 6, day: 18 }),
        },
    );
    releases.push(
        MajorReleases {
            release_id: String::from_str("10.5"),
            release_name: String::from_str("MariaDB Server 10.5"),
            release_status: ReleaseStatus::Stable,
            release_support_type: SupportType::LongTermSupport,
            release_eol_date: Some(Date { year: 2025, month: 6, day: 24 }),
        },
    );
    releases.push(
        MajorReleases {
            release_id: String::from_str("10.6"),
            release_name: String::from_str("MariaDB Server 10.6"),
            release_status: ReleaseStatus::Stable,
            release_support_type: SupportType::LongTermSupport,
            release_eol_date: Some(Date { year: 2026, month: 7, day: 6 }),
        },
    );
    releases.push(
        MajorReleases {
            release_id: String::from_str("10.11"),
            release_name: String::from_str("MariaDB Server 10.11"),
            release_status: ReleaseStatus::Stable,
            release_support_type: SupportType::LongTermSupport,
            release_eol_date: Some(Date { year: 2028, month: 2, day: 16 }),
        },
    );
    releases.push(
        MajorReleases {
            release_id: String::from_str("11.0"),
            release_name: String::from_str("MariaDB Server 11.0"),
            release_status: ReleaseStatus::Stable,
            release_support_type: SupportType::ShortTermSupport,
            release_eol_date: Some(Date { year: 2024, month: 6, day: 6 }),
        },
    );
    releases.push(
        MajorReleases {
            release_id: String::from_str("11.1"),
            release_name: String::from_str("MariaDB Server 11.1"),
            release_status: ReleaseStatus::Stable,
            release_support_type: SupportType::ShortTermSupport,
            release_eol_date: Some(Date { year: 2024, month: 8, day: 21 }),
        },
    );
    releases.push(
        MajorReleases {
            release_id: String::from_str("11.2"),
            release_name: String::from_str("MariaDB Server 11.2"),
            release_status: ReleaseStatus::Stable,
            release_support_type: SupportType::ShortTermSupport,
            release_eol_date: Some(Date { year: 2024, month: 11, day: 21 }),
        },
    );
    releases.push(
        MajorReleases {
            release_id: String::from_str("11.3"),
            release_name: String::from_str("MariaDB Server 11.3"),
            release_status: ReleaseStatus::Stable,
            release_support_type: SupportType::ShortTermSupport,
            release_eol_date: None,
        },
    );
    releases.push(
        MajorReleases {
            release_id: String::from_str("11.4"),
            release_name: String::from_str("MariaDB Server 11.4"),
            release_status: ReleaseStatus::RC,
            release_support_type: SupportType::LongTermSupport,
            release_eol_date: None,
        },
    );
    releases.push(
        MajorReleases {
            release_id: String::from_str("11.5"),
            release_name: String::from_str("MariaDB Server 11.5"),
            release_status: ReleaseStatus::Alpha,
            release_support_type: SupportType::ShortTermSupport,
            release_eol_date: None,
        },
    );
    proof {
        reveal_strlit("10.4");
        reveal_strlit("10.5");
        reveal_strlit("10.6");
        reveal_strlit("10.11");
        reveal_strlit("11.0");
        reveal_strlit("11.1");
        reveal_strlit("11.2");
        reveal_strlit("11.3");
        reveal_strlit("11.4");
        reveal_strlit("11.5");
        lemma_vals_dd_d("10.4"@);
        lemma_vals_dd_d("10.5"@);
        lemma_vals_dd_d("10.6"@);
        lemma_vals_dd_dd("10.11"@);
        lemma_vals_dd_d("11.0"@);
        lemma_vals_dd_d("11.1"@);
        lemma_vals_dd_d("11.2"@);
        lemma_vals_dd_d("11.3"@);
        lemma_vals_dd_d("11.4"@);
        lemma_vals_dd_d("11.5"@);
        lemma_version_lt_two("10.4"@, "10.5"@, 10, 4, 10, 5);
        lemma_version_lt_two("10.5"@, "10.6"@, 10, 5, 10, 6);
        lemma_version_lt_two("10.6"@, "10.11"@, 10, 6, 10, 11);
        lemma_version_lt_two("10.11"@, "11.0"@, 10, 11, 11, 0);
        lemma_version_lt_two("11.0"@, "11.1"@, 11, 0, 11, 1);
        lemma_version_lt_two("11.1"@, "11.2"@, 11, 1, 11, 2);
        lemma_version_lt_two("11.2"@, "11.3"@, 11, 2, 11, 3);
        lemma_version_lt_two("11.3"@, "11.4"@, 11, 3, 11, 4);
        lemma_version_lt_two("11.4"@, "11.5"@, 11, 4, 11, 5);
        assert forall|k: int|
            0 <= k < releases@.len() - 1 implies version_lt(
            #[trigger] releases@[k].release_id@,
            releases@[k + 1].release_id@,
        ) by {
            if k == 0 {
            } else if k == 1 {
            } else if k == 2 {
            } else if k == 3 {
            } else if k == 4 {
            } else if k == 5 {
            } else if k == 6 {
            } else if k == 7 {
            } else {
                assert(k == 8);
            }
        }
        lemma_sorted_from_adjacent(releases@);
        lemma_sorted_implies_ascending(releases@);
    }
    releases
}

/// Sorts a catalog ascending by release identifier.  The result holds
/// exactly the given entries; entries with equal identifiers keep no
/// specified relative order.
pub fn sort_releases(releases: Vec<MajorReleases>) -> (sorted: Vec<MajorReleases>)
    ensures
        catalog_ascending(sorted@),
        sorted@.to_multiset() == releases@.to_multiset(),
{
    broadcast use vstd::seq_lib::group_to_multiset_ensures;
    broadcast use vstd::multiset::group_multiset_axioms;

    let mut rest = releases;
    let mut out: Vec<MajorReleases> = Vec::new();
    let ghost all = rest@;
    while rest.len() > 0
        invariant
            catalog_ascending(out@),
            out@.to_multiset().add(rest@.to_multiset()) == all.to_multiset(),
        decreases rest@.len(),
    {
        let ghost rest0 = rest@;
        let x = rest.remove(0);
        proof {
            assert(rest@ =~= rest0.remove(0));
            rest0.to_multiset_ensures();
            assert(rest0[0] == x);
            assert(rest0.contains(x));
            assert(rest@.to_multiset() == rest0.remove(0).to_multiset());
            assert(rest0.remove(0).to_multiset() =~= rest0.to_multiset().remove(x));
            assert(rest0.to_multiset().count(x) >= 1);
        }
        let mut p: usize = 0;
        while p < out.len() && version_le_exec(out[p].release_id.as_str(), x.release_id.as_str())
            invariant
                p <= out@.len(),
                forall|k: int| 0 <= k < p ==> version_le(#[trigger] out@[k].release_id@, x.release_id@),
            decreases out@.len() - p,
        {
            p = p + 1;
        }
        let ghost out0 = out@;
        let ghost xv = x;
        proof {
            if (p as int) < out0.len() {
                lemma_version_le_total(out0[p as int].release_id@, xv.release_id@);
            }
        }
        out.insert(p, x);
        proof {
            assert(out@ == out0.insert(p as int, xv));
            assert forall|i: int, j: int| 0 <= i < j < out@.len() implies version_le(
                out@[i].release_id@,
                out@[j].release_id@,
            ) by {
                let pi = p as int;
                if j < pi {
                    assert(out@[i] == out0[i] && out@[j] == out0[j]);
                } else if j == pi {
                    assert(out@[i] == out0[i]);
                } else if i < pi {
                    assert(out@[i] == out0[i] && out@[j] == out0[j - 1]);
                } else if i == pi {
                    assert(out@[j] == out0[j - 1]);
                    assert(version_le(xv.release_id@, out0[pi].release_id@));
                    if pi < j - 1 {
                        assert(version_le(out0[pi].release_id@, out0[j - 1].release_id@));
                        lemma_version_le_trans(
                            xv.release_id@,
                            out0[pi].release_id@,
                            out0[j - 1].release_id@,
                        );
                    }
                } else {
                    assert(out@[i] == out0[i - 1] && out@[j] == out0[j - 1]);
                }
            }
            vstd::seq_lib::to_multiset_insert(out0, p as int, xv);
            assert(out@.to_multiset() == out0.to_multiset().insert(xv));
            assert(out@.to_multiset().add(rest@.to_multiset()) =~= all.to_multiset());
        }
    }
    proof {
        assert(rest@.to_multiset() =~= Multiset::<MajorReleases>::empty());
        assert(out@.to_multiset() =~= all.to_multiset());
    }
    out
}

} // verus!
