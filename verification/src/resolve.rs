//! The version resolver: maps a symbolic request ("latest", "lts", "alpha",
//! "rc", or a literal version) to a concrete release identifier.

use vstd::prelude::*;

use crate::catalog::{catalog_ascending, MajorReleases, ReleaseStatus, SupportType};
use crate::errors::{MariaDbVmError, ResolutionError};
use crate::text::{eq_ci, eq_ci_char, is_digit, is_digit_exec, str_eq_ci};
use crate::version_order::{
    lemma_split_dots_len, lemma_version_le_refl, split_dots, version_le,
};

verus! {

/// Whether an entry is a stable release.
pub open spec fn is_stable(r: MajorReleases) -> bool {
    r.release_status == ReleaseStatus::Stable
}

/// Whether an entry is an alpha release.
pub open spec fn is_alpha(r: MajorReleases) -> bool {
    r.release_status == ReleaseStatus::Alpha
}

/// Whether an entry is a release candidate.
pub open spec fn is_rc(r: MajorReleases) -> bool {
    r.release_status == ReleaseStatus::RC
}

/// Whether an entry has long-term support.
pub open spec fn is_lts(r: MajorReleases) -> bool {
    r.release_support_type == SupportType::LongTermSupport
}

/// The predicate the "latest" alias selects by.
pub open spec fn stable_pred() -> spec_fn(MajorReleases) -> bool {
    |r: MajorReleases| is_stable(r)
}

/// The predicate the "alpha" alias selects by.
pub open spec fn alpha_pred() -> spec_fn(MajorReleases) -> bool {
    |r: MajorReleases| is_alpha(r)
}

/// The predicate the "rc" alias selects by.
pub open spec fn rc_pred() -> spec_fn(MajorReleases) -> bool {
    |r: MajorReleases| is_rc(r)
}

/// The predicate the "lts" alias selects by.
pub open spec fn lts_pred() -> spec_fn(MajorReleases) -> bool {
    |r: MajorReleases| is_lts(r)
}

/// The identifier of the last catalog entry satisfying `p`, scanning from
/// the end; in an ascending catalog that is the greatest matching entry.
pub open spec fn last_match(c: Seq<MajorReleases>, p: spec_fn(MajorReleases) -> bool) -> Result<
    Seq<char>,
    ResolutionError,
>
    decreases c.len(),
{
    if c.len() == 0 {
        Err(ResolutionError::NoMatch)
    } else if p(c.last()) {
        Ok(c.last().release_id@)
    } else {
        last_match(c.drop_last(), p)
    }
}

/// The identifier of the first catalog entry satisfying `p`.
pub open spec fn first_match(c: Seq<MajorReleases>, p: spec_fn(MajorReleases) -> bool) -> Result<
    Seq<char>,
    ResolutionError,
>
    decreases c.len(),
{
    if c.len() == 0 {
        Err(ResolutionError::NoMatch)
    } else if p(c[0]) {
        Ok(c[0].release_id@)
    } else {
        first_match(c.skip(1), p)
    }
}

/// Whether every dot-separated component of `s` is a nonempty run of
/// decimal digits, as in "10.11" or "10.11.7".
pub open spec fn is_version_literal(s: Seq<char>) -> bool {
    forall|k: int|
        0 <= k < split_dots(s).len() ==> (#[trigger] split_dots(s)[k]).len() > 0 && forall|i: int|
            0 <= i < split_dots(s)[k].len() ==> is_digit(split_dots(s)[k][i])
}

/// What a version request resolves to.  The four aliases are recognized up
/// to ASCII case; a literal version passes through unvalidated, since a
/// point release need not appear in the major.minor catalog; anything else
/// is an unknown alias.
pub open spec fn resolve_spec(req: Seq<char>, c: Seq<MajorReleases>) -> Result<
    Seq<char>,
    ResolutionError,
> {
    if eq_ci(req, "latest"@) {
        last_match(c, stable_pred())
    } else if eq_ci(req, "lts"@) {
        last_match(c, lts_pred())
    } else if eq_ci(req, "alpha"@) {
        last_match(c, alpha_pred())
    } else if eq_ci(req, "rc"@) {
        first_match(c, rc_pred())
    } else if is_version_literal(req) {
        Ok(req)
    } else {
        Err(ResolutionError::UnknownAlias)
    }
}

proof fn lemma_last_match_at(c: Seq<MajorReleases>, p: spec_fn(MajorReleases) -> bool, i: int)
    requires
        0 <= i < c.len(),
        p(c[i]),
        forall|j: int| i < j < c.len() ==> !p(#[trigger] c[j]),
    ensures
        last_match(c, p) == Ok::<Seq<char>, ResolutionError>(c[i].release_id@),
    decreases c.len(),
{
    if i == c.len() - 1 {
    } else {
        lemma_last_match_at(c.drop_last(), p, i);
    }
}

proof fn lemma_last_match_none(c: Seq<MajorReleases>, p: spec_fn(MajorReleases) -> bool)
    requires
        forall|j: int| 0 <= j < c.len() ==> !p(#[trigger] c[j]),
    ensures
        last_match(c, p) == Err::<Seq<char>, ResolutionError>(ResolutionError::NoMatch),
    decreases c.len(),
{
    if c.len() > 0 {
        lemma_last_match_none(c.drop_last(), p);
    }
}

proof fn lemma_first_match_at(c: Seq<MajorReleases>, p: spec_fn(MajorReleases) -> bool, i: int)
    requires
        0 <= i < c.len(),
        p(c[i]),
        forall|j: int| 0 <= j < i ==> !p(#[trigger] c[j]),
    ensures
        first_match(c, p) == Ok::<Seq<char>, ResolutionError>(c[i].release_id@),
    decreases c.len(),
{
    if i > 0 {
        lemma_first_match_at(c.skip(1), p, i - 1);
    }
}

proof fn lemma_first_match_none(c: Seq<MajorReleases>, p: spec_fn(MajorReleases) -> bool)
    requires
        forall|j: int| 0 <= j < c.len() ==> !p(#[trigger] c[j]),
    ensures
        first_match(c, p) == Err::<Seq<char>, ResolutionError>(ResolutionError::NoMatch),
    decreases c.len(),
{
    if c.len() > 0 {
        lemma_first_match_none(c.skip(1), p);
    }
}

/// Every character of a string whose components hold only digits is a digit
/// or a separator.
proof fn lemma_literal_chars(s: Seq<char>)
    requires
        forall|k: int, i: int|
            0 <= k < split_dots(s).len() && 0 <= i < split_dots(s)[k].len() ==> is_digit(
                #[trigger] split_dots(s)[k][i],
            ),
    ensures
        forall|i: int| 0 <= i < s.len() ==> is_digit(#[trigger] s[i]) || s[i] == '.',
    decreases s.len(),
{
    if s.len() > 0 {
        let dl = s.drop_last();
        let rest = split_dots(dl);
        lemma_split_dots_len(dl);
        if s.last() == '.' {
            assert(split_dots(s) == rest.push(Seq::<char>::empty()));
            assert forall|k: int, i: int|
                0 <= k < rest.len() && 0 <= i < rest[k].len() implies is_digit(
                #[trigger] rest[k][i],
            ) by {
                assert(split_dots(s)[k] == rest[k]);
                assert(is_digit(split_dots(s)[k][i]));
            }
            lemma_literal_chars(dl);
        } else {
            assert(split_dots(s) == rest.update(rest.len() - 1, rest.last().push(s.last())));
            let n = split_dots(s).len();
            assert(split_dots(s)[n - 1] == rest.last().push(s.last()));
            assert(is_digit(split_dots(s)[n - 1][rest.last().len() as int]));
            assert(is_digit(s.last()));
            assert forall|k: int, i: int|
                0 <= k < rest.len() && 0 <= i < rest[k].len() implies is_digit(
                #[trigger] rest[k][i],
            ) by {
                if k < rest.len() - 1 {
                    assert(split_dots(s)[k] == rest[k]);
                    assert(is_digit(split_dots(s)[k][i]));
                } else {
                    assert(split_dots(s)[k] == rest.last().push(s.last()));
                    assert(split_dots(s)[k][i] == rest[k][i]);
                    assert(is_digit(split_dots(s)[k][i]));
                }
            }
            lemma_literal_chars(dl);
        }
        assert forall|i: int| 0 <= i < s.len() implies is_digit(#[trigger] s[i]) || s[i]
            == '.' by {
            if i < s.len() - 1 {
                assert(s[i] == dl[i]);
            } else {
                assert(s[i] == s.last());
            }
        }
    }
}

/// A literal version is recognized as no alias: its leading character is a
/// digit or a dot, and every alias starts with a letter.
proof fn lemma_literal_not_alias(req: Seq<char>)
    requires
        is_version_literal(req),
    ensures
        !eq_ci(req, "latest"@),
        !eq_ci(req, "lts"@),
        !eq_ci(req, "alpha"@),
        !eq_ci(req, "rc"@),
        req.len() > 0,
{
    lemma_literal_chars(req);
    lemma_split_dots_len(req);
    if req.len() == 0 {
        assert(split_dots(req) == seq![Seq::<char>::empty()]);
        assert(split_dots(req)[0].len() == 0);
        assert(false);
    }
    reveal_strlit("latest");
    reveal_strlit("lts");
    reveal_strlit("alpha");
    reveal_strlit("rc");
    assert(is_digit(req[0]) || req[0] == '.');
    if eq_ci(req, "latest"@) {
        assert(eq_ci_char(req[0], 'l'));
        assert(false);
    }
    if eq_ci(req, "lts"@) {
        assert(eq_ci_char(req[0], 'l'));
        assert(false);
    }
    if eq_ci(req, "alpha"@) {
        assert(eq_ci_char(req[0], 'a'));
        assert(false);
    }
    if eq_ci(req, "rc"@) {
        assert(eq_ci_char(req[0], 'r'));
        assert(false);
    }
}

/// A literal version request resolves to itself, whatever the catalog holds.
pub proof fn lemma_resolve_literal_identity(req: Seq<char>, c: Seq<MajorReleases>)
    requires
        is_version_literal(req),
    ensures
        resolve_spec(req, c) == Ok::<Seq<char>, ResolutionError>(req),
{
    lemma_literal_not_alias(req);
}

proof fn lemma_last_match_witness(c: Seq<MajorReleases>, p: spec_fn(MajorReleases) -> bool)
    requires
        exists|i: int| 0 <= i < c.len() && p(#[trigger] c[i]),
    ensures
        exists|i: int|
            0 <= i < c.len() && p(#[trigger] c[i]) && last_match(c, p) == Ok::<
                Seq<char>,
                ResolutionError,
            >(c[i].release_id@) && (forall|j: int| i < j < c.len() ==> !p(#[trigger] c[j])),
    decreases c.len(),
{
    let n = c.len() as int;
    if p(c.last()) {
        assert(0 <= n - 1 < c.len() && p(c[n - 1]) && last_match(c, p) == Ok::<
            Seq<char>,
            ResolutionError,
        >(c[n - 1].release_id@) && (forall|j: int| n - 1 < j < c.len() ==> !p(#[trigger] c[j])));
    } else {
        let iw = choose|i: int| 0 <= i < c.len() && p(#[trigger] c[i]);
        let dl = c.drop_last();
        assert(0 <= iw < dl.len() && p(dl[iw]));
        lemma_last_match_witness(dl, p);
        let k = choose|i: int|
            0 <= i < dl.len() && p(#[trigger] dl[i]) && last_match(dl, p) == Ok::<
                Seq<char>,
                ResolutionError,
            >(dl[i].release_id@) && (forall|j: int| i < j < dl.len() ==> !p(#[trigger] dl[j]));
        assert(c[k] == dl[k]);
        assert(forall|j: int| k < j < c.len() ==> !p(#[trigger] c[j])) by {
            assert(forall|j: int| k < j < dl.len() ==> !p(#[trigger] dl[j]));
            assert(forall|j: int| k < j < c.len() - 1 ==> c[j] == dl[j]);
        }
        assert(0 <= k < c.len() && p(c[k]) && last_match(c, p) == Ok::<Seq<char>, ResolutionError>(
            c[k].release_id@,
        ) && (forall|j: int| k < j < c.len() ==> !p(#[trigger] c[j])));
    }
}

proof fn lemma_first_match_witness(c: Seq<MajorReleases>, p: spec_fn(MajorReleases) -> bool)
    requires
        exists|i: int| 0 <= i < c.len() && p(#[trigger] c[i]),
    ensures
        exists|i: int|
            0 <= i < c.len() && p(#[trigger] c[i]) && first_match(c, p) == Ok::<
                Seq<char>,
                ResolutionError,
            >(c[i].release_id@) && (forall|j: int| 0 <= j < i ==> !p(#[trigger] c[j])),
    decreases c.len(),
{
    if p(c[0]) {
        assert(0 <= 0 < c.len() && p(c[0]) && first_match(c, p) == Ok::<
            Seq<char>,
            ResolutionError,
        >(c[0].release_id@) && (forall|j: int| 0 <= j < 0 ==> !p(#[trigger] c[j])));
    } else {
        let iw = choose|i: int| 0 <= i < c.len() && p(#[trigger] c[i]);
        let tl = c.skip(1);
        assert(0 <= iw - 1 < tl.len() && p(tl[iw - 1]));
        lemma_first_match_witness(tl, p);
        let k = choose|i: int|
            0 <= i < tl.len() && p(#[trigger] tl[i]) && first_match(tl, p) == Ok::<
                Seq<char>,
                ResolutionError,
            >(tl[i].release_id@) && (forall|j: int| 0 <= j < i ==> !p(#[trigger] tl[j]));
        assert(c[k + 1] == tl[k]);
        assert(forall|j: int| 0 <= j < k + 1 ==> !p(#[trigger] c[j])) by {
            assert(forall|j: int| 0 <= j < k ==> !p(#[trigger] tl[j]));
            assert(forall|j: int| 1 <= j < k + 1 ==> c[j] == tl[j - 1]);
        }
        assert(0 <= k + 1 < c.len() && p(c[k + 1]) && first_match(c, p) == Ok::<
            Seq<char>,
            ResolutionError,
        >(c[k + 1].release_id@) && (forall|j: int| 0 <= j < k + 1 ==> !p(#[trigger] c[j])));
    }
}

/// With a stable entry present in an ascending catalog, "latest" resolves to
/// the greatest stable release identifier.
pub proof fn lemma_resolve_latest_greatest(c: Seq<MajorReleases>)
    requires
        catalog_ascending(c),
        exists|i: int| 0 <= i < c.len() && is_stable(#[trigger] c[i]),
    ensures
        exists|i: int|
            0 <= i < c.len() && is_stable(#[trigger] c[i]) && resolve_spec("latest"@, c) == Ok::<
                Seq<char>,
                ResolutionError,
            >(c[i].release_id@) && (forall|j: int|
                0 <= j < c.len() && is_stable(#[trigger] c[j]) ==> version_le(
                    c[j].release_id@,
                    c[i].release_id@,
                )),
{
    assert(eq_ci("latest"@, "latest"@));
    lemma_last_match_witness(c, stable_pred());
    let i = choose|i: int|
        0 <= i < c.len() && stable_pred()(#[trigger] c[i]) && last_match(c, stable_pred()) == Ok::<
            Seq<char>,
            ResolutionError,
        >(c[i].release_id@) && (forall|j: int| i < j < c.len() ==> !stable_pred()(#[trigger] c[j]));
    lemma_version_le_refl(c[i].release_id@);
    assert(0 <= i < c.len() && is_stable(c[i]) && resolve_spec("latest"@, c) == Ok::<
        Seq<char>,
        ResolutionError,
    >(c[i].release_id@) && (forall|j: int|
        0 <= j < c.len() && is_stable(#[trigger] c[j]) ==> version_le(
            c[j].release_id@,
            c[i].release_id@,
        )));
}

/// With a long-term-support entry present in an ascending catalog, "lts"
/// resolves to the greatest such identifier, and "LTS" resolves identically.
pub proof fn lemma_resolve_lts_greatest(c: Seq<MajorReleases>)
    requires
        catalog_ascending(c),
        exists|i: int| 0 <= i < c.len() && is_lts(#[trigger] c[i]),
    ensures
        resolve_spec("LTS"@, c) == resolve_spec("lts"@, c),
        exists|i: int|
            0 <= i < c.len() && is_lts(#[trigger] c[i]) && resolve_spec("lts"@, c) == Ok::<
                Seq<char>,
                ResolutionError,
            >(c[i].release_id@) && (forall|j: int|
                0 <= j < c.len() && is_lts(#[trigger] c[j]) ==> version_le(
                    c[j].release_id@,
                    c[i].release_id@,
                )),
{
    reveal_strlit("latest");
    reveal_strlit("lts");
    reveal_strlit("LTS");
    assert(!eq_ci("lts"@, "latest"@));
    assert(!eq_ci("LTS"@, "latest"@));
    assert(eq_ci("lts"@, "lts"@));
    assert(eq_ci("LTS"@, "lts"@));
    lemma_last_match_witness(c, lts_pred());
    let i = choose|i: int|
        0 <= i < c.len() && lts_pred()(#[trigger] c[i]) && last_match(c, lts_pred()) == Ok::<
            Seq<char>,
            ResolutionError,
        >(c[i].release_id@) && (forall|j: int| i < j < c.len() ==> !lts_pred()(#[trigger] c[j]));
    lemma_version_le_refl(c[i].release_id@);
    assert(0 <= i < c.len() && is_lts(c[i]) && resolve_spec("lts"@, c) == Ok::<
        Seq<char>,
        ResolutionError,
    >(c[i].release_id@) && (forall|j: int|
        0 <= j < c.len() && is_lts(#[trigger] c[j]) ==> version_le(
            c[j].release_id@,
            c[i].release_id@,
        )));
}

/// With a release candidate present, "rc" resolves to the first one in
/// catalog order, unlike the other aliases, which take the last match.
pub proof fn lemma_resolve_rc_first(c: Seq<MajorReleases>)
    requires
        exists|i: int| 0 <= i < c.len() && is_rc(#[trigger] c[i]),
    ensures
        exists|i: int|
            0 <= i < c.len() && is_rc(#[trigger] c[i]) && resolve_spec("rc"@, c) == Ok::<
                Seq<char>,
                ResolutionError,
            >(c[i].release_id@) && (forall|j: int| 0 <= j < i ==> !is_rc(#[trigger] c[j])),
{
    reveal_strlit("latest");
    reveal_strlit("lts");
    reveal_strlit("alpha");
    reveal_strlit("rc");
    assert(!eq_ci("rc"@, "latest"@));
    assert(!eq_ci("rc"@, "lts"@));
    assert(!eq_ci("rc"@, "alpha"@));
    assert(eq_ci("rc"@, "rc"@));
    lemma_first_match_witness(c, rc_pred());
    let i = choose|i: int|
        0 <= i < c.len() && rc_pred()(#[trigger] c[i]) && first_match(c, rc_pred()) == Ok::<
            Seq<char>,
            ResolutionError,
        >(c[i].release_id@) && (forall|j: int| 0 <= j < i ==> !rc_pred()(#[trigger] c[j]));
    assert(0 <= i < c.len() && is_rc(c[i]) && resolve_spec("rc"@, c) == Ok::<
        Seq<char>,
        ResolutionError,
    >(c[i].release_id@) && (forall|j: int| 0 <= j < i ==> !is_rc(#[trigger] c[j])));
}

/// An alias whose predicate matches no catalog entry fails with `NoMatch`.
pub proof fn lemma_resolve_alias_no_match(c: Seq<MajorReleases>)
    ensures
        (forall|j: int| 0 <= j < c.len() ==> !is_stable(#[trigger] c[j])) ==> resolve_spec(
            "latest"@,
            c,
        ) == Err::<Seq<char>, ResolutionError>(ResolutionError::NoMatch),
        (forall|j: int| 0 <= j < c.len() ==> !is_lts(#[trigger] c[j])) ==> resolve_spec("lts"@, c)
            == Err::<Seq<char>, ResolutionError>(ResolutionError::NoMatch),
        (forall|j: int| 0 <= j < c.len() ==> !is_alpha(#[trigger] c[j])) ==> resolve_spec(
            "alpha"@,
            c,
        ) == Err::<Seq<char>, ResolutionError>(ResolutionError::NoMatch),
        (forall|j: int| 0 <= j < c.len() ==> !is_rc(#[trigger] c[j])) ==> resolve_spec("rc"@, c)
            == Err::<Seq<char>, ResolutionError>(ResolutionError::NoMatch),
{
    reveal_strlit("latest");
    reveal_strlit("lts");
    reveal_strlit("alpha");
    reveal_strlit("rc");
    assert(eq_ci("latest"@, "latest"@));
    assert(!eq_ci("lts"@, "latest"@));
    assert(eq_ci("lts"@, "lts"@));
    assert(!eq_ci("alpha"@, "latest"@));
    assert(!eq_ci("alpha"@, "lts"@));
    assert(eq_ci("alpha"@, "alpha"@));
    assert(!eq_ci("rc"@, "latest"@));
    assert(!eq_ci("rc"@, "lts"@));
    assert(!eq_ci("rc"@, "alpha"@));
    assert(eq_ci("rc"@, "rc"@));
    if forall|j: int| 0 <= j < c.len() ==> !is_stable(#[trigger] c[j]) {
        lemma_last_match_none(c, stable_pred());
    }
    if forall|j: int| 0 <= j < c.len() ==> !is_lts(#[trigger] c[j]) {
        lemma_last_match_none(c, lts_pred());
    }
    if forall|j: int| 0 <= j < c.len() ==> !is_alpha(#[trigger] c[j]) {
        lemma_last_match_none(c, alpha_pred());
    }
    if forall|j: int| 0 <= j < c.len() ==> !is_rc(#[trigger] c[j]) {
        lemma_first_match_none(c, rc_pred());
    }
}

/// Index of the last entry with the given status, if any.
fn last_index_with_status(releases: &Vec<MajorReleases>, status: ReleaseStatus) -> (r: Option<
    usize,
>)
    ensures
        match r {
            Some(i) => i < releases@.len() && releases@[i as int].release_status == status
                && forall|j: int|
                i < j < releases@.len() ==> (#[trigger] releases@[j]).release_status != status,
            None => forall|j: int|
                0 <= j < releases@.len() ==> (#[trigger] releases@[j]).release_status != status,
        },
{
    let mut k: usize = releases.len();
    while k > 0
        invariant
            k <= releases@.len(),
            forall|j: int|
                k <= j < releases@.len() ==> (#[trigger] releases@[j]).release_status != status,
        decreases k,
    {
        k = k - 1;
        if releases[k].release_status == status {
            return Some(k);
        }
    }
    None
}

/// Index of the last entry with the given support type, if any.
fn last_index_with_support(releases: &Vec<MajorReleases>, support: SupportType) -> (r: Option<
    usize,
>)
    ensures
        match r {
            Some(i) => i < releases@.len() && releases@[i as int].release_support_type == support
                && forall|j: int|
                i < j < releases@.len() ==> (#[trigger] releases@[j]).release_support_type
                    != support,
            None => forall|j: int|
                0 <= j < releases@.len() ==> (#[trigger] releases@[j]).release_support_type
                    != support,
        },
{
    let mut k: usize = releases.len();
    while k > 0
        invariant
            k <= releases@.len(),
            forall|j: int|
                k <= j < releases@.len() ==> (#[trigger] releases@[j]).release_support_type
                    != support,
        decreases k,
    {
        k = k - 1;
        if releases[k].release_support_type == support {
            return Some(k);
        }
    }
    None
}

/// Index of the first entry with the given status, if any.
fn first_index_with_status(releases: &Vec<MajorReleases>, status: ReleaseStatus) -> (r: Option<
    usize,
>)
    ensures
        match r {
            Some(i) => i < releases@.len() && releases@[i as int].release_status == status
                && forall|j: int|
                0 <= j < i ==> (#[trigger] releases@[j]).release_status != status,
            None => forall|j: int|
                0 <= j < releases@.len() ==> (#[trigger] releases@[j]).release_status != status,
        },
{
    let mut k: usize = 0;
    while k < releases.len()
        invariant
            k <= releases@.len(),
            forall|j: int| 0 <= j < k ==> (#[trigger] releases@[j]).release_status != status,
        decreases releases@.len() - k,
    {
        if releases[k].release_status == status {
            return Some(k);
        }
        k = k + 1;
    }
    None
}

/// Decides whether a request is a literal version.
pub fn is_version_literal_exec(s: &str) -> (r: bool)
    ensures
        r == is_version_literal(s@),
{
    let comps = crate::version_order::split_components(s);
    let mut k: usize = 0;
    while k < comps.len()
        invariant
            k <= comps@.len(),
            comps@.len() == split_dots(s@).len(),
            forall|i: int| 0 <= i < comps@.len() ==> comps@[i]@ == split_dots(s@)[i],
            forall|kk: int|
                0 <= kk < k ==> (#[trigger] split_dots(s@)[kk]).len() > 0 && forall|i: int|
                    0 <= i < split_dots(s@)[kk].len() ==> is_digit(split_dots(s@)[kk][i]),
        decreases comps@.len() - k,
    {
        let comp = &comps[k];
        if comp.len() == 0 {
            proof {
                assert(split_dots(s@)[k as int].len() == 0);
                assert(!is_version_literal(s@));
            }
            return false;
        }
        let mut i: usize = 0;
        while i < comp.len()
            invariant
                k < comps@.len(),
                comps@.len() == split_dots(s@).len(),
                comp@ == split_dots(s@)[k as int],
                i <= comp@.len(),
                forall|ii: int| 0 <= ii < i ==> is_digit(comp@[ii]),
            decreases comp@.len() - i,
        {
            if !is_digit_exec(comp[i]) {
                proof {
                    assert(!is_digit(split_dots(s@)[k as int][i as int]));
                    assert(!is_version_literal(s@));
                }
                return false;
            }
            i = i + 1;
        }
        k = k + 1;
    }
    true
}

/// Resolves a symbolic version request against a catalog of releases.
///
/// Aliases are matched up to ASCII case: "latest" takes the last stable
/// entry, "lts" the last long-term-support entry, "alpha" the last alpha
/// entry, and "rc" the first release-candidate entry.  A literal version is
/// returned unchanged without consulting the catalog.  An alias with no
/// matching entry fails with `NoMatch`; a request that is neither an alias
/// nor a literal version fails with `UnknownAlias`.
pub fn resolve_version(version: &str, releases: &Vec<MajorReleases>) -> (res: Result<
    String,
    MariaDbVmError,
>)
    ensures
        match res {
            Ok(id) => resolve_spec(version@, releases@) == Ok::<Seq<char>, ResolutionError>(id@),
            Err(e) => e matches MariaDbVmError::Resolution { cause } && resolve_spec(
                version@,
                releases@,
            ) == Err::<Seq<char>, ResolutionError>(cause),
        },
{
    if str_eq_ci(version, "latest") {
        match last_index_with_status(releases, ReleaseStatus::Stable) {
            Some(i) => {
                proof {
                    lemma_last_match_at(releases@, stable_pred(), i as int);
                }
                Ok(releases[i].release_id.clone())
            },
            None => {
                proof {
                    lemma_last_match_none(releases@, stable_pred());
                }
                Err(MariaDbVmError::Resolution { cause: ResolutionError::NoMatch })
            },
        }
    } else if str_eq_ci(version, "lts") {
        match last_index_with_support(releases, SupportType::LongTermSupport) {
            Some(i) => {
                proof {
                    lemma_last_match_at(releases@, lts_pred(), i as int);
                }
                Ok(releases[i].release_id.clone())
            },
            None => {
                proof {
                    lemma_last_match_none(releases@, lts_pred());
                }
                Err(MariaDbVmError::Resolution { cause: ResolutionError::NoMatch })
            },
        }
    } else if str_eq_ci(version, "alpha") {
        match last_index_with_status(releases, ReleaseStatus::Alpha) {
            Some(i) => {
                proof {
                    lemma_last_match_at(releases@, alpha_pred(), i as int);
                }
                Ok(releases[i].release_id.clone())
            },
            None => {
                proof {
                    lemma_last_match_none(releases@, alpha_pred());
                }
                Err(MariaDbVmError::Resolution { cause: ResolutionError::NoMatch })
            },
        }
    } else if str_eq_ci(version, "rc") {
        match first_index_with_status(releases, ReleaseStatus::RC) {
            Some(i) => {
                proof {
                    lemma_first_match_at(releases@, rc_pred(), i as int);
                }
                Ok(releases[i].release_id.clone())
            },
            None => {
                proof {
                    lemma_first_match_none(releases@, rc_pred());
                }
                Err(MariaDbVmError::Resolution { cause: ResolutionError::NoMatch })
            },
        }
    } else if is_version_literal_exec(version) {
        Ok(version.to_owned())
    } else {
        Err(MariaDbVmError::Resolution { cause: ResolutionError::UnknownAlias })
    }
}

} // verus!
