//! Numeric ordering of version identifiers.
//!
//! A release identifier such as "10.11" is a dot-separated list of decimal
//! components.  The catalog orders identifiers by comparing those components
//! numerically, earlier components first, so that "10.4" precedes "10.11".

use vstd::prelude::*;
use vstd::arithmetic::power::{
    pow, lemma_pow0, lemma_pow_adds, lemma_pow1, lemma_pow_positive, lemma_pow_increases,
};

verus! {

/// Number of '.' separators in a version string; a full point release
/// ("10.11.7") has more than one, a major.minor family ("10.11") has one.
pub open spec fn dot_count(s: Seq<char>) -> nat
    decreases s.len(),
{
    if s.len() == 0 {
        0
    } else {
        dot_count(s.drop_last()) + if s.last() == '.' { 1nat } else { 0nat }
    }
}

/// Counts the '.' separators in a version string.
pub fn count_dots(s: &str) -> (n: usize)
    ensures
        n == dot_count(s@),
{
    let len = s.unicode_len();
    let mut n: usize = 0;
    let mut i: usize = 0;
    while i < len
        invariant
            i <= len,
            len == s@.len(),
            n <= i,
            n == dot_count(s@.take(i as int)),
        decreases len - i,
    {
        let c = s.get_char(i);
        proof {
            assert(s@.take(i + 1).drop_last() =~= s@.take(i as int));
            assert(s@.take(i + 1).last() == s@[i as int]);
        }
        if c == '.' {
            n = n + 1;
        }
        i = i + 1;
    }
    proof {
        assert(s@.take(len as int) =~= s@);
    }
    n
}

/// Numeric weight of one character: its decimal digit value for '0'..'9',
/// and 0 for any other character.
pub open spec fn digit_val(c: char) -> nat {
    if 48 <= c as u32 && c as u32 <= 57 {
        (c as u32 - 48) as nat
    } else {
        0
    }
}

/// Value of a character sequence read as a decimal number, most significant
/// character first; characters that are not digits weigh 0.
pub open spec fn digits_val(s: Seq<char>) -> nat
    decreases s.len(),
{
    if s.len() == 0 {
        0
    } else {
        digits_val(s.drop_last()) * 10 + digit_val(s.last())
    }
}

/// The components of a version identifier: the runs of characters between
/// '.' separators; "10.11" has the components "10" and "11".
pub open spec fn split_dots(s: Seq<char>) -> Seq<Seq<char>>
    decreases s.len(),
{
    if s.len() == 0 {
        seq![Seq::<char>::empty()]
    } else if s.last() == '.' {
        split_dots(s.drop_last()).push(Seq::<char>::empty())
    } else {
        let rest = split_dots(s.drop_last());
        rest.update(rest.len() - 1, rest.last().push(s.last()))
    }
}

/// The numeric values of a version identifier's components.
pub open spec fn component_vals(s: Seq<char>) -> Seq<nat> {
    split_dots(s).map_values(|c: Seq<char>| digits_val(c))
}

/// Lexicographic "less or equal" on component values: the first differing
/// component decides, and a proper prefix precedes its extensions.
pub open spec fn lex_le(x: Seq<nat>, y: Seq<nat>) -> bool
    decreases x.len(),
{
    if x.len() == 0 {
        true
    } else if y.len() == 0 {
        false
    } else if x[0] < y[0] {
        true
    } else if x[0] > y[0] {
        false
    } else {
        lex_le(x.skip(1), y.skip(1))
    }
}

/// Release ordering: `a` precedes (or equals) `b` when the dot-separated
/// components of `a`, compared numerically, do not exceed those of `b`.
pub open spec fn version_le(a: Seq<char>, b: Seq<char>) -> bool {
    lex_le(component_vals(a), component_vals(b))
}

/// A version identifier always has at least one component.
pub proof fn lemma_split_dots_len(s: Seq<char>)
    ensures
        split_dots(s).len() >= 1,
    decreases s.len(),
{
    if s.len() > 0 {
        lemma_split_dots_len(s.drop_last());
    }
}

/// The lexicographic order is total.
pub proof fn lemma_lex_le_total(x: Seq<nat>, y: Seq<nat>)
    ensures
        lex_le(x, y) || lex_le(y, x),
    decreases x.len(),
{
    if x.len() > 0 && y.len() > 0 && x[0] == y[0] {
        lemma_lex_le_total(x.skip(1), y.skip(1));
    }
}

/// The lexicographic order is transitive.
pub proof fn lemma_lex_le_trans(x: Seq<nat>, y: Seq<nat>, z: Seq<nat>)
    requires
        lex_le(x, y),
        lex_le(y, z),
    ensures
        lex_le(x, z),
    decreases x.len(),
{
    if x.len() > 0 && y.len() > 0 && z.len() > 0 && x[0] == z[0] {
        lemma_lex_le_trans(x.skip(1), y.skip(1), z.skip(1));
    }
}

/// The release ordering is reflexive.
pub proof fn lemma_version_le_refl(a: Seq<char>)
    ensures
        version_le(a, a),
{
    lemma_lex_le_total(component_vals(a), component_vals(a));
}

/// The release ordering is total.
pub proof fn lemma_version_le_total(a: Seq<char>, b: Seq<char>)
    ensures
        version_le(a, b) || version_le(b, a),
{
    lemma_lex_le_total(component_vals(a), component_vals(b));
}

/// Strict release ordering.
pub open spec fn version_lt(a: Seq<char>, b: Seq<char>) -> bool {
    version_le(a, b) && !version_le(b, a)
}

/// The strict release ordering is transitive.
pub proof fn lemma_version_lt_trans(a: Seq<char>, b: Seq<char>, c: Seq<char>)
    requires
        version_lt(a, b),
        version_lt(b, c),
    ensures
        version_lt(a, c),
{
    lemma_version_le_trans(a, b, c);
    if version_le(c, a) {
        lemma_version_le_trans(b, c, a);
    }
}

/// The release ordering is transitive.
pub proof fn lemma_version_le_trans(a: Seq<char>, b: Seq<char>, c: Seq<char>)
    requires
        version_le(a, b),
        version_le(b, c),
    ensures
        version_le(a, c),
{
    lemma_lex_le_trans(component_vals(a), component_vals(b), component_vals(c));
}

/// A string without separators is one single component.
pub proof fn lemma_split_none(s: Seq<char>)
    requires
        forall|j: int| 0 <= j < s.len() ==> s[j] != '.',
    ensures
        split_dots(s) == seq![s],
    decreases s.len(),
{
    if s.len() == 0 {
        assert(split_dots(s) =~~= seq![s]);
    } else {
        lemma_split_none(s.drop_last());
        assert(s.drop_last().push(s.last()) =~= s);
        assert(split_dots(s) =~~= seq![s]);
    }
}

/// A string with exactly one separator, at position `k`, has exactly the two
/// components around it.
pub proof fn lemma_split_two(s: Seq<char>, k: int)
    requires
        0 <= k < s.len(),
        s[k] == '.',
        forall|j: int| 0 <= j < s.len() && j != k ==> s[j] != '.',
    ensures
        split_dots(s) == seq![s.take(k), s.skip(k + 1)],
    decreases s.len(),
{
    if k == s.len() - 1 {
        lemma_split_none(s.drop_last());
        assert(s.take(k) =~= s.drop_last());
        assert(s.skip(k + 1) =~= Seq::<char>::empty());
        assert(split_dots(s) =~~= seq![s.take(k), s.skip(k + 1)]);
    } else {
        lemma_split_two(s.drop_last(), k);
        assert(s.drop_last().take(k) =~= s.take(k));
        assert(s.drop_last().skip(k + 1).push(s.last()) =~= s.skip(k + 1));
        assert(split_dots(s) =~~= seq![s.take(k), s.skip(k + 1)]);
    }
}

/// The value of a one-character string.
pub proof fn lemma_val1(s: Seq<char>)
    requires
        s.len() == 1,
    ensures
        digits_val(s) == digit_val(s[0]),
{
    assert(s.drop_last() =~= Seq::<char>::empty());
    assert(digits_val(Seq::<char>::empty()) == 0);
}

/// The value of a two-character string.
pub proof fn lemma_val2(s: Seq<char>)
    requires
        s.len() == 2,
    ensures
        digits_val(s) == digit_val(s[0]) * 10 + digit_val(s[1]),
{
    lemma_val1(s.drop_last());
}

/// The component values of an identifier with one separator and the values
/// of the two components around it.
pub proof fn lemma_component_vals_two(s: Seq<char>, k: int, m: nat, n: nat)
    requires
        0 <= k < s.len(),
        s[k] == '.',
        forall|j: int| 0 <= j < s.len() && j != k ==> s[j] != '.',
        digits_val(s.take(k)) == m,
        digits_val(s.skip(k + 1)) == n,
    ensures
        component_vals(s) == seq![m, n],
{
    lemma_split_two(s, k);
    assert(component_vals(s) =~= seq![m, n]);
}

/// The order of two identifiers of two numeric components each is the order
/// of their component pairs.
pub proof fn lemma_version_lt_two(a: Seq<char>, b: Seq<char>, ma: nat, na: nat, mb: nat, nb: nat)
    requires
        component_vals(a) == seq![ma, na],
        component_vals(b) == seq![mb, nb],
        ma < mb || (ma == mb && na < nb),
    ensures
        version_lt(a, b),
{
    let x = component_vals(a);
    let y = component_vals(b);
    assert(x.skip(1) =~= seq![na]);
    assert(y.skip(1) =~= seq![nb]);
    assert(seq![na].skip(1) =~= Seq::<nat>::empty());
    assert(seq![nb].skip(1) =~= Seq::<nat>::empty());
    assert(lex_le(Seq::<nat>::empty(), Seq::<nat>::empty()));
    assert(lex_le(seq![na], seq![nb]) == (na <= nb));
    assert(lex_le(seq![nb], seq![na]) == (nb <= na));
    assert(lex_le(x, y) == (ma < mb || (ma == mb && na <= nb)));
    assert(lex_le(y, x) == (mb < ma || (mb == ma && nb <= na)));
}

/// Powers of ten, the radix of version components.
pub open spec fn pow10(e: nat) -> nat {
    pow(10, e) as nat
}

proof fn lemma_pow10_step(e: nat)
    ensures
        pow10(e + 1) == pow10(e) * 10,
        pow10(e) >= 1,
{
    lemma_pow_positive(10, e);
    lemma_pow_positive(10, e + 1);
    lemma_pow_adds(10, e, 1);
    lemma_pow1(10);
}

/// A decimal string of length `n` is below `10^n`.
proof fn lemma_val_upper(s: Seq<char>)
    ensures
        digits_val(s) < pow10(s.len()),
    decreases s.len(),
{
    if s.len() == 0 {
        lemma_pow0(10);
    } else {
        lemma_val_upper(s.drop_last());
        lemma_pow10_step((s.len() - 1) as nat);
    }
}

/// A decimal string whose leading character weighs at least 1 is at least
/// `10^(n-1)`.
proof fn lemma_val_lower(s: Seq<char>)
    requires
        s.len() > 0,
        digit_val(s[0]) >= 1,
    ensures
        digits_val(s) >= pow10((s.len() - 1) as nat),
    decreases s.len(),
{
    if s.len() == 1 {
        lemma_pow0(10);
        assert(s.last() == s[0]);
    } else {
        assert(s.drop_last()[0] == s[0]);
        lemma_val_lower(s.drop_last());
        lemma_pow10_step((s.len() - 2) as nat);
    }
}

/// After discarding leading zero-weight characters, a shorter decimal string
/// has the smaller value.
proof fn lemma_len_lt(s: Seq<char>, t: Seq<char>)
    requires
        t.len() > s.len(),
        digit_val(t[0]) >= 1,
    ensures
        digits_val(s) < digits_val(t),
{
    lemma_val_upper(s);
    lemma_val_lower(t);
    lemma_pow_increases(10, s.len(), (t.len() - 1) as nat);
    lemma_pow_positive(10, s.len());
    lemma_pow_positive(10, (t.len() - 1) as nat);
}

/// Characters of equal weight give equal values.
proof fn lemma_dv_pointwise(s: Seq<char>, t: Seq<char>)
    requires
        s.len() == t.len(),
        forall|i: int| 0 <= i < s.len() ==> digit_val(s[i]) == digit_val(t[i]),
    ensures
        digits_val(s) == digits_val(t),
    decreases s.len(),
{
    if s.len() > 0 {
        assert(digit_val(s.last()) == digit_val(t.last()));
        lemma_dv_pointwise(s.drop_last(), t.drop_last());
    }
}

/// A leading zero-weight character does not change the value.
proof fn lemma_skip_leading_zero(s: Seq<char>)
    requires
        s.len() > 0,
        digit_val(s[0]) == 0,
    ensures
        digits_val(s) == digits_val(s.skip(1)),
    decreases s.len(),
{
    if s.len() == 1 {
        assert(s.last() == s[0]);
        assert(s.skip(1) =~= Seq::<char>::empty());
    } else {
        assert(s.drop_last()[0] == s[0]);
        lemma_skip_leading_zero(s.drop_last());
        assert(s.drop_last().skip(1) =~= s.skip(1).drop_last());
        assert(s.skip(1).last() == s.last());
        assert(digits_val(s) == digits_val(s.drop_last()) * 10 + digit_val(s.last()));
        assert(digits_val(s.skip(1)) == digits_val(s.skip(1).drop_last()) * 10 + digit_val(
            s.skip(1).last(),
        ));
    }
}

/// Leading zero-weight characters do not change the value.
proof fn lemma_skip_zeros(s: Seq<char>, k: int)
    requires
        0 <= k <= s.len(),
        forall|j: int| 0 <= j < k ==> digit_val(s[j]) == 0,
    ensures
        digits_val(s.skip(k)) == digits_val(s),
    decreases k,
{
    if k > 0 {
        lemma_skip_leading_zero(s);
        lemma_skip_zeros(s.skip(1), k - 1);
        assert(s.skip(1).skip(k - 1) =~= s.skip(k));
    } else {
        assert(s.skip(0) =~= s);
    }
}

/// Positional decomposition: appending `b` shifts the value of `a` by
/// `10^|b|`.
proof fn lemma_val_append(a: Seq<char>, b: Seq<char>)
    ensures
        digits_val(a + b) == digits_val(a) * pow10(b.len()) + digits_val(b),
    decreases b.len(),
{
    if b.len() == 0 {
        assert(a + b =~= a);
        lemma_pow0(10);
        assert(pow10(0) == 1);
        assert(digits_val(a + b) == digits_val(a) * pow10(b.len()) + digits_val(b));
    } else {
        lemma_val_append(a, b.drop_last());
        assert((a + b).drop_last() =~= a + b.drop_last());
        assert((a + b).last() == b.last());
        lemma_pow10_step((b.len() - 1) as nat);
        let x = digits_val(a);
        let p = pow10((b.len() - 1) as nat);
        let y = digits_val(b.drop_last());
        let d = digit_val(b.last());
        assert((a + b).len() == a.len() + b.len());
        assert(digits_val(a + b) == digits_val((a + b).drop_last()) * 10 + digit_val(
            (a + b).last(),
        ));
        assert(digits_val(a + b) == (x * p + y) * 10 + d);
        assert(pow10(b.len()) == p * 10);
        assert(digits_val(b) == y * 10 + d);
        assert((x * p + y) * 10 + d == x * (p * 10) + (y * 10 + d)) by (nonlinear_arith);
        assert(digits_val(a + b) == digits_val(a) * pow10(b.len()) + digits_val(b));
    }
}

/// With equal lengths and equal weights before position `i`, the character
/// weights at `i` decide the order of the values.
proof fn lemma_first_diff(s: Seq<char>, t: Seq<char>, i: int)
    requires
        s.len() == t.len(),
        0 <= i < s.len(),
        forall|j: int| 0 <= j < i ==> digit_val(s[j]) == digit_val(t[j]),
        digit_val(s[i]) < digit_val(t[i]),
    ensures
        digits_val(s) < digits_val(t),
{
    let n = s.len() as int;
    assert(s =~= s.take(i + 1) + s.skip(i + 1));
    assert(t =~= t.take(i + 1) + t.skip(i + 1));
    lemma_val_append(s.take(i + 1), s.skip(i + 1));
    lemma_val_append(t.take(i + 1), t.skip(i + 1));
    assert(s.take(i + 1).drop_last() =~= s.take(i));
    assert(t.take(i + 1).drop_last() =~= t.take(i));
    lemma_dv_pointwise(s.take(i), t.take(i));
    lemma_val_upper(s.skip(i + 1));
    let a = digits_val(s.take(i));
    let ds = digit_val(s[i]);
    let dt = digit_val(t[i]);
    let p = pow10((n - i - 1) as nat);
    let rs = digits_val(s.skip(i + 1));
    let rt = digits_val(t.skip(i + 1));
    assert(s.take(i + 1).last() == s[i]);
    assert(t.take(i + 1).last() == t[i]);
    assert(digits_val(s.take(i + 1)) == a * 10 + ds);
    assert(digits_val(t.take(i + 1)) == a * 10 + dt);
    assert(digits_val(s) == (a * 10 + ds) * p + rs);
    assert(digits_val(t) == (a * 10 + dt) * p + rt);
    assert((a * 10 + ds) * p + rs < (a * 10 + dt) * p + rt) by (nonlinear_arith)
        requires
            ds < dt,
            rs < p,
    ;
}

/// Three-way comparison result for numeric version components.
#[derive(PartialEq, Eq, Structural, Clone, Copy, Debug)]
pub enum Cmp {
    Less,
    Equal,
    Greater,
}

/// Decimal weight of a character, as executable code.
pub fn digit_of(c: char) -> (v: u32)
    ensures
        v == digit_val(c),
{
    let u = c as u32;
    if 48 <= u && u <= 57 {
        u - 48
    } else {
        0
    }
}

/// Compares two version components by their numeric value.
pub fn component_cmp(a: &Vec<char>, b: &Vec<char>) -> (r: Cmp)
    ensures
        (r == Cmp::Less) == (digits_val(a@) < digits_val(b@)),
        (r == Cmp::Equal) == (digits_val(a@) == digits_val(b@)),
        (r == Cmp::Greater) == (digits_val(a@) > digits_val(b@)),
{
    let mut ia: usize = 0;
    while ia < a.len() && digit_of(a[ia]) == 0
        invariant
            ia <= a@.len(),
            forall|j: int| 0 <= j < ia ==> digit_val(a@[j]) == 0,
        decreases a@.len() - ia,
    {
        ia = ia + 1;
    }
    let mut ib: usize = 0;
    while ib < b.len() && digit_of(b[ib]) == 0
        invariant
            ib <= b@.len(),
            forall|j: int| 0 <= j < ib ==> digit_val(b@[j]) == 0,
        decreases b@.len() - ib,
    {
        ib = ib + 1;
    }
    proof {
        lemma_skip_zeros(a@, ia as int);
        lemma_skip_zeros(b@, ib as int);
    }
    let la = a.len() - ia;
    let lb = b.len() - ib;
    if la < lb {
        proof {
            lemma_len_lt(a@.skip(ia as int), b@.skip(ib as int));
        }
        return Cmp::Less;
    }
    if lb < la {
        proof {
            lemma_len_lt(b@.skip(ib as int), a@.skip(ia as int));
        }
        return Cmp::Greater;
    }
    let mut j: usize = 0;
    while j < la
        invariant
            j <= la,
            ia + la == a@.len(),
            ib + lb == b@.len(),
            a@.len() <= usize::MAX,
            b@.len() <= usize::MAX,
            la == lb,
            digits_val(a@.skip(ia as int)) == digits_val(a@),
            digits_val(b@.skip(ib as int)) == digits_val(b@),
            forall|k: int|
                0 <= k < j ==> digit_val(#[trigger] a@.skip(ia as int)[k]) == digit_val(
                    b@.skip(ib as int)[k],
                ),
        decreases la - j,
    {
        let da = digit_of(a[ia + j]);
        let db = digit_of(b[ib + j]);
        if da < db {
            proof {
                lemma_first_diff(a@.skip(ia as int), b@.skip(ib as int), j as int);
            }
            return Cmp::Less;
        }
        if db < da {
            proof {
                lemma_first_diff(b@.skip(ib as int), a@.skip(ia as int), j as int);
            }
            return Cmp::Greater;
        }
        j = j + 1;
    }
    proof {
        lemma_dv_pointwise(a@.skip(ia as int), b@.skip(ib as int));
    }
    Cmp::Equal
}

/// Splits a version identifier into its dot-separated components.
pub fn split_components(s: &str) -> (comps: Vec<Vec<char>>)
    ensures
        comps@.len() == split_dots(s@).len(),
        forall|i: int| 0 <= i < comps@.len() ==> comps@[i]@ == split_dots(s@)[i],
{
    let len = s.unicode_len();
    let mut comps: Vec<Vec<char>> = Vec::new();
    let mut cur: Vec<char> = Vec::new();
    let mut i: usize = 0;
    while i < len
        invariant
            i <= len,
            len == s@.len(),
            split_dots(s@.take(i as int)).len() == comps@.len() + 1,
            forall|k: int|
                0 <= k < comps@.len() ==> #[trigger] split_dots(s@.take(i as int))[k] == comps@[k]@,
            split_dots(s@.take(i as int)).last() == cur@,
        decreases len - i,
    {
        let c = s.get_char(i);
        let ghost prev = split_dots(s@.take(i as int));
        proof {
            assert(s@.take(i + 1).drop_last() =~= s@.take(i as int));
            assert(s@.take(i + 1).last() == s@[i as int]);
        }
        if c == '.' {
            comps.push(cur);
            cur = Vec::new();
            proof {
                assert(split_dots(s@.take(i + 1)) == prev.push(Seq::<char>::empty()));
                assert(comps@.last()@ == prev.last());
            }
        } else {
            cur.push(c);
            proof {
                assert(split_dots(s@.take(i + 1)) == prev.update(
                    prev.len() - 1,
                    prev.last().push(c),
                ));
            }
        }
        i = i + 1;
    }
    proof {
        assert(s@.take(len as int) =~= s@);
    }
    comps.push(cur);
    comps
}

/// With equal values before position `k`, the order is decided by the
/// remainders.
proof fn lemma_lex_le_skip(x: Seq<nat>, y: Seq<nat>, k: int)
    requires
        0 <= k <= x.len(),
        k <= y.len(),
        forall|j: int| 0 <= j < k ==> x[j] == y[j],
    ensures
        lex_le(x, y) == lex_le(x.skip(k), y.skip(k)),
    decreases k,
{
    if k > 0 {
        lemma_lex_le_skip(x.skip(1), y.skip(1), k - 1);
        assert(x.skip(1).skip(k - 1) =~= x.skip(k));
        assert(y.skip(1).skip(k - 1) =~= y.skip(k));
    } else {
        assert(x.skip(0) =~= x);
        assert(y.skip(0) =~= y);
    }
}

/// Decides the release ordering on two version identifiers.
pub fn version_le_exec(a: &str, b: &str) -> (r: bool)
    ensures
        r == version_le(a@, b@),
{
    let ca = split_components(a);
    let cb = split_components(b);
    let ghost x = component_vals(a@);
    let ghost y = component_vals(b@);
    let mut k: usize = 0;
    while k < ca.len() && k < cb.len()
        invariant
            k <= ca@.len(),
            k <= cb@.len(),
            ca@.len() == x.len(),
            cb@.len() == y.len(),
            x == component_vals(a@),
            y == component_vals(b@),
            forall|i: int| 0 <= i < ca@.len() ==> ca@[i]@ == split_dots(a@)[i],
            forall|i: int| 0 <= i < cb@.len() ==> cb@[i]@ == split_dots(b@)[i],
            forall|j: int| 0 <= j < k ==> x[j] == y[j],
        decreases ca@.len() - k,
    {
        let r = component_cmp(&ca[k], &cb[k]);
        proof {
            assert(x[k as int] == digits_val(ca@[k as int]@));
            assert(y[k as int] == digits_val(cb@[k as int]@));
            lemma_lex_le_skip(x, y, k as int);
        }
        match r {
            Cmp::Less => {
                return true;
            },
            Cmp::Greater => {
                return false;
            },
            Cmp::Equal => {
                k = k + 1;
            },
        }
    }
    proof {
        lemma_lex_le_skip(x, y, k as int);
    }
    ca.len() <= cb.len()
}

} // verus!

