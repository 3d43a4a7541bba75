//! Release versions: the numbers a version string holds, and which of two
//! versions is the newer one.

use vstd::prelude::*;
use crate::text::{
    char_is_numeric, chars_of, is_numeric_char, is_whitespace_char, trim_end_ws, trim_start_ws, lemma_split_by_leading_separator, skip_leading,
    split_by, strip_leading, trim_bounds, trim_ws,
};

verus! {

/// A character that ends one number of a version: `.`, `-` or anything not numeric.
pub open spec fn is_version_separator(c: char) -> bool {
    c == '.' || c == '-' || !is_numeric_char(c)
}

pub open spec fn version_separator() -> spec_fn(char) -> bool {
    |c: char| is_version_separator(c)
}

pub open spec fn is_ascii_digit(c: char) -> bool {
    '0' <= c && c <= '9'
}

pub open spec fn digit_value(c: char) -> nat {
    ((c as u32) - ('0' as u32)) as nat
}

/// The number that a run of decimal digits denotes.
pub open spec fn decimal_value(s: Seq<char>) -> nat
    decreases s.len(),
{
    if s.len() == 0 {
        0
    } else {
        decimal_value(s.drop_last()) * 10 + digit_value(s.last())
    }
}

pub open spec fn all_ascii_digits(s: Seq<char>) -> bool {
    forall|i: int| 0 <= i < s.len() ==> is_ascii_digit(#[trigger] s[i])
}

/// What `str::parse::<u32>` gives for a piece made of numeric characters:
/// a value for a non-empty run of ASCII digits that fits in `u32`, nothing otherwise.
pub open spec fn parse_u32(s: Seq<char>) -> Option<u32> {
    if s.len() > 0 && all_ascii_digits(s) && decimal_value(s) <= u32::MAX {
        Some(decimal_value(s) as u32)
    } else {
        None
    }
}

pub open spec fn parsed_value(s: Seq<char>) -> Seq<u32> {
    match parse_u32(s) {
        Some(v) => seq![v],
        None => Seq::empty(),
    }
}

/// The values of the pieces that parse, in order.
pub open spec fn parsed_numbers(pieces: Seq<Seq<char>>) -> Seq<u32>
    decreases pieces.len(),
{
    if pieces.len() == 0 {
        Seq::empty()
    } else {
        parsed_numbers(pieces.drop_last()) + parsed_value(pieces.last())
    }
}

/// The version text once surrounding whitespace and a leading `v` or `V` are gone.
pub open spec fn cleaned_version(v: Seq<char>) -> Seq<char> {
    strip_leading(strip_leading(trim_ws(v), 'v'), 'V')
}

/// The numbers of a version string: its cleaned text split at separators,
/// keeping the pieces that parse as `u32`.
pub open spec fn version_numbers(v: Seq<char>) -> Seq<u32> {
    parsed_numbers(split_by(cleaned_version(v), version_separator()))
}

/// The `i`-th number of a version, a missing one counting as 0.
pub open spec fn component(parts: Seq<u32>, i: int) -> u32 {
    if 0 <= i < parts.len() {
        parts[i]
    } else {
        0
    }
}

pub open spec fn max_len(a: Seq<u32>, b: Seq<u32>) -> int {
    if a.len() >= b.len() {
        a.len() as int
    } else {
        b.len() as int
    }
}

/// `latest` is newer than `current`: at the first position where their numbers
/// differ (missing ones counting as 0), `latest` has the larger one.
pub open spec fn is_newer_parts(latest: Seq<u32>, current: Seq<u32>) -> bool {
    exists|k: int|
        #![trigger component(latest, k), component(current, k)]
        0 <= k < max_len(latest, current) && component(latest, k) > component(current, k) && (
        forall|j: int| 0 <= j < k ==> component(latest, j) == component(current, j))
}

/// Two versions name the same release: all their numbers agree, missing ones
/// counting as 0.
pub open spec fn same_release(a: Seq<u32>, b: Seq<u32>) -> bool {
    forall|i: int| #![trigger component(a, i)] #![trigger component(b, i)]
        component(a, i) == component(b, i)
}

proof fn lemma_decimal_value_grows(s: Seq<char>, c: char)
    requires
        is_ascii_digit(c),
    ensures
        decimal_value(s.push(c)) == decimal_value(s) * 10 + digit_value(c),
        decimal_value(s.push(c)) >= decimal_value(s),
{
    assert(s.push(c).drop_last() =~= s);
}

/// The numbers of a version string: it is trimmed, stripped of a leading `v`
/// and then of a leading `V`, split at `.`, `-` and every non-numeric
/// character, and each piece that parses as a `u32` gives one number.
pub fn parse_version_tuple(v: &str) -> (r: Vec<u32>)
    ensures
        r@ == version_numbers(v@),
{
    let s = chars_of(v);
    let (lo, hi) = trim_bounds(&s);
    let a = skip_leading(&s, lo, hi, 'v');
    let b = skip_leading(&s, a, hi, 'V');
    let ghost clean = s@.subrange(b as int, hi as int);
    assert(clean == cleaned_version(v@));
    let mut out: Vec<u32> = Vec::new();
    let mut cur_len: usize = 0;
    let mut cur_ok: bool = true;
    let mut cur_val: u32 = 0;
    let mut k: usize = b;
    assert(s@.subrange(b as int, b as int) =~= Seq::<char>::empty());
    assert(split_by(Seq::<char>::empty(), version_separator()) == seq![Seq::<char>::empty()]);
    assert(seq![Seq::<char>::empty()].drop_last() =~= Seq::<Seq<char>>::empty());
    while k < hi
        invariant
            b <= k <= hi <= s@.len(),
            cur_len <= k - b,
            ({
                let pieces = split_by(s@.subrange(b as int, k as int), version_separator());
                &&& pieces.len() >= 1
                &&& out@ == parsed_numbers(pieces.drop_last())
                &&& cur_len == pieces.last().len()
                &&& cur_ok == (all_ascii_digits(pieces.last()) && decimal_value(pieces.last())
                    <= u32::MAX)
                &&& cur_ok ==> cur_val == decimal_value(pieces.last())
            }),
        decreases hi - k,
    {
        let ghost prev = s@.subrange(b as int, k as int);
        let ghost pieces = split_by(prev, version_separator());
        let c = s[k];
        let ghost next = s@.subrange(b as int, k + 1);
        assert(next.drop_last() =~= prev);
        assert(next.last() == c);
        if c == '.' || c == '-' || !char_is_numeric(c) {
            assert(is_version_separator(c));
            if cur_ok && cur_len > 0 {
                out.push(cur_val);
            }
            proof {
                let np = split_by(next, version_separator());
                assert(np == pieces.push(Seq::<char>::empty()));
                assert(np.drop_last() =~= pieces);
                assert(pieces =~= pieces.drop_last().push(pieces.last()));
                assert(parsed_numbers(pieces) == parsed_numbers(pieces.drop_last()) + parsed_value(
                    pieces.last(),
                ));
                assert(out@ =~= parsed_numbers(np.drop_last()));
            }
            cur_len = 0;
            cur_ok = true;
            cur_val = 0;
        } else {
            assert(!is_version_separator(c));
            let ghost last = pieces.last();
            proof {
                let np = split_by(next, version_separator());
                assert(np == pieces.update(pieces.len() - 1, last.push(c)));
                assert(np.drop_last() =~= pieces.drop_last());
                assert(np.last() == last.push(c));
            }
            let digit = '0' <= c && c <= '9';
            if digit {
                proof {
                    lemma_decimal_value_grows(last, c);
                }
                let d = (c as u32) - ('0' as u32);
                if cur_ok && cur_val <= (u32::MAX - d) / 10 {
                    assert(cur_val * 10 + d <= u32::MAX) by (nonlinear_arith)
                        requires
                            cur_val <= (u32::MAX - d) / 10,
                            d <= 9,
                    ;
                    cur_val = cur_val * 10 + d;
                } else {
                    if cur_ok {
                        assert(cur_val * 10 + d > u32::MAX) by (nonlinear_arith)
                            requires
                                cur_val > (u32::MAX - d) / 10,
                                d <= 9,
                        ;
                    }
                    cur_ok = false;
                }
                proof {
                    let lp = last.push(c);
                    if all_ascii_digits(last) {
                        assert forall|i: int| 0 <= i < lp.len() implies is_ascii_digit(
                            #[trigger] lp[i],
                        ) by {
                            if i < last.len() {
                                assert(lp[i] == last[i]);
                            }
                        }
                    } else {
                        let j = choose|j: int| 0 <= j < last.len() && !is_ascii_digit(last[j]);
                        assert(lp[j] == last[j]);
                    }
                }
            } else {
                cur_ok = false;
                proof {
                    let lp = last.push(c);
                    assert(lp[lp.len() - 1] == c);
                }
            }
            cur_len = cur_len + 1;
        }
        k = k + 1;
    }
    let ghost pieces = split_by(clean, version_separator());
    assert(s@.subrange(b as int, k as int) == clean);
    if cur_ok && cur_len > 0 {
        out.push(cur_val);
    }
    proof {
        assert(pieces =~= pieces.drop_last().push(pieces.last()));
        assert(out@ =~= parsed_numbers(pieces));
    }
    out
}

/// Whether `latest` names a newer release than `current`: their numbers are
/// compared position by position, a missing number counting as 0, and the
/// first difference decides; equal versions are not newer.
pub fn is_newer_version(latest: &str, current: &str) -> (r: bool)
    ensures
        r == is_newer_parts(version_numbers(latest@), version_numbers(current@)),
{
    let l_parts = parse_version_tuple(latest);
    let c_parts = parse_version_tuple(current);
    let len = if l_parts.len() >= c_parts.len() {
        l_parts.len()
    } else {
        c_parts.len()
    };
    let ghost l = l_parts@;
    let ghost c = c_parts@;
    let mut i: usize = 0;
    while i < len
        invariant
            l == l_parts@,
            c == c_parts@,
            l == version_numbers(latest@),
            c == version_numbers(current@),
            len == max_len(l, c),
            i <= len,
            forall|j: int| 0 <= j < i ==> component(l, j) == component(c, j),
        decreases len - i,
    {
        let l_num = if i < l_parts.len() {
            l_parts[i]
        } else {
            0
        };
        let c_num = if i < c_parts.len() {
            c_parts[i]
        } else {
            0
        };
        assert(l_num == component(l, i as int) && c_num == component(c, i as int));
        if l_num > c_num {
            return true;
        } else if l_num < c_num {
            assert forall|k: int|
                0 <= k < max_len(l, c) && component(l, k) > component(c, k) implies !(forall|j: int|
                0 <= j < k ==> component(l, j) == component(c, j)) by {
                if k > i {
                    assert(component(l, i as int) != component(c, i as int));
                }
            }
            return false;
        }
        i = i + 1;
    }
    false
}

/// The first position where two versions differ decides: a larger number
/// there (a missing one counting as 0) makes the version newer, whatever
/// follows, so a larger patch number with equal major and minor numbers is
/// newer; a smaller one there makes it not newer.
pub proof fn law_first_difference_decides(l: Seq<u32>, c: Seq<u32>, k: int)
    requires
        0 <= k,
        forall|j: int| 0 <= j < k ==> component(l, j) == component(c, j),
    ensures
        component(l, k) > component(c, k) ==> is_newer_parts(l, c),
        component(l, k) < component(c, k) ==> !is_newer_parts(l, c),
{
    if component(l, k) > component(c, k) {
        assert(k < l.len());
        assert(k < max_len(l, c));
    }
    if component(l, k) < component(c, k) && is_newer_parts(l, c) {
        let k2 = choose|k2: int|
            #![trigger component(l, k2), component(c, k2)]
            0 <= k2 < max_len(l, c) && component(l, k2) > component(c, k2) && (forall|j: int|
                0 <= j < k2 ==> component(l, j) == component(c, j));
        if k2 > k {
            assert(component(l, k) == component(c, k));
        }
    }
}

/// No version is newer than itself.
pub proof fn law_newer_irreflexive(v: Seq<u32>)
    ensures
        !is_newer_parts(v, v),
{
}

/// Of two versions, at most one is newer than the other.
pub proof fn law_newer_asymmetric(a: Seq<u32>, b: Seq<u32>)
    ensures
        is_newer_parts(a, b) ==> !is_newer_parts(b, a),
{
    if is_newer_parts(a, b) && is_newer_parts(b, a) {
        let k1 = choose|k: int|
            #![trigger component(a, k), component(b, k)]
            0 <= k < max_len(a, b) && component(a, k) > component(b, k) && (forall|j: int|
                0 <= j < k ==> component(a, j) == component(b, j));
        let k2 = choose|k: int|
            #![trigger component(b, k), component(a, k)]
            0 <= k < max_len(b, a) && component(b, k) > component(a, k) && (forall|j: int|
                0 <= j < k ==> component(b, j) == component(a, j));
        if k1 < k2 {
            assert(component(b, k1) == component(a, k1));
        } else if k2 < k1 {
            assert(component(a, k2) == component(b, k2));
        }
    }
}

/// Newer is transitive: a release newer than one that is newer than a third
/// is newer than the third.
pub proof fn law_newer_transitive(a: Seq<u32>, b: Seq<u32>, c: Seq<u32>)
    requires
        is_newer_parts(a, b),
        is_newer_parts(b, c),
    ensures
        is_newer_parts(a, c),
{
    let k1 = choose|k: int|
        #![trigger component(a, k), component(b, k)]
        0 <= k < max_len(a, b) && component(a, k) > component(b, k) && (forall|j: int|
            0 <= j < k ==> component(a, j) == component(b, j));
    let k2 = choose|k: int|
        #![trigger component(b, k), component(c, k)]
        0 <= k < max_len(b, c) && component(b, k) > component(c, k) && (forall|j: int|
            0 <= j < k ==> component(b, j) == component(c, j));
    let k = if k1 <= k2 {
        k1
    } else {
        k2
    };
    assert(component(a, k) > component(c, k)) by {
        if k1 < k2 {
            assert(component(b, k1) == component(c, k1));
        } else if k2 < k1 {
            assert(component(a, k2) == component(b, k2));
        }
    }
    assert(k < a.len()) by {
        assert(component(a, k) > 0);
    }
    assert forall|j: int| 0 <= j < k implies component(a, j) == component(c, j) by {
        assert(component(a, j) == component(b, j));
        assert(component(b, j) == component(c, j));
    }
}

/// Two versions either name the same release, or exactly one of them is newer.
pub proof fn law_newer_total(a: Seq<u32>, b: Seq<u32>)
    ensures
        is_newer_parts(a, b) || is_newer_parts(b, a) || same_release(a, b),
{
    lemma_first_difference(a, b, 0);
}

proof fn lemma_first_difference(a: Seq<u32>, b: Seq<u32>, i: int)
    requires
        0 <= i,
        forall|j: int| 0 <= j < i ==> component(a, j) == component(b, j),
    ensures
        is_newer_parts(a, b) || is_newer_parts(b, a) || same_release(a, b),
    decreases max_len(a, b) - i,
{
    if i >= max_len(a, b) {
        assert forall|j: int| #![auto] component(a, j) == component(b, j) by {
            if 0 <= j < i {
            }
        }
    } else if component(a, i) > component(b, i) {
    } else if component(a, i) < component(b, i) {
    } else {
        lemma_first_difference(a, b, i + 1);
    }
}

/// Versions that name the same release (such as `1.0` and `1.0.0`) compare
/// alike against every other version, and neither is newer than the other.
pub proof fn law_same_release_compares_alike(a: Seq<u32>, b: Seq<u32>, x: Seq<u32>)
    requires
        same_release(a, b),
    ensures
        is_newer_parts(a, x) == is_newer_parts(b, x),
        is_newer_parts(x, a) == is_newer_parts(x, b),
        !is_newer_parts(a, b),
        !is_newer_parts(b, a),
{
    if is_newer_parts(a, x) {
        let k = choose|k: int|
            #![trigger component(a, k), component(x, k)]
            0 <= k < max_len(a, x) && component(a, k) > component(x, k) && (forall|j: int|
                0 <= j < k ==> component(a, j) == component(x, j));
        assert(component(b, k) > 0);
        assert forall|j: int| 0 <= j < k implies component(b, j) == component(x, j) by {
            assert(component(a, j) == component(x, j));
        }
    }
    if is_newer_parts(b, x) {
        let k = choose|k: int|
            #![trigger component(b, k), component(x, k)]
            0 <= k < max_len(b, x) && component(b, k) > component(x, k) && (forall|j: int|
                0 <= j < k ==> component(b, j) == component(x, j));
        assert(component(a, k) > 0);
        assert forall|j: int| 0 <= j < k implies component(a, j) == component(x, j) by {
            assert(component(b, j) == component(x, j));
        }
    }
    if is_newer_parts(x, a) {
        let k = choose|k: int|
            #![trigger component(x, k), component(a, k)]
            0 <= k < max_len(x, a) && component(x, k) > component(a, k) && (forall|j: int|
                0 <= j < k ==> component(x, j) == component(a, j));
        assert(component(x, k) > component(b, k));
        assert forall|j: int| 0 <= j < k implies component(x, j) == component(b, j) by {
            assert(component(x, j) == component(a, j));
        }
    }
    if is_newer_parts(x, b) {
        let k = choose|k: int|
            #![trigger component(x, k), component(b, k)]
            0 <= k < max_len(x, b) && component(x, k) > component(b, k) && (forall|j: int|
                0 <= j < k ==> component(x, j) == component(b, j));
        assert(component(x, k) > component(a, k));
        assert forall|j: int| 0 <= j < k implies component(x, j) == component(a, j) by {
            assert(component(x, j) == component(b, j));
        }
    }
    if is_newer_parts(a, b) {
        let k = choose|k: int|
            #![trigger component(a, k), component(b, k)]
            0 <= k < max_len(a, b) && component(a, k) > component(b, k) && (forall|j: int|
                0 <= j < k ==> component(a, j) == component(b, j));
    }
    if is_newer_parts(b, a) {
        let k = choose|k: int|
            #![trigger component(b, k), component(a, k)]
            0 <= k < max_len(b, a) && component(b, k) > component(a, k) && (forall|j: int|
                0 <= j < k ==> component(b, j) == component(a, j));
    }
}

proof fn lemma_parsed_numbers_leading_empty(pieces: Seq<Seq<char>>)
    ensures
        parsed_numbers(seq![Seq::<char>::empty()] + pieces) == parsed_numbers(pieces),
    decreases pieces.len(),
{
    let t = seq![Seq::<char>::empty()] + pieces;
    if pieces.len() == 0 {
        assert(t.drop_last() =~= Seq::<Seq<char>>::empty());
        assert(parse_u32(Seq::<char>::empty()) is None);
        assert(t.last() == Seq::<char>::empty());
        assert(parsed_value(t.last()) =~= Seq::<u32>::empty());
        assert(parsed_numbers(Seq::<Seq<char>>::empty()) == Seq::<u32>::empty());
        assert(parsed_numbers(t) =~= parsed_numbers(pieces));
    } else {
        assert(t.drop_last() =~= seq![Seq::<char>::empty()] + pieces.drop_last());
        lemma_parsed_numbers_leading_empty(pieces.drop_last());
        assert(t.last() == pieces.last());
    }
}

proof fn lemma_strip_separators(t: Seq<char>, c: char)
    requires
        is_version_separator(c),
    ensures
        parsed_numbers(split_by(strip_leading(t, c), version_separator())) == parsed_numbers(
            split_by(t, version_separator()),
        ),
    decreases t.len(),
{
    if t.len() > 0 && t[0] == c {
        lemma_strip_separators(t.drop_first(), c);
        assert(t =~= seq![c] + t.drop_first());
        lemma_split_by_leading_separator(c, t.drop_first(), version_separator());
        lemma_parsed_numbers_leading_empty(split_by(t.drop_first(), version_separator()));
    }
}

proof fn lemma_drop_leading_separator(t: Seq<char>)
    requires
        t.len() > 0,
        is_version_separator(t[0]),
    ensures
        parsed_numbers(split_by(t.drop_first(), version_separator())) == parsed_numbers(
            split_by(t, version_separator()),
        ),
{
    assert(t =~= seq![t[0]] + t.drop_first());
    lemma_split_by_leading_separator(t[0], t.drop_first(), version_separator());
    lemma_parsed_numbers_leading_empty(split_by(t.drop_first(), version_separator()));
}

proof fn lemma_drop_trailing_separator(t: Seq<char>)
    requires
        t.len() > 0,
        is_version_separator(t.last()),
    ensures
        parsed_numbers(split_by(t.drop_last(), version_separator())) == parsed_numbers(
            split_by(t, version_separator()),
        ),
{
    let p = split_by(t.drop_last(), version_separator());
    let q = p.push(Seq::<char>::empty());
    assert(split_by(t, version_separator()) == q);
    assert(q.drop_last() =~= p);
    assert(parse_u32(Seq::<char>::empty()) is None);
    assert(parsed_value(q.last()) =~= Seq::<u32>::empty());
    assert(parsed_numbers(q) =~= parsed_numbers(p));
}

proof fn lemma_trim_start_immaterial(t: Seq<char>)
    ensures
        parsed_numbers(split_by(trim_start_ws(t), version_separator())) == parsed_numbers(
            split_by(t, version_separator()),
        ),
    decreases t.len(),
{
    if t.len() > 0 && is_whitespace_char(t[0]) {
        lemma_trim_start_immaterial(t.drop_first());
        lemma_drop_leading_separator(t);
    }
}

proof fn lemma_trim_end_immaterial(t: Seq<char>)
    ensures
        parsed_numbers(split_by(trim_end_ws(t), version_separator())) == parsed_numbers(
            split_by(t, version_separator()),
        ),
    decreases t.len(),
{
    if t.len() > 0 && is_whitespace_char(t.last()) {
        lemma_trim_end_immaterial(t.drop_last());
        lemma_drop_trailing_separator(t);
    }
}

/// Surrounding whitespace and a leading `v` or `V` never change the numbers of
/// a version: they separate numbers anyway, so `v1.2`, ` 1.2 ` and `1.2` hold
/// the same numbers. Only `.`, `-` and other non-numeric characters between
/// the numbers matter.
pub proof fn law_cleaning_immaterial(v: Seq<char>)
    ensures
        version_numbers(v) == parsed_numbers(split_by(v, version_separator())),
{
    assert(is_version_separator('v'));
    assert(is_version_separator('V'));
    lemma_strip_separators(strip_leading(trim_ws(v), 'v'), 'V');
    lemma_strip_separators(trim_ws(v), 'v');
    lemma_trim_end_immaterial(trim_start_ws(v));
    lemma_trim_start_immaterial(v);
}

} // verus!
