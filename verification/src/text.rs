//! Character classification and splitting of text, as `str` and `char` do it.

use vstd::prelude::*;

verus! {

/// Whether a character above U+007F has a numeric general category (Nd, Nl, No).
pub uninterp spec fn unicode_numeric(c: char) -> bool;

/// The Unicode `White_Space` property: `\t`..=`\r`, space, U+0085, U+00A0,
/// U+1680, U+2000..=U+200A, U+2028, U+2029, U+202F, U+205F and U+3000.
pub open spec fn is_whitespace_char(c: char) -> bool {
    let u = c as u32;
    ||| 0x09 <= u <= 0x0d
    ||| u == 0x20
    ||| u == 0x85
    ||| u == 0xa0
    ||| u == 0x1680
    ||| 0x2000 <= u <= 0x200a
    ||| u == 0x2028
    ||| u == 0x2029
    ||| u == 0x202f
    ||| u == 0x205f
    ||| u == 0x3000
}

/// `char::is_numeric`: ASCII digits among ASCII characters; above, the
/// Unicode numeric categories, which hold no `White_Space` character (those
/// are of the categories Zs, Zl, Zp and Cc).
pub open spec fn is_numeric_char(c: char) -> bool {
    if (c as u32) <= 0x7f {
        '0' <= c && c <= '9'
    } else if is_whitespace_char(c) {
        false
    } else {
        unicode_numeric(c)
    }
}

/// Calls `char::is_numeric`, whose std implementation answers `'0'..='9'` for
/// ASCII characters and looks the Unicode numeric categories (Nd, Nl, No) up
/// for the others; no `White_Space` character is in them.
#[verifier::external_body]
pub(crate) fn char_is_numeric(c: char) -> (r: bool)
    ensures
        r == is_numeric_char(c),
        (c as u32) > 0x7f && !is_whitespace_char(c) ==> r == unicode_numeric(c),
{
    c.is_numeric()
}

/// `char::is_whitespace`: whether `c` has the Unicode `White_Space` property.
pub fn char_is_whitespace(c: char) -> (r: bool)
    ensures
        r == is_whitespace_char(c),
{
    let u = c as u32;
    (0x09 <= u && u <= 0x0d) || u == 0x20 || u == 0x85 || u == 0xa0 || u == 0x1680 || (0x2000
        <= u && u <= 0x200a) || u == 0x2028 || u == 0x2029 || u == 0x202f || u == 0x205f || u
        == 0x3000
}

/// The characters of a string slice, in order.
pub fn chars_of(s: &str) -> (v: Vec<char>)
    ensures
        v@ == s@,
{
    let mut v: Vec<char> = Vec::new();
    for c in it: s.chars()
        invariant
            v@ == it.seq().take(it.index()),
    {
        v.push(c);
    }
    v
}

/// The pieces of `s` between the characters that satisfy `sep`, empty pieces
/// included, as `str::split` with a character predicate gives them: one more
/// piece than there are separators.
pub open spec fn split_by(s: Seq<char>, sep: spec_fn(char) -> bool) -> Seq<Seq<char>>
    decreases s.len(),
{
    if s.len() == 0 {
        seq![Seq::<char>::empty()]
    } else {
        let init = split_by(s.drop_last(), sep);
        if sep(s.last()) {
            init.push(Seq::<char>::empty())
        } else {
            init.update(init.len() - 1, init.last().push(s.last()))
        }
    }
}

pub proof fn lemma_split_by_nonempty(s: Seq<char>, sep: spec_fn(char) -> bool)
    ensures
        split_by(s, sep).len() >= 1,
    decreases s.len(),
{
    if s.len() > 0 {
        lemma_split_by_nonempty(s.drop_last(), sep);
    }
}

/// A separator in front adds one empty piece in front.
pub proof fn lemma_split_by_leading_separator(c: char, s: Seq<char>, sep: spec_fn(char) -> bool)
    requires
        sep(c),
    ensures
        split_by(seq![c] + s, sep) == seq![Seq::<char>::empty()] + split_by(s, sep),
    decreases s.len(),
{
    let t = seq![c] + s;
    if s.len() == 0 {
        assert(t.drop_last() =~= Seq::<char>::empty());
        assert(t.last() == c);
        assert(split_by(Seq::<char>::empty(), sep) == seq![Seq::<char>::empty()]);
        assert(split_by(t, sep) =~= seq![Seq::<char>::empty()] + split_by(s, sep));
    } else {
        assert(t.drop_last() =~= seq![c] + s.drop_last());
        lemma_split_by_leading_separator(c, s.drop_last(), sep);
        lemma_split_by_nonempty(s.drop_last(), sep);
        let rest = split_by(s.drop_last(), sep);
        if sep(s.last()) {
            assert(split_by(t, sep) =~= seq![Seq::<char>::empty()] + split_by(s, sep));
        } else {
            let rt = seq![Seq::<char>::empty()] + rest;
            assert(t.last() == s.last());
            assert(rt.last() == rest.last());
            assert(rt.update(rt.len() - 1, rt.last().push(s.last())) =~= seq![
                Seq::<char>::empty(),
            ] + rest.update(rest.len() - 1, rest.last().push(s.last())));
        }
    }
}

/// `s` without its leading whitespace (`str::trim_start`).
pub open spec fn trim_start_ws(s: Seq<char>) -> Seq<char>
    decreases s.len(),
{
    if s.len() > 0 && is_whitespace_char(s[0]) {
        trim_start_ws(s.drop_first())
    } else {
        s
    }
}

/// `s` without its trailing whitespace (`str::trim_end`).
pub open spec fn trim_end_ws(s: Seq<char>) -> Seq<char>
    decreases s.len(),
{
    if s.len() > 0 && is_whitespace_char(s.last()) {
        trim_end_ws(s.drop_last())
    } else {
        s
    }
}

/// `s` without leading and trailing whitespace (`str::trim`).
pub open spec fn trim_ws(s: Seq<char>) -> Seq<char> {
    trim_end_ws(trim_start_ws(s))
}

/// `s` without the leading repetitions of `c` (`str::trim_start_matches(c)`).
pub open spec fn strip_leading(s: Seq<char>, c: char) -> Seq<char>
    decreases s.len(),
{
    if s.len() > 0 && s[0] == c {
        strip_leading(s.drop_first(), c)
    } else {
        s
    }
}

/// The bounds of `s[lo..hi]` once leading and trailing whitespace is removed.
pub fn trim_bounds(s: &Vec<char>) -> (r: (usize, usize))
    ensures
        r.0 <= r.1 <= s@.len(),
        s@.subrange(r.0 as int, r.1 as int) == trim_ws(s@),
{
    let n = s.len();
    let mut lo: usize = 0;
    assert(s@.subrange(0, n as int) =~= s@);
    while lo < n && char_is_whitespace(s[lo])
        invariant
            lo <= n == s@.len(),
            trim_start_ws(s@) == trim_start_ws(s@.subrange(lo as int, n as int)),
        decreases n - lo,
    {
        assert(s@.subrange(lo as int, n as int).drop_first() =~= s@.subrange(lo + 1, n as int));
        lo = lo + 1;
    }
    let mut hi: usize = n;
    while hi > lo && char_is_whitespace(s[hi - 1])
        invariant
            lo <= hi <= n == s@.len(),
            trim_ws(s@) == trim_end_ws(s@.subrange(lo as int, hi as int)),
            lo < n ==> !is_whitespace_char(s@[lo as int]),
            trim_start_ws(s@) == s@.subrange(lo as int, n as int),
        decreases hi - lo,
    {
        assert(s@.subrange(lo as int, hi as int).drop_last() =~= s@.subrange(lo as int, hi - 1));
        hi = hi - 1;
    }
    (lo, hi)
}

/// The first index at or after `lo` (and before `hi`) whose character is not `c`.
pub fn skip_leading(s: &Vec<char>, lo: usize, hi: usize, c: char) -> (r: usize)
    requires
        lo <= hi <= s@.len(),
    ensures
        lo <= r <= hi,
        s@.subrange(r as int, hi as int) == strip_leading(s@.subrange(lo as int, hi as int), c),
{
    let mut i = lo;
    while i < hi && s[i] == c
        invariant
            lo <= i <= hi <= s@.len(),
            strip_leading(s@.subrange(lo as int, hi as int), c) == strip_leading(
                s@.subrange(i as int, hi as int),
                c,
            ),
        decreases hi - i,
    {
        assert(s@.subrange(i as int, hi as int).drop_first() =~= s@.subrange(i + 1, hi as int));
        i = i + 1;
    }
    i
}

/// The separators that this crate splits text at.
#[derive(Clone, Copy, Debug, PartialEq, Eq)]
pub enum Separator {
    /// `char::is_whitespace`.
    Whitespace,
    /// One given character.
    Char(char),
}

pub open spec fn is_separator(sep: Separator, c: char) -> bool {
    match sep {
        Separator::Whitespace => is_whitespace_char(c),
        Separator::Char(d) => c == d,
    }
}

pub open spec fn separator_fn(sep: Separator) -> spec_fn(char) -> bool {
    |c: char| is_separator(sep, c)
}

fn separates(sep: Separator, c: char) -> (r: bool)
    ensures
        r == is_separator(sep, c),
{
    match sep {
        Separator::Whitespace => char_is_whitespace(c),
        Separator::Char(d) => c == d,
    }
}

pub open spec fn views_of(v: Seq<Vec<char>>) -> Seq<Seq<char>> {
    v.map_values(|p: Vec<char>| p@)
}

/// The pieces of `s` between separators, empty ones included (`str::split`).
pub fn split_pieces(s: &Vec<char>, sep: Separator) -> (r: Vec<Vec<char>>)
    ensures
        views_of(r@) == split_by(s@, separator_fn(sep)),
{
    let mut done: Vec<Vec<char>> = Vec::new();
    let mut cur: Vec<char> = Vec::new();
    let mut k: usize = 0;
    assert(s@.subrange(0, 0) =~= Seq::<char>::empty());
    assert(views_of(done@) =~= split_by(Seq::<char>::empty(), separator_fn(sep)).drop_last());
    while k < s.len()
        invariant
            k <= s@.len(),
            ({
                let pieces = split_by(s@.subrange(0, k as int), separator_fn(sep));
                &&& pieces.len() >= 1
                &&& views_of(done@) == pieces.drop_last()
                &&& cur@ == pieces.last()
            }),
        decreases s@.len() - k,
    {
        let ghost prev = s@.subrange(0, k as int);
        let ghost pieces = split_by(prev, separator_fn(sep));
        let c = s[k];
        let ghost next = s@.subrange(0, k + 1);
        assert(next.drop_last() =~= prev);
        assert(next.last() == c);
        if separates(sep, c) {
            let ghost old_done = done@;
            let piece = cur;
            let ghost pv = piece@;
            done.push(piece);
            cur = Vec::new();
            proof {
                let np = split_by(next, separator_fn(sep));
                assert(np == pieces.push(Seq::<char>::empty()));
                assert(done@ == old_done.push(done@.last()));
                assert(views_of(done@) =~= views_of(old_done).push(pv));
                assert(pieces =~= pieces.drop_last().push(pieces.last()));
                assert(views_of(done@) =~= np.drop_last());
            }
        } else {
            cur.push(c);
            proof {
                let np = split_by(next, separator_fn(sep));
                assert(np == pieces.update(pieces.len() - 1, pieces.last().push(c)));
                assert(views_of(done@) =~= np.drop_last());
            }
        }
        k = k + 1;
    }
    let ghost pieces = split_by(s@, separator_fn(sep));
    assert(s@.subrange(0, k as int) =~= s@);
    let ghost old_done = done@;
    let ghost pv = cur@;
    done.push(cur);
    assert(views_of(done@) =~= views_of(old_done).push(pv));
    assert(pieces =~= pieces.drop_last().push(pieces.last()));
    assert(views_of(done@) =~= pieces);
    done
}

/// The non-empty pieces, in order.
pub open spec fn nonempty_pieces(pieces: Seq<Seq<char>>) -> Seq<Seq<char>>
    decreases pieces.len(),
{
    if pieces.len() == 0 {
        Seq::empty()
    } else if pieces.last().len() > 0 {
        nonempty_pieces(pieces.drop_last()).push(pieces.last())
    } else {
        nonempty_pieces(pieces.drop_last())
    }
}

/// The words of `s`: its non-empty pieces between whitespace (`str::split_whitespace`).
pub open spec fn words(s: Seq<char>) -> Seq<Seq<char>> {
    nonempty_pieces(split_by(s, separator_fn(Separator::Whitespace)))
}

/// The non-empty pieces among `pieces`.
pub fn keep_nonempty(pieces: Vec<Vec<char>>) -> (r: Vec<Vec<char>>)
    ensures
        views_of(r@) == nonempty_pieces(views_of(pieces@)),
{
    let mut out: Vec<Vec<char>> = Vec::new();
    let n = pieces.len();
    let mut pieces = pieces;
    let ghost all = views_of(pieces@);
    let mut taken: Vec<Vec<char>> = Vec::new();
    let mut i: usize = 0;
    assert(all.take(0) =~= Seq::<Seq<char>>::empty());
    while i < n
        invariant
            n == pieces@.len(),
            all == views_of(pieces@),
            i <= n,
            views_of(out@) == nonempty_pieces(all.take(i as int)),
        decreases n - i,
    {
        let p = pieces[i].clone();
        assert(all.take(i + 1).drop_last() =~= all.take(i as int));
        assert(all.take(i + 1).last() == all[i as int]);
        if p.len() > 0 {
            out.push(p);
            assert(views_of(out@) =~= nonempty_pieces(all.take(i as int)).push(all[i as int]));
        }
        i = i + 1;
    }
    assert(all.take(n as int) =~= all);
    out
}

/// Calls `String::push`, which appends one character.
#[verifier::external_body]
pub(crate) fn push_char(s: &mut String, c: char)
    ensures
        final(s)@ == old(s)@.push(c),
{
    s.push(c);
}

/// A `String` holding the given characters.
pub fn string_from_chars(v: &Vec<char>) -> (r: String)
    ensures
        r@ == v@,
{
    let mut s = String::new();
    let mut i: usize = 0;
    while i < v.len()
        invariant
            i <= v@.len(),
            s@ == v@.take(i as int),
        decreases v@.len() - i,
    {
        push_char(&mut s, v[i]);
        assert(v@.take(i + 1) =~= v@.take(i as int).push(v@[i as int]));
        i = i + 1;
    }
    assert(v@.take(v@.len() as int) =~= v@);
    s
}

/// Whether two strings hold the same characters.
pub fn str_eq(a: &str, b: &str) -> (r: bool)
    ensures
        r == (a@ == b@),
{
    let x = chars_of(a);
    let y = chars_of(b);
    if x.len() != y.len() {
        return false;
    }
    let mut i: usize = 0;
    while i < x.len()
        invariant
            x@ == a@,
            y@ == b@,
            x@.len() == y@.len(),
            i <= x@.len(),
            forall|j: int| 0 <= j < i ==> x@[j] == y@[j],
        decreases x@.len() - i,
    {
        if x[i] != y[i] {
            return false;
        }
        i = i + 1;
    }
    assert(x@ =~= y@);
    true
}

/// Whether `s` ends with `suffix`.
pub open spec fn has_suffix(s: Seq<char>, suffix: Seq<char>) -> bool {
    suffix.len() <= s.len() && s.subrange(s.len() - suffix.len(), s.len() as int) == suffix
}

/// `str::ends_with` with a string pattern.
pub fn ends_with(s: &str, suffix: &str) -> (r: bool)
    ensures
        r == has_suffix(s@, suffix@),
{
    let x = chars_of(s);
    let y = chars_of(suffix);
    if y.len() > x.len() {
        return false;
    }
    let xl = x.len();
    let off = xl - y.len();
    let mut i: usize = 0;
    while i < y.len()
        invariant
            x@ == s@,
            y@ == suffix@,
            off + y@.len() == x@.len(),
            xl == x@.len(),
            i <= y@.len(),
            forall|j: int| 0 <= j < i ==> x@[off + j] == y@[j],
        decreases y@.len() - i,
    {
        if x[off + i] != y[i] {
            assert(x@.subrange(off as int, x@.len() as int)[i as int] != y@[i as int]);
            return false;
        }
        i = i + 1;
    }
    assert(x@.subrange(off as int, x@.len() as int) =~= y@);
    true
}

/// The decimal digits of `n`, without leading zeros.
pub open spec fn decimal_digits(n: nat) -> Seq<char>
    decreases n,
{
    if n < 10 {
        seq![digit_char(n)]
    } else {
        decimal_digits(n / 10).push(digit_char(n % 10))
    }
}

pub open spec fn digit_char(d: nat) -> char {
    ((d + ('0' as nat)) as u32) as char
}

fn digit(d: u64) -> (c: char)
    requires
        d < 10,
    ensures
        c == digit_char(d as nat),
{
    match d {
        0 => '0',
        1 => '1',
        2 => '2',
        3 => '3',
        4 => '4',
        5 => '5',
        6 => '6',
        7 => '7',
        8 => '8',
        _ => '9',
    }
}

/// Appends the decimal form of `n` (as `{}` formats an integer).
pub fn push_decimal(s: &mut String, n: u64)
    ensures
        final(s)@ == old(s)@ + decimal_digits(n as nat),
    decreases n,
{
    if n >= 10 {
        push_decimal(s, n / 10);
    }
    push_char(s, digit(n % 10));
    proof {
        if n < 10 {
            assert(n % 10 == n);
        }
    }
}

/// A `String` holding `s[lo..hi]`.
pub fn substring(s: &Vec<char>, lo: usize, hi: usize) -> (r: String)
    requires
        lo <= hi <= s@.len(),
    ensures
        r@ == s@.subrange(lo as int, hi as int),
{
    let mut out = String::new();
    let mut i: usize = lo;
    while i < hi
        invariant
            lo <= i <= hi <= s@.len(),
            out@ == s@.subrange(lo as int, i as int),
        decreases hi - i,
    {
        push_char(&mut out, s[i]);
        assert(s@.subrange(lo as int, i + 1) =~= s@.subrange(lo as int, i as int).push(
            s@[i as int],
        ));
        i = i + 1;
    }
    out
}

/// The pieces joined with `c` between them (`[String]::join`).
pub open spec fn join_with(pieces: Seq<Seq<char>>, c: char) -> Seq<char>
    decreases pieces.len(),
{
    if pieces.len() == 0 {
        Seq::empty()
    } else if pieces.len() == 1 {
        pieces[0]
    } else {
        join_with(pieces.drop_last(), c).push(c) + pieces.last()
    }
}

/// Splitting at a character and joining the pieces with it gives the text
/// back: no character is lost or added, so a list kept as comma-separated
/// text (such as `SCOPES`) splits into exactly its entries, in order.
pub proof fn law_split_then_join(s: Seq<char>, c: char)
    ensures
        join_with(split_by(s, separator_fn(Separator::Char(c))), c) == s,
    decreases s.len(),
{
    let sep = separator_fn(Separator::Char(c));
    if s.len() == 0 {
        assert(split_by(s, sep) == seq![Seq::<char>::empty()]);
        assert(join_with(seq![Seq::<char>::empty()], c) == Seq::<char>::empty());
        assert(s =~= Seq::<char>::empty());
    } else {
        let init = s.drop_last();
        law_split_then_join(init, c);
        lemma_split_by_nonempty(init, sep);
        let p = split_by(init, sep);
        let x = s.last();
        if x == c {
            let q = p.push(Seq::<char>::empty());
            assert(q.drop_last() =~= p);
            assert(join_with(q, c) == join_with(p, c).push(c) + Seq::<char>::empty());
            assert(s =~= init.push(c));
        } else {
            let q = p.update(p.len() - 1, p.last().push(x));
            if p.len() == 1 {
                assert(join_with(q, c) == q[0]);
                assert(join_with(p, c) == p[0]);
            } else {
                assert(q.drop_last() =~= p.drop_last());
                assert(q.last() == p.last().push(x));
                assert(join_with(q, c) == join_with(p.drop_last(), c).push(c) + p.last().push(x));
                assert(join_with(p, c) == join_with(p.drop_last(), c).push(c) + p.last());
                assert(join_with(p.drop_last(), c).push(c) + p.last().push(x) =~= (join_with(
                    p.drop_last(),
                    c,
                ).push(c) + p.last()).push(x));
            }
            assert(s =~= init.push(x));
        }
    }
}

} // verus!
