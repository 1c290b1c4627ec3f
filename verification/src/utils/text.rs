//! Text primitives with the semantics of the `str` methods the tool relies
//! on (`lines`, `trim`, `split_whitespace`, `contains`, `split`, `replace`,
//! integer parsing and formatting), stated over `Seq<char>`.
use vstd::prelude::*;

verus! {

/// The characters of `s`, in order, read through `str::chars`.
pub(crate) fn str_chars(s: &str) -> (r: Vec<char>)
    ensures
        r@ == s@,
{
    broadcast use vstd::string::axiom_spec_iter;

    let mut r: Vec<char> = Vec::new();
    for c in it: s.chars()
        invariant
            r@ == it.seq().take(it.index() as int),
    {
        r.push(c);
    }
    r
}

/// Appends one character (`String::push`).
#[verifier::external_body]
pub(crate) fn string_push(s: &mut String, c: char)
    ensures
        final(s)@ == old(s)@.push(c),
{
    s.push(c)
}

/// `p` occurs in `s` at offset `i`.
pub open spec fn match_at(s: Seq<char>, p: Seq<char>, i: int) -> bool {
    0 <= i && i + p.len() <= s.len() && s.subrange(i, i + p.len()) == p
}

/// Leftmost occurrence of `p` in `s` at or after `i`.
pub open spec fn find_from(s: Seq<char>, p: Seq<char>, i: int) -> Option<int>
    decreases s.len() + 1 - i,
{
    if i < 0 || i + p.len() > s.len() {
        None
    } else if match_at(s, p, i) {
        Some(i)
    } else {
        find_from(s, p, i + 1)
    }
}

/// Leftmost occurrence of `p` in `s` (`str::find`).
pub open spec fn find(s: Seq<char>, p: Seq<char>) -> Option<int> {
    find_from(s, p, 0)
}

/// `str::contains`.
pub open spec fn contains(s: Seq<char>, p: Seq<char>) -> bool {
    find(s, p) is Some
}

pub proof fn lemma_find_from(s: Seq<char>, p: Seq<char>, i: int)
    requires
        0 <= i,
    ensures
        find_from(s, p, i) matches Some(k) ==> i <= k && match_at(s, p, k) && forall|j: int|
            i <= j < k ==> !match_at(s, p, j),
        find_from(s, p, i) is None ==> forall|j: int| i <= j ==> !match_at(s, p, j),
    decreases s.len() + 1 - i,
{
    if i + p.len() > s.len() {
    } else if match_at(s, p, i) {
    } else {
        lemma_find_from(s, p, i + 1);
    }
}

/// The first match at or after `i`, when all offsets in between fail, is what `find_from` gives.
pub proof fn lemma_find_from_first(s: Seq<char>, p: Seq<char>, i: int, k: int)
    requires
        0 <= i <= k,
        match_at(s, p, k),
        forall|j: int| i <= j < k ==> !match_at(s, p, j),
    ensures
        find_from(s, p, i) == Some(k),
    decreases k - i,
{
    if i < k {
        lemma_find_from_first(s, p, i + 1, k);
    }
}

pub proof fn lemma_find_from_none(s: Seq<char>, p: Seq<char>, i: int)
    requires
        0 <= i,
        forall|j: int| i <= j ==> !match_at(s, p, j),
    ensures
        find_from(s, p, i) is None,
    decreases s.len() + 1 - i,
{
    if i + p.len() <= s.len() {
        lemma_find_from_none(s, p, i + 1);
    }
}

/// Whether `v[i..i + p.len()]` equals `p`.
pub fn eq_at(v: &Vec<char>, i: usize, p: &Vec<char>) -> (r: bool)
    requires
        i + p.len() <= v.len(),
    ensures
        r == (v@.subrange(i as int, i + p.len()) == p@),
{
    let mut k: usize = 0;
    while k < p.len()
        invariant
            i + p.len() <= v.len(),
            k <= p.len(),
            forall|j: int| 0 <= j < k ==> v@[i + j] == p@[j],
        decreases p.len() - k,
    {
        if v[i + k] != p[k] {
            assert(v@.subrange(i as int, i + p.len())[k as int] != p@[k as int]);
            return false;
        }
        k = k + 1;
    }
    assert(v@.subrange(i as int, i + p.len()) =~= p@);
    true
}

/// Leftmost occurrence of `p` inside `v[a..b]`, as an absolute index.
pub fn find_in(v: &Vec<char>, a: usize, b: usize, p: &Vec<char>) -> (r: Option<usize>)
    requires
        a <= b <= v.len(),
    ensures
        match r {
            Some(j) => a <= j && find(v@.subrange(a as int, b as int), p@) == Some(j - a),
            None => find(v@.subrange(a as int, b as int), p@) is None,
        },
{
    let ghost s = v@.subrange(a as int, b as int);
    if p.len() > b - a {
        proof {
            assert forall|j: int| 0 <= j implies !match_at(s, p@, j) by {}
            lemma_find_from_none(s, p@, 0);
        }
        return None;
    }
    if p.len() == 0 {
        proof {
            assert(s.subrange(0, 0) =~= p@);
            lemma_find_from_first(s, p@, 0, 0);
        }
        return Some(a);
    }
    let last = b - p.len();
    let mut i: usize = a;
    while i <= last
        invariant
            a <= i,
            a <= b <= v.len(),
            1 <= p.len() <= b - a,
            last == b - p.len(),
            s == v@.subrange(a as int, b as int),
            forall|j: int| 0 <= j < i - a ==> !match_at(s, p@, j),
        decreases last + 1 - i,
    {
        if eq_at(v, i, p) {
            proof {
                assert(s.subrange(i - a, i - a + p.len()) =~= v@.subrange(i as int, i + p.len()));
                lemma_find_from_first(s, p@, 0, i - a);
            }
            return Some(i);
        }
        proof {
            assert(s.subrange(i - a, i - a + p.len()) =~= v@.subrange(i as int, i + p.len()));
        }
        i = i + 1;
    }
    proof {
        assert forall|j: int| 0 <= j implies !match_at(s, p@, j) by {}
        lemma_find_from_none(s, p@, 0);
    }
    None
}

/// Appends `v[a..b]` to `s`.
pub fn push_range(s: &mut String, v: &Vec<char>, a: usize, b: usize)
    requires
        a <= b <= v.len(),
    ensures
        final(s)@ == old(s)@ + v@.subrange(a as int, b as int),
{
    let mut i: usize = a;
    while i < b
        invariant
            a <= i <= b <= v.len(),
            s@ == old(s)@ + v@.subrange(a as int, i as int),
        decreases b - i,
    {
        string_push(s, v[i]);
        assert(v@.subrange(a as int, i + 1) =~= v@.subrange(a as int, i as int).push(v@[i as int]));
        i = i + 1;
    }
}

/// `v[a..b]` as a new string.
pub fn substring(v: &Vec<char>, a: usize, b: usize) -> (r: String)
    requires
        a <= b <= v.len(),
    ensures
        r@ == v@.subrange(a as int, b as int),
{
    let mut r = String::new();
    push_range(&mut r, v, a, b);
    assert(r@ =~= v@.subrange(a as int, b as int));
    r
}

/// Appends all of `v` to `s`.
pub fn push_chars(s: &mut String, v: &Vec<char>)
    ensures
        final(s)@ == old(s)@ + v@,
{
    push_range(s, v, 0, v.len());
    assert(v@.subrange(0, v.len() as int) =~= v@);
}

/// `char::is_whitespace`: the Unicode `White_Space` property.
pub open spec fn is_ws(c: char) -> bool {
    let n = c as u32;
    (0x9 <= n && n <= 0xd) || n == 0x20 || n == 0x85 || n == 0xa0 || n == 0x1680 || (0x2000 <= n
        && n <= 0x200a) || n == 0x2028 || n == 0x2029 || n == 0x202f || n == 0x205f || n == 0x3000
}

pub fn is_whitespace(c: char) -> (r: bool)
    ensures
        r == is_ws(c),
{
    let n = c as u32;
    (0x9 <= n && n <= 0xd) || n == 0x20 || n == 0x85 || n == 0xa0 || n == 0x1680 || (0x2000 <= n
        && n <= 0x200a) || n == 0x2028 || n == 0x2029 || n == 0x202f || n == 0x205f || n == 0x3000
}

/// `str::trim_start`.
pub open spec fn trim_start(s: Seq<char>) -> Seq<char>
    decreases s.len(),
{
    if s.len() > 0 && is_ws(s[0]) {
        trim_start(s.drop_first())
    } else {
        s
    }
}

/// `str::trim_end`.
pub open spec fn trim_end(s: Seq<char>) -> Seq<char>
    decreases s.len(),
{
    if s.len() > 0 && is_ws(s.last()) {
        trim_end(s.drop_last())
    } else {
        s
    }
}

/// `str::trim`.
pub open spec fn trim(s: Seq<char>) -> Seq<char> {
    trim_end(trim_start(s))
}

/// Bounds of `trim(v[a..b])` inside `v`.
pub fn trim_range(v: &Vec<char>, a: usize, b: usize) -> (r: (usize, usize))
    requires
        a <= b <= v.len(),
    ensures
        a <= r.0 <= r.1 <= b,
        v@.subrange(r.0 as int, r.1 as int) == trim(v@.subrange(a as int, b as int)),
{
    let mut i: usize = a;
    while i < b && is_whitespace(v[i])
        invariant
            a <= i <= b <= v.len(),
            trim_start(v@.subrange(a as int, b as int)) == trim_start(v@.subrange(i as int, b as int)),
        decreases b - i,
    {
        assert(v@.subrange(i as int, b as int).drop_first() =~= v@.subrange(i + 1, b as int));
        i = i + 1;
    }
    let ghost t = v@.subrange(i as int, b as int);
    assert(trim_start(t) == t);
    let mut j: usize = b;
    while j > i && is_whitespace(v[j - 1])
        invariant
            a <= i <= j <= b <= v.len(),
            trim_end(t) == trim_end(v@.subrange(i as int, j as int)),
            t == v@.subrange(i as int, b as int),
        decreases j,
    {
        assert(v@.subrange(i as int, j as int).drop_last() =~= v@.subrange(i as int, j - 1));
        j = j - 1;
    }
    (i, j)
}

/// `s.trim()` as a new string.
pub fn trim_str(s: &str) -> (r: String)
    ensures
        r@ == trim(s@),
{
    let v = str_chars(s);
    let (a, b) = trim_range(&v, 0, v.len());
    assert(v@.subrange(0, v.len() as int) =~= s@);
    substring(&v, a, b)
}

/// Removes one trailing `'\r'`.
pub open spec fn strip_cr(s: Seq<char>) -> Seq<char> {
    if s.len() > 0 && s.last() == '\r' {
        s.drop_last()
    } else {
        s
    }
}

/// `str::lines`: split at `'\n'`, drop a `'\r'` right before each `'\n'`,
/// and no empty last line after a final `'\n'`.
pub open spec fn lines(s: Seq<char>) -> Seq<Seq<char>>
    decreases s.len(),
{
    if s.len() == 0 {
        seq![]
    } else {
        match find(s, seq!['\n']) {
            Some(i) => if 0 <= i < s.len() {
                seq![strip_cr(s.take(i))] + lines(s.skip(i + 1))
            } else {
                seq![s]
            },
            None => seq![s],
        }
    }
}

pub proof fn lemma_match_char(s: Seq<char>, c: char, i: int)
    requires
        0 <= i < s.len(),
    ensures
        match_at(s, seq![c], i) == (s[i] == c),
{
    if s[i] == c {
        assert(s.subrange(i, i + 1) =~= seq![c]);
    } else {
        assert(s.subrange(i, i + 1)[0] != seq![c][0]);
    }
}

/// Splits off the line that starts at `pos`: it is `v[pos..r.0]`, and the
/// next one starts at `r.1`.
pub fn next_line(v: &Vec<char>, pos: usize) -> (r: (usize, usize))
    requires
        pos < v.len(),
    ensures
        pos <= r.0 <= r.1 <= v.len(),
        pos < r.1,
        lines(v@.skip(pos as int)) == seq![v@.subrange(pos as int, r.0 as int)] + lines(
            v@.skip(r.1 as int),
        ),
{
    let ghost s = v@.skip(pos as int);
    let mut j: usize = pos;
    while j < v.len() && v[j] != '\n'
        invariant
            pos <= j <= v.len(),
            s == v@.skip(pos as int),
            forall|k: int| pos <= k < j ==> v@[k] != '\n',
        decreases v.len() - j,
    {
        j = j + 1;
    }
    proof {
        assert forall|k: int| 0 <= k < j - pos implies !match_at(s, seq!['\n'], k) by {
            lemma_match_char(s, '\n', k);
        }
    }
    if j == v.len() {
        proof {
            assert forall|k: int| 0 <= k implies !match_at(s, seq!['\n'], k) by {
                if k < s.len() {
                    lemma_match_char(s, '\n', k);
                }
            }
            lemma_find_from_none(s, seq!['\n'], 0);
            assert(v@.subrange(pos as int, j as int) =~= s);
            assert(v@.skip(j as int) =~= Seq::<char>::empty());
            assert(lines(v@.skip(j as int)) =~= Seq::<Seq<char>>::empty());
        }
        (j, j)
    } else {
        proof {
            lemma_match_char(s, '\n', j - pos);
            lemma_find_from_first(s, seq!['\n'], 0, j - pos);
            assert(s.take(j - pos) =~= v@.subrange(pos as int, j as int));
            assert(s.skip(j - pos + 1) =~= v@.skip(j + 1));
        }
        if j > pos && v[j - 1] == '\r' {
            assert(v@.subrange(pos as int, j as int).drop_last() =~= v@.subrange(
                pos as int,
                j - 1,
            ));
            (j - 1, j + 1)
        } else {
            (j, j + 1)
        }
    }
}

/// Length of the leading run of non-whitespace characters.
pub open spec fn token_len(s: Seq<char>) -> nat
    decreases s.len(),
{
    if s.len() == 0 || is_ws(s[0]) {
        0
    } else {
        1 + token_len(s.drop_first())
    }
}

/// `str::split_whitespace().next()`.
pub open spec fn first_token(s: Seq<char>) -> Option<Seq<char>> {
    let t = trim_start(s);
    if t.len() == 0 {
        None
    } else {
        Some(t.take(token_len(t) as int))
    }
}

/// Bounds of the first whitespace-separated token of `v[a..b]`.
pub fn first_token_range(v: &Vec<char>, a: usize, b: usize) -> (r: Option<(usize, usize)>)
    requires
        a <= b <= v.len(),
    ensures
        match r {
            Some((x, y)) => a <= x < y <= b && first_token(v@.subrange(a as int, b as int)) == Some(
                v@.subrange(x as int, y as int),
            ),
            None => first_token(v@.subrange(a as int, b as int)) is None,
        },
{
    let mut i: usize = a;
    while i < b && is_whitespace(v[i])
        invariant
            a <= i <= b <= v.len(),
            trim_start(v@.subrange(a as int, b as int)) == trim_start(v@.subrange(i as int, b as int)),
        decreases b - i,
    {
        assert(v@.subrange(i as int, b as int).drop_first() =~= v@.subrange(i + 1, b as int));
        i = i + 1;
    }
    let ghost t = v@.subrange(i as int, b as int);
    assert(trim_start(t) == t);
    if i == b {
        return None;
    }
    let mut j: usize = i;
    while j < b && !is_whitespace(v[j])
        invariant
            i <= j <= b <= v.len(),
            t == v@.subrange(i as int, b as int),
            token_len(t) == (j - i) + token_len(v@.subrange(j as int, b as int)),
        decreases b - j,
    {
        assert(v@.subrange(j as int, b as int).drop_first() =~= v@.subrange(j + 1, b as int));
        j = j + 1;
    }
    assert(t.take(token_len(t) as int) =~= v@.subrange(i as int, j as int));
    Some((i, j))
}

/// `str::split` with a non-empty separator.
pub open spec fn split(s: Seq<char>, sep: Seq<char>) -> Seq<Seq<char>>
    decreases s.len(),
{
    match find(s, sep) {
        Some(i) => if sep.len() > 0 && 0 <= i && i + sep.len() <= s.len() {
            seq![s.take(i)] + split(s.skip(i + sep.len()), sep)
        } else {
            seq![s]
        },
        None => seq![s],
    }
}

/// `str::replace` with a non-empty pattern.
pub open spec fn replace(s: Seq<char>, from: Seq<char>, to: Seq<char>) -> Seq<char>
    decreases s.len(),
{
    match find(s, from) {
        Some(i) => if from.len() > 0 && 0 <= i && i + from.len() <= s.len() {
            s.take(i) + to + replace(s.skip(i + from.len()), from, to)
        } else {
            s
        },
        None => s,
    }
}

/// Whether `s` holds the two characters `a`, `b` next to each other at
/// or after `j`.
pub open spec fn has_pair_from(s: Seq<char>, a: char, b: char, j: int) -> bool
    decreases s.len() - j,
{
    if j < 0 || j + 1 >= s.len() {
        false
    } else {
        (s[j] == a && s[j + 1] == b) || has_pair_from(s, a, b, j + 1)
    }
}

/// `has_pair_from` finds exactly the adjacent pairs at or after `j`.
pub proof fn lemma_has_pair_iff(s: Seq<char>, a: char, b: char, j: int)
    requires
        0 <= j,
    ensures
        has_pair_from(s, a, b, j) <==> exists|i: int|
            j <= i && i + 1 < s.len() && #[trigger] s[i] == a && s[i + 1] == b,
    decreases s.len() - j,
{
    if j + 1 < s.len() {
        lemma_has_pair_iff(s, a, b, j + 1);
        if has_pair_from(s, a, b, j) {
            if s[j] == a && s[j + 1] == b {
                assert(s[j] == a);
            }
        } else {
            assert forall|i: int| j <= i && i + 1 < s.len() implies !(#[trigger] s[i] == a && s[i + 1]
                == b) by {
                if i == j {
                } else {
                    assert(j + 1 <= i);
                }
            }
        }
    }
}

/// A string without the character `a` holds no pair starting with it.
pub proof fn lemma_no_char_no_pair(s: Seq<char>, a: char, b: char)
    requires
        forall|i: int| 0 <= i < s.len() ==> s[i] != a,
    ensures
        !has_pair_from(s, a, b, 0),
{
    lemma_has_pair_iff(s, a, b, 0);
}

/// A pair in a concatenation lies in one part or across the join.
pub proof fn lemma_pair_concat(x: Seq<char>, y: Seq<char>, a: char, b: char)
    requires
        !has_pair_from(x, a, b, 0),
        !has_pair_from(y, a, b, 0),
        !(x.len() > 0 && y.len() > 0 && x.last() == a && y[0] == b),
    ensures
        !has_pair_from(x + y, a, b, 0),
{
    lemma_has_pair_iff(x, a, b, 0);
    lemma_has_pair_iff(y, a, b, 0);
    lemma_has_pair_iff(x + y, a, b, 0);
    let s = x + y;
    assert forall|i: int| 0 <= i && i + 1 < s.len() implies !(#[trigger] s[i] == a && s[i + 1] == b) by {
        if i + 1 < x.len() {
            assert(s[i] == x[i] && s[i + 1] == x[i + 1]);
        } else if i >= x.len() {
            assert(s[i] == y[i - x.len()] && s[i + 1] == y[i - x.len() + 1]);
        } else {
            assert(s[i] == x.last() && s[i + 1] == y[0]);
        }
    }
}

/// A pattern cannot occur where two of its adjacent characters do not.
pub proof fn lemma_no_pair_not_contained(s: Seq<char>, p: Seq<char>, k: int)
    requires
        0 <= k,
        k + 1 < p.len(),
        !has_pair_from(s, p[k], p[k + 1], 0),
    ensures
        !contains(s, p),
{
    lemma_has_pair_iff(s, p[k], p[k + 1], 0);
    lemma_find_from(s, p, 0);
    if let Some(j) = find(s, p) {
        assert(s.subrange(j, j + p.len())[k] == s[j + k]);
        assert(s.subrange(j, j + p.len())[k + 1] == s[j + k + 1]);
        assert(s[j + k] == p[k] && s[j + k + 1] == p[k + 1]);
    }
}

/// An occurrence makes the pattern contained.
pub proof fn lemma_match_contained(s: Seq<char>, p: Seq<char>, i: int)
    requires
        0 <= i,
        match_at(s, p, i),
    ensures
        contains(s, p),
{
    lemma_find_from(s, p, 0);
}

/// Decimal representations are made of digits.
pub proof fn lemma_dec_digits(n: nat)
    ensures
        dec(n).len() > 0,
        forall|i: int| 0 <= i < dec(n).len() ==> '0' <= #[trigger] dec(n)[i] <= '9',
    decreases n,
{
    if n >= 10 {
        lemma_dec_digits(n / 10);
    }
}

/// `s.ends_with(t)`.
pub open spec fn ends_with(s: Seq<char>, t: Seq<char>) -> bool {
    s.len() >= t.len() && s.skip(s.len() - t.len()) == t
}

/// A concatenation ends with its last part.
pub proof fn lemma_ends_with_concat(x: Seq<char>, t: Seq<char>)
    ensures
        ends_with(x + t, t),
{
    assert((x + t).skip((x + t).len() - t.len()) =~= t);
}

/// A string whose `n`-th character from the end differs from that of `t`
/// does not end with `t`.
pub proof fn lemma_not_ends_with(s: Seq<char>, t: Seq<char>, n: int)
    requires
        1 <= n <= t.len(),
        n <= s.len(),
        s[s.len() - n] != t[t.len() - n],
    ensures
        !ends_with(s, t),
{
    if ends_with(s, t) {
        assert(s.skip(s.len() - t.len())[t.len() - n] == s[s.len() - n]);
    }
}

/// A pattern cannot occur where its first two characters do not.
pub proof fn lemma_no_pair_no_match(s: Seq<char>, p: Seq<char>, j: int)
    requires
        0 <= j,
        p.len() >= 2,
        !has_pair_from(s, p[0], p[1], j),
    ensures
        forall|k: int| j <= k ==> !match_at(s, p, k),
    decreases s.len() - j,
{
    if j + 1 < s.len() {
        lemma_no_pair_no_match(s, p, j + 1);
        if match_at(s, p, j) {
            assert(s.subrange(j, j + p.len())[0] == s[j]);
            assert(s.subrange(j, j + p.len())[1] == s[j + 1]);
        }
    }
}

/// `s` is left as it is when `p` does not occur in it.
pub proof fn lemma_replace_absent(s: Seq<char>, p: Seq<char>, t: Seq<char>)
    requires
        forall|k: int| 0 <= k ==> !match_at(s, p, k),
    ensures
        replace(s, p, t) == s,
{
    lemma_find_from_none(s, p, 0);
}

/// The pattern alone becomes the replacement.
pub proof fn lemma_replace_whole(p: Seq<char>, t: Seq<char>)
    requires
        p.len() > 0,
    ensures
        replace(p, p, t) == t,
{
    let e = Seq::<char>::empty();
    assert(p.subrange(0, p.len() as int) =~= p);
    lemma_find_from_first(p, p, 0, 0);
    assert(find(p, p) == Some(0int));
    assert(p.skip(p.len() as int) =~= e);
    assert(find(e, p) is None);
    assert(replace(e, p, t) == e);
    assert(replace(p, p, t) == p.take(0) + t + replace(p.skip(p.len() as int), p, t));
    assert(p.take(0) + t + e =~= t);
}

pub proof fn lemma_match_left(a: Seq<char>, b: Seq<char>, p: Seq<char>, j: int)
    requires
        0 <= j,
        j + p.len() <= a.len(),
    ensures
        match_at(a + b, p, j) == match_at(a, p, j),
{
    assert((a + b).subrange(j, j + p.len()) =~= a.subrange(j, j + p.len()));
}

pub proof fn lemma_match_right(a: Seq<char>, b: Seq<char>, p: Seq<char>, j: int)
    requires
        a.len() <= j,
    ensures
        match_at(a + b, p, j) == match_at(b, p, j - a.len()),
{
    if j + p.len() <= a.len() + b.len() {
        assert((a + b).subrange(j, j + p.len()) =~= b.subrange(j - a.len(), j - a.len() + p.len()));
    }
}

proof fn lemma_match_skip(s: Seq<char>, p: Seq<char>, off: int, j: int)
    requires
        0 <= off <= s.len(),
        0 <= j,
    ensures
        match_at(s.skip(off), p, j) == match_at(s, p, j + off),
{
    if j + p.len() <= s.len() - off {
        assert(s.skip(off).subrange(j, j + p.len()) =~= s.subrange(j + off, j + off + p.len()));
    }
}

/// Replacing in a concatenation replaces in each part, when no occurrence
/// of the pattern starts in the first part and ends in the second.
pub proof fn lemma_replace_concat(a: Seq<char>, b: Seq<char>, p: Seq<char>, t: Seq<char>)
    requires
        p.len() > 0,
        forall|j: int| 0 <= j < a.len() && j + p.len() > a.len() ==> !match_at(a + b, p, j),
    ensures
        replace(a + b, p, t) == replace(a, p, t) + replace(b, p, t),
    decreases a.len(),
{
    let s = a + b;
    lemma_find_from(a, p, 0);
    lemma_find_from(b, p, 0);
    match find(a, p) {
        Some(i) => {
            assert forall|j: int| 0 <= j < i implies !match_at(s, p, j) by {
                lemma_match_left(a, b, p, j);
            }
            lemma_match_left(a, b, p, i);
            lemma_find_from_first(s, p, 0, i);
            let off = i + p.len();
            let a2 = a.skip(off);
            assert(s.skip(off) =~= a2 + b);
            assert(s.take(i) =~= a.take(i));
            assert forall|j: int| 0 <= j < a2.len() && j + p.len() > a2.len() implies !match_at(
                a2 + b,
                p,
                j,
            ) by {
                lemma_match_skip(s, p, off, j);
            }
            lemma_replace_concat(a2, b, p, t);
            assert(replace(s, p, t) =~= a.take(i) + t + (replace(a2, p, t) + replace(b, p, t)));
        },
        None => {
            assert forall|j: int| 0 <= j < a.len() implies !match_at(s, p, j) by {
                if j + p.len() <= a.len() {
                    lemma_match_left(a, b, p, j);
                }
            }
            match find(b, p) {
                Some(k) => {
                    assert forall|j: int| 0 <= j < a.len() + k implies !match_at(s, p, j) by {
                        if j >= a.len() {
                            lemma_match_right(a, b, p, j);
                        }
                    }
                    lemma_match_right(a, b, p, a.len() + k);
                    lemma_find_from_first(s, p, 0, a.len() + k);
                    assert(s.take(a.len() + k) =~= a + b.take(k));
                    assert(s.skip(a.len() + k + p.len()) =~= b.skip(k + p.len()));
                    assert(replace(s, p, t) =~= a + (b.take(k) + t + replace(
                        b.skip(k + p.len()),
                        p,
                        t,
                    )));
                },
                None => {
                    assert forall|j: int| 0 <= j implies !match_at(s, p, j) by {
                        if j >= a.len() {
                            lemma_match_right(a, b, p, j);
                        }
                    }
                    lemma_find_from_none(s, p, 0);
                },
            }
        },
    }
}

/// `s.replace(from, to)`.
pub fn replace_str(s: &str, from: &str, to: &str) -> (r: String)
    requires
        from@.len() > 0,
    ensures
        r@ == replace(s@, from@, to@),
{
    let v = str_chars(s);
    let f = str_chars(from);
    let mut r = String::new();
    let mut pos: usize = 0;
    assert(v@.skip(0) =~= v@);
    while pos < v.len()
        invariant
            pos <= v.len(),
            f@ == from@,
            f@.len() > 0,
            v@ == s@,
            replace(s@, from@, to@) == r@ + replace(v@.skip(pos as int), from@, to@),
        decreases v.len() - pos,
    {
        let ghost rest = v@.skip(pos as int);
        assert(v@.subrange(pos as int, v.len() as int) =~= rest);
        match find_in(&v, pos, v.len(), &f) {
            Some(j) => {
                proof {
                    lemma_find_from(rest, f@, 0);
                }
                push_range(&mut r, &v, pos, j);
                r.append(to);
                proof {
                    assert(rest.take(j - pos) =~= v@.subrange(pos as int, j as int));
                    assert(rest.skip(j - pos + f@.len()) =~= v@.skip(j + f@.len()));
                }
                pos = j + f.len();
            },
            None => {
                push_range(&mut r, &v, pos, v.len());
                pos = v.len();
                assert(v@.skip(pos as int) =~= Seq::<char>::empty());
            },
        }
    }
    assert(v@.skip(pos as int) =~= Seq::<char>::empty());
    r
}

/// `v[a..b].split(sep)`, each piece as a string.
pub fn split_range(v: &Vec<char>, a: usize, b: usize, sep: &Vec<char>) -> (r: Vec<String>)
    requires
        a <= b <= v.len(),
        sep@.len() > 0,
    ensures
        r.deep_view() == split(v@.subrange(a as int, b as int), sep@),
{
    let mut r: Vec<String> = Vec::new();
    let mut pos: usize = a;
    loop
        invariant
            a <= pos <= b <= v.len(),
            sep@.len() > 0,
            split(v@.subrange(a as int, b as int), sep@) == r.deep_view() + split(
                v@.subrange(pos as int, b as int),
                sep@,
            ),
        decreases b - pos,
    {
        let ghost rest = v@.subrange(pos as int, b as int);
        match find_in(v, pos, b, sep) {
            Some(j) => {
                proof {
                    lemma_find_from(rest, sep@, 0);
                    assert(rest.take(j - pos) =~= v@.subrange(pos as int, j as int));
                    assert(rest.skip(j - pos + sep@.len()) =~= v@.subrange(j + sep@.len(), b as int));
                }
                let piece = substring(v, pos, j);
                r.push(piece);
                pos = j + sep.len();
            },
            None => {
                let piece = substring(v, pos, b);
                r.push(piece);
                return r;
            },
        }
    }
}

/// Value of an ASCII digit in the given radix (`char::to_digit`).
pub open spec fn digit_val(c: char, radix: nat) -> Option<nat> {
    let n = c as u32;
    let d: int = if 48 <= n && n <= 57 {
        n - 48
    } else if 97 <= n && n <= 122 {
        n - 87
    } else if 65 <= n && n <= 90 {
        n - 55
    } else {
        99
    };
    if d < radix {
        Some(d as nat)
    } else {
        None
    }
}

/// Value of a string made only of digits of the radix.
pub open spec fn digits_val(s: Seq<char>, radix: nat) -> Option<nat>
    decreases s.len(),
{
    if s.len() == 0 {
        Some(0)
    } else {
        match (digits_val(s.drop_last(), radix), digit_val(s.last(), radix)) {
            (Some(v), Some(d)) => Some(v * radix + d),
            _ => None,
        }
    }
}

/// `from_str_radix` for an unsigned type whose largest value is `max`:
/// an optional `+`, then at least one digit, and no overflow.
pub open spec fn parse_unsigned(s: Seq<char>, radix: nat, max: nat) -> Option<nat> {
    let body = if s.len() > 0 && s[0] == '+' {
        s.drop_first()
    } else {
        s
    };
    if body.len() == 0 {
        None
    } else {
        match digits_val(body, radix) {
            Some(v) => if v <= max {
                Some(v)
            } else {
                None
            },
            None => None,
        }
    }
}

fn digit_of(c: char, radix: u32) -> (r: Option<u32>)
    requires
        2 <= radix <= 36,
    ensures
        match r {
            Some(d) => digit_val(c, radix as nat) == Some(d as nat) && d < radix,
            None => digit_val(c, radix as nat) is None,
        },
{
    let n = c as u32;
    let d: u32 = if 48 <= n && n <= 57 {
        n - 48
    } else if 97 <= n && n <= 122 {
        n - 87
    } else if 65 <= n && n <= 90 {
        n - 55
    } else {
        99
    };
    if d < radix {
        Some(d)
    } else {
        None
    }
}

proof fn lemma_digits_grow(t: Seq<char>, radix: nat, k: int, j: int, w: nat)
    requires
        1 <= radix,
        0 <= k <= j <= t.len(),
        digits_val(t.take(k), radix) == Some(w),
    ensures
        digits_val(t.take(j), radix) matches Some(x) ==> x >= w,
    decreases j - k,
{
    if j > k {
        lemma_digits_grow(t, radix, k, j - 1, w);
        assert(t.take(j).drop_last() =~= t.take(j - 1));
        if let Some(x) = digits_val(t.take(j - 1), radix) {
            if let Some(d) = digit_val(t.take(j).last(), radix) {
                assert(x * radix + d >= x) by (nonlinear_arith)
                    requires
                        radix >= 1,
                        d >= 0,
                        x >= 0,
                ;
            }
        }
    }
}

/// Parses `v[a..b]` as `from_str_radix` does for an unsigned type bounded by `max`.
pub fn parse_unsigned_range(v: &Vec<char>, a: usize, b: usize, radix: u32, max: u64) -> (r: Option<u64>)
    requires
        a <= b <= v.len(),
        2 <= radix <= 16,
    ensures
        match r {
            Some(x) => parse_unsigned(v@.subrange(a as int, b as int), radix as nat, max as nat)
                == Some(x as nat),
            None => parse_unsigned(v@.subrange(a as int, b as int), radix as nat, max as nat) is None,
        },
{
    let ghost s = v@.subrange(a as int, b as int);
    let start: usize = if a < b && v[a] == '+' {
        a + 1
    } else {
        a
    };
    let ghost body = v@.subrange(start as int, b as int);
    assert(body =~= (if s.len() > 0 && s[0] == '+' {
        s.drop_first()
    } else {
        s
    }));
    if start == b {
        return None;
    }
    let mut acc: u64 = 0;
    let mut i: usize = start;
    assert(body.take(0) =~= Seq::<char>::empty());
    while i < b
        invariant
            start <= i <= b <= v.len(),
            2 <= radix <= 16,
            body == v@.subrange(start as int, b as int),
            s == v@.subrange(a as int, b as int),
            body == (if s.len() > 0 && s[0] == '+' {
                s.drop_first()
            } else {
                s
            }),
            body.len() > 0,
            acc <= max,
            digits_val(body.take(i - start), radix as nat) == Some(acc as nat),
        decreases b - i,
    {
        assert(body.take(i - start + 1).drop_last() =~= body.take(i - start));
        assert(body.take(i - start + 1).last() == v@[i as int]);
        match digit_of(v[i], radix) {
            None => {
                proof {
                    lemma_digits_none(body, radix as nat, i - start + 1);
                }
                return None;
            },
            Some(d) => {
                assert((acc as int) * (radix as int) <= 0xffff_ffff_ffff_ffffint * 16) by (
                nonlinear_arith)
                    requires
                        acc <= 0xffff_ffff_ffff_ffffint,
                        radix <= 16,
                ;
                let nv: u128 = (acc as u128) * (radix as u128) + (d as u128);
                assert(digits_val(body.take(i - start + 1), radix as nat) == Some(nv as nat));
                if nv > max as u128 {
                    proof {
                        lemma_digits_grow(body, radix as nat, i - start + 1, body.len() as int, nv as nat);
                        assert(body.take(body.len() as int) =~= body);
                    }
                    return None;
                }
                acc = nv as u64;
            },
        }
        i = i + 1;
    }
    assert(body.take(b - start) =~= body);
    Some(acc)
}

proof fn lemma_digits_none(t: Seq<char>, radix: nat, k: int)
    requires
        0 <= k <= t.len(),
        digits_val(t.take(k), radix) is None,
    ensures
        digits_val(t, radix) is None,
    decreases t.len() - k,
{
    if k < t.len() {
        assert(t.take(k + 1).drop_last() =~= t.take(k));
        lemma_digits_none(t, radix, k + 1);
    } else {
        assert(t.take(k) =~= t);
    }
}

/// The character of a decimal digit.
pub open spec fn digit_char(d: nat) -> char {
    if d == 0 {
        '0'
    } else if d == 1 {
        '1'
    } else if d == 2 {
        '2'
    } else if d == 3 {
        '3'
    } else if d == 4 {
        '4'
    } else if d == 5 {
        '5'
    } else if d == 6 {
        '6'
    } else if d == 7 {
        '7'
    } else if d == 8 {
        '8'
    } else {
        '9'
    }
}

/// Decimal representation of a natural number, as `Display` writes it.
pub open spec fn dec(n: nat) -> Seq<char>
    decreases n,
{
    if n < 10 {
        seq![digit_char(n)]
    } else {
        dec(n / 10).push(digit_char(n % 10))
    }
}

/// Decimal representation of an integer, with a leading `-` when negative.
pub open spec fn int_dec(i: int) -> Seq<char> {
    if i < 0 {
        seq!['-'] + dec((-i) as nat)
    } else {
        dec(i as nat)
    }
}

fn digit_to_char(d: u64) -> (c: char)
    requires
        d < 10,
    ensures
        c == digit_char(d as nat),
{
    if d == 0 {
        '0'
    } else if d == 1 {
        '1'
    } else if d == 2 {
        '2'
    } else if d == 3 {
        '3'
    } else if d == 4 {
        '4'
    } else if d == 5 {
        '5'
    } else if d == 6 {
        '6'
    } else if d == 7 {
        '7'
    } else if d == 8 {
        '8'
    } else {
        '9'
    }
}

/// Appends the decimal representation of `n`.
pub fn push_dec(s: &mut String, n: u64)
    ensures
        final(s)@ == old(s)@ + dec(n as nat),
    decreases n,
{
    if n >= 10 {
        push_dec(s, n / 10);
    }
    let c = digit_to_char(n % 10);
    string_push(s, c);
    proof {
        if n >= 10 {
            assert(old(s)@ + dec(n as nat) =~= old(s)@ + dec((n / 10) as nat) + seq![c]);
        } else {
            assert(old(s)@ + dec(n as nat) =~= old(s)@.push(c));
        }
    }
}

/// Appends the decimal representation of `i`.
pub fn push_int(s: &mut String, i: i64)
    requires
        i > i64::MIN,
    ensures
        final(s)@ == old(s)@ + int_dec(i as int),
{
    if i < 0 {
        string_push(s, '-');
        push_dec(s, (-i) as u64);
        assert(final(s)@ =~= old(s)@ + int_dec(i as int));
    } else {
        push_dec(s, i as u64);
    }
}

/// A value given in thousandths, written with three decimals (as
/// `{:.3}` prints `v as f64 / 1000.0`).
pub open spec fn millis_text(v: int) -> Seq<char> {
    let m = if v < 0 {
        -v
    } else {
        v
    };
    let frac = m % 1000;
    (if v < 0 {
        seq!['-']
    } else {
        Seq::<char>::empty()
    }) + dec((m / 1000) as nat) + seq![
        '.',
        digit_char((frac / 100) as nat),
        digit_char(((frac / 10) % 10) as nat),
        digit_char((frac % 10) as nat),
    ]
}

/// Appends `millis_text(v)`.
pub fn push_millis(s: &mut String, v: i32)
    ensures
        final(s)@ == old(s)@ + millis_text(v as int),
{
    let m: u64 = if v < 0 {
        (-(v as i64)) as u64
    } else {
        v as u64
    };
    let ghost s0 = s@;
    if v < 0 {
        string_push(s, '-');
    }
    push_dec(s, m / 1000);
    let frac = m % 1000;
    string_push(s, '.');
    let c1 = digit_to_char(frac / 100);
    string_push(s, c1);
    let c2 = digit_to_char((frac / 10) % 10);
    string_push(s, c2);
    let c3 = digit_to_char(frac % 10);
    string_push(s, c3);
    assert(s@ =~= s0 + millis_text(v as int));
}

/// The value `f` gives for the first line on which it gives one.
pub open spec fn first_hit<T>(ls: Seq<Seq<char>>, f: spec_fn(Seq<char>) -> Option<T>) -> Option<T>
    decreases ls.len(),
{
    if ls.len() == 0 {
        None
    } else {
        match f(ls[0]) {
            Some(x) => Some(x),
            None => first_hit(ls.drop_first(), f),
        }
    }
}

pub proof fn lemma_first_hit_cons<T>(x: Seq<char>, rest: Seq<Seq<char>>, f: spec_fn(Seq<char>) -> Option<T>)
    ensures
        first_hit(seq![x] + rest, f) == (match f(x) {
            Some(y) => Some(y),
            None => first_hit(rest, f),
        }),
{
    assert((seq![x] + rest).drop_first() =~= rest);
    assert((seq![x] + rest)[0] == x);
}

pub proof fn lemma_lines_end(v: Seq<char>)
    ensures
        lines(v.skip(v.len() as int)) == Seq::<Seq<char>>::empty(),
{
    assert(v.skip(v.len() as int) =~= Seq::<char>::empty());
}

/// Whether `pat` occurs in `v[a..b]`.
pub fn range_contains(v: &Vec<char>, a: usize, b: usize, pat: &Vec<char>) -> (r: bool)
    requires
        a <= b <= v.len(),
    ensures
        r == contains(v@.subrange(a as int, b as int), pat@),
{
    find_in(v, a, b, pat).is_some()
}

/// `str::contains`.
pub fn str_contains(s: &str, pat: &str) -> (r: bool)
    ensures
        r == contains(s@, pat@),
{
    let v = str_chars(s);
    let p = str_chars(pat);
    assert(v@.subrange(0, v.len() as int) =~= s@);
    range_contains(&v, 0, v.len(), &p)
}

/// `s.starts_with(p)`.
pub open spec fn starts_with(s: Seq<char>, p: Seq<char>) -> bool {
    p.len() <= s.len() && s.take(p.len() as int) == p
}

/// Whether `v[a..b]` starts with `p`.
pub fn range_starts_with(v: &Vec<char>, a: usize, b: usize, p: &Vec<char>) -> (r: bool)
    requires
        a <= b <= v.len(),
    ensures
        r == starts_with(v@.subrange(a as int, b as int), p@),
{
    if p.len() > b - a {
        return false;
    }
    let r = eq_at(v, a, p);
    assert(v@.subrange(a as int, b as int).take(p@.len() as int) =~= v@.subrange(
        a as int,
        a + p@.len(),
    ));
    r
}

/// Whether `v[a..b]` equals `p`.
pub fn range_eq(v: &Vec<char>, a: usize, b: usize, p: &Vec<char>) -> (r: bool)
    requires
        a <= b <= v.len(),
    ensures
        r == (v@.subrange(a as int, b as int) == p@),
{
    if p.len() != b - a {
        proof {
            if v@.subrange(a as int, b as int) == p@ {
                assert(v@.subrange(a as int, b as int).len() == p@.len());
            }
        }
        return false;
    }
    eq_at(v, a, p)
}

/// Number of occurrences of `c` in `s`.
pub open spec fn count_char(s: Seq<char>, c: char) -> nat
    decreases s.len(),
{
    if s.len() == 0 {
        0
    } else {
        count_char(s.drop_last(), c) + (if s.last() == c {
            1nat
        } else {
            0nat
        })
    }
}

/// Number of occurrences of `c` in `v[a..b]`.
pub fn range_count_char(v: &Vec<char>, a: usize, b: usize, c: char) -> (r: usize)
    requires
        a <= b <= v.len(),
    ensures
        r == count_char(v@.subrange(a as int, b as int), c),
{
    let mut n: usize = 0;
    let mut i: usize = a;
    assert(v@.subrange(a as int, a as int) =~= Seq::<char>::empty());
    while i < b
        invariant
            a <= i <= b <= v.len(),
            n <= i - a,
            n == count_char(v@.subrange(a as int, i as int), c),
        decreases b - i,
    {
        assert(v@.subrange(a as int, i + 1).drop_last() =~= v@.subrange(a as int, i as int));
        if v[i] == c {
            n = n + 1;
        }
        i = i + 1;
    }
    n
}

/// `a == b` on string slices.
pub fn str_eq(a: &str, b: &str) -> (r: bool)
    ensures
        r == (a@ == b@),
{
    let v = str_chars(a);
    let w = str_chars(b);
    assert(v@.subrange(0, v.len() as int) =~= a@);
    range_eq(&v, 0, v.len(), &w)
}

} // verus!
