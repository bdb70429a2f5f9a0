//! Character-level string operations with exact specifications over the
//! `Seq<char>` view of strings.
use vstd::prelude::*;
use vstd::string::*;

verus! {

/// Unicode `White_Space` property (the set `char::is_whitespace` and
/// `str::trim` use).
pub open spec fn is_white_space(c: char) -> bool {
    let u = c as u32;
    ||| 0x09 <= u <= 0x0D
    ||| u == 0x20
    ||| u == 0x85
    ||| u == 0xA0
    ||| u == 0x1680
    ||| 0x2000 <= u <= 0x200A
    ||| u == 0x2028
    ||| u == 0x2029
    ||| u == 0x202F
    ||| u == 0x205F
    ||| u == 0x3000
}

/// Number of white-space characters at the start of `s`.
pub open spec fn leading_ws_len(s: Seq<char>) -> nat
    decreases s.len(),
{
    if s.len() > 0 && is_white_space(s[0]) {
        1 + leading_ws_len(s.drop_first())
    } else {
        0
    }
}

/// Number of white-space characters at the end of `s`.
pub open spec fn trailing_ws_len(s: Seq<char>) -> nat
    decreases s.len(),
{
    if s.len() > 0 && is_white_space(s.last()) {
        1 + trailing_ws_len(s.drop_last())
    } else {
        0
    }
}

/// `s` without its leading white space.
pub open spec fn trim_start_seq(s: Seq<char>) -> Seq<char> {
    s.skip(leading_ws_len(s) as int)
}

/// `s` without its trailing white space.
pub open spec fn trim_end_seq(s: Seq<char>) -> Seq<char> {
    s.take(s.len() - trailing_ws_len(s))
}

/// `s` without leading and trailing white space.
pub open spec fn trim_seq(s: Seq<char>) -> Seq<char> {
    trim_end_seq(trim_start_seq(s))
}

/// `p` occurs in `h` at position `i`.
pub open spec fn occurs_at(h: Seq<char>, p: Seq<char>, i: int) -> bool {
    0 <= i && i + p.len() <= h.len() && h.subrange(i, i + p.len()) == p
}

/// Position of the first occurrence of `p` in `h`.
pub open spec fn find_seq(h: Seq<char>, p: Seq<char>) -> Option<int>
    decreases h.len(),
{
    if h.len() < p.len() {
        None
    } else if h.take(p.len() as int) == p {
        Some(0)
    } else if h.len() == 0 {
        None
    } else {
        match find_seq(h.drop_first(), p) {
            Some(i) => Some(i + 1),
            None => None,
        }
    }
}

pub open spec fn contains_seq(h: Seq<char>, p: Seq<char>) -> bool {
    find_seq(h, p) is Some
}

/// Every non-overlapping occurrence of `p`, scanning from the left,
/// replaced by `r` (`p` non-empty).
pub open spec fn replace_seq(h: Seq<char>, p: Seq<char>, r: Seq<char>) -> Seq<char>
    decreases h.len(),
{
    if p.len() == 0 || h.len() < p.len() {
        h
    } else if h.take(p.len() as int) == p {
        r + replace_seq(h.skip(p.len() as int), p, r)
    } else {
        seq![h[0]] + replace_seq(h.drop_first(), p, r)
    }
}

/// Index of the last `c` in `s`, or -1.
pub open spec fn last_index_of(s: Seq<char>, c: char) -> int
    decreases s.len(),
{
    if s.len() == 0 {
        -1
    } else if s.last() == c {
        s.len() - 1
    } else {
        last_index_of(s.drop_last(), c)
    }
}

/// The last piece of `s` when split at `c` (all of `s` if `c` does not occur).
pub open spec fn after_last_seq(s: Seq<char>, c: char) -> Seq<char> {
    s.skip(last_index_of(s, c) + 1)
}

pub open spec fn starts_with_seq(s: Seq<char>, p: Seq<char>) -> bool {
    p.len() <= s.len() && s.take(p.len() as int) == p
}

/// A found position is an occurrence.
pub proof fn lemma_find_seq_occurs(h: Seq<char>, p: Seq<char>)
    requires
        find_seq(h, p) is Some,
    ensures
        occurs_at(h, p, find_seq(h, p)->0),
    decreases h.len(),
{
    if h.len() >= p.len() && h.take(p.len() as int) != p && h.len() != 0 {
        let t = h.drop_first();
        lemma_find_seq_occurs(t, p);
        let i = find_seq(t, p)->0;
        assert(h.subrange(i + 1, i + 1 + p.len()) =~= t.subrange(i, i + p.len()));
    } else {
        assert(h.subrange(0, p.len() as int) =~= h.take(p.len() as int));
    }
}

pub proof fn lemma_last_index_of_bounds(s: Seq<char>, c: char)
    ensures
        -1 <= last_index_of(s, c) < s.len(),
        last_index_of(s, c) >= 0 ==> s[last_index_of(s, c)] == c,
        forall|k: int| last_index_of(s, c) < k < s.len() ==> s[k] != c,
    decreases s.len(),
{
    if s.len() > 0 && s.last() != c {
        let t = s.drop_last();
        lemma_last_index_of_bounds(t, c);
        assert forall|k: int| last_index_of(s, c) < k < s.len() implies s[k] != c by {
            if k < t.len() {
                assert(t[k] == s[k]);
            }
        }
    }
}

/// What `trim_start` leaves, if anything, starts with a non-white-space character.
pub proof fn lemma_trim_start_first(s: Seq<char>)
    ensures
        trim_start_seq(s).len() > 0 ==> !is_white_space(trim_start_seq(s)[0]),
        trim_start_seq(s).len() <= s.len(),
        leading_ws_len(s) <= s.len(),
    decreases s.len(),
{
    if s.len() > 0 && is_white_space(s[0]) {
        lemma_trim_start_first(s.drop_first());
        let t = s.drop_first();
        assert(leading_ws_len(s) == 1 + leading_ws_len(t));
        assert(s.skip(leading_ws_len(s) as int) =~= t.skip(leading_ws_len(t) as int));
    }
}

pub fn char_is_white_space(c: char) -> (r: bool)
    ensures
        r == is_white_space(c),
{
    let u = c as u32;
    (0x09 <= u && u <= 0x0D) || u == 0x20 || u == 0x85 || u == 0xA0 || u == 0x1680 || (0x2000
        <= u && u <= 0x200A) || u == 0x2028 || u == 0x2029 || u == 0x202F || u == 0x205F || u
        == 0x3000
}

pub fn chars_of(s: &str) -> (v: Vec<char>)
    ensures
        v@ == s@,
{
    let mut v: Vec<char> = Vec::new();
    for c in it: s.chars()
        invariant
            v@ == it.seq().take(it.index() as int),
            it.seq() == s@,
    {
        v.push(c);
    }
    v
}

proof fn lemma_leading_ws_len(s: Seq<char>, i: int)
    requires
        0 <= i <= s.len(),
        forall|j: int| 0 <= j < i ==> is_white_space(s[j]),
        i == s.len() || !is_white_space(s[i]),
    ensures
        leading_ws_len(s) == i,
    decreases i,
{
    if i > 0 {
        let t = s.drop_first();
        assert forall|j: int| 0 <= j < i - 1 implies is_white_space(t[j]) by {
            assert(t[j] == s[j + 1]);
        }
        if i - 1 < t.len() {
            assert(t[i - 1] == s[i]);
        }
        lemma_leading_ws_len(t, i - 1);
    }
}

proof fn lemma_trailing_ws_len(s: Seq<char>, k: int)
    requires
        0 <= k <= s.len(),
        forall|j: int| s.len() - k <= j < s.len() ==> is_white_space(s[j]),
        k == s.len() || !is_white_space(s[s.len() - k - 1]),
    ensures
        trailing_ws_len(s) == k,
    decreases k,
{
    if k > 0 {
        let t = s.drop_last();
        assert forall|j: int| t.len() - (k - 1) <= j < t.len() implies is_white_space(t[j]) by {
            assert(t[j] == s[j]);
        }
        if k - 1 < t.len() {
            assert(t[t.len() - (k - 1) - 1] == s[s.len() - k - 1]);
        }
        lemma_trailing_ws_len(t, k - 1);
    }
}

/// `str::trim_start`.
pub fn trim_start<'a>(s: &'a str) -> (r: &'a str)
    ensures
        r@ == trim_start_seq(s@),
{
    let v = chars_of(s);
    let n = v.len();
    let mut i: usize = 0;
    while i < n && char_is_white_space(v[i])
        invariant
            v@ == s@,
            n == v.len(),
            i <= n,
            forall|j: int| 0 <= j < i ==> is_white_space(v@[j]),
        decreases n - i,
    {
        i = i + 1;
    }
    proof {
        lemma_leading_ws_len(s@, i as int);
    }
    s.substring_char(i, n)
}

/// `str::trim_end`.
pub fn trim_end<'a>(s: &'a str) -> (r: &'a str)
    ensures
        r@ == trim_end_seq(s@),
{
    let v = chars_of(s);
    let n = v.len();
    let mut e: usize = n;
    while e > 0 && char_is_white_space(v[e - 1])
        invariant
            v@ == s@,
            n == v.len(),
            e <= n,
            forall|j: int| e <= j < n ==> is_white_space(v@[j]),
        decreases e,
    {
        e = e - 1;
    }
    proof {
        lemma_trailing_ws_len(s@, (n - e) as int);
    }
    s.substring_char(0, e)
}

/// `str::trim`.
pub fn trim<'a>(s: &'a str) -> (r: &'a str)
    ensures
        r@ == trim_seq(s@),
{
    trim_end(trim_start(s))
}

/// Whether `p` occurs in `h` at `i`.
fn matches_at(h: &Vec<char>, p: &Vec<char>, i: usize) -> (r: bool)
    requires
        i <= h.len(),
    ensures
        r == (i + p.len() <= h.len() && h@.subrange(i as int, i + p.len()) == p@),
{
    if h.len() - i < p.len() {
        return false;
    }
    let mut k: usize = 0;
    while k < p.len()
        invariant
            i + p.len() <= h.len(),
            k <= p.len(),
            forall|j: int| 0 <= j < k ==> h@[i + j] == p@[j],
        decreases p.len() - k,
    {
        if h[i + k] != p[k] {
            assert(h@.subrange(i as int, i + p.len())[k as int] != p@[k as int]);
            return false;
        }
        k = k + 1;
    }
    assert(h@.subrange(i as int, i + p.len()) =~= p@);
    true
}

proof fn lemma_find_step(h: Seq<char>, p: Seq<char>, i: int)
    requires
        0 <= i < h.len(),
        h.len() - i >= p.len(),
        h.skip(i).take(p.len() as int) != p,
    ensures
        find_seq(h.skip(i), p) == match find_seq(h.skip(i + 1), p) {
            Some(k) => Some(k + 1),
            None => None::<int>,
        },
{
    assert(h.skip(i).drop_first() =~= h.skip(i + 1));
}

/// Position of the first occurrence of `p` in `h`, counted in characters.
pub fn find(h: &str, p: &str) -> (r: Option<usize>)
    ensures
        match r {
            Some(i) => find_seq(h@, p@) == Some(i as int),
            None => find_seq(h@, p@) is None,
        },
{
    let hv = chars_of(h);
    let pv = chars_of(p);
    if pv.len() > hv.len() {
        return None;
    }
    if pv.len() == 0 {
        assert(h@.take(0) =~= p@);
        return Some(0);
    }
    let last = hv.len() - pv.len();
    let mut i: usize = 0;
    assert(h@.skip(0) =~= h@);
    while i <= last
        invariant
            hv@ == h@,
            pv@ == p@,
            pv.len() > 0,
            last == hv.len() - pv.len(),
            i <= last + 1,
            find_seq(h@, p@) == match find_seq(h@.skip(i as int), p@) {
                Some(k) => Some(k + i),
                None => None::<int>,
            },
        decreases last + 1 - i,
    {
        assert(h@.skip(i as int).take(p@.len() as int) =~= h@.subrange(i as int, i + p@.len()));
        if matches_at(&hv, &pv, i) {
            return Some(i);
        }
        proof {
            lemma_find_step(h@, p@, i as int);
        }
        i = i + 1;
    }
    assert(h@.skip(i as int).len() < p@.len());
    None
}

/// `str::contains` with a string pattern.
pub fn contains(h: &str, p: &str) -> (r: bool)
    ensures
        r == contains_seq(h@, p@),
{
    find(h, p).is_some()
}

/// `str::starts_with` with a string pattern.
pub fn starts_with(s: &str, p: &str) -> (r: bool)
    ensures
        r == starts_with_seq(s@, p@),
{
    let sv = chars_of(s);
    let pv = chars_of(p);
    let r = matches_at(&sv, &pv, 0);
    assert(s@.subrange(0, p@.len() as int) =~= s@.take(p@.len() as int));
    r
}

/// Equality of the characters of two strings.
pub fn str_eq(a: &str, b: &str) -> (r: bool)
    ensures
        r == (a@ == b@),
{
    let av = chars_of(a);
    let bv = chars_of(b);
    if av.len() != bv.len() {
        return false;
    }
    let r = matches_at(&av, &bv, 0);
    assert(a@.subrange(0, b@.len() as int) =~= a@);
    r
}

proof fn lemma_replace_step(h: Seq<char>, p: Seq<char>, r: Seq<char>, i: int)
    requires
        p.len() > 0,
        0 <= i,
        i + p.len() <= h.len(),
    ensures
        h.skip(i).take(p.len() as int) == p ==> replace_seq(h.skip(i), p, r) == r
            + replace_seq(h.skip(i + p.len()), p, r),
        h.skip(i).take(p.len() as int) != p ==> replace_seq(h.skip(i), p, r) == seq![h[i]]
            + replace_seq(h.skip(i + 1), p, r),
{
    assert(h.skip(i).skip(p.len() as int) =~= h.skip(i + p.len()));
    assert(h.skip(i).drop_first() =~= h.skip(i + 1));
}

/// `str::replace` with a non-empty string pattern.
pub fn replace_all(h: &str, p: &str, r: &str) -> (out: String)
    requires
        p@.len() > 0,
    ensures
        out@ == replace_seq(h@, p@, r@),
{
    let hv = chars_of(h);
    let pv = chars_of(p);
    let n = hv.len();
    let mut out = String::new();
    let mut i: usize = 0;
    assert(h@.skip(0) =~= h@);
    while pv.len() <= n - i
        invariant
            hv@ == h@,
            pv@ == p@,
            n == hv.len(),
            p@.len() > 0,
            i <= n,
            replace_seq(h@, p@, r@) == out@ + replace_seq(h@.skip(i as int), p@, r@),
        decreases n - i,
    {
        proof {
            lemma_replace_step(h@, p@, r@, i as int);
        }
        assert(h@.skip(i as int).take(p@.len() as int) =~= h@.subrange(i as int, i + p@.len()));
        if matches_at(&hv, &pv, i) {
            let ghost before = out@;
            out = out.concat(r);
            assert(before + (r@ + replace_seq(h@.skip(i + p@.len()), p@, r@)) =~= out@
                + replace_seq(h@.skip(i + p@.len()), p@, r@));
            i = i + pv.len();
        } else {
            let ghost before = out@;
            let one = h.substring_char(i, i + 1);
            assert(one@ =~= seq![h@[i as int]]);
            out = out.concat(one);
            assert(before + (seq![h@[i as int]] + replace_seq(h@.skip(i + 1), p@, r@)) =~= out@
                + replace_seq(h@.skip(i + 1), p@, r@));
            i = i + 1;
        }
    }
    let rest = h.substring_char(i, n);
    assert(rest@ =~= h@.skip(i as int));
    out.concat(rest)
}

/// The last piece of `s` when split at `c`: `s.split(c).last()`.
pub fn after_last<'a>(s: &'a str, c: char) -> (r: &'a str)
    ensures
        r@ == after_last_seq(s@, c),
{
    let v = chars_of(s);
    let n = v.len();
    let mut j: usize = n;
    assert(s@.take(n as int) =~= s@);
    while j > 0 && v[j - 1] != c
        invariant
            v@ == s@,
            n == v.len(),
            j <= n,
            last_index_of(s@, c) == last_index_of(s@.take(j as int), c),
        decreases j,
    {
        assert(s@.take(j as int).drop_last() =~= s@.take(j - 1));
        j = j - 1;
    }
    proof {
        if j > 0 {
            assert(s@.take(j as int).last() == c);
        }
    }
    s.substring_char(j, n)
}

} // verus!

verus! {

/// The character views of a list of strings.
pub open spec fn views(v: Seq<String>) -> Seq<Seq<char>> {
    v.map_values(|s: String| s@)
}

/// Whether one of the strings in `v` equals `s`.
pub fn list_contains(v: &Vec<String>, s: &str) -> (r: bool)
    ensures
        r == views(v@).contains(s@),
{
    let mut i: usize = 0;
    while i < v.len()
        invariant
            i <= v.len(),
            forall|j: int| 0 <= j < i ==> v@[j]@ != s@,
        decreases v.len() - i,
    {
        if str_eq(v[i].as_str(), s) {
            assert(views(v@)[i as int] == s@);
            return true;
        }
        i = i + 1;
    }
    proof {
        if views(v@).contains(s@) {
            let k = choose|k: int| 0 <= k < views(v@).len() && views(v@)[k] == s@;
            assert(v@[k]@ == s@);
        }
    }
    false
}

} // verus!
