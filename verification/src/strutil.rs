//! Verified text helpers the feed parsers are built on: splitting on a
//! delimiter, trimming, prefix tests, and decimal conversion in both
//! directions.

use vstd::prelude::*;

verus! {

// ================================================================
//  Matching a delimiter at a position
// ================================================================

/// The delimiter `d` occurs in `s` at position `i`.
pub open spec fn spec_matches_at(s: Seq<char>, d: Seq<char>, i: int) -> bool {
    0 <= i && i + d.len() <= s.len() && s.subrange(i, i + d.len() as int) == d
}

/// Exec check that `d` occurs in `s` at position `i`.
/// `slen` and `dlen` are passed in so that callers measure the strings once.
fn matches_at(s: &str, slen: usize, d: &str, dlen: usize, i: usize) -> (r: bool)
    requires
        slen == s@.len(),
        dlen == d@.len(),
        i + dlen <= slen,
    ensures
        r == spec_matches_at(s@, d@, i as int),
{
    let mut j: usize = 0;
    while j < dlen
        invariant
            j <= dlen,
            slen == s@.len(),
            dlen == d@.len(),
            i + dlen <= slen,
            forall|k: int| 0 <= k < j ==> s@[i + k] == d@[k],
        decreases dlen - j,
    {
        if s.get_char(i + j) != d.get_char(j) {
            assert(!spec_matches_at(s@, d@, i as int)) by {
                assert(s@.subrange(i as int, i + dlen) != d@) by {
                    assert(s@.subrange(i as int, i + dlen)[j as int] != d@[j as int]);
                }
            }
            return false;
        }
        j += 1;
    }
    assert(s@.subrange(i as int, i + dlen) =~= d@);
    true
}

// ================================================================
//  Splitting on a delimiter
// ================================================================

/// The fields of `s` split on the (non-empty) delimiter `d`, leftmost
/// match first, as `str::split` produces them.
pub open spec fn spec_split(s: Seq<char>, d: Seq<char>) -> Seq<Seq<char>>
    decreases s.len(),
{
    if d.len() == 0 || s.len() < d.len() {
        seq![s]
    } else if s.subrange(0, d.len() as int) == d {
        seq![Seq::<char>::empty()] + spec_split(s.skip(d.len() as int), d)
    } else {
        let r = spec_split(s.skip(1), d);
        seq![seq![s[0]] + r[0]] + r.skip(1)
    }
}

pub proof fn lemma_split_len(s: Seq<char>, d: Seq<char>)
    ensures
        spec_split(s, d).len() >= 1,
    decreases s.len(),
{
    if d.len() == 0 || s.len() < d.len() {
    } else if s.subrange(0, d.len() as int) == d {
        lemma_split_len(s.skip(d.len() as int), d);
    } else {
        lemma_split_len(s.skip(1), d);
    }
}

/// A match of `d` in the tail `s.skip(i)` is a match in `s`, shifted.
proof fn lemma_matches_shift(s: Seq<char>, d: Seq<char>, i: int, k: int)
    requires
        0 <= i <= s.len(),
        0 <= k,
    ensures
        spec_matches_at(s.skip(i), d, k) <==> spec_matches_at(s, d, i + k),
{
    if k + d.len() <= s.skip(i).len() {
        assert(s.skip(i).subrange(k, k + d.len() as int) =~= s.subrange(
            i + k,
            i + k + d.len() as int,
        ));
    }
}

/// If the leftmost match of `d` in `s` is at `j`, the first field is
/// everything before `j` and the rest is the split of what follows the
/// match.
proof fn lemma_split_at_first_match(s: Seq<char>, d: Seq<char>, j: int)
    requires
        1 <= d.len(),
        0 <= j,
        spec_matches_at(s, d, j),
        forall|k: int| 0 <= k < j ==> !spec_matches_at(s, d, k),
    ensures
        spec_split(s, d) == seq![s.take(j)] + spec_split(s.skip(j + d.len() as int), d),
    decreases j,
{
    if j == 0 {
        assert(s.subrange(0, d.len() as int) == d);
        assert(s.take(0) =~= Seq::<char>::empty());
        assert(spec_split(s, d) =~= seq![s.take(0)] + spec_split(s.skip(d.len() as int), d));
    } else {
        assert(!spec_matches_at(s, d, 0));
        assert(s.len() >= j + d.len());
        assert(s.subrange(0, d.len() as int) != d) by {
            if s.subrange(0, d.len() as int) == d {
                assert(spec_matches_at(s, d, 0));
            }
        }
        let t = s.skip(1);
        assert forall|k: int| 0 <= k < j - 1 implies !spec_matches_at(t, d, k) by {
            lemma_matches_shift(s, d, 1, k);
        }
        assert(spec_matches_at(t, d, j - 1)) by {
            lemma_matches_shift(s, d, 1, j - 1);
        }
        lemma_split_at_first_match(t, d, j - 1);
        let r = spec_split(t, d);
        assert(r == seq![t.take(j - 1)] + spec_split(t.skip(j - 1 + d.len() as int), d));
        assert(t.skip(j - 1 + d.len() as int) =~= s.skip(j + d.len() as int));
        assert(seq![s[0]] + r[0] =~= s.take(j));
        assert(r.skip(1) =~= spec_split(s.skip(j + d.len() as int), d));
        assert(spec_split(s, d) =~= seq![s.take(j)] + spec_split(s.skip(j + d.len() as int), d));
    }
}

/// If `d` matches nowhere in `s`, the split is the single field `s`.
proof fn lemma_split_no_match(s: Seq<char>, d: Seq<char>)
    requires
        1 <= d.len(),
        forall|k: int| 0 <= k ==> !spec_matches_at(s, d, k),
    ensures
        spec_split(s, d) == seq![s],
    decreases s.len(),
{
    if s.len() < d.len() {
    } else {
        assert(s.subrange(0, d.len() as int) != d) by {
            if s.subrange(0, d.len() as int) == d {
                assert(spec_matches_at(s, d, 0));
            }
        }
        let t = s.skip(1);
        assert forall|k: int| 0 <= k implies !spec_matches_at(t, d, k) by {
            lemma_matches_shift(s, d, 1, k);
        }
        lemma_split_no_match(t, d);
        let r = spec_split(t, d);
        assert(seq![s[0]] + r[0] =~= s);
        assert(spec_split(s, d) =~= seq![s]);
    }
}

/// The position of the leftmost match of `d` in `s` at or after `i`.
pub(crate) fn find_from(s: &str, slen: usize, d: &str, dlen: usize, i: usize) -> (r: Option<usize>)
    requires
        slen == s@.len(),
        dlen == d@.len(),
        1 <= dlen,
        i <= slen,
    ensures
        match r {
            Some(j) => i <= j && j + dlen <= slen && spec_matches_at(s@, d@, j as int)
                && forall|k: int| i <= k < j ==> !spec_matches_at(s@, d@, k),
            None => forall|k: int| i <= k ==> !spec_matches_at(s@, d@, k),
        },
{
    if dlen > slen {
        return None;
    }
    let mut j: usize = i;
    while j <= slen - dlen
        invariant
            i <= j,
            j <= slen,
            slen == s@.len(),
            dlen == d@.len(),
            1 <= dlen <= slen,
            forall|k: int| i <= k < j ==> !spec_matches_at(s@, d@, k),
        decreases slen - j,
    {
        if matches_at(s, slen, d, dlen, j) {
            return Some(j);
        }
        j += 1;
    }
    None
}

/// Split `s` on the delimiter `d`, leftmost match first.
pub fn split_str(s: &str, d: &str) -> (r: Vec<String>)
    requires
        d@.len() >= 1,
    ensures
        r.deep_view() == spec_split(s@, d@),
{
    let slen = s.unicode_len();
    let dlen = d.unicode_len();
    let mut res: Vec<String> = Vec::new();
    let mut i: usize = 0;
    proof {
        assert(s@.skip(0) =~= s@);
        assert(res.deep_view() + spec_split(s@, d@) =~= spec_split(s@, d@));
    }
    loop
        invariant
            i <= slen,
            slen == s@.len(),
            dlen == d@.len(),
            dlen >= 1,
            spec_split(s@, d@) == res.deep_view() + spec_split(s@.skip(i as int), d@),
        ensures
            res.deep_view() == spec_split(s@, d@),
        decreases slen - i,
    {
        let found = find_from(s, slen, d, dlen, i);
        let ghost tail = s@.skip(i as int);
        let ghost prev = res.deep_view();
        match found {
            Some(j) => {
                // a match at j, none before it
                proof {
                    assert forall|k: int| 0 <= k < j - i implies !spec_matches_at(tail, d@, k) by {
                        lemma_matches_shift(s@, d@, i as int, k);
                    }
                    assert(spec_matches_at(tail, d@, j - i)) by {
                        lemma_matches_shift(s@, d@, i as int, j - i);
                    }
                    lemma_split_at_first_match(tail, d@, j - i);
                }
                let field = s.substring_char(i, j);
                res.push(field.to_owned());
                proof {
                    let rest = spec_split(s@.skip(j + dlen), d@);
                    assert(tail.take(j - i) =~= field@);
                    assert(tail.skip(j - i + d@.len() as int) =~= s@.skip(j + dlen));
                    assert(res.deep_view() =~= prev + seq![field@]);
                    assert(prev + (seq![field@] + rest) =~= (prev + seq![field@]) + rest);
                }
                i = j + dlen;
            }
            None => {
                // no match anywhere at or after i
                proof {
                    assert forall|k: int| 0 <= k implies !spec_matches_at(tail, d@, k) by {
                        if k + d@.len() <= tail.len() {
                            lemma_matches_shift(s@, d@, i as int, k);
                        }
                    }
                    lemma_split_no_match(tail, d@);
                }
                let field = s.substring_char(i, slen);
                res.push(field.to_owned());
                proof {
                    assert(tail =~= field@);
                    assert(res.deep_view() =~= prev + seq![field@]);
                }
                return res;
            }
        }
    }
}

// ================================================================
//  Trimming
// ================================================================

/// The characters the parsers treat as blank space.
pub open spec fn is_space_char(c: char) -> bool {
    c == ' ' || c == '\t' || c == '\r' || c == '\n'
}

pub open spec fn spec_trim_start(s: Seq<char>) -> Seq<char>
    decreases s.len(),
{
    if s.len() > 0 && is_space_char(s[0]) {
        spec_trim_start(s.skip(1))
    } else {
        s
    }
}

pub open spec fn spec_trim_end(s: Seq<char>) -> Seq<char>
    decreases s.len(),
{
    if s.len() > 0 && is_space_char(s.last()) {
        spec_trim_end(s.drop_last())
    } else {
        s
    }
}

/// `s` without leading and trailing blank space.
pub open spec fn spec_trim(s: Seq<char>) -> Seq<char> {
    spec_trim_end(spec_trim_start(s))
}

fn is_space(c: char) -> (r: bool)
    ensures
        r == is_space_char(c),
{
    c == ' ' || c == '\t' || c == '\r' || c == '\n'
}

proof fn lemma_trim_start_at(s: Seq<char>, lo: int)
    requires
        0 <= lo <= s.len(),
        forall|j: int| 0 <= j < lo ==> is_space_char(s[j]),
        lo == s.len() || !is_space_char(s[lo]),
    ensures
        spec_trim_start(s) == s.skip(lo),
    decreases lo,
{
    if lo == 0 {
        assert(s.skip(0) =~= s);
    } else {
        assert(is_space_char(s[0]));
        let t = s.skip(1);
        assert(forall|j: int| 0 <= j < lo - 1 ==> is_space_char(#[trigger] t[j]));
        assert(lo - 1 == t.len() || !is_space_char(t[lo - 1]));
        lemma_trim_start_at(t, lo - 1);
        assert(t.skip(lo - 1) =~= s.skip(lo));
    }
}

proof fn lemma_trim_end_at(s: Seq<char>, hi: int)
    requires
        0 <= hi <= s.len(),
        forall|j: int| hi <= j < s.len() ==> is_space_char(s[j]),
        hi == 0 || !is_space_char(s[hi - 1]),
    ensures
        spec_trim_end(s) == s.take(hi),
    decreases s.len(),
{
    if hi == s.len() {
        if s.len() > 0 {
            assert(!is_space_char(s.last()));
        }
        assert(s.take(hi) =~= s);
    } else {
        assert(is_space_char(s.last()));
        let t = s.drop_last();
        assert(forall|j: int| hi <= j < t.len() ==> is_space_char(#[trigger] t[j]));
        lemma_trim_end_at(t, hi);
        assert(t.take(hi) =~= s.take(hi));
    }
}

/// `s` without leading and trailing blank space, as a borrowed slice.
pub fn trim_str<'a>(s: &'a str) -> (r: &'a str)
    ensures
        r@ == spec_trim(s@),
{
    let slen = s.unicode_len();
    let mut lo: usize = 0;
    while lo < slen && is_space(s.get_char(lo))
        invariant
            lo <= slen,
            slen == s@.len(),
            forall|j: int| 0 <= j < lo ==> is_space_char(s@[j]),
        decreases slen - lo,
    {
        lo += 1;
    }
    let mut hi: usize = slen;
    while hi > lo && is_space(s.get_char(hi - 1))
        invariant
            lo <= hi <= slen,
            slen == s@.len(),
            forall|j: int| hi <= j < slen ==> is_space_char(s@[j]),
        decreases hi,
    {
        hi -= 1;
    }
    proof {
        lemma_trim_start_at(s@, lo as int);
        let t = s@.skip(lo as int);
        assert(forall|j: int| hi - lo <= j < t.len() ==> is_space_char(#[trigger] t[j]));
        assert(hi - lo == 0 || !is_space_char(t[hi - lo - 1]));
        lemma_trim_end_at(t, hi - lo);
        assert(t.take(hi - lo) =~= s@.subrange(lo as int, hi as int));
    }
    s.substring_char(lo, hi)
}

// ================================================================
//  Prefix tests
// ================================================================

/// `p` is a prefix of `s`.
pub open spec fn spec_starts_with(s: Seq<char>, p: Seq<char>) -> bool {
    p.len() <= s.len() && s.take(p.len() as int) == p
}

pub fn starts_with_str(s: &str, p: &str) -> (r: bool)
    ensures
        r == spec_starts_with(s@, p@),
{
    let slen = s.unicode_len();
    let plen = p.unicode_len();
    if plen > slen {
        return false;
    }
    let r = matches_at(s, slen, p, plen, 0);
    proof {
        assert(s@.subrange(0, plen as int) =~= s@.take(plen as int));
    }
    r
}

// ================================================================
//  Removing every blank
// ================================================================

/// `s` with every space character removed.
pub open spec fn spec_remove_spaces(s: Seq<char>) -> Seq<char>
    decreases s.len(),
{
    if s.len() == 0 {
        Seq::empty()
    } else if s[0] == ' ' {
        spec_remove_spaces(s.skip(1))
    } else {
        seq![s[0]] + spec_remove_spaces(s.skip(1))
    }
}

/// The characters of `s` that are not spaces, in order.
pub fn remove_spaces(s: &str) -> (r: Vec<char>)
    ensures
        r@ == spec_remove_spaces(s@),
{
    let slen = s.unicode_len();
    let mut out: Vec<char> = Vec::new();
    let mut i: usize = 0;
    proof {
        assert(s@.skip(0) =~= s@);
    }
    while i < slen
        invariant
            i <= slen,
            slen == s@.len(),
            spec_remove_spaces(s@) == out@ + spec_remove_spaces(s@.skip(i as int)),
        decreases slen - i,
    {
        let c = s.get_char(i);
        let ghost prev = out@;
        let ghost tail = s@.skip(i as int);
        if c != ' ' {
            out.push(c);
        }
        proof {
            assert(tail.skip(1) =~= s@.skip(i + 1));
            if c != ' ' {
                assert(prev + (seq![c] + spec_remove_spaces(s@.skip(i + 1))) =~= out@
                    + spec_remove_spaces(s@.skip(i + 1)));
            }
        }
        i += 1;
    }
    proof {
        assert(spec_remove_spaces(s@.skip(slen as int)) =~= Seq::<char>::empty());
        assert(out@ + Seq::<char>::empty() =~= out@);
    }
    out
}

// ================================================================
//  Lines, equality, membership
// ================================================================

/// A line with a trailing carriage return stripped.
pub open spec fn spec_strip_cr(l: Seq<char>) -> Seq<char> {
    if l.len() > 0 && l.last() == '\r' {
        l.drop_last()
    } else {
        l
    }
}

/// The lines of `s`, as `str::lines` yields them: split on `'\n'`, a
/// final empty field dropped, a trailing `'\r'` stripped from each line.
pub open spec fn spec_lines(s: Seq<char>) -> Seq<Seq<char>> {
    let raw = spec_split(s, seq!['\n']);
    let cut = if raw.len() > 0 && raw.last() == Seq::<char>::empty() {
        raw.drop_last()
    } else {
        raw
    };
    cut.map_values(|l: Seq<char>| spec_strip_cr(l))
}

pub fn split_lines(s: &str) -> (r: Vec<String>)
    ensures
        r.deep_view() == spec_lines(s@),
{
    proof {
        reveal_strlit("\n");
        assert("\n"@ =~= seq!['\n']);
    }
    let mut raw = split_str(s, "\n");
    let ghost rawv = raw.deep_view();
    proof {
        lemma_split_len(s@, seq!['\n']);
        assert(rawv == spec_split(s@, seq!['\n']));
    }
    if raw.len() > 0 && raw[raw.len() - 1].as_str().is_empty() {
        proof {
            assert(rawv.last() == raw@[raw.len() - 1]@);
            assert(rawv.last() =~= Seq::<char>::empty());
        }
        raw.pop();
        proof {
            assert(raw.deep_view() =~= rawv.drop_last());
        }
    } else {
        proof {
            if rawv.len() > 0 {
                assert(rawv.last() == raw@[raw.len() - 1]@);
                assert(rawv.last() != Seq::<char>::empty());
            }
        }
    }
    let ghost cut = raw.deep_view();
    proof {
        assert(cut == if rawv.len() > 0 && rawv.last() == Seq::<char>::empty() {
            rawv.drop_last()
        } else {
            rawv
        });
    }
    let mut out: Vec<String> = Vec::new();
    let mut i: usize = 0;
    while i < raw.len()
        invariant
            i <= raw.len(),
            cut == raw.deep_view(),
            out.deep_view() =~= cut.take(i as int).map_values(|l: Seq<char>| spec_strip_cr(l)),
        decreases raw.len() - i,
    {
        let line = &raw[i];
        proof {
            assert(line@ == cut[i as int]);
        }
        let n = line.as_str().unicode_len();
        let ghost prev = out.deep_view();
        if n > 0 && line.as_str().get_char(n - 1) == '\r' {
            let stripped = line.as_str().substring_char(0, n - 1);
            proof {
                assert(stripped@ =~= spec_strip_cr(cut[i as int]));
            }
            out.push(stripped.to_owned());
        } else {
            proof {
                assert(line@ == spec_strip_cr(cut[i as int]));
            }
            out.push(line.clone());
        }
        proof {
            assert(out.deep_view() =~= prev + seq![spec_strip_cr(cut[i as int])]);
            assert(out.deep_view() =~= cut.take(i + 1).map_values(
                |l: Seq<char>| spec_strip_cr(l),
            ));
        }
        i += 1;
    }
    proof {
        assert(cut.take(raw.len() as int) =~= cut);
    }
    out
}

/// Exact string equality.
pub fn str_eq_str(a: &str, b: &str) -> (r: bool)
    ensures
        r == (a@ == b@),
{
    let alen = a.unicode_len();
    let blen = b.unicode_len();
    if alen != blen {
        return false;
    }
    let r = matches_at(a, alen, b, blen, 0);
    proof {
        assert(a@.subrange(0, blen as int) =~= a@);
    }
    r
}

/// Whether `c` occurs in `s`.
pub fn contains_char(s: &str, c: char) -> (r: bool)
    ensures
        r == s@.contains(c),
{
    let slen = s.unicode_len();
    let mut i: usize = 0;
    while i < slen
        invariant
            i <= slen,
            slen == s@.len(),
            forall|j: int| 0 <= j < i ==> s@[j] != c,
        decreases slen - i,
    {
        if s.get_char(i) == c {
            return true;
        }
        i += 1;
    }
    false
}

/// Every character of `s` with the spaces removed occurs in `s`.
pub proof fn lemma_remove_spaces_membership(s: Seq<char>, c: char)
    requires
        spec_remove_spaces(s).contains(c),
    ensures
        s.contains(c),
    decreases s.len(),
{
    if s.len() > 0 {
        if s[0] == ' ' {
            lemma_remove_spaces_membership(s.skip(1), c);
            let k = choose|k: int| 0 <= k < s.skip(1).len() && s.skip(1)[k] == c;
            assert(s[k + 1] == c);
        } else {
            let r = spec_remove_spaces(s);
            let k = choose|k: int| 0 <= k < r.len() && r[k] == c;
            if k == 0 {
                assert(s[0] == c);
            } else {
                assert(spec_remove_spaces(s.skip(1))[k - 1] == c);
                lemma_remove_spaces_membership(s.skip(1), c);
                let m = choose|m: int| 0 <= m < s.skip(1).len() && s.skip(1)[m] == c;
                assert(s[m + 1] == c);
            }
        }
    }
}

/// `p` is a prefix of `s` once every space is removed from `s`.
pub fn removed_spaces_start_with(s: &str, p: &str) -> (r: bool)
    ensures
        r == spec_starts_with(spec_remove_spaces(s@), p@),
{
    let v = remove_spaces(s);
    let plen = p.unicode_len();
    if plen > v.len() {
        return false;
    }
    let mut i: usize = 0;
    while i < plen
        invariant
            i <= plen,
            plen == p@.len(),
            plen <= v@.len(),
            v@ == spec_remove_spaces(s@),
            forall|j: int| 0 <= j < i ==> v@[j] == p@[j],
        decreases plen - i,
    {
        if v[i] != p.get_char(i) {
            assert(spec_remove_spaces(s@).take(plen as int)[i as int] != p@[i as int]);
            return false;
        }
        i += 1;
    }
    proof {
        assert(v@.take(plen as int) =~= p@);
    }
    true
}

/// A sequence that contains a match of `d` splits into two or more fields.
pub proof fn lemma_split_contains(s: Seq<char>, d: Seq<char>, k: int)
    requires
        1 <= d.len(),
        spec_matches_at(s, d, k),
    ensures
        spec_split(s, d).len() >= 2,
    decreases s.len(),
{
    if s.subrange(0, d.len() as int) == d {
        lemma_split_len(s.skip(d.len() as int), d);
    } else {
        assert(k >= 1) by {
            if k == 0 {
                assert(s.subrange(0, d.len() as int) == d);
            }
        }
        assert(spec_matches_at(s.skip(1), d, k - 1)) by {
            lemma_matches_shift(s, d, 1, k - 1);
        }
        lemma_split_contains(s.skip(1), d, k - 1);
    }
}

// ================================================================
//  Lexicographic order on text
// ================================================================

/// `a` is at or before `b` in code-point order, which is also byte order
/// of the encoded text.
pub open spec fn lex_le(a: Seq<char>, b: Seq<char>) -> bool
    decreases a.len(),
{
    if a.len() == 0 {
        true
    } else if b.len() == 0 {
        false
    } else if a[0] != b[0] {
        a[0] < b[0]
    } else {
        lex_le(a.skip(1), b.skip(1))
    }
}

pub fn str_le(a: &str, b: &str) -> (r: bool)
    ensures
        r == lex_le(a@, b@),
{
    let alen = a.unicode_len();
    let blen = b.unicode_len();
    let mut i: usize = 0;
    proof {
        assert(a@.skip(0) =~= a@);
        assert(b@.skip(0) =~= b@);
    }
    loop
        invariant
            i <= alen,
            i <= blen,
            alen == a@.len(),
            blen == b@.len(),
            lex_le(a@, b@) == lex_le(a@.skip(i as int), b@.skip(i as int)),
        ensures
            lex_le(a@, b@) == lex_le(a@.skip(i as int), b@.skip(i as int)),
            i == alen || (i < blen && a@[i as int] != b@[i as int]) || i == blen,
        decreases alen - i,
    {
        if i >= alen {
            break ;
        }
        if i >= blen {
            break ;
        }
        let ca = a.get_char(i);
        let cb = b.get_char(i);
        if ca != cb {
            break ;
        }
        proof {
            assert(a@.skip(i as int).skip(1) =~= a@.skip(i + 1));
            assert(b@.skip(i as int).skip(1) =~= b@.skip(i + 1));
        }
        i += 1;
    }
    if i >= alen {
        true
    } else if i >= blen {
        false
    } else {
        a.get_char(i) < b.get_char(i)
    }
}

pub proof fn lemma_lex_le_total(a: Seq<char>, b: Seq<char>)
    ensures
        lex_le(a, b) || lex_le(b, a),
    decreases a.len(),
{
    if a.len() > 0 && b.len() > 0 && a[0] == b[0] {
        lemma_lex_le_total(a.skip(1), b.skip(1));
    }
}

pub proof fn lemma_lex_le_trans(a: Seq<char>, b: Seq<char>, c: Seq<char>)
    requires
        lex_le(a, b),
        lex_le(b, c),
    ensures
        lex_le(a, c),
    decreases a.len(),
{
    if a.len() > 0 && b.len() > 0 && c.len() > 0 && a[0] == b[0] && b[0] == c[0] {
        lemma_lex_le_trans(a.skip(1), b.skip(1), c.skip(1));
    }
}

pub proof fn lemma_lex_le_antisym(a: Seq<char>, b: Seq<char>)
    requires
        lex_le(a, b),
        lex_le(b, a),
    ensures
        a == b,
    decreases a.len(),
{
    if a.len() == 0 {
        assert(a =~= b);
    } else {
        assert(a[0] == b[0]);
        lemma_lex_le_antisym(a.skip(1), b.skip(1));
        assert(a.len() == b.len());
        assert forall|i: int| 0 <= i < a.len() implies a[i] == b[i] by {
            if i >= 1 {
                assert(a.skip(1)[i - 1] == b.skip(1)[i - 1]);
            }
        }
        assert(a =~= b);
    }
}

// ================================================================
//  Decimal numbers
// ================================================================

pub open spec fn is_digit_char(c: char) -> bool {
    48 <= c as u32 <= 57
}

pub open spec fn all_digits(s: Seq<char>) -> bool {
    forall|j: int| 0 <= j < s.len() ==> is_digit_char(s[j])
}

/// The value of a string of decimal digits.
pub open spec fn spec_digits_val(s: Seq<char>) -> int
    decreases s.len(),
{
    if s.len() == 0 {
        0
    } else {
        spec_digits_val(s.drop_last()) * 10 + (s.last() as u32 - 48)
    }
}

/// The value of `s` when it is a non-empty string of digits whose value
/// fits in `max`; `0` on any other input, as `parse().unwrap_or(0)` gives.
pub open spec fn spec_parse_decimal(s: Seq<char>, max: int) -> int {
    if s.len() >= 1 && all_digits(s) && spec_digits_val(s) <= max {
        spec_digits_val(s)
    } else {
        0
    }
}

proof fn lemma_digits_val_nonneg(s: Seq<char>)
    requires
        all_digits(s),
    ensures
        spec_digits_val(s) >= 0,
    decreases s.len(),
{
    if s.len() > 0 {
        assert(forall|j: int| 0 <= j < s.len() - 1 ==> is_digit_char(#[trigger] s.drop_last()[j]));
        lemma_digits_val_nonneg(s.drop_last());
    }
}

proof fn lemma_digits_val_prefix_le(s: Seq<char>, k: int)
    requires
        0 <= k <= s.len(),
        all_digits(s),
    ensures
        spec_digits_val(s.take(k)) <= spec_digits_val(s),
    decreases s.len() - k,
{
    if k == s.len() {
        assert(s.take(k) =~= s);
    } else {
        lemma_digits_val_prefix_le(s, k + 1);
        let t = s.take(k + 1);
        assert(t.drop_last() =~= s.take(k));
        assert(spec_digits_val(t) == spec_digits_val(s.take(k)) * 10 + (t.last() as u32 - 48));
        assert(forall|j: int| 0 <= j < k ==> is_digit_char(#[trigger] s.take(k)[j]));
        lemma_digits_val_nonneg(s.take(k));
        assert(is_digit_char(t.last()));
    }
}

/// Parse `s` as a decimal `u64`; `0` on an empty string, a non-digit,
/// or overflow, as `parse().unwrap_or(0)` gives.
pub fn parse_u64_or_zero(s: &str) -> (r: u64)
    ensures
        r == spec_parse_decimal(s@, u64::MAX as int),
{
    let slen = s.unicode_len();
    if slen == 0 {
        return 0;
    }
    let mut acc: u64 = 0;
    let mut i: usize = 0;
    proof {
        assert(s@.take(0) =~= Seq::<char>::empty());
    }
    while i < slen
        invariant
            i <= slen,
            slen == s@.len(),
            acc == spec_digits_val(s@.take(i as int)),
            forall|j: int| 0 <= j < i ==> is_digit_char(s@[j]),
        decreases slen - i,
    {
        let c = s.get_char(i);
        if !(c >= '0' && c <= '9') {
            assert(!all_digits(s@));
            return 0;
        }
        let d: u64 = (c as u32 as u64) - 48;
        proof {
            let t = s@.take(i + 1);
            assert(t.drop_last() =~= s@.take(i as int));
            assert(spec_digits_val(t) == acc * 10 + d);
        }
        if acc > (u64::MAX - d) / 10 {
            // the value no longer fits in 64 bits
            proof {
                assert(acc * 10 + d > u64::MAX) by (nonlinear_arith)
                    requires
                        acc > (u64::MAX - d) / 10,
                        d <= 9,
                ;
                if all_digits(s@) {
                    lemma_digits_val_prefix_le(s@, i + 1);
                }
            }
            return 0;
        }
        proof {
            assert(acc * 10 + d <= u64::MAX) by (nonlinear_arith)
                requires
                    acc <= (u64::MAX - d) / 10,
                    d <= 9,
            ;
        }
        acc = acc * 10 + d;
        i += 1;
    }
    proof {
        assert(s@.take(slen as int) =~= s@);
    }
    acc
}

/// Parse `s` as a decimal `u32`, `0` on empty input, a non-digit, or
/// overflow.
pub fn parse_u32_or_zero(s: &str) -> (r: u32)
    ensures
        r == spec_parse_decimal(s@, u32::MAX as int),
{
    let v = parse_u64_or_zero(s);
    if v > u32::MAX as u64 {
        0
    } else {
        v as u32
    }
}

/// The decimal digit with value `d`.
pub open spec fn digit_char(d: nat) -> char {
    ((d + 48) as u8) as char
}

/// The decimal form of `n`, most significant digit first.
pub open spec fn spec_dec(n: nat) -> Seq<char>
    decreases n,
{
    if n < 10 {
        seq![digit_char(n)]
    } else {
        spec_dec(n / 10) + seq![digit_char(n % 10)]
    }
}

/// `n` as two digits, zero padded, as `{:02}` renders it.
pub open spec fn spec_two_digits(n: nat) -> Seq<char> {
    if n < 10 {
        seq!['0'] + spec_dec(n)
    } else {
        spec_dec(n)
    }
}

fn push_digit(s: &mut String, d: u64)
    requires
        d < 10,
    ensures
        final(s)@ == old(s)@ + seq![digit_char(d as nat)],
{
    proof {
        reveal_strlit("0");
        reveal_strlit("1");
        reveal_strlit("2");
        reveal_strlit("3");
        reveal_strlit("4");
        reveal_strlit("5");
        reveal_strlit("6");
        reveal_strlit("7");
        reveal_strlit("8");
        reveal_strlit("9");
    }
    match d {
        0 => s.append("0"),
        1 => s.append("1"),
        2 => s.append("2"),
        3 => s.append("3"),
        4 => s.append("4"),
        5 => s.append("5"),
        6 => s.append("6"),
        7 => s.append("7"),
        8 => s.append("8"),
        _ => s.append("9"),
    }
}

fn push_dec(s: &mut String, n: u64)
    ensures
        final(s)@ == old(s)@ + spec_dec(n as nat),
    decreases n,
{
    if n < 10 {
        push_digit(s, n);
    } else {
        push_dec(s, n / 10);
        push_digit(s, n % 10);
        proof {
            assert((old(s)@ + spec_dec((n / 10) as nat)) + seq![digit_char((n % 10) as nat)]
                =~= old(s)@ + (spec_dec((n / 10) as nat) + seq![digit_char((n % 10) as nat)]));
        }
    }
}

/// `n` rendered in decimal.
pub fn u64_to_string(n: u64) -> (r: String)
    ensures
        r@ == spec_dec(n as nat),
{
    let mut s = String::new();
    push_dec(&mut s, n);
    proof {
        assert(Seq::<char>::empty() + spec_dec(n as nat) =~= spec_dec(n as nat));
    }
    s
}

/// Append `n` rendered as two zero-padded digits.
pub fn push_two_digits(s: &mut String, n: u64)
    ensures
        final(s)@ == old(s)@ + spec_two_digits(n as nat),
{
    if n < 10 {
        proof {
            reveal_strlit("0");
        }
        s.append("0");
        push_dec(s, n);
        proof {
            assert((old(s)@ + seq!['0']) + spec_dec(n as nat) =~= old(s)@ + (seq!['0']
                + spec_dec(n as nat)));
        }
    } else {
        push_dec(s, n);
    }
}

// ================================================================
//  Replacing every match of a pattern
// ================================================================

/// `s` with every non-overlapping match of `pat` replaced by `rep`,
/// leftmost first, as `str::replace` produces it.
pub open spec fn spec_replace_all(s: Seq<char>, pat: Seq<char>, rep: Seq<char>) -> Seq<char>
    decreases s.len(),
{
    if pat.len() == 0 || s.len() < pat.len() {
        s
    } else if s.subrange(0, pat.len() as int) == pat {
        rep + spec_replace_all(s.skip(pat.len() as int), pat, rep)
    } else {
        seq![s[0]] + spec_replace_all(s.skip(1), pat, rep)
    }
}

proof fn lemma_replace_at_first_match(s: Seq<char>, pat: Seq<char>, rep: Seq<char>, j: int)
    requires
        1 <= pat.len(),
        0 <= j,
        spec_matches_at(s, pat, j),
        forall|k: int| 0 <= k < j ==> !spec_matches_at(s, pat, k),
    ensures
        spec_replace_all(s, pat, rep) == s.take(j) + rep + spec_replace_all(
            s.skip(j + pat.len() as int),
            pat,
            rep,
        ),
    decreases j,
{
    if j == 0 {
        assert(s.subrange(0, pat.len() as int) == pat);
        assert(s.take(0) =~= Seq::<char>::empty());
        assert(s.take(0) + rep =~= rep);
    } else {
        assert(s.len() >= j + pat.len());
        assert(s.subrange(0, pat.len() as int) != pat) by {
            if s.subrange(0, pat.len() as int) == pat {
                assert(spec_matches_at(s, pat, 0));
            }
        }
        let t = s.skip(1);
        assert forall|k: int| 0 <= k < j - 1 implies !spec_matches_at(t, pat, k) by {
            lemma_matches_shift(s, pat, 1, k);
        }
        assert(spec_matches_at(t, pat, j - 1)) by {
            lemma_matches_shift(s, pat, 1, j - 1);
        }
        lemma_replace_at_first_match(t, pat, rep, j - 1);
        assert(t.skip(j - 1 + pat.len() as int) =~= s.skip(j + pat.len() as int));
        assert(seq![s[0]] + (t.take(j - 1) + rep + spec_replace_all(
            s.skip(j + pat.len() as int),
            pat,
            rep,
        )) =~= s.take(j) + rep + spec_replace_all(s.skip(j + pat.len() as int), pat, rep));
    }
}

proof fn lemma_replace_no_match(s: Seq<char>, pat: Seq<char>, rep: Seq<char>)
    requires
        1 <= pat.len(),
        forall|k: int| 0 <= k ==> !spec_matches_at(s, pat, k),
    ensures
        spec_replace_all(s, pat, rep) == s,
    decreases s.len(),
{
    if s.len() < pat.len() {
    } else {
        assert(s.subrange(0, pat.len() as int) != pat) by {
            if s.subrange(0, pat.len() as int) == pat {
                assert(spec_matches_at(s, pat, 0));
            }
        }
        let t = s.skip(1);
        assert forall|k: int| 0 <= k implies !spec_matches_at(t, pat, k) by {
            lemma_matches_shift(s, pat, 1, k);
        }
        lemma_replace_no_match(t, pat, rep);
        assert(seq![s[0]] + t =~= s);
    }
}

/// Replace every non-overlapping match of `pat` in `s` by `rep`,
/// leftmost first.
pub fn replace_all(s: &str, pat: &str, rep: &str) -> (r: String)
    requires
        pat@.len() >= 1,
    ensures
        r@ == spec_replace_all(s@, pat@, rep@),
{
    let slen = s.unicode_len();
    let plen = pat.unicode_len();
    let mut out = String::new();
    let mut i: usize = 0;
    proof {
        assert(s@.skip(0) =~= s@);
        assert(out@ + spec_replace_all(s@, pat@, rep@) =~= spec_replace_all(s@, pat@, rep@));
    }
    loop
        invariant
            i <= slen,
            slen == s@.len(),
            plen == pat@.len(),
            plen >= 1,
            spec_replace_all(s@, pat@, rep@) == out@ + spec_replace_all(
                s@.skip(i as int),
                pat@,
                rep@,
            ),
        ensures
            out@ == spec_replace_all(s@, pat@, rep@),
        decreases slen - i,
    {
        let found = find_from(s, slen, pat, plen, i);
        let ghost tail = s@.skip(i as int);
        let ghost prev = out@;
        match found {
            Some(j) => {
                proof {
                    assert forall|k: int| 0 <= k < j - i implies !spec_matches_at(
                        tail,
                        pat@,
                        k,
                    ) by {
                        lemma_matches_shift(s@, pat@, i as int, k);
                    }
                    assert(spec_matches_at(tail, pat@, j - i)) by {
                        lemma_matches_shift(s@, pat@, i as int, j - i);
                    }
                    lemma_replace_at_first_match(tail, pat@, rep@, j - i);
                }
                let field = s.substring_char(i, j);
                out.append(field);
                out.append(rep);
                proof {
                    let rest = spec_replace_all(s@.skip(j + plen), pat@, rep@);
                    assert(tail.take(j - i) =~= field@);
                    assert(tail.skip(j - i + pat@.len() as int) =~= s@.skip(j + plen));
                    assert(prev + (field@ + rep@ + rest) =~= ((prev + field@) + rep@) + rest);
                }
                i = j + plen;
            }
            None => {
                proof {
                    assert forall|k: int| 0 <= k implies !spec_matches_at(tail, pat@, k) by {
                        if k + pat@.len() <= tail.len() {
                            lemma_matches_shift(s@, pat@, i as int, k);
                        }
                    }
                    lemma_replace_no_match(tail, pat@, rep@);
                }
                let field = s.substring_char(i, slen);
                out.append(field);
                proof {
                    assert(tail =~= field@);
                }
                return out;
            }
        }
    }
}

/// Parse `s` as a decimal `usize`; `None` on an empty string, a
/// non-digit, or a value that does not fit.
pub fn parse_usize_checked(s: &str) -> (r: Option<usize>)
    ensures
        match r {
            Some(v) => s@.len() >= 1 && all_digits(s@) && spec_digits_val(s@) == v,
            None => !(s@.len() >= 1 && all_digits(s@) && spec_digits_val(s@) <= usize::MAX),
        },
{
    let slen = s.unicode_len();
    if slen == 0 {
        return None;
    }
    let mut acc: usize = 0;
    let mut i: usize = 0;
    proof {
        assert(s@.take(0) =~= Seq::<char>::empty());
    }
    while i < slen
        invariant
            i <= slen,
            slen == s@.len(),
            slen >= 1,
            acc == spec_digits_val(s@.take(i as int)),
            forall|j: int| 0 <= j < i ==> is_digit_char(s@[j]),
        decreases slen - i,
    {
        let c = s.get_char(i);
        if !(c >= '0' && c <= '9') {
            assert(!all_digits(s@));
            return None;
        }
        let d: usize = ((c as u32) - 48) as usize;
        proof {
            let t = s@.take(i + 1);
            assert(t.drop_last() =~= s@.take(i as int));
            assert(spec_digits_val(t) == acc * 10 + d);
        }
        if acc > (usize::MAX - d) / 10 {
            proof {
                assert(acc * 10 + d > usize::MAX) by (nonlinear_arith)
                    requires
                        acc > (usize::MAX - d) / 10,
                        d <= 9,
                ;
                if all_digits(s@) {
                    lemma_digits_val_prefix_le(s@, i + 1);
                }
            }
            return None;
        }
        proof {
            assert(acc * 10 + d <= usize::MAX) by (nonlinear_arith)
                requires
                    acc <= (usize::MAX - d) / 10,
                    d <= 9,
            ;
        }
        acc = acc * 10 + d;
        i += 1;
    }
    proof {
        assert(s@.take(slen as int) =~= s@);
    }
    Some(acc)
}

} // verus!
