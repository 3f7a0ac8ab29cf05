//! Byte-level text helpers: searching for a byte, taking the n-th
//! separator-delimited segment, the n-th whitespace-delimited token,
//! removing chosen bytes, and substring search.

use vstd::prelude::*;

verus! {

/// The position of the first occurrence of `b` in `s` at or after `i`,
/// or `s.len()` if there is none.
pub open spec fn find_from(s: Seq<u8>, b: u8, i: nat) -> nat
    decreases s.len() - i,
{
    if i >= s.len() {
        s.len()
    } else if s[i as int] == b {
        i
    } else {
        find_from(s, b, i + 1)
    }
}

proof fn lemma_find_from_bounds(s: Seq<u8>, b: u8, i: nat)
    requires
        i <= s.len(),
    ensures
        i <= find_from(s, b, i) <= s.len(),
    decreases s.len() - i,
{
    if i < s.len() && s[i as int] != b {
        lemma_find_from_bounds(s, b, i + 1);
    }
}

/// Finds the first occurrence of `b` in `s` at or after `start`.
pub fn find_byte_from(s: &[u8], b: u8, start: usize) -> (r: usize)
    requires
        start <= s@.len(),
    ensures
        r == find_from(s@, b, start as nat),
        r <= s@.len(),
{
    let mut i: usize = start;
    loop
        invariant
            start <= i <= s@.len(),
            find_from(s@, b, start as nat) == find_from(s@, b, i as nat),
        decreases s@.len() - i,
    {
        if i == s.len() {
            return i;
        }
        if s[i] == b {
            return i;
        }
        i = i + 1;
    }
}

/// Where the `n`-th segment starts when `s` is split at every occurrence of
/// `sep` (segment 0 starts at 0; each later one just past the previous
/// separator). `s.len() + 1` means the segment does not exist.
pub open spec fn seg_start(s: Seq<u8>, sep: u8, n: nat) -> nat
    decreases n,
{
    if n == 0 {
        0
    } else {
        find_from(s, sep, seg_start(s, sep, (n - 1) as nat)) + 1
    }
}

/// Splitting at `sep` yields at least `n + 1` segments.
pub open spec fn has_segment(s: Seq<u8>, sep: u8, n: nat) -> bool {
    seg_start(s, sep, n) <= s.len()
}

/// The `n`-th segment of `s` split at `sep`.
pub open spec fn segment(s: Seq<u8>, sep: u8, n: nat) -> Seq<u8> {
    s.subrange(seg_start(s, sep, n) as int, find_from(s, sep, seg_start(s, sep, n)) as int)
}

/// Returns the bounds of the `n`-th segment of `s` split at `sep`, or `None`
/// when fewer than `n + 1` segments exist.
pub fn nth_segment_bounds(s: &[u8], sep: u8, n: usize) -> (r: Option<(usize, usize)>)
    ensures
        r is Some <==> has_segment(s@, sep, n as nat),
        r is Some ==> {
            let (lo, hi) = r->Some_0;
            lo == seg_start(s@, sep, n as nat) && hi == find_from(s@, sep, lo as nat) && lo <= hi
                <= s@.len()
        },
{
    let mut k: usize = 0;
    let mut start: usize = 0;
    loop
        invariant
            k <= n,
            start == seg_start(s@, sep, k as nat),
            start <= s@.len(),
        decreases n - k,
    {
        proof {
            lemma_find_from_bounds(s@, sep, start as nat);
        }
        if k == n {
            let end = find_byte_from(s, sep, start);
            return Some((start, end));
        }
        let sep_pos = find_byte_from(s, sep, start);
        if sep_pos == s.len() {
            // No further separator: segment k is the last one.
            proof {
                lemma_seg_start_gone(s@, sep, (k + 1) as nat, n as nat);
            }
            return None;
        }
        start = sep_pos + 1;
        k = k + 1;
    }
}

/// Once a segment start lies past the end of `s`, so do all later ones.
proof fn lemma_seg_start_gone(s: Seq<u8>, sep: u8, m: nat, n: nat)
    requires
        m <= n,
        seg_start(s, sep, m) > s.len(),
    ensures
        seg_start(s, sep, n) > s.len(),
    decreases n - m,
{
    if m < n {
        assert(find_from(s, sep, seg_start(s, sep, m)) == s.len());
        lemma_seg_start_gone(s, sep, m + 1, n);
    }
}

/// ASCII whitespace, as found in mixer output: space, tab, carriage return,
/// line feed.
pub open spec fn is_ws(b: u8) -> bool {
    b == 32 || b == 9 || b == 13 || b == 10
}

/// The position of the first non-whitespace byte at or after `i`, or
/// `s.len()`.
pub open spec fn skip_ws(s: Seq<u8>, i: nat) -> nat
    decreases s.len() - i,
{
    if i >= s.len() {
        s.len()
    } else if is_ws(s[i as int]) {
        skip_ws(s, i + 1)
    } else {
        i
    }
}

/// The position of the first whitespace byte at or after `i`, or `s.len()`.
pub open spec fn skip_token(s: Seq<u8>, i: nat) -> nat
    decreases s.len() - i,
{
    if i >= s.len() {
        s.len()
    } else if is_ws(s[i as int]) {
        i
    } else {
        skip_token(s, i + 1)
    }
}

/// Where the `n`-th whitespace-delimited token of `s` starts; `s.len()`
/// means the token does not exist.
pub open spec fn tok_start(s: Seq<u8>, n: nat) -> nat
    decreases n,
{
    if n == 0 {
        skip_ws(s, 0)
    } else {
        skip_ws(s, skip_token(s, tok_start(s, (n - 1) as nat)))
    }
}

/// `s` has at least `n + 1` whitespace-delimited tokens.
pub open spec fn has_token(s: Seq<u8>, n: nat) -> bool {
    tok_start(s, n) < s.len()
}

/// The `n`-th whitespace-delimited token of `s`.
pub open spec fn token(s: Seq<u8>, n: nat) -> Seq<u8> {
    s.subrange(tok_start(s, n) as int, skip_token(s, tok_start(s, n)) as int)
}

proof fn lemma_skip_token_bounds(s: Seq<u8>, i: nat)
    requires
        i <= s.len(),
    ensures
        i <= skip_token(s, i) <= s.len(),
    decreases s.len() - i,
{
    if i < s.len() && !is_ws(s[i as int]) {
        lemma_skip_token_bounds(s, i + 1);
    }
}

/// Finds the first non-whitespace byte at or after `start`.
fn skip_ws_from(s: &[u8], start: usize) -> (r: usize)
    requires
        start <= s@.len(),
    ensures
        r == skip_ws(s@, start as nat),
        r <= s@.len(),
{
    let mut i: usize = start;
    loop
        invariant
            start <= i <= s@.len(),
            skip_ws(s@, start as nat) == skip_ws(s@, i as nat),
        decreases s@.len() - i,
    {
        if i == s.len() {
            return i;
        }
        let b = s[i];
        if !(b == 32 || b == 9 || b == 13 || b == 10) {
            return i;
        }
        i = i + 1;
    }
}

/// Finds the first whitespace byte at or after `start`.
fn skip_token_from(s: &[u8], start: usize) -> (r: usize)
    requires
        start <= s@.len(),
    ensures
        r == skip_token(s@, start as nat),
        r <= s@.len(),
{
    let mut i: usize = start;
    loop
        invariant
            start <= i <= s@.len(),
            skip_token(s@, start as nat) == skip_token(s@, i as nat),
        decreases s@.len() - i,
    {
        if i == s.len() {
            return i;
        }
        let b = s[i];
        if b == 32 || b == 9 || b == 13 || b == 10 {
            return i;
        }
        i = i + 1;
    }
}

/// Returns the bounds of the `n`-th whitespace-delimited token of `s`, or
/// `None` when fewer than `n + 1` tokens exist.
pub fn nth_token_bounds(s: &[u8], n: usize) -> (r: Option<(usize, usize)>)
    ensures
        r is Some <==> has_token(s@, n as nat),
        r is Some ==> {
            let (lo, hi) = r->Some_0;
            lo == tok_start(s@, n as nat) && hi == skip_token(s@, lo as nat) && lo <= hi
                <= s@.len()
        },
{
    let mut k: usize = 0;
    let mut start: usize = skip_ws_from(s, 0);
    loop
        invariant
            k <= n,
            start == tok_start(s@, k as nat),
            start <= s@.len(),
        decreases n - k,
    {
        if start == s.len() {
            // No byte starts token k, so no later token exists either.
            proof {
                lemma_tok_start_gone(s@, k as nat, n as nat);
            }
            return None;
        }
        if k == n {
            proof {
                lemma_skip_token_bounds(s@, start as nat);
            }
            let end = skip_token_from(s, start);
            return Some((start, end));
        }
        let tok_end = skip_token_from(s, start);
        start = skip_ws_from(s, tok_end);
        k = k + 1;
    }
}

/// Once a token start reaches the end of `s`, so do all later ones.
proof fn lemma_tok_start_gone(s: Seq<u8>, m: nat, n: nat)
    requires
        m <= n,
        tok_start(s, m) == s.len(),
    ensures
        tok_start(s, n) == s.len(),
    decreases n - m,
{
    if m < n {
        assert(skip_token(s, tok_start(s, m)) == s.len());
        assert(skip_ws(s, skip_token(s, tok_start(s, m))) == s.len());
        assert(tok_start(s, m + 1) == s.len());
        lemma_tok_start_gone(s, m + 1, n);
    }
}

/// `s` with every occurrence of the bytes `a` and `b` removed, order of the
/// remaining bytes kept.
pub open spec fn without_bytes(s: Seq<u8>, a: u8, b: u8) -> Seq<u8>
    decreases s.len(),
{
    if s.len() == 0 {
        Seq::empty()
    } else {
        let prefix = without_bytes(s.drop_last(), a, b);
        if s.last() == a || s.last() == b {
            prefix
        } else {
            prefix.push(s.last())
        }
    }
}

/// Copies `s` while dropping every occurrence of `a` and `b`.
pub fn remove_bytes(s: &[u8], a: u8, b: u8) -> (r: Vec<u8>)
    ensures
        r@ == without_bytes(s@, a, b),
        forall|k: int| 0 <= k < r@.len() ==> r@[k] != a && r@[k] != b,
{
    let mut out: Vec<u8> = Vec::new();
    let mut i: usize = 0;
    while i < s.len()
        invariant
            i <= s@.len(),
            out@ == without_bytes(s@.subrange(0, i as int), a, b),
            forall|k: int| 0 <= k < out@.len() ==> out@[k] != a && out@[k] != b,
        decreases s@.len() - i,
    {
        let b0 = s[i];
        proof {
            assert(s@.subrange(0, i + 1).drop_last() =~= s@.subrange(0, i as int));
            assert(s@.subrange(0, i + 1).last() == s@[i as int]);
        }
        if !(b0 == a || b0 == b) {
            out.push(b0);
        }
        i = i + 1;
    }
    proof {
        assert(s@.subrange(0, s@.len() as int) =~= s@);
    }
    out
}

/// `pat` occurs in `s` starting at position `i`.
pub open spec fn is_match_at(s: Seq<u8>, pat: Seq<u8>, i: int) -> bool {
    0 <= i && i + pat.len() <= s.len() && s.subrange(i, i + pat.len()) =~= pat
}

/// `pat` occurs somewhere in `s`.
pub open spec fn contains_seq(s: Seq<u8>, pat: Seq<u8>) -> bool {
    exists|i: int| is_match_at(s, pat, i)
}

/// Compares `pat` against `s` at position `i`.
fn match_at(s: &[u8], pat: &[u8], i: usize) -> (r: bool)
    requires
        i + pat@.len() <= s@.len(),
    ensures
        r == is_match_at(s@, pat@, i as int),
{
    let slen = s.len();
    let mut j: usize = 0;
    while j < pat.len()
        invariant
            j <= pat@.len(),
            i + pat@.len() <= s@.len(),
            s@.len() == slen,
            forall|k: int| 0 <= k < j ==> s@[i + k] == pat@[k],
        decreases pat@.len() - j,
    {
        if s[i + j] != pat[j] {
            assert(!is_match_at(s@, pat@, i as int)) by {
                assert(s@.subrange(i as int, i + pat@.len())[j as int] == s@[i + j]);
            }
            return false;
        }
        j = j + 1;
    }
    assert(s@.subrange(i as int, i + pat@.len()) =~= pat@);
    true
}

/// Substring search: does `pat` occur anywhere in `s`?
pub fn contains_bytes(s: &[u8], pat: &[u8]) -> (r: bool)
    ensures
        r == contains_seq(s@, pat@),
{
    if pat.len() > s.len() {
        assert(!contains_seq(s@, pat@));
        return false;
    }
    let mut i: usize = 0;
    while i <= s.len() - pat.len()
        invariant
            pat@.len() <= s@.len(),
            i <= s@.len() - pat@.len() + 1,
            forall|k: int| 0 <= k < i ==> !is_match_at(s@, pat@, k),
        decreases s@.len() - pat@.len() + 1 - i,
    {
        if match_at(s, pat, i) {
            return true;
        }
        i = i + 1;
    }
    assert(forall|k: int| is_match_at(s@, pat@, k) ==> 0 <= k <= s@.len() - pat@.len());
    false
}

} // verus!
