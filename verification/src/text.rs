//! Byte-level text utilities shared by the command parser, the emotion
//! detector and the custom-command matcher.  All matching is ASCII
//! case-insensitive; bytes outside the ASCII range pass through unchanged.

use vstd::prelude::*;

verus! {

/// ASCII lowercase of one byte.
pub open spec fn spec_lower_byte(b: u8) -> u8 {
    if 65 <= b && b <= 90 {
        (b + 32) as u8
    } else {
        b
    }
}

/// ASCII lowercase of a byte sequence.
pub open spec fn spec_lower(s: Seq<u8>) -> Seq<u8> {
    s.map_values(|b: u8| spec_lower_byte(b))
}

/// ASCII lowercase of one byte.
pub fn lower_byte(b: u8) -> (r: u8)
    ensures
        r == spec_lower_byte(b),
{
    if 65 <= b && b <= 90 {
        b + 32
    } else {
        b
    }
}

/// ASCII lowercase of a byte string.
pub fn lower_bytes(s: &[u8]) -> (r: Vec<u8>)
    ensures
        r@ == spec_lower(s@),
{
    let mut r: Vec<u8> = Vec::new();
    let mut i: usize = 0;
    while i < s.len()
        invariant
            i <= s.len(),
            r@ == spec_lower(s@.subrange(0, i as int)),
        decreases s.len() - i,
    {
        r.push(lower_byte(s[i]));
        proof {
            assert(s@.subrange(0, i + 1).drop_last() =~= s@.subrange(0, i as int));
            assert(r@ =~= spec_lower(s@.subrange(0, i + 1)));
        }
        i = i + 1;
    }
    proof {
        assert(s@.subrange(0, s@.len() as int) =~= s@);
    }
    r
}

/// An ASCII whitespace byte: space, tab, line feed, vertical tab, form
/// feed or carriage return.
pub open spec fn spec_is_space(b: u8) -> bool {
    b == 32 || (9 <= b && b <= 13)
}

/// An ASCII whitespace byte.
pub fn is_space(b: u8) -> (r: bool)
    ensures
        r == spec_is_space(b),
{
    b == 32 || (9 <= b && b <= 13)
}

/// The pattern occurs in `s` starting at position `i`.
pub open spec fn spec_matches_at(s: Seq<u8>, p: Seq<u8>, i: int) -> bool {
    0 <= i && i + p.len() <= s.len() && s.subrange(i, i + p.len()) == p
}

/// First position at or after `i` where the pattern occurs in `s`.
pub open spec fn spec_find_from(s: Seq<u8>, p: Seq<u8>, i: int) -> Option<int>
    recommends
        0 <= i,
    decreases s.len() - i + 1,
{
    if i < 0 || i + p.len() > s.len() {
        None
    } else if spec_matches_at(s, p, i) {
        Some(i)
    } else {
        spec_find_from(s, p, i + 1)
    }
}

/// First position where the pattern occurs in `s`.
pub open spec fn spec_find(s: Seq<u8>, p: Seq<u8>) -> Option<int> {
    spec_find_from(s, p, 0)
}

/// The pattern occurs somewhere in `s`.
pub open spec fn spec_contains(s: Seq<u8>, p: Seq<u8>) -> bool {
    spec_find(s, p) is Some
}

/// A found position is at or after the start and the pattern occurs there.
pub proof fn lemma_find_some(s: Seq<u8>, p: Seq<u8>, start: int, i: int)
    requires
        0 <= start,
        spec_find_from(s, p, start) == Some(i),
    ensures
        start <= i,
        spec_matches_at(s, p, i),
    decreases s.len() - start + 1,
{
    if start + p.len() > s.len() {
    } else if spec_matches_at(s, p, start) {
    } else {
        lemma_find_some(s, p, start + 1, i);
    }
}

/// Whether the pattern occurs in the byte string at position `i`.
pub fn match_at(s: &[u8], p: &[u8], i: usize) -> (r: bool)
    requires
        i + p@.len() <= s@.len(),
    ensures
        r == spec_matches_at(s@, p@, i as int),
{
    let n = s.len();
    let mut j: usize = 0;
    while j < p.len()
        invariant
            j <= p@.len(),
            i + p@.len() <= n,
            n == s@.len(),
            forall|t: int| 0 <= t < j ==> s@[i + t] == p@[t],
        decreases p@.len() - j,
    {
        if s[i + j] != p[j] {
            proof {
                assert(s@.subrange(i as int, i + p@.len())[j as int] == s@[i + j]);
            }
            return false;
        }
        j = j + 1;
    }
    proof {
        assert(s@.subrange(i as int, i + p@.len()) =~= p@);
    }
    true
}

/// First position where the pattern occurs in the byte string, if any.
pub fn find_sub(s: &[u8], p: &[u8]) -> (r: Option<usize>)
    ensures
        match r {
            Some(i) => spec_find(s@, p@) == Some(i as int),
            None => spec_find(s@, p@) is None,
        },
{
    if p.len() > s.len() {
        return None;
    }
    if p.len() == 0 {
        proof {
            assert(s@.subrange(0, 0) =~= p@);
        }
        return Some(0);
    }
    let mut i: usize = 0;
    while i <= s.len() - p.len()
        invariant
            1 <= p@.len() <= s@.len(),
            i <= s@.len() - p@.len() + 1,
            spec_find(s@, p@) == spec_find_from(s@, p@, i as int),
        decreases s@.len() - i,
    {
        if match_at(s, p, i) {
            return Some(i);
        }
        i = i + 1;
    }
    None
}

/// The pattern occurs somewhere in the byte string.
pub fn contains_sub(s: &[u8], p: &[u8]) -> (r: bool)
    ensures
        r == spec_contains(s@, p@),
{
    find_sub(s, p).is_some()
}

/// The bytes of `s` from `a` up to `b`.
pub fn sub_bytes(s: &[u8], a: usize, b: usize) -> (r: Vec<u8>)
    requires
        a <= b <= s@.len(),
    ensures
        r@ == s@.subrange(a as int, b as int),
{
    let mut r: Vec<u8> = Vec::new();
    let mut i: usize = a;
    while i < b
        invariant
            a <= i <= b <= s@.len(),
            r@ =~= s@.subrange(a as int, i as int),
        decreases b - i,
    {
        r.push(s[i]);
        proof {
            assert(r@ =~= s@.subrange(a as int, i + 1));
        }
        i = i + 1;
    }
    r
}

/// First position at or after `i` holding a byte that is not whitespace,
/// or the length.
pub open spec fn spec_skip_ws(s: Seq<u8>, i: int) -> int
    recommends
        0 <= i <= s.len(),
    decreases s.len() - i,
{
    if i < 0 || i >= s.len() {
        i
    } else if spec_is_space(s[i]) {
        spec_skip_ws(s, i + 1)
    } else {
        i
    }
}

/// First position at or after `i` holding a whitespace byte, or the
/// length.
pub open spec fn spec_token_end(s: Seq<u8>, i: int) -> int
    recommends
        0 <= i <= s.len(),
    decreases s.len() - i,
{
    if i < 0 || i >= s.len() {
        i
    } else if !spec_is_space(s[i]) {
        spec_token_end(s, i + 1)
    } else {
        i
    }
}

/// Position just after the last byte before `i` that is not whitespace,
/// or zero.
pub open spec fn spec_rskip_ws(s: Seq<u8>, i: int) -> int
    recommends
        0 <= i <= s.len(),
    decreases i,
{
    if i <= 0 {
        0
    } else if spec_is_space(s[i - 1]) {
        spec_rskip_ws(s, i - 1)
    } else {
        i
    }
}

/// Start of the whitespace-free run that ends at `i`.
pub open spec fn spec_rtoken_start(s: Seq<u8>, i: int) -> int
    recommends
        0 <= i <= s.len(),
    decreases i,
{
    if i <= 0 {
        0
    } else if !spec_is_space(s[i - 1]) {
        spec_rtoken_start(s, i - 1)
    } else {
        i
    }
}

/// The first whitespace-separated token of `s`, empty if there is none.
pub open spec fn spec_first_token(s: Seq<u8>) -> Seq<u8> {
    s.subrange(spec_skip_ws(s, 0), spec_token_end(s, spec_skip_ws(s, 0)))
}

/// The last whitespace-separated token of `s`, empty if there is none.
pub open spec fn spec_last_token(s: Seq<u8>) -> Seq<u8> {
    s.subrange(
        spec_rtoken_start(s, spec_rskip_ws(s, s.len() as int)),
        spec_rskip_ws(s, s.len() as int),
    )
}

/// `s` without leading and trailing whitespace.
pub open spec fn spec_trim(s: Seq<u8>) -> Seq<u8> {
    if spec_skip_ws(s, 0) <= spec_rskip_ws(s, s.len() as int) {
        s.subrange(spec_skip_ws(s, 0), spec_rskip_ws(s, s.len() as int))
    } else {
        Seq::empty()
    }
}

fn skip_ws_exec(s: &[u8], start: usize) -> (r: usize)
    requires
        start <= s@.len(),
    ensures
        r == spec_skip_ws(s@, start as int),
        start <= r <= s@.len(),
{
    let mut i: usize = start;
    while i < s.len() && is_space(s[i])
        invariant
            start <= i <= s@.len(),
            spec_skip_ws(s@, start as int) == spec_skip_ws(s@, i as int),
        decreases s@.len() - i,
    {
        i = i + 1;
    }
    i
}

fn token_end_exec(s: &[u8], start: usize) -> (r: usize)
    requires
        start <= s@.len(),
    ensures
        r == spec_token_end(s@, start as int),
        start <= r <= s@.len(),
{
    let mut i: usize = start;
    while i < s.len() && !is_space(s[i])
        invariant
            start <= i <= s@.len(),
            spec_token_end(s@, start as int) == spec_token_end(s@, i as int),
        decreases s@.len() - i,
    {
        i = i + 1;
    }
    i
}

fn rskip_ws_exec(s: &[u8], end: usize) -> (r: usize)
    requires
        end <= s@.len(),
    ensures
        r == spec_rskip_ws(s@, end as int),
        r <= end,
{
    let mut i: usize = end;
    while i > 0 && is_space(s[i - 1])
        invariant
            i <= end <= s@.len(),
            spec_rskip_ws(s@, end as int) == spec_rskip_ws(s@, i as int),
        decreases i,
    {
        i = i - 1;
    }
    i
}

fn rtoken_start_exec(s: &[u8], end: usize) -> (r: usize)
    requires
        end <= s@.len(),
    ensures
        r == spec_rtoken_start(s@, end as int),
        r <= end,
{
    let mut i: usize = end;
    while i > 0 && !is_space(s[i - 1])
        invariant
            i <= end <= s@.len(),
            spec_rtoken_start(s@, end as int) == spec_rtoken_start(s@, i as int),
        decreases i,
    {
        i = i - 1;
    }
    i
}

/// The first whitespace-separated token of a byte string.
pub fn first_token(s: &[u8]) -> (r: Vec<u8>)
    ensures
        r@ == spec_first_token(s@),
{
    let a = skip_ws_exec(s, 0);
    let b = token_end_exec(s, a);
    sub_bytes(s, a, b)
}

/// The last whitespace-separated token of a byte string.
pub fn last_token(s: &[u8]) -> (r: Vec<u8>)
    ensures
        r@ == spec_last_token(s@),
{
    let e = rskip_ws_exec(s, s.len());
    let a = rtoken_start_exec(s, e);
    sub_bytes(s, a, e)
}

/// A byte string without leading and trailing whitespace.
pub fn trim_bytes(s: &[u8]) -> (r: Vec<u8>)
    ensures
        r@ == spec_trim(s@),
{
    let a = skip_ws_exec(s, 0);
    let b = rskip_ws_exec(s, s.len());
    if a <= b {
        sub_bytes(s, a, b)
    } else {
        Vec::new()
    }
}

/// First position at or after `i` holding a byte other than `c`.
pub open spec fn spec_skip_byte(s: Seq<u8>, c: u8, i: int) -> int
    recommends
        0 <= i <= s.len(),
    decreases s.len() - i,
{
    if i < 0 || i >= s.len() {
        i
    } else if s[i] == c {
        spec_skip_byte(s, c, i + 1)
    } else {
        i
    }
}

/// Position just after the last byte before `i` other than `c`, or zero.
pub open spec fn spec_rskip_byte(s: Seq<u8>, c: u8, i: int) -> int
    recommends
        0 <= i <= s.len(),
    decreases i,
{
    if i <= 0 {
        0
    } else if s[i - 1] == c {
        spec_rskip_byte(s, c, i - 1)
    } else {
        i
    }
}

/// `s` without leading and trailing occurrences of the byte `c`.
pub open spec fn spec_trim_byte(s: Seq<u8>, c: u8) -> Seq<u8> {
    if spec_skip_byte(s, c, 0) <= spec_rskip_byte(s, c, s.len() as int) {
        s.subrange(spec_skip_byte(s, c, 0), spec_rskip_byte(s, c, s.len() as int))
    } else {
        Seq::empty()
    }
}

/// A byte string without leading and trailing occurrences of one byte.
pub fn trim_byte(s: &[u8], c: u8) -> (r: Vec<u8>)
    ensures
        r@ == spec_trim_byte(s@, c),
{
    let mut a: usize = 0;
    while a < s.len() && s[a] == c
        invariant
            a <= s@.len(),
            spec_skip_byte(s@, c, 0) == spec_skip_byte(s@, c, a as int),
        decreases s@.len() - a,
    {
        a = a + 1;
    }
    let mut b: usize = s.len();
    while b > 0 && s[b - 1] == c
        invariant
            b <= s@.len(),
            spec_rskip_byte(s@, c, s@.len() as int) == spec_rskip_byte(s@, c, b as int),
        decreases b,
    {
        b = b - 1;
    }
    if a <= b {
        sub_bytes(s, a, b)
    } else {
        Vec::new()
    }
}

/// Whether two byte strings are equal.
pub fn bytes_eq(a: &[u8], b: &[u8]) -> (r: bool)
    ensures
        r <==> a@ == b@,
{
    if a.len() != b.len() {
        return false;
    }
    let mut i: usize = 0;
    while i < a.len()
        invariant
            i <= a.len(),
            a.len() == b.len(),
            forall|j: int| 0 <= j < i ==> a@[j] == b@[j],
        decreases a.len() - i,
    {
        if a[i] != b[i] {
            return false;
        }
        i = i + 1;
    }
    proof {
        assert(a@ =~= b@);
    }
    true
}

} // verus!
