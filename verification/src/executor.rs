//! The sandbox-keeping half of command execution: path strings are
//! scrubbed of traversal and injection sequences before any file system
//! path is built from them, and the small arithmetic behind the system
//! reports is fixed here.  The file system and process calls themselves
//! are the caller's concern.

use crate::text::sub_bytes;
use vstd::prelude::*;
use vstd::string::StringSliceAdditionalSpecFns;

verus! {

/// `s` with every non-overlapping occurrence of `pat`, scanned left to
/// right, replaced by `rep`.
pub open spec fn spec_replace(s: Seq<u8>, pat: Seq<u8>, rep: Seq<u8>) -> Seq<u8>
    decreases s.len(),
{
    if pat.len() == 0 || s.len() == 0 {
        s
    } else if pat.len() <= s.len() && s.subrange(0, pat.len() as int) == pat {
        rep + spec_replace(s.subrange(pat.len() as int, s.len() as int), pat, rep)
    } else {
        seq![s[0]] + spec_replace(s.subrange(1, s.len() as int), pat, rep)
    }
}

/// Replace every occurrence of a pattern in a byte string.
pub fn replace_all(s: &[u8], pat: &[u8], rep: &[u8]) -> (r: Vec<u8>)
    ensures
        r@ == spec_replace(s@, pat@, rep@),
{
    if pat.len() == 0 {
        return crate::text::sub_bytes(s, 0, s.len());
    }
    let mut out: Vec<u8> = Vec::new();
    let mut pos: usize = 0;
    proof {
        assert(s@.subrange(0, s@.len() as int) =~= s@);
    }
    while pos < s.len()
        invariant
            pos <= s@.len(),
            pat@.len() >= 1,
            spec_replace(s@, pat@, rep@) == out@ + spec_replace(
                s@.subrange(pos as int, s@.len() as int),
                pat@,
                rep@,
            ),
        decreases s@.len() - pos,
    {
        let ghost rem = s@.subrange(pos as int, s@.len() as int);
        let ghost old_out = out@;
        if pat.len() <= s.len() && pos <= s.len() - pat.len() && crate::text::match_at(s, pat, pos) {
            proof {
                assert(rem.subrange(0, pat@.len() as int) =~= s@.subrange(
                    pos as int,
                    pos + pat@.len(),
                ));
                assert(rem.subrange(pat@.len() as int, rem.len() as int) =~= s@.subrange(
                    pos + pat@.len(),
                    s@.len() as int,
                ));
                assert(spec_replace(rem, pat@, rep@) == rep@ + spec_replace(
                    s@.subrange(pos + pat@.len(), s@.len() as int),
                    pat@,
                    rep@,
                ));
            }
            let mut j: usize = 0;
            while j < rep.len()
                invariant
                    j <= rep@.len(),
                    out@ == old_out + rep@.subrange(0, j as int),
                decreases rep@.len() - j,
            {
                out.push(rep[j]);
                proof {
                    assert(old_out + rep@.subrange(0, j + 1) =~= (old_out + rep@.subrange(
                        0,
                        j as int,
                    )).push(rep@[j as int]));
                }
                j = j + 1;
            }
            proof {
                assert(rep@.subrange(0, rep@.len() as int) =~= rep@);
                assert(old_out + (rep@ + spec_replace(
                    s@.subrange(pos + pat@.len(), s@.len() as int),
                    pat@,
                    rep@,
                )) =~= (old_out + rep@) + spec_replace(
                    s@.subrange(pos + pat@.len(), s@.len() as int),
                    pat@,
                    rep@,
                ));
            }
            pos = pos + pat.len();
        } else {
            proof {
                if pos + pat@.len() <= s@.len() {
                    assert(rem.subrange(0, pat@.len() as int) =~= s@.subrange(
                        pos as int,
                        pos + pat@.len(),
                    ));
                    assert(rem.subrange(0, pat@.len() as int) != pat@);
                }
                assert(rem[0] == s@[pos as int]);
                assert(rem.subrange(1, rem.len() as int) =~= s@.subrange(
                    pos + 1,
                    s@.len() as int,
                ));
                assert(spec_replace(rem, pat@, rep@) == seq![rem[0]] + spec_replace(
                    s@.subrange(pos + 1, s@.len() as int),
                    pat@,
                    rep@,
                ));
                assert(old_out + (seq![rem[0]] + spec_replace(
                    s@.subrange(pos + 1, s@.len() as int),
                    pat@,
                    rep@,
                )) =~= old_out.push(s@[pos as int]) + spec_replace(
                    s@.subrange(pos + 1, s@.len() as int),
                    pat@,
                    rep@,
                ));
            }
            out.push(s[pos]);
            pos = pos + 1;
        }
    }
    proof {
        assert(s@.subrange(s@.len() as int, s@.len() as int) =~= Seq::<u8>::empty());
    }
    out
}

/// One scrub pass over a path: traversal dots and home markers are
/// removed, doubled separators are collapsed, null bytes are removed.
pub open spec fn spec_scrub_once(s: Seq<u8>) -> Seq<u8> {
    spec_replace(
        spec_replace(
            spec_replace(
                spec_replace(
                    spec_replace(s, seq![46u8, 46u8], Seq::empty()),
                    seq![126u8],
                    Seq::empty(),
                ),
                seq![47u8, 47u8],
                seq![47u8],
            ),
            seq![92u8, 92u8],
            seq![92u8],
        ),
        seq![0u8],
        Seq::empty(),
    )
}

/// Up to `n` scrub passes, stopping early at a fixed point; nested
/// traversal sequences re-form across one pass and are caught by the
/// next.
pub open spec fn spec_scrub(s: Seq<u8>, n: nat) -> Seq<u8>
    decreases n,
{
    if n == 0 {
        s
    } else {
        let s2 = spec_scrub_once(s);
        if s2 == s {
            s
        } else {
            spec_scrub(s2, (n - 1) as nat)
        }
    }
}

/// First position that holds neither a slash nor a backslash.
pub open spec fn spec_skip_seps(s: Seq<u8>, i: int) -> int
    recommends
        0 <= i <= s.len(),
    decreases s.len() - i,
{
    if i < 0 || i >= s.len() {
        i
    } else if s[i] == 47 || s[i] == 92 {
        spec_skip_seps(s, i + 1)
    } else {
        i
    }
}

/// A path scrubbed for sandbox use: five scrub passes, then leading
/// separators removed so the result can only name something inside the
/// sandbox directory it is joined to.
pub open spec fn spec_sanitize(s: Seq<u8>) -> Seq<u8> {
    let t = spec_scrub(s, 5);
    t.subrange(spec_skip_seps(t, 0), t.len() as int)
}

fn scrub_once(s: &[u8]) -> (r: Vec<u8>)
    ensures
        r@ == spec_scrub_once(s@),
{
    let mut dots: Vec<u8> = Vec::new();
    dots.push(46);
    dots.push(46);
    let mut tilde: Vec<u8> = Vec::new();
    tilde.push(126);
    let mut slashes: Vec<u8> = Vec::new();
    slashes.push(47);
    slashes.push(47);
    let mut slash: Vec<u8> = Vec::new();
    slash.push(47);
    let mut backslashes: Vec<u8> = Vec::new();
    backslashes.push(92);
    backslashes.push(92);
    let mut backslash: Vec<u8> = Vec::new();
    backslash.push(92);
    let mut nul: Vec<u8> = Vec::new();
    nul.push(0);
    let empty: Vec<u8> = Vec::new();
    proof {
        assert(dots@ =~= seq![46u8, 46u8]);
        assert(tilde@ =~= seq![126u8]);
        assert(slashes@ =~= seq![47u8, 47u8]);
        assert(slash@ =~= seq![47u8]);
        assert(backslashes@ =~= seq![92u8, 92u8]);
        assert(backslash@ =~= seq![92u8]);
        assert(nul@ =~= seq![0u8]);
        assert(empty@ =~= Seq::<u8>::empty());
    }
    let a = replace_all(s, dots.as_slice(), empty.as_slice());
    let b = replace_all(a.as_slice(), tilde.as_slice(), empty.as_slice());
    let c = replace_all(b.as_slice(), slashes.as_slice(), slash.as_slice());
    let d = replace_all(c.as_slice(), backslashes.as_slice(), backslash.as_slice());
    replace_all(d.as_slice(), nul.as_slice(), empty.as_slice())
}

/// Scrub a path for sandbox use.
///
/// Traversal and injection sequences are scrubbed out over up to five
/// passes and leading separators are dropped, so joining the result to a
/// sandbox directory cannot name that directory's parents.
pub fn sanitize_path(path: &str) -> (r: Vec<u8>)
    ensures
        r@ == spec_sanitize(path.spec_bytes()),
{
    let bytes = path.as_bytes();
    let mut cur: Vec<u8> = crate::text::sub_bytes(bytes, 0, bytes.len());
    let ghost s0 = path.spec_bytes();
    proof {
        assert(cur@ =~= s0);
    }
    let mut pass: usize = 0;
    while pass < 5
        invariant
            pass <= 5,
            spec_scrub(s0, 5) == spec_scrub(cur@, (5 - pass) as nat),
        decreases 5 - pass,
    {
        let next = scrub_once(cur.as_slice());
        cur = next;
        pass = pass + 1;
    }
    let a = skip_seps(cur.as_slice());
    sub_bytes(cur.as_slice(), a, cur.len())
}

fn skip_seps(s: &[u8]) -> (r: usize)
    ensures
        r == spec_skip_seps(s@, 0),
        r <= s@.len(),
{
    let mut i: usize = 0;
    while i < s.len() && (s[i] == 47 || s[i] == 92)
        invariant
            i <= s@.len(),
            spec_skip_seps(s@, 0) == spec_skip_seps(s@, i as int),
        decreases s@.len() - i,
    {
        i = i + 1;
    }
    i
}

/// Memory use as a whole percentage of the total.
pub fn mem_percent(used: u64, total: u64) -> (r: u64)
    requires
        total > 0,
        used <= total,
    ensures
        r == (used as int) * 100 / (total as int),
        r <= 100,
{
    let r = ((used as u128) * 100 / (total as u128)) as u64;
    proof {
        assert((used as int) * 100 / (total as int) <= 100) by (nonlinear_arith)
            requires
                total > 0,
                used <= total,
        ;
        assert((used as u128) as int * 100 / ((total as u128) as int) == (used as int) * 100 / (
        total as int)) by (nonlinear_arith)
            requires
                total > 0,
        ;
    }
    r
}

/// An uptime in seconds split into whole hours and leftover minutes.
pub fn split_uptime(secs: u64) -> (r: (u64, u64))
    ensures
        r.0 == secs / 3600,
        r.1 == (secs % 3600) / 60,
        r.1 < 60,
{
    (secs / 3600, (secs % 3600) / 60)
}

} // verus!
