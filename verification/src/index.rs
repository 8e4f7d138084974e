//! In-memory semantic index: identifier to embedding vector and text
//! snippet, with k-nearest-neighbour search.
//!
//! Embedding components are fixed-point integers bounded by `COMP_BOUND`;
//! similarity between two vectors is their dot product, so for unit-scaled
//! vectors the ranking is the cosine-similarity ranking.  Search results are
//! strictly ordered: descending score, ties broken by ascending identifier.

use vstd::multiset::Multiset;
use vstd::prelude::*;

verus! {

/// Largest accepted vector dimension.
pub const DIM_MAX: usize = 4096;

/// Bound on the magnitude of one fixed-point vector component.
pub const COMP_BOUND: i64 = 1000000;

/// Errors of the index.
#[derive(Debug, PartialEq, Eq, Clone, Copy)]
pub enum IndexError {
    /// The dimension is zero or above `DIM_MAX`.
    BadDimension,
    /// The vector has the wrong length or a component out of range.
    BadVector,
}

/// A vector acceptable at the given dimension: right length, every
/// component within `COMP_BOUND`.
pub open spec fn spec_vec_ok(v: Seq<i64>, dim: int) -> bool {
    &&& v.len() == dim
    &&& forall|i: int|
        0 <= i < v.len() ==> -(COMP_BOUND as int) <= #[trigger] v[i] <= COMP_BOUND as int
}

/// Dot product of two equal-length vectors.
pub open spec fn spec_dot(a: Seq<i64>, b: Seq<i64>) -> int
    recommends
        a.len() == b.len(),
    decreases a.len(),
{
    if a.len() == 0 || b.len() == 0 {
        0
    } else {
        a.last() * b.last() + spec_dot(a.drop_last(), b.drop_last())
    }
}

/// Dot product of two bounded vectors.
pub fn dot(a: &[i64], b: &[i64]) -> (r: i64)
    requires
        a@.len() == b@.len() <= DIM_MAX,
        forall|i: int|
            0 <= i < a@.len() ==> -(COMP_BOUND as int) <= #[trigger] a@[i] <= COMP_BOUND as int,
        forall|i: int|
            0 <= i < b@.len() ==> -(COMP_BOUND as int) <= #[trigger] b@[i] <= COMP_BOUND as int,
    ensures
        r == spec_dot(a@, b@),
{
    let mut acc: i64 = 0;
    let mut i: usize = 0;
    while i < a.len()
        invariant
            i <= a@.len(),
            a@.len() == b@.len() <= DIM_MAX,
            forall|j: int|
                0 <= j < a@.len() ==> -(COMP_BOUND as int) <= #[trigger] a@[j] <= COMP_BOUND as int,
            forall|j: int|
                0 <= j < b@.len() ==> -(COMP_BOUND as int) <= #[trigger] b@[j] <= COMP_BOUND as int,
            acc == spec_dot(a@.subrange(0, i as int), b@.subrange(0, i as int)),
            -(i as int * (COMP_BOUND as int) * (COMP_BOUND as int)) <= acc as int <= i as int * (
            COMP_BOUND as int) * (COMP_BOUND as int),
        decreases a@.len() - i,
    {
        let x = a[i];
        let y = b[i];
        proof {
            let c = COMP_BOUND as int;
            assert(-(c * c) <= x * y <= c * c) by (nonlinear_arith)
                requires
                    -c <= x <= c,
                    -c <= y <= c,
                    c > 0,
            ;
            assert(i as int * c * c <= 4095000000000000 && -4095000000000000 <= i as int * c * c)
                by (nonlinear_arith)
                requires
                    0 <= i as int <= 4095,
                    c == 1000000,
            ;
            assert(c * c == 1000000000000) by (nonlinear_arith)
                requires
                    c == 1000000,
            ;
            assert((i + 1) as int * c * c == i as int * c * c + c * c) by (nonlinear_arith);
        }
        let p = x * y;
        acc = acc + p;
        proof {
            assert(a@.subrange(0, i + 1).drop_last() =~= a@.subrange(0, i as int));
            assert(b@.subrange(0, i + 1).drop_last() =~= b@.subrange(0, i as int));
            assert(a@.subrange(0, i + 1).last() == a@[i as int]);
            assert(b@.subrange(0, i + 1).last() == b@[i as int]);
        }
        i = i + 1;
    }
    proof {
        assert(a@.subrange(0, a@.len() as int) =~= a@);
        assert(b@.subrange(0, b@.len() as int) =~= b@);
    }
    acc
}

/// Strict ranking of two scored hits: higher score first, ties broken by
/// ascending identifier.
pub open spec fn ranks_before(a: (u64, i64), b: (u64, i64)) -> bool {
    a.1 > b.1 || (a.1 == b.1 && a.0 < b.0)
}

/// Non-strict ranking of two scored hits.
pub open spec fn ranks_before_eq(a: (u64, i64), b: (u64, i64)) -> bool {
    a.1 > b.1 || (a.1 == b.1 && a.0 <= b.0)
}

/// A hit ranks strictly before an identifier scored by `score`.
pub open spec fn outranks(a: (u64, i64), id: u64, score: int) -> bool {
    a.1 > score || (a.1 == score && a.0 < id)
}

fn ranks_before_exec(a: (u64, i64), b: (u64, i64)) -> (r: bool)
    ensures
        r == ranks_before(a, b),
{
    a.1 > b.1 || (a.1 == b.1 && a.0 < b.0)
}

/// No two scored hits carry the same identifier.
pub open spec fn ids_unique(s: Seq<(u64, i64)>) -> bool {
    forall|i: int, j: int| 0 <= i < j < s.len() ==> (#[trigger] s[i]).0 != (#[trigger] s[j]).0
}

/// Sort scored hits by rank: descending score, ties by ascending
/// identifier.
fn rank_sort(v: Vec<(u64, i64)>) -> (r: Vec<(u64, i64)>)
    requires
        ids_unique(v@),
    ensures
        r@.to_multiset() == v@.to_multiset(),
        r@.len() == v@.len(),
        ids_unique(r@),
        forall|i: int, j: int|
            0 <= i < j < r@.len() ==> ranks_before_eq(#[trigger] r@[i], #[trigger] r@[j]),
{
    let mut remaining = v;
    let mut out: Vec<(u64, i64)> = Vec::new();
    proof {
        broadcast use {vstd::seq_lib::group_to_multiset_ensures, vstd::multiset::group_multiset_axioms};

        assert forall|a: (u64, i64)|
            out@.to_multiset().add(remaining@.to_multiset()).count(a) == remaining@.to_multiset()
                .count(a) by {
            assert(!out@.contains(a));
        }
        assert(out@.to_multiset().add(remaining@.to_multiset()) =~= remaining@.to_multiset());
    }
    while remaining.len() > 0
        invariant
            out@.to_multiset().add(remaining@.to_multiset()) == v@.to_multiset(),
            out@.len() + remaining@.len() == v@.len(),
            ids_unique(out@),
            ids_unique(remaining@),
            forall|a: int, b: int|
                0 <= a < out@.len() && 0 <= b < remaining@.len() ==> (#[trigger] out@[a]).0 != (
                #[trigger] remaining@[b]).0,
            forall|i: int, j: int|
                0 <= i < j < out@.len() ==> ranks_before_eq(#[trigger] out@[i], #[trigger] out@[j]),
            forall|a: int, b: int|
                0 <= a < out@.len() && 0 <= b < remaining@.len() ==> ranks_before_eq(
                    #[trigger] out@[a],
                    #[trigger] remaining@[b],
                ),
        decreases remaining@.len(),
    {
        let mut best: usize = 0;
        let mut t: usize = 1;
        while t < remaining.len()
            invariant
                best < t <= remaining@.len(),
                remaining@.len() > 0,
                forall|u: int|
                    0 <= u < t ==> ranks_before_eq(
                        remaining@[best as int],
                        #[trigger] remaining@[u],
                    ),
            decreases remaining@.len() - t,
        {
            if ranks_before_exec(remaining[t], remaining[best]) {
                best = t;
            }
            t = t + 1;
        }
        let ghost old_out = out@;
        let ghost old_rem = remaining@;
        let e = remaining.remove(best);
        out.push(e);
        proof {
            broadcast use {vstd::seq_lib::group_to_multiset_ensures, vstd::multiset::group_multiset_axioms};

            assert(old_rem.contains(e)) by {
                assert(old_rem[best as int] == e);
            }
            assert(out@ == old_out.push(e));
            assert(old_out.push(e).to_multiset() =~= old_out.to_multiset().insert(e));
            assert(remaining@ == old_rem.remove(best as int));
            assert(old_rem.remove(best as int).to_multiset() =~= old_rem.to_multiset().remove(
                old_rem[best as int],
            ));
            assert(old_rem.to_multiset().count(e) > 0);
            assert(out@.to_multiset().add(remaining@.to_multiset()) =~= old_out.to_multiset().add(
                old_rem.to_multiset(),
            ));
            assert(forall|b: int|
                0 <= b < remaining@.len() ==> #[trigger] remaining@[b] == (if b < best as int {
                    old_rem[b]
                } else {
                    old_rem[b + 1]
                }));
        }
    }
    proof {
        broadcast use {vstd::seq_lib::group_to_multiset_ensures, vstd::multiset::group_multiset_axioms};

        assert forall|a: (u64, i64)|
            out@.to_multiset().add(remaining@.to_multiset()).count(a) == out@.to_multiset().count(
                a,
            ) by {
            assert(!remaining@.contains(a));
        }
        assert(out@.to_multiset() =~= out@.to_multiset().add(remaining@.to_multiset()));
    }
    out
}

/// In-memory semantic index over recent history.
#[derive(Debug)]
pub struct SemanticIndex {
    dim: usize,
    entries: Vec<Entry>,
}

#[derive(Debug)]
struct Entry {
    id: u64,
    vector: Vec<i64>,
    text: Vec<u8>,
}

impl View for SemanticIndex {
    type V = Seq<(u64, Seq<i64>, Seq<u8>)>;

    closed spec fn view(&self) -> Seq<(u64, Seq<i64>, Seq<u8>)> {
        Seq::new(
            self.entries@.len(),
            |i: int| (self.entries@[i].id, self.entries@[i].vector@, self.entries@[i].text@),
        )
    }
}

/// An identifier occurs among the indexed entries.
pub open spec fn spec_has_id(v: Seq<(u64, Seq<i64>, Seq<u8>)>, id: u64) -> bool {
    exists|i: int| 0 <= i < v.len() && (#[trigger] v[i]).0 == id
}

/// What one `add` does to the indexed entries: replace the entry that
/// carries the identifier, or append a new one.
pub open spec fn spec_add_effect(
    v: Seq<(u64, Seq<i64>, Seq<u8>)>,
    id: u64,
    vec: Seq<i64>,
    t: Seq<u8>,
) -> Seq<(u64, Seq<i64>, Seq<u8>)> {
    if spec_has_id(v, id) {
        v.update(
            choose|j: int| 0 <= j < v.len() && (#[trigger] v[j]).0 == id,
            (id, vec, t),
        )
    } else {
        v.push((id, vec, t))
    }
}

/// A scored hit comes from an indexed entry: its identifier is indexed and
/// its score is the dot product of the query with that entry's vector.
pub open spec fn hit_of(v: Seq<(u64, Seq<i64>, Seq<u8>)>, q: Seq<i64>, h: (u64, i64)) -> bool {
    exists|j: int| 0 <= j < v.len() && (#[trigger] v[j]).0 == h.0 && h.1 == spec_dot(q, v[j].1)
}

/// An identifier occurs among a list of scored hits.
pub open spec fn id_in_hits(r: Seq<(u64, i64)>, id: u64) -> bool {
    exists|i: int| 0 <= i < r.len() && (#[trigger] r[i]).0 == id
}

fn find_entry(entries: &Vec<Entry>, id: u64) -> (r: Option<usize>)
    ensures
        match r {
            Some(i) => i < entries@.len() && entries@[i as int].id == id,
            None => forall|j: int| 0 <= j < entries@.len() ==> (#[trigger] entries@[j]).id != id,
        },
{
    let mut i: usize = 0;
    while i < entries.len()
        invariant
            i <= entries@.len(),
            forall|j: int| 0 <= j < i ==> (#[trigger] entries@[j]).id != id,
        decreases entries@.len() - i,
    {
        if entries[i].id == id {
            return Some(i);
        }
        i = i + 1;
    }
    None
}

impl SemanticIndex {
    /// Well-formedness: an accepted dimension, vectors of that dimension
    /// with bounded components, and one entry per identifier.
    pub open spec fn wf(self) -> bool {
        &&& 1 <= self.spec_dim() <= DIM_MAX
        &&& forall|i: int|
            0 <= i < self@.len() ==> spec_vec_ok((#[trigger] self@[i]).1, self.spec_dim() as int)
        &&& forall|i: int, j: int|
            0 <= i < j < self@.len() ==> (#[trigger] self@[i]).0 != (#[trigger] self@[j]).0
    }

    /// The fixed vector dimension.
    pub closed spec fn spec_dim(self) -> usize {
        self.dim
    }

    /// The fixed vector dimension.
    pub fn dim(&self) -> (r: usize)
        ensures
            r == self.spec_dim(),
    {
        self.dim
    }

    /// Create an empty index at a fixed vector dimension.
    pub fn new(dim: usize) -> (r: Result<SemanticIndex, IndexError>)
        ensures
            r is Ok <==> 1 <= dim <= DIM_MAX,
            r matches Ok(s) ==> s.wf() && s@ =~= Seq::<(u64, Seq<i64>, Seq<u8>)>::empty()
                && s.spec_dim() == dim,
            r matches Err(e) ==> e == IndexError::BadDimension,
    {
        if dim < 1 || dim > DIM_MAX {
            return Err(IndexError::BadDimension);
        }
        Ok(SemanticIndex { dim, entries: Vec::new() })
    }

    /// Number of distinct identifiers currently indexed.
    pub fn count(&self) -> (r: usize)
        ensures
            r == self@.len(),
    {
        self.entries.len()
    }

    /// Add or replace the entry for an identifier: the last write for an
    /// identifier wins, so a repeated add does not grow the index.  A
    /// vector of the wrong length or with a component out of range is
    /// rejected.
    pub fn add(&mut self, id: u64, vector: Vec<i64>, text: Vec<u8>) -> (r: Result<
        (),
        IndexError,
    >)
        requires
            old(self).wf(),
        ensures
            final(self).wf(),
            final(self).spec_dim() == old(self).spec_dim(),
            r is Ok <==> spec_vec_ok(vector@, old(self).spec_dim() as int),
            r is Ok ==> {
                &&& spec_has_id(old(self)@, id) ==> exists|j: int|
                    0 <= j < old(self)@.len() && (#[trigger] old(self)@[j]).0 == id
                        && final(self)@ == old(self)@.update(j, (id, vector@, text@))
                &&& !spec_has_id(old(self)@, id) ==> final(self)@ == old(self)@.push(
                    (id, vector@, text@),
                )
                &&& spec_has_id(final(self)@, id)
                &&& final(self)@ == spec_add_effect(old(self)@, id, vector@, text@)
                &&& final(self)@.len() == old(self)@.len() + (if spec_has_id(old(self)@, id) {
                    0int
                } else {
                    1int
                })
            },
            r matches Err(e) ==> e == IndexError::BadVector && *final(self) == *old(self),
    {
        if !vector_ok(&vector, self.dim) {
            return Err(IndexError::BadVector);
        }
        match find_entry(&self.entries, id) {
            Some(i) => {
                let ghost old_view = self@;
                proof {
                    assert((old_view[i as int]).0 == id);
                }
                self.entries[i] = Entry { id, vector, text };
                proof {
                    assert(self@ =~= old_view.update(i as int, (id, vector@, text@)));
                    assert((self@[i as int]).0 == id);
                    assert(spec_has_id(old_view, id)) by {
                        assert((old_view[i as int]).0 == id);
                    }
                    let j2 = choose|j: int| 0 <= j < old_view.len() && (#[trigger] old_view[j]).0
                        == id;
                    assert(j2 == i as int) by {
                        if j2 < i as int {
                            assert((old_view[j2]).0 != (old_view[i as int]).0);
                        } else if j2 > i as int {
                            assert((old_view[i as int]).0 != (old_view[j2]).0);
                        }
                    }
                }
            },
            None => {
                let ghost old_view = self@;
                proof {
                    assert forall|j: int| 0 <= j < old_view.len() implies (
                    #[trigger] old_view[j]).0 != id by {
                        assert(old_view[j].0 == self.entries@[j].id);
                    }
                }
                self.entries.push(Entry { id, vector, text });
                proof {
                    assert(self@ =~= old_view.push((id, vector@, text@)));
                    assert((self@[old_view.len() as int]).0 == id);
                }
            },
        }
        Ok(())
    }

    /// Search for the `k` nearest entries to a query vector.
    ///
    /// The result holds at most `k` scored hits — exactly `k` when the
    /// index holds at least `k` entries, every indexed entry otherwise —
    /// in strictly descending score order with ties broken by ascending
    /// identifier; every hit is an indexed entry scored by its dot product
    /// with the query, and every omitted entry is outranked by everything
    /// returned.  An empty index gives an empty result.
    pub fn search(&self, query: &[i64], k: usize) -> (r: Vec<(u64, i64)>)
        requires
            self.wf(),
            spec_vec_ok(query@, self.spec_dim() as int),
        ensures
            r@.len() == (if k <= self@.len() { k as int } else { self@.len() as int }),
            forall|i: int, j: int|
                0 <= i < j < r@.len() ==> ranks_before(#[trigger] r@[i], #[trigger] r@[j]),
            forall|i: int| 0 <= i < r@.len() ==> hit_of(self@, query@, #[trigger] r@[i]),
            forall|j: int|
                0 <= j < self@.len() && !id_in_hits(r@, (#[trigger] self@[j]).0) ==> r@.len() == k
                    && forall|i: int|
                    0 <= i < r@.len() ==> outranks(
                        #[trigger] r@[i],
                        self@[j].0,
                        spec_dot(query@, self@[j].1),
                    ),
    {
        broadcast use {vstd::seq_lib::group_to_multiset_ensures, vstd::multiset::group_multiset_axioms};

        let mut scored: Vec<(u64, i64)> = Vec::new();
        let mut i: usize = 0;
        while i < self.entries.len()
            invariant
                self.wf(),
                spec_vec_ok(query@, self.spec_dim() as int),
                i <= self@.len(),
                scored@.len() == i as int,
                forall|j: int|
                    0 <= j < i ==> (#[trigger] scored@[j]).0 == self@[j].0 && scored@[j].1
                        == spec_dot(query@, self@[j].1),
        decreases self@.len() - i,
        {
            proof {
                assert(spec_vec_ok(self@[i as int].1, self.spec_dim() as int));
                assert(self.entries@[i as int].vector@ == self@[i as int].1);
            }
            let s = dot(query, self.entries[i].vector.as_slice());
            let e_id = self.entries[i].id;
            proof {
                assert(self@[i as int].0 == self.entries@[i as int].id);
            }
            scored.push((e_id, s));
            i = i + 1;
        }
        proof {
            assert forall|a: int, b: int| 0 <= a < b < scored@.len() implies (
            #[trigger] scored@[a]).0 != (#[trigger] scored@[b]).0 by {
                assert(scored@[a].0 == self@[a].0);
                assert(scored@[b].0 == self@[b].0);
            }
        }
        let ghost scored_s = scored@;
        let mut sorted = rank_sort(scored);
        let ghost full = sorted@;
        sorted.truncate(k);
        proof {
            if k <= full.len() {
                assert(sorted@ == full.subrange(0, k as int));
            }
            // Every returned hit is a scored entry.
            assert forall|i: int| 0 <= i < sorted@.len() implies hit_of(
                self@,
                query@,
                #[trigger] sorted@[i],
            ) by {
                assert(sorted@[i] == full[i]);
                assert(full.contains(full[i]));
                assert(full.to_multiset().count(full[i]) > 0);
                assert(scored_s.to_multiset().count(full[i]) > 0);
                assert(scored_s.contains(full[i]));
                let j = choose|j: int| 0 <= j < scored_s.len() && scored_s[j] == full[i];
                assert(0 <= j < self@.len() && (self@[j]).0 == sorted@[i].0 && sorted@[i].1
                    == spec_dot(query@, self@[j].1));
            }
            // Every entry left out is outranked by everything returned.
            assert forall|j: int|
                0 <= j < self@.len() && !id_in_hits(sorted@, (#[trigger] self@[j]).0)
                implies sorted@.len() == k && forall|i: int|
                0 <= i < sorted@.len() ==> outranks(
                    #[trigger] sorted@[i],
                    self@[j].0,
                    spec_dot(query@, self@[j].1),
                ) by {
                assert(scored_s[j] == (self@[j].0, scored_s[j].1) && scored_s[j].1 == spec_dot(
                    query@,
                    self@[j].1,
                ));
                assert(scored_s.contains(scored_s[j]));
                assert(scored_s.to_multiset().count(scored_s[j]) > 0);
                assert(full.to_multiset().count(scored_s[j]) > 0);
                assert(full.contains(scored_s[j]));
                let m = choose|m: int| 0 <= m < full.len() && full[m] == scored_s[j];
                assert(m >= sorted@.len()) by {
                    if m < sorted@.len() {
                        assert(sorted@[m] == full[m]);
                        assert(sorted@[m].0 == self@[j].0);
                        assert(id_in_hits(sorted@, self@[j].0));
                    }
                }
                assert(sorted@.len() == k);
                assert forall|i: int| 0 <= i < sorted@.len() implies outranks(
                    #[trigger] sorted@[i],
                    self@[j].0,
                    spec_dot(query@, self@[j].1),
                ) by {
                    assert(sorted@[i] == full[i]);
                    assert(ranks_before_eq(full[i], full[m]));
                    assert(full[i].0 != full[m].0);
                }
            }
        }
        sorted
    }
}

/// The identifiers of the indexed entries, in entry order.
pub open spec fn spec_ids(v: Seq<(u64, Seq<i64>, Seq<u8>)>) -> Seq<u64> {
    Seq::new(v.len(), |i: int| v[i].0)
}

/// The indexed entries after a whole sequence of adds, applied in order.
pub open spec fn spec_apply_adds(
    v: Seq<(u64, Seq<i64>, Seq<u8>)>,
    adds: Seq<(u64, Seq<i64>, Seq<u8>)>,
) -> Seq<(u64, Seq<i64>, Seq<u8>)>
    decreases adds.len(),
{
    if adds.len() == 0 {
        v
    } else {
        spec_apply_adds(
            spec_add_effect(v, adds[0].0, adds[0].1, adds[0].2),
            adds.drop_first(),
        )
    }
}

/// One add keeps the identifiers free of duplicates and makes the set of
/// identifiers grow by exactly the added one.
proof fn lemma_add_effect_ids(v: Seq<(u64, Seq<i64>, Seq<u8>)>, id: u64, vec: Seq<i64>, t: Seq<u8>)
    requires
        spec_ids(v).no_duplicates(),
    ensures
        spec_ids(spec_add_effect(v, id, vec, t)).no_duplicates(),
        spec_ids(spec_add_effect(v, id, vec, t)).to_set() =~= spec_ids(v).to_set().insert(id),
{
    broadcast use vstd::set::group_set_axioms;

    let v2 = spec_add_effect(v, id, vec, t);
    if spec_has_id(v, id) {
        let j = choose|j: int| 0 <= j < v.len() && (#[trigger] v[j]).0 == id;
        assert(spec_ids(v2) =~= spec_ids(v));
        assert(spec_ids(v).contains(id)) by {
            assert(spec_ids(v)[j] == id);
        }
        assert(spec_ids(v2).to_set() =~= spec_ids(v).to_set().insert(id)) by {
            assert(spec_ids(v).to_set().contains(id));
        }
    } else {
        assert(spec_ids(v2) =~= spec_ids(v).push(id));
        assert(!spec_ids(v).contains(id)) by {
            if spec_ids(v).contains(id) {
                let j = choose|j: int| 0 <= j < spec_ids(v).len() && spec_ids(v)[j] == id;
                assert((v[j]).0 == id);
            }
        }
        assert forall|x: u64| spec_ids(v).push(id).contains(x) implies spec_ids(v).to_set().insert(
            id,
        ).contains(x) by {
            let j = choose|j: int| 0 <= j < spec_ids(v).push(id).len() && spec_ids(v).push(id)[j]
                == x;
            if j < spec_ids(v).len() {
                assert(spec_ids(v).contains(x));
            }
        }
        assert forall|x: u64|
            spec_ids(v).to_set().insert(id).contains(x) implies spec_ids(v).push(id).contains(
            x,
        ) by {
            if x == id {
                assert(spec_ids(v).push(id)[spec_ids(v).len() as int] == id);
            } else {
                assert(spec_ids(v).to_set().contains(x));
                let j = choose|j: int| 0 <= j < spec_ids(v).len() && spec_ids(v)[j] == x;
                assert(spec_ids(v).push(id)[j] == x);
            }
        }
        assert(spec_ids(v2).to_set() =~= spec_ids(v).to_set().insert(id));
        assert(spec_ids(v2).no_duplicates()) by {
            assert forall|a: int, b: int|
                0 <= a < b < spec_ids(v2).len() implies spec_ids(v2)[a] != spec_ids(v2)[b] by {
                if b == spec_ids(v2).len() - 1 {
                    assert(spec_ids(v)[a] == spec_ids(v2)[a]);
                    if spec_ids(v2)[a] == id {
                        assert(spec_ids(v).contains(id));
                    }
                }
            }
        }
    }
}

/// How many snapshots an index holds after any sequence of adds: exactly
/// the number of distinct identifiers present afterwards — a repeated
/// identifier overwrites its entry and never appends.  Since `count`
/// returns the length of the indexed entries and `add` realizes
/// `spec_add_effect`, `count()` after any sequence of adds starting from an
/// empty index equals the number of distinct identifiers added.
pub proof fn lemma_count_counts_distinct_ids(
    v0: Seq<(u64, Seq<i64>, Seq<u8>)>,
    adds: Seq<(u64, Seq<i64>, Seq<u8>)>,
)
    requires
        spec_ids(v0).no_duplicates(),
    ensures
        spec_ids(spec_apply_adds(v0, adds)).no_duplicates(),
        spec_ids(spec_apply_adds(v0, adds)).to_set() =~= spec_ids(v0).to_set().union(
            spec_ids(adds).to_set(),
        ),
        spec_apply_adds(v0, adds).len() == spec_ids(spec_apply_adds(v0, adds)).to_set().len(),
    decreases adds.len(),
{
    broadcast use vstd::set::group_set_axioms;

    let vn = spec_apply_adds(v0, adds);
    if adds.len() == 0 {
        assert(spec_ids(adds).to_set() =~= Set::<u64>::empty()) by {
            assert(forall|x: u64| !spec_ids(adds).contains(x));
        }
        assert(spec_ids(vn).to_set() =~= spec_ids(v0).to_set().union(spec_ids(adds).to_set()));
    } else {
        let v1 = spec_add_effect(v0, adds[0].0, adds[0].1, adds[0].2);
        lemma_add_effect_ids(v0, adds[0].0, adds[0].1, adds[0].2);
        lemma_count_counts_distinct_ids(v1, adds.drop_first());
        assert(spec_ids(adds.drop_first()).to_set().insert(adds[0].0) =~= spec_ids(
            adds,
        ).to_set()) by {
            assert forall|x: u64|
                spec_ids(adds.drop_first()).to_set().insert(adds[0].0).contains(x) implies spec_ids(
                adds,
            ).to_set().contains(x) by {
                if x == adds[0].0 {
                    assert(spec_ids(adds)[0] == x);
                    assert(spec_ids(adds).contains(x));
                } else {
                    let j = choose|j: int|
                        0 <= j < spec_ids(adds.drop_first()).len() && spec_ids(adds.drop_first())[j]
                            == x;
                    assert(spec_ids(adds)[j + 1] == x);
                    assert(spec_ids(adds).contains(x));
                }
            }
            assert forall|x: u64| spec_ids(adds).to_set().contains(x) implies spec_ids(
                adds.drop_first(),
            ).to_set().insert(adds[0].0).contains(x) by {
                let j = choose|j: int| 0 <= j < spec_ids(adds).len() && spec_ids(adds)[j] == x;
                if j > 0 {
                    assert(spec_ids(adds.drop_first())[j - 1] == x);
                    assert(spec_ids(adds.drop_first()).contains(x));
                }
            }
        }
        assert(spec_ids(vn).to_set() =~= spec_ids(v0).to_set().union(spec_ids(adds).to_set()));
    }
    spec_ids(vn).unique_seq_to_set();
    assert(spec_ids(vn).len() == vn.len());
}

pub fn vector_ok(v: &Vec<i64>, dim: usize) -> (r: bool)
    ensures
        r == spec_vec_ok(v@, dim as int),
{
    if v.len() != dim {
        return false;
    }
    let mut i: usize = 0;
    while i < v.len()
        invariant
            i <= v@.len(),
            v@.len() == dim,
            forall|j: int|
                0 <= j < i ==> -(COMP_BOUND as int) <= #[trigger] v@[j] <= COMP_BOUND as int,
        decreases v@.len() - i,
    {
        if v[i] < -COMP_BOUND || v[i] > COMP_BOUND {
            return false;
        }
        i = i + 1;
    }
    true
}

} // verus!
