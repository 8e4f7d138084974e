//! Orchestration of the capture-to-index pipeline.
//!
//! One cycle runs capture, text extraction, vector extraction, then the
//! storage writes and the index insertion, strictly in that order.  A
//! filtered or failed capture, or a failed extraction, abandons the cycle
//! with the engine untouched, so an identifier is allocated only for a
//! cycle that commits.  Because the metadata write precedes the index
//! insertion, every indexed identifier is backed by loadable metadata; the
//! engine keeps that consistency invariant across every cycle.
//!
//! The capture, text-extraction and vector-extraction collaborators are
//! external to the engine: each cycle takes their outcomes as inputs.

use crate::index::{
    hit_of, outranks, ranks_before, spec_dot, spec_has_id, spec_vec_ok, vector_ok, SemanticIndex,
};
use crate::store::{LoadResult, Storage};
use vstd::prelude::*;

verus! {

/// What one invocation of the capture collaborator produced.
#[derive(Debug, PartialEq, Eq)]
pub enum CaptureOutcome {
    /// A privacy-filtered raw frame.
    Frame(Vec<u8>),
    /// The frame was suppressed by the privacy filter: a normal outcome.
    Filtered,
    /// The capture device failed.
    Failed,
}

/// How one cycle ended.
#[derive(Debug, PartialEq, Eq)]
pub enum CycleOutcome {
    /// The snapshot was persisted and indexed under this identifier.
    Committed(u64),
    /// The frame was suppressed; nothing was written.
    SkippedFiltered,
    /// Capture failed; nothing was written.
    SkippedCapture,
    /// Text or vector extraction failed or produced an unusable vector;
    /// nothing was written.
    SkippedExtraction,
}

/// One ranked answer to a query.
#[derive(Debug, PartialEq, Eq)]
pub struct SearchResult {
    /// Identifier of the snapshot.
    pub id: u64,
    /// Similarity score of its vector against the query.
    pub score: i64,
    /// Its text, loaded back from the store.
    pub text: Vec<u8>,
}

/// Errors of engine construction.
#[derive(Debug, PartialEq, Eq, Clone, Copy)]
pub enum InitError {
    /// The key is shorter than the store accepts.
    WeakKey,
    /// The vector dimension is zero or too large.
    BadDimension,
}

/// A search result at `upto`-prefix of a hit list: some hit among the first
/// `upto` carries its identifier and score.
pub open spec fn from_hits(hits: Seq<(u64, i64)>, upto: int, s: SearchResult) -> bool {
    exists|h: int| 0 <= h < upto && #[trigger] hits[h] == (s.id, s.score)
}

/// An identifier occurs among a list of search results.
pub open spec fn id_in_results(rs: Seq<SearchResult>, id: u64) -> bool {
    exists|i: int| 0 <= i < rs.len() && (#[trigger] rs[i]).id == id
}

/// Run an index search and hydrate each hit's text from the store.
///
/// A hit whose metadata is absent or fails to open is dropped rather than
/// failing the whole call: a degraded, partial result is preferred to no
/// result.  When every indexed identifier is loadable — which the engine
/// guarantees — nothing is dropped and the result is exactly the ranked
/// top `k`.
pub fn hydrated_search(
    index: &SemanticIndex,
    storage: &Storage,
    query: &[i64],
    k: usize,
) -> (r: Vec<SearchResult>)
    requires
        index.wf(),
        storage.wf(),
        spec_vec_ok(query@, index.spec_dim() as int),
    ensures
        r@.len() <= k,
        forall|i: int|
            0 <= i < r@.len() ==> {
                &&& hit_of(index@, query@, ((#[trigger] r@[i]).id, r@[i].score))
                &&& storage.meta_plain(r@[i].id) == Some(Some(r@[i].text@))
            },
        forall|i: int, j: int|
            0 <= i < j < r@.len() ==> ranks_before(
                ((#[trigger] r@[i]).id, r@[i].score),
                ((#[trigger] r@[j]).id, r@[j].score),
            ),
        (forall|e: int| 0 <= e < index@.len() ==> storage.loadable((#[trigger] index@[e]).0))
            ==> {
            &&& r@.len() == (if k <= index@.len() {
                k as int
            } else {
                index@.len() as int
            })
            &&& forall|e: int|
                0 <= e < index@.len() && !id_in_results(r@, (#[trigger] index@[e]).0)
                    ==> r@.len() == k && forall|i: int|
                    0 <= i < r@.len() ==> outranks(
                        ((#[trigger] r@[i]).id, r@[i].score),
                        index@[e].0,
                        spec_dot(query@, index@[e].1),
                    )
        },
{
    let hits = index.search(query, k);
    let ghost all_loadable = forall|e: int|
        0 <= e < index@.len() ==> storage.loadable((#[trigger] index@[e]).0);
    let mut out: Vec<SearchResult> = Vec::new();
    let mut i: usize = 0;
    while i < hits.len()
        invariant
            index.wf(),
            storage.wf(),
            i <= hits@.len(),
            out@.len() <= i as int,
            all_loadable == (forall|e: int|
                0 <= e < index@.len() ==> storage.loadable((#[trigger] index@[e]).0)),
            forall|i2: int, j2: int|
                0 <= i2 < j2 < hits@.len() ==> ranks_before(
                    #[trigger] hits@[i2],
                    #[trigger] hits@[j2],
                ),
            forall|h: int| 0 <= h < hits@.len() ==> hit_of(index@, query@, #[trigger] hits@[h]),
            forall|a: int|
                0 <= a < out@.len() ==> {
                    &&& from_hits(hits@, i as int, #[trigger] out@[a])
                    &&& storage.meta_plain(out@[a].id) == Some(Some(out@[a].text@))
                },
            forall|a: int, b: int|
                0 <= a < b < out@.len() ==> ranks_before(
                    ((#[trigger] out@[a]).id, out@[a].score),
                    ((#[trigger] out@[b]).id, out@[b].score),
                ),
            all_loadable ==> out@.len() == i as int && forall|a: int|
                0 <= a < out@.len() ==> ((#[trigger] out@[a]).id, out@[a].score) == hits@[a],
        decreases hits@.len() - i,
    {
        let (id, score) = hits[i];
        proof {
            assert(hit_of(index@, query@, hits@[i as int]));
            if all_loadable {
                let j = choose|j: int|
                    0 <= j < index@.len() && (#[trigger] index@[j]).0 == hits@[i as int].0
                        && hits@[i as int].1 == spec_dot(query@, index@[j].1);
                assert(storage.loadable(index@[j].0));
            }
        }
        match storage.load_metadata(id) {
            LoadResult::Record(text) => {
                let ghost old_out = out@;
                out.push(SearchResult { id, score, text });
                proof {
                    assert(out@ == old_out.push(
                        SearchResult { id, score, text: out@.last().text },
                    ));
                    assert forall|a: int| 0 <= a < out@.len() implies from_hits(
                        hits@,
                        i + 1,
                        #[trigger] out@[a],
                    ) by {
                        if a < old_out.len() {
                            assert(from_hits(hits@, i as int, out@[a]));
                            let h = choose|h: int|
                                0 <= h < i as int && #[trigger] hits@[h] == (
                                    out@[a].id,
                                    out@[a].score,
                                );
                            assert(hits@[h] == (out@[a].id, out@[a].score));
                        } else {
                            assert(hits@[i as int] == (out@[a].id, out@[a].score));
                        }
                    }
                    assert forall|a: int, b: int| 0 <= a < b < out@.len() implies ranks_before(
                        ((#[trigger] out@[a]).id, out@[a].score),
                        ((#[trigger] out@[b]).id, out@[b].score),
                    ) by {
                        if b == out@.len() - 1 {
                            let h = choose|h: int|
                                0 <= h < i as int && #[trigger] hits@[h] == (
                                    out@[a].id,
                                    out@[a].score,
                                );
                            assert(ranks_before(hits@[h], hits@[i as int]));
                        }
                    }
                }
            },
            LoadResult::NotFound => {
                proof {
                    if all_loadable {
                        assert(false);
                    }
                }
            },
            LoadResult::Corrupt => {
                proof {
                    if all_loadable {
                        assert(false);
                    }
                }
            },
        }
        i = i + 1;
    }
    proof {
        if all_loadable {
            assert forall|e: int|
                0 <= e < index@.len() && !id_in_results(out@, (#[trigger] index@[e]).0)
                implies out@.len() == k && forall|i2: int|
                0 <= i2 < out@.len() ==> outranks(
                    ((#[trigger] out@[i2]).id, out@[i2].score),
                    index@[e].0,
                    spec_dot(query@, index@[e].1),
                ) by {
                assert(!crate::index::id_in_hits(hits@, index@[e].0)) by {
                    if crate::index::id_in_hits(hits@, index@[e].0) {
                        let h = choose|h: int|
                            0 <= h < hits@.len() && (#[trigger] hits@[h]).0 == index@[e].0;
                        assert((out@[h].id, out@[h].score) == hits@[h]);
                        assert(id_in_results(out@, index@[e].0));
                    }
                }
                assert(hits@.len() == k);
                assert forall|i2: int| 0 <= i2 < out@.len() implies outranks(
                    ((#[trigger] out@[i2]).id, out@[i2].score),
                    index@[e].0,
                    spec_dot(query@, index@[e].1),
                ) by {
                    assert((out@[i2].id, out@[i2].score) == hits@[i2]);
                    assert(outranks(hits@[i2], index@[e].0, spec_dot(query@, index@[e].1)));
                }
            }
        }
    }
    out
}

/// The orchestrator: owns the store and the index, sequences each capture
/// cycle, and answers queries.
#[derive(Debug)]
pub struct Engine {
    storage: Storage,
    index: SemanticIndex,
}

impl Engine {
    /// The store the engine writes to.
    pub closed spec fn sto(self) -> Storage {
        self.storage
    }

    /// The index the engine maintains.
    pub closed spec fn idx(self) -> SemanticIndex {
        self.index
    }

    /// Well-formedness and the storage/index consistency invariant: both
    /// components are well-formed, every indexed identifier was allocated
    /// before the next free one, and — because the metadata write precedes
    /// the index insertion in a cycle — every indexed identifier has
    /// metadata that loads under the current key.
    pub open spec fn wf(self) -> bool {
        &&& self.sto().wf()
        &&& self.idx().wf()
        &&& forall|i: int|
            0 <= i < self.idx()@.len() ==> (#[trigger] self.idx()@[i]).0 < self.sto().next()
        &&& forall|i: int|
            0 <= i < self.idx()@.len() ==> self.sto().loadable((#[trigger] self.idx()@[i]).0)
    }

    /// Create an engine from a key and the embedding dimension; a weak key
    /// or an unusable dimension aborts initialization.
    pub fn new(key: &[u8], dim: usize) -> (r: Result<Engine, InitError>)
        ensures
            r is Ok <==> (key@.len() >= crate::store::KEY_MIN_LEN && 1 <= dim
                <= crate::index::DIM_MAX),
            r matches Ok(e) ==> {
                &&& e.wf()
                &&& e.idx()@.len() == 0
                &&& e.idx().spec_dim() == dim
                &&& e.sto().key_bytes() == key@
                &&& e.sto().next() == 1
            },
            r matches Err(e) ==> (e == InitError::WeakKey <==> key@.len()
                < crate::store::KEY_MIN_LEN),
    {
        let storage = match Storage::new(key) {
            Ok(s) => s,
            Err(_) => {
                return Err(InitError::WeakKey);
            },
        };
        let index = match SemanticIndex::new(dim) {
            Ok(ix) => ix,
            Err(_) => {
                return Err(InitError::BadDimension);
            },
        };
        Ok(Engine { storage, index })
    }

    /// Number of snapshots currently indexed.
    pub fn count(&self) -> (r: usize)
        ensures
            r == self.idx()@.len(),
    {
        self.index.count()
    }

    /// The store, for inspection.
    pub fn storage(&self) -> (r: &Storage)
        ensures
            *r == self.sto(),
    {
        &self.storage
    }

    /// The index, for inspection.
    pub fn index(&self) -> (r: &SemanticIndex)
        ensures
            *r == self.idx(),
    {
        &self.index
    }

    /// Run one capture cycle from the collaborators' outcomes: the capture
    /// result, and — when a frame was captured — the extracted text and
    /// vector, each absent when its extractor failed.
    ///
    /// A filtered capture, a failed capture and a failed extraction all
    /// leave the engine exactly as it was: no identifier is allocated, no
    /// record is written, the index is untouched.  A full cycle seals and
    /// writes the frame under a fresh identifier, then the metadata, then
    /// inserts the index entry, and reports the identifier.
    pub fn run_cycle(
        &mut self,
        capture: CaptureOutcome,
        text: Option<Vec<u8>>,
        vector: Option<Vec<i64>>,
    ) -> (r: CycleOutcome)
        requires
            old(self).wf(),
            old(self).sto().next() < u64::MAX,
        ensures
            final(self).wf(),
            final(self).idx().spec_dim() == old(self).idx().spec_dim(),
            capture is Filtered ==> r == CycleOutcome::SkippedFiltered && *final(self) == *old(
                self,
            ),
            capture is Failed ==> r == CycleOutcome::SkippedCapture && *final(self) == *old(self),
            capture is Frame && (text is None || vector is None || !spec_vec_ok(
                vector->0@,
                old(self).idx().spec_dim() as int,
            )) ==> r == CycleOutcome::SkippedExtraction && *final(self) == *old(self),
            capture is Frame && text is Some && vector is Some && spec_vec_ok(
                vector->0@,
                old(self).idx().spec_dim() as int,
            ) ==> {
                &&& r == CycleOutcome::Committed(old(self).sto().next())
                &&& final(self).sto().next() == old(self).sto().next() + 1
                &&& final(self).sto().key_bytes() == old(self).sto().key_bytes()
                &&& final(self).sto().meta_plain(old(self).sto().next()) == Some(
                    Some(text->0@),
                )
                &&& final(self).sto().frame_rec(old(self).sto().next()) is Some
                &&& final(self).idx()@ == old(self).idx()@.push(
                    (old(self).sto().next(), vector->0@, text->0@),
                )
                &&& final(self).idx()@.len() == old(self).idx()@.len() + 1
            },
    {
        let frame = match capture {
            CaptureOutcome::Frame(f) => f,
            CaptureOutcome::Filtered => {
                return CycleOutcome::SkippedFiltered;
            },
            CaptureOutcome::Failed => {
                return CycleOutcome::SkippedCapture;
            },
        };
        let text = match text {
            Some(t) => t,
            None => {
                return CycleOutcome::SkippedExtraction;
            },
        };
        let vector = match vector {
            Some(v) => v,
            None => {
                return CycleOutcome::SkippedExtraction;
            },
        };
        if !vector_ok(&vector, self.index.dim()) {
            return CycleOutcome::SkippedExtraction;
        }
        let id = self.storage.allocate_and_save_frame(frame.as_slice());
        let _saved = self.storage.save_metadata(id, text.as_slice());
        proof {
            assert(_saved is Ok);
            assert(!spec_has_id(self.index@, id)) by {
                if spec_has_id(self.index@, id) {
                    let i = choose|i: int|
                        0 <= i < self.index@.len() && (#[trigger] self.index@[i]).0 == id;
                }
            }
        }
        let ghost old_index = self.index@;
        let _added = self.index.add(id, vector, text);
        proof {
            assert(_added is Ok);
            assert(final(self).idx()@ == old_index.push((id, vector@, text@)));
            assert forall|i: int| 0 <= i < self.index@.len() implies self.storage.loadable(
                (#[trigger] self.index@[i]).0,
            ) by {
                if i < old_index.len() {
                    assert(old_index[i].0 < id);
                    assert(self.index@[i] == old_index[i]);
                }
            }
        }
        CycleOutcome::Committed(id)
    }

    /// Answer a query: rank the indexed snapshots against the query vector
    /// and hydrate each of the best `limit` hits with its stored text.
    /// Under the engine's invariant no hit is dropped, so the result is
    /// exactly the ranked top `limit`.
    pub fn search(&self, query: &[i64], limit: usize) -> (r: Vec<SearchResult>)
        requires
            self.wf(),
            spec_vec_ok(query@, self.idx().spec_dim() as int),
        ensures
            r@.len() == (if limit <= self.idx()@.len() {
                limit as int
            } else {
                self.idx()@.len() as int
            }),
            forall|i: int|
                0 <= i < r@.len() ==> {
                    &&& hit_of(self.idx()@, query@, ((#[trigger] r@[i]).id, r@[i].score))
                    &&& self.sto().meta_plain(r@[i].id) == Some(Some(r@[i].text@))
                },
            forall|i: int, j: int|
                0 <= i < j < r@.len() ==> ranks_before(
                    ((#[trigger] r@[i]).id, r@[i].score),
                    ((#[trigger] r@[j]).id, r@[j].score),
                ),
            forall|e: int|
                0 <= e < self.idx()@.len() && !id_in_results(r@, (#[trigger] self.idx()@[e]).0)
                    ==> r@.len() == limit && forall|i: int|
                    0 <= i < r@.len() ==> outranks(
                        ((#[trigger] r@[i]).id, r@[i].score),
                        self.idx()@[e].0,
                        spec_dot(query@, self.idx()@[e].1),
                    ),
    {
        hydrated_search(&self.index, &self.storage, query, limit)
    }
}

/// The consistency invariant, stated on its own: after any run of cycles,
/// every identifier the index reports has metadata in the store that loads
/// under the current key.
pub proof fn lemma_index_backed_by_storage(e: Engine)
    requires
        e.wf(),
    ensures
        forall|i: int| 0 <= i < e.idx()@.len() ==> e.sto().loadable((#[trigger] e.idx()@[i]).0),
{
}

} // verus!
