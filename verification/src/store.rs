//! Encrypted, append-friendly persistence of the two record kinds that make
//! up a snapshot: the raw frame and the derived text metadata.  Records are
//! sealed with the cipher module; a record that is absent is reported as
//! `NotFound`, one that is present but does not open under the current key
//! (key mismatch or damage) as `Corrupt`.

use crate::cipher::{spec_open, spec_seal, open_record, seal};
use vstd::prelude::*;

verus! {

/// Smallest accepted encryption key, in bytes.
pub const KEY_MIN_LEN: usize = 16;

/// Errors of the store.
#[derive(Debug, PartialEq, Eq, Clone, Copy)]
pub enum StorageError {
    /// The supplied key is shorter than `KEY_MIN_LEN`.
    WeakKey,
    /// The identifier was never allocated.
    UnknownId,
}

/// Outcome of loading a metadata record.
#[derive(Debug, PartialEq, Eq)]
pub enum LoadResult {
    /// The record exists and opened under the current key.
    Record(Vec<u8>),
    /// No record exists for the identifier.
    NotFound,
    /// A record exists but does not open under the current key.
    Corrupt,
}

/// Last-written blob for an identifier in a record list.
pub open spec fn spec_lookup(s: Seq<(u64, Vec<u8>)>, id: u64) -> Option<Seq<u8>>
    decreases s.len(),
{
    if s.len() == 0 {
        None
    } else if s.last().0 == id {
        Some(s.last().1@)
    } else {
        spec_lookup(s.drop_last(), id)
    }
}

fn find_last(s: &Vec<(u64, Vec<u8>)>, id: u64) -> (r: Option<&Vec<u8>>)
    ensures
        match r {
            Some(b) => spec_lookup(s@, id) == Some(b@),
            None => spec_lookup(s@, id) is None,
        },
{
    proof {
        assert(s@.subrange(0, s@.len() as int) =~= s@);
    }
    let mut i: usize = s.len();
    while i > 0
        invariant
            i <= s.len(),
            spec_lookup(s@, id) == spec_lookup(s@.subrange(0, i as int), id),
        decreases i,
    {
        i = i - 1;
        proof {
            assert(s@.subrange(0, i + 1).last() == s@[i as int]);
            assert(s@.subrange(0, i + 1).drop_last() =~= s@.subrange(0, i as int));
        }
        if s[i].0 == id {
            return Some(&s[i].1);
        }
    }
    proof {
        assert(s@.subrange(0, 0) =~= Seq::<(u64, Vec<u8>)>::empty());
    }
    None
}

/// Durable, encrypted, per-identifier persistence of frames and metadata.
///
/// Identifiers are allocated here, strictly increasing from 1, exactly one
/// per committed frame, and never reused.
#[derive(Debug)]
pub struct Storage {
    key: Vec<u8>,
    next_id: u64,
    frames: Vec<(u64, Vec<u8>)>,
    metas: Vec<(u64, Vec<u8>)>,
}

impl Storage {
    /// Well-formedness: an acceptable key, and every record under an
    /// identifier that was allocated before the next free one.
    pub closed spec fn wf(self) -> bool {
        &&& self.key@.len() >= KEY_MIN_LEN
        &&& self.next_id >= 1
        &&& forall|i: int|
            0 <= i < self.frames@.len() ==> 1 <= (#[trigger] self.frames@[i]).0
                < self.next_id
        &&& forall|i: int|
            0 <= i < self.metas@.len() ==> spec_lookup(
                self.frames@,
                (#[trigger] self.metas@[i]).0,
            ) is Some
    }

    /// The current key.
    pub closed spec fn key_bytes(self) -> Seq<u8> {
        self.key@
    }

    /// The next identifier to be allocated.
    pub closed spec fn next(self) -> u64 {
        self.next_id
    }

    /// Sealed frame blob for an identifier, if one was written.
    pub closed spec fn frame_rec(self, id: u64) -> Option<Seq<u8>> {
        spec_lookup(self.frames@, id)
    }

    /// Sealed metadata blob for an identifier, if one was written.
    pub closed spec fn meta_rec(self, id: u64) -> Option<Seq<u8>> {
        spec_lookup(self.metas@, id)
    }

    /// What loading metadata for an identifier yields: `None` when no record
    /// exists, otherwise the outcome of opening it under the current key.
    pub open spec fn meta_plain(self, id: u64) -> Option<Option<Seq<u8>>> {
        match self.meta_rec(id) {
            None => None,
            Some(blob) => Some(spec_open(self.key_bytes(), id, blob)),
        }
    }

    /// A metadata record exists for the identifier and opens under the
    /// current key.
    pub open spec fn loadable(self, id: u64) -> bool {
        self.meta_plain(id) matches Some(p) && p is Some
    }

    /// The next identifier to be allocated.
    pub fn next_id(&self) -> (r: u64)
        ensures
            r == self.next(),
    {
        self.next_id
    }

    /// Create a store under the given key; a key shorter than `KEY_MIN_LEN`
    /// is rejected.
    pub fn new(key: &[u8]) -> (r: Result<Storage, StorageError>)
        ensures
            r is Ok <==> key@.len() >= KEY_MIN_LEN,
            r matches Ok(s) ==> {
                &&& s.wf()
                &&& s.key_bytes() == key@
                &&& s.next() == 1
                &&& forall|id: u64| #[trigger] s.frame_rec(id) is None
                &&& forall|id: u64| #[trigger] s.meta_rec(id) is None
            },
            r matches Err(e) ==> e == StorageError::WeakKey,
    {
        if key.len() < KEY_MIN_LEN {
            return Err(StorageError::WeakKey);
        }
        let mut k: Vec<u8> = Vec::new();
        k.extend_from_slice(key);
        Ok(Storage { key: k, next_id: 1, frames: Vec::new(), metas: Vec::new() })
    }

    /// Replace the process key.  Existing records are kept as they are: ones
    /// sealed under another key will open as `Corrupt` from now on.
    pub fn set_encryption_key(&mut self, key: &[u8]) -> (r: Result<(), StorageError>)
        requires
            old(self).wf(),
        ensures
            final(self).wf(),
            r is Ok <==> key@.len() >= KEY_MIN_LEN,
            r is Ok ==> {
                &&& final(self).key_bytes() == key@
                &&& final(self).next() == old(self).next()
                &&& forall|id: u64| #[trigger] final(self).frame_rec(id) == old(self).frame_rec(id)
                &&& forall|id: u64| #[trigger] final(self).meta_rec(id) == old(self).meta_rec(id)
            },
            r matches Err(e) ==> e == StorageError::WeakKey && *final(self) == *old(self),
    {
        if key.len() < KEY_MIN_LEN {
            return Err(StorageError::WeakKey);
        }
        let mut k: Vec<u8> = Vec::new();
        k.extend_from_slice(key);
        self.key = k;
        Ok(())
    }

    /// Allocate the next identifier and durably write the sealed frame under
    /// it.  The identifier is fresh: no record of either kind exists for it.
    pub fn allocate_and_save_frame(&mut self, frame: &[u8]) -> (id: u64)
        requires
            old(self).wf(),
            old(self).next() < u64::MAX,
        ensures
            final(self).wf(),
            id == old(self).next(),
            final(self).next() == old(self).next() + 1,
            final(self).key_bytes() == old(self).key_bytes(),
            final(self).frame_rec(id) == Some(spec_seal(old(self).key_bytes(), id, frame@)),
            forall|x: u64|
                x != id ==> #[trigger] final(self).frame_rec(x) == old(self).frame_rec(x),
            forall|x: u64| #[trigger] final(self).meta_rec(x) == old(self).meta_rec(x),
            old(self).frame_rec(id) is None,
            old(self).meta_rec(id) is None,
    {
        let id = self.next_id;
        proof {
            if old(self).frame_rec(id) is Some {
                lemma_lookup_some_has_index(old(self).frames@, id);
            }
            if old(self).meta_rec(id) is Some {
                lemma_lookup_some_has_index(old(self).metas@, id);
                let i = choose|i: int|
                    0 <= i < old(self).metas@.len() && old(self).metas@[i].0 == id;
                lemma_lookup_some_has_index(old(self).frames@, id);
            }
        }
        let blob = seal(self.key.as_slice(), id, frame);
        self.frames.push((id, blob));
        self.next_id = self.next_id + 1;
        proof {
            assert(final(self).frames@.last() == final(self).frames@[old(self).frames@.len() as int]);
            assert(final(self).frames@.drop_last() =~= old(self).frames@);
        }
        id
    }

    /// Seal and write the text metadata record for an already-allocated
    /// identifier; rejected with `UnknownId` for one never allocated.
    pub fn save_metadata(&mut self, id: u64, text: &[u8]) -> (r: Result<(), StorageError>)
        requires
            old(self).wf(),
        ensures
            final(self).wf(),
            r is Ok <==> old(self).frame_rec(id) is Some,
            r is Ok ==> {
                &&& final(self).meta_rec(id) == Some(
                    spec_seal(old(self).key_bytes(), id, text@),
                )
                &&& final(self).meta_plain(id) == Some(Some(text@))
                &&& forall|x: u64|
                    x != id ==> #[trigger] final(self).meta_rec(x) == old(self).meta_rec(x)
                &&& forall|x: u64| #[trigger] final(self).frame_rec(x) == old(self).frame_rec(x)
                &&& final(self).next() == old(self).next()
                &&& final(self).key_bytes() == old(self).key_bytes()
            },
            r matches Err(e) ==> e == StorageError::UnknownId && *final(self) == *old(self),
    {
        if find_last(&self.frames, id).is_none() {
            return Err(StorageError::UnknownId);
        }
        let blob = seal(self.key.as_slice(), id, text);
        self.metas.push((id, blob));
        proof {
            assert(final(self).metas@.last() == final(self).metas@[old(self).metas@.len() as int]);
            assert(final(self).metas@.drop_last() =~= old(self).metas@);
            crate::cipher::lemma_seal_open_roundtrip(old(self).key_bytes(), id, text@);
        }
        Ok(())
    }

    /// Load and open the metadata record for an identifier, distinguishing
    /// an absent record from one that fails to open under the current key.
    pub fn load_metadata(&self, id: u64) -> (r: LoadResult)
        requires
            self.wf(),
        ensures
            match r {
                LoadResult::NotFound => self.meta_plain(id) is None,
                LoadResult::Corrupt => self.meta_plain(id) == Some(None::<Seq<u8>>),
                LoadResult::Record(p) => self.meta_plain(id) == Some(Some(p@)),
            },
    {
        match find_last(&self.metas, id) {
            None => LoadResult::NotFound,
            Some(blob) => match open_record(self.key.as_slice(), id, blob.as_slice()) {
                None => LoadResult::Corrupt,
                Some(p) => LoadResult::Record(p),
            },
        }
    }
}

/// A successful lookup has a witness index in the record list.
proof fn lemma_lookup_some_has_index(s: Seq<(u64, Vec<u8>)>, id: u64)
    requires
        spec_lookup(s, id) is Some,
    ensures
        exists|i: int| 0 <= i < s.len() && (#[trigger] s[i]).0 == id,
    decreases s.len(),
{
    if s.len() > 0 {
        if s.last().0 == id {
            assert(s[s.len() - 1].0 == id);
        } else {
            lemma_lookup_some_has_index(s.drop_last(), id);
            let i = choose|i: int| 0 <= i < s.drop_last().len() && (#[trigger] s.drop_last()[i]).0 == id;
            assert(s[i].0 == id);
        }
    }
}

} // verus!
