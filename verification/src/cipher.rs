//! Symmetric record sealing for the content store.
//!
//! A sealed record is `tag ++ digest ++ body`: an 8-byte key tag that binds
//! the record to the key and identifier it was written under, an 8-byte
//! digest of the plaintext, and the plaintext XOR-ed with a key stream.
//! Opening checks the tag and the digest, so a record written under a
//! different key, or a damaged record, is rejected rather than returned as
//! plausible-looking data.

use vstd::prelude::*;

verus! {

/// Seed of the byte-mixing fold.
pub const MIX_SEED: u64 = 0x243f6a8885a308d3;

/// Constant stirred into every step of the byte-mixing fold.
pub const MIX_STIR: u64 = 0x9e3779b9;

/// One step of the mixing fold over a byte.
pub open spec fn spec_mix_step(acc: u64, b: u8) -> u64 {
    (acc << 5) ^ (acc >> 3) ^ (b as u64) ^ MIX_STIR
}

/// Mixing fold over a whole byte sequence; used as the record digest and as
/// the key fingerprint inside the tag.
pub open spec fn spec_mix(s: Seq<u8>) -> u64
    decreases s.len(),
{
    if s.len() == 0 {
        MIX_SEED
    } else {
        spec_mix_step(spec_mix(s.drop_last()), s.last())
    }
}

/// Mixing fold over a byte string.
pub fn mix_bytes(s: &[u8]) -> (r: u64)
    ensures
        r == spec_mix(s@),
{
    let mut acc: u64 = MIX_SEED;
    let mut i: usize = 0;
    while i < s.len()
        invariant
            i <= s.len(),
            acc == spec_mix(s@.subrange(0, i as int)),
        decreases s.len() - i,
    {
        acc = (acc << 5) ^ (acc >> 3) ^ (s[i] as u64) ^ MIX_STIR;
        proof {
            assert(s@.subrange(0, i + 1).drop_last() =~= s@.subrange(0, i as int));
            assert(s@.subrange(0, i + 1).last() == s@[i as int]);
        }
        i = i + 1;
    }
    proof {
        assert(s@.subrange(0, s@.len() as int) =~= s@);
    }
    acc
}

/// Byte `i` (little-endian) of a 64-bit word.
pub open spec fn spec_byte_of(x: u64, i: u64) -> u8 {
    ((x >> ((8 * i) as u64)) & 0xff) as u8
}

/// Little-endian bytes of a 64-bit word.
pub open spec fn spec_le8(x: u64) -> Seq<u8> {
    Seq::new(8, |i: int| spec_byte_of(x, i as u64))
}

/// Byte `i` (little-endian) of a 64-bit word.
pub fn byte_of(x: u64, i: u64) -> (r: u8)
    requires
        i < 8,
    ensures
        r == spec_byte_of(x, i),
{
    ((x >> (8 * i)) & 0xff) as u8
}

/// Little-endian bytes of a 64-bit word.
pub fn le8(x: u64) -> (r: Vec<u8>)
    ensures
        r@ == spec_le8(x),
{
    let mut r: Vec<u8> = Vec::new();
    let mut i: u64 = 0;
    while i < 8
        invariant
            i <= 8,
            r@ =~= spec_le8(x).subrange(0, i as int),
        decreases 8 - i,
    {
        r.push(byte_of(x, i));
        i = i + 1;
    }
    proof {
        assert(spec_le8(x).subrange(0, 8) =~= spec_le8(x));
    }
    r
}

/// Two words with equal little-endian bytes are equal.
pub proof fn lemma_le8_injective(x: u64, y: u64)
    requires
        spec_le8(x) == spec_le8(y),
    ensures
        x == y,
{
    assert(spec_le8(x)[0] == spec_byte_of(x, 0) && spec_le8(y)[0] == spec_byte_of(y, 0));
    assert(spec_le8(x)[1] == spec_byte_of(x, 1) && spec_le8(y)[1] == spec_byte_of(y, 1));
    assert(spec_le8(x)[2] == spec_byte_of(x, 2) && spec_le8(y)[2] == spec_byte_of(y, 2));
    assert(spec_le8(x)[3] == spec_byte_of(x, 3) && spec_le8(y)[3] == spec_byte_of(y, 3));
    assert(spec_le8(x)[4] == spec_byte_of(x, 4) && spec_le8(y)[4] == spec_byte_of(y, 4));
    assert(spec_le8(x)[5] == spec_byte_of(x, 5) && spec_le8(y)[5] == spec_byte_of(y, 5));
    assert(spec_le8(x)[6] == spec_byte_of(x, 6) && spec_le8(y)[6] == spec_byte_of(y, 6));
    assert(spec_le8(x)[7] == spec_byte_of(x, 7) && spec_le8(y)[7] == spec_byte_of(y, 7));
    assert(spec_byte_of(x, 0) == ((x >> 0u64) & 0xff) as u8);
    assert(spec_byte_of(x, 1) == ((x >> 8u64) & 0xff) as u8);
    assert(spec_byte_of(x, 2) == ((x >> 16u64) & 0xff) as u8);
    assert(spec_byte_of(x, 3) == ((x >> 24u64) & 0xff) as u8);
    assert(spec_byte_of(x, 4) == ((x >> 32u64) & 0xff) as u8);
    assert(spec_byte_of(x, 5) == ((x >> 40u64) & 0xff) as u8);
    assert(spec_byte_of(x, 6) == ((x >> 48u64) & 0xff) as u8);
    assert(spec_byte_of(x, 7) == ((x >> 56u64) & 0xff) as u8);
    assert(spec_byte_of(y, 0) == ((y >> 0u64) & 0xff) as u8);
    assert(spec_byte_of(y, 1) == ((y >> 8u64) & 0xff) as u8);
    assert(spec_byte_of(y, 2) == ((y >> 16u64) & 0xff) as u8);
    assert(spec_byte_of(y, 3) == ((y >> 24u64) & 0xff) as u8);
    assert(spec_byte_of(y, 4) == ((y >> 32u64) & 0xff) as u8);
    assert(spec_byte_of(y, 5) == ((y >> 40u64) & 0xff) as u8);
    assert(spec_byte_of(y, 6) == ((y >> 48u64) & 0xff) as u8);
    assert(spec_byte_of(y, 7) == ((y >> 56u64) & 0xff) as u8);
    assert(x == y) by (bit_vector)
        requires
            ((x >> 0u64) & 0xff) as u8 == ((y >> 0u64) & 0xff) as u8,
            ((x >> 8u64) & 0xff) as u8 == ((y >> 8u64) & 0xff) as u8,
            ((x >> 16u64) & 0xff) as u8 == ((y >> 16u64) & 0xff) as u8,
            ((x >> 24u64) & 0xff) as u8 == ((y >> 24u64) & 0xff) as u8,
            ((x >> 32u64) & 0xff) as u8 == ((y >> 32u64) & 0xff) as u8,
            ((x >> 40u64) & 0xff) as u8 == ((y >> 40u64) & 0xff) as u8,
            ((x >> 48u64) & 0xff) as u8 == ((y >> 48u64) & 0xff) as u8,
            ((x >> 56u64) & 0xff) as u8 == ((y >> 56u64) & 0xff) as u8,
    ;
}

/// Tag that binds a record to the key it was sealed under and to its
/// identifier.
pub open spec fn spec_key_tag(key: Seq<u8>, id: u64) -> u64 {
    spec_mix(key) ^ id
}

/// Key-stream byte `j` for a record identifier.
pub open spec fn spec_ks_byte(key: Seq<u8>, id: u64, j: int) -> u8
    recommends
        key.len() > 0,
{
    key[j % key.len() as int] ^ spec_byte_of(id, (j % 8) as u64) ^ ((j % 256) as u8)
}

/// XOR of a byte sequence with the key stream; its own inverse.
pub open spec fn spec_xor_stream(key: Seq<u8>, id: u64, data: Seq<u8>) -> Seq<u8>
    recommends
        key.len() > 0,
{
    Seq::new(data.len(), |j: int| data[j] ^ spec_ks_byte(key, id, j))
}

proof fn lemma_xor_cancel(a: u8, k: u8)
    ensures
        (a ^ k) ^ k == a,
{
    assert((a ^ k) ^ k == a) by (bit_vector);
}

/// Applying the key stream twice gives the data back.
pub proof fn lemma_xor_stream_involution(key: Seq<u8>, id: u64, data: Seq<u8>)
    requires
        key.len() > 0,
    ensures
        spec_xor_stream(key, id, spec_xor_stream(key, id, data)) =~= data,
{
    assert forall|j: int| 0 <= j < data.len() implies spec_xor_stream(
        key,
        id,
        spec_xor_stream(key, id, data),
    )[j] == data[j] by {
        lemma_xor_cancel(data[j], spec_ks_byte(key, id, j));
    }
}

/// XOR of a byte string with the key stream.
pub fn xor_stream(key: &[u8], id: u64, data: &[u8]) -> (r: Vec<u8>)
    requires
        key.len() > 0,
    ensures
        r@ == spec_xor_stream(key@, id, data@),
{
    let mut r: Vec<u8> = Vec::new();
    let mut j: usize = 0;
    while j < data.len()
        invariant
            j <= data.len(),
            key.len() > 0,
            r@ =~= spec_xor_stream(key@, id, data@).subrange(0, j as int),
        decreases data.len() - j,
    {
        let ks: u8 = key[j % key.len()] ^ byte_of(id, (j % 8) as u64) ^ ((j % 256) as u8);
        assert(ks == spec_ks_byte(key@, id, j as int));
        r.push(data[j] ^ ks);
        j = j + 1;
    }
    r
}

/// Number of header bytes (tag plus digest) in a sealed record.
pub const HEADER_LEN: usize = 16;

/// Sealed form of a plaintext under a key and identifier.
pub open spec fn spec_seal(key: Seq<u8>, id: u64, plain: Seq<u8>) -> Seq<u8>
    recommends
        key.len() > 0,
{
    spec_le8(spec_key_tag(key, id)) + spec_le8(spec_mix(plain)) + spec_xor_stream(
        key,
        id,
        plain,
    )
}

/// What opening a blob under a key and identifier yields: the plaintext when
/// the tag and digest check out, nothing otherwise.
pub open spec fn spec_open(key: Seq<u8>, id: u64, blob: Seq<u8>) -> Option<Seq<u8>>
    recommends
        key.len() > 0,
{
    if blob.len() < HEADER_LEN {
        None
    } else if blob.subrange(0, 8) != spec_le8(spec_key_tag(key, id)) {
        None
    } else {
        let plain = spec_xor_stream(key, id, blob.subrange(16, blob.len() as int));
        if blob.subrange(8, 16) != spec_le8(spec_mix(plain)) {
            None
        } else {
            Some(plain)
        }
    }
}

/// Opening a record under the key it was sealed with yields the plaintext.
pub proof fn lemma_seal_open_roundtrip(key: Seq<u8>, id: u64, plain: Seq<u8>)
    requires
        key.len() > 0,
    ensures
        spec_open(key, id, spec_seal(key, id, plain)) == Some(plain),
{
    let blob = spec_seal(key, id, plain);
    assert(blob.len() == 16 + plain.len());
    assert(blob.subrange(0, 8) =~= spec_le8(spec_key_tag(key, id)));
    assert(blob.subrange(8, 16) =~= spec_le8(spec_mix(plain)));
    assert(blob.subrange(16, blob.len() as int) =~= spec_xor_stream(key, id, plain));
    lemma_xor_stream_involution(key, id, plain);
    let recovered = spec_xor_stream(key, id, blob.subrange(16, blob.len() as int));
    assert(recovered =~= plain);
}

/// Opening a record under a key whose tag differs from the sealing key's tag
/// yields nothing: a wrong key is reported, not decoded into wrong data.
pub proof fn lemma_open_wrong_key(key1: Seq<u8>, key2: Seq<u8>, id: u64, plain: Seq<u8>)
    requires
        key1.len() > 0,
        key2.len() > 0,
        spec_key_tag(key1, id) != spec_key_tag(key2, id),
    ensures
        spec_open(key2, id, spec_seal(key1, id, plain)) is None,
{
    let blob = spec_seal(key1, id, plain);
    assert(blob.subrange(0, 8) =~= spec_le8(spec_key_tag(key1, id)));
    if blob.subrange(0, 8) == spec_le8(spec_key_tag(key2, id)) {
        lemma_le8_injective(spec_key_tag(key1, id), spec_key_tag(key2, id));
    }
}

/// Seal a plaintext under a key and identifier.
pub fn seal(key: &[u8], id: u64, plain: &[u8]) -> (r: Vec<u8>)
    requires
        key.len() > 0,
    ensures
        r@ == spec_seal(key@, id, plain@),
{
    let mut r = le8(mix_bytes(key) ^ id);
    let mut digest = le8(mix_bytes(plain));
    let mut body = xor_stream(key, id, plain);
    r.append(&mut digest);
    r.append(&mut body);
    r
}

/// Open a sealed blob under a key and identifier.
pub fn open_record(key: &[u8], id: u64, blob: &[u8]) -> (r: Option<Vec<u8>>)
    requires
        key.len() > 0,
    ensures
        match r {
            Some(p) => spec_open(key@, id, blob@) == Some(p@),
            None => spec_open(key@, id, blob@) is None,
        },
{
    if blob.len() < HEADER_LEN {
        return None;
    }
    let tag = le8(mix_bytes(key) ^ id);
    if !crate::text::bytes_eq(&blob[0..8], tag.as_slice()) {
        proof {
            assert(blob@.subrange(0, 8) != spec_le8(spec_key_tag(key@, id)));
        }
        return None;
    }
    let plain = xor_stream(key, id, &blob[16..blob.len()]);
    let digest = le8(mix_bytes(plain.as_slice()));
    if !crate::text::bytes_eq(&blob[8..16], digest.as_slice()) {
        proof {
            assert(blob@.subrange(8, 16) != spec_le8(spec_mix(plain@)));
        }
        return None;
    }
    Some(plain)
}

} // verus!
