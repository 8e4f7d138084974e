//! Audio response decoding: base64-encoded 16-bit little-endian PCM is
//! decoded into samples.  Playing the samples through a device is the
//! caller's concern; this module produces them.

use base64::Engine;
use vstd::prelude::*;
use vstd::string::StringSliceAdditionalSpecFns;

verus! {

/// Errors of audio decoding.
#[derive(Debug, PartialEq, Eq, Clone, Copy)]
pub enum AudioError {
    /// The response is not valid base64.
    InvalidBase64,
}

#[verifier::external_type_specification]
#[verifier::external_body]
pub struct ExDecodeError(base64::DecodeError);

/// What the standard base64 alphabet decodes a byte string to: the decoded
/// bytes, or nothing when the input is not valid base64.
pub uninterp spec fn b64_decoded(s: Seq<u8>) -> Option<Seq<u8>>;

/// Relies on base64's `Engine::decode` with the `STANDARD` engine: a pure
/// function of the input that yields the decoded bytes exactly when the
/// input is valid base64.
#[verifier::external_body]
fn b64_decode(s: &str) -> (r: Result<Vec<u8>, base64::DecodeError>)
    ensures
        match r {
            Ok(v) => b64_decoded(s.spec_bytes()) == Some(v@),
            Err(_) => b64_decoded(s.spec_bytes()) is None,
        },
{
    base64::engine::general_purpose::STANDARD.decode(s)
}

/// One 16-bit sample from its little-endian bytes.
pub open spec fn spec_i16_le(lo: u8, hi: u8) -> i16 {
    (lo as u16 | ((hi as u16) << 8)) as i16
}

/// The samples encoded by a 16-bit little-endian PCM byte string; a
/// trailing odd byte carries no sample and is dropped.
pub open spec fn spec_samples(bytes: Seq<u8>) -> Seq<i16> {
    Seq::new(bytes.len() / 2, |i: int| spec_i16_le(bytes[2 * i], bytes[2 * i + 1]))
}

/// Audio player front end: turns encoded responses into playable samples.
pub struct AudioPlayer {
}

impl AudioPlayer {
    /// Create a new audio player.
    pub fn new() -> (r: AudioPlayer) {
        AudioPlayer {  }
    }

    /// The 16-bit samples of a little-endian PCM byte string.  An odd
    /// trailing byte is dropped rather than failing: malformed audio data
    /// must not bring the player down.
    pub fn bytes_to_samples(&self, bytes: &[u8]) -> (r: Vec<i16>)
        ensures
            r@ == spec_samples(bytes@),
    {
        let valid_len = bytes.len() - (bytes.len() % 2);
        let mut r: Vec<i16> = Vec::new();
        let mut i: usize = 0;
        while i < valid_len
            invariant
                valid_len == bytes@.len() - (bytes@.len() % 2),
                valid_len <= bytes@.len(),
                valid_len % 2 == 0,
                i % 2 == 0,
                i <= valid_len,
                r@.len() == i as int / 2,
                forall|t: int|
                    0 <= t < r@.len() ==> #[trigger] r@[t] == spec_i16_le(
                        bytes@[2 * t],
                        bytes@[2 * t + 1],
                    ),
            decreases valid_len - i,
        {
            let lo = bytes[i];
            let hi = bytes[i + 1];
            let v: u16 = (lo as u16) | ((hi as u16) << 8);
            r.push(#[verifier::truncate] (v as i16));
            i = i + 2;
        }
        proof {
            assert(r@.len() == bytes@.len() / 2);
            assert(r@ =~= spec_samples(bytes@));
        }
        r
    }

    /// Decode a base64 response into its 16-bit samples; invalid base64 is
    /// rejected.
    pub fn decode_response(&self, audio_data: &str) -> (r: Result<Vec<i16>, AudioError>)
        ensures
            match b64_decoded(audio_data.spec_bytes()) {
                Some(bytes) => r matches Ok(s) && s@ == spec_samples(bytes),
                None => r matches Err(e) && e == AudioError::InvalidBase64,
            },
    {
        match b64_decode(audio_data) {
            Ok(bytes) => Ok(self.bytes_to_samples(bytes.as_slice())),
            Err(_) => Err(AudioError::InvalidBase64),
        }
    }
}

} // verus!
