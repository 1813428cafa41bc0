//! The audio clip asset: encoded audio bytes a decoder accepted.

use vstd::prelude::*;

verus! {

/// A loaded block of audio data (WAV, OGG, FLAC or MP3) ready for playback.
#[derive(Debug, Clone)]
pub struct AudioClip {
    data: Vec<u8>,
}

impl AudioClip {
    /// The encoded bytes.
    pub closed spec fn bytes(&self) -> Seq<u8> {
        self.data@
    }

    /// A clip from `bytes`, given whether an audio decoder accepted them:
    /// bytes that do not decode make no clip.
    pub fn from_checked_bytes(bytes: &[u8], decodes: bool) -> (r: Option<AudioClip>)
        ensures
            r is Some <==> decodes,
            r matches Some(c) ==> c.bytes() == bytes@,
    {
        if decodes {
            Some(AudioClip { data: vstd::slice::slice_to_vec(bytes) })
        } else {
            None
        }
    }

    /// The encoded bytes, for decoding at playback time.
    pub fn data(&self) -> (r: &[u8])
        ensures
            r@ == self.bytes(),
    {
        self.data.as_slice()
    }
}

} // verus!
