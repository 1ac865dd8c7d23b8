//! Audio data held in memory, ready to be decoded for playback.
use vstd::prelude::*;

verus! {

/// The encoded bytes of a sound (WAV, MP3, OGG or FLAC).
pub struct AudioSource {
    data: Vec<u8>,
}

impl View for AudioSource {
    type V = Seq<u8>;

    closed spec fn view(&self) -> Seq<u8> {
        self.data@
    }
}

impl AudioSource {
    /// A source over the encoded bytes `data`.
    pub fn from_bytes(data: Vec<u8>) -> (r: Self)
        ensures
            r@ == data@,
    {
        AudioSource { data }
    }

    /// The encoded bytes.
    pub fn data(&self) -> (r: &[u8])
        ensures
            r@ == self@,
    {
        self.data.as_slice()
    }
}

} // verus!
