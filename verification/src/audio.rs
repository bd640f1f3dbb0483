//! The audio output buffer that the sound device drains, and the lock taken while the APU
//! fills it.

use vstd::prelude::*;

verus! {

/// Bytes in the output buffer: 4410 16-bit samples.
pub const SAMPLE_COUNT: usize = 8820;

/// The samples waiting to be played and how far playback has got through them.
pub struct NesAudioCallback {
    pub samples: [u8; SAMPLE_COUNT],
    pub play_offset: usize,
}

impl NesAudioCallback {
    /// An empty buffer, fully played.
    pub fn new() -> (c: NesAudioCallback)
        ensures
            forall|i: int| 0 <= i < SAMPLE_COUNT ==> c.samples@[i] == 0,
            c.play_offset == 0,
    {
        NesAudioCallback { samples: [0u8; SAMPLE_COUNT], play_offset: 0 }
    }

    /// The device asks for `out.len()` bytes: the unplayed bytes from the play offset on are
    /// copied to the front of `out` (as many as fit; the rest of `out` keeps what it held), and
    /// the play offset moves on by the length of `out`, stopping at the end of the buffer.
    pub fn fill(&mut self, out: &mut [u8])
        requires
            old(self).play_offset + old(out)@.len() <= usize::MAX,
        ensures
            final(self).samples == old(self).samples,
            final(self).play_offset == if old(self).play_offset + old(out)@.len() < SAMPLE_COUNT {
                (old(self).play_offset + old(out)@.len()) as usize
            } else {
                SAMPLE_COUNT
            },
            final(out)@.len() == old(out)@.len(),
            forall|i: int| 0 <= i < old(out)@.len() ==> #[trigger] final(out)@[i] == if i + old(self).play_offset < SAMPLE_COUNT {
                old(self).samples@[i + old(self).play_offset]
            } else {
                old(out)@[i]
            },
    {
        let play_offset = self.play_offset;
        let output_buffer_len = self.samples.len();
        let mut i: usize = 0;
        while i < out.len()
            invariant
                play_offset == self.play_offset,
                output_buffer_len == SAMPLE_COUNT,
                self.samples == old(self).samples,
                play_offset + out@.len() <= usize::MAX,
                i <= out@.len(),
                out@.len() == old(out)@.len(),
                out@.len() == out.len(),
                forall|j: int| 0 <= j < i ==> out@[j] == if j + play_offset < SAMPLE_COUNT {
                    self.samples@[j + play_offset]
                } else {
                    old(out)@[j]
                },
                forall|j: int| i <= j < out@.len() ==> out@[j] == old(out)@[j],
            ensures
                i == out@.len() || i + play_offset >= SAMPLE_COUNT,
            decreases out@.len() - i,
        {
            if i + play_offset >= output_buffer_len {
                break;
            }
            out[i] = self.samples[i + play_offset];
            i = i + 1;
        }
        let end = play_offset + out.len();
        self.play_offset = if end < output_buffer_len { end } else { output_buffer_len };
    }
}

/// Shutting down audio: nothing is held open, so nothing is done.
pub fn close() {
}

/// Held while the APU writes into the output buffer.  Taking it does nothing more: the
/// buffer is handed over by ownership.
pub struct AudioLock;

impl AudioLock {
    pub fn lock() -> (l: AudioLock)
        ensures
            l == AudioLock,
    {
        AudioLock
    }
}

} // verus!
