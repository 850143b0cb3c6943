//! The audio bridge: a FIFO hand-off of per-buffer loudness samples from the
//! real-time audio callback to the polling render loop, plus the guard that
//! makes starting the stream idempotent.
//!
//! A loudness sample is carried as the raw 32-bit pattern of the per-buffer
//! mean; the caller encodes each value to bits before recording it and
//! decodes after draining, so the queue itself never inspects a sample.

use vstd::prelude::*;

verus! {

/// Bridges the audio callback to the render loop. Samples queue up in
/// production order and are drained without blocking; a start guard keeps
/// repeated per-frame start requests from ever double-starting the stream.
pub struct AudioBridge {
    playing: bool,
    samples: Vec<u32>,
}

impl AudioBridge {
    /// Whether the stream has been asked to play.
    pub closed spec fn playing(self) -> bool {
        self.playing
    }

    /// The queued loudness samples, oldest first.
    pub closed spec fn samples(self) -> Seq<u32> {
        self.samples@
    }

    /// The bridge state after a request to start the stream.
    pub closed spec fn spec_started(self) -> AudioBridge {
        AudioBridge { playing: true, samples: self.samples }
    }

    /// A fresh bridge: stream not yet started, no samples queued.
    pub fn new() -> (bridge: AudioBridge)
        ensures
            !bridge.playing(),
            bridge.samples() == Seq::<u32>::empty(),
    {
        AudioBridge { playing: false, samples: Vec::new() }
    }

    /// Records the outcome of one audio callback: `frame_count` frames were
    /// delivered and their arithmetic mean has bit pattern `mean_bits`. An
    /// empty buffer queues nothing, so it can never contribute a spurious
    /// sample; a non-empty one appends exactly one sample at the back.
    pub fn on_buffer(&mut self, frame_count: usize, mean_bits: u32)
        ensures
            final(self).playing() == old(self).playing(),
            frame_count == 0 ==> final(self).samples() == old(self).samples(),
            frame_count > 0 ==> final(self).samples() == old(self).samples().push(mean_bits),
    {
        if frame_count > 0 {
            self.samples.push(mean_bits);
        }
    }

    /// Makes sure the stream is playing and says whether the caller must
    /// start the underlying stream now: true only on the first request, so a
    /// request repeated every frame neither double-starts the stream nor
    /// touches the queued samples.
    pub fn ensure_playing(&mut self) -> (start_now: bool)
        ensures
            *final(self) == old(self).spec_started(),
            final(self).playing(),
            final(self).samples() == old(self).samples(),
            start_now == !old(self).playing(),
    {
        let was_playing = self.playing;
        self.playing = true;
        !was_playing
    }

    /// Hands every queued sample to the consumer, oldest first, and leaves
    /// the queue empty. Never blocks and never fails: an empty queue simply
    /// yields an empty batch.
    pub fn drain(&mut self) -> (batch: Vec<u32>)
        ensures
            batch@ == old(self).samples(),
            final(self).samples() == Seq::<u32>::empty(),
            final(self).playing() == old(self).playing(),
            old(self).samples().len() == 0 ==> batch@.len() == 0,
    {
        let mut batch: Vec<u32> = Vec::new();
        core::mem::swap(&mut batch, &mut self.samples);
        batch
    }

    /// Whether the stream has been asked to play.
    pub fn is_playing(&self) -> (playing: bool)
        ensures
            playing == self.playing(),
    {
        self.playing
    }

    /// How many samples are queued and waiting to be drained.
    pub fn pending(&self) -> (count: usize)
        ensures
            count == self.samples().len(),
    {
        self.samples.len()
    }
}

/// The render loop's fold over one drained batch: the smoothed volume is
/// driven by the last drained sample, and by nothing when no new audio
/// arrived this frame.
pub fn latest_of(batch: &Vec<u32>) -> (latest: Option<u32>)
    ensures
        batch@.len() == 0 ==> latest is None,
        batch@.len() > 0 ==> latest == Some(batch@.last()),
{
    if batch.len() == 0 {
        None
    } else {
        Some(batch[batch.len() - 1])
    }
}

/// Starting a stream that is already playing is a no-op: a second start
/// request leaves the bridge exactly as the first left it, and no start
/// request ever changes the number or order of queued samples.
pub proof fn lemma_start_idempotent(bridge: AudioBridge)
    ensures
        bridge.spec_started().spec_started() == bridge.spec_started(),
        bridge.spec_started().samples() == bridge.samples(),
        bridge.spec_started().playing(),
{
}

} // verus!
