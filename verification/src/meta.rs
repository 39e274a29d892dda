//! Track descriptors: server-reported metadata and the derived length of the
//! track once resampled to the host rate.

use vstd::prelude::*;

verus! {

/// Server-reported metadata of one track, immutable after creation.
pub struct AudioSourceMetadata {
    pub bit_rate: u32,
    pub sample_rate: u32,
    pub channels: usize,
    pub content_bytes: u32,
    pub sample_frames: usize,
}

impl AudioSourceMetadata {
    pub fn new(
        bit_rate: u32,
        sample_rate: u32,
        channels: usize,
        content_bytes: u32,
        sample_frames: usize,
    ) -> (r: AudioSourceMetadata)
        ensures
            r.bit_rate == bit_rate,
            r.sample_rate == sample_rate,
            r.channels == channels,
            r.content_bytes == content_bytes,
            r.sample_frames == sample_frames,
    {
        AudioSourceMetadata { bit_rate, sample_rate, channels, content_bytes, sample_frames }
    }

    /// Fields that are zero or impossible make the metadata unusable;
    /// a fetch client must treat such a reply as a fatal protocol error.
    pub open spec fn spec_valid(&self) -> bool {
        &&& self.sample_rate > 0
        &&& self.channels > 0
        &&& self.sample_frames > 0
        &&& self.sample_frames <= u32::MAX as usize
    }

    pub fn is_valid(&self) -> (r: bool)
        ensures
            r == self.spec_valid(),
    {
        self.sample_rate > 0 && self.channels > 0 && self.sample_frames > 0
            && self.sample_frames <= u32::MAX as usize
    }
}

/// A remote track: its opaque server key and its metadata.
pub struct AudioSource {
    pub id: String,
    pub metadata: AudioSourceMetadata,
}

impl AudioSource {
    pub fn new(id: String, metadata: AudioSourceMetadata) -> (r: AudioSource)
        ensures
            r.id == id,
            r.metadata == metadata,
    {
        AudioSource { id, metadata }
    }
}

/// Number of host-rate frames a track of `frames` source-rate frames yields:
/// `ceil(frames * host_rate / source_rate)`.
pub open spec fn spec_resampled_frames(frames: int, source_rate: int, host_rate: int) -> int
    recommends
        source_rate > 0,
{
    (frames * host_rate + source_rate - 1) / source_rate
}

/// Computes `ceil(frames * host_rate / source_rate)` without overflow.
pub fn resampled_frames(frames: u64, source_rate: u32, host_rate: u32) -> (r: u64)
    requires
        source_rate > 0,
        frames <= u32::MAX,
    ensures
        r == spec_resampled_frames(frames as int, source_rate as int, host_rate as int),
{
    proof {
        assert((frames as int) * (host_rate as int) <= (u32::MAX as int) * (u32::MAX as int))
            by (nonlinear_arith)
            requires
                frames <= u32::MAX,
                host_rate <= u32::MAX,
        ;
    }
    (frames * (host_rate as u64) + (source_rate as u64 - 1)) / (source_rate as u64)
}

/// The resampled length never falls short of the exact rational
/// `frames * host_rate / source_rate`.
pub proof fn lemma_resampled_frames_lower_bound(frames: int, source_rate: int, host_rate: int)
    requires
        source_rate > 0,
        frames >= 0,
        host_rate >= 0,
    ensures
        spec_resampled_frames(frames, source_rate, host_rate) * source_rate >= frames * host_rate,
{
    let p = frames * host_rate;
    assert(p >= 0) by (nonlinear_arith)
        requires
            frames >= 0,
            host_rate >= 0,
            p == frames * host_rate,
    ;
    let q = (p + source_rate - 1) / source_rate;
    assert(q * source_rate >= p) by (nonlinear_arith)
        requires
            source_rate > 0,
            p >= 0,
            q == (p + source_rate - 1) / source_rate,
    ;
}

} // verus!
