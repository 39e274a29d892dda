//! Per-stream pipeline state: the per-channel sample ring drained by the
//! output callback, the play cursor, the fetch-range bookkeeping, and the
//! byte staging area in front of the resampler.
//!
//! The element type `T` is the host sample format. The decoded samples are
//! handed out as plain signed 16-bit values; scaling and resampling to `T`
//! happen outside, and the resampled frames are pushed back in. All counting
//! invariants are kept here, so the cursor can never pass the resampled
//! length of the track (`lemma_play_cursor_bounded`).

use vstd::prelude::*;
use std::collections::VecDeque;
use std::ops::Index;

use crate::meta::AudioSource;
use crate::meta::spec_resampled_frames;
use crate::meta::resampled_frames;
use crate::meta::lemma_resampled_frames_lower_bound;

verus! {

/// Producer-side phase of the fetch loop, exposed as a status.
#[derive(Copy, Clone, Debug, PartialEq, Eq, Structural)]
pub enum AudioSampleStatus {
    Init,
    FillBuffer,
    Play,
}

impl AudioSampleStatus {
    pub open spec fn spec_index(&self) -> int {
        match self {
            AudioSampleStatus::Init => 0,
            AudioSampleStatus::FillBuffer => 1,
            AudioSampleStatus::Play => 2,
        }
    }

    /// Stable numeric code of the phase, for storage in an atomic cell.
    pub fn index(&self) -> (r: usize)
        ensures
            r == self.spec_index(),
    {
        match self {
            AudioSampleStatus::Init => 0,
            AudioSampleStatus::FillBuffer => 1,
            AudioSampleStatus::Play => 2,
        }
    }

    /// Reads a phase back from its numeric code.
    pub fn from_index(value: usize) -> (r: Option<AudioSampleStatus>)
        ensures
            value == 0 ==> r == Some(AudioSampleStatus::Init),
            value == 1 ==> r == Some(AudioSampleStatus::FillBuffer),
            value == 2 ==> r == Some(AudioSampleStatus::Play),
            value >= 3 ==> r is None,
    {
        if value == 0 {
            Some(AudioSampleStatus::Init)
        } else if value == 1 {
            Some(AudioSampleStatus::FillBuffer)
        } else if value == 2 {
            Some(AudioSampleStatus::Play)
        } else {
            None
        }
    }
}

pub open spec fn min_int(a: int, b: int) -> int {
    if a <= b {
        a
    } else {
        b
    }
}

/// Low watermark: no fetch is issued while the ring holds at least this many
/// seconds, and the tail of the track is left to drain once less than this
/// much content remains.
pub const BUFFER_MARGIN_SEC: u64 = 20;

/// Seconds of source audio requested by one range fetch.
pub const FETCH_BUFFER_SEC: u64 = 50;

/// What one poll of the fetch loop decides to do.
#[derive(Copy, Clone, Debug, PartialEq, Eq, Structural)]
pub enum FetchTick {
    /// Request source frames `[start_frame, end_frame)` from the server.
    Fetch { start_frame: u64, end_frame: u64 },
    /// The ring ran empty mid-track: publish the refill phase.
    MarkFillBuffer,
    /// The ring is comfortably filled: publish the steady phase.
    MarkPlay,
    /// Near the end of the track the ring is left to drain.
    Idle,
}

/// What one poll of the playback monitor decides to do.
#[derive(Copy, Clone, Debug, PartialEq, Eq, Structural)]
pub enum MonitorAction {
    /// The ring is (nearly) empty mid-track: pause the device.
    PauseDevice,
    /// The ring is empty and the track is played out: pause and signal stop.
    PauseAndStop,
    /// The ring holds audio: keep the device running.
    ResumeDevice,
}

/// The signed 16-bit sample encoded big-endian by the byte pair `(hi, lo)`.
pub open spec fn spec_i16_be(hi: u8, lo: u8) -> i16 {
    let v = hi * 256 + lo;
    if v >= 32768 {
        (v - 65536) as i16
    } else {
        v as i16
    }
}

/// Sample of channel `c` in frame `f` of an interleaved big-endian 16-bit
/// payload with `ch` channels.
pub open spec fn spec_block_sample(bytes: Seq<u8>, ch: int, f: int, c: int) -> i16 {
    spec_i16_be(bytes[2 * (f * ch + c)], bytes[2 * (f * ch + c) + 1])
}

/// Decodes one big-endian signed 16-bit sample from its two bytes.
pub fn i16_from_be_pair(hi: u8, lo: u8) -> (r: i16)
    ensures
        r == spec_i16_be(hi, lo),
{
    let v: u16 = (hi as u16) * 256 + (lo as u16);
    if v >= 32768 {
        ((v as i32) - 65536) as i16
    } else {
        v as i16
    }
}

/// One stream's verified core.
pub struct AudioSample<T> {
    /// The remote track this stream plays.
    pub source: AudioSource,
    /// Per-channel FIFO of host-rate samples between producer and callback.
    pub sample_buffer: Vec<VecDeque<T>>,
    /// Host-rate frames already delivered to the device (the play cursor).
    pub current_sample_frame: u64,
    /// Phase of the fetch loop.
    pub buffer_status: AudioSampleStatus,
    /// End frame (source rate) of the most recent range request.
    pub last_buf_req_pos: u64,
    /// Input block size of the resampler, in source-rate frames per channel.
    pub resampler_frames: usize,
    /// Output block size of the resampler, in host-rate frames per channel.
    pub resampler_frames_out: usize,
    /// Raw bytes received but not yet consumed in whole resampler blocks.
    pub remain_sample_raw: VecDeque<u8>,
    /// Total host-rate frames of the track after resampling.
    pub resampled_sample_frames: u64,
    pub host_sample_rate: u32,
    pub host_output_channels: usize,
    /// Source frame at which the current fetch sequence began (0, or the seek target).
    pub base_source_frame: u64,
    /// Play cursor value at the start of the current fetch sequence.
    pub base_host_frame: u64,
    /// Raw payload bytes accepted since the current fetch sequence began.
    pub delivered_bytes: u64,
    /// Host-rate frames pushed into the ring since the current fetch sequence began.
    pub enqueued_frames: u64,
    /// Blocks handed out by `next_block` whose resampled output was not yet pushed back.
    pub blocks_owed: u64,
    /// Every payload byte accepted since the current fetch sequence began,
    /// in order: the staging area is its unconsumed tail.
    pub delivered_log: Ghost<Seq<u8>>,
}

impl<T> AudioSample<T> {
    pub open spec fn channels(&self) -> int {
        self.host_output_channels as int
    }

    /// Samples held by channel `c` of the ring.
    pub open spec fn ring(&self, c: int) -> Seq<T> {
        self.sample_buffer@[c]@
    }

    /// Occupancy of the ring, in frames.
    pub open spec fn ring_len(&self) -> int {
        self.sample_buffer@[0]@.len() as int
    }

    /// Bytes of one resampler input block: 16-bit samples, interleaved.
    pub open spec fn block_bytes(&self) -> int {
        2 * self.channels() * self.resampler_frames
    }

    /// Bytes consumed from the staging area in whole blocks.
    pub open spec fn consumed_bytes(&self) -> int {
        self.delivered_bytes - self.remain_sample_raw@.len()
    }

    /// Whole blocks consumed so far.
    pub open spec fn blocks_done(&self) -> int {
        self.consumed_bytes() / self.block_bytes()
    }

    pub open spec fn source_rate(&self) -> int {
        self.source.metadata.sample_rate as int
    }

    pub open spec fn host_rate(&self) -> int {
        self.host_sample_rate as int
    }

    pub open spec fn source_frames(&self) -> int {
        self.source.metadata.sample_frames as int
    }

    /// Static configuration shared by every state of one stream.
    pub open spec fn wf_config(&self) -> bool {
        &&& self.host_output_channels >= 1
        &&& self.host_output_channels <= u16::MAX as usize
        &&& self.source.metadata.spec_valid()
        &&& self.source.metadata.channels == self.host_output_channels
        &&& self.host_sample_rate >= 1
        &&& self.resampler_frames >= 1
        &&& self.resampler_frames_out >= 1
        &&& self.resampler_frames_out * self.source_rate() == self.resampler_frames
            * self.host_rate()
        &&& self.block_bytes() <= usize::MAX
        &&& self.resampled_sample_frames == spec_resampled_frames(
            self.source_frames(),
            self.source_rate(),
            self.host_rate(),
        )
    }

    /// Well-formedness: equal channel lengths, and the counting discipline
    /// that couples cursor, ring, staging area and requested range.
    pub open spec fn wf(&self) -> bool {
        &&& self.wf_config()
        &&& self.sample_buffer@.len() == self.host_output_channels
        &&& forall|c: int|
            0 <= c < self.sample_buffer@.len() ==> (#[trigger] self.sample_buffer@[c])@.len()
                == self.ring_len()
        &&& self.base_source_frame <= self.last_buf_req_pos
        &&& self.last_buf_req_pos <= self.source_frames()
        &&& self.base_host_frame * self.source_rate() <= self.base_source_frame * self.host_rate()
        &&& self.delivered_bytes <= 2 * self.channels() * (self.last_buf_req_pos
            - self.base_source_frame)
        &&& self.remain_sample_raw@.len() <= self.delivered_bytes
        &&& self.delivered_log@.len() == self.delivered_bytes
        &&& self.remain_sample_raw@ == self.delivered_log@.skip(self.consumed_bytes())
        &&& self.consumed_bytes() % self.block_bytes() == 0
        &&& self.blocks_owed * self.block_bytes() <= self.consumed_bytes()
        &&& self.enqueued_frames == (self.blocks_done() - self.blocks_owed)
            * self.resampler_frames_out
        &&& self.base_host_frame <= self.current_sample_frame
        &&& self.current_sample_frame - self.base_host_frame + self.ring_len()
            == self.enqueued_frames
    }

    /// Creates the stream state for one track, with an empty ring, the cursor
    /// at zero and nothing requested yet. The resampler block sizes are those
    /// of the stateful resampler instance that will serve this stream; a
    /// fixed-in/fixed-out resampler keeps `out * source_rate == in * host_rate`.
    #[verifier::rlimit(40)]
    pub fn new(
        source: AudioSource,
        host_sample_rate: u32,
        host_output_channels: usize,
        resampler_frames: usize,
        resampler_frames_out: usize,
    ) -> (r: AudioSample<T>)
        requires
            source.metadata.spec_valid(),
            source.metadata.channels == host_output_channels,
            host_output_channels <= u16::MAX as usize,
            host_sample_rate >= 1,
            resampler_frames >= 1,
            resampler_frames_out >= 1,
            resampler_frames_out * source.metadata.sample_rate == resampler_frames
                * host_sample_rate,
            2 * host_output_channels * resampler_frames <= usize::MAX,
        ensures
            r.wf(),
            r.source == source,
            r.host_sample_rate == host_sample_rate,
            r.host_output_channels == host_output_channels,
            r.resampler_frames == resampler_frames,
            r.resampler_frames_out == resampler_frames_out,
            r.current_sample_frame == 0,
            r.last_buf_req_pos == 0,
            r.buffer_status == AudioSampleStatus::Init,
            r.ring_len() == 0,
            r.remain_sample_raw@.len() == 0,
            r.resampled_sample_frames == spec_resampled_frames(
                source.metadata.sample_frames as int,
                source.metadata.sample_rate as int,
                host_sample_rate as int,
            ),
    {
        let mut sample_buffer: Vec<VecDeque<T>> = Vec::new();
        let mut c: usize = 0;
        while c < host_output_channels
            invariant
                c <= host_output_channels,
                sample_buffer@.len() == c,
                forall|i: int|
                    0 <= i < c ==> (#[trigger] sample_buffer@[i])@.len() == 0,
            decreases host_output_channels - c,
        {
            sample_buffer.push(VecDeque::new());
            c = c + 1;
        }
        let resampled_sample_frames = resampled_frames(
            source.metadata.sample_frames as u64,
            source.metadata.sample_rate,
            host_sample_rate,
        );
        let r = AudioSample {
            source,
            sample_buffer,
            current_sample_frame: 0,
            buffer_status: AudioSampleStatus::Init,
            last_buf_req_pos: 0,
            resampler_frames,
            resampler_frames_out,
            remain_sample_raw: VecDeque::new(),
            resampled_sample_frames,
            host_sample_rate,
            host_output_channels,
            base_source_frame: 0,
            base_host_frame: 0,
            delivered_bytes: 0,
            enqueued_frames: 0,
            blocks_owed: 0,
            delivered_log: Ghost(Seq::empty()),
        };
        proof {
            assert(r.remain_sample_raw@ =~= r.delivered_log@.skip(0));
            let b = r.block_bytes();
            assert(b >= 2) by (nonlinear_arith)
                requires
                    b == 2 * (host_output_channels as int) * (resampler_frames as int),
                    host_output_channels >= 1,
                    resampler_frames >= 1,
            ;
            assert(0int % b == 0 && 0int / b == 0) by (nonlinear_arith)
                requires
                    b >= 2,
            ;
            assert(r.blocks_done() == 0);
            assert((r.blocks_done() - r.blocks_owed) * (r.resampler_frames_out as int) == 0)
                by (nonlinear_arith)
                requires
                    r.blocks_done() == 0,
                    r.blocks_owed == 0,
            ;
            assert(r.wf_config());
            assert(r.sample_buffer@.len() == r.host_output_channels);
            assert(forall|c: int|
                0 <= c < r.sample_buffer@.len() ==> (#[trigger] r.sample_buffer@[c])@.len()
                    == r.ring_len());
            assert(r.consumed_bytes() % r.block_bytes() == 0);
            assert(r.blocks_owed * r.block_bytes() <= r.consumed_bytes());
            assert(r.enqueued_frames == (r.blocks_done() - r.blocks_owed)
                * r.resampler_frames_out);
            assert(r.current_sample_frame - r.base_host_frame + r.ring_len()
                == r.enqueued_frames);
            assert(r.wf());
        }
        r
    }

    /// Occupancy of the ring, in host-rate frames.
    pub fn get_remain_sample_buffer_len(&self) -> (r: usize)
        requires
            self.wf(),
        ensures
            r == self.ring_len(),
    {
        self.sample_buffer[0].len()
    }

    /// The play cursor: host-rate frames already delivered to the device.
    pub fn get_current_sample_idx(&self) -> (r: u64)
        ensures
            r == self.current_sample_frame,
    {
        self.current_sample_frame
    }

    /// All channels of a well-formed ring hold the same number of samples
    /// at every quiescent point.
    pub proof fn lemma_channels_balanced(&self)
        requires
            self.wf(),
        ensures
            forall|c: int|
                0 <= c < self.channels() ==> (#[trigger] self.ring(c)).len() == self.ring_len(),
    {
    }

    /// Budget of the current fetch sequence: even if every consumed block is
    /// resampled and enqueued, its output fits under the resampled length.
    pub proof fn lemma_blocks_budget(&self)
        requires
            self.wf(),
        ensures
            self.blocks_done() >= 0,
            self.base_host_frame + self.blocks_done() * self.resampler_frames_out
                <= self.resampled_sample_frames,
    {
        let src = self.source_rate();
        let host = self.host_rate();
        let k_in = self.resampler_frames as int;
        let k_out = self.resampler_frames_out as int;
        let ch = self.channels();
        let blocks = self.blocks_done();
        let consumed = self.consumed_bytes();
        let span = self.last_buf_req_pos - self.base_source_frame;

        // consumed == blocks * block_bytes, and consumed <= 2 * ch * span,
        // so blocks * k_in <= span.
        assert(2 * ch * k_in >= 2) by (nonlinear_arith)
            requires
                ch >= 1,
                k_in >= 1,
        ;
        assert(blocks >= 0) by (nonlinear_arith)
            requires
                consumed >= 0,
                blocks == consumed / (2 * ch * k_in),
                2 * ch * k_in > 0,
        ;
        assert(consumed == blocks * (2 * ch * k_in)) by (nonlinear_arith)
            requires
                consumed % (2 * ch * k_in) == 0,
                blocks == consumed / (2 * ch * k_in),
                2 * ch * k_in > 0,
        ;
        assert(blocks * k_in <= span) by (nonlinear_arith)
            requires
                blocks * (2 * ch * k_in) == consumed,
                consumed <= 2 * ch * span,
                ch >= 1,
                k_in >= 1,
                blocks >= 0,
        ;

        // blocks * k_out * src == blocks * k_in * host <= span * host
        assert(blocks * k_out * src <= span * host) by (nonlinear_arith)
            requires
                k_out * src == k_in * host,
                blocks * k_in <= span,
                blocks >= 0,
                host >= 1,
                src >= 1,
        ;

        // (base + blocks * k_out) * src <= last * host <= frames * host <= resampled * src
        let e = blocks * k_out;
        assert(e * src <= blocks * k_out * src && e >= 0) by (nonlinear_arith)
            requires
                e == blocks * k_out,
                src >= 1,
                blocks >= 0,
                k_out >= 1,
        ;
        assert(self.base_host_frame * src + span * host <= self.last_buf_req_pos * host)
            by (nonlinear_arith)
            requires
                self.base_host_frame * src <= self.base_source_frame * host,
                span == self.last_buf_req_pos - self.base_source_frame,
                host >= 1,
        ;
        assert(self.last_buf_req_pos * host <= self.source_frames() * host) by (nonlinear_arith)
            requires
                self.last_buf_req_pos <= self.source_frames(),
                host >= 1,
        ;
        lemma_resampled_frames_lower_bound(self.source_frames(), src, host);
        assert((self.base_host_frame + e) * src <= self.resampled_sample_frames * src)
            by (nonlinear_arith)
            requires
                e * src <= blocks * k_out * src,
                blocks * k_out * src <= span * host,
                self.base_host_frame * src + span * host <= self.last_buf_req_pos * host,
                self.last_buf_req_pos * host <= self.source_frames() * host,
                self.source_frames() * host <= self.resampled_sample_frames * src,
        ;
        assert(self.base_host_frame + e <= self.resampled_sample_frames) by (nonlinear_arith)
            requires
                (self.base_host_frame + e) * src <= self.resampled_sample_frames * src,
                src >= 1,
        ;
    }

    /// Even a fully drained ring cannot carry the cursor past the resampled
    /// length: everything enqueued since the last seek fits under it.
    pub proof fn lemma_enqueued_bounded(&self)
        requires
            self.wf(),
        ensures
            self.base_host_frame + self.enqueued_frames <= self.resampled_sample_frames,
    {
        self.lemma_blocks_budget();
        let blocks = self.blocks_done();
        let k_out = self.resampler_frames_out as int;
        assert(self.enqueued_frames <= blocks * k_out) by (nonlinear_arith)
            requires
                self.enqueued_frames == (blocks - self.blocks_owed) * k_out,
                self.blocks_owed >= 0,
                blocks >= 0,
                k_out >= 1,
        ;
    }

    /// With at least one block handed out and not yet pushed back, one more
    /// block's worth of output still fits under the resampled length.
    pub proof fn lemma_block_capacity(&self)
        requires
            self.wf(),
            self.blocks_owed >= 1,
        ensures
            self.base_host_frame + self.enqueued_frames + self.resampler_frames_out
                <= self.resampled_sample_frames,
    {
        self.lemma_blocks_budget();
        let blocks = self.blocks_done();
        let k_out = self.resampler_frames_out as int;
        assert(self.enqueued_frames + k_out <= blocks * k_out) by (nonlinear_arith)
            requires
                self.enqueued_frames == (blocks - self.blocks_owed) * k_out,
                self.blocks_owed >= 1,
                blocks >= 0,
                k_out >= 1,
        ;
    }

    /// The play cursor never passes the resampled length of the track.
    pub proof fn lemma_play_cursor_bounded(&self)
        requires
            self.wf(),
        ensures
            self.current_sample_frame <= self.resampled_sample_frames,
    {
        self.lemma_enqueued_bounded();
    }

    /// Host-rate frames that correspond to the low watermark.
    pub open spec fn spec_margin_frames(&self) -> int {
        BUFFER_MARGIN_SEC * self.host_rate()
    }

    /// End frame of the next range request: one fetch worth of source frames
    /// past the last requested position, clamped to the track length.
    pub open spec fn spec_request_end(&self) -> int {
        min_int(
            self.last_buf_req_pos + FETCH_BUFFER_SEC * self.source_rate(),
            self.source_frames(),
        )
    }

    /// The decision one poll of the fetch loop takes: while more than the
    /// low-watermark's worth of content remains, fetch when the ring is low,
    /// otherwise publish the phase; near the end of the track, do nothing.
    pub open spec fn spec_poll(&self) -> FetchTick {
        if self.resampled_sample_frames - self.current_sample_frame > self.spec_margin_frames() {
            if self.ring_len() < self.spec_margin_frames() {
                FetchTick::Fetch {
                    start_frame: self.last_buf_req_pos,
                    end_frame: self.spec_request_end() as u64,
                }
            } else if self.ring_len() == 0 {
                FetchTick::MarkFillBuffer
            } else {
                FetchTick::MarkPlay
            }
        } else {
            FetchTick::Idle
        }
    }

    /// Inspects ring occupancy and position and says what the fetch loop
    /// should do on this poll, without changing anything.
    pub fn poll_fetch(&self) -> (t: FetchTick)
        requires
            self.wf(),
        ensures
            t == self.spec_poll(),
    {
        proof {
            self.lemma_play_cursor_bounded();
        }
        let margin_frames = BUFFER_MARGIN_SEC * (self.host_sample_rate as u64);
        if self.resampled_sample_frames - self.current_sample_frame > margin_frames {
            let ring_len = self.get_remain_sample_buffer_len();
            if (ring_len as u64) < margin_frames {
                let req = FETCH_BUFFER_SEC * (self.source.metadata.sample_rate as u64);
                let frames_total = self.source.metadata.sample_frames as u64;
                let end = if self.last_buf_req_pos + req <= frames_total {
                    self.last_buf_req_pos + req
                } else {
                    frames_total
                };
                FetchTick::Fetch { start_frame: self.last_buf_req_pos, end_frame: end }
            } else if ring_len == 0 {
                FetchTick::MarkFillBuffer
            } else {
                FetchTick::MarkPlay
            }
        } else {
            FetchTick::Idle
        }
    }

    /// One poll of the fetch loop: takes the decision of `spec_poll` and
    /// applies its state change — a fetch advances the last requested
    /// position to the end of the announced range, a phase decision stores
    /// the phase, and near the end of the track nothing changes. The caller
    /// performs the announced range request and hands the payload to
    /// `ingest`.
    pub fn tick(&mut self) -> (t: FetchTick)
        requires
            old(self).wf(),
        ensures
            final(self).wf(),
            t == old(self).spec_poll(),
            final(self).same_config(old(self)),
            final(self).sample_buffer == old(self).sample_buffer,
            final(self).current_sample_frame == old(self).current_sample_frame,
            final(self).remain_sample_raw@ == old(self).remain_sample_raw@,
            final(self).delivered_bytes == old(self).delivered_bytes,
            final(self).delivered_log@ == old(self).delivered_log@,
            final(self).blocks_owed == old(self).blocks_owed,
            final(self).enqueued_frames == old(self).enqueued_frames,
            final(self).base_source_frame == old(self).base_source_frame,
            final(self).base_host_frame == old(self).base_host_frame,
            match t {
                FetchTick::Fetch { start_frame, end_frame } => {
                    &&& start_frame == old(self).last_buf_req_pos
                    &&& end_frame == old(self).spec_request_end()
                    &&& final(self).last_buf_req_pos == end_frame
                    &&& final(self).buffer_status == old(self).buffer_status
                },
                FetchTick::MarkFillBuffer => {
                    &&& final(self).last_buf_req_pos == old(self).last_buf_req_pos
                    &&& final(self).buffer_status == AudioSampleStatus::FillBuffer
                },
                FetchTick::MarkPlay => {
                    &&& final(self).last_buf_req_pos == old(self).last_buf_req_pos
                    &&& final(self).buffer_status == AudioSampleStatus::Play
                },
                FetchTick::Idle => {
                    &&& final(self).last_buf_req_pos == old(self).last_buf_req_pos
                    &&& final(self).buffer_status == old(self).buffer_status
                },
            },
    {
        let t = self.poll_fetch();
        match t {
            FetchTick::Fetch { start_frame: _, end_frame } => {
                proof {
                    let ch = old(self).channels();
                    let old_span = old(self).last_buf_req_pos - old(self).base_source_frame;
                    let new_span = end_frame - old(self).base_source_frame;
                    assert(2 * ch * old_span <= 2 * ch * new_span) by (nonlinear_arith)
                        requires
                            old_span <= new_span,
                            ch >= 1,
                    ;
                }
                self.last_buf_req_pos = end_frame;
            },
            FetchTick::MarkFillBuffer => {
                self.buffer_status = AudioSampleStatus::FillBuffer;
            },
            FetchTick::MarkPlay => {
                self.buffer_status = AudioSampleStatus::Play;
            },
            FetchTick::Idle => {},
        }
        t
    }

    /// Bytes of one resampler input block, as an executable value.
    pub fn block_bytes_len(&self) -> (r: usize)
        requires
            self.wf(),
        ensures
            r == self.block_bytes(),
    {
        proof {
            assert(2 * self.channels() <= 2 * self.channels() * (self.resampler_frames as int))
                by (nonlinear_arith)
                requires
                    self.channels() >= 1,
                    self.resampler_frames >= 1,
            ;
        }
        2 * self.host_output_channels * self.resampler_frames
    }

    /// Whether a payload of `len` bytes holds whole interleaved 16-bit
    /// frames. A reply that tears frames is a protocol violation; it must be
    /// treated as fatal rather than reach `ingest`.
    pub fn payload_frame_aligned(&self, len: usize) -> (r: bool)
        requires
            self.wf(),
        ensures
            r == (len as int % (2 * self.channels()) == 0),
    {
        len % (2 * self.host_output_channels) == 0
    }

    /// Whether `len` more payload bytes still fit under what was requested:
    /// a longer reply than the announced range is a protocol violation and
    /// must not reach `ingest`.
    pub fn accepts_payload(&self, len: usize) -> (r: bool)
        requires
            self.wf(),
        ensures
            r == (self.delivered_bytes + len <= 2 * self.channels() * (self.last_buf_req_pos
                - self.base_source_frame)),
    {
        let span = self.last_buf_req_pos - self.base_source_frame;
        proof {
            assert(2 * self.channels() * (span as int) <= 2 * 65535 * 0xFFFF_FFFFint)
                by (nonlinear_arith)
                requires
                    1 <= self.channels() <= 65535,
                    0 <= span <= 0xFFFF_FFFF,
            ;
        }
        let cap: u64 = 2 * (self.host_output_channels as u64) * span;
        (len as u64) <= cap - self.delivered_bytes
    }

    /// Accepts one fetched payload into the staging area in front of the
    /// resampler. The payload follows the saved remainder of the previous
    /// fetch; nothing is decoded yet.
    pub fn ingest(&mut self, payload: &Vec<u8>)
        requires
            old(self).wf(),
            old(self).delivered_bytes + payload@.len() <= 2 * old(self).channels() * (old(
                self,
            ).last_buf_req_pos - old(self).base_source_frame),
        ensures
            final(self).wf(),
            final(self).same_config(old(self)),
            final(self).delivered_bytes == old(self).delivered_bytes + payload@.len(),
            final(self).delivered_log@ == old(self).delivered_log@ + payload@,
            final(self).remain_sample_raw@ == old(self).remain_sample_raw@ + payload@,
            final(self).sample_buffer == old(self).sample_buffer,
            final(self).current_sample_frame == old(self).current_sample_frame,
            final(self).buffer_status == old(self).buffer_status,
            final(self).last_buf_req_pos == old(self).last_buf_req_pos,
            final(self).base_source_frame == old(self).base_source_frame,
            final(self).base_host_frame == old(self).base_host_frame,
            final(self).blocks_owed == old(self).blocks_owed,
            final(self).enqueued_frames == old(self).enqueued_frames,
    {
        proof {
            let ch = old(self).channels();
            let span = old(self).last_buf_req_pos - old(self).base_source_frame;
            assert(2 * ch * span <= 2 * 65535 * 0xFFFF_FFFFint) by (nonlinear_arith)
                requires
                    1 <= ch <= 65535,
                    0 <= span <= 0xFFFF_FFFF,
            ;
        }
        let mut i: usize = 0;
        while i < payload.len()
            invariant
                i <= payload@.len(),
                self.remain_sample_raw@ == old(self).remain_sample_raw@ + payload@.subrange(
                    0,
                    i as int,
                ),
                *self == (AudioSample { remain_sample_raw: self.remain_sample_raw, ..*old(self) }),
            decreases payload@.len() - i,
        {
            self.remain_sample_raw.push_back(payload[i]);
            proof {
                assert(self.remain_sample_raw@ =~= old(self).remain_sample_raw@
                    + payload@.subrange(0, i + 1));
            }
            i = i + 1;
        }
        proof {
            assert(payload@.subrange(0, payload@.len() as int) =~= payload@);
        }
        self.delivered_bytes = self.delivered_bytes + (payload.len() as u64);
        self.delivered_log = Ghost(self.delivered_log@ + payload@);
        proof {
            assert(self.remain_sample_raw@ =~= self.delivered_log@.skip(self.consumed_bytes()));
        }
    }

    /// Takes the next whole resampler block off the staging area, decoded
    /// from big-endian 16-bit samples and deinterleaved into one vector per
    /// channel, or returns nothing while less than one block is staged. The
    /// caller owes the ring one block of resampled output (`push_resampled`)
    /// for every block taken.
    pub fn next_block(&mut self) -> (r: Option<Vec<Vec<i16>>>)
        requires
            old(self).wf(),
        ensures
            final(self).wf(),
            final(self).same_config(old(self)),
            final(self).sample_buffer == old(self).sample_buffer,
            final(self).current_sample_frame == old(self).current_sample_frame,
            final(self).buffer_status == old(self).buffer_status,
            final(self).last_buf_req_pos == old(self).last_buf_req_pos,
            final(self).base_source_frame == old(self).base_source_frame,
            final(self).base_host_frame == old(self).base_host_frame,
            final(self).delivered_bytes == old(self).delivered_bytes,
            final(self).delivered_log@ == old(self).delivered_log@,
            final(self).enqueued_frames == old(self).enqueued_frames,
            old(self).remain_sample_raw@.len() < old(self).block_bytes() ==> (r is None
                && *final(self) == *old(self)),
            old(self).remain_sample_raw@.len() >= old(self).block_bytes() ==> {
                &&& r is Some
                &&& final(self).remain_sample_raw@ == old(self).remain_sample_raw@.skip(
                    old(self).block_bytes(),
                )
                &&& final(self).blocks_owed == old(self).blocks_owed + 1
            },
            r matches Some(b) ==> {
                &&& b@.len() == old(self).channels()
                &&& forall|c: int|
                    0 <= c < b@.len() ==> (#[trigger] b@[c])@.len() == old(self).resampler_frames
                &&& forall|c: int, f: int|
                    0 <= c < b@.len() && 0 <= f < old(self).resampler_frames
                        ==> (#[trigger] b@[c]@[f]) == spec_block_sample(
                        old(self).remain_sample_raw@,
                        old(self).channels(),
                        f,
                        c,
                    )
            },
    {
        let bb = self.block_bytes_len();
        if self.remain_sample_raw.len() < bb {
            return None;
        }
        let ch = self.host_output_channels;
        let k_in = self.resampler_frames;
        let mut block: Vec<Vec<i16>> = Vec::new();
        let mut c: usize = 0;
        while c < ch
            invariant
                self == old(self),
                self.wf(),
                c <= ch,
                ch == self.host_output_channels,
                k_in == self.resampler_frames,
                bb == self.block_bytes(),
                self.remain_sample_raw@.len() >= bb,
                block@.len() == c,
                forall|c2: int|
                    0 <= c2 < c ==> (#[trigger] block@[c2])@.len() == k_in,
                forall|c2: int, f: int|
                    0 <= c2 < c && 0 <= f < k_in ==> (#[trigger] block@[c2]@[f])
                        == spec_block_sample(self.remain_sample_raw@, ch as int, f, c2),
            decreases ch - c,
        {
            let mut lane: Vec<i16> = Vec::new();
            let mut f: usize = 0;
            while f < k_in
                invariant
                    self == old(self),
                    self.wf(),
                    c < ch,
                    f <= k_in,
                    ch == self.host_output_channels,
                    k_in == self.resampler_frames,
                    bb == self.block_bytes(),
                    self.remain_sample_raw@.len() >= bb,
                    lane@.len() == f,
                    forall|f2: int|
                        0 <= f2 < f ==> #[trigger] lane@[f2] == spec_block_sample(
                            self.remain_sample_raw@,
                            ch as int,
                            f2,
                            c as int,
                        ),
                decreases k_in - f,
            {
                proof {
                    assert(2 * ((f as int) * (ch as int) + (c as int)) + 1 < 2 * (ch as int) * (
                    k_in as int)) by (nonlinear_arith)
                        requires
                            0 <= c < ch,
                            0 <= f < k_in,
                    ;
                }
                let idx = 2 * (f * ch + c);
                let hi = *self.remain_sample_raw.index(idx);
                let lo = *self.remain_sample_raw.index(idx + 1);
                lane.push(i16_from_be_pair(hi, lo));
                f = f + 1;
            }
            block.push(lane);
            c = c + 1;
        }
        let ghost staged0 = self.remain_sample_raw@;
        let mut i: usize = 0;
        while i < bb
            invariant
                i <= bb,
                bb <= staged0.len(),
                self.remain_sample_raw@ == staged0.skip(i as int),
                *self == (AudioSample { remain_sample_raw: self.remain_sample_raw, ..*old(self) }),
            decreases bb - i,
        {
            let discarded = self.remain_sample_raw.pop_front();
            proof {
                assert(staged0.skip(i as int).subrange(
                    1,
                    staged0.skip(i as int).len() as int,
                ) =~= staged0.skip(i + 1));
            }
            i = i + 1;
        }
        proof {
            let b = old(self).block_bytes();
            let d0 = old(self).consumed_bytes();
            let ch0 = old(self).channels();
            let kin0 = old(self).resampler_frames as int;
            assert(b >= 2) by (nonlinear_arith)
                requires
                    b == 2 * ch0 * kin0,
                    ch0 >= 1,
                    kin0 >= 1,
            ;
            assert((d0 + b) % b == 0 && (d0 + b) / b == d0 / b + 1) by (nonlinear_arith)
                requires
                    b >= 2,
                    d0 >= 0,
                    d0 % b == 0,
            ;
            assert((d0 / b + 1) - (old(self).blocks_owed + 1) == d0 / b - old(self).blocks_owed);
            assert(self.remain_sample_raw@ =~= self.delivered_log@.skip(d0 + b));
            let owed0 = old(self).blocks_owed as int;
            assert(owed0 + 1 <= 0x8000_0000_0000_0000int) by (nonlinear_arith)
                requires
                    owed0 * b <= d0,
                    b >= 2,
                    d0 <= 0xFFFF_FFFF_FFFF_FFFFint,
                    owed0 >= 0,
            ;
        }
        self.blocks_owed = self.blocks_owed + 1;
        proof {
            let b = self.block_bytes();
            let blocks_new = self.blocks_done();
            let k_out = self.resampler_frames_out as int;
            assert(self.enqueued_frames == (blocks_new - self.blocks_owed) * k_out)
                by (nonlinear_arith)
                requires
                    self.enqueued_frames == (blocks_new - 1 - (self.blocks_owed - 1)) * k_out,
            ;
            assert((self.blocks_owed) * b <= self.consumed_bytes()) by (nonlinear_arith)
                requires
                    (self.blocks_owed - 1) * b <= self.consumed_bytes() - b,
            ;
        }
        Some(block)
    }

    /// The static configuration of `self` equals that of `o`.
    pub open spec fn same_config(&self, o: &Self) -> bool {
        &&& self.source == o.source
        &&& self.host_sample_rate == o.host_sample_rate
        &&& self.host_output_channels == o.host_output_channels
        &&& self.resampler_frames == o.resampler_frames
        &&& self.resampler_frames_out == o.resampler_frames_out
        &&& self.resampled_sample_frames == o.resampled_sample_frames
    }

    /// Producer-side state (requests, staging area, phase) of `self` equals that of `o`.
    pub open spec fn same_fetch_state(&self, o: &Self) -> bool {
        &&& self.buffer_status == o.buffer_status
        &&& self.last_buf_req_pos == o.last_buf_req_pos
        &&& self.base_source_frame == o.base_source_frame
        &&& self.base_host_frame == o.base_host_frame
        &&& self.delivered_bytes == o.delivered_bytes
        &&& self.delivered_log@ == o.delivered_log@
        &&& self.remain_sample_raw@ == o.remain_sample_raw@
        &&& self.blocks_owed == o.blocks_owed
        &&& self.enqueued_frames == o.enqueued_frames
    }

    /// The sample an output drain writes at flat index `j` of an interleaved
    /// slice, given the ring state before the drain: ring contents while they
    /// last, `zero` afterwards.
    pub open spec fn spec_output_at(&self, j: int, zero: T) -> T {
        let ch = self.channels();
        if j / ch < self.ring_len() {
            self.ring(j % ch)[j / ch]
        } else {
            zero
        }
    }

    /// Underrun is silence: with an empty ring, a drain writes `zero` at
    /// every lane of the output slice, and the `play_for` cursor advance,
    /// `min(frames, ring_len)`, is zero — the cursor does not move.
    pub proof fn lemma_underrun_is_silence(&self, zero: T)
        requires
            self.wf(),
            self.ring_len() == 0,
        ensures
            forall|j: int| 0 <= j ==> #[trigger] self.spec_output_at(j, zero) == zero,
            forall|frames: int| 0 <= frames ==> #[trigger] min_int(frames, self.ring_len()) == 0,
    {
        assert forall|j: int| 0 <= j implies #[trigger] self.spec_output_at(j, zero) == zero by {
            let ch = self.channels();
            assert(j / ch >= 0) by (nonlinear_arith)
                requires
                    j >= 0,
                    ch >= 1,
            ;
        }
    }

    /// The decision one poll of the playback monitor takes: with less than a
    /// hundredth of a second in the ring the device is paused, and if on top
    /// of that no more than half a second of content is left to play, the
    /// stream is over and playback stops; otherwise the device keeps running.
    pub open spec fn spec_monitor(&self) -> MonitorAction {
        if 100 * self.ring_len() < self.host_rate() {
            if 2 * (self.resampled_sample_frames - self.current_sample_frame) <= self.host_rate() {
                MonitorAction::PauseAndStop
            } else {
                MonitorAction::PauseDevice
            }
        } else {
            MonitorAction::ResumeDevice
        }
    }

    /// Reconciles the device with the ring: says whether the monitor should
    /// pause the device, pause it and signal end-of-content, or resume it.
    pub fn manage_playback_tick(&self) -> (a: MonitorAction)
        requires
            self.wf(),
        ensures
            a == self.spec_monitor(),
    {
        proof {
            self.lemma_play_cursor_bounded();
        }
        let ring_len = self.get_remain_sample_buffer_len();
        if 100u128 * (ring_len as u128) < (self.host_sample_rate as u128) {
            let remain = self.resampled_sample_frames - self.current_sample_frame;
            if 2u128 * (remain as u128) <= (self.host_sample_rate as u128) {
                MonitorAction::PauseAndStop
            } else {
                MonitorAction::PauseDevice
            }
        } else {
            MonitorAction::ResumeDevice
        }
    }

    /// Seek: repositions the stream at the source frame `source_frame` and
    /// the matching host frame `host_frame`, clears the ring and the staging
    /// area, and restarts the fetch sequence there. The caller must install a
    /// fresh resampler instance alongside, so that no filter state crosses
    /// the seek. The host position may not run ahead of the source position
    /// (`host_frame / host_rate <= source_frame / source_rate`).
    pub fn set_playback_position(&mut self, source_frame: u64, host_frame: u64)
        requires
            old(self).wf(),
            source_frame <= old(self).source_frames(),
            host_frame * old(self).source_rate() <= source_frame * old(self).host_rate(),
        ensures
            final(self).wf(),
            final(self).same_config(old(self)),
            final(self).current_sample_frame == host_frame,
            final(self).last_buf_req_pos == source_frame,
            final(self).base_source_frame == source_frame,
            final(self).base_host_frame == host_frame,
            final(self).ring_len() == 0,
            final(self).remain_sample_raw@.len() == 0,
            final(self).delivered_bytes == 0,
            final(self).delivered_log@.len() == 0,
            final(self).blocks_owed == 0,
            final(self).enqueued_frames == 0,
            final(self).buffer_status == AudioSampleStatus::Init,
    {
        let ch = self.host_output_channels;
        let mut c: usize = 0;
        while c < ch
            invariant
                c <= ch,
                ch == self.host_output_channels,
                self.sample_buffer@.len() == ch,
                forall|c2: int|
                    0 <= c2 < c ==> (#[trigger] self.sample_buffer@[c2])@.len() == 0,
                *self == (AudioSample { sample_buffer: self.sample_buffer, ..*old(self) }),
            decreases ch - c,
        {
            let mut dq = self.sample_buffer.remove(c);
            dq.clear();
            let ghost prev_buf = self.sample_buffer@;
            self.sample_buffer.insert(c, dq);
            proof {
                assert(self.sample_buffer@ =~= prev_buf.insert(c as int, dq));
            }
            c = c + 1;
        }
        self.remain_sample_raw.clear();
        self.current_sample_frame = host_frame;
        self.last_buf_req_pos = source_frame;
        self.base_source_frame = source_frame;
        self.base_host_frame = host_frame;
        self.delivered_bytes = 0;
        self.enqueued_frames = 0;
        self.blocks_owed = 0;
        self.buffer_status = AudioSampleStatus::Init;
        self.delivered_log = Ghost(Seq::empty());
        proof {
            assert(self.remain_sample_raw@ =~= self.delivered_log@.skip(0));
            let b = self.block_bytes();
            assert(b >= 2) by (nonlinear_arith)
                requires
                    b == 2 * self.channels() * (self.resampler_frames as int),
                    self.channels() >= 1,
                    self.resampler_frames >= 1,
            ;
            assert(0int % b == 0 && 0int / b == 0) by (nonlinear_arith)
                requires
                    b >= 2,
            ;
            assert(self.blocks_done() == 0);
            assert((self.blocks_done() - self.blocks_owed) * (self.resampler_frames_out as int)
                == 0) by (nonlinear_arith)
                requires
                    self.blocks_done() == 0,
                    self.blocks_owed == 0,
            ;
            assert(2 * self.channels() * (self.last_buf_req_pos - self.base_source_frame) == 0)
                by (nonlinear_arith)
                requires
                    self.last_buf_req_pos == self.base_source_frame,
            ;
            assert(self.wf());
        }
    }

    /// Remainder closure: at a quiescent point — every block taken from the
    /// staging area has had its resampled output pushed back, and less than
    /// one whole block remains staged — the frames enqueued since the last
    /// seek are exactly `floor(delivered_bytes / block_bytes)` blocks of
    /// resampler output, and the staging area holds the leftover bytes.
    pub proof fn lemma_remainder_closure(&self)
        requires
            self.wf(),
            self.blocks_owed == 0,
            self.remain_sample_raw@.len() < self.block_bytes(),
        ensures
            self.enqueued_frames == (self.delivered_bytes as int / self.block_bytes())
                * self.resampler_frames_out,
            self.remain_sample_raw@.len() == self.delivered_bytes as int % self.block_bytes(),
            self.remain_sample_raw@ == self.delivered_log@.skip(
                (self.delivered_bytes as int / self.block_bytes()) * self.block_bytes(),
            ),
    {
        let b = self.block_bytes();
        let d = self.delivered_bytes as int;
        let consumed = self.consumed_bytes();
        let staged = self.remain_sample_raw@.len() as int;
        let q = self.blocks_done();
        assert(b >= 2) by (nonlinear_arith)
            requires
                b == 2 * self.channels() * (self.resampler_frames as int),
                self.channels() >= 1,
                self.resampler_frames >= 1,
        ;
        assert(consumed == b * q) by (nonlinear_arith)
            requires
                consumed % b == 0,
                q == consumed / b,
                b >= 2,
        ;
        assert(d / b == q && d % b == staged) by (nonlinear_arith)
            requires
                d == b * q + staged,
                0 <= staged < b,
                b >= 2,
        ;
        assert(self.enqueued_frames == q * self.resampler_frames_out) by (nonlinear_arith)
            requires
                self.enqueued_frames == (q - self.blocks_owed) * (self.resampler_frames_out as int),
                self.blocks_owed == 0,
        ;
    }
}

impl<T: Copy> AudioSample<T> {
    /// Real-time drain of one device callback: for every frame of `output`,
    /// pop one sample per channel from the ring and advance the cursor; once
    /// the ring is empty, write `zero` for every remaining lane and leave the
    /// cursor alone. An underrun therefore yields silence, never an error,
    /// and a wholly empty ring zeroes the whole slice without moving the
    /// cursor.
    pub fn play_for(&mut self, output: &mut Vec<T>, zero: T)
        requires
            old(self).wf(),
            old(output)@.len() as int % (old(self).host_output_channels as int) == 0,
        ensures
            final(self).wf(),
            final(self).same_config(old(self)),
            final(self).same_fetch_state(old(self)),
            final(output)@.len() == old(output)@.len(),
            final(self).current_sample_frame == old(self).current_sample_frame + min_int(
                old(output)@.len() as int / old(self).channels(),
                old(self).ring_len(),
            ),
            old(self).current_sample_frame <= final(self).current_sample_frame,
            forall|c: int|
                0 <= c < old(self).channels() ==> #[trigger] final(self).ring(c) == old(
                    self,
                ).ring(c).skip(
                    min_int(old(output)@.len() as int / old(self).channels(), old(self).ring_len()),
                ),
            forall|j: int|
                0 <= j < final(output)@.len() ==> #[trigger] final(output)@[j] == old(
                    self,
                ).spec_output_at(j, zero),
    {
        let ghost o = *old(self);
        let ghost big_l = old(self).ring_len();
        let ch = self.host_output_channels;
        let total = output.len();
        let frames = total / ch;
        proof {
            assert((frames as int) * (ch as int) == total as int) by (nonlinear_arith)
                requires
                    ch >= 1,
                    frames == total as int / ch as int,
                    total as int % ch as int == 0,
            ;
            o.lemma_enqueued_bounded();
            assert(o.ring(0) =~= o.ring(0).skip(0));
            assert(forall|c: int|
                0 <= c < o.channels() ==> #[trigger] o.ring(c) =~= o.ring(c).skip(0));
        }
        let mut f: usize = 0;
        while f < frames
            invariant
                self.wf(),
                self.same_config(&o),
                self.same_fetch_state(&o),
                o.wf(),
                f <= frames,
                ch == o.host_output_channels,
                big_l == o.ring_len(),
                (frames as int) * (ch as int) == total as int,
                output@.len() == total,
                o.base_host_frame + o.enqueued_frames <= o.resampled_sample_frames,
                self.current_sample_frame == o.current_sample_frame + min_int(f as int, big_l),
                forall|c: int|
                    0 <= c < o.channels() ==> (#[trigger] self.sample_buffer@[c])@ == o.ring(
                        c,
                    ).skip(min_int(f as int, big_l)),
                forall|j: int|
                    0 <= j < f * ch ==> #[trigger] output@[j] == o.spec_output_at(j, zero),
                forall|j: int| f * ch <= j < total ==> #[trigger] output@[j] == old(output)@[j],
            decreases frames - f,
        {
            proof {
                assert((f as int) * (ch as int) + (ch as int) <= (frames as int) * (ch as int))
                    by (nonlinear_arith)
                    requires
                        f < frames,
                        ch >= 1,
                ;
                assert(((f + 1) as int) * (ch as int) == (f as int) * (ch as int) + (ch as int))
                    by (nonlinear_arith)
                ;
            }
            let base = f * ch;
            if self.sample_buffer[0].len() > 0 {
                proof {
                    assert(min_int(f as int, big_l) == f && f < big_l);
                }
                let mut c: usize = 0;
                while c < ch
                    invariant
                        c <= ch,
                        ch == o.host_output_channels,
                        o.wf(),
                        self.wf_config(),
                        self.same_config(&o),
                        self.same_fetch_state(&o),
                        self.current_sample_frame == o.current_sample_frame + f,
                        self.sample_buffer@.len() == ch,
                        f < frames,
                        f < big_l,
                        big_l == o.ring_len(),
                        base == f * ch,
                        (frames as int) * (ch as int) == total as int,
                        base + ch <= total,
                        output@.len() == total,
                        forall|c2: int|
                            0 <= c2 < c ==> (#[trigger] self.sample_buffer@[c2])@ == o.ring(
                                c2,
                            ).skip(f + 1),
                        forall|c2: int|
                            c <= c2 < ch ==> (#[trigger] self.sample_buffer@[c2])@ == o.ring(
                                c2,
                            ).skip(f as int),
                        forall|j: int|
                            0 <= j < base + c ==> #[trigger] output@[j] == o.spec_output_at(
                                j,
                                zero,
                            ),
                        forall|j: int|
                            base + c <= j < total ==> #[trigger] output@[j] == old(output)@[j],
                    decreases ch - c,
                {
                    let ghost prev_buf = self.sample_buffer@;
                    let mut dq = self.sample_buffer.remove(c);
                    proof {
                        assert(dq@ == o.ring(c as int).skip(f as int));
                        assert(o.ring(c as int).len() == big_l);
                        assert(dq@.len() == big_l - f);
                    }
                    let s_opt = dq.pop_front();
                    let s = match s_opt {
                        Some(s) => s,
                        None => zero,
                    };
                    self.sample_buffer.insert(c, dq);
                    proof {
                        assert(self.sample_buffer@ =~= prev_buf.update(c as int, dq));
                        assert(o.ring(c as int).skip(f as int).subrange(
                            1,
                            o.ring(c as int).skip(f as int).len() as int,
                        ) =~= o.ring(c as int).skip(f + 1));
                        assert(o.ring(c as int).skip(f as int)[0] == o.ring(c as int)[f as int]);
                        assert((base + c as int) / (ch as int) == f && (base + c as int) % (
                        ch as int) == c) by (nonlinear_arith)
                            requires
                                0 <= c < ch,
                                base == f * ch,
                                f >= 0,
                                ch >= 1,
                        ;
                    }
                    output.set(base + c, s);
                    c = c + 1;
                }
                self.current_sample_frame = self.current_sample_frame + 1;
                proof {
                    assert(min_int((f + 1) as int, big_l) == f + 1);
                    assert(self.ring_len() == big_l - (f + 1));
                    assert(self.current_sample_frame - self.base_host_frame + self.ring_len()
                        == self.enqueued_frames);
                }
            } else {
                proof {
                    assert(self.ring(0).len() == 0);
                    assert(min_int(f as int, big_l) == big_l);
                    assert(min_int((f + 1) as int, big_l) == big_l);
                }
                let mut c: usize = 0;
                while c < ch
                    invariant
                        c <= ch,
                        ch == o.host_output_channels,
                        o.wf(),
                        self.wf(),
                        self.same_config(&o),
                        self.same_fetch_state(&o),
                        self.current_sample_frame == o.current_sample_frame + min_int(
                            f as int,
                            big_l,
                        ),
                        forall|c2: int|
                            0 <= c2 < o.channels() ==> (#[trigger] self.sample_buffer@[c2])@
                                == o.ring(c2).skip(min_int(f as int, big_l)),
                        big_l <= f,
                        f < frames,
                        big_l == o.ring_len(),
                        base == f * ch,
                        (frames as int) * (ch as int) == total as int,
                        base + ch <= total,
                        output@.len() == total,
                        forall|j: int|
                            0 <= j < base + c ==> #[trigger] output@[j] == o.spec_output_at(
                                j,
                                zero,
                            ),
                        forall|j: int|
                            base + c <= j < total ==> #[trigger] output@[j] == old(output)@[j],
                    decreases ch - c,
                {
                    proof {
                        assert((base + c as int) / (ch as int) == f && (base + c as int) % (
                        ch as int) == c) by (nonlinear_arith)
                            requires
                                0 <= c < ch,
                                base == f * ch,
                                f >= 0,
                                ch >= 1,
                        ;
                    }
                    output.set(base + c, zero);
                    c = c + 1;
                }
            }
            f = f + 1;
        }
        proof {
            assert(f * ch == total);
        }
    }

    /// Pushes one block of resampled output into the ring: one run of
    /// `resampler_frames_out` samples per channel, appended to every channel
    /// under a single exclusive acquisition, which keeps the channels
    /// balanced. Pays back one block taken with `next_block`.
    pub fn push_resampled(&mut self, frames_in: &Vec<Vec<T>>)
        requires
            old(self).wf(),
            old(self).blocks_owed >= 1,
            frames_in@.len() == old(self).channels(),
            forall|c: int|
                0 <= c < frames_in@.len() ==> (#[trigger] frames_in@[c])@.len() == old(
                    self,
                ).resampler_frames_out,
        ensures
            final(self).wf(),
            final(self).same_config(old(self)),
            final(self).current_sample_frame == old(self).current_sample_frame,
            final(self).buffer_status == old(self).buffer_status,
            final(self).last_buf_req_pos == old(self).last_buf_req_pos,
            final(self).base_source_frame == old(self).base_source_frame,
            final(self).base_host_frame == old(self).base_host_frame,
            final(self).delivered_bytes == old(self).delivered_bytes,
            final(self).delivered_log@ == old(self).delivered_log@,
            final(self).remain_sample_raw@ == old(self).remain_sample_raw@,
            final(self).blocks_owed == old(self).blocks_owed - 1,
            final(self).enqueued_frames == old(self).enqueued_frames + old(
                self,
            ).resampler_frames_out,
            final(self).ring_len() == old(self).ring_len() + old(self).resampler_frames_out,
            forall|c: int|
                0 <= c < old(self).channels() ==> (#[trigger] final(self).sample_buffer@[c])@
                    == old(self).ring(c) + frames_in@[c]@,
    {
        proof {
            self.lemma_block_capacity();
        }
        let ch = self.host_output_channels;
        let k_out = self.resampler_frames_out;
        let mut c: usize = 0;
        while c < ch
            invariant
                c <= ch,
                ch == old(self).host_output_channels,
                k_out == old(self).resampler_frames_out,
                old(self).wf(),
                frames_in@.len() == old(self).channels(),
                forall|c2: int|
                    0 <= c2 < frames_in@.len() ==> (#[trigger] frames_in@[c2])@.len() == old(
                        self,
                    ).resampler_frames_out,
                self.sample_buffer@.len() == ch,
                forall|c2: int|
                    0 <= c2 < c ==> (#[trigger] self.sample_buffer@[c2])@ == old(self).ring(c2)
                        + frames_in@[c2]@,
                forall|c2: int|
                    c <= c2 < ch ==> (#[trigger] self.sample_buffer@[c2])@ == old(self).ring(c2),
                *self == (AudioSample { sample_buffer: self.sample_buffer, ..*old(self) }),
            decreases ch - c,
        {
            let ghost prev_buf = self.sample_buffer@;
            let mut dq = self.sample_buffer.remove(c);
            let run = &frames_in[c];
            let mut j: usize = 0;
            while j < k_out
                invariant
                    j <= k_out,
                    k_out == old(self).resampler_frames_out,
                    c < frames_in@.len(),
                    run == frames_in@[c as int],
                    run@.len() == k_out,
                    dq@ == old(self).ring(c as int) + run@.subrange(0, j as int),
                decreases k_out - j,
            {
                dq.push_back(run[j]);
                proof {
                    assert(old(self).ring(c as int) + run@.subrange(0, j as int + 1) =~= (old(
                        self,
                    ).ring(c as int) + run@.subrange(0, j as int)).push(run@[j as int]));
                }
                j = j + 1;
            }
            proof {
                assert(run@.subrange(0, k_out as int) =~= run@);
            }
            self.sample_buffer.insert(c, dq);
            proof {
                assert(self.sample_buffer@ =~= prev_buf.update(c as int, dq));
            }
            c = c + 1;
        }
        self.enqueued_frames = self.enqueued_frames + (k_out as u64);
        self.blocks_owed = self.blocks_owed - 1;
        proof {
            let blocks = self.blocks_done();
            let k = self.resampler_frames_out as int;
            let b = self.block_bytes();
            assert(self.enqueued_frames == (blocks - self.blocks_owed) * k) by (nonlinear_arith)
                requires
                    self.enqueued_frames - k == (blocks - (self.blocks_owed + 1)) * k,
            ;
            assert(b >= 2) by (nonlinear_arith)
                requires
                    b == 2 * self.channels() * (self.resampler_frames as int),
                    self.channels() >= 1,
                    self.resampler_frames >= 1,
            ;
            assert(self.blocks_owed * b <= self.consumed_bytes()) by (nonlinear_arith)
                requires
                    (self.blocks_owed + 1) * b <= self.consumed_bytes(),
                    b >= 2,
            ;
            assert(self.wf());
        }
    }
}

/// The last requested source frame after `n` fetches that each request `req`
/// frames, starting from zero: the per-fetch update folds to the sum of the
/// requested counts, clamped to the track length.
pub open spec fn spec_last_requested_after(n: nat, req: int, total: int) -> int
    decreases n,
{
    if n == 0 {
        0
    } else {
        min_int(spec_last_requested_after((n - 1) as nat, req, total) + req, total)
    }
}

/// No range is requested twice: after `n` fetches the last requested frame
/// equals `n` times the per-fetch request count, clamped to the track length.
/// One step of the fold is exactly what a `tick` that decides to fetch does
/// to `last_buf_req_pos`, with `req == FETCH_BUFFER_SEC * source_rate`.
pub proof fn lemma_no_double_request(n: nat, req: int, total: int)
    requires
        req >= 0,
        total >= 0,
    ensures
        spec_last_requested_after(n, req, total) == min_int(n * req, total),
    decreases n,
{
    if n == 0 {
        assert(n * req == 0) by (nonlinear_arith)
            requires
                n == 0,
        ;
    } else {
        lemma_no_double_request((n - 1) as nat, req, total);
        let p = ((n - 1) as nat) * req;
        assert(p + req == n * req && p >= 0) by (nonlinear_arith)
            requires
                p == ((n - 1) as nat) * req,
                n >= 1,
                req >= 0,
        ;
        if p <= total {
            assert(spec_last_requested_after(n, req, total) == min_int(p + req, total));
        } else {
            assert(spec_last_requested_after(n, req, total) == min_int(total + req, total));
            assert(min_int(total + req, total) == total);
            assert(min_int(n * req, total) == total);
        }
    }
}

} // verus!
