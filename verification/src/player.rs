//! Playback controller: a queue of loaded streams, the published playback
//! status, and the retry policy of the fetch client.
//!
//! Only the head of the queue plays; streams added behind it wait until they
//! are promoted by the head being stopped. Device starts and stops happen
//! outside; the controller is told whether the device obeyed and keeps the
//! published status consistent with that answer.

use vstd::prelude::*;
use std::collections::VecDeque;

use crate::sample::AudioSample;

verus! {

/// Playback status published to the embedding UI layer.
#[derive(Copy, Clone, Debug, PartialEq, Eq, Structural)]
pub enum AudioPlayerStatus {
    Play,
    Pause,
    Stop,
    Error,
}

impl AudioPlayerStatus {
    pub open spec fn spec_index(&self) -> int {
        match self {
            AudioPlayerStatus::Play => 0,
            AudioPlayerStatus::Pause => 1,
            AudioPlayerStatus::Stop => 2,
            AudioPlayerStatus::Error => 3,
        }
    }

    /// Stable numeric code of the status, for storage in an atomic cell.
    pub fn index(&self) -> (r: usize)
        ensures
            r == self.spec_index(),
    {
        match self {
            AudioPlayerStatus::Play => 0,
            AudioPlayerStatus::Pause => 1,
            AudioPlayerStatus::Stop => 2,
            AudioPlayerStatus::Error => 3,
        }
    }

    /// Reads a status back from its numeric code.
    pub fn from_index(value: usize) -> (r: Option<AudioPlayerStatus>)
        ensures
            value == 0 ==> r == Some(AudioPlayerStatus::Play),
            value == 1 ==> r == Some(AudioPlayerStatus::Pause),
            value == 2 ==> r == Some(AudioPlayerStatus::Stop),
            value == 3 ==> r == Some(AudioPlayerStatus::Error),
            value >= 4 ==> r is None,
    {
        if value == 0 {
            Some(AudioPlayerStatus::Play)
        } else if value == 1 {
            Some(AudioPlayerStatus::Pause)
        } else if value == 2 {
            Some(AudioPlayerStatus::Stop)
        } else if value == 3 {
            Some(AudioPlayerStatus::Error)
        } else {
            None
        }
    }
}

/// Why a controller command was refused.
#[derive(Copy, Clone, Debug, PartialEq, Eq, Structural)]
pub enum AudioPlayerError {
    /// `play` or `pause` with no stream loaded: reported, no state change.
    EmptyQueue,
    /// The controller sits in the error state until `stop` resets it.
    InErrorState,
    /// The device refused to start or stop.
    DeviceFailure,
}

impl AudioPlayerError {
    /// A short description of the error.
    pub fn message(&self) -> &'static str {
        match self {
            AudioPlayerError::EmptyQueue => "no audio is loaded",
            AudioPlayerError::InErrorState => "player is in the error state",
            AudioPlayerError::DeviceFailure => "audio device refused the request",
        }
    }
}

/// Retries of one failed range fetch before the failure counts as fatal.
pub const MAX_FETCH_RETRIES: u32 = 3;

/// Backoff before retry number `attempt` (counting failed attempts from 0)
/// of one range fetch: 100 ms, 400 ms, 1.6 s, then give up and escalate.
pub fn retry_backoff_ms(attempt: u32) -> (r: Option<u32>)
    ensures
        attempt == 0 ==> r == Some(100u32),
        attempt == 1 ==> r == Some(400u32),
        attempt == 2 ==> r == Some(1600u32),
        attempt >= MAX_FETCH_RETRIES ==> r is None,
{
    if attempt == 0 {
        Some(100)
    } else if attempt == 1 {
        Some(400)
    } else if attempt == 2 {
        Some(1600)
    } else {
        None
    }
}

/// Whether a reply status stands for a transient server failure (a 5xx),
/// which is retried, as opposed to a fatal one.
pub fn is_transient_status(code: u32) -> (r: bool)
    ensures
        r == (500 <= code < 600),
{
    500 <= code && code < 600
}

/// The playback controller: the queue of loaded streams and the published
/// status. Stream element type `T` is the host sample format.
pub struct AudioPlayerInner<T> {
    pub streams: VecDeque<AudioSample<T>>,
    pub status: AudioPlayerStatus,
}

impl<T> AudioPlayerInner<T> {
    /// Every queued stream is well-formed.
    pub open spec fn wf(&self) -> bool {
        forall|i: int| 0 <= i < self.streams@.len() ==> (#[trigger] self.streams@[i]).wf()
    }

    /// A fresh controller: empty queue, stopped.
    pub fn new() -> (r: AudioPlayerInner<T>)
        ensures
            r.wf(),
            r.streams@.len() == 0,
            r.status == AudioPlayerStatus::Stop,
    {
        AudioPlayerInner { streams: VecDeque::new(), status: AudioPlayerStatus::Stop }
    }

    /// Enqueues a loaded stream behind the ones already playing or waiting
    /// and returns the track's length in resampled host-rate frames.
    pub fn add_audio(&mut self, stream: AudioSample<T>) -> (r: u64)
        requires
            old(self).wf(),
            stream.wf(),
        ensures
            final(self).wf(),
            final(self).streams@ == old(self).streams@.push(stream),
            final(self).status == old(self).status,
            r == stream.resampled_sample_frames,
    {
        let r = stream.resampled_sample_frames;
        self.streams.push_back(stream);
        r
    }

    /// Drops the head stream, which releases its ring, and publishes the
    /// stopped status. Idempotent on an empty queue.
    pub fn remove_audio(&mut self)
        requires
            old(self).wf(),
        ensures
            final(self).wf(),
            old(self).streams@.len() == 0 ==> final(self).streams@ == old(self).streams@,
            old(self).streams@.len() > 0 ==> final(self).streams@ == old(self).streams@.skip(1),
            final(self).status == AudioPlayerStatus::Stop,
    {
        let popped = self.streams.pop_front();
        self.status = AudioPlayerStatus::Stop;
        proof {
            if old(self).streams@.len() > 0 {
                assert(old(self).streams@.subrange(1, old(self).streams@.len() as int) =~= old(
                    self,
                ).streams@.skip(1));
            }
        }
    }

    /// `play`: asks for the head stream's device to run. `device_ok` says
    /// whether the device obeyed. Refused without a state change on an empty
    /// queue or in the error state; a device failure moves the controller to
    /// the error state.
    pub fn play(&mut self, device_ok: bool) -> (r: Result<(), AudioPlayerError>)
        requires
            old(self).wf(),
        ensures
            final(self).wf(),
            final(self).streams@ == old(self).streams@,
            old(self).streams@.len() == 0 ==> r == Result::<(), AudioPlayerError>::Err(
                AudioPlayerError::EmptyQueue,
            ) && final(self).status == old(self).status,
            (old(self).streams@.len() > 0 && old(self).status == AudioPlayerStatus::Error) ==> (r
                == Result::<(), AudioPlayerError>::Err(AudioPlayerError::InErrorState)
                && final(self).status == old(self).status),
            old(self).streams@.len() > 0 && old(self).status != AudioPlayerStatus::Error
                && device_ok ==> r == Result::<(), AudioPlayerError>::Ok(()) && final(self).status
                == AudioPlayerStatus::Play,
            old(self).streams@.len() > 0 && old(self).status != AudioPlayerStatus::Error
                && !device_ok ==> r == Result::<(), AudioPlayerError>::Err(
                AudioPlayerError::DeviceFailure,
            ) && final(self).status == AudioPlayerStatus::Error,
    {
        if self.streams.len() == 0 {
            Err(AudioPlayerError::EmptyQueue)
        } else if self.status == AudioPlayerStatus::Error {
            Err(AudioPlayerError::InErrorState)
        } else if device_ok {
            self.status = AudioPlayerStatus::Play;
            Ok(())
        } else {
            self.status = AudioPlayerStatus::Error;
            Err(AudioPlayerError::DeviceFailure)
        }
    }

    /// `pause`: asks for the head stream's device to pause, with the same
    /// refusals as `play`.
    pub fn pause(&mut self, device_ok: bool) -> (r: Result<(), AudioPlayerError>)
        requires
            old(self).wf(),
        ensures
            final(self).wf(),
            final(self).streams@ == old(self).streams@,
            old(self).streams@.len() == 0 ==> r == Result::<(), AudioPlayerError>::Err(
                AudioPlayerError::EmptyQueue,
            ) && final(self).status == old(self).status,
            (old(self).streams@.len() > 0 && old(self).status == AudioPlayerStatus::Error) ==> (r
                == Result::<(), AudioPlayerError>::Err(AudioPlayerError::InErrorState)
                && final(self).status == old(self).status),
            old(self).streams@.len() > 0 && old(self).status != AudioPlayerStatus::Error
                && device_ok ==> r == Result::<(), AudioPlayerError>::Ok(()) && final(self).status
                == AudioPlayerStatus::Pause,
            old(self).streams@.len() > 0 && old(self).status != AudioPlayerStatus::Error
                && !device_ok ==> r == Result::<(), AudioPlayerError>::Err(
                AudioPlayerError::DeviceFailure,
            ) && final(self).status == AudioPlayerStatus::Error,
    {
        if self.streams.len() == 0 {
            Err(AudioPlayerError::EmptyQueue)
        } else if self.status == AudioPlayerStatus::Error {
            Err(AudioPlayerError::InErrorState)
        } else if device_ok {
            self.status = AudioPlayerStatus::Pause;
            Ok(())
        } else {
            self.status = AudioPlayerStatus::Error;
            Err(AudioPlayerError::DeviceFailure)
        }
    }

    /// A fatal fetch or device failure: the error status is published and
    /// stays until `stop` resets the player. The stream is not removed.
    pub fn on_fatal_error(&mut self)
        requires
            old(self).wf(),
        ensures
            final(self).wf(),
            final(self).streams@ == old(self).streams@,
            final(self).status == AudioPlayerStatus::Error,
    {
        self.status = AudioPlayerStatus::Error;
    }

    pub fn get_status(&self) -> (r: AudioPlayerStatus)
        ensures
            r == self.status,
    {
        self.status
    }

    /// The head stream's play cursor in host-rate frames, 0 with no stream.
    pub fn get_playback_position_frames(&self) -> (r: u64)
        requires
            self.wf(),
        ensures
            self.streams@.len() == 0 ==> r == 0,
            self.streams@.len() > 0 ==> r == self.streams@[0].current_sample_frame,
    {
        if self.streams.len() == 0 {
            0
        } else {
            self.streams[0].get_current_sample_idx()
        }
    }

    /// The head stream's ring occupancy in host-rate frames, 0 with no stream.
    pub fn get_remain_sample_buffer_len(&self) -> (r: usize)
        requires
            self.wf(),
        ensures
            self.streams@.len() == 0 ==> r == 0,
            self.streams@.len() > 0 ==> r == self.streams@[0].ring_len(),
    {
        if self.streams.len() == 0 {
            0
        } else {
            self.streams[0].get_remain_sample_buffer_len()
        }
    }

    /// The head stream's resampled length in host-rate frames, 0 with no stream.
    pub fn get_content_length_frames(&self) -> (r: u64)
        requires
            self.wf(),
        ensures
            self.streams@.len() == 0 ==> r == 0,
            self.streams@.len() > 0 ==> r == self.streams@[0].resampled_sample_frames,
    {
        if self.streams.len() == 0 {
            0
        } else {
            self.streams[0].resampled_sample_frames
        }
    }

    /// Takes the head stream out for one producer or consumer operation;
    /// `put_current_back` returns it. Only the head is ever worked on, which
    /// keeps a single producer and a single consumer per ring.
    pub fn take_current(&mut self) -> (r: Option<AudioSample<T>>)
        requires
            old(self).wf(),
        ensures
            final(self).wf(),
            final(self).status == old(self).status,
            old(self).streams@.len() == 0 ==> (r is None && final(self).streams@ == old(self).streams@),
            old(self).streams@.len() > 0 ==> {
                &&& r == Some(old(self).streams@[0])
                &&& final(self).streams@ == old(self).streams@.skip(1)
                &&& old(self).streams@[0].wf()
            },
    {
        let r = self.streams.pop_front();
        proof {
            if old(self).streams@.len() > 0 {
                assert(old(self).streams@.subrange(1, old(self).streams@.len() as int) =~= old(
                    self,
                ).streams@.skip(1));
            }
        }
        r
    }

    /// Returns the head stream after an operation on it.
    pub fn put_current_back(&mut self, stream: AudioSample<T>)
        requires
            old(self).wf(),
            stream.wf(),
        ensures
            final(self).wf(),
            final(self).status == old(self).status,
            final(self).streams@ == seq![stream] + old(self).streams@,
    {
        self.streams.push_front(stream);
    }
}

} // verus!
