//! Client-side core of a streaming audio player.
//!
//! A remote service stores audio tracks and serves per-track metadata and
//! raw PCM sample ranges. This crate holds the verified heart of the client
//! pipeline: the per-channel sample ring drained by the output callback, the
//! fetch policy that keeps the ring filled, the block/remainder bookkeeping
//! around the resampler, and the playback controller's state machine.

pub mod library;
pub mod meta;
pub mod player;
pub mod sample;

pub use library::AudioFile;
pub use library::AudioLibrary;
pub use meta::AudioSource;
pub use meta::AudioSourceMetadata;
pub use player::AudioPlayerInner;
pub use player::AudioPlayerStatus;
pub use sample::AudioSample;
pub use sample::AudioSampleStatus;
