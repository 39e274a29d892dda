use cirrus_audio::meta::resampled_frames;
use cirrus_audio::meta::AudioSource;
use cirrus_audio::meta::AudioSourceMetadata;
use cirrus_audio::sample::i16_from_be_pair;
use cirrus_audio::sample::AudioSample;
use cirrus_audio::sample::AudioSampleStatus;
use cirrus_audio::sample::FetchTick;
use cirrus_audio::sample::MonitorAction;

fn source(id: &str, sample_rate: u32, frames: usize) -> AudioSource {
    AudioSource::new(
        String::from(id),
        AudioSourceMetadata::new(1411, sample_rate, 2, 0, frames),
    )
}

/// A small stream whose rates keep the resampler blocks tiny: source 1 Hz,
/// host 2 Hz, two source frames in, four host frames out per block.
fn tiny_stream(frames: usize) -> AudioSample<f32> {
    AudioSample::new(source("tiny", 1, frames), 2, 2, 2, 4)
}

#[test]
fn resampled_length_happy_path() {
    // 10 s of 44.1 kHz audio at a 48 kHz host: 441000 * 48000 / 44100 frames.
    assert_eq!(resampled_frames(441_000, 44_100, 48_000), 480_000);
    let duration_sec = 480_000 as f64 / 48_000 as f64;
    assert!((duration_sec - 10.0).abs() < 1e-9);
    // An uneven ratio rounds up.
    assert_eq!(resampled_frames(3, 4, 2), 2);
    assert_eq!(resampled_frames(1, 44_100, 48_000), 2);
    assert_eq!(resampled_frames(0, 44_100, 48_000), 0);
}

#[test]
fn metadata_validation() {
    assert!(AudioSourceMetadata::new(1411, 44_100, 2, 0, 441_000).is_valid());
    assert!(!AudioSourceMetadata::new(1411, 0, 2, 0, 441_000).is_valid());
    assert!(!AudioSourceMetadata::new(1411, 44_100, 0, 0, 441_000).is_valid());
    assert!(!AudioSourceMetadata::new(1411, 44_100, 2, 0, 0).is_valid());
}

#[test]
fn decode_is_big_endian_signed() {
    assert_eq!(i16_from_be_pair(0x00, 0x00), 0);
    assert_eq!(i16_from_be_pair(0x00, 0x01), 1);
    assert_eq!(i16_from_be_pair(0x7F, 0xFF), 32_767);
    assert_eq!(i16_from_be_pair(0x80, 0x00), -32_768);
    assert_eq!(i16_from_be_pair(0xFF, 0xFF), -1);
}

#[test]
fn new_stream_starts_empty() {
    let s = tiny_stream(100);
    assert_eq!(s.get_remain_sample_buffer_len(), 0);
    assert_eq!(s.get_current_sample_idx(), 0);
    assert_eq!(s.resampled_sample_frames, 200);
    assert_eq!(s.buffer_status, AudioSampleStatus::Init);
    assert_eq!(s.last_buf_req_pos, 0);
}

#[test]
fn fetch_policy_requests_and_clamps() {
    // 100 source frames at 1 Hz: 100 s of content, margin is 20 s.
    let mut s = tiny_stream(100);
    // First poll: ring empty, plenty of content left: fetch 50 s from zero.
    match s.tick() {
        FetchTick::Fetch { start_frame, end_frame } => {
            assert_eq!(start_frame, 0);
            assert_eq!(end_frame, 50);
        }
        other => panic!("expected a fetch, got {:?}", other),
    }
    assert_eq!(s.last_buf_req_pos, 50);
    // Second poll: still nothing buffered: the next 50 s, clamped to the track.
    match s.tick() {
        FetchTick::Fetch { start_frame, end_frame } => {
            assert_eq!(start_frame, 50);
            assert_eq!(end_frame, 100);
        }
        other => panic!("expected a fetch, got {:?}", other),
    }
    // The requested positions never pass the track length.
    assert_eq!(s.last_buf_req_pos, 100);
    match s.tick() {
        FetchTick::Fetch { start_frame, end_frame } => {
            assert_eq!(start_frame, 100);
            assert_eq!(end_frame, 100);
        }
        other => panic!("expected a fetch, got {:?}", other),
    }
    assert_eq!(s.last_buf_req_pos, 100);
}

#[test]
fn short_track_is_left_to_drain() {
    // 10 s of content is under the 20 s low watermark from the start, so the
    // fetch loop stays idle and the monitor reports end-of-content once the
    // (empty) ring and the near end of the track coincide.
    let mut s = tiny_stream(10);
    assert_eq!(s.tick(), FetchTick::Idle);
    assert_eq!(s.buffer_status, AudioSampleStatus::Init);
}

#[test]
fn ingest_decodes_blocks_and_keeps_remainder() {
    let mut s = tiny_stream(100);
    match s.tick() {
        FetchTick::Fetch { .. } => {}
        other => panic!("expected a fetch, got {:?}", other),
    }
    // 10 bytes: one whole block (8 bytes) and a 2-byte remainder.
    let payload: Vec<u8> = vec![0, 1, 2, 3, 4, 5, 6, 7, 8, 9];
    assert!(s.accepts_payload(payload.len()));
    s.ingest(&payload);
    assert_eq!(s.delivered_bytes, 10);

    let block = s.next_block().expect("one whole block is staged");
    assert_eq!(block.len(), 2);
    // Frame 0 holds samples 0x0001 (left) and 0x0203 (right); frame 1 holds
    // 0x0405 and 0x0607.
    assert_eq!(block[0], vec![0x0001, 0x0405]);
    assert_eq!(block[1], vec![0x0203, 0x0607]);
    // Less than one block stays staged: bytes 8 and 9.
    assert!(s.next_block().is_none());

    // The resampled output of the block: four frames per channel.
    let resampled: Vec<Vec<f32>> = vec![vec![0.1, 0.2, 0.3, 0.4], vec![-0.1, -0.2, -0.3, -0.4]];
    s.push_resampled(&resampled);
    assert_eq!(s.get_remain_sample_buffer_len(), 4);
    assert_eq!(s.enqueued_frames, 4);
}

#[test]
fn callback_drains_interleaved_and_advances_cursor() {
    let mut s = tiny_stream(100);
    match s.tick() {
        FetchTick::Fetch { .. } => {}
        other => panic!("expected a fetch, got {:?}", other),
    }
    let payload: Vec<u8> = vec![0, 1, 2, 3, 4, 5, 6, 7];
    s.ingest(&payload);
    let block = s.next_block().expect("one whole block is staged");
    assert_eq!(block.len(), 2);
    s.push_resampled(&vec![vec![1.0, 2.0, 3.0, 4.0], vec![-1.0, -2.0, -3.0, -4.0]]);

    // Drain two frames: the ring's first two frames, interleaved.
    let mut out = vec![9.0f32; 4];
    s.play_for(&mut out, 0.0);
    assert_eq!(out, vec![1.0, -1.0, 2.0, -2.0]);
    assert_eq!(s.get_current_sample_idx(), 2);
    assert_eq!(s.get_remain_sample_buffer_len(), 2);

    // Ask for four frames with two buffered: the rest is silence and the
    // cursor only advances by what was actually delivered.
    let mut out = vec![9.0f32; 8];
    s.play_for(&mut out, 0.0);
    assert_eq!(out, vec![3.0, -3.0, 4.0, -4.0, 0.0, 0.0, 0.0, 0.0]);
    assert_eq!(s.get_current_sample_idx(), 4);
    assert_eq!(s.get_remain_sample_buffer_len(), 0);
}

#[test]
fn underrun_writes_silence_and_freezes_cursor() {
    // An empty ring zeroes the whole slice and leaves the cursor alone.
    let mut s = tiny_stream(100);
    let mut out = vec![7.0f32; 6];
    s.play_for(&mut out, 0.0);
    assert_eq!(out, vec![0.0; 6]);
    assert_eq!(s.get_current_sample_idx(), 0);
}

#[test]
fn monitor_pauses_on_empty_ring_and_stops_at_end() {
    let mut s = tiny_stream(100);
    // Empty ring far from the end: pause the device, do not stop.
    assert_eq!(s.manage_playback_tick(), MonitorAction::PauseDevice);

    // Fill four frames and the monitor keeps the device running.
    match s.tick() {
        FetchTick::Fetch { .. } => {}
        other => panic!("expected a fetch, got {:?}", other),
    }
    s.ingest(&vec![0u8; 8]);
    let _ = s.next_block().expect("one block");
    s.push_resampled(&vec![vec![0.0; 4], vec![0.0; 4]]);
    assert_eq!(s.manage_playback_tick(), MonitorAction::ResumeDevice);

    // Drain everything: ring empty again, but still 196 host frames of
    // content left (98 s): pause, no stop.
    let mut out = vec![0.0f32; 8];
    s.play_for(&mut out, 0.0);
    assert_eq!(s.manage_playback_tick(), MonitorAction::PauseDevice);

    // Seek to the last host frame: less than half a second of content left
    // and the ring is empty, so the monitor signals end-of-content.
    s.set_playback_position(100, 199);
    assert_eq!(s.manage_playback_tick(), MonitorAction::PauseAndStop);
}

#[test]
fn seek_resets_ring_remainder_and_counters() {
    let mut s = tiny_stream(100);
    match s.tick() {
        FetchTick::Fetch { .. } => {}
        other => panic!("expected a fetch, got {:?}", other),
    }
    s.ingest(&vec![0u8; 10]);
    let _ = s.next_block().expect("one block");
    s.push_resampled(&vec![vec![0.0; 4], vec![0.0; 4]]);
    let mut out = vec![0.0f32; 4];
    s.play_for(&mut out, 0.0);
    assert_eq!(s.get_current_sample_idx(), 2);

    // Seek to 30 s: source frame 30, host frame 60.
    s.set_playback_position(30, 60);
    assert_eq!(s.get_current_sample_idx(), 60);
    assert_eq!(s.get_remain_sample_buffer_len(), 0);
    assert_eq!(s.last_buf_req_pos, 30);
    assert_eq!(s.delivered_bytes, 0);
    assert_eq!(s.buffer_status, AudioSampleStatus::Init);

    // The next fetch continues from the seek target.
    match s.tick() {
        FetchTick::Fetch { start_frame, end_frame } => {
            assert_eq!(start_frame, 30);
            assert_eq!(end_frame, 80);
        }
        other => panic!("expected a fetch, got {:?}", other),
    }
}

#[test]
fn cursor_never_passes_resampled_length() {
    // Deliver two blocks and drain far more than that: the cursor stops
    // exactly at what was enqueued, which stays under the resampled length.
    let mut t = tiny_stream(100);
    match t.tick() {
        FetchTick::Fetch { .. } => {}
        other => panic!("expected a fetch, got {:?}", other),
    }
    t.ingest(&vec![1u8; 16]);
    while let Some(_block) = t.next_block() {
        t.push_resampled(&vec![vec![0.5; 4], vec![0.5; 4]]);
    }
    assert_eq!(t.get_remain_sample_buffer_len(), 8);
    let mut out = vec![0.0f32; 40];
    t.play_for(&mut out, 0.0);
    assert_eq!(t.get_current_sample_idx(), 8);
    assert!(t.get_current_sample_idx() <= t.resampled_sample_frames);
}

#[test]
fn steady_ring_publishes_play_phase() {
    // Fill the ring past the low watermark (20 s at 2 Hz = 40 frames): the
    // next poll issues no fetch and publishes the steady phase instead.
    let mut s = tiny_stream(100);
    match s.tick() {
        FetchTick::Fetch { .. } => {}
        other => panic!("expected a fetch, got {:?}", other),
    }
    s.ingest(&vec![0u8; 80]);
    while let Some(_block) = s.next_block() {
        s.push_resampled(&vec![vec![0.0; 4], vec![0.0; 4]]);
    }
    assert_eq!(s.get_remain_sample_buffer_len(), 40);
    assert_eq!(s.tick(), FetchTick::MarkPlay);
    assert_eq!(s.buffer_status, AudioSampleStatus::Play);
    assert_eq!(s.payload_frame_aligned(80), true);
    assert_eq!(s.payload_frame_aligned(81), false);
}

#[test]
fn pause_freezes_the_cursor() {
    // The cursor only moves when the device drains; while paused, no drain
    // happens and the position is frozen, then playing drains again.
    let mut s = tiny_stream(100);
    match s.tick() {
        FetchTick::Fetch { .. } => {}
        other => panic!("expected a fetch, got {:?}", other),
    }
    s.ingest(&vec![0u8; 64]);
    while let Some(_block) = s.next_block() {
        s.push_resampled(&vec![vec![0.5; 4], vec![0.5; 4]]);
    }
    let mut out = vec![0.0f32; 8];
    s.play_for(&mut out, 0.0);
    s.play_for(&mut out, 0.0);
    let frozen = s.get_current_sample_idx();
    assert_eq!(frozen, 8);
    // Paused: the device performs no drains; the position cannot change.
    assert_eq!(s.get_current_sample_idx(), frozen);
    // Resumed: the cursor advances again.
    s.play_for(&mut out, 0.0);
    assert_eq!(s.get_current_sample_idx(), frozen + 4);
}

#[test]
fn phase_codes_round_trip() {
    assert_eq!(AudioSampleStatus::Init.index(), 0);
    assert_eq!(AudioSampleStatus::FillBuffer.index(), 1);
    assert_eq!(AudioSampleStatus::Play.index(), 2);
    assert_eq!(AudioSampleStatus::from_index(0), Some(AudioSampleStatus::Init));
    assert_eq!(AudioSampleStatus::from_index(1), Some(AudioSampleStatus::FillBuffer));
    assert_eq!(AudioSampleStatus::from_index(2), Some(AudioSampleStatus::Play));
    assert_eq!(AudioSampleStatus::from_index(3), None);
}
