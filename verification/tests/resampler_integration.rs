//! Drives the verified pipeline with the real FFT resampler: fetch decisions,
//! block decoding, resampling from 44.1 kHz to 48 kHz, ring and cursor.

use cirrus_audio::meta::AudioSource;
use cirrus_audio::meta::AudioSourceMetadata;
use cirrus_audio::sample::AudioSample;
use cirrus_audio::sample::FetchTick;
use cirrus_audio::sample::MonitorAction;
use rubato::Resampler;

/// Scale of decoded 16-bit samples: full scale maps to 1.0. The divisor is
/// deliberately 32768 and not the host sample rate; a rate divisor would
/// shrink every amplitude to near silence.
const SAMPLE_SCALE: f32 = 1.0 / 32768.0;

/// 30 s track at 44.1 kHz, host at 48 kHz, stereo.
#[test]
fn pipeline_with_fft_resampler() {
    let source_rate = 44_100u32;
    let host_rate = 48_000u32;
    let frames = (source_rate as usize) * 30;

    let mut resampler =
        rubato::FftFixedInOut::<f32>::new(source_rate as usize, host_rate as usize, 1024, 2)
            .expect("valid rates");
    let k_in = resampler.input_frames_next();
    let k_out = resampler.output_frames_next();
    // The fixed-in/fixed-out resampler keeps the rate ratio exactly.
    assert_eq!(k_out * source_rate as usize, k_in * host_rate as usize);

    let source = AudioSource::new(
        String::from("long-track"),
        AudioSourceMetadata::new(1411, source_rate, 2, 0, frames),
    );
    let mut s: AudioSample<f32> = AudioSample::new(source, host_rate, 2, k_in, k_out);
    assert_eq!(s.resampled_sample_frames, 30 * host_rate as u64);

    // First fetch: 50 s requested, clamped to the 30 s track.
    let (start, end) = match s.tick() {
        FetchTick::Fetch { start_frame, end_frame } => (start_frame, end_frame),
        other => panic!("expected a fetch, got {:?}", other),
    };
    assert_eq!(start, 0);
    assert_eq!(end, frames as u64);

    // The server's reply: a ramp of 16-bit samples, 4 bytes per frame.
    let payload_len = ((end - start) as usize) * 4;
    let mut payload = Vec::with_capacity(payload_len);
    for i in 0..payload_len {
        payload.push((i % 251) as u8);
    }
    assert!(s.accepts_payload(payload.len()));
    s.ingest(&payload);

    // Decode block by block, resample, enqueue.
    let mut blocks = 0u64;
    while let Some(block) = s.next_block() {
        let input: Vec<Vec<f32>> = block
            .iter()
            .map(|lane| lane.iter().map(|v| *v as f32 * SAMPLE_SCALE).collect())
            .collect();
        assert_eq!(input.len(), 2);
        assert_eq!(input[0].len(), k_in);
        let resampled = resampler.process(&input, None).expect("resampling succeeds");
        assert_eq!(resampled.len(), 2);
        assert_eq!(resampled[0].len(), k_out);
        s.push_resampled(&resampled);
        blocks += 1;
    }

    // Remainder closure: whole blocks were consumed, the tail stays staged.
    let block_bytes = 4 * k_in;
    assert_eq!(blocks, (payload_len / block_bytes) as u64);
    assert_eq!(s.enqueued_frames, blocks * k_out as u64);
    assert_eq!(
        s.delivered_bytes as usize - (payload_len / block_bytes) * block_bytes,
        payload_len % block_bytes
    );
    let enqueued = s.enqueued_frames;
    assert!(enqueued <= s.resampled_sample_frames);
    assert_eq!(s.get_remain_sample_buffer_len() as u64, enqueued);

    // The monitor keeps the device running while the ring holds audio.
    assert_eq!(s.manage_playback_tick(), MonitorAction::ResumeDevice);

    // Drain through device-sized callbacks until the ring runs dry.
    let callback_frames = 512usize;
    let mut out = vec![0.0f32; callback_frames * 2];
    let mut callbacks = 0u64;
    while s.get_remain_sample_buffer_len() > 0 {
        s.play_for(&mut out, 0.0);
        callbacks += 1;
        assert!(callbacks <= 1 + enqueued / callback_frames as u64);
    }
    // The cursor advanced by exactly what was enqueued, never past the
    // resampled length of the track.
    assert_eq!(s.get_current_sample_idx(), enqueued);
    assert!(s.get_current_sample_idx() <= s.resampled_sample_frames);
}
