use cirrus_audio::meta::AudioSource;
use cirrus_audio::meta::AudioSourceMetadata;
use cirrus_audio::player::is_transient_status;
use cirrus_audio::player::retry_backoff_ms;
use cirrus_audio::player::AudioPlayerError;
use cirrus_audio::player::AudioPlayerInner;
use cirrus_audio::player::AudioPlayerStatus;
use cirrus_audio::sample::AudioSample;

fn stream(frames: usize) -> AudioSample<f32> {
    let source = AudioSource::new(
        String::from("track"),
        AudioSourceMetadata::new(1411, 1, 2, 0, frames),
    );
    AudioSample::new(source, 2, 2, 2, 4)
}

#[test]
fn new_player_is_stopped_and_empty() {
    let p: AudioPlayerInner<f32> = AudioPlayerInner::new();
    assert_eq!(p.get_status(), AudioPlayerStatus::Stop);
    assert_eq!(p.get_playback_position_frames(), 0);
    assert_eq!(p.get_remain_sample_buffer_len(), 0);
    assert_eq!(p.get_content_length_frames(), 0);
}

#[test]
fn play_on_empty_queue_is_refused() {
    let mut p: AudioPlayerInner<f32> = AudioPlayerInner::new();
    assert_eq!(p.play(true), Err(AudioPlayerError::EmptyQueue));
    assert_eq!(p.get_status(), AudioPlayerStatus::Stop);
    assert_eq!(p.pause(true), Err(AudioPlayerError::EmptyQueue));
    assert_eq!(p.get_status(), AudioPlayerStatus::Stop);
}

#[test]
fn add_play_pause_stop_cycle() {
    let mut p: AudioPlayerInner<f32> = AudioPlayerInner::new();
    let content = p.add_audio(stream(100));
    assert_eq!(content, 200);
    assert_eq!(content as f64 / 2.0, 100.0);
    assert_eq!(p.get_content_length_frames(), 200);

    assert_eq!(p.play(true), Ok(()));
    assert_eq!(p.get_status(), AudioPlayerStatus::Play);
    assert_eq!(p.pause(true), Ok(()));
    assert_eq!(p.get_status(), AudioPlayerStatus::Pause);
    assert_eq!(p.play(true), Ok(()));
    assert_eq!(p.get_status(), AudioPlayerStatus::Play);

    p.remove_audio();
    assert_eq!(p.get_status(), AudioPlayerStatus::Stop);
    assert_eq!(p.get_playback_position_frames(), 0);
    // Stop is idempotent on an empty queue.
    p.remove_audio();
    assert_eq!(p.get_status(), AudioPlayerStatus::Stop);
}

#[test]
fn device_failure_moves_to_error_and_sticks() {
    let mut p: AudioPlayerInner<f32> = AudioPlayerInner::new();
    p.add_audio(stream(100));
    assert_eq!(p.play(false), Err(AudioPlayerError::DeviceFailure));
    assert_eq!(p.get_status(), AudioPlayerStatus::Error);
    // Until `stop` resets the player, further commands are refused.
    assert_eq!(p.play(true), Err(AudioPlayerError::InErrorState));
    assert_eq!(p.get_status(), AudioPlayerStatus::Error);
    assert_eq!(p.pause(true), Err(AudioPlayerError::InErrorState));
    p.remove_audio();
    assert_eq!(p.get_status(), AudioPlayerStatus::Stop);
}

#[test]
fn fatal_fetch_error_is_published() {
    let mut p: AudioPlayerInner<f32> = AudioPlayerInner::new();
    p.add_audio(stream(100));
    assert_eq!(p.play(true), Ok(()));
    p.on_fatal_error();
    assert_eq!(p.get_status(), AudioPlayerStatus::Error);
    assert_eq!(p.play(true), Err(AudioPlayerError::InErrorState));
}

#[test]
fn head_stream_getters_follow_the_head() {
    let mut p: AudioPlayerInner<f32> = AudioPlayerInner::new();
    p.add_audio(stream(100));
    let mut head = p.take_current().expect("one stream is queued");
    let mut out = vec![0.0f32; 4];
    head.play_for(&mut out, 0.0);
    head.set_playback_position(30, 60);
    p.put_current_back(head);
    assert_eq!(p.get_playback_position_frames(), 60);
    assert_eq!(p.get_remain_sample_buffer_len(), 0);
    let pos_sec = p.get_playback_position_frames() as f64 / 2.0;
    assert!((pos_sec - 30.0).abs() < 1e-9);
}

#[test]
fn queued_stream_waits_behind_the_head() {
    let mut p: AudioPlayerInner<f32> = AudioPlayerInner::new();
    p.add_audio(stream(100));
    p.add_audio(stream(50));
    // Getters and operations address the head; the second stream waits.
    assert_eq!(p.get_content_length_frames(), 200);
    // Stopping the head promotes the next stream.
    p.remove_audio();
    assert_eq!(p.get_status(), AudioPlayerStatus::Stop);
    assert_eq!(p.get_content_length_frames(), 100);
}

#[test]
fn take_current_on_empty_queue() {
    let mut p: AudioPlayerInner<f32> = AudioPlayerInner::new();
    assert!(p.take_current().is_none());
}

#[test]
fn retry_backoff_is_exponential_then_gives_up() {
    assert_eq!(retry_backoff_ms(0), Some(100));
    assert_eq!(retry_backoff_ms(1), Some(400));
    assert_eq!(retry_backoff_ms(2), Some(1600));
    assert_eq!(retry_backoff_ms(3), None);
    assert_eq!(retry_backoff_ms(10), None);
}

#[test]
fn transient_statuses_are_the_server_errors() {
    assert!(is_transient_status(500));
    assert!(is_transient_status(503));
    assert!(is_transient_status(599));
    assert!(!is_transient_status(600));
    assert!(!is_transient_status(404));
    assert!(!is_transient_status(200));
}

#[test]
fn status_codes_round_trip() {
    assert_eq!(AudioPlayerStatus::Play.index(), 0);
    assert_eq!(AudioPlayerStatus::Pause.index(), 1);
    assert_eq!(AudioPlayerStatus::Stop.index(), 2);
    assert_eq!(AudioPlayerStatus::Error.index(), 3);
    assert_eq!(AudioPlayerStatus::from_index(0), Some(AudioPlayerStatus::Play));
    assert_eq!(AudioPlayerStatus::from_index(1), Some(AudioPlayerStatus::Pause));
    assert_eq!(AudioPlayerStatus::from_index(2), Some(AudioPlayerStatus::Stop));
    assert_eq!(AudioPlayerStatus::from_index(3), Some(AudioPlayerStatus::Error));
    assert_eq!(AudioPlayerStatus::from_index(4), None);
}

#[test]
fn transient_failure_then_recovery_schedule() {
    // A 503 on the first call is retried after 100 ms; a success on the
    // second call means no further backoff is consulted.
    let first_reply = 503;
    assert!(is_transient_status(first_reply));
    let backoff = retry_backoff_ms(0);
    assert_eq!(backoff, Some(100));
    // The retried call succeeds: within one second of the first attempt.
    assert!(backoff.unwrap() < 1000);
}

#[test]
fn error_messages_name_the_cause() {
    assert_eq!(AudioPlayerError::EmptyQueue.message(), "no audio is loaded");
    assert!(AudioPlayerError::DeviceFailure.message().contains("device"));
    assert!(AudioPlayerError::InErrorState.message().contains("error"));
}
