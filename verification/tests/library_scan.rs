use cirrus_audio::library::AudioFile;
use cirrus_audio::library::AudioFileError;
use cirrus_audio::library::AudioLibrary;
use cirrus_audio::library::DateStamp;
use cirrus_audio::library::Id3Fields;

fn strings(v: &[&str]) -> Vec<String> {
    v.iter().map(|s| String::from(*s)).collect()
}

#[test]
fn read_meta_maps_chunk_fields() {
    let m = AudioFile::read_meta(1411, 2, 44_100, 441_000, 4, 0, 1_764_000);
    assert_eq!(m.bit_rate, 1411);
    assert_eq!(m.channels, 2);
    assert_eq!(m.sample_rate, 44_100);
    assert_eq!(m.sample_frames, 441_000);
    assert_eq!(m.block_size, 4);
    assert_eq!(m.offset, 0);
    assert_eq!(m.size, 1_764_000);
}

#[test]
fn read_data_returns_the_byte_window() {
    let sound: Vec<u8> = (0u8..32).collect();
    let d = AudioFile::read_data(&sound, 1, 3).expect("window in range");
    assert_eq!(d, (4u8..12).collect::<Vec<u8>>());
    let whole = AudioFile::read_data(&sound, 0, 8).expect("whole file");
    assert_eq!(whole, sound);
    let empty = AudioFile::read_data(&sound, 2, 2).expect("empty window");
    assert!(empty.is_empty());
}

#[test]
fn read_data_refuses_windows_past_the_data() {
    let sound: Vec<u8> = (0u8..32).collect();
    assert_eq!(AudioFile::read_data(&sound, 0, 9), Err(AudioFileError::OutOfRange));
    assert_eq!(AudioFile::read_data(&sound, 5, 3), Err(AudioFileError::OutOfRange));
    assert!(AudioFileError::OutOfRange.message().contains("range"));
}

#[test]
fn diff_finds_new_and_deleted_directories() {
    let local = strings(&["a", "b", "c", "b"]);
    let db = strings(&["b", "d"]);
    let (new_dirs, deleted_dirs) = AudioLibrary::diff_libraries(&local, &db);
    assert_eq!(new_dirs, strings(&["a", "c"]));
    assert_eq!(deleted_dirs, strings(&["d"]));
}

#[test]
fn diff_of_equal_sets_is_empty() {
    let local = strings(&["x", "y"]);
    let db = strings(&["y", "x"]);
    let (new_dirs, deleted_dirs) = AudioLibrary::diff_libraries(&local, &db);
    assert!(new_dirs.is_empty());
    assert!(deleted_dirs.is_empty());
}

#[test]
fn unique_parents_deduplicates() {
    let dirs = strings(&["p", "q", "p", "p", "r", "q"]);
    assert_eq!(AudioLibrary::unique_parents(&dirs), strings(&["p", "q", "r"]));
}

#[test]
fn audio_files_are_picked_by_extension() {
    assert!(AudioLibrary::is_audio_file_name(&b"song.aiff".to_vec()));
    assert!(AudioLibrary::is_audio_file_name(&b".aiff".to_vec()));
    assert!(!AudioLibrary::is_audio_file_name(&b"song.aif".to_vec()));
    assert!(!AudioLibrary::is_audio_file_name(&b"song.flac".to_vec()));
    assert!(!AudioLibrary::is_audio_file_name(&b"aiff".to_vec()));
    assert!(!AudioLibrary::is_audio_file_name(&b"".to_vec()));
}

#[test]
fn classify_finds_new_and_updated_files() {
    let local: Vec<(String, i64)> = vec![
        (String::from("one.aiff"), 10),
        (String::from("two.aiff"), 20),
        (String::from("three.aiff"), 30),
    ];
    let db: Vec<(String, i64)> = vec![
        (String::from("one.aiff"), 10),
        (String::from("two.aiff"), 19),
    ];
    let (new_files, updated_files) = AudioLibrary::classify_files(&local, &db);
    assert_eq!(new_files, strings(&["three.aiff"]));
    assert_eq!(updated_files, strings(&["two.aiff"]));
}

#[test]
fn tag_from_id3_fields_copies_them() {
    let fields = Id3Fields {
        artist: Some(String::from("artist")),
        album: Some(String::from("album")),
        album_artist: None,
        genre: Some(String::from("genre")),
        title: Some(String::from("title")),
        date_recorded: Some(DateStamp { year: 2021, month: 3, day: 14, hour: 9, minute: 26, second: 53 }),
        date_released: None,
        disc: Some(1),
        duration: Some(180),
        total_discs: Some(1),
        total_tracks: Some(12),
        track: Some(7),
        year: Some(2021),
        pictures: Vec::new(),
    };
    let tag = AudioLibrary::create_audio_tag(Some(fields), &String::from("file.aiff"));
    assert_eq!(tag.property_hash, None);
    assert_eq!(tag.artist.as_deref(), Some("artist"));
    assert_eq!(tag.title.as_deref(), Some("title"));
    assert_eq!(tag.track, Some(7));
    assert_eq!(tag.date_recorded.map(|d| d.year), Some(2021));
    assert!(tag.date_released.is_none());
}

#[test]
fn tag_without_id3_falls_back_to_the_file_name() {
    let tag = AudioLibrary::create_audio_tag(None, &String::from("untitled.aiff"));
    assert_eq!(tag.title.as_deref(), Some("untitled.aiff"));
    assert!(tag.artist.is_none());
    assert!(tag.pictures.is_empty());
    assert_eq!(tag.property_hash, None);
}
