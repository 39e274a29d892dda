//! Library-side bookkeeping: extracting the reply data for range requests,
//! the metadata reply, the scan/refresh set arithmetic between the directory
//! tree on disk and the stored library, and tag records.
//!
//! File and database access stay outside; these functions take the values
//! those reads produce (paths as strings, parsed chunk fields, raw sound
//! data) and are verified on them.

use vstd::prelude::*;

verus! {

/// Per-track metadata served to the client.
pub struct AudioMeta {
    pub bit_rate: u32,
    pub block_size: u32,
    pub channels: u32,
    pub offset: u32,
    pub sample_frames: u32,
    pub sample_rate: u32,
    pub size: u32,
}

/// Why a data-range request was refused.
#[derive(Copy, Clone, Debug, PartialEq, Eq, Structural)]
pub enum AudioFileError {
    /// The requested window reaches past the stored sound data.
    OutOfRange,
}

impl AudioFileError {
    /// A short description of the error.
    pub fn message(&self) -> &'static str {
        match self {
            AudioFileError::OutOfRange => "requested range reaches past the sound data",
        }
    }
}

/// Serving one stored audio file: its metadata reply and its PCM windows.
pub struct AudioFile {}

impl AudioFile {
    /// The metadata reply for one track, from the fields of its parsed
    /// common and sound chunks.
    pub fn read_meta(
        bit_rate: u32,
        channels: u32,
        sample_rate: u32,
        sample_frames: u32,
        block_size: u32,
        offset: u32,
        size: u32,
    ) -> (r: AudioMeta)
        ensures
            r.bit_rate == bit_rate,
            r.channels == channels,
            r.sample_rate == sample_rate,
            r.sample_frames == sample_frames,
            r.block_size == block_size,
            r.offset == offset,
            r.size == size,
    {
        AudioMeta { bit_rate, block_size, channels, offset, sample_frames, sample_rate, size }
    }

    /// The window of sound data one range request maps to: frames are four
    /// bytes each (two channels of 16-bit samples), so frame window
    /// `[byte_start, byte_end)` is the byte window `[4 * byte_start, 4 * byte_end)`.
    /// A window past the stored data is refused, if and only if it is one.
    pub fn read_data(sound_data: &Vec<u8>, byte_start: usize, byte_end: usize) -> (r: Result<
        Vec<u8>,
        AudioFileError,
    >)
        ensures
            r is Ok <==> (byte_start <= byte_end && 4 * byte_end <= sound_data@.len()),
            r matches Ok(d) ==> d@ == sound_data@.subrange(4 * byte_start, 4 * byte_end),
    {
        if byte_start > byte_end || (byte_end as u128) * 4 > (sound_data.len() as u128) {
            return Err(AudioFileError::OutOfRange);
        }
        let lo = 4 * byte_start;
        let hi = 4 * byte_end;
        let mut out: Vec<u8> = Vec::new();
        let mut i = lo;
        while i < hi
            invariant
                lo <= i <= hi,
                lo == 4 * byte_start,
                hi == 4 * byte_end,
                hi <= sound_data@.len(),
                out@ == sound_data@.subrange(lo as int, i as int),
            decreases hi - i,
        {
            out.push(sound_data[i]);
            proof {
                assert(out@ =~= sound_data@.subrange(lo as int, i + 1));
            }
            i = i + 1;
        }
        Ok(out)
    }
}

/// A date and time of day, as the tag stores it.
#[derive(Copy, Clone, Debug, PartialEq, Eq, Structural)]
pub struct DateStamp {
    pub year: i32,
    pub month: u8,
    pub day: u8,
    pub hour: u8,
    pub minute: u8,
    pub second: u8,
}

/// One attached picture of a tag.
pub struct AudioPicture {
    pub description: String,
    pub mime_type: String,
    pub picture_type: String,
    pub data: Vec<u8>,
}

/// The textual fields a tag carries.
pub struct Id3Fields {
    pub artist: Option<String>,
    pub album: Option<String>,
    pub album_artist: Option<String>,
    pub genre: Option<String>,
    pub title: Option<String>,
    pub date_recorded: Option<DateStamp>,
    pub date_released: Option<DateStamp>,
    pub disc: Option<u32>,
    pub duration: Option<u32>,
    pub total_discs: Option<u32>,
    pub total_tracks: Option<u32>,
    pub track: Option<u32>,
    pub year: Option<i32>,
    pub pictures: Vec<AudioPicture>,
}

/// The tag record stored for one audio file.
pub struct AudioTag {
    /// Content hash over the other fields; filled in by the caller once the
    /// record is complete.
    pub property_hash: Option<i64>,
    pub artist: Option<String>,
    pub album: Option<String>,
    pub album_artist: Option<String>,
    pub genre: Option<String>,
    pub title: Option<String>,
    pub date_recorded: Option<DateStamp>,
    pub date_released: Option<DateStamp>,
    pub disc: Option<u32>,
    pub duration: Option<u32>,
    pub total_discs: Option<u32>,
    pub total_tracks: Option<u32>,
    pub track: Option<u32>,
    pub year: Option<i32>,
    pub pictures: Vec<AudioPicture>,
}

/// Scanning and refreshing the stored library against the directory tree.
pub struct AudioLibrary {}

impl AudioLibrary {
    /// Whether some string of `v` reads `s`.
    pub open spec fn spec_contains(v: Seq<String>, s: Seq<char>) -> bool {
        exists|k: int| 0 <= k < v.len() && v[k]@ == s
    }

    /// Whether some pair of `v` is named `s`.
    pub open spec fn spec_has_name(v: Seq<(String, i64)>, s: Seq<char>) -> bool {
        exists|k: int| 0 <= k < v.len() && v[k].0@ == s
    }

    /// No two strings of `v` read the same.
    pub open spec fn spec_distinct(v: Seq<String>) -> bool {
        forall|i: int, j: int| 0 <= i < j < v.len() ==> v[i]@ != v[j]@
    }

    fn contains_string(v: &Vec<String>, s: &String) -> (r: bool)
        ensures
            r == Self::spec_contains(v@, s@),
    {
        let mut i: usize = 0;
        while i < v.len()
            invariant
                i <= v@.len(),
                forall|k: int| 0 <= k < i ==> v@[k]@ != s@,
            decreases v@.len() - i,
        {
            if v[i].eq(s) {
                proof {
                    assert(v@[i as int]@ == s@);
                }
                return true;
            }
            i = i + 1;
        }
        false
    }

    /// The strings of `src` that `exclude` does not hold, each once: the set
    /// difference of a directory scan and the stored library.
    pub fn filter_not_in(src: &Vec<String>, exclude: &Vec<String>) -> (r: Vec<String>)
        ensures
            forall|s: Seq<char>|
                #[trigger] Self::spec_contains(r@, s) <==> (Self::spec_contains(src@, s)
                    && !Self::spec_contains(exclude@, s)),
            Self::spec_distinct(r@),
    {
        let mut out: Vec<String> = Vec::new();
        let mut i: usize = 0;
        while i < src.len()
            invariant
                i <= src@.len(),
                forall|s: Seq<char>|
                    #[trigger] Self::spec_contains(out@, s) <==> (Self::spec_contains(
                        src@.subrange(0, i as int),
                        s,
                    ) && !Self::spec_contains(exclude@, s)),
                Self::spec_distinct(out@),
            decreases src@.len() - i,
        {
            let ghost pre = out@;
            let x = &src[i];
            if !Self::contains_string(exclude, x) && !Self::contains_string(&out, x) {
                out.push(x.clone());
            }
            proof {
                assert forall|s: Seq<char>|
                    #[trigger] Self::spec_contains(out@, s) <==> (Self::spec_contains(
                        src@.subrange(0, i + 1),
                        s,
                    ) && !Self::spec_contains(exclude@, s)) by {
                    let prefix = src@.subrange(0, i as int);
                    let prefix1 = src@.subrange(0, i + 1);
                    assert(prefix1 =~= prefix.push(src@[i as int]));
                    if Self::spec_contains(prefix1, s) {
                        let k = choose|k: int|
                            0 <= k < prefix1.len() && #[trigger] prefix1[k]@ == s;
                        if k < prefix.len() {
                            assert(prefix[k]@ == s);
                            assert(Self::spec_contains(prefix, s));
                        } else {
                            assert(src@[i as int]@ == s);
                        }
                    }
                    if Self::spec_contains(prefix, s) {
                        let k = choose|k: int| 0 <= k < prefix.len() && #[trigger] prefix[k]@ == s;
                        assert(prefix1[k]@ == s);
                        assert(Self::spec_contains(prefix1, s));
                    }
                    if Self::spec_contains(pre, s) {
                        let k = choose|k: int| 0 <= k < pre.len() && #[trigger] pre[k]@ == s;
                        assert(out@[k]@ == s);
                        assert(Self::spec_contains(out@, s));
                    }
                    if Self::spec_contains(out@, s) && out@ != pre {
                        let k = choose|k: int| 0 <= k < out@.len() && #[trigger] out@[k]@ == s;
                        if k < pre.len() {
                            assert(pre[k]@ == s);
                            assert(Self::spec_contains(pre, s));
                        } else {
                            assert(src@[i as int]@ == s);
                        }
                    }
                    if src@[i as int]@ == s && !Self::spec_contains(exclude@, s) && out@ != pre {
                        assert(out@[out@.len() - 1]@ == s);
                        assert(Self::spec_contains(out@, s));
                    }
                    if src@[i as int]@ == s && !Self::spec_contains(exclude@, s) && out@ == pre {
                        // x was already collected earlier
                        assert(Self::spec_contains(out@, s));
                    }
                    assert(prefix1[i as int]@ == src@[i as int]@);
                }
            }
            i = i + 1;
        }
        proof {
            assert(src@.subrange(0, src@.len() as int) =~= src@);
        }
        out
    }

    /// New and deleted directories between a scan of the local tree and the
    /// stored library: directories only the scan holds, and directories only
    /// the library holds, each once.
    pub fn diff_libraries(local: &Vec<String>, db: &Vec<String>) -> (r: (Vec<String>, Vec<String>))
        ensures
            forall|s: Seq<char>|
                #[trigger] Self::spec_contains(r.0@, s) <==> (Self::spec_contains(local@, s)
                    && !Self::spec_contains(db@, s)),
            forall|s: Seq<char>|
                #[trigger] Self::spec_contains(r.1@, s) <==> (Self::spec_contains(db@, s)
                    && !Self::spec_contains(local@, s)),
            Self::spec_distinct(r.0@),
            Self::spec_distinct(r.1@),
    {
        let new_libraries = Self::filter_not_in(local, db);
        let deleted_libraries = Self::filter_not_in(db, local);
        (new_libraries, deleted_libraries)
    }

    /// The distinct strings of `v`, each once: the set of parent directories
    /// a scan of audio files visits.
    pub fn unique_parents(v: &Vec<String>) -> (r: Vec<String>)
        ensures
            forall|s: Seq<char>|
                #[trigger] Self::spec_contains(r@, s) <==> Self::spec_contains(v@, s),
            Self::spec_distinct(r@),
    {
        let none: Vec<String> = Vec::new();
        let r = Self::filter_not_in(v, &none);
        proof {
            assert forall|s: Seq<char>| !Self::spec_contains(none@, s) by {
                assert(none@.len() == 0);
            }
        }
        r
    }

    /// The file-name suffix that marks a library audio file.
    pub open spec fn spec_is_audio_name(name: Seq<u8>) -> bool {
        name.len() >= 5 && name.skip(name.len() - 5) == seq![46u8, 97u8, 105u8, 102u8, 102u8]
    }

    /// Whether a file name (as bytes) ends in `.aiff`: only such files enter
    /// the library scan.
    pub fn is_audio_file_name(name: &Vec<u8>) -> (r: bool)
        ensures
            r == Self::spec_is_audio_name(name@),
    {
        let n = name.len();
        if n < 5 {
            return false;
        }
        let r = name[n - 5] == 46 && name[n - 4] == 97 && name[n - 3] == 105 && name[n - 2] == 102
            && name[n - 1] == 102;
        proof {
            if r {
                assert(name@.skip(n - 5) =~= seq![46u8, 97u8, 105u8, 102u8, 102u8]);
            } else {
                assert(name@.skip(n - 5)[0] == name@[n - 5]);
                assert(name@.skip(n - 5)[1] == name@[n - 4]);
                assert(name@.skip(n - 5)[2] == name@[n - 3]);
                assert(name@.skip(n - 5)[3] == name@[n - 2]);
                assert(name@.skip(n - 5)[4] == name@[n - 1]);
            }
        }
        r
    }

    /// Some pair of `local` and some pair of `db` are both named `s` with
    /// different timestamps: the file changed since the records were written.
    pub open spec fn spec_mismatch(
        local: Seq<(String, i64)>,
        db: Seq<(String, i64)>,
        s: Seq<char>,
    ) -> bool {
        exists|k: int, m: int|
            0 <= k < local.len() && 0 <= m < db.len() && (#[trigger] local[k]).0@ == s && (
            #[trigger] db[m]).0@ == s && local[k].1 != db[m].1
    }

    fn find_timestamp(db: &Vec<(String, i64)>, name: &String) -> (r: Option<i64>)
        ensures
            r is None <==> !Self::spec_has_name(db@, name@),
            r matches Some(t) ==> exists|m: int|
                0 <= m < db@.len() && (#[trigger] db@[m]).0@ == name@ && db@[m].1 == t,
    {
        let mut i: usize = 0;
        while i < db.len()
            invariant
                i <= db@.len(),
                forall|k: int| 0 <= k < i ==> (#[trigger] db@[k]).0@ != name@,
            decreases db@.len() - i,
        {
            if db[i].0.eq(name) {
                proof {
                    assert(db@[i as int].0@ == name@);
                }
                return Some(db[i].1);
            }
            i = i + 1;
        }
        None
    }

    /// Splits a directory listing against the stored records of the same
    /// directory: names the records do not hold (new files), and names they
    /// hold with another modified timestamp (updated files), each once. The
    /// records are keyed by name, so theirs must be distinct.
    pub fn classify_files(local: &Vec<(String, i64)>, db: &Vec<(String, i64)>) -> (r: (
        Vec<String>,
        Vec<String>,
    ))
        requires
            forall|i: int, j: int|
                0 <= i < j < db@.len() ==> (#[trigger] db@[i]).0@ != (#[trigger] db@[j]).0@,
        ensures
            forall|s: Seq<char>|
                #[trigger] Self::spec_contains(r.0@, s) <==> (Self::spec_has_name(local@, s)
                    && !Self::spec_has_name(db@, s)),
            forall|s: Seq<char>|
                #[trigger] Self::spec_contains(r.1@, s) <==> Self::spec_mismatch(local@, db@, s),
            Self::spec_distinct(r.0@),
            Self::spec_distinct(r.1@),
    {
        let mut new_files: Vec<String> = Vec::new();
        let mut updated_files: Vec<String> = Vec::new();
        let mut i: usize = 0;
        while i < local.len()
            invariant
                i <= local@.len(),
                forall|ii: int, jj: int|
                    0 <= ii < jj < db@.len() ==> (#[trigger] db@[ii]).0@ != (#[trigger] db@[jj]).0@,
                forall|s: Seq<char>|
                    #[trigger] Self::spec_contains(new_files@, s) <==> (Self::spec_has_name(
                        local@.subrange(0, i as int),
                        s,
                    ) && !Self::spec_has_name(db@, s)),
                forall|s: Seq<char>|
                    #[trigger] Self::spec_contains(updated_files@, s) <==> Self::spec_mismatch(
                        local@.subrange(0, i as int),
                        db@,
                        s,
                    ),
                Self::spec_distinct(new_files@),
                Self::spec_distinct(updated_files@),
            decreases local@.len() - i,
        {
            let ghost pre_new = new_files@;
            let ghost pre_upd = updated_files@;
            let name = &local[i].0;
            let ts = local[i].1;
            match Self::find_timestamp(db, name) {
                None => {
                    if !Self::contains_string(&new_files, name) {
                        new_files.push(name.clone());
                    }
                },
                Some(stored_ts) => {
                    if stored_ts != ts && !Self::contains_string(&updated_files, name) {
                        updated_files.push(name.clone());
                    }
                },
            }
            proof {
                let prefix = local@.subrange(0, i as int);
                let prefix1 = local@.subrange(0, i + 1);
                assert(prefix1 =~= prefix.push(local@[i as int]));
                assert(prefix1[i as int] == local@[i as int]);
                assert forall|s: Seq<char>|
                    #[trigger] Self::spec_contains(new_files@, s) <==> (Self::spec_has_name(
                        prefix1,
                        s,
                    ) && !Self::spec_has_name(db@, s)) by {
                    if Self::spec_has_name(prefix1, s) {
                        let k = choose|k: int|
                            0 <= k < prefix1.len() && (#[trigger] prefix1[k]).0@ == s;
                        if k < prefix.len() {
                            assert(prefix[k].0@ == s);
                            assert(Self::spec_has_name(prefix, s));
                        } else {
                            assert(local@[i as int].0@ == s);
                        }
                    }
                    if Self::spec_has_name(prefix, s) {
                        let k = choose|k: int|
                            0 <= k < prefix.len() && (#[trigger] prefix[k]).0@ == s;
                        assert(prefix1[k].0@ == s);
                        assert(Self::spec_has_name(prefix1, s));
                    }
                    if Self::spec_contains(pre_new, s) {
                        let k = choose|k: int| 0 <= k < pre_new.len() && #[trigger] pre_new[k]@
                            == s;
                        assert(new_files@[k]@ == s);
                        assert(Self::spec_contains(new_files@, s));
                    }
                    if Self::spec_contains(new_files@, s) && new_files@ != pre_new {
                        let k = choose|k: int|
                            0 <= k < new_files@.len() && #[trigger] new_files@[k]@ == s;
                        if k < pre_new.len() {
                            assert(pre_new[k]@ == s);
                            assert(Self::spec_contains(pre_new, s));
                        } else {
                            assert(name@ == s);
                        }
                    }
                    if name@ == s && !Self::spec_has_name(db@, s) && new_files@ != pre_new {
                        assert(new_files@[new_files@.len() - 1]@ == s);
                        assert(Self::spec_contains(new_files@, s));
                    }
                    if name@ == s && !Self::spec_has_name(db@, s) && new_files@ == pre_new {
                        assert(Self::spec_contains(new_files@, s));
                    }
                }
                assert forall|s: Seq<char>|
                    #[trigger] Self::spec_contains(updated_files@, s) <==> Self::spec_mismatch(
                        prefix1,
                        db@,
                        s,
                    ) by {
                    if Self::spec_mismatch(prefix1, db@, s) {
                        let (k, m) = choose|k: int, m: int|
                            0 <= k < prefix1.len() && 0 <= m < db@.len() && (
                            #[trigger] prefix1[k]).0@ == s && (#[trigger] db@[m]).0@ == s
                                && prefix1[k].1 != db@[m].1;
                        if k < prefix.len() {
                            assert(prefix[k].0@ == s && prefix[k].1 != db@[m].1);
                            assert(Self::spec_mismatch(prefix, db@, s));
                        } else {
                            assert(local@[i as int].0@ == s && local@[i as int].1 != db@[m].1);
                            assert(Self::spec_has_name(db@, name@));
                        }
                    }
                    if Self::spec_mismatch(prefix, db@, s) {
                        let (k, m) = choose|k: int, m: int|
                            0 <= k < prefix.len() && 0 <= m < db@.len() && (
                            #[trigger] prefix[k]).0@ == s && (#[trigger] db@[m]).0@ == s
                                && prefix[k].1 != db@[m].1;
                        assert(prefix1[k].0@ == s && prefix1[k].1 != db@[m].1);
                        assert(Self::spec_mismatch(prefix1, db@, s));
                    }
                    if Self::spec_contains(pre_upd, s) {
                        let k = choose|k: int| 0 <= k < pre_upd.len() && #[trigger] pre_upd[k]@
                            == s;
                        assert(updated_files@[k]@ == s);
                        assert(Self::spec_contains(updated_files@, s));
                    }
                    if Self::spec_contains(updated_files@, s) && updated_files@ != pre_upd {
                        let k = choose|k: int|
                            0 <= k < updated_files@.len() && #[trigger] updated_files@[k]@ == s;
                        if k < pre_upd.len() {
                            assert(pre_upd[k]@ == s);
                            assert(Self::spec_contains(pre_upd, s));
                        } else {
                            assert(name@ == s);
                        }
                    }
                    if updated_files@ != pre_upd && name@ == s {
                        assert(updated_files@[updated_files@.len() - 1]@ == s);
                        assert(Self::spec_contains(updated_files@, s));
                        let m = choose|m: int|
                            0 <= m < db@.len() && (#[trigger] db@[m]).0@ == name@;
                        assert(prefix1[i as int].0@ == s && prefix1[i as int].1 != db@[m].1);
                        assert(Self::spec_mismatch(prefix1, db@, s));
                    }
                }
            }
            i = i + 1;
        }
        proof {
            assert(local@.subrange(0, local@.len() as int) =~= local@);
        }
        (new_files, updated_files)
    }

    /// The tag record of one audio file: the tag's own fields when the file
    /// carries a tag, else an empty record titled with the file's name.
    pub fn create_audio_tag(fields: Option<Id3Fields>, filename: &String) -> (r: AudioTag)
        ensures
            r.property_hash is None,
            fields matches Some(f) ==> {
                &&& r.artist == f.artist
                &&& r.album == f.album
                &&& r.album_artist == f.album_artist
                &&& r.genre == f.genre
                &&& r.title == f.title
                &&& r.date_recorded == f.date_recorded
                &&& r.date_released == f.date_released
                &&& r.disc == f.disc
                &&& r.duration == f.duration
                &&& r.total_discs == f.total_discs
                &&& r.total_tracks == f.total_tracks
                &&& r.track == f.track
                &&& r.year == f.year
                &&& r.pictures == f.pictures
            },
            fields is None ==> {
                &&& r.title matches Some(t) && t@ == filename@
                &&& r.artist is None
                &&& r.album is None
                &&& r.album_artist is None
                &&& r.genre is None
                &&& r.date_recorded is None
                &&& r.date_released is None
                &&& r.disc is None
                &&& r.duration is None
                &&& r.total_discs is None
                &&& r.total_tracks is None
                &&& r.track is None
                &&& r.year is None
                &&& r.pictures@.len() == 0
            },
    {
        match fields {
            Some(f) => AudioTag {
                property_hash: None,
                artist: f.artist,
                album: f.album,
                album_artist: f.album_artist,
                genre: f.genre,
                title: f.title,
                date_recorded: f.date_recorded,
                date_released: f.date_released,
                disc: f.disc,
                duration: f.duration,
                total_discs: f.total_discs,
                total_tracks: f.total_tracks,
                track: f.track,
                year: f.year,
                pictures: f.pictures,
            },
            None => AudioTag {
                property_hash: None,
                artist: None,
                album: None,
                album_artist: None,
                genre: None,
                title: Some(filename.clone()),
                date_recorded: None,
                date_released: None,
                disc: None,
                duration: None,
                total_discs: None,
                total_tracks: None,
                track: None,
                year: None,
                pictures: Vec::new(),
            },
        }
    }
}

} // verus!
