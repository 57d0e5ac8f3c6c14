//! The import pipeline: given a local or just-downloaded media file that has
//! already been probed, tagged and fingerprinted, deduplicate it against the
//! library, build its track record, lay out its on-device copy, and append
//! it. Re-importing identical content returns the existing id and changes
//! nothing — the heart of idempotent import.

use crate::artwork::{decodable, large_name_seq, make_cover_image, small_name_seq, ArtworkIndex};
use crate::audio::{codec_label, extension_for, filetype_code, AudioInfo, FormattedAudio};
use crate::db::{master_append_rel, Database, Playlist, Track};
use crate::events::{
    count_copies, count_persists, count_removes, count_writes, emits_only, emits_snapshot_at,
    lemma_counts_add, persisted_then_quiet, Action, AppEvent, AppState, PhaseColor,
};
use crate::layout::{
    artwork_file_location_seq, full_track_location_seq, get_artwork_file_location,
    get_full_track_location, get_track_location, track_location_seq,
};
use crate::util::{fingerprint, fingerprint_of};
use vstd::prelude::*;

verus! {

broadcast use
    crate::events::lemma_count_copies_push,
    crate::events::lemma_count_writes_push,
    crate::events::lemma_count_removes_push,
    crate::events::lemma_count_persists_push;

/// Where an item to import came from; the builder's field rules differ
/// slightly by source, as the on-device record conventions ask.
pub enum Source {
    LocalFile,
    SoundCloud,
    YouTube,
}

/// The best-effort tag fields read from a local file; absence of any of
/// them is never fatal.
pub struct TagData {
    pub title: Option<String>,
    pub artist: Option<String>,
    pub album: Option<String>,
    pub genre: Option<String>,
    pub year: Option<u32>,
    pub track_number: Option<u16>,
    pub total_tracks: Option<u16>,
    pub disc_number: Option<u16>,
    pub total_discs: Option<u16>,
    pub lyrics_count: u32,
}

/// One file ready for import: its probe result, tags or remote descriptor
/// fields, content fingerprint, size, source path, and optional cover art.
pub struct ImportItem {
    pub source: Source,
    pub src_path: String,
    pub fallback_title: String,
    pub remote_title: Option<String>,
    pub remote_artist: String,
    pub remote_genre: Option<String>,
    pub audio: Option<AudioInfo>,
    pub fingerprint: u64,
    pub size: u32,
    pub tags: TagData,
    pub cover: Option<Vec<u8>>,
}

impl ImportItem {
    /// The item can be imported: the probe succeeded and parsed, and a
    /// cloud track arrived with a resolved title. A failed probe aborts
    /// this one item, never the batch.
    pub open spec fn importable(self) -> bool {
        &&& self.audio is Some
        &&& self.audio->0.nice_ok()
        &&& self.source is SoundCloud ==> self.remote_title is Some
    }

    /// The title the record gets: the tag or descriptor title, with the
    /// file name as the local fallback.
    pub open spec fn title_of(self) -> Seq<char> {
        match self.source {
            Source::LocalFile => if self.tags.title is Some {
                self.tags.title->0@
            } else {
                self.fallback_title@
            },
            _ => if self.remote_title is Some {
                self.remote_title->0@
            } else {
                self.fallback_title@
            },
        }
    }

    /// The artist field, empty when nothing is known.
    pub open spec fn artist_of(self) -> Seq<char> {
        match self.source {
            Source::LocalFile => if self.tags.artist is Some {
                self.tags.artist->0@
            } else {
                Seq::empty()
            },
            _ => self.remote_artist@,
        }
    }

    /// The album field; only local tags carry one.
    pub open spec fn album_of(self) -> Seq<char> {
        match self.source {
            Source::LocalFile => if self.tags.album is Some {
                self.tags.album->0@
            } else {
                Seq::empty()
            },
            _ => Seq::empty(),
        }
    }

    /// The genre field.
    pub open spec fn genre_of(self) -> Seq<char> {
        match self.source {
            Source::LocalFile => if self.tags.genre is Some {
                self.tags.genre->0@
            } else {
                Seq::empty()
            },
            Source::SoundCloud => if self.remote_genre is Some {
                self.remote_genre->0@
            } else {
                Seq::empty()
            },
            Source::YouTube => Seq::empty(),
        }
    }

    /// The storage extension: the probed one for local files, `mp3` for
    /// downloads (the downloader is told to extract mp3 audio).
    pub open spec fn ext_of(self) -> Seq<char> {
        match self.source {
            Source::LocalFile => extension_for(self.audio->0.codec_of()),
            _ => "mp3"@,
        }
    }

    /// The artwork step runs when cover bytes came with the item, they
    /// decode as an image, and their size fits the record's 32-bit field.
    pub open spec fn art_applies(self) -> bool {
        &&& self.cover is Some
        &&& decodable(self.cover->0@)
        &&& self.cover->0@.len() <= u32::MAX
    }
}

/// The record's length field: the probed duration in milliseconds,
/// saturated to 32 bits.
pub open spec fn length_field(f: FormattedAudio) -> u32 {
    if f.duration_ms > u32::MAX {
        u32::MAX
    } else {
        f.duration_ms as u32
    }
}

/// The record's bitrate field: kilobits per second, truncated to 32 bits.
pub open spec fn bitrate_field(f: FormattedAudio) -> u32 {
    (f.bit_rate / 1000) as u32
}

/// The record's sample-rate field: the rate itself for cloud tracks, the
/// rate in 16.16 fixed point (low 32 bits) for local and video imports.
pub open spec fn sample_rate_field(src: Source, f: FormattedAudio) -> u32 {
    match src {
        Source::SoundCloud => f.sample_rate as u32,
        _ => (((f.sample_rate as u32) as u64) * 0x10000) as u32,
    }
}

/// The new record built for an item, before location and artwork are
/// stamped on.
pub open spec fn built_track_ok(t: Track, item: ImportItem, id: u32, f: FormattedAudio) -> bool {
    &&& t.unique_id == id
    &&& t.dbid == item.fingerprint
    &&& t.size == item.size
    &&& t.length == length_field(f)
    &&& t.bitrate == bitrate_field(f)
    &&& t.sample_rate == sample_rate_field(item.source, f)
    &&& t.year == (match item.source {
        Source::LocalFile => if item.tags.year is Some {
            item.tags.year->0
        } else {
            0
        },
        _ => 0,
    })
    &&& t.title@ == item.title_of()
    &&& t.artist@ == item.artist_of()
    &&& t.album@ == item.album_of()
    &&& t.genre@ == item.genre_of()
    &&& t.filetype == filetype_code(item.audio->0.codec_of())
    &&& t.codec@ == codec_label(item.audio->0.codec_of())
    &&& t.track_number == (match item.source {
        Source::LocalFile => if item.tags.track_number is Some {
            item.tags.track_number->0 as u32
        } else {
            0
        },
        _ => 0,
    })
    &&& t.total_tracks == (match item.source {
        Source::LocalFile => if item.tags.total_tracks is Some {
            item.tags.total_tracks->0 as u32
        } else {
            0
        },
        _ => 0,
    })
    &&& t.disc_number == (match item.source {
        Source::LocalFile => if item.tags.disc_number is Some {
            item.tags.disc_number->0 as u32
        } else {
            0
        },
        _ => 0,
    })
    &&& t.total_discs == (match item.source {
        Source::LocalFile => if item.tags.total_discs is Some {
            item.tags.total_discs->0 as u32
        } else {
            0
        },
        _ => 0,
    })
    &&& t.lyrics_flag == (match item.source {
        Source::LocalFile => if item.tags.lyrics_count > 0 {
            1u8
        } else {
            0u8
        },
        _ => 0,
    })
    &&& t.gapless_album_flag == (match item.source {
        Source::LocalFile => 1u8,
        _ => 0u8,
    })
    &&& t.gapless_track_flag == 0
    &&& t.stars == 0
    &&& t.play_count == 0
    &&& t.skip_count == 0
    &&& t.bpm == 0
    &&& t.media_type == 0
    &&& t.last_modified_time == 0
}

/// Build the track record for an importable item under a fresh id. The
/// location and artwork fields are stamped by the caller.
fn build_track(item: &ImportItem, id: u32, f: &FormattedAudio) -> (t: Track)
    requires
        item.importable(),
    ensures
        built_track_ok(t, *item, id, *f),
        t.has_artwork == 0,
        t.artwork_size == 0,
        t.artwork_count == 0,
        t.location@ == Seq::<char>::empty(),
{
    let audio = match &item.audio {
        Some(a) => a,
        None => {
            proof {
                assert(false);
            }
            unreached()
        },
    };
    let length: u32 = if f.duration_ms > 0xFFFF_FFFFu64 {
        u32::MAX
    } else {
        #[verifier::truncate] (f.duration_ms as u32)
    };
    let bitrate: u32 = #[verifier::truncate] ((f.bit_rate / 1000) as u32);
    let sample_rate: u32 = match item.source {
        Source::SoundCloud => #[verifier::truncate] (f.sample_rate as u32),
        _ => {
            let low: u32 = #[verifier::truncate] (f.sample_rate as u32);
            #[verifier::truncate] (((low as u64) * 0x10000) as u32)
        },
    };
    let title: String = match item.source {
        Source::LocalFile => match &item.tags.title {
            Some(t) => t.clone(),
            None => item.fallback_title.clone(),
        },
        _ => match &item.remote_title {
            Some(t) => t.clone(),
            None => item.fallback_title.clone(),
        },
    };
    let artist: String = match item.source {
        Source::LocalFile => match &item.tags.artist {
            Some(a) => a.clone(),
            None => String::new(),
        },
        _ => item.remote_artist.clone(),
    };
    let album: String = match item.source {
        Source::LocalFile => match &item.tags.album {
            Some(a) => a.clone(),
            None => String::new(),
        },
        _ => String::new(),
    };
    let genre: String = match item.source {
        Source::LocalFile => match &item.tags.genre {
            Some(g) => g.clone(),
            None => String::new(),
        },
        Source::SoundCloud => match &item.remote_genre {
            Some(g) => g.clone(),
            None => String::new(),
        },
        Source::YouTube => String::new(),
    };
    let year: u32 = match item.source {
        Source::LocalFile => match item.tags.year {
            Some(y) => y,
            None => 0,
        },
        _ => 0,
    };
    let track_number: u32 = match item.source {
        Source::LocalFile => match item.tags.track_number {
            Some(v) => v as u32,
            None => 0,
        },
        _ => 0,
    };
    let total_tracks: u32 = match item.source {
        Source::LocalFile => match item.tags.total_tracks {
            Some(v) => v as u32,
            None => 0,
        },
        _ => 0,
    };
    let disc_number: u32 = match item.source {
        Source::LocalFile => match item.tags.disc_number {
            Some(v) => v as u32,
            None => 0,
        },
        _ => 0,
    };
    let total_discs: u32 = match item.source {
        Source::LocalFile => match item.tags.total_discs {
            Some(v) => v as u32,
            None => 0,
        },
        _ => 0,
    };
    let lyrics_flag: u8 = match item.source {
        Source::LocalFile => if item.tags.lyrics_count > 0 {
            1
        } else {
            0
        },
        _ => 0,
    };
    let gapless_album_flag: u8 = match item.source {
        Source::LocalFile => 1,
        _ => 0,
    };
    let mut t = Track {
        unique_id: id,
        dbid: item.fingerprint,
        filetype: 0,
        stars: 0,
        last_modified_time: 0,
        size: item.size,
        length,
        year,
        bitrate,
        sample_rate,
        play_count: 0,
        bpm: 0,
        skip_count: 0,
        has_artwork: 0,
        artwork_size: 0,
        artwork_count: 0,
        media_type: 0,
        track_number,
        total_tracks,
        disc_number,
        total_discs,
        lyrics_flag,
        gapless_album_flag,
        gapless_track_flag: 0,
        title,
        location: String::new(),
        album,
        artist,
        genre,
        codec: String::new(),
    };
    audio.modify_xtrack(&mut t);
    t
}

/// Decode and embed one cover: hash it, consult the artwork index, write
/// the two thumbnails only when this image hash was never encoded before,
/// and stamp the owning record's artwork fields. An undecodable cover is
/// no error: the track is imported without artwork.
pub fn make_img(adb: &mut ArtworkIndex, cover: &Vec<u8>, root: &str, track: &mut Track) -> (acts:
    Vec<Action>)
    requires
        old(adb).wf(),
        old(adb).next_image_id < u32::MAX,
        cover@.len() <= u32::MAX,
    ensures
        final(adb).wf(),
        final(adb).next_image_id <= old(adb).next_image_id + 1,
        count_removes(acts@) == 0,
        count_persists(acts@) == 0,
        count_copies(acts@) == 0,
        decodable(cover@) ==> exists|p: int|
            0 <= p < acts@.len() && (#[trigger] acts@[p]) is PersistArtworkDb,
        !decodable(cover@) ==> {
            &&& *final(adb) == *old(adb)
            &&& *final(track) == *old(track)
            &&& acts@.len() == 0
        },
        decodable(cover@) ==> {
            &&& *final(track) == (Track {
                artwork_size: cover@.len() as u32,
                has_artwork: 1,
                artwork_count: 1,
                ..*old(track)
            })
            &&& final(adb).has_hash(fingerprint_of(cover@))
        },
        decodable(cover@) && old(adb).has_hash(fingerprint_of(cover@)) ==> {
            &&& *final(adb) == *old(adb)
            &&& count_writes(acts@) == 0
            &&& count_copies(acts@) == 0
            &&& acts@.len() == 3
        },
        decodable(cover@) && !old(adb).has_hash(fingerprint_of(cover@)) ==> {
            &&& count_writes(acts@) == 2
            &&& count_copies(acts@) == 0
            &&& acts@.len() == 6
            &&& (acts@[1] matches Action::WriteImage { path, image } && path@
                == artwork_file_location_seq(root@, small_name_seq(old(adb).next_image_id))
                && image.pixels@.len() == 10000)
            &&& (acts@[3] matches Action::WriteImage { path, image } && path@
                == artwork_file_location_seq(root@, large_name_seq(old(adb).next_image_id))
                && image.pixels@.len() == 40000)
            &&& final(adb).entries@.len() == old(adb).entries@.len() + 1
            &&& final(adb).entries@.last().hash == fingerprint_of(cover@)
        },
{
    let small_img = match make_cover_image(cover, 100, 100) {
        Some(img) => img,
        None => {
            return Vec::new();
        },
    };
    let large_img = match make_cover_image(cover, 200, 200) {
        Some(img) => img,
        None => {
            proof {
                assert(false);
            }
            unreached()
        },
    };
    let cover_hash = fingerprint(cover);
    let present = adb.if_cover_present(cover_hash);
    let names = adb.add_images(cover_hash);
    let mut acts: Vec<Action> = Vec::new();
    acts.push(Action::Emit(AppEvent::ArtworkProgress(0, 2)));
    if !present {
        acts.push(
            Action::WriteImage {
                path: get_artwork_file_location(root, names.0.as_str()),
                image: small_img,
            },
        );
        acts.push(Action::Emit(AppEvent::ArtworkProgress(1, 2)));
        acts.push(
            Action::WriteImage {
                path: get_artwork_file_location(root, names.1.as_str()),
                image: large_img,
            },
        );
    }
    acts.push(Action::PersistArtworkDb);
    acts.push(Action::Emit(AppEvent::ArtworkProgress(2, 2)));
    proof {
        assert(acts@[acts@.len() - 2] is PersistArtworkDb);
    }
    track.artwork_size = cover.len() as u32;
    track.has_artwork = 1;
    track.artwork_count = 1;
    acts
}

/// Import one prepared file. A failed probe skips the item; content already
/// in the library (by fingerprint) is not imported again — the existing id
/// comes back, nothing is copied, nothing is persisted; new content is
/// recorded, laid out under its bucket, copied, and the database persisted
/// before the snapshot is announced.
#[verifier::rlimit(60)]
pub fn import_one(db: &mut Database, adb: &mut ArtworkIndex, item: &ImportItem, root: &str) -> (r:
    (Option<u32>, Vec<Action>))
    requires
        old(db).wf(),
        old(adb).wf(),
        old(db).next_id < u32::MAX,
        old(adb).next_image_id < u32::MAX,
    ensures
        final(db).wf(),
        final(adb).wf(),
        old(db).next_id <= final(db).next_id <= old(db).next_id + 1,
        final(adb).next_image_id <= old(adb).next_image_id + 1,
        final(db).tracks@.len() >= old(db).tracks@.len(),
        !item.importable() ==> {
            &&& r.0 is None
            &&& *final(db) == *old(db)
            &&& *final(adb) == *old(adb)
            &&& r.1@.len() == 0
        },
        count_removes(r.1@) == 0,
        item.importable() && old(db).has_dbid(item.fingerprint) ==> count_persists(r.1@) == 0,
        item.importable() && !old(db).has_dbid(item.fingerprint) ==> count_persists(r.1@) == 1,
        item.importable() && !old(db).has_dbid(item.fingerprint) && item.art_applies()
            ==> exists|p: int| 0 <= p < r.1@.len() && (#[trigger] r.1@[p]) is PersistArtworkDb,
        item.importable() && old(db).has_dbid(item.fingerprint) ==> {
            &&& *final(db) == *old(db)
            &&& *final(adb) == *old(adb)
            &&& r.0 is Some
            &&& r.0->0 == old(db).tracks@[old(db).index_of_dbid(item.fingerprint)].unique_id
            &&& emits_only(r.1@)
            &&& count_copies(r.1@) == 0
            &&& count_writes(r.1@) == 0
            &&& r.1@.len() == 1
            &&& emits_snapshot_at(r.1@, 0, *final(db))
        },
        item.importable() && !old(db).has_dbid(item.fingerprint) ==> {
            &&& r.0 == Some(old(db).next_id)
            &&& final(db).next_id == old(db).next_id + 1
            &&& final(db).tracks@.len() == old(db).tracks@.len() + 1
            &&& forall|k: int|
                0 <= k < old(db).tracks@.len() ==> final(db).tracks@[k] == old(db).tracks@[k]
            &&& master_append_rel(old(db).playlists@, final(db).playlists@, old(db).next_id)
        },
        item.importable() && !old(db).has_dbid(item.fingerprint) ==> {
            &&& built_track_ok(
                final(db).tracks@.last(),
                *item,
                old(db).next_id,
                item.audio->0.nice_spec(),
            )
            &&& final(db).tracks@.last().location@ == track_location_seq(
                old(db).next_id,
                item.ext_of(),
            )
        },
        item.importable() && !old(db).has_dbid(item.fingerprint) && item.art_applies() ==> {
            &&& final(db).tracks@.last().has_artwork == 1
            &&& final(db).tracks@.last().artwork_count == 1
            &&& final(db).tracks@.last().artwork_size == item.cover->0@.len() as u32
            &&& final(adb).has_hash(fingerprint_of(item.cover->0@))
        },
        item.importable() && !old(db).has_dbid(item.fingerprint) && !item.art_applies() ==> {
            &&& final(db).tracks@.last().has_artwork == 0
            &&& final(db).tracks@.last().artwork_size == 0
            &&& *final(adb) == *old(adb)
        },
        item.importable() && !old(db).has_dbid(item.fingerprint) ==> count_copies(r.1@) == 1,
        item.importable() && !old(db).has_dbid(item.fingerprint) ==> r.1@.len() >= 3 && (
        r.1@[r.1@.len() - 3] matches Action::CopyFile {
            src,
            dest,
        } && src@ == item.src_path@ && dest@ == full_track_location_seq(
            root@,
            old(db).next_id,
            item.ext_of(),
        )),
        item.importable() && !old(db).has_dbid(item.fingerprint) ==> persisted_then_quiet(r.1@),
        item.importable() && !old(db).has_dbid(item.fingerprint) ==> emits_snapshot_at(
            r.1@,
            r.1@.len() - 1,
            *final(db),
        ),
        item.importable() && !old(db).has_dbid(item.fingerprint) && item.art_applies() && old(adb).has_hash(fingerprint_of(item.cover->0@)) ==> count_writes(r.1@) == 0,
        item.importable() && !old(db).has_dbid(item.fingerprint) && item.art_applies() && !old(adb).has_hash(fingerprint_of(item.cover->0@)) ==> count_writes(r.1@) == 2,
        item.importable() && !old(db).has_dbid(item.fingerprint) && !item.art_applies()
            ==> count_writes(r.1@) == 0,
{
    let audio = match &item.audio {
        Some(a) => a,
        None => {
            return (None, Vec::new());
        },
    };
    let f = match audio.get_nice_object() {
        Some(f) => f,
        None => {
            return (None, Vec::new());
        },
    };
    if matches!(item.source, Source::SoundCloud) && matches!(&item.remote_title, None) {
        return (None, Vec::new());
    }
    if db.if_track_in_library(item.fingerprint) {
        let id = match db.get_unique_id_by_dbid(item.fingerprint) {
            Some(id) => id,
            None => {
                proof {
                    assert(false);
                }
                unreached()
            },
        };
        proof {
            let w = choose|i: int|
                0 <= i < db.tracks@.len() && (#[trigger] db.tracks@[i]).dbid == item.fingerprint
                    && db.tracks@[i].unique_id == id;
            let c = db.index_of_dbid(item.fingerprint);
            assert(db.tracks@[c].dbid == item.fingerprint);
            assert(w == c);
        }
        let snap = db.get_playlists();
        let mut acts: Vec<Action> = Vec::new();
        acts.push(Action::Emit(AppEvent::ITunesParsed(snap)));
        proof {
            assert(emits_snapshot_at(acts@, 0, *db));
        }
        return (Some(id), acts);
    }
    let id = db.get_unique_id();
    let mut t = build_track(item, id, &f);
    let mut acts: Vec<Action> = Vec::new();
    match &item.cover {
        Some(cover) => {
            if cover.len() <= (u32::MAX as usize) {
                acts = make_img(adb, cover, root, &mut t);
            }
        },
        None => {
        },
    }
    proof {
        if item.art_applies() {
            let p = choose|p: int|
                0 <= p < acts@.len() && (#[trigger] acts@[p]) is PersistArtworkDb;
        }
    }
    let ghost art_acts = acts@;
    let ext = match item.source {
        Source::LocalFile => audio.get_audio_extension(),
        _ => "mp3",
    };
    t.location = get_track_location(id, ext);
    let dest = get_full_track_location(root, id, ext);
    acts.push(Action::CopyFile { src: item.src_path.clone(), dest });
    let ghost copy_at = acts@.len() - 1;
    db.add_track(t);
    acts.push(Action::PersistDatabase);
    let ghost persist_at = acts@.len() - 1;
    let snap = db.get_playlists();
    acts.push(Action::Emit(AppEvent::ITunesParsed(snap)));
    proof {
        assert(acts@[copy_at] matches Action::CopyFile { src, dest } && src@ == item.src_path@
            && dest@ == full_track_location_seq(root@, old(db).next_id, item.ext_of()));
        assert(copy_at == acts@.len() - 3);
        if item.art_applies() {
            let p = choose|p: int|
                0 <= p < art_acts.len() && (#[trigger] art_acts[p]) is PersistArtworkDb;
            assert(acts@[p] is PersistArtworkDb);
        }
        assert(acts@[persist_at] is PersistDatabase && (forall|j: int|
            persist_at < j < acts@.len() ==> (#[trigger] acts@[j]) is Emit));
        assert(emits_snapshot_at(acts@, acts@.len() - 1, *db));
    }
    (Some(id), acts)
}

/// Move every action of `src` onto the end of `dst`, in order.
pub fn push_all_actions(dst: &mut Vec<Action>, src: Vec<Action>)
    ensures
        final(dst)@ == old(dst)@ + src@,
{
    let ghost orig = src@;
    let ghost base = dst@;
    let mut src = src;
    while src.len() > 0
        invariant
            orig.len() >= src@.len(),
            src@ == orig.subrange(orig.len() - src@.len(), orig.len() as int),
            dst@ =~= base + orig.subrange(0, orig.len() - src@.len()),
        decreases src@.len(),
    {
        let x = src.remove(0);
        proof {
            let k = orig.len() - src@.len() - 1;
            assert(x == orig[k]);
        }
        dst.push(x);
        proof {
            assert(src@ =~= orig.subrange(orig.len() - src@.len(), orig.len() as int));
            assert(dst@ =~= base + orig.subrange(0, orig.len() - src@.len()));
        }
    }
    proof {
        assert(orig.subrange(0, orig.len() as int) =~= orig);
        assert(dst@ =~= base + orig);
    }
}

/// How many of the items can be imported.
pub open spec fn count_importable(items: Seq<ImportItem>) -> int
    decreases items.len(),
{
    if items.len() == 0 {
        0
    } else {
        count_importable(items.drop_last()) + (if items.last().importable() {
            1int
        } else {
            0int
        })
    }
}

/// The fingerprints of the importable items, in batch order.
pub open spec fn importable_fps(items: Seq<ImportItem>) -> Seq<u64>
    decreases items.len(),
{
    if items.len() == 0 {
        Seq::empty()
    } else if items.last().importable() {
        importable_fps(items.drop_last()).push(items.last().fingerprint)
    } else {
        importable_fps(items.drop_last())
    }
}

/// The fingerprints a library holds.
pub open spec fn db_fps(db: Database) -> Set<u64> {
    Set::new(|f: u64| db.has_dbid(f))
}

/// The fingerprint set after importing a batch into a library that held
/// `fps`: each importable item's fingerprint joins the set.
pub open spec fn fps_after(items: Seq<ImportItem>, fps: Set<u64>) -> Set<u64>
    decreases items.len(),
{
    if items.len() == 0 {
        fps
    } else {
        let p = fps_after(items.drop_last(), fps);
        if items.last().importable() {
            p.insert(items.last().fingerprint)
        } else {
            p
        }
    }
}

/// How many new track records a batch appends to a library that held `fps`:
/// one per importable item whose fingerprint is not yet present when its
/// turn comes (duplicates within the batch are deduplicated too).
pub open spec fn new_count(items: Seq<ImportItem>, fps: Set<u64>) -> int
    decreases items.len(),
{
    if items.len() == 0 {
        0
    } else {
        new_count(items.drop_last(), fps) + (if items.last().importable() && !fps_after(
            items.drop_last(),
            fps,
        ).contains(items.last().fingerprint) {
            1int
        } else {
            0int
        })
    }
}

/// A batch never appends a negative number of records.
pub proof fn lemma_new_count_nonneg(items: Seq<ImportItem>, fps: Set<u64>)
    ensures
        new_count(items, fps) >= 0,
    decreases items.len(),
{
    if items.len() > 0 {
        lemma_new_count_nonneg(items.drop_last(), fps);
    }
}

/// There are as many importable fingerprints as importable items.
pub proof fn lemma_importable_fps_len(items: Seq<ImportItem>)
    ensures
        importable_fps(items).len() == count_importable(items),
    decreases items.len(),
{
    if items.len() > 0 {
        lemma_importable_fps_len(items.drop_last());
    }
}

/// A prefix-preserving extension keeps every action already in the list.
pub proof fn lemma_prefix_keeps_members(pre: Seq<Action>, post: Seq<Action>)
    requires
        pre.len() <= post.len(),
        forall|k: int| 0 <= k < pre.len() ==> post[k] == pre[k],
    ensures
        forall|x: Action| pre.contains(x) ==> post.contains(x),
{
    assert forall|x: Action| pre.contains(x) implies post.contains(x) by {
        let k = choose|k: int| 0 <= k < pre.len() && pre[k] == x;
        assert(post[k] == x);
    }
}

/// Import a batch of prepared files, announcing overall progress before each
/// one. Items that fail probing are skipped; the batch continues. Exactly
/// one record is appended per importable item whose fingerprint was not yet
/// present when its turn came; nothing else changes: no record or playlist
/// is removed or created, no file is deleted, and each new record's import
/// persisted the database.
pub fn import_files(db: &mut Database, adb: &mut ArtworkIndex, items: Vec<ImportItem>, root: &str)
    -> (acts: Vec<Action>)
    requires
        old(db).wf(),
        old(adb).wf(),
        old(db).next_id + items@.len() <= u32::MAX,
        old(adb).next_image_id + items@.len() <= u32::MAX,
    ensures
        final(db).wf(),
        final(adb).wf(),
        forall|k: int|
            0 <= k < items@.len() && (#[trigger] items@[k]).importable() ==> final(db).has_dbid(
                items@[k].fingerprint,
            ),
        final(db).tracks@.len() == old(db).tracks@.len() + new_count(items@, db_fps(*old(db))),
        forall|k: int|
            0 <= k < old(db).tracks@.len() ==> final(db).tracks@[k] == old(db).tracks@[k],
        db_fps(*final(db)) == fps_after(items@, db_fps(*old(db))),
        final(db).playlists@.len() == old(db).playlists@.len(),
        forall|k: int|
            0 <= k < old(db).playlists@.len() ==> {
                &&& (#[trigger] final(db).playlists@[k]).persistent_playlist_id == old(db).playlists@[k].persistent_playlist_id
                &&& final(db).playlists@[k].title == old(db).playlists@[k].title
                &&& final(db).playlists@[k].timestamp == old(db).playlists@[k].timestamp
                &&& final(db).playlists@[k].is_master == old(db).playlists@[k].is_master
            },
        count_removes(acts@) == 0,
        count_persists(acts@) == new_count(items@, db_fps(*old(db))),
        final(db).tracks@.len() > old(db).tracks@.len() ==> persisted_then_quiet(acts@),
        forall|j: int|
            0 <= j < items@.len() ==> #[trigger] acts@.contains(
                Action::Emit(
                    AppEvent::OverallProgress(
                        j as u32,
                        items@.len() as u32,
                        PhaseColor::Green,
                    ),
                ),
            ),
{
    let ghost fps0 = db_fps(*old(db));
    let mut acts: Vec<Action> = Vec::new();
    acts.push(Action::Emit(AppEvent::SwitchScreen(AppState::LoadingScreen)));
    let total = items.len() as u32;
    let mut i: usize = 0;
    let mut items = items;
    let ghost all = items@;
    while i < items.len()
        invariant
            items@ == all,
            i <= all.len(),
            db.wf(),
            adb.wf(),
            db.next_id + (all.len() - i) <= u32::MAX,
            adb.next_image_id + (all.len() - i) <= u32::MAX,
            forall|k: int|
                0 <= k < i && (#[trigger] all[k]).importable() ==> db.has_dbid(
                    all[k].fingerprint,
                ),
            db.tracks@.len() == old(db).tracks@.len() + new_count(all.subrange(0, i as int), fps0),
            forall|k: int|
                0 <= k < old(db).tracks@.len() ==> db.tracks@[k] == old(db).tracks@[k],
            db_fps(*db) == fps_after(all.subrange(0, i as int), fps0),
            db.playlists@.len() == old(db).playlists@.len(),
            forall|k: int|
                0 <= k < old(db).playlists@.len() ==> {
                    &&& (#[trigger] db.playlists@[k]).persistent_playlist_id == old(db).playlists@[k].persistent_playlist_id
                    &&& db.playlists@[k].title == old(db).playlists@[k].title
                    &&& db.playlists@[k].timestamp == old(db).playlists@[k].timestamp
                    &&& db.playlists@[k].is_master == old(db).playlists@[k].is_master
                },
            count_removes(acts@) == 0,
            count_persists(acts@) == new_count(all.subrange(0, i as int), fps0),
            db.tracks@.len() > old(db).tracks@.len() ==> persisted_then_quiet(acts@),
            forall|j: int|
                0 <= j < i ==> #[trigger] acts@.contains(
                    Action::Emit(AppEvent::OverallProgress(j as u32, total, PhaseColor::Green)),
                ),
        decreases all.len() - i,
    {
        let ghost pre_emit = acts@;
        acts.push(Action::Emit(AppEvent::OverallProgress(i as u32, total, PhaseColor::Green)));
        proof {
            lemma_prefix_keeps_members(pre_emit, acts@);
            assert(acts@[pre_emit.len() as int] == Action::Emit(
                AppEvent::OverallProgress(i as u32, total, PhaseColor::Green),
            ));
            assert(acts@.contains(
                Action::Emit(AppEvent::OverallProgress(i as u32, total, PhaseColor::Green)),
            ));
            if db.tracks@.len() > old(db).tracks@.len() {
                assert(acts@ =~= pre_emit + seq![acts@.last()]);
                crate::events::lemma_quiet_append_emits(pre_emit, seq![acts@.last()]);
            }
        }
        let ghost db_before = *db;
        let item = &items[i];
        let r = import_one(db, adb, item, root);
        proof {
            batch_step_facts(db_before, *db, all, i as int, fps0, *old(db));
        }
        let ghost quiet_before = acts@;
        push_all_actions(&mut acts, r.1);
        proof {
            lemma_counts_add(quiet_before, r.1@);
            lemma_prefix_keeps_members(quiet_before, acts@);
            if !all[i as int].importable() {
                assert(count_persists(r.1@) == 0);
            }
            if db.tracks@.len() > db_before.tracks@.len() {
                assert(all[i as int].importable());
                assert(!db_before.has_dbid(all[i as int].fingerprint));
                crate::events::lemma_quiet_append_right(quiet_before, r.1@);
            } else if db_before.tracks@.len() > old(db).tracks@.len() {
                assert(emits_only(r.1@));
                crate::events::lemma_quiet_append_emits(quiet_before, r.1@);
            }
        }
        i = i + 1;
    }
    proof {
        assert(all.subrange(0, all.len() as int) =~= all);
    }
    let ghost pre_final = acts@;
    acts.push(Action::Emit(AppEvent::SwitchScreen(AppState::FileSystem)));
    proof {
        lemma_prefix_keeps_members(pre_final, acts@);
        if db.tracks@.len() > old(db).tracks@.len() {
            assert(acts@ =~= pre_final + seq![acts@.last()]);
            crate::events::lemma_quiet_append_emits(pre_final, seq![acts@.last()]);
        }
    }
    acts
}

/// The facts one import step establishes for a batch: fingerprint
/// accumulation, the exact record growth, the fingerprint-set evolution,
/// prefix preservation, and the playlist frame.
proof fn batch_step_facts(
    before: Database,
    after: Database,
    all: Seq<ImportItem>,
    i: int,
    fps0: Set<u64>,
    base: Database,
)
    requires
        0 <= i < all.len(),
        before.wf(),
        after.wf(),
        // what import_one ensures, restated over the two states
        !all[i].importable() ==> after == before,
        all[i].importable() && before.has_dbid(all[i].fingerprint) ==> after == before,
        all[i].importable() && !before.has_dbid(all[i].fingerprint) ==> {
            &&& after.tracks@.len() == before.tracks@.len() + 1
            &&& (forall|k: int| 0 <= k < before.tracks@.len() ==> after.tracks@[k] == before.tracks@[k])
            &&& after.tracks@.last().dbid == all[i].fingerprint
            &&& master_append_rel(before.playlists@, after.playlists@, before.next_id)
        },
        // the running invariants
        forall|k: int|
            0 <= k < i && (#[trigger] all[k]).importable() ==> before.has_dbid(
                all[k].fingerprint,
            ),
        before.tracks@.len() == base.tracks@.len() + new_count(all.subrange(0, i), fps0),
        forall|k: int| 0 <= k < base.tracks@.len() ==> before.tracks@[k] == base.tracks@[k],
        db_fps(before) == fps_after(all.subrange(0, i), fps0),
        before.playlists@.len() == base.playlists@.len(),
        forall|k: int|
            0 <= k < base.playlists@.len() ==> {
                &&& (#[trigger] before.playlists@[k]).persistent_playlist_id
                    == base.playlists@[k].persistent_playlist_id
                &&& before.playlists@[k].title == base.playlists@[k].title
                &&& before.playlists@[k].timestamp == base.playlists@[k].timestamp
                &&& before.playlists@[k].is_master == base.playlists@[k].is_master
            },
    ensures
        forall|k: int|
            0 <= k < i + 1 && (#[trigger] all[k]).importable() ==> after.has_dbid(
                all[k].fingerprint,
            ),
        after.tracks@.len() == base.tracks@.len() + new_count(all.subrange(0, i + 1), fps0),
        forall|k: int| 0 <= k < base.tracks@.len() ==> after.tracks@[k] == base.tracks@[k],
        db_fps(after) == fps_after(all.subrange(0, i + 1), fps0),
        after.playlists@.len() == base.playlists@.len(),
        forall|k: int|
            0 <= k < base.playlists@.len() ==> {
                &&& (#[trigger] after.playlists@[k]).persistent_playlist_id
                    == base.playlists@[k].persistent_playlist_id
                &&& after.playlists@[k].title == base.playlists@[k].title
                &&& after.playlists@[k].timestamp == base.playlists@[k].timestamp
                &&& after.playlists@[k].is_master == base.playlists@[k].is_master
            },
{
    let fp = all[i].fingerprint;
    let pre = all.subrange(0, i);
    let ext = all.subrange(0, i + 1);
    assert(ext.drop_last() =~= pre);
    assert(ext.last() == all[i]);
    lemma_new_count_nonneg(pre, fps0);
    if !all[i].importable() {
        assert(fps_after(ext, fps0) =~= fps_after(pre, fps0));
    } else if before.has_dbid(fp) {
        assert(db_fps(before).contains(fp));
        assert(fps_after(pre, fps0).contains(fp));
        assert(fps_after(ext, fps0) =~= fps_after(pre, fps0));
        assert(after.has_dbid(fp));
    } else {
        assert(!fps_after(pre, fps0).contains(fp)) by {
            if fps_after(pre, fps0).contains(fp) {
                assert(db_fps(before).contains(fp));
                assert(before.has_dbid(fp));
            }
        }
        assert(after.has_dbid(fp)) by {
            assert(after.tracks@[after.tracks@.len() - 1].dbid == fp);
        }
        assert(db_fps(after) =~= fps_after(ext, fps0)) by {
            assert forall|f: u64| db_fps(after).contains(f) implies fps_after(ext, fps0).contains(
                f,
            ) by {
                let x = choose|x: int|
                    0 <= x < after.tracks@.len() && (#[trigger] after.tracks@[x]).dbid == f;
                if x < before.tracks@.len() {
                    assert(before.tracks@[x].dbid == f);
                    assert(before.has_dbid(f));
                    assert(db_fps(before).contains(f));
                } else {
                    assert(after.tracks@[x] == after.tracks@.last());
                }
            }
            assert forall|f: u64| fps_after(ext, fps0).contains(f) implies db_fps(after).contains(
                f,
            ) by {
                if f == fp {
                } else {
                    assert(fps_after(pre, fps0).contains(f));
                    assert(before.has_dbid(f));
                    let x = choose|x: int|
                        0 <= x < before.tracks@.len() && (#[trigger] before.tracks@[x]).dbid == f;
                    assert(after.tracks@[x].dbid == f);
                    assert(after.has_dbid(f));
                }
            }
        }
        assert forall|k: int|
            0 <= k < base.playlists@.len() implies {
            &&& (#[trigger] after.playlists@[k]).persistent_playlist_id
                == base.playlists@[k].persistent_playlist_id
            &&& after.playlists@[k].title == base.playlists@[k].title
            &&& after.playlists@[k].timestamp == base.playlists@[k].timestamp
            &&& after.playlists@[k].is_master == base.playlists@[k].is_master
        } by {
            if crate::db::is_first_master(before.playlists@, k) {
            } else {
                assert(after.playlists@[k] == before.playlists@[k]);
            }
        }
    }
    assert forall|k: int|
        0 <= k < i + 1 && (#[trigger] all[k]).importable() implies after.has_dbid(
        all[k].fingerprint,
    ) by {
        if k < i {
            assert(before.has_dbid(all[k].fingerprint));
            let w = choose|w: int|
                0 <= w < before.tracks@.len() && (#[trigger] before.tracks@[w]).dbid
                    == all[k].fingerprint;
            if after.tracks@.len() == before.tracks@.len() {
                assert(after == before);
            } else {
                assert(after.tracks@[w] == before.tracks@[w]);
            }
        }
    }
}

/// Import a batch and gather every imported or already-present item into one
/// new playlist, then persist once more after the whole loop. The new
/// playlist holds exactly one member per importable item, in batch order;
/// member k is the unique id of the record carrying the k-th importable
/// item's fingerprint, so already-present content joins by its existing id.
pub fn import_files_as_playlist(
    db: &mut Database,
    adb: &mut ArtworkIndex,
    items: Vec<ImportItem>,
    title: String,
    pl_id: u64,
    timestamp: u32,
    root: &str,
    final_screen: AppState,
) -> (acts: Vec<Action>)
    requires
        old(db).wf(),
        old(adb).wf(),
        old(db).next_id + items@.len() <= u32::MAX,
        old(adb).next_image_id + items@.len() <= u32::MAX,
    ensures
        final(db).wf(),
        final(adb).wf(),
        final(db).playlists@.len() == old(db).playlists@.len() + 1,
        final(db).playlists@.last().persistent_playlist_id == pl_id,
        final(db).playlists@.last().title == title,
        final(db).playlists@.last().timestamp == timestamp,
        !final(db).playlists@.last().is_master,
        final(db).playlists@.last().tracks@.len() == count_importable(items@),
        forall|k: int|
            0 <= k < importable_fps(items@).len() ==> {
                &&& final(db).has_dbid(#[trigger] importable_fps(items@)[k])
                &&& final(db).playlists@.last().tracks@[k] == final(db).tracks@[final(db).index_of_dbid(importable_fps(items@)[k])].unique_id
            },
        forall|k: int|
            0 <= k < items@.len() && (#[trigger] items@[k]).importable() ==> final(db).has_dbid(
                items@[k].fingerprint,
            ),
        final(db).tracks@.len() == old(db).tracks@.len() + new_count(items@, db_fps(*old(db))),
        forall|k: int|
            0 <= k < old(db).tracks@.len() ==> final(db).tracks@[k] == old(db).tracks@[k],
        db_fps(*final(db)) == fps_after(items@, db_fps(*old(db))),
        forall|k: int|
            0 <= k < old(db).playlists@.len() ==> {
                &&& (#[trigger] final(db).playlists@[k]).persistent_playlist_id == old(db).playlists@[k].persistent_playlist_id
                &&& final(db).playlists@[k].title == old(db).playlists@[k].title
                &&& final(db).playlists@[k].timestamp == old(db).playlists@[k].timestamp
                &&& final(db).playlists@[k].is_master == old(db).playlists@[k].is_master
            },
        count_removes(acts@) == 0,
        count_persists(acts@) == new_count(items@, db_fps(*old(db))) + 1,
        acts@.len() > 0 && acts@.last() is PersistDatabase,
        persisted_then_quiet(acts@),
        emits_snapshot_at(acts@, acts@.len() - 2, *final(db)),
        forall|j: int|
            0 <= j < items@.len() ==> #[trigger] acts@.contains(
                Action::Emit(
                    AppEvent::OverallProgress(
                        j as u32,
                        items@.len() as u32,
                        PhaseColor::Green,
                    ),
                ),
            ),
{
    let ghost fps0 = db_fps(*old(db));
    let mut acts: Vec<Action> = Vec::new();
    let mut members: Vec<u32> = Vec::new();
    let total = items.len() as u32;
    let mut i: usize = 0;
    let mut items = items;
    let ghost all = items@;
    while i < items.len()
        invariant
            items@ == all,
            i <= all.len(),
            db.wf(),
            adb.wf(),
            db.next_id + (all.len() - i) <= u32::MAX,
            adb.next_image_id + (all.len() - i) <= u32::MAX,
            forall|k: int|
                0 <= k < i && (#[trigger] all[k]).importable() ==> db.has_dbid(
                    all[k].fingerprint,
                ),
            db.tracks@.len() == old(db).tracks@.len() + new_count(all.subrange(0, i as int), fps0),
            forall|k: int|
                0 <= k < old(db).tracks@.len() ==> db.tracks@[k] == old(db).tracks@[k],
            db_fps(*db) == fps_after(all.subrange(0, i as int), fps0),
            db.playlists@.len() == old(db).playlists@.len(),
            forall|k: int|
                0 <= k < old(db).playlists@.len() ==> {
                    &&& (#[trigger] db.playlists@[k]).persistent_playlist_id == old(db).playlists@[k].persistent_playlist_id
                    &&& db.playlists@[k].title == old(db).playlists@[k].title
                    &&& db.playlists@[k].timestamp == old(db).playlists@[k].timestamp
                    &&& db.playlists@[k].is_master == old(db).playlists@[k].is_master
                },
            members@.len() == importable_fps(all.subrange(0, i as int)).len(),
            forall|k: int|
                0 <= k < members@.len() ==> {
                    &&& db.has_dbid(#[trigger] importable_fps(all.subrange(0, i as int))[k])
                    &&& members@[k] == db.tracks@[db.index_of_dbid(
                        importable_fps(all.subrange(0, i as int))[k],
                    )].unique_id
                },
            count_removes(acts@) == 0,
            count_persists(acts@) == new_count(all.subrange(0, i as int), fps0),
            forall|j: int|
                0 <= j < i ==> #[trigger] acts@.contains(
                    Action::Emit(AppEvent::OverallProgress(j as u32, total, PhaseColor::Green)),
                ),
        decreases all.len() - i,
    {
        let ghost pre_emit = acts@;
        acts.push(Action::Emit(AppEvent::OverallProgress(i as u32, total, PhaseColor::Green)));
        proof {
            lemma_prefix_keeps_members(pre_emit, acts@);
            assert(acts@[pre_emit.len() as int] == Action::Emit(
                AppEvent::OverallProgress(i as u32, total, PhaseColor::Green),
            ));
            assert(acts@.contains(
                Action::Emit(AppEvent::OverallProgress(i as u32, total, PhaseColor::Green)),
            ));
        }
        let ghost db_before = *db;
        let ghost members_before = members@;
        let item = &items[i];
        let r = import_one(db, adb, item, root);
        proof {
            batch_step_facts(db_before, *db, all, i as int, fps0, *old(db));
        }
        match r.0 {
            Some(id) => {
                members.push(id);
            },
            None => {
            },
        }
        proof {
            let pre = all.subrange(0, i as int);
            let ext = all.subrange(0, i + 1 as int);
            assert(ext.drop_last() =~= pre);
            assert(ext.last() == all[i as int]);
            assert forall|k: int| 0 <= k < members@.len() implies {
                &&& db.has_dbid(#[trigger] importable_fps(ext)[k])
                &&& members@[k] == db.tracks@[db.index_of_dbid(importable_fps(ext)[k])].unique_id
            } by {
                if k < members_before.len() {
                    let f = importable_fps(pre)[k];
                    assert(importable_fps(ext)[k] == f);
                    assert(db_before.has_dbid(f));
                    let w = choose|w: int|
                        0 <= w < db_before.tracks@.len() && (#[trigger] db_before.tracks@[w]).dbid
                            == f;
                    assert(members@[k] == db_before.tracks@[db_before.index_of_dbid(f)].unique_id);
                    let wb = db_before.index_of_dbid(f);
                    assert(db_before.tracks@[wb].dbid == f);
                    if db.tracks@.len() == db_before.tracks@.len() {
                        assert(*db == db_before);
                    } else {
                        assert(db.tracks@[wb] == db_before.tracks@[wb]);
                        assert(db.has_dbid(f));
                        let c = db.index_of_dbid(f);
                        assert(db.tracks@[c].dbid == f);
                        assert(c == wb) by {
                            if c != wb {
                                assert(db.wf());
                            }
                        }
                    }
                } else {
                    let f = all[i as int].fingerprint;
                    assert(all[i as int].importable());
                    assert(k == members@.len() - 1);
                    assert(importable_fps(ext)[k] == f);
                    if db_before.has_dbid(f) {
                        assert(*db == db_before);
                        assert(members@[k] == db_before.tracks@[db_before.index_of_dbid(
                            f,
                        )].unique_id);
                    } else {
                        assert(db.tracks@.last().dbid == f);
                        assert(db.tracks@.last().unique_id == db_before.next_id);
                        assert(members@[k] == db_before.next_id);
                        let c = db.index_of_dbid(f);
                        assert(db.tracks@[c].dbid == f);
                        assert(c == db.tracks@.len() - 1) by {
                            if c != db.tracks@.len() - 1 {
                                assert(db.wf());
                            }
                        }
                    }
                }
            }
        }
        let ghost quiet_before = acts@;
        push_all_actions(&mut acts, r.1);
        proof {
            lemma_counts_add(quiet_before, r.1@);
            lemma_prefix_keeps_members(quiet_before, acts@);
            if !all[i as int].importable() {
                assert(count_persists(r.1@) == 0);
            }
        }
        i = i + 1;
    }
    proof {
        assert(all.subrange(0, all.len() as int) =~= all);
        lemma_importable_fps_len(all);
    }
    let new_playlist = Playlist {
        persistent_playlist_id: pl_id,
        title,
        timestamp,
        is_master: false,
        tracks: members,
    };
    db.add_playlist(new_playlist);
    let ghost pre_tail = acts@;
    acts.push(Action::Emit(AppEvent::SwitchScreen(final_screen)));
    let snap = db.get_playlists();
    acts.push(Action::Emit(AppEvent::ITunesParsed(snap)));
    acts.push(Action::PersistDatabase);
    proof {
        lemma_prefix_keeps_members(pre_tail, acts@);
        assert(acts@[acts@.len() - 1] is PersistDatabase);
        assert(persisted_then_quiet(acts@));
        assert(emits_snapshot_at(acts@, acts@.len() - 2, *db));
    }
    acts
}

/// Idempotent import: after content with a fresh fingerprint was imported
/// under id `id`, importing the same content again resolves, by the dedup
/// lookup, to exactly that id — the library gains no second record.
pub proof fn lemma_import_idempotent(db0: Database, db1: Database, item: ImportItem, id: u32)
    requires
        db0.wf(),
        db1.wf(),
        item.importable(),
        !db0.has_dbid(item.fingerprint),
        db1.tracks@.len() == db0.tracks@.len() + 1,
        forall|k: int| 0 <= k < db0.tracks@.len() ==> db1.tracks@[k] == db0.tracks@[k],
        db1.tracks@.last().dbid == item.fingerprint,
        db1.tracks@.last().unique_id == id,
    ensures
        db1.has_dbid(item.fingerprint),
        db1.tracks@[db1.index_of_dbid(item.fingerprint)].unique_id == id,
{
    let last = db1.tracks@.len() - 1;
    assert(db1.tracks@[last].dbid == item.fingerprint);
    assert(db1.has_dbid(item.fingerprint));
    let c = db1.index_of_dbid(item.fingerprint);
    assert(db1.tracks@[c].dbid == item.fingerprint);
    if c != last {
        assert(db1.tracks@[c] == db0.tracks@[c]);
        assert(db0.has_dbid(item.fingerprint));
    }
}

} // verus!
