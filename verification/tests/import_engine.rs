use lyrica_sync::artwork::ArtworkIndex;
use lyrica_sync::audio::{AudioFormat, AudioInfo, AudioStream};
use lyrica_sync::db::{Database, Playlist, Track};
use lyrica_sync::engine::{Command, DeviceData, Engine};
use lyrica_sync::events::{Action, AppEvent};
use lyrica_sync::import::{import_one, ImportItem, Source, TagData};
use lyrica_sync::util::fingerprint;

fn mk_audio(codec: &str, sample_rate: &str, duration: &str, bit_rate: &str) -> AudioInfo {
    AudioInfo {
        streams: vec![
            AudioStream {
                codec_name: "mjpeg".to_string(),
                sample_rate: None,
                channels: None,
                sample_fmt: None,
            },
            AudioStream {
                codec_name: codec.to_string(),
                sample_rate: Some(sample_rate.to_string()),
                channels: Some(2),
                sample_fmt: Some("fltp".to_string()),
            },
        ],
        format: AudioFormat {
            duration: duration.to_string(),
            size: "12345".to_string(),
            bit_rate: bit_rate.to_string(),
        },
    }
}

fn empty_tags() -> TagData {
    TagData {
        title: None,
        artist: None,
        album: None,
        genre: None,
        year: None,
        track_number: None,
        total_tracks: None,
        disc_number: None,
        total_discs: None,
        lyrics_count: 0,
    }
}

fn mk_item(fp: u64, title: &str) -> ImportItem {
    ImportItem {
        source: Source::LocalFile,
        src_path: format!("/tmp/{}.mp3", title),
        fallback_title: format!("{}.mp3", title),
        remote_title: None,
        remote_artist: String::new(),
        remote_genre: None,
        audio: Some(mk_audio("mp3", "44100", "1.5", "128000")),
        fingerprint: fp,
        size: 1000,
        tags: TagData { title: Some(title.to_string()), ..empty_tags() },
        cover: None,
    }
}

fn mk_track(id: u32, dbid: u64) -> Track {
    Track {
        unique_id: id,
        dbid,
        filetype: 0,
        stars: 0,
        last_modified_time: 0,
        size: 0,
        length: 0,
        year: 0,
        bitrate: 0,
        sample_rate: 0,
        play_count: 0,
        bpm: 0,
        skip_count: 0,
        has_artwork: 0,
        artwork_size: 0,
        artwork_count: 0,
        media_type: 0,
        track_number: 0,
        total_tracks: 0,
        disc_number: 0,
        total_discs: 0,
        lyrics_flag: 0,
        gapless_album_flag: 0,
        gapless_track_flag: 0,
        title: String::from("seed"),
        location: String::new(),
        album: String::new(),
        artist: String::new(),
        genre: String::new(),
        codec: String::new(),
    }
}

fn count_copies(acts: &[Action]) -> usize {
    acts.iter().filter(|a| matches!(a, Action::CopyFile { .. })).count()
}

fn count_persists(acts: &[Action]) -> usize {
    acts.iter().filter(|a| matches!(a, Action::PersistDatabase)).count()
}

fn count_writes(acts: &[Action]) -> usize {
    acts.iter().filter(|a| matches!(a, Action::WriteImage { .. })).count()
}

#[test]
fn import_is_idempotent() {
    // Seed the library so the next fresh id is 100, which lands in bucket 00.
    let mut db = Database::from_records(vec![mk_track(99, 7)], vec![]).unwrap();
    let mut adb = ArtworkIndex::new();
    let item = mk_item(0xA1B2, "song");

    let (id1, acts1) = import_one(&mut db, &mut adb, &item, "/mnt/ipod");
    assert_eq!(id1, Some(100));
    assert_eq!(db.tracks.len(), 2);
    assert_eq!(db.tracks[1].title, "song");
    assert_eq!(db.tracks[1].location, ":iPod_Control:Music:F00:64.mp3");
    assert_eq!(db.tracks[1].length, 1500);
    assert_eq!(db.tracks[1].bitrate, 128);
    assert_eq!(count_copies(&acts1), 1);
    assert_eq!(count_persists(&acts1), 1);
    let copied_to = acts1.iter().find_map(|a| match a {
        Action::CopyFile { dest, .. } => Some(dest.clone()),
        _ => None,
    });
    assert_eq!(copied_to.unwrap(), "/mnt/ipod/iPod_Control/Music/F00/64.mp3");
    // The announced snapshot lists the new track under no playlist, and the
    // persist precedes it.
    let snapshot_pos = acts1
        .iter()
        .position(|a| matches!(a, Action::Emit(AppEvent::ITunesParsed(_))))
        .unwrap();
    let persist_pos = acts1
        .iter()
        .position(|a| matches!(a, Action::PersistDatabase))
        .unwrap();
    assert!(persist_pos < snapshot_pos);
    match &acts1[snapshot_pos] {
        Action::Emit(AppEvent::ITunesParsed(pls)) => assert!(pls.is_empty()),
        _ => panic!("expected a snapshot event"),
    }

    // Importing identical content again: same id, no new record, no copy,
    // no persist.
    let again = mk_item(0xA1B2, "song-renamed");
    let (id2, acts2) = import_one(&mut db, &mut adb, &again, "/mnt/ipod");
    assert_eq!(id2, Some(100));
    assert_eq!(db.tracks.len(), 2);
    assert_eq!(count_copies(&acts2), 0);
    assert_eq!(count_persists(&acts2), 0);
}

#[test]
fn probe_failure_skips_item() {
    let mut db = Database::new();
    let mut adb = ArtworkIndex::new();
    let mut item = mk_item(1, "x");
    item.audio = None;
    let (id, acts) = import_one(&mut db, &mut adb, &item, "/mnt");
    assert_eq!(id, None);
    assert!(acts.is_empty());
    assert_eq!(db.tracks.len(), 0);

    let mut item = mk_item(2, "y");
    item.audio = Some(mk_audio("mp3", "notanumber", "1.0", "128000"));
    let (id, _) = import_one(&mut db, &mut adb, &item, "/mnt");
    assert_eq!(id, None);
    assert_eq!(db.tracks.len(), 0);
}

fn png_bytes(shade: u8) -> Vec<u8> {
    let img = image::RgbImage::from_pixel(8, 6, image::Rgb([shade, 0, 0]));
    let mut out = std::io::Cursor::new(Vec::new());
    image::DynamicImage::ImageRgb8(img)
        .write_to(&mut out, image::ImageFormat::Png)
        .unwrap();
    out.into_inner()
}

#[test]
fn artwork_is_deduplicated() {
    let mut db = Database::new();
    let mut adb = ArtworkIndex::new();

    let mut first = mk_item(1, "one");
    first.cover = Some(png_bytes(200));
    let (_, acts1) = import_one(&mut db, &mut adb, &first, "/mnt");
    assert_eq!(count_writes(&acts1), 2);
    assert_eq!(adb.entries.len(), 1);
    assert_eq!(db.tracks[0].has_artwork, 1);
    // The two thumbnails arrive in the device pixel format at the two fixed
    // sizes, under the registered names.
    let sizes: Vec<(String, usize)> = acts1
        .iter()
        .filter_map(|a| match a {
            Action::WriteImage { path, image } => Some((path.clone(), image.pixels.len())),
            _ => None,
        })
        .collect();
    assert_eq!(sizes.len(), 2);
    assert_eq!(sizes[0].1, 100 * 100);
    assert_eq!(sizes[1].1, 200 * 200);
    assert!(sizes[0].0.starts_with("/mnt/iPod_Control/Artwork/S"));
    assert!(sizes[1].0.starts_with("/mnt/iPod_Control/Artwork/L"));

    let mut second = mk_item(2, "two");
    second.cover = Some(png_bytes(200));
    let (_, acts2) = import_one(&mut db, &mut adb, &second, "/mnt");
    assert_eq!(count_writes(&acts2), 0);
    assert_eq!(adb.entries.len(), 1);
    assert_eq!(db.tracks[1].has_artwork, 1);

    // A different image is encoded under fresh names.
    let mut third = mk_item(3, "three");
    third.cover = Some(png_bytes(10));
    let (_, acts3) = import_one(&mut db, &mut adb, &third, "/mnt");
    assert_eq!(count_writes(&acts3), 2);
    assert_eq!(adb.entries.len(), 2);
    assert_ne!(adb.entries[0].small_name, adb.entries[1].small_name);
}

#[test]
fn undecodable_cover_is_not_fatal() {
    let mut db = Database::new();
    let mut adb = ArtworkIndex::new();
    let mut item = mk_item(1, "one");
    item.cover = Some(vec![1, 2, 3, 4]);
    let (id, acts) = import_one(&mut db, &mut adb, &item, "/mnt");
    assert_eq!(id, Some(1));
    assert_eq!(count_writes(&acts), 0);
    assert_eq!(db.tracks[0].has_artwork, 0);
    assert_eq!(adb.entries.len(), 0);
}

fn ready_engine() -> Engine {
    let mut engine = Engine::new();
    let data = DeviceData {
        root: "/mnt/ipod".to_string(),
        db: Database::new(),
        artwork: ArtworkIndex::new(),
    };
    let acts = engine.handle(Command::DeviceSearched(Some(data)));
    assert_eq!(acts.len(), 2);
    engine
}

#[test]
fn engine_awaits_device() {
    let mut engine = Engine::new();
    let acts = engine.handle(Command::RemoveTrack(1));
    assert!(acts.is_empty());
    let acts = engine.handle(Command::DeviceSearched(None));
    assert_eq!(acts.len(), 1);
    assert!(matches!(acts[0], Action::Emit(AppEvent::IPodNotFound)));
    let acts = engine.handle(Command::DeviceSearched(Some(DeviceData {
        root: "/mnt/ipod".to_string(),
        db: Database::new(),
        artwork: ArtworkIndex::new(),
    })));
    assert_eq!(acts.len(), 2);
}

#[test]
fn soft_playlist_removal_touches_no_file() {
    let mut engine = ready_engine();
    let _ = engine.handle(Command::LoadFromFSPL(
        vec![mk_item(1, "a")],
        "mine".to_string(),
        555,
        0,
    ));
    let acts = engine.handle(Command::RemovePlaylist(555, false));
    assert!(acts.iter().all(|a| !matches!(
        a,
        Action::RemoveFile { .. } | Action::CopyFile { .. } | Action::WriteImage { .. }
    )));
    assert_eq!(engine.db.tracks.len(), 1);
    assert_eq!(engine.db.playlists.len(), 0);
}

#[test]
fn downloading_known_content_twice_adds_one_record() {
    let mut engine = ready_engine();
    let acts1 = engine.handle(Command::DownloadTrack(true, mk_item(7, "tune")));
    assert_eq!(engine.db.tracks.len(), 1);
    assert!(matches!(acts1.last().unwrap(), Action::PersistDatabase));
    let acts2 = engine.handle(Command::DownloadTrack(true, mk_item(7, "tune-again")));
    assert_eq!(engine.db.tracks.len(), 1);
    assert_eq!(count_copies(&acts2), 0);
    // The snapshot and persist are still sent on the duplicate download.
    assert!(acts2.iter().any(|a| matches!(a, Action::Emit(AppEvent::ITunesParsed(_)))));
    assert!(matches!(acts2.last().unwrap(), Action::PersistDatabase));
}

#[test]
fn playlist_members_are_the_resolved_ids() {
    let mut engine = ready_engine();
    // Import one track first, then build a playlist that includes the same
    // content plus a fresh one: the member ids are the existing id and the
    // fresh id, in batch order.
    let _ = engine.handle(Command::LoadFromFS(mk_item(1, "known")));
    let known_id = engine.db.tracks[0].unique_id;
    let acts = engine.handle(Command::DownloadPlaylist(
        true,
        vec![mk_item(1, "known-again"), mk_item(2, "fresh")],
        "mix".to_string(),
        900,
        0,
    ));
    assert_eq!(engine.db.tracks.len(), 2);
    let members = &engine.db.playlists[0].tracks;
    assert_eq!(members.len(), 2);
    assert_eq!(members[0], known_id);
    assert_eq!(members[1], engine.db.tracks[1].unique_id);
    assert_ne!(members[0], members[1]);
    assert_eq!(count_copies(&acts), 1);
}

#[test]
fn duplicate_content_within_a_batch_is_imported_once() {
    let mut engine = ready_engine();
    let acts = engine.handle(Command::LoadFromFSVec(vec![
        mk_item(5, "same"),
        mk_item(5, "same-copy"),
        mk_item(6, "other"),
    ]));
    assert_eq!(engine.db.tracks.len(), 2);
    assert_eq!(count_copies(&acts), 2);
    // Per-item overall progress was announced for all three items.
    for i in 0..3u32 {
        assert!(acts.iter().any(|a| matches!(
            a,
            Action::Emit(AppEvent::OverallProgress(c, 3, _)) if *c == i
        )));
    }
}

#[test]
fn download_playlist_with_one_probe_failure() {
    let mut engine = ready_engine();
    let mut bad = mk_item(3, "c");
    bad.audio = None;
    let items = vec![mk_item(1, "a"), mk_item(2, "b"), bad];
    let acts = engine.handle(Command::DownloadPlaylist(
        true,
        items,
        "mix".to_string(),
        777,
        42,
    ));
    assert_eq!(engine.db.tracks.len(), 2);
    assert_eq!(engine.db.playlists.len(), 1);
    assert_eq!(engine.db.playlists[0].persistent_playlist_id, 777);
    assert_eq!(engine.db.playlists[0].tracks.len(), 2);
    assert!(matches!(acts.last().unwrap(), Action::PersistDatabase));
}

#[test]
fn failed_download_leaves_library_alone() {
    let mut engine = ready_engine();
    let acts = engine.handle(Command::DownloadPlaylist(
        false,
        vec![mk_item(1, "a")],
        "mix".to_string(),
        777,
        42,
    ));
    assert_eq!(engine.db.tracks.len(), 0);
    assert_eq!(engine.db.playlists.len(), 0);
    assert!(matches!(acts.last().unwrap(), Action::PersistDatabase));
}

#[test]
fn hard_remove_is_complete() {
    let mut engine = ready_engine();
    let _ = engine.handle(Command::LoadFromFSVec(vec![mk_item(1, "a"), mk_item(2, "b")]));
    assert_eq!(engine.db.tracks.len(), 2);
    let id_a = engine.db.tracks[0].unique_id;
    engine.db.add_playlist(Playlist {
        persistent_playlist_id: 9,
        title: "p".to_string(),
        timestamp: 0,
        is_master: false,
        tracks: vec![id_a, engine.db.tracks[1].unique_id],
    });

    let acts = engine.handle(Command::RemoveTrack(id_a));
    assert_eq!(engine.db.tracks.len(), 1);
    assert!(engine.db.get_track(id_a).is_none());
    assert!(!engine.db.playlists[0].tracks.contains(&id_a));
    let removed: Vec<String> = acts
        .iter()
        .filter_map(|a| match a {
            Action::RemoveFile { path } => Some(path.clone()),
            _ => None,
        })
        .collect();
    assert_eq!(removed.len(), 4);
    assert!(removed[0].ends_with(".mp3"));
    assert!(removed[1].ends_with(".m4a"));
    assert!(removed[2].ends_with(".wav"));
    assert!(removed[3].ends_with(".aif"));
    assert!(removed[0].starts_with("/mnt/ipod/iPod_Control/Music/F"));
    assert!(matches!(acts.last().unwrap(), Action::PersistDatabase));
}

#[test]
fn soft_and_hard_playlist_removal() {
    let mut engine = ready_engine();
    let _ = engine.handle(Command::LoadFromFSPL(
        vec![mk_item(1, "a"), mk_item(2, "b")],
        "mine".to_string(),
        555,
        0,
    ));
    assert_eq!(engine.db.playlists.len(), 1);
    assert_eq!(engine.db.tracks.len(), 2);

    // Soft removal: the records stay.
    let _ = engine.handle(Command::RemovePlaylist(555, false));
    assert_eq!(engine.db.playlists.len(), 0);
    assert_eq!(engine.db.tracks.len(), 2);

    // Rebuild the playlist, then hard-remove it: members go too.
    let _ = engine.handle(Command::LoadFromFSPL(
        vec![mk_item(1, "a"), mk_item(2, "b")],
        "mine".to_string(),
        556,
        0,
    ));
    assert_eq!(engine.db.playlists.len(), 1);
    assert_eq!(engine.db.tracks.len(), 2);
    let _ = engine.handle(Command::RemovePlaylist(556, true));
    assert_eq!(engine.db.playlists.len(), 0);
    assert_eq!(engine.db.tracks.len(), 0);
}

#[test]
fn every_mutating_command_persists() {
    let mut engine = ready_engine();
    let acts = engine.handle(Command::LoadFromFS(mk_item(1, "a")));
    assert_eq!(count_persists(&acts), 1);
    let acts = engine.handle(Command::DownloadTrack(true, mk_item(2, "b")));
    assert!(count_persists(&acts) >= 1);
    assert!(matches!(acts.last().unwrap(), Action::PersistDatabase));
    let acts = engine.handle(Command::RemoveTrackFromPlaylist(1, 99));
    assert!(matches!(acts.last().unwrap(), Action::PersistDatabase));
}

#[test]
fn search_command_reports_results() {
    let mut engine = ready_engine();
    let mut item = mk_item(1, "Thunder");
    item.tags.genre = Some("Rock".to_string());
    let _ = engine.handle(Command::LoadFromFS(item));
    let acts = engine.handle(Command::SearchFor("ROCK".to_string()));
    assert_eq!(acts.len(), 1);
    match &acts[0] {
        Action::Emit(AppEvent::SearchShow(entries)) => {
            assert_eq!(entries.len(), 1);
            assert_eq!(entries[0].title, "Thunder");
            assert!(!entries[0].is_playlist);
        },
        _ => panic!("expected search results"),
    }
}
