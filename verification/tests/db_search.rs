use lyrica_sync::db::{Database, Playlist, Track};
use lyrica_sync::search::track_search;

fn mk_track(id: u32, dbid: u64, title: &str, artist: &str, genre: &str) -> Track {
    Track {
        unique_id: id,
        dbid,
        filetype: 0,
        stars: 0,
        last_modified_time: 0,
        size: 0,
        length: 0,
        year: 0,
        bitrate: 0,
        sample_rate: 0,
        play_count: 0,
        bpm: 0,
        skip_count: 0,
        has_artwork: 0,
        artwork_size: 0,
        artwork_count: 0,
        media_type: 0,
        track_number: 0,
        total_tracks: 0,
        disc_number: 0,
        total_discs: 0,
        lyrics_flag: 0,
        gapless_album_flag: 0,
        gapless_track_flag: 0,
        title: title.to_string(),
        location: String::new(),
        album: String::new(),
        artist: artist.to_string(),
        genre: genre.to_string(),
        codec: String::new(),
    }
}

fn mk_playlist(id: u64, title: &str, master: bool, members: Vec<u32>) -> Playlist {
    Playlist {
        persistent_playlist_id: id,
        title: title.to_string(),
        timestamp: 7,
        is_master: master,
        tracks: members,
    }
}

#[test]
fn fresh_ids_and_dedup_lookup() {
    let mut db = Database::new();
    assert_eq!(db.get_unique_id(), 1);
    assert!(!db.if_track_in_library(42));
    let t = mk_track(1, 42, "a", "b", "c");
    db.add_track(t);
    assert!(db.if_track_in_library(42));
    assert_eq!(db.get_unique_id(), 2);
    assert_eq!(db.get_unique_id_by_dbid(42), Some(1));
    assert_eq!(db.get_unique_id_by_dbid(43), None);
    assert!(db.get_track(1).is_some());
    assert!(db.get_track(9).is_none());
}

#[test]
fn master_playlist_receives_new_tracks() {
    let mut db = Database::new();
    db.add_playlist(mk_playlist(10, "ordinary", false, vec![]));
    db.add_playlist(mk_playlist(11, "master", true, vec![]));
    db.add_track(mk_track(1, 100, "a", "", ""));
    assert_eq!(db.playlists[0].tracks.len(), 0);
    assert_eq!(db.playlists[1].tracks, vec![1]);
}

#[test]
fn from_records_validates() {
    let a = mk_track(1, 100, "a", "", "");
    let b = mk_track(2, 200, "b", "", "");
    let db = Database::from_records(vec![a, b], vec![]).unwrap();
    assert_eq!(db.get_unique_id(), 3);

    let a = mk_track(1, 100, "a", "", "");
    let dup_id = mk_track(1, 200, "b", "", "");
    assert!(Database::from_records(vec![a, dup_id], vec![]).is_none());

    let a = mk_track(1, 100, "a", "", "");
    let dup_fp = mk_track(2, 100, "b", "", "");
    assert!(Database::from_records(vec![a, dup_fp], vec![]).is_none());
}

#[test]
fn remove_track_clears_memberships() {
    let mut db = Database::new();
    db.add_playlist(mk_playlist(10, "p", false, vec![]));
    db.add_track(mk_track(1, 100, "a", "", ""));
    db.add_track(mk_track(2, 200, "b", "", ""));
    let mut pl = db.playlists[0].clone();
    pl.tracks = vec![1, 2, 1];
    db.playlists[0] = pl;
    db.remove_track_completely(1);
    assert_eq!(db.tracks.len(), 1);
    assert_eq!(db.tracks[0].unique_id, 2);
    assert_eq!(db.playlists[0].tracks, vec![2]);
}

#[test]
fn remove_playlist_keeps_tracks() {
    let mut db = Database::new();
    db.add_track(mk_track(1, 100, "a", "", ""));
    db.add_playlist(mk_playlist(10, "p", false, vec![1]));
    db.add_playlist(mk_playlist(11, "q", false, vec![1]));
    db.remove_playlist(10);
    assert_eq!(db.playlists.len(), 1);
    assert_eq!(db.playlists[0].persistent_playlist_id, 11);
    assert_eq!(db.tracks.len(), 1);
}

#[test]
fn remove_membership_drops_exactly_one_entry() {
    let mut db = Database::new();
    db.add_track(mk_track(1, 100, "a", "", ""));
    db.add_playlist(mk_playlist(10, "p", false, vec![2, 1, 1]));
    db.add_playlist(mk_playlist(11, "q", false, vec![1]));
    db.remove_track_from_playlist(1, 10);
    // Only the first occurrence in the first matching playlist goes; the
    // duplicate entry and the other playlist stay.
    assert_eq!(db.playlists[0].tracks, vec![2, 1]);
    assert_eq!(db.playlists[1].tracks, vec![1]);
    assert_eq!(db.tracks.len(), 1);
    // Removing an id that is not a member changes nothing.
    db.remove_track_from_playlist(42, 10);
    assert_eq!(db.playlists[0].tracks, vec![2, 1]);
}

#[test]
fn from_records_accepts_valid_stores() {
    let a = mk_track(5, 100, "a", "", "");
    let b = mk_track(9, 200, "b", "", "");
    let pl = mk_playlist(10, "p", false, vec![5, 9]);
    let db = Database::from_records(vec![a, b], vec![pl]).expect("valid records load");
    assert_eq!(db.tracks.len(), 2);
    assert_eq!(db.playlists.len(), 1);
    assert_eq!(db.get_unique_id(), 10);
}

#[test]
fn search_is_case_insensitive_beyond_ascii() {
    let mut db = Database::new();
    db.add_track(mk_track(1, 100, "Lied", "Band", "\u{c4}rger"));
    let upper = track_search(&db, &String::from("\u{c4}RGER"));
    let lower = track_search(&db, &String::from("\u{e4}rger"));
    assert_eq!(upper.len(), 1);
    assert_eq!(lower.len(), 1);
    assert_eq!(upper[0].id, 1);
    assert_eq!(lower[0].id, 1);
}

#[test]
fn snapshot_resolves_members_in_order() {
    let mut db = Database::new();
    db.add_track(mk_track(1, 100, "first", "", ""));
    db.add_track(mk_track(2, 200, "second", "", ""));
    db.add_playlist(mk_playlist(10, "p", false, vec![2, 99, 1]));
    let snap = db.get_playlists();
    assert_eq!(snap.len(), 1);
    assert_eq!(snap[0].id, 10);
    assert_eq!(snap[0].title, "p");
    let titles: Vec<&str> = snap[0].tracks.iter().map(|t| t.title.as_str()).collect();
    assert_eq!(titles, vec!["second", "first"]);
}

#[test]
fn search_is_case_insensitive() {
    let mut db = Database::new();
    db.add_track(mk_track(1, 100, "Song", "Band", "Rock"));
    db.add_track(mk_track(2, 200, "Other", "Act", "Jazz"));
    db.add_playlist(mk_playlist(10, "Rocky road", false, vec![1]));

    let upper = track_search(&db, &String::from("ROCK"));
    let lower = track_search(&db, &String::from("rock"));
    assert_eq!(upper.len(), 2);
    assert_eq!(lower.len(), 2);
    assert_eq!(upper[0].id, 1);
    assert!(!upper[0].is_playlist);
    assert_eq!(upper[1].id, 10);
    assert!(upper[1].is_playlist);
    assert_eq!(lower[0].id, 1);
    assert_eq!(lower[1].id, 10);
}

#[test]
fn search_covers_all_text_fields() {
    let mut db = Database::new();
    db.add_track(mk_track(1, 100, "Alpha", "Beta", "Gamma"));
    assert_eq!(track_search(&db, &String::from("alpha")).len(), 1);
    assert_eq!(track_search(&db, &String::from("beta")).len(), 1);
    assert_eq!(track_search(&db, &String::from("gamma")).len(), 1);
    assert_eq!(track_search(&db, &String::from("delta")).len(), 0);
}
