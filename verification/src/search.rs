//! Linear library search: case-insensitive substring match of a query
//! against track title/artist/album/genre and playlist titles, preserving
//! database iteration order, tracks first.

use crate::db::{Database, Playlist, Track};
use crate::text::{bytes_of, contains_ci, contains_text_ci, lower_of, lowercase, string_bytes};
use vstd::prelude::*;

verus! {

/// One search result: either a track or a playlist, tagged.
pub struct SearchEntry {
    pub id: u64,
    pub title: String,
    pub artist: String,
    pub album: String,
    pub genre: String,
    pub is_playlist: bool,
}

impl SearchEntry {
    /// A track result.
    pub fn track(id: u64, title: String, artist: String, album: String, genre: String) -> (r:
        SearchEntry)
        ensures
            r.id == id,
            r.title == title,
            r.artist == artist,
            r.album == album,
            r.genre == genre,
            !r.is_playlist,
    {
        SearchEntry { id, title, album, artist, genre, is_playlist: false }
    }

    /// A playlist result: only an id and a title, the other fields empty.
    pub fn playlist(id: u64, entry: String) -> (r: SearchEntry)
        ensures
            r.id == id,
            r.title == entry,
            r.artist@ =~= Seq::<char>::empty(),
            r.album@ =~= Seq::<char>::empty(),
            r.genre@ =~= Seq::<char>::empty(),
            r.is_playlist,
    {
        SearchEntry {
            id,
            title: entry,
            is_playlist: true,
            album: String::new(),
            artist: String::new(),
            genre: String::new(),
        }
    }
}

/// The lower-cased bytes a query is matched by.
pub open spec fn query_needle(q: Seq<char>) -> Seq<u8> {
    bytes_of(lower_of(q))
}

/// A track matches when any of its four text fields contains the needle,
/// both sides in their lower-case form.
pub open spec fn track_matches(t: Track, needle: Seq<u8>) -> bool {
    ||| contains_ci(t.title@, needle)
    ||| contains_ci(t.artist@, needle)
    ||| contains_ci(t.album@, needle)
    ||| contains_ci(t.genre@, needle)
}

/// A playlist matches on its title alone.
pub open spec fn playlist_matches(p: Playlist, needle: Seq<u8>) -> bool {
    contains_ci(p.title@, needle)
}

/// The tracks that match, in database order.
pub open spec fn matched_tracks(ts: Seq<Track>, needle: Seq<u8>) -> Seq<Track>
    decreases ts.len(),
{
    if ts.len() == 0 {
        ts
    } else if track_matches(ts.last(), needle) {
        matched_tracks(ts.drop_last(), needle).push(ts.last())
    } else {
        matched_tracks(ts.drop_last(), needle)
    }
}

/// The playlists that match, in database order.
pub open spec fn matched_playlists(ps: Seq<Playlist>, needle: Seq<u8>) -> Seq<Playlist>
    decreases ps.len(),
{
    if ps.len() == 0 {
        ps
    } else if playlist_matches(ps.last(), needle) {
        matched_playlists(ps.drop_last(), needle).push(ps.last())
    } else {
        matched_playlists(ps.drop_last(), needle)
    }
}

/// The entry stands for this track.
pub open spec fn is_track_entry(e: SearchEntry, t: Track) -> bool {
    &&& e.id == t.unique_id as u64
    &&& e.title == t.title
    &&& e.artist == t.artist
    &&& e.album == t.album
    &&& e.genre == t.genre
    &&& !e.is_playlist
}

/// The entry stands for this playlist.
pub open spec fn is_playlist_entry(e: SearchEntry, p: Playlist) -> bool {
    &&& e.id == p.persistent_playlist_id
    &&& e.title == p.title
    &&& e.artist@ == Seq::<char>::empty()
    &&& e.album@ == Seq::<char>::empty()
    &&& e.genre@ == Seq::<char>::empty()
    &&& e.is_playlist
}

/// The result list is exactly the search outcome for this query: every
/// matching track's entry in database order, then every matching playlist's.
pub open spec fn search_results_ok(r: Seq<SearchEntry>, db: Database, q: Seq<char>) -> bool {
    let needle = query_needle(q);
    let mt = matched_tracks(db.tracks@, needle);
    let mp = matched_playlists(db.playlists@, needle);
    &&& r.len() == mt.len() + mp.len()
    &&& forall|k: int| 0 <= k < mt.len() ==> is_track_entry(#[trigger] r[k], mt[k])
    &&& forall|k: int| 0 <= k < mp.len() ==> is_playlist_entry(#[trigger] r[mt.len() + k], mp[k])
}

/// Search the library: all matching tracks in database order, then all
/// matching playlists in database order.
pub fn track_search(db: &Database, query: &String) -> (r: Vec<SearchEntry>)
    ensures
        search_results_ok(r@, *db, query@),
{
    let needle = string_bytes(&lowercase(query.as_str()));
    let ghost n = query_needle(query@);
    let mut out: Vec<SearchEntry> = Vec::new();
    let mut i: usize = 0;
    while i < db.tracks.len()
        invariant
            i <= db.tracks@.len(),
            needle@ == n,
            out@.len() == matched_tracks(db.tracks@.subrange(0, i as int), n).len(),
            forall|k: int|
                0 <= k < out@.len() ==> is_track_entry(
                    #[trigger] out@[k],
                    matched_tracks(db.tracks@.subrange(0, i as int), n)[k],
                ),
        decreases db.tracks@.len() - i,
    {
        proof {
            assert(db.tracks@.subrange(0, i + 1 as int).drop_last() =~= db.tracks@.subrange(
                0,
                i as int,
            ));
        }
        let t = &db.tracks[i];
        let m = contains_text_ci(&t.title, &needle) || contains_text_ci(&t.artist, &needle)
            || contains_text_ci(&t.album, &needle) || contains_text_ci(&t.genre, &needle);
        if m {
            let tc = t.clone();
            out.push(
                SearchEntry::track(
                    tc.unique_id as u64,
                    tc.title,
                    tc.artist,
                    tc.album,
                    tc.genre,
                ),
            );
        }
        i = i + 1;
    }
    let ghost mt = matched_tracks(db.tracks@, n);
    proof {
        assert(db.tracks@.subrange(0, db.tracks@.len() as int) =~= db.tracks@);
    }
    let mut p: usize = 0;
    while p < db.playlists.len()
        invariant
            p <= db.playlists@.len(),
            needle@ == n,
            out@.len() == mt.len() + matched_playlists(
                db.playlists@.subrange(0, p as int),
                n,
            ).len(),
            forall|k: int| 0 <= k < mt.len() ==> is_track_entry(#[trigger] out@[k], mt[k]),
            forall|k: int|
                0 <= k < matched_playlists(db.playlists@.subrange(0, p as int), n).len()
                    ==> is_playlist_entry(
                    #[trigger] out@[mt.len() + k],
                    matched_playlists(db.playlists@.subrange(0, p as int), n)[k],
                ),
        decreases db.playlists@.len() - p,
    {
        proof {
            assert(db.playlists@.subrange(0, p + 1 as int).drop_last() =~= db.playlists@.subrange(
                0,
                p as int,
            ));
        }
        let pl = &db.playlists[p];
        if contains_text_ci(&pl.title, &needle) {
            out.push(SearchEntry::playlist(pl.persistent_playlist_id, pl.title.clone()));
        }
        p = p + 1;
    }
    proof {
        assert(db.playlists@.subrange(0, db.playlists@.len() as int) =~= db.playlists@);
    }
    out
}

/// Searching is insensitive to the query's case: two queries with the same
/// lower-case form match exactly the same tracks and playlists. In
/// particular "ROCK" and "rock" both match a genre "Rock".
pub proof fn lemma_search_case_insensitive(
    ts: Seq<Track>,
    ps: Seq<Playlist>,
    q1: Seq<char>,
    q2: Seq<char>,
)
    requires
        query_needle(q1) == query_needle(q2),
    ensures
        matched_tracks(ts, query_needle(q1)) == matched_tracks(ts, query_needle(q2)),
        matched_playlists(ps, query_needle(q1)) == matched_playlists(ps, query_needle(q2)),
{
}

} // verus!
