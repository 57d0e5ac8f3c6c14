//! The in-memory library database: all track and playlist records plus the
//! allocation state for fresh unique identifiers. Exactly one owner (the
//! engine) ever mutates a value of this type.

use vstd::prelude::*;

verus! {

/// One track record, with the fields the synchronization engine reads and
/// writes. `unique_id` identifies the record within this library; `dbid` is
/// the 64-bit content fingerprint used as the dedup key.
pub struct Track {
    pub unique_id: u32,
    pub dbid: u64,
    pub filetype: u32,
    pub stars: u8,
    pub last_modified_time: u32,
    pub size: u32,
    pub length: u32,
    pub year: u32,
    pub bitrate: u32,
    pub sample_rate: u32,
    pub play_count: u32,
    pub bpm: u16,
    pub skip_count: u32,
    pub has_artwork: u8,
    pub artwork_size: u32,
    pub artwork_count: u16,
    pub media_type: u32,
    pub track_number: u32,
    pub total_tracks: u32,
    pub disc_number: u32,
    pub total_discs: u32,
    pub lyrics_flag: u8,
    pub gapless_album_flag: u8,
    pub gapless_track_flag: u8,
    pub title: String,
    pub location: String,
    pub album: String,
    pub artist: String,
    pub genre: String,
    pub codec: String,
}

/// One playlist record: an ordered member list of track `unique_id`s
/// (duplicates allowed) under a random 64-bit identifier. At most one
/// playlist carries the `is_master` flag and auto-receives every newly
/// added track.
pub struct Playlist {
    pub persistent_playlist_id: u64,
    pub title: String,
    pub timestamp: u32,
    pub is_master: bool,
    pub tracks: Vec<u32>,
}

/// A playlist with its member tracks resolved, as handed to the
/// presentation layer in a snapshot.
pub struct DBPlaylist {
    pub id: u64,
    pub title: String,
    pub timestamp: u32,
    pub tracks: Vec<Track>,
}

/// The library database.
pub struct Database {
    pub tracks: Vec<Track>,
    pub playlists: Vec<Playlist>,
    pub next_id: u32,
}

impl Clone for Track {
    fn clone(&self) -> (res: Self)
        ensures
            res == *self,
    {
        Track {
            unique_id: self.unique_id,
            dbid: self.dbid,
            filetype: self.filetype,
            stars: self.stars,
            last_modified_time: self.last_modified_time,
            size: self.size,
            length: self.length,
            year: self.year,
            bitrate: self.bitrate,
            sample_rate: self.sample_rate,
            play_count: self.play_count,
            bpm: self.bpm,
            skip_count: self.skip_count,
            has_artwork: self.has_artwork,
            artwork_size: self.artwork_size,
            artwork_count: self.artwork_count,
            media_type: self.media_type,
            track_number: self.track_number,
            total_tracks: self.total_tracks,
            disc_number: self.disc_number,
            total_discs: self.total_discs,
            lyrics_flag: self.lyrics_flag,
            gapless_album_flag: self.gapless_album_flag,
            gapless_track_flag: self.gapless_track_flag,
            title: self.title.clone(),
            location: self.location.clone(),
            album: self.album.clone(),
            artist: self.artist.clone(),
            genre: self.genre.clone(),
            codec: self.codec.clone(),
        }
    }
}

/// A member list with every occurrence of `id` filtered out.
pub fn filter_members(v: &Vec<u32>, id: u32) -> (r: Vec<u32>)
    ensures
        r@ == ids_without(v@, id),
{
    let mut out: Vec<u32> = Vec::new();
    let mut i: usize = 0;
    while i < v.len()
        invariant
            i <= v@.len(),
            out@ =~= ids_without(v@.subrange(0, i as int), id),
        decreases v@.len() - i,
    {
        proof {
            assert(v@.subrange(0, i + 1 as int).drop_last() =~= v@.subrange(0, i as int));
        }
        if v[i] != id {
            out.push(v[i]);
        }
        proof {
            assert(out@ =~= ids_without(v@.subrange(0, i + 1 as int), id));
        }
        i = i + 1;
    }
    proof {
        assert(v@.subrange(0, v@.len() as int) =~= v@);
    }
    out
}

/// Copy a vector of plain values.
pub fn clone_ids(v: &Vec<u32>) -> (r: Vec<u32>)
    ensures
        r@ == v@,
{
    let mut out: Vec<u32> = Vec::new();
    let mut i: usize = 0;
    while i < v.len()
        invariant
            i <= v@.len(),
            out@ =~= v@.subrange(0, i as int),
        decreases v@.len() - i,
    {
        out.push(v[i]);
        proof {
            assert(out@ =~= v@.subrange(0, i + 1 as int));
        }
        i = i + 1;
    }
    proof {
        assert(v@.subrange(0, v@.len() as int) =~= v@);
    }
    out
}

/// Two playlist records agree on every field (the member list compared by
/// its contents).
pub open spec fn playlist_like(a: Playlist, b: Playlist) -> bool {
    &&& a.persistent_playlist_id == b.persistent_playlist_id
    &&& a.title == b.title
    &&& a.timestamp == b.timestamp
    &&& a.is_master == b.is_master
    &&& a.tracks@ == b.tracks@
}

impl Clone for Playlist {
    fn clone(&self) -> (res: Self)
        ensures
            playlist_like(res, *self),
    {
        Playlist {
            persistent_playlist_id: self.persistent_playlist_id,
            title: self.title.clone(),
            timestamp: self.timestamp,
            is_master: self.is_master,
            tracks: clone_ids(&self.tracks),
        }
    }
}

impl Database {
    /// Well-formedness: unique ids are below the allocation watermark and
    /// pairwise distinct, and content fingerprints are pairwise distinct.
    pub open spec fn wf(self) -> bool {
        &&& forall|i: int|
            0 <= i < self.tracks@.len() ==> (#[trigger] self.tracks@[i]).unique_id < self.next_id
        &&& forall|i: int, j: int|
            0 <= i < j < self.tracks@.len() ==> (#[trigger] self.tracks@[i]).unique_id != (
            #[trigger] self.tracks@[j]).unique_id
        &&& forall|i: int, j: int|
            0 <= i < j < self.tracks@.len() ==> (#[trigger] self.tracks@[i]).dbid != (
            #[trigger] self.tracks@[j]).dbid
    }

    /// Some track carries this content fingerprint.
    pub open spec fn has_dbid(self, dbid: u64) -> bool {
        exists|i: int| 0 <= i < self.tracks@.len() && (#[trigger] self.tracks@[i]).dbid == dbid
    }

    /// The index of the track with this fingerprint.
    pub open spec fn index_of_dbid(self, dbid: u64) -> int {
        choose|i: int| 0 <= i < self.tracks@.len() && (#[trigger] self.tracks@[i]).dbid == dbid
    }

    /// Some track carries this unique id.
    pub open spec fn has_track_id(self, id: u32) -> bool {
        exists|i: int| 0 <= i < self.tracks@.len() && (#[trigger] self.tracks@[i]).unique_id == id
    }

    /// The index of the track with this unique id.
    pub open spec fn index_of_track_id(self, id: u32) -> int {
        choose|i: int|
            0 <= i < self.tracks@.len() && (#[trigger] self.tracks@[i]).unique_id == id
    }

    /// An empty library.
    pub fn new() -> (r: Database)
        ensures
            r.wf(),
            r.tracks@ =~= Seq::<Track>::empty(),
            r.playlists@ =~= Seq::<Playlist>::empty(),
            r.next_id == 1,
    {
        Database { tracks: Vec::new(), playlists: Vec::new(), next_id: 1 }
    }

    /// The records a library may be built from: unique ids with headroom
    /// for fresh allocation, pairwise-distinct ids, pairwise-distinct
    /// fingerprints.
    pub open spec fn records_valid(tracks: Seq<Track>) -> bool {
        &&& forall|i: int|
            0 <= i < tracks.len() ==> (#[trigger] tracks[i]).unique_id < u32::MAX
        &&& forall|i: int, j: int|
            0 <= i < j < tracks.len() ==> (#[trigger] tracks[i]).unique_id != (
            #[trigger] tracks[j]).unique_id
        &&& forall|i: int, j: int|
            0 <= i < j < tracks.len() ==> (#[trigger] tracks[i]).dbid != (
            #[trigger] tracks[j]).dbid
    }

    /// Build a library from parsed records, validating the invariants the
    /// engine relies on: unique ids and fingerprints pairwise distinct. The
    /// allocation watermark is set one past the largest id seen. Succeeds
    /// exactly on valid records; an invalid store is rejected, never
    /// repaired.
    pub fn from_records(tracks: Vec<Track>, playlists: Vec<Playlist>) -> (r: Option<Database>)
        ensures
            r is Some <==> Self::records_valid(tracks@),
            r is Some ==> r->0.wf(),
            r is Some ==> r->0.tracks@ == tracks@ && r->0.playlists@ == playlists@,
    {
        let mut next_id: u32 = 1;
        let mut i: usize = 0;
        while i < tracks.len()
            invariant
                i <= tracks@.len(),
                next_id >= 1,
                forall|k: int| 0 <= k < i ==> (#[trigger] tracks@[k]).unique_id < next_id,
                forall|k: int| 0 <= k < i ==> (#[trigger] tracks@[k]).unique_id < u32::MAX,
                forall|k1: int, k2: int|
                    0 <= k1 < i && k1 < k2 < tracks@.len() ==> (#[trigger] tracks@[k1]).unique_id
                        != (#[trigger] tracks@[k2]).unique_id,
                forall|k1: int, k2: int|
                    0 <= k1 < i && k1 < k2 < tracks@.len() ==> (#[trigger] tracks@[k1]).dbid != (
                    #[trigger] tracks@[k2]).dbid,
            decreases tracks@.len() - i,
        {
            if tracks[i].unique_id == u32::MAX {
                proof {
                    assert(!Self::records_valid(tracks@));
                }
                return None;
            }
            if tracks[i].unique_id >= next_id {
                next_id = tracks[i].unique_id + 1;
            }
            let mut j: usize = i + 1;
            while j < tracks.len()
                invariant
                    i < j <= tracks@.len(),
                    forall|k: int|
                        i < k < j ==> (#[trigger] tracks@[k]).unique_id != tracks@[i as int].unique_id
                            && (#[trigger] tracks@[k]).dbid != tracks@[i as int].dbid,
                decreases tracks@.len() - j,
            {
                if tracks[j].unique_id == tracks[i].unique_id || tracks[j].dbid == tracks[i].dbid {
                    proof {
                        assert(!Self::records_valid(tracks@));
                    }
                    return None;
                }
                j = j + 1;
            }
            i = i + 1;
        }
        Some(Database { tracks, playlists, next_id })
    }

    /// Is a track with this content fingerprint already in the library?
    pub fn if_track_in_library(&self, dbid: u64) -> (r: bool)
        ensures
            r == self.has_dbid(dbid),
    {
        let mut i: usize = 0;
        while i < self.tracks.len()
            invariant
                i <= self.tracks@.len(),
                forall|k: int| 0 <= k < i ==> (#[trigger] self.tracks@[k]).dbid != dbid,
            decreases self.tracks@.len() - i,
        {
            if self.tracks[i].dbid == dbid {
                return true;
            }
            i = i + 1;
        }
        false
    }

    /// The next fresh unique id. Reading does not allocate; `add_track`
    /// advances the watermark.
    pub fn get_unique_id(&self) -> (r: u32)
        ensures
            r == self.next_id,
    {
        self.next_id
    }

    /// The unique id of the track carrying this fingerprint, if any.
    pub fn get_unique_id_by_dbid(&self, dbid: u64) -> (r: Option<u32>)
        ensures
            r is Some <==> self.has_dbid(dbid),
            r is Some ==> exists|i: int|
                0 <= i < self.tracks@.len() && (#[trigger] self.tracks@[i]).dbid == dbid && self.tracks@[i].unique_id == r->0,
    {
        let mut i: usize = 0;
        while i < self.tracks.len()
            invariant
                i <= self.tracks@.len(),
                forall|k: int| 0 <= k < i ==> (#[trigger] self.tracks@[k]).dbid != dbid,
            decreases self.tracks@.len() - i,
        {
            if self.tracks[i].dbid == dbid {
                return Some(self.tracks[i].unique_id);
            }
            i = i + 1;
        }
        None
    }

    /// The track with this unique id, if any.
    pub fn get_track(&self, id: u32) -> (r: Option<Track>)
        ensures
            r is Some <==> self.has_track_id(id),
            r is Some ==> exists|i: int|
                0 <= i < self.tracks@.len() && #[trigger] self.tracks@[i] == r->0
                    && self.tracks@[i].unique_id == id,
    {
        let mut i: usize = 0;
        while i < self.tracks.len()
            invariant
                i <= self.tracks@.len(),
                forall|k: int| 0 <= k < i ==> (#[trigger] self.tracks@[k]).unique_id != id,
            decreases self.tracks@.len() - i,
        {
            if self.tracks[i].unique_id == id {
                return Some(self.tracks[i].clone());
            }
            i = i + 1;
        }
        None
    }

    /// Append one track and hand its id to the first master playlist, if one
    /// exists. The track must carry the next fresh id and a fingerprint not
    /// yet in the library.
    pub fn add_track(&mut self, t: Track)
        requires
            old(self).wf(),
            t.unique_id == old(self).next_id,
            old(self).next_id < u32::MAX,
            !old(self).has_dbid(t.dbid),
        ensures
            final(self).wf(),
            final(self).tracks@ == old(self).tracks@.push(t),
            master_append_rel(old(self).playlists@, final(self).playlists@, t.unique_id),
            final(self).next_id == old(self).next_id + 1,
    {
        proof {
            assert forall|i: int| 0 <= i < self.tracks@.len() implies (
            #[trigger] self.tracks@[i]).dbid != t.dbid by {
                assert(self.has_dbid(self.tracks@[i].dbid));
            }
        }
        let id = t.unique_id;
        self.tracks.push(t);
        self.next_id = self.next_id + 1;
        proof {
            assert(self.wf());
        }
        let mut i: usize = 0;
        let ghost pls = self.playlists@;
        while i < self.playlists.len()
            invariant
                i <= pls.len(),
                self.playlists@ == pls,
                self.wf(),
                self.tracks@ == old(self).tracks@.push(t),
                self.next_id == old(self).next_id + 1,
                forall|k: int| 0 <= k < i ==> !(#[trigger] pls[k]).is_master,
            decreases pls.len() - i,
        {
            if self.playlists[i].is_master {
                let mut pl = self.playlists[i].clone();
                pl.tracks.push(id);
                self.playlists[i] = pl;
                proof {
                    assert(is_first_master(pls, i as int));
                    assert(self.playlists@ =~= pls.update(i as int, self.playlists@[i as int]));
                    assert(master_append_rel(pls, self.playlists@, id));
                }
                return;
            }
            i = i + 1;
        }
    }

    /// Hard-remove a track: delete its record and every occurrence of its id
    /// from every playlist's member list. The rest of the library is kept,
    /// in order.
    pub fn remove_track_completely(&mut self, id: u32)
        requires
            old(self).wf(),
        ensures
            final(self).wf(),
            final(self).tracks@ == tracks_without(old(self).tracks@, id),
            final(self).next_id == old(self).next_id,
            final(self).playlists@.len() == old(self).playlists@.len(),
            forall|k: int|
                0 <= k < old(self).playlists@.len() ==> {
                    &&& (#[trigger] final(self).playlists@[k]).persistent_playlist_id == old(
                        self,
                    ).playlists@[k].persistent_playlist_id
                    &&& final(self).playlists@[k].title == old(self).playlists@[k].title
                    &&& final(self).playlists@[k].timestamp == old(self).playlists@[k].timestamp
                    &&& final(self).playlists@[k].is_master == old(self).playlists@[k].is_master
                    &&& final(self).playlists@[k].tracks@ == ids_without(
                        old(self).playlists@[k].tracks@,
                        id,
                    )
                },
    {
        let ghost orig = self.tracks@;
        let mut i: usize = 0;
        let ghost mut j: int = 0;
        while i < self.tracks.len()
            invariant
                0 <= j <= orig.len(),
                self.wf(),
                self.next_id == old(self).next_id,
                self.playlists@ == old(self).playlists@,
                self.tracks@ =~= tracks_without(orig.subrange(0, j), id) + orig.subrange(
                    j,
                    orig.len() as int,
                ),
                i == tracks_without(orig.subrange(0, j), id).len(),
            decreases orig.len() - j,
        {
            proof {
                assert(self.tracks@[i as int] == orig[j]);
                assert(orig.subrange(0, j + 1).drop_last() =~= orig.subrange(0, j));
            }
            if self.tracks[i].unique_id == id {
                self.tracks.remove(i);
                proof {
                    j = j + 1;
                    assert(self.tracks@ =~= tracks_without(orig.subrange(0, j), id)
                        + orig.subrange(j, orig.len() as int));
                }
            } else {
                i = i + 1;
                proof {
                    j = j + 1;
                    assert(self.tracks@ =~= tracks_without(orig.subrange(0, j), id)
                        + orig.subrange(j, orig.len() as int));
                }
            }
        }
        proof {
            assert(j == orig.len());
            assert(orig.subrange(0, orig.len() as int) =~= orig);
            assert(self.tracks@ =~= tracks_without(orig, id));
        }
        let ghost origpls = self.playlists@;
        let mut p: usize = 0;
        while p < self.playlists.len()
            invariant
                p <= origpls.len(),
                self.wf(),
                self.next_id == old(self).next_id,
                self.tracks@ == tracks_without(orig, id),
                self.playlists@.len() == origpls.len(),
                forall|k: int| p <= k < origpls.len() ==> self.playlists@[k] == origpls[k],
                forall|k: int|
                    0 <= k < p ==> {
                        &&& (#[trigger] self.playlists@[k]).persistent_playlist_id
                            == origpls[k].persistent_playlist_id
                        &&& self.playlists@[k].title == origpls[k].title
                        &&& self.playlists@[k].timestamp == origpls[k].timestamp
                        &&& self.playlists@[k].is_master == origpls[k].is_master
                        &&& self.playlists@[k].tracks@ == ids_without(origpls[k].tracks@, id)
                    },
            decreases origpls.len() - p,
        {
            let pl = self.playlists[p].clone();
            let members = filter_members(&pl.tracks, id);
            self.playlists[p] = Playlist {
                persistent_playlist_id: pl.persistent_playlist_id,
                title: pl.title,
                timestamp: pl.timestamp,
                is_master: pl.is_master,
                tracks: members,
            };
            p = p + 1;
        }
    }

    /// Remove the playlist record(s) carrying `pl_id`. Member tracks stay in
    /// the library; every other playlist is kept, in order.
    pub fn remove_playlist(&mut self, pl_id: u64)
        requires
            old(self).wf(),
        ensures
            final(self).wf(),
            final(self).tracks@ == old(self).tracks@,
            final(self).next_id == old(self).next_id,
            final(self).playlists@ == playlists_without(old(self).playlists@, pl_id),
    {
        let ghost orig = self.playlists@;
        let mut i: usize = 0;
        let ghost mut j: int = 0;
        while i < self.playlists.len()
            invariant
                0 <= j <= orig.len(),
                self.wf(),
                self.next_id == old(self).next_id,
                self.tracks@ == old(self).tracks@,
                self.playlists@ =~= playlists_without(orig.subrange(0, j), pl_id)
                    + orig.subrange(j, orig.len() as int),
                i == playlists_without(orig.subrange(0, j), pl_id).len(),
            decreases orig.len() - j,
        {
            proof {
                assert(self.playlists@[i as int] == orig[j]);
                assert(orig.subrange(0, j + 1).drop_last() =~= orig.subrange(0, j));
            }
            if self.playlists[i].persistent_playlist_id == pl_id {
                self.playlists.remove(i);
                proof {
                    j = j + 1;
                    assert(self.playlists@ =~= playlists_without(orig.subrange(0, j), pl_id)
                        + orig.subrange(j, orig.len() as int));
                }
            } else {
                i = i + 1;
                proof {
                    j = j + 1;
                    assert(self.playlists@ =~= playlists_without(orig.subrange(0, j), pl_id)
                        + orig.subrange(j, orig.len() as int));
                }
            }
        }
        proof {
            assert(orig.subrange(0, orig.len() as int) =~= orig);
            assert(self.playlists@ =~= playlists_without(orig, pl_id));
        }
    }

    /// Remove one membership entry: the first occurrence of the track's id
    /// in the first playlist carrying `pl_id`, touching neither the track
    /// records nor any other playlist or occurrence.
    pub fn remove_track_from_playlist(&mut self, track_id: u32, pl_id: u64)
        requires
            old(self).wf(),
        ensures
            final(self).wf(),
            final(self).tracks@ == old(self).tracks@,
            final(self).next_id == old(self).next_id,
            final(self).playlists@.len() == old(self).playlists@.len(),
            forall|k: int|
                0 <= k < old(self).playlists@.len() && !is_first_playlist_with(
                    old(self).playlists@,
                    pl_id,
                    k,
                ) ==> final(self).playlists@[k] == old(self).playlists@[k],
            forall|k: int|
                is_first_playlist_with(old(self).playlists@, pl_id, k) ==> {
                    &&& (#[trigger] final(self).playlists@[k]).persistent_playlist_id
                        == old(self).playlists@[k].persistent_playlist_id
                    &&& final(self).playlists@[k].title == old(self).playlists@[k].title
                    &&& final(self).playlists@[k].timestamp == old(self).playlists@[k].timestamp
                    &&& final(self).playlists@[k].is_master == old(self).playlists@[k].is_master
                    &&& final(self).playlists@[k].tracks@ == remove_first_id(
                        old(self).playlists@[k].tracks@,
                        track_id,
                    )
                },
    {
        let n = self.playlists.len();
        let mut p: usize = 0;
        while p < n && self.playlists[p].persistent_playlist_id != pl_id
            invariant
                n == self.playlists@.len(),
                p <= n,
                forall|k: int|
                    0 <= k < p ==> (#[trigger] self.playlists@[k]).persistent_playlist_id != pl_id,
            decreases n - p,
        {
            p = p + 1;
        }
        if p == n {
            return ;
        }
        proof {
            assert(is_first_playlist_with(self.playlists@, pl_id, p as int));
            assert forall|c: int|
                is_first_playlist_with(self.playlists@, pl_id, c) implies c == p as int by {
                if c < p as int {
                    assert(self.playlists@[c].persistent_playlist_id != pl_id);
                } else if c > p as int {
                    assert(self.playlists@[p as int].persistent_playlist_id != pl_id);
                }
            }
        }
        let pl = self.playlists[p].clone();
        let mut members = clone_ids(&pl.tracks);
        let m = members.len();
        let mut j: usize = 0;
        while j < m && members[j] != track_id
            invariant
                m == members@.len(),
                members@ == old(self).playlists@[p as int].tracks@,
                j <= m,
                forall|k: int| 0 <= k < j ==> members@[k] != track_id,
            decreases m - j,
        {
            j = j + 1;
        }
        if j < m {
            members.remove(j);
            proof {
                let orig = old(self).playlists@[p as int].tracks@;
                assert(orig.contains(track_id)) by {
                    assert(orig[j as int] == track_id);
                }
                let c = first_index_of(orig, track_id);
                assert(orig[c] == track_id && (forall|k: int| 0 <= k < c ==> orig[k] != track_id));
                assert(c == j as int) by {
                    if c < j as int {
                        assert(orig[c] != track_id);
                    } else if c > j as int {
                        assert(orig[j as int] != track_id);
                    }
                }
                assert(members@ == remove_first_id(orig, track_id));
            }
        } else {
            proof {
                let orig = old(self).playlists@[p as int].tracks@;
                assert(!orig.contains(track_id)) by {
                    if orig.contains(track_id) {
                        let w = choose|w: int| 0 <= w < orig.len() && orig[w] == track_id;
                    }
                }
            }
        }
        self.playlists[p] = Playlist {
            persistent_playlist_id: pl.persistent_playlist_id,
            title: pl.title,
            timestamp: pl.timestamp,
            is_master: pl.is_master,
            tracks: members,
        };
    }

    /// The member tracks of a playlist, resolved against this library in
    /// member order; ids that resolve to no track are dropped.
    pub open spec fn resolve_members(self, members: Seq<u32>) -> Seq<Track>
        decreases members.len(),
    {
        if members.len() == 0 {
            Seq::empty()
        } else {
            self.resolve_members(members.drop_last()) + (if self.has_track_id(members.last()) {
                seq![self.tracks@[self.index_of_track_id(members.last())]]
            } else {
                Seq::empty()
            })
        }
    }

    /// Resolve one member list into track records.
    fn to_tracks(&self, members: &Vec<u32>) -> (r: Vec<Track>)
        requires
            self.wf(),
        ensures
            r@ == self.resolve_members(members@),
    {
        let mut out: Vec<Track> = Vec::new();
        let mut i: usize = 0;
        while i < members.len()
            invariant
                i <= members@.len(),
                out@ =~= self.resolve_members(members@.subrange(0, i as int)),
            decreases members@.len() - i,
        {
            proof {
                assert(members@.subrange(0, i + 1 as int).drop_last() =~= members@.subrange(
                    0,
                    i as int,
                ));
            }
            match self.get_track(members[i]) {
                Some(t) => {
                    proof {
                        let w = choose|w: int|
                            0 <= w < self.tracks@.len() && #[trigger] self.tracks@[w] == t
                                && self.tracks@[w].unique_id == members@[i as int];
                        let c = self.index_of_track_id(members@[i as int]);
                        assert(self.tracks@[c].unique_id == members@[i as int]);
                        assert(w == c);
                    }
                    out.push(t);
                },
                None => {
                },
            }
            proof {
                assert(out@ =~= self.resolve_members(members@.subrange(0, i + 1 as int)));
            }
            i = i + 1;
        }
        proof {
            assert(members@.subrange(0, members@.len() as int) =~= members@);
        }
        out
    }

    /// The snapshot handed to the presentation layer after every mutation:
    /// every playlist with its member tracks resolved, in database order.
    pub fn get_playlists(&self) -> (r: Vec<DBPlaylist>)
        requires
            self.wf(),
        ensures
            r@.len() == self.playlists@.len(),
            forall|k: int|
                0 <= k < self.playlists@.len() ==> {
                    &&& (#[trigger] r@[k]).id == self.playlists@[k].persistent_playlist_id
                    &&& r@[k].title == self.playlists@[k].title
                    &&& r@[k].timestamp == self.playlists@[k].timestamp
                    &&& r@[k].tracks@ == self.resolve_members(self.playlists@[k].tracks@)
                },
    {
        let mut out: Vec<DBPlaylist> = Vec::new();
        let mut i: usize = 0;
        while i < self.playlists.len()
            invariant
                i <= self.playlists@.len(),
                out@.len() == i,
                forall|k: int|
                    0 <= k < i ==> {
                        &&& (#[trigger] out@[k]).id == self.playlists@[k].persistent_playlist_id
                        &&& out@[k].title == self.playlists@[k].title
                        &&& out@[k].timestamp == self.playlists@[k].timestamp
                        &&& out@[k].tracks@ == self.resolve_members(self.playlists@[k].tracks@)
                    },
            decreases self.playlists@.len() - i,
        {
            let pl = self.playlists[i].clone();
            let tracks = self.to_tracks(&pl.tracks);
            out.push(DBPlaylist {
                id: pl.persistent_playlist_id,
                title: pl.title,
                timestamp: pl.timestamp,
                tracks,
            });
            i = i + 1;
        }
        out
    }

    /// Append one playlist record.
    pub fn add_playlist(&mut self, p: Playlist)
        requires
            old(self).wf(),
        ensures
            final(self).wf(),
            final(self).playlists@ == old(self).playlists@.push(p),
            final(self).tracks@ == old(self).tracks@,
            final(self).next_id == old(self).next_id,
    {
        self.playlists.push(p);
    }
}

/// The track list with every record carrying `id` removed, order kept.
pub open spec fn tracks_without(s: Seq<Track>, id: u32) -> Seq<Track>
    decreases s.len(),
{
    if s.len() == 0 {
        s
    } else if s.last().unique_id == id {
        tracks_without(s.drop_last(), id)
    } else {
        tracks_without(s.drop_last(), id).push(s.last())
    }
}

/// A member list with every occurrence of `id` removed, order kept.
pub open spec fn ids_without(s: Seq<u32>, id: u32) -> Seq<u32>
    decreases s.len(),
{
    if s.len() == 0 {
        s
    } else if s.last() == id {
        ids_without(s.drop_last(), id)
    } else {
        ids_without(s.drop_last(), id).push(s.last())
    }
}

/// The playlist list with every record carrying `pl_id` removed, order kept.
pub open spec fn playlists_without(s: Seq<Playlist>, pl_id: u64) -> Seq<Playlist>
    decreases s.len(),
{
    if s.len() == 0 {
        s
    } else if s.last().persistent_playlist_id == pl_id {
        playlists_without(s.drop_last(), pl_id)
    } else {
        playlists_without(s.drop_last(), pl_id).push(s.last())
    }
}

/// No removed track remains, and every other one is kept.
pub broadcast proof fn lemma_tracks_without(s: Seq<Track>, id: u32)
    ensures
        forall|k: int|
            0 <= k < tracks_without(s, id).len() ==> (#[trigger] tracks_without(s, id)[k]).unique_id
                != id && s.contains(tracks_without(s, id)[k]),
        forall|k: int|
            0 <= k < s.len() && (#[trigger] s[k]).unique_id != id ==> #[trigger] tracks_without(
                s,
                id,
            ).contains(s[k]),
        #[trigger] tracks_without(s, id).len() <= s.len(),
    decreases s.len(),
{
    if s.len() > 0 {
        lemma_tracks_without(s.drop_last(), id);
        let r0 = tracks_without(s.drop_last(), id);
        let r = tracks_without(s, id);
        assert forall|k: int|
            0 <= k < s.len() && (#[trigger] s[k]).unique_id != id implies tracks_without(
            s,
            id,
        ).contains(s[k]) by {
            if k < s.len() - 1 {
                assert(s.drop_last()[k] == s[k]);
                assert(s.drop_last().contains(s[k]));
                assert(r0.contains(s[k]));
                let j = choose|j: int| 0 <= j < r0.len() && r0[j] == s[k];
                assert(r[j] == s[k]);
                assert(r.contains(s[k]));
            } else {
                assert(r.last() == s[k]);
                assert(r.contains(s[k]));
            }
        }
        assert forall|k: int| 0 <= k < r.len() implies (#[trigger] r[k]).unique_id != id
            && s.contains(r[k]) by {
            if k < r0.len() {
                assert(r[k] == r0[k]);
                assert(s.drop_last().contains(r0[k]));
                let j = choose|j: int| 0 <= j < s.drop_last().len() && s.drop_last()[j] == r0[k];
                assert(s[j] == r0[k]);
                assert(s.contains(r[k]));
            } else {
                assert(r[k] == s.last());
                assert(s[s.len() - 1] == s.last());
                assert(s.contains(r[k]));
            }
        }
    }
}

/// No removed member remains, and every other occurrence is kept.
pub broadcast proof fn lemma_ids_without(s: Seq<u32>, id: u32)
    ensures
        forall|k: int|
            0 <= k < ids_without(s, id).len() ==> (#[trigger] ids_without(s, id)[k]) != id
                && s.contains(ids_without(s, id)[k]),
        forall|x: u32| s.contains(x) && x != id ==> #[trigger] ids_without(s, id).contains(x),
        #[trigger] ids_without(s, id).len() <= s.len(),
    decreases s.len(),
{
    if s.len() > 0 {
        lemma_ids_without(s.drop_last(), id);
        let r0 = ids_without(s.drop_last(), id);
        let r = ids_without(s, id);
        assert forall|x: u32| s.contains(x) && x != id implies ids_without(s, id).contains(
            x,
        ) by {
            let k = choose|k: int| 0 <= k < s.len() && s[k] == x;
            if k < s.len() - 1 {
                assert(s.drop_last()[k] == x);
                assert(s.drop_last().contains(x));
                assert(r0.contains(x));
                let j = choose|j: int| 0 <= j < r0.len() && r0[j] == x;
                assert(r[j] == x);
                assert(r.contains(x));
            } else {
                assert(r.last() == x);
                assert(r.contains(x));
            }
        }
        assert forall|k: int| 0 <= k < r.len() implies (#[trigger] r[k]) != id && s.contains(
            r[k],
        ) by {
            if k < r0.len() {
                assert(r[k] == r0[k]);
                assert(s.drop_last().contains(r0[k]));
                let j = choose|j: int| 0 <= j < s.drop_last().len() && s.drop_last()[j] == r0[k];
                assert(s[j] == r0[k]);
                assert(s.contains(r[k]));
            } else {
                assert(r[k] == s.last());
                assert(s[s.len() - 1] == s.last());
                assert(s.contains(r[k]));
            }
        }
    }
}

/// No removed playlist remains, and every other one is kept.
pub broadcast proof fn lemma_playlists_without(s: Seq<Playlist>, pl_id: u64)
    ensures
        forall|k: int|
            0 <= k < playlists_without(s, pl_id).len() ==> (#[trigger] playlists_without(
                s,
                pl_id,
            )[k]).persistent_playlist_id != pl_id && s.contains(playlists_without(s, pl_id)[k]),
        #[trigger] playlists_without(s, pl_id).len() <= s.len(),
    decreases s.len(),
{
    if s.len() > 0 {
        lemma_playlists_without(s.drop_last(), pl_id);
        let r0 = playlists_without(s.drop_last(), pl_id);
        let r = playlists_without(s, pl_id);
        assert forall|k: int|
            0 <= k < r.len() implies (#[trigger] r[k]).persistent_playlist_id != pl_id
            && s.contains(r[k]) by {
            if k < r0.len() {
                assert(r[k] == r0[k]);
                assert(s.drop_last().contains(r0[k]));
                let j = choose|j: int| 0 <= j < s.drop_last().len() && s.drop_last()[j] == r0[k];
                assert(s[j] == r0[k]);
                assert(s.contains(r[k]));
            } else {
                assert(r[k] == s.last());
                assert(s[s.len() - 1] == s.last());
                assert(s.contains(r[k]));
            }
        }
    }
}

/// The position of the first occurrence of `id`.
pub open spec fn first_index_of(s: Seq<u32>, id: u32) -> int {
    choose|i: int| 0 <= i < s.len() && s[i] == id && (forall|j: int| 0 <= j < i ==> s[j] != id)
}

/// The member list with exactly its first occurrence of `id` removed;
/// without an occurrence the list is unchanged.
pub open spec fn remove_first_id(s: Seq<u32>, id: u32) -> Seq<u32> {
    if s.contains(id) {
        s.remove(first_index_of(s, id))
    } else {
        s
    }
}

/// Position `k` holds the first playlist carrying `pl_id`.
pub open spec fn is_first_playlist_with(pls: Seq<Playlist>, pl_id: u64, k: int) -> bool {
    &&& 0 <= k < pls.len()
    &&& pls[k].persistent_playlist_id == pl_id
    &&& forall|j: int| 0 <= j < k ==> (#[trigger] pls[j]).persistent_playlist_id != pl_id
}

/// Position `k` holds the first playlist flagged as master.
pub open spec fn is_first_master(pls: Seq<Playlist>, k: int) -> bool {
    &&& 0 <= k < pls.len()
    &&& pls[k].is_master
    &&& forall|j: int| 0 <= j < k ==> !(#[trigger] pls[j]).is_master
}

/// `new` is `old` after handing a freshly added track's id to the first
/// master playlist: that playlist's member list grows by the id, every other
/// playlist (and, without a master, everything) is unchanged.
pub open spec fn master_append_rel(olds: Seq<Playlist>, news: Seq<Playlist>, id: u32) -> bool {
    &&& news.len() == olds.len()
    &&& forall|k: int|
        0 <= k < olds.len() && !is_first_master(olds, k) ==> #[trigger] news[k] == olds[k]
    &&& forall|k: int|
        is_first_master(olds, k) ==> {
            &&& (#[trigger] news[k]).persistent_playlist_id == olds[k].persistent_playlist_id
            &&& news[k].title == olds[k].title
            &&& news[k].timestamp == olds[k].timestamp
            &&& news[k].is_master == olds[k].is_master
            &&& news[k].tracks@ == olds[k].tracks@.push(id)
        }
}

} // verus!
