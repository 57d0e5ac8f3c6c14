//! The synchronization engine: a single-writer actor owning the library
//! database. It starts awaiting a device; once the device's database is
//! handed over it becomes ready and consumes one command at a time,
//! returning the events to announce and the filesystem actions to perform.
//! No two mutating commands ever run concurrently: the engine is a value
//! with one owner, and each command's handling finishes before the next.

use crate::artwork::ArtworkIndex;
use crate::db::{
    ids_without, is_first_playlist_with, lemma_ids_without, lemma_tracks_without,
    playlists_without, remove_first_id, tracks_without, Database, Playlist,
};
use crate::events::{
    count_copies, count_persists, count_removes, count_writes, emits_snapshot_at,
    lemma_count_zero, lemma_counts_add, persisted_then_quiet, Action, AppEvent, AppState,
    PhaseColor,
};
use crate::import::{
    count_importable, db_fps, import_files, import_files_as_playlist, import_one, importable_fps,
    lemma_prefix_keeps_members, new_count, ImportItem,
};
use crate::layout::{full_track_location_seq, get_full_track_location};
use crate::search::{search_results_ok, track_search};
use vstd::prelude::*;

verus! {

broadcast use
    crate::events::lemma_count_copies_push,
    crate::events::lemma_count_writes_push,
    crate::events::lemma_count_removes_push,
    crate::events::lemma_count_persists_push;

/// What device discovery and parsing handed over: the mount point, the
/// parsed library, and the parsed artwork index.
pub struct DeviceData {
    pub root: String,
    pub db: Database,
    pub artwork: ArtworkIndex,
}

/// One command for the engine, constructed by the shell from what the
/// presentation layer asked and what the outside collaborators (downloader,
/// probe, tag readers) returned.
pub enum Command {
    DeviceSearched(Option<DeviceData>),
    LoadFromFS(ImportItem),
    LoadFromFSVec(Vec<ImportItem>),
    LoadFromFSPL(Vec<ImportItem>, String, u64, u32),
    DownloadPlaylist(bool, Vec<ImportItem>, String, u64, u32),
    DownloadTrack(bool, ImportItem),
    RemoveTrack(u32),
    RemovePlaylist(u64, bool),
    RemoveTrackFromPlaylist(u32, u64),
    SearchFor(String),
}

/// The engine's state: awaiting a device, or ready with the device's data.
pub struct Engine {
    pub ready: bool,
    pub root: String,
    pub db: Database,
    pub artwork: ArtworkIndex,
}

/// The set of on-device paths after one action is performed.
pub open spec fn apply_action(fs: Set<Seq<char>>, a: Action) -> Set<Seq<char>> {
    match a {
        Action::CopyFile { src, dest } => fs.insert(dest@),
        Action::WriteImage { path, image } => fs.insert(path@),
        Action::RemoveFile { path } => fs.remove(path@),
        _ => fs,
    }
}

/// The set of on-device paths after a list of actions is performed in order.
pub open spec fn apply_actions(fs: Set<Seq<char>>, s: Seq<Action>) -> Set<Seq<char>>
    decreases s.len(),
{
    if s.len() == 0 {
        fs
    } else {
        apply_action(apply_actions(fs, s.drop_last()), s.last())
    }
}

/// A path that some action removes, in a list whose actions create no file,
/// is absent whatever was on the device before.
pub proof fn lemma_removed_stays(fs: Set<Seq<char>>, s: Seq<Action>, p: Seq<char>)
    requires
        forall|k: int|
            0 <= k < s.len() ==> !((#[trigger] s[k]) is CopyFile) && !(s[k] is WriteImage),
        exists|k: int|
            0 <= k < s.len() && ((#[trigger] s[k]) matches Action::RemoveFile { path } && path@
                == p),
    ensures
        !apply_actions(fs, s).contains(p),
    decreases s.len(),
{
    let k = choose|k: int|
        0 <= k < s.len() && ((#[trigger] s[k]) matches Action::RemoveFile { path } && path@ == p);
    if k == s.len() - 1 {
    } else {
        assert(s.drop_last()[k] == s[k]);
        lemma_removed_stays(fs, s.drop_last(), p);
    }
}

/// Performing a concatenation is performing its parts in order.
pub proof fn lemma_apply_concat(fs: Set<Seq<char>>, a: Seq<Action>, b: Seq<Action>)
    ensures
        apply_actions(fs, a + b) == apply_actions(apply_actions(fs, a), b),
    decreases b.len(),
{
    if b.len() == 0 {
        assert(a + b =~= a);
    } else {
        assert((a + b).drop_last() =~= a + b.drop_last());
        lemma_apply_concat(fs, a, b.drop_last());
    }
}

/// A path absent from the device stays absent under actions that create no
/// file.
pub proof fn lemma_absent_stays(fs: Set<Seq<char>>, s: Seq<Action>, p: Seq<char>)
    requires
        !fs.contains(p),
        forall|k: int|
            0 <= k < s.len() ==> !((#[trigger] s[k]) is CopyFile) && !(s[k] is WriteImage),
    ensures
        !apply_actions(fs, s).contains(p),
    decreases s.len(),
{
    if s.len() > 0 {
        lemma_absent_stays(fs, s.drop_last(), p);
    }
}

/// Some action removes the file at `p`.
pub open spec fn has_remove_action(s: Seq<Action>, p: Seq<char>) -> bool {
    exists|q: int|
        0 <= q < s.len() && ((#[trigger] s[q]) matches Action::RemoveFile { path } && path@ == p)
}

/// A prefix-preserving extension keeps a file-removal action for `p`.
pub proof fn lemma_remove_kept(pre: Seq<Action>, post: Seq<Action>, p: Seq<char>)
    requires
        pre.len() <= post.len(),
        forall|k: int| 0 <= k < pre.len() ==> post[k] == pre[k],
        has_remove_action(pre, p),
    ensures
        has_remove_action(post, p),
{
    let q = choose|q: int|
        0 <= q < pre.len() && ((#[trigger] pre[q]) matches Action::RemoveFile { path } && path@
            == p);
    assert(post[q] == pre[q]);
}

/// The extensions a hard removal deletes the media file under.
pub open spec fn tracked_extensions() -> Seq<Seq<char>> {
    seq!["mp3"@, "m4a"@, "wav"@, "aif"@]
}

/// After the hard-removal actions run, no file of the removed track remains
/// under any tracked extension, whatever was on the device before.
pub open spec fn track_files_gone(acts: Seq<Action>, root: Seq<char>, id: u32) -> bool {
    forall|fs: Set<Seq<char>>, e: int|
        0 <= e < tracked_extensions().len() ==> !apply_actions(fs, acts).contains(
            full_track_location_seq(root, id, tracked_extensions()[e]),
        )
}

/// The library transition of hard-removing one track: its record is gone,
/// every other record is kept in order, and every playlist keeps its
/// identity with the removed id filtered from its member list.
pub open spec fn track_removed_rel(o: Database, n: Database, id: u32) -> bool {
    &&& n.tracks@ == tracks_without(o.tracks@, id)
    &&& n.next_id == o.next_id
    &&& n.playlists@.len() == o.playlists@.len()
    &&& forall|k: int|
        0 <= k < o.playlists@.len() ==> {
            &&& (#[trigger] n.playlists@[k]).persistent_playlist_id
                == o.playlists@[k].persistent_playlist_id
            &&& n.playlists@[k].title == o.playlists@[k].title
            &&& n.playlists@[k].timestamp == o.playlists@[k].timestamp
            &&& n.playlists@[k].is_master == o.playlists@[k].is_master
            &&& n.playlists@[k].tracks@ == ids_without(o.playlists@[k].tracks@, id)
        }
}

/// The library transition of soft-removing a playlist: the record(s) with
/// that id are gone and every track record is untouched.
pub open spec fn playlist_soft_removed_rel(o: Database, n: Database, pl_id: u64) -> bool {
    &&& n.tracks@ == o.tracks@
    &&& n.next_id == o.next_id
    &&& n.playlists@ == playlists_without(o.playlists@, pl_id)
}

/// The library transition of removing one membership entry: only the first
/// playlist carrying the id changes, and only by dropping the first
/// occurrence of the track's id from its member list.
pub open spec fn membership_removed_rel(o: Database, n: Database, track_id: u32, pl_id: u64) -> bool {
    &&& n.tracks@ == o.tracks@
    &&& n.next_id == o.next_id
    &&& n.playlists@.len() == o.playlists@.len()
    &&& forall|k: int|
        0 <= k < o.playlists@.len() && !is_first_playlist_with(o.playlists@, pl_id, k)
            ==> #[trigger] n.playlists@[k] == o.playlists@[k]
    &&& forall|k: int|
        is_first_playlist_with(o.playlists@, pl_id, k) ==> {
            &&& (#[trigger] n.playlists@[k]).persistent_playlist_id
                == o.playlists@[k].persistent_playlist_id
            &&& n.playlists@[k].title == o.playlists@[k].title
            &&& n.playlists@[k].timestamp == o.playlists@[k].timestamp
            &&& n.playlists@[k].is_master == o.playlists@[k].is_master
            &&& n.playlists@[k].tracks@ == remove_first_id(o.playlists@[k].tracks@, track_id)
        }
}

impl Engine {
    /// The engine's invariant: once ready, the library and artwork index
    /// are well-formed.
    pub open spec fn wf(self) -> bool {
        self.ready ==> self.db.wf() && self.artwork.wf()
    }

    /// A fresh engine, awaiting device discovery.
    pub fn new() -> (r: Engine)
        ensures
            r.wf(),
            !r.ready,
    {
        Engine {
            ready: false,
            root: String::new(),
            db: crate::db::Database::new(),
            artwork: ArtworkIndex::new(),
        }
    }

    /// Hard-remove one track: delete the record, every playlist membership,
    /// and the on-device media file under every tracked extension, then
    /// persist and announce the new snapshot.
    pub fn do_remove_track(&mut self, id: u32) -> (acts: Vec<Action>)
        requires
            old(self).db.wf(),
        ensures
            final(self).db.wf(),
            final(self).ready == old(self).ready,
            final(self).root == old(self).root,
            final(self).artwork == old(self).artwork,
            track_removed_rel(old(self).db, final(self).db, id),
            count_copies(acts@) == 0,
            count_writes(acts@) == 0,
            count_removes(acts@) == 4,
            acts@.len() == 9,
            acts@[0] == Action::Emit(AppEvent::OverallProgress(0, 1, PhaseColor::Red)),
            forall|e: int|
                0 <= e < 4 ==> ((#[trigger] acts@[1 + e]) matches Action::RemoveFile { path }
                    && path@ == full_track_location_seq(
                    old(self).root@,
                    id,
                    tracked_extensions()[e],
                )),
            acts@[5] == Action::Emit(AppEvent::OverallProgress(1, 1, PhaseColor::Red)),
            acts@[6] == Action::Emit(AppEvent::SwitchScreen(AppState::MainScreen)),
            acts@.last() is PersistDatabase,
            persisted_then_quiet(acts@),
            emits_snapshot_at(acts@, acts@.len() - 2, final(self).db),
            track_files_gone(acts@, old(self).root@, id),
    {
        let mut acts: Vec<Action> = Vec::new();
        acts.push(Action::Emit(AppEvent::OverallProgress(0, 1, PhaseColor::Red)));
        self.db.remove_track_completely(id);
        acts.push(Action::RemoveFile { path: get_full_track_location(self.root.as_str(), id, "mp3") });
        acts.push(Action::RemoveFile { path: get_full_track_location(self.root.as_str(), id, "m4a") });
        acts.push(Action::RemoveFile { path: get_full_track_location(self.root.as_str(), id, "wav") });
        acts.push(Action::RemoveFile { path: get_full_track_location(self.root.as_str(), id, "aif") });
        acts.push(Action::Emit(AppEvent::OverallProgress(1, 1, PhaseColor::Red)));
        acts.push(Action::Emit(AppEvent::SwitchScreen(AppState::MainScreen)));
        let snap = self.db.get_playlists();
        acts.push(Action::Emit(AppEvent::ITunesParsed(snap)));
        acts.push(Action::PersistDatabase);
        proof {
            assert(acts@[acts@.len() - 1] is PersistDatabase);
            assert(persisted_then_quiet(acts@));
            assert(emits_snapshot_at(acts@, acts@.len() - 2, self.db));
            assert forall|fs: Set<Seq<char>>, e: int|
                0 <= e < tracked_extensions().len() implies !apply_actions(fs, acts@).contains(
                full_track_location_seq(old(self).root@, id, tracked_extensions()[e]),
            ) by {
                let p = full_track_location_seq(old(self).root@, id, tracked_extensions()[e]);
                assert(acts@[1 + e] matches Action::RemoveFile { path } && path@ == p);
                lemma_removed_stays(fs, acts@, p);
            }
        }
        acts
    }

    /// Remove one playlist record. A soft removal leaves every member track
    /// in the library and touches no file; a hard removal first hard-removes
    /// every then-current member of the first playlist carrying the id
    /// (records, all memberships, and the on-device file variants, with
    /// per-item progress), then the record. When no playlist carries the id,
    /// a hard removal does nothing at all.
    pub fn do_remove_playlist(&mut self, pl_id: u64, is_hard: bool) -> (acts: Vec<Action>)
        requires
            old(self).db.wf(),
        ensures
            final(self).db.wf(),
            final(self).ready == old(self).ready,
            final(self).root == old(self).root,
            final(self).artwork == old(self).artwork,
            !is_hard ==> playlist_soft_removed_rel(old(self).db, final(self).db, pl_id),
            !is_hard ==> {
                &&& acts@.len() == 5
                &&& acts@[0] == Action::Emit(AppEvent::OverallProgress(0, 1, PhaseColor::Red))
                &&& acts@[1] == Action::Emit(AppEvent::OverallProgress(1, 1, PhaseColor::Red))
                &&& acts@[2] == Action::Emit(AppEvent::SwitchScreen(AppState::MainScreen))
                &&& count_copies(acts@) == 0
                &&& count_writes(acts@) == 0
                &&& count_removes(acts@) == 0
                &&& persisted_then_quiet(acts@)
                &&& emits_snapshot_at(acts@, acts@.len() - 2, final(self).db)
            },
            is_hard ==> forall|k: int|
                0 <= k < final(self).db.playlists@.len() ==> (#[trigger] final(self).db.playlists@[k]).persistent_playlist_id != pl_id,
            is_hard && (forall|k: int|
                0 <= k < old(self).db.playlists@.len() ==> (#[trigger] old(self).db.playlists@[k]).persistent_playlist_id != pl_id) ==> *final(self) == *old(self)
                && acts@.len() == 0,
            is_hard ==> count_copies(acts@) == 0 && count_writes(acts@) == 0,
            is_hard ==> forall|w: int|
                is_first_playlist_with(old(self).db.playlists@, pl_id, w) ==> {
                    &&& (forall|m: u32|
                        old(self).db.playlists@[w].tracks@.contains(m) ==> !final(self).db.has_track_id(m))
                    &&& (forall|tid: u32|
                        old(self).db.has_track_id(tid)
                            && !old(self).db.playlists@[w].tracks@.contains(tid)
                            ==> #[trigger] final(self).db.has_track_id(tid))
                    &&& (forall|k: int, m: u32|
                        0 <= k < final(self).db.playlists@.len() && old(self).db.playlists@[w].tracks@.contains(m) ==> !(#[trigger] final(self).db.playlists@[k].tracks@.contains(m)))
                    &&& (forall|m: u32|
                        old(self).db.playlists@[w].tracks@.contains(m)
                            ==> #[trigger] track_files_gone(acts@, old(self).root@, m))
                    &&& (forall|j: int|
                        0 <= j < old(self).db.playlists@[w].tracks@.len() ==> #[trigger] acts@.contains(
                            Action::Emit(
                                AppEvent::OverallProgress(
                                    (j + 1) as u32,
                                    old(self).db.playlists@[w].tracks@.len() as u32,
                                    PhaseColor::Red,
                                ),
                            ),
                        ))
                    &&& persisted_then_quiet(acts@)
                    &&& emits_snapshot_at(acts@, acts@.len() - 2, final(self).db)
                },
    {
        let ghost root0 = old(self).root@;
        let mut acts: Vec<Action> = Vec::new();
        let ghost mut gw: int = 0;
        let ghost mut gmem: Seq<u32> = Seq::empty();
        if is_hard {
            let n = self.db.playlists.len();
            let mut i: usize = 0;
            while i < n && self.db.playlists[i].persistent_playlist_id != pl_id
                invariant
                    n == self.db.playlists@.len(),
                    i <= n,
                    forall|k: int|
                        0 <= k < i ==> (#[trigger] self.db.playlists@[k]).persistent_playlist_id
                            != pl_id,
                decreases n - i,
            {
                i = i + 1;
            }
            if i == n {
                return acts;
            }
            let w = i;
            proof {
                assert(is_first_playlist_with(old(self).db.playlists@, pl_id, w as int));
                gw = w as int;
            }
            let members = crate::db::clone_ids(&self.db.playlists[w].tracks);
            let total: u32 = #[verifier::truncate] (members.len() as u32);
            let ghost memseq = members@;
            proof {
                gmem = memseq;
            }
            let mut j: usize = 0;
            while j < members.len()
                invariant
                    j <= memseq.len(),
                    members@ == memseq,
                    total == memseq.len() as u32,
                    self.db.wf(),
                    self.ready == old(self).ready,
                    self.root == old(self).root,
                    self.artwork == old(self).artwork,
                    forall|k: int| 0 <= k < j ==> !self.db.has_track_id(#[trigger] memseq[k]),
                    forall|tid: u32|
                        old(self).db.has_track_id(tid) && !memseq.contains(tid)
                            ==> #[trigger] self.db.has_track_id(tid),
                    forall|k: int, jj: int|
                        0 <= k < self.db.playlists@.len() && 0 <= jj < j ==> !(
                        #[trigger] self.db.playlists@[k]).tracks@.contains(#[trigger] memseq[jj]),
                    count_copies(acts@) == 0,
                    count_writes(acts@) == 0,
                    forall|k: int, e: int|
                        0 <= k < j && 0 <= e < 4 ==> #[trigger] has_remove_action(
                            acts@,
                            full_track_location_seq(root0, memseq[k], tracked_extensions()[e]),
                        ),
                    forall|k: int|
                        0 <= k < j ==> #[trigger] acts@.contains(
                            Action::Emit(
                                AppEvent::OverallProgress((k + 1) as u32, total, PhaseColor::Red),
                            ),
                        ),
                decreases memseq.len() - j,
            {
                let ghost pre_iter = acts@;
                acts.push(
                    Action::Emit(
                        AppEvent::OverallProgress(
                            #[verifier::truncate] ((j + 1) as u32),
                            total,
                            PhaseColor::Red,
                        ),
                    ),
                );
                proof {
                    lemma_prefix_keeps_members(pre_iter, acts@);
                    assert(acts@[pre_iter.len() as int] == Action::Emit(
                        AppEvent::OverallProgress((j + 1) as u32, total, PhaseColor::Red),
                    ));
                    assert(acts@.contains(
                        Action::Emit(
                            AppEvent::OverallProgress((j + 1) as u32, total, PhaseColor::Red),
                        ),
                    ));
                    assert forall|k: int, e: int|
                        0 <= k < j && 0 <= e < 4 implies #[trigger] has_remove_action(
                        acts@,
                        full_track_location_seq(root0, memseq[k], tracked_extensions()[e]),
                    ) by {
                        lemma_remove_kept(
                            pre_iter,
                            acts@,
                            full_track_location_seq(root0, memseq[k], tracked_extensions()[e]),
                        );
                    }
                }
                let ghost before = self.db;
                let ghost pre_racts = acts@;
                let racts = self.do_remove_track(members[j]);
                let ghost ractseq = racts@;
                proof {
                    lemma_tracks_without(before.tracks@, memseq[j as int]);
                    assert forall|k: int| 0 <= k < j + 1 implies !self.db.has_track_id(
                        #[trigger] memseq[k],
                    ) by {
                        if self.db.has_track_id(memseq[k]) {
                            let x = choose|x: int|
                                0 <= x < self.db.tracks@.len() && (
                                #[trigger] self.db.tracks@[x]).unique_id == memseq[k];
                            assert(before.tracks@.contains(self.db.tracks@[x]));
                            assert(before.has_track_id(memseq[k]));
                            assert(self.db.tracks@[x].unique_id != memseq[j as int]);
                            if k < j {
                                assert(!before.has_track_id(memseq[k]));
                            }
                        }
                    }
                    assert forall|tid: u32|
                        old(self).db.has_track_id(tid) && !memseq.contains(tid)
                            implies #[trigger] self.db.has_track_id(tid) by {
                        assert(before.has_track_id(tid));
                        let x = choose|x: int|
                            0 <= x < before.tracks@.len() && (#[trigger] before.tracks@[x]).unique_id
                                == tid;
                        assert(memseq[j as int] != tid) by {
                            if memseq[j as int] == tid {
                                assert(memseq.contains(tid));
                            }
                        }
                        assert(tracks_without(before.tracks@, memseq[j as int]).contains(
                            before.tracks@[x],
                        ));
                        let y = choose|y: int|
                            0 <= y < self.db.tracks@.len() && #[trigger] self.db.tracks@[y]
                                == before.tracks@[x];
                    }
                    assert forall|k: int, jj: int|
                        0 <= k < self.db.playlists@.len() && 0 <= jj < j + 1 implies !(
                    #[trigger] self.db.playlists@[k]).tracks@.contains(#[trigger] memseq[jj]) by {
                        crate::db::lemma_ids_without(before.playlists@[k].tracks@, memseq[j as int]);
                        assert(self.db.playlists@[k].tracks@ == ids_without(
                            before.playlists@[k].tracks@,
                            memseq[j as int],
                        ));
                        if self.db.playlists@[k].tracks@.contains(memseq[jj]) {
                            let x = choose|x: int|
                                0 <= x < self.db.playlists@[k].tracks@.len()
                                    && self.db.playlists@[k].tracks@[x] == memseq[jj];
                            if jj < j {
                                assert(before.playlists@[k].tracks@.contains(memseq[jj]));
                            }
                        }
                    }
                }
                crate::import::push_all_actions(&mut acts, racts);
                proof {
                    lemma_counts_add(pre_racts, ractseq);
                    lemma_prefix_keeps_members(pre_racts, acts@);
                    assert forall|k: int, e: int|
                        0 <= k < j + 1 && 0 <= e < 4 implies #[trigger] has_remove_action(
                        acts@,
                        full_track_location_seq(root0, memseq[k], tracked_extensions()[e]),
                    ) by {
                        let pth = full_track_location_seq(root0, memseq[k], tracked_extensions()[e]);
                        if k < j {
                            lemma_remove_kept(pre_racts, acts@, pth);
                        } else {
                            assert(ractseq[1 + e] matches Action::RemoveFile { path } && path@
                                == pth);
                            assert(acts@[pre_racts.len() + 1 + e] == ractseq[1 + e]);
                        }
                    }
                    assert forall|k: int| 0 <= k < j + 1 implies #[trigger] acts@.contains(
                        Action::Emit(
                            AppEvent::OverallProgress((k + 1) as u32, total, PhaseColor::Red),
                        ),
                    ) by {
                        if k < j + 1 {
                            assert(pre_racts.contains(
                                Action::Emit(
                                    AppEvent::OverallProgress(
                                        (k + 1) as u32,
                                        total,
                                        PhaseColor::Red,
                                    ),
                                ),
                            ));
                        }
                    }
                }
                j = j + 1;
            }
        }
        let ghost pre_tail = acts@;
        acts.push(Action::Emit(AppEvent::OverallProgress(0, 1, PhaseColor::Red)));
        let ghost before_rm = self.db;
        self.db.remove_playlist(pl_id);
        proof {
            crate::db::lemma_playlists_without(before_rm.playlists@, pl_id);
        }
        acts.push(Action::Emit(AppEvent::OverallProgress(1, 1, PhaseColor::Red)));
        acts.push(Action::Emit(AppEvent::SwitchScreen(AppState::MainScreen)));
        let snap = self.db.get_playlists();
        acts.push(Action::Emit(AppEvent::ITunesParsed(snap)));
        acts.push(Action::PersistDatabase);
        proof {
            lemma_prefix_keeps_members(pre_tail, acts@);
            assert(acts@[acts@.len() - 1] is PersistDatabase);
            assert(persisted_then_quiet(acts@));
            assert(emits_snapshot_at(acts@, acts@.len() - 2, self.db));
            if is_hard {
                assert(self.db.tracks@ == before_rm.tracks@);
                assert forall|w2: int|
                    is_first_playlist_with(old(self).db.playlists@, pl_id, w2) implies w2
                    == gw by {
                    if w2 < gw {
                        assert(old(self).db.playlists@[w2].persistent_playlist_id != pl_id);
                    } else if w2 > gw {
                        assert(old(self).db.playlists@[gw].persistent_playlist_id != pl_id);
                    }
                }
                assert(old(self).db.playlists@[gw].tracks@ == gmem);
                assert forall|m: u32| gmem.contains(m) implies !self.db.has_track_id(m) by {
                    let k = choose|k: int| 0 <= k < gmem.len() && gmem[k] == m;
                    assert(!before_rm.has_track_id(gmem[k]));
                    if self.db.has_track_id(m) {
                        let x = choose|x: int|
                            0 <= x < self.db.tracks@.len() && (#[trigger] self.db.tracks@[x]).unique_id
                                == m;
                        assert(before_rm.tracks@[x].unique_id == m);
                        assert(before_rm.has_track_id(m));
                    }
                }
                assert forall|tid: u32|
                    old(self).db.has_track_id(tid) && !gmem.contains(tid)
                        implies #[trigger] self.db.has_track_id(tid) by {
                    assert(before_rm.has_track_id(tid));
                    let x = choose|x: int|
                        0 <= x < before_rm.tracks@.len() && (#[trigger] before_rm.tracks@[x]).unique_id
                            == tid;
                    assert(self.db.tracks@[x].unique_id == tid);
                }
                assert forall|k: int, m: u32|
                    0 <= k < self.db.playlists@.len() && gmem.contains(m) implies !(
                #[trigger] self.db.playlists@[k].tracks@.contains(m)) by {
                    let jj = choose|jj: int| 0 <= jj < gmem.len() && gmem[jj] == m;
                    assert(playlists_without(before_rm.playlists@, pl_id).contains(
                        self.db.playlists@[k],
                    ));
                    let x = choose|x: int|
                        0 <= x < before_rm.playlists@.len() && before_rm.playlists@[x]
                            == self.db.playlists@[k];
                    assert(!before_rm.playlists@[x].tracks@.contains(gmem[jj]));
                }
                assert forall|m: u32| gmem.contains(m) implies #[trigger] track_files_gone(
                    acts@,
                    root0,
                    m,
                ) by {
                    let jj = choose|jj: int| 0 <= jj < gmem.len() && gmem[jj] == m;
                    assert forall|fs: Set<Seq<char>>, e: int|
                        0 <= e < tracked_extensions().len() implies !apply_actions(
                        fs,
                        acts@,
                    ).contains(full_track_location_seq(root0, m, tracked_extensions()[e])) by {
                        let pth = full_track_location_seq(root0, m, tracked_extensions()[e]);
                        lemma_remove_kept(pre_tail, acts@, pth);
                        lemma_count_zero(acts@);
                        lemma_removed_stays(fs, acts@, pth);
                    }
                }
                assert forall|jq: int|
                    0 <= jq < gmem.len() implies #[trigger] acts@.contains(
                    Action::Emit(
                        AppEvent::OverallProgress(
                            (jq + 1) as u32,
                            gmem.len() as u32,
                            PhaseColor::Red,
                        ),
                    ),
                ) by {
                    assert(pre_tail.contains(
                        Action::Emit(
                            AppEvent::OverallProgress(
                                (jq + 1) as u32,
                                gmem.len() as u32,
                                PhaseColor::Red,
                            ),
                        ),
                    ));
                }
            }
        }
        acts
    }

    /// Remove one membership entry, touching neither the track nor any
    /// other playlist, then persist and announce the new snapshot.
    pub fn do_remove_from_playlist(&mut self, track_id: u32, pl_id: u64) -> (acts: Vec<Action>)
        requires
            old(self).db.wf(),
        ensures
            final(self).db.wf(),
            final(self).ready == old(self).ready,
            final(self).root == old(self).root,
            final(self).artwork == old(self).artwork,
            membership_removed_rel(old(self).db, final(self).db, track_id, pl_id),
            acts@.len() == 5,
            acts@[0] == Action::Emit(AppEvent::OverallProgress(0, 1, PhaseColor::Red)),
            acts@[1] == Action::Emit(AppEvent::OverallProgress(1, 1, PhaseColor::Red)),
            acts@[2] == Action::Emit(AppEvent::SwitchScreen(AppState::MainScreen)),
            persisted_then_quiet(acts@),
            emits_snapshot_at(acts@, acts@.len() - 2, final(self).db),
            count_copies(acts@) == 0,
            count_writes(acts@) == 0,
            count_removes(acts@) == 0,
    {
        let mut acts: Vec<Action> = Vec::new();
        acts.push(Action::Emit(AppEvent::OverallProgress(0, 1, PhaseColor::Red)));
        self.db.remove_track_from_playlist(track_id, pl_id);
        acts.push(Action::Emit(AppEvent::OverallProgress(1, 1, PhaseColor::Red)));
        acts.push(Action::Emit(AppEvent::SwitchScreen(AppState::MainScreen)));
        let snap = self.db.get_playlists();
        acts.push(Action::Emit(AppEvent::ITunesParsed(snap)));
        acts.push(Action::PersistDatabase);
        proof {
            assert(acts@[acts@.len() - 1] is PersistDatabase);
            assert(persisted_then_quiet(acts@));
            assert(emits_snapshot_at(acts@, acts@.len() - 2, self.db));
        }
        acts
    }

    /// Answer a search query: one event carrying the results, nothing
    /// touched, nothing persisted.
    pub fn do_search(&self, query: &String) -> (acts: Vec<Action>)
        ensures
            acts@.len() == 1,
            acts@[0] matches Action::Emit(AppEvent::SearchShow(entries)) && search_results_ok(
                entries@,
                self.db,
                query@,
            ),
    {
        let results = track_search(&self.db, query);
        let mut acts: Vec<Action> = Vec::new();
        acts.push(Action::Emit(AppEvent::SearchShow(results)));
        acts
    }

    /// The capacity a command needs before it can be handled: fresh ids for
    /// everything it may import, and well-formed device data on hand-over.
    pub open spec fn cmd_fits(self, cmd: Command) -> bool {
        match cmd {
            Command::DeviceSearched(od) => (od matches Some(d) ==> d.db.wf() && d.artwork.wf()),
            Command::LoadFromFS(_) => self.db.next_id < u32::MAX && self.artwork.next_image_id
                < u32::MAX,
            Command::DownloadTrack(_, _) => self.db.next_id < u32::MAX
                && self.artwork.next_image_id < u32::MAX,
            Command::LoadFromFSVec(items) => self.db.next_id + items@.len() <= u32::MAX
                && self.artwork.next_image_id + items@.len() <= u32::MAX,
            Command::LoadFromFSPL(items, _, _, _) => self.db.next_id + items@.len() <= u32::MAX
                && self.artwork.next_image_id + items@.len() <= u32::MAX,
            Command::DownloadPlaylist(_, items, _, _, _) => self.db.next_id + items@.len()
                <= u32::MAX && self.artwork.next_image_id + items@.len() <= u32::MAX,
            _ => true,
        }
    }

    /// Handle one command. Awaiting a device, only device discovery is
    /// accepted; once ready, each command is dispatched to its pipeline and
    /// every mutating command's actions persist the database, with only
    /// events after the persist.
    pub fn handle(&mut self, cmd: Command) -> (acts: Vec<Action>)
        requires
            old(self).wf(),
            old(self).cmd_fits(cmd),
        ensures
            final(self).wf(),
            !old(self).ready && !(cmd is DeviceSearched) ==> *final(self) == *old(self)
                && acts@.len() == 0,
            old(self).ready ==> final(self).ready && final(self).root == old(self).root,
            !old(self).ready ==> (cmd matches Command::DeviceSearched(od) ==> od is Some ==> {
                &&& final(self).ready
                &&& final(self).db == od->0.db
                &&& final(self).artwork == od->0.artwork
                &&& final(self).root == od->0.root
                &&& acts@.len() == 2
                &&& acts@[0] matches Action::Emit(AppEvent::SwitchScreen(AppState::MainScreen))
                &&& emits_snapshot_at(acts@, 1, final(self).db)
            }),
            !old(self).ready ==> (cmd matches Command::DeviceSearched(od) ==> od is None ==> {
                &&& *final(self) == *old(self)
                &&& acts@.len() == 1
                &&& acts@[0] matches Action::Emit(AppEvent::IPodNotFound)
            }),
            old(self).ready ==> (cmd matches Command::RemoveTrack(id) ==> {
                &&& track_removed_rel(old(self).db, final(self).db, id)
                &&& persisted_then_quiet(acts@)
                &&& track_files_gone(acts@, old(self).root@, id)
            }),
            old(self).ready ==> (cmd matches Command::RemovePlaylist(pl_id, is_hard) ==> !is_hard
                ==> {
                &&& playlist_soft_removed_rel(old(self).db, final(self).db, pl_id)
                &&& persisted_then_quiet(acts@)
                &&& count_copies(acts@) == 0
                &&& count_writes(acts@) == 0
                &&& count_removes(acts@) == 0
                &&& emits_snapshot_at(acts@, acts@.len() - 2, final(self).db)
            }),
            old(self).ready ==> (cmd matches Command::RemovePlaylist(pl_id, is_hard) ==> is_hard
                ==> {
                &&& forall|k: int|
                    0 <= k < final(self).db.playlists@.len() ==> (#[trigger] final(self).db.playlists@[k]).persistent_playlist_id != pl_id
                &&& ((forall|k: int|
                    0 <= k < old(self).db.playlists@.len() ==> (#[trigger] old(self).db.playlists@[k]).persistent_playlist_id != pl_id) ==> *final(self) == *old(self)
                    && acts@.len() == 0)
                &&& count_copies(acts@) == 0
                &&& count_writes(acts@) == 0
                &&& forall|w: int|
                    is_first_playlist_with(old(self).db.playlists@, pl_id, w) ==> {
                        &&& (forall|m: u32|
                            old(self).db.playlists@[w].tracks@.contains(m) ==> !final(self).db.has_track_id(m))
                        &&& (forall|tid: u32|
                            old(self).db.has_track_id(tid) && !old(self).db.playlists@[w].tracks@.contains(tid) ==> #[trigger] final(self).db.has_track_id(tid))
                        &&& (forall|k: int, m: u32|
                            0 <= k < final(self).db.playlists@.len() && old(self).db.playlists@[w].tracks@.contains(m) ==> !(#[trigger] final(self).db.playlists@[k].tracks@.contains(m)))
                        &&& (forall|m: u32|
                            old(self).db.playlists@[w].tracks@.contains(m)
                                ==> #[trigger] track_files_gone(acts@, old(self).root@, m))
                        &&& persisted_then_quiet(acts@)
                        &&& emits_snapshot_at(acts@, acts@.len() - 2, final(self).db)
                    }
            }),
            old(self).ready ==> (cmd matches Command::RemoveTrackFromPlaylist(tid, plid) ==> {
                &&& membership_removed_rel(old(self).db, final(self).db, tid, plid)
                &&& persisted_then_quiet(acts@)
                &&& count_copies(acts@) == 0
                &&& count_writes(acts@) == 0
                &&& count_removes(acts@) == 0
                &&& emits_snapshot_at(acts@, acts@.len() - 2, final(self).db)
            }),
            old(self).ready ==> (cmd matches Command::SearchFor(q) ==> {
                &&& *final(self) == *old(self)
                &&& acts@.len() == 1
                &&& acts@[0] matches Action::Emit(AppEvent::SearchShow(entries))
                    && search_results_ok(entries@, old(self).db, q@)
            }),
            old(self).ready ==> (cmd matches Command::LoadFromFS(item) ==> {
                &&& (item.importable() ==> final(self).db.has_dbid(item.fingerprint))
                &&& (item.importable() && old(self).db.has_dbid(item.fingerprint) ==> final(self).db == old(self).db)
                &&& (final(self).db.tracks@.len() > old(self).db.tracks@.len()
                    ==> persisted_then_quiet(acts@))
            }),
            old(self).ready ==> (cmd matches Command::LoadFromFSVec(items) ==> {
                &&& (forall|k: int|
                    0 <= k < items@.len() && (#[trigger] items@[k]).importable() ==> final(self).db.has_dbid(items@[k].fingerprint))
                &&& final(self).db.tracks@.len() == old(self).db.tracks@.len() + new_count(
                    items@,
                    db_fps(old(self).db),
                )
                &&& final(self).db.playlists@.len() == old(self).db.playlists@.len()
                &&& count_removes(acts@) == 0
                &&& count_persists(acts@) == new_count(items@, db_fps(old(self).db))
                &&& (final(self).db.tracks@.len() > old(self).db.tracks@.len()
                    ==> persisted_then_quiet(acts@))
            }),
            old(self).ready ==> (cmd matches Command::LoadFromFSPL(items, title, pl_id, ts) ==> {
                &&& final(self).db.playlists@.len() == old(self).db.playlists@.len() + 1
                &&& final(self).db.playlists@.last().persistent_playlist_id == pl_id
                &&& final(self).db.playlists@.last().title == title
                &&& final(self).db.playlists@.last().tracks@.len() == count_importable(items@)
                &&& final(self).db.tracks@.len() == old(self).db.tracks@.len() + new_count(
                    items@,
                    db_fps(old(self).db),
                )
                &&& (forall|k: int|
                    0 <= k < importable_fps(items@).len() ==> {
                        &&& final(self).db.has_dbid(#[trigger] importable_fps(items@)[k])
                        &&& final(self).db.playlists@.last().tracks@[k] == final(self).db.tracks@[final(self).db.index_of_dbid(importable_fps(items@)[k])].unique_id
                    })
                &&& count_removes(acts@) == 0
                &&& count_persists(acts@) == new_count(items@, db_fps(old(self).db)) + 1
                &&& emits_snapshot_at(acts@, acts@.len() - 2, final(self).db)
                &&& persisted_then_quiet(acts@)
            }),
            old(self).ready ==> (cmd matches Command::DownloadPlaylist(ok, items, title, pl_id, ts) ==> ok
                ==> {
                &&& final(self).db.playlists@.len() == old(self).db.playlists@.len() + 1
                &&& final(self).db.playlists@.last().persistent_playlist_id == pl_id
                &&& final(self).db.playlists@.last().title == title
                &&& final(self).db.playlists@.last().tracks@.len() == count_importable(items@)
                &&& final(self).db.tracks@.len() == old(self).db.tracks@.len() + new_count(
                    items@,
                    db_fps(old(self).db),
                )
                &&& (forall|k: int|
                    0 <= k < importable_fps(items@).len() ==> {
                        &&& final(self).db.has_dbid(#[trigger] importable_fps(items@)[k])
                        &&& final(self).db.playlists@.last().tracks@[k] == final(self).db.tracks@[final(self).db.index_of_dbid(importable_fps(items@)[k])].unique_id
                    })
                &&& count_removes(acts@) == 0
                &&& count_persists(acts@) == new_count(items@, db_fps(old(self).db)) + 1
                &&& emits_snapshot_at(acts@, acts@.len() - 2, final(self).db)
                &&& persisted_then_quiet(acts@)
            }),
            old(self).ready ==> (cmd matches Command::DownloadPlaylist(ok, items, title, pl_id, ts)
                ==> !ok ==> {
                &&& final(self).db == old(self).db
                &&& acts@.len() == 3
                &&& acts@[0] == Action::Emit(AppEvent::SwitchScreen(AppState::MainScreen))
                &&& emits_snapshot_at(acts@, 1, final(self).db)
                &&& persisted_then_quiet(acts@)
            }),
            old(self).ready ==> (cmd matches Command::DownloadTrack(ok, item) ==> ok ==> {
                &&& (item.importable() ==> final(self).db.has_dbid(item.fingerprint))
                &&& (item.importable() && old(self).db.has_dbid(item.fingerprint) ==> final(self).db == old(self).db)
                &&& acts@[acts@.len() - 3] == Action::Emit(
                    AppEvent::SwitchScreen(AppState::MainScreen),
                )
                &&& emits_snapshot_at(acts@, acts@.len() - 2, final(self).db)
                &&& persisted_then_quiet(acts@)
            }),
            old(self).ready ==> (cmd matches Command::DownloadTrack(ok, item) ==> !ok ==> {
                &&& final(self).db == old(self).db
                &&& acts@.len() == 3
                &&& acts@[0] == Action::Emit(AppEvent::SwitchScreen(AppState::MainScreen))
                &&& emits_snapshot_at(acts@, 1, final(self).db)
                &&& persisted_then_quiet(acts@)
            }),
    {
        if !self.ready {
            match cmd {
                Command::DeviceSearched(od) => {
                    match od {
                        Some(d) => {
                            self.ready = true;
                            self.root = d.root;
                            self.db = d.db;
                            self.artwork = d.artwork;
                            let mut acts: Vec<Action> = Vec::new();
                            acts.push(
                                Action::Emit(AppEvent::SwitchScreen(AppState::MainScreen)),
                            );
                            let snap = self.db.get_playlists();
                            acts.push(Action::Emit(AppEvent::ITunesParsed(snap)));
                            acts
                        },
                        None => {
                            let mut acts: Vec<Action> = Vec::new();
                            acts.push(Action::Emit(AppEvent::IPodNotFound));
                            acts
                        },
                    }
                },
                _ => Vec::new(),
            }
        } else {
            match cmd {
                Command::DeviceSearched(_) => Vec::new(),
                Command::RemoveTrack(id) => self.do_remove_track(id),
                Command::RemovePlaylist(pl_id, is_hard) => self.do_remove_playlist(
                    pl_id,
                    is_hard,
                ),
                Command::RemoveTrackFromPlaylist(tid, plid) => self.do_remove_from_playlist(
                    tid,
                    plid,
                ),
                Command::SearchFor(q) => self.do_search(&q),
                Command::LoadFromFS(item) => {
                    let mut acts: Vec<Action> = Vec::new();
                    acts.push(Action::Emit(AppEvent::SwitchScreen(AppState::LoadingScreen)));
                    let root = self.root.clone();
                    let r = import_one(&mut self.db, &mut self.artwork, &item, root.as_str());
                    proof {
                        if item.importable() && !old(self).db.has_dbid(item.fingerprint) {
                            assert(self.db.tracks@.last().dbid == item.fingerprint);
                        }
                    }
                    let ghost pre = acts@;
                    crate::import::push_all_actions(&mut acts, r.1);
                    let ghost mid = acts@;
                    acts.push(Action::Emit(AppEvent::SwitchScreen(AppState::FileSystem)));
                    proof {
                        if self.db.tracks@.len() > old(self).db.tracks@.len() {
                            crate::events::lemma_quiet_append_right(pre, r.1@);
                            assert(mid =~= pre + r.1@);
                            crate::events::lemma_quiet_append_emits(mid, seq![acts@.last()]);
                            assert(acts@ =~= mid + seq![acts@.last()]);
                        }
                    }
                    acts
                },
                Command::LoadFromFSVec(items) => {
                    let root = self.root.clone();
                    import_files(&mut self.db, &mut self.artwork, items, root.as_str())
                },
                Command::LoadFromFSPL(items, title, pl_id, ts) => {
                    let root = self.root.clone();
                    import_files_as_playlist(
                        &mut self.db,
                        &mut self.artwork,
                        items,
                        title,
                        pl_id,
                        ts,
                        root.as_str(),
                        AppState::FileSystem,
                    )
                },
                Command::DownloadPlaylist(ok, items, title, pl_id, ts) => {
                    if ok {
                        let root = self.root.clone();
                        import_files_as_playlist(
                            &mut self.db,
                            &mut self.artwork,
                            items,
                            title,
                            pl_id,
                            ts,
                            root.as_str(),
                            AppState::MainScreen,
                        )
                    } else {
                        let mut acts: Vec<Action> = Vec::new();
                        acts.push(Action::Emit(AppEvent::SwitchScreen(AppState::MainScreen)));
                        let snap = self.db.get_playlists();
                        acts.push(Action::Emit(AppEvent::ITunesParsed(snap)));
                        acts.push(Action::PersistDatabase);
                        proof {
                            assert(acts@[acts@.len() - 1] is PersistDatabase);
                        }
                        acts
                    }
                },
                Command::DownloadTrack(ok, item) => {
                    let mut acts: Vec<Action> = Vec::new();
                    if ok {
                        let root = self.root.clone();
                        let r = import_one(
                            &mut self.db,
                            &mut self.artwork,
                            &item,
                            root.as_str(),
                        );
                        proof {
                            if item.importable() && !old(self).db.has_dbid(item.fingerprint) {
                                assert(self.db.tracks@.last().dbid == item.fingerprint);
                            }
                        }
                        crate::import::push_all_actions(&mut acts, r.1);
                    }
                    acts.push(Action::Emit(AppEvent::SwitchScreen(AppState::MainScreen)));
                    let snap = self.db.get_playlists();
                    acts.push(Action::Emit(AppEvent::ITunesParsed(snap)));
                    acts.push(Action::PersistDatabase);
                    proof {
                        assert(acts@[acts@.len() - 1] is PersistDatabase);
                    }
                    acts
                },
            }
        }
    }
}

/// Hard-remove completeness: after the hard removal of track `id`, no track
/// record carries the id and no playlist's member list mentions it; together
/// with `track_files_gone`, the record, every membership and every on-device
/// file variant are gone.
pub proof fn lemma_hard_remove_completeness(o: Database, n: Database, id: u32)
    requires
        track_removed_rel(o, n, id),
    ensures
        !n.has_track_id(id),
        forall|k: int|
            0 <= k < n.playlists@.len() ==> !(#[trigger] n.playlists@[k]).tracks@.contains(id),
{
    lemma_tracks_without(o.tracks@, id);
    assert(!n.has_track_id(id)) by {
        if n.has_track_id(id) {
            let x = choose|x: int|
                0 <= x < n.tracks@.len() && (#[trigger] n.tracks@[x]).unique_id == id;
        }
    }
    assert forall|k: int|
        0 <= k < n.playlists@.len() implies !(#[trigger] n.playlists@[k]).tracks@.contains(
        id,
    ) by {
        crate::db::lemma_ids_without(o.playlists@[k].tracks@, id);
        if n.playlists@[k].tracks@.contains(id) {
            let x = choose|x: int|
                0 <= x < n.playlists@[k].tracks@.len() && n.playlists@[k].tracks@[x] == id;
        }
    }
}

} // verus!
