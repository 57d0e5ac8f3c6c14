//! What the engine says and asks: progress and snapshot events for the
//! presentation layer, and filesystem actions for the unverified shell to
//! perform. The engine never touches the filesystem itself; it returns the
//! actions, in order, and the shell carries them out.

use crate::db::{DBPlaylist, Database};
use crate::dlp::DownloadProgress;
use crate::search::SearchEntry;
use crate::util::IPodImage;
use vstd::prelude::*;

verus! {

/// The screens of the presentation layer.
pub enum AppState {
    IPodWait,
    MainScreen,
    LoadingScreen,
    FileSystem,
}

/// The color a progress phase is shown in.
pub enum PhaseColor {
    Green,
    Red,
}

/// One event for the presentation layer, delivered in order.
pub enum AppEvent {
    SwitchScreen(AppState),
    IPodNotFound,
    ITunesParsed(Vec<DBPlaylist>),
    OverallProgress(u32, u32, PhaseColor),
    CurrentProgress(DownloadProgress),
    ArtworkProgress(u32, u32),
    SearchShow(Vec<SearchEntry>),
}

/// One action for the shell: emit an event, or touch the device filesystem.
pub enum Action {
    Emit(AppEvent),
    CopyFile { src: String, dest: String },
    RemoveFile { path: String },
    WriteImage { path: String, image: IPodImage },
    PersistDatabase,
    PersistArtworkDb,
}

/// How many actions copy a file.
pub open spec fn count_copies(s: Seq<Action>) -> int
    decreases s.len(),
{
    if s.len() == 0 {
        0
    } else {
        count_copies(s.drop_last()) + (if s.last() is CopyFile {
            1int
        } else {
            0int
        })
    }
}

/// How many actions write a thumbnail.
pub open spec fn count_writes(s: Seq<Action>) -> int
    decreases s.len(),
{
    if s.len() == 0 {
        0
    } else {
        count_writes(s.drop_last()) + (if s.last() is WriteImage {
            1int
        } else {
            0int
        })
    }
}

/// How many actions remove a file.
pub open spec fn count_removes(s: Seq<Action>) -> int
    decreases s.len(),
{
    if s.len() == 0 {
        0
    } else {
        count_removes(s.drop_last()) + (if s.last() is RemoveFile {
            1int
        } else {
            0int
        })
    }
}

/// How many actions persist the database.
pub open spec fn count_persists(s: Seq<Action>) -> int
    decreases s.len(),
{
    if s.len() == 0 {
        0
    } else {
        count_persists(s.drop_last()) + (if s.last() is PersistDatabase {
            1int
        } else {
            0int
        })
    }
}

/// Every action only emits an event; nothing touches the filesystem.
pub open spec fn emits_only(s: Seq<Action>) -> bool {
    forall|k: int| 0 <= k < s.len() ==> (#[trigger] s[k]) is Emit
}

/// Some action persists the database, and everything after it only emits
/// events: once the shell has performed the list, the on-device file
/// reflects the state the engine finished the command with.
pub open spec fn persisted_then_quiet(s: Seq<Action>) -> bool {
    exists|i: int|
        0 <= i < s.len() && (#[trigger] s[i]) is PersistDatabase && (forall|j: int|
            i < j < s.len() ==> (#[trigger] s[j]) is Emit)
}

/// `s` is the snapshot of `db`: one resolved playlist per record, in order.
pub open spec fn is_snapshot_of(s: Seq<DBPlaylist>, db: Database) -> bool {
    &&& s.len() == db.playlists@.len()
    &&& forall|k: int|
        0 <= k < s.len() ==> {
            &&& (#[trigger] s[k]).id == db.playlists@[k].persistent_playlist_id
            &&& s[k].title == db.playlists@[k].title
            &&& s[k].timestamp == db.playlists@[k].timestamp
            &&& s[k].tracks@ == db.resolve_members(db.playlists@[k].tracks@)
        }
}

/// The action at `k` announces a snapshot of `db`.
pub open spec fn emits_snapshot_at(s: Seq<Action>, k: int, db: Database) -> bool {
    &&& 0 <= k < s.len()
    &&& s[k] matches Action::Emit(AppEvent::ITunesParsed(pls)) && is_snapshot_of(pls@, db)
}

/// One appended action raises the copy count exactly when it is a copy.
pub broadcast proof fn lemma_count_copies_push(s: Seq<Action>, x: Action)
    ensures
        #[trigger] count_copies(s.push(x)) == count_copies(s) + (if x is CopyFile {
            1int
        } else {
            0int
        }),
{
    assert(s.push(x).drop_last() =~= s);
    assert(s.push(x).last() == x);
}

/// One appended action raises the write count exactly when it is a write.
pub broadcast proof fn lemma_count_writes_push(s: Seq<Action>, x: Action)
    ensures
        #[trigger] count_writes(s.push(x)) == count_writes(s) + (if x is WriteImage {
            1int
        } else {
            0int
        }),
{
    assert(s.push(x).drop_last() =~= s);
    assert(s.push(x).last() == x);
}

/// One appended action raises the remove count exactly when it is a remove.
pub broadcast proof fn lemma_count_removes_push(s: Seq<Action>, x: Action)
    ensures
        #[trigger] count_removes(s.push(x)) == count_removes(s) + (if x is RemoveFile {
            1int
        } else {
            0int
        }),
{
    assert(s.push(x).drop_last() =~= s);
    assert(s.push(x).last() == x);
}

/// One appended action raises the persist count exactly when it persists.
pub broadcast proof fn lemma_count_persists_push(s: Seq<Action>, x: Action)
    ensures
        #[trigger] count_persists(s.push(x)) == count_persists(s) + (if x is PersistDatabase {
            1int
        } else {
            0int
        }),
{
    assert(s.push(x).drop_last() =~= s);
    assert(s.push(x).last() == x);
}

/// All four action counts are additive over concatenation.
pub proof fn lemma_counts_add(a: Seq<Action>, b: Seq<Action>)
    ensures
        count_copies(a + b) == count_copies(a) + count_copies(b),
        count_writes(a + b) == count_writes(a) + count_writes(b),
        count_removes(a + b) == count_removes(a) + count_removes(b),
        count_persists(a + b) == count_persists(a) + count_persists(b),
    decreases b.len(),
{
    if b.len() == 0 {
        assert(a + b =~= a);
    } else {
        assert((a + b).drop_last() =~= a + b.drop_last());
        lemma_counts_add(a, b.drop_last());
    }
}

/// A list with no counted copies holds no copy, and likewise for writes,
/// removes and persists.
pub proof fn lemma_count_zero(s: Seq<Action>)
    ensures
        count_copies(s) == 0 ==> forall|k: int| 0 <= k < s.len() ==> !((#[trigger] s[k]) is CopyFile),
        count_writes(s) == 0 ==> forall|k: int|
            0 <= k < s.len() ==> !((#[trigger] s[k]) is WriteImage),
        count_removes(s) == 0 ==> forall|k: int|
            0 <= k < s.len() ==> !((#[trigger] s[k]) is RemoveFile),
        count_persists(s) == 0 ==> forall|k: int|
            0 <= k < s.len() ==> !((#[trigger] s[k]) is PersistDatabase),
    decreases s.len(),
{
    if s.len() > 0 {
        lemma_count_nonneg(s.drop_last());
        lemma_count_zero(s.drop_last());
        assert(forall|k: int| 0 <= k < s.len() - 1 ==> s[k] == s.drop_last()[k]);
        assert(s[s.len() - 1] == s.last());
    }
}

/// No action count is ever negative.
pub proof fn lemma_count_nonneg(s: Seq<Action>)
    ensures
        count_copies(s) >= 0,
        count_writes(s) >= 0,
        count_removes(s) >= 0,
        count_persists(s) >= 0,
    decreases s.len(),
{
    if s.len() > 0 {
        lemma_count_nonneg(s.drop_last());
    }
}

/// A persist in the first part survives appending actions that only emit.
pub proof fn lemma_quiet_append_emits(a: Seq<Action>, b: Seq<Action>)
    requires
        persisted_then_quiet(a),
        emits_only(b),
    ensures
        persisted_then_quiet(a + b),
{
    let i = choose|i: int|
        0 <= i < a.len() && (#[trigger] a[i]) is PersistDatabase && (forall|j: int|
            i < j < a.len() ==> (#[trigger] a[j]) is Emit);
    assert((a + b)[i] is PersistDatabase);
    assert forall|j: int| i < j < (a + b).len() implies ((a + b)[j]) is Emit by {
        if j < a.len() {
            assert((a + b)[j] == a[j]);
        } else {
            assert((a + b)[j] == b[j - a.len()]);
        }
    }
}

/// A persist in the appended part makes the whole list quiet after it.
pub proof fn lemma_quiet_append_right(a: Seq<Action>, b: Seq<Action>)
    requires
        persisted_then_quiet(b),
    ensures
        persisted_then_quiet(a + b),
{
    let i = choose|i: int|
        0 <= i < b.len() && (#[trigger] b[i]) is PersistDatabase && (forall|j: int|
            i < j < b.len() ==> (#[trigger] b[j]) is Emit);
    assert((a + b)[a.len() + i] is PersistDatabase);
    assert forall|j: int| a.len() + i < j < (a + b).len() implies ((a + b)[j]) is Emit by {
        assert((a + b)[j] == b[j - a.len()]);
    }
}

} // verus!
