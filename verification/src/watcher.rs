//! Watching the active configuration file for changes from outside.
//!
//! A background thread looks at the file's modification time at short
//! intervals; what it makes of each look is decided here.

use vstd::prelude::*;

use crate::text;

verus! {

/// The time between two looks.
pub const POLL_INTERVAL_MS: u64 = 100;

/// A modification time: seconds since the epoch, and nanoseconds on top.
#[derive(Clone, Copy, PartialEq, Eq, Debug, Structural)]
pub struct Mtime {
    pub secs: i64,
    pub nanos: u32,
}

/// The file that was looked at last, with its modification time; a file that
/// cannot be read has none.
#[derive(Debug)]
pub struct Snapshot {
    pub path: String,
    pub mtime: Option<Mtime>,
}

/// What a snapshot holds.
pub struct SnapshotView {
    pub path: Seq<char>,
    pub mtime: Option<Mtime>,
}

impl View for Snapshot {
    type V = SnapshotView;

    open spec fn view(&self) -> SnapshotView {
        SnapshotView { path: self.path@, mtime: self.mtime }
    }
}

pub open spec fn snapshot_view(s: Option<Snapshot>) -> Option<SnapshotView> {
    match s {
        Some(x) => Some(x@),
        None => None,
    }
}

// ---------------------------------------------------------------------------
// Paths
// ---------------------------------------------------------------------------

/// A path that every system reads alike: without a backslash or a colon, which
/// mean something on some systems only, and without two slashes at the start.
pub open spec fn portable(path: Seq<char>) -> bool {
    &&& !path.contains('\\')
    &&& !path.contains(':')
    &&& !text::starts_with(path, "//"@)
}

/// The components among the first `k` pieces of a path: an empty piece is none,
/// and neither is a dot that is not the first piece.
pub open spec fn components(pieces: Seq<Seq<char>>, k: nat) -> Seq<Seq<char>>
    decreases k,
{
    if k == 0 {
        seq![]
    } else {
        let before = components(pieces, (k - 1) as nat);
        let piece = pieces[k - 1];
        if piece.len() == 0 || (piece == "."@ && k > 1) {
            before
        } else {
            before.push(piece)
        }
    }
}

/// What makes up a path: whether it starts at the root, and its components.
pub open spec fn parts(path: Seq<char>) -> (bool, Seq<Seq<char>>) {
    let pieces = text::split(path, '/');
    (path.len() > 0 && path[0] == '/', components(pieces, pieces.len()))
}

/// A possible outcome of comparing two paths.
pub open spec fn compared(a: Seq<char>, b: Seq<char>, same: bool) -> bool {
    &&& a == b ==> same
    &&& portable(a) && portable(b) ==> same == (parts(a) == parts(b))
}

/// `==` of `std::path::Path`, which compares two paths by their components:
/// repeated and trailing separators do not count, nor does a dot that is not at
/// the start. Claimed: a path is equal to itself, and portable paths are equal
/// exactly where their parts are. Of other paths no more is said, since the
/// system decides what separates their components.
#[verifier::external_body]
fn same_path(a: &str, b: &str) -> (r: bool)
    ensures
        compared(a@, b@, r),
{
    std::path::Path::new(a) == std::path::Path::new(b)
}

// ---------------------------------------------------------------------------
// Looks
// ---------------------------------------------------------------------------

/// The snapshot that a look gives, and whether the main thread is to be told.
/// It is told only where the path is the same as at the look before and the
/// modification time is another one.
pub open spec fn looked(
    snap: Option<SnapshotView>,
    same: bool,
    path: Option<Seq<char>>,
    mtime: Option<Mtime>,
) -> (Option<SnapshotView>, bool) {
    match path {
        None => (None, false),
        Some(p) => (
            Some(SnapshotView { path: p, mtime }),
            snap matches Some(old) && same && old.mtime != mtime,
        ),
    }
}

/// Decides what a look at the watched file means, where `same` tells whether
/// its path is that of the look before.
pub fn look(snap: &Option<Snapshot>, same: bool, path: Option<String>, mtime: Option<Mtime>) -> (r:
    (Option<Snapshot>, bool))
    ensures
        (snapshot_view(r.0), r.1) == looked(
            snapshot_view(*snap),
            same,
            text::opt_view(path),
            mtime,
        ),
{
    match path {
        None => (None, false),
        Some(p) => {
            let changed = match snap {
                Some(old) => same && !same_time(old.mtime, mtime),
                None => false,
            };
            (Some(Snapshot { path: p, mtime }), changed)
        },
    }
}

/// A possible outcome of comparing the path of a look with that of the look
/// before, where there are both.
pub open spec fn recognized(
    snap: Option<SnapshotView>,
    path: Option<Seq<char>>,
    same: bool,
) -> bool {
    match (snap, path) {
        (Some(old), Some(p)) => compared(old.path, p, same),
        _ => true,
    }
}

/// Decides what a look at the watched file means.
pub fn decide(snap: &Option<Snapshot>, path: Option<String>, mtime: Option<Mtime>) -> (r: (
    Option<Snapshot>,
    bool,
))
    ensures
        exists|same: bool|
            recognized(snapshot_view(*snap), text::opt_view(path), same) && (
                snapshot_view(r.0),
                r.1,
            ) == #[trigger] looked(snapshot_view(*snap), same, text::opt_view(path), mtime),
{
    let same = match (snap, &path) {
        (Some(old), Some(p)) => same_path(old.path.as_str(), p.as_str()),
        _ => false,
    };
    look(snap, same, path, mtime)
}

/// Tells whether two modification times are the same.
pub fn same_time(a: Option<Mtime>, b: Option<Mtime>) -> (r: bool)
    ensures
        r == (a == b),
{
    match (a, b) {
        (Some(x), Some(y)) => x == y,
        (None, None) => true,
        _ => false,
    }
}

/// A change is told once: another look that finds the file as the one before
/// tells nothing, and neither does a look at another file.
pub proof fn changes_are_told_once(
    snap: Option<SnapshotView>,
    same: bool,
    path: Option<Seq<char>>,
    mtime: Option<Mtime>,
    again: bool,
    other: Option<Seq<char>>,
    other_mtime: Option<Mtime>,
)
    ensures
        ({
            let after = looked(snap, same, path, mtime).0;
            &&& looked(after, again, path, mtime) == (after, false)
            &&& !looked(after, false, other, other_mtime).1
        }),
{
}

/// Every change of the watched file is told, however its path is written: a
/// rewritten file and a deleted one have another modification time than before.
pub proof fn changes_are_told(
    path: Seq<char>,
    now: Seq<char>,
    same: bool,
    before: Option<Mtime>,
    after: Option<Mtime>,
)
    requires
        before != after,
        path == now || (portable(path) && portable(now) && parts(path) == parts(now)),
        recognized(Some(SnapshotView { path, mtime: before }), Some(now), same),
    ensures
        looked(Some(SnapshotView { path, mtime: before }), same, Some(now), after) == (
            Some(SnapshotView { path: now, mtime: after }),
            true,
        ),
{
}

/// A look takes down the path and the time that it finds, and nothing where there
/// is no path. It tells of a change exactly where the path is that of the look
/// before and the time is another one; so the first look tells nothing.
pub proof fn a_look_is_taken_down(
    snap: Option<SnapshotView>,
    same: bool,
    path: Seq<char>,
    mtime: Option<Mtime>,
)
    ensures
        looked(snap, same, None, mtime).0 is None,
        !looked(snap, same, None, mtime).1,
        looked(snap, same, Some(path), mtime).0 == Some(SnapshotView { path, mtime }),
        looked(snap, same, Some(path), mtime).1 <==> snap is Some && same && snap->0.mtime
            != mtime,
{
}

/// The file is looked at ten times a second.
pub proof fn looks_follow_each_other()
    ensures
        POLL_INTERVAL_MS * 10 == 1000,
{
}

} // verus!
