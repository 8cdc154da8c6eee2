//! Change detection: one scan of a watched directory reports the files that
//! were modified since the scan before it.

use crate::tree::{collect, texts, walked_from, Node, Select, Selection};
use vstd::prelude::*;

verus! {

/// A watched directory.
pub struct WatchRoot {
    pub path: String,
    pub recursive: bool,
    pub poll_interval_ms: u64,
}

/// The notice that a file was found modified.
pub struct ChangeEvent {
    pub path: String,
    pub observed_at: u128,
}

/// What stands at the path that is to be watched.
#[derive(Debug, Clone, Copy, PartialEq, Eq, Structural)]
pub enum RootKind {
    Directory,
    NotADirectory,
    Missing,
}

/// Why a directory cannot be watched.
#[derive(Debug, Clone, Copy, PartialEq, Eq, Structural)]
pub enum ConfigError {
    RootMissing,
    RootNotADirectory,
}

/// The state of the change detector of one watched directory.
pub struct Watcher {
    pub root: WatchRoot,
    pub last_scan: u128,
}

/// The files of a directory that were modified after `ref_time`, in the
/// order of the walk.
pub fn scan_changes(entries: &Vec<Node>, ref_time: u128, recursive: bool) -> (out: Vec<String>)
    ensures
        texts(out@) == walked_from(entries@, 0, Selection::ModifiedAfter(ref_time), recursive, '/'),
{
    let select = Select::ModifiedAfter(ref_time);
    let mut out: Vec<String> = Vec::new();
    collect(entries, &select, recursive, '/', &mut out);
    proof {
        assert(texts(Seq::<String>::empty()) =~= Seq::<Seq<char>>::empty());
        assert(Seq::<Seq<char>>::empty() + texts(out@) =~= texts(out@));
    }
    out
}

/// Sets up the change detector of a directory. Only a directory can be
/// watched: anything else is refused. The first scan reports what was
/// modified after `now`.
pub fn make_fs_watcher(
    path: String,
    found: RootKind,
    recursive: bool,
    poll_frequency: u64,
    now: u128,
) -> (out: Result<Watcher, ConfigError>)
    ensures
        match out {
            Ok(w) => found == RootKind::Directory && w.root.path == path && w.root.recursive
                == recursive && w.root.poll_interval_ms == poll_frequency && w.last_scan == now,
            Err(e) => match e {
                ConfigError::RootMissing => found == RootKind::Missing,
                ConfigError::RootNotADirectory => found == RootKind::NotADirectory,
            },
        },
{
    match found {
        RootKind::Directory => Ok(
            Watcher {
                root: WatchRoot { path, recursive, poll_interval_ms: poll_frequency },
                last_scan: now,
            },
        ),
        RootKind::NotADirectory => Err(ConfigError::RootNotADirectory),
        RootKind::Missing => Err(ConfigError::RootMissing),
    }
}

impl Watcher {
    /// One cycle of the detector: reports one event for each file of the
    /// directory that was modified after the scan before, in the order of the
    /// walk, and takes `now`, the time at which this scan ended, as the time
    /// that the next scan refers to.
    pub fn poll(&mut self, entries: &Vec<Node>, now: u128) -> (events: Vec<ChangeEvent>)
        ensures
            final(self).root == old(self).root,
            final(self).last_scan == now,
            events@.len() == walked_from(
                entries@,
                0,
                Selection::ModifiedAfter(old(self).last_scan),
                old(self).root.recursive,
                '/',
            ).len(),
            forall|i: int|
                0 <= i < events@.len() ==> (#[trigger] events@[i]).observed_at == now
                    && events@[i].path@ == walked_from(
                    entries@,
                    0,
                    Selection::ModifiedAfter(old(self).last_scan),
                    old(self).root.recursive,
                    '/',
                )[i],
    {
        let changed = scan_changes(entries, self.last_scan, self.root.recursive);
        let mut events: Vec<ChangeEvent> = Vec::new();
        let mut i: usize = 0;
        while i < changed.len()
            invariant
                i <= changed.len(),
                events@.len() == i,
                forall|k: int|
                    0 <= k < i ==> (#[trigger] events@[k]).observed_at == now && events@[k].path@
                        == changed@[k]@,
            decreases changed.len() - i,
        {
            events.push(ChangeEvent { path: changed[i].clone(), observed_at: now });
            i += 1;
        }
        self.last_scan = now;
        proof {
            assert(texts(changed@).len() == changed@.len());
            assert forall|k: int| 0 <= k < events@.len() implies texts(changed@)[k]
                == changed@[k]@ by {}
        }
        events
    }
}

} // verus!
