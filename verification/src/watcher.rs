//! Hot reload: noticing that the plugin directory has changed.

use crate::error::{ErrorView, IoError, IoErrorKind, ScriptError};
use vstd::prelude::*;

verus! {

/// What happened to a file.
#[derive(Clone, Copy, Debug, PartialEq, Eq, Structural)]
pub enum FileEvent {
    Access,
    Create,
    Modify,
    Remove,
    Other,
}

/// Whether an event changes what the directory holds.
pub open spec fn is_change(event: FileEvent) -> bool {
    event is Create || event is Modify || event is Remove
}

/// Whether a change waits to be reported, after further events.
pub open spec fn observed(pending: bool, events: Seq<FileEvent>) -> bool {
    pending || exists|i: int| 0 <= i < events.len() && is_change(#[trigger] events[i])
}

/// Watches a directory and reports (debounced) whether anything changed. Its
/// view is whether a change waits to be reported.
#[derive(Debug)]
pub struct ReloadWatcher {
    pending: bool,
}

impl View for ReloadWatcher {
    type V = bool;

    closed spec fn view(&self) -> bool {
        self.pending
    }
}

impl ReloadWatcher {
    /// A watcher on a directory whose watch was started, or why it was not.
    pub fn new(started: Result<(), String>) -> (r: Result<ReloadWatcher, ScriptError>)
        ensures
            match started {
                Ok(()) => r is Ok && !r->Ok_0@,
                Err(reason) => r is Err && r->Err_0@ == ErrorView::Io(
                    IoErrorKind::Other,
                    reason@,
                ),
            },
    {
        match started {
            Ok(()) => Ok(ReloadWatcher { pending: false }),
            Err(message) => Err(ScriptError::Io(IoError { kind: IoErrorKind::Other, message })),
        }
    }

    /// Takes note of an event. Only creations, modifications and removals
    /// count as changes.
    pub fn observe(&mut self, event: FileEvent)
        ensures
            final(self)@ == observed(old(self)@, seq![event]),
    {
        match event {
            FileEvent::Create | FileEvent::Modify | FileEvent::Remove => {
                self.pending = true;
                proof {
                    assert(is_change(seq![event][0]));
                }
            },
            FileEvent::Access | FileEvent::Other => {},
        }
    }

    /// True if anything changed since the last call. A burst of events
    /// reports once.
    pub fn changed(&mut self) -> (r: bool)
        ensures
            r == old(self)@,
            !final(self)@,
    {
        let changed = self.pending;
        self.pending = false;
        changed
    }

    /// True if anything changed since the last call, or changed while waiting
    /// for it: `arrived` are the events that came within the wait.
    pub fn wait_changed(&mut self, arrived: &Vec<FileEvent>) -> (r: bool)
        ensures
            r == observed(old(self)@, arrived@),
            !final(self)@,
    {
        let ghost before = self@;
        let mut i: usize = 0;
        proof {
            assert(arrived@.take(0) =~= Seq::empty());
        }
        while i < arrived.len()
            invariant
                i <= arrived.len(),
                self@ == observed(before, arrived@.take(i as int)),
            decreases arrived.len() - i,
        {
            let ghost earlier = arrived@.take(i as int);
            self.observe(arrived[i]);
            proof {
                assert(arrived@.take(i + 1) == earlier.push(arrived@[i as int]));
                observing_adds_up(before, earlier, arrived@[i as int]);
            }
            i = i + 1;
        }
        proof {
            assert(arrived@.take(arrived@.len() as int) == arrived@);
        }
        self.changed()
    }
}

/// Events add up: noting one more event after others is noting all of them, so
/// a change waits after a burst of events exactly where one of them is a
/// change.
pub proof fn observing_adds_up(pending: bool, events: Seq<FileEvent>, event: FileEvent)
    ensures
        observed(observed(pending, events), seq![event]) == observed(pending, events.push(event)),
{
    let all = events.push(event);
    if observed(pending, events) && !pending {
        let i = choose|i: int| 0 <= i < events.len() && is_change(#[trigger] events[i]);
        assert(is_change(all[i]));
    }
    if is_change(event) {
        assert(is_change(all[events.len() as int]));
        assert(is_change(seq![event][0]));
    }
    if observed(pending, all) && !pending {
        let i = choose|i: int| 0 <= i < all.len() && is_change(#[trigger] all[i]);
        if i < events.len() {
            assert(is_change(events[i]));
        }
    }
}

/// Creating, modifying and removing each leave a change waiting, whatever was
/// waiting before; access, and anything else, leaves the watcher as it was.
pub proof fn changes_are_noticed(pending: bool)
    ensures
        observed(pending, seq![FileEvent::Create]),
        observed(pending, seq![FileEvent::Modify]),
        observed(pending, seq![FileEvent::Remove]),
        observed(pending, seq![FileEvent::Access]) == pending,
        observed(pending, seq![FileEvent::Other]) == pending,
{
    assert(is_change(seq![FileEvent::Create][0]));
    assert(is_change(seq![FileEvent::Modify][0]));
    assert(is_change(seq![FileEvent::Remove][0]));
}

/// A change waits after a burst of events exactly where one waited before, or
/// where a file was created, modified or removed at any place in the burst.
pub proof fn bursts_are_noticed(pending: bool, events: Seq<FileEvent>)
    ensures
        observed(pending, events) <==> pending || events.contains(FileEvent::Create)
            || events.contains(FileEvent::Modify) || events.contains(FileEvent::Remove),
{
    if events.contains(FileEvent::Create) {
        let i = choose|i: int| 0 <= i < events.len() && events[i] == FileEvent::Create;
        assert(is_change(events[i]));
    }
    if events.contains(FileEvent::Modify) {
        let i = choose|i: int| 0 <= i < events.len() && events[i] == FileEvent::Modify;
        assert(is_change(events[i]));
    }
    if events.contains(FileEvent::Remove) {
        let i = choose|i: int| 0 <= i < events.len() && events[i] == FileEvent::Remove;
        assert(is_change(events[i]));
    }
    if observed(pending, events) && !pending {
        let i = choose|i: int| 0 <= i < events.len() && is_change(#[trigger] events[i]);
        assert(events.contains(events[i]));
    }
}

} // verus!
