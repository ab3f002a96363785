//! The decisions of the producers that feed the sequencer: when playback
//! waits between files, when it halts, and what a watched directory event
//! asks for. The waiting, listing and watching happen on the caller's side.

use crate::key::Key;
use vstd::prelude::*;

verus! {

/// The file whose appearance in a watched directory asks the watcher to
/// stop; it unblocks a wait that cannot otherwise be interrupted.
pub const SENTINEL_NAME: &'static str = "exit_sentinel";

/// Notifications for the renderer; delivery is best effort.
#[derive(Debug)]
pub enum InjectionEvent {
    Add(Key),
    Remove(Key),
}

/// What playback does before its next step.
#[derive(Clone, Copy, Debug, PartialEq, Eq, Structural)]
pub enum Pace {
    /// Go on at once.
    Now,
    /// Wait the frame delay first; a shutdown during the wait ends playback.
    AfterDelay,
    /// Playback has stopped: inject nothing more.
    Halt,
}

/// The pacing state of playback.
#[derive(Clone, Copy, Debug, PartialEq, Eq, Structural)]
pub struct Playback {
    /// The instance tag of the last file offered, once one was.
    pub last_instance: Option<Option<u32>>,
    /// Whether a new pass over the directory began since that file.
    pub new_pass: bool,
    /// Whether shutdown was observed.
    pub stopped: bool,
}

/// The pace for a file with instance tag `instance`: wait when the tag
/// differs from the last file's or a new pass began, not for the first file.
pub open spec fn pace_for(s: Playback, instance: Option<u32>) -> Pace {
    if s.stopped {
        Pace::Halt
    } else if s.last_instance is Some && (s.new_pass || s.last_instance->0 != instance) {
        Pace::AfterDelay
    } else {
        Pace::Now
    }
}

/// The state once a file with tag `instance` was offered.
pub open spec fn after_offer(s: Playback, instance: Option<u32>) -> Playback {
    if s.stopped {
        s
    } else {
        Playback { last_instance: Some(instance), new_pass: false, stopped: false }
    }
}

/// The paces that offering files with the tags `instances`, in order, yields.
pub open spec fn paces(s: Playback, instances: Seq<Option<u32>>) -> Seq<Pace>
    decreases instances.len(),
{
    if instances.len() == 0 {
        Seq::empty()
    } else {
        seq![pace_for(s, instances[0])] + paces(after_offer(s, instances[0]), instances.drop_first())
    }
}

impl Playback {
    /// Playback before its first file.
    pub fn new() -> (r: Playback)
        ensures
            r == (Playback { last_instance: None, new_pass: false, stopped: false }),
    {
        Playback { last_instance: None, new_pass: false, stopped: false }
    }

    /// Begins a pass over a listing of `entries` files to replay. An empty
    /// listing asks for a wait before the directory is read again.
    pub fn begin_pass(&mut self, entries: usize) -> (r: Pace)
        ensures
            old(self).stopped ==> r == Pace::Halt && *final(self) == *old(self),
            !old(self).stopped ==> *final(self) == (Playback { new_pass: true, ..*old(self) }),
            !old(self).stopped ==> r == (if entries == 0 {
                Pace::AfterDelay
            } else {
                Pace::Now
            }),
    {
        if self.stopped {
            return Pace::Halt;
        }
        self.new_pass = true;
        if entries == 0 {
            Pace::AfterDelay
        } else {
            Pace::Now
        }
    }

    /// Offers the next file, whose instance tag is `instance`, and says how
    /// to proceed before injecting it.
    pub fn offer(&mut self, instance: Option<u32>) -> (r: Pace)
        ensures
            r == pace_for(*old(self), instance),
            *final(self) == after_offer(*old(self), instance),
    {
        if self.stopped {
            return Pace::Halt;
        }
        let wait = match self.last_instance {
            Some(last) => self.new_pass || last != instance,
            None => false,
        };
        self.last_instance = Some(instance);
        self.new_pass = false;
        if wait {
            Pace::AfterDelay
        } else {
            Pace::Now
        }
    }

    /// Records that shutdown was signalled.
    pub fn stop(&mut self)
        ensures
            *final(self) == (Playback { stopped: true, ..*old(self) }),
    {
        self.stopped = true;
    }
}

/// Once playback has stopped, no file is injected again, however many are
/// offered.
pub proof fn stopped_playback_injects_nothing(s: Playback, instances: Seq<Option<u32>>)
    requires
        s.stopped,
    ensures
        paces(s, instances).len() == instances.len(),
        forall|i: int| 0 <= i < instances.len() ==> paces(s, instances)[i] == Pace::Halt,
    decreases instances.len(),
{
    if instances.len() > 0 {
        stopped_playback_injects_nothing(s, instances.drop_first());
        let rest = paces(s, instances.drop_first());
        assert(after_offer(s, instances[0]) == s);
        assert forall|i: int| 0 <= i < instances.len() implies paces(s, instances)[i]
            == Pace::Halt by {
            if i > 0 {
                assert(paces(s, instances)[i] == rest[i - 1]);
            }
        }
    }
}

/// What a change in a watched directory asks of the sequencer.
#[derive(Clone, Copy, Debug, PartialEq, Eq, Structural)]
pub enum Change {
    /// A file was closed after writing.
    Written,
    /// A file was deleted.
    Deleted,
    /// Anything else.
    Other,
}

/// What the watcher does with one event.
#[derive(Clone, Copy, Debug, PartialEq, Eq, Structural)]
pub enum WatchAction {
    Shutdown,
    Add,
    Remove,
    Ignore,
}

/// The action for an event on the file `name`: the sentinel stops the
/// watcher whatever the change; otherwise a written file is added, a deleted
/// one removed, and anything else ignored.
pub open spec fn action_for(name: Seq<char>, change: Change) -> WatchAction {
    if name == SENTINEL_NAME@ {
        WatchAction::Shutdown
    } else {
        match change {
            Change::Written => WatchAction::Add,
            Change::Deleted => WatchAction::Remove,
            Change::Other => WatchAction::Ignore,
        }
    }
}

/// Decides what to do with one event of a watched directory.
pub fn watch_action(name: &str, change: Change) -> (r: WatchAction)
    ensures
        r == action_for(name@, change),
{
    let sentinel = String::from_str(SENTINEL_NAME);
    let seen = String::from_str(name);
    if seen == sentinel {
        return WatchAction::Shutdown;
    }
    match change {
        Change::Written => WatchAction::Add,
        Change::Deleted => WatchAction::Remove,
        Change::Other => WatchAction::Ignore,
    }
}

} // verus!
