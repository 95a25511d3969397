//! The one-shot level bootstrap: an idempotent ensure-root-exists gate.
//!
//! On a start signal the surrounding system creates exactly one root
//! placement entity if none exists yet and announces its identity. The
//! decision lives here; performing the spawn and delivering events is the
//! surrounding system's work.

use vstd::prelude::*;

verus! {

/// Signals exchanged with the surrounding system: the start trigger, and
/// the announcement that the root entity (named by its identifier) exists.
#[derive(Clone, Copy, Debug, PartialEq, Eq, Structural)]
pub enum LevelEvent {
    LevelStart,
    RootSpawned(u64),
}

/// Tracks whether the root placement entity has been created yet.
pub struct Level {
    root: Option<u64>,
}

impl Level {
    /// The identifier of the spawned root entity, if any.
    pub closed spec fn spec_root(self) -> Option<u64> {
        self.root
    }

    pub fn new() -> (s: Level)
        ensures
            s.spec_root() is None,
    {
        Level { root: None }
    }

    /// True while no root entity has been spawned.
    pub fn level_not_spawned(&self) -> (r: bool)
        ensures
            r == (self.spec_root() is None),
    {
        self.root.is_none()
    }

    /// Records the freshly created root entity and announces it.
    pub fn spawn(&mut self, id: u64) -> (e: LevelEvent)
        requires
            old(self).spec_root() is None,
        ensures
            final(self).spec_root() == Some(id),
            e == LevelEvent::RootSpawned(id),
    {
        self.root = Some(id);
        LevelEvent::RootSpawned(id)
    }

    /// One guarded run: spawns the root exactly when none exists yet and
    /// a start signal is among the events; otherwise nothing changes.
    /// After a spawn no later run fires anew, so spawning is idempotent.
    pub fn step(&mut self, events: &Vec<LevelEvent>, id: u64) -> (e: Option<LevelEvent>)
        ensures
            (old(self).spec_root() is None && contains_level_start(events@)) ==> {
                &&& final(self).spec_root() == Some(id)
                &&& e == Some(LevelEvent::RootSpawned(id))
            },
            !(old(self).spec_root() is None && contains_level_start(events@)) ==> {
                &&& *final(self) == *old(self)
                &&& e is None
            },
    {
        if self.level_not_spawned() && on_level_start_event(events) {
            Some(self.spawn(id))
        } else {
            None
        }
    }
}

/// Whether a start signal occurs among the events.
pub open spec fn contains_level_start(events: Seq<LevelEvent>) -> bool {
    exists|i: int| 0 <= i < events.len() && events[i] == LevelEvent::LevelStart
}

/// True exactly when a start signal is among the events.
pub fn on_level_start_event(events: &Vec<LevelEvent>) -> (r: bool)
    ensures
        r == contains_level_start(events@),
{
    let n: usize = events.len();
    let mut i: usize = 0;
    while i < n
        invariant
            i <= n,
            n == events@.len(),
            forall|j: int| 0 <= j < i ==> events@[j] != LevelEvent::LevelStart,
        decreases n - i,
    {
        if events[i] == LevelEvent::LevelStart {
            return true;
        }
        i += 1;
    }
    false
}

} // verus!
