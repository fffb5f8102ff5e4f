//! The watch loop's decisions: which event paths to process, in order,
//! and how the ledger evolves while doing so.
//!
//! The application owns the event subscription, the pause flag and the
//! clock; each cycle it hands the received event (as plain values, with
//! the filesystem facts already looked up) to [`Watcher::handle_event`]
//! and runs the per-path pipeline on exactly the returned paths, then
//! closes the cycle with [`Watcher::end_cycle`], which prunes the ledger.

use vstd::prelude::*;

use crate::classify::classifier_accepts;
use crate::ledger::{retained, Ledger};

verus! {

/// What the loop does with a cycle, depending on the pause flag.
#[derive(Clone, Copy, Debug, PartialEq, Eq, Structural)]
pub enum CycleMode {
    /// Paused: drain pending events unprocessed, sleep briefly, re-check.
    DrainAndSleep,
    /// Active: block on the next event with a bounded timeout.
    AwaitEvent,
}

/// Picks the cycle's behaviour from the pause flag, read fresh each cycle.
pub fn cycle_mode(paused: bool) -> (r: CycleMode)
    ensures
        r == (if paused {
            CycleMode::DrainAndSleep
        } else {
            CycleMode::AwaitEvent
        }),
{
    if paused {
        CycleMode::DrainAndSleep
    } else {
        CycleMode::AwaitEvent
    }
}

/// The class of a filesystem event, as the watch backend reports it.
#[derive(Clone, Copy, Debug, PartialEq, Eq, Structural)]
pub enum EventClass {
    Create,
    Modify,
    Access,
    /// Anything else (removals, renames-away, metadata-only notices).
    Other,
}

/// One path an event carried, with the filesystem facts the classifier
/// needs, looked up by the caller when the event arrived.
#[derive(Clone, Debug)]
pub struct Sighting {
    pub path: String,
    pub exists: bool,
    pub is_dir: bool,
}

/// Whether an event deserves a look at all: it must carry paths and be a
/// create-, modify- or access-class event.
pub open spec fn event_relevant_spec(kind: EventClass, n_paths: nat) -> bool {
    n_paths > 0 && kind != EventClass::Other
}

/// Exec mirror of [`event_relevant_spec`].
pub fn event_relevant(kind: &EventClass, n_paths: usize) -> (r: bool)
    ensures
        r == event_relevant_spec(*kind, n_paths as nat),
{
    match kind {
        EventClass::Other => false,
        _ => n_paths > 0,
    }
}

/// Whether one sighting is taken up: the classifier accepts it.
pub open spec fn sighting_accepted(s: Sighting) -> bool {
    classifier_accepts(s.path@, s.exists, s.is_dir)
}

/// The paths processed from `ss`, in order, against ledger `m` at time
/// `now`: each accepted, not-cooling-down path is taken and immediately
/// recorded, so a duplicate later in the same event is suppressed.
pub open spec fn selected_paths(m: Map<Seq<char>, u64>, ss: Seq<Sighting>, now: u64) -> Seq<
    Seq<char>,
>
    decreases ss.len(),
{
    if ss.len() == 0 {
        Seq::empty()
    } else if sighting_accepted(ss[0]) && Ledger::should_process_spec(m, ss[0].path@, now) {
        seq![ss[0].path@] + selected_paths(m.insert(ss[0].path@, now), ss.drop_first(), now)
    } else {
        selected_paths(m, ss.drop_first(), now)
    }
}

/// The ledger after handling `ss` against `m` at time `now`.
pub open spec fn ledger_after(m: Map<Seq<char>, u64>, ss: Seq<Sighting>, now: u64) -> Map<
    Seq<char>,
    u64,
>
    decreases ss.len(),
{
    if ss.len() == 0 {
        m
    } else if sighting_accepted(ss[0]) && Ledger::should_process_spec(m, ss[0].path@, now) {
        ledger_after(m.insert(ss[0].path@, now), ss.drop_first(), now)
    } else {
        ledger_after(m, ss.drop_first(), now)
    }
}

/// The watch loop's owned state: the dedup/cooldown ledger.
pub struct Watcher {
    ledger: Ledger,
}

impl View for Watcher {
    type V = Map<Seq<char>, u64>;

    closed spec fn view(&self) -> Map<Seq<char>, u64> {
        self.ledger@
    }
}

impl Watcher {
    /// Internal consistency of the ledger.
    pub closed spec fn inv(&self) -> bool {
        self.ledger.inv()
    }

    /// A watcher with an empty ledger.
    pub fn new() -> (r: Watcher)
        ensures
            r.inv(),
            r@ == Map::<Seq<char>, u64>::empty(),
    {
        Watcher { ledger: Ledger::new() }
    }

    /// Decides what one event leads to: for a relevant event, the paths to
    /// process now, in arrival order, each recorded in the ledger as it is
    /// taken; an irrelevant event changes nothing.  The caller runs the
    /// probe–encode–name–rename pipeline on exactly the returned paths.
    pub fn handle_event(&mut self, kind: &EventClass, sightings: &Vec<Sighting>, now: u64) -> (r:
        Vec<String>)
        requires
            old(self).inv(),
        ensures
            final(self).inv(),
            event_relevant_spec(*kind, sightings@.len()) ==> r.deep_view() == selected_paths(
                old(self)@,
                sightings@,
                now,
            ) && final(self)@ == ledger_after(old(self)@, sightings@, now),
            !event_relevant_spec(*kind, sightings@.len()) ==> r@.len() == 0 && final(self)@ == old(
                self,
            )@,
    {
        let mut out: Vec<String> = Vec::new();
        if !event_relevant(kind, sightings.len()) {
            return out;
        }
        let ghost m0 = self.ledger@;
        let ghost all = sightings@;
        let n = sightings.len();
        let mut i: usize = 0;
        proof {
            assert(all.skip(0) =~= all);
            assert(out.deep_view() =~= Seq::<Seq<char>>::empty());
        }
        while i < n
            invariant
                self.ledger.inv(),
                n == all.len(),
                all == sightings@,
                i <= n,
                selected_paths(m0, all, now) == out.deep_view() + selected_paths(
                    self.ledger@,
                    all.skip(i as int),
                    now,
                ),
                ledger_after(m0, all, now) == ledger_after(self.ledger@, all.skip(i as int), now),
            decreases n - i,
        {
            let ghost rest = all.skip(i as int);
            proof {
                assert(rest[0] == all[i as int]);
                assert(rest.drop_first() =~= all.skip(i as int + 1));
            }
            let s = &sightings[i];
            let accepted = crate::classify::is_new_screenshot(s.path.as_str(), s.exists, s.is_dir);
            if accepted && self.ledger.should_process(s.path.as_str(), now) {
                self.ledger.record_processed(s.path.as_str(), now);
                let ghost before = out.deep_view();
                out.push(s.path.clone());
                proof {
                    assert(out.deep_view() =~= before.push(all[i as int].path@));
                    assert(before.push(all[i as int].path@) =~= before + seq![
                        all[i as int].path@,
                    ]);
                }
            }
            i = i + 1;
        }
        proof {
            assert(all.skip(n as int) =~= Seq::<Sighting>::empty());
            assert(out.deep_view() + Seq::<Seq<char>>::empty() =~= out.deep_view());
        }
        out
    }

    /// Closes a cycle: prunes ledger entries older than the retention
    /// window.  Runs once per cycle, whether or not an event arrived.
    pub fn end_cycle(&mut self, now: u64)
        requires
            old(self).inv(),
        ensures
            final(self).inv(),
            final(self)@ == retained(old(self)@, now),
    {
        self.ledger.prune(now);
    }
}

}
