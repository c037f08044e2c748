use vstd::prelude::*;

use crate::clock::now_secs;
use crate::gate::SuppressionGate;
use crate::history::EntryModel;
use crate::history::HistoryStore;
use crate::history::accepts;
use crate::history::insert_model;
use crate::text::is_blank;
use crate::text::is_blank_text;

verus! {

/// What one poll of the clipboard led to. The caller owes a history-changed
/// notification exactly for `Recorded`.
#[derive(Debug, Clone, Copy, PartialEq, Eq, Structural)]
pub enum PollAction {
    /// A failed read, an unchanged value, or a blank value: nothing happened.
    Ignored,
    /// The change was this program's own write: remembered, not recorded.
    Suppressed,
    /// A genuine change: recorded at the front of the history.
    Recorded,
    /// A genuine change equal to the front entry: remembered, not recorded.
    SkippedDuplicate,
}

/// The monitor's decision for one reading, as a relation between the state
/// before and after: `last` is the last observed clipboard value, `store`
/// the history, `armed` the suppression gate.
pub open spec fn poll_transition(
    last0: Seq<char>,
    store0: Seq<EntryModel>,
    armed0: bool,
    reading: Option<Seq<char>>,
    timestamp: u64,
    action: PollAction,
    last1: Seq<char>,
    store1: Seq<EntryModel>,
    armed1: bool,
) -> bool {
    match reading {
        None => {
            &&& action == PollAction::Ignored
            &&& last1 == last0
            &&& store1 == store0
            &&& armed1 == armed0
        },
        Some(current) => if current == last0 || is_blank_text(current) {
            &&& action == PollAction::Ignored
            &&& last1 == last0
            &&& store1 == store0
            &&& armed1 == armed0
        } else if armed0 {
            &&& action == PollAction::Suppressed
            &&& last1 == current
            &&& store1 == store0
            &&& !armed1
        } else {
            &&& action == (if accepts(store0, current) {
                PollAction::Recorded
            } else {
                PollAction::SkippedDuplicate
            })
            &&& last1 == current
            &&& store1 == insert_model(store0, current, timestamp)
            &&& !armed1
        },
    }
}

/// The view of one clipboard reading: the text read, or nothing for a failed
/// read.
pub open spec fn reading_view(reading: Option<&String>) -> Option<Seq<char>> {
    match reading {
        None => None,
        Some(current) => Some(current@),
    }
}

/// The deciding half of the clipboard watcher. It remembers the last observed
/// clipboard value and decides, for each reading, whether the value is
/// recorded, suppressed or ignored. The caller runs the loop around it:
/// sleeping, reading the clipboard, and delivering notifications.
pub struct ClipboardMonitor {
    last_observed: String,
}

impl View for ClipboardMonitor {
    type V = Seq<char>;

    closed spec fn view(&self) -> Seq<char> {
        self.last_observed@
    }
}

impl ClipboardMonitor {
    /// A fresh monitor that has observed nothing yet.
    pub fn new() -> (monitor: Self)
        ensures
            monitor@ == Seq::<char>::empty(),
    {
        ClipboardMonitor { last_observed: String::new() }
    }

    /// Decide one poll, stamping any recorded entry with the given timestamp.
    /// A failed, unchanged or blank reading changes nothing, and in
    /// particular leaves the suppression slot alone. Any other reading consumes it:
    /// armed, the value is only remembered; disarmed, the value goes to the
    /// history, which still rejects a duplicate of its front entry.
    pub fn poll_step_at(
        &mut self,
        reading: Option<&String>,
        timestamp: u64,
        store: &mut HistoryStore,
        gate: &mut SuppressionGate,
    ) -> (action: PollAction)
        requires
            old(store).wf(),
        ensures
            final(store).wf(),
            poll_transition(
                old(self)@,
                old(store)@,
                old(gate).is_armed(),
                reading_view(reading),
                timestamp,
                action,
                final(self)@,
                final(store)@,
                final(gate).is_armed(),
            ),
    {
        match reading {
            None => PollAction::Ignored,
            Some(current) => {
                if *current == self.last_observed || is_blank(current) {
                    PollAction::Ignored
                } else {
                    let suppressed = gate.check_and_clear();
                    if suppressed {
                        self.last_observed = current.clone();
                        PollAction::Suppressed
                    } else {
                        let inserted = store.insert_at(current, timestamp);
                        self.last_observed = current.clone();
                        if inserted {
                            PollAction::Recorded
                        } else {
                            PollAction::SkippedDuplicate
                        }
                    }
                }
            },
        }
    }

    /// Decide one poll, stamping any recorded entry with the current clock
    /// second.
    pub fn poll_step(
        &mut self,
        reading: Option<&String>,
        store: &mut HistoryStore,
        gate: &mut SuppressionGate,
    ) -> (action: PollAction)
        requires
            old(store).wf(),
        ensures
            final(store).wf(),
            exists|timestamp: u64|
                poll_transition(
                    old(self)@,
                    old(store)@,
                    old(gate).is_armed(),
                    reading_view(reading),
                    timestamp,
                    action,
                    final(self)@,
                    final(store)@,
                    final(gate).is_armed(),
                ),
    {
        let timestamp = now_secs();
        let action = self.poll_step_at(reading, timestamp, store, gate);
        proof {
            assert(poll_transition(
                old(self)@,
                old(store)@,
                old(gate).is_armed(),
                reading_view(reading),
                timestamp,
                action,
                self@,
                store@,
                gate.is_armed(),
            ));
        }
        action
    }
}

} // verus!
