use vstd::prelude::*;

verus! {

/// A single-slot suppression signal. A writer arms it immediately before
/// writing to the clipboard; the monitor consumes it when it next observes a
/// change, so the program's own write is not recorded as a user copy. The
/// slot never queues: arming an armed gate has no further effect, and at most
/// one observed change is suppressed per arming.
pub struct SuppressionGate {
    armed: bool,
}

/// What `check_and_clear` does: it reports whether the slot was armed and
/// leaves it disarmed either way.
pub open spec fn check_and_clear_transition(
    before: SuppressionGate,
    was_armed: bool,
    after: SuppressionGate,
) -> bool {
    &&& was_armed == before.is_armed()
    &&& !after.is_armed()
}

impl SuppressionGate {
    /// Whether the next observed clipboard change is marked as caused by this
    /// program.
    pub closed spec fn is_armed(self) -> bool {
        self.armed
    }

    /// A fresh gate, disarmed.
    pub fn new() -> (gate: Self)
        ensures
            !gate.is_armed(),
    {
        SuppressionGate { armed: false }
    }

    /// Mark the next observed clipboard change as this program's own write.
    /// Arming while already armed changes nothing: a single slot, not a queue.
    pub fn arm(&mut self)
        ensures
            final(self).is_armed(),
    {
        self.armed = true;
    }

    /// Read and reset in one step: reports whether the slot was armed and
    /// leaves it disarmed.
    pub fn check_and_clear(&mut self) -> (was_armed: bool)
        ensures
            check_and_clear_transition(*old(self), was_armed, *final(self)),
    {
        let was = self.armed;
        self.armed = false;
        was
    }
}

/// Suppression consumes exactly one change: starting from an armed gate, the
/// first check-and-clear reports true, and a second one before any re-arming
/// reports false.
pub proof fn lemma_suppression_consumes_exactly_one(
    armed_gate: SuppressionGate,
    first: bool,
    after_first: SuppressionGate,
    second: bool,
    after_second: SuppressionGate,
)
    requires
        armed_gate.is_armed(),
        check_and_clear_transition(armed_gate, first, after_first),
        check_and_clear_transition(after_first, second, after_second),
    ensures
        first,
        !second,
{
}

} // verus!
