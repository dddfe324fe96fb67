use vstd::prelude::*;

verus! {

/// The motor controller's state, by the code it logs.
#[derive(Clone, Copy, Debug, PartialEq, Eq, Structural)]
pub struct MotorState {
    pub code: u8,
}

/// What a status log entry contributes to state-change markers.
#[derive(Clone, Copy, Debug, PartialEq, Eq, Structural)]
pub struct StatusLogEntry {
    pub timestamp_ms: u32,
    pub motor_state: MotorState,
}

/// The entries at which the motor state changes, as (timestamp, new state):
/// the first entry, and every entry whose state differs from the one before.
pub open spec fn state_changes(entries: Seq<StatusLogEntry>) -> Seq<(u32, MotorState)>
    decreases entries.len(),
{
    if entries.len() == 0 {
        Seq::empty()
    } else {
        let prev = state_changes(entries.drop_last());
        let e = entries.last();
        if entries.len() == 1 || entries[entries.len() - 2].motor_state != e.motor_state {
            prev.push((e.timestamp_ms, e.motor_state))
        } else {
            prev
        }
    }
}

/// A motor controller status log, with its state changes computed once.
pub struct StatusLog {
    entries: Vec<StatusLogEntry>,
    timestamps_with_state_changes: Vec<(u32, MotorState)>,
}

fn parse_timestamps_with_state_changes(entries: &[StatusLogEntry]) -> (r: Vec<(u32, MotorState)>)
    ensures
        r@ == state_changes(entries@),
{
    let mut result: Vec<(u32, MotorState)> = Vec::new();
    let mut last_state: Option<MotorState> = None;
    let mut i: usize = 0;
    assert(entries@.subrange(0, 0) =~= Seq::<StatusLogEntry>::empty());
    while i < entries.len()
        invariant
            i <= entries@.len(),
            result@ == state_changes(entries@.subrange(0, i as int)),
            i == 0 ==> last_state is None,
            i > 0 ==> last_state == Some(entries@[i - 1].motor_state),
        decreases entries@.len() - i,
    {
        let entry = entries[i];
        let changed = match last_state {
            None => true,
            Some(state) => state != entry.motor_state,
        };
        if changed {
            result.push((entry.timestamp_ms, entry.motor_state));
            last_state = Some(entry.motor_state);
        }
        proof {
            let sub = entries@.subrange(0, i + 1);
            assert(sub.drop_last() =~= entries@.subrange(0, i as int));
            assert(sub.last() == entry);
            if i > 0 {
                assert(sub[sub.len() - 2] == entries@[i - 1]);
            }
        }
        i = i + 1;
    }
    assert(entries@.subrange(0, i as int) =~= entries@);
    result
}

impl StatusLog {
    #[verifier::type_invariant]
    spec fn inv(&self) -> bool {
        self.timestamps_with_state_changes@ == state_changes(self.entries@)
    }

    pub closed spec fn entries_spec(&self) -> Seq<StatusLogEntry> {
        self.entries@
    }

    /// A log over decoded entries, in log order.
    pub fn from_entries(entries: Vec<StatusLogEntry>) -> (r: Self)
        ensures
            r.entries_spec() == entries@,
    {
        let timestamps_with_state_changes = parse_timestamps_with_state_changes(
            entries.as_slice(),
        );
        StatusLog { entries, timestamps_with_state_changes }
    }

    pub fn entries(&self) -> (r: &[StatusLogEntry])
        ensures
            r@ == self.entries_spec(),
    {
        self.entries.as_slice()
    }

    /// The timestamps at which the motor state changed, with the new state.
    pub fn timestamps_with_state_changes(&self) -> (r: &[(u32, MotorState)])
        ensures
            r@ == state_changes(self.entries_spec()),
    {
        proof {
            use_type_invariant(self);
        }
        self.timestamps_with_state_changes.as_slice()
    }
}

} // verus!
