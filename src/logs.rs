use vstd::prelude::*;

verus! {

/// The log formats that can be loaded.
#[derive(Clone, Copy, Debug, PartialEq, Eq, Structural)]
pub enum LogKind {
    PidLogV1,
    PidLogV2,
    StatusLogV1,
    StatusLogV2,
    GeneratorLog,
}

/// The loaded logs, kept apart by format. Listing them goes format by format
/// in the order of `LogKind`, and in load order within a format.
pub struct SupportedLogs<L> {
    pid_log_v1: Vec<L>,
    pid_log_v2: Vec<L>,
    status_log_v1: Vec<L>,
    status_log_v2: Vec<L>,
    generator_log: Vec<L>,
}

fn push_refs<'a, L>(out: &mut Vec<&'a L>, logs: &'a Vec<L>)
    ensures
        final(out)@.len() == old(out)@.len() + logs@.len(),
        forall|i: int| 0 <= i < old(out)@.len() ==> final(out)@[i] == old(out)@[i],
        forall|i: int| 0 <= i < logs@.len() ==> *final(out)@[old(out)@.len() + i] == logs@[i],
{
    let mut i: usize = 0;
    while i < logs.len()
        invariant
            i <= logs@.len(),
            out@.len() == old(out)@.len() + i,
            forall|j: int| 0 <= j < old(out)@.len() ==> out@[j] == old(out)@[j],
            forall|j: int| 0 <= j < i ==> *out@[old(out)@.len() + j] == logs@[j],
        decreases logs@.len() - i,
    {
        out.push(&logs[i]);
        i = i + 1;
    }
}

impl<L> SupportedLogs<L> {
    /// The logs of one format, in load order.
    pub closed spec fn kind_spec(&self, kind: LogKind) -> Seq<L> {
        match kind {
            LogKind::PidLogV1 => self.pid_log_v1@,
            LogKind::PidLogV2 => self.pid_log_v2@,
            LogKind::StatusLogV1 => self.status_log_v1@,
            LogKind::StatusLogV2 => self.status_log_v2@,
            LogKind::GeneratorLog => self.generator_log@,
        }
    }

    /// All logs, format by format.
    pub open spec fn all_spec(&self) -> Seq<L> {
        self.kind_spec(LogKind::PidLogV1) + self.kind_spec(LogKind::PidLogV2) + self.kind_spec(
            LogKind::StatusLogV1,
        ) + self.kind_spec(LogKind::StatusLogV2) + self.kind_spec(LogKind::GeneratorLog)
    }

    pub fn new() -> (r: Self)
        ensures
            forall|kind: LogKind| #[trigger] r.kind_spec(kind).len() == 0,
    {
        SupportedLogs {
            pid_log_v1: Vec::new(),
            pid_log_v2: Vec::new(),
            status_log_v1: Vec::new(),
            status_log_v2: Vec::new(),
            generator_log: Vec::new(),
        }
    }

    /// Stores a loaded log under its format.
    pub fn add_log(&mut self, kind: LogKind, log: L)
        ensures
            final(self).kind_spec(kind) == old(self).kind_spec(kind).push(log),
            forall|other: LogKind|
                other != kind ==> #[trigger] final(self).kind_spec(other) == old(self).kind_spec(
                    other,
                ),
    {
        match kind {
            LogKind::PidLogV1 => self.pid_log_v1.push(log),
            LogKind::PidLogV2 => self.pid_log_v2.push(log),
            LogKind::StatusLogV1 => self.status_log_v1.push(log),
            LogKind::StatusLogV2 => self.status_log_v2.push(log),
            LogKind::GeneratorLog => self.generator_log.push(log),
        }
    }

    /// References to all logs, format by format.
    pub fn logs(&self) -> (r: Vec<&L>)
        ensures
            r@.len() == self.all_spec().len(),
            forall|i: int| 0 <= i < r@.len() ==> *r@[i] == self.all_spec()[i],
    {
        let mut all_logs: Vec<&L> = Vec::new();
        push_refs(&mut all_logs, &self.pid_log_v1);
        push_refs(&mut all_logs, &self.pid_log_v2);
        push_refs(&mut all_logs, &self.status_log_v1);
        push_refs(&mut all_logs, &self.status_log_v2);
        push_refs(&mut all_logs, &self.generator_log);
        all_logs
    }

    /// Moves all logs out, format by format, leaving none behind.
    pub fn take_logs(&mut self) -> (r: Vec<L>)
        ensures
            r@ == old(self).all_spec(),
            forall|kind: LogKind| #[trigger] final(self).kind_spec(kind).len() == 0,
    {
        let mut all_logs: Vec<L> = Vec::new();
        all_logs.append(&mut self.pid_log_v1);
        all_logs.append(&mut self.pid_log_v2);
        all_logs.append(&mut self.status_log_v1);
        all_logs.append(&mut self.status_log_v2);
        all_logs.append(&mut self.generator_log);
        all_logs
    }
}

} // verus!
