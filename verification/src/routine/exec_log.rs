//! Recent routine runs, newest first, kept for diagnosis.
use std::collections::VecDeque;
use vstd::prelude::*;

verus! {

/// How many runs the log keeps.
pub const LOG_CAPACITY: usize = 50;

/// Result of one action within a routine run.
#[derive(Debug, PartialEq)]
pub struct ActionOutcome {
    pub label: String,
    pub success: bool,
    pub detail: String,
}

impl Clone for ActionOutcome {
    fn clone(&self) -> (r: Self)
        ensures
            r == *self,
    {
        ActionOutcome { label: self.label.clone(), success: self.success, detail: self.detail.clone() }
    }
}

/// One routine execution.
#[derive(Debug, PartialEq)]
pub struct ExecutionRecord {
    pub at_epoch_ms: u64,
    pub routine_name: String,
    pub success: bool,
    pub outcomes: Vec<ActionOutcome>,
}

/// A routine run as a value.
pub struct RecordView {
    pub at_epoch_ms: u64,
    pub routine_name: Seq<char>,
    pub success: bool,
    pub outcomes: Seq<ActionOutcome>,
}

impl View for ExecutionRecord {
    type V = RecordView;

    open spec fn view(&self) -> RecordView {
        RecordView {
            at_epoch_ms: self.at_epoch_ms,
            routine_name: self.routine_name@,
            success: self.success,
            outcomes: self.outcomes@,
        }
    }
}

/// The values of a list of runs.
pub open spec fn records_view(rs: Seq<ExecutionRecord>) -> Seq<RecordView> {
    rs.map_values(|r: ExecutionRecord| r@)
}

impl Clone for ExecutionRecord {
    fn clone(&self) -> (r: Self)
        ensures
            r@ == self@,
    {
        let outcomes = self.outcomes.clone();
        assert(outcomes@ =~= self.outcomes@);
        ExecutionRecord {
            at_epoch_ms: self.at_epoch_ms,
            routine_name: self.routine_name.clone(),
            success: self.success,
            outcomes,
        }
    }
}

/// In-memory ring buffer of recent routine runs, newest first. Holds at
/// most `LOG_CAPACITY` records; the oldest is dropped to make room.
pub struct ExecutionLog {
    records: VecDeque<ExecutionRecord>,
}

impl View for ExecutionLog {
    type V = Seq<RecordView>;

    closed spec fn view(&self) -> Seq<RecordView> {
        records_view(self.records@)
    }
}

/// The log after recording `record`: it goes first, and the oldest record
/// is dropped when the log was full.
pub open spec fn log_after_push(log: Seq<RecordView>, record: RecordView) -> Seq<RecordView> {
    if log.len() >= LOG_CAPACITY {
        seq![record] + log.take(LOG_CAPACITY - 1)
    } else {
        seq![record] + log
    }
}

impl ExecutionLog {
    #[verifier::type_invariant]
    spec fn within_capacity(self) -> bool {
        self.records@.len() <= LOG_CAPACITY
    }

    pub fn new() -> (r: Self)
        ensures
            r@ == Seq::<RecordView>::empty(),
    {
        ExecutionLog { records: VecDeque::with_capacity(LOG_CAPACITY) }
    }

    /// Record a run as the newest entry.
    pub fn push(&mut self, record: ExecutionRecord)
        ensures
            final(self)@ == log_after_push(old(self)@, record@),
            final(self)@.len() <= LOG_CAPACITY,
    {
        proof {
            use_type_invariant(&*self);
        }
        let mut records = VecDeque::new();
        std::mem::swap(&mut records, &mut self.records);
        let ghost before = records@;
        let ghost rv = record@;
        if records.len() == LOG_CAPACITY {
            records.pop_back();
        }
        records.push_front(record);
        assert(records_view(records@) =~= log_after_push(records_view(before), rv));
        self.records = records;
    }

    /// The recorded runs, newest first.
    pub fn snapshot(&self) -> (r: Vec<ExecutionRecord>)
        ensures
            records_view(r@) == self@,
            r@.len() <= LOG_CAPACITY,
    {
        proof {
            use_type_invariant(self);
        }
        let n = self.records.len();
        let mut out: Vec<ExecutionRecord> = Vec::new();
        let mut k: usize = 0;
        while k < n
            invariant
                n == self.records@.len(),
                k <= n,
                out@.len() == k,
                forall|i: int| 0 <= i < k ==> (#[trigger] out@[i])@ == self.records@[i]@,
            decreases n - k,
        {
            let c = self.records[k].clone();
            out.push(c);
            k += 1;
        }
        assert(records_view(out@) =~= records_view(self.records@));
        out
    }
}

impl Default for ExecutionLog {
    fn default() -> (r: Self)
        ensures
            r@ == Seq::<RecordView>::empty(),
    {
        ExecutionLog::new()
    }
}

/// The log never holds more than its capacity, and the newest record comes
/// first: whatever the log held, after `push` it has at most
/// `LOG_CAPACITY` records and the pushed one is first.
pub proof fn push_keeps_capacity(log: Seq<RecordView>, record: RecordView)
    requires
        log.len() <= LOG_CAPACITY,
    ensures
        log_after_push(log, record).len() <= LOG_CAPACITY,
        log_after_push(log, record)[0] == record,
        forall|i: int|
            0 <= i < log_after_push(log, record).len() - 1 ==> #[trigger] log_after_push(log, record)[i
                + 1] == log[i],
{
}

} // verus!
