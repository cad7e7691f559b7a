use vstd::prelude::*;

use crate::action::Command;
use crate::record::{
    is_complete, is_pending, summary_of, CommandResult, CommandResultSummary, TargetCommand,
};

verus! {

/// Ids are `u16`, so the store holds at most this many records.
pub const MAX_RECORDS: usize = 65536;

/// A record created at `start` and not yet finalized.
pub open spec fn pending_record(id: int, start: u64) -> CommandResult {
    CommandResult {
        id: id as u16,
        start,
        end: None,
        stdout: None,
        stderr: None,
        status: None,
    }
}

/// A sequence of records is a valid store when each record's id is its
/// position (creation order) and each record is either pending or complete.
pub open spec fn store_wf(s: Seq<CommandResult>) -> bool {
    &&& s.len() <= MAX_RECORDS
    &&& forall|i: int| 0 <= i < s.len() ==> (#[trigger] s[i]).id == i
    &&& forall|i: int| 0 <= i < s.len() ==> is_pending(#[trigger] s[i]) || is_complete(s[i])
}

/// What `create` does: a new pending record with the next id, unless every
/// id is taken, in which case nothing is recorded.
pub open spec fn create_spec(s: Seq<CommandResult>, start: u64) -> Seq<CommandResult> {
    if s.len() < MAX_RECORDS {
        s.push(pending_record(s.len() as int, start))
    } else {
        s
    }
}

/// `k` is the lowest position of a pending record that started at `start`.
pub open spec fn first_pending_at(s: Seq<CommandResult>, start: u64, k: int) -> bool {
    &&& 0 <= k < s.len()
    &&& s[k].start == start
    &&& is_pending(s[k])
    &&& forall|j: int| 0 <= j < k ==> !(#[trigger] s[j].start == start && is_pending(s[j]))
}

pub open spec fn has_pending_at(s: Seq<CommandResult>, start: u64) -> bool {
    exists|k: int| first_pending_at(s, start, k)
}

/// What `complete` does: the first pending record that started at `start`
/// takes the given outcome; without one, nothing changes.
pub open spec fn complete_spec(
    s: Seq<CommandResult>,
    start: u64,
    end: u64,
    stdout: String,
    stderr: String,
    status: u8,
) -> Seq<CommandResult> {
    if has_pending_at(s, start) {
        let k = choose|k: int| first_pending_at(s, start, k);
        s.update(
            k,
            CommandResult {
                id: s[k].id,
                start,
                end: Some(end),
                stdout: Some(stdout),
                stderr: Some(stderr),
                status: Some(status),
            },
        )
    } else {
        s
    }
}

/// The complete record with the highest id, if any.
pub open spec fn latest_complete(s: Seq<CommandResult>) -> Option<CommandResult>
    decreases s.len(),
{
    if s.len() == 0 {
        None
    } else if is_complete(s.last()) {
        Some(s.last())
    } else {
        latest_complete(s.drop_last())
    }
}

/// What `get` returns: for `Latest` the latest complete record; for an id,
/// that record whether pending or complete.
pub open spec fn get_spec(s: Seq<CommandResult>, target: TargetCommand) -> Option<CommandResult> {
    match target {
        TargetCommand::Latest => latest_complete(s),
        TargetCommand::Target(id) => if (id as int) < s.len() {
            Some(s[id as int])
        } else {
            None
        },
    }
}

/// What `history` returns: one summary per record, highest id first.
pub open spec fn history_spec(s: Seq<CommandResult>) -> Seq<CommandResultSummary> {
    Seq::new(s.len(), |i: int| summary_of(s[s.len() - 1 - i]))
}

/// Creating and completing keep a store valid.
pub proof fn lemma_store_wf_preserved(
    s: Seq<CommandResult>,
    start: u64,
    end: u64,
    stdout: String,
    stderr: String,
    status: u8,
)
    requires
        store_wf(s),
    ensures
        store_wf(create_spec(s, start)),
        store_wf(complete_spec(s, start, end, stdout, stderr, status)),
{
    let c = create_spec(s, start);
    assert forall|i: int| 0 <= i < c.len() implies (#[trigger] c[i]).id == i && (is_pending(c[i])
        || is_complete(c[i])) by {
        if i < s.len() {
            assert(c[i] == s[i]);
        }
    }
    let d = complete_spec(s, start, end, stdout, stderr, status);
    if has_pending_at(s, start) {
        let k = choose|k: int| first_pending_at(s, start, k);
        assert forall|i: int| 0 <= i < d.len() implies (#[trigger] d[i]).id == i && (is_pending(d[i])
            || is_complete(d[i])) by {
            if i != k {
                assert(d[i] == s[i]);
            }
        }
    }
}

/// The history lists ids in strictly decreasing order, and its first entry
/// is the record created last, whose id is the highest.
pub proof fn lemma_history_sorted(s: Seq<CommandResult>)
    requires
        store_wf(s),
    ensures
        history_spec(s).len() == s.len(),
        forall|i: int, j: int|
            0 <= i < j < s.len() ==> #[trigger] history_spec(s)[i].id > #[trigger] history_spec(
                s,
            )[j].id,
        s.len() > 0 ==> history_spec(s)[0] == summary_of(s.last()),
        s.len() > 0 ==> history_spec(s)[0].id == s.len() - 1,
{
    assert forall|i: int, j: int| 0 <= i < j < s.len() implies #[trigger] history_spec(s)[i].id
        > #[trigger] history_spec(s)[j].id by {
        assert(s[s.len() - 1 - i].id == s.len() - 1 - i);
        assert(s[s.len() - 1 - j].id == s.len() - 1 - j);
    }
    if s.len() > 0 {
        assert(s[s.len() - 1].id == s.len() - 1);
    }
}

/// The record that `create` adds heads the history, under the id that
/// `create` returns.
pub proof fn lemma_created_heads_history(s: Seq<CommandResult>, start: u64)
    requires
        store_wf(s),
        s.len() < MAX_RECORDS,
    ensures
        history_spec(create_spec(s, start))[0] == summary_of(pending_record(s.len() as int, start)),
        history_spec(create_spec(s, start))[0].id == s.len(),
{
}

/// Right after `create`, reading the new id gives a pending record with
/// the given start and no outcome.
pub proof fn lemma_created_is_pending(s: Seq<CommandResult>, start: u64)
    requires
        store_wf(s),
        s.len() < MAX_RECORDS,
    ensures
        get_spec(create_spec(s, start), TargetCommand::Target(s.len() as u16)) == Some(
            pending_record(s.len() as int, start),
        ),
        is_pending(pending_record(s.len() as int, start)),
{
}

/// Completing a pending record, matched by its start, makes reading its id
/// give exactly the outcome supplied. The match needs no earlier pending
/// record to share that start.
pub proof fn lemma_completed_reads_back(
    s: Seq<CommandResult>,
    id: u16,
    start: u64,
    end: u64,
    stdout: String,
    stderr: String,
    status: u8,
)
    requires
        store_wf(s),
        get_spec(s, TargetCommand::Target(id)) == Some(pending_record(id as int, start)),
        forall|j: int| 0 <= j < id ==> !(#[trigger] s[j].start == start && is_pending(s[j])),
    ensures
        get_spec(complete_spec(s, start, end, stdout, stderr, status), TargetCommand::Target(id))
            == Some(
            CommandResult {
                id,
                start,
                end: Some(end),
                stdout: Some(stdout),
                stderr: Some(stderr),
                status: Some(status),
            },
        ),
{
    assert(first_pending_at(s, start, id as int));
    let k = choose|k: int| first_pending_at(s, start, k);
    if k < id {
    } else if k > id {
        assert(!(s[id as int].start == start && is_pending(s[id as int])));
    }
    assert(k == id);
}

/// A complete record never changes: neither creating another record nor
/// completing any changes what reading its id gives.
pub proof fn lemma_complete_record_stable(
    s: Seq<CommandResult>,
    id: u16,
    start: u64,
    end: u64,
    stdout: String,
    stderr: String,
    status: u8,
)
    requires
        store_wf(s),
        get_spec(s, TargetCommand::Target(id)) matches Some(r) && is_complete(r),
    ensures
        get_spec(create_spec(s, start), TargetCommand::Target(id)) == get_spec(
            s,
            TargetCommand::Target(id),
        ),
        get_spec(complete_spec(s, start, end, stdout, stderr, status), TargetCommand::Target(id))
            == get_spec(s, TargetCommand::Target(id)),
{
    if has_pending_at(s, start) {
        let k = choose|k: int| first_pending_at(s, start, k);
        assert(k != id);
    }
}

/// The log after a sequence of events, read as the store sees them: a
/// `StartRun` creates a pending record with its start, a `RunResult`
/// completes the first pending record with its start.
pub open spec fn apply_store_events(s: Seq<CommandResult>, events: Seq<Command>) -> Seq<
    CommandResult,
>
    decreases events.len(),
{
    if events.len() == 0 {
        s
    } else {
        let before = apply_store_events(s, events.drop_last());
        match events.last() {
            Command::StartRun(_, start) => create_spec(before, start),
            Command::RunResult(start, end, stdout, stderr, status) => complete_spec(
                before,
                start,
                end,
                stdout,
                stderr,
                status,
            ),
        }
    }
}

/// Once complete, a record reads the same after any sequence of creations
/// and completions, and the log stays valid.
pub proof fn lemma_complete_record_stable_over(s: Seq<CommandResult>, events: Seq<Command>, id: u16)
    requires
        store_wf(s),
        get_spec(s, TargetCommand::Target(id)) matches Some(r) && is_complete(r),
    ensures
        store_wf(apply_store_events(s, events)),
        get_spec(apply_store_events(s, events), TargetCommand::Target(id)) == get_spec(
            s,
            TargetCommand::Target(id),
        ),
    decreases events.len(),
{
    if events.len() > 0 {
        lemma_complete_record_stable_over(s, events.drop_last(), id);
        let before = apply_store_events(s, events.drop_last());
        match events.last() {
            Command::StartRun(_, start) => {
                lemma_store_wf_preserved(before, start, 0, arbitrary(), arbitrary(), 0);
                lemma_complete_record_stable(before, id, start, 0, arbitrary(), arbitrary(), 0);
            },
            Command::RunResult(start, end, stdout, stderr, status) => {
                lemma_store_wf_preserved(before, start, end, stdout, stderr, status);
                lemma_complete_record_stable(before, id, start, end, stdout, stderr, status);
            },
        }
    }
}

/// The execution log: every record created, in creation order.
pub struct ExecutionStore {
    records: Vec<CommandResult>,
}

impl View for ExecutionStore {
    type V = Seq<CommandResult>;

    closed spec fn view(&self) -> Seq<CommandResult> {
        self.records@
    }
}

impl ExecutionStore {
    pub open spec fn wf(&self) -> bool {
        store_wf(self@)
    }

    pub fn new() -> (r: Self)
        ensures
            r@ == Seq::<CommandResult>::empty(),
            r.wf(),
    {
        ExecutionStore { records: Vec::new() }
    }

    pub fn len(&self) -> (r: usize)
        ensures
            r == self@.len(),
    {
        self.records.len()
    }

    /// Inserts a pending record started at `start` and returns its id, or
    /// returns `None` and records nothing when every id is taken.
    pub fn create(&mut self, start: u64) -> (r: Option<u16>)
        requires
            old(self).wf(),
        ensures
            final(self).wf(),
            final(self)@ == create_spec(old(self)@, start),
            r == (if old(self)@.len() < MAX_RECORDS {
                Some(old(self)@.len() as u16)
            } else {
                None::<u16>
            }),
    {
        let n = self.records.len();
        if n < MAX_RECORDS {
            let id = n as u16;
            self.records.push(
                CommandResult { id, start, end: None, stdout: None, stderr: None, status: None },
            );
            assert(self@ =~= create_spec(old(self)@, start));
            Some(id)
        } else {
            None
        }
    }

    /// Finalizes the first pending record that started at `start` with the
    /// given outcome and returns true; returns false and changes nothing
    /// when there is no such record.
    pub fn complete(
        &mut self,
        start: u64,
        end: u64,
        stdout: String,
        stderr: String,
        status: u8,
    ) -> (r: bool)
        requires
            old(self).wf(),
        ensures
            final(self).wf(),
            final(self)@ == complete_spec(old(self)@, start, end, stdout, stderr, status),
            r == has_pending_at(old(self)@, start),
    {
        let n = self.records.len();
        let mut i: usize = 0;
        while i < n
            invariant
                n == self.records@.len(),
                self@ == old(self)@,
                self.wf(),
                i <= n,
                forall|j: int|
                    0 <= j < i ==> !(#[trigger] self@[j].start == start && is_pending(self@[j])),
            decreases n - i,
        {
            let found = self.records[i].start == start && self.records[i].status.is_none();
            if found {
                let ghost s = self@;
                assert(is_pending(s[i as int]) || is_complete(s[i as int]));
                assert(first_pending_at(s, start, i as int));
                assert forall|k: int| first_pending_at(s, start, k) implies k == i by {
                    if k < i {
                    } else if k > i {
                        assert(!(s[i as int].start == start && is_pending(s[i as int])));
                    }
                }
                let id = self.records[i].id;
                self.records.set(
                    i,
                    CommandResult {
                        id,
                        start,
                        end: Some(end),
                        stdout: Some(stdout),
                        stderr: Some(stderr),
                        status: Some(status),
                    },
                );
                assert(self@ =~= complete_spec(s, start, end, stdout, stderr, status));
                assert forall|j: int| 0 <= j < self@.len() implies (#[trigger] self@[j]).id == j && (is_pending(self@[j]) || is_complete(self@[j])) by {
                    if j != i {
                        assert(self@[j] == s[j]);
                    }
                }
                return true;
            }
            i += 1;
        }
        assert(!has_pending_at(self@, start));
        false
    }

    /// The latest complete record for `Latest`; the record with that id,
    /// pending or complete, for an id.
    pub fn get(&self, target: &TargetCommand) -> (r: Option<CommandResult>)
        requires
            self.wf(),
        ensures
            r == get_spec(self@, *target),
    {
        match target {
            TargetCommand::Latest => self.last_command_result(),
            TargetCommand::Target(id) => self.get_command_result(*id),
        }
    }

    fn last_command_result(&self) -> (r: Option<CommandResult>)
        requires
            self.wf(),
        ensures
            r == latest_complete(self@),
    {
        let mut i: usize = self.records.len();
        assert(self@.subrange(0, i as int) =~= self@);
        while i > 0
            invariant
                i <= self@.len(),
                self.wf(),
                latest_complete(self@) == latest_complete(self@.subrange(0, i as int)),
            decreases i,
        {
            let ghost prefix = self@.subrange(0, i as int);
            assert(prefix.drop_last() =~= self@.subrange(0, i - 1));
            if self.records[i - 1].status.is_some() {
                return Some(self.records[i - 1].clone());
            }
            i -= 1;
        }
        None
    }

    fn get_command_result(&self, id: u16) -> (r: Option<CommandResult>)
        requires
            self.wf(),
        ensures
            r == get_spec(self@, TargetCommand::Target(id)),
    {
        if (id as usize) < self.records.len() {
            Some(self.records[id as usize].clone())
        } else {
            None
        }
    }

    /// Summaries of all records, highest id first.
    pub fn history(&self) -> (r: Vec<CommandResultSummary>)
        requires
            self.wf(),
        ensures
            r@ == history_spec(self@),
    {
        let n = self.records.len();
        let mut r: Vec<CommandResultSummary> = Vec::new();
        let mut i: usize = n;
        while i > 0
            invariant
                n == self@.len(),
                i <= n,
                r@.len() == n - i,
                forall|j: int| 0 <= j < n - i ==> r@[j] == #[trigger] history_spec(self@)[j],
            decreases i,
        {
            let rec = &self.records[i - 1];
            r.push(CommandResultSummary { id: rec.id, start: rec.start, end: rec.end, status: rec.status });
            i -= 1;
        }
        assert(r@ =~= history_spec(self@));
        r
    }
}

} // verus!
