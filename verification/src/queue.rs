//! The queue shown while a batch runs: one row per planned item, updated by identity.
use crate::engine::{ConversionPlan, ItemId, PlannedItem};
use crate::report::{BatchReport, ConversionEvent, ConversionResult};
use crate::text::{chars_contain, chars_of, has_substring};
use std::time::Duration;
use vstd::prelude::*;

verus! {

/// Where one queued item stands.
#[derive(Debug)]
pub enum RowState {
    Queued,
    Converting,
    Done { elapsed: Duration, output: String },
    Failed(String),
    Cancelled,
}

/// One planned item in the queue.
#[derive(Debug)]
pub struct QueueRow {
    pub id: ItemId,
    pub input: String,
    pub byte_size: u64,
    pub output: String,
    pub state: RowState,
}

/// The rows of the current batch, in plan order.
#[derive(Debug)]
pub struct QueueModel {
    pub rows: Vec<QueueRow>,
}

/// The state a finished result puts its row in.
pub open spec fn finished_state(result: ConversionResult, state: RowState) -> bool {
    if result.cancelled {
        state is Cancelled
    } else if result.error is Some {
        state matches RowState::Failed(m) && m@ == result.error->0@
    } else if result.output is Some {
        state matches RowState::Done { elapsed, output } && elapsed == result.elapsed && output@
            == result.output->0@
    } else {
        state matches RowState::Failed(m) && m@ == "conversion produced no output"@
    }
}

/// Everything but the state of a row.
pub open spec fn same_item(a: QueueRow, b: QueueRow) -> bool {
    a.id == b.id && a.input@ == b.input@ && a.byte_size == b.byte_size && a.output@ == b.output@
}

/// Two row lists that differ at most in the state of row `at`.
pub open spec fn rows_agree_except(a: Seq<QueueRow>, b: Seq<QueueRow>, at: int) -> bool {
    &&& a.len() == b.len()
    &&& forall|i: int| 0 <= i < a.len() ==> same_item(#[trigger] a[i], b[i])
    &&& forall|i: int| 0 <= i < a.len() && i != at ==> #[trigger] a[i] == b[i]
}

/// Whether a row has reached an end state: done, failed, or cancelled.
pub open spec fn row_finished(r: QueueRow) -> bool {
    r.state is Done || r.state is Failed || r.state is Cancelled
}

/// How many rows have finished.
pub open spec fn count_finished(rows: Seq<QueueRow>) -> nat
    decreases rows.len(),
{
    if rows.len() == 0 {
        0
    } else {
        count_finished(rows.drop_last()) + if row_finished(rows.last()) {
            1nat
        } else {
            0nat
        }
    }
}

/// How many rows failed.
pub open spec fn count_row_failures(rows: Seq<QueueRow>) -> nat
    decreases rows.len(),
{
    if rows.len() == 0 {
        0
    } else {
        count_row_failures(rows.drop_last()) + if rows.last().state is Failed {
            1nat
        } else {
            0nat
        }
    }
}

proof fn lemma_row_counts_bounded(rows: Seq<QueueRow>)
    ensures
        count_finished(rows) <= rows.len(),
        count_row_failures(rows) <= rows.len(),
    decreases rows.len(),
{
    if rows.len() > 0 {
        lemma_row_counts_bounded(rows.drop_last());
    }
}

/// The row state a finished result leads to.
fn state_of_result(result: ConversionResult) -> (state: RowState)
    ensures
        finished_state(result, state),
{
    if result.cancelled {
        RowState::Cancelled
    } else if let Some(error) = result.error {
        RowState::Failed(error)
    } else if let Some(output) = result.output {
        RowState::Done { elapsed: result.elapsed, output }
    } else {
        RowState::Failed(String::from_str("conversion produced no output"))
    }
}

/// One queued row per planned item.
fn row_of(item: &PlannedItem) -> (row: QueueRow)
    ensures
        row.id == item.id,
        row.input@ == item.input@,
        row.byte_size == item.byte_size,
        row.output@ == item.output@,
        row.state is Queued,
{
    QueueRow {
        id: item.id,
        input: item.input.clone(),
        byte_size: item.byte_size,
        output: item.output.clone(),
        state: RowState::Queued,
    }
}

impl QueueModel {
    /// An empty queue.
    pub fn new() -> (q: QueueModel)
        ensures
            q.rows@.len() == 0,
    {
        QueueModel { rows: Vec::new() }
    }

    /// One queued row for each item of the plan, in plan order.
    pub fn from_plan(plan: &ConversionPlan) -> (q: QueueModel)
        ensures
            q.rows@.len() == plan.items@.len(),
            forall|i: int|
                0 <= i < q.rows@.len() ==> {
                    &&& #[trigger] q.rows@[i].id == plan.items@[i].id
                    &&& q.rows@[i].input@ == plan.items@[i].input@
                    &&& q.rows@[i].byte_size == plan.items@[i].byte_size
                    &&& q.rows@[i].output@ == plan.items@[i].output@
                    &&& q.rows@[i].state is Queued
                },
    {
        let mut rows: Vec<QueueRow> = Vec::new();
        let mut i: usize = 0;
        while i < plan.items.len()
            invariant
                0 <= i <= plan.items@.len(),
                rows@.len() == i,
                forall|k: int|
                    0 <= k < i ==> {
                        &&& #[trigger] rows@[k].id == plan.items@[k].id
                        &&& rows@[k].input@ == plan.items@[k].input@
                        &&& rows@[k].byte_size == plan.items@[k].byte_size
                        &&& rows@[k].output@ == plan.items@[k].output@
                        &&& rows@[k].state is Queued
                    },
            decreases plan.items.len() - i,
        {
            rows.push(row_of(&plan.items[i]));
            i = i + 1;
        }
        QueueModel { rows }
    }

    /// The position of the first row for `id`.
    fn position_of(&self, id: ItemId) -> (r: Option<usize>)
        ensures
            match r {
                Some(p) => p < self.rows@.len() && self.rows@[p as int].id == id && forall|j: int|
                    0 <= j < p ==> self.rows@[j].id != id,
                None => forall|j: int| 0 <= j < self.rows@.len() ==> self.rows@[j].id != id,
            },
    {
        let mut i: usize = 0;
        while i < self.rows.len()
            invariant
                0 <= i <= self.rows@.len(),
                forall|j: int| 0 <= j < i ==> self.rows@[j].id != id,
            decreases self.rows.len() - i,
        {
            if self.rows[i].id.0 == id.0 {
                return Some(i);
            }
            i = i + 1;
        }
        None
    }

    /// Sets the state of row `p`.
    fn set_state(&mut self, p: usize, state: RowState)
        requires
            p < old(self).rows@.len(),
        ensures
            rows_agree_except(final(self).rows@, old(self).rows@, p as int),
            final(self).rows@[p as int].state == state,
    {
        let row = self.rows.remove(p);
        let updated = QueueRow {
            id: row.id,
            input: row.input,
            byte_size: row.byte_size,
            output: row.output,
            state,
        };
        self.rows.insert(p, updated);
        assert forall|i: int| 0 <= i < self.rows@.len() && i != p implies #[trigger] self.rows@[i]
            == old(self).rows@[i] by {
            if i < p {
            } else {
            }
        }
    }

    /// Applies one progress event to the first row with the event's identity; other rows
    /// and events for unknown identities leave the queue unchanged.
    pub fn apply_event(&mut self, event: ConversionEvent)
        ensures
            event_applied(old(self).rows@, final(self).rows@, event),
    {
        match event {
            ConversionEvent::BatchStarted { .. } => {},
            ConversionEvent::ItemStarted { id } => {
                if let Some(p) = self.position_of(id) {
                    self.set_state(p, RowState::Converting);
                    proof {
                        lemma_first_index(old(self).rows@, id, p as int);
                    }
                } else {
                    proof {
                        lemma_no_index(old(self).rows@, id);
                    }
                }
            },
            ConversionEvent::ItemFinished(result) => {
                let ghost r = result;
                if let Some(p) = self.position_of(result.id) {
                    let state = state_of_result(result);
                    self.set_state(p, state);
                    proof {
                        lemma_first_index(old(self).rows@, r.id, p as int);
                    }
                } else {
                    proof {
                        lemma_no_index(old(self).rows@, result.id);
                    }
                }
            },
        }
    }

    /// Applies every result of a finished batch, in order: each row ends in the state of
    /// the last result for its identity, and rows no result names are unchanged.
    pub fn apply_report(&mut self, report: &BatchReport)
        ensures
            report_applied(old(self).rows@, final(self).rows@, report.results@),
    {
        let ghost all = report.results@;
        let ghost start = self.rows@;
        let mut k: usize = 0;
        while k < report.results.len()
            invariant
                0 <= k <= all.len(),
                all == report.results@,
                self.rows@.len() == start.len(),
                forall|i: int| 0 <= i < start.len() ==> same_item(#[trigger] self.rows@[i], start[i]),
                forall|i: int|
                    0 <= i < start.len() ==> match last_hit(start, all.take(k as int), i) {
                        Some(j) => finished_state(all[j], #[trigger] self.rows@[i].state),
                        None => self.rows@[i] == start[i],
                    },
            decreases report.results.len() - k,
        {
            let ghost before = self.rows@;
            let result = report.results[k].copy();
            let ghost r = all[k as int];
            proof {
                lemma_same_ids_first(before, start, r.id);
                assert(all.take(k + 1).drop_last() =~= all.take(k as int));
                assert forall|st: RowState| finished_state(result, st) == finished_state(r, st) by {}
            }
            self.apply_event(ConversionEvent::ItemFinished(result));
            proof {
                assert forall|i: int| 0 <= i < start.len() implies same_item(
                    #[trigger] self.rows@[i],
                    start[i],
                ) by {
                    assert(same_item(self.rows@[i], before[i]));
                    assert(same_item(before[i], start[i]));
                }
            }
            k = k + 1;
        }
        proof {
            assert(all.take(k as int) =~= all);
        }
    }

    /// How many rows are done, failed, or cancelled.
    pub fn completed(&self) -> (n: usize)
        ensures
            n == count_finished(self.rows@),
    {
        let mut n: usize = 0;
        let mut i: usize = 0;
        while i < self.rows.len()
            invariant
                0 <= i <= self.rows@.len(),
                n == count_finished(self.rows@.subrange(0, i as int)),
            decreases self.rows.len() - i,
        {
            proof {
                assert(self.rows@.subrange(0, i + 1).drop_last() =~= self.rows@.subrange(
                    0,
                    i as int,
                ));
                lemma_row_counts_bounded(self.rows@.subrange(0, i as int));
            }
            let finished = match &self.rows[i].state {
                RowState::Done { .. } => true,
                RowState::Failed(_) => true,
                RowState::Cancelled => true,
                _ => false,
            };
            if finished {
                n = n + 1;
            }
            i = i + 1;
        }
        assert(self.rows@.subrange(0, i as int) =~= self.rows@);
        n
    }

    /// How many rows failed.
    pub fn failed(&self) -> (n: usize)
        ensures
            n == count_row_failures(self.rows@),
    {
        let mut n: usize = 0;
        let mut i: usize = 0;
        while i < self.rows.len()
            invariant
                0 <= i <= self.rows@.len(),
                n == count_row_failures(self.rows@.subrange(0, i as int)),
            decreases self.rows.len() - i,
        {
            proof {
                assert(self.rows@.subrange(0, i + 1).drop_last() =~= self.rows@.subrange(
                    0,
                    i as int,
                ));
                lemma_row_counts_bounded(self.rows@.subrange(0, i as int));
            }
            let failed = match &self.rows[i].state {
                RowState::Failed(_) => true,
                _ => false,
            };
            if failed {
                n = n + 1;
            }
            i = i + 1;
        }
        assert(self.rows@.subrange(0, i as int) =~= self.rows@);
        n
    }
}

impl Default for QueueModel {
    fn default() -> (q: QueueModel)
        ensures
            q.rows@.len() == 0,
    {
        QueueModel::new()
    }
}

/// The rows after one progress event: the first row with the event's identity takes the
/// state the event gives it; every other row, and every row for an unknown identity or a
/// batch start, is unchanged.
pub open spec fn event_applied(before: Seq<QueueRow>, after: Seq<QueueRow>, event: ConversionEvent) -> bool {
    match event {
        ConversionEvent::BatchStarted { .. } => after == before,
        ConversionEvent::ItemStarted { id } => match first_index(before, id) {
            Some(p) => rows_agree_except(after, before, p) && after[p].state is Converting,
            None => after == before,
        },
        ConversionEvent::ItemFinished(result) => match first_index(before, result.id) {
            Some(p) => rows_agree_except(after, before, p) && finished_state(result, after[p].state),
            None => after == before,
        },
    }
}

/// The rows after a whole report: the same items, each in the state of the last result for
/// its identity, and rows no result names unchanged.
pub open spec fn report_applied(before: Seq<QueueRow>, after: Seq<QueueRow>, results: Seq<ConversionResult>) -> bool {
    &&& after.len() == before.len()
    &&& forall|i: int| 0 <= i < before.len() ==> same_item(#[trigger] after[i], before[i])
    &&& forall|i: int|
        0 <= i < before.len() ==> match last_hit(before, results, i) {
            Some(j) => finished_state(results[j], #[trigger] after[i].state),
            None => after[i] == before[i],
        }
}

/// The position of the first row with identity `id`, if there is one.
pub open spec fn first_index(rows: Seq<QueueRow>, id: ItemId) -> Option<int> {
    if exists|i: int| is_first_index(rows, id, i) {
        Some(choose|i: int| is_first_index(rows, id, i))
    } else {
        None
    }
}

/// The position, in `results`, of the last result for row `i` of `rows`.
pub open spec fn last_hit(rows: Seq<QueueRow>, results: Seq<ConversionResult>, i: int) -> Option<int>
    decreases results.len(),
{
    if results.len() == 0 {
        None
    } else if first_index(rows, results.last().id) == Some(i) {
        Some(results.len() - 1)
    } else {
        last_hit(rows, results.drop_last(), i)
    }
}

proof fn lemma_same_ids_first(a: Seq<QueueRow>, b: Seq<QueueRow>, id: ItemId)
    requires
        a.len() == b.len(),
        forall|i: int| 0 <= i < a.len() ==> same_item(#[trigger] a[i], b[i]),
    ensures
        first_index(a, id) == first_index(b, id),
{
    if exists|i: int| is_first_index(a, id, i) {
        let p = choose|i: int| is_first_index(a, id, i);
        assert(same_item(a[p], b[p]));
        assert(is_first_index(b, id, p)) by {
            assert forall|j: int| 0 <= j < p implies b[j].id != id by {
                assert(same_item(a[j], b[j]));
            }
        }
        lemma_first_index(a, id, p);
        lemma_first_index(b, id, p);
    } else if exists|i: int| is_first_index(b, id, i) {
        let p = choose|i: int| is_first_index(b, id, i);
        assert(same_item(a[p], b[p]));
        assert(is_first_index(a, id, p)) by {
            assert forall|j: int| 0 <= j < p implies a[j].id != id by {
                assert(same_item(a[j], b[j]));
            }
        }
    }
}

/// `i` is the first position whose row has identity `id`.
pub open spec fn is_first_index(rows: Seq<QueueRow>, id: ItemId, i: int) -> bool {
    0 <= i < rows.len() && rows[i].id == id && forall|j: int| 0 <= j < i ==> rows[j].id != id
}

proof fn lemma_first_index(rows: Seq<QueueRow>, id: ItemId, p: int)
    requires
        is_first_index(rows, id, p),
    ensures
        first_index(rows, id) == Some(p),
{
    let q = choose|i: int| is_first_index(rows, id, i);
    assert(is_first_index(rows, id, q));
    if q < p {
        assert(rows[q].id != id);
    } else if q > p {
        assert(rows[p].id != id);
    }
}

proof fn lemma_no_index(rows: Seq<QueueRow>, id: ItemId)
    requires
        forall|j: int| 0 <= j < rows.len() ==> rows[j].id != id,
    ensures
        first_index(rows, id) is None,
{
}


/// The one-word summary of a failure shown in a queue row: the first of "decode", "open"
/// and "output" that the message contains, else "error".
pub open spec fn concise_word(error: Seq<char>) -> Seq<char> {
    if has_substring(error, "decode"@) {
        "decode"@
    } else if has_substring(error, "open"@) {
        "open"@
    } else if has_substring(error, "output"@) {
        "output"@
    } else {
        "error"@
    }
}

/// The one-word summary of a failure shown in a queue row.
pub fn concise(error: &str) -> (word: &'static str)
    ensures
        word@ == concise_word(error@),
{
    let chars = chars_of(error);
    let decode = chars_of("decode");
    if chars_contain(chars.as_slice(), decode.as_slice()) {
        return "decode";
    }
    let open = chars_of("open");
    if chars_contain(chars.as_slice(), open.as_slice()) {
        return "open";
    }
    let output = chars_of("output");
    if chars_contain(chars.as_slice(), output.as_slice()) {
        return "output";
    }
    "error"
}


/// Only rows in an end state count as finished: a row that is still queued or converting
/// adds nothing to the count, and a done, failed or cancelled row adds one.
pub proof fn lemma_finished_counts_end_states(rows: Seq<QueueRow>, r: QueueRow)
    ensures
        (r.state is Queued || r.state is Converting) ==> count_finished(rows.push(r)) == count_finished(
            rows,
        ),
        (r.state is Done || r.state is Failed || r.state is Cancelled) ==> count_finished(rows.push(r))
            == count_finished(rows) + 1,
{
    assert(rows.push(r).drop_last() =~= rows);
}

/// A queue in which no row has reached an end state has finished nothing.
pub proof fn lemma_nothing_finished_while_pending(rows: Seq<QueueRow>)
    requires
        forall|i: int| 0 <= i < rows.len() ==> (#[trigger] rows[i]).state is Queued || rows[i].state is Converting,
    ensures
        count_finished(rows) == 0,
    decreases rows.len(),
{
    if rows.len() > 0 {
        let init = rows.drop_last();
        assert forall|i: int| 0 <= i < init.len() implies (#[trigger] init[i]).state is Queued
            || init[i].state is Converting by {
            assert(init[i] == rows[i]);
        }
        lemma_nothing_finished_while_pending(init);
        assert(rows.last() == rows[rows.len() - 1]);
    }
}


/// Only failed rows count as failures: a failed row adds one, any other row nothing.
pub proof fn lemma_failures_count_failed_rows(rows: Seq<QueueRow>, r: QueueRow)
    ensures
        r.state is Failed ==> count_row_failures(rows.push(r)) == count_row_failures(rows) + 1,
        !(r.state is Failed) ==> count_row_failures(rows.push(r)) == count_row_failures(rows),
{
    assert(rows.push(r).drop_last() =~= rows);
}

}
