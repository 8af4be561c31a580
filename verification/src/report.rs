//! Per-item results, progress events, and the batch report.
use crate::engine::{ItemId, PlannedItem};
use crate::imaging::{convert_error_text, ConvertError};
use std::time::Duration;
use vstd::prelude::*;

verus! {

/// The outcome of one planned item.
#[derive(Debug)]
pub struct ConversionResult {
    pub id: ItemId,
    pub input: String,
    /// The written file, when the conversion succeeded.
    pub output: Option<String>,
    pub elapsed: Duration,
    /// The reason, when the conversion failed.
    pub error: Option<String>,
    /// Set when the batch was cancelled before this item started.
    pub cancelled: bool,
}

/// Progress reported while a batch runs.
#[derive(Debug)]
pub enum ConversionEvent {
    BatchStarted { total: usize },
    ItemStarted { id: ItemId },
    ItemFinished(ConversionResult),
}

/// Every item's outcome, in plan order.
#[derive(Debug)]
pub struct BatchReport {
    pub results: Vec<ConversionResult>,
    pub elapsed: Duration,
    pub cancelled: bool,
}

/// A result that converted its input: no error and not cancelled.
pub open spec fn result_succeeded(r: ConversionResult) -> bool {
    r.error is None && !r.cancelled
}

/// How many results succeeded.
pub open spec fn count_succeeded(rs: Seq<ConversionResult>) -> nat
    decreases rs.len(),
{
    if rs.len() == 0 {
        0
    } else {
        count_succeeded(rs.drop_last()) + if result_succeeded(rs.last()) {
            1nat
        } else {
            0nat
        }
    }
}

/// How many results carry an error.
pub open spec fn count_failed(rs: Seq<ConversionResult>) -> nat
    decreases rs.len(),
{
    if rs.len() == 0 {
        0
    } else {
        count_failed(rs.drop_last()) + if rs.last().error is Some {
            1nat
        } else {
            0nat
        }
    }
}

/// How many results were cancelled.
pub open spec fn count_cancelled(rs: Seq<ConversionResult>) -> nat
    decreases rs.len(),
{
    if rs.len() == 0 {
        0
    } else {
        count_cancelled(rs.drop_last()) + if rs.last().cancelled {
            1nat
        } else {
            0nat
        }
    }
}

/// A count never exceeds the number of results.
pub proof fn lemma_counts_bounded(rs: Seq<ConversionResult>)
    ensures
        count_succeeded(rs) <= rs.len(),
        count_failed(rs) <= rs.len(),
        count_cancelled(rs) <= rs.len(),
    decreases rs.len(),
{
    if rs.len() > 0 {
        lemma_counts_bounded(rs.drop_last());
    }
}

/// Every result is exactly one of succeeded, failed, or cancelled without an error, so the
/// three counts add up to the number of results when no cancelled result carries an error.
pub proof fn lemma_counts_partition(rs: Seq<ConversionResult>)
    requires
        forall|i: int| 0 <= i < rs.len() ==> !(rs[i].cancelled && rs[i].error is Some),
    ensures
        count_succeeded(rs) + count_failed(rs) + count_cancelled(rs) == rs.len(),
    decreases rs.len(),
{
    if rs.len() > 0 {
        let init = rs.drop_last();
        assert forall|i: int| 0 <= i < init.len() implies !(init[i].cancelled && init[i].error is Some) by {
            assert(init[i] == rs[i]);
        }
        lemma_counts_partition(init);
    }
}

/// `std::time::Duration::ZERO`.
#[verifier::external_body]
fn zero_duration() -> Duration {
    Duration::ZERO
}

/// The duration that `Duration::default` gives, `Duration::ZERO`.
#[verifier::external_body]
fn default_duration() -> Duration {
    Duration::default()
}

impl ConversionResult {
    /// A copy of this result.
    pub fn copy(&self) -> (r: ConversionResult)
        ensures
            r.id == self.id,
            r.input@ == self.input@,
            r.elapsed == self.elapsed,
            r.cancelled == self.cancelled,
            r.output is Some <==> self.output is Some,
            r.output is Some ==> r.output->0@ == self.output->0@,
            r.error is Some <==> self.error is Some,
            r.error is Some ==> r.error->0@ == self.error->0@,
    {
        ConversionResult {
            id: self.id,
            input: self.input.clone(),
            output: match &self.output {
                Some(o) => Some(o.clone()),
                None => None,
            },
            elapsed: self.elapsed,
            error: match &self.error {
                Some(e) => Some(e.clone()),
                None => None,
            },
            cancelled: self.cancelled,
        }
    }

    /// Whether this item was converted.
    pub fn succeeded(&self) -> (r: bool)
        ensures
            r == result_succeeded(*self),
    {
        self.error.is_none() && !self.cancelled
    }
}

/// The result of an item that never started because the batch was cancelled.
pub fn cancelled_result(item: &PlannedItem) -> (r: ConversionResult)
    ensures
        r.id == item.id,
        r.input@ == item.input@,
        r.output is None,
        r.error is None,
        r.cancelled,
{
    ConversionResult {
        id: item.id,
        input: item.input.clone(),
        output: None,
        elapsed: zero_duration(),
        error: None,
        cancelled: true,
    }
}

impl BatchReport {
    /// An empty report: no results, not cancelled.
    pub fn empty() -> (r: BatchReport)
        ensures
            r.results@.len() == 0,
            !r.cancelled,
    {
        BatchReport { results: Vec::new(), elapsed: default_duration(), cancelled: false }
    }

    /// How many items were converted.
    pub fn succeeded(&self) -> (n: usize)
        ensures
            n == count_succeeded(self.results@),
    {
        let mut n: usize = 0;
        let mut i: usize = 0;
        while i < self.results.len()
            invariant
                0 <= i <= self.results@.len(),
                n == count_succeeded(self.results@.subrange(0, i as int)),
            decreases self.results.len() - i,
        {
            proof {
                assert(self.results@.subrange(0, i + 1).drop_last() =~= self.results@.subrange(
                    0,
                    i as int,
                ));
                lemma_counts_bounded(self.results@.subrange(0, i as int));
            }
            if self.results[i].succeeded() {
                n = n + 1;
            }
            i = i + 1;
        }
        assert(self.results@.subrange(0, i as int) =~= self.results@);
        n
    }

    /// How many items failed.
    pub fn failed(&self) -> (n: usize)
        ensures
            n == count_failed(self.results@),
    {
        let mut n: usize = 0;
        let mut i: usize = 0;
        while i < self.results.len()
            invariant
                0 <= i <= self.results@.len(),
                n == count_failed(self.results@.subrange(0, i as int)),
            decreases self.results.len() - i,
        {
            proof {
                assert(self.results@.subrange(0, i + 1).drop_last() =~= self.results@.subrange(
                    0,
                    i as int,
                ));
                lemma_counts_bounded(self.results@.subrange(0, i as int));
            }
            if self.results[i].error.is_some() {
                n = n + 1;
            }
            i = i + 1;
        }
        assert(self.results@.subrange(0, i as int) =~= self.results@);
        n
    }

    /// How many items were cancelled before they started.
    pub fn cancelled_count(&self) -> (n: usize)
        ensures
            n == count_cancelled(self.results@),
    {
        let mut n: usize = 0;
        let mut i: usize = 0;
        while i < self.results.len()
            invariant
                0 <= i <= self.results@.len(),
                n == count_cancelled(self.results@.subrange(0, i as int)),
            decreases self.results.len() - i,
        {
            proof {
                assert(self.results@.subrange(0, i + 1).drop_last() =~= self.results@.subrange(
                    0,
                    i as int,
                ));
                lemma_counts_bounded(self.results@.subrange(0, i as int));
            }
            if self.results[i].cancelled {
                n = n + 1;
            }
            i = i + 1;
        }
        assert(self.results@.subrange(0, i as int) =~= self.results@);
        n
    }
}

impl Default for BatchReport {
    fn default() -> (r: BatchReport)
        ensures
            r.results@.len() == 0,
            !r.cancelled,
    {
        BatchReport::empty()
    }
}


/// The result of an item whose conversion ran: its output when it succeeded, the error's
/// text when it failed.
pub fn finished_result(item: &PlannedItem, outcome: Result<(), ConvertError>, elapsed: Duration) -> (r:
    ConversionResult)
    ensures
        r.id == item.id,
        r.input@ == item.input@,
        r.elapsed == elapsed,
        !r.cancelled,
        match outcome {
            Ok(_) => r.error is None && (r.output matches Some(o) && o@ == item.output@),
            Err(e) => r.output is None && (r.error matches Some(m) && m@ == convert_error_text(e)),
        },
{
    let (output, error) = match outcome {
        Ok(_) => (Some(item.output.clone()), None),
        Err(e) => (None, Some(e.message())),
    };
    ConversionResult { id: item.id, input: item.input.clone(), output, elapsed, error, cancelled: false }
}

/// Results ordered by item identity.
pub open spec fn sorted_by_id(rs: Seq<ConversionResult>) -> bool {
    forall|i: int, j: int| 0 <= i < j < rs.len() ==> (#[trigger] rs[i]).id.0 <= (#[trigger] rs[j]).id.0
}

/// The results about one item.
pub open spec fn with_id(k: usize) -> spec_fn(ConversionResult) -> bool {
    |r: ConversionResult| r.id.0 == k
}

/// Putting a result just after every result with a smaller or equal identity, and before
/// every larger one, appends it to the results about its own item and leaves the results
/// about every other item as they were.
proof fn lemma_insert_after_equal_ids(before: Seq<ConversionResult>, pos: int, x: ConversionResult, k: usize)
    requires
        0 <= pos <= before.len(),
        forall|i: int| 0 <= i < pos ==> (#[trigger] before[i]).id.0 <= x.id.0,
        forall|i: int| pos <= i < before.len() ==> (#[trigger] before[i]).id.0 > x.id.0,
    ensures
        before.insert(pos, x).filter(with_id(k)) == if x.id.0 == k {
            before.filter(with_id(k)).push(x)
        } else {
            before.filter(with_id(k))
        },
{
    let p = with_id(k);
    let front = before.take(pos);
    let back = before.skip(pos);
    assert(before == front + back);
    assert(before.insert(pos, x) == front + (seq![x] + back));
    Seq::filter_distributes_over_add(front, back, p);
    Seq::filter_distributes_over_add(front, seq![x] + back, p);
    back.lemma_filter_prepend(x, p);
    if x.id.0 == k {
        assert(back.all(|y: ConversionResult| !p(y))) by {
            assert forall|i: int| 0 <= i < back.len() implies !p(#[trigger] back[i]) by {
                assert(back[i] == before[pos + i]);
            }
        }
        back.lemma_all_neg_filter_empty(p);
        assert(back.filter(p) =~= Seq::<ConversionResult>::empty());
        assert(front.filter(p) + (seq![x] + back.filter(p)) =~= (front.filter(p) + back.filter(
            p,
        )).push(x));
    } else {
        assert(front.filter(p) + (Seq::<ConversionResult>::empty() + back.filter(p)) =~= front.filter(
            p,
        ) + back.filter(p));
    }
}

impl BatchReport {
    /// The report of a batch whose results arrived in any order: the same results, ordered
    /// by item identity, which is plan order; results about the same item keep the order in
    /// which they arrived.
    pub fn from_results(results: Vec<ConversionResult>, elapsed: Duration, cancelled: bool) -> (r:
        BatchReport)
        ensures
            r.results@.to_multiset() == results@.to_multiset(),
            sorted_by_id(r.results@),
            forall|k: usize| #[trigger] r.results@.filter(with_id(k)) == results@.filter(with_id(k)),
            r.elapsed == elapsed,
            r.cancelled == cancelled,
    {
        let ghost all = results@;
        let mut rest = results;
        let mut ordered: Vec<ConversionResult> = Vec::new();
        proof {
            vstd::seq_lib::to_multiset_len(ordered@);
            vstd::multiset::lemma_multiset_empty_len(ordered@.to_multiset());
            assert(ordered@.to_multiset().add(rest@.to_multiset()) =~= all.to_multiset());
            assert forall|k: usize| ordered@.filter(with_id(k)) + rest@.filter(with_id(k)) == #[trigger] all.filter(
                with_id(k),
            ) by {
                assert(ordered@.filter(with_id(k)) + rest@.filter(with_id(k)) =~= rest@.filter(with_id(k)));
            }
        }
        while rest.len() > 0
            invariant
                ordered@.to_multiset().add(rest@.to_multiset()) == all.to_multiset(),
                sorted_by_id(ordered@),
                forall|k: usize| ordered@.filter(with_id(k)) + rest@.filter(with_id(k)) == #[trigger] all.filter(
                    with_id(k),
                ),
            decreases rest.len(),
        {
            let ghost before_rest = rest@;
            let x = rest.remove(0);
            assert(before_rest.remove(0) == rest@);
            let mut pos: usize = 0;
            while pos < ordered.len() && ordered[pos].id.0 <= x.id.0
                invariant
                    0 <= pos <= ordered@.len(),
                    forall|k: int| 0 <= k < pos ==> (#[trigger] ordered@[k]).id.0 <= x.id.0,
                decreases ordered.len() - pos,
            {
                pos = pos + 1;
            }
            let ghost before = ordered@;
            ordered.insert(pos, x);
            proof {
                assert(ordered@ == before.insert(pos as int, x));
                assert forall|k: int| pos <= k < before.len() implies (#[trigger] before[k]).id.0 > x.id.0 by {
                    assert(before[pos as int].id.0 > x.id.0);
                    if k > pos {
                        assert(before[pos as int].id.0 <= before[k].id.0);
                    }
                }
                assert(sorted_by_id(ordered@)) by {
                    assert forall|i: int, j: int| 0 <= i < j < ordered@.len() implies (
                    #[trigger] ordered@[i]).id.0 <= (#[trigger] ordered@[j]).id.0 by {
                        if j < pos {
                            assert(ordered@[i] == before[i] && ordered@[j] == before[j]);
                        } else if j == pos {
                            assert(ordered@[i] == before[i]);
                        } else if i < pos {
                            assert(ordered@[i] == before[i] && ordered@[j] == before[j - 1]);
                        } else if i == pos {
                            assert(ordered@[j] == before[j - 1]);
                        } else {
                            assert(ordered@[i] == before[i - 1] && ordered@[j] == before[j - 1]);
                        }
                    }
                }
                assert(before_rest.to_multiset() == rest@.to_multiset().insert(x)) by {
                    assert(before_rest[0] == x);
                    assert(before_rest.contains(x));
                    vstd::seq_lib::to_multiset_contains(before_rest, x);
                    vstd::seq_lib::to_multiset_remove(before_rest, 0);
                    assert(rest@.to_multiset() =~= before_rest.to_multiset().remove(x));
                    assert(before_rest.to_multiset() =~= rest@.to_multiset().insert(x));
                }
                vstd::seq_lib::to_multiset_insert(before, pos as int, x);
                assert(ordered@.to_multiset() == before.to_multiset().insert(x));
                assert(ordered@.to_multiset().add(rest@.to_multiset()) =~= before.to_multiset().add(
                    before_rest.to_multiset(),
                ));
                assert(before_rest == seq![x] + rest@);
                assert forall|k: usize| ordered@.filter(with_id(k)) + rest@.filter(with_id(k)) == #[trigger] all.filter(
                    with_id(k),
                ) by {
                    lemma_insert_after_equal_ids(before, pos as int, x, k);
                    rest@.lemma_filter_prepend(x, with_id(k));
                    assert(before.filter(with_id(k)) + before_rest.filter(with_id(k)) == all.filter(with_id(k)));
                    if x.id.0 == k {
                        assert(ordered@.filter(with_id(k)) + rest@.filter(with_id(k)) =~= before.filter(
                            with_id(k),
                        ) + before_rest.filter(with_id(k)));
                    } else {
                        assert(ordered@.filter(with_id(k)) + rest@.filter(with_id(k)) =~= before.filter(
                            with_id(k),
                        ) + before_rest.filter(with_id(k)));
                    }
                }
            }
        }
        proof {
            vstd::seq_lib::to_multiset_len(rest@);
            vstd::multiset::lemma_multiset_empty_len(rest@.to_multiset());
            assert(ordered@.to_multiset().add(rest@.to_multiset()) =~= ordered@.to_multiset());
            assert forall|k: usize| #[trigger] ordered@.filter(with_id(k)) == all.filter(with_id(k)) by {
                assert(ordered@.filter(with_id(k)) + rest@.filter(with_id(k)) == all.filter(with_id(k)));
                assert(ordered@.filter(with_id(k)) + rest@.filter(with_id(k)) =~= ordered@.filter(with_id(k)));
            }
        }
        BatchReport { results: ordered, elapsed, cancelled }
    }
}

}
