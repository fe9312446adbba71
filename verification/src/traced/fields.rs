//! The counts that a traced iterator records in its span, made only from the iterator.

use vstd::prelude::*;
use crate::traced::{count_err, count_ok, TraceCounts, TracedResultIterator};

verus! {

/// The values recorded in a traced iterator's span. They can only be read off the
/// iterator itself, so the row count is its count of `Ok` items and the error count its
/// count of `Err` items.
pub struct TraceFields {
    row_count: usize,
    error_count: usize,
    completed: bool,
}

impl TraceFields {
    /// The value recorded under `row_count`.
    pub closed spec fn recorded_row_count(&self) -> usize {
        self.row_count
    }

    /// The value recorded under `error_count`.
    pub closed spec fn recorded_error_count(&self) -> usize {
        self.error_count
    }

    /// The value recorded under `completed`.
    pub closed spec fn recorded_completed(&self) -> bool {
        self.completed
    }

    /// The counts of `it`, to be recorded in its span.
    pub fn of<I>(it: &TracedResultIterator<I>) -> (fields: Self)
        ensures
            fields.recorded_row_count() == it@.rows,
            fields.recorded_error_count() == it@.errors,
            fields.recorded_completed() == it@.completed,
        opens_invariants none
        no_unwind
    {
        TraceFields { row_count: it.row_count(), error_count: it.error_count(), completed: it.completed() }
    }
}

/// Calls `tracing::Span::record` once for each of the three fields: `row_count` with
/// `fields`' row count, `error_count` with its error count, `completed` with its
/// completion. What the subscriber does with the values is not stated. The claim that the
/// call does not unwind rests on tracing's own code, which ignores a field the span does
/// not declare and a span that is disabled; a subscriber whose record callback panics is
/// outside it.
#[verifier::external_body]
pub(crate) fn record_trace_fields(span: &tracing::Span, fields: &TraceFields)
    opens_invariants none
    no_unwind
{
    span.record("row_count", fields.row_count);
    span.record("error_count", fields.error_count);
    span.record("completed", fields.completed);
}

/// What a dropped traced iterator records: for an iterator whose polls yielded `items`,
/// the number of `Ok` items under `row_count`, the number of `Err` items under
/// `error_count`, and under `completed` whether one poll reported the end.
pub proof fn lemma_recorded_fields_count_items<I, T, E>(
    fields: TraceFields,
    it: TracedResultIterator<I>,
    items: Seq<Option<Result<T, E>>>,
)
    requires
        fields.recorded_row_count() == it@.rows,
        fields.recorded_error_count() == it@.errors,
        fields.recorded_completed() == it@.completed,
        it@ == TraceCounts::start().observe_all(items),
    ensures
        fields.recorded_row_count() == count_ok(items),
        fields.recorded_error_count() == count_err(items),
        fields.recorded_completed() == items.contains(None),
{
    crate::traced::lemma_counts_follow_items(items);
}

} // verus!
