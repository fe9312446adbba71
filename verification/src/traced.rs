use vstd::prelude::*;
use vstd::std_specs::iter::IteratorSpec;
use crate::traced::fields::{record_trace_fields, TraceFields};

pub mod fields;

verus! {

#[verifier::external_type_specification]
#[verifier::external_body]
pub struct ExSpan(tracing::Span);

#[verifier::external_type_specification]
#[verifier::external_body]
pub struct ExEntered<'a>(tracing::span::Entered<'a>);

/// Calls `tracing::Span::enter`, which makes `span` the current span until the returned
/// guard is dropped. Nothing is claimed of the guard: it only matters to the subscriber.
#[verifier::external_body]
fn enter_span(span: &tracing::Span) -> tracing::span::Entered<'_> {
    span.enter()
}

/// What a traced iterator has observed so far.
pub ghost struct TraceCounts {
    /// Items that were `Ok`.
    pub rows: nat,
    /// Items that were `Err`.
    pub errors: nat,
    /// Whether the inner iterator has reported its end.
    pub completed: bool,
}

impl TraceCounts {
    /// The counts of an iterator that has not been polled yet.
    pub open spec fn start() -> TraceCounts {
        TraceCounts { rows: 0, errors: 0, completed: false }
    }

    /// The counts after one more poll that produced `item`.
    pub open spec fn observe<T, E>(self, item: Option<Result<T, E>>) -> TraceCounts {
        match item {
            Some(Ok(_)) => TraceCounts { rows: self.rows + 1, ..self },
            Some(Err(_)) => TraceCounts { errors: self.errors + 1, ..self },
            None => TraceCounts { completed: true, ..self },
        }
    }

    /// The counts after polls that produced `items`, in order.
    pub open spec fn observe_all<T, E>(self, items: Seq<Option<Result<T, E>>>) -> TraceCounts
        decreases items.len(),
    {
        if items.len() == 0 {
            self
        } else {
            self.observe_all(items.drop_last()).observe(items.last())
        }
    }
}

/// Number of `Some(Ok(_))` in `items`.
pub open spec fn count_ok<T, E>(items: Seq<Option<Result<T, E>>>) -> nat
    decreases items.len(),
{
    if items.len() == 0 {
        0
    } else {
        count_ok(items.drop_last()) + if items.last() is Some && items.last()->0 is Ok { 1nat } else { 0nat }
    }
}

/// Number of `Some(Err(_))` in `items`.
pub open spec fn count_err<T, E>(items: Seq<Option<Result<T, E>>>) -> nat
    decreases items.len(),
{
    if items.len() == 0 {
        0
    } else {
        count_err(items.drop_last()) + if items.last() is Some && items.last()->0 is Err { 1nat } else { 0nat }
    }
}

/// An iterator of results that passes every item of `inner` through unchanged while it
/// counts rows and errors, and records the counts in `span` when it is dropped.
pub struct TracedResultIterator<I> {
    inner: I,
    span: tracing::Span,
    row_count: usize,
    error_count: usize,
    completed: bool,
}

impl<I> View for TracedResultIterator<I> {
    type V = TraceCounts;

    closed spec fn view(&self) -> TraceCounts {
        TraceCounts {
            rows: self.row_count as nat,
            errors: self.error_count as nat,
            completed: self.completed,
        }
    }
}

impl<I> TracedResultIterator<I> {
    /// The wrapped iterator.
    pub closed spec fn inner_iter(&self) -> I {
        self.inner
    }

    /// The span in which the counts are recorded.
    pub closed spec fn trace_span(&self) -> tracing::Span {
        self.span
    }

    pub fn new(inner: I, span: tracing::Span) -> (it: Self)
        ensures
            it@ == TraceCounts::start(),
            it.inner_iter() == inner,
            it.trace_span() == span,
    {
        Self { inner, span, row_count: 0, error_count: 0, completed: false }
    }

    /// Number of `Ok` items yielded so far.
    pub fn row_count(&self) -> (n: usize)
        ensures
            n == self@.rows,
        opens_invariants none
        no_unwind
    {
        self.row_count
    }

    /// Number of `Err` items yielded so far.
    pub fn error_count(&self) -> (n: usize)
        ensures
            n == self@.errors,
        opens_invariants none
        no_unwind
    {
        self.error_count
    }

    /// Whether the inner iterator has reported its end.
    pub fn completed(&self) -> (b: bool)
        ensures
            b == self@.completed,
        opens_invariants none
        no_unwind
    {
        self.completed
    }
}

impl<I> Drop for TracedResultIterator<I> {
    fn drop(&mut self)
        opens_invariants none
        no_unwind
    {
        record_trace_fields(&self.span, &TraceFields::of(self));
    }
}

impl<I, T, E> TracedResultIterator<I> where I: Iterator<Item = Result<T, E>> {
    /// Polls the inner iterator once, inside the span, and counts what it produced.
    pub fn next(&mut self) -> (item: Option<Result<T, E>>)
        requires
            old(self)@.rows < usize::MAX,
            old(self)@.errors < usize::MAX,
        ensures
            final(self)@ == old(self)@.observe(item),
            final(self).trace_span() == old(self).trace_span(),
            old(self).inner_iter().obeys_prophetic_iter_laws() ==> {
                if old(self).inner_iter().remaining().len() > 0 {
                    &&& item == Some(old(self).inner_iter().remaining()[0])
                    &&& final(self).inner_iter().remaining() == old(self).inner_iter().remaining().drop_first()
                } else {
                    &&& item is None
                    &&& final(self).inner_iter().remaining() == old(self).inner_iter().remaining()
                }
            },
    {
        let _entered = enter_span(&self.span);
        let item = self.inner.next();
        match &item {
            Some(Ok(_)) => {
                self.row_count = self.row_count + 1;
            },
            Some(Err(_)) => {
                self.error_count = self.error_count + 1;
            },
            None => {
                self.completed = true;
            },
        }
        item
    }
}

/// Successive polls: counts that are those of the items yielded so far become, after one
/// more poll that yielded `item`, those of the items with `item` appended; and an
/// iterator that has completed stays completed.
pub proof fn lemma_poll_extends_items<T, E>(items: Seq<Option<Result<T, E>>>, item: Option<Result<T, E>>)
    ensures
        TraceCounts::start().observe_all(items).observe(item) == TraceCounts::start().observe_all(items.push(item)),
        TraceCounts::start().observe_all(items).completed ==> TraceCounts::start().observe_all(items.push(item)).completed,
{
    assert(items.push(item).drop_last() =~= items);
}

/// Whatever items a traced iterator yields from its start, its row count is the number
/// of `Ok` items among them, its error count the number of `Err` items, and it is
/// completed exactly when one of the polls reported the end.
pub proof fn lemma_counts_follow_items<T, E>(items: Seq<Option<Result<T, E>>>)
    ensures
        TraceCounts::start().observe_all(items) == (TraceCounts {
            rows: count_ok(items),
            errors: count_err(items),
            completed: items.contains(None),
        }),
    decreases items.len(),
{
    if items.len() > 0 {
        let prefix = items.drop_last();
        lemma_counts_follow_items(prefix);
        assert(items == prefix.push(items.last()));
        if items.last() is None {
            assert(items.contains(None)) by {
                assert(items[items.len() - 1] == items.last());
            }
        } else {
            assert(items.contains(None) == prefix.contains(None)) by {
                if items.contains(None) {
                    let i = choose|i: int| 0 <= i < items.len() && items[i] == None::<Result<T, E>>;
                    assert(i < items.len() - 1);
                    assert(prefix[i] == items[i]);
                }
                if prefix.contains(None) {
                    let i = choose|i: int| 0 <= i < prefix.len() && prefix[i] == None::<Result<T, E>>;
                    assert(items[i] == prefix[i]);
                }
            }
        }
    }
}

} // verus!
