use gluesql_core::error::Error;
use gluesql_core::TracedResultIterator;

fn sample() -> Vec<Result<u8, Error>> {
    vec![Ok(1), Err(Error::StorageMsg("bad".to_owned())), Ok(2)]
}

#[test]
fn traced_iterator_passes_items_through_unchanged() {
    let mut traced = TracedResultIterator::new(sample().into_iter(), tracing::Span::none());
    assert_eq!(traced.next(), Some(Ok(1)));
    assert_eq!(traced.next(), Some(Err(Error::StorageMsg("bad".to_owned()))));
    assert_eq!(traced.next(), Some(Ok(2)));
    assert_eq!(traced.next(), None);
}

#[test]
fn traced_iterator_counts_rows_and_errors() {
    let mut traced = TracedResultIterator::new(sample().into_iter(), tracing::Span::none());
    assert_eq!((traced.row_count(), traced.error_count(), traced.completed()), (0, 0, false));
    traced.next();
    assert_eq!((traced.row_count(), traced.error_count(), traced.completed()), (1, 0, false));
    traced.next();
    assert_eq!((traced.row_count(), traced.error_count(), traced.completed()), (1, 1, false));
    traced.next();
    traced.next();
    assert_eq!((traced.row_count(), traced.error_count(), traced.completed()), (2, 1, true));
}

#[test]
fn traced_iterator_on_empty_input_completes_at_once() {
    let empty: Vec<Result<u8, Error>> = Vec::new();
    let mut traced = TracedResultIterator::new(empty.into_iter(), tracing::Span::none());
    assert_eq!(traced.next(), None);
    assert_eq!((traced.row_count(), traced.error_count(), traced.completed()), (0, 0, true));
}

#[test]
fn traced_iterator_inside_a_disabled_subscriber() {
    tracing::subscriber::with_default(tracing::subscriber::NoSubscriber::default(), || {
        let mut traced = TracedResultIterator::new(sample().into_iter(), tracing::Span::current());
        let mut items = Vec::new();
        while let Some(item) = traced.next() {
            items.push(item);
        }
        assert_eq!(items, sample());
        assert_eq!((traced.row_count(), traced.error_count(), traced.completed()), (2, 1, true));
    });
}
