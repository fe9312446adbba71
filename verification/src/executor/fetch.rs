use std::rc::Rc;
use vstd::prelude::*;
use vstd::std_specs::iter::IteratorSpec;
use crate::data::{copy_value, BinaryOperator, ExprPlan, Key, Row, RowView, Schema, SchemaView, Value, SCHEMALESS_DOC_COLUMN};
use crate::error::{Error, EvaluateError, FetchError, Result};
use crate::store::{scan_item_view, scan_view, GStore, RowIter};
use crate::trace;

verus! {

broadcast use vstd::std_specs::vec::group_vec_axioms;

/// The rows that `fetch` yields.
pub type KeyedRows = std::vec::IntoIter<Result<(Key, Row)>>;

/// Calls `Rc::clone`, which returns another pointer to the same allocation, so the value
/// it points to is the same.
#[verifier::external_body]
fn share_columns(columns: &Rc<Vec<String>>) -> (r: Rc<Vec<String>>)
    ensures
        r == *columns,
{
    Rc::clone(columns)
}

/// Polls an iterator once.
pub(crate) fn pull<I: Iterator>(iter: &mut I) -> (item: Option<I::Item>)
    ensures
        (*old(iter)).obeys_prophetic_iter_laws() ==> {
            &&& (*final(iter)).obeys_prophetic_iter_laws()
            &&& (*old(iter)).decrease() is Some ==> (*final(iter)).decrease() is Some
            &&& if (*old(iter)).remaining().len() > 0 {
                &&& item == Some((*old(iter)).remaining()[0])
                &&& (*final(iter)).remaining() == (*old(iter)).remaining().drop_first()
                &&& (*final(iter)).decrease() is Some ==> decreases_to!((*old(iter)).decrease()->0 => (*final(iter)).decrease()->0)
            } else {
                &&& item is None
                &&& (*final(iter)).remaining() == (*old(iter)).remaining()
            }
        },
{
    iter.next()
}

/// The names of a table's columns; a schemaless table has the one document column.
pub open spec fn column_names(schema: SchemaView) -> Seq<Seq<char>> {
    match schema.column_defs {
        Some(defs) => defs.map_values(|d: crate::data::ColumnDef| d.name@),
        None => seq![SCHEMALESS_DOC_COLUMN@],
    }
}

/// The views of a list of strings.
pub open spec fn string_views(v: Seq<String>) -> Seq<Seq<char>> {
    v.map_values(|s: String| s@)
}

/// The column names of `schema`.
pub fn schema_column_names(schema: &Schema) -> (names: Vec<String>)
    ensures
        string_views(names@) == column_names(schema@),
{
    match &schema.column_defs {
        Some(defs) => {
            let mut names: Vec<String> = Vec::new();
            let mut i: usize = 0;
            while i < defs.len()
                invariant
                    i <= defs.len(),
                    names@.len() == i,
                    forall|k: int| 0 <= k < i ==> #[trigger] names@[k]@ == defs@[k].name@,
                decreases defs.len() - i,
            {
                names.push(defs[i].name.clone());
                i = i + 1;
            }
            assert(string_views(names@) =~= column_names(schema@));
            names
        },
        None => {
            let mut names: Vec<String> = Vec::new();
            names.push(SCHEMALESS_DOC_COLUMN.to_owned());
            assert(string_views(names@) =~= seq![SCHEMALESS_DOC_COLUMN@]);
            names
        },
    }
}

/// What `fetch_columns` makes of the storage's answer: the column names of the schema
/// found, or `TableNotFound`.
pub fn schema_columns(table_name: &str, found: Option<Schema>) -> (r: Result<Vec<String>>)
    ensures
        match found {
            Some(schema) => r matches Ok(names) && string_views(names@) == column_names(schema@),
            None => r matches Err(Error::Fetch(FetchError::TableNotFound(name))) && name@ == table_name@,
        },
{
    match found {
        Some(schema) => Ok(schema_column_names(&schema)),
        None => Err(Error::Fetch(FetchError::TableNotFound(table_name.to_owned()))),
    }
}

/// Whether `e` reports that the table `table_name` does not exist.
pub open spec fn is_table_not_found(e: Error, table_name: Seq<char>) -> bool {
    e matches Error::Fetch(FetchError::TableNotFound(name)) && name@ == table_name
}

/// The names of the columns of `table_name`; `TableNotFound` where the storage holds no
/// such table; the storage's own error where fetching the schema fails.
pub fn fetch_columns<T: GStore>(storage: &T, table_name: &str) -> (r: Result<Vec<String>>)
    ensures
        r matches Ok(names) ==> {
            &&& storage.schemas().contains_key(table_name@)
            &&& string_views(names@) == column_names(storage.schemas()[table_name@])
        },
        !storage.schemas().contains_key(table_name@) ==> r is Err,
        r matches Err(e) ==> storage.fetch_schema_fails_with(table_name@, e)
            || (!storage.schemas().contains_key(table_name@) && is_table_not_found(e, table_name@)),
        (forall|e: Error| !#[trigger] storage.fetch_schema_fails_with(table_name@, e)) ==> if storage.schemas().contains_key(table_name@) {
            r is Ok
        } else {
            r matches Err(e) && is_table_not_found(e, table_name@)
        },
{
    let found = trace::fetch_schema(storage, table_name)?;
    schema_columns(table_name, found)
}

/// Whether two values are equal, strings compared by their characters.
pub open spec fn same_value(a: Value, b: Value) -> bool {
    match (a, b) {
        (Value::Bool(x), Value::Bool(y)) => x == y,
        (Value::I64(x), Value::I64(y)) => x == y,
        (Value::Str(x), Value::Str(y)) => x@ == y@,
        (Value::Null, Value::Null) => true,
        _ => false,
    }
}

/// The index of the first column named `name`, if any.
pub open spec fn column_index(columns: Seq<String>, name: Seq<char>) -> Option<int>
    decreases columns.len(),
{
    if columns.len() == 0 {
        None
    } else {
        match column_index(columns.drop_last(), name) {
            Some(i) => Some(i),
            None => if columns.last()@ == name { Some(columns.len() - 1) } else { None },
        }
    }
}

/// The value of column `name` in `row`: `Null` where the row has fewer values than columns.
pub open spec fn column_value(row: RowView, name: Seq<char>) -> Option<Value> {
    match column_index(row.columns, name) {
        Some(i) => Some(if i < row.values.len() { row.values[i] } else { Value::Null }),
        None => None,
    }
}

/// Three-valued logic of `AND` and `OR`; `Err` where an operand is not a boolean or null.
pub open spec fn logic(op: BinaryOperator, a: Value, b: Value) -> Result<Value> {
    match (a, b) {
        (Value::Bool(x), Value::Bool(y)) => Ok(Value::Bool(if op == BinaryOperator::And { x && y } else { x || y })),
        (Value::Bool(x), Value::Null) | (Value::Null, Value::Bool(x)) =>
            if op == BinaryOperator::And {
                if x { Ok(Value::Null) } else { Ok(Value::Bool(false)) }
            } else {
                if x { Ok(Value::Bool(true)) } else { Ok(Value::Null) }
            },
        (Value::Null, Value::Null) => Ok(Value::Null),
        _ => Err(Error::Evaluate(EvaluateError::BooleanTypeRequired)),
    }
}

/// The result of a binary operator on two evaluated operands.
pub open spec fn apply_binary(op: BinaryOperator, a: Value, b: Value) -> Result<Value> {
    match op {
        BinaryOperator::Eq | BinaryOperator::NotEq =>
            if a is Null || b is Null {
                Ok(Value::Null)
            } else {
                Ok(Value::Bool(same_value(a, b) == (op == BinaryOperator::Eq)))
            },
        BinaryOperator::Lt | BinaryOperator::Gt =>
            match (a, b) {
                (Value::I64(x), Value::I64(y)) => Ok(Value::Bool(if op == BinaryOperator::Lt { x < y } else { x > y })),
                _ => if a is Null || b is Null {
                    Ok(Value::Null)
                } else {
                    Err(Error::Evaluate(EvaluateError::IncomparableValues))
                },
            },
        BinaryOperator::And | BinaryOperator::Or => logic(op, a, b),
    }
}

/// The value of `expr` in the context of `row`.
pub open spec fn eval(expr: ExprPlan, row: RowView) -> Result<Value>
    decreases expr,
{
    match expr {
        ExprPlan::Identifier(name) => match column_value(row, name@) {
            Some(v) => Ok(v),
            None => Err(Error::Evaluate(EvaluateError::IdentifierNotFound(name))),
        },
        ExprPlan::Literal(v) => Ok(v),
        ExprPlan::Parameter(n) => Err(Error::Evaluate(EvaluateError::UnboundParameter(n))),
        ExprPlan::IsNull(inner) => match eval(*inner, row) {
            Ok(v) => Ok(Value::Bool(v is Null)),
            Err(e) => Err(e),
        },
        ExprPlan::Not(inner) => match eval(*inner, row) {
            Ok(Value::Bool(b)) => Ok(Value::Bool(!b)),
            Ok(Value::Null) => Ok(Value::Null),
            Ok(_) => Err(Error::Evaluate(EvaluateError::BooleanTypeRequired)),
            Err(e) => Err(e),
        },
        ExprPlan::BinaryOp { left, op, right } => match eval(*left, row) {
            Ok(a) => match eval(*right, row) {
                Ok(b) => apply_binary(op, a, b),
                Err(e) => Err(e),
            },
            Err(e) => Err(e),
        },
    }
}

/// Whether `expr` holds for `row`: `true` only where it evaluates to `true`; `Null` does
/// not hold; any other value is an error.
pub open spec fn check(expr: ExprPlan, row: RowView) -> Result<bool> {
    match eval(expr, row) {
        Ok(Value::Bool(b)) => Ok(b),
        Ok(Value::Null) => Ok(false),
        Ok(_) => Err(Error::Evaluate(EvaluateError::BooleanTypeRequired)),
        Err(e) => Err(e),
    }
}

/// Whether two values are equal, strings compared by their characters.
pub fn values_equal(a: &Value, b: &Value) -> (r: bool)
    ensures
        r == same_value(*a, *b),
{
    match (a, b) {
        (Value::Bool(x), Value::Bool(y)) => *x == *y,
        (Value::I64(x), Value::I64(y)) => *x == *y,
        (Value::Str(x), Value::Str(y)) => *x == *y,
        (Value::Null, Value::Null) => true,
        _ => false,
    }
}

/// The index of the first column named `name`, if any.
pub fn find_column(columns: &Vec<String>, name: &String) -> (r: Option<usize>)
    ensures
        match r {
            Some(i) => column_index(columns@, name@) == Some(i as int),
            None => column_index(columns@, name@) is None,
        },
{
    let mut i: usize = 0;
    while i < columns.len()
        invariant
            i <= columns.len(),
            column_index(columns@.subrange(0, i as int), name@) is None,
        decreases columns.len() - i,
    {
        assert(columns@.subrange(0, i + 1).drop_last() == columns@.subrange(0, i as int));
        if columns[i] == *name {
            proof { lemma_column_index_prefix(columns@, name@, i as int + 1); }
            return Some(i);
        }
        i = i + 1;
    }
    assert(columns@.subrange(0, columns@.len() as int) == columns@);
    None
}

/// A match within a prefix is the match in the whole list.
proof fn lemma_column_index_prefix(columns: Seq<String>, name: Seq<char>, n: int)
    requires
        0 <= n <= columns.len(),
        column_index(columns.subrange(0, n), name) is Some,
    ensures
        column_index(columns, name) == column_index(columns.subrange(0, n), name),
    decreases columns.len() - n,
{
    if n < columns.len() {
        assert(columns.subrange(0, n + 1).drop_last() == columns.subrange(0, n));
        lemma_column_index_prefix(columns, name, n + 1);
    } else {
        assert(columns.subrange(0, n) == columns);
    }
}

/// Three-valued `AND` / `OR`.
fn eval_logic(op: BinaryOperator, a: Value, b: Value) -> (r: Result<Value>)
    requires
        op == BinaryOperator::And || op == BinaryOperator::Or,
    ensures
        r == logic(op, a, b),
{
    let is_and = op == BinaryOperator::And;
    match (a, b) {
        (Value::Bool(x), Value::Bool(y)) => Ok(Value::Bool(if is_and { x && y } else { x || y })),
        (Value::Bool(x), Value::Null) | (Value::Null, Value::Bool(x)) => {
            if is_and {
                if x { Ok(Value::Null) } else { Ok(Value::Bool(false)) }
            } else {
                if x { Ok(Value::Bool(true)) } else { Ok(Value::Null) }
            }
        },
        (Value::Null, Value::Null) => Ok(Value::Null),
        _ => Err(Error::Evaluate(EvaluateError::BooleanTypeRequired)),
    }
}

/// A binary operator on two evaluated operands.
fn eval_binary(op: BinaryOperator, a: Value, b: Value) -> (r: Result<Value>)
    ensures
        r == apply_binary(op, a, b),
{
    match op {
        BinaryOperator::Eq | BinaryOperator::NotEq => {
            if matches!(a, Value::Null) || matches!(b, Value::Null) {
                Ok(Value::Null)
            } else {
                let same = values_equal(&a, &b);
                Ok(Value::Bool(same == (op == BinaryOperator::Eq)))
            }
        },
        BinaryOperator::Lt | BinaryOperator::Gt => {
            match (&a, &b) {
                (Value::I64(x), Value::I64(y)) => Ok(Value::Bool(if op == BinaryOperator::Lt { *x < *y } else { *x > *y })),
                _ => {
                    if matches!(a, Value::Null) || matches!(b, Value::Null) {
                        Ok(Value::Null)
                    } else {
                        Err(Error::Evaluate(EvaluateError::IncomparableValues))
                    }
                },
            }
        },
        BinaryOperator::And | BinaryOperator::Or => eval_logic(op, a, b),
    }
}

/// Evaluates `expr` in the context of `row`.
pub fn evaluate(expr: &ExprPlan, row: &Row) -> (r: Result<Value>)
    ensures
        r == eval(*expr, row@),
    decreases expr,
{
    match expr {
        ExprPlan::Identifier(name) => match find_column(&row.columns, name) {
            Some(i) => {
                if i < row.values.len() {
                    Ok(copy_value(&row.values[i]))
                } else {
                    Ok(Value::Null)
                }
            },
            None => Err(Error::Evaluate(EvaluateError::IdentifierNotFound(name.clone()))),
        },
        ExprPlan::Literal(v) => Ok(copy_value(v)),
        ExprPlan::Parameter(n) => Err(Error::Evaluate(EvaluateError::UnboundParameter(*n))),
        ExprPlan::IsNull(inner) => {
            let v = evaluate(inner, row)?;
            Ok(Value::Bool(matches!(v, Value::Null)))
        },
        ExprPlan::Not(inner) => {
            let v = evaluate(inner, row)?;
            match v {
                Value::Bool(b) => Ok(Value::Bool(!b)),
                Value::Null => Ok(Value::Null),
                _ => Err(Error::Evaluate(EvaluateError::BooleanTypeRequired)),
            }
        },
        ExprPlan::BinaryOp { left, op, right } => {
            let a = evaluate(left, row)?;
            let b = evaluate(right, row)?;
            eval_binary(*op, a, b)
        },
    }
}

/// Whether `expr` holds for `row`.
pub fn check_expr(expr: &ExprPlan, row: &Row) -> (r: Result<bool>)
    ensures
        r == check(*expr, row@),
{
    match evaluate(expr, row)? {
        Value::Bool(b) => Ok(b),
        Value::Null => Ok(false),
        _ => Err(Error::Evaluate(EvaluateError::BooleanTypeRequired)),
    }
}

/// The expression that an optional reference points to.
pub open spec fn filter_of(where_clause: Option<&ExprPlan>) -> Option<ExprPlan> {
    match where_clause {
        Some(e) => Some(*e),
        None => None,
    }
}

/// What `fetch` makes of one scanned item: an error passes through; a row is kept where
/// there is no filter or the filter holds, dropped where it does not, and replaced by the
/// error where evaluating the filter fails.
pub open spec fn fetched(item: Result<(Key, Seq<Value>)>, columns: Seq<String>, filter: Option<ExprPlan>) -> Option<Result<(Key, RowView)>> {
    match item {
        Err(e) => Some(Err(e)),
        Ok((key, values)) => {
            let row = RowView { columns, values };
            match filter {
                None => Some(Ok((key, row))),
                Some(expr) => match check(expr, row) {
                    Ok(true) => Some(Ok((key, row))),
                    Ok(false) => None,
                    Err(e) => Some(Err(e)),
                },
            }
        },
    }
}

/// What `fetch` makes of the scanned items, in order.
pub open spec fn fetched_all(items: Seq<Result<(Key, Seq<Value>)>>, columns: Seq<String>, filter: Option<ExprPlan>) -> Seq<Result<(Key, RowView)>>
    decreases items.len(),
{
    if items.len() == 0 {
        Seq::empty()
    } else {
        let before = fetched_all(items.drop_last(), columns, filter);
        match fetched(items.last(), columns, filter) {
            Some(x) => before.push(x),
            None => before,
        }
    }
}

/// A fetched item with its row taken by its view.
pub open spec fn keyed_item_view(item: Result<(Key, Row)>) -> Result<(Key, RowView)> {
    match item {
        Ok((key, row)) => Ok((key, row@)),
        Err(e) => Err(e),
    }
}

/// Fetched items with their rows taken by their views.
pub open spec fn keyed_view(items: Seq<Result<(Key, Row)>>) -> Seq<Result<(Key, RowView)>> {
    items.map_values(|item: Result<(Key, Row)>| keyed_item_view(item))
}

/// Scans `table_name` and yields its rows under the names `columns`, keeping those for
/// which `where_clause` holds; errors of the scan or of the filter are yielded in place.
pub fn fetch<'a, T: GStore>(
    storage: &'a T,
    table_name: &'a str,
    columns: Rc<Vec<String>>,
    where_clause: Option<&'a ExprPlan>,
) -> (r: Result<KeyedRows>)
    ensures
        r matches Ok(rows) ==> {
            &&& rows.obeys_prophetic_iter_laws()
            &&& rows.decrease() is Some
            &&& keyed_view(rows.remaining()) == fetched_all(storage.scanned(table_name@), (*columns)@, filter_of(where_clause))
        },
        r matches Err(e) ==> storage.scan_fails_with(table_name@, e),
        (forall|e: Error| !#[trigger] storage.scan_fails_with(table_name@, e)) ==> r is Ok,
{
    let iter = trace::scan_data(storage, table_name)?;
    Ok(filter_rows(iter, columns, where_clause))
}

/// What `fetch` makes of the rows that a scan yields: each row under the names `columns`,
/// kept where `where_clause` holds; errors of the scan or of the filter in place.
pub fn filter_rows(iter: RowIter, columns: Rc<Vec<String>>, where_clause: Option<&ExprPlan>) -> (rows: KeyedRows)
    requires
        iter.decrease() is Some,
    ensures
        rows.obeys_prophetic_iter_laws(),
        rows.decrease() is Some,
        keyed_view(rows.remaining()) == fetched_all(scan_view(iter.remaining()), (*columns)@, filter_of(where_clause)),
{
    let mut iter = iter;
    let ghost cols = (*columns)@;
    let ghost filter = filter_of(where_clause);
    let ghost init = scan_view(iter.remaining());
    let ghost mut done: Seq<Result<(Key, Seq<Value>)>> = Seq::empty();
    let mut out: Vec<Result<(Key, Row)>> = Vec::new();
    loop
        invariant
            iter.obeys_prophetic_iter_laws(),
            iter.decrease() is Some,
            init == done + scan_view(iter.remaining()),
            keyed_view(out@) == fetched_all(done, cols, filter),
            cols == (*columns)@,
            filter == filter_of(where_clause),
        ensures
            keyed_view(out@) == fetched_all(init, cols, filter),
        decreases iter.decrease()->0,
    {
        let ghost rem = iter.remaining();
        match pull(&mut iter) {
            None => {
                assert(init =~= done);
                break;
            },
            Some(item) => {
                proof {
                    assert(scan_view(rem) =~= seq![scan_item_view(item)] + scan_view(iter.remaining()));
                    assert(done.push(scan_item_view(item)).drop_last() =~= done);
                    assert(init =~= done.push(scan_item_view(item)) + scan_view(iter.remaining()));
                }
                let ghost before_out = out@;
                match item {
                    Err(e) => {
                        out.push(Err(e));
                    },
                    Ok((key, values)) => {
                        let row = Row { columns: share_columns(&columns), values };
                        match where_clause {
                            None => {
                                out.push(Ok((key, row)));
                            },
                            Some(expr) => {
                                match check_expr(expr, &row) {
                                    Ok(true) => {
                                        out.push(Ok((key, row)));
                                    },
                                    Ok(false) => {},
                                    Err(e) => {
                                        out.push(Err(e));
                                    },
                                }
                            },
                        }
                    },
                }
                proof {
                    let x = scan_item_view(item);
                    done = done.push(x);
                    match fetched(x, cols, filter) {
                        Some(y) => {
                            assert(keyed_view(out@) =~= keyed_view(before_out).push(y));
                        },
                        None => {
                            assert(out@ == before_out);
                        },
                    }
                }
            },
        }
    }
    out.into_iter()
}

/// Without a filter, `fetch` yields one item for each scanned item, in order: the row
/// under the given column names, or the scan's error.
pub proof fn lemma_fetch_unfiltered(items: Seq<Result<(Key, Seq<Value>)>>, columns: Seq<String>)
    ensures
        fetched_all(items, columns, None).len() == items.len(),
        forall|i: int| 0 <= i < items.len() ==> #[trigger] fetched_all(items, columns, None)[i] == match items[i] {
            Ok((key, values)) => Ok::<(Key, RowView), Error>((key, RowView { columns, values })),
            Err(e) => Err(e),
        },
    decreases items.len(),
{
    if items.len() > 0 {
        lemma_fetch_unfiltered(items.drop_last(), columns);
        assert forall|i: int| 0 <= i < items.len() - 1 implies items.drop_last()[i] == #[trigger] items[i] by {}
    }
}

/// `fetch` never yields more items than the scan did.
pub proof fn lemma_fetched_bounded(items: Seq<Result<(Key, Seq<Value>)>>, columns: Seq<String>, filter: Option<ExprPlan>)
    ensures
        fetched_all(items, columns, filter).len() <= items.len(),
    decreases items.len(),
{
    if items.len() > 0 {
        lemma_fetched_bounded(items.drop_last(), columns, filter);
    }
}

/// SQL negation: where `e` evaluates to a boolean, `NOT e` evaluates to the other one;
/// where `e` is NULL, so is `NOT e`. So a row for which `e` holds is one for which
/// `NOT e` does not, and the other way round.
pub proof fn lemma_not_negates(e: ExprPlan, row: RowView)
    ensures
        eval(e, row) matches Ok(Value::Bool(b)) ==> eval(ExprPlan::Not(Box::new(e)), row) == Ok::<Value, Error>(Value::Bool(!b)),
        eval(e, row) matches Ok(Value::Null) ==> eval(ExprPlan::Not(Box::new(e)), row) == Ok::<Value, Error>(Value::Null),
        eval(e, row) matches Ok(Value::Bool(_)) ==> {
            &&& check(e, row) == Ok::<bool, Error>(true) <==> check(ExprPlan::Not(Box::new(e)), row) == Ok::<bool, Error>(false)
            &&& check(e, row) == Ok::<bool, Error>(false) <==> check(ExprPlan::Not(Box::new(e)), row) == Ok::<bool, Error>(true)
        },
{
}

/// A filter and its negation split the rows between them: where a filter evaluates to a
/// boolean on a row, exactly one of the filter and `NOT` the filter keeps it.
pub proof fn lemma_negated_filter_keeps_the_other_rows(key: Key, values: Seq<Value>, columns: Seq<String>, e: ExprPlan)
    requires
        eval(e, RowView { columns, values }) matches Ok(Value::Bool(_)),
    ensures
        fetched(Ok((key, values)), columns, Some(e)) is Some
            <==> fetched(Ok((key, values)), columns, Some(ExprPlan::Not(Box::new(e)))) is None,
{
    lemma_not_negates(e, RowView { columns, values });
}

/// Whether `sub` is `full` with some items left out, the rest in their order.
pub open spec fn is_subsequence<A>(sub: Seq<A>, full: Seq<A>) -> bool {
    exists|idx: Seq<int>| #![trigger idx.len()] {
        &&& idx.len() == sub.len()
        &&& forall|i: int, j: int| 0 <= i < j < idx.len() ==> #[trigger] idx[i] < #[trigger] idx[j]
        &&& forall|i: int| 0 <= i < idx.len() ==> 0 <= #[trigger] idx[i] < full.len() && sub[i] == full[idx[i]]
    }
}

/// A filter that can be evaluated on every scanned row only leaves rows out: what `fetch`
/// yields with it is what it yields without it, some rows left out, in the same order.
pub proof fn lemma_filter_only_removes_rows(items: Seq<Result<(Key, Seq<Value>)>>, columns: Seq<String>, expr: ExprPlan)
    requires
        forall|i: int| 0 <= i < items.len() ==> (#[trigger] items[i] matches Ok((_, values))
            ==> check(expr, RowView { columns, values }) is Ok),
    ensures
        is_subsequence(fetched_all(items, columns, Some(expr)), fetched_all(items, columns, None)),
    decreases items.len(),
{
    let filtered = fetched_all(items, columns, Some(expr));
    let all = fetched_all(items, columns, None);
    if items.len() == 0 {
        assert(filtered.len() == 0);
        let idx = Seq::<int>::empty();
        assert(idx.len() == filtered.len());
        assert(is_subsequence(filtered, all));
    } else {
        let prefix = items.drop_last();
        assert forall|i: int| 0 <= i < prefix.len() implies (#[trigger] prefix[i] matches Ok((_, values))
            ==> check(expr, RowView { columns, values }) is Ok) by {
            assert(prefix[i] == items[i]);
        }
        lemma_filter_only_removes_rows(prefix, columns, expr);
        let f0 = fetched_all(prefix, columns, Some(expr));
        let a0 = fetched_all(prefix, columns, None);
        let idx0 = choose|idx: Seq<int>| #![trigger idx.len()] {
            &&& idx.len() == f0.len()
            &&& forall|i: int, j: int| 0 <= i < j < idx.len() ==> #[trigger] idx[i] < #[trigger] idx[j]
            &&& forall|i: int| 0 <= i < idx.len() ==> 0 <= #[trigger] idx[i] < a0.len() && f0[i] == a0[idx[i]]
        };
        let x = fetched(items.last(), columns, None)->0;
        assert(all == a0.push(x));
        assert(items[items.len() - 1] == items.last());
        match fetched(items.last(), columns, Some(expr)) {
            Some(y) => {
                assert(y == x);
                let idx = idx0.push(a0.len() as int);
                assert(filtered == f0.push(y));
                assert forall|i: int, j: int| 0 <= i < j < idx.len() implies #[trigger] idx[i] < #[trigger] idx[j] by {
                    if j < idx0.len() {
                        assert(idx[i] == idx0[i] && idx[j] == idx0[j]);
                    } else {
                        assert(idx[i] == idx0[i]);
                    }
                }
                assert forall|i: int| 0 <= i < idx.len() implies 0 <= #[trigger] idx[i] < all.len() && filtered[i] == all[idx[i]] by {
                    if i < idx0.len() {
                        assert(idx[i] == idx0[i]);
                        assert(filtered[i] == f0[i]);
                        assert(all[idx0[i]] == a0[idx0[i]]);
                    }
                }
                assert(idx.len() == filtered.len());
                assert(is_subsequence(filtered, all));
            },
            None => {
                assert(filtered == f0);
                assert forall|i: int| 0 <= i < idx0.len() implies 0 <= #[trigger] idx0[i] < all.len() && filtered[i] == all[idx0[i]] by {
                    assert(all[idx0[i]] == a0[idx0[i]]);
                }
                assert(idx0.len() == filtered.len());
                assert(is_subsequence(filtered, all));
            },
        }
    }
}

/// The rows among fetched items, in order, errors left out.
pub open spec fn ok_rows(items: Seq<Result<(Key, RowView)>>) -> Seq<(Key, RowView)>
    decreases items.len(),
{
    if items.len() == 0 {
        Seq::empty()
    } else {
        let before = ok_rows(items.drop_last());
        match items.last() {
            Ok(row) => before.push(row),
            Err(_) => before,
        }
    }
}

/// `ok_rows` of a sequence with one more item.
proof fn lemma_ok_rows_push(items: Seq<Result<(Key, RowView)>>, item: Result<(Key, RowView)>)
    ensures
        ok_rows(items.push(item)) == match item {
            Ok(row) => ok_rows(items).push(row),
            Err(_) => ok_rows(items),
        },
{
    assert(items.push(item).drop_last() =~= items);
}

/// A where clause only leaves rows out: the rows that `fetch` yields with it are those it
/// yields without it, some left out, the rest unchanged and in the same order.
pub proof fn lemma_filter_keeps_rows_in_order(items: Seq<Result<(Key, Seq<Value>)>>, columns: Seq<String>, expr: ExprPlan)
    ensures
        is_subsequence(ok_rows(fetched_all(items, columns, Some(expr))), ok_rows(fetched_all(items, columns, None))),
    decreases items.len(),
{
    let filtered = ok_rows(fetched_all(items, columns, Some(expr)));
    let all = ok_rows(fetched_all(items, columns, None));
    if items.len() == 0 {
        let idx = Seq::<int>::empty();
        assert(idx.len() == filtered.len());
        assert(is_subsequence(filtered, all));
    } else {
        let prefix = items.drop_last();
        lemma_filter_keeps_rows_in_order(prefix, columns, expr);
        let fp = fetched_all(prefix, columns, Some(expr));
        let ap = fetched_all(prefix, columns, None);
        let f0 = ok_rows(fp);
        let a0 = ok_rows(ap);
        let idx0 = choose|idx: Seq<int>| #![trigger idx.len()] {
            &&& idx.len() == f0.len()
            &&& forall|i: int, j: int| 0 <= i < j < idx.len() ==> #[trigger] idx[i] < #[trigger] idx[j]
            &&& forall|i: int| 0 <= i < idx.len() ==> 0 <= #[trigger] idx[i] < a0.len() && f0[i] == a0[idx[i]]
        };
        let x = fetched(items.last(), columns, None)->0;
        lemma_ok_rows_push(ap, x);
        assert(fetched_all(items, columns, None) == ap.push(x));
        let kept = match fetched(items.last(), columns, Some(expr)) {
            Some(y) => {
                lemma_ok_rows_push(fp, y);
                assert(fetched_all(items, columns, Some(expr)) == fp.push(y));
                y matches Ok(_)
            },
            None => {
                assert(fetched_all(items, columns, Some(expr)) == fp);
                false
            },
        };
        if kept {
            let y = fetched(items.last(), columns, Some(expr))->0;
            assert(y == x);
            let row = x->Ok_0;
            assert(filtered == f0.push(row));
            assert(all == a0.push(row));
            let idx = idx0.push(a0.len() as int);
            assert forall|i: int, j: int| 0 <= i < j < idx.len() implies #[trigger] idx[i] < #[trigger] idx[j] by {
                assert(idx[i] == idx0[i]);
                if j < idx0.len() {
                    assert(idx[j] == idx0[j]);
                }
            }
            assert forall|i: int| 0 <= i < idx.len() implies 0 <= #[trigger] idx[i] < all.len() && filtered[i] == all[idx[i]] by {
                if i < idx0.len() {
                    assert(idx[i] == idx0[i]);
                    assert(filtered[i] == f0[i]);
                    assert(all[idx0[i]] == a0[idx0[i]]);
                }
            }
            assert(idx.len() == filtered.len());
            assert(is_subsequence(filtered, all));
        } else {
            assert(filtered == f0);
            assert(all.len() >= a0.len());
            assert forall|i: int| 0 <= i < idx0.len() implies 0 <= #[trigger] idx0[i] < all.len() && filtered[i] == all[idx0[i]] by {
                assert(all[idx0[i]] == a0[idx0[i]]);
            }
            assert(idx0.len() == filtered.len());
            assert(is_subsequence(filtered, all));
        }
    }
}

/// A filter that always holds keeps what no filter keeps.
pub proof fn lemma_fetch_filter_true(items: Seq<Result<(Key, Seq<Value>)>>, columns: Seq<String>)
    ensures
        fetched_all(items, columns, Some(ExprPlan::Literal(Value::Bool(true)))) == fetched_all(items, columns, None),
    decreases items.len(),
{
    if items.len() > 0 {
        lemma_fetch_filter_true(items.drop_last(), columns);
    }
}

} // verus!
