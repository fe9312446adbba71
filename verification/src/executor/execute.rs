use std::rc::Rc;
use vstd::prelude::*;
use vstd::std_specs::iter::IteratorSpec;
use crate::data::{Key, Payload, RowView, Statement, StatementPlan, StatementView, Value};
use crate::error::{Error, Result};
use crate::executor::alter::{
    args_valid, create_fails_in_storage, created_function, deleted_upto, delete_function, drop_fails_at, each_found,
    function_calls_never_fail, insert_function, is_already_exists, is_not_found, missing_at,
};
use crate::executor::fetch::{column_names, fetch, fetch_columns, fetched_all, keyed_item_view, keyed_view, string_views, is_table_not_found, KeyedRows};
use crate::store::{CustomFunction, GStore, GStoreMut, Store};
use crate::trace;

verus! {

/// The values of the fetched rows, or the first error among them.
pub open spec fn select_rows(items: Seq<Result<(Key, RowView)>>) -> Result<Seq<Seq<Value>>>
    decreases items.len(),
{
    if items.len() == 0 {
        Ok(Seq::empty())
    } else {
        match select_rows(items.drop_last()) {
            Ok(rows) => match items.last() {
                Ok((_, row)) => Ok(rows.push(row.values)),
                Err(e) => Err(e),
            },
            Err(e) => Err(e),
        }
    }
}

/// An error within a prefix of the items is the error of all of them.
proof fn lemma_select_rows_prefix_err(items: Seq<Result<(Key, RowView)>>, n: int)
    requires
        0 <= n <= items.len(),
        select_rows(items.subrange(0, n)) is Err,
    ensures
        select_rows(items) == select_rows(items.subrange(0, n)),
    decreases items.len() - n,
{
    if n < items.len() {
        assert(items.subrange(0, n + 1).drop_last() =~= items.subrange(0, n));
        lemma_select_rows_prefix_err(items, n + 1);
    } else {
        assert(items.subrange(0, n) =~= items);
    }
}

fn copy_labels(v: &Vec<String>) -> (r: Vec<String>)
    ensures
        r@ == v@,
{
    let mut r: Vec<String> = Vec::new();
    let mut i: usize = 0;
    while i < v.len()
        invariant
            i <= v.len(),
            r@ == v@.subrange(0, i as int),
        decreases v.len() - i,
    {
        r.push(v[i].clone());
        i = i + 1;
    }
    r
}

/// Polls the fetched rows once.
fn pull_row(iter: &mut KeyedRows) -> (item: Option<Result<(Key, crate::data::Row)>>)
    ensures
        (*old(iter)).obeys_prophetic_iter_laws() ==> {
            &&& (*final(iter)).obeys_prophetic_iter_laws()
            &&& (*old(iter)).decrease() is Some ==> (*final(iter)).decrease() is Some
            &&& if (*old(iter)).remaining().len() > 0 {
                &&& item == Some((*old(iter)).remaining()[0])
                &&& (*final(iter)).remaining() == (*old(iter)).remaining().drop_first()
                &&& (*final(iter)).decrease() is Some ==> decreases_to!((*old(iter)).decrease()->0 => (*final(iter)).decrease()->0)
            } else {
                &&& item is None
                &&& (*final(iter)).remaining() == (*old(iter)).remaining()
            }
        },
{
    crate::executor::fetch::pull(iter)
}

/// `SELECT * FROM table_name [WHERE selection]`: the column names and the values of the
/// rows that the filter keeps, or the first error.
fn select<T: GStore>(storage: &T, table_name: &String, selection: &Option<crate::data::Expr>) -> (r: Result<Payload>)
    ensures
        r matches Ok(p) ==> {
            &&& storage.schemas().contains_key(table_name@)
            &&& p matches Payload::Select { labels, rows } && {
                &&& string_views(labels@) == column_names(storage.schemas()[table_name@])
                &&& select_rows(fetched_all(storage.scanned(table_name@), labels@, *selection))
                    == Ok::<Seq<Seq<Value>>, Error>(rows@.map_values(|r: Vec<Value>| r@))
            }
        },
        !storage.schemas().contains_key(table_name@) ==> r is Err,
        r matches Err(e) ==> select_fails_with(*storage, table_name@, *selection, e),
        (forall|e: Error| !#[trigger] storage.fetch_schema_fails_with(table_name@, e)) && !storage.schemas().contains_key(table_name@)
            ==> (r matches Err(e) && is_table_not_found(e, table_name@)),
{
    let labels = fetch_columns(storage, table_name.as_str())?;
    let columns = Rc::new(copy_labels(&labels));
    let iter = fetch(storage, table_name.as_str(), columns, selection.as_ref())?;
    select_payload(labels, iter)
}

/// What `SELECT` makes of the fetched rows: the column names with the values of the rows,
/// or the first error among them.
pub fn select_payload(labels: Vec<String>, fetched: KeyedRows) -> (r: Result<Payload>)
    requires
        fetched.decrease() is Some,
    ensures
        match select_rows(keyed_view(fetched.remaining())) {
            Ok(values) => r matches Ok(Payload::Select { labels: l, rows }) && l@ == labels@
                && rows@.map_values(|row: Vec<Value>| row@) == values,
            Err(e) => r == Err::<Payload, Error>(e),
        },
{
    let mut iter = fetched;
    let ghost init = keyed_view(iter.remaining());
    let ghost mut done: Seq<Result<(Key, RowView)>> = Seq::empty();
    let mut rows: Vec<Vec<Value>> = Vec::new();
    assert(rows@.map_values(|r: Vec<Value>| r@) =~= Seq::<Seq<Value>>::empty());
    loop
        invariant
            iter.obeys_prophetic_iter_laws(),
            iter.decrease() is Some,
            init == done + keyed_view(iter.remaining()),
            init == keyed_view(fetched.remaining()),
            select_rows(done) == Ok::<Seq<Seq<Value>>, Error>(rows@.map_values(|r: Vec<Value>| r@)),
        ensures
            select_rows(init) == Ok::<Seq<Seq<Value>>, Error>(rows@.map_values(|r: Vec<Value>| r@)),
        decreases iter.decrease()->0,
    {
        let ghost rem = iter.remaining();
        match pull_row(&mut iter) {
            None => {
                assert(init =~= done);
                break;
            },
            Some(item) => {
                proof {
                    assert(keyed_view(rem) =~= seq![keyed_item_view(item)] + keyed_view(iter.remaining()));
                    assert(done.push(keyed_item_view(item)).drop_last() =~= done);
                    assert(init =~= done.push(keyed_item_view(item)) + keyed_view(iter.remaining()));
                    done = done.push(keyed_item_view(item));
                }
                match item {
                    Ok((_, row)) => {
                        let ghost before = rows@;
                        rows.push(row.values);
                        assert(rows@.map_values(|r: Vec<Value>| r@) =~= before.map_values(|r: Vec<Value>| r@).push(row@.values));
                    },
                    Err(e) => {
                        proof {
                            assert(done.last() == Err::<(Key, RowView), Error>(e));
                            assert(select_rows(done) == Err::<Seq<Seq<Value>>, Error>(e));
                            assert(init.subrange(0, done.len() as int) =~= done);
                            lemma_select_rows_prefix_err(init, done.len() as int);
                        }
                        return Err(e);
                    },
                }
            },
        }
    }
    Ok(Payload::Select { labels, rows })
}

/// Whether `SELECT` of `table_name` may fail with `error`: fetching the schema or
/// starting the scan failed in the storage, the table does not exist, or the rows, named
/// by the table's columns, hold an error (of the scan or of the filter) first.
pub open spec fn select_fails_with<T: GStore>(storage: T, table_name: Seq<char>, selection: Option<crate::data::Expr>, error: Error) -> bool {
    ||| storage.fetch_schema_fails_with(table_name, error)
    ||| !storage.schemas().contains_key(table_name) && is_table_not_found(error, table_name)
    ||| storage.scan_fails_with(table_name, error)
    ||| storage.schemas().contains_key(table_name) && exists|labels: Seq<String>| {
        &&& string_views(labels) == column_names(storage.schemas()[table_name])
        &&& #[trigger] select_rows(fetched_all(storage.scanned(table_name), labels, selection)) == Err::<Seq<Seq<Value>>, Error>(error)
    }
}

/// What executing `statement` on the storage `before` may return as `r` and leave as
/// `after`, per kind of statement. `START TRANSACTION` begins a transaction that is not
/// in autocommit mode; it, `COMMIT` and `ROLLBACK` fail exactly as that storage call does.
pub open spec fn executes<T: GStore + GStoreMut>(before: T, statement: StatementView, r: Result<Payload>, after: T) -> bool {
    match statement {
        StatementView::CreateFunction { or_replace, name, args, return_ } =>
            creates_function(before, or_replace, name, args, return_, r, after),
        StatementView::DropFunction { if_exists, func_names } => drops_functions(before, if_exists, func_names, r, after),
        StatementView::Select { table_name, selection } => selects(before, table_name, selection, r, after),
        StatementView::StartTransaction => {
            &&& r is Ok ==> r == Ok::<Payload, Error>(Payload::StartTransaction)
            &&& r matches Err(e) ==> before.begin_fails_with(false, e)
            &&& (forall|e: Error| !#[trigger] before.begin_fails_with(false, e)) ==> r == Ok::<Payload, Error>(Payload::StartTransaction)
        },
        StatementView::Commit => {
            &&& r is Ok ==> r == Ok::<Payload, Error>(Payload::Commit)
            &&& r matches Err(e) ==> before.commit_fails_with(e)
            &&& (forall|e: Error| !#[trigger] before.commit_fails_with(e)) ==> r == Ok::<Payload, Error>(Payload::Commit)
        },
        StatementView::Rollback => {
            &&& r is Ok ==> r == Ok::<Payload, Error>(Payload::Rollback)
            &&& r matches Err(e) ==> before.rollback_fails_with(e)
            &&& (forall|e: Error| !#[trigger] before.rollback_fails_with(e)) ==> r == Ok::<Payload, Error>(Payload::Rollback)
        },
    }
}

/// What `CREATE [OR REPLACE] FUNCTION` on `before` may return as `r` and leave as `after`.
pub open spec fn creates_function<T: GStore + GStoreMut>(
    before: T,
    or_replace: bool,
    name: Seq<char>,
    args: Seq<crate::data::OperateFunctionArg>,
    return_: crate::data::Expr,
    r: Result<Payload>,
    after: T,
) -> bool {
    &&& !args_valid(args) ==> r is Err && after == before
    &&& args_valid(args) && before.functions().contains_key(name) && !or_replace ==> r is Err && after == before
    &&& r is Ok ==> {
        &&& r == Ok::<Payload, Error>(Payload::CreateFunction)
        &&& args_valid(args)
        &&& or_replace || !before.functions().contains_key(name)
        &&& after.functions() == before.functions().insert(name, created_function(name, args, return_))
    }
    &&& args_valid(args) ==> (r matches Err(e) ==> {
        ||| create_fails_in_storage(before, created_function(name, args, return_), e)
        ||| before.functions().contains_key(name) && !or_replace && is_already_exists(e, name)
    })
    &&& args_valid(args) && before.functions().contains_key(name) && !or_replace
        && (forall|e: Error| !#[trigger] before.fetch_function_fails_with(name, e))
        ==> (r matches Err(e) && is_already_exists(e, name))
    &&& args_valid(args) && (or_replace || !before.functions().contains_key(name)) && function_calls_never_fail::<T>()
        ==> r == Ok::<Payload, Error>(Payload::CreateFunction)
}

/// What `DROP FUNCTION [IF EXISTS]` on `before` may return as `r` and leave as `after`.
pub open spec fn drops_functions<T: GStore + GStoreMut>(
    before: T,
    if_exists: bool,
    func_names: Seq<String>,
    r: Result<Payload>,
    after: T,
) -> bool {
    &&& !if_exists && !each_found(before.functions(), func_names) ==> r is Err
    &&& func_names.len() == 0 ==> r == Ok::<Payload, Error>(Payload::DropFunction) && after == before
    &&& r is Ok ==> {
        &&& r == Ok::<Payload, Error>(Payload::DropFunction)
        &&& after.functions() == deleted_upto(before.functions(), func_names, func_names.len() as int)
    }
    &&& r matches Err(e) ==> exists|k: int| #[trigger] drop_fails_at(before, after, func_names, if_exists, k, e)
    &&& function_calls_never_fail::<T>() && (if_exists || each_found(before.functions(), func_names))
        ==> r == Ok::<Payload, Error>(Payload::DropFunction)
    &&& forall|k: int| function_calls_never_fail::<T>() && !if_exists && #[trigger] missing_at(before.functions(), func_names, k) ==> {
        &&& r matches Err(e) && is_not_found(e, func_names[k]@)
        &&& after.functions() == deleted_upto(before.functions(), func_names, k)
    }
}

/// What `SELECT * FROM table_name [WHERE selection]` on `before` may return as `r`; the
/// storage is left as it was.
pub open spec fn selects<T: GStore + GStoreMut>(
    before: T,
    table_name: Seq<char>,
    selection: Option<crate::data::Expr>,
    r: Result<Payload>,
    after: T,
) -> bool {
    &&& after == before
    &&& !before.schemas().contains_key(table_name) ==> r is Err
    &&& r matches Err(e) ==> select_fails_with(before, table_name, selection, e)
    &&& (forall|e: Error| !#[trigger] before.fetch_schema_fails_with(table_name, e)) && !before.schemas().contains_key(table_name)
        ==> (r matches Err(e) && is_table_not_found(e, table_name))
    &&& r matches Ok(p) ==> p matches Payload::Select { labels, rows } && {
        &&& string_views(labels@) == column_names(before.schemas()[table_name])
        &&& select_rows(fetched_all(before.scanned(table_name), labels@, selection))
            == Ok::<Seq<Seq<Value>>, Error>(rows@.map_values(|r: Vec<Value>| r@))
    }
}

/// Runs one statement against the storage.
pub fn execute<T: GStore + GStoreMut>(storage: &mut T, statement: &StatementPlan) -> (r: Result<Payload>)
    ensures
        executes(*old(storage), statement.statement@, r, *final(storage)),
{
    match &statement.statement {
        Statement::CreateFunction { or_replace, name, args, return_ } => {
            let func_name = name.as_str();
            let func_args = args.as_slice();
            assert(func_name@ == name@ && func_args@ == args@);
            match insert_function(storage, func_name, func_args, *or_replace, return_) {
                Ok(()) => {
                    assert(creates_function(*old(storage), *or_replace, name@, args@, *return_, Ok(Payload::CreateFunction), *storage));
                    Ok(Payload::CreateFunction)
                },
                Err(e) => {
                    assert(creates_function(*old(storage), *or_replace, name@, args@, *return_, Err(e), *storage));
                    Err(e)
                },
            }
        },
        Statement::DropFunction { if_exists, func_names } => {
            let names = func_names.as_slice();
            assert(names@ == func_names@);
            match delete_function(storage, names, *if_exists) {
                Ok(()) => Ok(Payload::DropFunction),
                Err(e) => {
                    assert(exists|k: int| #[trigger] drop_fails_at(*old(storage), *storage, names@, *if_exists, k, e));
                    Err(e)
                },
            }
        },
        Statement::Select { table_name, selection } => select(&*storage, table_name, selection),
        Statement::StartTransaction => {
            trace::begin(storage, false)?;
            Ok(Payload::StartTransaction)
        },
        Statement::Commit => {
            trace::commit(storage)?;
            Ok(Payload::Commit)
        },
        Statement::Rollback => {
            trace::rollback(storage)?;
            Ok(Payload::Rollback)
        },
    }
}

} // verus!
