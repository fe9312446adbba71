//! The single route by which the executor calls a storage. Each function hands its
//! arguments to the storage method of the same name and returns what it returned.

use vstd::prelude::*;
use vstd::std_specs::iter::IteratorSpec;
use crate::data::{
    ColumnDef, CustomFunction as Function, DataRow, IndexOperator, Key, OrderByExpr, Referencing, Schema,
    StatementPlan, Value,
};
use crate::error::{Error, Result};
use crate::store::{
    has_any_key, holds_row, last_with_key, lists_functions, lists_referencings, lists_schemas, scan_item_view, scan_view, has_key, is_row, has_values, AlterTable,
    CustomFunction, CustomFunctionMut, Index, IndexMut, MetaIter, Metadata, Planner, RowIter, Store, StoreMut,
    Transaction,
};

verus! {

pub(crate) fn plan<T: Planner + ?Sized>(storage: &T, statement: StatementPlan) -> (r: Result<StatementPlan>)
    ensures
        r matches Ok(p) ==> p.statement@ == statement.statement@ || storage.rewrites_to(statement.statement@, p.statement@),
        r matches Err(e) ==> storage.plan_fails_with(statement.statement@, e),
        (forall|e: Error| !#[trigger] storage.plan_fails_with(statement.statement@, e)) ==> r is Ok,
{
    storage.plan(statement)
}

pub(crate) fn fetch_schema<T: Store + ?Sized>(storage: &T, table_name: &str) -> (r: Result<Option<Schema>>)
    ensures
        r matches Err(e) ==> storage.fetch_schema_fails_with(table_name@, e),
        (forall|e: Error| !#[trigger] storage.fetch_schema_fails_with(table_name@, e)) ==> r is Ok,
        r matches Ok(found) ==> match found {
            Some(schema) => storage.schemas().contains_key(table_name@) && schema@ == storage.schemas()[table_name@],
            None => !storage.schemas().contains_key(table_name@),
        },
{
    storage.fetch_schema(table_name)
}

pub(crate) fn fetch_all_schemas<T: Store + ?Sized>(storage: &T) -> (r: Result<Vec<Schema>>)
    ensures
        r matches Ok(v) ==> lists_schemas(v@, storage.schemas()),
{
    storage.fetch_all_schemas()
}

pub(crate) fn fetch_data<T: Store + ?Sized>(storage: &T, table_name: &str, key: &Key) -> (r: Result<Option<DataRow>>)
    ensures
        r matches Ok(found) ==> match found {
            Some(row) => exists|i: int| 0 <= i < storage.scanned(table_name@).len()
                && is_row(#[trigger] storage.scanned(table_name@)[i], *key, row@),
            None => forall|i: int| 0 <= i < storage.scanned(table_name@).len()
                ==> !has_key(#[trigger] storage.scanned(table_name@)[i], *key),
        },
{
    storage.fetch_data(table_name, key)
}

pub(crate) fn scan_data<T: Store + ?Sized>(storage: &T, table_name: &str) -> (r: Result<RowIter>)
    ensures
        r matches Err(e) ==> storage.scan_fails_with(table_name@, e),
        (forall|e: Error| !#[trigger] storage.scan_fails_with(table_name@, e)) ==> r is Ok,
        r matches Ok(iter) ==> {
            &&& iter.obeys_prophetic_iter_laws()
            &&& iter.decrease() is Some
            &&& scan_view(iter.remaining()) == storage.scanned(table_name@)
        },
{
    storage.scan_data(table_name)
}

pub(crate) fn fetch_referencings<T: Store + ?Sized>(storage: &T, table_name: &str) -> (r: Result<Vec<Referencing>>)
    ensures
        r matches Ok(v) ==> lists_referencings(v@, storage.schemas(), table_name@),
{
    storage.fetch_referencings(table_name)
}

pub(crate) fn insert_schema<T: StoreMut + ?Sized>(storage: &mut T, schema: &Schema) -> (r: Result<()>)
    ensures
        r is Ok ==> {
            &&& final(storage).schemas() == old(storage).schemas().insert(schema.table_name@, schema@)
            &&& forall|t: Seq<char>| #[trigger] final(storage).scanned(t) == old(storage).scanned(t)
        },
{
    storage.insert_schema(schema)
}

pub(crate) fn delete_schema<T: StoreMut + ?Sized>(storage: &mut T, table_name: &str) -> (r: Result<()>)
    ensures
        r is Ok ==> {
            &&& final(storage).schemas() == old(storage).schemas().remove(table_name@)
            &&& final(storage).scanned(table_name@).len() == 0
            &&& forall|t: Seq<char>| t != table_name@ ==> #[trigger] final(storage).scanned(t) == old(storage).scanned(t)
        },
{
    storage.delete_schema(table_name)
}

pub(crate) fn append_data<T: StoreMut + ?Sized>(storage: &mut T, table_name: &str, rows: Vec<DataRow>) -> (r: Result<()>)
    ensures
        r is Ok ==> {
            &&& final(storage).schemas() == old(storage).schemas()
            &&& forall|t: Seq<char>| t != table_name@ ==> #[trigger] final(storage).scanned(t) == old(storage).scanned(t)
            &&& final(storage).scanned(table_name@).len() == old(storage).scanned(table_name@).len() + rows.len()
            &&& final(storage).scanned(table_name@).subrange(0, old(storage).scanned(table_name@).len() as int)
                == old(storage).scanned(table_name@)
            &&& forall|i: int| 0 <= i < rows.len() ==>
                has_values(#[trigger] final(storage).scanned(table_name@)[old(storage).scanned(table_name@).len() + i], rows@[i]@)
        },
{
    storage.append_data(table_name, rows)
}

pub(crate) fn insert_data<T: StoreMut + ?Sized>(storage: &mut T, table_name: &str, rows: Vec<(Key, DataRow)>) -> (r: Result<()>)
    ensures
        r is Ok ==> {
            &&& final(storage).schemas() == old(storage).schemas()
            &&& forall|t: Seq<char>| t != table_name@ ==> #[trigger] final(storage).scanned(t) == old(storage).scanned(t)
            &&& forall|m: int| 0 <= m < rows.len() && last_with_key(rows@, m)
                ==> holds_row(final(storage).scanned(table_name@), (#[trigger] rows@[m]).0, rows@[m].1@)
        },
{
    storage.insert_data(table_name, rows)
}

pub(crate) fn delete_data<T: StoreMut + ?Sized>(storage: &mut T, table_name: &str, keys: Vec<Key>) -> (r: Result<()>)
    ensures
        r is Ok ==> {
            &&& final(storage).schemas() == old(storage).schemas()
            &&& forall|t: Seq<char>| t != table_name@ ==> #[trigger] final(storage).scanned(t) == old(storage).scanned(t)
            &&& forall|i: int| 0 <= i < final(storage).scanned(table_name@).len() ==> {
                &&& !has_any_key(#[trigger] final(storage).scanned(table_name@)[i], keys@)
                &&& old(storage).scanned(table_name@).contains(final(storage).scanned(table_name@)[i])
            }
            &&& forall|i: int| 0 <= i < old(storage).scanned(table_name@).len()
                && !has_any_key(#[trigger] old(storage).scanned(table_name@)[i], keys@)
                ==> final(storage).scanned(table_name@).contains(old(storage).scanned(table_name@)[i])
        },
{
    storage.delete_data(table_name, keys)
}

pub(crate) fn scan_indexed_data<T: Index + ?Sized>(
    storage: &T,
    table_name: &str,
    index_name: &str,
    asc: Option<bool>,
    cmp_value: Option<(&IndexOperator, Value)>,
) -> (r: Result<RowIter>)
    ensures
        r matches Ok(iter) ==> {
            &&& iter.obeys_prophetic_iter_laws()
            &&& iter.decrease() is Some
            &&& forall|i: int| 0 <= i < iter.remaining().len() && #[trigger] iter.remaining()[i] is Ok
                ==> storage.scanned(table_name@).contains(scan_item_view(iter.remaining()[i]))
        },
{
    storage.scan_indexed_data(table_name, index_name, asc, cmp_value)
}

pub(crate) fn create_index<T: IndexMut + ?Sized>(storage: &mut T, table_name: &str, index_name: &str, column: &OrderByExpr) -> (r: Result<()>) {
    storage.create_index(table_name, index_name, column)
}

pub(crate) fn drop_index<T: IndexMut + ?Sized>(storage: &mut T, table_name: &str, index_name: &str) -> (r: Result<()>) {
    storage.drop_index(table_name, index_name)
}

pub(crate) fn rename_schema<T: AlterTable + ?Sized>(storage: &mut T, table_name: &str, new_table_name: &str) -> (r: Result<()>) {
    storage.rename_schema(table_name, new_table_name)
}

pub(crate) fn rename_column<T: AlterTable + ?Sized>(
    storage: &mut T,
    table_name: &str,
    old_column_name: &str,
    new_column_name: &str,
) -> (r: Result<()>) {
    storage.rename_column(table_name, old_column_name, new_column_name)
}

pub(crate) fn add_column<T: AlterTable + ?Sized>(storage: &mut T, table_name: &str, column_def: &ColumnDef) -> (r: Result<()>) {
    storage.add_column(table_name, column_def)
}

pub(crate) fn drop_column<T: AlterTable + ?Sized>(storage: &mut T, table_name: &str, column_name: &str, if_exists: bool) -> (r: Result<()>) {
    storage.drop_column(table_name, column_name, if_exists)
}

pub(crate) fn scan_table_meta<T: Metadata + ?Sized>(storage: &T) -> (r: Result<MetaIter>) {
    storage.scan_table_meta()
}

pub(crate) fn fetch_function<'a, T: CustomFunction + ?Sized>(storage: &'a T, func_name: &str) -> (r: Result<Option<&'a Function>>)
    ensures
        r matches Err(e) ==> storage.fetch_function_fails_with(func_name@, e),
        (forall|e: Error| !#[trigger] storage.fetch_function_fails_with(func_name@, e)) ==> r is Ok,
        r matches Ok(found) ==> match found {
            Some(f) => storage.functions().contains_key(func_name@) && f@ == storage.functions()[func_name@],
            None => !storage.functions().contains_key(func_name@),
        },
{
    storage.fetch_function(func_name)
}

pub(crate) fn fetch_all_functions<'a, T: CustomFunction + ?Sized>(storage: &'a T) -> (r: Result<Vec<&'a Function>>)
    ensures
        r matches Ok(v) ==> lists_functions(v@, storage.functions()),
{
    storage.fetch_all_functions()
}

pub(crate) fn insert_function<T: CustomFunctionMut + ?Sized>(storage: &mut T, function: Function) -> (r: Result<()>)
    ensures
        r is Ok ==> final(storage).functions() == old(storage).functions().insert(function.func_name@, function@),
        r matches Err(e) ==> old(storage).insert_function_fails_with(function@, e),
        (forall|e: Error| !#[trigger] old(storage).insert_function_fails_with(function@, e)) ==> r is Ok,
{
    storage.insert_function(function)
}

pub(crate) fn delete_function<T: CustomFunctionMut + ?Sized>(storage: &mut T, func_name: &str) -> (r: Result<()>)
    ensures
        r is Ok ==> final(storage).functions() == old(storage).functions().remove(func_name@),
        r matches Err(e) ==> old(storage).delete_function_fails_with(func_name@, e),
        (forall|e: Error| !#[trigger] old(storage).delete_function_fails_with(func_name@, e)) ==> r is Ok,
{
    storage.delete_function(func_name)
}

pub(crate) fn begin<T: Transaction + ?Sized>(storage: &mut T, autocommit: bool) -> (r: Result<bool>)
    ensures
        r matches Err(e) ==> old(storage).begin_fails_with(autocommit, e),
        (forall|e: Error| !#[trigger] old(storage).begin_fails_with(autocommit, e)) ==> r is Ok,
{
    storage.begin(autocommit)
}

pub(crate) fn rollback<T: Transaction + ?Sized>(storage: &mut T) -> (r: Result<()>)
    ensures
        r matches Err(e) ==> old(storage).rollback_fails_with(e),
        (forall|e: Error| !#[trigger] old(storage).rollback_fails_with(e)) ==> r is Ok,
{
    storage.rollback()
}

pub(crate) fn commit<T: Transaction + ?Sized>(storage: &mut T) -> (r: Result<()>)
    ensures
        r matches Err(e) ==> old(storage).commit_fails_with(e),
        (forall|e: Error| !#[trigger] old(storage).commit_fails_with(e)) ==> r is Ok,
{
    storage.commit()
}

} // verus!
