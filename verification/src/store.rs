use vstd::prelude::*;
use vstd::std_specs::iter::IteratorSpec;
use crate::data::{
    ColumnDef, CustomFunction as Function, DataRow, ForeignKey, FunctionView, IndexOperator, Key, OrderByExpr, Referencing, Schema,
    SchemaView, StatementPlan, StatementView, Value,
};
use crate::error::{Error, Result};

verus! {

broadcast use vstd::std_specs::vec::group_vec_axioms;

/// The rows that a scan yields.
pub type RowIter = std::vec::IntoIter<Result<(Key, DataRow)>>;

/// Table names with their metadata.
pub type MetaIter = std::vec::IntoIter<Result<(String, Vec<(String, Value)>)>>;

/// A scanned item with its values taken by their view.
pub open spec fn scan_item_view(item: Result<(Key, DataRow)>) -> Result<(Key, Seq<Value>)> {
    match item {
        Ok((key, row)) => Ok((key, row@)),
        Err(e) => Err(e),
    }
}

/// Scanned items with their values taken by their view.
pub open spec fn scan_view(items: Seq<Result<(Key, DataRow)>>) -> Seq<Result<(Key, Seq<Value>)>> {
    items.map_values(|item: Result<(Key, DataRow)>| scan_item_view(item))
}

/// Whether two keys hold the same value.
pub open spec fn same_key(a: Key, b: Key) -> bool {
    match (a, b) {
        (Key::I64(x), Key::I64(y)) => x == y,
        (Key::Str(x), Key::Str(y)) => x@ == y@,
        (Key::Null, Key::Null) => true,
        _ => false,
    }
}

/// Whether a scanned item is a row whose key is `key`.
pub open spec fn has_key(item: Result<(Key, Seq<Value>)>, key: Key) -> bool {
    item matches Ok((k, _)) && same_key(k, key)
}

/// Whether a scanned item is a row whose values are `values`.
pub open spec fn has_values(item: Result<(Key, Seq<Value>)>, values: Seq<Value>) -> bool {
    item matches Ok((_, v)) && v == values
}

/// Whether a scanned item is the row `values` under the key `key`.
pub open spec fn is_row(item: Result<(Key, Seq<Value>)>, key: Key, values: Seq<Value>) -> bool {
    has_key(item, key) && has_values(item, values)
}

/// Whether input `m` is the last of `rows` with its key.
pub open spec fn last_with_key(rows: Seq<(Key, DataRow)>, m: int) -> bool {
    forall|n: int| m < n < rows.len() ==> !same_key(#[trigger] rows[n].0, rows[m].0)
}

/// Whether `scan` holds the row `values` under `key`.
pub open spec fn holds_row(scan: Seq<Result<(Key, Seq<Value>)>>, key: Key, values: Seq<Value>) -> bool {
    exists|i: int| 0 <= i < scan.len() && is_row(#[trigger] scan[i], key, values)
}

/// Whether a scanned item is a row under one of `keys`.
pub open spec fn has_any_key(item: Result<(Key, Seq<Value>)>, keys: Seq<Key>) -> bool {
    exists|j: int| 0 <= j < keys.len() && has_key(item, #[trigger] keys[j])
}

/// Whether `v` lists exactly the schemas of `schemas`, each once or more.
pub open spec fn lists_schemas(v: Seq<Schema>, schemas: Map<Seq<char>, SchemaView>) -> bool {
    &&& forall|i: int| 0 <= i < v.len() ==> {
        &&& schemas.contains_key(#[trigger] v[i]@.table_name)
        &&& schemas[v[i]@.table_name] == v[i]@
    }
    &&& forall|k: Seq<char>| #[trigger] schemas.contains_key(k) ==> exists|i: int| 0 <= i < v.len() && v[i]@.table_name == k
}

/// Whether `r` names a table of `schemas` with a foreign key that refers to `table_name`.
pub open spec fn refers_to(schemas: Map<Seq<char>, SchemaView>, table_name: Seq<char>, r: Referencing) -> bool {
    &&& schemas.contains_key(r.table_name@)
    &&& schemas[r.table_name@].foreign_keys.contains(r.foreign_key)
    &&& r.foreign_key.referenced_table_name@ == table_name
}

/// Whether `v` names the table `table_name` with the foreign key `fk`.
pub open spec fn lists_referencing(v: Seq<Referencing>, table_name: Seq<char>, fk: ForeignKey) -> bool {
    exists|i: int| 0 <= i < v.len() && (#[trigger] v[i]).table_name@ == table_name && v[i].foreign_key == fk
}

/// Whether `v` lists exactly the foreign keys of `schemas` that refer to `table_name`,
/// each with the table that holds it.
pub open spec fn lists_referencings(v: Seq<Referencing>, schemas: Map<Seq<char>, SchemaView>, table_name: Seq<char>) -> bool {
    &&& forall|i: int| 0 <= i < v.len() ==> refers_to(schemas, table_name, #[trigger] v[i])
    &&& forall|k: Seq<char>, fk: ForeignKey| schemas.contains_key(k) && #[trigger] schemas[k].foreign_keys.contains(fk)
        && fk.referenced_table_name@ == table_name ==> lists_referencing(v, k, fk)
}

/// Whether `v` lists exactly the functions of `functions`.
pub open spec fn lists_functions(v: Seq<&Function>, functions: Map<Seq<char>, FunctionView>) -> bool {
    &&& forall|i: int| 0 <= i < v.len() ==> {
        &&& functions.contains_key(#[trigger] v[i]@.func_name)
        &&& functions[v[i]@.func_name] == v[i]@
    }
    &&& forall|k: Seq<char>| #[trigger] functions.contains_key(k) ==> exists|i: int| 0 <= i < v.len() && v[i]@.func_name == k
}

/// Read access to schemas and rows. An implementation promises the contracts below over
/// its own model of the tables; any call may still fail with an error of its own, and the
/// calls that the executor builds on name the errors that they may give.
pub trait Store {
    /// The schema of each table, by table name.
    spec fn schemas(&self) -> Map<Seq<char>, SchemaView>;

    /// What a scan of the table yields, in order.
    spec fn scanned(&self, table_name: Seq<char>) -> Seq<Result<(Key, Seq<Value>)>>;

    /// Whether fetching the schema of `table_name` may fail with `error`.
    spec fn fetch_schema_fails_with(&self, table_name: Seq<char>, error: Error) -> bool;

    /// Whether starting a scan of `table_name` may fail with `error`.
    spec fn scan_fails_with(&self, table_name: Seq<char>, error: Error) -> bool;

    fn fetch_schema(&self, table_name: &str) -> (r: Result<Option<Schema>>)
        ensures
            r matches Err(e) ==> self.fetch_schema_fails_with(table_name@, e),
            (forall|e: Error| !#[trigger] self.fetch_schema_fails_with(table_name@, e)) ==> r is Ok,
            r matches Ok(found) ==> match found {
                Some(schema) => self.schemas().contains_key(table_name@) && schema@ == self.schemas()[table_name@],
                None => !self.schemas().contains_key(table_name@),
            };

    fn fetch_all_schemas(&self) -> (r: Result<Vec<Schema>>)
        ensures
            r matches Ok(v) ==> lists_schemas(v@, self.schemas());

    fn fetch_data(&self, table_name: &str, key: &Key) -> (r: Result<Option<DataRow>>)
        ensures
            r matches Ok(found) ==> match found {
                Some(row) => exists|i: int| 0 <= i < self.scanned(table_name@).len()
                    && is_row(#[trigger] self.scanned(table_name@)[i], *key, row@),
                None => forall|i: int| 0 <= i < self.scanned(table_name@).len()
                    ==> !has_key(#[trigger] self.scanned(table_name@)[i], *key),
            };

    fn scan_data(&self, table_name: &str) -> (r: Result<RowIter>)
        ensures
            r matches Err(e) ==> self.scan_fails_with(table_name@, e),
            (forall|e: Error| !#[trigger] self.scan_fails_with(table_name@, e)) ==> r is Ok,
            r matches Ok(iter) ==> {
                &&& iter.obeys_prophetic_iter_laws()
                &&& iter.decrease() is Some
                &&& scan_view(iter.remaining()) == self.scanned(table_name@)
            };

    fn fetch_referencings(&self, table_name: &str) -> (r: Result<Vec<Referencing>>)
        ensures
            r matches Ok(v) ==> lists_referencings(v@, self.schemas(), table_name@);
}

/// Write access to schemas and rows.
pub trait StoreMut: Store {
    fn insert_schema(&mut self, schema: &Schema) -> (r: Result<()>)
        ensures
            r is Ok ==> {
                &&& final(self).schemas() == old(self).schemas().insert(schema.table_name@, schema@)
                &&& forall|t: Seq<char>| #[trigger] final(self).scanned(t) == old(self).scanned(t)
            };

    fn delete_schema(&mut self, table_name: &str) -> (r: Result<()>)
        ensures
            r is Ok ==> {
                &&& final(self).schemas() == old(self).schemas().remove(table_name@)
                &&& final(self).scanned(table_name@).len() == 0
                &&& forall|t: Seq<char>| t != table_name@ ==> #[trigger] final(self).scanned(t) == old(self).scanned(t)
            };

    fn append_data(&mut self, table_name: &str, rows: Vec<DataRow>) -> (r: Result<()>)
        ensures
            r is Ok ==> {
                &&& final(self).schemas() == old(self).schemas()
                &&& forall|t: Seq<char>| t != table_name@ ==> #[trigger] final(self).scanned(t) == old(self).scanned(t)
                &&& final(self).scanned(table_name@).len() == old(self).scanned(table_name@).len() + rows.len()
                &&& final(self).scanned(table_name@).subrange(0, old(self).scanned(table_name@).len() as int)
                    == old(self).scanned(table_name@)
                &&& forall|i: int| 0 <= i < rows.len() ==>
                    has_values(#[trigger] final(self).scanned(table_name@)[old(self).scanned(table_name@).len() + i], rows@[i]@)
            };

    fn insert_data(&mut self, table_name: &str, rows: Vec<(Key, DataRow)>) -> (r: Result<()>)
        ensures
            r is Ok ==> {
                &&& final(self).schemas() == old(self).schemas()
                &&& forall|t: Seq<char>| t != table_name@ ==> #[trigger] final(self).scanned(t) == old(self).scanned(t)
                &&& forall|m: int| 0 <= m < rows.len() && last_with_key(rows@, m)
                    ==> holds_row(final(self).scanned(table_name@), (#[trigger] rows@[m]).0, rows@[m].1@)
            };

    fn delete_data(&mut self, table_name: &str, keys: Vec<Key>) -> (r: Result<()>)
        ensures
            r is Ok ==> {
                &&& final(self).schemas() == old(self).schemas()
                &&& forall|t: Seq<char>| t != table_name@ ==> #[trigger] final(self).scanned(t) == old(self).scanned(t)
                &&& forall|i: int| 0 <= i < final(self).scanned(table_name@).len() ==> {
                    &&& !has_any_key(#[trigger] final(self).scanned(table_name@)[i], keys@)
                    &&& old(self).scanned(table_name@).contains(final(self).scanned(table_name@)[i])
                }
                &&& forall|i: int| 0 <= i < old(self).scanned(table_name@).len()
                    && !has_any_key(#[trigger] old(self).scanned(table_name@)[i], keys@)
                    ==> final(self).scanned(table_name@).contains(old(self).scanned(table_name@)[i])
            };
}

/// The error a storage gives for an operation that it does not support.
pub fn unsupported(message: &str) -> (e: Error)
    ensures
        e matches Error::StorageMsg(m) && m@ == message@,
{
    Error::StorageMsg(message.to_owned())
}

/// Scans through a secondary index.
pub trait Index: Store {
    /// Without support for indexes, every scan fails.
    fn scan_indexed_data(
        &self,
        table_name: &str,
        index_name: &str,
        asc: Option<bool>,
        cmp_value: Option<(&IndexOperator, Value)>,
    ) -> (r: Result<RowIter>)
        ensures
            r matches Ok(iter) ==> {
                &&& iter.obeys_prophetic_iter_laws()
                &&& iter.decrease() is Some
                &&& forall|i: int| 0 <= i < iter.remaining().len() && #[trigger] iter.remaining()[i] is Ok
                    ==> self.scanned(table_name@).contains(scan_item_view(iter.remaining()[i]))
            },
        default_ensures
            r matches Err(Error::StorageMsg(m)) && m@ == "[Storage] Index::scan_indexed_data is not supported"@,
    {
        Err(unsupported("[Storage] Index::scan_indexed_data is not supported"))
    }
}

/// Creates and drops secondary indexes.
pub trait IndexMut: Store {
    fn create_index(&mut self, table_name: &str, index_name: &str, column: &OrderByExpr) -> (r: Result<()>)
        default_ensures
            r matches Err(Error::StorageMsg(m)) && m@ == "[Storage] IndexMut::create_index is not supported"@,
            final(self).schemas() == old(self).schemas(),
            forall|t: Seq<char>| #[trigger] final(self).scanned(t) == old(self).scanned(t),
    {
        Err(unsupported("[Storage] IndexMut::create_index is not supported"))
    }

    fn drop_index(&mut self, table_name: &str, index_name: &str) -> (r: Result<()>)
        default_ensures
            r matches Err(Error::StorageMsg(m)) && m@ == "[Storage] IndexMut::drop_index is not supported"@,
            final(self).schemas() == old(self).schemas(),
            forall|t: Seq<char>| #[trigger] final(self).scanned(t) == old(self).scanned(t),
    {
        Err(unsupported("[Storage] IndexMut::drop_index is not supported"))
    }
}

/// Changes the shape of tables.
pub trait AlterTable: Store {
    fn rename_schema(&mut self, table_name: &str, new_table_name: &str) -> (r: Result<()>)
        default_ensures
            r matches Err(Error::StorageMsg(m)) && m@ == "[Storage] AlterTable::rename_schema is not supported"@,
            final(self).schemas() == old(self).schemas(),
            forall|t: Seq<char>| #[trigger] final(self).scanned(t) == old(self).scanned(t),
    {
        Err(unsupported("[Storage] AlterTable::rename_schema is not supported"))
    }

    fn rename_column(&mut self, table_name: &str, old_column_name: &str, new_column_name: &str) -> (r: Result<()>)
        default_ensures
            r matches Err(Error::StorageMsg(m)) && m@ == "[Storage] AlterTable::rename_column is not supported"@,
            final(self).schemas() == old(self).schemas(),
            forall|t: Seq<char>| #[trigger] final(self).scanned(t) == old(self).scanned(t),
    {
        Err(unsupported("[Storage] AlterTable::rename_column is not supported"))
    }

    fn add_column(&mut self, table_name: &str, column_def: &ColumnDef) -> (r: Result<()>)
        default_ensures
            r matches Err(Error::StorageMsg(m)) && m@ == "[Storage] AlterTable::add_column is not supported"@,
            final(self).schemas() == old(self).schemas(),
            forall|t: Seq<char>| #[trigger] final(self).scanned(t) == old(self).scanned(t),
    {
        Err(unsupported("[Storage] AlterTable::add_column is not supported"))
    }

    fn drop_column(&mut self, table_name: &str, column_name: &str, if_exists: bool) -> (r: Result<()>)
        default_ensures
            r matches Err(Error::StorageMsg(m)) && m@ == "[Storage] AlterTable::drop_column is not supported"@,
            final(self).schemas() == old(self).schemas(),
            forall|t: Seq<char>| #[trigger] final(self).scanned(t) == old(self).scanned(t),
    {
        Err(unsupported("[Storage] AlterTable::drop_column is not supported"))
    }
}

/// Metadata of tables.
pub trait Metadata {
    /// Without metadata, there is nothing to list.
    fn scan_table_meta(&self) -> (r: Result<MetaIter>)
        default_ensures
            r matches Ok(iter) && iter.remaining().len() == 0,
    {
        let empty: Vec<Result<(String, Vec<(String, Value)>)>> = Vec::new();
        Ok(empty.into_iter())
    }
}

/// Read access to user-defined functions. An implementation promises the contracts below
/// over its own model of the functions, and names the errors that each call may give.
pub trait CustomFunction {
    /// The functions, by name.
    spec fn functions(&self) -> Map<Seq<char>, FunctionView>;

    /// Whether looking up `func_name` may fail with `error`.
    spec fn fetch_function_fails_with(&self, func_name: Seq<char>, error: Error) -> bool;

    fn fetch_function<'a>(&'a self, func_name: &str) -> (r: Result<Option<&'a Function>>)
        ensures
            r matches Err(e) ==> self.fetch_function_fails_with(func_name@, e),
            (forall|e: Error| !#[trigger] self.fetch_function_fails_with(func_name@, e)) ==> r is Ok,
            r matches Ok(found) ==> match found {
                Some(f) => self.functions().contains_key(func_name@) && f@ == self.functions()[func_name@],
                None => !self.functions().contains_key(func_name@),
            };

    fn fetch_all_functions<'a>(&'a self) -> (r: Result<Vec<&'a Function>>)
        ensures
            r matches Ok(v) ==> lists_functions(v@, self.functions()),
        default_ensures
            r matches Err(Error::StorageMsg(m)) && m@ == "[Storage] CustomFunction is not supported"@,
    {
        Err(unsupported("[Storage] CustomFunction is not supported"))
    }
}

/// Write access to user-defined functions.
pub trait CustomFunctionMut: CustomFunction {
    /// Whether storing `func` may fail with `error`.
    spec fn insert_function_fails_with(&self, func: FunctionView, error: Error) -> bool;

    /// Whether deleting `func_name` may fail with `error`.
    spec fn delete_function_fails_with(&self, func_name: Seq<char>, error: Error) -> bool;

    fn insert_function(&mut self, func: Function) -> (r: Result<()>)
        ensures
            r is Ok ==> final(self).functions() == old(self).functions().insert(func.func_name@, func@),
            r matches Err(e) ==> old(self).insert_function_fails_with(func@, e),
            (forall|e: Error| !#[trigger] old(self).insert_function_fails_with(func@, e)) ==> r is Ok;

    fn delete_function(&mut self, func_name: &str) -> (r: Result<()>)
        ensures
            r is Ok ==> final(self).functions() == old(self).functions().remove(func_name@),
            r matches Err(e) ==> old(self).delete_function_fails_with(func_name@, e),
            (forall|e: Error| !#[trigger] old(self).delete_function_fails_with(func_name@, e)) ==> r is Ok;
}

/// Transactions. An implementation names the errors that each call may give; a storage
/// without transactions still runs in autocommit mode.
pub trait Transaction {
    /// Whether `begin(autocommit)` may fail with `error`.
    spec fn begin_fails_with(&self, autocommit: bool, error: Error) -> bool;

    /// Whether `rollback` may fail with `error`.
    spec fn rollback_fails_with(&self, error: Error) -> bool;

    /// Whether `commit` may fail with `error`.
    spec fn commit_fails_with(&self, error: Error) -> bool;

    fn begin(&mut self, autocommit: bool) -> (r: Result<bool>)
        ensures
            r matches Err(e) ==> old(self).begin_fails_with(autocommit, e),
            (forall|e: Error| !#[trigger] old(self).begin_fails_with(autocommit, e)) ==> r is Ok;

    fn rollback(&mut self) -> (r: Result<()>)
        ensures
            r matches Err(e) ==> old(self).rollback_fails_with(e),
            (forall|e: Error| !#[trigger] old(self).rollback_fails_with(e)) ==> r is Ok;

    fn commit(&mut self) -> (r: Result<()>)
        ensures
            r matches Err(e) ==> old(self).commit_fails_with(e),
            (forall|e: Error| !#[trigger] old(self).commit_fails_with(e)) ==> r is Ok;
}

/// The error of a storage without transactions, asked to begin one that is not in
/// autocommit mode.
pub open spec fn begin_unsupported(error: Error) -> bool {
    error matches Error::StorageMsg(m) && m@ == "[Storage] Transaction::begin is not supported"@
}

/// Rewrites a statement before it is executed.
pub trait Planner {
    /// Whether this planner may turn `statement` into the different statement `planned`.
    /// A storage without a planner of its own rewrites nothing.
    open spec fn rewrites_to(&self, statement: StatementView, planned: StatementView) -> bool {
        false
    }

    /// Whether planning `statement` may fail with `error`. A storage without a planner of
    /// its own never fails to plan.
    open spec fn plan_fails_with(&self, statement: StatementView, error: Error) -> bool {
        false
    }

    /// Without a planner of its own, a storage keeps the statement as it is.
    fn plan(&self, statement: StatementPlan) -> (r: Result<StatementPlan>)
        ensures
            r matches Err(e) ==> self.plan_fails_with(statement.statement@, e),
            (forall|e: Error| !#[trigger] self.plan_fails_with(statement.statement@, e)) ==> r is Ok,
            r matches Ok(p) ==> p.statement@ == statement.statement@ || self.rewrites_to(statement.statement@, p.statement@),
        default_ensures
            r == Ok::<StatementPlan, Error>(statement),
    {
        Ok(statement)
    }
}

/// Everything that the executor reads.
pub trait GStore: Store + Index + Metadata + CustomFunction {}

impl<S: Store + Index + Metadata + CustomFunction> GStore for S {}

/// Everything that the executor changes.
pub trait GStoreMut: StoreMut + IndexMut + AlterTable + Transaction + CustomFunctionMut {}

impl<S: StoreMut + IndexMut + AlterTable + Transaction + CustomFunctionMut> GStoreMut for S {}

} // verus!
