use vstd::prelude::*;
use vstd::std_specs::iter::IteratorSpec;
use crate::data::{
    copy_foreign_key, copy_key, copy_schema, copy_values, CustomFunction as Function, DataRow, ForeignKey, FunctionView, Key,
    Referencing, Schema, SchemaView, Value,
};
use crate::error::{Error, Result};
use crate::executor::alter::function_calls_never_fail;
use crate::named::{
    by_name, has_name, lemma_by_name_at, lemma_by_name_push, lemma_by_name_remove, lemma_by_name_update, names_unique,
};
use crate::store::{
    begin_unsupported, has_any_key, has_key, has_values, holds_row, is_row, last_with_key, lists_referencing, refers_to, same_key, scan_view, unsupported,
    AlterTable, CustomFunction, CustomFunctionMut, Index, IndexMut, Metadata, Planner, RowIter, Store, StoreMut,
    Transaction,
};

verus! {

broadcast use vstd::std_specs::vec::group_vec_axioms;

/// A table held in memory: its schema and its rows in insertion order.
pub struct Table {
    schema: Schema,
    rows: Vec<(Key, DataRow)>,
}

/// A storage that holds everything in memory.
pub struct MemoryStorage {
    tables: Vec<Table>,
    functions: Vec<Function>,
    next_id: i64,
}

/// The name of a table.
spec fn table_key() -> spec_fn(Table) -> Seq<char> {
    |t: Table| t.schema.table_name@
}

/// The schema of a table.
spec fn table_schema() -> spec_fn(Table) -> SchemaView {
    |t: Table| t.schema@
}

/// A stored row as a scan yields it.
pub open spec fn row_item(row: (Key, DataRow)) -> Result<(Key, Seq<Value>)> {
    Ok((row.0, row.1@))
}

/// What a scan of a table yields.
spec fn table_scan() -> spec_fn(Table) -> Seq<Result<(Key, Seq<Value>)>> {
    |t: Table| t.rows@.map_values(|row: (Key, DataRow)| row_item(row))
}

/// The name of a function.
spec fn function_key() -> spec_fn(Function) -> Seq<char> {
    |f: Function| f.func_name@
}

/// The view of a function.
spec fn function_view() -> spec_fn(Function) -> FunctionView {
    |f: Function| f@
}

/// Whether input `m` is the last with its key among the first `j` inputs.
spec fn last_before(rows: Seq<(Key, DataRow)>, m: int, j: int) -> bool {
    forall|n: int| m < n < j ==> !same_key(#[trigger] rows[n].0, rows[m].0)
}

/// Whether `stored` holds a row with `values` under a key equal to `key`.
spec fn stored_row(stored: Seq<(Key, DataRow)>, key: Key, values: Seq<Value>) -> bool {
    exists|w: int| 0 <= w < stored.len() && same_key(#[trigger] stored[w].0, key) && stored[w].1@ == values
}

/// Whether two keys hold the same value.
pub fn keys_equal(a: &Key, b: &Key) -> (r: bool)
    ensures
        r == same_key(*a, *b),
{
    match (a, b) {
        (Key::I64(x), Key::I64(y)) => *x == *y,
        (Key::Str(x), Key::Str(y)) => *x == *y,
        (Key::Null, Key::Null) => true,
        _ => false,
    }
}

/// The index of the table named `name`.
fn find_table(tables: &Vec<Table>, name: &String) -> (r: Option<usize>)
    ensures
        match r {
            Some(i) => i < tables@.len() && tables@[i as int].schema.table_name@ == name@,
            None => !has_name(tables@, table_key(), name@),
        },
{
    let mut i: usize = 0;
    while i < tables.len()
        invariant
            i <= tables@.len(),
            forall|j: int| 0 <= j < i ==> #[trigger] tables@[j].schema.table_name@ != name@,
        decreases tables@.len() - i,
    {
        if tables[i].schema.table_name == *name {
            return Some(i);
        }
        i = i + 1;
    }
    assert(!has_name(tables@, table_key(), name@)) by {
        if has_name(tables@, table_key(), name@) {
            let j = choose|j: int| 0 <= j < tables@.len() && table_key()(#[trigger] tables@[j]) == name@;
            assert(tables@[j].schema.table_name@ != name@);
        }
    }
    None
}


impl MemoryStorage {
    #[verifier::type_invariant]
    spec fn names_distinct(self) -> bool {
        &&& names_unique(self.tables@, table_key())
        &&& names_unique(self.functions@, function_key())
        &&& self.next_id >= 1
    }

    /// How many more rows can be appended: keys are drawn from a counter that stops at
    /// the largest `i64`.
    pub closed spec fn keys_left(&self) -> int {
        i64::MAX - self.next_id
    }

    /// An empty storage.
    pub fn new() -> (s: Self)
        ensures
            s.schemas() == Map::<Seq<char>, SchemaView>::empty(),
            s.functions() == Map::<Seq<char>, FunctionView>::empty(),
            forall|t: Seq<char>| #[trigger] s.scanned(t).len() == 0,
            s.keys_left() == i64::MAX - 1,
    {
        let s = MemoryStorage { tables: Vec::new(), functions: Vec::new(), next_id: 1 };
        assert(s.schemas() =~= Map::<Seq<char>, SchemaView>::empty());
        assert(s.functions() =~= Map::<Seq<char>, FunctionView>::empty());
        s
    }

    /// The index of the function named `name`.
    fn find_function(&self, name: &String) -> (r: Option<usize>)
        ensures
            match r {
                Some(i) => i < self.functions@.len() && self.functions@[i as int].func_name@ == name@,
                None => !has_name(self.functions@, function_key(), name@),
            },
    {
        let mut i: usize = 0;
        while i < self.functions.len()
            invariant
                i <= self.functions@.len(),
                forall|j: int| 0 <= j < i ==> #[trigger] self.functions@[j].func_name@ != name@,
            decreases self.functions@.len() - i,
        {
            if self.functions[i].func_name == *name {
                return Some(i);
            }
            i = i + 1;
        }
        assert(!has_name(self.functions@, function_key(), name@)) by {
            if has_name(self.functions@, function_key(), name@) {
                let j = choose|j: int| 0 <= j < self.functions@.len() && function_key()(#[trigger] self.functions@[j]) == name@;
                assert(self.functions@[j].func_name@ != name@);
            }
        }
        None
    }
}

impl Store for MemoryStorage {
    closed spec fn schemas(&self) -> Map<Seq<char>, SchemaView> {
        by_name(self.tables@, table_key(), table_schema())
    }

    closed spec fn scanned(&self, table_name: Seq<char>) -> Seq<Result<(Key, Seq<Value>)>> {
        let scans = by_name(self.tables@, table_key(), table_scan());
        if scans.contains_key(table_name) {
            scans[table_name]
        } else {
            Seq::empty()
        }
    }

    open spec fn fetch_schema_fails_with(&self, table_name: Seq<char>, error: Error) -> bool {
        false
    }

    open spec fn scan_fails_with(&self, table_name: Seq<char>, error: Error) -> bool {
        false
    }

    fn fetch_schema(&self, table_name: &str) -> (r: Result<Option<Schema>>)
        ensures
            r is Ok,
    {
        proof { use_type_invariant(self); }
        let name = table_name.to_owned();
        match find_table(&self.tables, &name) {
            Some(i) => {
                proof { lemma_by_name_at(self.tables@, table_key(), table_schema(), i as int); }
                Ok(Some(copy_schema(&self.tables[i].schema)))
            },
            None => Ok(None),
        }
    }

    fn fetch_all_schemas(&self) -> (r: Result<Vec<Schema>>)
        ensures
            r is Ok,
    {
        proof { use_type_invariant(self); }
        let mut v: Vec<Schema> = Vec::new();
        let mut i: usize = 0;
        while i < self.tables.len()
            invariant
                i <= self.tables@.len(),
                v@.len() == i,
                names_unique(self.tables@, table_key()),
                forall|j: int| 0 <= j < i ==> (#[trigger] v@[j])@ == self.tables@[j].schema@,
            decreases self.tables@.len() - i,
        {
            v.push(copy_schema(&self.tables[i].schema));
            i = i + 1;
        }
        proof {
            assert forall|j: int| 0 <= j < v@.len() implies {
                &&& self.schemas().contains_key(#[trigger] v@[j]@.table_name)
                &&& self.schemas()[v@[j]@.table_name] == v@[j]@
            } by {
                lemma_by_name_at(self.tables@, table_key(), table_schema(), j);
            }
            assert forall|k: Seq<char>| #[trigger] self.schemas().contains_key(k) implies exists|j: int| 0 <= j < v@.len() && v@[j]@.table_name == k by {
                let j = choose|j: int| 0 <= j < self.tables@.len() && table_key()(#[trigger] self.tables@[j]) == k;
                assert(v@[j]@.table_name == k);
            }
        }
        Ok(v)
    }

    fn fetch_data(&self, table_name: &str, key: &Key) -> (r: Result<Option<DataRow>>)
        ensures
            r is Ok,
    {
        proof { use_type_invariant(self); }
        let name = table_name.to_owned();
        match find_table(&self.tables, &name) {
            Some(i) => {
                proof { lemma_by_name_at(self.tables@, table_key(), table_scan(), i as int); }
                let rows = &self.tables[i].rows;
                let ghost scan = self.scanned(table_name@);
                assert(scan == table_scan()(self.tables@[i as int]));
                let mut j: usize = 0;
                while j < rows.len()
                    invariant
                        j <= rows@.len(),
                        scan == self.scanned(table_name@),
                        scan.len() == rows@.len(),
                        forall|m: int| 0 <= m < rows@.len() ==> #[trigger] scan[m] == row_item(rows@[m]),
                        forall|m: int| 0 <= m < j ==> !has_key(#[trigger] scan[m], *key),
                    decreases rows@.len() - j,
                {
                    if keys_equal(&rows[j].0, key) {
                        let values = copy_values(rows[j].1.as_slice());
                        assert(is_row(scan[j as int], *key, values@));
                        return Ok(Some(values));
                    }
                    j = j + 1;
                }
                Ok(None)
            },
            None => Ok(None),
        }
    }

    fn scan_data(&self, table_name: &str) -> (r: Result<RowIter>)
        ensures
            r is Ok,
    {
        proof { use_type_invariant(self); }
        let name = table_name.to_owned();
        let mut items: Vec<Result<(Key, DataRow)>> = Vec::new();
        match find_table(&self.tables, &name) {
            Some(i) => {
                proof { lemma_by_name_at(self.tables@, table_key(), table_scan(), i as int); }
                let rows = &self.tables[i].rows;
                let mut j: usize = 0;
                while j < rows.len()
                    invariant
                        j <= rows@.len(),
                        items@.len() == j,
                        forall|m: int| 0 <= m < j ==> scan_view(items@)[m] == row_item(#[trigger] rows@[m]),
                    decreases rows@.len() - j,
                {
                    items.push(Ok((copy_key(&rows[j].0), copy_values(rows[j].1.as_slice()))));
                    j = j + 1;
                }
                assert(scan_view(items@) =~= self.scanned(table_name@));
            },
            None => {
                assert(scan_view(items@) =~= self.scanned(table_name@));
            },
        }
        Ok(items.into_iter())
    }

    fn fetch_referencings(&self, table_name: &str) -> (r: Result<Vec<Referencing>>)
        ensures
            r is Ok,
    {
        proof { use_type_invariant(self); }
        let name = table_name.to_owned();
        let mut v: Vec<Referencing> = Vec::new();
        let mut i: usize = 0;
        while i < self.tables.len()
            invariant
                i <= self.tables@.len(),
                names_unique(self.tables@, table_key()),
                name@ == table_name@,
                forall|m: int| 0 <= m < v@.len() ==> refers_to(self.schemas(), table_name@, #[trigger] v@[m]),
                forall|ti: int, fj: int| 0 <= ti < i && 0 <= fj < self.tables@[ti].schema.foreign_keys@.len()
                    && (#[trigger] self.tables@[ti].schema.foreign_keys@[fj]).referenced_table_name@ == table_name@
                    ==> lists_referencing(v@, self.tables@[ti].schema.table_name@, self.tables@[ti].schema.foreign_keys@[fj]),
            decreases self.tables@.len() - i,
        {
            proof { lemma_by_name_at(self.tables@, table_key(), table_schema(), i as int); }
            let schema = &self.tables[i].schema;
            let mut j: usize = 0;
            while j < schema.foreign_keys.len()
                invariant
                    i < self.tables@.len(),
                    j <= schema.foreign_keys@.len(),
                    *schema == self.tables@[i as int].schema,
                    name@ == table_name@,
                    self.schemas().contains_key(schema.table_name@),
                    self.schemas()[schema.table_name@] == schema@,
                    forall|m: int| 0 <= m < v@.len() ==> refers_to(self.schemas(), table_name@, #[trigger] v@[m]),
                    forall|ti: int, fj: int| 0 <= ti < i && 0 <= fj < self.tables@[ti].schema.foreign_keys@.len()
                        && (#[trigger] self.tables@[ti].schema.foreign_keys@[fj]).referenced_table_name@ == table_name@
                        ==> lists_referencing(v@, self.tables@[ti].schema.table_name@, self.tables@[ti].schema.foreign_keys@[fj]),
                    forall|fj: int| 0 <= fj < j
                        && (#[trigger] schema.foreign_keys@[fj]).referenced_table_name@ == table_name@
                        ==> lists_referencing(v@, schema.table_name@, schema.foreign_keys@[fj]),
                decreases schema.foreign_keys@.len() - j,
            {
                let fk = &schema.foreign_keys[j];
                if fk.referenced_table_name == name {
                    let r = Referencing { table_name: schema.table_name.clone(), foreign_key: copy_foreign_key(fk) };
                    assert(schema@.foreign_keys[j as int] == r.foreign_key);
                    assert(schema@.foreign_keys.contains(r.foreign_key));
                    let ghost prev = v@;
                    v.push(r);
                    proof {
                        assert forall|k: Seq<char>, f: ForeignKey| #[trigger] lists_referencing(prev, k, f) implies lists_referencing(v@, k, f) by {
                            let m = choose|m: int| 0 <= m < prev.len() && (#[trigger] prev[m]).table_name@ == k && prev[m].foreign_key == f;
                            assert(v@[m] == prev[m]);
                        }
                        assert(v@[prev.len() as int] == r);
                        assert(lists_referencing(v@, schema.table_name@, schema.foreign_keys@[j as int]));
                    }
                }
                j = j + 1;
            }
            i = i + 1;
        }
        proof {
            let schemas = self.schemas();
            assert forall|k: Seq<char>, fk: ForeignKey| schemas.contains_key(k) && #[trigger] schemas[k].foreign_keys.contains(fk)
                && fk.referenced_table_name@ == table_name@ implies lists_referencing(v@, k, fk) by {
                let ti = choose|ti: int| 0 <= ti < self.tables@.len() && table_key()(#[trigger] self.tables@[ti]) == k;
                lemma_by_name_at(self.tables@, table_key(), table_schema(), ti);
                let fj = choose|fj: int| 0 <= fj < schemas[k].foreign_keys.len() && schemas[k].foreign_keys[fj] == fk;
                assert(self.tables@[ti].schema.foreign_keys@[fj] == fk);
            }
        }
        Ok(v)
    }
}

impl MemoryStorage {
    /// Puts back the table `t` that was taken out of `tables` at `i`, and `tables` into the storage.
    fn put_back(&mut self, tables: Vec<Table>, i: usize, t: Table, Ghost(before): Ghost<Seq<Table>>)
        requires
            old(self).tables@.len() == 0,
            names_unique(old(self).functions@, function_key()),
            old(self).next_id >= 1,
            names_unique(before, table_key()),
            i < before.len(),
            tables@ == before.remove(i as int),
            t.schema.table_name@ == before[i as int].schema.table_name@,
        ensures
            final(self).tables@ == before.update(i as int, t),
            final(self).functions == old(self).functions,
            final(self).next_id == old(self).next_id,
            names_unique(before.update(i as int, t), table_key()),
    {
        let mut tables = tables;
        proof {
            lemma_by_name_update(before, table_key(), table_schema(), i as int, t);
            assert(before.remove(i as int).insert(i as int, t) =~= before.update(i as int, t));
        }
        tables.insert(i, t);
        self.tables = tables;
    }
}

/// Replacing the table under `k` by one of the same name and schema leaves the schemas as
/// they were and the scans of other tables too; the scan of `k` is that of the new table.
proof fn lemma_table_replaced(before: Seq<Table>, i: int, t: Table)
    requires
        names_unique(before, table_key()),
        0 <= i < before.len(),
        t.schema.table_name@ == before[i].schema.table_name@,
    ensures
        names_unique(before.update(i, t), table_key()),
        by_name(before.update(i, t), table_key(), table_schema())
            == by_name(before, table_key(), table_schema()).insert(t.schema.table_name@, t.schema@),
        by_name(before.update(i, t), table_key(), table_scan())
            == by_name(before, table_key(), table_scan()).insert(t.schema.table_name@, table_scan()(t)),
        by_name(before, table_key(), table_schema()).contains_key(t.schema.table_name@),
        by_name(before, table_key(), table_schema())[t.schema.table_name@] == before[i].schema@,
{
    lemma_by_name_update(before, table_key(), table_schema(), i, t);
    lemma_by_name_update(before, table_key(), table_scan(), i, t);
    lemma_by_name_at(before, table_key(), table_schema(), i);
}

impl StoreMut for MemoryStorage {
    fn insert_schema(&mut self, schema: &Schema) -> (r: Result<()>)
        ensures
            r is Ok,
            final(self).functions() == old(self).functions(),
            final(self).keys_left() == old(self).keys_left(),
    {
        proof { use_type_invariant(&*self); }
        let name = schema.table_name.clone();
        let mut tables: Vec<Table> = Vec::new();
        std::mem::swap(&mut tables, &mut self.tables);
        let ghost before = tables@;
        match find_table(&tables, &name) {
            Some(i) => {
                let t = tables.remove(i);
                let new_t = Table { schema: copy_schema(schema), rows: t.rows };
                proof {
                    lemma_table_replaced(before, i as int, new_t);
                    lemma_by_name_at(before, table_key(), table_scan(), i as int);
                    assert(table_scan()(new_t) == table_scan()(before[i as int]));
                }
                self.put_back(tables, i, new_t, Ghost(before));
                proof {
                    let scans = by_name(before, table_key(), table_scan());
                    assert(scans.insert(name@, table_scan()(new_t)) =~= scans);
                }
            },
            None => {
                let new_t = Table { schema: copy_schema(schema), rows: Vec::new() };
                proof {
                    lemma_by_name_push(before, table_key(), table_schema(), new_t);
                    lemma_by_name_push(before, table_key(), table_scan(), new_t);
                    assert(table_scan()(new_t) =~= Seq::<Result<(Key, Seq<Value>)>>::empty());
                }
                tables.push(new_t);
                self.tables = tables;
            },
        }
        Ok(())
    }

    fn delete_schema(&mut self, table_name: &str) -> (r: Result<()>)
        ensures
            r is Ok,
            final(self).functions() == old(self).functions(),
            final(self).keys_left() == old(self).keys_left(),
    {
        proof { use_type_invariant(&*self); }
        let name = table_name.to_owned();
        let mut tables: Vec<Table> = Vec::new();
        std::mem::swap(&mut tables, &mut self.tables);
        let ghost before = tables@;
        match find_table(&tables, &name) {
            Some(i) => {
                proof {
                    lemma_by_name_remove(before, table_key(), table_schema(), i as int);
                    lemma_by_name_remove(before, table_key(), table_scan(), i as int);
                }
                tables.remove(i);
                self.tables = tables;
            },
            None => {
                self.tables = tables;
                proof {
                    assert(by_name(before, table_key(), table_schema()) =~= by_name(before, table_key(), table_schema()).remove(name@));
                }
            },
        }
        Ok(())
    }

    fn append_data(&mut self, table_name: &str, rows: Vec<DataRow>) -> (r: Result<()>)
        ensures
            r is Ok <==> old(self).schemas().contains_key(table_name@) && rows.len() <= old(self).keys_left(),
            r is Ok ==> final(self).keys_left() == old(self).keys_left() - rows.len(),
            r is Err ==> *final(self) == *old(self),
            final(self).functions() == old(self).functions(),
    {
        proof { use_type_invariant(&*self); }
        let name = table_name.to_owned();
        let i = match find_table(&self.tables, &name) {
            Some(i) => i,
            None => {
                return Err(unsupported("[MemoryStorage] table not found"));
            },
        };
        assert(self.schemas().contains_key(table_name@)) by {
            assert(table_key()(self.tables@[i as int]) == table_name@);
        }
        if rows.len() as u64 > (i64::MAX - self.next_id) as u64 {
            return Err(unsupported("[MemoryStorage] keys are exhausted"));
        }
        let ghost start_id = self.next_id;
        let mut tables: Vec<Table> = Vec::new();
        std::mem::swap(&mut tables, &mut self.tables);
        let ghost before = tables@;
        let mut t = tables.remove(i);
        let ghost old_rows = t.rows@;
        let mut j: usize = 0;
        while j < rows.len()
            invariant
                j <= rows@.len(),
                self.tables@.len() == 0,
                self.functions == old(self).functions,
                names_unique(self.functions@, function_key()),
                i < before.len(),
                tables@ == before.remove(i as int),
                names_unique(before, table_key()),
                t.schema == before[i as int].schema,
                old_rows == before[i as int].rows@,
                t.rows@.len() == old_rows.len() + j,
                t.rows@.subrange(0, old_rows.len() as int) == old_rows,
                forall|m: int| 0 <= m < j ==> (#[trigger] t.rows@[old_rows.len() + m]).1@ == rows@[m]@,
                self.next_id == start_id + j,
                start_id >= 1,
                start_id + rows@.len() <= i64::MAX,
            decreases rows@.len() - j,
        {
            let key = Key::I64(self.next_id);
            self.next_id = self.next_id + 1;
            let ghost prev = t.rows@;
            t.rows.push((key, copy_values(rows[j].as_slice())));
            proof {
                assert(t.rows@.subrange(0, old_rows.len() as int) =~= prev.subrange(0, old_rows.len() as int));
                assert forall|m: int| 0 <= m < j + 1 implies (#[trigger] t.rows@[old_rows.len() + m]).1@ == rows@[m]@ by {
                    if m < j {
                        assert(t.rows@[old_rows.len() + m] == prev[old_rows.len() + m]);
                    }
                }
            }
            j = j + 1;
        }
        proof {
            lemma_table_replaced(before, i as int, t);
            lemma_by_name_at(before, table_key(), table_scan(), i as int);
        }
        self.put_back(tables, i, t, Ghost(before));
        proof {
            let schemas = by_name(before, table_key(), table_schema());
            assert(schemas.insert(name@, t.schema@) =~= schemas);
            let scan = table_scan()(t);
            let old_scan = table_scan()(before[i as int]);
            assert(scan.subrange(0, old_scan.len() as int) =~= old_scan) by {
                assert forall|m: int| 0 <= m < old_scan.len() implies scan[m] == old_scan[m] by {
                    assert(t.rows@[m] == t.rows@.subrange(0, old_rows.len() as int)[m]);
                }
            }
            assert forall|m: int| 0 <= m < rows@.len() implies has_values(#[trigger] scan[old_scan.len() + m], rows@[m]@) by {
                assert(t.rows@[old_rows.len() + m].1@ == rows@[m]@);
            }
        }
        Ok(())
    }

    fn insert_data(&mut self, table_name: &str, rows: Vec<(Key, DataRow)>) -> (r: Result<()>)
        ensures
            r is Ok <==> old(self).schemas().contains_key(table_name@),
            r is Err ==> *final(self) == *old(self),
            final(self).functions() == old(self).functions(),
            final(self).keys_left() == old(self).keys_left(),
    {
        proof { use_type_invariant(&*self); }
        let name = table_name.to_owned();
        let mut tables: Vec<Table> = Vec::new();
        std::mem::swap(&mut tables, &mut self.tables);
        let ghost before = tables@;
        let i = match find_table(&tables, &name) {
            Some(i) => i,
            None => {
                self.tables = tables;
                return Err(unsupported("[MemoryStorage] table not found"));
            },
        };
        let mut t = tables.remove(i);
        let mut j: usize = 0;
        while j < rows.len()
            invariant
                j <= rows@.len(),
                t.schema == before[i as int].schema,
                forall|m: int| 0 <= m < j && #[trigger] last_before(rows@, m, j as int)
                    ==> stored_row(t.rows@, rows@[m].0, rows@[m].1@),
            decreases rows@.len() - j,
        {
            let key = &rows[j].0;
            let mut k: usize = 0;
            let mut found: Option<usize> = None;
            while k < t.rows.len()
                invariant
                    k <= t.rows@.len(),
                    match found {
                        Some(f) => f < k && same_key(t.rows@[f as int].0, *key),
                        None => forall|w: int| 0 <= w < k ==> !same_key(#[trigger] t.rows@[w].0, *key),
                    },
                decreases t.rows@.len() - k,
            {
                if found.is_none() && keys_equal(&t.rows[k].0, key) {
                    found = Some(k);
                }
                k = k + 1;
            }
            let entry = (copy_key(key), copy_values(rows[j].1.as_slice()));
            let ghost prev = t.rows@;
            match found {
                Some(f) => {
                    t.rows.set(f, entry);
                    proof {
                        assert forall|m: int| 0 <= m < j + 1 && #[trigger] last_before(rows@, m, j + 1)
                            implies stored_row(t.rows@, rows@[m].0, rows@[m].1@) by {
                            if m == j {
                                assert(same_key(t.rows@[f as int].0, rows@[m].0));
                                assert(t.rows@[f as int].1@ == rows@[m].1@);
                            } else {
                                assert(last_before(rows@, m, j as int));
                                assert(!same_key(rows@[j as int].0, rows@[m].0));
                                let w = choose|w: int| 0 <= w < prev.len() && same_key(#[trigger] prev[w].0, rows@[m].0)
                                    && prev[w].1@ == rows@[m].1@;
                                assert(!same_key(rows@[j as int].0, rows@[m].0));
                                assert(w != f);
                                assert(t.rows@[w] == prev[w]);
                            }
                        }
                    }
                },
                None => {
                    t.rows.push(entry);
                    proof {
                        assert forall|m: int| 0 <= m < j + 1 && #[trigger] last_before(rows@, m, j + 1)
                            implies stored_row(t.rows@, rows@[m].0, rows@[m].1@) by {
                            if m == j {
                                assert(same_key(t.rows@[prev.len() as int].0, rows@[m].0));
                                assert(t.rows@[prev.len() as int].1@ == rows@[m].1@);
                            } else {
                                assert(last_before(rows@, m, j as int));
                                assert(!same_key(rows@[j as int].0, rows@[m].0));
                                let w = choose|w: int| 0 <= w < prev.len() && same_key(#[trigger] prev[w].0, rows@[m].0)
                                    && prev[w].1@ == rows@[m].1@;
                                assert(t.rows@[w] == prev[w]);
                            }
                        }
                    }
                },
            }
            j = j + 1;
        }
        proof {
            lemma_table_replaced(before, i as int, t);
        }
        self.put_back(tables, i, t, Ghost(before));
        proof {
            let schemas = by_name(before, table_key(), table_schema());
            assert(schemas.insert(name@, t.schema@) =~= schemas);
            let scan = table_scan()(t);
            assert(self.scanned(table_name@) == scan);
            assert forall|m: int| 0 <= m < rows@.len() && last_with_key(rows@, m)
                implies holds_row(self.scanned(table_name@), (#[trigger] rows@[m]).0, rows@[m].1@) by {
                assert(last_before(rows@, m, rows@.len() as int));
                let w = choose|w: int| 0 <= w < t.rows@.len() && same_key(#[trigger] t.rows@[w].0, rows@[m].0)
                    && t.rows@[w].1@ == rows@[m].1@;
                assert(scan[w] == row_item(t.rows@[w]));
                assert(is_row(scan[w], rows@[m].0, rows@[m].1@));
            }
        }
        Ok(())
    }

    fn delete_data(&mut self, table_name: &str, keys: Vec<Key>) -> (r: Result<()>)
        ensures
            r is Ok <==> old(self).schemas().contains_key(table_name@),
            r is Err ==> *final(self) == *old(self),
            final(self).functions() == old(self).functions(),
            final(self).keys_left() == old(self).keys_left(),
    {
        proof { use_type_invariant(&*self); }
        let name = table_name.to_owned();
        let mut tables: Vec<Table> = Vec::new();
        std::mem::swap(&mut tables, &mut self.tables);
        let ghost before = tables@;
        let i = match find_table(&tables, &name) {
            Some(i) => i,
            None => {
                self.tables = tables;
                return Err(unsupported("[MemoryStorage] table not found"));
            },
        };
        let t = tables.remove(i);
        let ghost old_scan = table_scan()(t);
        let mut kept: Vec<(Key, DataRow)> = Vec::new();
        let mut j: usize = 0;
        while j < t.rows.len()
            invariant
                j <= t.rows@.len(),
                old_scan == table_scan()(t),
                forall|w: int| 0 <= w < kept@.len() ==> {
                    &&& !has_any_key(row_item(#[trigger] kept@[w]), keys@)
                    &&& old_scan.contains(row_item(kept@[w]))
                },
                forall|w: int| 0 <= w < j && !has_any_key(#[trigger] old_scan[w], keys@)
                    ==> kept@.map_values(|row: (Key, DataRow)| row_item(row)).contains(old_scan[w]),
            decreases t.rows@.len() - j,
        {
            let mut doomed = false;
            let mut k: usize = 0;
            while k < keys.len()
                invariant
                    k <= keys@.len(),
                    j < t.rows@.len(),
                    doomed <==> exists|x: int| 0 <= x < k && same_key(t.rows@[j as int].0, #[trigger] keys@[x]),
                decreases keys@.len() - k,
            {
                if keys_equal(&t.rows[j].0, &keys[k]) {
                    doomed = true;
                }
                k = k + 1;
            }
            assert(old_scan[j as int] == row_item(t.rows@[j as int]));
            assert(has_any_key(old_scan[j as int], keys@) <==> doomed) by {
                if has_any_key(old_scan[j as int], keys@) {
                    let x = choose|x: int| 0 <= x < keys@.len() && has_key(old_scan[j as int], #[trigger] keys@[x]);
                    assert(same_key(t.rows@[j as int].0, keys@[x]));
                }
                if doomed {
                    let x = choose|x: int| 0 <= x < keys@.len() && same_key(t.rows@[j as int].0, #[trigger] keys@[x]);
                    assert(has_key(old_scan[j as int], keys@[x]));
                }
            }
            let ghost prev = kept@;
            if !doomed {
                let entry = (copy_key(&t.rows[j].0), copy_values(t.rows[j].1.as_slice()));
                assert(row_item(entry) == old_scan[j as int]);
                kept.push(entry);
                proof {
                    assert(kept@.map_values(|row: (Key, DataRow)| row_item(row))
                        =~= prev.map_values(|row: (Key, DataRow)| row_item(row)).push(old_scan[j as int]));
                    assert forall|w: int| 0 <= w < kept@.len() implies {
                        &&& !has_any_key(row_item(#[trigger] kept@[w]), keys@)
                        &&& old_scan.contains(row_item(kept@[w]))
                    } by {
                        if w < prev.len() {
                            assert(kept@[w] == prev[w]);
                        } else {
                            assert(old_scan[j as int] == row_item(kept@[w]));
                        }
                    }
                    assert forall|w: int| 0 <= w < j + 1 && !has_any_key(#[trigger] old_scan[w], keys@)
                        implies kept@.map_values(|row: (Key, DataRow)| row_item(row)).contains(old_scan[w]) by {
                        if w < j {
                            let prev_scan = prev.map_values(|row: (Key, DataRow)| row_item(row));
                            let x = choose|x: int| 0 <= x < prev_scan.len() && #[trigger] prev_scan[x] == old_scan[w];
                            assert(kept@.map_values(|row: (Key, DataRow)| row_item(row))[x] == old_scan[w]);
                        } else {
                            assert(kept@.map_values(|row: (Key, DataRow)| row_item(row))[prev.len() as int] == old_scan[w]);
                        }
                    }
                }
            }
            j = j + 1;
        }
        let new_t = Table { schema: t.schema, rows: kept };
        proof {
            lemma_table_replaced(before, i as int, new_t);
            lemma_by_name_at(before, table_key(), table_scan(), i as int);
        }
        self.put_back(tables, i, new_t, Ghost(before));
        proof {
            let schemas = by_name(before, table_key(), table_schema());
            assert(schemas.insert(name@, new_t.schema@) =~= schemas);
            let scan = table_scan()(new_t);
            assert(self.scanned(table_name@) == scan);
            assert(old_scan == old(self).scanned(table_name@));
            assert forall|w: int| 0 <= w < scan.len() implies {
                &&& !has_any_key(#[trigger] scan[w], keys@)
                &&& old_scan.contains(scan[w])
            } by {
                assert(scan[w] == row_item(new_t.rows@[w]));
            }
            assert(scan == new_t.rows@.map_values(|row: (Key, DataRow)| row_item(row)));
        }
        Ok(())
    }
}

impl Default for MemoryStorage {
    fn default() -> (s: Self)
        ensures
            s.schemas() == Map::<Seq<char>, SchemaView>::empty(),
            s.functions() == Map::<Seq<char>, FunctionView>::empty(),
            forall|t: Seq<char>| #[trigger] s.scanned(t).len() == 0,
    {
        MemoryStorage::new()
    }
}

impl CustomFunction for MemoryStorage {
    closed spec fn functions(&self) -> Map<Seq<char>, FunctionView> {
        by_name(self.functions@, function_key(), function_view())
    }

    open spec fn fetch_function_fails_with(&self, func_name: Seq<char>, error: Error) -> bool {
        false
    }

    fn fetch_function<'a>(&'a self, func_name: &str) -> (r: Result<Option<&'a Function>>)
        ensures
            r is Ok,
    {
        proof { use_type_invariant(self); }
        let name = func_name.to_owned();
        match self.find_function(&name) {
            Some(i) => {
                proof { lemma_by_name_at(self.functions@, function_key(), function_view(), i as int); }
                Ok(Some(&self.functions[i]))
            },
            None => Ok(None),
        }
    }

    fn fetch_all_functions<'a>(&'a self) -> (r: Result<Vec<&'a Function>>)
        ensures
            r is Ok,
    {
        proof { use_type_invariant(self); }
        let mut v: Vec<&'a Function> = Vec::new();
        let mut i: usize = 0;
        while i < self.functions.len()
            invariant
                i <= self.functions@.len(),
                v@.len() == i,
                names_unique(self.functions@, function_key()),
                forall|j: int| 0 <= j < i ==> *(#[trigger] v@[j]) == self.functions@[j],
            decreases self.functions@.len() - i,
        {
            v.push(&self.functions[i]);
            i = i + 1;
        }
        proof {
            assert forall|j: int| 0 <= j < v@.len() implies {
                &&& self.functions().contains_key(#[trigger] v@[j]@.func_name)
                &&& self.functions()[v@[j]@.func_name] == v@[j]@
            } by {
                lemma_by_name_at(self.functions@, function_key(), function_view(), j);
            }
            assert forall|k: Seq<char>| #[trigger] self.functions().contains_key(k) implies exists|j: int| 0 <= j < v@.len() && v@[j]@.func_name == k by {
                let j = choose|j: int| 0 <= j < self.functions@.len() && function_key()(#[trigger] self.functions@[j]) == k;
                assert(v@[j]@.func_name == k);
            }
        }
        Ok(v)
    }
}

impl CustomFunctionMut for MemoryStorage {
    open spec fn insert_function_fails_with(&self, func: FunctionView, error: Error) -> bool {
        false
    }

    open spec fn delete_function_fails_with(&self, func_name: Seq<char>, error: Error) -> bool {
        false
    }
    fn insert_function(&mut self, func: Function) -> (r: Result<()>)
        ensures
            r is Ok,
            final(self).schemas() == old(self).schemas(),
            forall|t: Seq<char>| #[trigger] final(self).scanned(t) == old(self).scanned(t),
            final(self).keys_left() == old(self).keys_left(),
    {
        proof { use_type_invariant(&*self); }
        let name = func.func_name.clone();
        match self.find_function(&name) {
            Some(i) => {
                proof { lemma_by_name_update(self.functions@, function_key(), function_view(), i as int, func); }
                let mut functions: Vec<Function> = Vec::new();
                std::mem::swap(&mut functions, &mut self.functions);
                functions.set(i, func);
                self.functions = functions;
            },
            None => {
                proof { lemma_by_name_push(self.functions@, function_key(), function_view(), func); }
                let mut functions: Vec<Function> = Vec::new();
                std::mem::swap(&mut functions, &mut self.functions);
                functions.push(func);
                self.functions = functions;
            },
        }
        Ok(())
    }

    fn delete_function(&mut self, func_name: &str) -> (r: Result<()>)
        ensures
            r is Ok,
            final(self).schemas() == old(self).schemas(),
            forall|t: Seq<char>| #[trigger] final(self).scanned(t) == old(self).scanned(t),
            final(self).keys_left() == old(self).keys_left(),
    {
        proof { use_type_invariant(&*self); }
        let name = func_name.to_owned();
        match self.find_function(&name) {
            Some(i) => {
                proof { lemma_by_name_remove(self.functions@, function_key(), function_view(), i as int); }
                let mut functions: Vec<Function> = Vec::new();
                std::mem::swap(&mut functions, &mut self.functions);
                functions.remove(i);
                self.functions = functions;
            },
            None => {
                assert(self.functions() =~= self.functions().remove(func_name@));
            },
        }
        Ok(())
    }
}

/// No call on the functions of a memory storage fails.
pub proof fn lemma_memory_function_calls_never_fail()
    ensures
        function_calls_never_fail::<MemoryStorage>(),
{
}

impl Index for MemoryStorage {}

impl IndexMut for MemoryStorage {}

impl AlterTable for MemoryStorage {}

impl Metadata for MemoryStorage {}

/// A memory storage has no transactions: it runs in autocommit mode, and refuses to begin
/// a transaction that is not.
impl Transaction for MemoryStorage {
    open spec fn begin_fails_with(&self, autocommit: bool, error: Error) -> bool {
        !autocommit && begin_unsupported(error)
    }

    open spec fn rollback_fails_with(&self, error: Error) -> bool {
        false
    }

    open spec fn commit_fails_with(&self, error: Error) -> bool {
        false
    }

    fn begin(&mut self, autocommit: bool) -> (r: Result<bool>)
        ensures
            autocommit ==> r == Ok::<bool, Error>(false),
            !autocommit ==> (r matches Err(e) && begin_unsupported(e)),
            *final(self) == *old(self),
    {
        if autocommit {
            Ok(false)
        } else {
            let e = unsupported("[Storage] Transaction::begin is not supported");
            proof {
                reveal_strlit("[Storage] Transaction::begin is not supported");
            }
            assert(self.begin_fails_with(autocommit, e));
            Err(e)
        }
    }

    fn rollback(&mut self) -> (r: Result<()>)
        ensures
            r == Ok::<(), Error>(()),
            *final(self) == *old(self),
    {
        Ok(())
    }

    fn commit(&mut self) -> (r: Result<()>)
        ensures
            r == Ok::<(), Error>(()),
            *final(self) == *old(self),
    {
        Ok(())
    }
}

impl Planner for MemoryStorage {}

} // verus!
