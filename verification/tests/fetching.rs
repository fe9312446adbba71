use std::rc::Rc;

use gluesql_core::data::{BinaryOperator, ColumnDef, DataType, Expr, ForeignKey, Key, Row, Schema, Value};
use gluesql_core::error::{Error, EvaluateError, FetchError};
use gluesql_core::data::Payload;
use gluesql_core::executor::execute::select_payload;
use gluesql_core::executor::fetch::{check_expr, evaluate, fetch, fetch_columns, filter_rows, schema_columns, values_equal};
use gluesql_core::memory::MemoryStorage;
use gluesql_core::store::{Store, StoreMut};

fn column(name: &str, data_type: DataType) -> ColumnDef {
    ColumnDef { name: name.to_owned(), data_type, nullable: true, default: None }
}

fn items_storage() -> MemoryStorage {
    let mut storage = MemoryStorage::new();
    let schema = Schema {
        table_name: "items".to_owned(),
        column_defs: Some(vec![column("id", DataType::Int), column("name", DataType::Text)]),
        foreign_keys: Vec::new(),
    };
    storage.insert_schema(&schema).unwrap();
    storage
        .append_data(
            "items",
            vec![
                vec![Value::I64(1), Value::Str("apple".to_owned())],
                vec![Value::I64(2), Value::Str("banana".to_owned())],
                vec![Value::I64(3), Value::Null],
            ],
        )
        .unwrap();
    storage
}

fn binary(left: Expr, op: BinaryOperator, right: Expr) -> Expr {
    Expr::BinaryOp { left: Box::new(left), op, right: Box::new(right) }
}

fn ident(name: &str) -> Expr {
    Expr::Identifier(name.to_owned())
}

fn columns() -> Rc<Vec<String>> {
    Rc::new(vec!["id".to_owned(), "name".to_owned()])
}

fn ids(rows: Vec<Result<(Key, Row), Error>>) -> Vec<Value> {
    rows.into_iter().map(|r| r.unwrap().1.values[0].clone()).collect()
}

#[test]
fn fetch_columns_lists_the_column_names() {
    let storage = items_storage();
    assert_eq!(fetch_columns(&storage, "items"), Ok(vec!["id".to_owned(), "name".to_owned()]));
}

#[test]
fn fetch_columns_of_a_schemaless_table_is_the_document_column() {
    let mut storage = MemoryStorage::new();
    let schema = Schema { table_name: "documents".to_owned(), column_defs: None, foreign_keys: Vec::new() };
    storage.insert_schema(&schema).unwrap();
    assert_eq!(fetch_columns(&storage, "documents"), Ok(vec!["_doc".to_owned()]));
}

#[test]
fn fetch_columns_of_a_missing_table_is_table_not_found() {
    let storage = MemoryStorage::new();
    assert_eq!(
        fetch_columns(&storage, "nothing"),
        Err(Error::Fetch(FetchError::TableNotFound("nothing".to_owned())))
    );
}

#[test]
fn fetch_without_filter_yields_every_row_in_order() {
    let storage = items_storage();
    let rows: Vec<_> = fetch(&storage, "items", columns(), None).unwrap().collect();
    assert_eq!(rows.len(), 3);
    for row in &rows {
        let (_, row) = row.as_ref().unwrap();
        assert_eq!(*row.columns, vec!["id".to_owned(), "name".to_owned()]);
    }
    assert_eq!(ids(rows), vec![Value::I64(1), Value::I64(2), Value::I64(3)]);
}

#[test]
fn fetch_keeps_the_rows_for_which_the_filter_holds() {
    let storage = items_storage();
    let filter = binary(ident("id"), BinaryOperator::Gt, Expr::Literal(Value::I64(1)));
    let rows: Vec<_> = fetch(&storage, "items", columns(), Some(&filter)).unwrap().collect();
    assert_eq!(ids(rows), vec![Value::I64(2), Value::I64(3)]);

    let by_name = binary(ident("name"), BinaryOperator::Eq, Expr::Literal(Value::Str("apple".to_owned())));
    let rows: Vec<_> = fetch(&storage, "items", columns(), Some(&by_name)).unwrap().collect();
    assert_eq!(ids(rows), vec![Value::I64(1)]);
}

#[test]
fn fetch_treats_null_as_not_holding() {
    let storage = items_storage();
    let filter = binary(ident("name"), BinaryOperator::NotEq, Expr::Literal(Value::Str("apple".to_owned())));
    let rows: Vec<_> = fetch(&storage, "items", columns(), Some(&filter)).unwrap().collect();
    assert_eq!(ids(rows), vec![Value::I64(2)]);

    let is_null = Expr::IsNull(Box::new(ident("name")));
    let rows: Vec<_> = fetch(&storage, "items", columns(), Some(&is_null)).unwrap().collect();
    assert_eq!(ids(rows), vec![Value::I64(3)]);
}

#[test]
fn fetch_yields_filter_errors_in_place() {
    let storage = items_storage();
    let filter = ident("missing");
    let rows: Vec<_> = fetch(&storage, "items", columns(), Some(&filter)).unwrap().collect();
    assert_eq!(rows.len(), 3);
    for row in rows {
        assert_eq!(row.unwrap_err(), Error::Evaluate(EvaluateError::IdentifierNotFound("missing".to_owned())));
    }
}

#[test]
fn fetch_of_a_missing_table_yields_nothing() {
    let storage = MemoryStorage::new();
    let rows: Vec<_> = fetch(&storage, "nothing", columns(), None).unwrap().collect();
    assert!(rows.is_empty());
}

#[test]
fn evaluate_follows_three_valued_logic() {
    let row = Row { columns: columns(), values: vec![Value::I64(5), Value::Null] };
    let t = Expr::Literal(Value::Bool(true));
    let f = Expr::Literal(Value::Bool(false));
    let null = Expr::Literal(Value::Null);
    assert_eq!(evaluate(&binary(t, BinaryOperator::And, null), &row), Ok(Value::Null));
    let f2 = Expr::Literal(Value::Bool(false));
    let null2 = Expr::Literal(Value::Null);
    assert_eq!(evaluate(&binary(f, BinaryOperator::And, null2), &row), Ok(Value::Bool(false)));
    assert_eq!(evaluate(&binary(f2, BinaryOperator::Or, ident("name")), &row), Ok(Value::Null));
    assert_eq!(
        evaluate(&binary(ident("id"), BinaryOperator::Lt, Expr::Literal(Value::Str("x".to_owned()))), &row),
        Err(Error::Evaluate(EvaluateError::IncomparableValues))
    );
    assert_eq!(evaluate(&Expr::Parameter(1), &row), Err(Error::Evaluate(EvaluateError::UnboundParameter(1))));
    assert_eq!(evaluate(&Expr::Not(Box::new(ident("name"))), &row), Ok(Value::Null));
}

#[test]
fn check_expr_requires_a_boolean() {
    let row = Row { columns: columns(), values: vec![Value::I64(5), Value::Null] };
    assert_eq!(check_expr(&ident("id"), &row), Err(Error::Evaluate(EvaluateError::BooleanTypeRequired)));
    assert_eq!(check_expr(&ident("name"), &row), Ok(false));
    assert_eq!(check_expr(&Expr::Literal(Value::Bool(true)), &row), Ok(true));
}

#[test]
fn values_equal_compares_strings_by_characters() {
    assert!(values_equal(&Value::Str("a".to_owned()), &Value::Str("a".to_owned())));
    assert!(!values_equal(&Value::Str("a".to_owned()), &Value::I64(1)));
    assert!(values_equal(&Value::Null, &Value::Null));
}

#[test]
fn memory_storage_reads_back_what_was_written() {
    let mut storage = items_storage();
    let schema = storage.fetch_schema("items").unwrap().unwrap();
    assert_eq!(schema.table_name, "items");
    assert_eq!(storage.fetch_data("items", &Key::I64(2)).unwrap(), Some(vec![Value::I64(2), Value::Str("banana".to_owned())]));
    assert_eq!(storage.fetch_data("items", &Key::I64(9)).unwrap(), None);

    storage.insert_data("items", vec![(Key::I64(2), vec![Value::I64(20), Value::Null])]).unwrap();
    assert_eq!(storage.fetch_data("items", &Key::I64(2)).unwrap(), Some(vec![Value::I64(20), Value::Null]));
    storage.delete_data("items", vec![Key::I64(1)]).unwrap();
    assert_eq!(storage.fetch_data("items", &Key::I64(1)).unwrap(), None);
    assert_eq!(storage.scan_data("items").unwrap().count(), 2);

    storage.delete_schema("items").unwrap();
    assert_eq!(storage.fetch_schema("items").unwrap(), None);
    assert_eq!(storage.scan_data("items").unwrap().count(), 0);
    assert!(storage.append_data("items", vec![vec![Value::Null]]).is_err());
}

#[test]
fn memory_storage_lists_referencing_tables() {
    let mut storage = items_storage();
    let orders = Schema {
        table_name: "orders".to_owned(),
        column_defs: Some(vec![column("item_id", DataType::Int)]),
        foreign_keys: vec![ForeignKey {
            name: "fk_item".to_owned(),
            referencing_column_name: "item_id".to_owned(),
            referenced_table_name: "items".to_owned(),
            referenced_column_name: "id".to_owned(),
        }],
    };
    storage.insert_schema(&orders).unwrap();
    let referencings = storage.fetch_referencings("items").unwrap();
    assert_eq!(referencings.len(), 1);
    assert_eq!(referencings[0].table_name, "orders");
    assert_eq!(referencings[0].foreign_key.name, "fk_item");
    assert!(storage.fetch_referencings("orders").unwrap().is_empty());
    assert_eq!(storage.fetch_all_schemas().unwrap().len(), 2);
}

#[test]
fn schema_columns_decides_on_the_schema_found() {
    let schema = Schema {
        table_name: "t".to_owned(),
        column_defs: Some(vec![column("a", DataType::Boolean), column("b", DataType::Text)]),
        foreign_keys: Vec::new(),
    };
    assert_eq!(schema_columns("t", Some(schema)), Ok(vec!["a".to_owned(), "b".to_owned()]));
    assert_eq!(
        schema_columns("t", None),
        Err(Error::Fetch(FetchError::TableNotFound("t".to_owned())))
    );
}

#[test]
fn fetch_with_a_filter_that_always_holds_keeps_every_row() {
    let storage = items_storage();
    let always = Expr::Literal(Value::Bool(true));
    let filtered: Vec<_> = fetch(&storage, "items", columns(), Some(&always)).unwrap().collect();
    let unfiltered: Vec<_> = fetch(&storage, "items", columns(), None).unwrap().collect();
    assert_eq!(filtered, unfiltered);
}

#[test]
fn filter_rows_names_the_values_and_passes_errors_through() {
    let scanned = vec![
        Ok((Key::I64(1), vec![Value::I64(1), Value::Str("a".to_owned())])),
        Err(Error::StorageMsg("broken".to_owned())),
        Ok((Key::I64(2), vec![Value::I64(2), Value::Null])),
    ];
    let filter = Expr::IsNull(Box::new(ident("name")));
    let out: Vec<_> = filter_rows(scanned.into_iter(), columns(), Some(&filter)).collect();
    assert_eq!(out.len(), 2);
    assert_eq!(out[0], Err(Error::StorageMsg("broken".to_owned())));
    let (key, row) = out[1].clone().unwrap();
    assert_eq!(key, Key::I64(2));
    assert_eq!(row.values, vec![Value::I64(2), Value::Null]);
    assert_eq!(*row.columns, vec!["id".to_owned(), "name".to_owned()]);
}

#[test]
fn filter_rows_without_filter_keeps_every_row() {
    let scanned = vec![
        Ok((Key::I64(7), vec![Value::I64(7), Value::Bool(true)])),
        Ok((Key::Str("k".to_owned()), vec![Value::Null, Value::Null])),
    ];
    let out: Vec<_> = filter_rows(scanned.into_iter(), columns(), None).collect();
    assert_eq!(out.len(), 2);
    assert_eq!(out[0].clone().unwrap().0, Key::I64(7));
    assert_eq!(out[1].clone().unwrap().0, Key::Str("k".to_owned()));
}

#[test]
fn select_payload_collects_the_values_or_the_first_error() {
    let labels = vec!["id".to_owned(), "name".to_owned()];
    let row = |v: i64| Row { columns: columns(), values: vec![Value::I64(v), Value::Null] };
    let fetched = vec![Ok((Key::I64(1), row(1))), Ok((Key::I64(2), row(2)))];
    assert_eq!(
        select_payload(labels.clone(), fetched.into_iter()),
        Ok(Payload::Select {
            labels: labels.clone(),
            rows: vec![vec![Value::I64(1), Value::Null], vec![Value::I64(2), Value::Null]],
        })
    );
    let failing = vec![
        Ok((Key::I64(1), row(1))),
        Err(Error::StorageMsg("first".to_owned())),
        Err(Error::StorageMsg("second".to_owned())),
    ];
    assert_eq!(select_payload(labels, failing.into_iter()), Err(Error::StorageMsg("first".to_owned())));
}

#[test]
fn memory_storage_answers_reads_on_an_empty_storage() {
    let storage = MemoryStorage::new();
    assert_eq!(storage.fetch_schema("nothing"), Ok(None));
    assert_eq!(storage.fetch_all_schemas().map(|v| v.len()), Ok(0));
    assert_eq!(storage.fetch_data("nothing", &Key::I64(1)), Ok(None));
    assert_eq!(storage.scan_data("nothing").map(|rows| rows.count()), Ok(0));
    assert_eq!(storage.fetch_referencings("nothing").map(|v| v.len()), Ok(0));
}

#[test]
fn memory_storage_writes_to_a_missing_table_fail_and_change_nothing() {
    let mut storage = items_storage();
    assert!(storage.insert_data("nothing", vec![(Key::I64(1), vec![Value::Null])]).is_err());
    assert!(storage.delete_data("nothing", vec![Key::I64(1)]).is_err());
    assert!(storage.append_data("nothing", vec![vec![Value::Null]]).is_err());
    assert_eq!(storage.scan_data("items").unwrap().count(), 3);
    assert_eq!(storage.delete_schema("nothing"), Ok(()));
    assert_eq!(storage.fetch_all_schemas().unwrap().len(), 1);
}
