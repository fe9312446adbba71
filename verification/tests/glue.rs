use gluesql_core::data::{
    BinaryOperator, ColumnDef, DataType, Expr, OperateFunctionArg, Payload, Schema, Statement, StatementPlan, Value,
};
use gluesql_core::error::{AlterError, Error, FetchError, TranslateError};
use gluesql_core::glue::Glue;
use gluesql_core::memory::MemoryStorage;
use gluesql_core::store::{CustomFunction, StoreMut, Transaction};
use gluesql_core::translate::translate_with_params;

fn glue_with_items() -> Glue<MemoryStorage> {
    let mut storage = MemoryStorage::default();
    let schema = Schema {
        table_name: "items".to_owned(),
        column_defs: Some(vec![
            ColumnDef { name: "id".to_owned(), data_type: DataType::Int, nullable: false, default: None },
            ColumnDef { name: "category".to_owned(), data_type: DataType::Int, nullable: false, default: None },
        ]),
        foreign_keys: Vec::new(),
    };
    storage.insert_schema(&schema).unwrap();
    storage
        .append_data(
            "items",
            vec![
                vec![Value::I64(1), Value::I64(10)],
                vec![Value::I64(2), Value::I64(10)],
                vec![Value::I64(3), Value::I64(20)],
            ],
        )
        .unwrap();
    Glue::new(storage)
}

fn select_where(op: BinaryOperator, param: usize) -> Statement {
    Statement::Select {
        table_name: "items".to_owned(),
        selection: Some(Expr::BinaryOp {
            left: Box::new(Expr::Identifier("category".to_owned())),
            op,
            right: Box::new(Expr::Parameter(param)),
        }),
    }
}

#[test]
fn execute_selects_with_bound_parameters() {
    let mut glue = glue_with_items();
    let payloads = glue.execute_with_params(&[select_where(BinaryOperator::Eq, 1)], vec![Value::I64(10)]).unwrap();
    assert_eq!(
        payloads,
        vec![Payload::Select {
            labels: vec!["id".to_owned(), "category".to_owned()],
            rows: vec![vec![Value::I64(1), Value::I64(10)], vec![Value::I64(2), Value::I64(10)]],
        }]
    );
}

#[test]
fn execute_refuses_a_missing_parameter_before_running_anything() {
    let mut glue = glue_with_items();
    let create = Statement::CreateFunction {
        or_replace: false,
        name: "f".to_owned(),
        args: Vec::new(),
        return_: Expr::Literal(Value::I64(1)),
    };
    assert_eq!(
        glue.execute_with_params(&[create, select_where(BinaryOperator::Eq, 2)], vec![Value::I64(10)]),
        Err(Error::Translate(TranslateError::ParameterIndexOutOfRange(2)))
    );
    assert_eq!(glue.storage.fetch_function("f").unwrap(), None);
}

#[test]
fn execute_runs_in_order_and_stops_at_the_first_error() {
    let mut glue = glue_with_items();
    let create = |name: &str| Statement::CreateFunction {
        or_replace: false,
        name: name.to_owned(),
        args: vec![OperateFunctionArg { name: "x".to_owned(), data_type: DataType::Int, default: None }],
        return_: Expr::Identifier("x".to_owned()),
    };
    let statements = [
        create("f"),
        create("f"),
        create("g"),
    ];
    assert_eq!(
        glue.execute(&statements),
        Err(Error::Alter(AlterError::FunctionAlreadyExists("f".to_owned())))
    );
    assert!(glue.storage.fetch_function("f").unwrap().is_some());
    assert_eq!(glue.storage.fetch_function("g").unwrap(), None);
}

#[test]
fn execute_reports_each_payload() {
    let mut glue = glue_with_items();
    let statements = [
        Statement::StartTransaction,
        Statement::CreateFunction {
            or_replace: true,
            name: "f".to_owned(),
            args: Vec::new(),
            return_: Expr::Literal(Value::I64(1)),
        },
        Statement::DropFunction { if_exists: false, func_names: vec!["f".to_owned()] },
        Statement::Select { table_name: "items".to_owned(), selection: None },
    ];
    let payloads = glue.execute(&statements);
    assert_eq!(payloads, Err(Error::StorageMsg("[Storage] Transaction::begin is not supported".to_owned())));

    let payloads = glue.execute(&statements[1..]).unwrap();
    assert_eq!(payloads.len(), 3);
    assert_eq!(payloads[0], Payload::CreateFunction);
    assert_eq!(payloads[1], Payload::DropFunction);
    match &payloads[2] {
        Payload::Select { rows, .. } => assert_eq!(rows.len(), 3),
        other => panic!("unexpected payload {other:?}"),
    }
    assert_eq!(glue.execute(&[Statement::Commit, Statement::Rollback]).unwrap(), vec![Payload::Commit, Payload::Rollback]);
}

#[test]
fn select_of_a_missing_table_fails() {
    let mut glue = glue_with_items();
    let statement = Statement::Select { table_name: "nothing".to_owned(), selection: None };
    assert_eq!(
        glue.execute(&[statement]),
        Err(Error::Fetch(FetchError::TableNotFound("nothing".to_owned())))
    );
}

#[test]
fn plan_keeps_the_statements_of_a_storage_without_planner() {
    let mut glue = glue_with_items();
    let plans = glue.plan(&[Statement::Commit, Statement::Rollback]).unwrap();
    assert_eq!(
        plans,
        vec![StatementPlan { statement: Statement::Commit }, StatementPlan { statement: Statement::Rollback }]
    );
    let plans = glue.plan_with_params(&[select_where(BinaryOperator::Gt, 1)], vec![Value::I64(15)]).unwrap();
    assert_eq!(plans.len(), 1);
    assert_eq!(plans[0].statement, Statement::Select {
        table_name: "items".to_owned(),
        selection: Some(Expr::BinaryOp {
            left: Box::new(Expr::Identifier("category".to_owned())),
            op: BinaryOperator::Gt,
            right: Box::new(Expr::Literal(Value::I64(15))),
        }),
    });
    assert_eq!(
        glue.plan(&[select_where(BinaryOperator::Gt, 1)]),
        Err(Error::Translate(TranslateError::ParameterIndexOutOfRange(1)))
    );
}

#[test]
fn execute_stmt_runs_one_plan() {
    let mut glue = glue_with_items();
    let plan = StatementPlan { statement: Statement::Select { table_name: "items".to_owned(), selection: None } };
    match glue.execute_stmt(&plan).unwrap() {
        Payload::Select { labels, rows } => {
            assert_eq!(labels, vec!["id".to_owned(), "category".to_owned()]);
            assert_eq!(rows.len(), 3);
        },
        other => panic!("unexpected payload {other:?}"),
    }
}

#[test]
fn translate_binds_argument_defaults_and_body() {
    let statement = Statement::CreateFunction {
        or_replace: false,
        name: "f".to_owned(),
        args: vec![OperateFunctionArg { name: "x".to_owned(), data_type: DataType::Int, default: Some(Expr::Parameter(1)) }],
        return_: Expr::Not(Box::new(Expr::Parameter(2))),
    };
    let bound = translate_with_params(&statement, &[Value::I64(7), Value::Bool(true)]).unwrap();
    assert_eq!(
        bound,
        Statement::CreateFunction {
            or_replace: false,
            name: "f".to_owned(),
            args: vec![OperateFunctionArg {
                name: "x".to_owned(),
                data_type: DataType::Int,
                default: Some(Expr::Literal(Value::I64(7))),
            }],
            return_: Expr::Not(Box::new(Expr::Literal(Value::Bool(true)))),
        }
    );
    assert_eq!(
        translate_with_params(&statement, &[Value::I64(7)]),
        Err(Error::Translate(TranslateError::ParameterIndexOutOfRange(2)))
    );
    assert_eq!(
        translate_with_params(&statement, &[]),
        Err(Error::Translate(TranslateError::ParameterIndexOutOfRange(1)))
    );
}

#[test]
fn translate_leaves_statements_without_placeholders_unchanged() {
    let statement = Statement::Select {
        table_name: "items".to_owned(),
        selection: Some(Expr::IsNull(Box::new(Expr::Identifier("id".to_owned())))),
    };
    let expected = Statement::Select {
        table_name: "items".to_owned(),
        selection: Some(Expr::IsNull(Box::new(Expr::Identifier("id".to_owned())))),
    };
    assert_eq!(translate_with_params(&statement, &[]), Ok(expected));
    let drop = Statement::DropFunction { if_exists: true, func_names: vec!["a".to_owned(), "b".to_owned()] };
    assert_eq!(
        translate_with_params(&drop, &[Value::Null]),
        Ok(Statement::DropFunction { if_exists: true, func_names: vec!["a".to_owned(), "b".to_owned()] })
    );
}

#[test]
fn execute_of_no_statements_does_nothing() {
    let mut glue = glue_with_items();
    assert_eq!(glue.execute(&[]), Ok(Vec::new()));
    assert_eq!(glue.plan(&[]), Ok(Vec::new()));
    assert_eq!(glue.storage.fetch_function("f").unwrap(), None);
}

#[test]
fn plan_of_no_statements_is_empty() {
    let mut glue = glue_with_items();
    assert_eq!(glue.plan(&[]), Ok(Vec::new()));
    assert_eq!(glue.plan_with_params(&[], vec![Value::I64(1)]), Ok(Vec::new()));
}

#[test]
fn execute_stmt_of_dropping_no_functions_succeeds() {
    let mut glue = glue_with_items();
    let plan = StatementPlan { statement: Statement::DropFunction { if_exists: false, func_names: Vec::new() } };
    assert_eq!(glue.execute_stmt(&plan), Ok(Payload::DropFunction));
}

#[test]
fn start_transaction_asks_the_storage_to_begin_outside_autocommit() {
    let mut glue = glue_with_items();
    let begin = StatementPlan { statement: Statement::StartTransaction };
    assert_eq!(
        glue.execute_stmt(&begin),
        Err(Error::StorageMsg("[Storage] Transaction::begin is not supported".to_owned()))
    );
    assert_eq!(glue.execute_stmt(&StatementPlan { statement: Statement::Commit }), Ok(Payload::Commit));
    assert_eq!(glue.execute_stmt(&StatementPlan { statement: Statement::Rollback }), Ok(Payload::Rollback));
}

#[test]
fn execute_reports_the_binding_error_of_the_first_statement_and_runs_nothing() {
    let mut glue = glue_with_items();
    let drop = || Statement::DropFunction { if_exists: true, func_names: Vec::new() };
    assert_eq!(
        glue.execute_with_params(&[select_where(BinaryOperator::Gt, 2), drop()], vec![Value::I64(1)]),
        Err(Error::Translate(TranslateError::ParameterIndexOutOfRange(2)))
    );
    assert_eq!(
        glue.plan_with_params(&[drop(), select_where(BinaryOperator::Gt, 3)], vec![Value::I64(1)]),
        Err(Error::Translate(TranslateError::ParameterIndexOutOfRange(3)))
    );
}

#[test]
fn memory_storage_begins_only_in_autocommit() {
    let mut storage = MemoryStorage::default();
    assert_eq!(storage.begin(true), Ok(false));
    assert_eq!(
        storage.begin(false),
        Err(Error::StorageMsg("[Storage] Transaction::begin is not supported".to_owned()))
    );
    assert_eq!(storage.commit(), Ok(()));
    assert_eq!(storage.rollback(), Ok(()));
}
