use gluesql_core::data::{DataType, Expr, OperateFunctionArg, Value};
use gluesql_core::error::{AlterError, Error};
use gluesql_core::executor::alter::{
    delete_function, ensure_found, ensure_replaceable, insert_function, validate_arg_names, validate_default_args,
};
use gluesql_core::memory::MemoryStorage;
use gluesql_core::store::CustomFunction;

fn arg(name: &str, default: Option<i64>) -> OperateFunctionArg {
    OperateFunctionArg {
        name: name.to_owned(),
        data_type: DataType::Int,
        default: default.map(|n| Expr::Literal(Value::I64(n))),
    }
}

fn body() -> Expr {
    Expr::Identifier("x".to_owned())
}

#[test]
fn validate_arg_names_reports_the_first_repeated_name() {
    assert_eq!(validate_arg_names(&[arg("x", None), arg("y", None)]), Ok(()));
    assert_eq!(validate_arg_names(&[]), Ok(()));
    assert_eq!(
        validate_arg_names(&[arg("a", None), arg("b", None), arg("b", None), arg("a", None)]),
        Err(Error::Alter(AlterError::DuplicateArgName("b".to_owned())))
    );
    assert_eq!(
        validate_arg_names(&[arg("a", None), arg("b", None), arg("a", None), arg("b", None)]),
        Err(Error::Alter(AlterError::DuplicateArgName("a".to_owned())))
    );
}

#[test]
fn validate_default_args_refuses_a_plain_argument_after_a_default() {
    assert_eq!(validate_default_args(&[arg("x", None), arg("y", Some(1))]), Ok(()));
    assert_eq!(validate_default_args(&[arg("x", Some(1)), arg("y", Some(2))]), Ok(()));
    assert_eq!(
        validate_default_args(&[arg("x", Some(1)), arg("y", None)]),
        Err(Error::Alter(AlterError::NonDefaultArgumentFollowsDefaultArgument))
    );
}

#[test]
fn ensure_replaceable_decides_on_the_existing_function() {
    let mut storage = MemoryStorage::new();
    insert_function(&mut storage, "f", &[], false, &body()).unwrap();
    let existing = storage.fetch_function("f").unwrap();
    assert_eq!(
        ensure_replaceable("f", existing, false),
        Err(Error::Alter(AlterError::FunctionAlreadyExists("f".to_owned())))
    );
    assert_eq!(ensure_replaceable("f", existing, true), Ok(()));
    assert_eq!(ensure_replaceable("f", None, false), Ok(()));
}

#[test]
fn insert_function_stores_the_function() {
    let mut storage = MemoryStorage::new();
    let args = [arg("x", None), arg("y", Some(3))];
    assert_eq!(insert_function(&mut storage, "add", &args, false, &body()), Ok(()));
    let stored = storage.fetch_function("add").unwrap().unwrap();
    assert_eq!(stored.func_name, "add");
    assert_eq!(stored.args, vec![arg("x", None), arg("y", Some(3))]);
    assert_eq!(stored.body, body());
}

#[test]
fn insert_function_refuses_an_existing_name_without_or_replace() {
    let mut storage = MemoryStorage::new();
    insert_function(&mut storage, "f", &[arg("x", None)], false, &body()).unwrap();
    assert_eq!(
        insert_function(&mut storage, "f", &[], false, &Expr::Literal(Value::I64(1))),
        Err(Error::Alter(AlterError::FunctionAlreadyExists("f".to_owned())))
    );
    assert_eq!(storage.fetch_function("f").unwrap().unwrap().args.len(), 1);

    assert_eq!(insert_function(&mut storage, "f", &[], true, &Expr::Literal(Value::I64(1))), Ok(()));
    let replaced = storage.fetch_function("f").unwrap().unwrap();
    assert!(replaced.args.is_empty());
    assert_eq!(replaced.body, Expr::Literal(Value::I64(1)));
    assert_eq!(storage.fetch_all_functions().unwrap().len(), 1);
}

#[test]
fn insert_function_validates_before_touching_the_storage() {
    let mut storage = MemoryStorage::new();
    assert_eq!(
        insert_function(&mut storage, "f", &[arg("x", None), arg("x", None)], false, &body()),
        Err(Error::Alter(AlterError::DuplicateArgName("x".to_owned())))
    );
    assert_eq!(
        insert_function(&mut storage, "f", &[arg("x", Some(1)), arg("y", None)], false, &body()),
        Err(Error::Alter(AlterError::NonDefaultArgumentFollowsDefaultArgument))
    );
    assert_eq!(storage.fetch_function("f").unwrap(), None);
}

#[test]
fn delete_function_drops_in_order_and_stops_at_a_missing_name() {
    let mut storage = MemoryStorage::new();
    insert_function(&mut storage, "f", &[], false, &body()).unwrap();
    insert_function(&mut storage, "g", &[], false, &body()).unwrap();
    assert_eq!(
        delete_function(&mut storage, &["f".to_owned(), "h".to_owned(), "g".to_owned()], false),
        Err(Error::Alter(AlterError::FunctionNotFound("h".to_owned())))
    );
    assert_eq!(storage.fetch_function("f").unwrap(), None);
    assert!(storage.fetch_function("g").unwrap().is_some());

    assert_eq!(delete_function(&mut storage, &["h".to_owned(), "g".to_owned()], true), Ok(()));
    assert_eq!(storage.fetch_function("g").unwrap(), None);
}

#[test]
fn delete_function_of_a_repeated_name_fails_the_second_time() {
    let mut storage = MemoryStorage::new();
    insert_function(&mut storage, "f", &[], false, &body()).unwrap();
    assert_eq!(
        delete_function(&mut storage, &["f".to_owned(), "f".to_owned()], false),
        Err(Error::Alter(AlterError::FunctionNotFound("f".to_owned())))
    );
    insert_function(&mut storage, "f", &[], false, &body()).unwrap();
    assert_eq!(delete_function(&mut storage, &["f".to_owned(), "f".to_owned()], true), Ok(()));
}

#[test]
fn create_then_drop_leaves_other_functions() {
    let mut storage = MemoryStorage::new();
    insert_function(&mut storage, "keep", &[], false, &body()).unwrap();
    insert_function(&mut storage, "tmp", &[], false, &body()).unwrap();
    assert_eq!(delete_function(&mut storage, &["tmp".to_owned()], false), Ok(()));
    let all = storage.fetch_all_functions().unwrap();
    assert_eq!(all.len(), 1);
    assert_eq!(all[0].func_name, "keep");
}

#[test]
fn ensure_found_decides_on_the_existing_function() {
    let mut storage = MemoryStorage::new();
    insert_function(&mut storage, "f", &[], false, &body()).unwrap();
    let existing = storage.fetch_function("f").unwrap();
    assert_eq!(ensure_found(&"f".to_owned(), existing, false), Ok(()));
    assert_eq!(
        ensure_found(&"g".to_owned(), None, false),
        Err(Error::Alter(AlterError::FunctionNotFound("g".to_owned())))
    );
    assert_eq!(ensure_found(&"g".to_owned(), None, true), Ok(()));
}

#[test]
fn delete_function_of_no_names_succeeds_and_keeps_the_functions() {
    let mut storage = MemoryStorage::new();
    insert_function(&mut storage, "f", &[], false, &body()).unwrap();
    assert_eq!(delete_function(&mut storage, &[], false), Ok(()));
    assert!(storage.fetch_function("f").unwrap().is_some());
    assert_eq!(storage.fetch_all_functions().unwrap().len(), 1);
}

#[test]
fn creating_an_existing_function_again_keeps_the_first() {
    let mut storage = MemoryStorage::default();
    assert_eq!(insert_function(&mut storage, "f", &[], false, &Expr::Identifier("x".to_owned())), Ok(()));
    assert_eq!(
        insert_function(&mut storage, "f", &[], false, &Expr::Identifier("y".to_owned())),
        Err(Error::Alter(AlterError::FunctionAlreadyExists("f".to_owned())))
    );
    let kept = storage.fetch_function("f").unwrap().unwrap();
    assert!(kept.args.is_empty());
    assert_eq!(kept.body, Expr::Identifier("x".to_owned()));
}

#[test]
fn dropping_a_repeated_name_deletes_it_before_failing() {
    let mut storage = MemoryStorage::default();
    insert_function(&mut storage, "f", &[], false, &Expr::Identifier("x".to_owned())).unwrap();
    insert_function(&mut storage, "later", &[], false, &body()).unwrap();
    assert_eq!(
        delete_function(&mut storage, &["f".to_owned(), "f".to_owned(), "later".to_owned()], false),
        Err(Error::Alter(AlterError::FunctionNotFound("f".to_owned())))
    );
    assert_eq!(storage.fetch_function("f").unwrap(), None);
    assert!(storage.fetch_function("later").unwrap().is_some());
}

#[test]
fn drop_if_exists_never_reports_a_missing_name() {
    let mut storage = MemoryStorage::default();
    insert_function(&mut storage, "a", &[], false, &body()).unwrap();
    insert_function(&mut storage, "keep", &[], false, &body()).unwrap();
    assert_eq!(
        delete_function(&mut storage, &["missing".to_owned(), "a".to_owned(), "a".to_owned()], true),
        Ok(())
    );
    assert_eq!(storage.fetch_function("a").unwrap(), None);
    assert!(storage.fetch_function("keep").unwrap().is_some());
}

#[test]
fn create_or_replace_twice_leaves_the_same_functions() {
    let mut storage = MemoryStorage::default();
    insert_function(&mut storage, "keep", &[], false, &body()).unwrap();
    let args = [arg("x", Some(2))];
    assert_eq!(insert_function(&mut storage, "f", &args, true, &body()), Ok(()));
    assert_eq!(insert_function(&mut storage, "f", &args, true, &body()), Ok(()));
    let all = storage.fetch_all_functions().unwrap();
    assert_eq!(all.len(), 2);
    let f = storage.fetch_function("f").unwrap().unwrap();
    assert_eq!(f.args, vec![arg("x", Some(2))]);
    assert_eq!(f.body, body());
}
