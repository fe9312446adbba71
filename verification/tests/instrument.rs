use gluesql_core::attribute::expand_tokens;
use gluesql_core::instrument::{
    expand, parse_mode, result_ok_type, Args, AttrArg, AttrError, CaptureMode, FieldSpec, GenericArg, IteratorPlan, MethodSig,
    ModeOption, OutputType,
};

fn option(key: &str, value: &str) -> AttrArg {
    AttrArg { key: Some(key.to_owned()), value: Some(value.to_owned()) }
}

fn result_type() -> OutputType {
    OutputType::Path { last_segment: "Result".to_owned(), args: Some(vec![GenericArg::Type]) }
}

fn method(name: &str, inputs: &[Option<&str>], output: OutputType) -> MethodSig {
    MethodSig {
        name: name.to_owned(),
        inputs: inputs.iter().map(|i| i.map(|s| s.to_owned())).collect(),
        output,
        trace_iterator_attr: false,
    }
}

fn feature_off() -> u8 {
    7
}

#[test]
fn disabled_attribute_keeps_original_function() {
    let attr = [option("name", "off"), option("capture", "off"), option("iterator", "off")];
    let methods = [method("feature_off", &[], OutputType::Path { last_segment: "u8".to_owned(), args: None })];
    let (args, plans) = expand(&attr, &methods).unwrap();
    assert_eq!(args, Args { name: "off".to_owned(), capture: CaptureMode::Off, trace_iterators: false });
    assert!(plans[0].fields.is_empty());
    assert!(!plans[0].records_error);
    assert_eq!(plans[0].iterator, None);
    assert_eq!(feature_off(), 7);
}

#[test]
fn parse_mode_reads_full_and_off() {
    assert_eq!(parse_mode(&"full".to_owned(), ModeOption::Capture, 0), Ok(true));
    assert_eq!(parse_mode(&"off".to_owned(), ModeOption::Capture, 0), Ok(false));
    assert_eq!(
        parse_mode(&"on".to_owned(), ModeOption::Iterator, 3),
        Err(AttrError::InvalidMode { arg: 3, option: ModeOption::Iterator })
    );
}

#[test]
fn args_parse_takes_defaults_and_refuses_the_unknown() {
    assert_eq!(
        Args::parse(&[option("name", "memory")]),
        Ok(Args { name: "memory".to_owned(), capture: CaptureMode::Counts, trace_iterators: true })
    );
    assert_eq!(Args::parse(&[]), Err(AttrError::MissingName));
    assert_eq!(Args::parse(&[option("capture", "off")]), Err(AttrError::MissingName));
    assert_eq!(
        Args::parse(&[option("name", "m"), option("level", "trace")]),
        Err(AttrError::UnsupportedOption { arg: 1 })
    );
    assert_eq!(
        Args::parse(&[option("name", "m"), AttrArg { key: Some("capture".to_owned()), value: None }]),
        Err(AttrError::ExpectedStringLiteral { arg: 1 })
    );
    assert_eq!(
        Args::parse(&[AttrArg { key: None, value: Some("x".to_owned()) }]),
        Err(AttrError::UnsupportedOption { arg: 0 })
    );
    assert_eq!(
        Args::parse(&[option("name", "m"), option("iterator", "maybe")]),
        Err(AttrError::InvalidMode { arg: 1, option: ModeOption::Iterator })
    );
    assert_eq!(
        Args::parse(&[option("name", "a"), option("name", "b")]),
        Ok(Args { name: "b".to_owned(), capture: CaptureMode::Counts, trace_iterators: true })
    );
}

#[test]
fn result_ok_type_finds_the_first_type_argument() {
    assert_eq!(result_ok_type(&result_type()), Some(0));
    let with_lifetime = OutputType::Path {
        last_segment: "Result".to_owned(),
        args: Some(vec![GenericArg::Lifetime, GenericArg::Type, GenericArg::Type]),
    };
    assert_eq!(result_ok_type(&with_lifetime), Some(1));
    assert_eq!(result_ok_type(&OutputType::Path { last_segment: "Option".to_owned(), args: Some(vec![GenericArg::Type]) }), None);
    assert_eq!(result_ok_type(&OutputType::Path { last_segment: "Result".to_owned(), args: None }), None);
    assert_eq!(result_ok_type(&OutputType::Default), None);
    assert_eq!(result_ok_type(&OutputType::Other), None);
}

#[test]
fn expand_plans_span_names_fields_and_iterators() {
    let attr = [option("name", "redb")];
    let methods = [
        method("insert_data", &[None, Some("table_name"), Some("rows")], result_type()),
        method("scan_data", &[None, Some("table_name")], result_type()),
        method("len", &[None], OutputType::Path { last_segment: "usize".to_owned(), args: None }),
    ];
    let (_, plans) = expand(&attr, &methods).unwrap();
    assert_eq!(plans[0].span_name, "gluesql.redb.insert_data");
    assert_eq!(plans[0].fields, vec![FieldSpec::RowCount("rows".to_owned())]);
    assert!(!plans[0].records_error);
    assert_eq!(plans[0].iterator, None);
    assert_eq!(
        plans[1].iterator,
        Some(IteratorPlan { span_name: "gluesql.redb.scan_data_rows".to_owned(), ok_type: 0 })
    );
    assert!(!plans[2].records_error);
    assert_eq!(plans[2].span_name, "gluesql.redb.len");
}

#[test]
fn expand_refuses_a_traced_iterator_without_result() {
    let attr = [option("name", "redb")];
    let mut marked = method("rows", &[None], OutputType::Other);
    marked.trace_iterator_attr = true;
    let methods = [method("ok", &[], result_type()), marked];
    assert_eq!(expand(&attr, &methods), Err(AttrError::IteratorWithoutResult { method: 1 }));

    let off = [option("name", "redb"), option("iterator", "off")];
    let mut marked = method("rows", &[None], OutputType::Other);
    marked.trace_iterator_attr = true;
    assert!(expand(&off, &[marked]).is_ok());
}

#[test]
fn default_capture_records_no_row_contents() {
    let methods = [
        method("append_data", &[None, Some("table_name"), Some("rows")], result_type()),
        method("delete_data", &[None, Some("table_name"), Some("keys")], result_type()),
        method("fetch_data", &[None, Some("table_name"), Some("key")], result_type()),
    ];
    let (args, plans) = expand(&[option("name", "redb")], &methods).unwrap();
    assert_eq!(args.capture, CaptureMode::Counts);
    assert_eq!(plans[0].fields, vec![FieldSpec::RowCount("rows".to_owned())]);
    assert_eq!(plans[1].fields, vec![FieldSpec::RowCount("keys".to_owned())]);
    assert!(plans[2].fields.is_empty());
    assert!(plans.iter().all(|p| !p.records_error));
}

#[test]
fn full_capture_records_arguments_counts_and_errors() {
    let attr = [option("name", "redb"), option("capture", "full")];
    let methods = [
        method("insert_data", &[None, Some("table_name"), Some("rows")], result_type()),
        method("len", &[None], OutputType::Path { last_segment: "usize".to_owned(), args: None }),
    ];
    let (args, plans) = expand(&attr, &methods).unwrap();
    assert_eq!(args.capture, CaptureMode::Full);
    assert_eq!(
        plans[0].fields,
        vec![
            FieldSpec::Debug("table_name".to_owned()),
            FieldSpec::Debug("rows".to_owned()),
            FieldSpec::RowCount("rows".to_owned()),
        ]
    );
    assert!(plans[0].records_error);
    assert!(!plans[1].records_error);
}

#[test]
fn off_capture_still_records_errors() {
    let attr = [option("name", "redb"), option("capture", "off")];
    let methods = [
        method("append_data", &[None, Some("table_name"), Some("rows")], result_type()),
        method("len", &[None], OutputType::Path { last_segment: "usize".to_owned(), args: None }),
    ];
    let (_, plans) = expand(&attr, &methods).unwrap();
    assert!(plans[0].fields.is_empty());
    assert!(plans[0].records_error);
    assert!(!plans[1].records_error);
}

fn tokens(text: &str) -> proc_macro2::TokenStream {
    text.parse().unwrap()
}

#[test]
fn expand_tokens_reads_options_and_methods_from_tokens() {
    let item = tokens(
        "impl Store for Redb { \
            fn append_data(&mut self, table_name: &str, rows: Vec<Vec<Value>>) -> Result<()> { Ok(()) } \
            const LIMIT: usize = 3; \
            #[trace_iterator] fn rows<'a>(&'a self) -> Result<'a, Rows> { todo() } \
            fn len(&self) -> usize { 0 } \
        }",
    );
    let expansion = expand_tokens(tokens("name = \"redb\""), item).unwrap();
    assert_eq!(expansion.args.name, "redb");
    assert_eq!(expansion.args.capture, CaptureMode::Counts);
    assert_eq!(expansion.methods.len(), 3);
    assert_eq!(expansion.methods[0].name, "append_data");
    assert_eq!(
        expansion.methods[0].inputs,
        vec![None, Some("table_name".to_owned()), Some("rows".to_owned())]
    );
    assert_eq!(expansion.methods[0].output, result_type());
    assert!(expansion.methods[1].trace_iterator_attr);
    assert_eq!(
        expansion.methods[1].output,
        OutputType::Path {
            last_segment: "Result".to_owned(),
            args: Some(vec![GenericArg::Lifetime, GenericArg::Type]),
        }
    );
    assert_eq!(
        expansion.plans[1].iterator,
        Some(IteratorPlan { span_name: "gluesql.redb.rows_rows".to_owned(), ok_type: 1 })
    );
    assert_eq!(expansion.methods[2].output, OutputType::Path { last_segment: "usize".to_owned(), args: None });
    assert_eq!(expansion.plans[0].fields, vec![FieldSpec::RowCount("rows".to_owned())]);
    assert!(!expansion.plans[0].records_error);
}

#[test]
fn expand_tokens_refuses_bad_tokens_and_options() {
    let item = || tokens("impl Store for Redb { fn len(&self) -> usize { 0 } }");
    assert!(matches!(expand_tokens(tokens("name"), item()), Err(AttrError::AttrSyntax)));
    assert!(matches!(expand_tokens(tokens("name = \"redb\""), tokens("fn f() {}")), Err(AttrError::ItemSyntax)));
    assert!(matches!(expand_tokens(tokens("capture = \"off\""), tokens("fn f() {}")), Err(AttrError::MissingName)));
    assert!(matches!(
        expand_tokens(tokens("name = \"redb\", level = \"trace\""), item()),
        Err(AttrError::UnsupportedOption { arg: 1 })
    ));
    let marked = tokens("impl Store for Redb { #[trace_iterator] fn rows(&self) -> Rows { todo() } }");
    assert!(matches!(
        expand_tokens(tokens("name = \"redb\""), marked),
        Err(AttrError::IteratorWithoutResult { method: 0 })
    ));
    let plain = tokens("impl Store for Redb { fn f(&self) {} }");
    assert_eq!(expand_tokens(tokens("name = \"redb\""), plain).unwrap().methods[0].output, OutputType::Default);
}

#[test]
fn expand_tokens_reads_raw_argument_names_and_keeps_option_order() {
    let item = tokens("impl Store for Redb { fn f(&self, r#type: u8, keys: Vec<Key>) -> Result<()> { Ok(()) } }");
    let expansion = expand_tokens(tokens("capture = \"full\", name = \"redb\""), item).unwrap();
    assert_eq!(
        expansion.attr_args.iter().map(|a| (a.key.clone(), a.value.clone())).collect::<Vec<_>>(),
        vec![
            (Some("capture".to_owned()), Some("full".to_owned())),
            (Some("name".to_owned()), Some("redb".to_owned())),
        ]
    );
    assert_eq!(
        expansion.methods[0].inputs,
        vec![None, Some("r#type".to_owned()), Some("keys".to_owned())]
    );
    assert_eq!(
        expansion.plans[0].fields,
        vec![
            FieldSpec::Debug("r#type".to_owned()),
            FieldSpec::Debug("keys".to_owned()),
            FieldSpec::RowCount("keys".to_owned()),
        ]
    );
}
