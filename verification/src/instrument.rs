//! What the storage-instrumenting attribute does to an `impl` block, decided on plain
//! values: the attribute's options, and for each method its name, its argument
//! patterns, the shape of its return type and whether it asks for iterator tracing.

use vstd::prelude::*;

verus! {

/// One `key = value` option of the attribute.
pub struct AttrArg {
    /// The option's name, where its path is a single identifier.
    pub key: Option<String>,
    /// The option's value, where it is a string literal.
    pub value: Option<String>,
}

/// What the attribute refuses; `arg` counts the options from 0 and `method` the methods.
#[derive(Debug, Clone, PartialEq, Eq)]
pub enum AttrError {
    /// "expected a string literal"
    ExpectedStringLiteral { arg: usize },
    /// "unsupported option"
    UnsupportedOption { arg: usize },
    /// "`option` must be `full` or `off`"
    InvalidMode { arg: usize, option: ModeOption },
    /// "missing `name = \"...\"`"
    MissingName,
    /// "traced iterator methods must return `Result<Box<dyn Iterator<...>>>`"
    IteratorWithoutResult { method: usize },
    /// The attribute's tokens are not a list of `key = value` options.
    AttrSyntax,
    /// The item is not an `impl` block.
    ItemSyntax,
}

/// The options that take `full` or `off`.
#[derive(Debug, Clone, Copy, PartialEq, Eq, Structural)]
pub enum ModeOption {
    Capture,
    Iterator,
}

/// What a method's span records of its arguments and result.
#[derive(Debug, Clone, Copy, PartialEq, Eq, Structural)]
pub enum CaptureMode {
    /// The default: only the number of items in `rows` and `keys`; no argument values,
    /// keys, row contents or error messages.
    Counts,
    /// `capture = "full"`: every argument by its `Debug` form, the counts, and the error
    /// of a returned `Err`.
    Full,
    /// `capture = "off"`: no argument and no count; the error of a returned `Err` is
    /// still recorded.
    Off,
}

/// The attribute's options.
#[derive(Debug, Clone, PartialEq, Eq)]
pub struct Args {
    pub name: String,
    pub capture: CaptureMode,
    pub trace_iterators: bool,
}

/// `full` captures everything, `off` nothing.
pub open spec fn capture_of(full: bool) -> CaptureMode {
    if full { CaptureMode::Full } else { CaptureMode::Off }
}

/// `full` is true, `off` is false.
pub open spec fn mode_of(value: Seq<char>) -> Option<bool> {
    if value == "full"@ {
        Some(true)
    } else if value == "off"@ {
        Some(false)
    } else {
        None
    }
}

/// Reads a `full` / `off` option.
pub fn parse_mode(value: &String, option: ModeOption, arg: usize) -> (r: core::result::Result<bool, AttrError>)
    ensures
        match mode_of(value@) {
            Some(b) => r == Ok::<bool, AttrError>(b),
            None => r == Err::<bool, AttrError>(AttrError::InvalidMode { arg, option }),
        },
{
    proof {
        reveal_strlit("full");
        reveal_strlit("off");
    }
    let full = "full".to_owned();
    let off = "off".to_owned();
    if *value == full {
        Ok(true)
    } else if *value == off {
        Ok(false)
    } else {
        Err(AttrError::InvalidMode { arg, option })
    }
}

/// The options after the first `n` arguments, or the first refusal among them.
pub open spec fn read_args(args: Seq<AttrArg>, n: int) -> core::result::Result<(Option<Seq<char>>, CaptureMode, bool), AttrError>
    decreases n,
{
    if n <= 0 {
        Ok((None, CaptureMode::Counts, true))
    } else {
        match read_args(args, n - 1) {
            Ok((name, capture, iterator)) => {
                let a = args[n - 1];
                match a.value {
                    None => Err(AttrError::ExpectedStringLiteral { arg: (n - 1) as usize }),
                    Some(v) => {
                        if a.key matches Some(k) && k@ == "name"@ {
                            Ok((Some(v@), capture, iterator))
                        } else if a.key matches Some(k) && k@ == "capture"@ {
                            match mode_of(v@) {
                                Some(b) => Ok((name, capture_of(b), iterator)),
                                None => Err(AttrError::InvalidMode { arg: (n - 1) as usize, option: ModeOption::Capture }),
                            }
                        } else if a.key matches Some(k) && k@ == "iterator"@ {
                            match mode_of(v@) {
                                Some(b) => Ok((name, capture, b)),
                                None => Err(AttrError::InvalidMode { arg: (n - 1) as usize, option: ModeOption::Iterator }),
                            }
                        } else {
                            Err(AttrError::UnsupportedOption { arg: (n - 1) as usize })
                        }
                    },
                }
            },
            Err(e) => Err(e),
        }
    }
}

/// A refusal among the first `n` options is the refusal of all of them.
proof fn lemma_read_args_err(args: Seq<AttrArg>, n: int, m: int)
    requires
        0 <= n <= m,
        read_args(args, n) is Err,
    ensures
        read_args(args, m) == read_args(args, n),
    decreases m - n,
{
    if m > n {
        lemma_read_args_err(args, n, m - 1);
    }
}

impl Args {
    /// Reads the options in order: `name`, `capture` and `iterator` take string values
    /// (the last one given wins), anything else is refused, and `name` is required.
    pub fn parse(args: &[AttrArg]) -> (r: core::result::Result<Args, AttrError>)
        ensures
            match read_args(args@, args@.len() as int) {
                Ok((Some(name), capture, iterator)) => r matches Ok(a) && {
                    &&& a.name@ == name
                    &&& a.capture == capture
                    &&& a.trace_iterators == iterator
                },
                Ok((None, _, _)) => r == Err::<Args, AttrError>(AttrError::MissingName),
                Err(e) => r == Err::<Args, AttrError>(e),
            },
    {
        proof {
            reveal_strlit("name");
            reveal_strlit("capture");
            reveal_strlit("iterator");
        }
        let name_key = "name".to_owned();
        let capture_key = "capture".to_owned();
        let iterator_key = "iterator".to_owned();
        let mut name: Option<String> = None;
        let mut capture = CaptureMode::Counts;
        let mut trace_iterators = true;
        let mut j: usize = 0;
        while j < args.len()
            invariant
                j <= args@.len(),
                name_key@ == "name"@,
                capture_key@ == "capture"@,
                iterator_key@ == "iterator"@,
                read_args(args@, j as int) == Ok::<(Option<Seq<char>>, CaptureMode, bool), AttrError>((
                    match name { Some(n) => Some(n@), None => None },
                    capture,
                    trace_iterators,
                )),
            decreases args@.len() - j,
        {
            let a = &args[j];
            let value = match &a.value {
                Some(v) => v,
                None => {
                    proof { lemma_read_args_err(args@, j as int + 1, args@.len() as int); }
                    return Err(AttrError::ExpectedStringLiteral { arg: j });
                },
            };
            let key = match &a.key {
                Some(k) => k,
                None => {
                    proof { lemma_read_args_err(args@, j as int + 1, args@.len() as int); }
                    return Err(AttrError::UnsupportedOption { arg: j });
                },
            };
            if *key == name_key {
                name = Some(value.clone());
            } else if *key == capture_key {
                match parse_mode(value, ModeOption::Capture, j) {
                    Ok(b) => { capture = if b { CaptureMode::Full } else { CaptureMode::Off }; },
                    Err(e) => {
                        proof { lemma_read_args_err(args@, j as int + 1, args@.len() as int); }
                        return Err(e);
                    },
                }
            } else if *key == iterator_key {
                match parse_mode(value, ModeOption::Iterator, j) {
                    Ok(b) => { trace_iterators = b; },
                    Err(e) => {
                        proof { lemma_read_args_err(args@, j as int + 1, args@.len() as int); }
                        return Err(e);
                    },
                }
            } else {
                proof { lemma_read_args_err(args@, j as int + 1, args@.len() as int); }
                return Err(AttrError::UnsupportedOption { arg: j });
            }
            j = j + 1;
        }
        match name {
            Some(n) => Ok(Args { name: n, capture, trace_iterators }),
            None => Err(AttrError::MissingName),
        }
    }
}

/// A generic argument of the return type's last path segment.
#[derive(Debug, Clone, Copy, PartialEq, Eq, Structural)]
pub enum GenericArg {
    Type,
    Lifetime,
    Other,
}

/// The shape of a method's return type.
#[derive(Debug, Clone, PartialEq, Eq)]
pub enum OutputType {
    /// No `->`.
    Default,
    /// A path type: the identifier of its last segment and, where that segment has them,
    /// its angle-bracketed generic arguments.
    Path { last_segment: String, args: Option<Vec<GenericArg>> },
    /// Any other type.
    Other,
}

/// The index of the first type argument, if any.
pub open spec fn first_type_arg(args: Seq<GenericArg>, n: int) -> Option<int>
    decreases n,
{
    if n <= 0 {
        None
    } else {
        match first_type_arg(args, n - 1) {
            Some(i) => Some(i),
            None => if args[n - 1] == GenericArg::Type { Some(n - 1) } else { None },
        }
    }
}

/// Where the return type is a `Result` with a type argument, the index of its first type
/// argument (the `Ok` type).
pub open spec fn ok_type_of(output: OutputType) -> Option<int> {
    match output {
        OutputType::Path { last_segment, args: Some(args) } =>
            if last_segment@ == "Result"@ { first_type_arg(args@, args@.len() as int) } else { None },
        _ => None,
    }
}

/// Finds the `Ok` type of a `Result` return type.
pub fn result_ok_type(output: &OutputType) -> (r: Option<usize>)
    ensures
        match r {
            Some(i) => ok_type_of(*output) == Some(i as int),
            None => ok_type_of(*output) is None,
        },
{
    proof { reveal_strlit("Result"); }
    match output {
        OutputType::Path { last_segment, args: Some(args) } => {
            let result = "Result".to_owned();
            if *last_segment != result {
                return None;
            }
            assert(ok_type_of(*output) == first_type_arg(args@, args@.len() as int));
            let mut i: usize = 0;
            while i < args.len()
                invariant
                    i <= args@.len(),
                    ok_type_of(*output) == first_type_arg(args@, args@.len() as int),
                    first_type_arg(args@, i as int) is None,
                decreases args@.len() - i,
            {
                if args[i] == GenericArg::Type {
                    assert(first_type_arg(args@, i as int + 1) == Some(i as int));
                    proof { lemma_first_type_arg_found(args@, i as int + 1, args@.len() as int); }
                    return Some(i);
                }
                i = i + 1;
            }
            None
        },
        _ => None,
    }
}

/// A type argument found among the first `n` arguments is the first of all of them.
proof fn lemma_first_type_arg_found(args: Seq<GenericArg>, n: int, m: int)
    requires
        0 <= n <= m,
        first_type_arg(args, n) is Some,
    ensures
        first_type_arg(args, m) == first_type_arg(args, n),
    decreases m - n,
{
    if m > n {
        lemma_first_type_arg_found(args, n, m - 1);
    }
}

/// A method of the instrumented `impl` block.
pub struct MethodSig {
    pub name: String,
    /// Each argument: its identifier where the pattern is a plain identifier with a type
    /// (so not for `self`).
    pub inputs: Vec<Option<String>>,
    pub output: OutputType,
    /// Whether the method carries the `trace_iterator` marker attribute.
    pub trace_iterator_attr: bool,
}

/// A field that the method's span records.
#[derive(Debug, Clone, PartialEq, Eq)]
pub enum FieldSpec {
    /// `ident = ?ident`
    Debug(String),
    /// `row_count = ident.len()`
    RowCount(String),
}

/// How a method's returned iterator is wrapped.
#[derive(Debug, Clone, PartialEq, Eq)]
pub struct IteratorPlan {
    /// The name of the span that covers the iterator's consumption.
    pub span_name: String,
    /// Index of the `Ok` type among the return type's generic arguments.
    pub ok_type: usize,
}

/// What the attribute adds to one method.
#[derive(Debug, Clone, PartialEq, Eq)]
pub struct MethodPlan {
    pub span_name: String,
    pub fields: Vec<FieldSpec>,
    /// Whether the span records the error of a returned `Err`.
    pub records_error: bool,
    pub iterator: Option<IteratorPlan>,
}

/// `gluesql.<name>.<method>`
pub open spec fn span_name_of(name: Seq<char>, method: Seq<char>) -> Seq<char> {
    "gluesql."@ + name + "."@ + method
}

/// Whether an argument of this name holds rows or keys, whose count is recorded.
pub open spec fn is_counted(ident: Seq<char>) -> bool {
    ident == "rows"@ || ident == "keys"@
}

/// The fields captured from the arguments: with `Full`, each identifier by its `Debug`
/// form; with `Full` or `Counts`, the row count of `rows` and `keys`; with `Off`, none.
pub open spec fn capture_fields(inputs: Seq<Option<String>>, mode: CaptureMode) -> Seq<FieldSpec>
    decreases inputs.len(),
{
    if inputs.len() == 0 || mode == CaptureMode::Off {
        Seq::empty()
    } else {
        let before = capture_fields(inputs.drop_last(), mode);
        match inputs.last() {
            Some(ident) => {
                let with_value = if mode == CaptureMode::Full { before.push(FieldSpec::Debug(ident)) } else { before };
                if is_counted(ident@) { with_value.push(FieldSpec::RowCount(ident)) } else { with_value }
            },
            None => before,
        }
    }
}

/// Whether the span records the error of a returned `Err`: for a method that returns a
/// `Result`, unless the capture is the default one, which records no error messages.
pub open spec fn records_error_of(mode: CaptureMode, output: OutputType) -> bool {
    mode != CaptureMode::Counts && ok_type_of(output) is Some
}

/// Whether the method's returned iterator is wrapped.
pub open spec fn traces_iterator(trace_iterators: bool, method: MethodSig) -> bool {
    trace_iterators && (method.trace_iterator_attr || method.name@ == "scan_data"@
        || method.name@ == "scan_indexed_data"@)
}

/// Whether the attribute refuses `method`: its iterator is to be wrapped, yet it does not
/// return a `Result`.
pub open spec fn refused(trace_iterators: bool, method: MethodSig) -> bool {
    traces_iterator(trace_iterators, method) && ok_type_of(method.output) is None
}

/// Whether `plan` is what the attribute with options `args` adds to `method`.
pub open spec fn plans(args: Args, method: MethodSig, plan: MethodPlan) -> bool {
    &&& plan.span_name@ == span_name_of(args.name@, method.name@)
    &&& plan.fields@ == capture_fields(method.inputs@, args.capture)
    &&& plan.records_error == records_error_of(args.capture, method.output)
    &&& match plan.iterator {
        Some(it) => {
            &&& traces_iterator(args.trace_iterators, method)
            &&& it.span_name@ == span_name_of(args.name@, method.name@) + "_rows"@
            &&& ok_type_of(method.output) == Some(it.ok_type as int)
        },
        None => !traces_iterator(args.trace_iterators, method),
    }
}

fn capture_args(inputs: &Vec<Option<String>>, mode: CaptureMode) -> (fields: Vec<FieldSpec>)
    ensures
        fields@ == capture_fields(inputs@, mode),
{
    proof {
        reveal_strlit("rows");
        reveal_strlit("keys");
    }
    let rows = "rows".to_owned();
    let keys = "keys".to_owned();
    let mut fields: Vec<FieldSpec> = Vec::new();
    if mode == CaptureMode::Off {
        return fields;
    }
    let mut i: usize = 0;
    while i < inputs.len()
        invariant
            i <= inputs@.len(),
            mode != CaptureMode::Off,
            rows@ == "rows"@,
            keys@ == "keys"@,
            fields@ == capture_fields(inputs@.subrange(0, i as int), mode),
        decreases inputs@.len() - i,
    {
        assert(inputs@.subrange(0, i + 1).drop_last() =~= inputs@.subrange(0, i as int));
        match &inputs[i] {
            Some(ident) => {
                if mode == CaptureMode::Full {
                    fields.push(FieldSpec::Debug(ident.clone()));
                }
                if *ident == rows || *ident == keys {
                    fields.push(FieldSpec::RowCount(ident.clone()));
                }
            },
            None => {},
        }
        i = i + 1;
    }
    assert(inputs@.subrange(0, inputs@.len() as int) =~= inputs@);
    fields
}

/// Decides what the attribute adds to the method at `index`; a method whose iterator
/// is to be wrapped must return a `Result`.
pub fn plan_method(args: &Args, method: &MethodSig, index: usize) -> (r: core::result::Result<MethodPlan, AttrError>)
    ensures
        match r {
            Ok(plan) => plans(*args, *method, plan),
            Err(e) => refused(args.trace_iterators, *method) && e == AttrError::IteratorWithoutResult { method: index },
        },
{
    proof {
        reveal_strlit("gluesql.");
        reveal_strlit(".");
        reveal_strlit("_rows");
        reveal_strlit("scan_data");
        reveal_strlit("scan_indexed_data");
    }
    let mut span_name = "gluesql.".to_owned();
    span_name.append(args.name.as_str());
    span_name.append(".");
    span_name.append(method.name.as_str());
    let fields = capture_args(&method.inputs, args.capture);
    let ok_type = result_ok_type(&method.output);
    let scan_data = "scan_data".to_owned();
    let scan_indexed_data = "scan_indexed_data".to_owned();
    let traced = args.trace_iterators
        && (method.trace_iterator_attr || method.name == scan_data || method.name == scan_indexed_data);
    let iterator = if traced {
        match ok_type {
            Some(i) => {
                let mut iterator_span = span_name.clone();
                iterator_span.append("_rows");
                Some(IteratorPlan { span_name: iterator_span, ok_type: i })
            },
            None => {
                return Err(AttrError::IteratorWithoutResult { method: index });
            },
        }
    } else {
        None
    };
    let records_error = args.capture != CaptureMode::Counts && ok_type.is_some();
    Ok(MethodPlan { span_name, fields, records_error, iterator })
}

/// What the attribute with options `attr` gives for the methods `methods`: the refusal of
/// its options, or of the first method whose iterator cannot be wrapped; otherwise its
/// options and one plan per method, in order.
pub open spec fn expand_outcome(
    attr: Seq<AttrArg>,
    methods: Seq<MethodSig>,
    r: core::result::Result<(Args, Vec<MethodPlan>), AttrError>,
) -> bool {
    match read_args(attr, attr.len() as int) {
        Err(e) => r == Err::<(Args, Vec<MethodPlan>), AttrError>(e),
        Ok((None, _, _)) => r == Err::<(Args, Vec<MethodPlan>), AttrError>(AttrError::MissingName),
        Ok((Some(name), capture, iterator)) => match r {
            Ok((args, method_plans)) => {
                &&& args.name@ == name && args.capture == capture && args.trace_iterators == iterator
                &&& method_plans@.len() == methods.len()
                &&& forall|i: int| 0 <= i < methods.len() ==> plans(args, methods[i], #[trigger] method_plans@[i])
                &&& forall|i: int| 0 <= i < methods.len() ==> !refused(iterator, #[trigger] methods[i])
            },
            Err(e) => exists|i: int| {
                &&& 0 <= i < methods.len()
                &&& refused(iterator, #[trigger] methods[i])
                &&& forall|k: int| 0 <= k < i ==> !refused(iterator, #[trigger] methods[k])
                &&& e == AttrError::IteratorWithoutResult { method: i as usize }
            },
        },
    }
}

/// The attribute: reads its options, then plans every method in order; the first refusal
/// is the result.
pub fn expand(attr: &[AttrArg], methods: &[MethodSig]) -> (r: core::result::Result<(Args, Vec<MethodPlan>), AttrError>)
    ensures
        expand_outcome(attr@, methods@, r),
{
    let args = Args::parse(attr)?;
    let mut method_plans: Vec<MethodPlan> = Vec::new();
    let mut i: usize = 0;
    while i < methods.len()
        invariant
            i <= methods@.len(),
            method_plans@.len() == i,
            forall|k: int| 0 <= k < i ==> plans(args, methods@[k], #[trigger] method_plans@[k]),
            forall|k: int| 0 <= k < i ==> !refused(args.trace_iterators, #[trigger] methods@[k]),
            read_args(attr@, attr@.len() as int) matches Ok((Some(n), c, it))
                && n == args.name@ && c == args.capture && it == args.trace_iterators,
        decreases methods@.len() - i,
    {
        match plan_method(&args, &methods[i], i) {
            Ok(plan) => {
                method_plans.push(plan);
            },
            Err(e) => {
                assert(refused(args.trace_iterators, methods@[i as int]));
                return Err(e);
            },
        }
        i = i + 1;
    }
    Ok((args, method_plans))
}

/// By default a span records no argument value, key, row content or error message: each
/// field it records is the count of `rows` or `keys`.
pub proof fn lemma_default_capture_records_counts_only(inputs: Seq<Option<String>>, output: OutputType)
    ensures
        forall|i: int| 0 <= i < capture_fields(inputs, CaptureMode::Counts).len()
            ==> ((#[trigger] capture_fields(inputs, CaptureMode::Counts)[i]) matches FieldSpec::RowCount(ident) && is_counted(ident@)),
        !records_error_of(CaptureMode::Counts, output),
    decreases inputs.len(),
{
    if inputs.len() > 0 {
        lemma_default_capture_records_counts_only(inputs.drop_last(), output);
    }
}

/// With iterator tracing on, the iterator of every method named `scan_data` or
/// `scan_indexed_data` that returns a `Result` is wrapped, in a span named
/// `gluesql.<name>.<method>_rows`, with the `Ok` type of that `Result`.
pub proof fn lemma_scans_are_traced(args: Args, method: MethodSig, plan: MethodPlan)
    requires
        plans(args, method, plan),
        args.trace_iterators,
        method.name@ == "scan_data"@ || method.name@ == "scan_indexed_data"@,
        ok_type_of(method.output) is Some,
    ensures
        plan.iterator matches Some(it) && {
            &&& it.span_name@ == "gluesql."@ + args.name@ + "."@ + method.name@ + "_rows"@
            &&& ok_type_of(method.output) == Some(it.ok_type as int)
        },
{
}

/// With `iterator = "off"`, no method's iterator is wrapped and no method is refused.
pub proof fn lemma_iterator_off(method: MethodSig)
    ensures
        !traces_iterator(false, method),
        !refused(false, method),
{
}

} // verus!
