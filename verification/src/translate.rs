use vstd::prelude::*;
use crate::data::{copy_expr, copy_value, Expr, OperateFunctionArg, ParamLiteral, Statement, StatementView, Value};
use crate::error::{Error, Result, TranslateError};

verus! {

/// `expr` with each placeholder `$n` replaced by the `n`-th parameter; the first
/// placeholder (left to right) without a parameter is an error.
pub open spec fn bind_expr(expr: Expr, params: Seq<Value>) -> Result<Expr>
    decreases expr,
{
    match expr {
        Expr::Parameter(n) =>
            if 1 <= n && n <= params.len() {
                Ok(Expr::Literal(params[n - 1]))
            } else {
                Err(Error::Translate(TranslateError::ParameterIndexOutOfRange(n)))
            },
        Expr::IsNull(inner) => match bind_expr(*inner, params) {
            Ok(b) => Ok(Expr::IsNull(Box::new(b))),
            Err(e) => Err(e),
        },
        Expr::Not(inner) => match bind_expr(*inner, params) {
            Ok(b) => Ok(Expr::Not(Box::new(b))),
            Err(e) => Err(e),
        },
        Expr::BinaryOp { left, op, right } => match bind_expr(*left, params) {
            Ok(l) => match bind_expr(*right, params) {
                Ok(r) => Ok(Expr::BinaryOp { left: Box::new(l), op, right: Box::new(r) }),
                Err(e) => Err(e),
            },
            Err(e) => Err(e),
        },
        _ => Ok(expr),
    }
}

/// `bind_expr` on an optional expression.
pub open spec fn bind_opt(expr: Option<Expr>, params: Seq<Value>) -> Result<Option<Expr>> {
    match expr {
        Some(e) => match bind_expr(e, params) {
            Ok(b) => Ok(Some(b)),
            Err(err) => Err(err),
        },
        None => Ok(None),
    }
}

/// The arguments with their defaults bound; the first failure in order is the error.
pub open spec fn bind_args(args: Seq<OperateFunctionArg>, params: Seq<Value>) -> Result<Seq<OperateFunctionArg>>
    decreases args.len(),
{
    if args.len() == 0 {
        Ok(Seq::empty())
    } else {
        match bind_args(args.drop_last(), params) {
            Ok(before) => match bind_opt(args.last().default, params) {
                Ok(d) => Ok(before.push(OperateFunctionArg { default: d, ..args.last() })),
                Err(e) => Err(e),
            },
            Err(e) => Err(e),
        }
    }
}

/// The statement with its parameters bound: argument defaults first, then the body, for
/// a function; the filter, for a selection.
pub open spec fn bind_statement(statement: StatementView, params: Seq<Value>) -> Result<StatementView> {
    match statement {
        StatementView::CreateFunction { or_replace, name, args, return_ } => match bind_args(args, params) {
            Ok(bound_args) => match bind_expr(return_, params) {
                Ok(body) => Ok(StatementView::CreateFunction { or_replace, name, args: bound_args, return_: body }),
                Err(e) => Err(e),
            },
            Err(e) => Err(e),
        },
        StatementView::Select { table_name, selection } => match bind_opt(selection, params) {
            Ok(s) => Ok(StatementView::Select { table_name, selection: s }),
            Err(e) => Err(e),
        },
        _ => Ok(statement),
    }
}

/// Binds the placeholders of `expr`.
pub fn bind_parameters(expr: &Expr, params: &[ParamLiteral]) -> (r: Result<Expr>)
    ensures
        r == bind_expr(*expr, params@),
    decreases expr,
{
    match expr {
        Expr::Parameter(n) => {
            if 1 <= *n && *n <= params.len() {
                Ok(Expr::Literal(copy_value(&params[*n - 1])))
            } else {
                Err(Error::Translate(TranslateError::ParameterIndexOutOfRange(*n)))
            }
        },
        Expr::IsNull(inner) => {
            let b = bind_parameters(inner, params)?;
            Ok(Expr::IsNull(Box::new(b)))
        },
        Expr::Not(inner) => {
            let b = bind_parameters(inner, params)?;
            Ok(Expr::Not(Box::new(b)))
        },
        Expr::BinaryOp { left, op, right } => {
            let l = bind_parameters(left, params)?;
            let r = bind_parameters(right, params)?;
            Ok(Expr::BinaryOp { left: Box::new(l), op: *op, right: Box::new(r) })
        },
        _ => Ok(copy_expr(expr)),
    }
}

fn bind_optional(expr: &Option<Expr>, params: &[ParamLiteral]) -> (r: Result<Option<Expr>>)
    ensures
        r == bind_opt(*expr, params@),
{
    match expr {
        Some(e) => {
            let b = bind_parameters(e, params)?;
            Ok(Some(b))
        },
        None => Ok(None),
    }
}

fn bind_arguments(args: &Vec<OperateFunctionArg>, params: &[ParamLiteral]) -> (r: Result<Vec<OperateFunctionArg>>)
    ensures
        match r {
            Ok(v) => bind_args(args@, params@) == Ok::<Seq<OperateFunctionArg>, Error>(v@),
            Err(e) => bind_args(args@, params@) == Err::<Seq<OperateFunctionArg>, Error>(e),
        },
{
    let mut out: Vec<OperateFunctionArg> = Vec::new();
    let mut i: usize = 0;
    while i < args.len()
        invariant
            i <= args.len(),
            bind_args(args@.subrange(0, i as int), params@) == Ok::<Seq<OperateFunctionArg>, Error>(out@),
        decreases args.len() - i,
    {
        assert(args@.subrange(0, i + 1).drop_last() =~= args@.subrange(0, i as int));
        let arg = &args[i];
        match bind_optional(&arg.default, params) {
            Ok(d) => {
                out.push(OperateFunctionArg { name: arg.name.clone(), data_type: arg.data_type, default: d });
            },
            Err(e) => {
                proof { lemma_bind_args_prefix_err(args@, params@, i as int + 1); }
                return Err(e);
            },
        }
        i = i + 1;
    }
    assert(args@.subrange(0, args@.len() as int) =~= args@);
    Ok(out)
}

/// A failure within a prefix of the arguments is the failure of all of them.
proof fn lemma_bind_args_prefix_err(args: Seq<OperateFunctionArg>, params: Seq<Value>, n: int)
    requires
        0 <= n <= args.len(),
        bind_args(args.subrange(0, n), params) is Err,
    ensures
        bind_args(args, params) == bind_args(args.subrange(0, n), params),
    decreases args.len() - n,
{
    if n < args.len() {
        assert(args.subrange(0, n + 1).drop_last() =~= args.subrange(0, n));
        lemma_bind_args_prefix_err(args, params, n + 1);
    } else {
        assert(args.subrange(0, n) =~= args);
    }
}

fn copy_strings(v: &Vec<String>) -> (r: Vec<String>)
    ensures
        r@ == v@,
{
    let mut r: Vec<String> = Vec::new();
    let mut i: usize = 0;
    while i < v.len()
        invariant
            i <= v.len(),
            r@ == v@.subrange(0, i as int),
        decreases v.len() - i,
    {
        r.push(v[i].clone());
        i = i + 1;
    }
    r
}

/// Binds the parameters of a parsed statement.
pub fn translate_with_params(statement: &Statement, params: &[ParamLiteral]) -> (r: Result<Statement>)
    ensures
        match r {
            Ok(s) => bind_statement(statement@, params@) == Ok::<StatementView, Error>(s@),
            Err(e) => bind_statement(statement@, params@) == Err::<StatementView, Error>(e),
        },
{
    match statement {
        Statement::CreateFunction { or_replace, name, args, return_ } => {
            let bound_args = bind_arguments(args, params)?;
            let body = bind_parameters(return_, params)?;
            Ok(Statement::CreateFunction { or_replace: *or_replace, name: name.clone(), args: bound_args, return_: body })
        },
        Statement::DropFunction { if_exists, func_names } => {
            Ok(Statement::DropFunction { if_exists: *if_exists, func_names: copy_strings(func_names) })
        },
        Statement::Select { table_name, selection } => {
            let s = bind_optional(selection, params)?;
            Ok(Statement::Select { table_name: table_name.clone(), selection: s })
        },
        Statement::StartTransaction => Ok(Statement::StartTransaction),
        Statement::Commit => Ok(Statement::Commit),
        Statement::Rollback => Ok(Statement::Rollback),
    }
}

/// Whether `expr` holds a placeholder.
pub open spec fn has_placeholder(expr: Expr) -> bool
    decreases expr,
{
    match expr {
        Expr::Parameter(_) => true,
        Expr::IsNull(inner) => has_placeholder(*inner),
        Expr::Not(inner) => has_placeholder(*inner),
        Expr::BinaryOp { left, right, .. } => has_placeholder(*left) || has_placeholder(*right),
        _ => false,
    }
}

/// Binding parameters leaves an expression without placeholders as it is, whatever the
/// parameters.
pub proof fn lemma_bind_without_placeholders(expr: Expr, params: Seq<Value>)
    requires
        !has_placeholder(expr),
    ensures
        bind_expr(expr, params) == Ok::<Expr, Error>(expr),
    decreases expr,
{
    match expr {
        Expr::IsNull(inner) => lemma_bind_without_placeholders(*inner, params),
        Expr::Not(inner) => lemma_bind_without_placeholders(*inner, params),
        Expr::BinaryOp { left, right, .. } => {
            lemma_bind_without_placeholders(*left, params);
            lemma_bind_without_placeholders(*right, params);
        },
        _ => {},
    }
}

/// Without parameters, binding succeeds exactly on expressions without placeholders.
pub proof fn lemma_bind_without_params(expr: Expr)
    ensures
        bind_expr(expr, Seq::<Value>::empty()) is Ok <==> !has_placeholder(expr),
    decreases expr,
{
    match expr {
        Expr::IsNull(inner) => lemma_bind_without_params(*inner),
        Expr::Not(inner) => lemma_bind_without_params(*inner),
        Expr::BinaryOp { left, right, .. } => {
            lemma_bind_without_params(*left);
            lemma_bind_without_params(*right);
        },
        _ => {},
    }
}

/// Whether an argument's default holds a placeholder.
pub open spec fn default_has_placeholder(arg: OperateFunctionArg) -> bool {
    arg.default matches Some(d) && has_placeholder(d)
}

/// Whether a statement holds a placeholder anywhere: in an argument default or the body of
/// a function, or in the filter of a selection.
pub open spec fn statement_has_placeholder(statement: StatementView) -> bool {
    match statement {
        StatementView::CreateFunction { or_replace: _, name: _, args, return_ } =>
            has_placeholder(return_) || exists|i: int| 0 <= i < args.len() && #[trigger] default_has_placeholder(args[i]),
        StatementView::Select { table_name: _, selection } => selection matches Some(e) && has_placeholder(e),
        _ => false,
    }
}

/// Binding keeps every argument's name and data type, and binds only its default: the
/// bound arguments are the given ones, in order, each with its default bound.
pub proof fn lemma_bind_args_keeps_names_and_types(args: Seq<OperateFunctionArg>, params: Seq<Value>)
    ensures
        bind_args(args, params) matches Ok(bound) ==> {
            &&& bound.len() == args.len()
            &&& forall|i: int| 0 <= i < args.len() ==> {
                &&& (#[trigger] bound[i]).name == args[i].name
                &&& bound[i].data_type == args[i].data_type
                &&& bind_opt(args[i].default, params) == Ok::<Option<Expr>, Error>(bound[i].default)
            }
        },
    decreases args.len(),
{
    if args.len() > 0 {
        lemma_bind_args_keeps_names_and_types(args.drop_last(), params);
        if bind_args(args, params) is Ok {
            let before = bind_args(args.drop_last(), params)->Ok_0;
            let bound = bind_args(args, params)->Ok_0;
            assert forall|i: int| 0 <= i < args.len() implies {
                &&& (#[trigger] bound[i]).name == args[i].name
                &&& bound[i].data_type == args[i].data_type
                &&& bind_opt(args[i].default, params) == Ok::<Option<Expr>, Error>(bound[i].default)
            } by {
                if i < args.len() - 1 {
                    assert(bound[i] == before[i]);
                    assert(args.drop_last()[i] == args[i]);
                }
            }
        }
    }
}

/// Binding leaves arguments whose defaults hold no placeholder as they are.
proof fn lemma_bind_args_without_placeholders(args: Seq<OperateFunctionArg>, params: Seq<Value>)
    requires
        forall|i: int| 0 <= i < args.len() ==> !#[trigger] default_has_placeholder(args[i]),
    ensures
        bind_args(args, params) == Ok::<Seq<OperateFunctionArg>, Error>(args),
    decreases args.len(),
{
    if args.len() > 0 {
        let prefix = args.drop_last();
        assert forall|i: int| 0 <= i < prefix.len() implies !#[trigger] default_has_placeholder(prefix[i]) by {
            assert(prefix[i] == args[i]);
            assert(!default_has_placeholder(args[i]));
        }
        lemma_bind_args_without_placeholders(prefix, params);
        let last = args.last();
        assert(!default_has_placeholder(args[args.len() - 1]));
        match last.default {
            Some(d) => lemma_bind_without_placeholders(d, params),
            None => {},
        }
        assert(bind_opt(last.default, params) == Ok::<Option<Expr>, Error>(last.default));
        assert(OperateFunctionArg { default: last.default, ..last } == last);
        assert(prefix.push(last) =~= args);
    } else {
        assert(args =~= Seq::<OperateFunctionArg>::empty());
    }
}

/// Binding leaves a statement without placeholders as it is: in particular `DROP FUNCTION`
/// keeps its `IF EXISTS` and its names, and a selection without a filter keeps its table.
pub proof fn lemma_bind_statement_without_placeholders(statement: StatementView, params: Seq<Value>)
    requires
        !statement_has_placeholder(statement),
    ensures
        bind_statement(statement, params) == Ok::<StatementView, Error>(statement),
{
    match statement {
        StatementView::CreateFunction { or_replace: _, name: _, args, return_ } => {
            lemma_bind_args_without_placeholders(args, params);
            lemma_bind_without_placeholders(return_, params);
        },
        StatementView::Select { table_name: _, selection } => {
            if let Some(e) = selection {
                lemma_bind_without_placeholders(e, params);
            }
        },
        _ => {},
    }
}

/// Binding keeps the kind of a statement and everything but its expressions: the name
/// and `OR REPLACE` of a function (and its arguments' names and types), the names and
/// `IF EXISTS` of `DROP FUNCTION`, the table of a selection.
pub proof fn lemma_bind_statement_keeps_shape(statement: StatementView, params: Seq<Value>)
    ensures
        bind_statement(statement, params) matches Ok(bound) ==> match statement {
            StatementView::CreateFunction { or_replace, name, args, return_: _ } =>
                bound matches StatementView::CreateFunction { or_replace: o, name: n, args: a, return_: _ }
                && o == or_replace && n == name && a.len() == args.len()
                && forall|i: int| 0 <= i < args.len() ==> (#[trigger] a[i]).name == args[i].name && a[i].data_type == args[i].data_type,
            StatementView::DropFunction { if_exists, func_names } =>
                bound == StatementView::DropFunction { if_exists, func_names },
            StatementView::Select { table_name, selection: _ } =>
                bound matches StatementView::Select { table_name: t, selection: _ } && t == table_name,
            StatementView::StartTransaction => bound == StatementView::StartTransaction,
            StatementView::Commit => bound == StatementView::Commit,
            StatementView::Rollback => bound == StatementView::Rollback,
        },
{
    if let StatementView::CreateFunction { or_replace: _, name: _, args, return_: _ } = statement {
        lemma_bind_args_keeps_names_and_types(args, params);
    }
}

} // verus!
