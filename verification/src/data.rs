use std::rc::Rc;
use vstd::prelude::*;

verus! {

/// Column and argument types.
#[derive(Debug, Clone, Copy, PartialEq, Eq, Structural)]
pub enum DataType {
    Boolean,
    Int,
    Text,
}

/// A stored or computed value.
#[derive(Debug, Clone, PartialEq, Eq)]
pub enum Value {
    Bool(bool),
    I64(i64),
    Str(String),
    Null,
}

/// The key of a stored row.
#[derive(Debug, Clone, PartialEq, Eq)]
pub enum Key {
    I64(i64),
    Str(String),
    Null,
}

/// Binary operators of expressions.
#[derive(Debug, Clone, Copy, PartialEq, Eq, Structural)]
pub enum BinaryOperator {
    Eq,
    NotEq,
    Lt,
    Gt,
    And,
    Or,
}

/// An expression: a function body, an argument default or a row filter.
#[derive(Debug, PartialEq, Eq)]
pub enum Expr {
    Identifier(String),
    Literal(Value),
    /// The placeholder `$n`, bound to the `n`-th parameter (counting from 1).
    Parameter(usize),
    IsNull(Box<Expr>),
    Not(Box<Expr>),
    BinaryOp { left: Box<Expr>, op: BinaryOperator, right: Box<Expr> },
}

/// A planned expression.
pub type ExprPlan = Expr;

/// Order of an index.
#[derive(Debug, PartialEq, Eq)]
pub struct OrderByExpr {
    pub expr: Expr,
    pub asc: Option<bool>,
}

/// Comparison used by an indexed scan.
#[derive(Debug, Clone, Copy, PartialEq, Eq, Structural)]
pub enum IndexOperator {
    Gt,
    Lt,
    GtEq,
    LtEq,
    Eq,
}

/// A column of a table.
#[derive(Debug, PartialEq, Eq)]
pub struct ColumnDef {
    pub name: String,
    pub data_type: DataType,
    pub nullable: bool,
    pub default: Option<Expr>,
}

/// A table's schema; a schemaless table has no column definitions.
#[derive(Debug, PartialEq, Eq)]
pub struct Schema {
    pub table_name: String,
    pub column_defs: Option<Vec<ColumnDef>>,
    pub foreign_keys: Vec<ForeignKey>,
}

/// A schema with its strings and lists taken by their views.
pub struct SchemaView {
    pub table_name: Seq<char>,
    pub column_defs: Option<Seq<ColumnDef>>,
    pub foreign_keys: Seq<ForeignKey>,
}

impl View for Schema {
    type V = SchemaView;

    open spec fn view(&self) -> SchemaView {
        SchemaView {
            table_name: self.table_name@,
            column_defs: match self.column_defs {
                Some(defs) => Some(defs@),
                None => None,
            },
            foreign_keys: self.foreign_keys@,
        }
    }
}

/// A foreign key of a table.
#[derive(Debug, Clone, PartialEq, Eq)]
pub struct ForeignKey {
    pub name: String,
    pub referencing_column_name: String,
    pub referenced_table_name: String,
    pub referenced_column_name: String,
}

/// A table that refers to another through a foreign key.
#[derive(Debug, Clone, PartialEq, Eq)]
pub struct Referencing {
    pub table_name: String,
    pub foreign_key: ForeignKey,
}

/// An argument of a user-defined function.
#[derive(Debug, PartialEq, Eq)]
pub struct OperateFunctionArg {
    pub name: String,
    pub data_type: DataType,
    pub default: Option<Expr>,
}

/// A user-defined function.
#[derive(Debug, PartialEq, Eq)]
pub struct CustomFunction {
    pub func_name: String,
    pub args: Vec<OperateFunctionArg>,
    pub body: Expr,
}

/// A user-defined function with its strings and lists taken by their views.
pub struct FunctionView {
    pub func_name: Seq<char>,
    pub args: Seq<OperateFunctionArg>,
    pub body: Expr,
}

impl View for CustomFunction {
    type V = FunctionView;

    open spec fn view(&self) -> FunctionView {
        FunctionView { func_name: self.func_name@, args: self.args@, body: self.body }
    }
}

/// The values of a stored row.
pub type DataRow = Vec<Value>;

/// A row together with the names of its columns.
#[derive(Debug, Clone, PartialEq, Eq)]
pub struct Row {
    pub columns: Rc<Vec<String>>,
    pub values: Vec<Value>,
}

/// A row with its lists taken by their views.
pub struct RowView {
    pub columns: Seq<String>,
    pub values: Seq<Value>,
}

impl View for Row {
    type V = RowView;

    open spec fn view(&self) -> RowView {
        RowView { columns: (*self.columns)@, values: self.values@ }
    }
}

/// A statement, as parsed.
#[derive(Debug, PartialEq, Eq)]
pub enum Statement {
    CreateFunction { or_replace: bool, name: String, args: Vec<OperateFunctionArg>, return_: Expr },
    DropFunction { if_exists: bool, func_names: Vec<String> },
    Select { table_name: String, selection: Option<Expr> },
    StartTransaction,
    Commit,
    Rollback,
}

/// A statement with its strings and lists taken by their views.
pub enum StatementView {
    CreateFunction { or_replace: bool, name: Seq<char>, args: Seq<OperateFunctionArg>, return_: Expr },
    DropFunction { if_exists: bool, func_names: Seq<String> },
    Select { table_name: Seq<char>, selection: Option<Expr> },
    StartTransaction,
    Commit,
    Rollback,
}

impl View for Statement {
    type V = StatementView;

    open spec fn view(&self) -> StatementView {
        match self {
            Statement::CreateFunction { or_replace, name, args, return_ } =>
                StatementView::CreateFunction { or_replace: *or_replace, name: name@, args: args@, return_: *return_ },
            Statement::DropFunction { if_exists, func_names } =>
                StatementView::DropFunction { if_exists: *if_exists, func_names: func_names@ },
            Statement::Select { table_name, selection } =>
                StatementView::Select { table_name: table_name@, selection: *selection },
            Statement::StartTransaction => StatementView::StartTransaction,
            Statement::Commit => StatementView::Commit,
            Statement::Rollback => StatementView::Rollback,
        }
    }
}

/// A statement ready to be executed.
#[derive(Debug, PartialEq, Eq)]
pub struct StatementPlan {
    pub statement: Statement,
}

/// The outcome of one executed statement.
#[derive(Debug, Clone, PartialEq, Eq)]
pub enum Payload {
    CreateFunction,
    DropFunction,
    Select { labels: Vec<String>, rows: Vec<Vec<Value>> },
    StartTransaction,
    Commit,
    Rollback,
}

/// An outcome with its strings and lists taken by their views.
pub enum PayloadView {
    CreateFunction,
    DropFunction,
    Select { labels: Seq<Seq<char>>, rows: Seq<Seq<Value>> },
    StartTransaction,
    Commit,
    Rollback,
}

impl View for Payload {
    type V = PayloadView;

    open spec fn view(&self) -> PayloadView {
        match self {
            Payload::CreateFunction => PayloadView::CreateFunction,
            Payload::DropFunction => PayloadView::DropFunction,
            Payload::Select { labels, rows } => PayloadView::Select {
                labels: labels@.map_values(|l: String| l@),
                rows: rows@.map_values(|r: Vec<Value>| r@),
            },
            Payload::StartTransaction => PayloadView::StartTransaction,
            Payload::Commit => PayloadView::Commit,
            Payload::Rollback => PayloadView::Rollback,
        }
    }
}

/// A value bound to a statement parameter.
pub type ParamLiteral = Value;

/// The column that holds the whole document of a schemaless table.
pub const SCHEMALESS_DOC_COLUMN: &'static str = "_doc";

/// Returns a value equal to `v`.
pub fn copy_value(v: &Value) -> (r: Value)
    ensures
        r == *v,
{
    match v {
        Value::Bool(b) => Value::Bool(*b),
        Value::I64(n) => Value::I64(*n),
        Value::Str(s) => Value::Str(s.clone()),
        Value::Null => Value::Null,
    }
}

/// Returns a key equal to `k`.
pub fn copy_key(k: &Key) -> (r: Key)
    ensures
        r == *k,
{
    match k {
        Key::I64(n) => Key::I64(*n),
        Key::Str(s) => Key::Str(s.clone()),
        Key::Null => Key::Null,
    }
}

/// Returns an expression equal to `e`.
pub fn copy_expr(e: &Expr) -> (r: Expr)
    ensures
        r == *e,
    decreases e,
{
    match e {
        Expr::Identifier(s) => Expr::Identifier(s.clone()),
        Expr::Literal(v) => Expr::Literal(copy_value(v)),
        Expr::Parameter(n) => Expr::Parameter(*n),
        Expr::IsNull(inner) => Expr::IsNull(Box::new(copy_expr(inner))),
        Expr::Not(inner) => Expr::Not(Box::new(copy_expr(inner))),
        Expr::BinaryOp { left, op, right } => Expr::BinaryOp {
            left: Box::new(copy_expr(left)),
            op: *op,
            right: Box::new(copy_expr(right)),
        },
    }
}

/// Returns an optional expression equal to `e`.
pub fn copy_opt_expr(e: &Option<Expr>) -> (r: Option<Expr>)
    ensures
        r == *e,
{
    match e {
        Some(x) => Some(copy_expr(x)),
        None => None,
    }
}

/// Returns an argument equal to `a`.
pub fn copy_arg(a: &OperateFunctionArg) -> (r: OperateFunctionArg)
    ensures
        r == *a,
{
    OperateFunctionArg { name: a.name.clone(), data_type: a.data_type, default: copy_opt_expr(&a.default) }
}

/// Returns a list of arguments with the same elements as `args`.
pub fn copy_args(args: &[OperateFunctionArg]) -> (r: Vec<OperateFunctionArg>)
    ensures
        r@ == args@,
{
    let mut r: Vec<OperateFunctionArg> = Vec::new();
    let mut i: usize = 0;
    while i < args.len()
        invariant
            i <= args.len(),
            r@ == args@.subrange(0, i as int),
        decreases args.len() - i,
    {
        r.push(copy_arg(&args[i]));
        i = i + 1;
    }
    r
}

/// Returns a column definition equal to `c`.
pub fn copy_column_def(c: &ColumnDef) -> (r: ColumnDef)
    ensures
        r == *c,
{
    ColumnDef {
        name: c.name.clone(),
        data_type: c.data_type,
        nullable: c.nullable,
        default: copy_opt_expr(&c.default),
    }
}

/// Returns a schema with the same view as `s`.
pub fn copy_schema(s: &Schema) -> (r: Schema)
    ensures
        r@ == s@,
{
    let column_defs = match &s.column_defs {
        Some(defs) => {
            let mut r: Vec<ColumnDef> = Vec::new();
            let mut i: usize = 0;
            while i < defs.len()
                invariant
                    i <= defs.len(),
                    r@ == defs@.subrange(0, i as int),
                decreases defs.len() - i,
            {
                r.push(copy_column_def(&defs[i]));
                i = i + 1;
            }
            assert(r@ =~= defs@);
            Some(r)
        },
        None => None,
    };
    let mut foreign_keys: Vec<ForeignKey> = Vec::new();
    let mut i: usize = 0;
    while i < s.foreign_keys.len()
        invariant
            i <= s.foreign_keys.len(),
            foreign_keys@ == s.foreign_keys@.subrange(0, i as int),
        decreases s.foreign_keys.len() - i,
    {
        foreign_keys.push(copy_foreign_key(&s.foreign_keys[i]));
        i = i + 1;
    }
    assert(foreign_keys@ =~= s.foreign_keys@);
    Schema { table_name: s.table_name.clone(), column_defs, foreign_keys }
}

/// Returns a foreign key equal to `fk`.
pub fn copy_foreign_key(fk: &ForeignKey) -> (r: ForeignKey)
    ensures
        r == *fk,
{
    ForeignKey {
        name: fk.name.clone(),
        referencing_column_name: fk.referencing_column_name.clone(),
        referenced_table_name: fk.referenced_table_name.clone(),
        referenced_column_name: fk.referenced_column_name.clone(),
    }
}

/// Returns a list of values with the same elements as `values`.
pub fn copy_values(values: &[Value]) -> (r: Vec<Value>)
    ensures
        r@ == values@,
{
    let mut r: Vec<Value> = Vec::new();
    let mut i: usize = 0;
    while i < values.len()
        invariant
            i <= values.len(),
            r@ == values@.subrange(0, i as int),
        decreases values.len() - i,
    {
        r.push(copy_value(&values[i]));
        i = i + 1;
    }
    r
}

} // verus!
