use vstd::prelude::*;

use crate::errors::{error_class, ErrClass, ErrorCode};
use crate::functions::{construct_scalar_spec, CastFunction, Function, FunctionView};
use crate::num_text::{dec_digits, dec_text_i64, push_i64_dec, push_u64_dec};
use crate::ordered_map::entry_index;
use crate::registry::{scalar_of_code_spec, FunctionFactory};
use crate::text::lower_of;
use crate::values::{
    first_with_name, value_view, DataSchema, DataType, DataValue, FieldView, ValueView,
};

verus! {

/// A parsed, typed expression tree, as the planner hands it over.
#[derive(Debug, PartialEq, Eq)]
pub enum Expression {
    /// A reference to a column of the input schema.
    Column(String),
    /// A not-yet-resolved qualified column; reaching the compiler with one
    /// is a caller fault.
    QualifiedColumn(Vec<String>),
    /// A literal with its declared type.
    Literal { value: DataValue, data_type: DataType },
    /// A renamed sub-expression.
    Alias(String, Box<Expression>),
    /// A scalar function of one argument.
    UnaryExpression { op: String, expr: Box<Expression> },
    /// A scalar function of two arguments.
    BinaryExpression { op: String, left: Box<Expression>, right: Box<Expression> },
    /// A scalar function of any arity.
    ScalarFunction { op: String, args: Vec<Expression> },
    /// An aggregate application; the chain compiler refuses it.
    AggregateFunction { op: String, args: Vec<Expression> },
    /// A cast to a destination type.
    Cast { expr: Box<Expression>, data_type: DataType },
    /// An element access over a container value.
    MapAccess { args: Vec<Expression> },
    /// A projection wildcard: visited, but no action.
    Wildcard,
    /// A sort marker: visited, but no action.
    Sort(Box<Expression>),
}

/// The mathematical shape of an expression tree.
#[verifier::ext_equal]
pub enum ExprView {
    Column(Seq<char>),
    QualifiedColumn(Seq<Seq<char>>),
    Literal { value: ValueView, data_type: DataType },
    Alias(Seq<char>, Box<ExprView>),
    UnaryExpression { op: Seq<char>, expr: Box<ExprView> },
    BinaryExpression { op: Seq<char>, left: Box<ExprView>, right: Box<ExprView> },
    ScalarFunction { op: Seq<char>, args: Seq<ExprView> },
    AggregateFunction { op: Seq<char>, args: Seq<ExprView> },
    Cast { expr: Box<ExprView>, data_type: DataType },
    MapAccess { args: Seq<ExprView> },
    Wildcard,
    Sort(Box<ExprView>),
}

/// The view of one expression.
pub open spec fn expr_view(e: Expression) -> ExprView
    decreases e,
    via expr_view_decreases
{
    match e {
        Expression::Column(c) => ExprView::Column(c@),
        Expression::QualifiedColumn(parts) => ExprView::QualifiedColumn(
            parts@.map_values(|p: String| p@),
        ),
        Expression::Literal { value, data_type } => ExprView::Literal {
            value: value_view(value),
            data_type,
        },
        Expression::Alias(n, sub) => ExprView::Alias(n@, Box::new(expr_view(*sub))),
        Expression::UnaryExpression { op, expr } => ExprView::UnaryExpression {
            op: op@,
            expr: Box::new(expr_view(*expr)),
        },
        Expression::BinaryExpression { op, left, right } => ExprView::BinaryExpression {
            op: op@,
            left: Box::new(expr_view(*left)),
            right: Box::new(expr_view(*right)),
        },
        Expression::ScalarFunction { op, args } => ExprView::ScalarFunction {
            op: op@,
            args: expr_view_seq(args@),
        },
        Expression::AggregateFunction { op, args } => ExprView::AggregateFunction {
            op: op@,
            args: expr_view_seq(args@),
        },
        Expression::Cast { expr, data_type } => ExprView::Cast {
            expr: Box::new(expr_view(*expr)),
            data_type,
        },
        Expression::MapAccess { args } => ExprView::MapAccess { args: expr_view_seq(args@) },
        Expression::Wildcard => ExprView::Wildcard,
        Expression::Sort(sub) => ExprView::Sort(Box::new(expr_view(*sub))),
    }
}

#[via_fn]
proof fn expr_view_decreases(e: Expression) {
    broadcast use vstd::std_specs::vec::axiom_vec_decreases_to_view;

}

/// The views of a sequence of expressions, in order.
pub open spec fn expr_view_seq(es: Seq<Expression>) -> Seq<ExprView>
    decreases es,
{
    if es.len() == 0 {
        Seq::empty()
    } else {
        seq![expr_view(es[0])] + expr_view_seq(es.drop_first())
    }
}

impl View for Expression {
    type V = ExprView;

    open spec fn view(&self) -> ExprView {
        expr_view(*self)
    }
}

/// `expr_view_seq` keeps the length and is pointwise `expr_view`.
pub proof fn lemma_expr_view_seq_index(es: Seq<Expression>, i: int)
    requires
        0 <= i < es.len(),
    ensures
        expr_view_seq(es).len() == es.len(),
        expr_view_seq(es)[i] == expr_view(es[i]),
    decreases es.len(),
{
    lemma_expr_view_seq_len(es);
    if i > 0 {
        lemma_expr_view_seq_index(es.drop_first(), i - 1);
    }
}

pub proof fn lemma_expr_view_seq_len(es: Seq<Expression>)
    ensures
        expr_view_seq(es).len() == es.len(),
    decreases es.len(),
{
    if es.len() > 0 {
        lemma_expr_view_seq_len(es.drop_first());
    }
}

// ---------------------------------------------------------------------
// Output names
// ---------------------------------------------------------------------

/// The textual name a literal materializes under.
pub open spec fn value_name_spec(v: ValueView) -> Seq<char> {
    match v {
        ValueView::Null => "NULL"@,
        ValueView::Boolean(b) => if b {
            "true"@
        } else {
            "false"@
        },
        ValueView::Int64(x) => dec_text_i64(x as int),
        ValueView::UInt64(x) => dec_digits(x as nat),
        ValueView::Utf8(o) => match o {
            Some(s) => s,
            None => "NULL"@,
        },
        ValueView::Struct(_) => "struct"@,
    }
}

/// Argument names joined with a comma and a space.
pub open spec fn join_names(names: Seq<Seq<char>>) -> Seq<char>
    decreases names.len(),
{
    if names.len() == 0 {
        Seq::empty()
    } else if names.len() == 1 {
        names[0]
    } else {
        join_names(names.drop_last()) + ", "@ + names.last()
    }
}

/// The functional rendering `op(a, b, ...)`.
pub open spec fn call_name(op: Seq<char>, arg_names: Seq<Seq<char>>) -> Seq<char> {
    op + "("@ + join_names(arg_names) + ")"@
}

/// The output-column name of an expression: the name its action produces
/// a value under, and the name dependent actions refer to it by.
pub open spec fn column_name_spec(e: ExprView) -> Seq<char>
    decreases e,
{
    match e {
        ExprView::Column(c) => c,
        ExprView::QualifiedColumn(parts) => if parts.len() == 0 {
            Seq::empty()
        } else {
            parts.last()
        },
        ExprView::Literal { value, .. } => value_name_spec(value),
        ExprView::Alias(n, _) => n,
        ExprView::UnaryExpression { op, expr } => call_name(op, seq![column_name_spec(*expr)]),
        ExprView::BinaryExpression { op, left, right } => call_name(
            op,
            seq![column_name_spec(*left), column_name_spec(*right)],
        ),
        ExprView::ScalarFunction { op, args } => call_name(op, column_name_seq(args)),
        ExprView::AggregateFunction { op, args } => call_name(op, column_name_seq(args)),
        ExprView::Cast { expr, .. } => call_name("cast"@, seq![column_name_spec(*expr)]),
        ExprView::MapAccess { args } => call_name("get"@, column_name_seq(args)),
        ExprView::Wildcard => "*"@,
        ExprView::Sort(sub) => column_name_spec(*sub),
    }
}

/// The output-column names of a sequence of expressions, in order.
pub open spec fn column_name_seq(es: Seq<ExprView>) -> Seq<Seq<char>>
    decreases es,
{
    if es.len() == 0 {
        Seq::empty()
    } else {
        seq![column_name_spec(es[0])] + column_name_seq(es.drop_first())
    }
}

pub proof fn lemma_column_name_seq_index(es: Seq<ExprView>, i: int)
    requires
        0 <= i < es.len(),
    ensures
        column_name_seq(es).len() == es.len(),
        column_name_seq(es)[i] == column_name_spec(es[i]),
    decreases es.len(),
{
    lemma_column_name_seq_len(es);
    if i > 0 {
        lemma_column_name_seq_index(es.drop_first(), i - 1);
    }
}

pub proof fn lemma_column_name_seq_len(es: Seq<ExprView>)
    ensures
        column_name_seq(es).len() == es.len(),
    decreases es.len(),
{
    if es.len() > 0 {
        lemma_column_name_seq_len(es.drop_first());
    }
}

/// Renders the textual name a literal materializes under.
fn value_name(v: &DataValue) -> (r: String)
    ensures
        r@ == value_name_spec(v@),
{
    match v {
        DataValue::Null => {
            let s = "NULL".to_owned();
            s
        },
        DataValue::Boolean(b) => {
            if *b {
                "true".to_owned()
            } else {
                "false".to_owned()
            }
        },
        DataValue::Int64(x) => {
            let mut s = String::new();
            push_i64_dec(&mut s, *x);
            proof {
                assert(s@ =~= dec_text_i64(*x as int));
            }
            s
        },
        DataValue::UInt64(x) => {
            let mut s = String::new();
            push_u64_dec(&mut s, *x);
            proof {
                assert(s@ =~= dec_digits(*x as nat));
            }
            s
        },
        DataValue::Utf8(o) => match o {
            Some(s) => s.clone(),
            None => "NULL".to_owned(),
        },
        DataValue::Struct(_) => "struct".to_owned(),
    }
}

/// Renders `op(a, b, ...)`.
fn render_call(op: &str, arg_names: &Vec<String>) -> (r: String)
    ensures
        r@ == call_name(op@, arg_names@.map_values(|n: String| n@)),
{
    let ghost names: Seq<Seq<char>> = arg_names@.map_values(|n: String| n@);
    let mut s = op.to_owned();
    s.append("(");
    let mut i: usize = 0;
    while i < arg_names.len()
        invariant
            names == arg_names@.map_values(|n: String| n@),
            i <= arg_names@.len(),
            s@ == op@ + "("@ + join_names(names.take(i as int)),
        decreases arg_names@.len() - i,
    {
        if i > 0 {
            s.append(", ");
        }
        s.append(arg_names[i].as_str());
        proof {
            assert(names.take(i + 1).drop_last() =~= names.take(i as int));
            assert(names.take(i + 1).last() == names[i as int]);
            if i > 0 {
                assert(s@ =~= op@ + "("@ + join_names(names.take(i + 1)));
            } else {
                assert(names.take(1) =~= seq![names[0]]);
                assert(s@ =~= op@ + "("@ + join_names(names.take(1)));
            }
        }
        i = i + 1;
    }
    s.append(")");
    proof {
        assert(names.take(names.len() as int) =~= names);
        assert(s@ =~= call_name(op@, names));
    }
    s
}

impl Expression {
    /// The name this expression's value stands under in the working batch.
    #[verifier::loop_isolation(false)]
    pub fn column_name(&self) -> (r: String)
        ensures
            r@ == column_name_spec(self@),
        decreases *self,
    {
        match self {
            Expression::Column(c) => c.clone(),
            Expression::QualifiedColumn(parts) => {
                if parts.len() == 0 {
                    String::new()
                } else {
                    let ghost pview = parts@.map_values(|p: String| p@);
                    let r = parts[parts.len() - 1].clone();
                    proof {
                        assert(pview.last() == parts@.last()@);
                    }
                    r
                }
            },
            Expression::Literal { value, .. } => value_name(value),
            Expression::Alias(n, _) => n.clone(),
            Expression::UnaryExpression { op, expr } => {
                let sub = expr.column_name();
                let arg_names: Vec<String> = vec![sub];
                let r = render_call(op.as_str(), &arg_names);
                proof {
                    assert(arg_names@.map_values(|n: String| n@) =~= seq![
                        column_name_spec(expr_view(**expr)),
                    ]);
                }
                r
            },
            Expression::BinaryExpression { op, left, right } => {
                let l = left.column_name();
                let rg = right.column_name();
                let arg_names: Vec<String> = vec![l, rg];
                let r = render_call(op.as_str(), &arg_names);
                proof {
                    assert(arg_names@.map_values(|n: String| n@) =~= seq![
                        column_name_spec(expr_view(**left)),
                        column_name_spec(expr_view(**right)),
                    ]);
                }
                r
            },
            Expression::ScalarFunction { op, args } => {
                let arg_names = column_names_of(args);
                let r = render_call(op.as_str(), &arg_names);
                proof {
                    assert(arg_names@.map_values(|n: String| n@) =~= column_name_seq(
                        expr_view_seq(args@),
                    ));
                }
                r
            },
            Expression::AggregateFunction { op, args } => {
                let arg_names = column_names_of(args);
                let r = render_call(op.as_str(), &arg_names);
                proof {
                    assert(arg_names@.map_values(|n: String| n@) =~= column_name_seq(
                        expr_view_seq(args@),
                    ));
                }
                r
            },
            Expression::Cast { expr, .. } => {
                let sub = expr.column_name();
                let arg_names: Vec<String> = vec![sub];
                let r = render_call("cast", &arg_names);
                proof {
                    assert(arg_names@.map_values(|n: String| n@) =~= seq![
                        column_name_spec(expr_view(**expr)),
                    ]);
                }
                r
            },
            Expression::MapAccess { args } => {
                let arg_names = column_names_of(args);
                let r = render_call("get", &arg_names);
                proof {
                    assert(arg_names@.map_values(|n: String| n@) =~= column_name_seq(
                        expr_view_seq(args@),
                    ));
                }
                r
            },
            Expression::Wildcard => "*".to_owned(),
            Expression::Sort(sub) => sub.column_name(),
        }
    }
}

/// The output-column names of each expression of a list.
#[verifier::loop_isolation(false)]
fn column_names_of(args: &Vec<Expression>) -> (r: Vec<String>)
    ensures
        r@.map_values(|n: String| n@) == column_name_seq(expr_view_seq(args@)),
    decreases *args,
{
    let ghost views = expr_view_seq(args@);
    let mut names: Vec<String> = Vec::new();
    let mut i: usize = 0;
    while i < args.len()
        invariant
            i <= args@.len(),
            names@.len() == i,
            forall|j: int|
                0 <= j < i ==> (#[trigger] names@[j])@ == column_name_spec(expr_view(args@[j])),
        decreases args@.len() - i,
    {
        proof {
            vstd::std_specs::vec::axiom_vec_index_decreases(*args, i as int);
        }
        let n = (&args[i]).column_name();
        names.push(n);
        i = i + 1;
    }
    proof {
        lemma_expr_view_seq_len(args@);
        lemma_column_name_seq_len(views);
        assert forall|j: int| 0 <= j < views.len() implies #[trigger] column_name_seq(views)[j]
            == (names@.map_values(|n: String| n@))[j] by {
            lemma_expr_view_seq_index(args@, j);
            lemma_column_name_seq_index(views, j);
        }
        assert(names@.map_values(|n: String| n@) =~= column_name_seq(views));
    }
    names
}


// ---------------------------------------------------------------------
// Type inference
// ---------------------------------------------------------------------

/// What resolving a scalar function against the registry yields: the
/// bound instance, `UnknownFunction` on a registry miss, `TypeMismatch`
/// when the constructor refuses the argument types.
pub open spec fn scalar_fn_spec(
    sreg: Seq<(Seq<char>, u64)>,
    op: Seq<char>,
    ts: Seq<DataType>,
) -> Result<FunctionView, ErrClass> {
    let i = entry_index(sreg, lower_of(op));
    if i < 0 {
        Err(ErrClass::UnknownFunction)
    } else {
        match construct_scalar_spec(scalar_of_code_spec(sreg[i].1)->Some_0, op, ts) {
            Some(f) => Ok(f),
            None => Err(ErrClass::TypeMismatch),
        }
    }
}

/// The result type of an expression over a schema and a scalar registry,
/// with the first error met in evaluation order.
pub open spec fn expr_type(
    schema: Seq<FieldView>,
    sreg: Seq<(Seq<char>, u64)>,
    e: ExprView,
) -> Result<DataType, ErrClass>
    decreases e,
{
    match e {
        ExprView::Column(c) => match first_with_name(schema, c) {
            Some(f) => Ok(f.data_type),
            None => Err(ErrClass::FieldNotFound),
        },
        ExprView::QualifiedColumn(_) => Err(ErrClass::LogicalError),
        ExprView::Literal { data_type, .. } => Ok(data_type),
        ExprView::Alias(_, sub) => expr_type(schema, sreg, *sub),
        ExprView::UnaryExpression { op, expr } => match expr_type(schema, sreg, *expr) {
            Ok(t) => match scalar_fn_spec(sreg, op, seq![t]) {
                Ok(f) => Ok(f.return_type),
                Err(c) => Err(c),
            },
            Err(c) => Err(c),
        },
        ExprView::BinaryExpression { op, left, right } => match expr_type(schema, sreg, *left) {
            Ok(tl) => match expr_type(schema, sreg, *right) {
                Ok(tr) => match scalar_fn_spec(sreg, op, seq![tl, tr]) {
                    Ok(f) => Ok(f.return_type),
                    Err(c) => Err(c),
                },
                Err(c) => Err(c),
            },
            Err(c) => Err(c),
        },
        ExprView::ScalarFunction { op, args } => match expr_types(schema, sreg, args) {
            Ok(ts) => match scalar_fn_spec(sreg, op, ts) {
                Ok(f) => Ok(f.return_type),
                Err(c) => Err(c),
            },
            Err(c) => Err(c),
        },
        ExprView::AggregateFunction { .. } => Err(ErrClass::LogicalError),
        ExprView::Cast { expr, data_type } => match expr_type(schema, sreg, *expr) {
            Ok(_) => Ok(data_type),
            Err(c) => Err(c),
        },
        ExprView::MapAccess { args } => match expr_types(schema, sreg, args) {
            Ok(ts) => match scalar_fn_spec(sreg, "get"@, ts) {
                Ok(f) => Ok(f.return_type),
                Err(c) => Err(c),
            },
            Err(c) => Err(c),
        },
        ExprView::Wildcard => Err(ErrClass::LogicalError),
        ExprView::Sort(sub) => expr_type(schema, sreg, *sub),
    }
}

/// The result types of a list of expressions, with the first error met.
pub open spec fn expr_types(
    schema: Seq<FieldView>,
    sreg: Seq<(Seq<char>, u64)>,
    es: Seq<ExprView>,
) -> Result<Seq<DataType>, ErrClass>
    decreases es,
{
    if es.len() == 0 {
        Ok(Seq::empty())
    } else {
        match expr_type(schema, sreg, es[0]) {
            Err(c) => Err(c),
            Ok(t) => match expr_types(schema, sreg, es.drop_first()) {
                Err(c) => Err(c),
                Ok(ts) => Ok(seq![t] + ts),
            },
        }
    }
}

/// When every element's type is known, the list's types are their list.
pub proof fn lemma_expr_types_all_ok(
    schema: Seq<FieldView>,
    sreg: Seq<(Seq<char>, u64)>,
    es: Seq<ExprView>,
    ts: Seq<DataType>,
)
    requires
        es.len() == ts.len(),
        forall|j: int| 0 <= j < es.len() ==> expr_type(schema, sreg, #[trigger] es[j]) == Ok::<
            DataType,
            ErrClass,
        >(ts[j]),
    ensures
        expr_types(schema, sreg, es) == Ok::<Seq<DataType>, ErrClass>(ts),
    decreases es.len(),
{
    if es.len() == 0 {
        assert(ts =~= Seq::<DataType>::empty());
    } else {
        lemma_expr_types_all_ok(schema, sreg, es.drop_first(), ts.drop_first());
        assert(seq![ts[0]] + ts.drop_first() =~= ts);
    }
}

/// The first element whose type is unknown decides the list's error.
pub proof fn lemma_expr_types_err_at(
    schema: Seq<FieldView>,
    sreg: Seq<(Seq<char>, u64)>,
    es: Seq<ExprView>,
    i: int,
    c: ErrClass,
)
    requires
        0 <= i < es.len(),
        forall|j: int| 0 <= j < i ==> expr_type(schema, sreg, #[trigger] es[j]) is Ok,
        expr_type(schema, sreg, es[i]) == Err::<DataType, ErrClass>(c),
    ensures
        expr_types(schema, sreg, es) == Err::<Seq<DataType>, ErrClass>(c),
    decreases i,
{
    if i > 0 {
        lemma_expr_types_err_at(schema, sreg, es.drop_first(), i - 1, c);
    }
}

impl Expression {
    /// The result type of this expression over `schema`, resolving scalar
    /// functions against `factory`. The error is the first met in
    /// evaluation order.
    #[verifier::loop_isolation(false)]
    pub fn to_data_type(&self, schema: &DataSchema, factory: &FunctionFactory) -> (r: Result<
        DataType,
        ErrorCode,
    >)
        requires
            factory.well_formed(),
        ensures
            match r {
                Ok(t) => expr_type(schema@, factory.entries(), self@) == Ok::<DataType, ErrClass>(
                    t,
                ),
                Err(e) => expr_type(schema@, factory.entries(), self@) == Err::<
                    DataType,
                    ErrClass,
                >(error_class(e)),
            },
        decreases *self,
    {
        match self {
            Expression::Column(c) => match schema.field_with_name(c.as_str()) {
                Ok(f) => Ok(f.data_type.clone()),
                Err(e) => Err(e),
            },
            Expression::QualifiedColumn(_) => Err(
                ErrorCode::LogicalError("qualified column reached the compiler".to_owned()),
            ),
            Expression::Literal { data_type, .. } => Ok(data_type.clone()),
            Expression::Alias(_, sub) => sub.to_data_type(schema, factory),
            Expression::UnaryExpression { op, expr } => {
                let t = match expr.to_data_type(schema, factory) {
                    Ok(t) => t,
                    Err(e) => {
                        return Err(e);
                    },
                };
                let arg_types: Vec<DataType> = vec![t];
                match factory.get(op.as_str(), &arg_types) {
                    Ok(f) => Ok(f.return_type()),
                    Err(e) => Err(e),
                }
            },
            Expression::BinaryExpression { op, left, right } => {
                let tl = match left.to_data_type(schema, factory) {
                    Ok(t) => t,
                    Err(e) => {
                        return Err(e);
                    },
                };
                let tr = match right.to_data_type(schema, factory) {
                    Ok(t) => t,
                    Err(e) => {
                        return Err(e);
                    },
                };
                let arg_types: Vec<DataType> = vec![tl, tr];
                match factory.get(op.as_str(), &arg_types) {
                    Ok(f) => Ok(f.return_type()),
                    Err(e) => Err(e),
                }
            },
            Expression::ScalarFunction { op, args } => {
                let arg_types = match arg_types_of(args, schema, factory) {
                    Ok(ts) => ts,
                    Err(e) => {
                        return Err(e);
                    },
                };
                match factory.get(op.as_str(), &arg_types) {
                    Ok(f) => Ok(f.return_type()),
                    Err(e) => Err(e),
                }
            },
            Expression::AggregateFunction { .. } => Err(
                ErrorCode::LogicalError("aggregate function reached the chain compiler".to_owned()),
            ),
            Expression::Cast { expr, data_type } => {
                match expr.to_data_type(schema, factory) {
                    Ok(_) => Ok(data_type.clone()),
                    Err(e) => Err(e),
                }
            },
            Expression::MapAccess { args } => {
                let arg_types = match arg_types_of(args, schema, factory) {
                    Ok(ts) => ts,
                    Err(e) => {
                        return Err(e);
                    },
                };
                match factory.get("get", &arg_types) {
                    Ok(f) => Ok(f.return_type()),
                    Err(e) => Err(e),
                }
            },
            Expression::Wildcard => Err(
                ErrorCode::LogicalError("wildcard carries no type".to_owned()),
            ),
            Expression::Sort(sub) => sub.to_data_type(schema, factory),
        }
    }
}

/// What the argument-type computation must yield: the list's types, or
/// the first error met.
pub open spec fn arg_types_post(
    schema: Seq<FieldView>,
    sreg: Seq<(Seq<char>, u64)>,
    es: Seq<ExprView>,
    r: Result<Vec<DataType>, ErrorCode>,
) -> bool {
    match r {
        Ok(ts) => expr_types(schema, sreg, es) == Ok::<Seq<DataType>, ErrClass>(ts@),
        Err(e) => expr_types(schema, sreg, es) == Err::<Seq<DataType>, ErrClass>(error_class(e)),
    }
}



/// What one element's type must be for the prefix handled so far.
pub open spec fn type_ok(sch: Seq<FieldView>, rg: Seq<(Seq<char>, u64)>, e: ExprView, t: DataType) -> bool {
    expr_type(sch, rg, e) == Ok::<DataType, ErrClass>(t)
}

/// The result types of each expression of a list, with the first error.
#[verifier::loop_isolation(false)]
fn arg_types_of(args: &Vec<Expression>, schema: &DataSchema, reg: &FunctionFactory) -> (r: Result<
    Vec<DataType>,
    ErrorCode,
>)
    requires
        reg.well_formed(),
    ensures
        arg_types_post(schema@, reg.entries(), expr_view_seq(args@), r),
    decreases *args,
{
    let ghost views = expr_view_seq(args@);
    proof {
        lemma_expr_view_seq_len(args@);
    }
    let mut ts: Vec<DataType> = Vec::new();
    let mut i: usize = 0;
    while i < args.len()
        invariant
            i <= args@.len(),
            ts@.len() == i,
            forall|j: int| 0 <= j < i ==> type_ok(schema@, reg.entries(), #[trigger] views[j], ts@[j]),
        decreases args@.len() - i,
    {
        proof {
            vstd::std_specs::vec::axiom_vec_index_decreases(*args, i as int);
            lemma_expr_view_seq_index(args@, i as int);
        }
        match (&args[i]).to_data_type(schema, reg) {
            Ok(t) => {
                ts.push(t);
            },
            Err(e) => {
                proof {
                    lemma_expr_types_err_at(schema@, reg.entries(), views, i as int, error_class(e));
                }
                return Err(e);
            },
        }
        i = i + 1;
    }
    proof {
        lemma_expr_types_all_ok(schema@, reg.entries(), views, ts@);
    }
    Ok(ts)
}


// ---------------------------------------------------------------------
// Actions
// ---------------------------------------------------------------------

/// A reference to a column already present in the working batch.
#[derive(Debug, PartialEq, Eq)]
pub struct ActionInput {
    pub name: String,
    pub return_type: DataType,
}

/// A literal materialized as a broadcastable scalar.
#[derive(Debug, PartialEq, Eq)]
pub struct ActionConstant {
    pub name: String,
    pub value: DataValue,
    pub data_type: DataType,
}

/// A renaming of a prior action's output.
#[derive(Debug, PartialEq, Eq)]
pub struct ActionAlias {
    pub name: String,
    pub arg_name: String,
    pub arg_type: DataType,
}

/// A bound, callable function with concrete argument and result types.
#[derive(Debug, PartialEq, Eq)]
pub struct ActionFunction {
    pub name: String,
    pub func_name: String,
    pub func: Function,
    pub arg_names: Vec<String>,
    pub arg_types: Vec<DataType>,
    pub return_type: DataType,
}

/// One step of a compiled, flattened expression.
#[derive(Debug, PartialEq, Eq)]
pub enum ExpressionAction {
    Input(ActionInput),
    Constant(ActionConstant),
    Alias(ActionAlias),
    Function(ActionFunction),
}

/// The mathematical shape of one action.
#[verifier::ext_equal]
pub enum ActionView {
    Input { name: Seq<char>, return_type: DataType },
    Constant { name: Seq<char>, value: ValueView, data_type: DataType },
    Alias { name: Seq<char>, arg_name: Seq<char>, arg_type: DataType },
    Function {
        name: Seq<char>,
        func_name: Seq<char>,
        func: FunctionView,
        arg_names: Seq<Seq<char>>,
        arg_types: Seq<DataType>,
        return_type: DataType,
    },
}

/// The view of one action.
pub open spec fn action_view(a: ExpressionAction) -> ActionView {
    match a {
        ExpressionAction::Input(x) => ActionView::Input {
            name: x.name@,
            return_type: x.return_type,
        },
        ExpressionAction::Constant(x) => ActionView::Constant {
            name: x.name@,
            value: value_view(x.value),
            data_type: x.data_type,
        },
        ExpressionAction::Alias(x) => ActionView::Alias {
            name: x.name@,
            arg_name: x.arg_name@,
            arg_type: x.arg_type,
        },
        ExpressionAction::Function(x) => ActionView::Function {
            name: x.name@,
            func_name: x.func_name@,
            func: x.func@,
            arg_names: x.arg_names@.map_values(|n: String| n@),
            arg_types: x.arg_types@,
            return_type: x.return_type,
        },
    }
}

impl View for ExpressionAction {
    type V = ActionView;

    open spec fn view(&self) -> ActionView {
        action_view(*self)
    }
}

/// The name under which an action delivers its output.
pub open spec fn action_name(a: ActionView) -> Seq<char> {
    match a {
        ActionView::Input { name, .. } => name,
        ActionView::Constant { name, .. } => name,
        ActionView::Alias { name, .. } => name,
        ActionView::Function { name, .. } => name,
    }
}

/// The names an action reads: what must already stand in the working
/// batch when it runs.
pub open spec fn action_deps(a: ActionView) -> Seq<Seq<char>> {
    match a {
        ActionView::Input { .. } => Seq::empty(),
        ActionView::Constant { .. } => Seq::empty(),
        ActionView::Alias { arg_name, .. } => seq![arg_name],
        ActionView::Function { arg_names, .. } => arg_names,
    }
}

// ---------------------------------------------------------------------
// The compilation model
// ---------------------------------------------------------------------

/// Concatenation over compilation results, with the first error.
pub open spec fn cat_actions(
    a: Result<Seq<ActionView>, ErrClass>,
    b: Result<Seq<ActionView>, ErrClass>,
) -> Result<Seq<ActionView>, ErrClass> {
    match a {
        Err(c) => Err(c),
        Ok(x) => match b {
            Err(c) => Err(c),
            Ok(y) => Ok(x + y),
        },
    }
}

/// The actions one visited node emits, its sub-expressions having been
/// compiled already: at most one action, or the node's own error.
pub open spec fn node_actions(
    sch: Seq<FieldView>,
    rg: Seq<(Seq<char>, u64)>,
    e: ExprView,
) -> Result<Seq<ActionView>, ErrClass> {
    match e {
        ExprView::Column(c) => match first_with_name(sch, c) {
            Some(f) => Ok(
                seq![ActionView::Input { name: c, return_type: f.data_type }],
            ),
            None => Err(ErrClass::FieldNotFound),
        },
        ExprView::QualifiedColumn(_) => Err(ErrClass::LogicalError),
        ExprView::Literal { value, data_type } => Ok(
            seq![
                ActionView::Constant { name: value_name_spec(value), value, data_type },
            ],
        ),
        ExprView::Alias(name, sub) => match expr_type(sch, rg, e) {
            Ok(t) => Ok(
                seq![
                    ActionView::Alias {
                        name,
                        arg_name: column_name_spec(*sub),
                        arg_type: t,
                    },
                ],
            ),
            Err(c) => Err(c),
        },
        ExprView::UnaryExpression { op, expr } => match expr_type(sch, rg, *expr) {
            Ok(t) => match scalar_fn_spec(rg, op, seq![t]) {
                Ok(f) => Ok(
                    seq![
                        ActionView::Function {
                            name: column_name_spec(e),
                            func_name: op,
                            func: f,
                            arg_names: seq![column_name_spec(*expr)],
                            arg_types: seq![t],
                            return_type: f.return_type,
                        },
                    ],
                ),
                Err(c) => Err(c),
            },
            Err(c) => Err(c),
        },
        ExprView::BinaryExpression { op, left, right } => match expr_type(sch, rg, *left) {
            Ok(tl) => match expr_type(sch, rg, *right) {
                Ok(tr) => match scalar_fn_spec(rg, op, seq![tl, tr]) {
                    Ok(f) => Ok(
                        seq![
                            ActionView::Function {
                                name: column_name_spec(e),
                                func_name: op,
                                func: f,
                                arg_names: seq![
                                    column_name_spec(*left),
                                    column_name_spec(*right),
                                ],
                                arg_types: seq![tl, tr],
                                return_type: f.return_type,
                            },
                        ],
                    ),
                    Err(c) => Err(c),
                },
                Err(c) => Err(c),
            },
            Err(c) => Err(c),
        },
        ExprView::ScalarFunction { op, args } => match expr_types(sch, rg, args) {
            Ok(ts) => match scalar_fn_spec(rg, op, ts) {
                Ok(f) => Ok(
                    seq![
                        ActionView::Function {
                            name: column_name_spec(e),
                            func_name: op,
                            func: f,
                            arg_names: column_name_seq(args),
                            arg_types: ts,
                            return_type: f.return_type,
                        },
                    ],
                ),
                Err(c) => Err(c),
            },
            Err(c) => Err(c),
        },
        ExprView::AggregateFunction { .. } => Err(ErrClass::LogicalError),
        ExprView::Cast { expr, data_type } => match expr_type(sch, rg, *expr) {
            Ok(from) => Ok(
                seq![
                    ActionView::Function {
                        name: column_name_spec(e),
                        func_name: "cast"@,
                        func: FunctionView { name: "cast"@, return_type: data_type },
                        arg_names: seq![column_name_spec(*expr)],
                        arg_types: seq![from],
                        return_type: data_type,
                    },
                ],
            ),
            Err(c) => Err(c),
        },
        ExprView::MapAccess { args } => match expr_types(sch, rg, args) {
            Ok(ts) => match scalar_fn_spec(rg, "get"@, ts) {
                Ok(f) => Ok(
                    seq![
                        ActionView::Function {
                            name: column_name_spec(e),
                            func_name: "get"@,
                            func: f,
                            arg_names: column_name_seq(args),
                            arg_types: ts,
                            return_type: f.return_type,
                        },
                    ],
                ),
                Err(c) => Err(c),
            },
            Err(c) => Err(c),
        },
        ExprView::Wildcard => Ok(Seq::empty()),
        ExprView::Sort(_) => Ok(Seq::empty()),
    }
}

/// The actions a whole subtree emits: a post-order walk, children before
/// their parent, stopped by the first error.
pub open spec fn compile_expr(
    sch: Seq<FieldView>,
    rg: Seq<(Seq<char>, u64)>,
    e: ExprView,
) -> Result<Seq<ActionView>, ErrClass>
    decreases e,
{
    match e {
        ExprView::Alias(_, sub) => cat_actions(
            compile_expr(sch, rg, *sub),
            node_actions(sch, rg, e),
        ),
        ExprView::UnaryExpression { expr, .. } => cat_actions(
            compile_expr(sch, rg, *expr),
            node_actions(sch, rg, e),
        ),
        ExprView::BinaryExpression { left, right, .. } => cat_actions(
            cat_actions(compile_expr(sch, rg, *left), compile_expr(sch, rg, *right)),
            node_actions(sch, rg, e),
        ),
        ExprView::ScalarFunction { args, .. } => cat_actions(
            compile_seq(sch, rg, args),
            node_actions(sch, rg, e),
        ),
        ExprView::AggregateFunction { args, .. } => cat_actions(
            compile_seq(sch, rg, args),
            node_actions(sch, rg, e),
        ),
        ExprView::Cast { expr, .. } => cat_actions(
            compile_expr(sch, rg, *expr),
            node_actions(sch, rg, e),
        ),
        ExprView::MapAccess { args } => cat_actions(
            compile_seq(sch, rg, args),
            node_actions(sch, rg, e),
        ),
        ExprView::Sort(sub) => cat_actions(
            compile_expr(sch, rg, *sub),
            node_actions(sch, rg, e),
        ),
        _ => node_actions(sch, rg, e),
    }
}

/// The actions of a list of subtrees, left to right.
pub open spec fn compile_seq(
    sch: Seq<FieldView>,
    rg: Seq<(Seq<char>, u64)>,
    es: Seq<ExprView>,
) -> Result<Seq<ActionView>, ErrClass>
    decreases es,
{
    if es.len() == 0 {
        Ok(Seq::empty())
    } else {
        cat_actions(compile_expr(sch, rg, es[0]), compile_seq(sch, rg, es.drop_first()))
    }
}


/// Extending a compiled prefix by one subtree appends that subtree's
/// actions, or stops at its error.
pub proof fn lemma_compile_seq_take_step(
    sch: Seq<FieldView>,
    rg: Seq<(Seq<char>, u64)>,
    v: Seq<ExprView>,
    i: int,
)
    requires
        0 <= i < v.len(),
    ensures
        compile_seq(sch, rg, v.take(i + 1)) == cat_actions(
            compile_seq(sch, rg, v.take(i)),
            compile_expr(sch, rg, v[i]),
        ),
    decreases i,
{
    if i == 0 {
        assert(v.take(1) =~= seq![v[0]]);
        assert(v.take(1).drop_first() =~= Seq::<ExprView>::empty());
        assert(v.take(0) =~= Seq::<ExprView>::empty());
        match compile_expr(sch, rg, v[0]) {
            Ok(x) => {
                assert(x + Seq::<ActionView>::empty() =~= x);
                assert(Seq::<ActionView>::empty() + x =~= x);
            },
            Err(_) => {},
        }
    } else {
        lemma_compile_seq_take_step(sch, rg, v.drop_first(), i - 1);
        assert(v.take(i + 1).drop_first() =~= v.drop_first().take(i));
        assert(v.take(i).drop_first() =~= v.drop_first().take(i - 1));
        assert(v.take(i + 1)[0] == v[0]);
        assert(v.take(i)[0] == v[0]);
        assert(v.drop_first()[i - 1] == v[i]);
        match compile_expr(sch, rg, v[0]) {
            Ok(x) => {
                match compile_seq(sch, rg, v.drop_first().take(i - 1)) {
                    Ok(y) => {
                        match compile_expr(sch, rg, v[i]) {
                            Ok(z) => {
                                assert((x + y) + z =~= x + (y + z));
                            },
                            Err(_) => {},
                        }
                    },
                    Err(_) => {},
                }
            },
            Err(_) => {},
        }
    }
}

/// An error met in a prefix decides the whole list.
pub proof fn lemma_compile_seq_err_extend(
    sch: Seq<FieldView>,
    rg: Seq<(Seq<char>, u64)>,
    v: Seq<ExprView>,
    i: int,
    c: ErrClass,
)
    requires
        0 <= i <= v.len(),
        compile_seq(sch, rg, v.take(i)) == Err::<Seq<ActionView>, ErrClass>(c),
    ensures
        compile_seq(sch, rg, v) == Err::<Seq<ActionView>, ErrClass>(c),
    decreases v.len() - i,
{
    if i == v.len() {
        assert(v.take(i) =~= v);
    } else {
        lemma_compile_seq_take_step(sch, rg, v, i);
        lemma_compile_seq_err_extend(sch, rg, v, i + 1, c);
    }
}

// ---------------------------------------------------------------------
// The chain
// ---------------------------------------------------------------------

/// The flat, replayable result of compilation: the input schema and the
/// dependency-ordered action list.
#[derive(Debug)]
pub struct ExpressionChain {
    pub schema: DataSchema,
    pub actions: Vec<ExpressionAction>,
}

impl ExpressionChain {
    /// The views of the actions, in order.
    pub open spec fn actions_view(&self) -> Seq<ActionView> {
        Seq::new(self.actions@.len(), |i: int| action_view(self.actions@[i]))
    }

    /// Compiles a list of expressions against a schema, resolving scalar
    /// functions through `factory`. The first error aborts the whole
    /// compilation; no partial chain is returned.
    #[verifier::loop_isolation(false)]
    pub fn try_create(schema: DataSchema, exprs: &Vec<Expression>, factory: &FunctionFactory) -> (r:
        Result<ExpressionChain, ErrorCode>)
        requires
            factory.well_formed(),
        ensures
            (match r {
                Ok(chain) => compile_seq(schema@, factory.entries(), expr_view_seq(exprs@))
                    == Ok::<Seq<ActionView>, ErrClass>(chain.actions_view()) && chain.schema@
                    == schema@,
                Err(e) => compile_seq(schema@, factory.entries(), expr_view_seq(exprs@)) == Err::<
                    Seq<ActionView>,
                    ErrClass,
                >(error_class(e)),
            }),
    {
        let ghost sview = schema@;
        let ghost views = expr_view_seq(exprs@);
        proof {
            lemma_expr_view_seq_len(exprs@);
        }
        let mut chain = ExpressionChain { schema: schema.clone(), actions: Vec::new() };
        proof {
            assert(views.take(0) =~= Seq::<ExprView>::empty());
            assert(chain.actions_view() =~= Seq::<ActionView>::empty());
        }
        let n = exprs.len();
        let mut i: usize = 0;
        while i < n
            invariant
                factory.well_formed(),
                n == exprs@.len(),
                i <= n,
                views == expr_view_seq(exprs@),
                chain.schema@ == sview,
                compile_seq(sview, factory.entries(), views.take(i as int)) == Ok::<
                    Seq<ActionView>,
                    ErrClass,
                >(chain.actions_view()),
            decreases n - i,
        {
            proof {
                lemma_expr_view_seq_index(exprs@, i as int);
                lemma_compile_seq_take_step(sview, factory.entries(), views, i as int);
            }
            match chain.recursion_add_expr(&exprs[i], factory) {
                Ok(()) => {},
                Err(e) => {
                    proof {
                        assert(compile_seq(sview, factory.entries(), views.take(i as int + 1))
                            == Err::<Seq<ActionView>, ErrClass>(error_class(e)));
                        lemma_compile_seq_err_extend(
                            sview,
                            factory.entries(),
                            views,
                            i as int + 1,
                            error_class(e),
                        );
                    }
                    return Err(e);
                },
            }
            i = i + 1;
        }
        proof {
            assert(views.take(n as int) =~= views);
        }
        Ok(chain)
    }

    /// Walks one expression tree post-order, children before their parent,
    /// and appends each visited node's actions.
    #[verifier::loop_isolation(false)]
    #[verifier::rlimit(60)]
    fn recursion_add_expr(&mut self, expr: &Expression, factory: &FunctionFactory) -> (r: Result<
        (),
        ErrorCode,
    >)
        requires
            factory.well_formed(),
        ensures
            final(self).schema@ == old(self).schema@,
            (match r {
                Ok(()) => {
                    &&& compile_expr(old(self).schema@, factory.entries(), expr@) is Ok
                    &&& final(self).actions_view() == old(self).actions_view() + compile_expr(
                        old(self).schema@,
                        factory.entries(),
                        expr@,
                    )->Ok_0
                },
                Err(e) => compile_expr(old(self).schema@, factory.entries(), expr@) == Err::<
                    Seq<ActionView>,
                    ErrClass,
                >(error_class(e)),
            }),
        decreases *expr,
    {
        let ghost sview = self.schema@;
        let ghost rg = factory.entries();
        match expr {
            Expression::Alias(_, sub) => {
                match self.recursion_add_expr(sub, factory) {
                Ok(()) => {},
                Err(e) => {
                    return Err(e);
                },
            }
                match self.add_expr(expr, factory) {
                Ok(()) => {},
                Err(e) => {
                    return Err(e);
                },
            }
                proof {
                    assert(self.actions_view() =~= old(self).actions_view() + compile_expr(
                        sview,
                        rg,
                        expr@,
                    )->Ok_0);
                }
                Ok(())
            },
            Expression::UnaryExpression { expr: sub, .. } => {
                match self.recursion_add_expr(sub, factory) {
                Ok(()) => {},
                Err(e) => {
                    return Err(e);
                },
            }
                match self.add_expr(expr, factory) {
                Ok(()) => {},
                Err(e) => {
                    return Err(e);
                },
            }
                proof {
                    assert(self.actions_view() =~= old(self).actions_view() + compile_expr(
                        sview,
                        rg,
                        expr@,
                    )->Ok_0);
                }
                Ok(())
            },
            Expression::BinaryExpression { left, right, .. } => {
                match self.recursion_add_expr(left, factory) {
                Ok(()) => {},
                Err(e) => {
                    return Err(e);
                },
            }
                match self.recursion_add_expr(right, factory) {
                Ok(()) => {},
                Err(e) => {
                    return Err(e);
                },
            }
                match self.add_expr(expr, factory) {
                Ok(()) => {},
                Err(e) => {
                    return Err(e);
                },
            }
                proof {
                    assert(self.actions_view() =~= old(self).actions_view() + compile_expr(
                        sview,
                        rg,
                        expr@,
                    )->Ok_0);
                }
                Ok(())
            },
            Expression::ScalarFunction { args, .. } => {
                match self.recursion_add_args(args, factory) {
                Ok(()) => {},
                Err(e) => {
                    return Err(e);
                },
            }
                match self.add_expr(expr, factory) {
                Ok(()) => {},
                Err(e) => {
                    return Err(e);
                },
            }
                proof {
                    assert(self.actions_view() =~= old(self).actions_view() + compile_expr(
                        sview,
                        rg,
                        expr@,
                    )->Ok_0);
                }
                Ok(())
            },
            Expression::AggregateFunction { args, .. } => {
                match self.recursion_add_args(args, factory) {
                Ok(()) => {},
                Err(e) => {
                    return Err(e);
                },
            }
                match self.add_expr(expr, factory) {
                Ok(()) => {},
                Err(e) => {
                    return Err(e);
                },
            }
                proof {
                    assert(self.actions_view() =~= old(self).actions_view() + compile_expr(
                        sview,
                        rg,
                        expr@,
                    )->Ok_0);
                }
                Ok(())
            },
            Expression::Cast { expr: sub, .. } => {
                match self.recursion_add_expr(sub, factory) {
                Ok(()) => {},
                Err(e) => {
                    return Err(e);
                },
            }
                match self.add_expr(expr, factory) {
                Ok(()) => {},
                Err(e) => {
                    return Err(e);
                },
            }
                proof {
                    assert(self.actions_view() =~= old(self).actions_view() + compile_expr(
                        sview,
                        rg,
                        expr@,
                    )->Ok_0);
                }
                Ok(())
            },
            Expression::MapAccess { args } => {
                match self.recursion_add_args(args, factory) {
                Ok(()) => {},
                Err(e) => {
                    return Err(e);
                },
            }
                match self.add_expr(expr, factory) {
                Ok(()) => {},
                Err(e) => {
                    return Err(e);
                },
            }
                proof {
                    assert(self.actions_view() =~= old(self).actions_view() + compile_expr(
                        sview,
                        rg,
                        expr@,
                    )->Ok_0);
                }
                Ok(())
            },
            Expression::Sort(sub) => {
                match self.recursion_add_expr(sub, factory) {
                Ok(()) => {},
                Err(e) => {
                    return Err(e);
                },
            }
                match self.add_expr(expr, factory) {
                Ok(()) => {},
                Err(e) => {
                    return Err(e);
                },
            }
                proof {
                    assert(self.actions_view() =~= old(self).actions_view() + compile_expr(
                        sview,
                        rg,
                        expr@,
                    )->Ok_0);
                }
                Ok(())
            },
            _ => {
                match self.add_expr(expr, factory) {
                Ok(()) => {},
                Err(e) => {
                    return Err(e);
                },
            }
                proof {
                    assert(self.actions_view() =~= old(self).actions_view() + compile_expr(
                        sview,
                        rg,
                        expr@,
                    )->Ok_0);
                }
                Ok(())
            },
        }
    }

    /// Walks each argument subtree, left to right.
    #[verifier::loop_isolation(false)]
    fn recursion_add_args(&mut self, args: &Vec<Expression>, factory: &FunctionFactory) -> (r:
        Result<(), ErrorCode>)
        requires
            factory.well_formed(),
        ensures
            final(self).schema@ == old(self).schema@,
            (match r {
                Ok(()) => {
                    &&& compile_seq(old(self).schema@, factory.entries(), expr_view_seq(args@))
                        is Ok
                    &&& final(self).actions_view() == old(self).actions_view() + compile_seq(
                        old(self).schema@,
                        factory.entries(),
                        expr_view_seq(args@),
                    )->Ok_0
                },
                Err(e) => compile_seq(old(self).schema@, factory.entries(), expr_view_seq(args@))
                    == Err::<Seq<ActionView>, ErrClass>(error_class(e)),
            }),
        decreases *args,
    {
        let ghost sview = self.schema@;
        let ghost rg = factory.entries();
        let ghost views = expr_view_seq(args@);
        proof {
            lemma_expr_view_seq_len(args@);
        }
        let n = args.len();
        proof {
            assert(views.take(0) =~= Seq::<ExprView>::empty());
            assert(self.actions_view().skip(old(self).actions_view().len() as int) =~= Seq::<
                ActionView,
            >::empty());
            assert(self.actions_view().take(old(self).actions_view().len() as int)
                =~= old(self).actions_view());
        }
        let mut i: usize = 0;
        while i < n
            invariant
                i <= n,
                self.schema@ == sview,
                compile_seq(sview, rg, views.take(i as int)) == Ok::<Seq<ActionView>, ErrClass>(
                    self.actions_view().skip(old(self).actions_view().len() as int),
                ),
                self.actions_view().take(old(self).actions_view().len() as int) == old(
                    self,
                ).actions_view(),
                self.actions_view().len() >= old(self).actions_view().len(),
            decreases n - i,
        {
            proof {
                vstd::std_specs::vec::axiom_vec_index_decreases(*args, i as int);
                lemma_expr_view_seq_index(args@, i as int);
                lemma_compile_seq_take_step(sview, rg, views, i as int);
            }
            let ghost before = self.actions_view();
            match self.recursion_add_expr(&args[i], factory) {
                Ok(()) => {
                    proof {
                        assert(self.actions_view().skip(old(self).actions_view().len() as int)
                            =~= compile_seq(sview, rg, views.take(i as int))->Ok_0 + compile_expr(
                            sview,
                            rg,
                            views[i as int],
                        )->Ok_0);
                        assert(self.actions_view().take(old(self).actions_view().len() as int)
                            =~= old(self).actions_view());
                    }
                },
                Err(e) => {
                    proof {
                        lemma_compile_seq_err_extend(sview, rg, views, i as int + 1, error_class(e));
                    }
                    return Err(e);
                },
            }
            i = i + 1;
        }
        proof {
            assert(views.take(n as int) =~= views);
            assert(old(self).actions_view() + self.actions_view().skip(
                old(self).actions_view().len() as int,
            ) =~= self.actions_view());
        }
        Ok(())
    }
}


impl ExpressionChain {
    /// Appends the action of one visited node, its sub-expressions having
    /// been compiled already. On an error nothing is appended.
    #[verifier::loop_isolation(false)]
    #[verifier::rlimit(60)]
    fn add_expr(&mut self, expr: &Expression, factory: &FunctionFactory) -> (r: Result<
        (),
        ErrorCode,
    >)
        requires
            factory.well_formed(),
        ensures
            final(self).schema@ == old(self).schema@,
            (match r {
                Ok(()) => {
                    &&& node_actions(old(self).schema@, factory.entries(), expr@) is Ok
                    &&& final(self).actions_view() == old(self).actions_view() + node_actions(
                        old(self).schema@,
                        factory.entries(),
                        expr@,
                    )->Ok_0
                },
                Err(e) => node_actions(old(self).schema@, factory.entries(), expr@) == Err::<
                    Seq<ActionView>,
                    ErrClass,
                >(error_class(e)) && final(self).actions_view() == old(self).actions_view(),
            }),
    {
        let ghost sview = self.schema@;
        let ghost rg = factory.entries();
        match expr {
            Expression::Alias(name, sub) => {
                let return_type = match expr.to_data_type(&self.schema, factory) {
                    Ok(t) => t,
                    Err(e) => {
                        return Err(e);
                    },
                };
                let alias = ActionAlias {
                    name: name.clone(),
                    arg_name: sub.column_name(),
                    arg_type: return_type,
                };
                self.actions.push(ExpressionAction::Alias(alias));
                proof {
                    assert(self.actions_view() =~= old(self).actions_view() + node_actions(
                        sview,
                        rg,
                        expr@,
                    )->Ok_0);
                }
                Ok(())
            },
            Expression::Column(c) => {
                let arg_type = match self.schema.field_with_name(c.as_str()) {
                    Ok(f) => f.data_type.clone(),
                    Err(e) => {
                        return Err(e);
                    },
                };
                let input = ActionInput { name: c.clone(), return_type: arg_type };
                self.actions.push(ExpressionAction::Input(input));
                proof {
                    assert(self.actions_view() =~= old(self).actions_view() + node_actions(
                        sview,
                        rg,
                        expr@,
                    )->Ok_0);
                }
                Ok(())
            },
            Expression::QualifiedColumn(_) => Err(
                ErrorCode::LogicalError(
                    "qualified column should be resolved before compilation".to_owned(),
                ),
            ),
            Expression::Literal { value, data_type } => {
                let constant = ActionConstant {
                    name: expr.column_name(),
                    value: value.clone(),
                    data_type: data_type.clone(),
                };
                self.actions.push(ExpressionAction::Constant(constant));
                proof {
                    assert(self.actions_view() =~= old(self).actions_view() + node_actions(
                        sview,
                        rg,
                        expr@,
                    )->Ok_0);
                }
                Ok(())
            },
            Expression::UnaryExpression { op, expr: nested } => {
                let t = match nested.to_data_type(&self.schema, factory) {
                    Ok(t) => t,
                    Err(e) => {
                        return Err(e);
                    },
                };
                let ghost gt = t;
                let arg_types: Vec<DataType> = vec![t];
                proof {
                    assert(arg_types@ =~= seq![gt]);
                }
                let func = match factory.get(op.as_str(), &arg_types) {
                    Ok(f) => f,
                    Err(e) => {
                        return Err(e);
                    },
                };
                let return_type = func.return_type();
                let arg_names: Vec<String> = vec![nested.column_name()];
                let function = ActionFunction {
                    name: expr.column_name(),
                    func_name: op.clone(),
                    func,
                    arg_names,
                    arg_types,
                    return_type,
                };
                self.actions.push(ExpressionAction::Function(function));
                proof {
                    assert(function.arg_names@.map_values(|n: String| n@) =~= seq![
                        column_name_spec(expr_view(**nested)),
                    ]);
                    assert(self.actions_view() =~= old(self).actions_view() + node_actions(
                        sview,
                        rg,
                        expr@,
                    )->Ok_0);
                }
                Ok(())
            },
            Expression::BinaryExpression { op, left, right } => {
                let tl = match left.to_data_type(&self.schema, factory) {
                    Ok(t) => t,
                    Err(e) => {
                        return Err(e);
                    },
                };
                let tr = match right.to_data_type(&self.schema, factory) {
                    Ok(t) => t,
                    Err(e) => {
                        return Err(e);
                    },
                };
                let ghost gtl = tl;
                let ghost gtr = tr;
                let arg_types: Vec<DataType> = vec![tl, tr];
                proof {
                    assert(arg_types@ =~= seq![gtl, gtr]);
                }
                let func = match factory.get(op.as_str(), &arg_types) {
                    Ok(f) => f,
                    Err(e) => {
                        return Err(e);
                    },
                };
                let return_type = func.return_type();
                let arg_names: Vec<String> = vec![left.column_name(), right.column_name()];
                let function = ActionFunction {
                    name: expr.column_name(),
                    func_name: op.clone(),
                    func,
                    arg_names,
                    arg_types,
                    return_type,
                };
                self.actions.push(ExpressionAction::Function(function));
                proof {
                    assert(function.arg_names@.map_values(|n: String| n@) =~= seq![
                        column_name_spec(expr_view(**left)),
                        column_name_spec(expr_view(**right)),
                    ]);
                    assert(self.actions_view() =~= old(self).actions_view() + node_actions(
                        sview,
                        rg,
                        expr@,
                    )->Ok_0);
                }
                Ok(())
            },
            Expression::ScalarFunction { op, args } => {
                let arg_types = match arg_types_of(args, &self.schema, factory) {
                    Ok(ts) => ts,
                    Err(e) => {
                        return Err(e);
                    },
                };
                let func = match factory.get(op.as_str(), &arg_types) {
                    Ok(f) => f,
                    Err(e) => {
                        return Err(e);
                    },
                };
                let return_type = func.return_type();
                let arg_names = column_names_of(args);
                let function = ActionFunction {
                    name: expr.column_name(),
                    func_name: op.clone(),
                    func,
                    arg_names,
                    arg_types,
                    return_type,
                };
                self.actions.push(ExpressionAction::Function(function));
                proof {
                    assert(self.actions_view() =~= old(self).actions_view() + node_actions(
                        sview,
                        rg,
                        expr@,
                    )->Ok_0);
                }
                Ok(())
            },
            Expression::AggregateFunction { .. } => Err(
                ErrorCode::LogicalError("action must be a non-aggregated function".to_owned()),
            ),
            Expression::Wildcard => {
                proof {
                    assert(self.actions_view() =~= old(self).actions_view() + Seq::<
                        ActionView,
                    >::empty());
                }
                Ok(())
            },
            Expression::Sort(_) => {
                proof {
                    assert(self.actions_view() =~= old(self).actions_view() + Seq::<
                        ActionView,
                    >::empty());
                }
                Ok(())
            },
            Expression::Cast { expr: sub, data_type } => {
                let from_type = match sub.to_data_type(&self.schema, factory) {
                    Ok(t) => t,
                    Err(e) => {
                        return Err(e);
                    },
                };
                let func = if data_type.is_nullable() {
                    match CastFunction::create_try("cast", data_type, from_type.clone()) {
                        Ok(f) => f,
                        Err(e) => {
                            return Err(e);
                        },
                    }
                } else {
                    match CastFunction::create("cast", data_type, from_type.clone()) {
                        Ok(f) => f,
                        Err(e) => {
                            return Err(e);
                        },
                    }
                };
                let ghost gfrom = from_type;
                let arg_names: Vec<String> = vec![sub.column_name()];
                let arg_types: Vec<DataType> = vec![from_type];
                proof {
                    assert(arg_types@ =~= seq![gfrom]);
                }
                let function = ActionFunction {
                    name: expr.column_name(),
                    func_name: "cast".to_owned(),
                    func,
                    arg_names,
                    arg_types,
                    return_type: data_type.clone(),
                };
                self.actions.push(ExpressionAction::Function(function));
                proof {
                    assert(function.arg_names@.map_values(|n: String| n@) =~= seq![
                        column_name_spec(expr_view(**sub)),
                    ]);
                    assert(self.actions_view() =~= old(self).actions_view() + node_actions(
                        sview,
                        rg,
                        expr@,
                    )->Ok_0);
                }
                Ok(())
            },
            Expression::MapAccess { args } => {
                let arg_types = match arg_types_of(args, &self.schema, factory) {
                    Ok(ts) => ts,
                    Err(e) => {
                        return Err(e);
                    },
                };
                let func = match factory.get("get", &arg_types) {
                    Ok(f) => f,
                    Err(e) => {
                        return Err(e);
                    },
                };
                let return_type = func.return_type();
                let arg_names = column_names_of(args);
                let function = ActionFunction {
                    name: expr.column_name(),
                    func_name: "get".to_owned(),
                    func,
                    arg_names,
                    arg_types,
                    return_type,
                };
                self.actions.push(ExpressionAction::Function(function));
                proof {
                    assert(self.actions_view() =~= old(self).actions_view() + node_actions(
                        sview,
                        rg,
                        expr@,
                    )->Ok_0);
                }
                Ok(())
            },
        }
    }
}

} // verus!
