use vstd::prelude::*;

use crate::errors::ErrorCode;
use crate::values::{DataField, DataType, DataValue, FieldView, ValueView, value_view_seq};

verus! {

/// The views of a sequence of fields, in order.
pub open spec fn fields_view(s: Seq<DataField>) -> Seq<FieldView> {
    s.map_values(|f: DataField| f@)
}

/// A bound scalar function instance: its name and its concrete result type,
/// resolved against the argument types at compilation time.
#[derive(Debug, PartialEq, Eq)]
pub struct Function {
    pub name: String,
    pub return_type: DataType,
}

/// The mathematical shape of a bound scalar function.
#[verifier::ext_equal]
pub struct FunctionView {
    pub name: Seq<char>,
    pub return_type: DataType,
}

impl View for Function {
    type V = FunctionView;

    open spec fn view(&self) -> FunctionView {
        FunctionView { name: self.name@, return_type: self.return_type }
    }
}

impl Clone for Function {
    fn clone(&self) -> (r: Self)
        ensures
            r@ == self@,
    {
        Function { name: self.name.clone(), return_type: self.return_type.clone() }
    }
}

impl Function {
    /// The concrete result type the function was bound with.
    pub fn return_type(&self) -> (r: DataType)
        ensures
            r == self@.return_type,
    {
        self.return_type.clone()
    }
}

/// How a registered scalar function computes its result type from its
/// argument types.
#[derive(Debug, Clone, Copy, PartialEq, Eq, Structural)]
pub enum ScalarCtor {
    /// The result has the type of the first argument; at least one argument.
    Arithmetic,
    /// A boolean result from exactly two arguments.
    Comparison,
    /// A textual result from exactly one argument.
    TypeName,
}

/// What constructing a scalar function yields: the bound instance, or
/// `TypeMismatch` when the arity does not fit the constructor.
pub open spec fn construct_scalar_spec(ctor: ScalarCtor, name: Seq<char>, arg_types: Seq<
    DataType,
>) -> Option<FunctionView> {
    match ctor {
        ScalarCtor::Arithmetic => if arg_types.len() >= 1 {
            Some(FunctionView { name, return_type: arg_types[0] })
        } else {
            None
        },
        ScalarCtor::Comparison => if arg_types.len() == 2 {
            Some(FunctionView { name, return_type: DataType::Boolean })
        } else {
            None
        },
        ScalarCtor::TypeName => if arg_types.len() == 1 {
            Some(FunctionView { name, return_type: DataType::Utf8 })
        } else {
            None
        },
    }
}

/// Binds a scalar constructor to concrete argument types.
pub fn construct_scalar(ctor: ScalarCtor, name: &str, arg_types: &Vec<DataType>) -> (r: Result<
    Function,
    ErrorCode,
>)
    ensures
        match r {
            Ok(f) => construct_scalar_spec(ctor, name@, arg_types@) == Some(f@),
            Err(e) => construct_scalar_spec(ctor, name@, arg_types@) is None && e matches ErrorCode::TypeMismatch(_),
        },
{
    match ctor {
        ScalarCtor::Arithmetic => {
            if arg_types.len() >= 1 {
                Ok(Function { name: name.to_owned(), return_type: arg_types[0].clone() })
            } else {
                Err(ErrorCode::TypeMismatch(name.to_owned()))
            }
        },
        ScalarCtor::Comparison => {
            if arg_types.len() == 2 {
                Ok(Function { name: name.to_owned(), return_type: DataType::Boolean })
            } else {
                Err(ErrorCode::TypeMismatch(name.to_owned()))
            }
        },
        ScalarCtor::TypeName => {
            if arg_types.len() == 1 {
                Ok(Function { name: name.to_owned(), return_type: DataType::Utf8 })
            } else {
                Err(ErrorCode::TypeMismatch(name.to_owned()))
            }
        },
    }
}

/// The cast function family. A strict cast fails an incompatible value at
/// execution time; the try-cast yields null instead, and is chosen for
/// nullable destination types.
pub struct CastFunction;

impl CastFunction {
    /// A strict cast to `target`.
    pub fn create(name: &str, target: &DataType, _from_type: DataType) -> (r: Result<
        Function,
        ErrorCode,
    >)
        ensures
            r matches Ok(f) && f@ == (FunctionView { name: name@, return_type: *target }),
    {
        Ok(Function { name: name.to_owned(), return_type: target.clone() })
    }

    /// A cast to `target` that yields null on an incompatible value.
    pub fn create_try(name: &str, target: &DataType, _from_type: DataType) -> (r: Result<
        Function,
        ErrorCode,
    >)
        ensures
            r matches Ok(f) && f@ == (FunctionView { name: name@, return_type: *target }),
    {
        Ok(Function { name: name.to_owned(), return_type: target.clone() })
    }
}

/// A suffix-triggered decoration of a base aggregate: the conditional or
/// the distinct variant.
#[derive(Debug, Clone, Copy, PartialEq, Eq, Structural)]
pub enum Combinator {
    If,
    Distinct,
}

/// A base aggregate accumulator together with its state.
#[derive(Debug, Clone, Copy, PartialEq, Eq, Structural)]
pub enum AggregateKind {
    Count { total: u64 },
    Sum { total: i64 },
    Min { current: Option<i64> },
}

/// A merge-capable aggregate function instance.
#[derive(Debug, PartialEq, Eq)]
pub struct AggregateFunction {
    pub name: String,
    pub combinator: Option<Combinator>,
    pub kind: AggregateKind,
}

/// The mathematical shape of an aggregate function instance.
#[verifier::ext_equal]
pub struct AggView {
    pub name: Seq<char>,
    pub combinator: Option<Combinator>,
    pub kind: AggregateKind,
}

impl View for AggregateFunction {
    type V = AggView;

    open spec fn view(&self) -> AggView {
        AggView { name: self.name@, combinator: self.combinator, kind: self.kind }
    }
}

impl Clone for AggregateFunction {
    fn clone(&self) -> (r: Self)
        ensures
            r@ == self@,
    {
        AggregateFunction { name: self.name.clone(), combinator: self.combinator, kind: self.kind }
    }
}

/// What merging one decoded state snapshot into an accumulator yields:
/// the new accumulator, or nothing when the snapshot does not fit the
/// accumulator (wrong shape, wrong value kind, or an overflowing total).
pub open spec fn merge_kind_spec(k: AggregateKind, states: Seq<ValueView>) -> Option<
    AggregateKind,
> {
    if states.len() < 1 {
        None
    } else {
        match k {
            AggregateKind::Count { total } => match states[0] {
                ValueView::UInt64(v) => if total + v <= u64::MAX {
                    Some(AggregateKind::Count { total: (total + v) as u64 })
                } else {
                    None
                },
                _ => None,
            },
            AggregateKind::Sum { total } => match states[0] {
                ValueView::Int64(v) => if i64::MIN <= total + v <= i64::MAX {
                    Some(AggregateKind::Sum { total: (total + v) as i64 })
                } else {
                    None
                },
                _ => None,
            },
            AggregateKind::Min { current } => match states[0] {
                ValueView::Int64(v) => Some(
                    AggregateKind::Min {
                        current: Some(
                            match current {
                                None => v,
                                Some(c) => if v < c {
                                    v
                                } else {
                                    c
                                },
                            },
                        ),
                    },
                ),
                ValueView::Null => Some(AggregateKind::Min { current }),
                _ => None,
            },
        }
    }
}

/// The finalized scalar of an accumulator.
pub open spec fn merge_result_spec(k: AggregateKind) -> ValueView {
    match k {
        AggregateKind::Count { total } => ValueView::UInt64(total),
        AggregateKind::Sum { total } => ValueView::Int64(total),
        AggregateKind::Min { current } => match current {
            Some(v) => ValueView::Int64(v),
            None => ValueView::Null,
        },
    }
}

impl AggregateFunction {
    /// Merges one decoded partial-state snapshot into the accumulator.
    /// `BadState` exactly when the snapshot does not fit the accumulator.
    pub fn merge(&mut self, states: &Vec<DataValue>) -> (r: Result<(), ErrorCode>)
        ensures
            match r {
                Ok(()) => {
                    &&& merge_kind_spec(old(self).kind, value_view_seq(states@)) == Some(
                        final(self).kind,
                    )
                    &&& final(self).name@ == old(self).name@
                    &&& final(self).combinator == old(self).combinator
                },
                Err(e) => merge_kind_spec(old(self).kind, value_view_seq(states@)) is None
                    && e matches ErrorCode::BadState(_),
            },
    {
        if states.len() < 1 {
            return Err(ErrorCode::BadState(self.name.clone()));
        }
        proof {
            crate::values::lemma_value_view_seq_index(states@, 0);
        }
        match &self.kind {
            AggregateKind::Count { total } => match &states[0] {
                DataValue::UInt64(v) => {
                    match total.checked_add(*v) {
                        Some(t) => {
                            self.kind = AggregateKind::Count { total: t };
                            Ok(())
                        },
                        None => Err(ErrorCode::BadState(self.name.clone())),
                    }
                },
                _ => Err(ErrorCode::BadState(self.name.clone())),
            },
            AggregateKind::Sum { total } => match &states[0] {
                DataValue::Int64(v) => {
                    match total.checked_add(*v) {
                        Some(t) => {
                            self.kind = AggregateKind::Sum { total: t };
                            Ok(())
                        },
                        None => Err(ErrorCode::BadState(self.name.clone())),
                    }
                },
                _ => Err(ErrorCode::BadState(self.name.clone())),
            },
            AggregateKind::Min { current } => match &states[0] {
                DataValue::Int64(v) => {
                    let next = match current {
                        None => *v,
                        Some(c) => if *v < *c {
                            *v
                        } else {
                            *c
                        },
                    };
                    self.kind = AggregateKind::Min { current: Some(next) };
                    Ok(())
                },
                DataValue::Null => Ok(()),
                _ => Err(ErrorCode::BadState(self.name.clone())),
            },
        }
    }

    /// The finalized scalar result of the accumulator.
    pub fn merge_result(&self) -> (r: Result<DataValue, ErrorCode>)
        ensures
            r matches Ok(v) && v@ == merge_result_spec(self.kind),
    {
        match &self.kind {
            AggregateKind::Count { total } => Ok(DataValue::UInt64(*total)),
            AggregateKind::Sum { total } => Ok(DataValue::Int64(*total)),
            AggregateKind::Min { current } => match current {
                Some(v) => Ok(DataValue::Int64(*v)),
                None => Ok(DataValue::Null),
            },
        }
    }
}

/// A constructor registered for a base aggregate name.
#[derive(Debug, Clone, Copy, PartialEq, Eq, Structural)]
pub enum FactoryFunc {
    CountCtor,
    SumCtor,
    MinCtor,
}

/// A constructor registered for a combinator suffix.
#[derive(Debug, Clone, Copy, PartialEq, Eq, Structural)]
pub enum FactoryCombinatorFunc {
    IfCtor,
    DistinctCtor,
}

/// What constructing a base aggregate yields: the fresh instance, or
/// `TypeMismatch` when the arity does not fit.
pub open spec fn construct_aggregate_spec(f: FactoryFunc, name: Seq<char>, args: Seq<
    FieldView,
>) -> Option<AggView> {
    match f {
        FactoryFunc::CountCtor => Some(
            AggView { name, combinator: None, kind: AggregateKind::Count { total: 0 } },
        ),
        FactoryFunc::SumCtor => if args.len() == 1 {
            Some(AggView { name, combinator: None, kind: AggregateKind::Sum { total: 0 } })
        } else {
            None
        },
        FactoryFunc::MinCtor => if args.len() == 1 {
            Some(AggView { name, combinator: None, kind: AggregateKind::Min { current: None } })
        } else {
            None
        },
    }
}

/// Builds a fresh base aggregate instance. The literal parameters are
/// accepted for interface parity; none of the registered aggregates
/// reads them.
pub fn construct_aggregate(
    f: FactoryFunc,
    name: &str,
    _params: &Vec<DataValue>,
    args: &Vec<DataField>,
) -> (r: Result<AggregateFunction, ErrorCode>)
    ensures
        match r {
            Ok(a) => construct_aggregate_spec(f, name@, fields_view(args@)) == Some(a@),
            Err(e) => construct_aggregate_spec(f, name@, fields_view(args@)) is None
                && e matches ErrorCode::TypeMismatch(_),
        },
{
    match f {
        FactoryFunc::CountCtor => Ok(
            AggregateFunction {
                name: name.to_owned(),
                combinator: None,
                kind: AggregateKind::Count { total: 0 },
            },
        ),
        FactoryFunc::SumCtor => {
            if args.len() == 1 {
                Ok(
                    AggregateFunction {
                        name: name.to_owned(),
                        combinator: None,
                        kind: AggregateKind::Sum { total: 0 },
                    },
                )
            } else {
                Err(ErrorCode::TypeMismatch(name.to_owned()))
            }
        },
        FactoryFunc::MinCtor => {
            if args.len() == 1 {
                Ok(
                    AggregateFunction {
                        name: name.to_owned(),
                        combinator: None,
                        kind: AggregateKind::Min { current: None },
                    },
                )
            } else {
                Err(ErrorCode::TypeMismatch(name.to_owned()))
            }
        },
    }
}

/// What wrapping a base aggregate in a combinator yields. The conditional
/// variant consumes a trailing predicate argument before the nested
/// constructor runs; the distinct variant passes the arguments through.
pub open spec fn construct_combinator_spec(
    c: FactoryCombinatorFunc,
    nested: FactoryFunc,
    name: Seq<char>,
    args: Seq<FieldView>,
) -> Option<AggView> {
    match c {
        FactoryCombinatorFunc::IfCtor => if args.len() >= 1 {
            match construct_aggregate_spec(nested, name, args.take(args.len() - 1)) {
                Some(a) => Some(AggView { combinator: Some(Combinator::If), ..a }),
                None => None,
            }
        } else {
            None
        },
        FactoryCombinatorFunc::DistinctCtor => match construct_aggregate_spec(
            nested,
            name,
            args,
        ) {
            Some(a) => Some(AggView { combinator: Some(Combinator::Distinct), ..a }),
            None => None,
        },
    }
}

/// Builds a decorated aggregate instance around a nested constructor.
pub fn construct_combinator(
    c: FactoryCombinatorFunc,
    nested: FactoryFunc,
    name: &str,
    params: &Vec<DataValue>,
    args: &Vec<DataField>,
) -> (r: Result<AggregateFunction, ErrorCode>)
    ensures
        match r {
            Ok(a) => construct_combinator_spec(c, nested, name@, fields_view(args@)) == Some(a@),
            Err(e) => construct_combinator_spec(c, nested, name@, fields_view(args@)) is None
                && e matches ErrorCode::TypeMismatch(_),
        },
{
    match c {
        FactoryCombinatorFunc::IfCtor => {
            if args.len() < 1 {
                return Err(ErrorCode::TypeMismatch(name.to_owned()));
            }
            let mut sub_args: Vec<DataField> = Vec::new();
            let keep = args.len() - 1;
            let mut i: usize = 0;
            while i < keep
                invariant
                    keep == args@.len() - 1,
                    i <= keep,
                    sub_args@.len() == i,
                    forall|j: int| 0 <= j < i ==> sub_args@[j]@ == args@[j]@,
                decreases keep - i,
            {
                sub_args.push(args[i].clone());
                i = i + 1;
            }
            proof {
                assert(fields_view(sub_args@) =~= fields_view(args@).take(
                    fields_view(args@).len() - 1,
                ));
            }
            match construct_aggregate(nested, name, params, &sub_args) {
                Ok(mut a) => {
                    a.combinator = Some(Combinator::If);
                    Ok(a)
                },
                Err(e) => Err(e),
            }
        },
        FactoryCombinatorFunc::DistinctCtor => {
            match construct_aggregate(nested, name, params, args) {
                Ok(mut a) => {
                    a.combinator = Some(Combinator::Distinct);
                    Ok(a)
                },
                Err(e) => Err(e),
            }
        },
    }
}

} // verus!
