use query_core::chain::Expression;
use query_core::errors::ErrorCode;
use query_core::functions::{
    AggregateFunction, AggregateKind, Combinator, FactoryCombinatorFunc, FactoryFunc,
};
use query_core::processors::{AggregatorFinalTransform, DataBlock, Processor, SourceProcessor};
use query_core::registry::AggregateFunctionFactory;
use query_core::values::{DataField, DataSchema, DataType, DataValue};

fn aggregate_registry() -> AggregateFunctionFactory {
    let mut f = AggregateFunctionFactory::create();
    f.register("sum", FactoryFunc::SumCtor);
    f.register("count", FactoryFunc::CountCtor);
    f.register("min", FactoryFunc::MinCtor);
    f.register_combinator("if", FactoryCombinatorFunc::IfCtor);
    f.register_combinator("distinct", FactoryCombinatorFunc::DistinctCtor);
    f
}

fn one_field() -> Vec<DataField> {
    vec![DataField::new("a".to_string(), DataType::Int64)]
}

fn two_fields() -> Vec<DataField> {
    vec![
        DataField::new("a".to_string(), DataType::Int64),
        DataField::new("cond".to_string(), DataType::Boolean),
    ]
}

#[test]
fn get_resolves_case_insensitively() {
    let reg = aggregate_registry();
    let params: Vec<DataValue> = vec![];
    let upper = reg.get("SUM", &params, &one_field()).unwrap();
    let lower = reg.get("sum", &params, &one_field()).unwrap();
    let mixed = reg.get("Sum", &params, &one_field()).unwrap();
    assert_eq!(upper.kind, AggregateKind::Sum { total: 0 });
    assert_eq!(lower.kind, AggregateKind::Sum { total: 0 });
    assert_eq!(mixed.kind, AggregateKind::Sum { total: 0 });
    assert_eq!(upper.combinator, None);
    assert_eq!(lower.combinator, None);
    assert_eq!(mixed.combinator, None);
}

#[test]
fn get_resolves_combinators_by_suffix() {
    let reg = aggregate_registry();
    let params: Vec<DataValue> = vec![];
    let wrapped = reg.get("sumif", &params, &two_fields()).unwrap();
    assert_eq!(wrapped.kind, AggregateKind::Sum { total: 0 });
    assert_eq!(wrapped.combinator, Some(Combinator::If));
    assert!(reg.check("sumif"));
    match reg.get("sumxx", &params, &one_field()) {
        Err(ErrorCode::UnknownFunction(_)) => {},
        other => panic!("expected unknown-function, got {:?}", other),
    }
    assert!(!reg.check("sumxx"));
}

#[test]
fn suffix_ties_go_to_the_first_registered_combinator() {
    // With "if" registered before "rif", the name "sumrif" commits to
    // the "if" suffix first, whose stripped base "sumr" is unknown:
    // first-match-in-registration-order, not longest-match.
    let mut reg = AggregateFunctionFactory::create();
    reg.register("sum", FactoryFunc::SumCtor);
    reg.register_combinator("if", FactoryCombinatorFunc::IfCtor);
    reg.register_combinator("rif", FactoryCombinatorFunc::DistinctCtor);
    let params: Vec<DataValue> = vec![];
    match reg.get("sumrif", &params, &two_fields()) {
        Err(ErrorCode::UnknownFunction(_)) => {},
        other => panic!("expected unknown-function, got {:?}", other),
    }
    // Registered the other way round, the "rif" suffix wins.
    let mut reg2 = AggregateFunctionFactory::create();
    reg2.register("sum", FactoryFunc::SumCtor);
    reg2.register_combinator("rif", FactoryCombinatorFunc::DistinctCtor);
    reg2.register_combinator("if", FactoryCombinatorFunc::IfCtor);
    let got = reg2.get("sumrif", &params, &one_field()).unwrap();
    assert_eq!(got.combinator, Some(Combinator::Distinct));
}

#[test]
fn registered_names_lists_folded_names_in_order() {
    let mut reg = AggregateFunctionFactory::create();
    reg.register("SUM", FactoryFunc::SumCtor);
    reg.register("Count", FactoryFunc::CountCtor);
    let names = reg.registered_names();
    assert_eq!(names, vec!["sum".to_string(), "count".to_string()]);
}

#[test]
fn merge_accumulates_and_finalizes() {
    let reg = aggregate_registry();
    let params: Vec<DataValue> = vec![];
    let mut f = reg.get("count", &params, &one_field()).unwrap();
    f.merge(&vec![DataValue::UInt64(2)]).unwrap();
    f.merge(&vec![DataValue::UInt64(3)]).unwrap();
    assert_eq!(f.merge_result().unwrap(), DataValue::UInt64(5));
}

#[test]
fn merge_refuses_a_mismatched_snapshot() {
    let reg = aggregate_registry();
    let params: Vec<DataValue> = vec![];
    let mut f = reg.get("count", &params, &one_field()).unwrap();
    match f.merge(&vec![DataValue::Int64(-1)]) {
        Err(ErrorCode::BadState(_)) => {},
        other => panic!("expected bad-state, got {:?}", other),
    }
    match f.merge(&vec![]) {
        Err(ErrorCode::BadState(_)) => {},
        other => panic!("expected bad-state, got {:?}", other),
    }
}

#[test]
fn min_merges_to_the_smallest_and_skips_nulls() {
    let reg = aggregate_registry();
    let params: Vec<DataValue> = vec![];
    let mut f = reg.get("min", &params, &one_field()).unwrap();
    assert_eq!(f.merge_result().unwrap(), DataValue::Null);
    f.merge(&vec![DataValue::Int64(9)]).unwrap();
    f.merge(&vec![DataValue::Null]).unwrap();
    f.merge(&vec![DataValue::Int64(4)]).unwrap();
    assert_eq!(f.merge_result().unwrap(), DataValue::Int64(4));
}

fn out_schema() -> DataSchema {
    DataSchema::new(vec![DataField::new("count".to_string(), DataType::UInt64)])
}

fn count_exprs() -> Vec<Expression> {
    vec![Expression::AggregateFunction { op: "count".to_string(), args: vec![] }]
}

fn state_block(payload: &str) -> DataBlock {
    DataBlock::create(
        out_schema(),
        vec![vec![DataValue::Utf8(Some(payload.to_string()))]],
    )
}

fn run_merge(blocks: Vec<DataBlock>) -> Result<Vec<DataValue>, ErrorCode> {
    let reg = aggregate_registry();
    let mut t = AggregatorFinalTransform::try_create(out_schema(), &count_exprs(), &reg)?;
    t.connect_to(Processor::Source(SourceProcessor { blocks }))?;
    let mut stream = t.execute()?;
    let block = stream.next().expect("one batch");
    assert!(stream.next().is_none(), "exactly one batch");
    Ok(block.columns[0].clone())
}

#[test]
fn final_merge_of_zero_batches_yields_the_identity_result() {
    let col = run_merge(vec![]).unwrap();
    assert_eq!(col, vec![DataValue::UInt64(0)]);
}

#[test]
fn final_merge_adds_partial_counts_in_any_delivery_order() {
    let col = run_merge(vec![
        state_block("[u2]"),
        state_block("[u3]"),
        state_block("[u5]"),
    ])
    .unwrap();
    assert_eq!(col, vec![DataValue::UInt64(10)]);
    let reversed = run_merge(vec![
        state_block("[u5]"),
        state_block("[u3]"),
        state_block("[u2]"),
    ])
    .unwrap();
    assert_eq!(reversed, vec![DataValue::UInt64(10)]);
}

#[test]
fn final_merge_skips_null_and_non_list_states() {
    let col = run_merge(vec![
        state_block("[u2]"),
        DataBlock::create(out_schema(), vec![vec![DataValue::Null]]),
        state_block("n"),
        state_block("[u3]"),
    ])
    .unwrap();
    assert_eq!(col, vec![DataValue::UInt64(5)]);
}

#[test]
fn one_corrupt_state_fails_the_whole_merge() {
    match run_merge(vec![
        state_block("[u2]"),
        state_block("[uz]"),
        state_block("[u5]"),
    ]) {
        Err(ErrorCode::BadState(_)) => {},
        other => panic!("expected bad-state, got {:?}", other),
    }
}

#[test]
fn transform_refuses_a_non_aggregate_expression() {
    let reg = aggregate_registry();
    let exprs = vec![Expression::Column("a".to_string())];
    match AggregatorFinalTransform::try_create(out_schema(), &exprs, &reg) {
        Err(ErrorCode::LogicalError(_)) => {},
        other => panic!("expected logical error, got {:?}", other),
    }
}

#[test]
fn operators_report_names_and_inputs() {
    let reg = aggregate_registry();
    let mut t = AggregatorFinalTransform::try_create(out_schema(), &count_exprs(), &reg).unwrap();
    assert_eq!(t.name(), "AggregatorFinalTransform");
    t.connect_to(Processor::Source(SourceProcessor { blocks: vec![] })).unwrap();
    let inputs = t.inputs();
    assert_eq!(inputs.len(), 1);
    assert_eq!(inputs[0].name(), "SourceProcessor");
}

#[test]
fn empty_processor_yields_no_batches() {
    let p = Processor::Empty(query_core::processors::EmptyProcessor::create());
    let mut stream = p.execute().unwrap();
    assert!(stream.next().is_none());
}

#[test]
fn sum_overflow_is_a_bad_state() {
    let mut f = AggregateFunction {
        name: "sum".to_string(),
        combinator: None,
        kind: AggregateKind::Sum { total: i64::MAX },
    };
    match f.merge(&vec![DataValue::Int64(1)]) {
        Err(ErrorCode::BadState(_)) => {},
        other => panic!("expected bad-state, got {:?}", other),
    }
}
