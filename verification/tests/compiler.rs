use query_core::chain::{Expression, ExpressionAction, ExpressionChain};
use query_core::errors::ErrorCode;
use query_core::functions::ScalarCtor;
use query_core::registry::FunctionFactory;
use query_core::values::{DataField, DataSchema, DataType, DataValue};

fn sample_schema() -> DataSchema {
    DataSchema::new(vec![
        DataField::new("a".to_string(), DataType::Int64),
        DataField::new("b".to_string(), DataType::Int64),
    ])
}

fn scalar_registry() -> FunctionFactory {
    let mut f = FunctionFactory::create();
    f.register("plus", ScalarCtor::Arithmetic);
    f.register("eq", ScalarCtor::Comparison);
    f.register("get", ScalarCtor::Arithmetic);
    f
}

#[test]
fn compile_simple_tree_emits_one_action_per_node_in_dependency_order() {
    let schema = sample_schema();
    let reg = scalar_registry();
    let exprs = vec![
        Expression::Alias(
            "s".to_string(),
            Box::new(Expression::ScalarFunction {
                op: "plus".to_string(),
                args: vec![
                    Expression::Column("a".to_string()),
                    Expression::Column("b".to_string()),
                ],
            }),
        ),
        Expression::Literal { value: DataValue::UInt64(7), data_type: DataType::UInt64 },
    ];
    let chain = ExpressionChain::try_create(schema, &exprs, &reg).unwrap();
    // Five nodes, five actions.
    assert_eq!(chain.actions.len(), 5);
    // Post-order: both inputs come before the function, which comes
    // before the alias; the literal is last.
    match &chain.actions[0] {
        ExpressionAction::Input(i) => assert_eq!(i.name, "a"),
        other => panic!("expected input, got {:?}", other),
    }
    match &chain.actions[1] {
        ExpressionAction::Input(i) => assert_eq!(i.name, "b"),
        other => panic!("expected input, got {:?}", other),
    }
    match &chain.actions[2] {
        ExpressionAction::Function(f) => {
            assert_eq!(f.func_name, "plus");
            assert_eq!(f.arg_names, vec!["a".to_string(), "b".to_string()]);
            assert_eq!(f.return_type, DataType::Int64);
            assert_eq!(f.name, "plus(a, b)");
        },
        other => panic!("expected function, got {:?}", other),
    }
    match &chain.actions[3] {
        ExpressionAction::Alias(a) => {
            assert_eq!(a.name, "s");
            assert_eq!(a.arg_name, "plus(a, b)");
            assert_eq!(a.arg_type, DataType::Int64);
        },
        other => panic!("expected alias, got {:?}", other),
    }
    match &chain.actions[4] {
        ExpressionAction::Constant(c) => {
            assert_eq!(c.name, "7");
            assert_eq!(c.value, DataValue::UInt64(7));
        },
        other => panic!("expected constant, got {:?}", other),
    }
}

#[test]
fn compile_qualified_column_fails_with_logical_error() {
    let schema = sample_schema();
    let reg = scalar_registry();
    let exprs = vec![Expression::QualifiedColumn(vec![
        "db".to_string(),
        "a".to_string(),
    ])];
    match ExpressionChain::try_create(schema, &exprs, &reg) {
        Err(ErrorCode::LogicalError(_)) => {},
        other => panic!("expected logical error, got {:?}", other),
    }
}

#[test]
fn compile_aggregate_function_fails_with_logical_error() {
    let schema = sample_schema();
    let reg = scalar_registry();
    let exprs = vec![Expression::AggregateFunction {
        op: "sum".to_string(),
        args: vec![Expression::Column("a".to_string())],
    }];
    match ExpressionChain::try_create(schema, &exprs, &reg) {
        Err(ErrorCode::LogicalError(_)) => {},
        other => panic!("expected logical error, got {:?}", other),
    }
}

#[test]
fn compile_nested_aggregate_fails_whatever_stands_around_it() {
    let schema = sample_schema();
    let reg = scalar_registry();
    let exprs = vec![Expression::ScalarFunction {
        op: "plus".to_string(),
        args: vec![
            Expression::Column("a".to_string()),
            Expression::AggregateFunction {
                op: "sum".to_string(),
                args: vec![Expression::Column("b".to_string())],
            },
        ],
    }];
    match ExpressionChain::try_create(schema, &exprs, &reg) {
        Err(ErrorCode::LogicalError(_)) => {},
        other => panic!("expected logical error, got {:?}", other),
    }
}

#[test]
fn compile_unknown_column_fails_with_field_not_found() {
    let schema = sample_schema();
    let reg = scalar_registry();
    let exprs = vec![Expression::Column("missing".to_string())];
    match ExpressionChain::try_create(schema, &exprs, &reg) {
        Err(ErrorCode::FieldNotFound(_)) => {},
        other => panic!("expected field-not-found, got {:?}", other),
    }
}

#[test]
fn compile_unknown_function_fails() {
    let schema = sample_schema();
    let reg = scalar_registry();
    let exprs = vec![Expression::ScalarFunction {
        op: "nosuch".to_string(),
        args: vec![Expression::Column("a".to_string())],
    }];
    match ExpressionChain::try_create(schema, &exprs, &reg) {
        Err(ErrorCode::UnknownFunction(_)) => {},
        other => panic!("expected unknown-function, got {:?}", other),
    }
}

#[test]
fn compile_wrong_arity_fails_with_type_mismatch() {
    let schema = sample_schema();
    let reg = scalar_registry();
    let exprs = vec![Expression::ScalarFunction {
        op: "eq".to_string(),
        args: vec![Expression::Column("a".to_string())],
    }];
    match ExpressionChain::try_create(schema, &exprs, &reg) {
        Err(ErrorCode::TypeMismatch(_)) => {},
        other => panic!("expected type-mismatch, got {:?}", other),
    }
}

#[test]
fn compile_is_deterministic() {
    let reg = scalar_registry();
    let exprs = vec![
        Expression::BinaryExpression {
            op: "plus".to_string(),
            left: Box::new(Expression::Column("a".to_string())),
            right: Box::new(Expression::Column("b".to_string())),
        },
        Expression::Cast {
            expr: Box::new(Expression::Column("a".to_string())),
            data_type: DataType::Utf8,
        },
    ];
    let c1 = ExpressionChain::try_create(sample_schema(), &exprs, &reg).unwrap();
    let c2 = ExpressionChain::try_create(sample_schema(), &exprs, &reg).unwrap();
    assert_eq!(c1.actions, c2.actions);
}

#[test]
fn compile_cast_picks_try_cast_for_nullable_target() {
    let reg = scalar_registry();
    let exprs = vec![Expression::Cast {
        expr: Box::new(Expression::Column("a".to_string())),
        data_type: DataType::Nullable(Box::new(DataType::Utf8)),
    }];
    let chain = ExpressionChain::try_create(sample_schema(), &exprs, &reg).unwrap();
    match &chain.actions[1] {
        ExpressionAction::Function(f) => {
            assert_eq!(f.func_name, "cast");
            assert_eq!(f.return_type, DataType::Nullable(Box::new(DataType::Utf8)));
            assert_eq!(f.arg_names, vec!["a".to_string()]);
        },
        other => panic!("expected cast function, got {:?}", other),
    }
}

#[test]
fn compile_map_access_resolves_the_element_access_function() {
    let reg = scalar_registry();
    let exprs = vec![Expression::MapAccess {
        args: vec![
            Expression::Column("a".to_string()),
            Expression::Literal { value: DataValue::UInt64(0), data_type: DataType::UInt64 },
        ],
    }];
    let chain = ExpressionChain::try_create(sample_schema(), &exprs, &reg).unwrap();
    assert_eq!(chain.actions.len(), 3);
    match &chain.actions[2] {
        ExpressionAction::Function(f) => {
            assert_eq!(f.func_name, "get");
            assert_eq!(f.name, "get(a, 0)");
        },
        other => panic!("expected function, got {:?}", other),
    }
}

#[test]
fn compile_wildcard_and_sort_emit_no_action() {
    let reg = scalar_registry();
    let exprs = vec![
        Expression::Wildcard,
        Expression::Sort(Box::new(Expression::Column("a".to_string()))),
    ];
    let chain = ExpressionChain::try_create(sample_schema(), &exprs, &reg).unwrap();
    // The sort marker's child is visited and emits its input action; the
    // markers themselves emit nothing.
    assert_eq!(chain.actions.len(), 1);
    match &chain.actions[0] {
        ExpressionAction::Input(i) => assert_eq!(i.name, "a"),
        other => panic!("expected input, got {:?}", other),
    }
}

#[test]
fn column_name_renders_literals_and_calls() {
    let e = Expression::UnaryExpression {
        op: "neg".to_string(),
        expr: Box::new(Expression::Literal {
            value: DataValue::Int64(-42),
            data_type: DataType::Int64,
        }),
    };
    assert_eq!(e.column_name(), "neg(-42)");
    let t = Expression::Literal {
        value: DataValue::Boolean(true),
        data_type: DataType::Boolean,
    };
    assert_eq!(t.column_name(), "true");
    let n = Expression::Literal { value: DataValue::Null, data_type: DataType::Null };
    assert_eq!(n.column_name(), "NULL");
}

#[test]
fn scalar_registry_is_case_insensitive() {
    let reg = scalar_registry();
    let types = vec![DataType::Int64, DataType::Int64];
    let f1 = reg.get("PLUS", &types).unwrap();
    let f2 = reg.get("plus", &types).unwrap();
    assert_eq!(f1.return_type, f2.return_type);
    assert_eq!(f1.return_type, DataType::Int64);
}
