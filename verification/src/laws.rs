use vstd::prelude::*;

use crate::chain::{
    action_deps, action_name, column_name_seq, column_name_spec, compile_expr, compile_seq,
    expr_type, expr_types, lemma_column_name_seq_index, lemma_column_name_seq_len, scalar_fn_spec,
    ActionView, ExprView,
};
use crate::errors::ErrClass;
use crate::functions::{merge_kind_spec, AggView, AggregateKind};
use crate::processors::{
    kinds_of, merge_block, merge_block_from, merge_blocks, merge_column, merge_column_from,
    merge_value, result_block, run_processor, BlockView, ProcView,
};
use crate::registry::resolve_spec;
use crate::state_codec::decode_state_spec;
use crate::text::lower_of;
use crate::values::{first_with_name, DataType, FieldView, ValueView};

verus! {

// ---------------------------------------------------------------------
// Compilation laws
// ---------------------------------------------------------------------

/// Compiling the same expression list twice from the same schema and
/// registry contents yields structurally identical action lists:
/// compilation is a function of its inputs.
pub proof fn lemma_compile_deterministic(
    sch: Seq<FieldView>,
    rg: Seq<(Seq<char>, u64)>,
    es: Seq<ExprView>,
    a1: Seq<ActionView>,
    a2: Seq<ActionView>,
)
    requires
        compile_seq(sch, rg, es) == Ok::<Seq<ActionView>, ErrClass>(a1),
        compile_seq(sch, rg, es) == Ok::<Seq<ActionView>, ErrClass>(a2),
    ensures
        a1 == a2,
{
}

/// A tree of columns, literals, aliases and scalar functions whose
/// references all resolve: every column is in the schema and every
/// function application is registered and type-checks.
pub open spec fn simple_ok(sch: Seq<FieldView>, rg: Seq<(Seq<char>, u64)>, e: ExprView) -> bool
    decreases e,
{
    match e {
        ExprView::Column(c) => first_with_name(sch, c) is Some,
        ExprView::Literal { .. } => true,
        ExprView::Alias(_, sub) => simple_ok(sch, rg, *sub),
        ExprView::ScalarFunction { op, args } => simple_ok_seq(sch, rg, args) && (match expr_types(
            sch,
            rg,
            args,
        ) {
            Ok(ts) => scalar_fn_spec(rg, op, ts) is Ok,
            Err(_) => false,
        }),
        _ => false,
    }
}

pub open spec fn simple_ok_seq(
    sch: Seq<FieldView>,
    rg: Seq<(Seq<char>, u64)>,
    es: Seq<ExprView>,
) -> bool
    decreases es,
{
    if es.len() == 0 {
        true
    } else {
        simple_ok(sch, rg, es[0]) && simple_ok_seq(sch, rg, es.drop_first())
    }
}

/// How many actions a simple tree emits: one per node.
pub open spec fn node_count(e: ExprView) -> nat
    decreases e,
{
    match e {
        ExprView::Alias(_, sub) => 1 + node_count(*sub),
        ExprView::ScalarFunction { args, .. } => 1 + node_count_seq(args),
        _ => 1,
    }
}

pub open spec fn node_count_seq(es: Seq<ExprView>) -> nat
    decreases es,
{
    if es.len() == 0 {
        0
    } else {
        node_count(es[0]) + node_count_seq(es.drop_first())
    }
}

/// Whether the name dependency `d` of action `i` is delivered by a
/// strictly earlier action.
pub open spec fn dep_delivered(acts: Seq<ActionView>, i: int, d: int) -> bool {
    exists|j: int| 0 <= j < i && action_name(#[trigger] acts[j]) == action_deps(acts[i])[d]
}

/// Dependency order: every name an action reads is delivered by a
/// strictly earlier action of the list.
pub open spec fn deps_ordered(acts: Seq<ActionView>) -> bool {
    forall|i: int, d: int|
        0 <= i < acts.len() && 0 <= d < action_deps(acts[i]).len() ==> #[trigger] dep_delivered(
            acts,
            i,
            d,
        )
}

/// Dependency order survives concatenation of self-contained lists.
proof fn lemma_deps_ordered_concat(a: Seq<ActionView>, b: Seq<ActionView>)
    requires
        deps_ordered(a),
        deps_ordered(b),
    ensures
        deps_ordered(a + b),
{
    let c = a + b;
    assert forall|i: int, d: int|
        0 <= i < c.len() && 0 <= d < action_deps(c[i]).len() implies dep_delivered(c, i, d) by {
        if i < a.len() {
            assert(c[i] == a[i]);
            assert(dep_delivered(a, i, d));
            let j = choose|j: int| 0 <= j < i && action_name(#[trigger] a[j]) == action_deps(a[i])[d];
            assert(c[j] == a[j]);
            assert(action_name(c[j]) == action_deps(c[i])[d]);
        } else {
            let bi = i - a.len();
            assert(c[i] == b[bi]);
            assert(dep_delivered(b, bi, d));
            let j = choose|j: int|
                0 <= j < bi && action_name(#[trigger] b[j]) == action_deps(b[bi])[d];
            assert(c[a.len() + j] == b[j]);
            assert(action_name(c[a.len() + j]) == action_deps(c[i])[d]);
        }
    }
}

/// For a tree of columns, literals, aliases and scalar functions whose
/// references all resolve, compilation succeeds with exactly one action
/// per node, the last action carries the tree's output name, and every
/// action's dependencies are delivered strictly earlier.
pub proof fn lemma_simple_compile_shape(sch: Seq<FieldView>, rg: Seq<(Seq<char>, u64)>, e: ExprView)
    requires
        simple_ok(sch, rg, e),
    ensures
        compile_expr(sch, rg, e) is Ok,
        compile_expr(sch, rg, e)->Ok_0.len() == node_count(e),
        node_count(e) >= 1,
        action_name(compile_expr(sch, rg, e)->Ok_0.last()) == column_name_spec(e),
        deps_ordered(compile_expr(sch, rg, e)->Ok_0),
    decreases e,
{
    match e {
        ExprView::Column(c) => {
            let a = compile_expr(sch, rg, e)->Ok_0;
            assert(a.len() == 1);
            assert(deps_ordered(a)) by {
                assert(forall|i: int|
                    0 <= i < a.len() ==> action_deps(#[trigger] a[i]).len() == 0);
            }
        },
        ExprView::Literal { .. } => {
            let a = compile_expr(sch, rg, e)->Ok_0;
            assert(deps_ordered(a)) by {
                assert(forall|i: int|
                    0 <= i < a.len() ==> action_deps(#[trigger] a[i]).len() == 0);
            }
        },
        ExprView::Alias(name, sub) => {
            lemma_simple_compile_shape(sch, rg, *sub);
            let asub = compile_expr(sch, rg, *sub)->Ok_0;
            lemma_simple_types(sch, rg, *sub);
            let whole = compile_expr(sch, rg, e)->Ok_0;
            assert(whole =~= asub + seq![
                ActionView::Alias {
                    name,
                    arg_name: column_name_spec(*sub),
                    arg_type: expr_type(sch, rg, e)->Ok_0,
                },
            ]);
            assert(deps_ordered(whole)) by {
                assert forall|i: int, d: int|
                    0 <= i < whole.len() && 0 <= d < action_deps(whole[i]).len()
                    implies dep_delivered(whole, i, d) by {
                    if i < asub.len() {
                        assert(whole[i] == asub[i]);
                        assert(dep_delivered(asub, i, d));
                        let j = choose|j: int|
                            0 <= j < i && action_name(#[trigger] asub[j]) == action_deps(
                                asub[i],
                            )[d];
                        assert(whole[j] == asub[j]);
                        assert(action_name(whole[j]) == action_deps(whole[i])[d]);
                    } else {
                        // The alias action reads its sub-expression's name,
                        // delivered by the last action before it.
                        let j = asub.len() - 1;
                        assert(whole[j] == asub.last());
                        assert(action_name(whole[j]) == column_name_spec(*sub));
                        assert(action_deps(whole[i])[d] == column_name_spec(*sub));
                    }
                }
            }
        },
        ExprView::ScalarFunction { op, args } => {
            lemma_simple_compile_seq_shape(sch, rg, args);
            let aargs = compile_seq(sch, rg, args)->Ok_0;
            let whole = compile_expr(sch, rg, e)->Ok_0;
            let ts = expr_types(sch, rg, args)->Ok_0;
            let f = scalar_fn_spec(rg, op, ts)->Ok_0;
            let node = ActionView::Function {
                name: column_name_spec(e),
                func_name: op,
                func: f,
                arg_names: column_name_seq(args),
                arg_types: ts,
                return_type: f.return_type,
            };
            assert(whole =~= aargs + seq![node]);
            lemma_column_name_seq_len(args);
            assert(deps_ordered(whole)) by {
                assert forall|i: int, d: int|
                    0 <= i < whole.len() && 0 <= d < action_deps(whole[i]).len()
                    implies dep_delivered(whole, i, d) by {
                    if i < aargs.len() {
                        assert(whole[i] == aargs[i]);
                        assert(dep_delivered(aargs, i, d));
                        let j = choose|j: int|
                            0 <= j < i && action_name(#[trigger] aargs[j]) == action_deps(
                                aargs[i],
                            )[d];
                        assert(whole[j] == aargs[j]);
                        assert(action_name(whole[j]) == action_deps(whole[i])[d]);
                    } else {
                        // Argument `d`'s name is delivered inside the
                        // arguments' own actions.
                        lemma_column_name_seq_index(args, d);
                        let j = choose|j: int|
                            0 <= j < aargs.len() && action_name(#[trigger] aargs[j])
                                == column_name_spec(args[d]);
                        assert(whole[j] == aargs[j]);
                        assert(action_deps(whole[i])[d] == column_name_spec(args[d]));
                        assert(action_name(whole[j]) == action_deps(whole[i])[d]);
                    }
                }
            }
        },
        _ => {},
    }
}

/// The types of a simple tree are defined.
proof fn lemma_simple_types(sch: Seq<FieldView>, rg: Seq<(Seq<char>, u64)>, e: ExprView)
    requires
        simple_ok(sch, rg, e),
    ensures
        expr_type(sch, rg, e) is Ok,
    decreases e,
{
    match e {
        ExprView::Alias(_, sub) => {
            lemma_simple_types(sch, rg, *sub);
        },
        _ => {},
    }
}

/// The list form of `lemma_simple_compile_shape`, with one delivered
/// name per subtree.
pub proof fn lemma_simple_compile_seq_shape(
    sch: Seq<FieldView>,
    rg: Seq<(Seq<char>, u64)>,
    es: Seq<ExprView>,
)
    requires
        simple_ok_seq(sch, rg, es),
    ensures
        compile_seq(sch, rg, es) is Ok,
        compile_seq(sch, rg, es)->Ok_0.len() == node_count_seq(es),
        deps_ordered(compile_seq(sch, rg, es)->Ok_0),
        forall|k: int|
            0 <= k < es.len() ==> exists|j: int|
                0 <= j < compile_seq(sch, rg, es)->Ok_0.len() && action_name(
                    #[trigger] compile_seq(sch, rg, es)->Ok_0[j],
                ) == column_name_spec(#[trigger] es[k]),
    decreases es,
{
    if es.len() == 0 {
    } else {
        lemma_simple_compile_shape(sch, rg, es[0]);
        lemma_simple_compile_seq_shape(sch, rg, es.drop_first());
        let a0 = compile_expr(sch, rg, es[0])->Ok_0;
        let rest = compile_seq(sch, rg, es.drop_first())->Ok_0;
        let whole = compile_seq(sch, rg, es)->Ok_0;
        assert(whole == a0 + rest);
        lemma_deps_ordered_concat(a0, rest);
        assert forall|k: int| 0 <= k < es.len() implies exists|j: int|
            0 <= j < whole.len() && action_name(#[trigger] whole[j]) == column_name_spec(
                #[trigger] es[k],
            ) by {
            if k == 0 {
                let j = a0.len() - 1;
                assert(whole[j] == a0.last());
                assert(action_name(whole[j]) == column_name_spec(es[0]));
            } else {
                assert(es.drop_first()[k - 1] == es[k]);
                let j = choose|j: int|
                    0 <= j < rest.len() && action_name(#[trigger] rest[j]) == column_name_spec(
                        es.drop_first()[k - 1],
                    );
                assert(whole[a0.len() + j] == rest[j]);
                assert(action_name(whole[a0.len() + j]) == column_name_spec(es[k]));
            }
        }
    }
}

/// Whether a qualified column or an aggregate application stands
/// anywhere in the tree.
pub open spec fn contains_forbidden(e: ExprView) -> bool
    decreases e,
{
    match e {
        ExprView::QualifiedColumn(_) => true,
        ExprView::AggregateFunction { .. } => true,
        ExprView::Alias(_, sub) => contains_forbidden(*sub),
        ExprView::UnaryExpression { expr, .. } => contains_forbidden(*expr),
        ExprView::BinaryExpression { left, right, .. } => contains_forbidden(*left)
            || contains_forbidden(*right),
        ExprView::ScalarFunction { args, .. } => contains_forbidden_seq(args),
        ExprView::Cast { expr, .. } => contains_forbidden(*expr),
        ExprView::MapAccess { args } => contains_forbidden_seq(args),
        ExprView::Sort(sub) => contains_forbidden(*sub),
        _ => false,
    }
}

pub open spec fn contains_forbidden_seq(es: Seq<ExprView>) -> bool
    decreases es,
{
    if es.len() == 0 {
        false
    } else {
        contains_forbidden(es[0]) || contains_forbidden_seq(es.drop_first())
    }
}

/// A tree holding a qualified column or an aggregate application never
/// compiles, whatever stands around it.
pub proof fn lemma_forbidden_compile_fails(
    sch: Seq<FieldView>,
    rg: Seq<(Seq<char>, u64)>,
    e: ExprView,
)
    requires
        contains_forbidden(e),
    ensures
        compile_expr(sch, rg, e) is Err,
    decreases e,
{
    match e {
        ExprView::Alias(_, sub) => {
            lemma_forbidden_compile_fails(sch, rg, *sub);
        },
        ExprView::UnaryExpression { expr, .. } => {
            lemma_forbidden_compile_fails(sch, rg, *expr);
        },
        ExprView::BinaryExpression { left, right, .. } => {
            if contains_forbidden(*left) {
                lemma_forbidden_compile_fails(sch, rg, *left);
            } else {
                lemma_forbidden_compile_fails(sch, rg, *right);
            }
        },
        ExprView::ScalarFunction { args, .. } => {
            lemma_forbidden_seq_fails(sch, rg, args);
        },
        ExprView::AggregateFunction { .. } => {},
        ExprView::Cast { expr, .. } => {
            lemma_forbidden_compile_fails(sch, rg, *expr);
        },
        ExprView::MapAccess { args } => {
            lemma_forbidden_seq_fails(sch, rg, args);
        },
        ExprView::Sort(sub) => {
            lemma_forbidden_compile_fails(sch, rg, *sub);
        },
        _ => {},
    }
}

proof fn lemma_forbidden_seq_fails(sch: Seq<FieldView>, rg: Seq<(Seq<char>, u64)>, es: Seq<ExprView>)
    requires
        contains_forbidden_seq(es),
    ensures
        compile_seq(sch, rg, es) is Err,
    decreases es,
{
    if contains_forbidden(es[0]) {
        lemma_forbidden_compile_fails(sch, rg, es[0]);
    } else {
        lemma_forbidden_seq_fails(sch, rg, es.drop_first());
    }
}

// ---------------------------------------------------------------------
// Registry law
// ---------------------------------------------------------------------

/// Resolution is case-insensitive: names with the same lowercase folding
/// resolve to the same constructor, exact or combinator alike.
pub proof fn lemma_resolution_case_insensitive(
    base: Seq<(Seq<char>, u64)>,
    combs: Seq<(Seq<char>, u64)>,
    n1: Seq<char>,
    n2: Seq<char>,
)
    requires
        lower_of(n1) == lower_of(n2),
    ensures
        resolve_spec(base, combs, lower_of(n1)) == resolve_spec(base, combs, lower_of(n2)),
{
}

// ---------------------------------------------------------------------
// Final-merge laws
// ---------------------------------------------------------------------

/// Feeding zero upstream batches yields exactly one output batch holding
/// each function's identity result.
pub proof fn lemma_merge_zero_batches(funcs: Seq<AggView>, schema: Seq<FieldView>)
    ensures
        run_processor(
            ProcView::AggregatorFinal {
                funcs,
                schema,
                input: Box::new(ProcView::Source(Seq::empty())),
            },
        ) == Ok::<Seq<BlockView>, ErrClass>(seq![result_block(schema, kinds_of(funcs))]),
{
    let upstream = ProcView::Source(Seq::<BlockView>::empty());
    assert(run_processor(upstream) == Ok::<Seq<BlockView>, ErrClass>(Seq::empty()));
    assert(merge_blocks(kinds_of(funcs), Seq::empty()) == Ok::<Seq<AggregateKind>, ErrClass>(
        kinds_of(funcs),
    ));
}

/// Whether a cell holds a corrupt serialized partial state.
pub open spec fn cell_corrupt(v: ValueView) -> bool {
    match v {
        ValueView::Utf8(o) => match o {
            Some(ser) => decode_state_spec(ser) is Err,
            None => false,
        },
        _ => false,
    }
}

proof fn lemma_corrupt_cell_fails_column(k: AggregateKind, col: Seq<ValueView>, q: int, r: int)
    requires
        0 <= q <= r < col.len(),
        cell_corrupt(col[r]),
    ensures
        merge_column_from(k, col, q) is Err,
    decreases r - q,
{
    match merge_value(k, col[q]) {
        Err(_) => {},
        Ok(k2) => {
            lemma_corrupt_cell_fails_column(k2, col, q + 1, r);
        },
    }
}

proof fn lemma_corrupt_cell_fails_block(
    kinds: Seq<AggregateKind>,
    cols: Seq<Seq<ValueView>>,
    i: int,
    r: int,
    j: int,
)
    requires
        kinds.len() <= cols.len(),
        0 <= j <= i < kinds.len(),
        0 <= r < cols[i].len(),
        cell_corrupt(cols[i][r]),
    ensures
        merge_block_from(kinds, cols, j) is Err,
    decreases i - j,
{
    if j == i {
        lemma_corrupt_cell_fails_column(kinds[i], cols[i], 0, r);
    } else {
        match merge_column(kinds[j], cols[j]) {
            Err(_) => {},
            Ok(_) => {
                lemma_corrupt_cell_fails_block(kinds, cols, i, r, j + 1);
            },
        }
    }
}

/// A decode failure on any one partial-state value in the drained region
/// fails the whole merge: no output batch is produced.
pub proof fn lemma_corrupt_state_fails_merge(
    kinds: Seq<AggregateKind>,
    blocks: Seq<BlockView>,
    b: int,
    i: int,
    r: int,
)
    requires
        0 <= b < blocks.len(),
        0 <= i < kinds.len(),
        kinds.len() <= blocks[b].columns.len(),
        0 <= r < blocks[b].columns[i].len(),
        cell_corrupt(blocks[b].columns[i][r]),
    ensures
        merge_blocks(kinds, blocks) is Err,
    decreases b,
{
    if b == 0 {
        lemma_corrupt_cell_fails_block(kinds, blocks[0].columns, i, r, 0);
    } else {
        match merge_block(kinds, blocks[0]) {
            Err(_) => {},
            Ok(ks) => {
                lemma_merge_block_from_len(kinds, blocks[0].columns, 0);
                assert(ks.len() == kinds.len());
                assert(blocks.drop_first()[b - 1] == blocks[b]);
                lemma_corrupt_state_fails_merge(ks, blocks.drop_first(), b - 1, i, r);
            },
        }
    }
}

/// A clean block merge keeps the accumulator count.
proof fn lemma_merge_block_from_len(kinds: Seq<AggregateKind>, cols: Seq<Seq<ValueView>>, j: int)
    requires
        0 <= j <= kinds.len(),
        kinds.len() <= cols.len(),
    ensures
        merge_block_from(kinds, cols, j) is Ok ==> merge_block_from(kinds, cols, j)->Ok_0.len()
            == kinds.len() - j,
    decreases kinds.len() - j,
{
    if j < kinds.len() {
        lemma_merge_block_from_len(kinds, cols, j + 1);
    }
}

proof fn lemma_merge_column_err_is_bad_state(k: AggregateKind, col: Seq<ValueView>, q: int)
    requires
        0 <= q <= col.len(),
    ensures
        merge_column_from(k, col, q) is Err ==> merge_column_from(k, col, q) == Err::<
            AggregateKind,
            ErrClass,
        >(ErrClass::BadState),
    decreases col.len() - q,
{
    if q < col.len() {
        match merge_value(k, col[q]) {
            Err(_) => {},
            Ok(k2) => {
                lemma_merge_column_err_is_bad_state(k2, col, q + 1);
            },
        }
    }
}

proof fn lemma_merge_block_err_is_bad_state(
    kinds: Seq<AggregateKind>,
    cols: Seq<Seq<ValueView>>,
    j: int,
)
    requires
        0 <= j <= kinds.len(),
        kinds.len() <= cols.len(),
    ensures
        merge_block_from(kinds, cols, j) is Err ==> merge_block_from(kinds, cols, j) == Err::<
            Seq<AggregateKind>,
            ErrClass,
        >(ErrClass::BadState),
    decreases kinds.len() - j,
{
    if j < kinds.len() {
        lemma_merge_column_err_is_bad_state(kinds[j], cols[j], 0);
        lemma_merge_block_err_is_bad_state(kinds, cols, j + 1);
    }
}

/// Every failure of the merge is `BadState`: the merge has no other
/// failure mode.
pub proof fn lemma_merge_err_is_bad_state(kinds: Seq<AggregateKind>, blocks: Seq<BlockView>)
    ensures
        merge_blocks(kinds, blocks) is Err ==> merge_blocks(kinds, blocks) == Err::<
            Seq<AggregateKind>,
            ErrClass,
        >(ErrClass::BadState),
    decreases blocks.len(),
{
    if blocks.len() > 0 {
        if blocks[0].columns.len() >= kinds.len() {
            lemma_merge_block_err_is_bad_state(kinds, blocks[0].columns, 0);
        }
        match merge_block(kinds, blocks[0]) {
            Err(_) => {},
            Ok(ks) => {
                lemma_merge_err_is_bad_state(ks, blocks.drop_first());
            },
        }
    }
}


/// A tree whose other obligations all hold: every column is in the
/// schema, and every function application whose argument types are
/// defined resolves. Qualified columns and aggregate applications may
/// stand anywhere.
pub open spec fn benign(sch: Seq<FieldView>, rg: Seq<(Seq<char>, u64)>, e: ExprView) -> bool
    decreases e,
{
    match e {
        ExprView::Column(c) => first_with_name(sch, c) is Some,
        ExprView::QualifiedColumn(_) => true,
        ExprView::Literal { .. } => true,
        ExprView::Alias(_, sub) => benign(sch, rg, *sub),
        ExprView::UnaryExpression { op, expr } => benign(sch, rg, *expr) && (match expr_type(
            sch,
            rg,
            *expr,
        ) {
            Ok(t) => scalar_fn_spec(rg, op, seq![t]) is Ok,
            Err(_) => true,
        }),
        ExprView::BinaryExpression { op, left, right } => benign(sch, rg, *left) && benign(
            sch,
            rg,
            *right,
        ) && (match (expr_type(sch, rg, *left), expr_type(sch, rg, *right)) {
            (Ok(tl), Ok(tr)) => scalar_fn_spec(rg, op, seq![tl, tr]) is Ok,
            _ => true,
        }),
        ExprView::ScalarFunction { op, args } => benign_seq(sch, rg, args) && (match expr_types(
            sch,
            rg,
            args,
        ) {
            Ok(ts) => scalar_fn_spec(rg, op, ts) is Ok,
            Err(_) => true,
        }),
        ExprView::AggregateFunction { args, .. } => benign_seq(sch, rg, args),
        ExprView::Cast { expr, .. } => benign(sch, rg, *expr),
        ExprView::MapAccess { args } => benign_seq(sch, rg, args) && (match expr_types(
            sch,
            rg,
            args,
        ) {
            Ok(ts) => scalar_fn_spec(rg, "get"@, ts) is Ok,
            Err(_) => true,
        }),
        ExprView::Wildcard => true,
        ExprView::Sort(sub) => benign(sch, rg, *sub),
    }
}

pub open spec fn benign_seq(sch: Seq<FieldView>, rg: Seq<(Seq<char>, u64)>, es: Seq<ExprView>) -> bool
    decreases es,
{
    if es.len() == 0 {
        true
    } else {
        benign(sch, rg, es[0]) && benign_seq(sch, rg, es.drop_first())
    }
}

/// In a benign tree, the only type error is the caller fault itself.
proof fn lemma_benign_types(sch: Seq<FieldView>, rg: Seq<(Seq<char>, u64)>, e: ExprView)
    requires
        benign(sch, rg, e),
    ensures
        expr_type(sch, rg, e) is Ok || expr_type(sch, rg, e) == Err::<DataType, ErrClass>(
            ErrClass::LogicalError,
        ),
    decreases e,
{
    match e {
        ExprView::Alias(_, sub) => {
            lemma_benign_types(sch, rg, *sub);
        },
        ExprView::UnaryExpression { expr, .. } => {
            lemma_benign_types(sch, rg, *expr);
        },
        ExprView::BinaryExpression { left, right, .. } => {
            lemma_benign_types(sch, rg, *left);
            lemma_benign_types(sch, rg, *right);
        },
        ExprView::ScalarFunction { args, .. } => {
            lemma_benign_types_seq(sch, rg, args);
        },
        ExprView::Cast { expr, .. } => {
            lemma_benign_types(sch, rg, *expr);
        },
        ExprView::MapAccess { args } => {
            lemma_benign_types_seq(sch, rg, args);
        },
        ExprView::Sort(sub) => {
            lemma_benign_types(sch, rg, *sub);
        },
        _ => {},
    }
}

proof fn lemma_benign_types_seq(sch: Seq<FieldView>, rg: Seq<(Seq<char>, u64)>, es: Seq<ExprView>)
    requires
        benign_seq(sch, rg, es),
    ensures
        expr_types(sch, rg, es) is Ok || expr_types(sch, rg, es) == Err::<Seq<DataType>, ErrClass>(
            ErrClass::LogicalError,
        ),
    decreases es,
{
    if es.len() > 0 {
        lemma_benign_types(sch, rg, es[0]);
        lemma_benign_types_seq(sch, rg, es.drop_first());
    }
}

/// In a benign tree, the only compilation error is the caller fault.
proof fn lemma_benign_compile(sch: Seq<FieldView>, rg: Seq<(Seq<char>, u64)>, e: ExprView)
    requires
        benign(sch, rg, e),
    ensures
        compile_expr(sch, rg, e) is Ok || compile_expr(sch, rg, e) == Err::<
            Seq<ActionView>,
            ErrClass,
        >(ErrClass::LogicalError),
    decreases e,
{
    match e {
        ExprView::Alias(_, sub) => {
            lemma_benign_compile(sch, rg, *sub);
            lemma_benign_types(sch, rg, *sub);
        },
        ExprView::UnaryExpression { expr, .. } => {
            lemma_benign_compile(sch, rg, *expr);
            lemma_benign_types(sch, rg, *expr);
        },
        ExprView::BinaryExpression { left, right, .. } => {
            lemma_benign_compile(sch, rg, *left);
            lemma_benign_compile(sch, rg, *right);
            lemma_benign_types(sch, rg, *left);
            lemma_benign_types(sch, rg, *right);
        },
        ExprView::ScalarFunction { args, .. } => {
            lemma_benign_compile_seq(sch, rg, args);
            lemma_benign_types_seq(sch, rg, args);
        },
        ExprView::AggregateFunction { args, .. } => {
            lemma_benign_compile_seq(sch, rg, args);
        },
        ExprView::Cast { expr, .. } => {
            lemma_benign_compile(sch, rg, *expr);
            lemma_benign_types(sch, rg, *expr);
        },
        ExprView::MapAccess { args } => {
            lemma_benign_compile_seq(sch, rg, args);
            lemma_benign_types_seq(sch, rg, args);
        },
        ExprView::Sort(sub) => {
            lemma_benign_compile(sch, rg, *sub);
        },
        _ => {},
    }
}

proof fn lemma_benign_compile_seq(sch: Seq<FieldView>, rg: Seq<(Seq<char>, u64)>, es: Seq<ExprView>)
    requires
        benign_seq(sch, rg, es),
    ensures
        compile_seq(sch, rg, es) is Ok || compile_seq(sch, rg, es) == Err::<
            Seq<ActionView>,
            ErrClass,
        >(ErrClass::LogicalError),
    decreases es,
{
    if es.len() > 0 {
        lemma_benign_compile(sch, rg, es[0]);
        lemma_benign_compile_seq(sch, rg, es.drop_first());
    }
}

/// On a tree whose other obligations all hold, a qualified column or an
/// aggregate application anywhere makes compilation fail with exactly
/// the caller-fault error.
pub proof fn lemma_forbidden_fails_with_logical_error(
    sch: Seq<FieldView>,
    rg: Seq<(Seq<char>, u64)>,
    e: ExprView,
)
    requires
        benign(sch, rg, e),
        contains_forbidden(e),
    ensures
        compile_expr(sch, rg, e) == Err::<Seq<ActionView>, ErrClass>(ErrClass::LogicalError),
{
    lemma_forbidden_compile_fails(sch, rg, e);
    lemma_benign_compile(sch, rg, e);
}


/// Two merges chained into one accumulator.
pub open spec fn merge_two(k: AggregateKind, a: Seq<ValueView>, b: Seq<ValueView>) -> Option<
    AggregateKind,
> {
    match merge_kind_spec(k, a) {
        None => None,
        Some(k1) => merge_kind_spec(k1, b),
    }
}

/// Merging two count snapshots is order-independent: interleaving across
/// upstream producers cannot change the final total.
pub proof fn lemma_count_merge_commutes(total: u64, a: Seq<ValueView>, b: Seq<ValueView>)
    ensures
        merge_two(AggregateKind::Count { total }, a, b) == merge_two(
            AggregateKind::Count { total },
            b,
            a,
        ),
{
}

} // verus!
