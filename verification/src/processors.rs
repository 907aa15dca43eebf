use vstd::prelude::*;

use crate::chain::{expr_view_seq, ExprView};
use crate::errors::{error_class, ErrClass, ErrorCode};
use crate::functions::{
    construct_aggregate_spec, construct_combinator_spec, merge_kind_spec, merge_result_spec,
    AggView, AggregateFunction, AggregateKind,
};
use crate::registry::{
    agg_of_code_spec, comb_of_code_spec, resolve_spec, AggregateFunctionFactory, Resolution,
};
use crate::state_codec::{decode_state, decode_state_spec};
use crate::text::lower_of;
use crate::values::{
    first_with_name, value_view, value_view_seq, DataField, DataSchema, DataValue, FieldView,
    ValueView,
};
use crate::chain::{value_name_spec, Expression};

verus! {

// ---------------------------------------------------------------------
// Blocks and streams
// ---------------------------------------------------------------------

/// A columnar unit of data flowing between operators.
#[derive(Debug, PartialEq, Eq)]
pub struct DataBlock {
    pub schema: DataSchema,
    pub columns: Vec<Vec<DataValue>>,
}

/// The mathematical shape of a block.
#[verifier::ext_equal]
pub struct BlockView {
    pub schema: Seq<FieldView>,
    pub columns: Seq<Seq<ValueView>>,
}

/// The view of one block.
pub open spec fn block_view(b: DataBlock) -> BlockView {
    BlockView {
        schema: b.schema@,
        columns: Seq::new(b.columns@.len(), |i: int| value_view_seq(b.columns@[i]@)),
    }
}

impl View for DataBlock {
    type V = BlockView;

    open spec fn view(&self) -> BlockView {
        block_view(*self)
    }
}

/// A structural copy of one column.
fn clone_column(col: &Vec<DataValue>) -> (r: Vec<DataValue>)
    ensures
        value_view_seq(r@) == value_view_seq(col@),
        r@.len() == col@.len(),
{
    let mut out: Vec<DataValue> = Vec::new();
    let mut i: usize = 0;
    while i < col.len()
        invariant
            i <= col@.len(),
            out@.len() == i,
            forall|j: int| 0 <= j < i ==> value_view(out@[j]) == value_view(col@[j]),
        decreases col@.len() - i,
    {
        out.push((&col[i]).clone());
        i = i + 1;
    }
    proof {
        crate::values::lemma_value_view_seq_pointwise(out@, col@);
    }
    out
}

impl Clone for DataBlock {
    fn clone(&self) -> (r: Self)
        ensures
            r@ == self@,
    {
        let mut columns: Vec<Vec<DataValue>> = Vec::new();
        let mut i: usize = 0;
        while i < self.columns.len()
            invariant
                i <= self.columns@.len(),
                columns@.len() == i,
                forall|j: int|
                    0 <= j < i ==> value_view_seq(#[trigger] columns@[j]@) == value_view_seq(
                        self.columns@[j]@,
                    ),
            decreases self.columns@.len() - i,
        {
            columns.push(clone_column(&self.columns[i]));
            i = i + 1;
        }
        let r = DataBlock { schema: self.schema.clone(), columns };
        proof {
            assert(r@.columns =~= self@.columns);
            assert(r@ =~= self@);
        }
        r
    }
}

impl DataBlock {
    pub fn create(schema: DataSchema, columns: Vec<Vec<DataValue>>) -> (r: DataBlock)
        ensures
            r.schema == schema,
            r.columns == columns,
    {
        DataBlock { schema, columns }
    }
}

/// A finite, ordered sequence of blocks, pulled one batch at a time.
/// Dropping it before exhaustion abandons only its own blocks.
#[derive(Debug)]
pub struct DataBlockStream {
    blocks: Vec<DataBlock>,
    pos: usize,
}

impl DataBlockStream {
    /// The batches not yet pulled, in order.
    pub closed spec fn remaining(&self) -> Seq<BlockView> {
        Seq::new(self.blocks@.len(), |i: int| block_view(self.blocks@[i])).skip(self.pos as int)
    }

    pub closed spec fn wf(&self) -> bool {
        self.pos <= self.blocks@.len()
    }

    /// A stream over the given blocks.
    pub fn create(blocks: Vec<DataBlock>) -> (r: DataBlockStream)
        ensures
            r.wf(),
            r.remaining() == Seq::new(blocks@.len(), |i: int| block_view(blocks@[i])),
    {
        let r = DataBlockStream { blocks, pos: 0 };
        proof {
            assert(r.remaining() =~= Seq::new(r.blocks@.len(), |i: int| block_view(r.blocks@[i])));
        }
        r
    }

    /// Pulls the next batch; the suspension point of the execution model.
    pub fn next(&mut self) -> (r: Option<DataBlock>)
        requires
            old(self).wf(),
        ensures
            final(self).wf(),
            (match r {
                Some(b) => old(self).remaining().len() > 0 && block_view(b) == old(
                    self,
                ).remaining()[0] && final(self).remaining() == old(self).remaining().drop_first(),
                None => old(self).remaining().len() == 0 && final(self).remaining() == old(
                    self,
                ).remaining(),
            }),
    {
        if self.pos < self.blocks.len() {
            let b = (&self.blocks[self.pos]).clone();
            self.pos = self.pos + 1;
            proof {
                assert(block_view(b) == old(self).remaining()[0]);
                assert(self.remaining() =~= old(self).remaining().drop_first());
            }
            Some(b)
        } else {
            None
        }
    }
}

// ---------------------------------------------------------------------
// The merge model
// ---------------------------------------------------------------------

/// What one cell does to an accumulator: a serialized list payload
/// decodes and merges, a well-formed bare payload or a non-string cell is
/// skipped, and corrupt or unmergeable text is fatal.
pub open spec fn merge_value(k: AggregateKind, v: ValueView) -> Result<AggregateKind, ErrClass> {
    match v {
        ValueView::Utf8(o) => match o {
            Some(ser) => match decode_state_spec(ser) {
                Err(_) => Err(ErrClass::BadState),
                Ok(None) => Ok(k),
                Ok(Some(states)) => match merge_kind_spec(k, states) {
                    None => Err(ErrClass::BadState),
                    Some(k2) => Ok(k2),
                },
            },
            None => Ok(k),
        },
        _ => Ok(k),
    }
}

/// Folding one function's state column into its accumulator, row by row.
pub open spec fn merge_column(k: AggregateKind, col: Seq<ValueView>) -> Result<
    AggregateKind,
    ErrClass,
> {
    merge_column_from(k, col, 0)
}

/// The fold from row `r` on.
pub open spec fn merge_column_from(k: AggregateKind, col: Seq<ValueView>, r: int) -> Result<
    AggregateKind,
    ErrClass,
>
    decreases col.len() - r when 0 <= r <= col.len()
{
    if r >= col.len() {
        Ok(k)
    } else {
        match merge_value(k, col[r]) {
            Err(c) => Err(c),
            Ok(k2) => merge_column_from(k2, col, r + 1),
        }
    }
}

/// Merging one block: function `i` drains its own state column `i`.
/// A block without a column for some function is corrupt.
pub open spec fn merge_block(kinds: Seq<AggregateKind>, b: BlockView) -> Result<
    Seq<AggregateKind>,
    ErrClass,
> {
    if b.columns.len() < kinds.len() {
        Err(ErrClass::BadState)
    } else {
        merge_block_from(kinds, b.columns, 0)
    }
}

/// Merging the columns from function index `i` on.
pub open spec fn merge_block_from(
    kinds: Seq<AggregateKind>,
    cols: Seq<Seq<ValueView>>,
    i: int,
) -> Result<Seq<AggregateKind>, ErrClass>
    decreases kinds.len() - i when 0 <= i <= kinds.len() && kinds.len() <= cols.len()
{
    if i >= kinds.len() {
        Ok(Seq::empty())
    } else {
        match merge_column(kinds[i], cols[i]) {
            Err(c) => Err(c),
            Ok(k2) => match merge_block_from(kinds, cols, i + 1) {
                Err(c) => Err(c),
                Ok(rest) => Ok(seq![k2] + rest),
            },
        }
    }
}

/// Draining the upstream batches in order.
pub open spec fn merge_blocks(kinds: Seq<AggregateKind>, blocks: Seq<BlockView>) -> Result<
    Seq<AggregateKind>,
    ErrClass,
>
    decreases blocks.len(),
{
    if blocks.len() == 0 {
        Ok(kinds)
    } else {
        match merge_block(kinds, blocks[0]) {
            Err(c) => Err(c),
            Ok(ks) => merge_blocks(ks, blocks.drop_first()),
        }
    }
}

/// The single finalized batch: one single-row column per accumulator.
pub open spec fn result_block(schema: Seq<FieldView>, kinds: Seq<AggregateKind>) -> BlockView {
    BlockView { schema, columns: Seq::new(kinds.len(), |i: int| seq![merge_result_spec(kinds[i])]) }
}

// ---------------------------------------------------------------------
// Operators
// ---------------------------------------------------------------------

/// A node of the pull-based execution graph.
#[derive(Debug)]
pub enum Processor {
    /// The safe default before wiring; never a real data source.
    Empty(EmptyProcessor),
    /// A source yielding a fixed list of batches.
    Source(SourceProcessor),
    /// The final-merge aggregation operator.
    AggregatorFinal(AggregatorFinalTransform),
}

#[derive(Debug)]
pub struct EmptyProcessor;

impl EmptyProcessor {
    pub fn create() -> EmptyProcessor {
        EmptyProcessor
    }
}

#[derive(Debug)]
pub struct SourceProcessor {
    pub blocks: Vec<DataBlock>,
}

/// The merge-capable operator: one function instance per output
/// aggregate column, an output schema, and one upstream.
#[derive(Debug)]
pub struct AggregatorFinalTransform {
    funcs: Vec<AggregateFunction>,
    schema: DataSchema,
    input: Box<Processor>,
}

/// The mathematical shape of an operator.
#[verifier::ext_equal]
pub enum ProcView {
    Empty,
    Source(Seq<BlockView>),
    AggregatorFinal { funcs: Seq<AggView>, schema: Seq<FieldView>, input: Box<ProcView> },
}

/// The view of one operator.
pub closed spec fn proc_view(p: Processor) -> ProcView
    decreases p,
{
    match p {
        Processor::Empty(_) => ProcView::Empty,
        Processor::Source(s) => ProcView::Source(
            Seq::new(s.blocks@.len(), |i: int| block_view(s.blocks@[i])),
        ),
        Processor::AggregatorFinal(t) => ProcView::AggregatorFinal {
            funcs: Seq::new(t.funcs@.len(), |i: int| t.funcs@[i]@),
            schema: t.schema@,
            input: Box::new(proc_view(*t.input)),
        },
    }
}

impl View for Processor {
    type V = ProcView;

    open spec fn view(&self) -> ProcView {
        proc_view(*self)
    }
}

/// The accumulators of a list of function instances.
pub open spec fn kinds_of(funcs: Seq<AggView>) -> Seq<AggregateKind> {
    funcs.map_values(|a: AggView| a.kind)
}

/// What executing an operator yields: the ordered, finite batch sequence,
/// or the first error of the merge.
pub open spec fn run_processor(p: ProcView) -> Result<Seq<BlockView>, ErrClass>
    decreases p,
{
    match p {
        ProcView::Empty => Ok(Seq::empty()),
        ProcView::Source(bs) => Ok(bs),
        ProcView::AggregatorFinal { funcs, schema, input } => match run_processor(*input) {
            Err(c) => Err(c),
            Ok(blocks) => match merge_blocks(kinds_of(funcs), blocks) {
                Err(c) => Err(c),
                Ok(ks) => Ok(seq![result_block(schema, ks)]),
            },
        },
    }
}

impl Processor {
    /// The operator's name, for diagnostics.
    pub fn name(&self) -> (r: &'static str)
    {
        match self {
            Processor::Empty(_) => "EmptyProcessor",
            Processor::Source(_) => "SourceProcessor",
            Processor::AggregatorFinal(_) => "AggregatorFinalTransform",
        }
    }

    /// Produces this operator's batch sequence, pulling each upstream in
    /// order and suspending only at batch boundaries.
    pub fn execute(&self) -> (r: Result<DataBlockStream, ErrorCode>)
        ensures
            (match r {
                Ok(st) => st.wf() && run_processor(self@) == Ok::<Seq<BlockView>, ErrClass>(
                    st.remaining(),
                ),
                Err(e) => run_processor(self@) == Err::<Seq<BlockView>, ErrClass>(error_class(e)),
            }),
        decreases *self,
    {
        match self {
            Processor::Empty(_) => {
                let st = DataBlockStream::create(Vec::new());
                proof {
                    assert(st.remaining() =~= Seq::<BlockView>::empty());
                }
                Ok(st)
            },
            Processor::Source(s) => {
                let blocks = clone_blocks(&s.blocks);
                let st = DataBlockStream::create(blocks);
                proof {
                    assert(st.remaining() =~= run_processor(self@)->Ok_0);
                }
                Ok(st)
            },
            Processor::AggregatorFinal(t) => t.execute(),
        }
    }
}

/// A structural copy of a list of blocks.
fn clone_blocks(blocks: &Vec<DataBlock>) -> (r: Vec<DataBlock>)
    ensures
        r@.len() == blocks@.len(),
        forall|i: int| 0 <= i < r@.len() ==> block_view(#[trigger] r@[i]) == block_view(blocks@[i]),
{
    let mut out: Vec<DataBlock> = Vec::new();
    let mut i: usize = 0;
    while i < blocks.len()
        invariant
            i <= blocks@.len(),
            out@.len() == i,
            forall|j: int|
                0 <= j < i ==> block_view(#[trigger] out@[j]) == block_view(blocks@[j]),
        decreases blocks@.len() - i,
    {
        out.push((&blocks[i]).clone());
        i = i + 1;
    }
    out
}


// ---------------------------------------------------------------------
// Building the merge operator
// ---------------------------------------------------------------------

/// The argument field an aggregate argument expression denotes: a column
/// of the schema, or a literal with its declared type.
pub open spec fn agg_field(schema: Seq<FieldView>, e: ExprView) -> Result<FieldView, ErrClass> {
    match e {
        ExprView::Column(c) => match first_with_name(schema, c) {
            Some(f) => Ok(f),
            None => Err(ErrClass::FieldNotFound),
        },
        ExprView::Literal { value, data_type } => Ok(
            FieldView { name: value_name_spec(value), data_type },
        ),
        _ => Err(ErrClass::LogicalError),
    }
}

/// The argument fields of a list of aggregate arguments.
pub open spec fn agg_fields(schema: Seq<FieldView>, es: Seq<ExprView>) -> Result<
    Seq<FieldView>,
    ErrClass,
>
    decreases es.len(),
{
    if es.len() == 0 {
        Ok(Seq::empty())
    } else {
        match agg_field(schema, es[0]) {
            Err(c) => Err(c),
            Ok(f) => match agg_fields(schema, es.drop_first()) {
                Err(c) => Err(c),
                Ok(fs) => Ok(seq![f] + fs),
            },
        }
    }
}

pub proof fn lemma_agg_fields_all_ok(schema: Seq<FieldView>, es: Seq<ExprView>, fs: Seq<FieldView>)
    requires
        es.len() == fs.len(),
        forall|j: int| 0 <= j < es.len() ==> agg_field(schema, #[trigger] es[j]) == Ok::<
            FieldView,
            ErrClass,
        >(fs[j]),
    ensures
        agg_fields(schema, es) == Ok::<Seq<FieldView>, ErrClass>(fs),
    decreases es.len(),
{
    if es.len() == 0 {
        assert(fs =~= Seq::<FieldView>::empty());
    } else {
        lemma_agg_fields_all_ok(schema, es.drop_first(), fs.drop_first());
        assert(seq![fs[0]] + fs.drop_first() =~= fs);
    }
}

pub proof fn lemma_agg_fields_err_at(schema: Seq<FieldView>, es: Seq<ExprView>, i: int, c: ErrClass)
    requires
        0 <= i < es.len(),
        forall|j: int| 0 <= j < i ==> agg_field(schema, #[trigger] es[j]) is Ok,
        agg_field(schema, es[i]) == Err::<FieldView, ErrClass>(c),
    ensures
        agg_fields(schema, es) == Err::<Seq<FieldView>, ErrClass>(c),
    decreases i,
{
    if i > 0 {
        lemma_agg_fields_err_at(schema, es.drop_first(), i - 1, c);
    }
}

/// The merge-capable instance one compiled aggregate expression yields:
/// only an aggregate application is accepted, its arguments become
/// fields, and its name resolves through the aggregate registry.
pub open spec fn plan_func(
    schema: Seq<FieldView>,
    base: Seq<(Seq<char>, u64)>,
    combs: Seq<(Seq<char>, u64)>,
    e: ExprView,
) -> Result<AggView, ErrClass> {
    match e {
        ExprView::AggregateFunction { op, args } => match agg_fields(schema, args) {
            Err(c) => Err(c),
            Ok(fs) => match resolve_spec(base, combs, lower_of(op)) {
                Resolution::Direct(code) => match construct_aggregate_spec(
                    agg_of_code_spec(code)->Some_0,
                    op,
                    fs,
                ) {
                    Some(a) => Ok(a),
                    None => Err(ErrClass::TypeMismatch),
                },
                Resolution::Wrapped { comb, nested, nested_name } =>
                    match construct_combinator_spec(
                    comb_of_code_spec(comb)->Some_0,
                    agg_of_code_spec(nested)->Some_0,
                    nested_name,
                    fs,
                ) {
                    Some(a) => Ok(a),
                    None => Err(ErrClass::TypeMismatch),
                },
                Resolution::NotFound => Err(ErrClass::UnknownFunction),
            },
        },
        _ => Err(ErrClass::LogicalError),
    }
}

/// The instances of a list of aggregate expressions.
pub open spec fn plan_funcs(
    schema: Seq<FieldView>,
    base: Seq<(Seq<char>, u64)>,
    combs: Seq<(Seq<char>, u64)>,
    es: Seq<ExprView>,
) -> Result<Seq<AggView>, ErrClass>
    decreases es.len(),
{
    if es.len() == 0 {
        Ok(Seq::empty())
    } else {
        match plan_func(schema, base, combs, es[0]) {
            Err(c) => Err(c),
            Ok(a) => match plan_funcs(schema, base, combs, es.drop_first()) {
                Err(c) => Err(c),
                Ok(rest) => Ok(seq![a] + rest),
            },
        }
    }
}

pub proof fn lemma_plan_funcs_all_ok(
    schema: Seq<FieldView>,
    base: Seq<(Seq<char>, u64)>,
    combs: Seq<(Seq<char>, u64)>,
    es: Seq<ExprView>,
    fs: Seq<AggView>,
)
    requires
        es.len() == fs.len(),
        forall|j: int| 0 <= j < es.len() ==> plan_func(schema, base, combs, #[trigger] es[j])
            == Ok::<AggView, ErrClass>(fs[j]),
    ensures
        plan_funcs(schema, base, combs, es) == Ok::<Seq<AggView>, ErrClass>(fs),
    decreases es.len(),
{
    if es.len() == 0 {
        assert(fs =~= Seq::<AggView>::empty());
    } else {
        lemma_plan_funcs_all_ok(schema, base, combs, es.drop_first(), fs.drop_first());
        assert(seq![fs[0]] + fs.drop_first() =~= fs);
    }
}

pub proof fn lemma_plan_funcs_err_at(
    schema: Seq<FieldView>,
    base: Seq<(Seq<char>, u64)>,
    combs: Seq<(Seq<char>, u64)>,
    es: Seq<ExprView>,
    i: int,
    c: ErrClass,
)
    requires
        0 <= i < es.len(),
        forall|j: int| 0 <= j < i ==> plan_func(schema, base, combs, #[trigger] es[j]) is Ok,
        plan_func(schema, base, combs, es[i]) == Err::<AggView, ErrClass>(c),
    ensures
        plan_funcs(schema, base, combs, es) == Err::<Seq<AggView>, ErrClass>(c),
    decreases i,
{
    if i > 0 {
        lemma_plan_funcs_err_at(schema, base, combs, es.drop_first(), i - 1, c);
    }
}

/// Builds the argument field of one aggregate argument.
fn to_data_field(arg: &Expression, schema: &DataSchema) -> (r: Result<DataField, ErrorCode>)
    ensures
        (match r {
            Ok(f) => agg_field(schema@, arg@) == Ok::<FieldView, ErrClass>(f@),
            Err(e) => agg_field(schema@, arg@) == Err::<FieldView, ErrClass>(error_class(e)),
        }),
{
    match arg {
        Expression::Column(c) => match schema.field_with_name(c.as_str()) {
            Ok(f) => Ok(f.clone()),
            Err(e) => Err(e),
        },
        Expression::Literal { value, data_type } => {
            let name = arg.column_name();
            Ok(DataField::new(name, data_type.clone()))
        },
        _ => Err(
            ErrorCode::LogicalError("aggregate argument must be a column or a literal".to_owned()),
        ),
    }
}

/// A structural copy of the function instances.
fn clone_aggs(funcs: &Vec<AggregateFunction>) -> (r: Vec<AggregateFunction>)
    ensures
        r@.len() == funcs@.len(),
        forall|i: int| 0 <= i < r@.len() ==> (#[trigger] r@[i])@ == funcs@[i]@,
{
    let mut out: Vec<AggregateFunction> = Vec::new();
    let mut i: usize = 0;
    while i < funcs.len()
        invariant
            i <= funcs@.len(),
            out@.len() == i,
            forall|j: int| 0 <= j < i ==> (#[trigger] out@[j])@ == funcs@[j]@,
        decreases funcs@.len() - i,
    {
        out.push((&funcs[i]).clone());
        i = i + 1;
    }
    out
}

/// When every accumulator's column folds cleanly, the block's merge is
/// their list.
pub proof fn lemma_merge_block_from_all_ok(
    kinds: Seq<AggregateKind>,
    cols: Seq<Seq<ValueView>>,
    res: Seq<AggregateKind>,
    i: int,
)
    requires
        kinds.len() <= cols.len(),
        kinds.len() == res.len(),
        0 <= i <= kinds.len(),
        forall|j: int| i <= j < kinds.len() ==> merge_column(kinds[j], #[trigger] cols[j]) == Ok::<
            AggregateKind,
            ErrClass,
        >(res[j]),
    ensures
        merge_block_from(kinds, cols, i) == Ok::<Seq<AggregateKind>, ErrClass>(res.skip(i)),
    decreases kinds.len() - i,
{
    if i == kinds.len() {
        assert(res.skip(i) =~= Seq::<AggregateKind>::empty());
    } else {
        lemma_merge_block_from_all_ok(kinds, cols, res, i + 1);
        assert(seq![res[i]] + res.skip(i + 1) =~= res.skip(i));
    }
}

/// The first accumulator whose column fails decides the block's error.
pub proof fn lemma_merge_block_from_err_at(
    kinds: Seq<AggregateKind>,
    cols: Seq<Seq<ValueView>>,
    i: int,
    c: ErrClass,
)
    requires
        kinds.len() <= cols.len(),
        0 <= i < kinds.len(),
        forall|j: int| 0 <= j < i ==> merge_column(kinds[j], #[trigger] cols[j]) is Ok,
        merge_column(kinds[i], cols[i]) == Err::<AggregateKind, ErrClass>(c),
    ensures
        merge_block_from(kinds, cols, 0) == Err::<Seq<AggregateKind>, ErrClass>(c),
{
    lemma_merge_block_from_err_helper(kinds, cols, i, c, 0);
}

proof fn lemma_merge_block_from_err_helper(
    kinds: Seq<AggregateKind>,
    cols: Seq<Seq<ValueView>>,
    i: int,
    c: ErrClass,
    k: int,
)
    requires
        kinds.len() <= cols.len(),
        0 <= k <= i < kinds.len(),
        forall|j: int| k <= j < i ==> merge_column(kinds[j], #[trigger] cols[j]) is Ok,
        merge_column(kinds[i], cols[i]) == Err::<AggregateKind, ErrClass>(c),
    ensures
        merge_block_from(kinds, cols, k) == Err::<Seq<AggregateKind>, ErrClass>(c),
    decreases i - k,
{
    if k < i {
        lemma_merge_block_from_err_helper(kinds, cols, i, c, k + 1);
    }
}

impl AggregatorFinalTransform {
    /// The function instances, in output-column order.
    pub closed spec fn funcs_view(&self) -> Seq<AggView> {
        Seq::new(self.funcs@.len(), |i: int| self.funcs@[i]@)
    }

    /// The declared output schema.
    pub closed spec fn schema_view(&self) -> Seq<FieldView> {
        self.schema@
    }

    /// The wired upstream.
    pub closed spec fn input_view(&self) -> ProcView {
        proc_view(*self.input)
    }

    /// The operator as a node of the execution graph.
    pub open spec fn as_proc_view(&self) -> ProcView {
        ProcView::AggregatorFinal {
            funcs: self.funcs_view(),
            schema: self.schema_view(),
            input: Box::new(self.input_view()),
        }
    }

    /// Builds the operator from the compiled aggregate expression list:
    /// one merge-capable function instance per output column, wired to
    /// the placeholder upstream.
    #[verifier::loop_isolation(false)]
    pub fn try_create(
        schema: DataSchema,
        exprs: &Vec<Expression>,
        factory: &AggregateFunctionFactory,
    ) -> (r: Result<AggregatorFinalTransform, ErrorCode>)
        requires
            factory.well_formed(),
        ensures
            (match r {
                Ok(t) => plan_funcs(
                    schema@,
                    factory.entries(),
                    factory.combinator_entries(),
                    expr_view_seq(exprs@),
                ) == Ok::<Seq<AggView>, ErrClass>(t.funcs_view()) && t.schema_view() == schema@
                    && t.input_view() == ProcView::Empty,
                Err(e) => plan_funcs(
                    schema@,
                    factory.entries(),
                    factory.combinator_entries(),
                    expr_view_seq(exprs@),
                ) == Err::<Seq<AggView>, ErrClass>(error_class(e)),
            }),
    {
        let ghost sview = schema@;
        let ghost views = expr_view_seq(exprs@);
        proof {
            crate::chain::lemma_expr_view_seq_len(exprs@);
        }
        let mut funcs: Vec<AggregateFunction> = Vec::new();
        let n = exprs.len();
        let mut i: usize = 0;
        while i < n
            invariant
                i <= n,
                funcs@.len() == i,
                forall|j: int|
                    0 <= j < i ==> plan_func(
                        sview,
                        factory.entries(),
                        factory.combinator_entries(),
                        #[trigger] views[j],
                    ) == Ok::<AggView, ErrClass>(funcs@[j]@),
            decreases n - i,
        {
            proof {
                crate::chain::lemma_expr_view_seq_index(exprs@, i as int);
            }
            match Self::plan_one(&exprs[i], &schema, factory) {
                Ok(f) => {
                    funcs.push(f);
                },
                Err(e) => {
                    proof {
                        lemma_plan_funcs_err_at(
                            sview,
                            factory.entries(),
                            factory.combinator_entries(),
                            views,
                            i as int,
                            error_class(e),
                        );
                    }
                    return Err(e);
                },
            }
            i = i + 1;
        }
        let t = AggregatorFinalTransform {
            funcs,
            schema,
            input: Box::new(Processor::Empty(EmptyProcessor::create())),
        };
        proof {
            lemma_plan_funcs_all_ok(
                sview,
                factory.entries(),
                factory.combinator_entries(),
                views,
                t.funcs_view(),
            );
        }
        Ok(t)
    }

    /// Builds one function instance from one aggregate expression.
    #[verifier::loop_isolation(false)]
    fn plan_one(expr: &Expression, schema: &DataSchema, factory: &AggregateFunctionFactory) -> (r:
        Result<AggregateFunction, ErrorCode>)
        requires
            factory.well_formed(),
        ensures
            (match r {
                Ok(f) => plan_func(
                    schema@,
                    factory.entries(),
                    factory.combinator_entries(),
                    expr@,
                ) == Ok::<AggView, ErrClass>(f@),
                Err(e) => plan_func(
                    schema@,
                    factory.entries(),
                    factory.combinator_entries(),
                    expr@,
                ) == Err::<AggView, ErrClass>(error_class(e)),
            }),
    {
        match expr {
            Expression::AggregateFunction { op, args } => {
                let ghost argviews = expr_view_seq(args@);
                proof {
                    crate::chain::lemma_expr_view_seq_len(args@);
                }
                let mut fields: Vec<DataField> = Vec::new();
                let n = args.len();
                let mut i: usize = 0;
                while i < n
                    invariant
                        i <= n,
                        fields@.len() == i,
                        forall|j: int|
                            0 <= j < i ==> agg_field(schema@, #[trigger] argviews[j]) == Ok::<
                                FieldView,
                                ErrClass,
                            >(fields@[j]@),
                    decreases n - i,
                {
                    proof {
                        crate::chain::lemma_expr_view_seq_index(args@, i as int);
                    }
                    match to_data_field(&args[i], schema) {
                        Ok(f) => {
                            fields.push(f);
                        },
                        Err(e) => {
                            proof {
                                lemma_agg_fields_err_at(
                                    schema@,
                                    argviews,
                                    i as int,
                                    error_class(e),
                                );
                            }
                            return Err(e);
                        },
                    }
                    i = i + 1;
                }
                proof {
                    lemma_agg_fields_all_ok(
                        schema@,
                        argviews,
                        crate::functions::fields_view(fields@),
                    );
                }
                let params: Vec<DataValue> = Vec::new();
                factory.get(op.as_str(), &params, &fields)
            },
            _ => Err(
                ErrorCode::LogicalError(
                    "the final-merge operator takes aggregate expressions".to_owned(),
                ),
            ),
        }
    }

    /// The operator's name, for diagnostics.
    pub fn name(&self) -> (r: &'static str)
    {
        "AggregatorFinalTransform"
    }

    /// Wires the upstream; the placeholder is replaced.
    pub fn connect_to(&mut self, input: Processor) -> (r: Result<(), ErrorCode>)
        ensures
            r is Ok,
            final(self).funcs_view() == old(self).funcs_view(),
            final(self).schema_view() == old(self).schema_view(),
            final(self).input_view() == input@,
    {
        self.input = Box::new(input);
        Ok(())
    }

    /// The wired upstreams, in pull order.
    pub fn inputs(&self) -> (r: Vec<&Processor>)
        ensures
            r@.len() == 1,
            r@[0]@ == self.input_view(),
    {
        let mut v: Vec<&Processor> = Vec::new();
        v.push(&*self.input);
        v
    }

    /// Drains the upstream batches in order, merging every serialized
    /// partial state into its function's accumulator, and yields exactly
    /// one finalized batch. A corrupt state is fatal; a null or
    /// non-string cell is skipped.
    #[verifier::loop_isolation(false)]
    #[verifier::rlimit(60)]
    pub fn execute(&self) -> (r: Result<DataBlockStream, ErrorCode>)
        ensures
            (match r {
                Ok(st) => st.wf() && run_processor(self.as_proc_view()) == Ok::<
                    Seq<BlockView>,
                    ErrClass,
                >(st.remaining()),
                Err(e) => run_processor(self.as_proc_view()) == Err::<Seq<BlockView>, ErrClass>(
                    error_class(e),
                ),
            }),
        decreases *self,
    {
        let ghost kinds0 = kinds_of(self.funcs_view());
        let mut funcs = clone_aggs(&self.funcs);
        let mut stream = match self.input.execute() {
            Ok(s) => s,
            Err(e) => {
                return Err(e);
            },
        };
        let ghost upstream = stream.remaining();
        proof {
            assert(kinds_of(self.funcs_view()) =~= Seq::new(
                funcs@.len(),
                |i: int| funcs@[i]@.kind,
            ));
        }
        loop
            invariant
                stream.wf(),
                funcs@.len() == self.funcs@.len(),
                forall|j: int|
                    0 <= j < funcs@.len() ==> (#[trigger] funcs@[j])@.name
                        == self.funcs_view()[j].name && funcs@[j]@.combinator
                        == self.funcs_view()[j].combinator,
                merge_blocks(kinds0, upstream) == merge_blocks(
                    Seq::new(funcs@.len(), |i: int| funcs@[i]@.kind),
                    stream.remaining(),
                ),
            decreases stream.remaining().len(),
        {
            let block = match stream.next() {
                Some(b) => b,
                None => {
                    break ;
                },
            };
            let ghost cur = Seq::new(funcs@.len(), |i: int| funcs@[i]@.kind);
            let ghost bview = block_view(block);
            if block.columns.len() < funcs.len() {
                proof {
                    assert(merge_block(cur, bview) == Err::<Seq<AggregateKind>, ErrClass>(
                        ErrClass::BadState,
                    ));
                }
                return Err(ErrorCode::BadState("missing partial-state column".to_owned()));
            }
            let mut new_funcs: Vec<AggregateFunction> = Vec::new();
            let nf = funcs.len();
            let mut i: usize = 0;
            while i < nf
                invariant
                    i <= nf,
                    nf == funcs@.len(),
                    funcs@.len() <= block.columns@.len(),
                    bview == block_view(block),
                    cur == Seq::new(funcs@.len(), |k: int| funcs@[k]@.kind),
                    new_funcs@.len() == i,
                    forall|j: int|
                        0 <= j < i ==> merge_column(cur[j], #[trigger] bview.columns[j]) == Ok::<
                            AggregateKind,
                            ErrClass,
                        >(new_funcs@[j]@.kind),
                    forall|j: int|
                        0 <= j < i ==> (#[trigger] new_funcs@[j])@.name == funcs@[j]@.name
                            && new_funcs@[j]@.combinator == funcs@[j]@.combinator,
                decreases nf - i,
            {
                let mut f = (&funcs[i]).clone();
                let col_len = block.columns[i].len();
                let ghost colv = bview.columns[i as int];
                proof {
                    assert(colv == value_view_seq(block.columns@[i as int]@));
                    crate::values::lemma_value_view_seq_len(block.columns@[i as int]@);
                }
                let mut r: usize = 0;
                while r < col_len
                    invariant
                        r <= col_len,
                        col_len == block.columns@[i as int]@.len(),
                        colv == value_view_seq(block.columns@[i as int]@),
                        colv.len() == col_len,
                        i < nf,
                        nf == funcs@.len(),
                        funcs@.len() <= block.columns@.len(),
                        bview == block_view(block),
                        f@.name == funcs@[i as int]@.name,
                        f@.combinator == funcs@[i as int]@.combinator,
                        merge_column(cur[i as int], colv) == merge_column_from(
                            f@.kind,
                            colv,
                            r as int,
                        ),
                    decreases col_len - r,
                {
                    proof {
                        crate::values::lemma_value_view_seq_index(
                            block.columns@[i as int]@,
                            r as int,
                        );
                    }
                    match &block.columns[i][r] {
                        DataValue::Utf8(o) => match o {
                            Some(ser) => match decode_state(ser.as_str()) {
                                Ok(Some(states)) => {
                                    match f.merge(&states) {
                                        Ok(()) => {},
                                        Err(e) => {
                                            proof {
                                                lemma_merge_block_from_err_at(
                                                    cur,
                                                    bview.columns,
                                                    i as int,
                                                    error_class(e),
                                                );
                                            }
                                            return Err(e);
                                        },
                                    }
                                },
                                Ok(None) => {},
                                Err(e) => {
                                    proof {
                                        lemma_merge_block_from_err_at(
                                            cur,
                                            bview.columns,
                                            i as int,
                                            error_class(e),
                                        );
                                    }
                                    return Err(e);
                                },
                            },
                            None => {},
                        },
                        _ => {},
                    }
                    r = r + 1;
                }
                new_funcs.push(f);
                i = i + 1;
            }
            proof {
                lemma_merge_block_from_all_ok(
                    cur,
                    bview.columns,
                    Seq::new(new_funcs@.len(), |k: int| new_funcs@[k]@.kind),
                    0,
                );
                assert(Seq::new(new_funcs@.len(), |k: int| new_funcs@[k]@.kind).skip(0) =~= Seq::new(
                    new_funcs@.len(),
                    |k: int| new_funcs@[k]@.kind,
                ));
            }
            funcs = new_funcs;
        }
        // Upstream exhausted: finalize each accumulator into one batch.
        let ghost final_kinds = Seq::new(funcs@.len(), |i: int| funcs@[i]@.kind);
        proof {
            assert(merge_blocks(kinds0, upstream) == Ok::<Seq<AggregateKind>, ErrClass>(
                final_kinds,
            ));
        }
        let mut columns: Vec<Vec<DataValue>> = Vec::new();
        let n = funcs.len();
        let mut i: usize = 0;
        while i < n
            invariant
                i <= n,
                n == funcs@.len(),
                final_kinds == Seq::new(funcs@.len(), |k: int| funcs@[k]@.kind),
                columns@.len() == i,
                forall|j: int|
                    0 <= j < i ==> value_view_seq(#[trigger] columns@[j]@) == seq![
                        merge_result_spec(final_kinds[j]),
                    ],
            decreases n - i,
        {
            let v = match (&funcs[i]).merge_result() {
                Ok(v) => v,
                Err(e) => {
                    return Err(e);
                },
            };
            let mut col: Vec<DataValue> = Vec::new();
            col.push(v);
            proof {
                assert(col@.drop_first() =~= Seq::<DataValue>::empty());
                assert(value_view_seq(col@) == seq![value_view(col@[0])] + value_view_seq(
                    col@.drop_first(),
                ));
                assert(seq![value_view(col@[0])] + Seq::<ValueView>::empty() =~= seq![
                    value_view(col@[0]),
                ]);
                assert(value_view_seq(col@) =~= seq![merge_result_spec(final_kinds[i as int])]);
            }
            columns.push(col);
            i = i + 1;
        }
        let block = DataBlock::create(self.schema.clone(), columns);
        let mut blocks: Vec<DataBlock> = Vec::new();
        blocks.push(block);
        let st = DataBlockStream::create(blocks);
        proof {
            assert(block_view(blocks@[0]) =~= result_block(self.schema_view(), final_kinds));
            assert(st.remaining() =~= seq![result_block(self.schema_view(), final_kinds)]);
        }
        Ok(st)
    }
}

} // verus!
