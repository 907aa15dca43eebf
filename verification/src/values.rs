use vstd::prelude::*;

use crate::errors::ErrorCode;

verus! {

/// The type of a column or of a literal. `Nullable` wraps the type of a
/// column that may hold nulls; the cast compiler chooses the try-cast
/// variant exactly for nullable destination types.
#[verifier::ext_equal]
#[derive(Debug, PartialEq, Eq)]
pub enum DataType {
    Null,
    Boolean,
    Int64,
    UInt64,
    Utf8,
    Nullable(Box<DataType>),
}

impl Clone for DataType {
    fn clone(&self) -> (r: Self)
        ensures
            r == *self,
        decreases *self,
    {
        match self {
            DataType::Null => DataType::Null,
            DataType::Boolean => DataType::Boolean,
            DataType::Int64 => DataType::Int64,
            DataType::UInt64 => DataType::UInt64,
            DataType::Utf8 => DataType::Utf8,
            DataType::Nullable(inner) => DataType::Nullable(Box::new((**inner).clone())),
        }
    }
}

impl DataType {
    /// Whether a column of this type may hold nulls.
    pub fn is_nullable(&self) -> (r: bool)
        ensures
            r == self.is_nullable_spec(),
    {
        match self {
            DataType::Null => true,
            DataType::Nullable(_) => true,
            _ => false,
        }
    }

    pub open spec fn is_nullable_spec(&self) -> bool {
        match self {
            DataType::Null => true,
            DataType::Nullable(_) => true,
            _ => false,
        }
    }
}

/// A single typed value: a literal, a materialized scalar, a serialized
/// partial-aggregate payload (`Utf8`), or a structured intermediate
/// accumulator snapshot (`Struct`).
#[derive(Debug, PartialEq, Eq)]
pub enum DataValue {
    Null,
    Boolean(bool),
    Int64(i64),
    UInt64(u64),
    Utf8(Option<String>),
    Struct(Vec<DataValue>),
}

/// The mathematical shape of a `DataValue`, with strings as character
/// sequences and structs as sequences.
#[verifier::ext_equal]
pub enum ValueView {
    Null,
    Boolean(bool),
    Int64(i64),
    UInt64(u64),
    Utf8(Option<Seq<char>>),
    Struct(Seq<ValueView>),
}

/// The view of one value.
pub open spec fn value_view(v: DataValue) -> ValueView
    decreases v,
    via value_view_decreases
{
    match v {
        DataValue::Null => ValueView::Null,
        DataValue::Boolean(b) => ValueView::Boolean(b),
        DataValue::Int64(x) => ValueView::Int64(x),
        DataValue::UInt64(x) => ValueView::UInt64(x),
        DataValue::Utf8(o) => ValueView::Utf8(
            match o {
                Some(s) => Some(s@),
                None => None,
            },
        ),
        DataValue::Struct(vs) => ValueView::Struct(value_view_seq(vs@)),
    }
}

#[via_fn]
proof fn value_view_decreases(v: DataValue) {
    broadcast use vstd::std_specs::vec::axiom_vec_decreases_to_view;

}

/// The views of a sequence of values, in order.
pub open spec fn value_view_seq(vs: Seq<DataValue>) -> Seq<ValueView>
    decreases vs,
{
    if vs.len() == 0 {
        Seq::empty()
    } else {
        seq![value_view(vs[0])] + value_view_seq(vs.drop_first())
    }
}

impl View for DataValue {
    type V = ValueView;

    open spec fn view(&self) -> ValueView {
        value_view(*self)
    }
}

/// `value_view_seq` keeps the length.
pub proof fn lemma_value_view_seq_len(vs: Seq<DataValue>)
    ensures
        value_view_seq(vs).len() == vs.len(),
    decreases vs.len(),
{
    if vs.len() > 0 {
        lemma_value_view_seq_len(vs.drop_first());
    }
}

/// The element views of `value_view_seq` are pointwise `value_view`.
pub proof fn lemma_value_view_seq_index(vs: Seq<DataValue>, i: int)
    requires
        0 <= i < vs.len(),
    ensures
        value_view_seq(vs).len() == vs.len(),
        value_view_seq(vs)[i] == value_view(vs[i]),
    decreases vs.len(),
{
    lemma_value_view_seq_len(vs);
    if i > 0 {
        lemma_value_view_seq_index(vs.drop_first(), i - 1);
    }
}

/// Sequences of values with pointwise equal views have equal view sequences.
pub proof fn lemma_value_view_seq_pointwise(a: Seq<DataValue>, b: Seq<DataValue>)
    requires
        a.len() == b.len(),
        forall|j: int| 0 <= j < a.len() ==> value_view(a[j]) == value_view(b[j]),
    ensures
        value_view_seq(a) == value_view_seq(b),
    decreases a.len(),
{
    if a.len() > 0 {
        lemma_value_view_seq_pointwise(a.drop_first(), b.drop_first());
        assert(value_view_seq(a) =~= value_view_seq(b));
    }
}

impl Clone for DataValue {
    /// A structural copy of the value.
    #[verifier::loop_isolation(false)]
    fn clone(&self) -> (r: DataValue)
        ensures
            r@ == self@,
        decreases *self,
    {
        match self {
            DataValue::Null => DataValue::Null,
            DataValue::Boolean(b) => DataValue::Boolean(*b),
            DataValue::Int64(v) => DataValue::Int64(*v),
            DataValue::UInt64(v) => DataValue::UInt64(*v),
            DataValue::Utf8(o) => match o {
                Some(s) => DataValue::Utf8(Some(s.clone())),
                None => DataValue::Utf8(None),
            },
            DataValue::Struct(vs) => {
                let mut copy: Vec<DataValue> = Vec::new();
                let mut i: usize = 0;
                while i < vs.len()
                    invariant
                        i <= vs@.len(),
                        copy@.len() == i,
                        forall|j: int| 0 <= j < i ==> value_view(copy@[j]) == value_view(vs@[j]),
                    decreases vs@.len() - i,
                {
                    proof {
                        vstd::std_specs::vec::axiom_vec_index_decreases(*vs, i as int);
                    }
                    let e = (&vs[i]).clone();
                    copy.push(e);
                    i = i + 1;
                }
                proof {
                    lemma_value_view_seq_pointwise(copy@, vs@);
                }
                DataValue::Struct(copy)
            },
        }
    }
}

/// A named, typed column of a schema.
#[derive(Debug, PartialEq, Eq)]
pub struct DataField {
    pub name: String,
    pub data_type: DataType,
}

/// The mathematical shape of a field: its name as characters, and its type.
#[verifier::ext_equal]
pub struct FieldView {
    pub name: Seq<char>,
    pub data_type: DataType,
}

impl View for DataField {
    type V = FieldView;

    open spec fn view(&self) -> FieldView {
        FieldView { name: self.name@, data_type: self.data_type }
    }
}

impl Clone for DataField {
    fn clone(&self) -> (r: Self)
        ensures
            r@ == self@,
    {
        DataField { name: self.name.clone(), data_type: self.data_type.clone() }
    }
}

impl DataField {
    pub fn new(name: String, data_type: DataType) -> (r: DataField)
        ensures
            r@.name == name@,
            r@.data_type == data_type,
    {
        DataField { name, data_type }
    }

    pub fn data_type(&self) -> (r: &DataType)
        ensures
            r == &self.data_type,
    {
        &self.data_type
    }
}

/// The input schema a chain compiles against: an ordered list of named,
/// typed columns.
#[derive(Debug, PartialEq, Eq)]
pub struct DataSchema {
    pub fields: Vec<DataField>,
}

impl View for DataSchema {
    type V = Seq<FieldView>;

    open spec fn view(&self) -> Seq<FieldView> {
        Seq::new(self.fields@.len(), |i: int| self.fields@[i]@)
    }
}

impl Clone for DataSchema {
    fn clone(&self) -> (r: Self)
        ensures
            r@ == self@,
    {
        let mut fields: Vec<DataField> = Vec::new();
        let mut i: usize = 0;
        while i < self.fields.len()
            invariant
                i <= self.fields@.len(),
                fields@.len() == i,
                forall|j: int| 0 <= j < i ==> fields@[j]@ == self.fields@[j]@,
            decreases self.fields@.len() - i,
        {
            fields.push(self.fields[i].clone());
            i = i + 1;
        }
        proof {
            assert((DataSchema { fields })@ =~= self@);
        }
        DataSchema { fields }
    }
}

impl DataSchema {
    pub fn new(fields: Vec<DataField>) -> (r: DataSchema)
        ensures
            r@ == Seq::new(fields@.len(), |i: int| fields@[i]@),
    {
        DataSchema { fields }
    }

    /// The first field carrying `name`, if any.
    pub open spec fn field_spec(&self, name: Seq<char>) -> Option<FieldView> {
        first_with_name(self@, name)
    }

    /// Whether some field carries `name`.
    pub open spec fn has_field_spec(&self, name: Seq<char>) -> bool {
        self.field_spec(name) is Some
    }

    /// Looks a field up by name; the first field carrying the name is
    /// returned, and `FieldNotFound` exactly when no field carries it.
    pub fn field_with_name(&self, name: &str) -> (r: Result<&DataField, ErrorCode>)
        ensures
            match r {
                Ok(f) => self.field_spec(name@) == Some(f@),
                Err(e) => self.field_spec(name@) is None && e matches ErrorCode::FieldNotFound(_),
            },
    {
        let n = self.fields.len();
        let mut i: usize = 0;
        while i < n
            invariant
                n == self.fields@.len(),
                i <= n,
                forall|j: int| 0 <= j < i ==> self@[j].name != name@,
            decreases n - i,
        {
            if crate::text::str_eq(self.fields[i].name.as_str(), name) {
                proof {
                    lemma_first_with_name_at(self@, name@, i as int);
                }
                return Ok(&self.fields[i]);
            }
            i = i + 1;
        }
        proof {
            lemma_first_with_name_none(self@, name@);
        }
        Err(ErrorCode::FieldNotFound(name.to_owned()))
    }
}

/// The first field of `fields` whose name is `name`.
pub open spec fn first_with_name(fields: Seq<FieldView>, name: Seq<char>) -> Option<FieldView>
    decreases fields.len(),
{
    if fields.len() == 0 {
        None
    } else if fields[0].name == name {
        Some(fields[0])
    } else {
        first_with_name(fields.drop_first(), name)
    }
}

/// When index `i` is the first index whose field carries `name`, the
/// first-match search returns that field.
pub proof fn lemma_first_with_name_at(fields: Seq<FieldView>, name: Seq<char>, i: int)
    requires
        0 <= i < fields.len(),
        fields[i].name == name,
        forall|j: int| 0 <= j < i ==> fields[j].name != name,
    ensures
        first_with_name(fields, name) == Some(fields[i]),
    decreases i,
{
    if i == 0 {
    } else {
        lemma_first_with_name_at(fields.drop_first(), name, i - 1);
    }
}

/// When no field carries `name`, the first-match search returns `None`.
pub proof fn lemma_first_with_name_none(fields: Seq<FieldView>, name: Seq<char>)
    requires
        forall|j: int| 0 <= j < fields.len() ==> fields[j].name != name,
    ensures
        first_with_name(fields, name) is None,
    decreases fields.len(),
{
    if fields.len() > 0 {
        lemma_first_with_name_none(fields.drop_first(), name);
    }
}

} // verus!
