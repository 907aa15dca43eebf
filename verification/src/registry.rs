use vstd::prelude::*;

use indexmap::IndexMap;

use crate::errors::ErrorCode;
use crate::functions::{
    construct_aggregate, construct_aggregate_spec, construct_combinator, construct_combinator_spec,
    construct_scalar, construct_scalar_spec, fields_view, AggregateFunction,
    FactoryCombinatorFunc, FactoryFunc, Function, ScalarCtor,
};
use crate::ordered_map::{entry_index, om_entries, om_get, om_get_index, om_insert, om_len, om_new};
use crate::text::{lower_of, lowercase, str_drop_suffix, str_ends_with};
use crate::values::{DataField, DataType, DataValue};

verus! {

// ---------------------------------------------------------------------
// Registry codes
//
// The insertion-ordered maps hold plain codes; these functions tie each
// code to its constructor.
// ---------------------------------------------------------------------

pub open spec fn scalar_code_spec(c: ScalarCtor) -> u64 {
    match c {
        ScalarCtor::Arithmetic => 0,
        ScalarCtor::Comparison => 1,
        ScalarCtor::TypeName => 2,
    }
}

pub open spec fn scalar_of_code_spec(v: u64) -> Option<ScalarCtor> {
    if v == 0 {
        Some(ScalarCtor::Arithmetic)
    } else if v == 1 {
        Some(ScalarCtor::Comparison)
    } else if v == 2 {
        Some(ScalarCtor::TypeName)
    } else {
        None
    }
}

fn scalar_code(c: ScalarCtor) -> (r: u64)
    ensures
        r == scalar_code_spec(c),
        scalar_of_code_spec(r) == Some(c),
{
    match c {
        ScalarCtor::Arithmetic => 0,
        ScalarCtor::Comparison => 1,
        ScalarCtor::TypeName => 2,
    }
}

fn scalar_of_code(v: u64) -> (r: Option<ScalarCtor>)
    ensures
        r == scalar_of_code_spec(v),
{
    if v == 0 {
        Some(ScalarCtor::Arithmetic)
    } else if v == 1 {
        Some(ScalarCtor::Comparison)
    } else if v == 2 {
        Some(ScalarCtor::TypeName)
    } else {
        None
    }
}

pub open spec fn agg_code_spec(c: FactoryFunc) -> u64 {
    match c {
        FactoryFunc::CountCtor => 0,
        FactoryFunc::SumCtor => 1,
        FactoryFunc::MinCtor => 2,
    }
}

pub open spec fn agg_of_code_spec(v: u64) -> Option<FactoryFunc> {
    if v == 0 {
        Some(FactoryFunc::CountCtor)
    } else if v == 1 {
        Some(FactoryFunc::SumCtor)
    } else if v == 2 {
        Some(FactoryFunc::MinCtor)
    } else {
        None
    }
}

fn agg_code(c: FactoryFunc) -> (r: u64)
    ensures
        r == agg_code_spec(c),
        agg_of_code_spec(r) == Some(c),
{
    match c {
        FactoryFunc::CountCtor => 0,
        FactoryFunc::SumCtor => 1,
        FactoryFunc::MinCtor => 2,
    }
}

fn agg_of_code(v: u64) -> (r: Option<FactoryFunc>)
    ensures
        r == agg_of_code_spec(v),
{
    if v == 0 {
        Some(FactoryFunc::CountCtor)
    } else if v == 1 {
        Some(FactoryFunc::SumCtor)
    } else if v == 2 {
        Some(FactoryFunc::MinCtor)
    } else {
        None
    }
}

pub open spec fn comb_code_spec(c: FactoryCombinatorFunc) -> u64 {
    match c {
        FactoryCombinatorFunc::IfCtor => 0,
        FactoryCombinatorFunc::DistinctCtor => 1,
    }
}

pub open spec fn comb_of_code_spec(v: u64) -> Option<FactoryCombinatorFunc> {
    if v == 0 {
        Some(FactoryCombinatorFunc::IfCtor)
    } else if v == 1 {
        Some(FactoryCombinatorFunc::DistinctCtor)
    } else {
        None
    }
}

fn comb_code(c: FactoryCombinatorFunc) -> (r: u64)
    ensures
        r == comb_code_spec(c),
        comb_of_code_spec(r) == Some(c),
{
    match c {
        FactoryCombinatorFunc::IfCtor => 0,
        FactoryCombinatorFunc::DistinctCtor => 1,
    }
}

fn comb_of_code(v: u64) -> (r: Option<FactoryCombinatorFunc>)
    ensures
        r == comb_of_code_spec(v),
{
    if v == 0 {
        Some(FactoryCombinatorFunc::IfCtor)
    } else if v == 1 {
        Some(FactoryCombinatorFunc::DistinctCtor)
    } else {
        None
    }
}

// ---------------------------------------------------------------------
// Lookup lemmas
// ---------------------------------------------------------------------

/// When index `i` is the first index holding `key`, `entry_index` is `i`.
pub proof fn lemma_entry_index_at(entries: Seq<(Seq<char>, u64)>, key: Seq<char>, i: int)
    requires
        0 <= i < entries.len(),
        entries[i].0 == key,
        forall|j: int| 0 <= j < i ==> entries[j].0 != key,
    ensures
        entry_index(entries, key) == i,
    decreases i,
{
    if i > 0 {
        lemma_entry_index_at(entries.drop_first(), key, i - 1);
    }
}

/// When no entry holds `key`, `entry_index` is `-1`.
pub proof fn lemma_entry_index_absent(entries: Seq<(Seq<char>, u64)>, key: Seq<char>)
    requires
        forall|j: int| 0 <= j < entries.len() ==> entries[j].0 != key,
    ensures
        entry_index(entries, key) == -1,
    decreases entries.len(),
{
    if entries.len() > 0 {
        lemma_entry_index_absent(entries.drop_first(), key);
    }
}

/// `entry_index` is `-1` or a valid position holding the key.
pub proof fn lemma_entry_index_bounds(entries: Seq<(Seq<char>, u64)>, key: Seq<char>)
    ensures
        entry_index(entries, key) == -1 || (0 <= entry_index(entries, key) < entries.len()
            && entries[entry_index(entries, key)].0 == key),
    decreases entries.len(),
{
    if entries.len() > 0 {
        lemma_entry_index_bounds(entries.drop_first(), key);
    }
}

/// Whether `name` ends with `suffix`.
pub open spec fn suffix_matches(name: Seq<char>, suffix: Seq<char>) -> bool {
    suffix.len() <= name.len() && name.skip(name.len() - suffix.len()) == suffix
}

/// The first registered combinator entry whose suffix ends `name`, in
/// registration order: ties go to the first registered, not the longest.
pub open spec fn first_suffix(combs: Seq<(Seq<char>, u64)>, name: Seq<char>) -> Option<
    (Seq<char>, u64),
>
    decreases combs.len(),
{
    if combs.len() == 0 {
        None
    } else if suffix_matches(name, combs[0].0) {
        Some(combs[0])
    } else {
        first_suffix(combs.drop_first(), name)
    }
}

/// When index `i` is the first index whose suffix matches, the first-match
/// scan returns that entry.
pub proof fn lemma_first_suffix_at(combs: Seq<(Seq<char>, u64)>, name: Seq<char>, i: int)
    requires
        0 <= i < combs.len(),
        suffix_matches(name, combs[i].0),
        forall|j: int| 0 <= j < i ==> !suffix_matches(name, combs[j].0),
    ensures
        first_suffix(combs, name) == Some(combs[i]),
    decreases i,
{
    if i > 0 {
        lemma_first_suffix_at(combs.drop_first(), name, i - 1);
    }
}

/// When no suffix matches, the first-match scan returns nothing.
pub proof fn lemma_first_suffix_none(combs: Seq<(Seq<char>, u64)>, name: Seq<char>)
    requires
        forall|j: int| 0 <= j < combs.len() ==> !suffix_matches(name, combs[j].0),
    ensures
        first_suffix(combs, name) is None,
    decreases combs.len(),
{
    if combs.len() > 0 {
        lemma_first_suffix_none(combs.drop_first(), name);
    }
}

// ---------------------------------------------------------------------
// Resolution model
// ---------------------------------------------------------------------

/// How a requested name resolves against the registries.
#[verifier::ext_equal]
pub enum Resolution {
    /// An exact (case-insensitive) hit in the base registry.
    Direct(u64),
    /// A combinator hit: the suffix's code, the nested base code, and the
    /// stripped, folded nested name.
    Wrapped { comb: u64, nested: u64, nested_name: Seq<char> },
    /// Neither an exact nor a combinator match.
    NotFound,
}

/// The resolution algorithm over the registry contents: exact lookup
/// first; on a miss, the first registered suffix that ends the folded
/// name is committed to, and its stripped base name must resolve.
pub open spec fn resolve_spec(
    base: Seq<(Seq<char>, u64)>,
    combs: Seq<(Seq<char>, u64)>,
    folded: Seq<char>,
) -> Resolution {
    let i = entry_index(base, folded);
    if i >= 0 {
        Resolution::Direct(base[i].1)
    } else {
        match first_suffix(combs, folded) {
            None => Resolution::NotFound,
            Some(k) => {
                let nested_name = folded.take(folded.len() - k.0.len());
                let j = entry_index(base, nested_name);
                if j >= 0 {
                    Resolution::Wrapped { comb: k.1, nested: base[j].1, nested_name }
                } else {
                    Resolution::NotFound
                }
            },
        }
    }
}

// ---------------------------------------------------------------------
// Scalar registry
// ---------------------------------------------------------------------

/// The process-wide catalog of scalar function constructors, keyed by the
/// folded (case-insensitive) name, in registration order.
pub struct FunctionFactory {
    map: IndexMap<String, u64>,
}

impl FunctionFactory {
    /// The registered entries: folded name and constructor code, in order.
    pub closed spec fn entries(&self) -> Seq<(Seq<char>, u64)> {
        om_entries(self.map)
    }

    /// Every stored code decodes to a constructor.
    pub open spec fn well_formed(&self) -> bool {
        forall|i: int|
            0 <= i < self.entries().len() ==> scalar_of_code_spec(#[trigger] self.entries()[i].1)
                is Some
    }

    /// An empty catalog.
    pub fn create() -> (r: Self)
        ensures
            r.well_formed(),
            r.entries() == Seq::<(Seq<char>, u64)>::empty(),
    {
        FunctionFactory { map: om_new() }
    }

    /// Inserts or overwrites the entry for the case-insensitive key; the
    /// last writer wins, and a rewritten key keeps its place in the order.
    pub fn register(&mut self, name: &str, ctor: ScalarCtor)
        requires
            old(self).well_formed(),
        ensures
            final(self).well_formed(),
            ({
                let e = old(self).entries();
                let i = entry_index(e, lower_of(name@));
                if i >= 0 {
                    final(self).entries() == e.update(i, (e[i].0, scalar_code_spec(ctor)))
                } else {
                    final(self).entries() == e.push((lower_of(name@), scalar_code_spec(ctor)))
                }
            }),
    {
        let key = lowercase(name);
        let code = scalar_code(ctor);
        om_insert(&mut self.map, key, code);
        proof {
            lemma_entry_index_bounds(old(self).entries(), lower_of(name@));
        }
    }

    /// Resolves a scalar function by case-insensitive name and binds it to
    /// the argument types. `UnknownFunction` exactly when the folded name
    /// is not registered; `TypeMismatch` exactly when the arity does not
    /// fit the registered constructor.
    pub fn get(&self, name: &str, arg_types: &Vec<DataType>) -> (r: Result<Function, ErrorCode>)
        requires
            self.well_formed(),
        ensures
            ({
                let i = entry_index(self.entries(), lower_of(name@));
                match r {
                    Ok(f) => i >= 0 && construct_scalar_spec(
                        scalar_of_code_spec(self.entries()[i].1)->Some_0,
                        name@,
                        arg_types@,
                    ) == Some(f@),
                    Err(e) => {
                        if i >= 0 {
                            construct_scalar_spec(
                                scalar_of_code_spec(self.entries()[i].1)->Some_0,
                                name@,
                                arg_types@,
                            ) is None && e matches ErrorCode::TypeMismatch(_)
                        } else {
                            e matches ErrorCode::UnknownFunction(_)
                        }
                    },
                }
            }),
    {
        let folded = lowercase(name);
        proof {
            lemma_entry_index_bounds(self.entries(), lower_of(name@));
        }
        match om_get(&self.map, &folded) {
            Some(code) => match scalar_of_code(code) {
                Some(ctor) => construct_scalar(ctor, name, arg_types),
                None => {
                    proof {
                        assert(false);
                    }
                    Err(ErrorCode::UnknownFunction(name.to_owned()))
                },
            },
            None => Err(ErrorCode::UnknownFunction(name.to_owned())),
        }
    }
}

// ---------------------------------------------------------------------
// Aggregate registry
// ---------------------------------------------------------------------

/// The process-wide catalog of aggregate function constructors, keyed by
/// the folded (case-insensitive) name, with a second registry of
/// combinator constructors keyed by suffix.
pub struct AggregateFunctionFactory {
    map: IndexMap<String, u64>,
    combinator_map: IndexMap<String, u64>,
}

impl AggregateFunctionFactory {
    /// The base entries: folded name and constructor code, in order.
    pub closed spec fn entries(&self) -> Seq<(Seq<char>, u64)> {
        om_entries(self.map)
    }

    /// The combinator entries: folded suffix and constructor code, in
    /// registration order.
    pub closed spec fn combinator_entries(&self) -> Seq<(Seq<char>, u64)> {
        om_entries(self.combinator_map)
    }

    /// Every stored code decodes to a constructor.
    pub open spec fn well_formed(&self) -> bool {
        &&& forall|i: int|
            0 <= i < self.entries().len() ==> agg_of_code_spec(#[trigger] self.entries()[i].1)
                is Some
        &&& forall|i: int|
            0 <= i < self.combinator_entries().len() ==> comb_of_code_spec(
                #[trigger] self.combinator_entries()[i].1,
            ) is Some
    }

    /// How a requested name resolves against this catalog.
    pub open spec fn resolution(&self, folded: Seq<char>) -> Resolution {
        resolve_spec(self.entries(), self.combinator_entries(), folded)
    }

    /// An empty catalog.
    pub fn create() -> (r: Self)
        ensures
            r.well_formed(),
            r.entries() == Seq::<(Seq<char>, u64)>::empty(),
            r.combinator_entries() == Seq::<(Seq<char>, u64)>::empty(),
    {
        AggregateFunctionFactory { map: om_new(), combinator_map: om_new() }
    }

    /// Inserts or overwrites the base entry for the case-insensitive key;
    /// the last writer wins, and a rewritten key keeps its place.
    pub fn register(&mut self, name: &str, func: FactoryFunc)
        requires
            old(self).well_formed(),
        ensures
            final(self).well_formed(),
            final(self).combinator_entries() == old(self).combinator_entries(),
            ({
                let e = old(self).entries();
                let i = entry_index(e, lower_of(name@));
                if i >= 0 {
                    final(self).entries() == e.update(i, (e[i].0, agg_code_spec(func)))
                } else {
                    final(self).entries() == e.push((lower_of(name@), agg_code_spec(func)))
                }
            }),
    {
        let key = lowercase(name);
        let code = agg_code(func);
        om_insert(&mut self.map, key, code);
        proof {
            lemma_entry_index_bounds(old(self).entries(), lower_of(name@));
        }
    }

    /// Registers a combinator constructor for a suffix.
    pub fn register_combinator(&mut self, suffix: &str, func: FactoryCombinatorFunc)
        requires
            old(self).well_formed(),
        ensures
            final(self).well_formed(),
            final(self).entries() == old(self).entries(),
            ({
                let e = old(self).combinator_entries();
                let i = entry_index(e, lower_of(suffix@));
                if i >= 0 {
                    final(self).combinator_entries() == e.update(i, (e[i].0, comb_code_spec(func)))
                } else {
                    final(self).combinator_entries() == e.push(
                        (lower_of(suffix@), comb_code_spec(func)),
                    )
                }
            }),
    {
        let key = lowercase(suffix);
        let code = comb_code(func);
        om_insert(&mut self.combinator_map, key, code);
        proof {
            lemma_entry_index_bounds(old(self).combinator_entries(), lower_of(suffix@));
        }
    }

    /// Resolves an aggregate function by case-insensitive name, trying the
    /// combinator suffixes on a miss, and builds the instance.
    /// `UnknownFunction` exactly when neither an exact nor a committed
    /// combinator match resolves; `TypeMismatch` exactly when the resolved
    /// constructor refuses the arguments.
    pub fn get(&self, name: &str, params: &Vec<DataValue>, arguments: &Vec<DataField>) -> (r:
        Result<AggregateFunction, ErrorCode>)
        requires
            self.well_formed(),
        ensures
            ({
                let res = self.resolution(lower_of(name@));
                match r {
                    Ok(a) => {
                        match res {
                            Resolution::Direct(code) => construct_aggregate_spec(
                                agg_of_code_spec(code)->Some_0,
                                name@,
                                fields_view(arguments@),
                            ) == Some(a@),
                            Resolution::Wrapped { comb, nested, nested_name } =>
                                construct_combinator_spec(
                                comb_of_code_spec(comb)->Some_0,
                                agg_of_code_spec(nested)->Some_0,
                                nested_name,
                                fields_view(arguments@),
                            ) == Some(a@),
                            Resolution::NotFound => false,
                        }
                    },
                    Err(e) => {
                        match res {
                            Resolution::Direct(code) => construct_aggregate_spec(
                                agg_of_code_spec(code)->Some_0,
                                name@,
                                fields_view(arguments@),
                            ) is None && e matches ErrorCode::TypeMismatch(_),
                            Resolution::Wrapped { comb, nested, nested_name } =>
                                construct_combinator_spec(
                                comb_of_code_spec(comb)->Some_0,
                                agg_of_code_spec(nested)->Some_0,
                                nested_name,
                                fields_view(arguments@),
                            ) is None && e matches ErrorCode::TypeMismatch(_),
                            Resolution::NotFound => e matches ErrorCode::UnknownFunction(_),
                        }
                    },
                }
            }),
    {
        let folded = lowercase(name);
        proof {
            lemma_entry_index_bounds(self.entries(), lower_of(name@));
        }
        match om_get(&self.map, &folded) {
            Some(code) => match agg_of_code(code) {
                Some(ctor) => construct_aggregate(ctor, name, params, arguments),
                None => {
                    proof {
                        assert(false);
                    }
                    Err(ErrorCode::UnknownFunction(name.to_owned()))
                },
            },
            None => self.get_by_combinator(name, &folded, params, arguments),
        }
    }

    /// The combinator leg of resolution, after an exact miss.
    fn get_by_combinator(
        &self,
        name: &str,
        folded: &String,
        params: &Vec<DataValue>,
        arguments: &Vec<DataField>,
    ) -> (r: Result<AggregateFunction, ErrorCode>)
        requires
            self.well_formed(),
            entry_index(self.entries(), folded@) == -1,
        ensures
            ({
                let res = resolve_spec(self.entries(), self.combinator_entries(), folded@);
                match r {
                    Ok(a) => {
                        match res {
                            Resolution::Direct(code) => false,
                            Resolution::Wrapped { comb, nested, nested_name } =>
                                construct_combinator_spec(
                                comb_of_code_spec(comb)->Some_0,
                                agg_of_code_spec(nested)->Some_0,
                                nested_name,
                                fields_view(arguments@),
                            ) == Some(a@),
                            Resolution::NotFound => false,
                        }
                    },
                    Err(e) => {
                        match res {
                            Resolution::Direct(code) => false,
                            Resolution::Wrapped { comb, nested, nested_name } =>
                                construct_combinator_spec(
                                comb_of_code_spec(comb)->Some_0,
                                agg_of_code_spec(nested)->Some_0,
                                nested_name,
                                fields_view(arguments@),
                            ) is None && e matches ErrorCode::TypeMismatch(_),
                            Resolution::NotFound => e matches ErrorCode::UnknownFunction(_),
                        }
                    },
                }
            }),
    {
        let n = om_len(&self.combinator_map);
        let mut i: usize = 0;
        while i < n
            invariant
                self.well_formed(),
                entry_index(self.entries(), folded@) == -1,
                n == self.combinator_entries().len(),
                i <= n,
                forall|j: int|
                    0 <= j < i ==> !suffix_matches(
                        folded@,
                        #[trigger] self.combinator_entries()[j].0,
                    ),
            decreases n - i,
        {
            let entry = om_get_index(&self.combinator_map, i);
            match entry {
                Some((suffix, comb_code_v)) => {
                    if str_ends_with(folded.as_str(), suffix.as_str()) {
                        proof {
                            lemma_first_suffix_at(
                                self.combinator_entries(),
                                folded@,
                                i as int,
                            );
                        }
                        let suffix_len = suffix.as_str().unicode_len();
                        let nested = str_drop_suffix(folded.as_str(), suffix_len);
                        let nested_string = nested.to_owned();
                        proof {
                            lemma_entry_index_bounds(self.entries(), nested_string@);
                        }
                        match om_get(&self.map, &nested_string) {
                            Some(nested_code) => {
                                match (comb_of_code(comb_code_v), agg_of_code(nested_code)) {
                                    (Some(comb), Some(nested_ctor)) => {
                                        return construct_combinator(
                                            comb,
                                            nested_ctor,
                                            nested,
                                            params,
                                            arguments,
                                        );
                                    },
                                    _ => {
                                        proof {
                                            assert(false);
                                        }
                                        return Err(ErrorCode::UnknownFunction(name.to_owned()));
                                    },
                                }
                            },
                            None => {
                                return Err(ErrorCode::UnknownFunction(name.to_owned()));
                            },
                        }
                    }
                },
                None => {
                    proof {
                        assert(false);
                    }
                },
            }
            i = i + 1;
        }
        proof {
            lemma_first_suffix_none(self.combinator_entries(), folded@);
        }
        Err(ErrorCode::UnknownFunction(name.to_owned()))
    }

    /// Whether `get` with this name would resolve: the same algorithm,
    /// without building an instance.
    pub fn check(&self, name: &str) -> (r: bool)
        requires
            self.well_formed(),
        ensures
            r == !(self.resolution(lower_of(name@)) is NotFound),
    {
        let folded = lowercase(name);
        proof {
            lemma_entry_index_bounds(self.entries(), lower_of(name@));
        }
        match om_get(&self.map, &folded) {
            Some(_) => true,
            None => {
                let n = om_len(&self.combinator_map);
                let mut i: usize = 0;
                while i < n
                    invariant
                        self.well_formed(),
                        entry_index(self.entries(), folded@) == -1,
                        folded@ == lower_of(name@),
                        n == self.combinator_entries().len(),
                        i <= n,
                        forall|j: int|
                            0 <= j < i ==> !suffix_matches(
                                folded@,
                                #[trigger] self.combinator_entries()[j].0,
                            ),
                    decreases n - i,
                {
                    let entry = om_get_index(&self.combinator_map, i);
                    match entry {
                        Some((suffix, _)) => {
                            if str_ends_with(folded.as_str(), suffix.as_str()) {
                                proof {
                                    lemma_first_suffix_at(
                                        self.combinator_entries(),
                                        folded@,
                                        i as int,
                                    );
                                }
                                let suffix_len = suffix.as_str().unicode_len();
                                let nested = str_drop_suffix(folded.as_str(), suffix_len);
                                let nested_string = nested.to_owned();
                                proof {
                                    lemma_entry_index_bounds(self.entries(), nested_string@);
                                }
                                match om_get(&self.map, &nested_string) {
                                    Some(_) => {
                                        return true;
                                    },
                                    None => {
                                        return false;
                                    },
                                }
                            }
                        },
                        None => {
                            proof {
                                assert(false);
                            }
                        },
                    }
                    i = i + 1;
                }
                proof {
                    lemma_first_suffix_none(self.combinator_entries(), folded@);
                }
                false
            },
        }
    }

    /// The folded names registered in the base registry, in registration
    /// order, for introspection and error messages.
    pub fn registered_names(&self) -> (r: Vec<String>)
        ensures
            r@.len() == self.entries().len(),
            forall|i: int| 0 <= i < r@.len() ==> (#[trigger] r@[i])@ == self.entries()[i].0,
    {
        let n = om_len(&self.map);
        let mut names: Vec<String> = Vec::new();
        let mut i: usize = 0;
        while i < n
            invariant
                n == self.entries().len(),
                i <= n,
                names@.len() == i,
                forall|j: int| 0 <= j < i ==> (#[trigger] names@[j])@ == self.entries()[j].0,
            decreases n - i,
        {
            match om_get_index(&self.map, i) {
                Some((key, _)) => {
                    names.push(key);
                },
                None => {
                    proof {
                        assert(false);
                    }
                },
            }
            i = i + 1;
        }
        names
    }
}

} // verus!
