use std::collections::HashMap;
use std::collections::HashSet;

use vstd::prelude::*;

use crate::num_text::{dec_digits, push_u64_dec};

verus! {

/// The record of one database held by the metadata service: its
/// identity, its engine, and the tables that belong to it.
#[derive(Debug, PartialEq)]
pub struct Database {
    pub database_id: u64,
    /// engine name of the database
    pub database_engine: String,
    /// tables belonging to this database, by name
    pub tables: HashMap<String, u64>,
}

impl Default for Database {
    fn default() -> (r: Self)
        ensures
            r.database_id == 0,
            r.database_engine@ == Seq::<char>::empty(),
            r.tables@ == Map::<String, u64>::empty(),
    {
        Database { database_id: 0, database_engine: String::new(), tables: HashMap::new() }
    }
}

/// The record of one table: its identity, its serialized schema, its
/// engine, its options, and the names of its parts.
#[derive(Debug, PartialEq)]
pub struct Table {
    pub table_id: u64,
    /// serialized schema
    pub schema: Vec<u8>,
    /// table engine
    pub table_engine: String,
    /// table options
    pub table_options: HashMap<String, String>,
    /// names of the parts that belong to this table
    pub parts: HashSet<String>,
}

impl Default for Table {
    fn default() -> (r: Self)
        ensures
            r.table_id == 0,
            r.schema@ == Seq::<u8>::empty(),
            r.table_engine@ == Seq::<char>::empty(),
    {
        Table {
            table_id: 0,
            schema: Vec::new(),
            table_engine: String::new(),
            table_options: HashMap::new(),
            parts: HashSet::new(),
        }
    }
}

impl Database {
    /// A short description for diagnostics.
    pub fn describe(&self) -> (r: String)
        ensures
            r@ == "database id: "@ + dec_digits(self.database_id as nat),
    {
        let mut s = "database id: ".to_owned();
        push_u64_dec(&mut s, self.database_id);
        s
    }
}

impl Table {
    /// A short description for diagnostics.
    pub fn describe(&self) -> (r: String)
        ensures
            r@ == "table id: "@ + dec_digits(self.table_id as nat),
    {
        let mut s = "table id: ".to_owned();
        push_u64_dec(&mut s, self.table_id);
        s
    }
}

pub type MetaVersion = u64;

pub type MetaId = u64;

/// An operation that updates a field, deletes it, or leaves it as is.
#[derive(Debug, Clone, PartialEq)]
pub enum Operation<T> {
    Update(T),
    Delete,
    AsIs,
}

impl<T> From<Option<T>> for Operation<T> {
    /// A present value updates; an absent one deletes.
    fn from(v: Option<T>) -> (r: Self)
        ensures
            r == (match v {
                None => Operation::<T>::Delete,
                Some(x) => Operation::<T>::Update(x),
            }),
    {
        match v {
            None => Operation::Delete,
            Some(x) => Operation::Update(x),
        }
    }
}

impl<T> vstd::std_specs::convert::FromSpecImpl<Option<T>> for Operation<T> {
    open spec fn obeys_from_spec() -> bool {
        true
    }

    open spec fn from_spec(v: Option<T>) -> Self {
        match v {
            None => Operation::Delete,
            Some(x) => Operation::Update(x),
        }
    }
}

} // verus!
