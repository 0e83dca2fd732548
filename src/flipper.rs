//! A small contract with one boolean field that its entry point flips.

use crate::codec::bool_encoding;
use crate::error::ApiError;
use crate::host::{written, LocalKV};
use crate::schema::{CLType, CLTyped, Contract, Schema, SchemaArgument, SchemaData, SchemaEntryPoint};
use crate::value::{Value, VALUE_TAG};
use vstd::prelude::*;

verus! {

/// The flag's value as read from the store: absent reads as `false`.
pub open spec fn current(stored: Option<bool>) -> bool {
    match stored {
        Some(b) => b,
        None => false,
    }
}

/// A contract holding one flag.
#[derive(Debug)]
pub struct Flipper {
    flag: Value<bool>,
}

impl Flipper {
    /// The stored cell of the flag.
    pub closed spec fn spec_flag(&self) -> Value<bool> {
        self.flag
    }

    /// Stores the negation of the flag's current value. The two arguments
    /// are part of the entry point's signature and do not affect it.
    pub fn flip(&mut self, kv: &mut LocalKV, argument1: bool, argument2: String) -> (r: Result<(), ApiError>)
        requires
            old(kv).wf(),
        ensures
            final(kv).wf(),
            *final(self) == *old(self),
            old(self).spec_flag().spec_get(old(kv)@) matches Ok(cur) ==> r is Ok && final(kv)@
                == written(
                old(kv)@,
                old(self).spec_flag().spec_key_space(),
                old(self).spec_flag().storage_key(),
                VALUE_TAG,
                bool_encoding(!current(cur)),
            ),
            old(self).spec_flag().spec_get(old(kv)@) matches Err(e) ==> r == Err::<(), ApiError>(e)
                && final(kv)@ == old(kv)@,
    {
        let value = match self.flag.get(kv) {
            Ok(Some(b)) => b,
            Ok(None) => false,
            Err(e) => {
                return Err(e);
            },
        };
        self.flag.set(kv, !value)
    }

    /// The flag's current value.
    pub fn flag_value(&self, kv: &LocalKV) -> (r: Result<bool, ApiError>)
        requires
            kv.wf(),
        ensures
            self.spec_flag().spec_get(kv@) matches Ok(cur) ==> r == Ok::<bool, ApiError>(current(cur)),
            self.spec_flag().spec_get(kv@) matches Err(e) ==> r == Err::<bool, ApiError>(e),
    {
        match self.flag.get(kv) {
            Ok(Some(b)) => Ok(b),
            Ok(None) => Ok(false),
            Err(e) => Err(e),
        }
    }
}

impl Contract for Flipper {
    fn new() -> (r: Flipper)
        ensures
            r.spec_flag().spec_name() == "flag"@,
            r.spec_flag().spec_key_space() == 0,
    {
        Flipper { flag: Value::new("flag", 0) }
    }

    fn name() -> (r: &'static str)
        ensures
            r@ == "Flipper"@,
    {
        "Flipper"
    }

    fn schema() -> (r: Schema)
        ensures
            r.name@ == "Flipper"@,
            r.data@.len() == 1,
            r.data@[0].name@ == "flag"@,
            r.data@[0].ty == CLType::Bool,
            r.entry_points@.len() == 2,
            r.entry_points@[0].name@ == "flip"@,
            r.entry_points@[0].arguments@.len() == 2,
            r.entry_points@[0].arguments@[0].name@ == "argument1"@,
            r.entry_points@[0].arguments@[0].ty == CLType::Bool,
            r.entry_points@[0].arguments@[1].name@ == "argument2"@,
            r.entry_points@[0].arguments@[1].ty == CLType::String,
            r.entry_points@[1].name@ == "flag_value"@,
            r.entry_points@[1].arguments@.len() == 0,
    {
        let data = vec![SchemaData { name: "flag", ty: <bool as CLTyped>::cl_type() }];
        let flip = SchemaEntryPoint {
            name: "flip",
            arguments: vec![
                SchemaArgument { name: "argument1", ty: <bool as CLTyped>::cl_type() },
                SchemaArgument { name: "argument2", ty: <String as CLTyped>::cl_type() },
            ],
        };
        let flag_value = SchemaEntryPoint { name: "flag_value", arguments: Vec::new() };
        Schema { name: "Flipper", data, entry_points: vec![flip, flag_value] }
    }
}

} // verus!
