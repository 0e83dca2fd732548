//! The static description of a contract: its name, its data fields and its
//! entry points with their typed parameters.

use vstd::prelude::*;

verus! {

/// The type of a parameter or a data field, as a schema names it.
#[derive(Debug, Clone, Copy, PartialEq, Eq, Structural)]
pub enum CLType {
    Bool,
    String,
    Unit,
    Any,
}

/// A type that a schema can name.
pub trait CLTyped {
    fn cl_type() -> CLType;
}

impl CLTyped for String {
    fn cl_type() -> (r: CLType)
        ensures
            r == CLType::String,
    {
        CLType::String
    }
}

impl CLTyped for bool {
    fn cl_type() -> (r: CLType)
        ensures
            r == CLType::Bool,
    {
        CLType::Bool
    }
}

impl CLTyped for () {
    fn cl_type() -> (r: CLType)
        ensures
            r == CLType::Unit,
    {
        CLType::Unit
    }
}

/// One parameter of an entry point.
#[derive(Debug)]
pub struct SchemaArgument {
    pub name: &'static str,
    pub ty: CLType,
}

/// One entry point and its parameters, in order.
#[derive(Debug)]
pub struct SchemaEntryPoint {
    pub name: &'static str,
    pub arguments: Vec<SchemaArgument>,
}

/// One data field of a contract.
#[derive(Debug)]
pub struct SchemaData {
    pub name: &'static str,
    pub ty: CLType,
}

/// The description of a whole contract.
#[derive(Debug)]
pub struct Schema {
    pub name: &'static str,
    pub data: Vec<SchemaData>,
    pub entry_points: Vec<SchemaEntryPoint>,
}

/// A contract: how to make it, its name, and its schema.
pub trait Contract: Sized {
    fn new() -> Self;

    fn name() -> &'static str;

    fn schema() -> Schema;
}

/// Who may call an entry point.
#[derive(Debug, Clone, Copy, PartialEq, Eq, Structural)]
pub enum Access {
    Private,
    Public,
}

} // verus!
