//! Guest-side storage and dispatch library: a keyed byte store reached
//! through a narrow boundary, an in-process stand-in for that boundary, and
//! an execution context that routes a call to a registered entry point.

pub mod buffer;
pub mod codec;
pub mod dispatch;
pub mod error;
pub mod exports;
pub mod flipper;
pub mod host;
pub mod order;
pub mod schema;
pub mod value;

pub use codec::Codec;
pub use dispatch::{
    dispatch, get_named_arg, register_entrypoint, register_func, ArgBag, EntryPoint,
    ExecutionContext,
};
pub use error::ApiError;
pub use host::reserve_vec_space;
pub use schema::{
    Access, CLType, CLTyped, Contract, Schema, SchemaArgument, SchemaData, SchemaEntryPoint,
};
pub use value::Value;
