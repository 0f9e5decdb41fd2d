//! Planning of C-ABI bindings for plain data structures, and the owned
//! string type that crosses the boundary with them.

pub mod binding;
pub mod ffi_string;
pub mod instance;
pub mod names;
pub mod schema;
pub mod text;
pub mod uniqueness;

pub use binding::{
    derive_effy, derive_new_free, derive_primitive, derive_string, derive_struct, AccessorPair,
    BoundFn, FieldPlan, FieldShape, GenError, GeneratedBinding, Lifecycle,
};
pub use ffi_string::{string_free, string_new, string_t, string_update, FfiString};
pub use instance::{AccessError, Instance, Slot, Value};
pub use schema::{
    classify, Classification, DataShape, DeriveInput, FieldSchema, PathSegment, PrimitiveKind,
    TypeExpr,
};
