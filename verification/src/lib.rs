//! A typed, attributed, directed multigraph with a verified conversion
//! boundary to a dynamically-typed host.

pub mod assoc;
pub mod datatypes;
pub mod errors;
pub mod gil_hash_map;
pub mod graph;

pub use datatypes::key::AttributeKey;
pub use datatypes::value::AttributeValue;
pub use datatypes::{
    PyBoolean, PyInt128, PyInt16, PyInt32, PyInt64, PyInt8, PyString, PyUInt128, PyUInt16,
    PyUInt32, PyUInt64, PyUInt8, PyUsize,
};
pub use errors::GraphError;
pub use gil_hash_map::GILHashMap;
