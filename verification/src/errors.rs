//! The error taxonomy: one tagged enumeration with four kinds.
//!
//! Every failure an operation reports maps one-to-one onto a kind here and
//! propagates immediately; no failure is fatal and none mutates the graph
//! it was raised against.  The host-facing layer may present these kinds as
//! a hierarchy; internally the tag is the whole story.

use vstd::prelude::*;

use crate::datatypes::key::AttributeKey;
use crate::graph::edge::EdgeIndex;

verus! {

/// A recoverable failure, scoped to the single call that raised it.
#[derive(Debug)]
pub enum GraphError {
    /// The named node index is absent from the graph.
    NodeNotFound(AttributeKey),
    /// The named node index is already present, and is never overwritten.
    NodeAlreadyExists(AttributeKey),
    /// The named edge index is absent from the graph.
    EdgeNotFound(EdgeIndex),
    /// A foreign value could not be converted; the payload renders it.
    ConversionError(String),
}

} // verus!
