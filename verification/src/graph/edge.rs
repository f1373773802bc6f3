//! Edge indices and their conversion from foreign host objects.
//!
//! An edge index is an opaque, engine-assigned integer handle, strictly
//! increasing over a graph's lifetime and never reused after removal.  The
//! conversion from a foreign value follows the same cached-dispatch pattern
//! as attribute values, with its own priority order: the host's native
//! integer kind is checked before the explicit pointer-sized holder, and
//! everything else is an error.

use rayon::iter::{IndexedParallelIterator, IntoParallelRefIterator, ParallelIterator};
use vstd::prelude::*;

use crate::datatypes::value::{
    host_rendering, host_wf, render_host, type_identity_of, HostObject, HostObjectView,
};
use crate::datatypes::PyUsize;
use crate::errors::GraphError;
use crate::gil_hash_map::GILHashMap;

verus! {

/// An opaque handle for an edge, strictly increasing over a graph's
/// lifetime and never reused after removal.
#[derive(Clone, Copy, Debug, PartialEq, Eq, Hash, Structural)]
pub struct EdgeIndex(pub usize);

impl EdgeIndex {
    /// Converts back to the foreign representation: a pointer-sized holder
    /// instance.
    pub fn into_host(self) -> (h: HostObject)
        ensures
            h@ == HostObjectView::Usize(self.0),
    {
        HostObject::Usize(PyUsize::new(self.0))
    }
}

/// The conversion functions an edge-index conversion can dispatch to.
#[derive(Clone, Copy, Debug, PartialEq, Eq, Structural)]
pub enum EdgeConverter {
    NativeInt,
    Usize,
    Fallback,
}

/// Whether a host object's runtime type satisfies the type check belonging
/// to one edge conversion function.  A native boolean is a subtype of the
/// native integer kind, so it satisfies the native-integer check.
pub open spec fn spec_edge_is_instance(h: HostObjectView, c: EdgeConverter) -> bool {
    match c {
        EdgeConverter::NativeInt => h is NativeInt || h is NativeBool,
        EdgeConverter::Usize => h is Usize,
        EdgeConverter::Fallback => false,
    }
}

/// The ordered checks for an edge index: the native integer kind first,
/// then the explicit pointer-sized holder, then the error fallback.
pub open spec fn spec_edge_inspect(h: HostObjectView) -> EdgeConverter {
    if spec_edge_is_instance(h, EdgeConverter::NativeInt) {
        EdgeConverter::NativeInt
    } else if spec_edge_is_instance(h, EdgeConverter::Usize) {
        EdgeConverter::Usize
    } else {
        EdgeConverter::Fallback
    }
}

/// The edge conversion function belonging to a runtime-type identity.
pub open spec fn edge_converter_for(identity: u64) -> EdgeConverter {
    if identity == 16 || identity == 17 {
        EdgeConverter::NativeInt
    } else if identity == 15 {
        EdgeConverter::Usize
    } else {
        EdgeConverter::Fallback
    }
}

/// The edge inspection's choice is a function of the runtime-type identity
/// alone.
pub proof fn lemma_edge_inspect_by_identity(h: HostObjectView)
    requires
        host_wf(h),
    ensures
        spec_edge_inspect(h) == edge_converter_for(type_identity_of(h)),
{
}

/// What converting a host object to an edge index yields.  A native
/// boolean converts as the host's integer subtype it is; a native integer
/// outside the pointer-sized range, and anything that is not an integer
/// kind or the pointer-sized holder, is an error whose message is a
/// rendering of the offending value.
pub open spec fn spec_convert_edge(h: HostObjectView) -> Result<usize, Seq<char>> {
    match h {
        HostObjectView::NativeInt(n) => if 0 <= n <= usize::MAX {
            Ok(n as usize)
        } else {
            Err(host_rendering(h))
        },
        HostObjectView::NativeBool(b) => Ok(
            if b {
                1usize
            } else {
                0usize
            },
        ),
        HostObjectView::Usize(n) => Ok(n),
        _ => Err(host_rendering(h)),
    }
}

/// How an exec edge conversion result relates to the specified one.
pub open spec fn edge_conversion_result_matches(
    r: Result<EdgeIndex, GraphError>,
    s: Result<usize, Seq<char>>,
) -> bool {
    match r {
        Ok(e) => s == Ok::<usize, Seq<char>>(e.0),
        Err(e) => e matches GraphError::ConversionError(m) && s == Err::<usize, Seq<char>>(m@),
    }
}

/// A well-formed edge dispatch cache maps each filled runtime-type
/// identity to the conversion function the ordered inspection would choose
/// for it.
pub open spec fn edge_lut_wf(lut: Map<u64, EdgeConverter>) -> bool {
    forall|c: u64| #[trigger] lut.contains_key(c) ==> lut[c] == edge_converter_for(c)
}

/// Runs the ordered checks and returns the first matching edge conversion
/// function.
pub fn inspect_host_type_for_edge(ob: &HostObject) -> (c: EdgeConverter)
    ensures
        c == spec_edge_inspect(ob@),
{
    match ob {
        HostObject::NativeInt(_) => EdgeConverter::NativeInt,
        HostObject::NativeBool(_) => EdgeConverter::NativeInt,
        HostObject::Usize(_) => EdgeConverter::Usize,
        _ => EdgeConverter::Fallback,
    }
}

/// Applies one edge conversion function to a host object whose runtime
/// type selected it.
pub fn apply_edge_converter(conv: EdgeConverter, ob: &HostObject) -> (r: Result<
    EdgeIndex,
    GraphError,
>)
    requires
        host_wf(ob@),
        conv == edge_converter_for(type_identity_of(ob@)),
    ensures
        edge_conversion_result_matches(r, spec_convert_edge(ob@)),
{
    match (conv, ob) {
        (EdgeConverter::NativeInt, HostObject::NativeInt(n)) => {
            if *n >= 0 && (*n as u128) <= (usize::MAX as u128) {
                Ok(EdgeIndex(*n as usize))
            } else {
                Err(GraphError::ConversionError(render_host(ob)))
            }
        },
        (EdgeConverter::NativeInt, HostObject::NativeBool(b)) => Ok(
            EdgeIndex(
                if *b {
                    1
                } else {
                    0
                },
            ),
        ),
        (EdgeConverter::Usize, HostObject::Usize(p)) => Ok(EdgeIndex(p.value())),
        (EdgeConverter::Fallback, _) => Err(GraphError::ConversionError(render_host(ob))),
        _ => vstd::pervasive::unreached(),
    }
}

/// Converts one foreign value to an edge index through the edge dispatch
/// cache.  As with attribute values, the result is pinned by the host
/// object alone; the cache gains at most the entry for this object's
/// runtime-type identity and is untouched on a hit.
pub fn convert_host_to_edge_index(lut: &mut GILHashMap<EdgeConverter>, ob: &HostObject) -> (r:
    Result<EdgeIndex, GraphError>)
    requires
        host_wf(ob@),
        edge_lut_wf(old(lut)@),
    ensures
        edge_conversion_result_matches(r, spec_convert_edge(ob@)),
        edge_lut_wf(final(lut)@),
        final(lut)@ == old(lut)@.insert(
            type_identity_of(ob@),
            edge_converter_for(type_identity_of(ob@)),
        ),
        old(lut)@.contains_key(type_identity_of(ob@)) ==> final(lut)@ == old(lut)@,
{
    let identity = ob.type_identity();
    let conv = match lut.get(identity) {
        Some(c) => *c,
        None => {
            let c = inspect_host_type_for_edge(ob);
            proof {
                lemma_edge_inspect_by_identity(ob@);
            }
            lut.insert(identity, c);
            c
        }
    };
    proof {
        lemma_edge_inspect_by_identity(ob@);
        assert(final(lut)@ =~= old(lut)@.insert(
            type_identity_of(ob@),
            edge_converter_for(type_identity_of(ob@)),
        ));
    }
    apply_edge_converter(conv, ob)
}

/// A warm edge cache agrees with a cold inspection.
pub proof fn lemma_warm_edge_cache_agrees_with_inspection(
    lut: Map<u64, EdgeConverter>,
    h: HostObjectView,
)
    requires
        edge_lut_wf(lut),
        host_wf(h),
        lut.contains_key(type_identity_of(h)),
    ensures
        lut[type_identity_of(h)] == spec_edge_inspect(h),
{
    lemma_edge_inspect_by_identity(h);
}

/// Translational fan-out: a batch of edge indices as host objects, in
/// order.
pub fn edge_indices_to_host(v: &Vec<EdgeIndex>) -> (r: Vec<HostObject>)
    ensures
        r@.len() == v@.len(),
        forall|i: int|
            0 <= i < r@.len() ==> (#[trigger] r@[i])@ == HostObjectView::Usize(v@[i].0),
{
    par_edge_indices_to_host(v)
}

/// Relies on rayon's indexed parallel iterators: `map` applies the given
/// closure to each element and `collect` into a vector preserves the input
/// order.  The closure only calls a verified conversion of this crate.
#[verifier::external_body]
fn par_edge_indices_to_host(v: &Vec<EdgeIndex>) -> (r: Vec<HostObject>)
    ensures
        r@.len() == v@.len(),
        forall|i: int|
            0 <= i < r@.len() ==> (#[trigger] r@[i])@ == HostObjectView::Usize(v@[i].0),
{
    v.par_iter().map(|e: &EdgeIndex| EdgeIndex::into_host(*e)).collect()
}

} // verus!
