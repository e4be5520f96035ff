//! Errors of the extraction pipeline.
//!
//! Every error is fatal: the pipeline aborts without partial output.

use vstd::prelude::*;

verus! {

#[derive(Clone, Copy, Debug, PartialEq, Eq, Structural)]
pub enum ExtractError {
    /// An exact rational result did not fit the machine representation.
    Overflow,
    /// A route segment whose endpoints coincide cannot be projected onto.
    DegenerateSegment,
    /// No group node labelled as the route group was found.
    MissingRouteGroup,
    /// A required numeric attribute was missing or not numeric.
    MissingAttribute,
    /// A route path did not decode to exactly two vertices.
    BadPathVertexCount,
    /// Both endpoints of a route path resolved to the same route point.
    DegenerateConnection,
    /// A route path exists but the route group has no point to attach it to.
    NoRoutePoints,
    /// A shelf marker carried no label.
    MissingLabel,
    /// A shelf-marker label had no corridor/shelf separator.
    MissingLabelSeparator,
    /// A shelf marker sat on a shape that is neither circle nor rectangle.
    UnsupportedShape,
    /// A shelf marker exists but the route graph has no edge to project onto.
    EmptyRoute,
}

} // verus!
