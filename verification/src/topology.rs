//! How a polygon is rasterised, and the cycle the water mesh steps through.
use vstd::prelude::*;

verus! {

/// Rasterisation mode of a polygon.
#[derive(Clone, Copy, Debug, PartialEq, Eq, Structural)]
pub enum PolygonMode {
    Fill,
    Line,
    Point,
}

/// The mode that follows `mode` when the water surface toggles its topology:
/// filled, then wireframe, then points, then filled again.
pub open spec fn spec_next_polygon_mode(mode: PolygonMode) -> PolygonMode {
    match mode {
        PolygonMode::Fill => PolygonMode::Line,
        PolygonMode::Line => PolygonMode::Point,
        PolygonMode::Point => PolygonMode::Fill,
    }
}

/// The decision made by `Water::toggle_topology`: the next mode in the cycle.
pub fn next_polygon_mode(mode: PolygonMode) -> (next: PolygonMode)
    ensures
        next == spec_next_polygon_mode(mode),
{
    match mode {
        PolygonMode::Fill => PolygonMode::Line,
        PolygonMode::Line => PolygonMode::Point,
        PolygonMode::Point => PolygonMode::Fill,
    }
}

/// Toggling three times returns the water surface to the mode it started in,
/// and every single toggle changes the mode.
pub proof fn lemma_toggle_cycle(mode: PolygonMode)
    ensures
        spec_next_polygon_mode(spec_next_polygon_mode(spec_next_polygon_mode(mode))) == mode,
        spec_next_polygon_mode(mode) != mode,
{
}

} // verus!
