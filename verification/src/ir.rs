//! The kinds of move in the L2 motion dialect.
use vstd::prelude::*;

verus! {

/// The primitive a resolved segment describes.
#[derive(Debug, Clone, Copy, PartialEq, Eq, Structural)]
pub enum SegmentKind {
    /// A straight move.
    Line,
    /// A circular (or helical) arc about a centre.
    Arc,
    /// A pause in place.
    Dwell,
    /// A Catmull-Rom spline through control points.
    Spline,
    /// Verbatim G-code carried through unmodelled.
    ManualGcode,
    /// A depositing move.
    Deposit,
    /// A filament retraction.
    Retract,
    /// A filament unretraction (prime).
    Unretract,
}

} // verus!
