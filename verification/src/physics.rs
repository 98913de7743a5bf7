//! Workpiece materials known to the machining physics model.
use vstd::prelude::*;

verus! {

/// Workpiece material property database key.
#[derive(Debug, Clone, Copy, PartialEq, Eq, Structural)]
pub enum WorkpieceMaterial {
    Aluminum6061,
    Steel4140,
    TitaniumTi6Al4V,
    Inconel718,
    ThermoplasticPLA,
    ThermoplasticPEEK,
}

} // verus!
