use vstd::prelude::*;

verus! {

/// Which mesh a host renders for an occupant. The grid core never looks at
/// it; it only travels with the host's configuration.
#[derive(Clone, Copy, PartialEq, Eq, Structural, Debug)]
pub enum Shape {
    Box,
    Sphere,
}

/// Which texture collection a host loads for its occupants, if any.
#[derive(Clone, Copy, PartialEq, Eq, Structural, Debug)]
pub enum Ass_ets {
    Wrinkles,
    Fabric,
    Light,
    NoTextures,
}

} // verus!
