use vstd::prelude::*;

verus! {

/// The bit pattern of the number one in IEEE 754 single precision.
pub const ONE_BITS: u32 = 0x3F80_0000;

/// A point in world space.
///
/// Each coordinate is carried as the bit pattern of an IEEE 754 single precision number.
/// The protocol stores, compares and relays positions; it never calculates with them, so
/// the bit pattern is all it needs, and two positions are equal when their bits are.
#[derive(Clone, Copy, Debug, PartialEq, Eq, Hash, Structural)]
pub struct Position {
    pub x: u32,
    pub y: u32,
    pub z: u32,
}

/// Where a player that has just joined is told to appear: the point (0, 1, 0).
pub open spec fn spec_default_spawn_point() -> Position {
    Position { x: 0, y: ONE_BITS, z: 0 }
}

/// Where a player that has just joined is told to appear: the point (0, 1, 0).
#[verifier::when_used_as_spec(spec_default_spawn_point)]
pub fn default_spawn_point() -> (p: Position)
    ensures
        p == spec_default_spawn_point(),
{
    Position { x: 0, y: ONE_BITS, z: 0 }
}

/// The position under which the registry records the object of a player that has just
/// joined, and announces it to the clients already connected: the point (1, 1, 1).
pub open spec fn spec_initial_position() -> Position {
    Position { x: ONE_BITS, y: ONE_BITS, z: ONE_BITS }
}

/// The position under which the registry records the object of a player that has just
/// joined, and announces it to the clients already connected: the point (1, 1, 1).
#[verifier::when_used_as_spec(spec_initial_position)]
pub fn initial_position() -> (p: Position)
    ensures
        p == spec_initial_position(),
{
    Position { x: ONE_BITS, y: ONE_BITS, z: ONE_BITS }
}

} // verus!
