//! Player-facing data carried over the wire. Positions and colour channels
//! are 32-bit float quantities to the presentation layer; the core carries
//! them as their bit patterns and never computes on them.
use vstd::prelude::*;

verus! {

/// A player's 2D position: the bit patterns of the two float coordinates.
#[derive(Clone, Copy, PartialEq, Eq, Structural, Debug)]
pub struct PlayerLocation {
    pub x_bits: u32,
    pub y_bits: u32,
}

/// A player's colour: the bit patterns of its three float channels.
#[derive(Clone, Copy, PartialEq, Eq, Structural, Debug)]
pub struct ColorRgb {
    pub red_bits: u32,
    pub green_bits: u32,
    pub blue_bits: u32,
}

/// Everything a client needs to present a player. The position changes at
/// unreliable-channel cadence; the colour is fixed when the player joins.
#[derive(Clone, Copy, PartialEq, Eq, Structural, Debug)]
pub struct PlayerSyncData {
    pub pos: PlayerLocation,
    pub color: ColorRgb,
}

} // verus!
