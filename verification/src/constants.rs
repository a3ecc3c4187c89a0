//! Physical and numerical constants of the confinement device, each given as
//! the bit pattern of the IEEE-754 double-precision value it stands for.

use vstd::prelude::*;

verus! {

/// Minor radius of the toroidal confinement boundary: bits of 0.0944165.
/// A particle farther than this from the major-radius circle has escaped.
pub const MINOR_RADIUS: u64 = 0x3FB82BAE03B3E9A7;

/// Major radius of the toroidal confinement boundary: bits of 0.2381.
pub const MAJOR_RADIUS: u64 = 0x3FCE7A0F9096BB99;

/// Vacuum permeability: bits of 1.2566e-6.
pub const MIU: u64 = 0x3EB5150E4FBC0F6C;

/// The circle constant: bits of the double nearest to pi.
pub const PI: u64 = 0x400921FB54442D18;

/// Coil current: bits of -4350.0.
pub const CURRENT: u64 = 0xC0B0FE0000000000;

/// Bits of 0.0.
pub const ZERO: u64 = 0x0000000000000000;

/// Bits of 1.0.
pub const ONE: u64 = 0x3FF0000000000000;

/// Bits of 2.0.
pub const TWO: u64 = 0x4000000000000000;

/// Bits of 4.0.
pub const FOUR: u64 = 0x4010000000000000;

/// Bits of 6.0.
pub const SIX: u64 = 0x4018000000000000;

} // verus!
