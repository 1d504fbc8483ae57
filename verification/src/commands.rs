//! The command builder: named receiver actions mapped to protocol
//! command/parameter pairs, with numeric clamping and signed-hex
//! encoding where the protocol asks for it.

mod main;

use vstd::prelude::*;

use crate::device::Device;

pub use main::MainCommands;

verus! {

/// Highest absolute volume level the protocol accepts.
pub const VOLUME_MAX_LEVEL: u8 = 100;

/// Highest tone shift the protocol accepts.
pub const TONE_MAX_LEVEL: i8 = 10;

/// Lowest tone shift the protocol accepts.
pub const TONE_MIN_LEVEL: i8 = -10;

/// The uppercase hexadecimal digit for a value below sixteen.
pub open spec fn spec_hex_digit(v: u8) -> u8
    recommends
        v < 16,
{
    if v < 10 {
        (0x30 + v) as u8
    } else {
        (0x37 + v) as u8
    }
}

/// `v` clamped into `[min, max]`.
pub open spec fn spec_clamp(v: i8, max: i8, min: i8) -> i8 {
    if v > max {
        max
    } else if v < min {
        min
    } else {
        v
    }
}

/// Uppercase hexadecimal digits of a magnitude below 256, without
/// leading zeroes.
pub open spec fn spec_hex_mag(m: int) -> Seq<u8>
    recommends
        0 <= m < 256,
{
    if m < 16 {
        seq![spec_hex_digit(m as u8)]
    } else {
        seq![spec_hex_digit((m / 16) as u8), spec_hex_digit((m % 16) as u8)]
    }
}

/// The signed-hex encoding of a level: clamp into `[min, max]`, then
/// an explicit sign (`+` for zero and above, `-` below) followed by the
/// uppercase hexadecimal magnitude of the clamped value.
pub open spec fn spec_signed_hex(v: i8, max: i8, min: i8) -> Seq<u8> {
    let c = spec_clamp(v, max, min);
    if c < 0 {
        seq![0x2du8] + spec_hex_mag(-(c as int))
    } else {
        seq![0x2bu8] + spec_hex_mag(c as int)
    }
}

/// The volume parameter: the level clamped to `VOLUME_MAX_LEVEL`, as
/// exactly two uppercase hexadecimal digits.
pub open spec fn spec_volume_param(level: u8) -> Seq<u8> {
    let c = if level > VOLUME_MAX_LEVEL {
        VOLUME_MAX_LEVEL
    } else {
        level
    };
    seq![spec_hex_digit((c / 16) as u8), spec_hex_digit((c % 16) as u8)]
}

/// The uppercase hexadecimal digit for `v`.
pub fn hex_digit(v: u8) -> (r: u8)
    requires
        v < 16,
    ensures
        r == spec_hex_digit(v),
{
    if v < 10 {
        0x30 + v
    } else {
        0x37 + v
    }
}

/// Clamps `v` into `[min, max]` and encodes it with an explicit sign
/// and an uppercase hexadecimal magnitude.  `min` must lie strictly
/// above the smallest value of the type so the magnitude of a clamped
/// negative level always exists.
pub fn to_signed_hex_str(v: i8, max: i8, min: i8) -> (r: Vec<u8>)
    requires
        i8::MIN < min <= max,
    ensures
        r@ == spec_signed_hex(v, max, min),
{
    let mut value = if v > max {
        max
    } else if v < min {
        min
    } else {
        v
    };
    let mut r: Vec<u8> = Vec::new();
    if value < 0 {
        r.push(0x2d);
        value = -value;
    } else {
        r.push(0x2b);
    }
    let m = value as u8;
    if m < 16 {
        r.push(hex_digit(m));
    } else {
        r.push(hex_digit(m / 16));
        r.push(hex_digit(m % 16));
    }
    assert(r@ =~= spec_signed_hex(v, max, min));
    r
}

/// The two bytes given, as a vector.
pub(crate) fn bytes2(a: u8, b: u8) -> (r: Vec<u8>)
    ensures
        r@ == seq![a, b],
{
    let mut v: Vec<u8> = Vec::new();
    v.push(a);
    v.push(b);
    assert(v@ =~= seq![a, b]);
    v
}

/// The three bytes given, as a vector.
pub(crate) fn bytes3(a: u8, b: u8, c: u8) -> (r: Vec<u8>)
    ensures
        r@ == seq![a, b, c],
{
    let mut v: Vec<u8> = Vec::new();
    v.push(a);
    v.push(b);
    v.push(c);
    assert(v@ =~= seq![a, b, c]);
    v
}

/// The four bytes given, as a vector.
pub(crate) fn bytes4(a: u8, b: u8, c: u8, d: u8) -> (r: Vec<u8>)
    ensures
        r@ == seq![a, b, c, d],
{
    let mut v: Vec<u8> = Vec::new();
    v.push(a);
    v.push(b);
    v.push(c);
    v.push(d);
    assert(v@ =~= seq![a, b, c, d]);
    v
}

/// The five bytes given, as a vector.
pub(crate) fn bytes5(a: u8, b: u8, c: u8, d: u8, e: u8) -> (r: Vec<u8>)
    ensures
        r@ == seq![a, b, c, d, e],
{
    let mut v: Vec<u8> = Vec::new();
    v.push(a);
    v.push(b);
    v.push(c);
    v.push(d);
    v.push(e);
    assert(v@ =~= seq![a, b, c, d, e]);
    v
}

/// The capability object handed out by a device: every command group
/// bound to that device.
pub struct Commands<'a> {
    pub main: MainCommands<'a>,
}

impl<'a> Commands<'a> {
    /// The command groups bound to `device`.
    pub fn from(device: &Device) -> (c: Commands)
        ensures
            *c.main.device == *device,
    {
        Commands { main: MainCommands::from(device) }
    }

    /// The main command group.
    pub fn main(&self) -> (m: &MainCommands<'a>)
        ensures
            m == &self.main,
    {
        &self.main
    }
}

} // verus!
