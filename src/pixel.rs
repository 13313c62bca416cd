use vstd::prelude::*;

verus! {

/// Distance in pixels between two neighbouring dots, along either axis.
pub const DOT_PITCH: u32 = 10;

/// Offset of the dots within each pitch, along either axis.
pub const DOT_PHASE: u32 = 5;

/// Largest channel value: full intensity, and full opacity for alpha.
pub const CHANNEL_MAX: u8 = 255;

/// One pixel, 8 bits per channel.
#[derive(Clone, Copy, Debug, PartialEq, Eq, Structural)]
pub struct Rgba {
    pub r: u8,
    pub g: u8,
    pub b: u8,
    pub a: u8,
}

impl Rgba {
    /// Channel `k` in memory order: red, green, blue, alpha.
    pub open spec fn channel(self, k: int) -> u8 {
        if k == 0 {
            self.r
        } else if k == 1 {
            self.g
        } else if k == 2 {
            self.b
        } else {
            self.a
        }
    }
}

/// Whether the pixel at `(x, y)` carries a highlight dot.
pub open spec fn is_dot(x: nat, y: nat) -> bool {
    x % (DOT_PITCH as nat) == DOT_PHASE as nat && y % (DOT_PITCH as nat) == DOT_PHASE as nat
}

/// Opaque black, the colour of every pixel off the lattice.
pub open spec fn black() -> Rgba {
    Rgba { r: 0, g: 0, b: 0, a: CHANNEL_MAX }
}

/// The colour of pixel `(x, y)` under noise level `n`: a yellow dot of
/// intensity `n` on the lattice, black elsewhere.
pub open spec fn pixel_of(x: nat, y: nat, n: u8) -> Rgba {
    if is_dot(x, y) {
        Rgba { r: n, g: n, b: 0, a: CHANNEL_MAX }
    } else {
        black()
    }
}

/// An integer level brought into a byte, saturating at both ends.
pub open spec fn saturate_level(v: int) -> u8 {
    if v <= 0 {
        0
    } else if v >= CHANNEL_MAX as int {
        CHANNEL_MAX
    } else {
        v as u8
    }
}

/// Whether the pixel at `(x, y)` carries a highlight dot.
pub fn on_dot_lattice(x: u32, y: u32) -> (r: bool)
    ensures
        r == is_dot(x as nat, y as nat),
{
    x % DOT_PITCH == DOT_PHASE && y % DOT_PITCH == DOT_PHASE
}

/// The byte for a noise level that was already mapped onto `0..=255` and
/// truncated toward zero: values out of that range saturate.
pub fn level_byte(scaled: i64) -> (r: u8)
    ensures
        r == saturate_level(scaled as int),
{
    if scaled <= 0 {
        0
    } else if scaled >= CHANNEL_MAX as i64 {
        CHANNEL_MAX
    } else {
        scaled as u8
    }
}

/// The colour of pixel `(x, y)` under noise level `n`.
pub fn pixel_color(x: u32, y: u32, n: u8) -> (r: Rgba)
    ensures
        r == pixel_of(x as nat, y as nat, n),
        is_dot(x as nat, y as nat) ==> r.r == n && r.g == n && r.b == 0 && r.a == CHANNEL_MAX,
        !is_dot(x as nat, y as nat) ==> r == black(),
{
    if on_dot_lattice(x, y) {
        Rgba { r: n, g: n, b: 0, a: CHANNEL_MAX }
    } else {
        Rgba { r: 0, g: 0, b: 0, a: CHANNEL_MAX }
    }
}

} // verus!
