//! Value types shared by the drawing routines: the packed ARGB colour model,
//! texture-mapped vertices and the UV wrapping policy.

use vstd::prelude::*;

verus! {

/// A 32-bit ARGB colour with four 8-bit channels.
#[derive(Clone, Copy, PartialEq, Eq, Structural, Debug)]
pub struct ARGBColour {
    pub a: u8,
    pub r: u8,
    pub g: u8,
    pub b: u8,
}

/// The canonical packed encoding of four channels: `a<<24 | r<<16 | g<<8 | b`.
pub open spec fn pack_argb(a: u8, r: u8, g: u8, b: u8) -> u32 {
    ((a as u32) << 24) | ((r as u32) << 16) | ((g as u32) << 8) | (b as u32)
}

/// The alpha channel of a packed pixel.
pub open spec fn alpha_of(px: u32) -> u32 {
    px >> 24
}

impl ARGBColour {
    /// The packed form of this colour.
    pub open spec fn spec_packed(&self) -> u32 {
        pack_argb(self.a, self.r, self.g, self.b)
    }

    /// Creates a new ARGBColour from ARGB u8 components.
    pub fn new(a: u8, r: u8, g: u8, b: u8) -> (c: Self)
        ensures
            c == (ARGBColour { a, r, g, b }),
    {
        Self { a, r, g, b }
    }

    /// Packs the four channels into one 32-bit pixel value.
    pub fn packed(&self) -> (px: u32)
        ensures
            px == self.spec_packed(),
    {
        ((self.a as u32) << 24) | ((self.r as u32) << 16) | ((self.g as u32) << 8) | (self.b
            as u32)
    }

    /// Decodes a packed 32-bit pixel value into its four channels.
    pub fn from_packed(px: u32) -> (c: Self)
        ensures
            c.a == ((px >> 24) & 0xFF) as u8,
            c.r == ((px >> 16) & 0xFF) as u8,
            c.g == ((px >> 8) & 0xFF) as u8,
            c.b == (px & 0xFF) as u8,
            c.spec_packed() == px,
    {
        proof {
            lemma_pack_unpack(px);
        }
        Self {
            a: ((px >> 24) & 0xFF) as u8,
            r: ((px >> 16) & 0xFF) as u8,
            g: ((px >> 8) & 0xFF) as u8,
            b: (px & 0xFF) as u8,
        }
    }
}

/// Decoding a packed pixel into channels and re-encoding them gives the
/// original value: the colour model is a lossless bijection.
pub proof fn lemma_pack_unpack(px: u32)
    ensures
        pack_argb(
            ((px >> 24) & 0xFF) as u8,
            ((px >> 16) & 0xFF) as u8,
            ((px >> 8) & 0xFF) as u8,
            (px & 0xFF) as u8,
        ) == px,
{
    assert((((((px >> 24) & 0xFF) as u8) as u32) << 24) | (((((px >> 16) & 0xFF) as u8) as u32)
        << 16) | (((((px >> 8) & 0xFF) as u8) as u32) << 8) | (((px & 0xFF) as u8) as u32)
        == px) by (bit_vector);
}

/// Encoding four channels and decoding the packed value gives the channels
/// back: no information is lost in either direction.
pub proof fn lemma_unpack_pack(a: u8, r: u8, g: u8, b: u8)
    ensures
        (pack_argb(a, r, g, b) >> 24) & 0xFF == a as u32,
        (pack_argb(a, r, g, b) >> 16) & 0xFF == r as u32,
        (pack_argb(a, r, g, b) >> 8) & 0xFF == g as u32,
        pack_argb(a, r, g, b) & 0xFF == b as u32,
        alpha_of(pack_argb(a, r, g, b)) == a as u32,
{
    let px = ((a as u32) << 24) | ((r as u32) << 16) | ((g as u32) << 8) | (b as u32);
    assert((px >> 24) & 0xFF == a as u32 && (px >> 16) & 0xFF == r as u32 && (px >> 8) & 0xFF == g
        as u32 && px & 0xFF == b as u32 && px >> 24 == a as u32) by (bit_vector)
        requires
            px == ((a as u32) << 24) | ((r as u32) << 16) | ((g as u32) << 8) | (b as u32),
    ;
}

/// Whether a packed pixel's alpha channel is nonzero, i.e. whether the
/// binary transparency test lets it overwrite a destination pixel.
pub fn alpha_nonzero(px: u32) -> (b: bool)
    ensures
        b == (alpha_of(px) > 0),
{
    (px >> 24) > 0
}

/// Number of fixed-point steps that stand for a UV coordinate of 1.0.
///
/// Texture coordinates are fixed-point numbers scaled by this constant, so
/// `UV_ONE` is the right edge of the texture and `UV_ONE / 2` its middle.
pub const UV_ONE: i64 = 65536;

/// A single vertex containing both an (X,Y) screen co-ordinate and a (U,V)
/// texture co-ordinate.
///
/// `u` and `v` are fixed-point values scaled by [`UV_ONE`]: `UV_ONE` stands
/// for 1.0.  They conventionally lie in `[0, UV_ONE]` but are not clamped at
/// construction.
#[derive(Clone, Copy, PartialEq, Eq, Structural, Debug)]
pub struct UVVertex {
    pub x: isize,
    pub y: isize,
    pub u: i64,
    pub v: i64,
}

impl UVVertex {
    /// Creates a new UVVertex from (X,Y) and fixed-point (U,V) co-ordinates.
    pub fn new(x: isize, y: isize, u: i64, v: i64) -> (vert: Self)
        ensures
            vert == (UVVertex { x, y, u, v }),
    {
        Self { x, y, u, v }
    }
}

/// Type of wrapping to use for U,V co-ordinates outside of the `[0, UV_ONE]`
/// range.
///
///   - `Clamp`: co-ordinates saturate at 0 and `UV_ONE`
///   - `Wrap`: co-ordinates wrap periodically (1.75 becomes 0.75)
#[derive(Clone, Copy, PartialEq, Eq, Structural, Debug)]
pub enum UVWrapMode {
    Clamp,
    Wrap,
}


impl<'a> From<&'a ARGBColour> for u32 {
    fn from(x: &'a ARGBColour) -> (px: u32) {
        x.packed()
    }
}

impl<'a> vstd::std_specs::convert::FromSpecImpl<&'a ARGBColour> for u32 {
    open spec fn obeys_from_spec() -> bool {
        true
    }

    open spec fn from_spec(v: &'a ARGBColour) -> u32 {
        v.spec_packed()
    }
}

} // verus!

