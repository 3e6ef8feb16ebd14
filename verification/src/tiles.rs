use vstd::prelude::*;

verus! {

/// One source row of the tile table. The elevation is carried as the bit
/// pattern of an IEEE-754 single-precision value; this module never does
/// arithmetic on it, it only moves it into buffers.
#[derive(Clone, Copy, PartialEq, Eq, Structural, Debug)]
pub struct TileRow {
    pub x: i32,
    pub y: i32,
    pub tile_type: i32,
    pub elevation: u32,
}

/// One colour triple, each component the bit pattern of an IEEE-754
/// single-precision value.
#[derive(Clone, Copy, PartialEq, Eq, Structural, Debug)]
pub struct Rgb {
    pub r: u32,
    pub g: u32,
    pub b: u32,
}

/// The colour assigned to each tile-type code. Callers that scale the
/// palette by a colour multiplier do so before handing it in; the mapping
/// itself never changes a component.
#[derive(Clone, Copy, PartialEq, Eq, Structural, Debug)]
pub struct ColorPalette {
    pub water: Rgb,
    pub grass: Rgb,
    pub rock: Rgb,
    pub snow: Rgb,
    pub sand: Rgb,
    pub forest: Rgb,
    pub other: Rgb,
}

// IEEE-754 single-precision bit patterns for the palette components,
// named as tenths of one: TENTHS_2 is the pattern of two tenths, and
// HUNDREDTHS_95 the pattern of ninety-five hundredths.
pub const TENTHS_1: u32 = 0x3DCC_CCCD;

pub const TENTHS_2: u32 = 0x3E4C_CCCD;

pub const TENTHS_3: u32 = 0x3E99_999A;

pub const TENTHS_4: u32 = 0x3ECC_CCCD;

pub const TENTHS_5: u32 = 0x3F00_0000;

pub const TENTHS_6: u32 = 0x3F19_999A;

pub const TENTHS_7: u32 = 0x3F33_3333;

pub const TENTHS_8: u32 = 0x3F4C_CCCD;

pub const TENTHS_9: u32 = 0x3F66_6666;

pub const HUNDREDTHS_95: u32 = 0x3F73_3333;

/// The bit pattern of one, used for the position `w` and colour alpha
/// components.
pub const ONE_BITS: u32 = 0x3F80_0000;

/// The unscaled palette: water blue, grass green, rock grey, snow white,
/// sand yellow, forest dark green, and mid grey for every other code.
pub open spec fn spec_base_palette() -> ColorPalette {
    ColorPalette {
        water: Rgb { r: TENTHS_2, g: TENTHS_5, b: TENTHS_8 },
        grass: Rgb { r: TENTHS_3, g: TENTHS_7, b: TENTHS_3 },
        rock: Rgb { r: TENTHS_6, g: TENTHS_6, b: TENTHS_5 },
        snow: Rgb { r: TENTHS_9, g: TENTHS_9, b: HUNDREDTHS_95 },
        sand: Rgb { r: TENTHS_8, g: TENTHS_7, b: TENTHS_4 },
        forest: Rgb { r: TENTHS_1, g: TENTHS_4, b: TENTHS_1 },
        other: Rgb { r: TENTHS_5, g: TENTHS_5, b: TENTHS_5 },
    }
}

/// Builds the unscaled palette. Scaling every component by one leaves each
/// of these patterns unchanged, so this is also the palette for a colour
/// multiplier of one.
pub fn base_palette() -> (p: ColorPalette)
    ensures
        p == spec_base_palette(),
{
    ColorPalette {
        water: Rgb { r: TENTHS_2, g: TENTHS_5, b: TENTHS_8 },
        grass: Rgb { r: TENTHS_3, g: TENTHS_7, b: TENTHS_3 },
        rock: Rgb { r: TENTHS_6, g: TENTHS_6, b: TENTHS_5 },
        snow: Rgb { r: TENTHS_9, g: TENTHS_9, b: HUNDREDTHS_95 },
        sand: Rgb { r: TENTHS_8, g: TENTHS_7, b: TENTHS_4 },
        forest: Rgb { r: TENTHS_1, g: TENTHS_4, b: TENTHS_1 },
        other: Rgb { r: TENTHS_5, g: TENTHS_5, b: TENTHS_5 },
    }
}

/// The tile-type to colour rule: codes zero to five pick the six named
/// entries in order, and every other code picks the `other` entry.
pub open spec fn spec_tile_color(p: ColorPalette, tile_type: int) -> Rgb {
    if tile_type == 0 {
        p.water
    } else if tile_type == 1 {
        p.grass
    } else if tile_type == 2 {
        p.rock
    } else if tile_type == 3 {
        p.snow
    } else if tile_type == 4 {
        p.sand
    } else if tile_type == 5 {
        p.forest
    } else {
        p.other
    }
}

/// Looks a tile-type code up in the palette.
pub fn tile_color(p: &ColorPalette, tile_type: i32) -> (c: Rgb)
    ensures
        c == spec_tile_color(*p, tile_type as int),
{
    match tile_type {
        0 => p.water,
        1 => p.grass,
        2 => p.rock,
        3 => p.snow,
        4 => p.sand,
        5 => p.forest,
        _ => p.other,
    }
}

/// Law: every code outside zero to five gets the palette's `other` entry,
/// whatever the code; in the unscaled palette that entry is mid grey. The
/// mapping is a spec function of the palette and the code alone, so equal
/// arguments always yield the same colour.
pub proof fn lemma_tile_color_default(p: ColorPalette, tile_type: int)
    requires
        !(0 <= tile_type <= 5),
    ensures
        spec_tile_color(p, tile_type) == p.other,
        spec_base_palette().other == (Rgb { r: TENTHS_5, g: TENTHS_5, b: TENTHS_5 }),
{
}

} // verus!
