use vstd::prelude::*;

verus! {

use crate::codec::encoded_bytes;
use crate::codec::encode_words;
use crate::tiles::ColorPalette;
use crate::tiles::ONE_BITS;
use crate::tiles::Rgb;
use crate::tiles::TileRow;
use crate::tiles::spec_tile_color;

/// Both coordinates of the row index into an axis table of length `n`.
pub open spec fn row_in_range(t: TileRow, n: int) -> bool {
    0 <= t.x < n && 0 <= t.y < n
}

pub open spec fn rows_in_range(rows: Seq<TileRow>, n: int) -> bool {
    forall|i: int| 0 <= i < rows.len() ==> row_in_range(#[trigger] rows[i], n)
}

/// One row's position vector: the scaled x and y picked from the axis
/// table, the elevation untouched, and one as the fourth component.
pub open spec fn position_quad(t: TileRow, axis: Seq<u32>) -> Seq<u32> {
    seq![axis[t.x as int], axis[t.y as int], t.elevation, ONE_BITS]
}

/// One row's colour vector: the palette triple for its tile type, with
/// one as the alpha component.
pub open spec fn color_quad(t: TileRow, p: ColorPalette) -> Seq<u32> {
    let c = spec_tile_color(p, t.tile_type as int);
    seq![c.r, c.g, c.b, ONE_BITS]
}

/// The position vectors of all rows, in source row order.
pub open spec fn positions_of(rows: Seq<TileRow>, axis: Seq<u32>) -> Seq<u32>
    decreases rows.len(),
{
    if rows.len() == 0 {
        Seq::empty()
    } else {
        position_quad(rows[0], axis) + positions_of(rows.skip(1), axis)
    }
}

/// The colour vectors of all rows, in source row order.
pub open spec fn colors_of(rows: Seq<TileRow>, p: ColorPalette) -> Seq<u32>
    decreases rows.len(),
{
    if rows.len() == 0 {
        Seq::empty()
    } else {
        color_quad(rows[0], p) + colors_of(rows.skip(1), p)
    }
}

/// The full buffer image for a set of rows: the row count, then every
/// position vector, then every colour vector.
pub open spec fn gpu_buffer_bytes(rows: Seq<TileRow>, axis: Seq<u32>, p: ColorPalette) -> Seq<
    u8,
> {
    encoded_bytes(rows.len() as u32, positions_of(rows, axis), colors_of(rows, p))
}

pub broadcast proof fn lemma_positions_of_len(rows: Seq<TileRow>, axis: Seq<u32>)
    ensures
        #[trigger] positions_of(rows, axis).len() == 4 * rows.len(),
    decreases rows.len(),
{
    if rows.len() > 0 {
        lemma_positions_of_len(rows.skip(1), axis);
    }
}

pub broadcast proof fn lemma_colors_of_len(rows: Seq<TileRow>, p: ColorPalette)
    ensures
        #[trigger] colors_of(rows, p).len() == 4 * rows.len(),
    decreases rows.len(),
{
    if rows.len() > 0 {
        lemma_colors_of_len(rows.skip(1), p);
    }
}

pub proof fn lemma_positions_of_concat(s: Seq<TileRow>, t: Seq<TileRow>, axis: Seq<u32>)
    ensures
        positions_of(s + t, axis) == positions_of(s, axis) + positions_of(t, axis),
    decreases s.len(),
{
    if s.len() == 0 {
        assert(s + t =~= t);
        assert(positions_of(s, axis) + positions_of(t, axis) =~= positions_of(t, axis));
    } else {
        assert((s + t).skip(1) =~= s.skip(1) + t);
        lemma_positions_of_concat(s.skip(1), t, axis);
        assert(positions_of(s + t, axis) =~= positions_of(s, axis) + positions_of(t, axis));
    }
}

pub proof fn lemma_colors_of_concat(s: Seq<TileRow>, t: Seq<TileRow>, p: ColorPalette)
    ensures
        colors_of(s + t, p) == colors_of(s, p) + colors_of(t, p),
    decreases s.len(),
{
    if s.len() == 0 {
        assert(s + t =~= t);
        assert(colors_of(s, p) + colors_of(t, p) =~= colors_of(t, p));
    } else {
        assert((s + t).skip(1) =~= s.skip(1) + t);
        lemma_colors_of_concat(s.skip(1), t, p);
        assert(colors_of(s + t, p) =~= colors_of(s, p) + colors_of(t, p));
    }
}

proof fn lemma_positions_of_single(t: TileRow, axis: Seq<u32>)
    ensures
        positions_of(seq![t], axis) == position_quad(t, axis),
{
    assert(seq![t].skip(1) =~= Seq::<TileRow>::empty());
    assert(positions_of(seq![t].skip(1), axis) =~= Seq::<u32>::empty());
    assert(positions_of(seq![t], axis) =~= position_quad(t, axis));
}

proof fn lemma_colors_of_single(t: TileRow, p: ColorPalette)
    ensures
        colors_of(seq![t], p) == color_quad(t, p),
{
    assert(seq![t].skip(1) =~= Seq::<TileRow>::empty());
    assert(colors_of(seq![t].skip(1), p) =~= Seq::<u32>::empty());
    assert(colors_of(seq![t], p) =~= color_quad(t, p));
}

/// Law: every buffer the transform packs decodes back to its own count and
/// arrays, so a generated chunk is never skipped as malformed.
pub proof fn lemma_gpu_buffer_decodes(rows: Seq<TileRow>, axis: Seq<u32>, p: ColorPalette)
    requires
        rows.len() <= u32::MAX,
    ensures
        crate::codec::decoded(gpu_buffer_bytes(rows, axis, p), 4, 4) == Some(
            (rows.len() as u32, positions_of(rows, axis), colors_of(rows, p)),
        ),
{
    lemma_positions_of_len(rows, axis);
    lemma_colors_of_len(rows, p);
    crate::codec::lemma_encode_decode_roundtrip(
        rows.len() as u32,
        positions_of(rows, axis),
        colors_of(rows, p),
        4,
        4,
    );
}

/// Transforms every row into its position and colour vectors, in source
/// row order.
pub fn build_gpu_arrays(rows: &Vec<TileRow>, axis: &Vec<u32>, palette: &ColorPalette) -> (r: (
    Vec<u32>,
    Vec<u32>,
))
    requires
        rows_in_range(rows@, axis@.len() as int),
        rows@.len() * 4 <= usize::MAX,
    ensures
        r.0@ == positions_of(rows@, axis@),
        r.1@ == colors_of(rows@, *palette),
        r.0@.len() == 4 * rows@.len(),
        r.1@.len() == 4 * rows@.len(),
{
    let mut positions: Vec<u32> = Vec::new();
    let mut colors: Vec<u32> = Vec::new();
    let mut i: usize = 0;
    while i < rows.len()
        invariant
            i <= rows@.len(),
            rows@.len() * 4 <= usize::MAX,
            rows_in_range(rows@, axis@.len() as int),
            positions@ == positions_of(rows@.take(i as int), axis@),
            colors@ == colors_of(rows@.take(i as int), *palette),
        decreases rows@.len() - i,
    {
        let t = rows[i];
        proof {
            lemma_positions_of_len(rows@.take(i as int), axis@);
            lemma_colors_of_len(rows@.take(i as int), *palette);
        }
        let ghost prev_positions = positions@;
        let ghost prev_colors = colors@;
        positions.push(axis[t.x as usize]);
        positions.push(axis[t.y as usize]);
        positions.push(t.elevation);
        positions.push(ONE_BITS);
        let c: Rgb = crate::tiles::tile_color(palette, t.tile_type);
        colors.push(c.r);
        colors.push(c.g);
        colors.push(c.b);
        colors.push(ONE_BITS);
        proof {
            assert(rows@.take(i + 1) =~= rows@.take(i as int) + seq![rows@[i as int]]);
            lemma_positions_of_concat(rows@.take(i as int), seq![rows@[i as int]], axis@);
            lemma_colors_of_concat(rows@.take(i as int), seq![rows@[i as int]], *palette);
            lemma_positions_of_single(rows@[i as int], axis@);
            lemma_colors_of_single(rows@[i as int], *palette);
            assert(positions@ =~= prev_positions + position_quad(rows@[i as int], axis@));
            assert(colors@ =~= prev_colors + color_quad(rows@[i as int], *palette));
        }
        i += 1;
    }
    proof {
        assert(rows@.take(rows@.len() as int) =~= rows@);
        lemma_positions_of_len(rows@, axis@);
        lemma_colors_of_len(rows@, *palette);
    }
    (positions, colors)
}

/// Transforms every row and packs the result into the position-and-colour
/// wire layout: the row count, then one four-component position vector per
/// row, then one four-component colour vector per row.
pub fn pack_gpu_buffer(rows: &Vec<TileRow>, axis: &Vec<u32>, palette: &ColorPalette) -> (r: Vec<
    u8,
>)
    requires
        rows_in_range(rows@, axis@.len() as int),
        rows@.len() <= u32::MAX,
        4 + rows@.len() * 32 <= usize::MAX,
    ensures
        r@ == gpu_buffer_bytes(rows@, axis@, *palette),
        r@.len() == 4 + 32 * rows@.len(),
{
    let (positions, colors) = build_gpu_arrays(rows, axis, palette);
    let count = rows.len() as u32;
    encode_words(count, &positions, &colors)
}

} // verus!
