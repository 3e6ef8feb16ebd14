use vstd::prelude::*;

verus! {

use crate::codec::encoded_bytes;
use crate::codec::encode_words;
use crate::tiles::TileRow;

/// Each column of the tile table as one word per row, in source row order.
/// The x, y and type columns carry two's-complement integers; the
/// elevation column carries bit patterns of single-precision values.
pub open spec fn xs_of(rows: Seq<TileRow>) -> Seq<u32> {
    rows.map_values(|t: TileRow| t.x as u32)
}

pub open spec fn ys_of(rows: Seq<TileRow>) -> Seq<u32> {
    rows.map_values(|t: TileRow| t.y as u32)
}

pub open spec fn types_of(rows: Seq<TileRow>) -> Seq<u32> {
    rows.map_values(|t: TileRow| t.tile_type as u32)
}

pub open spec fn elevations_of(rows: Seq<TileRow>) -> Seq<u32> {
    rows.map_values(|t: TileRow| t.elevation)
}

/// The untransformed column export: the row count, then the whole x column,
/// the whole y column, the whole type column, and the whole elevation
/// column, each in source row order.
pub open spec fn raw_buffer_bytes(rows: Seq<TileRow>) -> Seq<u8> {
    encoded_bytes(
        rows.len() as u32,
        xs_of(rows) + ys_of(rows) + types_of(rows),
        elevations_of(rows),
    )
}

/// Packs the tile columns unchanged into the structure-of-arrays wire
/// layout. The result is always exactly `4 + 16 * rows.len()` bytes long.
pub fn pack_raw_columns(rows: &Vec<TileRow>) -> (r: Vec<u8>)
    requires
        rows@.len() <= u32::MAX,
        4 + rows@.len() * 16 <= usize::MAX,
    ensures
        r@ == raw_buffer_bytes(rows@),
        r@.len() == 4 + 16 * rows@.len(),
{
    let mut xs: Vec<u32> = Vec::new();
    let mut ys: Vec<u32> = Vec::new();
    let mut types: Vec<u32> = Vec::new();
    let mut elevations: Vec<u32> = Vec::new();
    let mut i: usize = 0;
    while i < rows.len()
        invariant
            i <= rows@.len(),
            rows@.len() <= u32::MAX,
            xs@ == xs_of(rows@.take(i as int)),
            ys@ == ys_of(rows@.take(i as int)),
            types@ == types_of(rows@.take(i as int)),
            elevations@ == elevations_of(rows@.take(i as int)),
        decreases rows@.len() - i,
    {
        let t = rows[i];
        xs.push(#[verifier::truncate] (t.x as u32));
        ys.push(#[verifier::truncate] (t.y as u32));
        types.push(#[verifier::truncate] (t.tile_type as u32));
        elevations.push(t.elevation);
        proof {
            assert(xs@ =~= xs_of(rows@.take(i + 1)));
            assert(ys@ =~= ys_of(rows@.take(i + 1)));
            assert(types@ =~= types_of(rows@.take(i + 1)));
            assert(elevations@ =~= elevations_of(rows@.take(i + 1)));
        }
        i += 1;
    }
    proof {
        assert(rows@.take(rows@.len() as int) =~= rows@);
    }
    let mut a = xs;
    let mut ys_tail = ys;
    let mut types_tail = types;
    a.append(&mut ys_tail);
    a.append(&mut types_tail);
    let count = rows.len() as u32;
    encode_words(count, &a, &elevations)
}

} // verus!
