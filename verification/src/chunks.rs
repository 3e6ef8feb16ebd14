use vstd::prelude::*;

verus! {

use vstd::arithmetic::div_mod::lemma_fundamental_div_mod;
use vstd::arithmetic::div_mod::lemma_div_is_ordered;
use vstd::arithmetic::mul::lemma_mul_inequality;
use crate::codec::decoded;
use crate::codec::decode_words;
use crate::codec::encoded_bytes;
use crate::codec::encode_words;
use crate::gpu::gpu_buffer_bytes;
use crate::gpu::pack_gpu_buffer;
use crate::gpu::rows_in_range;
use crate::tiles::ColorPalette;
use crate::tiles::TileRow;

/// One persisted chunk: its grid key and its immutable buffer in the
/// position-and-colour wire layout.
pub struct ChunkBlob {
    pub chunk_x: u32,
    pub chunk_y: u32,
    pub data: Vec<u8>,
}

/// The durable collection of per-chunk buffers. Writes to the source table
/// never touch it; only a full regeneration replaces its contents.
pub struct ChunkStore {
    pub chunks: Vec<ChunkBlob>,
}

/// The first key comes strictly before the second in (chunk_y, chunk_x)
/// order.
pub open spec fn key_lt(a: ChunkBlob, b: ChunkBlob) -> bool {
    a.chunk_y < b.chunk_y || (a.chunk_y == b.chunk_y && a.chunk_x < b.chunk_x)
}

/// The membership test for one chunk's half-open interval.
pub open spec fn chunk_pred(cx: int, cy: int, cs: int) -> spec_fn(TileRow) -> bool {
    |t: TileRow| cx * cs <= t.x < cx * cs + cs && cy * cs <= t.y < cy * cs + cs
}

/// The source rows that fall in one chunk's interval, in source row order.
pub open spec fn spec_chunk_rows(tiles: Seq<TileRow>, cx: int, cy: int, cs: int) -> Seq<TileRow> {
    tiles.filter(chunk_pred(cx, cy, cs))
}

/// The buffer persisted for one chunk: its rows transformed and packed in
/// the position-and-colour wire layout.
pub open spec fn spec_chunk_blob(
    tiles: Seq<TileRow>,
    cx: int,
    cy: int,
    cs: int,
    axis: Seq<u32>,
    palette: ColorPalette,
) -> Seq<u8> {
    gpu_buffer_bytes(spec_chunk_rows(tiles, cx, cy, cs), axis, palette)
}

/// The sum of the header counts of the blobs that decode; a blob whose
/// byte length falls short of its header contributes nothing.
pub open spec fn combined_count(cs: Seq<ChunkBlob>) -> int
    decreases cs.len(),
{
    if cs.len() == 0 {
        0
    } else {
        combined_count(cs.drop_last()) + (match decoded(cs.last().data@, 4, 4) {
            Some((count, _a, _b)) => count as int,
            None => 0int,
        })
    }
}

/// The position words of the blobs that decode, concatenated in store
/// order; blobs that fail to decode are skipped.
pub open spec fn combined_positions(cs: Seq<ChunkBlob>) -> Seq<u32>
    decreases cs.len(),
{
    if cs.len() == 0 {
        Seq::empty()
    } else {
        combined_positions(cs.drop_last()) + (match decoded(cs.last().data@, 4, 4) {
            Some((_count, a, _b)) => a,
            None => Seq::empty(),
        })
    }
}

/// The colour words of the blobs that decode, concatenated in store order;
/// blobs that fail to decode are skipped.
pub open spec fn combined_colors(cs: Seq<ChunkBlob>) -> Seq<u32>
    decreases cs.len(),
{
    if cs.len() == 0 {
        Seq::empty()
    } else {
        combined_colors(cs.drop_last()) + (match decoded(cs.last().data@, 4, 4) {
            Some((_count, _a, b)) => b,
            None => Seq::empty(),
        })
    }
}

pub proof fn lemma_combined_count_nonneg(cs: Seq<ChunkBlob>)
    ensures
        combined_count(cs) >= 0,
    decreases cs.len(),
{
    if cs.len() > 0 {
        lemma_combined_count_nonneg(cs.drop_last());
    }
}

/// A prefix never counts more than the whole store.
pub proof fn lemma_combined_count_prefix(cs: Seq<ChunkBlob>, i: int)
    requires
        0 <= i <= cs.len(),
    ensures
        combined_count(cs.take(i)) <= combined_count(cs),
    decreases cs.len() - i,
{
    if i == cs.len() {
        assert(cs.take(i) =~= cs);
    } else {
        lemma_combined_count_prefix(cs, i + 1);
        assert(cs.take(i + 1).drop_last() =~= cs.take(i));
    }
}

impl ChunkStore {
    /// Keys strictly ascend in (chunk_y, chunk_x) order, so no key repeats.
    pub open spec fn wf(self) -> bool {
        forall|i: int, j: int|
            0 <= i < j < self.chunks@.len() ==> key_lt(
                #[trigger] self.chunks@[i],
                #[trigger] self.chunks@[j],
            )
    }

    pub fn new() -> (r: ChunkStore)
        ensures
            r.wf(),
            r.chunks@.len() == 0,
    {
        ChunkStore { chunks: Vec::new() }
    }

    /// Reads every persisted chunk in store order, decodes each blob's
    /// header to locate its position and colour words, and emits one
    /// buffer whose count is the sum of the per-chunk counts. A blob whose
    /// byte length is smaller than its header implies is skipped, so one
    /// corrupt chunk never aborts aggregation of the rest.
    #[verifier::loop_isolation(false)]
    pub fn query_combined(&self) -> (r: Vec<u8>)
        requires
            combined_count(self.chunks@) <= u32::MAX,
            4 + combined_count(self.chunks@) * 32 <= usize::MAX,
        ensures
            r@ == encoded_bytes(
                combined_count(self.chunks@) as u32,
                combined_positions(self.chunks@),
                combined_colors(self.chunks@),
            ),
    {
        let mut count: u32 = 0;
        let mut positions: Vec<u32> = Vec::new();
        let mut colors: Vec<u32> = Vec::new();
        let mut i: usize = 0;
        proof {
            lemma_combined_count_nonneg(self.chunks@);
        }
        while i < self.chunks.len()
            invariant
                i <= self.chunks@.len(),
                count == combined_count(self.chunks@.take(i as int)),
                positions@ == combined_positions(self.chunks@.take(i as int)),
                colors@ == combined_colors(self.chunks@.take(i as int)),
                positions@.len() == 4 * count,
                colors@.len() == 4 * count,
            decreases self.chunks@.len() - i,
        {
            proof {
                assert(self.chunks@.take(i + 1).drop_last() =~= self.chunks@.take(i as int));
                lemma_combined_count_prefix(self.chunks@, i + 1);
                lemma_combined_count_nonneg(self.chunks@.take(i as int));
            }
            match decode_words(&self.chunks[i].data, 4, 4) {
                Ok((c, mut a, mut b)) => {
                    count = count + c;
                    positions.append(&mut a);
                    colors.append(&mut b);
                },
                Err(_) => {},
            }
            i += 1;
        }
        proof {
            assert(self.chunks@.take(self.chunks@.len() as int) =~= self.chunks@);
        }
        encode_words(count, &positions, &colors)
    }

    /// Partitions a square grid into disjoint chunks, transforms the rows
    /// of each chunk's half-open interval, and replaces the store with one
    /// packed blob per chunk, keyed row-major: chunk (cx, cy) sits at index
    /// `cy * (grid_size / chunk_size) + cx`, so keys ascend in
    /// (chunk_y, chunk_x) order. A full blocking batch pass, never
    /// incremental.
    #[verifier::loop_isolation(false)]
    pub fn generate(
        &mut self,
        tiles: &Vec<TileRow>,
        grid_size: u32,
        chunk_size: u32,
        axis: &Vec<u32>,
        palette: &ColorPalette,
    )
        requires
            chunk_size > 0,
            tiles@.len() <= u32::MAX,
            4 + tiles@.len() * 32 <= usize::MAX,
            axis@.len() >= grid_size,
            (grid_size / chunk_size) * (grid_size / chunk_size) <= usize::MAX,
        ensures
            final(self).wf(),
            final(self).chunks@.len() == (grid_size / chunk_size) * (grid_size / chunk_size),
            forall|k: int|
                0 <= k < final(self).chunks@.len() ==> {
                    let cps = (grid_size / chunk_size) as int;
                    let blob = #[trigger] final(self).chunks@[k];
                    &&& blob.chunk_x == k % cps
                    &&& blob.chunk_y == k / cps
                    &&& blob.data@ == spec_chunk_blob(
                        tiles@,
                        k % cps,
                        k / cps,
                        chunk_size as int,
                        axis@,
                        *palette,
                    )
                },
    {
        let cps: u32 = grid_size / chunk_size;
        proof {
            lemma_fundamental_div_mod(grid_size as int, chunk_size as int);
        }
        let mut out: Vec<ChunkBlob> = Vec::new();
        let mut cy: u32 = 0;
        while cy < cps
            invariant
                cy <= cps,
                out@.len() == cy * cps,
                forall|k: int|
                    0 <= k < out@.len() ==> {
                        let blob = #[trigger] out@[k];
                        &&& blob.chunk_x == k % (cps as int)
                        &&& blob.chunk_y == k / (cps as int)
                        &&& blob.data@ == spec_chunk_blob(
                            tiles@,
                            k % (cps as int),
                            k / (cps as int),
                            chunk_size as int,
                            axis@,
                            *palette,
                        )
                    },
            decreases cps - cy,
        {
            let mut cx: u32 = 0;
            while cx < cps
                invariant
                    cy < cps,
                    cx <= cps,
                    out@.len() == cy * cps + cx,
                    forall|k: int|
                        0 <= k < out@.len() ==> {
                            let blob = #[trigger] out@[k];
                            &&& blob.chunk_x == k % (cps as int)
                            &&& blob.chunk_y == k / (cps as int)
                            &&& blob.data@ == spec_chunk_blob(
                                tiles@,
                                k % (cps as int),
                                k / (cps as int),
                                chunk_size as int,
                                axis@,
                                *palette,
                            )
                        },
                decreases cps - cx,
            {
                proof {
                    lemma_mul_inequality(cx as int + 1, cps as int, chunk_size as int);
                    lemma_mul_inequality(cy as int + 1, cps as int, chunk_size as int);
                    vstd::arithmetic::div_mod::lemma_remainder_lower(
                        grid_size as int,
                        chunk_size as int,
                    );
                }
                let rows = rows_in_chunk(tiles, cx, cy, chunk_size);
                proof {
                    assert((cx as int + 1) * (chunk_size as int) == cx as int * (chunk_size
                        as int) + chunk_size as int) by (nonlinear_arith);
                    assert((cy as int + 1) * (chunk_size as int) == cy as int * (chunk_size
                        as int) + chunk_size as int) by (nonlinear_arith);
                    assert(rows_in_range(rows@, axis@.len() as int)) by {
                        assert forall|t: int| 0 <= t < rows@.len() implies crate::gpu::row_in_range(
                            #[trigger] rows@[t],
                            axis@.len() as int,
                        ) by {
                            tiles@.lemma_filter_pred(
                                chunk_pred(cx as int, cy as int, chunk_size as int),
                                t,
                            );
                        }
                    }
                    tiles@.lemma_filter_len(chunk_pred(cx as int, cy as int, chunk_size as int));
                }
                let blob = pack_gpu_buffer(&rows, axis, palette);
                let ghost prev = out@;
                out.push(ChunkBlob { chunk_x: cx, chunk_y: cy, data: blob });
                proof {
                    let cpsi = cps as int;
                    let k = prev.len() as int;
                    assert(k == cy * cpsi + cx);
                    assert(k % cpsi == cx && k / cpsi == cy) by {
                        vstd::arithmetic::div_mod::lemma_fundamental_div_mod_converse(
                            k,
                            cpsi,
                            cy as int,
                            cx as int,
                        );
                    }
                }
                cx += 1;
            }
            proof {
                assert((cy as int + 1) * (cps as int) == cy as int * (cps as int) + cps
                    as int) by (nonlinear_arith);
            }
            cy += 1;
        }
        proof {
            let cpsi = cps as int;
            assert forall|i: int, j: int|
                0 <= i < j < out@.len() implies key_lt(#[trigger] out@[i], #[trigger] out@[j]) by {
                lemma_div_is_ordered(i, j, cpsi);
                lemma_fundamental_div_mod(i, cpsi);
                lemma_fundamental_div_mod(j, cpsi);
            }
        }
        self.chunks = out;
    }
}

/// Collects the rows whose coordinates fall in the chunk's half-open
/// interval, keeping their source order.
#[verifier::loop_isolation(false)]
fn rows_in_chunk(tiles: &Vec<TileRow>, cx: u32, cy: u32, cs: u32) -> (r: Vec<TileRow>)
    requires
        (cx as int + 1) * (cs as int) <= u32::MAX,
        (cy as int + 1) * (cs as int) <= u32::MAX,
    ensures
        r@ == spec_chunk_rows(tiles@, cx as int, cy as int, cs as int),
{
    proof {
        assert(cx as int * (cs as int) + cs as int == (cx as int + 1) * (cs as int))
            by (nonlinear_arith);
        assert(cy as int * (cs as int) + cs as int == (cy as int + 1) * (cs as int))
            by (nonlinear_arith);
        assert(cx as int * (cs as int) >= 0 && cy as int * (cs as int) >= 0) by (nonlinear_arith)
            requires
                cx as int >= 0,
                cy as int >= 0,
                cs as int >= 0,
        ;
    }
    let x_min: u32 = cx * cs;
    let x_max: u32 = x_min + cs;
    let y_min: u32 = cy * cs;
    let y_max: u32 = y_min + cs;
    let mut out: Vec<TileRow> = Vec::new();
    let mut i: usize = 0;
    proof {
        reveal(Seq::filter);
        assert(tiles@.take(0int).filter(chunk_pred(cx as int, cy as int, cs as int))
            =~= Seq::<TileRow>::empty());
    }
    while i < tiles.len()
        invariant
            i <= tiles@.len(),
            out@ == tiles@.take(i as int).filter(chunk_pred(cx as int, cy as int, cs as int)),
        decreases tiles@.len() - i,
    {
        let t = tiles[i];
        let keep = t.x >= 0 && (t.x as u32) >= x_min && (t.x as u32) < x_max && t.y >= 0 && (t.y
            as u32) >= y_min && (t.y as u32) < y_max;
        if keep {
            out.push(t);
        }
        proof {
            reveal(Seq::filter);
            assert(tiles@.take(i + 1).drop_last() =~= tiles@.take(i as int));
            assert(tiles@.take(i + 1).last() == tiles@[i as int]);
            assert(keep == chunk_pred(cx as int, cy as int, cs as int)(tiles@[i as int]));
        }
        i += 1;
    }
    proof {
        assert(tiles@.take(tiles@.len() as int) =~= tiles@);
    }
    out
}

} // verus!
