use ultralogi::chunks::{ChunkBlob, ChunkStore};
use ultralogi::codec::{decode_words, encode_words};
use ultralogi::tiles::{base_palette, TileRow, ONE_BITS};

fn tile(x: i32, y: i32, tile_type: i32, elevation: f32) -> TileRow {
    TileRow { x, y, tile_type, elevation: elevation.to_bits() }
}

fn identity_axis(n: u32) -> Vec<u32> {
    (0..n).map(|i| (i as f32).to_bits()).collect()
}

#[test]
fn generate_keys_chunks_row_major() {
    let tiles = vec![tile(0, 0, 0, 0.5), tile(1, 0, 1, 1.5), tile(0, 1, 2, 2.5), tile(1, 1, 3, 3.5)];
    let mut store = ChunkStore::new();
    store.generate(&tiles, 2, 1, &identity_axis(2), &base_palette());
    assert_eq!(store.chunks.len(), 4);
    let keys: Vec<(u32, u32)> = store.chunks.iter().map(|c| (c.chunk_y, c.chunk_x)).collect();
    assert_eq!(keys, vec![(0, 0), (0, 1), (1, 0), (1, 1)]);
    for chunk in &store.chunks {
        let (count, _positions, _colors) = decode_words(&chunk.data, 4, 4).unwrap();
        assert_eq!(count, 1);
    }
}

#[test]
fn combined_count_is_the_sum_and_order_is_ascending() {
    // one tile in chunk (0, 0), two in chunk (1, 1); elevations tell the
    // chunks apart in the combined output
    let tiles = vec![tile(0, 0, 0, 10.0), tile(1, 1, 0, 20.0), tile(1, 1, 0, 30.0)];
    let mut store = ChunkStore::new();
    store.generate(&tiles, 2, 1, &identity_axis(2), &base_palette());

    let combined = store.query_combined();
    let (count, positions, _colors) = decode_words(&combined, 4, 4).unwrap();
    assert_eq!(count, 3);
    // position vectors keep (chunk_y, chunk_x) order: the lone (0, 0) row,
    // then both (1, 1) rows in source order
    let elevations: Vec<f32> =
        positions.chunks(4).map(|quad| f32::from_bits(quad[2])).collect();
    assert_eq!(elevations, vec![10.0, 20.0, 30.0]);
    for quad in positions.chunks(4) {
        assert_eq!(quad[3], ONE_BITS);
    }
}

#[test]
fn each_chunk_blob_packs_exactly_its_intervals_rows() {
    // rows interleaved across chunks; every blob must match an
    // independently packed buffer of the rows its interval keeps, in
    // source order
    let tiles = vec![
        tile(3, 0, 1, 1.0),
        tile(0, 0, 2, 2.0),
        tile(1, 1, 3, 3.0),
        tile(2, 3, 4, 4.0),
        tile(0, 1, 5, 5.0),
    ];
    let axis = identity_axis(4);
    let palette = base_palette();
    let mut store = ChunkStore::new();
    store.generate(&tiles, 4, 2, &axis, &palette);
    assert_eq!(store.chunks.len(), 4);

    for chunk in &store.chunks {
        let x0 = (chunk.chunk_x * 2) as i32;
        let y0 = (chunk.chunk_y * 2) as i32;
        let kept: Vec<TileRow> = tiles
            .iter()
            .copied()
            .filter(|t| t.x >= x0 && t.x < x0 + 2 && t.y >= y0 && t.y < y0 + 2)
            .collect();
        let expected = ultralogi::gpu::pack_gpu_buffer(&kept, &axis, &palette);
        assert_eq!(chunk.data, expected);
    }
}

#[test]
fn rows_outside_every_chunk_are_left_behind() {
    // a three-wide grid with two-wide chunks has one chunk: rows at
    // coordinate two fall outside its half-open interval
    let tiles = vec![tile(0, 0, 0, 1.0), tile(2, 2, 0, 2.0)];
    let mut store = ChunkStore::new();
    store.generate(&tiles, 3, 2, &identity_axis(3), &base_palette());
    assert_eq!(store.chunks.len(), 1);
    let (count, _positions, _colors) = decode_words(&store.chunks[0].data, 4, 4).unwrap();
    assert_eq!(count, 1);
}

#[test]
fn malformed_chunk_is_skipped_not_fatal() {
    // the middle blob's header implies more bytes than are present; the
    // valid neighbours still aggregate
    let one_row_a: Vec<u32> = vec![1, 2, 3, ONE_BITS];
    let one_row_b: Vec<u32> = vec![7, 8, 9, ONE_BITS];
    let good = encode_words(1, &one_row_a, &one_row_b);
    let mut truncated = good.clone();
    truncated[0] = 9; // claims nine rows, holds one
    let store = ChunkStore {
        chunks: vec![
            ChunkBlob { chunk_x: 0, chunk_y: 0, data: good.clone() },
            ChunkBlob { chunk_x: 1, chunk_y: 0, data: truncated },
            ChunkBlob { chunk_x: 0, chunk_y: 1, data: good.clone() },
        ],
    };
    let combined = store.query_combined();
    let (count, positions, colors) = decode_words(&combined, 4, 4).unwrap();
    assert_eq!(count, 2);
    assert_eq!(positions, vec![1, 2, 3, ONE_BITS, 1, 2, 3, ONE_BITS]);
    assert_eq!(colors, vec![7, 8, 9, ONE_BITS, 7, 8, 9, ONE_BITS]);
}

#[test]
fn empty_store_combines_to_a_bare_header() {
    let store = ChunkStore::new();
    assert_eq!(store.query_combined(), vec![0, 0, 0, 0]);
}
