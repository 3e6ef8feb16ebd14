use ultralogi::errors::PipelineError;
use ultralogi::pipeline::{export_raw_tile_data, Pipeline};
use ultralogi::tiles::{base_palette, TileRow};

fn tile(x: i32, y: i32, tile_type: i32, elevation: f32) -> TileRow {
    TileRow { x, y, tile_type, elevation: elevation.to_bits() }
}

fn identity_axis(n: u32) -> Vec<u32> {
    (0..n).map(|i| (i as f32).to_bits()).collect()
}

#[test]
fn fetch_before_precompute_is_not_initialized() {
    let pipeline = Pipeline::new();
    assert!(matches!(pipeline.query_precomputed_tiles(), Err(PipelineError::NotInitialized)));
    assert!(matches!(pipeline.get_cached_raw_tiles(), Err(PipelineError::NotInitialized)));
}

#[test]
fn precompute_then_fetch_returns_the_packed_buffer() {
    let mut pipeline = Pipeline::new();
    let tiles = vec![tile(0, 0, 1, 2.0), tile(1, 1, 0, 1.0)];
    let axis = identity_axis(2);
    pipeline.precompute_tile_gpu_data(&tiles, &axis, &base_palette());
    let fetched = pipeline.query_precomputed_tiles().unwrap();
    let expected = ultralogi::gpu::pack_gpu_buffer(&tiles, &axis, &base_palette());
    assert_eq!(fetched, expected);
}

#[test]
fn precompute_overwrites_wholesale() {
    let mut pipeline = Pipeline::new();
    let axis = identity_axis(4);
    let first = vec![tile(0, 0, 0, 1.0), tile(1, 1, 1, 2.0), tile(2, 2, 2, 3.0)];
    let second = vec![tile(3, 3, 3, 4.0)];
    pipeline.precompute_tile_gpu_data(&first, &axis, &base_palette());
    pipeline.precompute_tile_gpu_data(&second, &axis, &base_palette());
    let fetched = pipeline.query_precomputed_tiles().unwrap();
    let expected = ultralogi::gpu::pack_gpu_buffer(&second, &axis, &base_palette());
    assert_eq!(fetched, expected);
}

#[test]
fn raw_export_and_raw_cache_agree() {
    let mut pipeline = Pipeline::new();
    let tiles = vec![tile(-2, 3, 4, 2.5), tile(7, -8, 9, -1.5)];
    pipeline.cache_raw_tile_data(&tiles);
    let cached = pipeline.get_cached_raw_tiles().unwrap();
    assert_eq!(cached, export_raw_tile_data(&tiles));
}

#[test]
fn raw_layout_is_column_major_two_complement() {
    let tiles = vec![tile(-1, 2, 3, 1.0), tile(4, -5, 6, 2.0)];
    let bytes = export_raw_tile_data(&tiles);
    let mut expected: Vec<u8> = Vec::new();
    expected.extend_from_slice(&2u32.to_le_bytes());
    expected.extend_from_slice(&(-1i32).to_le_bytes());
    expected.extend_from_slice(&4i32.to_le_bytes());
    expected.extend_from_slice(&2i32.to_le_bytes());
    expected.extend_from_slice(&(-5i32).to_le_bytes());
    expected.extend_from_slice(&3i32.to_le_bytes());
    expected.extend_from_slice(&6i32.to_le_bytes());
    expected.extend_from_slice(&1.0f32.to_le_bytes());
    expected.extend_from_slice(&2.0f32.to_le_bytes());
    assert_eq!(bytes, expected);
}

#[test]
fn chunk_generation_and_combined_query_through_the_facade() {
    let mut pipeline = Pipeline::new();
    let tiles = vec![tile(0, 0, 0, 1.0), tile(1, 0, 1, 2.0)];
    pipeline.generate_tile_chunks(&tiles, 2, 1, &identity_axis(2), &base_palette());
    let combined = pipeline.query_chunked_tiles();
    let (count, _positions, _colors) =
        ultralogi::codec::decode_words(&combined, 4, 4).unwrap();
    assert_eq!(count, 2);
}

#[test]
fn writes_do_not_invalidate_chunks_or_scalar_slots() {
    let mut pipeline = Pipeline::new();
    let tiles = vec![tile(0, 0, 0, 1.0)];
    let axis = identity_axis(1);
    pipeline.precompute_tile_gpu_data(&tiles, &axis, &base_palette());
    pipeline.generate_tile_chunks(&tiles, 1, 1, &axis, &base_palette());
    pipeline.cache.store("SELECT 1", tiles.clone());

    pipeline.cache.note_statement_executed("INSERT INTO tiles VALUES (0)");

    assert_eq!(pipeline.get_cache_stats().entries, 0);
    assert!(pipeline.query_precomputed_tiles().is_ok());
    assert_eq!(pipeline.store.chunks.len(), 1);
}

#[test]
fn clear_cache_advances_the_version_by_one() {
    let mut pipeline = Pipeline::new();
    pipeline.cache.store("A", vec![tile(0, 0, 0, 0.0)]);
    let v0 = pipeline.get_cache_stats().version;
    pipeline.clear_cache();
    let stats = pipeline.get_cache_stats();
    assert_eq!(stats.entries, 0);
    assert_eq!(stats.version, v0 + 1);
}
