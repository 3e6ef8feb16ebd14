use vstd::prelude::*;

verus! {

use crate::chunks::ChunkStore;
use crate::chunks::combined_colors;
use crate::chunks::combined_count;
use crate::chunks::combined_positions;
use crate::codec::encoded_bytes;
use crate::errors::PipelineError;
use crate::gpu::gpu_buffer_bytes;
use crate::gpu::pack_gpu_buffer;
use crate::gpu::rows_in_range;
use crate::raw::pack_raw_columns;
use crate::raw::raw_buffer_bytes;
use crate::result_cache::CacheStats;
use crate::result_cache::ResultCache;
use crate::scalar::ScalarSlot;
use crate::tiles::ColorPalette;
use crate::tiles::TileRow;

/// Relies on std::time::SystemTime::now and Duration::as_millis: the wall
/// clock in milliseconds. The clock is outside the program, so nothing is
/// promised of the value.
#[verifier::external_body]
fn now_millis() -> u64 {
    match std::time::SystemTime::now().duration_since(std::time::UNIX_EPOCH) {
        Ok(d) => d.as_millis() as u64,
        Err(_) => 0,
    }
}

/// The cache tiers, each an explicitly owned object. A caller that shares
/// a pipeline across threads wraps each tier in its own critical section;
/// no operation here needs two tiers at once.
pub struct Pipeline {
    /// Maps exact query text to a materialized table; cleared wholesale by
    /// write statements.
    pub cache: ResultCache,
    /// One precomputed buffer in the position-and-colour layout.
    pub gpu: ScalarSlot,
    /// One precomputed buffer in the untransformed column layout.
    pub raw: ScalarSlot,
    /// The durable per-chunk buffers; independent of the result cache.
    pub store: ChunkStore,
}

impl Pipeline {
    pub fn new() -> (r: Pipeline)
        ensures
            r.cache.wf(),
            r.cache.entries@.len() == 0,
            r.cache.version == 0,
            r.gpu.data is None,
            r.raw.data is None,
            r.store.wf(),
            r.store.chunks@.len() == 0,
    {
        Pipeline {
            cache: ResultCache::new(),
            gpu: ScalarSlot::new(),
            raw: ScalarSlot::new(),
            store: ChunkStore::new(),
        }
    }

    /// Transforms every row and replaces the position-and-colour slot with
    /// the packed result, returning the milliseconds the pass took.
    pub fn precompute_tile_gpu_data(
        &mut self,
        tiles: &Vec<TileRow>,
        axis: &Vec<u32>,
        palette: &ColorPalette,
    ) -> (elapsed_ms: u64)
        requires
            rows_in_range(tiles@, axis@.len() as int),
            tiles@.len() <= u32::MAX,
            4 + tiles@.len() * 32 <= usize::MAX,
        ensures
            final(self).gpu.data matches Some(d) && d@ == gpu_buffer_bytes(
                tiles@,
                axis@,
                *palette,
            ),
            final(self).cache == old(self).cache,
            final(self).raw == old(self).raw,
            final(self).store == old(self).store,
    {
        let start = now_millis();
        let buffer = pack_gpu_buffer(tiles, axis, palette);
        self.gpu.store(buffer);
        let end = now_millis();
        if end > start {
            end - start
        } else {
            0
        }
    }

    /// Returns a duplicate of the precomputed position-and-colour buffer,
    /// or NotInitialized when no precompute has run; no source rows are
    /// read on this path.
    pub fn query_precomputed_tiles(&self) -> (r: Result<Vec<u8>, PipelineError>)
        ensures
            match r {
                Ok(bytes) => self.gpu.data matches Some(d) && bytes@ == d@,
                Err(e) => self.gpu.data is None && e is NotInitialized,
            },
    {
        self.gpu.fetch()
    }

    /// Copies every column untouched and replaces the raw-column slot with
    /// the packed result, returning the milliseconds the pass took.
    pub fn cache_raw_tile_data(&mut self, tiles: &Vec<TileRow>) -> (elapsed_ms: u64)
        requires
            tiles@.len() <= u32::MAX,
            4 + tiles@.len() * 16 <= usize::MAX,
        ensures
            final(self).raw.data matches Some(d) && d@ == raw_buffer_bytes(tiles@),
            final(self).cache == old(self).cache,
            final(self).gpu == old(self).gpu,
            final(self).store == old(self).store,
    {
        let start = now_millis();
        let buffer = pack_raw_columns(tiles);
        self.raw.store(buffer);
        let end = now_millis();
        if end > start {
            end - start
        } else {
            0
        }
    }

    /// Returns a duplicate of the precomputed raw-column buffer, or
    /// NotInitialized when no precompute has run.
    pub fn get_cached_raw_tiles(&self) -> (r: Result<Vec<u8>, PipelineError>)
        ensures
            match r {
                Ok(bytes) => self.raw.data matches Some(d) && bytes@ == d@,
                Err(e) => self.raw.data is None && e is NotInitialized,
            },
    {
        self.raw.fetch()
    }

    /// Regenerates the chunk store from the source rows: one packed blob
    /// per chunk of the grid, keyed row-major by (chunk_y, chunk_x).
    pub fn generate_tile_chunks(
        &mut self,
        tiles: &Vec<TileRow>,
        grid_size: u32,
        chunk_size: u32,
        axis: &Vec<u32>,
        palette: &ColorPalette,
    )
        requires
            chunk_size > 0,
            tiles@.len() <= u32::MAX,
            4 + tiles@.len() * 32 <= usize::MAX,
            axis@.len() >= grid_size,
            (grid_size / chunk_size) * (grid_size / chunk_size) <= usize::MAX,
        ensures
            final(self).store.wf(),
            final(self).store.chunks@.len() == (grid_size / chunk_size) * (grid_size
                / chunk_size),
            forall|k: int|
                0 <= k < final(self).store.chunks@.len() ==> {
                    let cps = (grid_size / chunk_size) as int;
                    let blob = #[trigger] final(self).store.chunks@[k];
                    &&& blob.chunk_x == k % cps
                    &&& blob.chunk_y == k / cps
                    &&& blob.data@ == crate::chunks::spec_chunk_blob(
                        tiles@,
                        k % cps,
                        k / cps,
                        chunk_size as int,
                        axis@,
                        *palette,
                    )
                },
            final(self).cache == old(self).cache,
            final(self).gpu == old(self).gpu,
            final(self).raw == old(self).raw,
    {
        self.store.generate(tiles, grid_size, chunk_size, axis, palette);
    }

    /// Combines every persisted chunk, in store order, into one buffer
    /// whose count is the sum of the per-chunk counts; malformed blobs are
    /// skipped.
    pub fn query_chunked_tiles(&self) -> (r: Vec<u8>)
        requires
            combined_count(self.store.chunks@) <= u32::MAX,
            4 + combined_count(self.store.chunks@) * 32 <= usize::MAX,
        ensures
            r@ == encoded_bytes(
                combined_count(self.store.chunks@) as u32,
                combined_positions(self.store.chunks@),
                combined_colors(self.store.chunks@),
            ),
    {
        self.store.query_combined()
    }

    /// The result cache's version, entry count and total cached rows.
    pub fn get_cache_stats(&self) -> (s: CacheStats)
        ensures
            s.version == self.cache.version,
            s.entries == self.cache.entries@.len(),
            s.total_rows == if crate::result_cache::spec_total_rows(self.cache.entries@)
                <= u64::MAX {
                crate::result_cache::spec_total_rows(self.cache.entries@)
            } else {
                u64::MAX as int
            },
    {
        self.cache.stats()
    }

    /// Clears the result cache and advances its version by exactly one.
    /// The chunk store and the scalar slots are untouched: only explicit
    /// regeneration replaces those.
    pub fn clear_cache(&mut self)
        requires
            old(self).cache.version < u64::MAX,
        ensures
            final(self).cache.wf(),
            final(self).cache.entries@.len() == 0,
            final(self).cache.version == old(self).cache.version + 1,
            final(self).gpu == old(self).gpu,
            final(self).raw == old(self).raw,
            final(self).store == old(self).store,
    {
        self.cache.invalidate_all();
    }
}

/// Packs the tile columns untouched for a caller that bypasses every
/// cache; the raw-column counterpart of a plain query.
pub fn export_raw_tile_data(tiles: &Vec<TileRow>) -> (r: Vec<u8>)
    requires
        tiles@.len() <= u32::MAX,
        4 + tiles@.len() * 16 <= usize::MAX,
    ensures
        r@ == raw_buffer_bytes(tiles@),
{
    pack_raw_columns(tiles)
}

} // verus!
