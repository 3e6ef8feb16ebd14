use ultralogi::result_cache::{is_write_statement, ResultCache};
use ultralogi::tiles::TileRow;

fn tile(x: i32, y: i32, tile_type: i32, elevation: f32) -> TileRow {
    TileRow { x, y, tile_type, elevation: elevation.to_bits() }
}

#[test]
fn lookup_before_any_store_misses() {
    let cache = ResultCache::new();
    assert!(cache.lookup("SELECT x FROM tiles").is_none());
}

#[test]
fn hit_returns_row_identical_table() {
    // the miss path materializes and stores; the hit path answers from the
    // cache alone with the same rows
    let mut cache = ResultCache::new();
    let rows = vec![tile(0, 0, 1, 2.0), tile(1, 0, 0, 1.0)];
    let stored = cache.store("SELECT x, y, tile_type, elevation FROM tiles", rows.clone());
    assert_eq!(stored.rows, rows);
    let hit = cache.lookup("SELECT x, y, tile_type, elevation FROM tiles").unwrap();
    assert_eq!(hit.rows, rows);
}

#[test]
fn keys_are_literal_text() {
    let mut cache = ResultCache::new();
    cache.store("SELECT 1", vec![tile(0, 0, 0, 0.0)]);
    assert!(cache.lookup("SELECT 1").is_some());
    assert!(cache.lookup("select 1").is_none());
    assert!(cache.lookup("SELECT  1").is_none());
}

#[test]
fn store_replaces_an_existing_key() {
    let mut cache = ResultCache::new();
    cache.store("Q", vec![tile(0, 0, 0, 0.0)]);
    cache.store("Q", vec![tile(5, 5, 5, 5.0)]);
    let stats = cache.stats();
    assert_eq!(stats.entries, 1);
    assert_eq!(cache.lookup("Q").unwrap().rows, vec![tile(5, 5, 5, 5.0)]);
}

#[test]
fn invalidate_all_empties_and_bumps_version_once() {
    let mut cache = ResultCache::new();
    cache.store("A", vec![tile(0, 0, 0, 0.0)]);
    cache.store("B", vec![tile(1, 1, 1, 1.0), tile(2, 2, 2, 2.0)]);
    let before = cache.stats();
    assert_eq!(before.entries, 2);
    assert_eq!(before.total_rows, 3);
    cache.invalidate_all();
    let after = cache.stats();
    assert_eq!(after.entries, 0);
    assert_eq!(after.total_rows, 0);
    assert_eq!(after.version, before.version + 1);
}

#[test]
fn write_keywords_are_detected_case_insensitively() {
    assert!(is_write_statement("INSERT INTO tiles VALUES (1)"));
    assert!(is_write_statement("insert into tiles values (1)"));
    assert!(is_write_statement("Update tiles SET x = 1"));
    assert!(is_write_statement("delete from tiles"));
    assert!(is_write_statement("DROP TABLE tiles"));
    assert!(is_write_statement("create table tiles (x INTEGER)"));
    assert!(is_write_statement("alter table tiles add y INTEGER"));
}

#[test]
fn reads_and_padded_text_are_not_writes() {
    assert!(!is_write_statement("SELECT x FROM tiles"));
    assert!(!is_write_statement("EXPLAIN INSERT INTO tiles VALUES (1)"));
    // the rule reads the leading keyword literally: a leading space hides it
    assert!(!is_write_statement(" INSERT INTO tiles VALUES (1)"));
    assert!(!is_write_statement(""));
    assert!(!is_write_statement("INS"));
}

#[test]
fn write_statement_clears_the_cache_and_reads_leave_it() {
    let mut cache = ResultCache::new();
    cache.store("SELECT 1", vec![tile(0, 0, 0, 0.0)]);
    let v0 = cache.stats().version;

    let invalidated = cache.note_statement_executed("SELECT 2");
    assert!(!invalidated);
    assert_eq!(cache.stats().entries, 1);
    assert_eq!(cache.stats().version, v0);

    let invalidated = cache.note_statement_executed("insert into tiles values (9)");
    assert!(invalidated);
    assert_eq!(cache.stats().entries, 0);
    assert_eq!(cache.stats().version, v0 + 1);
}
