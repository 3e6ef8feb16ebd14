use vstd::prelude::*;

verus! {

use vstd::string::StringSliceAdditionalSpecFns;
use crate::tiles::TileRow;

/// A materialized query result. Entries duplicate their row storage on the
/// way out, so a caller can never alias the cache's own copy.
pub struct CachedTable {
    pub rows: Vec<TileRow>,
}

pub struct CacheEntry {
    pub key: Vec<u8>,
    pub table: CachedTable,
}

/// Maps exact query text, as its UTF-8 bytes, to a materialized table.
/// Two queries that are semantically identical but textually different are
/// distinct keys. The version counter advances once per invalidation and
/// is read-only to callers.
pub struct ResultCache {
    pub entries: Vec<CacheEntry>,
    pub version: u64,
}

impl ResultCache {
    /// No two entries share a key.
    pub open spec fn wf(self) -> bool {
        forall|i: int, j: int|
            0 <= i < j < self.entries@.len() ==> (#[trigger] self.entries@[i].key@)
                != (#[trigger] self.entries@[j].key@)
    }

    pub open spec fn contains_query(self, k: Seq<u8>) -> bool {
        exists|i: int| 0 <= i < self.entries@.len() && (#[trigger] self.entries@[i].key@) == k
    }

    pub open spec fn lookup_rows(self, k: Seq<u8>) -> Seq<TileRow> {
        let i = choose|i: int|
            0 <= i < self.entries@.len() && (#[trigger] self.entries@[i].key@) == k;
        self.entries@[i].table.rows@
    }

    /// The cache seen as a map from query bytes to row sequences.
    pub open spec fn model(self) -> Map<Seq<u8>, Seq<TileRow>> {
        Map::new(|k: Seq<u8>| self.contains_query(k), |k: Seq<u8>| self.lookup_rows(k))
    }

    pub proof fn lemma_lookup_at(self, i: int)
        requires
            self.wf(),
            0 <= i < self.entries@.len(),
        ensures
            self.contains_query(self.entries@[i].key@),
            self.lookup_rows(self.entries@[i].key@) == self.entries@[i].table.rows@,
    {
        let k = self.entries@[i].key@;
        let j = choose|j: int|
            0 <= j < self.entries@.len() && (#[trigger] self.entries@[j].key@) == k;
        if i != j {
            assert(self.entries@[i].key@ != self.entries@[j].key@);
        }
    }

    pub fn new() -> (r: ResultCache)
        ensures
            r.wf(),
            r.entries@.len() == 0,
            r.version == 0,
            r.model() == Map::<Seq<u8>, Seq<TileRow>>::empty(),
    {
        let r = ResultCache { entries: Vec::new(), version: 0 };
        proof {
            assert(r.model() =~= Map::<Seq<u8>, Seq<TileRow>>::empty());
        }
        r
    }

    /// On a hit returns a duplicate of the stored table without touching
    /// anything else; on a miss returns nothing. A hit is exactly a stored
    /// entry whose key is the query's bytes, matched literally.
    #[verifier::loop_isolation(false)]
    pub fn lookup(&self, query: &str) -> (r: Option<CachedTable>)
        requires
            self.wf(),
        ensures
            match r {
                Some(t) => self.contains_query(query.spec_bytes()) && t.rows@
                    == self.lookup_rows(query.spec_bytes()),
                None => !self.contains_query(query.spec_bytes()),
            },
    {
        let q = query.as_bytes();
        let mut i: usize = 0;
        while i < self.entries.len()
            invariant
                self.wf(),
                i <= self.entries@.len(),
                forall|j: int| 0 <= j < i ==> (#[trigger] self.entries@[j].key@) != q@,
            decreases self.entries@.len() - i,
        {
            if bytes_eq(self.entries[i].key.as_slice(), q) {
                proof {
                    self.lemma_lookup_at(i as int);
                }
                return Some(CachedTable { rows: clone_rows(&self.entries[i].table.rows) });
            }
            i += 1;
        }
        None
    }

    /// Stores a materialized result under the query's bytes, replacing any
    /// entry with that exact key, and returns a duplicate of what was
    /// stored. The version does not move: storing is not an invalidation.
    #[verifier::loop_isolation(false)]
    pub fn store(&mut self, query: &str, rows: Vec<TileRow>) -> (r: CachedTable)
        requires
            old(self).wf(),
        ensures
            final(self).wf(),
            final(self).version == old(self).version,
            final(self).model() == old(self).model().insert(query.spec_bytes(), rows@),
            r.rows@ == rows@,
            final(self).entries@.len() == old(self).entries@.len() + (if old(
                self,
            ).contains_query(query.spec_bytes()) {
                0int
            } else {
                1int
            }),
    {
        let q = query.as_bytes();
        let dup = CachedTable { rows: clone_rows(&rows) };
        let mut i: usize = 0;
        while i < self.entries.len()
            invariant
                self.wf(),
                *self == *old(self),
                i <= self.entries@.len(),
                forall|j: int| 0 <= j < i ==> (#[trigger] self.entries@[j].key@) != q@,
            decreases self.entries@.len() - i,
        {
            if bytes_eq(self.entries[i].key.as_slice(), q) {
                proof {
                    self.lemma_lookup_at(i as int);
                }
                let key = slice_to_owned(q);
                self.entries.set(i, CacheEntry { key, table: CachedTable { rows } });
                proof {
                    assert forall|a: int, b: int|
                        0 <= a < b < self.entries@.len() implies (#[trigger] self.entries@[a].key@)
                        != (#[trigger] self.entries@[b].key@) by {
                        assert(old(self).entries@[a].key@ != old(self).entries@[b].key@);
                    }
                    assert forall|k: Seq<u8>| #[trigger]
                        self.contains_query(k) implies (k == q@ || old(self).contains_query(k)) by {
                        let w = choose|w: int|
                            0 <= w < self.entries@.len() && (#[trigger] self.entries@[w].key@)
                                == k;
                        if w != i {
                            assert(old(self).entries@[w].key@ == k);
                        }
                    }
                    assert forall|k: Seq<u8>|
                        k != q@ && #[trigger] old(self).contains_query(k) implies self.contains_query(
                        k,
                    ) && self.lookup_rows(k) == old(self).lookup_rows(k) by {
                        let w = choose|w: int|
                            0 <= w < old(self).entries@.len() && (#[trigger] old(
                                self,
                            ).entries@[w].key@) == k;
                        assert(self.entries@[w].key@ == k);
                        self.lemma_lookup_at(w);
                        old(self).lemma_lookup_at(w);
                    }
                    self.lemma_lookup_at(i as int);
                    assert(self.model() =~= old(self).model().insert(q@, rows@));
                }
                return dup;
            }
            i += 1;
        }
        let key = slice_to_owned(q);
        self.entries.push(CacheEntry { key, table: CachedTable { rows } });
        proof {
            let n = old(self).entries@.len() as int;
            assert forall|a: int, b: int|
                0 <= a < b < self.entries@.len() implies (#[trigger] self.entries@[a].key@)
                != (#[trigger] self.entries@[b].key@) by {
                if b < n {
                    assert(old(self).entries@[a].key@ != old(self).entries@[b].key@);
                } else {
                    assert(old(self).entries@[a].key@ != q@);
                }
            }
            assert forall|k: Seq<u8>| #[trigger]
                self.contains_query(k) implies (k == q@ || old(self).contains_query(k)) by {
                let w = choose|w: int|
                    0 <= w < self.entries@.len() && (#[trigger] self.entries@[w].key@) == k;
                if w < n {
                    assert(old(self).entries@[w].key@ == k);
                }
            }
            assert forall|k: Seq<u8>|
                k != q@ && #[trigger] old(self).contains_query(k) implies self.contains_query(k)
                && self.lookup_rows(k) == old(self).lookup_rows(k) by {
                let w = choose|w: int|
                    0 <= w < old(self).entries@.len() && (#[trigger] old(self).entries@[w].key@)
                        == k;
                assert(self.entries@[w].key@ == k);
                self.lemma_lookup_at(w);
                old(self).lemma_lookup_at(w);
            }
            self.lemma_lookup_at(n);
            assert(self.model() =~= old(self).model().insert(q@, rows@));
        }
        dup
    }

    /// A snapshot of the cache's size and version.
    pub fn stats(&self) -> (s: CacheStats)
        ensures
            s.version == self.version,
            s.entries == self.entries@.len(),
            s.total_rows == if spec_total_rows(self.entries@) <= u64::MAX {
                spec_total_rows(self.entries@)
            } else {
                u64::MAX as int
            },
    {
        let mut total: u64 = 0;
        let mut i: usize = 0;
        while i < self.entries.len()
            invariant
                i <= self.entries@.len(),
                total == if spec_total_rows(self.entries@.take(i as int)) <= u64::MAX {
                    spec_total_rows(self.entries@.take(i as int))
                } else {
                    u64::MAX as int
                },
            decreases self.entries@.len() - i,
        {
            proof {
                lemma_total_rows_nonneg(self.entries@.take(i as int));
                assert(self.entries@.take(i + 1).drop_last() =~= self.entries@.take(i as int));
            }
            let n = self.entries[i].table.rows.len() as u64;
            total = if total > u64::MAX - n {
                u64::MAX
            } else {
                total + n
            };
            i += 1;
        }
        proof {
            assert(self.entries@.take(self.entries@.len() as int) =~= self.entries@);
        }
        CacheStats { version: self.version, entries: self.entries.len(), total_rows: total }
    }

    /// Runs the write-invalidation rule for a statement that was just
    /// executed: when its case-insensitive leading keyword is INSERT,
    /// UPDATE, DELETE, DROP, CREATE or ALTER, the whole cache is cleared
    /// and the version advances by exactly one; any other statement leaves
    /// the cache untouched. Invalidation is coarse by design: never
    /// table-scoped.
    pub fn note_statement_executed(&mut self, sql: &str) -> (invalidated: bool)
        requires
            spec_is_write_statement(sql.spec_bytes()) ==> old(self).version < u64::MAX,
        ensures
            invalidated == spec_is_write_statement(sql.spec_bytes()),
            invalidated ==> final(self).wf(),
            invalidated ==> final(self).entries@.len() == 0,
            invalidated ==> final(self).version == old(self).version + 1,
            invalidated ==> final(self).model() == Map::<Seq<u8>, Seq<TileRow>>::empty(),
            !invalidated ==> *final(self) == *old(self),
    {
        if is_write_statement(sql) {
            self.invalidate_all();
            true
        } else {
            false
        }
    }

    /// Clears every entry and advances the version by exactly one.
    pub fn invalidate_all(&mut self)
        requires
            old(self).version < u64::MAX,
        ensures
            final(self).wf(),
            final(self).entries@.len() == 0,
            final(self).version == old(self).version + 1,
            final(self).model() == Map::<Seq<u8>, Seq<TileRow>>::empty(),
    {
        self.entries = Vec::new();
        self.version = self.version + 1;
        proof {
            assert(self.model() =~= Map::<Seq<u8>, Seq<TileRow>>::empty());
        }
    }
}

/// What `stats` reports: the invalidation count, the number of cached
/// queries, and the rows they hold together (saturating at the counter's
/// width).
#[derive(Clone, Copy, PartialEq, Eq, Structural, Debug)]
pub struct CacheStats {
    pub version: u64,
    pub entries: usize,
    pub total_rows: u64,
}

/// The rows held by a run of entries, summed.
pub open spec fn spec_total_rows(entries: Seq<CacheEntry>) -> int
    decreases entries.len(),
{
    if entries.len() == 0 {
        0
    } else {
        spec_total_rows(entries.drop_last()) + entries.last().table.rows@.len()
    }
}

pub proof fn lemma_total_rows_nonneg(entries: Seq<CacheEntry>)
    ensures
        spec_total_rows(entries) >= 0,
    decreases entries.len(),
{
    if entries.len() > 0 {
        lemma_total_rows_nonneg(entries.drop_last());
    }
}

/// A lower-case ASCII letter folded to upper case; anything else unchanged.
pub open spec fn ascii_upper(b: u8) -> u8 {
    if 97 <= b <= 122 {
        (b - 32) as u8
    } else {
        b
    }
}

/// The statement's text begins with the keyword, compared byte for byte
/// after folding the statement's side to upper case.
pub open spec fn starts_with_keyword(s: Seq<u8>, kw: Seq<u8>) -> bool {
    s.len() >= kw.len() && forall|i: int| 0 <= i < kw.len() ==> ascii_upper(#[trigger] s[i])
        == kw[i]
}

/// The invalidation rule: a statement counts as a write exactly when its
/// case-insensitive leading keyword is INSERT, UPDATE, DELETE, DROP,
/// CREATE or ALTER.
pub open spec fn spec_is_write_statement(s: Seq<u8>) -> bool {
    ||| starts_with_keyword(s, ("INSERT").spec_bytes())
    ||| starts_with_keyword(s, ("UPDATE").spec_bytes())
    ||| starts_with_keyword(s, ("DELETE").spec_bytes())
    ||| starts_with_keyword(s, ("DROP").spec_bytes())
    ||| starts_with_keyword(s, ("CREATE").spec_bytes())
    ||| starts_with_keyword(s, ("ALTER").spec_bytes())
}

/// Decides the invalidation rule on a statement's text.
pub fn is_write_statement(sql: &str) -> (r: bool)
    ensures
        r == spec_is_write_statement(sql.spec_bytes()),
{
    let bs = sql.as_bytes();
    starts_with_ci(bs, ("INSERT").as_bytes()) || starts_with_ci(bs, ("UPDATE").as_bytes())
        || starts_with_ci(bs, ("DELETE").as_bytes()) || starts_with_ci(bs, ("DROP").as_bytes())
        || starts_with_ci(bs, ("CREATE").as_bytes()) || starts_with_ci(bs, ("ALTER").as_bytes())
}

#[verifier::loop_isolation(false)]
fn starts_with_ci(s: &[u8], kw: &[u8]) -> (r: bool)
    ensures
        r == starts_with_keyword(s@, kw@),
{
    if s.len() < kw.len() {
        return false;
    }
    let mut i: usize = 0;
    while i < kw.len()
        invariant
            i <= kw@.len(),
            forall|j: int| 0 <= j < i ==> ascii_upper(#[trigger] s@[j]) == kw@[j],
        decreases kw@.len() - i,
    {
        let b = *vstd::slice::slice_index_get(s, i);
        let folded = if 97 <= b && b <= 122 {
            b - 32
        } else {
            b
        };
        if folded != *vstd::slice::slice_index_get(kw, i) {
            return false;
        }
        i += 1;
    }
    true
}

/// Law: a hit and the miss that filled it agree. Once a miss for a query
/// has materialized rows and stored them, a hit for the same query text
/// answers from the cache alone with exactly those rows.
pub proof fn lemma_hit_matches_miss(
    before: ResultCache,
    after: ResultCache,
    q: Seq<u8>,
    rows: Seq<TileRow>,
)
    requires
        after.wf(),
        after.model() == before.model().insert(q, rows),
    ensures
        after.contains_query(q),
        after.lookup_rows(q) == rows,
{
    assert(after.model().dom().contains(q));
    assert(after.model()[q] == rows);
}

/// Duplicates a row vector element for element.
pub fn clone_rows(rows: &Vec<TileRow>) -> (r: Vec<TileRow>)
    ensures
        r@ == rows@,
{
    let mut out: Vec<TileRow> = Vec::new();
    let mut i: usize = 0;
    while i < rows.len()
        invariant
            i <= rows@.len(),
            out@ == rows@.take(i as int),
        decreases rows@.len() - i,
    {
        out.push(rows[i]);
        proof {
            assert(out@ =~= rows@.take(i + 1));
        }
        i += 1;
    }
    proof {
        assert(rows@.take(rows@.len() as int) =~= rows@);
    }
    out
}

fn slice_to_owned(s: &[u8]) -> (r: Vec<u8>)
    ensures
        r@ == s@,
{
    let mut out: Vec<u8> = Vec::new();
    let mut i: usize = 0;
    while i < s.len()
        invariant
            i <= s@.len(),
            out@ == s@.take(i as int),
        decreases s@.len() - i,
    {
        out.push(*vstd::slice::slice_index_get(s, i));
        proof {
            assert(out@ =~= s@.take(i + 1));
        }
        i += 1;
    }
    proof {
        assert(s@.take(s@.len() as int) =~= s@);
    }
    out
}

fn bytes_eq(a: &[u8], b: &[u8]) -> (r: bool)
    ensures
        r == (a@ == b@),
{
    if a.len() != b.len() {
        return false;
    }
    let mut i: usize = 0;
    while i < a.len()
        invariant
            i <= a@.len(),
            a@.len() == b@.len(),
            forall|j: int| 0 <= j < i ==> a@[j] == b@[j],
        decreases a@.len() - i,
    {
        if *vstd::slice::slice_index_get(a, i) != *vstd::slice::slice_index_get(b, i) {
            return false;
        }
        i += 1;
    }
    proof {
        assert(a@ =~= b@);
    }
    true
}

} // verus!
