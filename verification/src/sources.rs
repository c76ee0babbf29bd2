//! Entity sources: models of the primary store's file and collection
//! tables. Each table keeps its records in scan order and answers one page
//! request at a time under the keyset contract: up to `limit` records
//! strictly after the cursor, in order, consistently even as other records
//! are inserted elsewhere in the stream.

use vstd::prelude::*;
use crate::paging::{lemma_filter_pairwise, pairwise};
use crate::records::{
    collection_after_cursor, collection_before, collection_views, file_after_cursor, file_before,
    file_views, lemma_collection_before_connected, lemma_collection_before_trans,
    CollectionCursor, CollectionCursorV, CollectionRecord, CollectionRecordV, FileCursor,
    FileCursorV, FileRecord, FileRecordV,
};

verus! {

/// Whether a page request with cursor `c` keeps file `f`: only ready files
/// are listed, and only those strictly after the cursor. A cursor of `None`
/// starts at the beginning of the stream.
pub open spec fn file_page_keep(f: FileRecordV, c: Option<FileCursorV>) -> bool {
    f.is_ready && match c {
        Some(cv) => file_after_cursor(f, cv),
        None => true,
    }
}

/// The page that a file scan with cursor `c` and the given limit returns,
/// out of the stream `s`: the first `limit` records that pass the filter.
pub open spec fn file_page(s: Seq<FileRecordV>, c: Option<FileCursorV>, limit: int) -> Seq<
    FileRecordV,
> {
    let kept = s.filter(|f: FileRecordV| file_page_keep(f, c));
    if kept.len() <= limit {
        kept
    } else {
        kept.take(limit)
    }
}

/// The view of an optional file cursor.
pub open spec fn file_cursor_view(c: Option<FileCursor>) -> Option<FileCursorV> {
    match c {
        Some(x) => Some(x@),
        None => None,
    }
}

/// The stream of ready files, in scan order: what a full scan from the
/// start of the stream hands out across all of its pages.
pub open spec fn ready_files(s: Seq<FileRecordV>) -> Seq<FileRecordV> {
    s.filter(|f: FileRecordV| f.is_ready)
}

/// A strictly sorted file stream: every pair of positions is in scan order.
pub open spec fn file_stream_sorted(s: Seq<FileRecordV>) -> bool {
    forall|i: int, j: int|
        0 <= i < j < s.len() ==> file_before(#[trigger] s[i], #[trigger] s[j])
}

/// A file that survives a lifecycle sweep with the given cutoff: either it
/// is ready (never swept, whatever its age) or it is younger than the
/// cutoff.
pub open spec fn survives_sweep(f: FileRecordV, cutoff: int) -> bool {
    f.is_ready || f.uploaded_at >= cutoff
}

/// The file table of the primary store, kept in scan order: newest upload
/// first, ties broken by ascending id.
#[derive(Debug)]
pub struct FileTable {
    files: Vec<FileRecord>,
}

impl View for FileTable {
    type V = Seq<FileRecordV>;

    closed spec fn view(&self) -> Seq<FileRecordV> {
        file_views(self.files@)
    }
}

impl FileTable {
    /// The table's records are strictly sorted in scan order.
    pub open spec fn wf(&self) -> bool {
        file_stream_sorted(self@)
    }

    /// An empty table.
    pub fn new() -> (t: FileTable)
        ensures
            t@ == Seq::<FileRecordV>::empty(),
            t.wf(),
    {
        let t = FileTable { files: Vec::new() };
        proof {
            assert(t@ =~= Seq::<FileRecordV>::empty());
        }
        t
    }

    /// How many records the table holds.
    pub fn len(&self) -> (n: usize)
        ensures
            n == self@.len(),
    {
        self.files.len()
    }

    /// Inserts a record with a fresh id at its position in scan order.
    pub fn insert(&mut self, f: FileRecord)
        requires
            old(self).wf(),
            forall|i: int| 0 <= i < old(self)@.len() ==> (#[trigger] old(self)@[i]).id != f@.id,
        ensures
            final(self).wf(),
            exists|k: int|
                0 <= k <= old(self)@.len() && final(self)@ == old(self)@.insert(k, f@),
    {
        let ghost s = self@;
        let ghost fv = f@;
        let mut k: usize = 0;
        while k < self.files.len()
            invariant_except_break
                self@ == s,
                fv == f@,
                0 <= k <= s.len(),
                forall|i: int| 0 <= i < k ==> !file_before(fv, #[trigger] s[i]),
            ensures
                self@ == s,
                fv == f@,
                0 <= k <= s.len(),
                forall|i: int| 0 <= i < k ==> !file_before(fv, #[trigger] s[i]),
                k < s.len() ==> file_before(fv, s[k as int]),
            decreases self.files.len() - k,
        {
            let c = &self.files[k];
            let goes_before = f.uploaded_at > c.uploaded_at || (f.uploaded_at == c.uploaded_at
                && f.id < c.id);
            proof {
                assert(c@ == s[k as int]);
                assert(goes_before == file_before(fv, s[k as int]));
            }
            if goes_before {
                break;
            }
            k = k + 1;
        }
        self.files.insert(k, f);
        proof {
            assert(self@ =~= s.insert(k as int, fv));
            let ns = self@;
            assert(forall|i: int| 0 <= i < k ==> ns[i] == s[i]);
            assert(ns[k as int] == fv);
            assert(forall|i: int| k < i < ns.len() ==> ns[i] == s[i - 1]);
            assert forall|i: int, j: int| 0 <= i < j < ns.len() implies file_before(
                #[trigger] ns[i],
                #[trigger] ns[j],
            ) by {
                if j < k as int {
                    assert(file_before(s[i], s[j]));
                } else if i < k as int && j == k as int {
                    assert(s[i].id != fv.id);
                    assert(!file_before(fv, s[i]));
                    assert(file_before(s[i], fv));
                } else if i < k as int && j > k as int {
                    assert(file_before(s[i], s[j - 1]));
                } else if i == k as int {
                    assert(file_before(fv, s[k as int]));
                    if j - 1 > k as int {
                        assert(file_before(s[k as int], s[j - 1]));
                    }
                    assert(file_before(fv, s[j - 1]));
                } else {
                    assert(file_before(s[i - 1], s[j - 1]));
                }
            }
            assert(0 <= k as int <= s.len() && self@ == s.insert(k as int, fv));
        }
    }

    /// One page of the scan: up to `limit` ready records strictly after the
    /// cursor, in scan order.
    pub fn list_page(&self, limit: usize, cursor: &Option<FileCursor>) -> (r: Vec<FileRecord>)
        ensures
            file_views(r@) == file_page(self@, file_cursor_view(*cursor), limit as int),
    {
        let ghost cv = file_cursor_view(*cursor);
        let ghost keep = |f: FileRecordV| file_page_keep(f, cv);
        let mut out: Vec<FileRecord> = Vec::new();
        let mut i: usize = 0;
        proof {
            assert(self@.take(0).filter(keep) =~= Seq::<FileRecordV>::empty()) by {
                reveal(Seq::filter);
                assert(self@.take(0) =~= Seq::<FileRecordV>::empty());
            }
            assert(file_views(out@) =~= self@.take(0).filter(keep));
        }
        while i < self.files.len() && out.len() < limit
            invariant
                0 <= i <= self@.len(),
                out@.len() <= limit,
                cv == file_cursor_view(*cursor),
                file_views(out@) == self@.take(i as int).filter(keep),
                keep == (|f: FileRecordV| file_page_keep(f, cv)),
            decreases self.files.len() - i,
        {
            let f = &self.files[i];
            proof {
                crate::paging::lemma_filter_take_step(self@, keep, i as int);
            }
            let ghost prev = out@;
            let ready = f.is_ready;
            let past_cursor = f.is_after_cursor(cursor);
            proof {
                assert(self@[i as int] == f@);
                assert((ready && past_cursor) == keep(self@[i as int]));
            }
            if ready && past_cursor {
                out.push(f.clone());
                proof {
                    assert(file_views(out@) =~= file_views(prev) + seq![self@[i as int]]);
                }
            } else {
                proof {
                    assert(file_views(out@) =~= file_views(prev) + Seq::<FileRecordV>::empty());
                }
            }
            i = i + 1;
        }
        proof {
            let kept = self@.filter(keep);
            if i == self@.len() {
                assert(self@.take(i as int) =~= self@);
                assert(file_views(out@).len() <= limit);
                assert(file_views(out@) =~= file_page(self@, cv, limit as int));
            } else {
                assert(out@.len() == limit);
                assert(self@ =~= self@.take(i as int) + self@.skip(i as int));
                Seq::filter_distributes_over_add(
                    self@.take(i as int),
                    self@.skip(i as int),
                    keep,
                );
                assert(kept == self@.take(i as int).filter(keep) + self@.skip(i as int).filter(
                    keep,
                ));
                assert(kept.len() >= limit);
                assert(file_views(out@) =~= file_page(self@, cv, limit as int));
            }
        }
        out
    }

    /// Deletes every record that is both unready and strictly older than
    /// `cutoff`; ready records survive whatever their age.
    pub fn delete_unready_before(&mut self, cutoff: i64)
        requires
            old(self).wf(),
        ensures
            final(self).wf(),
            final(self)@ == old(self)@.filter(
                |f: FileRecordV| survives_sweep(f, cutoff as int),
            ),
    {
        let ghost s = self@;
        let ghost keep = |f: FileRecordV| survives_sweep(f, cutoff as int);
        let mut out: Vec<FileRecord> = Vec::new();
        let mut i: usize = 0;
        proof {
            assert(s.take(0).filter(keep) =~= Seq::<FileRecordV>::empty()) by {
                reveal(Seq::filter);
                assert(s.take(0) =~= Seq::<FileRecordV>::empty());
            }
            assert(file_views(out@) =~= s.take(0).filter(keep));
        }
        while i < self.files.len()
            invariant
                0 <= i <= s.len(),
                self@ == s,
                file_views(out@) == s.take(i as int).filter(keep),
                keep == (|f: FileRecordV| survives_sweep(f, cutoff as int)),
            decreases self.files.len() - i,
        {
            let f = &self.files[i];
            proof {
                crate::paging::lemma_filter_take_step(s, keep, i as int);
            }
            let ghost prev = out@;
            let survives = f.is_ready || f.uploaded_at >= cutoff;
            proof {
                assert(s[i as int] == f@);
                assert(survives == keep(s[i as int]));
            }
            if survives {
                out.push(f.clone());
                proof {
                    assert(file_views(out@) =~= file_views(prev) + seq![s[i as int]]);
                }
            } else {
                proof {
                    assert(file_views(out@) =~= file_views(prev) + Seq::<FileRecordV>::empty());
                }
            }
            i = i + 1;
        }
        self.files = out;
        proof {
            assert(s.take(s.len() as int) =~= s);
            let lt = |a: FileRecordV, b: FileRecordV| file_before(a, b);
            assert(pairwise(s, lt)) by {
                assert forall|i: int, j: int| 0 <= i < j < s.len() implies #[trigger] lt(
                    s[i],
                    s[j],
                ) by {
                    assert(file_before(s[i], s[j]));
                }
            }
            lemma_filter_pairwise(s, keep, lt);
            let ns = self@;
            assert(ns == s.filter(keep));
            assert forall|i: int, j: int| 0 <= i < j < ns.len() implies file_before(
                #[trigger] ns[i],
                #[trigger] ns[j],
            ) by {
                assert(lt(ns[i], ns[j]));
            }
        }
    }
}

/// Whether a page request with cursor `c` keeps collection `r`.
pub open spec fn collection_page_keep(r: CollectionRecordV, c: Option<CollectionCursorV>) -> bool {
    match c {
        Some(cv) => collection_after_cursor(r, cv),
        None => true,
    }
}

/// The page that a collection scan with cursor `c` and the given limit
/// returns, out of the stream `s`.
pub open spec fn collection_page(
    s: Seq<CollectionRecordV>,
    c: Option<CollectionCursorV>,
    limit: int,
) -> Seq<CollectionRecordV> {
    let kept = s.filter(|r: CollectionRecordV| collection_page_keep(r, c));
    if kept.len() <= limit {
        kept
    } else {
        kept.take(limit)
    }
}

/// The view of an optional collection cursor.
pub open spec fn collection_cursor_view(c: Option<CollectionCursor>) -> Option<CollectionCursorV> {
    match c {
        Some(x) => Some(x@),
        None => None,
    }
}

/// A strictly sorted collection stream: every pair of positions is in scan
/// order.
pub open spec fn collection_stream_sorted(s: Seq<CollectionRecordV>) -> bool {
    forall|i: int, j: int|
        0 <= i < j < s.len() ==> collection_before(#[trigger] s[i], #[trigger] s[j])
}

/// The collection table of the primary store, kept in scan order: by name
/// lexicographically, ties broken by ascending id.
#[derive(Debug)]
pub struct CollectionTable {
    collections: Vec<CollectionRecord>,
}

impl View for CollectionTable {
    type V = Seq<CollectionRecordV>;

    closed spec fn view(&self) -> Seq<CollectionRecordV> {
        collection_views(self.collections@)
    }
}

impl CollectionTable {
    /// The table's records are strictly sorted in scan order.
    pub open spec fn wf(&self) -> bool {
        collection_stream_sorted(self@)
    }

    /// An empty table.
    pub fn new() -> (t: CollectionTable)
        ensures
            t@ == Seq::<CollectionRecordV>::empty(),
            t.wf(),
    {
        let t = CollectionTable { collections: Vec::new() };
        proof {
            assert(t@ =~= Seq::<CollectionRecordV>::empty());
        }
        t
    }

    /// How many records the table holds.
    pub fn len(&self) -> (n: usize)
        ensures
            n == self@.len(),
    {
        self.collections.len()
    }

    /// Inserts a record with a fresh id at its position in scan order.
    pub fn insert(&mut self, r: CollectionRecord)
        requires
            old(self).wf(),
            forall|i: int| 0 <= i < old(self)@.len() ==> (#[trigger] old(self)@[i]).id != r@.id,
        ensures
            final(self).wf(),
            exists|k: int|
                0 <= k <= old(self)@.len() && final(self)@ == old(self)@.insert(k, r@),
    {
        let ghost s = self@;
        let ghost rv = r@;
        let mut k: usize = 0;
        while k < self.collections.len()
            invariant_except_break
                self@ == s,
                rv == r@,
                0 <= k <= s.len(),
                forall|i: int| 0 <= i < k ==> !collection_before(rv, #[trigger] s[i]),
            ensures
                self@ == s,
                rv == r@,
                0 <= k <= s.len(),
                forall|i: int| 0 <= i < k ==> !collection_before(rv, #[trigger] s[i]),
                k < s.len() ==> collection_before(rv, s[k as int]),
            decreases self.collections.len() - k,
        {
            let c = &self.collections[k];
            let name_lt = crate::text::str_lt(r.name.as_str(), c.name.as_str());
            let name_eq = crate::text::str_eq(r.name.as_str(), c.name.as_str());
            let goes_before = name_lt || (name_eq && r.id < c.id);
            proof {
                assert(c@ == s[k as int]);
                assert(goes_before == collection_before(rv, s[k as int]));
            }
            if goes_before {
                break;
            }
            k = k + 1;
        }
        self.collections.insert(k, r);
        proof {
            assert(self@ =~= s.insert(k as int, rv));
            let ns = self@;
            assert(forall|i: int| 0 <= i < k ==> ns[i] == s[i]);
            assert(ns[k as int] == rv);
            assert(forall|i: int| k < i < ns.len() ==> ns[i] == s[i - 1]);
            assert forall|i: int, j: int| 0 <= i < j < ns.len() implies collection_before(
                #[trigger] ns[i],
                #[trigger] ns[j],
            ) by {
                if j < k as int {
                    assert(collection_before(s[i], s[j]));
                } else if i < k as int && j == k as int {
                    assert(s[i].id != rv.id);
                    assert(!collection_before(rv, s[i]));
                    lemma_collection_before_connected(s[i], rv);
                    assert(collection_before(s[i], rv));
                } else if i < k as int && j > k as int {
                    assert(collection_before(s[i], s[j - 1]));
                } else if i == k as int {
                    assert(collection_before(rv, s[k as int]));
                    if j - 1 > k as int {
                        assert(collection_before(s[k as int], s[j - 1]));
                        lemma_collection_before_trans(rv, s[k as int], s[j - 1]);
                    }
                    assert(collection_before(rv, s[j - 1]));
                } else {
                    assert(collection_before(s[i - 1], s[j - 1]));
                }
            }
            assert(0 <= k as int <= s.len() && self@ == s.insert(k as int, rv));
        }
    }

    /// One page of the scan: up to `limit` records strictly after the
    /// cursor, in scan order.
    pub fn list_page(&self, limit: usize, cursor: &Option<CollectionCursor>) -> (r: Vec<
        CollectionRecord,
    >)
        ensures
            collection_views(r@) == collection_page(
                self@,
                collection_cursor_view(*cursor),
                limit as int,
            ),
    {
        let ghost cv = collection_cursor_view(*cursor);
        let ghost keep = |r: CollectionRecordV| collection_page_keep(r, cv);
        let mut out: Vec<CollectionRecord> = Vec::new();
        let mut i: usize = 0;
        proof {
            assert(self@.take(0).filter(keep) =~= Seq::<CollectionRecordV>::empty()) by {
                reveal(Seq::filter);
                assert(self@.take(0) =~= Seq::<CollectionRecordV>::empty());
            }
            assert(collection_views(out@) =~= self@.take(0).filter(keep));
        }
        while i < self.collections.len() && out.len() < limit
            invariant
                0 <= i <= self@.len(),
                out@.len() <= limit,
                cv == collection_cursor_view(*cursor),
                collection_views(out@) == self@.take(i as int).filter(keep),
                keep == (|r: CollectionRecordV| collection_page_keep(r, cv)),
            decreases self.collections.len() - i,
        {
            let c = &self.collections[i];
            proof {
                crate::paging::lemma_filter_take_step(self@, keep, i as int);
            }
            let ghost prev = out@;
            let past_cursor = c.is_after_cursor(cursor);
            proof {
                assert(self@[i as int] == c@);
                assert(past_cursor == keep(self@[i as int]));
            }
            if past_cursor {
                out.push(c.clone());
                proof {
                    assert(collection_views(out@) =~= collection_views(prev) + seq![
                        self@[i as int],
                    ]);
                }
            } else {
                proof {
                    assert(collection_views(out@) =~= collection_views(prev) + Seq::<
                        CollectionRecordV,
                    >::empty());
                }
            }
            i = i + 1;
        }
        proof {
            let kept = self@.filter(keep);
            if i == self@.len() {
                assert(self@.take(i as int) =~= self@);
                assert(collection_views(out@) =~= collection_page(self@, cv, limit as int));
            } else {
                assert(out@.len() == limit);
                assert(self@ =~= self@.take(i as int) + self@.skip(i as int));
                Seq::filter_distributes_over_add(
                    self@.take(i as int),
                    self@.skip(i as int),
                    keep,
                );
                assert(kept == self@.take(i as int).filter(keep) + self@.skip(i as int).filter(
                    keep,
                ));
                assert(kept.len() >= limit);
                assert(collection_views(out@) =~= collection_page(self@, cv, limit as int));
            }
        }
        out
    }
}

/// Keyset stability, one half: a record that lands at or before an
/// already-issued cursor position never shows up in the pages of that
/// scan — wherever in the stream it was inserted, every later page request
/// with that cursor returns exactly what it would have returned anyway.
pub proof fn lemma_page_ignores_insert_before_cursor(
    s: Seq<FileRecordV>,
    k: int,
    x: FileRecordV,
    c: FileCursorV,
    limit: int,
)
    requires
        0 <= k <= s.len(),
        !file_after_cursor(x, c),
    ensures
        file_page(s.insert(k, x), Some(c), limit) == file_page(s, Some(c), limit),
{
    let keep = |f: FileRecordV| file_page_keep(f, Some(c));
    let a = s.take(k);
    let b = s.skip(k);
    assert(s.insert(k, x) =~= a + seq![x] + b);
    Seq::filter_distributes_over_add(a + seq![x], b, keep);
    Seq::filter_distributes_over_add(a, seq![x], keep);
    crate::paging::lemma_filter_singleton(x, keep);
    assert(!keep(x));
    Seq::filter_distributes_over_add(a, b, keep);
    assert(a + b =~= s);
    assert((a + seq![x] + b).filter(keep) =~= s.filter(keep));
    assert(s.insert(k, x).filter(keep) == s.filter(keep));
}

/// Keyset stability, the other half: a ready record that lands strictly
/// after an already-issued cursor position is seen by that scan — it
/// stands in the filtered remainder of the stream, so some later page
/// hands it out.
pub proof fn lemma_page_sees_insert_after_cursor(
    s: Seq<FileRecordV>,
    k: int,
    x: FileRecordV,
    c: FileCursorV,
)
    requires
        0 <= k <= s.len(),
        x.is_ready,
        file_after_cursor(x, c),
    ensures
        s.insert(k, x).filter(|f: FileRecordV| file_page_keep(f, Some(c))).contains(x),
{
    let keep = |f: FileRecordV| file_page_keep(f, Some(c));
    let a = s.take(k);
    let b = s.skip(k);
    assert(s.insert(k, x) =~= a + seq![x] + b);
    Seq::filter_distributes_over_add(a + seq![x], b, keep);
    Seq::filter_distributes_over_add(a, seq![x], keep);
    crate::paging::lemma_filter_singleton(x, keep);
    assert(keep(x));
    let kept = (a + seq![x] + b).filter(keep);
    assert(kept =~= a.filter(keep) + seq![x] + b.filter(keep));
    assert(kept[a.filter(keep).len() as int] == x);
    assert(s.insert(k, x).filter(keep).contains(x));
}

/// Keyset stability for collections, one half: a record that lands at or
/// before an already-issued cursor position never shows up in the pages of
/// that scan.
pub proof fn lemma_collection_page_ignores_insert_before_cursor(
    s: Seq<CollectionRecordV>,
    k: int,
    x: CollectionRecordV,
    c: CollectionCursorV,
    limit: int,
)
    requires
        0 <= k <= s.len(),
        !collection_after_cursor(x, c),
    ensures
        collection_page(s.insert(k, x), Some(c), limit) == collection_page(s, Some(c), limit),
{
    let keep = |r: CollectionRecordV| collection_page_keep(r, Some(c));
    let a = s.take(k);
    let b = s.skip(k);
    assert(s.insert(k, x) =~= a + seq![x] + b);
    Seq::filter_distributes_over_add(a + seq![x], b, keep);
    Seq::filter_distributes_over_add(a, seq![x], keep);
    crate::paging::lemma_filter_singleton(x, keep);
    assert(!keep(x));
    Seq::filter_distributes_over_add(a, b, keep);
    assert(a + b =~= s);
    assert((a + seq![x] + b).filter(keep) =~= s.filter(keep));
    assert(s.insert(k, x).filter(keep) == s.filter(keep));
}

/// Keyset stability for collections, the other half: a record that lands
/// strictly after an already-issued cursor position is seen by that scan.
pub proof fn lemma_collection_page_sees_insert_after_cursor(
    s: Seq<CollectionRecordV>,
    k: int,
    x: CollectionRecordV,
    c: CollectionCursorV,
)
    requires
        0 <= k <= s.len(),
        collection_after_cursor(x, c),
    ensures
        s.insert(k, x).filter(
            |r: CollectionRecordV| collection_page_keep(r, Some(c)),
        ).contains(x),
{
    let keep = |r: CollectionRecordV| collection_page_keep(r, Some(c));
    let a = s.take(k);
    let b = s.skip(k);
    assert(s.insert(k, x) =~= a + seq![x] + b);
    Seq::filter_distributes_over_add(a + seq![x], b, keep);
    Seq::filter_distributes_over_add(a, seq![x], keep);
    crate::paging::lemma_filter_singleton(x, keep);
    assert(keep(x));
    let kept = (a + seq![x] + b).filter(keep);
    assert(kept =~= a.filter(keep) + seq![x] + b.filter(keep));
    assert(kept[a.filter(keep).len() as int] == x);
    assert(s.insert(k, x).filter(keep).contains(x));
}

} // verus!
