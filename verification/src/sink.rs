//! Index sink models: what the search index has been asked to upsert. The
//! sink keeps the batches in arrival order as one flat log, which is what
//! the coverage argument for a full re-index speaks about: over a complete
//! drain, the log grows by every entity of the stream, each exactly once.
//! Upserting is idempotent in the real index, so a retried batch after a
//! failure is harmless there; the log records what was pushed and accepted.

use vstd::prelude::*;
use crate::records::{
    collection_views, file_views, CollectionRecord, CollectionRecordV, FileRecord, FileRecordV,
};

verus! {

/// The file documents pushed into the search index, in arrival order.
#[derive(Debug)]
pub struct FileIndexSink {
    log: Vec<FileRecord>,
}

impl View for FileIndexSink {
    type V = Seq<FileRecordV>;

    closed spec fn view(&self) -> Seq<FileRecordV> {
        file_views(self.log@)
    }
}

impl FileIndexSink {
    /// A sink that has received nothing yet.
    pub fn new() -> (s: FileIndexSink)
        ensures
            s@ == Seq::<FileRecordV>::empty(),
    {
        let s = FileIndexSink { log: Vec::new() };
        proof {
            assert(s@ =~= Seq::<FileRecordV>::empty());
        }
        s
    }

    /// How many documents the sink has accepted.
    pub fn len(&self) -> (n: usize)
        ensures
            n == self@.len(),
    {
        self.log.len()
    }

    /// The `i`-th accepted document.
    pub fn entry(&self, i: usize) -> (r: &FileRecord)
        requires
            i < self@.len(),
        ensures
            r@ == self@[i as int],
    {
        &self.log[i]
    }

    /// Accepts one whole batch, in order.
    pub fn upsert_batch(&mut self, batch: &Vec<FileRecord>)
        ensures
            final(self)@ == old(self)@ + file_views(batch@),
    {
        let ghost prev = self@;
        let mut i: usize = 0;
        while i < batch.len()
            invariant
                0 <= i <= batch@.len(),
                self@ == prev + file_views(batch@).take(i as int),
            decreases batch.len() - i,
        {
            let ghost pre = self@;
            let item = batch[i].clone();
            let ghost iv = item@;
            self.log.push(item);
            proof {
                assert(iv == file_views(batch@)[i as int]);
                assert(self@ =~= pre.push(iv));
                assert(file_views(batch@).take(i + 1) =~= file_views(batch@).take(
                    i as int,
                ).push(iv));
                assert(self@ =~= prev + file_views(batch@).take(i + 1));
            }
            i = i + 1;
        }
        proof {
            assert(file_views(batch@).take(batch@.len() as int) =~= file_views(batch@));
        }
    }
}

/// The collection documents pushed into the search index, in arrival order.
#[derive(Debug)]
pub struct CollectionIndexSink {
    log: Vec<CollectionRecord>,
}

impl View for CollectionIndexSink {
    type V = Seq<CollectionRecordV>;

    closed spec fn view(&self) -> Seq<CollectionRecordV> {
        collection_views(self.log@)
    }
}

impl CollectionIndexSink {
    /// A sink that has received nothing yet.
    pub fn new() -> (s: CollectionIndexSink)
        ensures
            s@ == Seq::<CollectionRecordV>::empty(),
    {
        let s = CollectionIndexSink { log: Vec::new() };
        proof {
            assert(s@ =~= Seq::<CollectionRecordV>::empty());
        }
        s
    }

    /// How many documents the sink has accepted.
    pub fn len(&self) -> (n: usize)
        ensures
            n == self@.len(),
    {
        self.log.len()
    }

    /// The `i`-th accepted document.
    pub fn entry(&self, i: usize) -> (r: &CollectionRecord)
        requires
            i < self@.len(),
        ensures
            r@ == self@[i as int],
    {
        &self.log[i]
    }

    /// Accepts one whole batch, in order.
    pub fn upsert_batch(&mut self, batch: &Vec<CollectionRecord>)
        ensures
            final(self)@ == old(self)@ + collection_views(batch@),
    {
        let ghost prev = self@;
        let mut i: usize = 0;
        while i < batch.len()
            invariant
                0 <= i <= batch@.len(),
                self@ == prev + collection_views(batch@).take(i as int),
            decreases batch.len() - i,
        {
            let ghost pre = self@;
            let item = batch[i].clone();
            let ghost iv = item@;
            self.log.push(item);
            proof {
                assert(iv == collection_views(batch@)[i as int]);
                assert(self@ =~= pre.push(iv));
                assert(collection_views(batch@).take(i + 1) =~= collection_views(batch@).take(
                    i as int,
                ).push(iv));
                assert(self@ =~= prev + collection_views(batch@).take(i + 1));
            }
            i = i + 1;
        }
        proof {
            assert(collection_views(batch@).take(batch@.len() as int) =~= collection_views(
                batch@,
            ));
        }
    }
}

} // verus!
