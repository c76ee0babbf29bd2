//! Schema-less metadata documents. Every maintenance task carries one: for
//! re-index tasks it holds the checkpoint cursor, for sweep tasks the outcome
//! of the last run. The document is an open list of named fields so that it
//! survives fields this subsystem does not know about; the host program maps
//! it to and from its on-the-wire representation.

use vstd::prelude::*;
use crate::text::str_eq;

verus! {

/// One field value of a metadata document. Entity identifiers get a value
/// kind of their own so that a checkpoint can name one exactly.
#[derive(Debug)]
pub enum MetaValue {
    Null,
    Bool(bool),
    Int(i64),
    Id(u128),
    Str(String),
}

/// The mathematical value of a [`MetaValue`].
pub enum MetaValueV {
    Null,
    Bool(bool),
    Int(int),
    Id(int),
    Str(Seq<char>),
}

impl View for MetaValue {
    type V = MetaValueV;

    open spec fn view(&self) -> MetaValueV {
        match *self {
            MetaValue::Null => MetaValueV::Null,
            MetaValue::Bool(b) => MetaValueV::Bool(b),
            MetaValue::Int(n) => MetaValueV::Int(n as int),
            MetaValue::Id(n) => MetaValueV::Id(n as int),
            MetaValue::Str(ref s) => MetaValueV::Str(s@),
        }
    }
}

impl Clone for MetaValue {
    fn clone(&self) -> (res: Self)
        ensures
            res@ == self@,
    {
        match self {
            MetaValue::Null => MetaValue::Null,
            MetaValue::Bool(b) => MetaValue::Bool(*b),
            MetaValue::Int(n) => MetaValue::Int(*n),
            MetaValue::Id(n) => MetaValue::Id(*n),
            MetaValue::Str(s) => MetaValue::Str(s.clone()),
        }
    }
}

/// A metadata document: named fields in writing order.
#[derive(Debug)]
pub struct MetaDoc {
    entries: Vec<(String, MetaValue)>,
}

impl View for MetaDoc {
    type V = Seq<(Seq<char>, MetaValueV)>;

    closed spec fn view(&self) -> Seq<(Seq<char>, MetaValueV)> {
        Seq::new(self.entries@.len(), |i: int| (self.entries@[i].0@, self.entries@[i].1@))
    }
}

impl Clone for MetaDoc {
    fn clone(&self) -> (res: Self)
        ensures
            res@ == self@,
    {
        let mut entries: Vec<(String, MetaValue)> = Vec::new();
        let mut i: usize = 0;
        while i < self.entries.len()
            invariant
                0 <= i <= self.entries.len(),
                entries@.len() == i,
                forall|j: int|
                    0 <= j < i ==> entries@[j].0@ == self.entries@[j].0@ && entries@[j].1@
                        == self.entries@[j].1@,
            decreases self.entries.len() - i,
        {
            let (k, v) = &self.entries[i];
            entries.push((k.clone(), v.clone()));
            i = i + 1;
        }
        let res = MetaDoc { entries };
        proof {
            assert(res@ =~= self@);
        }
        res
    }
}

/// The value of the field named `key`, taking the first occurrence.
pub open spec fn doc_lookup(doc: Seq<(Seq<char>, MetaValueV)>, key: Seq<char>) -> Option<
    MetaValueV,
>
    decreases doc.len(),
{
    if doc.len() == 0 {
        None
    } else if doc[0].0 == key {
        Some(doc[0].1)
    } else {
        doc_lookup(doc.drop_first(), key)
    }
}

impl MetaDoc {
    /// The document with no fields at all.
    pub fn empty() -> (d: MetaDoc)
        ensures
            d@ == Seq::<(Seq<char>, MetaValueV)>::empty(),
    {
        let d = MetaDoc { entries: Vec::new() };
        proof {
            assert(d@ =~= Seq::<(Seq<char>, MetaValueV)>::empty());
        }
        d
    }

    /// A document made of the given fields, in the given order.
    pub fn from_entries(entries: Vec<(String, MetaValue)>) -> (d: MetaDoc)
        ensures
            d@.len() == entries@.len(),
            forall|i: int|
                0 <= i < entries@.len() ==> d@[i] == (entries@[i].0@, entries@[i].1@),
    {
        MetaDoc { entries }
    }

    /// How many fields the document has.
    pub fn len(&self) -> (n: usize)
        ensures
            n == self@.len(),
    {
        self.entries.len()
    }

    /// The `i`-th field of the document, in writing order.
    pub fn entry(&self, i: usize) -> (r: &(String, MetaValue))
        requires
            i < self@.len(),
        ensures
            r.0@ == self@[i as int].0,
            r.1@ == self@[i as int].1,
    {
        &self.entries[i]
    }

    /// The first field named `key`, or `None` where the document has no such
    /// field.
    pub fn get(&self, key: &str) -> (r: Option<&MetaValue>)
        ensures
            match r {
                Some(v) => doc_lookup(self@, key@) == Some(v@),
                None => doc_lookup(self@, key@) is None,
            },
    {
        let mut i: usize = 0;
        proof {
            assert(self@.skip(0) =~= self@);
        }
        while i < self.entries.len()
            invariant
                0 <= i <= self.entries.len(),
                forall|j: int| 0 <= j < i ==> self@[j].0 != key@,
                doc_lookup(self@, key@) == doc_lookup(self@.skip(i as int), key@),
            decreases self.entries.len() - i,
        {
            let hit = str_eq(self.entries[i].0.as_str(), key);
            proof {
                assert(self@.skip(i as int)[0] == self@[i as int]);
                assert(self@.skip(i as int).drop_first() =~= self@.skip(i as int + 1));
            }
            if hit {
                return Some(&self.entries[i].1);
            }
            i = i + 1;
        }
        proof {
            assert(self@.skip(i as int).len() == 0);
        }
        None
    }
}

} // verus!
