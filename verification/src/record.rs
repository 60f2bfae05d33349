//! The unit of data that moves between a topic and an external system.

use vstd::prelude::*;

verus! {

/// A record: a value, an optional key, and the position it was read from.
///
/// A record has no identity beyond its place in the sequence that produced it.
#[derive(Debug, Clone, PartialEq, Eq)]
pub struct Record {
    pub value: Vec<u8>,
    pub key: Option<Vec<u8>>,
    pub offset: i64,
    pub partition: i32,
}

/// The mathematical content of a [`Record`].
pub struct RecordView {
    pub value: Seq<u8>,
    pub key: Option<Seq<u8>>,
    pub offset: int,
    pub partition: int,
}

/// The view of an optional byte string.
pub open spec fn bytes_opt_view(b: Option<Vec<u8>>) -> Option<Seq<u8>> {
    match b {
        Some(v) => Some(v@),
        None => None,
    }
}

/// The views of the records of a sequence, in order.
pub open spec fn records_view(rs: Seq<Record>) -> Seq<RecordView> {
    Seq::new(rs.len(), |i: int| rs[i]@)
}

impl View for Record {
    type V = RecordView;

    open spec fn view(&self) -> RecordView {
        RecordView {
            value: self.value@,
            key: bytes_opt_view(self.key),
            offset: self.offset as int,
            partition: self.partition as int,
        }
    }
}

/// Copies a byte string.
pub fn copy_bytes(src: &Vec<u8>) -> (dst: Vec<u8>)
    ensures
        dst@ == src@,
{
    let mut dst: Vec<u8> = Vec::new();
    let mut i: usize = 0;
    while i < src.len()
        invariant
            i <= src.len(),
            dst@ == src@.subrange(0, i as int),
        decreases src.len() - i,
    {
        dst.push(src[i]);
        i += 1;
        assert(dst@ == src@.subrange(0, i as int));
    }
    assert(src@.subrange(0, src.len() as int) == src@);
    dst
}

impl Record {
    /// A record with the given value, key and position.
    pub fn new(value: Vec<u8>, key: Option<Vec<u8>>, offset: i64, partition: i32) -> (r: Record)
        ensures
            r@ == (RecordView {
                value: value@,
                key: bytes_opt_view(key),
                offset: offset as int,
                partition: partition as int,
            }),
    {
        Record { value, key, offset, partition }
    }

    /// A record without a key, as a source of plain lines produces it.
    pub fn keyless(value: Vec<u8>, offset: i64) -> (r: Record)
        ensures
            r@ == (RecordView { value: value@, key: None, offset: offset as int, partition: 0 }),
    {
        Record { value, key: None, offset, partition: 0 }
    }

    /// The value of the record.
    pub fn value(&self) -> (v: &Vec<u8>)
        ensures
            v@ == self@.value,
    {
        &self.value
    }

    /// The key of the record, if it has one.
    pub fn key(&self) -> (k: Option<&Vec<u8>>)
        ensures
            k is Some <==> self@.key is Some,
            k matches Some(b) ==> Some(b@) == self@.key,
    {
        match &self.key {
            Some(b) => Some(b),
            None => None,
        }
    }

    /// The key of the record, or the empty byte string where it has none.
    pub fn key_or_empty(&self) -> (k: Vec<u8>)
        ensures
            k@ == match self@.key {
                Some(b) => b,
                None => Seq::<u8>::empty(),
            },
    {
        match &self.key {
            Some(b) => copy_bytes(b),
            None => Vec::new(),
        }
    }

    /// The offset at which the source held the record.
    pub fn offset(&self) -> (o: i64)
        ensures
            o == self@.offset,
    {
        self.offset
    }

    /// The partition from which the source read the record.
    pub fn partition(&self) -> (p: i32)
        ensures
            p == self@.partition,
    {
        self.partition
    }

    /// A copy of the record.
    pub fn duplicate(&self) -> (r: Record)
        ensures
            r@ == self@,
    {
        let key = match &self.key {
            Some(b) => Some(copy_bytes(b)),
            None => None,
        };
        Record { value: copy_bytes(&self.value), key, offset: self.offset, partition: self.partition }
    }
}

} // verus!
