//! What a type needs in order to be kept in a typed store.

use vstd::prelude::*;
use crate::codec::MAX_RECORD_SIZE;

verus! {

/// A value with a fixed schema that is stored as bytes.
///
/// The view of a record is its mathematical value; `encoding` says which
/// bytes stand for a value and `decoding` which value, if any, bytes stand
/// for.
pub trait Record: View + Sized {
    /// The identifier that `v` carries.
    spec fn key(v: Self::V) -> u64;

    /// The bytes that stand for `v`.
    spec fn encoding(v: Self::V) -> Seq<u8>;

    /// The value that `bytes` stand for, or `None` where they stand for none.
    spec fn decoding(bytes: Seq<u8>) -> Option<Self::V>;

    /// Decoding the encoding of a value that fits into a record gives the
    /// value back.
    proof fn lemma_round_trip(v: Self::V)
        requires
            Self::encoding(v).len() <= MAX_RECORD_SIZE,
        ensures
            Self::decoding(Self::encoding(v)) == Some(v),
    ;

    /// Bytes that stand for a value are the encoding of that value: a value
    /// has one encoding and no other.
    proof fn lemma_decoding_is_exact(bytes: Seq<u8>)
        requires
            Self::decoding(bytes) is Some,
        ensures
            Self::encoding(Self::decoding(bytes).unwrap()) == bytes,
    ;

    /// The identifier that the record carries.
    fn id(&self) -> (k: u64)
        ensures
            k == Self::key(self@),
    ;

    /// Encodes the record, or returns `None` where its encoding is longer
    /// than a record may be.
    fn encode(&self) -> (r: Option<Vec<u8>>)
        ensures
            r is Some <==> Self::encoding(self@).len() <= MAX_RECORD_SIZE,
            r is Some ==> r.unwrap()@ == Self::encoding(self@),
    ;

    /// Decodes a record, or returns `None` where `bytes` stand for none.
    fn decode(bytes: &[u8]) -> (r: Option<Self>)
        ensures
            match r {
                Some(record) => Self::decoding(bytes@) == Some(record@),
                None => Self::decoding(bytes@) is None,
            },
    ;
}

} // verus!
