//! The payload encoding: which bytes stand for a value, and back.

use crate::error::ErrorKind;
use vstd::prelude::*;

verus! {

/// A type whose values travel as bytes.
///
/// An encoding carries the variant's tag, and no two values share one, so a
/// payload decodes to at most one value.
pub trait Wire: Sized + View {
    /// The bytes that stand for a value.
    spec fn encoding(value: Self::V) -> Seq<u8>;

    /// No two values share an encoding.
    proof fn lemma_encoding_injective(a: Self::V, b: Self::V)
        requires
            Self::encoding(a) == Self::encoding(b),
        ensures
            a == b,
    ;

    /// Appends the value's encoding to `buffer`.
    fn write(&self, buffer: &mut Vec<u8>)
        ensures
            final(buffer)@ == old(buffer)@ + Self::encoding(self@),
    ;

    /// The value that `data` is the encoding of, if it is one.
    fn read(data: &[u8]) -> (value: Option<Self>)
        ensures
            match value {
                Some(v) => Self::encoding(v@) == data@,
                None => forall|m: Self::V| #[trigger] Self::encoding(m) != data@,
            },
    ;
}

/// Whether `data` is the encoding of `value`.
pub open spec fn encodes<T: Wire>(value: T::V, data: Seq<u8>) -> bool {
    T::encoding(value) == data
}

/// The value that `data` is the encoding of; `None` where it is the encoding
/// of none.
pub open spec fn decoded<T: Wire>(data: Seq<u8>) -> Option<T::V> {
    if exists|m: T::V| encodes::<T>(m, data) {
        Some(choose|m: T::V| encodes::<T>(m, data))
    } else {
        None
    }
}

/// Decoding the encoding of a value gives that value.
pub proof fn lemma_round_trip<T: Wire>(value: T::V)
    ensures
        decoded::<T>(T::encoding(value)) == Some(value),
{
    let data = T::encoding(value);
    assert(encodes::<T>(value, data));
    let chosen = choose|m: T::V| encodes::<T>(m, data);
    T::lemma_encoding_injective(chosen, value);
}

/// A payload that decodes is the encoding of what it decodes to.
pub proof fn lemma_decoded_encodes<T: Wire>(data: Seq<u8>)
    ensures
        decoded::<T>(data) matches Some(value) ==> T::encoding(value) == data,
{
}

/// Turns values into payloads and payloads into values.
pub struct Serializer;

impl Serializer {
    /// The encoding of `subject`, as a payload of its own.
    pub fn serialize<T: Wire>(subject: &T) -> (data: Vec<u8>)
        ensures
            data@ == T::encoding(subject@),
    {
        let mut data: Vec<u8> = Vec::new();
        subject.write(&mut data);
        data
    }

    /// Appends the encoding of `subject` to `buffer`.
    pub fn serialize_<T: Wire>(subject: &T, buffer: &mut Vec<u8>)
        ensures
            final(buffer)@ == old(buffer)@ + T::encoding(subject@),
    {
        subject.write(buffer);
    }

    /// The value that `data` encodes; `Decode` where it encodes none.
    pub fn deserialize<T: Wire>(data: &[u8]) -> (subject: Result<T, ErrorKind>)
        ensures
            match subject {
                Ok(value) => decoded::<T>(data@) == Some(value@),
                Err(error) => error == ErrorKind::Decode && decoded::<T>(data@) is None,
            },
    {
        match T::read(data) {
            Some(value) => {
                proof {
                    lemma_round_trip::<T>(value@);
                }
                Ok(value)
            },
            None => Err(ErrorKind::Decode),
        }
    }
}

} // verus!
