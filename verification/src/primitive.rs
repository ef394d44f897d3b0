//! The primitive kinds that a decoder can read: fixed-width items whose value
//! is a function of their bytes alone.
use vstd::prelude::*;
use crate::decoder::Xdr;
use crate::error::{DecodeError, XdrResult};
use crate::wire::{
    be_i32, be_i64, be_u32, be_u64, lemma_be_nat_double_word, lemma_be_nat_word, to_signed32,
    to_signed64,
};

verus! {

/// A kind of value that occupies a fixed number of bytes on the wire.
///
/// An implementation names that number, says which value (or which error) a
/// group of that many bytes stands for, and reads one such group from a
/// decoder: with too few bytes left the read fails and consumes nothing,
/// otherwise it consumes exactly the group, whether or not the bytes stand for
/// a value.
pub trait XdrPrimitive: Sized {
    /// The number of bytes that one value occupies.
    spec fn width() -> nat;

    /// The value that `word`, a group of `width()` bytes, stands for.
    spec fn decode(word: Seq<u8>) -> XdrResult<Self>;

    /// Reads one value at the cursor of `x`. The second argument only selects
    /// the implementing type; pass `None`.
    fn read_from_xdr(x: &mut Xdr, _kind: Option<Self>) -> (r: XdrResult<Self>)
        ensures
            final(x)@.follows(old(x)@),
            old(x)@.remaining() < Self::width() ==> r == Err::<Self, DecodeError>(
                DecodeError::UnexpectedEof,
            ) && final(x)@ == old(x)@,
            old(x)@.remaining() >= Self::width() ==> r == Self::decode(
                old(x)@.peek(Self::width()),
            ) && final(x)@ == old(x)@.skip(Self::width()),
    ;
}

/// The boolean that a word's value stands for: 0 is `false`, 1 is `true`, and
/// nothing else is a boolean.
pub open spec fn bool_of_word(v: u32) -> XdrResult<bool> {
    if v == 0 {
        Ok(false)
    } else if v == 1 {
        Ok(true)
    } else {
        Err(DecodeError::InvalidBoolean(v))
    }
}

impl XdrPrimitive for u32 {
    open spec fn width() -> nat {
        4
    }

    open spec fn decode(word: Seq<u8>) -> XdrResult<u32> {
        Ok(be_u32(word))
    }

    fn read_from_xdr(x: &mut Xdr, _kind: Option<u32>) -> (r: XdrResult<u32>) {
        x.read_be_u32()
    }
}

impl XdrPrimitive for i32 {
    open spec fn width() -> nat {
        4
    }

    open spec fn decode(word: Seq<u8>) -> XdrResult<i32> {
        Ok(be_i32(word))
    }

    fn read_from_xdr(x: &mut Xdr, _kind: Option<i32>) -> (r: XdrResult<i32>) {
        match x.read_be_u32() {
            Ok(v) => {
                proof {
                    lemma_be_nat_word(old(x)@.peek(4));
                }
                Ok(to_signed32(v))
            },
            Err(e) => Err(e),
        }
    }
}

impl XdrPrimitive for u64 {
    open spec fn width() -> nat {
        8
    }

    open spec fn decode(word: Seq<u8>) -> XdrResult<u64> {
        Ok(be_u64(word))
    }

    fn read_from_xdr(x: &mut Xdr, _kind: Option<u64>) -> (r: XdrResult<u64>) {
        x.read_be_u64()
    }
}

impl XdrPrimitive for i64 {
    open spec fn width() -> nat {
        8
    }

    open spec fn decode(word: Seq<u8>) -> XdrResult<i64> {
        Ok(be_i64(word))
    }

    fn read_from_xdr(x: &mut Xdr, _kind: Option<i64>) -> (r: XdrResult<i64>) {
        match x.read_be_u64() {
            Ok(v) => {
                proof {
                    lemma_be_nat_double_word(old(x)@.peek(8));
                }
                Ok(to_signed64(v))
            },
            Err(e) => Err(e),
        }
    }
}

impl XdrPrimitive for bool {
    open spec fn width() -> nat {
        4
    }

    open spec fn decode(word: Seq<u8>) -> XdrResult<bool> {
        bool_of_word(be_u32(word))
    }

    fn read_from_xdr(x: &mut Xdr, _kind: Option<bool>) -> (r: XdrResult<bool>) {
        match x.read_be_u32() {
            Ok(0) => Ok(false),
            Ok(1) => Ok(true),
            Ok(v) => Err(DecodeError::InvalidBoolean(v)),
            Err(e) => Err(e),
        }
    }
}

} // verus!
