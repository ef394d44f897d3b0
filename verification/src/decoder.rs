//! The decoder: a byte buffer, a read cursor, and the typed reads on them.
use vstd::prelude::*;
use vstd::utf8::{decode_utf8, valid_utf8};
use crate::error::{DecodeError, XdrResult};
use crate::primitive::{bool_of_word, XdrPrimitive};
use crate::reads::{
    array_read, bytes_read, element, element_start, first_failure, primitive_read, string_read,
};
use crate::wire::{
    be_i32, be_i64, be_u32, be_u32_at, be_u64, be_u64_at, lemma_padded_len, PADDING_MULTIPLE,
};

verus! {

/// What a decoder is, mathematically: the bytes it was given and how many of
/// them it has consumed.
pub struct XdrState {
    /// The bytes supplied at construction.
    pub buffer: Seq<u8>,
    /// The offset of the next byte to read.
    pub cursor: nat,
}

impl XdrState {
    /// The cursor stands inside the buffer or at its end.
    pub open spec fn in_bounds(self) -> bool {
        self.cursor <= self.buffer.len()
    }

    /// The number of bytes between the cursor and the end of the buffer.
    pub open spec fn remaining(self) -> nat {
        if self.cursor <= self.buffer.len() {
            (self.buffer.len() - self.cursor) as nat
        } else {
            0
        }
    }

    /// The next `n` bytes at the cursor.
    pub open spec fn peek(self, n: nat) -> Seq<u8>
        recommends
            n <= self.remaining(),
    {
        self.buffer.subrange(self.cursor as int, (self.cursor + n) as int)
    }

    /// The same buffer with the cursor moved `n` bytes on.
    pub open spec fn skip(self, n: nat) -> XdrState {
        XdrState { buffer: self.buffer, cursor: self.cursor + n }
    }

    /// This state can be reached from `earlier` by reading: the buffer is the
    /// same, the cursor has not moved back, and it is still in bounds.
    pub open spec fn follows(self, earlier: XdrState) -> bool {
        &&& self.buffer == earlier.buffer
        &&& earlier.cursor <= self.cursor
        &&& self.in_bounds()
    }
}

/// A buffer of XDR-encoded bytes and the position up to which it has been
/// decoded.
pub struct Xdr {
    buffer: Vec<u8>,
    cursor: usize,
}

impl View for Xdr {
    type V = XdrState;

    closed spec fn view(&self) -> XdrState {
        XdrState { buffer: self.buffer@, cursor: self.cursor as nat }
    }
}

impl Xdr {
    #[verifier::type_invariant]
    spec fn cursor_in_buffer(&self) -> bool {
        self.cursor <= self.buffer@.len()
    }

    /// Creates a decoder that reads a copy of `data` from its first byte.
    pub fn new(data: &[u8]) -> (x: Xdr)
        ensures
            x@.buffer == data@,
            x@.cursor == 0,
    {
        let mut buffer: Vec<u8> = Vec::new();
        let mut i: usize = 0;
        while i < data.len()
            invariant
                i <= data@.len(),
                buffer@ == data@.subrange(0, i as int),
            decreases data@.len() - i,
        {
            buffer.push(data[i]);
            i += 1;
            assert(buffer@ =~= data@.subrange(0, i as int));
        }
        assert(buffer@ =~= data@);
        Xdr { buffer, cursor: 0 }
    }

    /// The offset of the next byte to read.
    pub fn cursor(&self) -> (at: usize)
        ensures
            at == self@.cursor,
            self@.in_bounds(),
    {
        proof {
            use_type_invariant(self);
        }
        self.cursor
    }

    /// The number of bytes that have not been read yet.
    pub fn remaining(&self) -> (n: usize)
        ensures
            n == self@.remaining(),
            self@.in_bounds(),
    {
        proof {
            use_type_invariant(self);
        }
        self.buffer.len() - self.cursor
    }

    /// Reads one big-endian word of four bytes.
    pub(crate) fn read_be_u32(&mut self) -> (r: XdrResult<u32>)
        ensures
            final(self)@.follows(old(self)@),
            old(self)@.remaining() < 4 ==> r == Err::<u32, DecodeError>(DecodeError::UnexpectedEof)
                && final(self)@ == old(self)@,
            old(self)@.remaining() >= 4 ==> r == Ok::<u32, DecodeError>(be_u32(old(self)@.peek(4)))
                && final(self)@ == old(self)@.skip(4),
    {
        proof {
            use_type_invariant(&*self);
        }
        if self.buffer.len() - self.cursor < 4 {
            return Err(DecodeError::UnexpectedEof);
        }
        let v = be_u32_at(&self.buffer, self.cursor);
        self.cursor = self.cursor + 4;
        Ok(v)
    }

    /// Reads one big-endian number of eight bytes.
    pub(crate) fn read_be_u64(&mut self) -> (r: XdrResult<u64>)
        ensures
            final(self)@.follows(old(self)@),
            old(self)@.remaining() < 8 ==> r == Err::<u64, DecodeError>(DecodeError::UnexpectedEof)
                && final(self)@ == old(self)@,
            old(self)@.remaining() >= 8 ==> r == Ok::<u64, DecodeError>(be_u64(old(self)@.peek(8)))
                && final(self)@ == old(self)@.skip(8),
    {
        proof {
            use_type_invariant(&*self);
        }
        if self.buffer.len() - self.cursor < 8 {
            return Err(DecodeError::UnexpectedEof);
        }
        let v = be_u64_at(&self.buffer, self.cursor);
        self.cursor = self.cursor + 8;
        Ok(v)
    }

    /// Reads one value of a primitive kind: `u32`, `i32`, `u64`, `i64` or
    /// `bool`.
    ///
    /// With fewer bytes left than the kind is wide, the read fails with
    /// `UnexpectedEof` and consumes nothing. Otherwise the cursor moves past
    /// the value's bytes and the result is what they stand for.
    pub fn unpack_primitive<T: XdrPrimitive>(&mut self) -> (r: XdrResult<T>)
        ensures
            final(self)@.follows(old(self)@),
            primitive_read::<T>(old(self)@, r, final(self)@),
    {
        T::read_from_xdr(self, None)
    }

    /// Reads a 32-bit unsigned integer.
    pub fn unpack_uint(&mut self) -> (r: XdrResult<u32>)
        ensures
            final(self)@.follows(old(self)@),
            old(self)@.remaining() < 4 ==> r == Err::<u32, DecodeError>(DecodeError::UnexpectedEof)
                && final(self)@ == old(self)@,
            old(self)@.remaining() >= 4 ==> r == Ok::<u32, DecodeError>(be_u32(old(self)@.peek(4)))
                && final(self)@ == old(self)@.skip(4),
    {
        self.unpack_primitive()
    }

    /// Reads a 32-bit signed integer in two's complement.
    pub fn unpack_int(&mut self) -> (r: XdrResult<i32>)
        ensures
            final(self)@.follows(old(self)@),
            old(self)@.remaining() < 4 ==> r == Err::<i32, DecodeError>(DecodeError::UnexpectedEof)
                && final(self)@ == old(self)@,
            old(self)@.remaining() >= 4 ==> r == Ok::<i32, DecodeError>(be_i32(old(self)@.peek(4)))
                && final(self)@ == old(self)@.skip(4),
    {
        self.unpack_primitive()
    }

    /// Reads a 64-bit unsigned integer.
    pub fn unpack_ulong(&mut self) -> (r: XdrResult<u64>)
        ensures
            final(self)@.follows(old(self)@),
            old(self)@.remaining() < 8 ==> r == Err::<u64, DecodeError>(DecodeError::UnexpectedEof)
                && final(self)@ == old(self)@,
            old(self)@.remaining() >= 8 ==> r == Ok::<u64, DecodeError>(be_u64(old(self)@.peek(8)))
                && final(self)@ == old(self)@.skip(8),
    {
        self.unpack_primitive()
    }

    /// Reads a 64-bit signed integer in two's complement.
    pub fn unpack_long(&mut self) -> (r: XdrResult<i64>)
        ensures
            final(self)@.follows(old(self)@),
            old(self)@.remaining() < 8 ==> r == Err::<i64, DecodeError>(DecodeError::UnexpectedEof)
                && final(self)@ == old(self)@,
            old(self)@.remaining() >= 8 ==> r == Ok::<i64, DecodeError>(be_i64(old(self)@.peek(8)))
                && final(self)@ == old(self)@.skip(8),
    {
        self.unpack_primitive()
    }

    /// Reads a boolean: a word that holds 0 for `false` or 1 for `true`.
    ///
    /// A word with any other value is consumed and rejected with
    /// `InvalidBoolean`, which carries the value.
    pub fn unpack_boolean(&mut self) -> (r: XdrResult<bool>)
        ensures
            final(self)@.follows(old(self)@),
            old(self)@.remaining() < 4 ==> r == Err::<bool, DecodeError>(
                DecodeError::UnexpectedEof,
            ) && final(self)@ == old(self)@,
            old(self)@.remaining() >= 4 ==> r == bool_of_word(be_u32(old(self)@.peek(4)))
                && final(self)@ == old(self)@.skip(4),
    {
        self.unpack_primitive()
    }

    /// Reads `num_bytes` bytes of opaque data and skips the padding that
    /// fills their last word.
    ///
    /// The padding bytes are not inspected. If data and padding together do
    /// not fit in what is left, the read fails with `UnexpectedEof` and
    /// consumes nothing.
    pub fn unpack_bytes(&mut self, num_bytes: usize) -> (r: XdrResult<Vec<u8>>)
        ensures
            final(self)@.follows(old(self)@),
            bytes_read(old(self)@, num_bytes as nat, r, final(self)@),
    {
        proof {
            use_type_invariant(&*self);
            lemma_padded_len(num_bytes as nat);
        }
        let left: usize = self.buffer.len() - self.cursor;
        if num_bytes > left {
            return Err(DecodeError::UnexpectedEof);
        }
        let padding: usize = (PADDING_MULTIPLE - num_bytes % PADDING_MULTIPLE) % PADDING_MULTIPLE;
        if padding > left - num_bytes {
            return Err(DecodeError::UnexpectedEof);
        }
        let start: usize = self.cursor;
        let mut data: Vec<u8> = Vec::new();
        let mut i: usize = 0;
        while i < num_bytes
            invariant
                i <= num_bytes,
                start + num_bytes <= self.buffer.len(),
                data@ == self.buffer@.subrange(start as int, start + i),
            decreases num_bytes - i,
        {
            data.push(self.buffer[start + i]);
            i += 1;
            assert(data@ =~= self.buffer@.subrange(start as int, start + i));
        }
        self.cursor = start + num_bytes + padding;
        Ok(data)
    }

    /// Reads opaque data whose length is given by a word in front of it.
    ///
    /// If the length word itself is cut short, the read fails with
    /// `UnexpectedEof` and consumes nothing. If the data is cut short, it fails
    /// with `UnexpectedEof` too, and the length word stays consumed.
    pub fn unpack_varlen_bytes(&mut self) -> (r: XdrResult<Vec<u8>>)
        ensures
            final(self)@.follows(old(self)@),
            old(self)@.remaining() < 4 ==> r == Err::<Vec<u8>, DecodeError>(
                DecodeError::UnexpectedEof,
            ) && final(self)@ == old(self)@,
            old(self)@.remaining() >= 4 ==> bytes_read(
                old(self)@.skip(4),
                be_u32(old(self)@.peek(4)) as nat,
                r,
                final(self)@,
            ),
    {
        match self.unpack_uint() {
            Ok(len) => self.unpack_bytes(len as usize),
            Err(e) => Err(e),
        }
    }

    /// Reads a UTF-8 string whose length in bytes is given by a word in front
    /// of it.
    ///
    /// A cut-short length word or body fails as in `unpack_varlen_bytes`. A body
    /// that is not valid UTF-8 fails with `InvalidEncoding` after its bytes
    /// have been consumed.
    pub fn unpack_string(&mut self) -> (r: XdrResult<String>)
        ensures
            final(self)@.follows(old(self)@),
            old(self)@.remaining() < 4 ==> r == Err::<String, DecodeError>(
                DecodeError::UnexpectedEof,
            ) && final(self)@ == old(self)@,
            old(self)@.remaining() >= 4 ==> string_read(
                old(self)@.skip(4),
                be_u32(old(self)@.peek(4)) as nat,
                r,
                final(self)@,
            ),
    {
        match self.unpack_varlen_bytes() {
            Ok(bytes) => match string_from_utf8(bytes) {
                Some(text) => Ok(text),
                None => Err(DecodeError::InvalidEncoding),
            },
            Err(e) => Err(e),
        }
    }

    /// Reads `num_elements` values of one primitive kind, one after another.
    ///
    /// The read stops at the first element that cannot be read and fails with
    /// that element's error. No part of the array is returned then, and the
    /// elements read before it stay consumed.
    pub fn unpack_array<T: XdrPrimitive>(&mut self, num_elements: usize) -> (r: XdrResult<Vec<T>>)
        ensures
            final(self)@.follows(old(self)@),
            array_read::<T>(old(self)@, num_elements as nat, r, final(self)@),
    {
        proof {
            use_type_invariant(&*self);
        }
        let ghost start = self@;
        let mut items: Vec<T> = Vec::new();
        let mut i: usize = 0;
        while i < num_elements
            invariant
                i <= num_elements,
                start == old(self)@,
                self@.follows(start),
                self@ == element_start::<T>(start, i as nat),
                items@.len() == i,
                forall|j: nat|
                    j < i ==> #[trigger] element::<T>(start, j) == Ok::<T, DecodeError>(
                        items@[j as int],
                    ),
            decreases num_elements - i,
        {
            proof {
                assert((i + 1) * T::width() == i * T::width() + T::width()) by (nonlinear_arith);
            }
            match self.unpack_primitive::<T>() {
                Ok(item) => {
                    items.push(item);
                },
                Err(e) => {
                    proof {
                        assert(first_failure::<T>(start, i as nat));
                    }
                    return Err(e);
                },
            }
            i += 1;
        }
        Ok(items)
    }

    /// Reads an array whose number of elements is given by a word in front of
    /// it.
    ///
    /// If the count word is cut short, the read fails with `UnexpectedEof` and
    /// consumes nothing. The count is not held against the bytes that are
    /// left: a count that the buffer cannot satisfy fails with `UnexpectedEof`
    /// at the first element that is missing.
    pub fn unpack_varlen_array<T: XdrPrimitive>(&mut self) -> (r: XdrResult<Vec<T>>)
        ensures
            final(self)@.follows(old(self)@),
            old(self)@.remaining() < 4 ==> r == Err::<Vec<T>, DecodeError>(
                DecodeError::UnexpectedEof,
            ) && final(self)@ == old(self)@,
            old(self)@.remaining() >= 4 ==> array_read::<T>(
                old(self)@.skip(4),
                be_u32(old(self)@.peek(4)) as nat,
                r,
                final(self)@,
            ),
    {
        match self.unpack_uint() {
            Ok(len) => self.unpack_array(len as usize),
            Err(e) => Err(e),
        }
    }
}

/// Calls `String::from_utf8` of the standard library, which is not verified
/// here. The contract claims what its documentation says: the call succeeds
/// exactly when the bytes are valid UTF-8, and the string it then returns is
/// the text that those bytes encode.
#[verifier::external_body]
fn string_from_utf8(bytes: Vec<u8>) -> (r: Option<String>)
    ensures
        r is Some <==> valid_utf8(bytes@),
        r matches Some(s) ==> s@ == decode_utf8(bytes@),
{
    match String::from_utf8(bytes) {
        Ok(text) => Some(text),
        Err(_) => None,
    }
}

} // verus!
