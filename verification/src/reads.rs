//! What the composite reads yield: for opaque bytes, strings and arrays, the
//! relation between the state before a read, its result and the state after.
use vstd::prelude::*;
use vstd::utf8::{decode_utf8, valid_utf8};
use crate::decoder::XdrState;
use crate::error::{DecodeError, XdrResult};
use crate::primitive::XdrPrimitive;
use crate::wire::padded_len;

verus! {

/// Reading one value of a primitive kind at `before` gave `r` and left the
/// decoder at `after`.
///
/// With fewer bytes left than the kind is wide, the read fails with
/// `UnexpectedEof` and consumes nothing. Otherwise it consumes exactly the
/// value's bytes, and the result is what they stand for: a value, or the error
/// of a group of bytes that stands for none.
pub open spec fn primitive_read<T: XdrPrimitive>(
    before: XdrState,
    r: XdrResult<T>,
    after: XdrState,
) -> bool {
    if T::width() <= before.remaining() {
        &&& r == T::decode(before.peek(T::width()))
        &&& after == before.skip(T::width())
    } else {
        &&& r == Err::<T, DecodeError>(DecodeError::UnexpectedEof)
        &&& after == before
    }
}

/// Reading `n` opaque bytes at `before` gave `r` and left the decoder at
/// `after`.
///
/// The data occupies `padded_len(n)` bytes. If that many remain, the result is
/// the first `n` of them and the cursor moves past data and padding, whatever
/// the padding bytes hold. Otherwise the read fails and consumes nothing.
pub open spec fn bytes_read(before: XdrState, n: nat, r: XdrResult<Vec<u8>>, after: XdrState) -> bool {
    if padded_len(n) <= before.remaining() {
        &&& r matches Ok(v) && v@ == before.peek(n)
        &&& after == before.skip(padded_len(n))
    } else {
        &&& r == Err::<Vec<u8>, DecodeError>(DecodeError::UnexpectedEof)
        &&& after == before
    }
}

/// Reading a string of `n` bytes at `before` gave `r` and left the decoder at
/// `after`.
///
/// The bytes are read as opaque data, with the same padding and the same
/// failure. Once read they stay consumed: if they are valid UTF-8 the result
/// is the text they encode, otherwise the read fails with `InvalidEncoding`
/// and the cursor has moved all the same.
pub open spec fn string_read(before: XdrState, n: nat, r: XdrResult<String>, after: XdrState) -> bool {
    if padded_len(n) <= before.remaining() {
        &&& after == before.skip(padded_len(n))
        &&& if valid_utf8(before.peek(n)) {
            r matches Ok(s) && s@ == decode_utf8(before.peek(n))
        } else {
            r == Err::<String, DecodeError>(DecodeError::InvalidEncoding)
        }
    } else {
        &&& r == Err::<String, DecodeError>(DecodeError::UnexpectedEof)
        &&& after == before
    }
}

/// The state in which element `i` of an array that starts at `start` is read,
/// if all elements before it were read.
pub open spec fn element_start<T: XdrPrimitive>(start: XdrState, i: nat) -> XdrState {
    start.skip(i * T::width())
}

/// What reading element `i` of an array that starts at `start` gives.
pub open spec fn element<T: XdrPrimitive>(start: XdrState, i: nat) -> XdrResult<T> {
    let at = element_start::<T>(start, i);
    if T::width() <= at.remaining() {
        T::decode(at.peek(T::width()))
    } else {
        Err(DecodeError::UnexpectedEof)
    }
}

/// The state that reading element `i` of an array that starts at `start`
/// leaves behind: past the element if its bytes were there, before it if not.
pub open spec fn element_end<T: XdrPrimitive>(start: XdrState, i: nat) -> XdrState {
    let at = element_start::<T>(start, i);
    if T::width() <= at.remaining() {
        at.skip(T::width())
    } else {
        at
    }
}

/// Reading an array of `count` elements at `before` gave `r` and left the
/// decoder at `after`.
///
/// The elements lie one after another from the cursor on. The read succeeds
/// exactly when every one of them can be read; it then yields them in order and
/// leaves the cursor behind the last. Otherwise it fails with the error of the
/// first element that cannot be read and leaves the cursor where that
/// element's read left it; what was read before stays consumed.
pub open spec fn array_read<T: XdrPrimitive>(
    before: XdrState,
    count: nat,
    r: XdrResult<Vec<T>>,
    after: XdrState,
) -> bool {
    match r {
        Ok(v) => {
            &&& v@.len() == count
            &&& forall|i: nat|
                i < count ==> #[trigger] element::<T>(before, i) == Ok::<T, DecodeError>(
                    v@[i as int],
                )
            &&& after == element_start::<T>(before, count)
        },
        Err(e) => exists|k: nat|
            {
                &&& k < count
                &&& first_failure::<T>(before, k)
                &&& #[trigger] element::<T>(before, k) == Err::<T, DecodeError>(e)
                &&& after == element_end::<T>(before, k)
            },
    }
}

/// Element `k` of an array that starts at `start` cannot be read, and every
/// element before it can.
pub open spec fn first_failure<T: XdrPrimitive>(start: XdrState, k: nat) -> bool {
    &&& element::<T>(start, k) is Err
    &&& forall|i: nat| i < k ==> #[trigger] element::<T>(start, i) is Ok
}

} // verus!
