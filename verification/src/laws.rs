//! Laws of the decoder: facts that hold of every read, stated over the
//! relations that the reads' contracts use.
use vstd::prelude::*;
use crate::decoder::XdrState;
use crate::error::{DecodeError, XdrResult};
use crate::primitive::XdrPrimitive;
use crate::reads::{
    array_read, bytes_read, element, element_end, element_start, first_failure, primitive_read,
};
use crate::wire::{be_nat, pad_len, padded_len};

verus! {

/// A decoder that is not read from stays where it is.
pub proof fn lemma_follows_reflexive(s: XdrState)
    requires
        s.in_bounds(),
    ensures
        s.follows(s),
{
}

/// The cursor never moves back over any sequence of reads: if one state
/// follows another and a third follows that one, the third follows the first.
/// Every read of the decoder leaves a state that follows the one it found,
/// whether it succeeds or fails.
pub proof fn lemma_follows_transitive(first: XdrState, second: XdrState, third: XdrState)
    requires
        second.follows(first),
        third.follows(second),
    ensures
        third.follows(first),
        first.cursor <= second.cursor <= third.cursor <= first.buffer.len(),
{
}

/// The weight of the byte that stands `places` bytes before the last: 256
/// raised to `places`.
pub open spec fn scale(places: int) -> nat
    decreases places,
{
    if places <= 0 {
        1
    } else {
        scale(places - 1) * 256
    }
}

/// A sequence of bytes read big-endian is its first byte, scaled, plus the
/// rest: the first byte is the most significant one.
pub proof fn lemma_be_nat_first(bytes: Seq<u8>)
    requires
        bytes.len() > 0,
    ensures
        be_nat(bytes) == bytes[0] as nat * scale(bytes.len() - 1) + be_nat(
            bytes.subrange(1, bytes.len() as int),
        ),
    decreases bytes.len(),
{
    let tail = bytes.subrange(1, bytes.len() as int);
    if bytes.len() == 1 {
        assert(be_nat(bytes.drop_last()) == 0);
        assert(scale(0) == 1);
    } else {
        lemma_be_nat_first(bytes.drop_last());
        assert(bytes.drop_last().subrange(1, bytes.len() - 1) =~= tail.drop_last());
        assert(scale(bytes.len() - 1) == scale(bytes.len() - 2) * 256);
        let hi = bytes[0] as nat;
        let mid = be_nat(tail.drop_last());
        let s = scale(bytes.len() - 2);
        assert((hi * s + mid) * 256 == hi * (s * 256) + mid * 256) by (nonlinear_arith);
    }
}

/// A sequence of `k` bytes denotes a number below 256 to the power `k`.
pub proof fn lemma_be_nat_bound(bytes: Seq<u8>)
    ensures
        be_nat(bytes) < scale(bytes.len() as int),
    decreases bytes.len(),
{
    if bytes.len() > 0 {
        lemma_be_nat_bound(bytes.drop_last());
        assert(scale(bytes.len() as int) == scale(bytes.len() - 1) * 256);
    }
}

/// A primitive read fails for want of bytes exactly one byte short of its
/// width: from a fresh decoder over a buffer one byte shorter than the kind is
/// wide it fails with `UnexpectedEof` and consumes nothing, and over a buffer
/// exactly as long as the kind is wide it yields what the whole buffer stands
/// for and leaves the cursor at the end.
pub proof fn lemma_eof_boundary<T: XdrPrimitive>(before: XdrState, r: XdrResult<T>, after: XdrState)
    requires
        before.cursor == 0,
        primitive_read::<T>(before, r, after),
    ensures
        before.buffer.len() == T::width() - 1 ==> r == Err::<T, DecodeError>(
            DecodeError::UnexpectedEof,
        ) && after.cursor == 0,
        before.buffer.len() == T::width() ==> r == T::decode(before.buffer) && after.cursor
            == T::width() && after.remaining() == 0,
{
    if before.buffer.len() == T::width() {
        assert(before.peek(T::width()) =~= before.buffer);
    }
}

/// A primitive read either consumes nothing or exactly the width of its kind,
/// and it consumes nothing exactly when it fails for want of bytes.
pub proof fn lemma_primitive_read_step<T: XdrPrimitive>(
    before: XdrState,
    r: XdrResult<T>,
    after: XdrState,
)
    requires
        before.in_bounds(),
        primitive_read::<T>(before, r, after),
    ensures
        after.follows(before),
        after.cursor == before.cursor || after.cursor == before.cursor + T::width(),
        before.remaining() < T::width() ==> after == before,
        r is Ok ==> after.cursor == before.cursor + T::width(),
{
}

/// Reading element `i` of an array is a primitive read at the place where
/// that element starts.
pub proof fn lemma_element_is_primitive_read<T: XdrPrimitive>(start: XdrState, i: nat)
    ensures
        primitive_read::<T>(
            element_start::<T>(start, i),
            element::<T>(start, i),
            element_end::<T>(start, i),
        ),
{
}

/// Opaque data that fits is returned whole and consumed with its padding:
/// reading `n` bytes yields exactly the `n` bytes at the cursor and moves the
/// cursor by `n + pad_len(n)`.
pub proof fn lemma_bytes_read_fits(before: XdrState, n: nat, r: XdrResult<Vec<u8>>, after: XdrState)
    requires
        before.in_bounds(),
        bytes_read(before, n, r, after),
        padded_len(n) <= before.remaining(),
    ensures
        r is Ok,
        r->Ok_0@.len() == n,
        forall|i: int| 0 <= i < n ==> r->Ok_0@[i] == before.buffer[before.cursor + i],
        after.buffer == before.buffer,
        after.cursor == before.cursor + n + pad_len(n),
        after.in_bounds(),
{
}

/// Opaque data that does not fit with its padding is not read at all: the read
/// fails with `UnexpectedEof` and the decoder is unchanged, even where the
/// data alone would have fitted.
pub proof fn lemma_bytes_read_short(before: XdrState, n: nat, r: XdrResult<Vec<u8>>, after: XdrState)
    requires
        bytes_read(before, n, r, after),
        padded_len(n) > before.remaining(),
    ensures
        r == Err::<Vec<u8>, DecodeError>(DecodeError::UnexpectedEof),
        after == before,
{
}

/// An array read succeeds exactly when each of its elements can be read.
pub proof fn lemma_array_read_ok_iff<T: XdrPrimitive>(
    before: XdrState,
    count: nat,
    r: XdrResult<Vec<T>>,
    after: XdrState,
)
    requires
        array_read::<T>(before, count, r, after),
    ensures
        r is Ok <==> forall|i: nat| i < count ==> #[trigger] element::<T>(before, i) is Ok,
{
    if r is Err {
        let k = choose|k: nat|
            {
                &&& k < count
                &&& first_failure::<T>(before, k)
                &&& #[trigger] element::<T>(before, k) == Err::<T, DecodeError>(r->Err_0)
                &&& after == element_end::<T>(before, k)
            };
        assert(element::<T>(before, k) is Err);
    }
}

/// What an array read yields is determined by the bytes: two reads of
/// `count` elements from the same state end in the same state, with the same
/// elements or the same error.
pub proof fn lemma_array_read_deterministic<T: XdrPrimitive>(
    before: XdrState,
    count: nat,
    r1: XdrResult<Vec<T>>,
    after1: XdrState,
    r2: XdrResult<Vec<T>>,
    after2: XdrState,
)
    requires
        array_read::<T>(before, count, r1, after1),
        array_read::<T>(before, count, r2, after2),
    ensures
        after1 == after2,
        r1 is Ok <==> r2 is Ok,
        r1 is Ok ==> r1->Ok_0@ == r2->Ok_0@,
        r1 is Err ==> r1->Err_0 == r2->Err_0,
{
    lemma_array_read_ok_iff::<T>(before, count, r1, after1);
    lemma_array_read_ok_iff::<T>(before, count, r2, after2);
    if r1 is Ok {
        let v1 = r1->Ok_0@;
        let v2 = r2->Ok_0@;
        assert forall|i: int| 0 <= i < v1.len() implies v1[i] == v2[i] by {
            assert(element::<T>(before, i as nat) == Ok::<T, DecodeError>(v1[i]));
            assert(element::<T>(before, i as nat) == Ok::<T, DecodeError>(v2[i]));
        }
        assert(v1 =~= v2);
    } else {
        let k1 = choose|k: nat|
            {
                &&& k < count
                &&& first_failure::<T>(before, k)
                &&& #[trigger] element::<T>(before, k) == Err::<T, DecodeError>(r1->Err_0)
                &&& after1 == element_end::<T>(before, k)
            };
        let k2 = choose|k: nat|
            {
                &&& k < count
                &&& first_failure::<T>(before, k)
                &&& #[trigger] element::<T>(before, k) == Err::<T, DecodeError>(r2->Err_0)
                &&& after2 == element_end::<T>(before, k)
            };
        if k1 < k2 {
            assert(element::<T>(before, k1) is Ok);
        }
        if k2 < k1 {
            assert(element::<T>(before, k2) is Ok);
        }
        assert(k1 == k2);
    }
}

/// For a kind whose every bit pattern is a value, such as the integers, an
/// array read depends on room alone: it succeeds exactly when `count` elements
/// fit in what is left. When they do not, it fails with `UnexpectedEof` and
/// has consumed every whole element that was there.
pub proof fn lemma_array_read_room<T: XdrPrimitive>(
    before: XdrState,
    count: nat,
    r: XdrResult<Vec<T>>,
    after: XdrState,
)
    requires
        before.in_bounds(),
        T::width() > 0,
        forall|word: Seq<u8>| #[trigger] T::decode(word) is Ok,
        array_read::<T>(before, count, r, after),
    ensures
        r is Ok <==> count * T::width() <= before.remaining(),
        r is Ok ==> after == before.skip(count * T::width()),
        r is Err ==> r->Err_0 == DecodeError::UnexpectedEof && after == before.skip(
            (before.remaining() / T::width()) * T::width(),
        ),
{
    let w = T::width();
    let room = before.remaining();
    assert forall|i: nat| #[trigger] element::<T>(before, i) is Ok <==> (i + 1) * w <= room by {
        assert((i + 1) * w == i * w + w) by (nonlinear_arith);
        let at = element_start::<T>(before, i);
        if w <= at.remaining() {
            assert(T::decode(at.peek(w)) is Ok);
        }
    }
    match r {
        Ok(v) => {
            if count > 0 {
                let last = (count - 1) as nat;
                assert(element::<T>(before, last) is Ok);
                assert((last + 1) * w == count * w);
            } else {
                assert(count * w == 0) by (nonlinear_arith)
                    requires
                        count == 0,
                ;
            }
        },
        Err(e) => {
            let k = choose|k: nat|
                {
                    &&& k < count
                    &&& first_failure::<T>(before, k)
                    &&& #[trigger] element::<T>(before, k) == Err::<T, DecodeError>(e)
                    &&& after == element_end::<T>(before, k)
                };
            assert(element::<T>(before, k) is Err);
            assert((k + 1) * w > room);
            if k > 0 {
                let prev = (k - 1) as nat;
                assert(element::<T>(before, prev) is Ok);
                assert((prev + 1) * w == k * w);
            } else {
                assert(k * w == 0) by (nonlinear_arith)
                    requires
                        k == 0,
                ;
            }
            assert(k * w <= room);
            assert((k + 1) * w == k * w + w) by (nonlinear_arith);
            assert(k == room / w) by (nonlinear_arith)
                requires
                    k * w <= room,
                    k * w + w > room,
                    w > 0,
            ;
            assert((k + 1) * w <= count * w) by (nonlinear_arith)
                requires
                    k + 1 <= count,
            ;
        },
    }
}

} // verus!
