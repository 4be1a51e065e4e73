//! Big-endian integer fields, as they stand on the wire.

use vstd::prelude::*;

verus! {

/// The number that a big-endian byte string denotes.
pub open spec fn be_value(bytes: Seq<u8>) -> nat
    decreases bytes.len(),
{
    if bytes.len() == 0 {
        0
    } else {
        be_value(bytes.drop_last()) * 256 + bytes.last() as nat
    }
}

/// The big-endian byte string of `width` bytes for `value`. Where `value`
/// needs more than `width` bytes, its high part is left out.
pub open spec fn be_bytes(value: nat, width: nat) -> Seq<u8>
    decreases width,
{
    if width == 0 {
        Seq::empty()
    } else {
        be_bytes(value / 256, (width - 1) as nat).push((value % 256) as u8)
    }
}

/// How many values fit in `width` bytes: 256 to the power `width`.
pub open spec fn span(width: nat) -> nat
    decreases width,
{
    if width == 0 {
        1
    } else {
        256 * span((width - 1) as nat)
    }
}

/// A byte string of `width` bytes comes out, whatever the value.
pub proof fn lemma_be_bytes_len(value: nat, width: nat)
    ensures
        be_bytes(value, width).len() == width,
    decreases width,
{
    if width > 0 {
        lemma_be_bytes_len(value / 256, (width - 1) as nat);
    }
}

/// A byte string denotes a number below the span of its length.
pub proof fn lemma_be_value_bound(bytes: Seq<u8>)
    ensures
        be_value(bytes) < span(bytes.len()),
    decreases bytes.len(),
{
    if bytes.len() > 0 {
        lemma_be_value_bound(bytes.drop_last());
    }
}

/// Reading back what was written gives the value, if it fits the width.
pub proof fn lemma_be_value_of_bytes(value: nat, width: nat)
    requires
        value < span(width),
    ensures
        be_value(be_bytes(value, width)) == value,
    decreases width,
{
    if width > 0 {
        lemma_be_value_of_bytes(value / 256, (width - 1) as nat);
        assert(be_bytes(value, width).drop_last() =~= be_bytes(value / 256, (width - 1) as nat));
    }
}

/// Writing what was read gives the same bytes.
pub proof fn lemma_be_bytes_of_value(bytes: Seq<u8>)
    ensures
        be_bytes(be_value(bytes), bytes.len()) == bytes,
    decreases bytes.len(),
{
    if bytes.len() > 0 {
        lemma_be_bytes_of_value(bytes.drop_last());
        assert(be_value(bytes) / 256 == be_value(bytes.drop_last()));
    }
}

/// The unsigned number whose 32 bits are those of `x` in two's complement.
pub open spec fn unsigned_of_i32(x: i32) -> nat {
    if x >= 0 {
        x as nat
    } else {
        (x + 0x1_0000_0000) as nat
    }
}

/// The signed number whose two's-complement bits are those of `n`.
pub open spec fn i32_of_unsigned(n: nat) -> i32
    recommends
        n < 0x1_0000_0000,
{
    if n < 0x8000_0000 {
        n as i32
    } else {
        (n - 0x1_0000_0000) as i32
    }
}

/// Four bytes span 2^32 values and eight bytes 2^64.
pub proof fn lemma_span_of_fields()
    ensures
        span(4) == 0x1_0000_0000,
        span(8) == 0x1_0000_0000_0000_0000,
{
    reveal_with_fuel(span, 9);
}

/// The bits of a signed field, as the unsigned number that is written.
pub fn i32_to_field(x: i32) -> (n: u32)
    ensures
        n == unsigned_of_i32(x),
{
    if x >= 0 {
        x as u32
    } else {
        (x as i64 + 0x1_0000_0000) as u32
    }
}

/// The signed number that an unsigned field read from the wire stands for.
pub fn i32_from_field(n: u32) -> (x: i32)
    ensures
        x == i32_of_unsigned(n as nat),
{
    if n < 0x8000_0000 {
        n as i32
    } else {
        (n as i64 - 0x1_0000_0000) as i32
    }
}

/// Appends `value` to `out` as four bytes, most significant first.
pub fn put_be_u32(out: &mut Vec<u8>, value: u32)
    ensures
        final(out)@ == old(out)@ + be_bytes(value as nat, 4),
{
    let b0: u8 = (value / 0x100_0000) as u8;
    let b1: u8 = (value / 0x1_0000 % 256) as u8;
    let b2: u8 = (value / 0x100 % 256) as u8;
    let b3: u8 = (value % 256) as u8;
    out.push(b0);
    out.push(b1);
    out.push(b2);
    out.push(b3);
    proof {
        reveal_with_fuel(be_bytes, 5);
    }
}

/// Appends `value` to `out` as eight bytes, most significant first.
pub fn put_be_u64(out: &mut Vec<u8>, value: u64)
    ensures
        final(out)@ == old(out)@ + be_bytes(value as nat, 8),
{
    let b0: u8 = (value / 0x100_0000_0000_0000) as u8;
    let b1: u8 = (value / 0x1_0000_0000_0000 % 256) as u8;
    let b2: u8 = (value / 0x100_0000_0000 % 256) as u8;
    let b3: u8 = (value / 0x1_0000_0000 % 256) as u8;
    let b4: u8 = (value / 0x100_0000 % 256) as u8;
    let b5: u8 = (value / 0x1_0000 % 256) as u8;
    let b6: u8 = (value / 0x100 % 256) as u8;
    let b7: u8 = (value % 256) as u8;
    out.push(b0);
    out.push(b1);
    out.push(b2);
    out.push(b3);
    out.push(b4);
    out.push(b5);
    out.push(b6);
    out.push(b7);
    proof {
        reveal_with_fuel(be_bytes, 9);
    }
}

/// Reads the four bytes of `bytes` from `at` on as a big-endian number.
pub fn get_be_u32(bytes: &[u8], at: usize) -> (value: u32)
    requires
        at + 4 <= bytes.len(),
    ensures
        value == be_value(bytes@.subrange(at as int, at + 4)),
{
    let b0: u32 = bytes[at] as u32;
    let b1: u32 = bytes[at + 1] as u32;
    let b2: u32 = bytes[at + 2] as u32;
    let b3: u32 = bytes[at + 3] as u32;
    proof {
        let field = bytes@.subrange(at as int, at + 4);
        let f3 = field.drop_last();
        let f2 = f3.drop_last();
        let f1 = f2.drop_last();
        assert(be_value(f1.drop_last()) == 0);
        assert(be_value(f1) == b0);
        assert(be_value(f2) == b0 * 256 + b1);
        assert(be_value(f3) == (b0 * 256 + b1) * 256 + b2);
    }
    b0 * 0x100_0000 + b1 * 0x1_0000 + b2 * 0x100 + b3
}

/// Reads the eight bytes of `bytes` from `at` on as a big-endian number.
pub fn get_be_u64(bytes: &[u8], at: usize) -> (value: u64)
    requires
        at + 8 <= bytes.len(),
    ensures
        value == be_value(bytes@.subrange(at as int, at + 8)),
{
    let high: u32 = get_be_u32(bytes, at);
    let low: u32 = get_be_u32(bytes, at + 4);
    proof {
        let field = bytes@.subrange(at as int, at + 8);
        assert(bytes@.subrange(at as int, at + 4) =~= field.subrange(0, 4));
        assert(bytes@.subrange(at + 4, at + 8) =~= field.subrange(4, 8));
        lemma_be_value_concat(field.subrange(0, 4), field.subrange(4, 8));
        assert(field.subrange(0, 4) + field.subrange(4, 8) =~= field);
        lemma_span_of_fields();
    }
    high as u64 * 0x1_0000_0000 + low as u64
}

/// A byte string followed by another denotes the first number shifted left
/// by the second's length, plus the second number.
pub proof fn lemma_be_value_concat(high: Seq<u8>, low: Seq<u8>)
    ensures
        be_value(high + low) == be_value(high) * span(low.len()) + be_value(low),
    decreases low.len(),
{
    if low.len() == 0 {
        assert(high + low =~= high);
        assert(span(low.len()) == 1);
    } else {
        let front = low.drop_last();
        lemma_be_value_concat(high, front);
        assert((high + low).drop_last() =~= high + front);
        let h = be_value(high) as int;
        let s = span(front.len()) as int;
        assert(h * (256 * s) == (h * s) * 256) by (nonlinear_arith);
    }
}

} // verus!
