//! Unsigned integers as big-endian byte strings of a fixed width.

use vstd::prelude::*;

verus! {

/// 256 to the power `n`.
pub open spec fn pow256(n: nat) -> nat
    decreases n,
{
    if n == 0 {
        1
    } else {
        256 * pow256((n - 1) as nat)
    }
}

/// The `width` low-order base-256 digits of `value`, most significant first.
pub open spec fn be_bytes(value: nat, width: nat) -> Seq<u8>
    decreases width,
{
    if width == 0 {
        Seq::empty()
    } else {
        be_bytes(value / 256, (width - 1) as nat).push((value % 256) as u8)
    }
}

/// The number whose base-256 digits, most significant first, are `bytes`.
pub open spec fn be_value(bytes: Seq<u8>) -> nat
    decreases bytes.len(),
{
    if bytes.len() == 0 {
        0
    } else {
        be_value(bytes.drop_last()) * 256 + bytes.last() as nat
    }
}

/// An encoding is exactly as wide as asked.
pub proof fn lemma_be_bytes_len(value: nat, width: nat)
    ensures
        be_bytes(value, width).len() == width,
    decreases width,
{
    if width > 0 {
        lemma_be_bytes_len(value / 256, (width - 1) as nat);
    }
}

/// A byte string of length `n` stands for a number below `256^n`.
pub proof fn lemma_be_value_bound(bytes: Seq<u8>)
    ensures
        be_value(bytes) < pow256(bytes.len()),
    decreases bytes.len(),
{
    if bytes.len() > 0 {
        lemma_be_value_bound(bytes.drop_last());
    }
}

/// Decoding an encoding gives the number back, as far as it fits the width.
pub proof fn lemma_be_value_of_bytes(value: nat, width: nat)
    requires
        value < pow256(width),
    ensures
        be_value(be_bytes(value, width)) == value,
    decreases width,
{
    if width > 0 {
        let high = be_bytes(value / 256, (width - 1) as nat);
        lemma_be_value_of_bytes(value / 256, (width - 1) as nat);
        assert(be_bytes(value, width).drop_last() =~= high);
    }
}

/// Encoding what a byte string stands for, at its own width, gives it back.
pub proof fn lemma_be_bytes_of_value(bytes: Seq<u8>)
    ensures
        be_bytes(be_value(bytes), bytes.len()) == bytes,
    decreases bytes.len(),
{
    if bytes.len() > 0 {
        lemma_be_bytes_of_value(bytes.drop_last());
    }
}

/// Two numbers that fit a width and have the same encoding are the same.
pub proof fn lemma_be_bytes_injective(a: nat, b: nat, width: nat)
    requires
        a < pow256(width),
        b < pow256(width),
        be_bytes(a, width) == be_bytes(b, width),
    ensures
        a == b,
{
    lemma_be_value_of_bytes(a, width);
    lemma_be_value_of_bytes(b, width);
}

/// The widths in use: 8 bytes span a `u64`, 16 bytes a `u128`.
pub proof fn lemma_pow256_widths()
    ensures
        pow256(8) == 0x1_0000_0000_0000_0000,
        pow256(16) == 0x1_0000_0000_0000_0000_0000_0000_0000_0000,
{
    reveal_with_fuel(pow256, 17);
}

/// `256^n` grows with `n`.
pub proof fn lemma_pow256_monotonic(low: nat, high: nat)
    requires
        low <= high,
    ensures
        pow256(low) <= pow256(high),
        pow256(low) >= 1,
    decreases high,
{
    if low < high {
        lemma_pow256_monotonic(low, (high - 1) as nat);
    } else if low > 0 {
        lemma_pow256_monotonic((low - 1) as nat, (low - 1) as nat);
    }
}

/// Appends the `width` low-order bytes of `value` to `buffer`, most
/// significant first.
pub fn push_be(buffer: &mut Vec<u8>, value: u128, width: usize)
    requires
        width <= 16,
    ensures
        final(buffer)@ == old(buffer)@ + be_bytes(value as nat, width as nat),
    decreases width,
{
    if width > 0 {
        push_be(buffer, value / 256, width - 1);
        buffer.push((value % 256) as u8);
    }
}

/// Reads the `width` bytes of `data` that start at `start` as one number.
pub fn read_be(data: &[u8], start: usize, width: usize) -> (value: u128)
    requires
        width <= 16,
        start + width <= data@.len(),
    ensures
        value as nat == be_value(data@.subrange(start as int, start + width)),
{
    let length: usize = data.len();
    let mut value: u128 = 0;
    let mut done: usize = 0;
    while done < width
        invariant
            done <= width <= 16,
            start + width <= length == data@.len(),
            value as nat == be_value(data@.subrange(start as int, start + done)),
        decreases width - done,
    {
        proof {
            let seen = data@.subrange(start as int, start + done);
            let next = data@.subrange(start as int, start + done + 1);
            lemma_be_value_bound(seen);
            lemma_pow256_monotonic(done as nat, 15);
            lemma_pow256_widths();
            assert(next.drop_last() =~= seen);
        }
        value = value * 256 + data[start + done] as u128;
        done = done + 1;
    }
    value
}

/// Appends `value` to `buffer` as 8 bytes, most significant first.
pub fn push_u64(buffer: &mut Vec<u8>, value: u64)
    ensures
        final(buffer)@ == old(buffer)@ + be_bytes(value as nat, 8),
{
    push_be(buffer, value as u128, 8);
}

/// Appends `value` to `buffer` as 16 bytes, most significant first.
pub fn push_u128(buffer: &mut Vec<u8>, value: u128)
    ensures
        final(buffer)@ == old(buffer)@ + be_bytes(value as nat, 16),
{
    push_be(buffer, value, 16);
}

/// Reads the 8 bytes of `data` that start at `start` as a `u64`.
pub fn read_u64(data: &[u8], start: usize) -> (value: u64)
    requires
        start + 8 <= data@.len(),
    ensures
        value as nat == be_value(data@.subrange(start as int, start + 8)),
{
    let wide = read_be(data, start, 8);
    proof {
        lemma_be_value_bound(data@.subrange(start as int, start + 8));
        lemma_pow256_widths();
    }
    wide as u64
}

/// Reads the 16 bytes of `data` that start at `start` as a `u128`.
pub fn read_u128(data: &[u8], start: usize) -> (value: u128)
    requires
        start + 16 <= data@.len(),
    ensures
        value as nat == be_value(data@.subrange(start as int, start + 16)),
{
    read_be(data, start, 16)
}

} // verus!
