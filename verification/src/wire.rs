//! Numbers and byte runs as they lie in a record's bytes.
//!
//! Every multi-byte number of a record is little-endian: byte `i` of the
//! number weighs `256^i`.

use vstd::arithmetic::div_mod::{lemma_div_denominator, lemma_fundamental_div_mod};
use vstd::prelude::*;

verus! {

/// `256^n`.
pub open spec fn pow256(n: nat) -> nat
    decreases n,
{
    if n == 0 {
        1
    } else {
        256 * pow256((n - 1) as nat)
    }
}

/// The number that `bytes` spell, least significant byte first.
pub open spec fn le_value(bytes: Seq<u8>) -> nat
    decreases bytes.len(),
{
    if bytes.len() == 0 {
        0
    } else {
        bytes[0] as nat + 256 * le_value(bytes.drop_first())
    }
}

/// The number spelled by the `len` bytes of `bytes` that start at `at`.
pub open spec fn le_at(bytes: Seq<u8>, at: int, len: int) -> nat {
    le_value(bytes.subrange(at, at + len))
}

/// Byte `index` of `value` written least significant byte first.
pub open spec fn le_byte(value: nat, index: nat) -> u8 {
    ((value / pow256(index)) % 256) as u8
}

/// The `len` bytes that spell `value`, least significant byte first. They
/// spell all of it when `value < pow256(len)`.
pub open spec fn le_bytes(value: nat, len: nat) -> Seq<u8> {
    Seq::new(len, |index: int| le_byte(value, index as nat))
}

/// The powers of 256 that bound the integer types.
pub proof fn lemma_pow256_values()
    ensures
        pow256(0) == 1,
        pow256(1) == 0x100,
        pow256(2) == 0x1_0000,
        pow256(3) == 0x100_0000,
        pow256(4) == 0x1_0000_0000,
        pow256(8) == 0x1_0000_0000_0000_0000,
        pow256(16) == 0x1_0000_0000_0000_0000_0000_0000_0000_0000,
{
    reveal_with_fuel(pow256, 17);
}

/// `256^n` is positive and grows with `n`.
pub proof fn lemma_pow256_grows(low: nat, high: nat)
    requires
        low <= high,
    ensures
        0 < pow256(low) <= pow256(high),
    decreases high,
{
    if low < high {
        lemma_pow256_grows(low, (high - 1) as nat);
    } else if low > 0 {
        lemma_pow256_grows((low - 1) as nat, (high - 1) as nat);
    }
}

/// A number is its lowest byte plus 256 times the number that the other
/// bytes spell.
pub proof fn lemma_le_value_step(bytes: Seq<u8>, from: int, to: int)
    requires
        0 <= from < to <= bytes.len(),
    ensures
        le_value(bytes.subrange(from, to)) == bytes[from] as nat + 256 * le_value(
            bytes.subrange(from + 1, to),
        ),
{
    assert(bytes.subrange(from, to).drop_first() =~= bytes.subrange(from + 1, to));
}

/// `n` bytes spell a number below `256^n`.
pub proof fn lemma_le_value_bound(bytes: Seq<u8>)
    ensures
        le_value(bytes) < pow256(bytes.len()),
    decreases bytes.len(),
{
    if bytes.len() > 0 {
        lemma_le_value_bound(bytes.drop_first());
    }
}

/// Writing a number that `n` bytes can hold and reading the bytes back gives
/// the number.
pub proof fn lemma_le_value_of_bytes(value: nat, len: nat)
    requires
        value < pow256(len),
    ensures
        le_bytes(value, len).len() == len,
        le_value(le_bytes(value, len)) == value,
    decreases len,
{
    let written = le_bytes(value, len);
    if len > 0 {
        let rest = le_bytes(value / 256, (len - 1) as nat);
        assert(value / 256 < pow256((len - 1) as nat)) by (nonlinear_arith)
            requires
                value < 256 * pow256((len - 1) as nat),
        ;
        lemma_le_value_of_bytes(value / 256, (len - 1) as nat);
        assert forall|index: int| 0 <= index < len - 1 implies written.drop_first()[index]
            == rest[index] by {
            lemma_pow256_grows(0, index as nat);
            lemma_div_denominator(value as int, 256, pow256(index as nat) as int);
            assert(256 * pow256(index as nat) == pow256(index as nat) * 256) by (nonlinear_arith);
            assert(pow256((index + 1) as nat) == 256 * pow256(index as nat));
        }
        assert(written.drop_first() =~= rest);
        assert(pow256(0) == 1);
        assert(value / 1 == value);
        assert(written[0] == le_byte(value, 0));
        assert(written[0] == (value % 256) as u8);
        lemma_fundamental_div_mod(value as int, 256);
    }
}

/// Reading bytes as a number and writing the number gives the bytes.
pub proof fn lemma_le_bytes_of_value(bytes: Seq<u8>)
    ensures
        le_bytes(le_value(bytes), bytes.len()) == bytes,
    decreases bytes.len(),
{
    let value = le_value(bytes);
    let len = bytes.len();
    if len > 0 {
        let rest = bytes.drop_first();
        lemma_le_bytes_of_value(rest);
        assert(value / 256 == le_value(rest) && value % 256 == bytes[0]) by (nonlinear_arith)
            requires
                value == bytes[0] as nat + 256 * le_value(rest),
                bytes[0] < 256,
        ;
        assert forall|index: int| 0 <= index < len implies le_bytes(value, len)[index]
            == bytes[index] by {
            if index == 0 {
                assert(pow256(0) == 1);
                assert(value / 1 == value);
            } else {
                lemma_pow256_grows(0, (index - 1) as nat);
                lemma_div_denominator(value as int, 256, pow256((index - 1) as nat) as int);
                assert(256 * pow256((index - 1) as nat) == pow256((index - 1) as nat) * 256)
                    by (nonlinear_arith);
                assert(pow256(index as nat) == 256 * pow256((index - 1) as nat));
                assert(le_bytes(le_value(rest), rest.len())[index - 1] == rest[index - 1]);
            }
        }
        assert(le_bytes(value, len) =~= bytes);
    } else {
        assert(le_bytes(value, len) =~= bytes);
    }
}

/// Reads the little-endian number of `len` bytes at `at`.
pub fn read_le(bytes: &[u8], at: usize, len: usize) -> (value: u128)
    requires
        at + len <= bytes@.len(),
        len <= 16,
    ensures
        value == le_at(bytes@, at as int, len as int),
        value < pow256(len as nat),
{
    let mut value: u128 = 0;
    let mut left: usize = len;
    let total = bytes.len();
    assert(bytes@.subrange(at + len, at + len).len() == 0);
    while left > 0
        invariant
            left <= len <= 16,
            at + len <= bytes@.len() == total,
            value == le_value(bytes@.subrange(at + left, at + len)),
            value < pow256((len - left) as nat),
        decreases left,
    {
        left = left - 1;
        proof {
            lemma_le_value_step(bytes@, at + left, at + len);
            lemma_pow256_grows((len - left) as nat, 16);
            lemma_pow256_values();
        }
        value = value * 256 + bytes[at + left] as u128;
    }
    value
}

/// Reads the `u16` at `at`.
pub fn read_u16(bytes: &[u8], at: usize) -> (value: u16)
    requires
        at + 2 <= bytes@.len(),
    ensures
        value == le_at(bytes@, at as int, 2),
{
    proof {
        lemma_pow256_values();
    }
    read_le(bytes, at, 2) as u16
}

/// Reads the `u32` at `at`.
pub fn read_u32(bytes: &[u8], at: usize) -> (value: u32)
    requires
        at + 4 <= bytes@.len(),
    ensures
        value == le_at(bytes@, at as int, 4),
{
    proof {
        lemma_pow256_values();
    }
    read_le(bytes, at, 4) as u32
}

/// Reads the `u64` at `at`.
pub fn read_u64(bytes: &[u8], at: usize) -> (value: u64)
    requires
        at + 8 <= bytes@.len(),
    ensures
        value == le_at(bytes@, at as int, 8),
{
    proof {
        lemma_pow256_values();
    }
    read_le(bytes, at, 8) as u64
}

/// Reads the `u128` at `at`.
pub fn read_u128(bytes: &[u8], at: usize) -> (value: u128)
    requires
        at + 16 <= bytes@.len(),
    ensures
        value == le_at(bytes@, at as int, 16),
{
    read_le(bytes, at, 16)
}

/// The `u8` that one byte spells: the byte.
pub fn u8_of(bytes: [u8; 1]) -> (value: u8)
    ensures
        value == le_value(bytes@),
        value == bytes@[0],
{
    proof {
        reveal_with_fuel(le_value, 2);
    }
    bytes[0]
}

/// The `u16` that two bytes spell.
pub fn u16_of(bytes: [u8; 2]) -> (value: u16)
    ensures
        value == le_value(bytes@),
{
    proof {
        assert(bytes@.subrange(0, 2) =~= bytes@);
    }
    read_u16(bytes.as_slice(), 0)
}

/// The `u32` that four bytes spell.
pub fn u32_of(bytes: [u8; 4]) -> (value: u32)
    ensures
        value == le_value(bytes@),
{
    proof {
        assert(bytes@.subrange(0, 4) =~= bytes@);
    }
    read_u32(bytes.as_slice(), 0)
}

/// The `u64` that eight bytes spell.
pub fn u64_of(bytes: [u8; 8]) -> (value: u64)
    ensures
        value == le_value(bytes@),
{
    proof {
        assert(bytes@.subrange(0, 8) =~= bytes@);
    }
    read_u64(bytes.as_slice(), 0)
}

/// Reads the `N` numbers of two bytes each that start at `at`.
pub fn read_u16s<const N: usize>(bytes: &[u8], at: usize) -> (values: [u16; N])
    requires
        at + 2 * N <= bytes@.len(),
    ensures
        forall|i: int| 0 <= i < N ==> values@[i] == le_at(bytes@, at + 2 * i, 2),
{
    let mut values = [0u16; N];
    let mut done: usize = 0;
    let total = bytes.len();
    while done < N
        invariant
            done <= N,
            at + 2 * N <= bytes@.len() == total,
            forall|i: int| 0 <= i < done ==> values@[i] == le_at(bytes@, at + 2 * i, 2),
        decreases N - done,
    {
        values[done] = read_u16(bytes, at + 2 * done);
        done = done + 1;
    }
    values
}

/// Reads the `N` numbers of four bytes each that start at `at`.
pub fn read_u32s<const N: usize>(bytes: &[u8], at: usize) -> (values: [u32; N])
    requires
        at + 4 * N <= bytes@.len(),
    ensures
        forall|i: int| 0 <= i < N ==> values@[i] == le_at(bytes@, at + 4 * i, 4),
{
    let mut values = [0u32; N];
    let mut done: usize = 0;
    let total = bytes.len();
    while done < N
        invariant
            done <= N,
            at + 4 * N <= bytes@.len() == total,
            forall|i: int| 0 <= i < done ==> values@[i] == le_at(bytes@, at + 4 * i, 4),
        decreases N - done,
    {
        values[done] = read_u32(bytes, at + 4 * done);
        done = done + 1;
    }
    values
}

/// Copies the `N` bytes at `at` out of `bytes`.
pub fn read_array<const N: usize>(bytes: &[u8], at: usize) -> (run: [u8; N])
    requires
        at + N <= bytes@.len(),
    ensures
        run@ == bytes@.subrange(at as int, at + N),
{
    let mut run = [0u8; N];
    let mut done: usize = 0;
    let total = bytes.len();
    while done < N
        invariant
            done <= N,
            at + N <= bytes@.len() == total,
            forall|k: int| 0 <= k < done ==> run@[k] == bytes@[at + k],
        decreases N - done,
    {
        run[done] = bytes[at + done];
        done = done + 1;
    }
    assert(run@ =~= bytes@.subrange(at as int, at + N));
    run
}

/// Writes `value` as `N` little-endian bytes.
pub fn le_array<const N: usize>(value: u128) -> (run: [u8; N])
    requires
        N <= 16,
    ensures
        run@ == le_bytes(value as nat, N as nat),
{
    let mut run = [0u8; N];
    let mut rest: u128 = value;
    let mut done: usize = 0;
    proof {
        lemma_pow256_values();
    }
    while done < N
        invariant
            done <= N <= 16,
            rest == value as nat / pow256(done as nat),
            forall|k: int| 0 <= k < done ==> run@[k] == le_byte(value as nat, k as nat),
        decreases N - done,
    {
        proof {
            lemma_pow256_grows(0, done as nat);
            lemma_div_denominator(value as int, pow256(done as nat) as int, 256);
            assert(pow256((done + 1) as nat) == 256 * pow256(done as nat));
            assert(256 * pow256(done as nat) == pow256(done as nat) * 256) by (nonlinear_arith);
        }
        run[done] = (rest % 256) as u8;
        rest = rest / 256;
        done = done + 1;
    }
    assert(run@ =~= le_bytes(value as nat, N as nat));
    run
}

} // verus!
