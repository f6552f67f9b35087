//! The bit-field codec: named ranges of bits inside a fixed-width backing
//! integer.
//!
//! A field is given by the offset of its lowest bit and by its width in bits.
//! The backing integer is handled as a `u64`; records with a narrower backing
//! widen it first. What a field holds is stated arithmetically, bit `i`
//! weighing `2^i`. The executable code shifts and masks, and is proved against
//! that statement.

use vstd::arithmetic::div_mod::lemma_mod_breakdown;
use vstd::arithmetic::power2::{
    lemma2_to64,
    lemma_pow2_adds,
    lemma_pow2_pos,
    lemma_pow2_strictly_increases,
    pow2,
};
use vstd::bits::{
    lemma_u64_low_bits_mask_is_mod,
    lemma_u64_shl_is_mul,
    lemma_u64_shr_is_div,
    low_bits_mask,
};
use vstd::prelude::*;

verus! {

/// The number held by the `width` bits of `backing` that start at bit
/// `offset`, zero-extended.
pub open spec fn spec_get_field(backing: u64, offset: u32, width: u32) -> u64 {
    ((backing as nat / pow2(offset as nat)) % pow2(width as nat)) as u64
}

/// Whether `value` can be written with `width` bits.
pub open spec fn fits(value: u64, width: u32) -> bool {
    (value as nat) < pow2(width as nat)
}

/// `backing` with the field at `offset` holding `value` and every other bit
/// as it was. Meant for a `value` that fits the field.
pub open spec fn spec_with_field(backing: u64, offset: u32, width: u32, value: u64) -> u64 {
    (backing - spec_get_field(backing, offset, width) * pow2(offset as nat) + value * pow2(
        offset as nat,
    )) as u64
}

/// The number a flag is stored as.
pub open spec fn flag_bit(flag: bool) -> u64 {
    if flag {
        1
    } else {
        0
    }
}

/// The flag held by the bit of `backing` at `offset`: a field of width 1.
pub open spec fn spec_get_flag(backing: u64, offset: u32) -> bool {
    spec_get_field(backing, offset, 1) == 1
}

/// `backing` with the bit at `offset` holding `flag`.
pub open spec fn spec_with_flag(backing: u64, offset: u32, flag: bool) -> u64 {
    spec_with_field(backing, offset, 1, flag_bit(flag))
}

/// A field of a record: where its lowest bit lies, and how many bits it has.
pub struct Field {
    pub offset: u32,
    pub width: u32,
}

/// Whether `fields`, in their order, lie end to end from bit `from` up to bit
/// `bits`: no two of them share a bit, and every bit in between belongs to
/// one. A record's bits that have no meaning count as fields of their own.
pub open spec fn tiles(fields: Seq<Field>, from: nat, bits: nat) -> bool
    decreases fields.len(),
{
    if fields.len() == 0 {
        from == bits
    } else {
        fields[0].offset == from && tiles(
            fields.drop_first(),
            from + fields[0].width as nat,
            bits,
        )
    }
}

/// What `fields` hold in `backing`, each taken at its place: the sum of
/// `value * 2^offset` over the fields.
pub open spec fn sum_of_fields(backing: u64, fields: Seq<Field>) -> nat
    decreases fields.len(),
{
    if fields.len() == 0 {
        0
    } else {
        spec_get_field(backing, fields[0].offset, fields[0].width) as nat * pow2(
            fields[0].offset as nat,
        ) + sum_of_fields(backing, fields.drop_first())
    }
}

/// The `width` lowest bits set.
spec fn low_ones(width: u32) -> u64 {
    ((1u64 << width) - 1) as u64
}

/// The field as shifting and masking read it.
spec fn shifted_out(backing: u64, offset: u32, width: u32) -> u64 {
    (backing >> offset) & low_ones(width)
}

/// The backing integer as clearing and or-ing write the field into it.
spec fn shifted_in(backing: u64, offset: u32, width: u32, value: u64) -> u64 {
    (backing & !(low_ones(width) << offset)) | (value << offset)
}

/// A field that shifts can reach: inside the backing integer, and neither at
/// its very end nor all of it.
spec fn shiftable(offset: u32, width: u32) -> bool {
    offset < 64 && width < 64 && offset + width <= 64
}

/// The powers of two up to the 64th are positive and within 65 bits.
proof fn lemma_pow2_within(e: nat)
    requires
        e <= 64,
    ensures
        0 < pow2(e) <= 0x1_0000_0000_0000_0000,
        e < 64 ==> pow2(e) <= 0x8000_0000_0000_0000,
{
    lemma_pow2_pos(e);
    lemma2_to64();
    if e < 64 {
        lemma_pow2_adds(e, 1);
        if e < 63 {
            lemma_pow2_strictly_increases(e + 1, 64);
        }
    }
}

/// The mask of `width` bits is `2^width - 1`.
proof fn lemma_low_ones(width: u32)
    requires
        width < 64,
    ensures
        1u64 << width == pow2(width as nat),
        low_ones(width) == pow2(width as nat) - 1,
        low_ones(width) == low_bits_mask(width as nat),
{
    lemma_pow2_within(width as nat);
    lemma_u64_shl_is_mul(1, width as u64);
    assert(1u64 << (width as u64) == 1u64 << width);
}

/// A value fits `width` bits exactly when masking it to `width` bits keeps it.
proof fn lemma_fits_by_mask(value: u64, width: u32)
    requires
        width < 64,
    ensures
        fits(value, width) <==> value & low_ones(width) == value,
{
    lemma_pow2_within(width as nat);
    lemma_low_ones(width);
    lemma_u64_low_bits_mask_is_mod(value, width as nat);
    let m = pow2(width as nat) as u64;
    assert(value & low_ones(width) == value % m);
    if value < m {
        assert(value % m == value) by (nonlinear_arith)
            requires
                value < m,
        ;
    } else {
        assert(value % m < m) by (nonlinear_arith)
            requires
                m > 0,
        ;
    }
}

/// Shifting and masking read what the field holds.
proof fn lemma_shifted_out(backing: u64, offset: u32, width: u32)
    requires
        offset < 64,
        width < 64,
    ensures
        shifted_out(backing, offset, width) == spec_get_field(backing, offset, width),
        fits(spec_get_field(backing, offset, width), width),
{
    lemma_pow2_within(offset as nat);
    lemma_pow2_within(width as nat);
    let q = backing as nat / pow2(offset as nat);
    assert(q <= backing) by (nonlinear_arith)
        requires
            q == backing as nat / pow2(offset as nat),
            pow2(offset as nat) > 0,
    ;
    assert(q % pow2(width as nat) < pow2(width as nat)) by (nonlinear_arith)
        requires
            pow2(width as nat) > 0,
    ;
    lemma_u64_shr_is_div(backing, offset as u64);
    assert(backing >> (offset as u64) == backing >> offset);
    lemma_low_ones(width);
    lemma_u64_low_bits_mask_is_mod(backing >> offset, width as nat);
}

/// Clearing and or-ing write the field and nothing else.
proof fn lemma_shifted_in(backing: u64, offset: u32, width: u32, value: u64)
    requires
        shiftable(offset, width),
        fits(value, width),
    ensures
        shifted_in(backing, offset, width, value) == spec_with_field(
            backing,
            offset,
            width,
            value,
        ),
{
    lemma_shifted_out(backing, offset, width);
    lemma_fits_by_mask(value, width);
    lemma_pow2_within(offset as nat);
    lemma_pow2_within(width as nat);
    lemma_pow2_within((offset + width) as nat);
    lemma_pow2_adds(offset as nat, width as nat);
    let held = shifted_out(backing, offset, width);
    let ones = low_ones(width);
    let place = pow2(offset as nat);
    assert(held * place <= u64::MAX && value * place <= u64::MAX) by (nonlinear_arith)
        requires
            held < pow2(width as nat),
            value < pow2(width as nat),
            place * pow2(width as nat) <= 0x1_0000_0000_0000_0000,
            place > 0,
    ;
    lemma_u64_shl_is_mul(held, offset as u64);
    lemma_u64_shl_is_mul(value, offset as u64);
    assert(held << (offset as u64) == held << offset);
    assert(value << (offset as u64) == value << offset);
    assert((backing & !(ones << offset)) | (value << offset) == backing - (((backing >> offset)
        & ones) << offset) + (value << offset)) by (bit_vector)
        requires
            offset < 64,
            width < 64,
            offset + width <= 64,
            ones == ((1u64 << width) - 1) as u64,
            value & ones == value,
    ;
}

/// The two widths that shifts cannot reach: the empty field and the field
/// that is all of the backing integer.
proof fn lemma_edge_widths(backing: u64, offset: u32, width: u32, value: u64)
    requires
        offset + width <= 64,
        width == 0 || width == 64,
    ensures
        spec_get_field(backing, offset, width) == if width == 0 {
            0
        } else {
            backing
        },
        fits(value, width) ==> spec_with_field(backing, offset, width, value) == if width == 0 {
            backing
        } else {
            value
        },
        width == 0 ==> (fits(value, width) <==> value == 0),
        width == 64 ==> fits(value, width),
{
    lemma2_to64();
    lemma_pow2_within(offset as nat);
    let place = pow2(offset as nat);
    let q = backing as nat / place;
    if width == 0 {
        assert(q % 1 == 0);
        assert(0 * place == 0) by (nonlinear_arith);
    } else {
        assert(q == backing) by (nonlinear_arith)
            requires
                q == backing as nat / place,
                place == 1,
        ;
        assert(q % 0x1_0000_0000_0000_0000 == q);
        assert(backing * place == backing && value * place == value) by (nonlinear_arith)
            requires
                place == 1,
        ;
    }
}

/// A field that reaches up to or past the end of the backing integer holds
/// all that lies at and above its offset: the bits past the end read as
/// zeros.
proof fn lemma_field_to_the_end(backing: u64, offset: u32, width: u32)
    requires
        offset + width >= 64,
    ensures
        spec_get_field(backing, offset, width) == backing as nat / pow2(offset as nat),
        offset >= 64 ==> spec_get_field(backing, offset, width) == 0,
        fits(spec_get_field(backing, offset, width), width),
{
    lemma2_to64();
    lemma_pow2_pos(offset as nat);
    lemma_pow2_pos(width as nat);
    let place = pow2(offset as nat);
    let moved = backing as nat / place;
    if offset >= 64 {
        if offset > 64 {
            lemma_pow2_strictly_increases(64, offset as nat);
        }
        assert(moved == 0) by (nonlinear_arith)
            requires
                moved == backing as nat / place,
                backing < place,
        ;
    } else {
        lemma_pow2_adds(offset as nat, (64 - offset) as nat);
        if width > 64 - offset {
            lemma_pow2_strictly_increases((64 - offset) as nat, width as nat);
        }
        assert(moved < pow2((64 - offset) as nat)) by (nonlinear_arith)
            requires
                moved == backing as nat / place,
                backing < place * pow2((64 - offset) as nat),
                place > 0,
        ;
    }
    assert(moved % pow2(width as nat) == moved) by (nonlinear_arith)
        requires
            moved < pow2(width as nat),
    ;
    assert(moved <= backing) by (nonlinear_arith)
        requires
            moved == backing as nat / place,
            place > 0,
    ;
}

/// Reads the field of `width` bits at `offset`. Bits past the end of the
/// backing integer read as zeros.
pub fn get_field(backing: u64, offset: u32, width: u32) -> (value: u64)
    ensures
        value == spec_get_field(backing, offset, width),
        fits(value, width),
        width <= 8 ==> value <= u8::MAX,
        width <= 16 ==> value <= u16::MAX,
        width <= 32 ==> value <= u32::MAX,
{
    proof {
        lemma2_to64();
        if width < 8 {
            lemma_pow2_strictly_increases(width as nat, 8);
        }
        if width < 16 {
            lemma_pow2_strictly_increases(width as nat, 16);
        }
        if width < 32 {
            lemma_pow2_strictly_increases(width as nat, 32);
        }
    }
    if offset >= 64 {
        proof {
            lemma_field_to_the_end(backing, offset, width);
        }
        0
    } else if width >= 64 - offset {
        proof {
            lemma_field_to_the_end(backing, offset, width);
            lemma_u64_shr_is_div(backing, offset as u64);
            assert(backing >> (offset as u64) == backing >> offset);
        }
        backing >> offset
    } else {
        proof {
            lemma_shifted_out(backing, offset, width);
            lemma_low_ones(width);
        }
        (backing >> offset) & ((1u64 << width) - 1)
    }
}

/// Reads the flag at bit `offset`. A bit past the end of the backing integer
/// reads as cleared.
pub fn get_flag(backing: u64, offset: u32) -> (flag: bool)
    ensures
        flag == spec_get_flag(backing, offset),
{
    get_field(backing, offset, 1) == 1
}

/// Writes `value`, which fits, into the field of `width` bits at `offset`.
pub fn put_field(backing: u64, offset: u32, width: u32, value: u64) -> (changed: u64)
    requires
        offset + width <= 64,
        fits(value, width),
    ensures
        changed == spec_with_field(backing, offset, width, value),
        backing <= u8::MAX && offset + width <= 8 ==> changed <= u8::MAX,
        backing <= u16::MAX && offset + width <= 16 ==> changed <= u16::MAX,
        backing <= u32::MAX && offset + width <= 32 ==> changed <= u32::MAX,
{
    proof {
        lemma2_to64();
    }
    if width == 0 {
        proof {
            lemma_edge_widths(backing, offset, width, value);
        }
        backing
    } else if width == 64 {
        proof {
            lemma_edge_widths(backing, offset, width, value);
        }
        value
    } else {
        proof {
            lemma_shifted_in(backing, offset, width, value);
            lemma_fits_by_mask(value, width);
            lemma_low_ones(width);
        }
        let ones: u64 = (1u64 << width) - 1;
        let changed = (backing & !(ones << offset)) | (value << offset);
        assert({
            &&& backing <= 0xff && offset + width <= 8 ==> changed <= 0xff
            &&& backing <= 0xffff && offset + width <= 16 ==> changed <= 0xffff
            &&& backing <= 0xffff_ffff && offset + width <= 32 ==> changed <= 0xffff_ffff
        }) by (bit_vector)
            requires
                changed == (backing & !(ones << offset)) | (value << offset),
                value & ones == value,
                ones == ((1u64 << width) - 1) as u64,
                width < 64,
                offset + width <= 64,
        ;
        changed
    }
}

/// Writes `value` into the field of `width` bits at `offset`, or fails with
/// `value` when it has more than `width` bits. Nothing is truncated.
pub fn with_field(backing: u64, offset: u32, width: u32, value: u64) -> (r: Result<u64, u64>)
    requires
        offset + width <= 64,
    ensures
        fits(value, width) ==> r == Ok::<u64, u64>(
            spec_with_field(backing, offset, width, value),
        ),
        !fits(value, width) ==> r == Err::<u64, u64>(value),
        r is Ok && backing <= u8::MAX && offset + width <= 8 ==> r->Ok_0 <= u8::MAX,
        r is Ok && backing <= u16::MAX && offset + width <= 16 ==> r->Ok_0 <= u16::MAX,
        r is Ok && backing <= u32::MAX && offset + width <= 32 ==> r->Ok_0 <= u32::MAX,
{
    proof {
        lemma_pow2_within(width as nat);
        lemma2_to64();
        if width < 64 {
            lemma_u64_shr_is_div(value, width as u64);
            assert(value >> (width as u64) == value >> width);
            let m = pow2(width as nat);
            assert((value as nat / m == 0) <==> (value as nat) < m) by (nonlinear_arith)
                requires
                    m > 0,
            ;
        }
    }
    if width < 64 && (value >> width) != 0 {
        Err(value)
    } else {
        Ok(put_field(backing, offset, width, value))
    }
}

/// Writes a flag at bit `offset`.
pub fn with_flag(backing: u64, offset: u32, flag: bool) -> (changed: u64)
    requires
        offset < 64,
    ensures
        changed == spec_with_flag(backing, offset, flag),
        backing <= u8::MAX && offset < 8 ==> changed <= u8::MAX,
        backing <= u16::MAX && offset < 16 ==> changed <= u16::MAX,
        backing <= u32::MAX && offset < 32 ==> changed <= u32::MAX,
{
    proof {
        lemma2_to64();
    }
    put_field(backing, offset, 1, if flag { 1 } else { 0 })
}

/// Reading a field back after writing it gives what was written.
pub proof fn lemma_get_after_with(backing: u64, offset: u32, width: u32, value: u64)
    requires
        offset + width <= 64,
        fits(value, width),
    ensures
        spec_get_field(spec_with_field(backing, offset, width, value), offset, width) == value,
{
    if width == 0 || width == 64 {
        lemma_edge_widths(backing, offset, width, value);
        lemma_edge_widths(spec_with_field(backing, offset, width, value), offset, width, value);
    } else {
        lemma_shifted_in(backing, offset, width, value);
        lemma_shifted_out(shifted_in(backing, offset, width, value), offset, width);
        lemma_fits_by_mask(value, width);
        assert(shifted_out(shifted_in(backing, offset, width, value), offset, width) == value)
            by (bit_vector)
            requires
                offset + width <= 64,
                width < 64,
                value & low_ones(width) == value,
        ;
    }
}

/// Writing a field leaves every field that shares no bit with it as it was.
pub proof fn lemma_with_keeps_others(
    backing: u64,
    offset: u32,
    width: u32,
    value: u64,
    other_offset: u32,
    other_width: u32,
)
    requires
        offset + width <= 64,
        other_offset + other_width <= 64,
        other_offset + other_width <= offset || offset + width <= other_offset,
        fits(value, width),
    ensures
        spec_get_field(
            spec_with_field(backing, offset, width, value),
            other_offset,
            other_width,
        ) == spec_get_field(backing, other_offset, other_width),
{
    if width == 0 {
        lemma_edge_widths(backing, offset, width, value);
    } else if other_width == 0 {
        lemma_edge_widths(backing, other_offset, other_width, 0);
        lemma_edge_widths(
            spec_with_field(backing, offset, width, value),
            other_offset,
            other_width,
            0,
        );
    } else {
        lemma_shifted_in(backing, offset, width, value);
        lemma_shifted_out(shifted_in(backing, offset, width, value), other_offset, other_width);
        lemma_shifted_out(backing, other_offset, other_width);
        lemma_fits_by_mask(value, width);
        assert(shifted_out(shifted_in(backing, offset, width, value), other_offset, other_width)
            == shifted_out(backing, other_offset, other_width)) by (bit_vector)
            requires
                offset + width <= 64,
                other_offset + other_width <= 64,
                width < 64,
                other_width < 64,
                other_offset + other_width <= offset || offset + width <= other_offset,
                value & low_ones(width) == value,
        ;
    }
}

/// Writing a field leaves every bit outside the field as it was.
pub proof fn lemma_with_keeps_bits(backing: u64, offset: u32, width: u32, value: u64, bit: u32)
    requires
        offset + width <= 64,
        fits(value, width),
        bit < 64,
        bit < offset || offset + width <= bit,
    ensures
        spec_get_field(spec_with_field(backing, offset, width, value), bit, 1) == spec_get_field(
            backing,
            bit,
            1,
        ),
{
    lemma_with_keeps_others(backing, offset, width, value, bit, 1);
}

/// Fields that lie end to end do not run backwards.
proof fn lemma_tiles_upwards(fields: Seq<Field>, from: nat, bits: nat)
    requires
        tiles(fields, from, bits),
    ensures
        from <= bits,
    decreases fields.len(),
{
    if fields.len() > 0 {
        lemma_tiles_upwards(fields.drop_first(), from + fields[0].width as nat, bits);
    }
}

/// Fields that lie end to end from bit `from` to bit `bits` hold between
/// them the bits of `backing` from `from` up to `bits`, and nothing else.
pub proof fn lemma_fields_hold_their_bits(backing: u64, fields: Seq<Field>, from: nat, bits: nat)
    requires
        bits <= 64,
        tiles(fields, from, bits),
    ensures
        from <= bits,
        sum_of_fields(backing, fields) == backing as nat % pow2(bits) - backing as nat % pow2(
            from,
        ),
    decreases fields.len(),
{
    lemma_tiles_upwards(fields, from, bits);
    if fields.len() > 0 {
        let first = fields[0];
        let next = from + first.width as nat;
        lemma_tiles_upwards(fields.drop_first(), next, bits);
        lemma_fields_hold_their_bits(backing, fields.drop_first(), next, bits);
        lemma_pow2_pos(from);
        lemma_pow2_pos(first.width as nat);
        lemma_pow2_adds(from, first.width as nat);
        lemma_mod_breakdown(backing as int, pow2(from) as int, pow2(first.width as nat) as int);
        lemma_pow2_within(from);
        lemma_pow2_within(first.width as nat);
        let held = (backing as nat / pow2(from)) % pow2(first.width as nat);
        assert(held <= backing) by (nonlinear_arith)
            requires
                held == (backing as nat / pow2(from)) % pow2(first.width as nat),
                pow2(from) > 0,
                pow2(first.width as nat) > 0,
        ;
        assert(pow2(from) * held == held * pow2(from)) by (nonlinear_arith);
    }
}

/// The fields of a record that fill all of its `bits` bits make up the
/// backing integer: it is the sum of what they hold, each at its place. Two
/// backing integers whose fields agree are the same.
pub proof fn lemma_fields_make_backing(backing: u64, fields: Seq<Field>, bits: nat)
    requires
        bits <= 64,
        tiles(fields, 0, bits),
        backing < pow2(bits),
    ensures
        sum_of_fields(backing, fields) == backing,
{
    lemma_fields_hold_their_bits(backing, fields, 0, bits);
    lemma2_to64();
    lemma_pow2_pos(bits);
    assert(backing as nat % pow2(bits) == backing) by (nonlinear_arith)
        requires
            backing < pow2(bits),
    ;
}

/// A byte is made of its eight flags, flag `i` weighing `2^i`: two bytes
/// with the same flags are the same byte.
pub proof fn lemma_byte_of_flags(byte: u8)
    ensures
        byte == flag_bit(spec_get_flag(byte as u64, 0)) + 2 * flag_bit(
            spec_get_flag(byte as u64, 1),
        ) + 4 * flag_bit(spec_get_flag(byte as u64, 2)) + 8 * flag_bit(
            spec_get_flag(byte as u64, 3),
        ) + 16 * flag_bit(spec_get_flag(byte as u64, 4)) + 32 * flag_bit(
            spec_get_flag(byte as u64, 5),
        ) + 64 * flag_bit(spec_get_flag(byte as u64, 6)) + 128 * flag_bit(
            spec_get_flag(byte as u64, 7),
        ),
{
    lemma2_to64();
    let b = byte as u64;
    assert(b == (b / 1) % 2 + 2 * ((b / 2) % 2) + 4 * ((b / 4) % 2) + 8 * ((b / 8) % 2) + 16 * ((b
        / 16) % 2) + 32 * ((b / 32) % 2) + 64 * ((b / 64) % 2) + 128 * ((b / 128) % 2))
        by (bit_vector)
        requires
            b <= 0xff,
    ;
}

/// Writing back what a field holds changes nothing.
pub proof fn lemma_with_what_it_holds(backing: u64, offset: u32, width: u32)
    requires
        offset + width <= 64,
    ensures
        fits(spec_get_field(backing, offset, width), width),
        spec_with_field(backing, offset, width, spec_get_field(backing, offset, width))
            == backing,
{
    lemma_pow2_within(width as nat);
    assert((backing as nat / pow2(offset as nat)) % pow2(width as nat) < pow2(width as nat))
        by (nonlinear_arith)
        requires
            pow2(width as nat) > 0,
    ;
}

} // verus!
