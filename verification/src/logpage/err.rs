//! The entries of the error log, and where in a command a parameter error
//! lies.

use crate::bitfield::{
    get_field,
    lemma_fields_make_backing,
    put_field,
    spec_get_field,
    spec_with_field,
    sum_of_fields,
    tiles,
    with_field,
    Field,
};
use crate::status::StatusField;
use crate::util::{FromBytes, TransmuteSafe};
use crate::wire::{
    le_array,
    le_at,
    le_bytes,
    le_value,
    read_array,
    read_u16,
    read_u32,
    read_u64,
    u16_of,
};
use vstd::arithmetic::power2::lemma2_to64;
use vstd::prelude::*;
use vstd::std_specs::convert::{FromSpecImpl, TryFromSpecImpl};

verus! {

/// An entry of the error log: a record of 64 bytes.
///
/// | bytes | field |
/// |-------|-------|
/// | 0-7 | `err_count` |
/// | 8-9 | `submission_queue_id` |
/// | 10-11 | `cmd_id` |
/// | 12-13 | `status_field` |
/// | 14-15 | `param_err_loc` |
/// | 16-23 | `lba` |
/// | 24-27 | `nmsp` |
/// | 28 | `vndr_specific_info_avail` |
/// | 29 | `trtype` |
/// | 30-31 | reserved |
/// | 32-39 | `cmd_specific_info` |
/// | 40-41 | `transport_type_specific_info` |
/// | 42-63 | reserved |
#[derive(Clone, Copy, Debug)]
pub struct ErrLogEntry<'a> {
    bytes: &'a [u8],
}

impl<'a> View for ErrLogEntry<'a> {
    type V = Seq<u8>;

    closed spec fn view(&self) -> Seq<u8> {
        self.bytes@
    }
}

impl<'a> TransmuteSafe<'a> for ErrLogEntry<'a> {
    open spec fn size() -> nat {
        64
    }

    fn byte_len() -> (len: usize) {
        64
    }

    fn over(bytes: &'a [u8]) -> (record: Self) {
        ErrLogEntry { bytes }
    }

    fn as_bytes(&self) -> (bytes: &'a [u8]) {
        proof {
            use_type_invariant(self);
        }
        self.bytes
    }
}

impl<'a> ErrLogEntry<'a> {
    /// A view lies over as many bytes as the record is long.
    #[verifier::type_invariant]
    spec fn well_formed(self) -> bool {
        self.bytes@.len() == 64
    }

    /// Error count: bytes 0 to 7.
    pub fn err_count(&self) -> (value: u64)
        ensures
            value == le_at(self@, 0, 8),
    {
        proof {
            use_type_invariant(self);
        }
        read_u64(self.bytes, 0)
    }

    /// Submission queue identifier: bytes 8 to 9.
    pub fn submission_queue_id(&self) -> (value: u16)
        ensures
            value == le_at(self@, 8, 2),
    {
        proof {
            use_type_invariant(self);
        }
        read_u16(self.bytes, 8)
    }

    /// Command identifier: bytes 10 to 11.
    pub fn cmd_id(&self) -> (value: u16)
        ensures
            value == le_at(self@, 10, 2),
    {
        proof {
            use_type_invariant(self);
        }
        read_u16(self.bytes, 10)
    }

    /// The status word of the command that failed: bytes 12 to 13.
    pub fn status_field(&self) -> (field: StatusField)
        ensures
            field@ == le_at(self@, 12, 2),
    {
        proof {
            use_type_invariant(self);
        }
        StatusField::from_bytes(read_array::<2>(self.bytes, 12))
    }

    /// Parameter error location: bytes 14 to 15.
    pub fn param_err_loc(&self) -> (field: ParamErrLoc)
        ensures
            field@ == le_at(self@, 14, 2),
    {
        proof {
            use_type_invariant(self);
        }
        ParamErrLoc::from_bytes(read_array::<2>(self.bytes, 14))
    }

    /// The first logical block that met the error: bytes 16 to 23.
    pub fn lba(&self) -> (value: u64)
        ensures
            value == le_at(self@, 16, 8),
    {
        proof {
            use_type_invariant(self);
        }
        read_u64(self.bytes, 16)
    }

    /// Namespace: bytes 24 to 27.
    pub fn nmsp(&self) -> (value: u32)
        ensures
            value == le_at(self@, 24, 4),
    {
        proof {
            use_type_invariant(self);
        }
        read_u32(self.bytes, 24)
    }

    /// Vendor specific information available: byte 28.
    pub fn vndr_specific_info_avail(&self) -> (value: u8)
        ensures
            value == self@[28],
    {
        proof {
            use_type_invariant(self);
        }
        self.bytes[28]
    }

    /// Transport type: byte 29.
    pub fn trtype(&self) -> (value: u8)
        ensures
            value == self@[29],
    {
        proof {
            use_type_invariant(self);
        }
        self.bytes[29]
    }

    /// Command specific information: bytes 32 to 39.
    pub fn cmd_specific_info(&self) -> (value: u64)
        ensures
            value == le_at(self@, 32, 8),
    {
        proof {
            use_type_invariant(self);
        }
        read_u64(self.bytes, 32)
    }

    /// Transport type specific information: bytes 40 to 41.
    pub fn transport_type_specific_info(&self) -> (value: u16)
        ensures
            value == le_at(self@, 40, 2),
    {
        proof {
            use_type_invariant(self);
        }
        read_u16(self.bytes, 40)
    }

    /// The record is 64 bytes long, and so is every buffer that is viewed
    /// as one.
    pub proof fn lemma_size(len: nat)
        ensures
            Self::size() == 64,
            <Self as FromBytes<'a>>::legal(len) <==> len == 64,
    {
    }
}

/// Where in a command the parameter in error lies: 16 bits, the lowest first.
///
/// | bits | field |
/// |------|-------|
/// | 0-7 | `byte` |
/// | 8-10 | `bit` |
/// | 11-15 | reserved |
#[derive(Clone, Copy, Debug, PartialEq, Eq, Structural)]
pub struct ParamErrLoc {
    raw: u16,
}

impl View for ParamErrLoc {
    type V = u16;

    closed spec fn view(&self) -> u16 {
        self.raw
    }
}

impl ParamErrLoc {
    /// The fields of the value, the lowest first; the bits that have no meaning
    /// count as fields.
    pub open spec fn layout() -> Seq<Field> {
        seq![
            Field { offset: 0, width: 8 },
            Field { offset: 8, width: 3 },
            Field { offset: 11, width: 5 },
        ]
    }

    /// The fields fill the 16 bits: no two of them share a bit and no bit is
    /// left out.
    pub proof fn lemma_layout_fills()
        ensures
            tiles(Self::layout(), 0, 16),
    {
        let from_0 = Self::layout();
        let from_1 = from_0.drop_first();
        let from_2 = from_1.drop_first();
        let from_3 = from_2.drop_first();
        assert(tiles(from_3, 16, 16));
        assert(tiles(from_2, 11, 16));
        assert(tiles(from_1, 8, 16));
    }

    /// A value is made of its fields: it is the sum of what they hold, each at
    /// its place.
    pub proof fn lemma_fields_make_value(self)
        ensures
            sum_of_fields(self@ as u64, Self::layout()) == self@,
    {
        lemma2_to64();
        Self::lemma_layout_fills();
        lemma_fields_make_backing(self@ as u64, Self::layout(), 16);
    }

    /// The value with every bit clear.
    pub fn new() -> (made: Self)
        ensures
            made@ == 0,
    {
        ParamErrLoc { raw: 0 }
    }

    /// The value that the bytes spell, the low byte first.
    pub fn from_bytes(bytes: [u8; 2]) -> (made: Self)
        ensures
            made@ == le_value(bytes@),
    {
        ParamErrLoc { raw: u16_of(bytes) }
    }

    /// The bytes that spell this value, the low byte first.
    pub fn into_bytes(self) -> (bytes: [u8; 2])
        ensures
            bytes@ == le_bytes(self@ as nat, 2),
    {
        le_array::<2>(self.raw as u128)
    }

    /// The number `byte`: bits 0 to 7.
    pub fn byte(&self) -> (value: u8)
        ensures
            value == spec_get_field(self@ as u64, 0, 8),
    {
        get_field(self.raw as u64, 0, 8) as u8
    }

    /// The number `bit`: bits 8 to 10.
    pub fn bit(&self) -> (value: u8)
        ensures
            value == spec_get_field(self@ as u64, 8, 3),
    {
        get_field(self.raw as u64, 8, 3) as u8
    }

    /// This value with the number `byte` set to `value`.
    pub fn with_byte(self, value: u8) -> (made: Self)
        ensures
            made@ == spec_with_field(self@ as u64, 0, 8, value as u64),
    {
        proof {
            lemma2_to64();
        }
        ParamErrLoc { raw: put_field(self.raw as u64, 0, 8, value as u64) as u16 }
    }

    /// This value with the number `bit` set to `value`; fails with `value`
    /// when it does not fit 3 bits.
    pub fn with_bit(self, value: u8) -> (made: Result<Self, u64>)
        ensures
            value < 8 ==> made is Ok && made->Ok_0@ == spec_with_field(
                self@ as u64,
                8,
                3,
                value as u64,
            ),
            value >= 8 ==> made == Err::<Self, u64>(value as u64),
    {
        proof {
            lemma2_to64();
        }
        match with_field(self.raw as u64, 8, 3, value as u64) {
            Ok(raw) => Ok(ParamErrLoc { raw: raw as u16 }),
            Err(value) => Err(value),
        }
    }
}

/// A parameter error location taken apart into plain values, for
/// interchange.
#[derive(Clone, Copy, Debug, PartialEq, Eq, Structural)]
pub struct ParamErrLocUnpacked {
    pub byte: u8,
    pub bit: u8,
}

impl ParamErrLocUnpacked {
    /// The sixteen bits that these parts make up. Meant for a `bit` below 8.
    pub open spec fn word(self) -> nat {
        (self.byte + 256 * self.bit) as nat
    }

    /// The location that these parts make, or the `bit` that does not fit.
    pub open spec fn packed(self) -> Result<ParamErrLoc, u64> {
        if self.bit < 8 {
            Ok(ParamErrLoc::of_bits(self.word() as u16))
        } else {
            Err(self.bit as u64)
        }
    }
}

impl ParamErrLoc {
    /// The location with the bits `raw`.
    pub closed spec fn of_bits(raw: u16) -> Self {
        ParamErrLoc { raw }
    }

    /// The location made of given bits holds those bits.
    pub proof fn lemma_of_bits(raw: u16)
        ensures
            Self::of_bits(raw)@ == raw,
    {
    }

    /// This location taken apart.
    pub open spec fn unpacked(self) -> ParamErrLocUnpacked {
        ParamErrLocUnpacked {
            byte: spec_get_field(self@ as u64, 0, 8) as u8,
            bit: spec_get_field(self@ as u64, 8, 3) as u8,
        }
    }
}

impl From<ParamErrLoc> for ParamErrLocUnpacked {
    /// Takes a location apart. Every location can be.
    fn from(packed: ParamErrLoc) -> (unpacked: Self) {
        ParamErrLocUnpacked { byte: packed.byte(), bit: packed.bit() }
    }
}

impl FromSpecImpl<ParamErrLoc> for ParamErrLocUnpacked {
    open spec fn obeys_from_spec() -> bool {
        true
    }

    open spec fn from_spec(packed: ParamErrLoc) -> Self {
        packed.unpacked()
    }
}

impl TryFrom<ParamErrLocUnpacked> for ParamErrLoc {
    type Error = u64;

    /// Puts a location together. Fails with `bit` when it does not fit its
    /// three bits.
    fn try_from(unpacked: ParamErrLocUnpacked) -> (packed: Result<Self, u64>)
        ensures
            unpacked.bit < 8 ==> packed is Ok && packed->Ok_0@ == unpacked.word(),
            unpacked.bit >= 8 ==> packed == Err::<Self, u64>(unpacked.bit as u64),
    {
        proof {
            lemma2_to64();
        }
        ParamErrLoc::new().with_byte(unpacked.byte).with_bit(unpacked.bit)
    }
}

impl TryFromSpecImpl<ParamErrLocUnpacked> for ParamErrLoc {
    open spec fn obeys_try_from_spec() -> bool {
        true
    }

    open spec fn try_from_spec(unpacked: ParamErrLocUnpacked) -> Result<Self, u64> {
        unpacked.packed()
    }
}

/// Parts that are put together and taken apart again are the same parts.
pub proof fn lemma_pack_then_unpack(unpacked: ParamErrLocUnpacked, packed: ParamErrLoc)
    requires
        unpacked.bit < 8,
        packed@ == unpacked.word(),
    ensures
        packed.unpacked() == unpacked,
{
    lemma2_to64();
}

} // verus!
