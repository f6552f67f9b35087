//! The identify-namespace record and the bit fields in it.

use crate::bitfield::{
    get_field,
    get_flag,
    lemma_fields_make_backing,
    spec_get_field,
    spec_get_flag,
    spec_with_field,
    spec_with_flag,
    sum_of_fields,
    tiles,
    with_field,
    with_flag,
    Field,
};
use crate::util::{FromBytes, TransmuteSafe};
use crate::wire::{le_array, le_at, le_bytes, le_value, read_u64, u8_of};
use vstd::arithmetic::power2::lemma2_to64;
use vstd::prelude::*;

verus! {

/// What a controller reports of a namespace: a record of 4096 bytes.
///
/// | bytes | field |
/// |-------|-------|
/// | 0-7 | `nsze` |
/// | 8-15 | `ncap` |
/// | 16-23 | `nuse` |
/// | 24 | `nsfeat` |
/// | 25 | `nlbaf` |
/// | 26 | `flbas` |
/// | 27 | `mc` |
/// | 28 | `dpc` |
/// | 29 | reserved |
/// | 30 | `nmic` |
/// | 31 | `rescap` |
/// | 32 | `fpi` |
/// | 33 | `dlfeat` |
/// | 34-4095 | reserved |
#[derive(Clone, Copy, Debug)]
pub struct IdNmsp<'a> {
    bytes: &'a [u8],
}

impl<'a> View for IdNmsp<'a> {
    type V = Seq<u8>;

    closed spec fn view(&self) -> Seq<u8> {
        self.bytes@
    }
}

impl<'a> TransmuteSafe<'a> for IdNmsp<'a> {
    open spec fn size() -> nat {
        4096
    }

    fn byte_len() -> (len: usize) {
        4096
    }

    fn over(bytes: &'a [u8]) -> (record: Self) {
        IdNmsp { bytes }
    }

    fn as_bytes(&self) -> (bytes: &'a [u8]) {
        proof {
            use_type_invariant(self);
        }
        self.bytes
    }
}

impl<'a> IdNmsp<'a> {
    /// A view lies over as many bytes as the record is long.
    #[verifier::type_invariant]
    spec fn well_formed(self) -> bool {
        self.bytes@.len() == 4096
    }

    /// Namespace size: bytes 0 to 7.
    pub fn nsze(&self) -> (value: u64)
        ensures
            value == le_at(self@, 0, 8),
    {
        proof {
            use_type_invariant(self);
        }
        read_u64(self.bytes, 0)
    }

    /// Namespace capacity: bytes 8 to 15.
    pub fn ncap(&self) -> (value: u64)
        ensures
            value == le_at(self@, 8, 8),
    {
        proof {
            use_type_invariant(self);
        }
        read_u64(self.bytes, 8)
    }

    /// Namespace utilization: bytes 16 to 23.
    pub fn nuse(&self) -> (value: u64)
        ensures
            value == le_at(self@, 16, 8),
    {
        proof {
            use_type_invariant(self);
        }
        read_u64(self.bytes, 16)
    }

    /// Namespace features: byte 24.
    pub fn nsfeat(&self) -> (field: Nsfeat)
        ensures
            field@ == self@[24],
    {
        proof {
            use_type_invariant(self);
        }
        Nsfeat::from_bytes([self.bytes[24]])
    }

    /// Number of LBA formats: byte 25.
    pub fn nlbaf(&self) -> (value: u8)
        ensures
            value == self@[25],
    {
        proof {
            use_type_invariant(self);
        }
        self.bytes[25]
    }

    /// Formatted LBA size: byte 26.
    pub fn flbas(&self) -> (field: Flbas)
        ensures
            field@ == self@[26],
    {
        proof {
            use_type_invariant(self);
        }
        Flbas::from_bytes([self.bytes[26]])
    }

    /// Metadata capabilities: byte 27.
    pub fn mc(&self) -> (field: Mc)
        ensures
            field@ == self@[27],
    {
        proof {
            use_type_invariant(self);
        }
        Mc::from_bytes([self.bytes[27]])
    }

    /// End-to-end data protection capabilities: byte 28.
    pub fn dpc(&self) -> (field: Dpc)
        ensures
            field@ == self@[28],
    {
        proof {
            use_type_invariant(self);
        }
        Dpc::from_bytes([self.bytes[28]])
    }

    /// Namespace multi-path I/O and namespace sharing capabilities: byte 30.
    pub fn nmic(&self) -> (field: Nmic)
        ensures
            field@ == self@[30],
    {
        proof {
            use_type_invariant(self);
        }
        Nmic::from_bytes([self.bytes[30]])
    }

    /// Reservation capabilities: byte 31.
    pub fn rescap(&self) -> (field: Rescap)
        ensures
            field@ == self@[31],
    {
        proof {
            use_type_invariant(self);
        }
        Rescap::from_bytes([self.bytes[31]])
    }

    /// Format progress indicator: byte 32.
    pub fn fpi(&self) -> (field: Fpi)
        ensures
            field@ == self@[32],
    {
        proof {
            use_type_invariant(self);
        }
        Fpi::from_bytes([self.bytes[32]])
    }

    /// Deallocate logical block features: byte 33.
    pub fn dlfeat(&self) -> (field: Dlfeat)
        ensures
            field@ == self@[33],
    {
        proof {
            use_type_invariant(self);
        }
        Dlfeat::from_bytes([self.bytes[33]])
    }

    /// The record is 4096 bytes long, and so is every buffer that is viewed
    /// as one.
    pub proof fn lemma_size(len: nat)
        ensures
            Self::size() == 4096,
            <Self as FromBytes<'a>>::legal(len) <==> len == 4096,
    {
    }
}

/// Namespace features: 8 bits, the lowest first.
///
/// | bits | field |
/// |------|-------|
/// | 0 | `thinp` |
/// | 1 | `nsabp` |
/// | 2 | `dae` |
/// | 3 | `uidreuse` |
/// | 4 | `optperf` |
/// | 5-7 | reserved |
#[derive(Clone, Copy, Debug, PartialEq, Eq, Structural)]
pub struct Nsfeat {
    raw: u8,
}

impl View for Nsfeat {
    type V = u8;

    closed spec fn view(&self) -> u8 {
        self.raw
    }
}

impl Nsfeat {
    /// The fields of the value, the lowest first; the bits that have no meaning
    /// count as fields.
    pub open spec fn layout() -> Seq<Field> {
        seq![
            Field { offset: 0, width: 1 },
            Field { offset: 1, width: 1 },
            Field { offset: 2, width: 1 },
            Field { offset: 3, width: 1 },
            Field { offset: 4, width: 1 },
            Field { offset: 5, width: 3 },
        ]
    }

    /// The fields fill the 8 bits: no two of them share a bit and no bit is
    /// left out.
    pub proof fn lemma_layout_fills()
        ensures
            tiles(Self::layout(), 0, 8),
    {
        let from_0 = Self::layout();
        let from_1 = from_0.drop_first();
        let from_2 = from_1.drop_first();
        let from_3 = from_2.drop_first();
        let from_4 = from_3.drop_first();
        let from_5 = from_4.drop_first();
        let from_6 = from_5.drop_first();
        assert(tiles(from_6, 8, 8));
        assert(tiles(from_5, 5, 8));
        assert(tiles(from_4, 4, 8));
        assert(tiles(from_3, 3, 8));
        assert(tiles(from_2, 2, 8));
        assert(tiles(from_1, 1, 8));
    }

    /// A value is made of its fields: it is the sum of what they hold, each at
    /// its place.
    pub proof fn lemma_fields_make_value(self)
        ensures
            sum_of_fields(self@ as u64, Self::layout()) == self@,
    {
        lemma2_to64();
        Self::lemma_layout_fills();
        lemma_fields_make_backing(self@ as u64, Self::layout(), 8);
    }

    /// The value with every bit clear.
    pub fn new() -> (made: Self)
        ensures
            made@ == 0,
    {
        Nsfeat { raw: 0 }
    }

    /// The value that the byte holds.
    pub fn from_bytes(bytes: [u8; 1]) -> (made: Self)
        ensures
            made@ == le_value(bytes@),
            made@ == bytes@[0],
    {
        Nsfeat { raw: u8_of(bytes) }
    }

    /// The byte that holds this value.
    pub fn into_bytes(self) -> (bytes: [u8; 1])
        ensures
            bytes@ == le_bytes(self@ as nat, 1),
    {
        le_array::<1>(self.raw as u128)
    }

    /// The flag `thinp`: bit 0.
    pub fn thinp(&self) -> (flag: bool)
        ensures
            flag == spec_get_flag(self@ as u64, 0),
    {
        get_flag(self.raw as u64, 0)
    }

    /// The flag `nsabp`: bit 1.
    pub fn nsabp(&self) -> (flag: bool)
        ensures
            flag == spec_get_flag(self@ as u64, 1),
    {
        get_flag(self.raw as u64, 1)
    }

    /// The flag `dae`: bit 2.
    pub fn dae(&self) -> (flag: bool)
        ensures
            flag == spec_get_flag(self@ as u64, 2),
    {
        get_flag(self.raw as u64, 2)
    }

    /// The flag `uidreuse`: bit 3.
    pub fn uidreuse(&self) -> (flag: bool)
        ensures
            flag == spec_get_flag(self@ as u64, 3),
    {
        get_flag(self.raw as u64, 3)
    }

    /// The flag `optperf`: bit 4.
    pub fn optperf(&self) -> (flag: bool)
        ensures
            flag == spec_get_flag(self@ as u64, 4),
    {
        get_flag(self.raw as u64, 4)
    }

    /// This value with the flag `thinp` set to `flag`.
    pub fn with_thinp(self, flag: bool) -> (made: Self)
        ensures
            made@ == spec_with_flag(self@ as u64, 0, flag),
    {
        Nsfeat { raw: with_flag(self.raw as u64, 0, flag) as u8 }
    }

    /// This value with the flag `nsabp` set to `flag`.
    pub fn with_nsabp(self, flag: bool) -> (made: Self)
        ensures
            made@ == spec_with_flag(self@ as u64, 1, flag),
    {
        Nsfeat { raw: with_flag(self.raw as u64, 1, flag) as u8 }
    }

    /// This value with the flag `dae` set to `flag`.
    pub fn with_dae(self, flag: bool) -> (made: Self)
        ensures
            made@ == spec_with_flag(self@ as u64, 2, flag),
    {
        Nsfeat { raw: with_flag(self.raw as u64, 2, flag) as u8 }
    }

    /// This value with the flag `uidreuse` set to `flag`.
    pub fn with_uidreuse(self, flag: bool) -> (made: Self)
        ensures
            made@ == spec_with_flag(self@ as u64, 3, flag),
    {
        Nsfeat { raw: with_flag(self.raw as u64, 3, flag) as u8 }
    }

    /// This value with the flag `optperf` set to `flag`.
    pub fn with_optperf(self, flag: bool) -> (made: Self)
        ensures
            made@ == spec_with_flag(self@ as u64, 4, flag),
    {
        Nsfeat { raw: with_flag(self.raw as u64, 4, flag) as u8 }
    }
}

/// Formatted LBA size: 8 bits, the lowest first.
///
/// | bits | field |
/// |------|-------|
/// | 0-3 | `format_index` |
/// | 4 | `extended_data_lba` |
/// | 5-7 | reserved |
#[derive(Clone, Copy, Debug, PartialEq, Eq, Structural)]
pub struct Flbas {
    raw: u8,
}

impl View for Flbas {
    type V = u8;

    closed spec fn view(&self) -> u8 {
        self.raw
    }
}

impl Flbas {
    /// The fields of the value, the lowest first; the bits that have no meaning
    /// count as fields.
    pub open spec fn layout() -> Seq<Field> {
        seq![
            Field { offset: 0, width: 4 },
            Field { offset: 4, width: 1 },
            Field { offset: 5, width: 3 },
        ]
    }

    /// The fields fill the 8 bits: no two of them share a bit and no bit is
    /// left out.
    pub proof fn lemma_layout_fills()
        ensures
            tiles(Self::layout(), 0, 8),
    {
        let from_0 = Self::layout();
        let from_1 = from_0.drop_first();
        let from_2 = from_1.drop_first();
        let from_3 = from_2.drop_first();
        assert(tiles(from_3, 8, 8));
        assert(tiles(from_2, 5, 8));
        assert(tiles(from_1, 4, 8));
    }

    /// A value is made of its fields: it is the sum of what they hold, each at
    /// its place.
    pub proof fn lemma_fields_make_value(self)
        ensures
            sum_of_fields(self@ as u64, Self::layout()) == self@,
    {
        lemma2_to64();
        Self::lemma_layout_fills();
        lemma_fields_make_backing(self@ as u64, Self::layout(), 8);
    }

    /// The value with every bit clear.
    pub fn new() -> (made: Self)
        ensures
            made@ == 0,
    {
        Flbas { raw: 0 }
    }

    /// The value that the byte holds.
    pub fn from_bytes(bytes: [u8; 1]) -> (made: Self)
        ensures
            made@ == le_value(bytes@),
            made@ == bytes@[0],
    {
        Flbas { raw: u8_of(bytes) }
    }

    /// The byte that holds this value.
    pub fn into_bytes(self) -> (bytes: [u8; 1])
        ensures
            bytes@ == le_bytes(self@ as nat, 1),
    {
        le_array::<1>(self.raw as u128)
    }

    /// The number `format_index`: bits 0 to 3.
    pub fn format_index(&self) -> (value: u8)
        ensures
            value == spec_get_field(self@ as u64, 0, 4),
    {
        get_field(self.raw as u64, 0, 4) as u8
    }

    /// The flag `extended_data_lba`: bit 4.
    pub fn extended_data_lba(&self) -> (flag: bool)
        ensures
            flag == spec_get_flag(self@ as u64, 4),
    {
        get_flag(self.raw as u64, 4)
    }

    /// This value with the number `format_index` set to `value`; fails with
    /// `value` when it does not fit 4 bits.
    pub fn with_format_index(self, value: u8) -> (made: Result<Self, u64>)
        ensures
            value < 16 ==> made is Ok && made->Ok_0@ == spec_with_field(
                self@ as u64,
                0,
                4,
                value as u64,
            ),
            value >= 16 ==> made == Err::<Self, u64>(value as u64),
    {
        proof {
            lemma2_to64();
        }
        match with_field(self.raw as u64, 0, 4, value as u64) {
            Ok(raw) => Ok(Flbas { raw: raw as u8 }),
            Err(value) => Err(value),
        }
    }

    /// This value with the flag `extended_data_lba` set to `flag`.
    pub fn with_extended_data_lba(self, flag: bool) -> (made: Self)
        ensures
            made@ == spec_with_flag(self@ as u64, 4, flag),
    {
        Flbas { raw: with_flag(self.raw as u64, 4, flag) as u8 }
    }
}

/// Metadata capabilities: 8 bits, the lowest first.
///
/// | bits | field |
/// |------|-------|
/// | 0 | `extended_data_lba` |
/// | 1 | `separate_meta` |
/// | 2-7 | reserved |
#[derive(Clone, Copy, Debug, PartialEq, Eq, Structural)]
pub struct Mc {
    raw: u8,
}

impl View for Mc {
    type V = u8;

    closed spec fn view(&self) -> u8 {
        self.raw
    }
}

impl Mc {
    /// The fields of the value, the lowest first; the bits that have no meaning
    /// count as fields.
    pub open spec fn layout() -> Seq<Field> {
        seq![
            Field { offset: 0, width: 1 },
            Field { offset: 1, width: 1 },
            Field { offset: 2, width: 6 },
        ]
    }

    /// The fields fill the 8 bits: no two of them share a bit and no bit is
    /// left out.
    pub proof fn lemma_layout_fills()
        ensures
            tiles(Self::layout(), 0, 8),
    {
        let from_0 = Self::layout();
        let from_1 = from_0.drop_first();
        let from_2 = from_1.drop_first();
        let from_3 = from_2.drop_first();
        assert(tiles(from_3, 8, 8));
        assert(tiles(from_2, 2, 8));
        assert(tiles(from_1, 1, 8));
    }

    /// A value is made of its fields: it is the sum of what they hold, each at
    /// its place.
    pub proof fn lemma_fields_make_value(self)
        ensures
            sum_of_fields(self@ as u64, Self::layout()) == self@,
    {
        lemma2_to64();
        Self::lemma_layout_fills();
        lemma_fields_make_backing(self@ as u64, Self::layout(), 8);
    }

    /// The value with every bit clear.
    pub fn new() -> (made: Self)
        ensures
            made@ == 0,
    {
        Mc { raw: 0 }
    }

    /// The value that the byte holds.
    pub fn from_bytes(bytes: [u8; 1]) -> (made: Self)
        ensures
            made@ == le_value(bytes@),
            made@ == bytes@[0],
    {
        Mc { raw: u8_of(bytes) }
    }

    /// The byte that holds this value.
    pub fn into_bytes(self) -> (bytes: [u8; 1])
        ensures
            bytes@ == le_bytes(self@ as nat, 1),
    {
        le_array::<1>(self.raw as u128)
    }

    /// The flag `extended_data_lba`: bit 0.
    pub fn extended_data_lba(&self) -> (flag: bool)
        ensures
            flag == spec_get_flag(self@ as u64, 0),
    {
        get_flag(self.raw as u64, 0)
    }

    /// The flag `separate_meta`: bit 1.
    pub fn separate_meta(&self) -> (flag: bool)
        ensures
            flag == spec_get_flag(self@ as u64, 1),
    {
        get_flag(self.raw as u64, 1)
    }

    /// This value with the flag `extended_data_lba` set to `flag`.
    pub fn with_extended_data_lba(self, flag: bool) -> (made: Self)
        ensures
            made@ == spec_with_flag(self@ as u64, 0, flag),
    {
        Mc { raw: with_flag(self.raw as u64, 0, flag) as u8 }
    }

    /// This value with the flag `separate_meta` set to `flag`.
    pub fn with_separate_meta(self, flag: bool) -> (made: Self)
        ensures
            made@ == spec_with_flag(self@ as u64, 1, flag),
    {
        Mc { raw: with_flag(self.raw as u64, 1, flag) as u8 }
    }
}

/// End-to-end data protection capabilities: 8 bits, the lowest first.
///
/// | bits | field |
/// |------|-------|
/// | 0 | `type_1` |
/// | 1 | `type_2` |
/// | 2 | `type_3` |
/// | 3 | `header` |
/// | 4 | `footer` |
/// | 5-7 | reserved |
#[derive(Clone, Copy, Debug, PartialEq, Eq, Structural)]
pub struct Dpc {
    raw: u8,
}

impl View for Dpc {
    type V = u8;

    closed spec fn view(&self) -> u8 {
        self.raw
    }
}

impl Dpc {
    /// The fields of the value, the lowest first; the bits that have no meaning
    /// count as fields.
    pub open spec fn layout() -> Seq<Field> {
        seq![
            Field { offset: 0, width: 1 },
            Field { offset: 1, width: 1 },
            Field { offset: 2, width: 1 },
            Field { offset: 3, width: 1 },
            Field { offset: 4, width: 1 },
            Field { offset: 5, width: 3 },
        ]
    }

    /// The fields fill the 8 bits: no two of them share a bit and no bit is
    /// left out.
    pub proof fn lemma_layout_fills()
        ensures
            tiles(Self::layout(), 0, 8),
    {
        let from_0 = Self::layout();
        let from_1 = from_0.drop_first();
        let from_2 = from_1.drop_first();
        let from_3 = from_2.drop_first();
        let from_4 = from_3.drop_first();
        let from_5 = from_4.drop_first();
        let from_6 = from_5.drop_first();
        assert(tiles(from_6, 8, 8));
        assert(tiles(from_5, 5, 8));
        assert(tiles(from_4, 4, 8));
        assert(tiles(from_3, 3, 8));
        assert(tiles(from_2, 2, 8));
        assert(tiles(from_1, 1, 8));
    }

    /// A value is made of its fields: it is the sum of what they hold, each at
    /// its place.
    pub proof fn lemma_fields_make_value(self)
        ensures
            sum_of_fields(self@ as u64, Self::layout()) == self@,
    {
        lemma2_to64();
        Self::lemma_layout_fills();
        lemma_fields_make_backing(self@ as u64, Self::layout(), 8);
    }

    /// The value with every bit clear.
    pub fn new() -> (made: Self)
        ensures
            made@ == 0,
    {
        Dpc { raw: 0 }
    }

    /// The value that the byte holds.
    pub fn from_bytes(bytes: [u8; 1]) -> (made: Self)
        ensures
            made@ == le_value(bytes@),
            made@ == bytes@[0],
    {
        Dpc { raw: u8_of(bytes) }
    }

    /// The byte that holds this value.
    pub fn into_bytes(self) -> (bytes: [u8; 1])
        ensures
            bytes@ == le_bytes(self@ as nat, 1),
    {
        le_array::<1>(self.raw as u128)
    }

    /// The flag `type_1`: bit 0.
    pub fn type_1(&self) -> (flag: bool)
        ensures
            flag == spec_get_flag(self@ as u64, 0),
    {
        get_flag(self.raw as u64, 0)
    }

    /// The flag `type_2`: bit 1.
    pub fn type_2(&self) -> (flag: bool)
        ensures
            flag == spec_get_flag(self@ as u64, 1),
    {
        get_flag(self.raw as u64, 1)
    }

    /// The flag `type_3`: bit 2.
    pub fn type_3(&self) -> (flag: bool)
        ensures
            flag == spec_get_flag(self@ as u64, 2),
    {
        get_flag(self.raw as u64, 2)
    }

    /// The flag `header`: bit 3.
    pub fn header(&self) -> (flag: bool)
        ensures
            flag == spec_get_flag(self@ as u64, 3),
    {
        get_flag(self.raw as u64, 3)
    }

    /// The flag `footer`: bit 4.
    pub fn footer(&self) -> (flag: bool)
        ensures
            flag == spec_get_flag(self@ as u64, 4),
    {
        get_flag(self.raw as u64, 4)
    }

    /// This value with the flag `type_1` set to `flag`.
    pub fn with_type_1(self, flag: bool) -> (made: Self)
        ensures
            made@ == spec_with_flag(self@ as u64, 0, flag),
    {
        Dpc { raw: with_flag(self.raw as u64, 0, flag) as u8 }
    }

    /// This value with the flag `type_2` set to `flag`.
    pub fn with_type_2(self, flag: bool) -> (made: Self)
        ensures
            made@ == spec_with_flag(self@ as u64, 1, flag),
    {
        Dpc { raw: with_flag(self.raw as u64, 1, flag) as u8 }
    }

    /// This value with the flag `type_3` set to `flag`.
    pub fn with_type_3(self, flag: bool) -> (made: Self)
        ensures
            made@ == spec_with_flag(self@ as u64, 2, flag),
    {
        Dpc { raw: with_flag(self.raw as u64, 2, flag) as u8 }
    }

    /// This value with the flag `header` set to `flag`.
    pub fn with_header(self, flag: bool) -> (made: Self)
        ensures
            made@ == spec_with_flag(self@ as u64, 3, flag),
    {
        Dpc { raw: with_flag(self.raw as u64, 3, flag) as u8 }
    }

    /// This value with the flag `footer` set to `flag`.
    pub fn with_footer(self, flag: bool) -> (made: Self)
        ensures
            made@ == spec_with_flag(self@ as u64, 4, flag),
    {
        Dpc { raw: with_flag(self.raw as u64, 4, flag) as u8 }
    }
}

/// Namespace multi-path I/O and namespace sharing capabilities: 8 bits, the
/// lowest first.
///
/// | bits | field |
/// |------|-------|
/// | 0 | `shared_nmsp` |
/// | 1-7 | reserved |
#[derive(Clone, Copy, Debug, PartialEq, Eq, Structural)]
pub struct Nmic {
    raw: u8,
}

impl View for Nmic {
    type V = u8;

    closed spec fn view(&self) -> u8 {
        self.raw
    }
}

impl Nmic {
    /// The fields of the value, the lowest first; the bits that have no meaning
    /// count as fields.
    pub open spec fn layout() -> Seq<Field> {
        seq![
            Field { offset: 0, width: 1 },
            Field { offset: 1, width: 7 },
        ]
    }

    /// The fields fill the 8 bits: no two of them share a bit and no bit is
    /// left out.
    pub proof fn lemma_layout_fills()
        ensures
            tiles(Self::layout(), 0, 8),
    {
        let from_0 = Self::layout();
        let from_1 = from_0.drop_first();
        let from_2 = from_1.drop_first();
        assert(tiles(from_2, 8, 8));
        assert(tiles(from_1, 1, 8));
    }

    /// A value is made of its fields: it is the sum of what they hold, each at
    /// its place.
    pub proof fn lemma_fields_make_value(self)
        ensures
            sum_of_fields(self@ as u64, Self::layout()) == self@,
    {
        lemma2_to64();
        Self::lemma_layout_fills();
        lemma_fields_make_backing(self@ as u64, Self::layout(), 8);
    }

    /// The value with every bit clear.
    pub fn new() -> (made: Self)
        ensures
            made@ == 0,
    {
        Nmic { raw: 0 }
    }

    /// The value that the byte holds.
    pub fn from_bytes(bytes: [u8; 1]) -> (made: Self)
        ensures
            made@ == le_value(bytes@),
            made@ == bytes@[0],
    {
        Nmic { raw: u8_of(bytes) }
    }

    /// The byte that holds this value.
    pub fn into_bytes(self) -> (bytes: [u8; 1])
        ensures
            bytes@ == le_bytes(self@ as nat, 1),
    {
        le_array::<1>(self.raw as u128)
    }

    /// The flag `shared_nmsp`: bit 0.
    pub fn shared_nmsp(&self) -> (flag: bool)
        ensures
            flag == spec_get_flag(self@ as u64, 0),
    {
        get_flag(self.raw as u64, 0)
    }

    /// This value with the flag `shared_nmsp` set to `flag`.
    pub fn with_shared_nmsp(self, flag: bool) -> (made: Self)
        ensures
            made@ == spec_with_flag(self@ as u64, 0, flag),
    {
        Nmic { raw: with_flag(self.raw as u64, 0, flag) as u8 }
    }
}

/// Reservation capabilities: 8 bits, the lowest first.
///
/// | bits | field |
/// |------|-------|
/// | 0 | `persist_through_pwr_loss` |
/// | 1 | `write_exclusive` |
/// | 2 | `exclusive_access` |
/// | 3 | `write_exclusive_registrant_only` |
/// | 4 | `exclusive_access_registrant_only` |
/// | 5 | `write_exclusive_all_registrants` |
/// | 6 | `exclusive_access_all_registrants` |
/// | 7 | `ignore_existing_key` |
#[derive(Clone, Copy, Debug, PartialEq, Eq, Structural)]
pub struct Rescap {
    raw: u8,
}

impl View for Rescap {
    type V = u8;

    closed spec fn view(&self) -> u8 {
        self.raw
    }
}

impl Rescap {
    /// The fields of the value, the lowest first; the bits that have no meaning
    /// count as fields.
    pub open spec fn layout() -> Seq<Field> {
        seq![
            Field { offset: 0, width: 1 },
            Field { offset: 1, width: 1 },
            Field { offset: 2, width: 1 },
            Field { offset: 3, width: 1 },
            Field { offset: 4, width: 1 },
            Field { offset: 5, width: 1 },
            Field { offset: 6, width: 1 },
            Field { offset: 7, width: 1 },
        ]
    }

    /// The fields fill the 8 bits: no two of them share a bit and no bit is
    /// left out.
    pub proof fn lemma_layout_fills()
        ensures
            tiles(Self::layout(), 0, 8),
    {
        let from_0 = Self::layout();
        let from_1 = from_0.drop_first();
        let from_2 = from_1.drop_first();
        let from_3 = from_2.drop_first();
        let from_4 = from_3.drop_first();
        let from_5 = from_4.drop_first();
        let from_6 = from_5.drop_first();
        let from_7 = from_6.drop_first();
        let from_8 = from_7.drop_first();
        assert(tiles(from_8, 8, 8));
        assert(tiles(from_7, 7, 8));
        assert(tiles(from_6, 6, 8));
        assert(tiles(from_5, 5, 8));
        assert(tiles(from_4, 4, 8));
        assert(tiles(from_3, 3, 8));
        assert(tiles(from_2, 2, 8));
        assert(tiles(from_1, 1, 8));
    }

    /// A value is made of its fields: it is the sum of what they hold, each at
    /// its place.
    pub proof fn lemma_fields_make_value(self)
        ensures
            sum_of_fields(self@ as u64, Self::layout()) == self@,
    {
        lemma2_to64();
        Self::lemma_layout_fills();
        lemma_fields_make_backing(self@ as u64, Self::layout(), 8);
    }

    /// The value with every bit clear.
    pub fn new() -> (made: Self)
        ensures
            made@ == 0,
    {
        Rescap { raw: 0 }
    }

    /// The value that the byte holds.
    pub fn from_bytes(bytes: [u8; 1]) -> (made: Self)
        ensures
            made@ == le_value(bytes@),
            made@ == bytes@[0],
    {
        Rescap { raw: u8_of(bytes) }
    }

    /// The byte that holds this value.
    pub fn into_bytes(self) -> (bytes: [u8; 1])
        ensures
            bytes@ == le_bytes(self@ as nat, 1),
    {
        le_array::<1>(self.raw as u128)
    }

    /// The flag `persist_through_pwr_loss`: bit 0.
    pub fn persist_through_pwr_loss(&self) -> (flag: bool)
        ensures
            flag == spec_get_flag(self@ as u64, 0),
    {
        get_flag(self.raw as u64, 0)
    }

    /// The flag `write_exclusive`: bit 1.
    pub fn write_exclusive(&self) -> (flag: bool)
        ensures
            flag == spec_get_flag(self@ as u64, 1),
    {
        get_flag(self.raw as u64, 1)
    }

    /// The flag `exclusive_access`: bit 2.
    pub fn exclusive_access(&self) -> (flag: bool)
        ensures
            flag == spec_get_flag(self@ as u64, 2),
    {
        get_flag(self.raw as u64, 2)
    }

    /// The flag `write_exclusive_registrant_only`: bit 3.
    pub fn write_exclusive_registrant_only(&self) -> (flag: bool)
        ensures
            flag == spec_get_flag(self@ as u64, 3),
    {
        get_flag(self.raw as u64, 3)
    }

    /// The flag `exclusive_access_registrant_only`: bit 4.
    pub fn exclusive_access_registrant_only(&self) -> (flag: bool)
        ensures
            flag == spec_get_flag(self@ as u64, 4),
    {
        get_flag(self.raw as u64, 4)
    }

    /// The flag `write_exclusive_all_registrants`: bit 5.
    pub fn write_exclusive_all_registrants(&self) -> (flag: bool)
        ensures
            flag == spec_get_flag(self@ as u64, 5),
    {
        get_flag(self.raw as u64, 5)
    }

    /// The flag `exclusive_access_all_registrants`: bit 6.
    pub fn exclusive_access_all_registrants(&self) -> (flag: bool)
        ensures
            flag == spec_get_flag(self@ as u64, 6),
    {
        get_flag(self.raw as u64, 6)
    }

    /// The flag `ignore_existing_key`: bit 7.
    pub fn ignore_existing_key(&self) -> (flag: bool)
        ensures
            flag == spec_get_flag(self@ as u64, 7),
    {
        get_flag(self.raw as u64, 7)
    }

    /// This value with the flag `persist_through_pwr_loss` set to `flag`.
    pub fn with_persist_through_pwr_loss(self, flag: bool) -> (made: Self)
        ensures
            made@ == spec_with_flag(self@ as u64, 0, flag),
    {
        Rescap { raw: with_flag(self.raw as u64, 0, flag) as u8 }
    }

    /// This value with the flag `write_exclusive` set to `flag`.
    pub fn with_write_exclusive(self, flag: bool) -> (made: Self)
        ensures
            made@ == spec_with_flag(self@ as u64, 1, flag),
    {
        Rescap { raw: with_flag(self.raw as u64, 1, flag) as u8 }
    }

    /// This value with the flag `exclusive_access` set to `flag`.
    pub fn with_exclusive_access(self, flag: bool) -> (made: Self)
        ensures
            made@ == spec_with_flag(self@ as u64, 2, flag),
    {
        Rescap { raw: with_flag(self.raw as u64, 2, flag) as u8 }
    }

    /// This value with the flag `write_exclusive_registrant_only` set to `flag`.
    pub fn with_write_exclusive_registrant_only(self, flag: bool) -> (made: Self)
        ensures
            made@ == spec_with_flag(self@ as u64, 3, flag),
    {
        Rescap { raw: with_flag(self.raw as u64, 3, flag) as u8 }
    }

    /// This value with the flag `exclusive_access_registrant_only` set to `flag`.
    pub fn with_exclusive_access_registrant_only(self, flag: bool) -> (made: Self)
        ensures
            made@ == spec_with_flag(self@ as u64, 4, flag),
    {
        Rescap { raw: with_flag(self.raw as u64, 4, flag) as u8 }
    }

    /// This value with the flag `write_exclusive_all_registrants` set to `flag`.
    pub fn with_write_exclusive_all_registrants(self, flag: bool) -> (made: Self)
        ensures
            made@ == spec_with_flag(self@ as u64, 5, flag),
    {
        Rescap { raw: with_flag(self.raw as u64, 5, flag) as u8 }
    }

    /// This value with the flag `exclusive_access_all_registrants` set to `flag`.
    pub fn with_exclusive_access_all_registrants(self, flag: bool) -> (made: Self)
        ensures
            made@ == spec_with_flag(self@ as u64, 6, flag),
    {
        Rescap { raw: with_flag(self.raw as u64, 6, flag) as u8 }
    }

    /// This value with the flag `ignore_existing_key` set to `flag`.
    pub fn with_ignore_existing_key(self, flag: bool) -> (made: Self)
        ensures
            made@ == spec_with_flag(self@ as u64, 7, flag),
    {
        Rescap { raw: with_flag(self.raw as u64, 7, flag) as u8 }
    }
}

/// Format progress indicator: 8 bits, the lowest first.
///
/// | bits | field |
/// |------|-------|
/// | 0-6 | `percent_remaining` |
/// | 7 | `supported` |
#[derive(Clone, Copy, Debug, PartialEq, Eq, Structural)]
pub struct Fpi {
    raw: u8,
}

impl View for Fpi {
    type V = u8;

    closed spec fn view(&self) -> u8 {
        self.raw
    }
}

impl Fpi {
    /// The fields of the value, the lowest first; the bits that have no meaning
    /// count as fields.
    pub open spec fn layout() -> Seq<Field> {
        seq![
            Field { offset: 0, width: 7 },
            Field { offset: 7, width: 1 },
        ]
    }

    /// The fields fill the 8 bits: no two of them share a bit and no bit is
    /// left out.
    pub proof fn lemma_layout_fills()
        ensures
            tiles(Self::layout(), 0, 8),
    {
        let from_0 = Self::layout();
        let from_1 = from_0.drop_first();
        let from_2 = from_1.drop_first();
        assert(tiles(from_2, 8, 8));
        assert(tiles(from_1, 7, 8));
    }

    /// A value is made of its fields: it is the sum of what they hold, each at
    /// its place.
    pub proof fn lemma_fields_make_value(self)
        ensures
            sum_of_fields(self@ as u64, Self::layout()) == self@,
    {
        lemma2_to64();
        Self::lemma_layout_fills();
        lemma_fields_make_backing(self@ as u64, Self::layout(), 8);
    }

    /// The value with every bit clear.
    pub fn new() -> (made: Self)
        ensures
            made@ == 0,
    {
        Fpi { raw: 0 }
    }

    /// The value that the byte holds.
    pub fn from_bytes(bytes: [u8; 1]) -> (made: Self)
        ensures
            made@ == le_value(bytes@),
            made@ == bytes@[0],
    {
        Fpi { raw: u8_of(bytes) }
    }

    /// The byte that holds this value.
    pub fn into_bytes(self) -> (bytes: [u8; 1])
        ensures
            bytes@ == le_bytes(self@ as nat, 1),
    {
        le_array::<1>(self.raw as u128)
    }

    /// The number `percent_remaining`: bits 0 to 6.
    pub fn percent_remaining(&self) -> (value: u8)
        ensures
            value == spec_get_field(self@ as u64, 0, 7),
    {
        get_field(self.raw as u64, 0, 7) as u8
    }

    /// The flag `supported`: bit 7.
    pub fn supported(&self) -> (flag: bool)
        ensures
            flag == spec_get_flag(self@ as u64, 7),
    {
        get_flag(self.raw as u64, 7)
    }

    /// This value with the number `percent_remaining` set to `value`; fails
    /// with `value` when it does not fit 7 bits.
    pub fn with_percent_remaining(self, value: u8) -> (made: Result<Self, u64>)
        ensures
            value < 128 ==> made is Ok && made->Ok_0@ == spec_with_field(
                self@ as u64,
                0,
                7,
                value as u64,
            ),
            value >= 128 ==> made == Err::<Self, u64>(value as u64),
    {
        proof {
            lemma2_to64();
        }
        match with_field(self.raw as u64, 0, 7, value as u64) {
            Ok(raw) => Ok(Fpi { raw: raw as u8 }),
            Err(value) => Err(value),
        }
    }

    /// This value with the flag `supported` set to `flag`.
    pub fn with_supported(self, flag: bool) -> (made: Self)
        ensures
            made@ == spec_with_flag(self@ as u64, 7, flag),
    {
        Fpi { raw: with_flag(self.raw as u64, 7, flag) as u8 }
    }
}

/// Deallocate logical block features: 8 bits, the lowest first.
///
/// | bits | field |
/// |------|-------|
/// | 0-2 | `dealloc_read_behavior` |
/// | 3 | `supported` |
/// | 4 | `guard_crc` |
/// | 5-7 | reserved |
#[derive(Clone, Copy, Debug, PartialEq, Eq, Structural)]
pub struct Dlfeat {
    raw: u8,
}

impl View for Dlfeat {
    type V = u8;

    closed spec fn view(&self) -> u8 {
        self.raw
    }
}

impl Dlfeat {
    /// The fields of the value, the lowest first; the bits that have no meaning
    /// count as fields.
    pub open spec fn layout() -> Seq<Field> {
        seq![
            Field { offset: 0, width: 3 },
            Field { offset: 3, width: 1 },
            Field { offset: 4, width: 1 },
            Field { offset: 5, width: 3 },
        ]
    }

    /// The fields fill the 8 bits: no two of them share a bit and no bit is
    /// left out.
    pub proof fn lemma_layout_fills()
        ensures
            tiles(Self::layout(), 0, 8),
    {
        let from_0 = Self::layout();
        let from_1 = from_0.drop_first();
        let from_2 = from_1.drop_first();
        let from_3 = from_2.drop_first();
        let from_4 = from_3.drop_first();
        assert(tiles(from_4, 8, 8));
        assert(tiles(from_3, 5, 8));
        assert(tiles(from_2, 4, 8));
        assert(tiles(from_1, 3, 8));
    }

    /// A value is made of its fields: it is the sum of what they hold, each at
    /// its place.
    pub proof fn lemma_fields_make_value(self)
        ensures
            sum_of_fields(self@ as u64, Self::layout()) == self@,
    {
        lemma2_to64();
        Self::lemma_layout_fills();
        lemma_fields_make_backing(self@ as u64, Self::layout(), 8);
    }

    /// The value with every bit clear.
    pub fn new() -> (made: Self)
        ensures
            made@ == 0,
    {
        Dlfeat { raw: 0 }
    }

    /// The value that the byte holds.
    pub fn from_bytes(bytes: [u8; 1]) -> (made: Self)
        ensures
            made@ == le_value(bytes@),
            made@ == bytes@[0],
    {
        Dlfeat { raw: u8_of(bytes) }
    }

    /// The byte that holds this value.
    pub fn into_bytes(self) -> (bytes: [u8; 1])
        ensures
            bytes@ == le_bytes(self@ as nat, 1),
    {
        le_array::<1>(self.raw as u128)
    }

    /// The number `dealloc_read_behavior`: bits 0 to 2.
    pub fn dealloc_read_behavior(&self) -> (value: u8)
        ensures
            value == spec_get_field(self@ as u64, 0, 3),
    {
        get_field(self.raw as u64, 0, 3) as u8
    }

    /// The flag `supported`: bit 3.
    pub fn supported(&self) -> (flag: bool)
        ensures
            flag == spec_get_flag(self@ as u64, 3),
    {
        get_flag(self.raw as u64, 3)
    }

    /// The flag `guard_crc`: bit 4.
    pub fn guard_crc(&self) -> (flag: bool)
        ensures
            flag == spec_get_flag(self@ as u64, 4),
    {
        get_flag(self.raw as u64, 4)
    }

    /// This value with the number `dealloc_read_behavior` set to `value`;
    /// fails with `value` when it does not fit 3 bits.
    pub fn with_dealloc_read_behavior(self, value: u8) -> (made: Result<Self, u64>)
        ensures
            value < 8 ==> made is Ok && made->Ok_0@ == spec_with_field(
                self@ as u64,
                0,
                3,
                value as u64,
            ),
            value >= 8 ==> made == Err::<Self, u64>(value as u64),
    {
        proof {
            lemma2_to64();
        }
        match with_field(self.raw as u64, 0, 3, value as u64) {
            Ok(raw) => Ok(Dlfeat { raw: raw as u8 }),
            Err(value) => Err(value),
        }
    }

    /// This value with the flag `supported` set to `flag`.
    pub fn with_supported(self, flag: bool) -> (made: Self)
        ensures
            made@ == spec_with_flag(self@ as u64, 3, flag),
    {
        Dlfeat { raw: with_flag(self.raw as u64, 3, flag) as u8 }
    }

    /// This value with the flag `guard_crc` set to `flag`.
    pub fn with_guard_crc(self, flag: bool) -> (made: Self)
        ensures
            made@ == spec_with_flag(self@ as u64, 4, flag),
    {
        Dlfeat { raw: with_flag(self.raw as u64, 4, flag) as u8 }
    }
}

} // verus!
