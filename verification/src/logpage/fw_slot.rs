//! The firmware slot log.

use crate::bitfield::{
    get_field,
    lemma_fields_make_backing,
    spec_get_field,
    spec_with_field,
    sum_of_fields,
    tiles,
    with_field,
    Field,
};
use crate::util::{
    lossy_text,
    text_before_padding,
    unpadded,
    FixedStr,
    FromBytes,
    TransmuteSafe,
};
use crate::wire::{le_array, le_bytes, le_value, read_array, u8_of};
use std::borrow::Cow;
use vstd::arithmetic::power2::lemma2_to64;
use vstd::prelude::*;
use vstd::slice::slice_subrange;
use vstd::std_specs::convert::{FromSpecImpl, TryFromSpecImpl};
use vstd::utf8::{decode_utf8, valid_utf8};

verus! {

/// The firmware slot log: a record of 512 bytes.
///
/// | bytes | field |
/// |-------|-------|
/// | 0 | `afi` |
/// | 1-7 | reserved |
/// | 8-63 | `frs` |
/// | 64-511 | reserved |
#[derive(Clone, Copy, Debug)]
pub struct FwSlotLog<'a> {
    bytes: &'a [u8],
}

impl<'a> View for FwSlotLog<'a> {
    type V = Seq<u8>;

    closed spec fn view(&self) -> Seq<u8> {
        self.bytes@
    }
}

impl<'a> TransmuteSafe<'a> for FwSlotLog<'a> {
    open spec fn size() -> nat {
        512
    }

    fn byte_len() -> (len: usize) {
        512
    }

    fn over(bytes: &'a [u8]) -> (record: Self) {
        FwSlotLog { bytes }
    }

    fn as_bytes(&self) -> (bytes: &'a [u8]) {
        proof {
            use_type_invariant(self);
        }
        self.bytes
    }
}

impl<'a> FwSlotLog<'a> {
    /// A view lies over as many bytes as the record is long.
    #[verifier::type_invariant]
    spec fn well_formed(self) -> bool {
        self.bytes@.len() == 512
    }

    /// Active firmware info: byte 0.
    pub fn afi(&self) -> (field: ActiveFwInfo)
        ensures
            field@ == self@[0],
    {
        proof {
            use_type_invariant(self);
        }
        ActiveFwInfo::from_bytes([self.bytes[0]])
    }

    /// The firmware revision of each of the seven slots: bytes 8 to 63,
    /// eight bytes each.
    pub fn frs(&self) -> (slots: [FixedStr<8>; 7])
        ensures
            forall|i: int| 0 <= i < 7 ==> slots@[i]@ == self@.subrange(8 + 8 * i, 16 + 8 * i),
    {
        proof {
            use_type_invariant(self);
        }
        let mut slots = [FixedStr::from_array([0u8; 8]); 7];
        let mut done: usize = 0;
        while done < 7
            invariant
                done <= 7,
                self.bytes@.len() == 512,
                forall|i: int|
                    0 <= i < done ==> slots@[i]@ == self.bytes@.subrange(8 + 8 * i, 16 + 8 * i),
            decreases 7 - done,
        {
            slots[done] = FixedStr::from_array(read_array::<8>(self.bytes, 8 + 8 * done));
            done = done + 1;
        }
        slots
    }

    /// The firmware revision in slot `index`, which is below 7, as text:
    /// the text of the slot's bytes before their padding. Well-formed text is
    /// borrowed from the record's bytes; what is not UTF-8 shows as the
    /// replacement character.
    pub fn get_slot(&self, index: usize) -> (text: Cow<'a, str>)
        requires
            index < 7,
        ensures
            text@ == lossy_text(unpadded(self@.subrange(8 + 8 * index, 16 + 8 * index))),
            valid_utf8(unpadded(self@.subrange(8 + 8 * index, 16 + 8 * index))) ==> text@
                == decode_utf8(unpadded(self@.subrange(8 + 8 * index, 16 + 8 * index))),
    {
        proof {
            use_type_invariant(self);
        }
        text_before_padding(slice_subrange(self.bytes, 8 + 8 * index, 16 + 8 * index))
    }

    /// The record is 512 bytes long, and so is every buffer that is viewed
    /// as one.
    pub proof fn lemma_size(len: nat)
        ensures
            Self::size() == 512,
            <Self as FromBytes<'a>>::legal(len) <==> len == 512,
    {
    }
}

/// Which firmware slot is active, and which will be: 8 bits, the lowest first.
///
/// | bits | field |
/// |------|-------|
/// | 0-2 | `active_slot` |
/// | 3 | reserved |
/// | 4-6 | `next_active` |
/// | 7 | reserved |
#[derive(Clone, Copy, Debug, PartialEq, Eq, Structural)]
pub struct ActiveFwInfo {
    raw: u8,
}

impl View for ActiveFwInfo {
    type V = u8;

    closed spec fn view(&self) -> u8 {
        self.raw
    }
}

impl ActiveFwInfo {
    /// The fields of the value, the lowest first; the bits that have no meaning
    /// count as fields.
    pub open spec fn layout() -> Seq<Field> {
        seq![
            Field { offset: 0, width: 3 },
            Field { offset: 3, width: 1 },
            Field { offset: 4, width: 3 },
            Field { offset: 7, width: 1 },
        ]
    }

    /// The fields fill the 8 bits: no two of them share a bit and no bit is
    /// left out.
    pub proof fn lemma_layout_fills()
        ensures
            tiles(Self::layout(), 0, 8),
    {
        let from_0 = Self::layout();
        let from_1 = from_0.drop_first();
        let from_2 = from_1.drop_first();
        let from_3 = from_2.drop_first();
        let from_4 = from_3.drop_first();
        assert(tiles(from_4, 8, 8));
        assert(tiles(from_3, 7, 8));
        assert(tiles(from_2, 4, 8));
        assert(tiles(from_1, 3, 8));
    }

    /// A value is made of its fields: it is the sum of what they hold, each at
    /// its place.
    pub proof fn lemma_fields_make_value(self)
        ensures
            sum_of_fields(self@ as u64, Self::layout()) == self@,
    {
        lemma2_to64();
        Self::lemma_layout_fills();
        lemma_fields_make_backing(self@ as u64, Self::layout(), 8);
    }

    /// The value with every bit clear.
    pub fn new() -> (made: Self)
        ensures
            made@ == 0,
    {
        ActiveFwInfo { raw: 0 }
    }

    /// The value that the byte holds.
    pub fn from_bytes(bytes: [u8; 1]) -> (made: Self)
        ensures
            made@ == le_value(bytes@),
            made@ == bytes@[0],
    {
        ActiveFwInfo { raw: u8_of(bytes) }
    }

    /// The byte that holds this value.
    pub fn into_bytes(self) -> (bytes: [u8; 1])
        ensures
            bytes@ == le_bytes(self@ as nat, 1),
    {
        le_array::<1>(self.raw as u128)
    }

    /// The number `active_slot`: bits 0 to 2.
    pub fn active_slot(&self) -> (value: u8)
        ensures
            value == spec_get_field(self@ as u64, 0, 3),
    {
        get_field(self.raw as u64, 0, 3) as u8
    }

    /// The number `next_active`: bits 4 to 6.
    pub fn next_active(&self) -> (value: u8)
        ensures
            value == spec_get_field(self@ as u64, 4, 3),
    {
        get_field(self.raw as u64, 4, 3) as u8
    }

    /// This value with the number `active_slot` set to `value`; fails with
    /// `value` when it does not fit 3 bits.
    pub fn with_active_slot(self, value: u8) -> (made: Result<Self, u64>)
        ensures
            value < 8 ==> made is Ok && made->Ok_0@ == spec_with_field(
                self@ as u64,
                0,
                3,
                value as u64,
            ),
            value >= 8 ==> made == Err::<Self, u64>(value as u64),
    {
        proof {
            lemma2_to64();
        }
        match with_field(self.raw as u64, 0, 3, value as u64) {
            Ok(raw) => Ok(ActiveFwInfo { raw: raw as u8 }),
            Err(value) => Err(value),
        }
    }

    /// This value with the number `next_active` set to `value`; fails with
    /// `value` when it does not fit 3 bits.
    pub fn with_next_active(self, value: u8) -> (made: Result<Self, u64>)
        ensures
            value < 8 ==> made is Ok && made->Ok_0@ == spec_with_field(
                self@ as u64,
                4,
                3,
                value as u64,
            ),
            value >= 8 ==> made == Err::<Self, u64>(value as u64),
    {
        proof {
            lemma2_to64();
        }
        match with_field(self.raw as u64, 4, 3, value as u64) {
            Ok(raw) => Ok(ActiveFwInfo { raw: raw as u8 }),
            Err(value) => Err(value),
        }
    }
}

/// Active firmware info taken apart into plain values, for interchange.
#[derive(Clone, Copy, Debug, PartialEq, Eq, Structural)]
pub struct ActiveFwInfoUnpacked {
    pub active_slot: u8,
    pub next_active: u8,
}

impl ActiveFwInfoUnpacked {
    /// The eight bits that these parts make up. Meant for slots below 8.
    pub open spec fn word(self) -> nat {
        (self.active_slot + 16 * self.next_active) as nat
    }

    /// The slot that does not fit its three bits, if there is one: the
    /// active slot is looked at first.
    pub open spec fn unfit(self) -> Option<u64> {
        if self.active_slot >= 8 {
            Some(self.active_slot as u64)
        } else if self.next_active >= 8 {
            Some(self.next_active as u64)
        } else {
            None
        }
    }

    /// The info that these parts make, or the slot that does not fit.
    pub open spec fn packed(self) -> Result<ActiveFwInfo, u64> {
        match self.unfit() {
            Some(value) => Err(value),
            None => Ok(ActiveFwInfo::of_bits(self.word() as u8)),
        }
    }
}

impl ActiveFwInfo {
    /// The info with the bits `raw`.
    pub closed spec fn of_bits(raw: u8) -> Self {
        ActiveFwInfo { raw }
    }

    /// The info made of given bits holds those bits.
    pub proof fn lemma_of_bits(raw: u8)
        ensures
            Self::of_bits(raw)@ == raw,
    {
    }

    /// This info taken apart.
    pub open spec fn unpacked(self) -> ActiveFwInfoUnpacked {
        ActiveFwInfoUnpacked {
            active_slot: spec_get_field(self@ as u64, 0, 3) as u8,
            next_active: spec_get_field(self@ as u64, 4, 3) as u8,
        }
    }
}

impl From<ActiveFwInfo> for ActiveFwInfoUnpacked {
    /// Takes the info apart. Every info can be.
    fn from(packed: ActiveFwInfo) -> (unpacked: Self) {
        ActiveFwInfoUnpacked {
            active_slot: packed.active_slot(),
            next_active: packed.next_active(),
        }
    }
}

impl FromSpecImpl<ActiveFwInfo> for ActiveFwInfoUnpacked {
    open spec fn obeys_from_spec() -> bool {
        true
    }

    open spec fn from_spec(packed: ActiveFwInfo) -> Self {
        packed.unpacked()
    }
}

impl TryFrom<ActiveFwInfoUnpacked> for ActiveFwInfo {
    type Error = u64;

    /// Puts the info together. Fails with the first slot that does not fit
    /// its three bits.
    fn try_from(unpacked: ActiveFwInfoUnpacked) -> (packed: Result<Self, u64>)
        ensures
            unpacked.unfit() is None ==> packed is Ok && packed->Ok_0@ == unpacked.word(),
            unpacked.unfit() is Some ==> packed == Err::<Self, u64>(unpacked.unfit()->Some_0),
    {
        proof {
            lemma2_to64();
        }
        ActiveFwInfo::new().with_active_slot(unpacked.active_slot)?.with_next_active(
            unpacked.next_active,
        )
    }
}

impl TryFromSpecImpl<ActiveFwInfoUnpacked> for ActiveFwInfo {
    open spec fn obeys_try_from_spec() -> bool {
        true
    }

    open spec fn try_from_spec(unpacked: ActiveFwInfoUnpacked) -> Result<Self, u64> {
        unpacked.packed()
    }
}

/// Parts that are put together and taken apart again are the same parts.
pub proof fn lemma_pack_then_unpack(unpacked: ActiveFwInfoUnpacked, packed: ActiveFwInfo)
    requires
        unpacked.unfit() is None,
        packed@ == unpacked.word(),
    ensures
        packed.unpacked() == unpacked,
{
    lemma2_to64();
}

} // verus!
