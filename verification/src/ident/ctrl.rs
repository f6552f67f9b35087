//! The identify-controller record, and the bit fields, the enumerations and
//! the power state descriptors in it.

use crate::bitfield::{
    flag_bit,
    get_field,
    get_flag,
    lemma_fields_make_backing,
    put_field,
    spec_get_field,
    spec_get_flag,
    spec_with_field,
    spec_with_flag,
    sum_of_fields,
    tiles,
    with_field,
    with_flag,
    Field,
};
use crate::util::{flags_of, BitArray, FixedStr, FromBytes, TransmuteSafe};
use crate::wire::{
    le_array,
    le_at,
    le_bytes,
    le_value,
    lemma_le_bytes_of_value,
    lemma_le_value_of_bytes,
    lemma_pow256_values,
    read_array,
    read_le,
    read_u128,
    read_u16,
    read_u16s,
    read_u32,
    read_u64,
    u16_of,
    u32_of,
    u8_of,
};
use vstd::arithmetic::power2::{lemma2_to64, lemma2_to64_rest};
use vstd::prelude::*;
use vstd::std_specs::convert::{FromSpecImpl, TryFromSpecImpl};

verus! {

/// What a controller reports of itself: a record of 4096 bytes.
///
/// | bytes | field |
/// |-------|-------|
/// | 0-1 | `vid` |
/// | 2-3 | `ssvid` |
/// | 4-23 | `sn` |
/// | 24-63 | `mn` |
/// | 64-71 | `fr` |
/// | 72 | `rab` |
/// | 73-75 | `ieee` |
/// | 76 | `cmic` |
/// | 77 | `mdts` |
/// | 78-79 | `cntlid` |
/// | 80-83 | `ver` |
/// | 84-87 | `rtd3r` |
/// | 88-91 | `rtd3e` |
/// | 92-95 | `oaes` |
/// | 96-99 | `ctrattr` |
/// | 100-101 | `rrls` |
/// | 102-110 | reserved |
/// | 111 | `cntrltype` |
/// | 112-127 | `fguid` |
/// | 128-133 | `crdt` |
/// | 134-252 | reserved |
/// | 253 | `nvmsr` |
/// | 254 | `vwci` |
/// | 255 | `mec` |
/// | 256-257 | `oacs` |
/// | 258 | `acl` |
/// | 259 | `aerl` |
/// | 260 | `frmw` |
/// | 261 | `lpa` |
/// | 262 | `elpe` |
/// | 263 | `npss` |
/// | 264 | `avscc` |
/// | 265 | `apsta` |
/// | 266-267 | `wctemp` |
/// | 268-269 | `cctemp` |
/// | 270-271 | `mtfa` |
/// | 272-275 | `hmpre` |
/// | 276-279 | `hmmin` |
/// | 280-295 | `tnvmcap` |
/// | 296-311 | `unvmcap` |
/// | 312-315 | `rpmbs` |
/// | 316-317 | `edst` |
/// | 318 | `dsto` |
/// | 319 | `fwug` |
/// | 320-321 | `kas` |
/// | 322-323 | `hctma` |
/// | 324-325 | `mntmt` |
/// | 326-327 | `mxtmt` |
/// | 328-331 | `sanicap` |
/// | 332-335 | `hmminds` |
/// | 336-337 | `hmmaxd` |
/// | 338-339 | `nsetidmax` |
/// | 340-341 | `endgidmax` |
/// | 342 | `anatt` |
/// | 343 | `anacap` |
/// | 344-347 | `anagrpmax` |
/// | 348-351 | `nanagrpid` |
/// | 352-355 | `pels` |
/// | 356-511 | reserved |
/// | 512 | `sqes` |
/// | 513 | `cqes` |
/// | 514-515 | `maxcmd` |
/// | 516-519 | `nn` |
/// | 520-521 | `oncs` |
/// | 522-523 | `fuses` |
/// | 524 | `fna` |
/// | 525 | `vwc` |
/// | 526-527 | `awun` |
/// | 528-529 | `awupf` |
/// | 530 | `nvscc` |
/// | 531 | `nwpc` |
/// | 532-533 | `acwu` |
/// | 534-535 | reserved |
/// | 536-539 | `sgls` |
/// | 540-543 | `mnan` |
/// | 544-767 | reserved |
/// | 768-1023 | `subnqn` |
/// | 1024-2047 | reserved |
/// | 2048-3071 | `psds` |
/// | 3072-4095 | reserved |
#[derive(Clone, Copy, Debug)]
pub struct IdCtrl<'a> {
    bytes: &'a [u8],
}

impl<'a> View for IdCtrl<'a> {
    type V = Seq<u8>;

    closed spec fn view(&self) -> Seq<u8> {
        self.bytes@
    }
}

impl<'a> TransmuteSafe<'a> for IdCtrl<'a> {
    open spec fn size() -> nat {
        4096
    }

    fn byte_len() -> (len: usize) {
        4096
    }

    fn over(bytes: &'a [u8]) -> (record: Self) {
        IdCtrl { bytes }
    }

    fn as_bytes(&self) -> (bytes: &'a [u8]) {
        proof {
            use_type_invariant(self);
        }
        self.bytes
    }
}

impl<'a> IdCtrl<'a> {
    /// A view lies over as many bytes as the record is long.
    #[verifier::type_invariant]
    spec fn well_formed(self) -> bool {
        self.bytes@.len() == 4096
    }

    /// PCI vendor identifier: bytes 0 to 1.
    pub fn vid(&self) -> (value: u16)
        ensures
            value == le_at(self@, 0, 2),
    {
        proof {
            use_type_invariant(self);
        }
        read_u16(self.bytes, 0)
    }

    /// PCI subsystem vendor identifier: bytes 2 to 3.
    pub fn ssvid(&self) -> (value: u16)
        ensures
            value == le_at(self@, 2, 2),
    {
        proof {
            use_type_invariant(self);
        }
        read_u16(self.bytes, 2)
    }

    /// Serial number: bytes 4 to 23.
    pub fn sn(&self) -> (text: FixedStr<20>)
        ensures
            text@ == self@.subrange(4, 24),
    {
        proof {
            use_type_invariant(self);
        }
        FixedStr::from_array(read_array::<20>(self.bytes, 4))
    }

    /// Model number: bytes 24 to 63.
    pub fn mn(&self) -> (text: FixedStr<40>)
        ensures
            text@ == self@.subrange(24, 64),
    {
        proof {
            use_type_invariant(self);
        }
        FixedStr::from_array(read_array::<40>(self.bytes, 24))
    }

    /// Firmware revision: bytes 64 to 71.
    pub fn fr(&self) -> (text: FixedStr<8>)
        ensures
            text@ == self@.subrange(64, 72),
    {
        proof {
            use_type_invariant(self);
        }
        FixedStr::from_array(read_array::<8>(self.bytes, 64))
    }

    /// Recommended arbitration burst: byte 72.
    pub fn rab(&self) -> (value: u8)
        ensures
            value == self@[72],
    {
        proof {
            use_type_invariant(self);
        }
        self.bytes[72]
    }

    /// IEEE OUI identifier: bytes 73 to 75.
    pub fn ieee(&self) -> (held: Ieee)
        ensures
            held@ == self@.subrange(73, 76),
    {
        proof {
            use_type_invariant(self);
        }
        Ieee::from_array(read_array::<3>(self.bytes, 73))
    }

    /// Controller multi-path I/O and namespace sharing capabilities: byte 76.
    pub fn cmic(&self) -> (field: Cmic)
        ensures
            field@ == self@[76],
    {
        proof {
            use_type_invariant(self);
        }
        Cmic::from_bytes([self.bytes[76]])
    }

    /// Maximum data transfer size: byte 77.
    pub fn mdts(&self) -> (value: u8)
        ensures
            value == self@[77],
    {
        proof {
            use_type_invariant(self);
        }
        self.bytes[77]
    }

    /// Controller identifier: bytes 78 to 79.
    pub fn cntlid(&self) -> (value: u16)
        ensures
            value == le_at(self@, 78, 2),
    {
        proof {
            use_type_invariant(self);
        }
        read_u16(self.bytes, 78)
    }

    /// Version: bytes 80 to 83.
    pub fn ver(&self) -> (value: u32)
        ensures
            value == le_at(self@, 80, 4),
    {
        proof {
            use_type_invariant(self);
        }
        read_u32(self.bytes, 80)
    }

    /// RTD3 resume latency: bytes 84 to 87.
    pub fn rtd3r(&self) -> (value: u32)
        ensures
            value == le_at(self@, 84, 4),
    {
        proof {
            use_type_invariant(self);
        }
        read_u32(self.bytes, 84)
    }

    /// RTD3 entry latency: bytes 88 to 91.
    pub fn rtd3e(&self) -> (value: u32)
        ensures
            value == le_at(self@, 88, 4),
    {
        proof {
            use_type_invariant(self);
        }
        read_u32(self.bytes, 88)
    }

    /// Optional asynchronous events supported: bytes 92 to 95.
    pub fn oaes(&self) -> (field: Oaes)
        ensures
            field@ == le_at(self@, 92, 4),
    {
        proof {
            use_type_invariant(self);
        }
        Oaes::from_bytes(read_array::<4>(self.bytes, 92))
    }

    /// Controller attributes: bytes 96 to 99.
    pub fn ctrattr(&self) -> (field: CtrlAttr)
        ensures
            field@ == le_at(self@, 96, 4),
    {
        proof {
            use_type_invariant(self);
        }
        CtrlAttr::from_bytes(read_array::<4>(self.bytes, 96))
    }

    /// Read recovery levels supported: bytes 100 to 101.
    pub fn rrls(&self) -> (flags: BitArray<2>)
        ensures
            flags@ == flags_of(self@.subrange(100, 102)),
    {
        proof {
            use_type_invariant(self);
        }
        BitArray::from_array(read_array::<2>(self.bytes, 100))
    }

    /// Controller type: byte 111. Every byte stands for a type.
    pub fn cntrltype(&self) -> (kind: CtrlType)
        ensures
            kind == CtrlType::named(self@[111]),
            kind.code() == self@[111],
    {
        proof {
            use_type_invariant(self);
        }
        CtrlType::from_u8(self.bytes[111])
    }

    /// FRU globally unique identifier, which the device writes high byte
    /// first; it is read as every other number is, low byte first: bytes 112
    /// to 127.
    pub fn fguid(&self) -> (value: u128)
        ensures
            value == le_at(self@, 112, 16),
    {
        proof {
            use_type_invariant(self);
        }
        read_u128(self.bytes, 112)
    }

    /// The three command retry delay times: bytes 128 to 133.
    pub fn crdt(&self) -> (values: [u16; 3])
        ensures
            forall|i: int| 0 <= i < 3 ==> values@[i] == le_at(self@, 128 + 2 * i, 2),
    {
        proof {
            use_type_invariant(self);
        }
        read_u16s::<3>(self.bytes, 128)
    }

    /// NVM subsystem report: byte 253.
    pub fn nvmsr(&self) -> (field: Nvmsr)
        ensures
            field@ == self@[253],
    {
        proof {
            use_type_invariant(self);
        }
        Nvmsr::from_bytes([self.bytes[253]])
    }

    /// VPD write cycle information: byte 254.
    pub fn vwci(&self) -> (field: Vwci)
        ensures
            field@ == self@[254],
    {
        proof {
            use_type_invariant(self);
        }
        Vwci::from_bytes([self.bytes[254]])
    }

    /// Management endpoint capabilities: byte 255.
    pub fn mec(&self) -> (field: Mec)
        ensures
            field@ == self@[255],
    {
        proof {
            use_type_invariant(self);
        }
        Mec::from_bytes([self.bytes[255]])
    }

    /// Optional admin command support: bytes 256 to 257.
    pub fn oacs(&self) -> (field: Oacs)
        ensures
            field@ == le_at(self@, 256, 2),
    {
        proof {
            use_type_invariant(self);
        }
        Oacs::from_bytes(read_array::<2>(self.bytes, 256))
    }

    /// Abort command limit: byte 258.
    pub fn acl(&self) -> (value: u8)
        ensures
            value == self@[258],
    {
        proof {
            use_type_invariant(self);
        }
        self.bytes[258]
    }

    /// Asynchronous event request limit: byte 259.
    pub fn aerl(&self) -> (value: u8)
        ensures
            value == self@[259],
    {
        proof {
            use_type_invariant(self);
        }
        self.bytes[259]
    }

    /// Firmware updates: byte 260.
    pub fn frmw(&self) -> (field: Frmw)
        ensures
            field@ == self@[260],
    {
        proof {
            use_type_invariant(self);
        }
        Frmw::from_bytes([self.bytes[260]])
    }

    /// Log page attributes: byte 261.
    pub fn lpa(&self) -> (field: Lpa)
        ensures
            field@ == self@[261],
    {
        proof {
            use_type_invariant(self);
        }
        Lpa::from_bytes([self.bytes[261]])
    }

    /// Error log page entries: byte 262.
    pub fn elpe(&self) -> (value: u8)
        ensures
            value == self@[262],
    {
        proof {
            use_type_invariant(self);
        }
        self.bytes[262]
    }

    /// Number of power states supported: byte 263.
    pub fn npss(&self) -> (value: u8)
        ensures
            value == self@[263],
    {
        proof {
            use_type_invariant(self);
        }
        self.bytes[263]
    }

    /// Admin vendor specific command configuration: byte 264.
    pub fn avscc(&self) -> (field: Avscc)
        ensures
            field@ == self@[264],
    {
        proof {
            use_type_invariant(self);
        }
        Avscc::from_bytes([self.bytes[264]])
    }

    /// Autonomous power state transition attributes: byte 265.
    pub fn apsta(&self) -> (field: Apsta)
        ensures
            field@ == self@[265],
    {
        proof {
            use_type_invariant(self);
        }
        Apsta::from_bytes([self.bytes[265]])
    }

    /// Warning composite temperature threshold: bytes 266 to 267.
    pub fn wctemp(&self) -> (value: u16)
        ensures
            value == le_at(self@, 266, 2),
    {
        proof {
            use_type_invariant(self);
        }
        read_u16(self.bytes, 266)
    }

    /// Critical composite temperature threshold: bytes 268 to 269.
    pub fn cctemp(&self) -> (value: u16)
        ensures
            value == le_at(self@, 268, 2),
    {
        proof {
            use_type_invariant(self);
        }
        read_u16(self.bytes, 268)
    }

    /// Maximum time for firmware activation: bytes 270 to 271.
    pub fn mtfa(&self) -> (value: u16)
        ensures
            value == le_at(self@, 270, 2),
    {
        proof {
            use_type_invariant(self);
        }
        read_u16(self.bytes, 270)
    }

    /// Host memory buffer preferred size: bytes 272 to 275.
    pub fn hmpre(&self) -> (value: u32)
        ensures
            value == le_at(self@, 272, 4),
    {
        proof {
            use_type_invariant(self);
        }
        read_u32(self.bytes, 272)
    }

    /// Host memory buffer minimum size: bytes 276 to 279.
    pub fn hmmin(&self) -> (value: u32)
        ensures
            value == le_at(self@, 276, 4),
    {
        proof {
            use_type_invariant(self);
        }
        read_u32(self.bytes, 276)
    }

    /// Total NVM capacity: bytes 280 to 295.
    pub fn tnvmcap(&self) -> (value: u128)
        ensures
            value == le_at(self@, 280, 16),
    {
        proof {
            use_type_invariant(self);
        }
        read_u128(self.bytes, 280)
    }

    /// Unallocated NVM capacity: bytes 296 to 311.
    pub fn unvmcap(&self) -> (value: u128)
        ensures
            value == le_at(self@, 296, 16),
    {
        proof {
            use_type_invariant(self);
        }
        read_u128(self.bytes, 296)
    }

    /// Replay protected memory block support: bytes 312 to 315.
    pub fn rpmbs(&self) -> (field: Rpmbs)
        ensures
            field@ == le_at(self@, 312, 4),
    {
        proof {
            use_type_invariant(self);
        }
        Rpmbs::from_bytes(read_array::<4>(self.bytes, 312))
    }

    /// Extended device self-test time: bytes 316 to 317.
    pub fn edst(&self) -> (value: u16)
        ensures
            value == le_at(self@, 316, 2),
    {
        proof {
            use_type_invariant(self);
        }
        read_u16(self.bytes, 316)
    }

    /// Device self-test options: byte 318.
    pub fn dsto(&self) -> (field: Dsto)
        ensures
            field@ == self@[318],
    {
        proof {
            use_type_invariant(self);
        }
        Dsto::from_bytes([self.bytes[318]])
    }

    /// Firmware update granularity: byte 319.
    pub fn fwug(&self) -> (value: u8)
        ensures
            value == self@[319],
    {
        proof {
            use_type_invariant(self);
        }
        self.bytes[319]
    }

    /// Keep alive support: bytes 320 to 321.
    pub fn kas(&self) -> (value: u16)
        ensures
            value == le_at(self@, 320, 2),
    {
        proof {
            use_type_invariant(self);
        }
        read_u16(self.bytes, 320)
    }

    /// Host controlled thermal management attributes: bytes 322 to 323.
    pub fn hctma(&self) -> (field: Hctma)
        ensures
            field@ == le_at(self@, 322, 2),
    {
        proof {
            use_type_invariant(self);
        }
        Hctma::from_bytes(read_array::<2>(self.bytes, 322))
    }

    /// Minimum thermal management temperature: bytes 324 to 325.
    pub fn mntmt(&self) -> (value: u16)
        ensures
            value == le_at(self@, 324, 2),
    {
        proof {
            use_type_invariant(self);
        }
        read_u16(self.bytes, 324)
    }

    /// Maximum thermal management temperature: bytes 326 to 327.
    pub fn mxtmt(&self) -> (value: u16)
        ensures
            value == le_at(self@, 326, 2),
    {
        proof {
            use_type_invariant(self);
        }
        read_u16(self.bytes, 326)
    }

    /// Sanitize capabilities: bytes 328 to 331.
    pub fn sanicap(&self) -> (field: Sanicap)
        ensures
            field@ == le_at(self@, 328, 4),
    {
        proof {
            use_type_invariant(self);
        }
        Sanicap::from_bytes(read_array::<4>(self.bytes, 328))
    }

    /// Host memory buffer minimum descriptor entry size: bytes 332 to 335.
    pub fn hmminds(&self) -> (value: u32)
        ensures
            value == le_at(self@, 332, 4),
    {
        proof {
            use_type_invariant(self);
        }
        read_u32(self.bytes, 332)
    }

    /// Host memory maximum descriptors entries: bytes 336 to 337.
    pub fn hmmaxd(&self) -> (value: u16)
        ensures
            value == le_at(self@, 336, 2),
    {
        proof {
            use_type_invariant(self);
        }
        read_u16(self.bytes, 336)
    }

    /// NVM set identifier maximum: bytes 338 to 339.
    pub fn nsetidmax(&self) -> (value: u16)
        ensures
            value == le_at(self@, 338, 2),
    {
        proof {
            use_type_invariant(self);
        }
        read_u16(self.bytes, 338)
    }

    /// Endurance group identifier maximum: bytes 340 to 341.
    pub fn endgidmax(&self) -> (value: u16)
        ensures
            value == le_at(self@, 340, 2),
    {
        proof {
            use_type_invariant(self);
        }
        read_u16(self.bytes, 340)
    }

    /// ANA transition time: byte 342.
    pub fn anatt(&self) -> (value: u8)
        ensures
            value == self@[342],
    {
        proof {
            use_type_invariant(self);
        }
        self.bytes[342]
    }

    /// Asymmetric namespace access capabilities: byte 343.
    pub fn anacap(&self) -> (field: Anacap)
        ensures
            field@ == self@[343],
    {
        proof {
            use_type_invariant(self);
        }
        Anacap::from_bytes([self.bytes[343]])
    }

    /// ANA group identifier maximum: bytes 344 to 347.
    pub fn anagrpmax(&self) -> (value: u32)
        ensures
            value == le_at(self@, 344, 4),
    {
        proof {
            use_type_invariant(self);
        }
        read_u32(self.bytes, 344)
    }

    /// Number of ANA group identifiers: bytes 348 to 351.
    pub fn nanagrpid(&self) -> (value: u32)
        ensures
            value == le_at(self@, 348, 4),
    {
        proof {
            use_type_invariant(self);
        }
        read_u32(self.bytes, 348)
    }

    /// Persistent event log size: bytes 352 to 355.
    pub fn pels(&self) -> (value: u32)
        ensures
            value == le_at(self@, 352, 4),
    {
        proof {
            use_type_invariant(self);
        }
        read_u32(self.bytes, 352)
    }

    /// Submission queue entry size: byte 512.
    pub fn sqes(&self) -> (field: QueueEntrySize)
        ensures
            field@ == self@[512],
    {
        proof {
            use_type_invariant(self);
        }
        QueueEntrySize::from_bytes([self.bytes[512]])
    }

    /// Completion queue entry size: byte 513.
    pub fn cqes(&self) -> (field: QueueEntrySize)
        ensures
            field@ == self@[513],
    {
        proof {
            use_type_invariant(self);
        }
        QueueEntrySize::from_bytes([self.bytes[513]])
    }

    /// Maximum outstanding commands: bytes 514 to 515.
    pub fn maxcmd(&self) -> (value: u16)
        ensures
            value == le_at(self@, 514, 2),
    {
        proof {
            use_type_invariant(self);
        }
        read_u16(self.bytes, 514)
    }

    /// Number of namespaces: bytes 516 to 519.
    pub fn nn(&self) -> (value: u32)
        ensures
            value == le_at(self@, 516, 4),
    {
        proof {
            use_type_invariant(self);
        }
        read_u32(self.bytes, 516)
    }

    /// Optional NVM command support: bytes 520 to 521.
    pub fn oncs(&self) -> (field: Oncs)
        ensures
            field@ == le_at(self@, 520, 2),
    {
        proof {
            use_type_invariant(self);
        }
        Oncs::from_bytes(read_array::<2>(self.bytes, 520))
    }

    /// Fused operation support: bytes 522 to 523.
    pub fn fuses(&self) -> (field: Fuses)
        ensures
            field@ == le_at(self@, 522, 2),
    {
        proof {
            use_type_invariant(self);
        }
        Fuses::from_bytes(read_array::<2>(self.bytes, 522))
    }

    /// Format NVM attributes: byte 524.
    pub fn fna(&self) -> (field: Fna)
        ensures
            field@ == self@[524],
    {
        proof {
            use_type_invariant(self);
        }
        Fna::from_bytes([self.bytes[524]])
    }

    /// Volatile write cache: byte 525.
    pub fn vwc(&self) -> (value: u8)
        ensures
            value == self@[525],
    {
        proof {
            use_type_invariant(self);
        }
        self.bytes[525]
    }

    /// Atomic write unit normal: bytes 526 to 527.
    pub fn awun(&self) -> (value: u16)
        ensures
            value == le_at(self@, 526, 2),
    {
        proof {
            use_type_invariant(self);
        }
        read_u16(self.bytes, 526)
    }

    /// Atomic write unit power fail: bytes 528 to 529.
    pub fn awupf(&self) -> (value: u16)
        ensures
            value == le_at(self@, 528, 2),
    {
        proof {
            use_type_invariant(self);
        }
        read_u16(self.bytes, 528)
    }

    /// NVM vendor specific command configuration: byte 530.
    pub fn nvscc(&self) -> (field: Nvscc)
        ensures
            field@ == self@[530],
    {
        proof {
            use_type_invariant(self);
        }
        Nvscc::from_bytes([self.bytes[530]])
    }

    /// Namespace write protection capabilities: byte 531.
    pub fn nwpc(&self) -> (field: Nwpc)
        ensures
            field@ == self@[531],
    {
        proof {
            use_type_invariant(self);
        }
        Nwpc::from_bytes([self.bytes[531]])
    }

    /// Atomic compare and write unit: bytes 532 to 533.
    pub fn acwu(&self) -> (value: u16)
        ensures
            value == le_at(self@, 532, 2),
    {
        proof {
            use_type_invariant(self);
        }
        read_u16(self.bytes, 532)
    }

    /// SGL support: bytes 536 to 539.
    pub fn sgls(&self) -> (field: Sgls)
        ensures
            field@ == le_at(self@, 536, 4),
    {
        proof {
            use_type_invariant(self);
        }
        Sgls::from_bytes(read_array::<4>(self.bytes, 536))
    }

    /// Maximum number of allowed namespaces: bytes 540 to 543.
    pub fn mnan(&self) -> (value: u32)
        ensures
            value == le_at(self@, 540, 4),
    {
        proof {
            use_type_invariant(self);
        }
        read_u32(self.bytes, 540)
    }

    /// NVM subsystem NVMe qualified name: bytes 768 to 1023.
    pub fn subnqn(&self) -> (text: FixedStr<256>)
        ensures
            text@ == self@.subrange(768, 1024),
    {
        proof {
            use_type_invariant(self);
        }
        FixedStr::from_array(read_array::<256>(self.bytes, 768))
    }

    /// The 32 power state descriptors: bytes 2048 to 3071, 32 bytes each.
    /// Word `word` of descriptor `i` is spelled by the eight bytes from
    /// `2048 + 32 * i + 8 * word` on.
    pub fn psds(&self) -> (states: [PowerState; 32])
        ensures
            forall|i: int, word: int|
                0 <= i < 32 && 0 <= word < 4 ==> #[trigger] states@[i]@[word] == le_at(
                    self@,
                    2048 + 32 * i + 8 * word,
                    8,
                ),
    {
        proof {
            use_type_invariant(self);
        }
        let mut states = [PowerState::new(); 32];
        let mut done: usize = 0;
        while done < 32
            invariant
                done <= 32,
                self.bytes@.len() == 4096,
                forall|i: int, word: int|
                    0 <= i < done && 0 <= word < 4 ==> #[trigger] states@[i]@[word] == le_at(
                        self.bytes@,
                        2048 + 32 * i + 8 * word,
                        8,
                    ),
            decreases 32 - done,
        {
            states[done] = PowerState::read(self.bytes, 2048 + 32 * done);
            done = done + 1;
        }
        states
    }

    /// The record is 4096 bytes long, and so is every buffer that is viewed
    /// as one.
    pub proof fn lemma_size(len: nat)
        ensures
            Self::size() == 4096,
            <Self as FromBytes<'a>>::legal(len) <==> len == 4096,
    {
    }
}

/// The IEEE OUI of a vendor: three bytes, the low byte first.
#[derive(Clone, Copy, Debug)]
pub struct Ieee([u8; 3]);

impl View for Ieee {
    type V = Seq<u8>;

    closed spec fn view(&self) -> Seq<u8> {
        self.0@
    }
}

impl Ieee {
    /// The one identifier that holds `bytes`. Meant for three bytes.
    pub closed spec fn holding(bytes: Seq<u8>) -> Self {
        choose|held: Self| held.0@ == bytes
    }

    /// An identifier always holds three bytes.
    pub proof fn lemma_len(self)
        ensures
            self@.len() == 3,
    {
    }

    /// Two identifiers that hold the same bytes are the same identifier.
    pub proof fn lemma_same_bytes(self, other: Self)
        requires
            self@ == other@,
        ensures
            self == other,
    {
        assert(self.0 =~= other.0);
    }

    /// An identifier is the one that holds its bytes.
    pub proof fn lemma_holding(self)
        ensures
            Self::holding(self@) == self,
    {
        let held = Self::holding(self@);
        assert(held.0@ == self.0@);
        held.lemma_same_bytes(self);
    }

    /// Holds `bytes` as they are.
    pub fn from_array(bytes: [u8; 3]) -> (held: Self)
        ensures
            held@ == bytes@,
    {
        Ieee(bytes)
    }
}

impl From<Ieee> for u32 {
    /// The number that the three bytes spell.
    fn from(value: Ieee) -> (number: u32)
        ensures
            number == le_value(value@),
            number < 0x100_0000,
    {
        proof {
            lemma_pow256_values();
            assert(value@.subrange(0, 3) =~= value@);
        }
        read_le(value.0.as_slice(), 0, 3) as u32
    }
}

impl FromSpecImpl<Ieee> for u32 {
    open spec fn obeys_from_spec() -> bool {
        true
    }

    open spec fn from_spec(value: Ieee) -> u32 {
        le_value(value@) as u32
    }
}

impl From<u32> for Ieee {
    /// The three low bytes of `value`. Its high byte is left out: an
    /// identifier has no room for it.
    fn from(value: u32) -> (held: Ieee)
        ensures
            held@ == le_bytes(value as nat, 3),
    {
        let held = Ieee(le_array::<3>(value as u128));
        proof {
            held.lemma_holding();
        }
        held
    }
}

impl FromSpecImpl<u32> for Ieee {
    open spec fn obeys_from_spec() -> bool {
        true
    }

    open spec fn from_spec(value: u32) -> Ieee {
        Ieee::holding(le_bytes(value as nat, 3))
    }
}

/// A number below `2^24` that is made an identifier and a number again is
/// the same number; an identifier that is made a number and an identifier
/// again is the same identifier.
pub proof fn lemma_ieee_round_trip(value: u32, held: Ieee)
    ensures
        value < 0x100_0000 ==> le_value(le_bytes(value as nat, 3)) == value,
        le_bytes(le_value(held@), 3) == held@,
{
    lemma_pow256_values();
    if value < 0x100_0000 {
        lemma_le_value_of_bytes(value as nat, 3);
    }
    lemma_le_bytes_of_value(held@);
}

/// The type of a controller: one byte. A code that no type is assigned to
/// is kept as `_Reserved`, so that every byte is a value.
#[non_exhaustive]
#[derive(Clone, Copy, Debug, PartialEq, Eq, Structural)]
pub enum CtrlType {
    NotReported,
    IoCtrl,
    DiscoveryCtrl,
    AdminCtrl,
    /// A code from 4 up, which stands for no type.
    _Reserved(u8),
}

impl CtrlType {
    /// The code that stands for this type.
    pub open spec fn code(self) -> u8 {
        match self {
            CtrlType::NotReported => 0x00,
            CtrlType::IoCtrl => 0x01,
            CtrlType::DiscoveryCtrl => 0x02,
            CtrlType::AdminCtrl => 0x03,
            CtrlType::_Reserved(code) => code,
        }
    }

    /// The type that `code` stands for. Every code stands for one.
    pub open spec fn named(code: u8) -> Self {
        if code == 0x00 {
            CtrlType::NotReported
        } else if code == 0x01 {
            CtrlType::IoCtrl
        } else if code == 0x02 {
            CtrlType::DiscoveryCtrl
        } else if code == 0x03 {
            CtrlType::AdminCtrl
        } else {
            CtrlType::_Reserved(code)
        }
    }

    /// The type that a code stands for is written as that code.
    pub proof fn lemma_code_of_named(code: u8)
        ensures
            Self::named(code).code() == code,
    {
    }

    /// The code that stands for this type.
    pub fn to_u8(&self) -> (code: u8)
        ensures
            code == self.code(),
    {
        match self {
            CtrlType::NotReported => 0x00,
            CtrlType::IoCtrl => 0x01,
            CtrlType::DiscoveryCtrl => 0x02,
            CtrlType::AdminCtrl => 0x03,
            CtrlType::_Reserved(code) => *code,
        }
    }

    /// The type that `code` stands for.
    pub fn from_u8(code: u8) -> (kind: Self)
        ensures
            kind == Self::named(code),
            kind.code() == code,
    {
        match code {
            0x00 => CtrlType::NotReported,
            0x01 => CtrlType::IoCtrl,
            0x02 => CtrlType::DiscoveryCtrl,
            0x03 => CtrlType::AdminCtrl,
            _ => CtrlType::_Reserved(code),
        }
    }
}

/// Controller multi-path I/O and namespace sharing capabilities: 8 bits, the
/// lowest first.
///
/// | bits | field |
/// |------|-------|
/// | 0 | `multiple_subsys` |
/// | 1 | `multiple_ctrls` |
/// | 2 | `sr_iov` |
/// | 3 | `asym_nmsp_access_reporting` |
/// | 4-7 | reserved |
#[derive(Clone, Copy, Debug, PartialEq, Eq, Structural)]
pub struct Cmic {
    raw: u8,
}

impl View for Cmic {
    type V = u8;

    closed spec fn view(&self) -> u8 {
        self.raw
    }
}

impl Cmic {
    /// The fields of the value, the lowest first; the bits that have no meaning
    /// count as fields.
    pub open spec fn layout() -> Seq<Field> {
        seq![
            Field { offset: 0, width: 1 },
            Field { offset: 1, width: 1 },
            Field { offset: 2, width: 1 },
            Field { offset: 3, width: 1 },
            Field { offset: 4, width: 4 },
        ]
    }

    /// The fields fill the 8 bits: no two of them share a bit and no bit is
    /// left out.
    pub proof fn lemma_layout_fills()
        ensures
            tiles(Self::layout(), 0, 8),
    {
        let from_0 = Self::layout();
        let from_1 = from_0.drop_first();
        let from_2 = from_1.drop_first();
        let from_3 = from_2.drop_first();
        let from_4 = from_3.drop_first();
        let from_5 = from_4.drop_first();
        assert(tiles(from_5, 8, 8));
        assert(tiles(from_4, 4, 8));
        assert(tiles(from_3, 3, 8));
        assert(tiles(from_2, 2, 8));
        assert(tiles(from_1, 1, 8));
    }

    /// A value is made of its fields: it is the sum of what they hold, each at
    /// its place.
    pub proof fn lemma_fields_make_value(self)
        ensures
            sum_of_fields(self@ as u64, Self::layout()) == self@,
    {
        lemma2_to64();
        Self::lemma_layout_fills();
        lemma_fields_make_backing(self@ as u64, Self::layout(), 8);
    }

    /// The value with every bit clear.
    pub fn new() -> (made: Self)
        ensures
            made@ == 0,
    {
        Cmic { raw: 0 }
    }

    /// The value that the byte holds.
    pub fn from_bytes(bytes: [u8; 1]) -> (made: Self)
        ensures
            made@ == le_value(bytes@),
            made@ == bytes@[0],
    {
        Cmic { raw: u8_of(bytes) }
    }

    /// The byte that holds this value.
    pub fn into_bytes(self) -> (bytes: [u8; 1])
        ensures
            bytes@ == le_bytes(self@ as nat, 1),
    {
        le_array::<1>(self.raw as u128)
    }

    /// The flag `multiple_subsys`: bit 0.
    pub fn multiple_subsys(&self) -> (flag: bool)
        ensures
            flag == spec_get_flag(self@ as u64, 0),
    {
        get_flag(self.raw as u64, 0)
    }

    /// The flag `multiple_ctrls`: bit 1.
    pub fn multiple_ctrls(&self) -> (flag: bool)
        ensures
            flag == spec_get_flag(self@ as u64, 1),
    {
        get_flag(self.raw as u64, 1)
    }

    /// The flag `sr_iov`: bit 2.
    pub fn sr_iov(&self) -> (flag: bool)
        ensures
            flag == spec_get_flag(self@ as u64, 2),
    {
        get_flag(self.raw as u64, 2)
    }

    /// The flag `asym_nmsp_access_reporting`: bit 3.
    pub fn asym_nmsp_access_reporting(&self) -> (flag: bool)
        ensures
            flag == spec_get_flag(self@ as u64, 3),
    {
        get_flag(self.raw as u64, 3)
    }

    /// This value with the flag `multiple_subsys` set to `flag`.
    pub fn with_multiple_subsys(self, flag: bool) -> (made: Self)
        ensures
            made@ == spec_with_flag(self@ as u64, 0, flag),
    {
        Cmic { raw: with_flag(self.raw as u64, 0, flag) as u8 }
    }

    /// This value with the flag `multiple_ctrls` set to `flag`.
    pub fn with_multiple_ctrls(self, flag: bool) -> (made: Self)
        ensures
            made@ == spec_with_flag(self@ as u64, 1, flag),
    {
        Cmic { raw: with_flag(self.raw as u64, 1, flag) as u8 }
    }

    /// This value with the flag `sr_iov` set to `flag`.
    pub fn with_sr_iov(self, flag: bool) -> (made: Self)
        ensures
            made@ == spec_with_flag(self@ as u64, 2, flag),
    {
        Cmic { raw: with_flag(self.raw as u64, 2, flag) as u8 }
    }

    /// This value with the flag `asym_nmsp_access_reporting` set to `flag`.
    pub fn with_asym_nmsp_access_reporting(self, flag: bool) -> (made: Self)
        ensures
            made@ == spec_with_flag(self@ as u64, 3, flag),
    {
        Cmic { raw: with_flag(self.raw as u64, 3, flag) as u8 }
    }
}

/// Optional asynchronous events supported: 32 bits, the lowest first.
///
/// | bits | field |
/// |------|-------|
/// | 0-7 | reserved |
/// | 8 | `nmsp_attr` |
/// | 9 | `fw_activation` |
/// | 10 | reserved |
/// | 11 | `asym_nmsp_access` |
/// | 12 | `predictable_latency_aggregate` |
/// | 13 | `lba_status_info` |
/// | 14 | `endur_grp_aggregate` |
/// | 15-31 | reserved |
#[derive(Clone, Copy, Debug, PartialEq, Eq, Structural)]
pub struct Oaes {
    raw: u32,
}

impl View for Oaes {
    type V = u32;

    closed spec fn view(&self) -> u32 {
        self.raw
    }
}

impl Oaes {
    /// The fields of the value, the lowest first; the bits that have no meaning
    /// count as fields.
    pub open spec fn layout() -> Seq<Field> {
        seq![
            Field { offset: 0, width: 8 },
            Field { offset: 8, width: 1 },
            Field { offset: 9, width: 1 },
            Field { offset: 10, width: 1 },
            Field { offset: 11, width: 1 },
            Field { offset: 12, width: 1 },
            Field { offset: 13, width: 1 },
            Field { offset: 14, width: 1 },
            Field { offset: 15, width: 17 },
        ]
    }

    /// The fields fill the 32 bits: no two of them share a bit and no bit is
    /// left out.
    pub proof fn lemma_layout_fills()
        ensures
            tiles(Self::layout(), 0, 32),
    {
        let from_0 = Self::layout();
        let from_1 = from_0.drop_first();
        let from_2 = from_1.drop_first();
        let from_3 = from_2.drop_first();
        let from_4 = from_3.drop_first();
        let from_5 = from_4.drop_first();
        let from_6 = from_5.drop_first();
        let from_7 = from_6.drop_first();
        let from_8 = from_7.drop_first();
        let from_9 = from_8.drop_first();
        assert(tiles(from_9, 32, 32));
        assert(tiles(from_8, 15, 32));
        assert(tiles(from_7, 14, 32));
        assert(tiles(from_6, 13, 32));
        assert(tiles(from_5, 12, 32));
        assert(tiles(from_4, 11, 32));
        assert(tiles(from_3, 10, 32));
        assert(tiles(from_2, 9, 32));
        assert(tiles(from_1, 8, 32));
    }

    /// A value is made of its fields: it is the sum of what they hold, each at
    /// its place.
    pub proof fn lemma_fields_make_value(self)
        ensures
            sum_of_fields(self@ as u64, Self::layout()) == self@,
    {
        lemma2_to64();
        Self::lemma_layout_fills();
        lemma_fields_make_backing(self@ as u64, Self::layout(), 32);
    }

    /// The value with every bit clear.
    pub fn new() -> (made: Self)
        ensures
            made@ == 0,
    {
        Oaes { raw: 0 }
    }

    /// The value that the bytes spell, the low byte first.
    pub fn from_bytes(bytes: [u8; 4]) -> (made: Self)
        ensures
            made@ == le_value(bytes@),
    {
        Oaes { raw: u32_of(bytes) }
    }

    /// The bytes that spell this value, the low byte first.
    pub fn into_bytes(self) -> (bytes: [u8; 4])
        ensures
            bytes@ == le_bytes(self@ as nat, 4),
    {
        le_array::<4>(self.raw as u128)
    }

    /// The flag `nmsp_attr`: bit 8.
    pub fn nmsp_attr(&self) -> (flag: bool)
        ensures
            flag == spec_get_flag(self@ as u64, 8),
    {
        get_flag(self.raw as u64, 8)
    }

    /// The flag `fw_activation`: bit 9.
    pub fn fw_activation(&self) -> (flag: bool)
        ensures
            flag == spec_get_flag(self@ as u64, 9),
    {
        get_flag(self.raw as u64, 9)
    }

    /// The flag `asym_nmsp_access`: bit 11.
    pub fn asym_nmsp_access(&self) -> (flag: bool)
        ensures
            flag == spec_get_flag(self@ as u64, 11),
    {
        get_flag(self.raw as u64, 11)
    }

    /// The flag `predictable_latency_aggregate`: bit 12.
    pub fn predictable_latency_aggregate(&self) -> (flag: bool)
        ensures
            flag == spec_get_flag(self@ as u64, 12),
    {
        get_flag(self.raw as u64, 12)
    }

    /// The flag `lba_status_info`: bit 13.
    pub fn lba_status_info(&self) -> (flag: bool)
        ensures
            flag == spec_get_flag(self@ as u64, 13),
    {
        get_flag(self.raw as u64, 13)
    }

    /// The flag `endur_grp_aggregate`: bit 14.
    pub fn endur_grp_aggregate(&self) -> (flag: bool)
        ensures
            flag == spec_get_flag(self@ as u64, 14),
    {
        get_flag(self.raw as u64, 14)
    }

    /// This value with the flag `nmsp_attr` set to `flag`.
    pub fn with_nmsp_attr(self, flag: bool) -> (made: Self)
        ensures
            made@ == spec_with_flag(self@ as u64, 8, flag),
    {
        Oaes { raw: with_flag(self.raw as u64, 8, flag) as u32 }
    }

    /// This value with the flag `fw_activation` set to `flag`.
    pub fn with_fw_activation(self, flag: bool) -> (made: Self)
        ensures
            made@ == spec_with_flag(self@ as u64, 9, flag),
    {
        Oaes { raw: with_flag(self.raw as u64, 9, flag) as u32 }
    }

    /// This value with the flag `asym_nmsp_access` set to `flag`.
    pub fn with_asym_nmsp_access(self, flag: bool) -> (made: Self)
        ensures
            made@ == spec_with_flag(self@ as u64, 11, flag),
    {
        Oaes { raw: with_flag(self.raw as u64, 11, flag) as u32 }
    }

    /// This value with the flag `predictable_latency_aggregate` set to `flag`.
    pub fn with_predictable_latency_aggregate(self, flag: bool) -> (made: Self)
        ensures
            made@ == spec_with_flag(self@ as u64, 12, flag),
    {
        Oaes { raw: with_flag(self.raw as u64, 12, flag) as u32 }
    }

    /// This value with the flag `lba_status_info` set to `flag`.
    pub fn with_lba_status_info(self, flag: bool) -> (made: Self)
        ensures
            made@ == spec_with_flag(self@ as u64, 13, flag),
    {
        Oaes { raw: with_flag(self.raw as u64, 13, flag) as u32 }
    }

    /// This value with the flag `endur_grp_aggregate` set to `flag`.
    pub fn with_endur_grp_aggregate(self, flag: bool) -> (made: Self)
        ensures
            made@ == spec_with_flag(self@ as u64, 14, flag),
    {
        Oaes { raw: with_flag(self.raw as u64, 14, flag) as u32 }
    }
}

/// Controller attributes: 32 bits, the lowest first.
///
/// | bits | field |
/// |------|-------|
/// | 0 | `host_id_128bit` |
/// | 1 | `non_op_pwr_state_permissive` |
/// | 2 | `nvm_sets` |
/// | 3 | `read_recovery_levels` |
/// | 4 | `endur_grps` |
/// | 5 | `predictable_latency` |
/// | 6 | `tbkas` |
/// | 7 | `nmsp_granularity` |
/// | 8 | `sq_assoc` |
/// | 9 | `uuid_list` |
/// | 10-31 | reserved |
#[derive(Clone, Copy, Debug, PartialEq, Eq, Structural)]
pub struct CtrlAttr {
    raw: u32,
}

impl View for CtrlAttr {
    type V = u32;

    closed spec fn view(&self) -> u32 {
        self.raw
    }
}

impl CtrlAttr {
    /// The fields of the value, the lowest first; the bits that have no meaning
    /// count as fields.
    pub open spec fn layout() -> Seq<Field> {
        seq![
            Field { offset: 0, width: 1 },
            Field { offset: 1, width: 1 },
            Field { offset: 2, width: 1 },
            Field { offset: 3, width: 1 },
            Field { offset: 4, width: 1 },
            Field { offset: 5, width: 1 },
            Field { offset: 6, width: 1 },
            Field { offset: 7, width: 1 },
            Field { offset: 8, width: 1 },
            Field { offset: 9, width: 1 },
            Field { offset: 10, width: 22 },
        ]
    }

    /// The fields fill the 32 bits: no two of them share a bit and no bit is
    /// left out.
    pub proof fn lemma_layout_fills()
        ensures
            tiles(Self::layout(), 0, 32),
    {
        let from_0 = Self::layout();
        let from_1 = from_0.drop_first();
        let from_2 = from_1.drop_first();
        let from_3 = from_2.drop_first();
        let from_4 = from_3.drop_first();
        let from_5 = from_4.drop_first();
        let from_6 = from_5.drop_first();
        let from_7 = from_6.drop_first();
        let from_8 = from_7.drop_first();
        let from_9 = from_8.drop_first();
        let from_10 = from_9.drop_first();
        let from_11 = from_10.drop_first();
        assert(tiles(from_11, 32, 32));
        assert(tiles(from_10, 10, 32));
        assert(tiles(from_9, 9, 32));
        assert(tiles(from_8, 8, 32));
        assert(tiles(from_7, 7, 32));
        assert(tiles(from_6, 6, 32));
        assert(tiles(from_5, 5, 32));
        assert(tiles(from_4, 4, 32));
        assert(tiles(from_3, 3, 32));
        assert(tiles(from_2, 2, 32));
        assert(tiles(from_1, 1, 32));
    }

    /// A value is made of its fields: it is the sum of what they hold, each at
    /// its place.
    pub proof fn lemma_fields_make_value(self)
        ensures
            sum_of_fields(self@ as u64, Self::layout()) == self@,
    {
        lemma2_to64();
        Self::lemma_layout_fills();
        lemma_fields_make_backing(self@ as u64, Self::layout(), 32);
    }

    /// The value with every bit clear.
    pub fn new() -> (made: Self)
        ensures
            made@ == 0,
    {
        CtrlAttr { raw: 0 }
    }

    /// The value that the bytes spell, the low byte first.
    pub fn from_bytes(bytes: [u8; 4]) -> (made: Self)
        ensures
            made@ == le_value(bytes@),
    {
        CtrlAttr { raw: u32_of(bytes) }
    }

    /// The bytes that spell this value, the low byte first.
    pub fn into_bytes(self) -> (bytes: [u8; 4])
        ensures
            bytes@ == le_bytes(self@ as nat, 4),
    {
        le_array::<4>(self.raw as u128)
    }

    /// The flag `host_id_128bit`: bit 0.
    pub fn host_id_128bit(&self) -> (flag: bool)
        ensures
            flag == spec_get_flag(self@ as u64, 0),
    {
        get_flag(self.raw as u64, 0)
    }

    /// The flag `non_op_pwr_state_permissive`: bit 1.
    pub fn non_op_pwr_state_permissive(&self) -> (flag: bool)
        ensures
            flag == spec_get_flag(self@ as u64, 1),
    {
        get_flag(self.raw as u64, 1)
    }

    /// The flag `nvm_sets`: bit 2.
    pub fn nvm_sets(&self) -> (flag: bool)
        ensures
            flag == spec_get_flag(self@ as u64, 2),
    {
        get_flag(self.raw as u64, 2)
    }

    /// The flag `read_recovery_levels`: bit 3.
    pub fn read_recovery_levels(&self) -> (flag: bool)
        ensures
            flag == spec_get_flag(self@ as u64, 3),
    {
        get_flag(self.raw as u64, 3)
    }

    /// The flag `endur_grps`: bit 4.
    pub fn endur_grps(&self) -> (flag: bool)
        ensures
            flag == spec_get_flag(self@ as u64, 4),
    {
        get_flag(self.raw as u64, 4)
    }

    /// The flag `predictable_latency`: bit 5.
    pub fn predictable_latency(&self) -> (flag: bool)
        ensures
            flag == spec_get_flag(self@ as u64, 5),
    {
        get_flag(self.raw as u64, 5)
    }

    /// The flag `tbkas`: bit 6.
    pub fn tbkas(&self) -> (flag: bool)
        ensures
            flag == spec_get_flag(self@ as u64, 6),
    {
        get_flag(self.raw as u64, 6)
    }

    /// The flag `nmsp_granularity`: bit 7.
    pub fn nmsp_granularity(&self) -> (flag: bool)
        ensures
            flag == spec_get_flag(self@ as u64, 7),
    {
        get_flag(self.raw as u64, 7)
    }

    /// The flag `sq_assoc`: bit 8.
    pub fn sq_assoc(&self) -> (flag: bool)
        ensures
            flag == spec_get_flag(self@ as u64, 8),
    {
        get_flag(self.raw as u64, 8)
    }

    /// The flag `uuid_list`: bit 9.
    pub fn uuid_list(&self) -> (flag: bool)
        ensures
            flag == spec_get_flag(self@ as u64, 9),
    {
        get_flag(self.raw as u64, 9)
    }

    /// This value with the flag `host_id_128bit` set to `flag`.
    pub fn with_host_id_128bit(self, flag: bool) -> (made: Self)
        ensures
            made@ == spec_with_flag(self@ as u64, 0, flag),
    {
        CtrlAttr { raw: with_flag(self.raw as u64, 0, flag) as u32 }
    }

    /// This value with the flag `non_op_pwr_state_permissive` set to `flag`.
    pub fn with_non_op_pwr_state_permissive(self, flag: bool) -> (made: Self)
        ensures
            made@ == spec_with_flag(self@ as u64, 1, flag),
    {
        CtrlAttr { raw: with_flag(self.raw as u64, 1, flag) as u32 }
    }

    /// This value with the flag `nvm_sets` set to `flag`.
    pub fn with_nvm_sets(self, flag: bool) -> (made: Self)
        ensures
            made@ == spec_with_flag(self@ as u64, 2, flag),
    {
        CtrlAttr { raw: with_flag(self.raw as u64, 2, flag) as u32 }
    }

    /// This value with the flag `read_recovery_levels` set to `flag`.
    pub fn with_read_recovery_levels(self, flag: bool) -> (made: Self)
        ensures
            made@ == spec_with_flag(self@ as u64, 3, flag),
    {
        CtrlAttr { raw: with_flag(self.raw as u64, 3, flag) as u32 }
    }

    /// This value with the flag `endur_grps` set to `flag`.
    pub fn with_endur_grps(self, flag: bool) -> (made: Self)
        ensures
            made@ == spec_with_flag(self@ as u64, 4, flag),
    {
        CtrlAttr { raw: with_flag(self.raw as u64, 4, flag) as u32 }
    }

    /// This value with the flag `predictable_latency` set to `flag`.
    pub fn with_predictable_latency(self, flag: bool) -> (made: Self)
        ensures
            made@ == spec_with_flag(self@ as u64, 5, flag),
    {
        CtrlAttr { raw: with_flag(self.raw as u64, 5, flag) as u32 }
    }

    /// This value with the flag `tbkas` set to `flag`.
    pub fn with_tbkas(self, flag: bool) -> (made: Self)
        ensures
            made@ == spec_with_flag(self@ as u64, 6, flag),
    {
        CtrlAttr { raw: with_flag(self.raw as u64, 6, flag) as u32 }
    }

    /// This value with the flag `nmsp_granularity` set to `flag`.
    pub fn with_nmsp_granularity(self, flag: bool) -> (made: Self)
        ensures
            made@ == spec_with_flag(self@ as u64, 7, flag),
    {
        CtrlAttr { raw: with_flag(self.raw as u64, 7, flag) as u32 }
    }

    /// This value with the flag `sq_assoc` set to `flag`.
    pub fn with_sq_assoc(self, flag: bool) -> (made: Self)
        ensures
            made@ == spec_with_flag(self@ as u64, 8, flag),
    {
        CtrlAttr { raw: with_flag(self.raw as u64, 8, flag) as u32 }
    }

    /// This value with the flag `uuid_list` set to `flag`.
    pub fn with_uuid_list(self, flag: bool) -> (made: Self)
        ensures
            made@ == spec_with_flag(self@ as u64, 9, flag),
    {
        CtrlAttr { raw: with_flag(self.raw as u64, 9, flag) as u32 }
    }
}

/// NVM subsystem report: 8 bits, the lowest first.
///
/// | bits | field |
/// |------|-------|
/// | 0 | `nvmesd` |
/// | 1 | `nvmee` |
/// | 2-7 | reserved |
#[derive(Clone, Copy, Debug, PartialEq, Eq, Structural)]
pub struct Nvmsr {
    raw: u8,
}

impl View for Nvmsr {
    type V = u8;

    closed spec fn view(&self) -> u8 {
        self.raw
    }
}

impl Nvmsr {
    /// The fields of the value, the lowest first; the bits that have no meaning
    /// count as fields.
    pub open spec fn layout() -> Seq<Field> {
        seq![
            Field { offset: 0, width: 1 },
            Field { offset: 1, width: 1 },
            Field { offset: 2, width: 6 },
        ]
    }

    /// The fields fill the 8 bits: no two of them share a bit and no bit is
    /// left out.
    pub proof fn lemma_layout_fills()
        ensures
            tiles(Self::layout(), 0, 8),
    {
        let from_0 = Self::layout();
        let from_1 = from_0.drop_first();
        let from_2 = from_1.drop_first();
        let from_3 = from_2.drop_first();
        assert(tiles(from_3, 8, 8));
        assert(tiles(from_2, 2, 8));
        assert(tiles(from_1, 1, 8));
    }

    /// A value is made of its fields: it is the sum of what they hold, each at
    /// its place.
    pub proof fn lemma_fields_make_value(self)
        ensures
            sum_of_fields(self@ as u64, Self::layout()) == self@,
    {
        lemma2_to64();
        Self::lemma_layout_fills();
        lemma_fields_make_backing(self@ as u64, Self::layout(), 8);
    }

    /// The value with every bit clear.
    pub fn new() -> (made: Self)
        ensures
            made@ == 0,
    {
        Nvmsr { raw: 0 }
    }

    /// The value that the byte holds.
    pub fn from_bytes(bytes: [u8; 1]) -> (made: Self)
        ensures
            made@ == le_value(bytes@),
            made@ == bytes@[0],
    {
        Nvmsr { raw: u8_of(bytes) }
    }

    /// The byte that holds this value.
    pub fn into_bytes(self) -> (bytes: [u8; 1])
        ensures
            bytes@ == le_bytes(self@ as nat, 1),
    {
        le_array::<1>(self.raw as u128)
    }

    /// The flag `nvmesd`: bit 0.
    pub fn nvmesd(&self) -> (flag: bool)
        ensures
            flag == spec_get_flag(self@ as u64, 0),
    {
        get_flag(self.raw as u64, 0)
    }

    /// The flag `nvmee`: bit 1.
    pub fn nvmee(&self) -> (flag: bool)
        ensures
            flag == spec_get_flag(self@ as u64, 1),
    {
        get_flag(self.raw as u64, 1)
    }

    /// This value with the flag `nvmesd` set to `flag`.
    pub fn with_nvmesd(self, flag: bool) -> (made: Self)
        ensures
            made@ == spec_with_flag(self@ as u64, 0, flag),
    {
        Nvmsr { raw: with_flag(self.raw as u64, 0, flag) as u8 }
    }

    /// This value with the flag `nvmee` set to `flag`.
    pub fn with_nvmee(self, flag: bool) -> (made: Self)
        ensures
            made@ == spec_with_flag(self@ as u64, 1, flag),
    {
        Nvmsr { raw: with_flag(self.raw as u64, 1, flag) as u8 }
    }
}

/// VPD write cycle information: 8 bits, the lowest first.
///
/// | bits | field |
/// |------|-------|
/// | 0-6 | `vwcr` |
/// | 7 | `vwcrv` |
#[derive(Clone, Copy, Debug, PartialEq, Eq, Structural)]
pub struct Vwci {
    raw: u8,
}

impl View for Vwci {
    type V = u8;

    closed spec fn view(&self) -> u8 {
        self.raw
    }
}

impl Vwci {
    /// The fields of the value, the lowest first; the bits that have no meaning
    /// count as fields.
    pub open spec fn layout() -> Seq<Field> {
        seq![
            Field { offset: 0, width: 7 },
            Field { offset: 7, width: 1 },
        ]
    }

    /// The fields fill the 8 bits: no two of them share a bit and no bit is
    /// left out.
    pub proof fn lemma_layout_fills()
        ensures
            tiles(Self::layout(), 0, 8),
    {
        let from_0 = Self::layout();
        let from_1 = from_0.drop_first();
        let from_2 = from_1.drop_first();
        assert(tiles(from_2, 8, 8));
        assert(tiles(from_1, 7, 8));
    }

    /// A value is made of its fields: it is the sum of what they hold, each at
    /// its place.
    pub proof fn lemma_fields_make_value(self)
        ensures
            sum_of_fields(self@ as u64, Self::layout()) == self@,
    {
        lemma2_to64();
        Self::lemma_layout_fills();
        lemma_fields_make_backing(self@ as u64, Self::layout(), 8);
    }

    /// The value with every bit clear.
    pub fn new() -> (made: Self)
        ensures
            made@ == 0,
    {
        Vwci { raw: 0 }
    }

    /// The value that the byte holds.
    pub fn from_bytes(bytes: [u8; 1]) -> (made: Self)
        ensures
            made@ == le_value(bytes@),
            made@ == bytes@[0],
    {
        Vwci { raw: u8_of(bytes) }
    }

    /// The byte that holds this value.
    pub fn into_bytes(self) -> (bytes: [u8; 1])
        ensures
            bytes@ == le_bytes(self@ as nat, 1),
    {
        le_array::<1>(self.raw as u128)
    }

    /// The number `vwcr`: bits 0 to 6.
    pub fn vwcr(&self) -> (value: u8)
        ensures
            value == spec_get_field(self@ as u64, 0, 7),
    {
        get_field(self.raw as u64, 0, 7) as u8
    }

    /// The flag `vwcrv`: bit 7.
    pub fn vwcrv(&self) -> (flag: bool)
        ensures
            flag == spec_get_flag(self@ as u64, 7),
    {
        get_flag(self.raw as u64, 7)
    }

    /// This value with the number `vwcr` set to `value`; fails with `value`
    /// when it does not fit 7 bits.
    pub fn with_vwcr(self, value: u8) -> (made: Result<Self, u64>)
        ensures
            value < 128 ==> made is Ok && made->Ok_0@ == spec_with_field(
                self@ as u64,
                0,
                7,
                value as u64,
            ),
            value >= 128 ==> made == Err::<Self, u64>(value as u64),
    {
        proof {
            lemma2_to64();
        }
        match with_field(self.raw as u64, 0, 7, value as u64) {
            Ok(raw) => Ok(Vwci { raw: raw as u8 }),
            Err(value) => Err(value),
        }
    }

    /// This value with the flag `vwcrv` set to `flag`.
    pub fn with_vwcrv(self, flag: bool) -> (made: Self)
        ensures
            made@ == spec_with_flag(self@ as u64, 7, flag),
    {
        Vwci { raw: with_flag(self.raw as u64, 7, flag) as u8 }
    }
}

/// Management endpoint capabilities: 8 bits, the lowest first.
///
/// | bits | field |
/// |------|-------|
/// | 0 | `i2c` |
/// | 1 | `pcie` |
/// | 2-7 | reserved |
#[derive(Clone, Copy, Debug, PartialEq, Eq, Structural)]
pub struct Mec {
    raw: u8,
}

impl View for Mec {
    type V = u8;

    closed spec fn view(&self) -> u8 {
        self.raw
    }
}

impl Mec {
    /// The fields of the value, the lowest first; the bits that have no meaning
    /// count as fields.
    pub open spec fn layout() -> Seq<Field> {
        seq![
            Field { offset: 0, width: 1 },
            Field { offset: 1, width: 1 },
            Field { offset: 2, width: 6 },
        ]
    }

    /// The fields fill the 8 bits: no two of them share a bit and no bit is
    /// left out.
    pub proof fn lemma_layout_fills()
        ensures
            tiles(Self::layout(), 0, 8),
    {
        let from_0 = Self::layout();
        let from_1 = from_0.drop_first();
        let from_2 = from_1.drop_first();
        let from_3 = from_2.drop_first();
        assert(tiles(from_3, 8, 8));
        assert(tiles(from_2, 2, 8));
        assert(tiles(from_1, 1, 8));
    }

    /// A value is made of its fields: it is the sum of what they hold, each at
    /// its place.
    pub proof fn lemma_fields_make_value(self)
        ensures
            sum_of_fields(self@ as u64, Self::layout()) == self@,
    {
        lemma2_to64();
        Self::lemma_layout_fills();
        lemma_fields_make_backing(self@ as u64, Self::layout(), 8);
    }

    /// The value with every bit clear.
    pub fn new() -> (made: Self)
        ensures
            made@ == 0,
    {
        Mec { raw: 0 }
    }

    /// The value that the byte holds.
    pub fn from_bytes(bytes: [u8; 1]) -> (made: Self)
        ensures
            made@ == le_value(bytes@),
            made@ == bytes@[0],
    {
        Mec { raw: u8_of(bytes) }
    }

    /// The byte that holds this value.
    pub fn into_bytes(self) -> (bytes: [u8; 1])
        ensures
            bytes@ == le_bytes(self@ as nat, 1),
    {
        le_array::<1>(self.raw as u128)
    }

    /// The flag `i2c`: bit 0.
    pub fn i2c(&self) -> (flag: bool)
        ensures
            flag == spec_get_flag(self@ as u64, 0),
    {
        get_flag(self.raw as u64, 0)
    }

    /// The flag `pcie`: bit 1.
    pub fn pcie(&self) -> (flag: bool)
        ensures
            flag == spec_get_flag(self@ as u64, 1),
    {
        get_flag(self.raw as u64, 1)
    }

    /// This value with the flag `i2c` set to `flag`.
    pub fn with_i2c(self, flag: bool) -> (made: Self)
        ensures
            made@ == spec_with_flag(self@ as u64, 0, flag),
    {
        Mec { raw: with_flag(self.raw as u64, 0, flag) as u8 }
    }

    /// This value with the flag `pcie` set to `flag`.
    pub fn with_pcie(self, flag: bool) -> (made: Self)
        ensures
            made@ == spec_with_flag(self@ as u64, 1, flag),
    {
        Mec { raw: with_flag(self.raw as u64, 1, flag) as u8 }
    }
}

/// Optional admin command support: 16 bits, the lowest first.
///
/// | bits | field |
/// |------|-------|
/// | 0 | `sec_send_rec` |
/// | 1 | `format_nvm` |
/// | 2 | `fw_commit` |
/// | 3 | `nmsp_mgmt` |
/// | 4 | `dev_self_test` |
/// | 5 | `directives` |
/// | 6 | `nvme_mi` |
/// | 7 | `virt_mgmt` |
/// | 8 | `doorbell_buf_conf` |
/// | 9 | `get_lba_status` |
/// | 10-15 | reserved |
#[derive(Clone, Copy, Debug, PartialEq, Eq, Structural)]
pub struct Oacs {
    raw: u16,
}

impl View for Oacs {
    type V = u16;

    closed spec fn view(&self) -> u16 {
        self.raw
    }
}

impl Oacs {
    /// The fields of the value, the lowest first; the bits that have no meaning
    /// count as fields.
    pub open spec fn layout() -> Seq<Field> {
        seq![
            Field { offset: 0, width: 1 },
            Field { offset: 1, width: 1 },
            Field { offset: 2, width: 1 },
            Field { offset: 3, width: 1 },
            Field { offset: 4, width: 1 },
            Field { offset: 5, width: 1 },
            Field { offset: 6, width: 1 },
            Field { offset: 7, width: 1 },
            Field { offset: 8, width: 1 },
            Field { offset: 9, width: 1 },
            Field { offset: 10, width: 6 },
        ]
    }

    /// The fields fill the 16 bits: no two of them share a bit and no bit is
    /// left out.
    pub proof fn lemma_layout_fills()
        ensures
            tiles(Self::layout(), 0, 16),
    {
        let from_0 = Self::layout();
        let from_1 = from_0.drop_first();
        let from_2 = from_1.drop_first();
        let from_3 = from_2.drop_first();
        let from_4 = from_3.drop_first();
        let from_5 = from_4.drop_first();
        let from_6 = from_5.drop_first();
        let from_7 = from_6.drop_first();
        let from_8 = from_7.drop_first();
        let from_9 = from_8.drop_first();
        let from_10 = from_9.drop_first();
        let from_11 = from_10.drop_first();
        assert(tiles(from_11, 16, 16));
        assert(tiles(from_10, 10, 16));
        assert(tiles(from_9, 9, 16));
        assert(tiles(from_8, 8, 16));
        assert(tiles(from_7, 7, 16));
        assert(tiles(from_6, 6, 16));
        assert(tiles(from_5, 5, 16));
        assert(tiles(from_4, 4, 16));
        assert(tiles(from_3, 3, 16));
        assert(tiles(from_2, 2, 16));
        assert(tiles(from_1, 1, 16));
    }

    /// A value is made of its fields: it is the sum of what they hold, each at
    /// its place.
    pub proof fn lemma_fields_make_value(self)
        ensures
            sum_of_fields(self@ as u64, Self::layout()) == self@,
    {
        lemma2_to64();
        Self::lemma_layout_fills();
        lemma_fields_make_backing(self@ as u64, Self::layout(), 16);
    }

    /// The value with every bit clear.
    pub fn new() -> (made: Self)
        ensures
            made@ == 0,
    {
        Oacs { raw: 0 }
    }

    /// The value that the bytes spell, the low byte first.
    pub fn from_bytes(bytes: [u8; 2]) -> (made: Self)
        ensures
            made@ == le_value(bytes@),
    {
        Oacs { raw: u16_of(bytes) }
    }

    /// The bytes that spell this value, the low byte first.
    pub fn into_bytes(self) -> (bytes: [u8; 2])
        ensures
            bytes@ == le_bytes(self@ as nat, 2),
    {
        le_array::<2>(self.raw as u128)
    }

    /// The flag `sec_send_rec`: bit 0.
    pub fn sec_send_rec(&self) -> (flag: bool)
        ensures
            flag == spec_get_flag(self@ as u64, 0),
    {
        get_flag(self.raw as u64, 0)
    }

    /// The flag `format_nvm`: bit 1.
    pub fn format_nvm(&self) -> (flag: bool)
        ensures
            flag == spec_get_flag(self@ as u64, 1),
    {
        get_flag(self.raw as u64, 1)
    }

    /// The flag `fw_commit`: bit 2.
    pub fn fw_commit(&self) -> (flag: bool)
        ensures
            flag == spec_get_flag(self@ as u64, 2),
    {
        get_flag(self.raw as u64, 2)
    }

    /// The flag `nmsp_mgmt`: bit 3.
    pub fn nmsp_mgmt(&self) -> (flag: bool)
        ensures
            flag == spec_get_flag(self@ as u64, 3),
    {
        get_flag(self.raw as u64, 3)
    }

    /// The flag `dev_self_test`: bit 4.
    pub fn dev_self_test(&self) -> (flag: bool)
        ensures
            flag == spec_get_flag(self@ as u64, 4),
    {
        get_flag(self.raw as u64, 4)
    }

    /// The flag `directives`: bit 5.
    pub fn directives(&self) -> (flag: bool)
        ensures
            flag == spec_get_flag(self@ as u64, 5),
    {
        get_flag(self.raw as u64, 5)
    }

    /// The flag `nvme_mi`: bit 6.
    pub fn nvme_mi(&self) -> (flag: bool)
        ensures
            flag == spec_get_flag(self@ as u64, 6),
    {
        get_flag(self.raw as u64, 6)
    }

    /// The flag `virt_mgmt`: bit 7.
    pub fn virt_mgmt(&self) -> (flag: bool)
        ensures
            flag == spec_get_flag(self@ as u64, 7),
    {
        get_flag(self.raw as u64, 7)
    }

    /// The flag `doorbell_buf_conf`: bit 8.
    pub fn doorbell_buf_conf(&self) -> (flag: bool)
        ensures
            flag == spec_get_flag(self@ as u64, 8),
    {
        get_flag(self.raw as u64, 8)
    }

    /// The flag `get_lba_status`: bit 9.
    pub fn get_lba_status(&self) -> (flag: bool)
        ensures
            flag == spec_get_flag(self@ as u64, 9),
    {
        get_flag(self.raw as u64, 9)
    }

    /// This value with the flag `sec_send_rec` set to `flag`.
    pub fn with_sec_send_rec(self, flag: bool) -> (made: Self)
        ensures
            made@ == spec_with_flag(self@ as u64, 0, flag),
    {
        Oacs { raw: with_flag(self.raw as u64, 0, flag) as u16 }
    }

    /// This value with the flag `format_nvm` set to `flag`.
    pub fn with_format_nvm(self, flag: bool) -> (made: Self)
        ensures
            made@ == spec_with_flag(self@ as u64, 1, flag),
    {
        Oacs { raw: with_flag(self.raw as u64, 1, flag) as u16 }
    }

    /// This value with the flag `fw_commit` set to `flag`.
    pub fn with_fw_commit(self, flag: bool) -> (made: Self)
        ensures
            made@ == spec_with_flag(self@ as u64, 2, flag),
    {
        Oacs { raw: with_flag(self.raw as u64, 2, flag) as u16 }
    }

    /// This value with the flag `nmsp_mgmt` set to `flag`.
    pub fn with_nmsp_mgmt(self, flag: bool) -> (made: Self)
        ensures
            made@ == spec_with_flag(self@ as u64, 3, flag),
    {
        Oacs { raw: with_flag(self.raw as u64, 3, flag) as u16 }
    }

    /// This value with the flag `dev_self_test` set to `flag`.
    pub fn with_dev_self_test(self, flag: bool) -> (made: Self)
        ensures
            made@ == spec_with_flag(self@ as u64, 4, flag),
    {
        Oacs { raw: with_flag(self.raw as u64, 4, flag) as u16 }
    }

    /// This value with the flag `directives` set to `flag`.
    pub fn with_directives(self, flag: bool) -> (made: Self)
        ensures
            made@ == spec_with_flag(self@ as u64, 5, flag),
    {
        Oacs { raw: with_flag(self.raw as u64, 5, flag) as u16 }
    }

    /// This value with the flag `nvme_mi` set to `flag`.
    pub fn with_nvme_mi(self, flag: bool) -> (made: Self)
        ensures
            made@ == spec_with_flag(self@ as u64, 6, flag),
    {
        Oacs { raw: with_flag(self.raw as u64, 6, flag) as u16 }
    }

    /// This value with the flag `virt_mgmt` set to `flag`.
    pub fn with_virt_mgmt(self, flag: bool) -> (made: Self)
        ensures
            made@ == spec_with_flag(self@ as u64, 7, flag),
    {
        Oacs { raw: with_flag(self.raw as u64, 7, flag) as u16 }
    }

    /// This value with the flag `doorbell_buf_conf` set to `flag`.
    pub fn with_doorbell_buf_conf(self, flag: bool) -> (made: Self)
        ensures
            made@ == spec_with_flag(self@ as u64, 8, flag),
    {
        Oacs { raw: with_flag(self.raw as u64, 8, flag) as u16 }
    }

    /// This value with the flag `get_lba_status` set to `flag`.
    pub fn with_get_lba_status(self, flag: bool) -> (made: Self)
        ensures
            made@ == spec_with_flag(self@ as u64, 9, flag),
    {
        Oacs { raw: with_flag(self.raw as u64, 9, flag) as u16 }
    }
}

/// Firmware updates: 8 bits, the lowest first.
///
/// | bits | field |
/// |------|-------|
/// | 0 | `slot_1_ro` |
/// | 1-3 | `num_fw_slots` |
/// | 4 | `fw_activate_without_reset` |
/// | 5-7 | reserved |
#[derive(Clone, Copy, Debug, PartialEq, Eq, Structural)]
pub struct Frmw {
    raw: u8,
}

impl View for Frmw {
    type V = u8;

    closed spec fn view(&self) -> u8 {
        self.raw
    }
}

impl Frmw {
    /// The fields of the value, the lowest first; the bits that have no meaning
    /// count as fields.
    pub open spec fn layout() -> Seq<Field> {
        seq![
            Field { offset: 0, width: 1 },
            Field { offset: 1, width: 3 },
            Field { offset: 4, width: 1 },
            Field { offset: 5, width: 3 },
        ]
    }

    /// The fields fill the 8 bits: no two of them share a bit and no bit is
    /// left out.
    pub proof fn lemma_layout_fills()
        ensures
            tiles(Self::layout(), 0, 8),
    {
        let from_0 = Self::layout();
        let from_1 = from_0.drop_first();
        let from_2 = from_1.drop_first();
        let from_3 = from_2.drop_first();
        let from_4 = from_3.drop_first();
        assert(tiles(from_4, 8, 8));
        assert(tiles(from_3, 5, 8));
        assert(tiles(from_2, 4, 8));
        assert(tiles(from_1, 1, 8));
    }

    /// A value is made of its fields: it is the sum of what they hold, each at
    /// its place.
    pub proof fn lemma_fields_make_value(self)
        ensures
            sum_of_fields(self@ as u64, Self::layout()) == self@,
    {
        lemma2_to64();
        Self::lemma_layout_fills();
        lemma_fields_make_backing(self@ as u64, Self::layout(), 8);
    }

    /// The value with every bit clear.
    pub fn new() -> (made: Self)
        ensures
            made@ == 0,
    {
        Frmw { raw: 0 }
    }

    /// The value that the byte holds.
    pub fn from_bytes(bytes: [u8; 1]) -> (made: Self)
        ensures
            made@ == le_value(bytes@),
            made@ == bytes@[0],
    {
        Frmw { raw: u8_of(bytes) }
    }

    /// The byte that holds this value.
    pub fn into_bytes(self) -> (bytes: [u8; 1])
        ensures
            bytes@ == le_bytes(self@ as nat, 1),
    {
        le_array::<1>(self.raw as u128)
    }

    /// The flag `slot_1_ro`: bit 0.
    pub fn slot_1_ro(&self) -> (flag: bool)
        ensures
            flag == spec_get_flag(self@ as u64, 0),
    {
        get_flag(self.raw as u64, 0)
    }

    /// The number `num_fw_slots`: bits 1 to 3.
    pub fn num_fw_slots(&self) -> (value: u8)
        ensures
            value == spec_get_field(self@ as u64, 1, 3),
    {
        get_field(self.raw as u64, 1, 3) as u8
    }

    /// The flag `fw_activate_without_reset`: bit 4.
    pub fn fw_activate_without_reset(&self) -> (flag: bool)
        ensures
            flag == spec_get_flag(self@ as u64, 4),
    {
        get_flag(self.raw as u64, 4)
    }

    /// This value with the flag `slot_1_ro` set to `flag`.
    pub fn with_slot_1_ro(self, flag: bool) -> (made: Self)
        ensures
            made@ == spec_with_flag(self@ as u64, 0, flag),
    {
        Frmw { raw: with_flag(self.raw as u64, 0, flag) as u8 }
    }

    /// This value with the number `num_fw_slots` set to `value`; fails with
    /// `value` when it does not fit 3 bits.
    pub fn with_num_fw_slots(self, value: u8) -> (made: Result<Self, u64>)
        ensures
            value < 8 ==> made is Ok && made->Ok_0@ == spec_with_field(
                self@ as u64,
                1,
                3,
                value as u64,
            ),
            value >= 8 ==> made == Err::<Self, u64>(value as u64),
    {
        proof {
            lemma2_to64();
        }
        match with_field(self.raw as u64, 1, 3, value as u64) {
            Ok(raw) => Ok(Frmw { raw: raw as u8 }),
            Err(value) => Err(value),
        }
    }

    /// This value with the flag `fw_activate_without_reset` set to `flag`.
    pub fn with_fw_activate_without_reset(self, flag: bool) -> (made: Self)
        ensures
            made@ == spec_with_flag(self@ as u64, 4, flag),
    {
        Frmw { raw: with_flag(self.raw as u64, 4, flag) as u8 }
    }
}

/// Log page attributes: 8 bits, the lowest first.
///
/// | bits | field |
/// |------|-------|
/// | 0 | `smart_ns_specific` |
/// | 1 | `cmd_supp_eff` |
/// | 2 | `ext_get_log` |
/// | 3 | `telem` |
/// | 4 | `persist_event` |
/// | 5-7 | reserved |
#[derive(Clone, Copy, Debug, PartialEq, Eq, Structural)]
pub struct Lpa {
    raw: u8,
}

impl View for Lpa {
    type V = u8;

    closed spec fn view(&self) -> u8 {
        self.raw
    }
}

impl Lpa {
    /// The fields of the value, the lowest first; the bits that have no meaning
    /// count as fields.
    pub open spec fn layout() -> Seq<Field> {
        seq![
            Field { offset: 0, width: 1 },
            Field { offset: 1, width: 1 },
            Field { offset: 2, width: 1 },
            Field { offset: 3, width: 1 },
            Field { offset: 4, width: 1 },
            Field { offset: 5, width: 3 },
        ]
    }

    /// The fields fill the 8 bits: no two of them share a bit and no bit is
    /// left out.
    pub proof fn lemma_layout_fills()
        ensures
            tiles(Self::layout(), 0, 8),
    {
        let from_0 = Self::layout();
        let from_1 = from_0.drop_first();
        let from_2 = from_1.drop_first();
        let from_3 = from_2.drop_first();
        let from_4 = from_3.drop_first();
        let from_5 = from_4.drop_first();
        let from_6 = from_5.drop_first();
        assert(tiles(from_6, 8, 8));
        assert(tiles(from_5, 5, 8));
        assert(tiles(from_4, 4, 8));
        assert(tiles(from_3, 3, 8));
        assert(tiles(from_2, 2, 8));
        assert(tiles(from_1, 1, 8));
    }

    /// A value is made of its fields: it is the sum of what they hold, each at
    /// its place.
    pub proof fn lemma_fields_make_value(self)
        ensures
            sum_of_fields(self@ as u64, Self::layout()) == self@,
    {
        lemma2_to64();
        Self::lemma_layout_fills();
        lemma_fields_make_backing(self@ as u64, Self::layout(), 8);
    }

    /// The value with every bit clear.
    pub fn new() -> (made: Self)
        ensures
            made@ == 0,
    {
        Lpa { raw: 0 }
    }

    /// The value that the byte holds.
    pub fn from_bytes(bytes: [u8; 1]) -> (made: Self)
        ensures
            made@ == le_value(bytes@),
            made@ == bytes@[0],
    {
        Lpa { raw: u8_of(bytes) }
    }

    /// The byte that holds this value.
    pub fn into_bytes(self) -> (bytes: [u8; 1])
        ensures
            bytes@ == le_bytes(self@ as nat, 1),
    {
        le_array::<1>(self.raw as u128)
    }

    /// The flag `smart_ns_specific`: bit 0.
    pub fn smart_ns_specific(&self) -> (flag: bool)
        ensures
            flag == spec_get_flag(self@ as u64, 0),
    {
        get_flag(self.raw as u64, 0)
    }

    /// The flag `cmd_supp_eff`: bit 1.
    pub fn cmd_supp_eff(&self) -> (flag: bool)
        ensures
            flag == spec_get_flag(self@ as u64, 1),
    {
        get_flag(self.raw as u64, 1)
    }

    /// The flag `ext_get_log`: bit 2.
    pub fn ext_get_log(&self) -> (flag: bool)
        ensures
            flag == spec_get_flag(self@ as u64, 2),
    {
        get_flag(self.raw as u64, 2)
    }

    /// The flag `telem`: bit 3.
    pub fn telem(&self) -> (flag: bool)
        ensures
            flag == spec_get_flag(self@ as u64, 3),
    {
        get_flag(self.raw as u64, 3)
    }

    /// The flag `persist_event`: bit 4.
    pub fn persist_event(&self) -> (flag: bool)
        ensures
            flag == spec_get_flag(self@ as u64, 4),
    {
        get_flag(self.raw as u64, 4)
    }

    /// This value with the flag `smart_ns_specific` set to `flag`.
    pub fn with_smart_ns_specific(self, flag: bool) -> (made: Self)
        ensures
            made@ == spec_with_flag(self@ as u64, 0, flag),
    {
        Lpa { raw: with_flag(self.raw as u64, 0, flag) as u8 }
    }

    /// This value with the flag `cmd_supp_eff` set to `flag`.
    pub fn with_cmd_supp_eff(self, flag: bool) -> (made: Self)
        ensures
            made@ == spec_with_flag(self@ as u64, 1, flag),
    {
        Lpa { raw: with_flag(self.raw as u64, 1, flag) as u8 }
    }

    /// This value with the flag `ext_get_log` set to `flag`.
    pub fn with_ext_get_log(self, flag: bool) -> (made: Self)
        ensures
            made@ == spec_with_flag(self@ as u64, 2, flag),
    {
        Lpa { raw: with_flag(self.raw as u64, 2, flag) as u8 }
    }

    /// This value with the flag `telem` set to `flag`.
    pub fn with_telem(self, flag: bool) -> (made: Self)
        ensures
            made@ == spec_with_flag(self@ as u64, 3, flag),
    {
        Lpa { raw: with_flag(self.raw as u64, 3, flag) as u8 }
    }

    /// This value with the flag `persist_event` set to `flag`.
    pub fn with_persist_event(self, flag: bool) -> (made: Self)
        ensures
            made@ == spec_with_flag(self@ as u64, 4, flag),
    {
        Lpa { raw: with_flag(self.raw as u64, 4, flag) as u8 }
    }
}

/// Admin vendor specific command configuration: 8 bits, the lowest first.
///
/// | bits | field |
/// |------|-------|
/// | 0 | `vndr_standard` |
/// | 1-7 | reserved |
#[derive(Clone, Copy, Debug, PartialEq, Eq, Structural)]
pub struct Avscc {
    raw: u8,
}

impl View for Avscc {
    type V = u8;

    closed spec fn view(&self) -> u8 {
        self.raw
    }
}

impl Avscc {
    /// The fields of the value, the lowest first; the bits that have no meaning
    /// count as fields.
    pub open spec fn layout() -> Seq<Field> {
        seq![
            Field { offset: 0, width: 1 },
            Field { offset: 1, width: 7 },
        ]
    }

    /// The fields fill the 8 bits: no two of them share a bit and no bit is
    /// left out.
    pub proof fn lemma_layout_fills()
        ensures
            tiles(Self::layout(), 0, 8),
    {
        let from_0 = Self::layout();
        let from_1 = from_0.drop_first();
        let from_2 = from_1.drop_first();
        assert(tiles(from_2, 8, 8));
        assert(tiles(from_1, 1, 8));
    }

    /// A value is made of its fields: it is the sum of what they hold, each at
    /// its place.
    pub proof fn lemma_fields_make_value(self)
        ensures
            sum_of_fields(self@ as u64, Self::layout()) == self@,
    {
        lemma2_to64();
        Self::lemma_layout_fills();
        lemma_fields_make_backing(self@ as u64, Self::layout(), 8);
    }

    /// The value with every bit clear.
    pub fn new() -> (made: Self)
        ensures
            made@ == 0,
    {
        Avscc { raw: 0 }
    }

    /// The value that the byte holds.
    pub fn from_bytes(bytes: [u8; 1]) -> (made: Self)
        ensures
            made@ == le_value(bytes@),
            made@ == bytes@[0],
    {
        Avscc { raw: u8_of(bytes) }
    }

    /// The byte that holds this value.
    pub fn into_bytes(self) -> (bytes: [u8; 1])
        ensures
            bytes@ == le_bytes(self@ as nat, 1),
    {
        le_array::<1>(self.raw as u128)
    }

    /// The flag `vndr_standard`: bit 0.
    pub fn vndr_standard(&self) -> (flag: bool)
        ensures
            flag == spec_get_flag(self@ as u64, 0),
    {
        get_flag(self.raw as u64, 0)
    }

    /// This value with the flag `vndr_standard` set to `flag`.
    pub fn with_vndr_standard(self, flag: bool) -> (made: Self)
        ensures
            made@ == spec_with_flag(self@ as u64, 0, flag),
    {
        Avscc { raw: with_flag(self.raw as u64, 0, flag) as u8 }
    }
}

/// Autonomous power state transition attributes: 8 bits, the lowest first.
///
/// | bits | field |
/// |------|-------|
/// | 0 | `auto_pwr_transition` |
/// | 1-7 | reserved |
#[derive(Clone, Copy, Debug, PartialEq, Eq, Structural)]
pub struct Apsta {
    raw: u8,
}

impl View for Apsta {
    type V = u8;

    closed spec fn view(&self) -> u8 {
        self.raw
    }
}

impl Apsta {
    /// The fields of the value, the lowest first; the bits that have no meaning
    /// count as fields.
    pub open spec fn layout() -> Seq<Field> {
        seq![
            Field { offset: 0, width: 1 },
            Field { offset: 1, width: 7 },
        ]
    }

    /// The fields fill the 8 bits: no two of them share a bit and no bit is
    /// left out.
    pub proof fn lemma_layout_fills()
        ensures
            tiles(Self::layout(), 0, 8),
    {
        let from_0 = Self::layout();
        let from_1 = from_0.drop_first();
        let from_2 = from_1.drop_first();
        assert(tiles(from_2, 8, 8));
        assert(tiles(from_1, 1, 8));
    }

    /// A value is made of its fields: it is the sum of what they hold, each at
    /// its place.
    pub proof fn lemma_fields_make_value(self)
        ensures
            sum_of_fields(self@ as u64, Self::layout()) == self@,
    {
        lemma2_to64();
        Self::lemma_layout_fills();
        lemma_fields_make_backing(self@ as u64, Self::layout(), 8);
    }

    /// The value with every bit clear.
    pub fn new() -> (made: Self)
        ensures
            made@ == 0,
    {
        Apsta { raw: 0 }
    }

    /// The value that the byte holds.
    pub fn from_bytes(bytes: [u8; 1]) -> (made: Self)
        ensures
            made@ == le_value(bytes@),
            made@ == bytes@[0],
    {
        Apsta { raw: u8_of(bytes) }
    }

    /// The byte that holds this value.
    pub fn into_bytes(self) -> (bytes: [u8; 1])
        ensures
            bytes@ == le_bytes(self@ as nat, 1),
    {
        le_array::<1>(self.raw as u128)
    }

    /// The flag `auto_pwr_transition`: bit 0.
    pub fn auto_pwr_transition(&self) -> (flag: bool)
        ensures
            flag == spec_get_flag(self@ as u64, 0),
    {
        get_flag(self.raw as u64, 0)
    }

    /// This value with the flag `auto_pwr_transition` set to `flag`.
    pub fn with_auto_pwr_transition(self, flag: bool) -> (made: Self)
        ensures
            made@ == spec_with_flag(self@ as u64, 0, flag),
    {
        Apsta { raw: with_flag(self.raw as u64, 0, flag) as u8 }
    }
}

/// Replay protected memory block support: 32 bits, the lowest first.
///
/// | bits | field |
/// |------|-------|
/// | 0-2 | `num_rpmb_units` |
/// | 3-5 | `auth_method` |
/// | 6-15 | reserved |
/// | 16-23 | `total_size` |
/// | 24-31 | `access_size` |
#[derive(Clone, Copy, Debug, PartialEq, Eq, Structural)]
pub struct Rpmbs {
    raw: u32,
}

impl View for Rpmbs {
    type V = u32;

    closed spec fn view(&self) -> u32 {
        self.raw
    }
}

impl Rpmbs {
    /// The fields of the value, the lowest first; the bits that have no meaning
    /// count as fields.
    pub open spec fn layout() -> Seq<Field> {
        seq![
            Field { offset: 0, width: 3 },
            Field { offset: 3, width: 3 },
            Field { offset: 6, width: 10 },
            Field { offset: 16, width: 8 },
            Field { offset: 24, width: 8 },
        ]
    }

    /// The fields fill the 32 bits: no two of them share a bit and no bit is
    /// left out.
    pub proof fn lemma_layout_fills()
        ensures
            tiles(Self::layout(), 0, 32),
    {
        let from_0 = Self::layout();
        let from_1 = from_0.drop_first();
        let from_2 = from_1.drop_first();
        let from_3 = from_2.drop_first();
        let from_4 = from_3.drop_first();
        let from_5 = from_4.drop_first();
        assert(tiles(from_5, 32, 32));
        assert(tiles(from_4, 24, 32));
        assert(tiles(from_3, 16, 32));
        assert(tiles(from_2, 6, 32));
        assert(tiles(from_1, 3, 32));
    }

    /// A value is made of its fields: it is the sum of what they hold, each at
    /// its place.
    pub proof fn lemma_fields_make_value(self)
        ensures
            sum_of_fields(self@ as u64, Self::layout()) == self@,
    {
        lemma2_to64();
        Self::lemma_layout_fills();
        lemma_fields_make_backing(self@ as u64, Self::layout(), 32);
    }

    /// The value with every bit clear.
    pub fn new() -> (made: Self)
        ensures
            made@ == 0,
    {
        Rpmbs { raw: 0 }
    }

    /// The value that the bytes spell, the low byte first.
    pub fn from_bytes(bytes: [u8; 4]) -> (made: Self)
        ensures
            made@ == le_value(bytes@),
    {
        Rpmbs { raw: u32_of(bytes) }
    }

    /// The bytes that spell this value, the low byte first.
    pub fn into_bytes(self) -> (bytes: [u8; 4])
        ensures
            bytes@ == le_bytes(self@ as nat, 4),
    {
        le_array::<4>(self.raw as u128)
    }

    /// The number `num_rpmb_units`: bits 0 to 2.
    pub fn num_rpmb_units(&self) -> (value: u8)
        ensures
            value == spec_get_field(self@ as u64, 0, 3),
    {
        get_field(self.raw as u64, 0, 3) as u8
    }

    /// The number `auth_method`: bits 3 to 5.
    pub fn auth_method(&self) -> (value: u8)
        ensures
            value == spec_get_field(self@ as u64, 3, 3),
    {
        get_field(self.raw as u64, 3, 3) as u8
    }

    /// The number `total_size`: bits 16 to 23.
    pub fn total_size(&self) -> (value: u8)
        ensures
            value == spec_get_field(self@ as u64, 16, 8),
    {
        get_field(self.raw as u64, 16, 8) as u8
    }

    /// The number `access_size`: bits 24 to 31.
    pub fn access_size(&self) -> (value: u8)
        ensures
            value == spec_get_field(self@ as u64, 24, 8),
    {
        get_field(self.raw as u64, 24, 8) as u8
    }

    /// This value with the number `num_rpmb_units` set to `value`; fails with
    /// `value` when it does not fit 3 bits.
    pub fn with_num_rpmb_units(self, value: u8) -> (made: Result<Self, u64>)
        ensures
            value < 8 ==> made is Ok && made->Ok_0@ == spec_with_field(
                self@ as u64,
                0,
                3,
                value as u64,
            ),
            value >= 8 ==> made == Err::<Self, u64>(value as u64),
    {
        proof {
            lemma2_to64();
        }
        match with_field(self.raw as u64, 0, 3, value as u64) {
            Ok(raw) => Ok(Rpmbs { raw: raw as u32 }),
            Err(value) => Err(value),
        }
    }

    /// This value with the number `auth_method` set to `value`; fails with
    /// `value` when it does not fit 3 bits.
    pub fn with_auth_method(self, value: u8) -> (made: Result<Self, u64>)
        ensures
            value < 8 ==> made is Ok && made->Ok_0@ == spec_with_field(
                self@ as u64,
                3,
                3,
                value as u64,
            ),
            value >= 8 ==> made == Err::<Self, u64>(value as u64),
    {
        proof {
            lemma2_to64();
        }
        match with_field(self.raw as u64, 3, 3, value as u64) {
            Ok(raw) => Ok(Rpmbs { raw: raw as u32 }),
            Err(value) => Err(value),
        }
    }

    /// This value with the number `total_size` set to `value`.
    pub fn with_total_size(self, value: u8) -> (made: Self)
        ensures
            made@ == spec_with_field(self@ as u64, 16, 8, value as u64),
    {
        proof {
            lemma2_to64();
        }
        Rpmbs { raw: put_field(self.raw as u64, 16, 8, value as u64) as u32 }
    }

    /// This value with the number `access_size` set to `value`.
    pub fn with_access_size(self, value: u8) -> (made: Self)
        ensures
            made@ == spec_with_field(self@ as u64, 24, 8, value as u64),
    {
        proof {
            lemma2_to64();
        }
        Rpmbs { raw: put_field(self.raw as u64, 24, 8, value as u64) as u32 }
    }
}

/// Device self-test options: 8 bits, the lowest first.
///
/// | bits | field |
/// |------|-------|
/// | 0 | `sync_self_test` |
/// | 1-7 | reserved |
#[derive(Clone, Copy, Debug, PartialEq, Eq, Structural)]
pub struct Dsto {
    raw: u8,
}

impl View for Dsto {
    type V = u8;

    closed spec fn view(&self) -> u8 {
        self.raw
    }
}

impl Dsto {
    /// The fields of the value, the lowest first; the bits that have no meaning
    /// count as fields.
    pub open spec fn layout() -> Seq<Field> {
        seq![
            Field { offset: 0, width: 1 },
            Field { offset: 1, width: 7 },
        ]
    }

    /// The fields fill the 8 bits: no two of them share a bit and no bit is
    /// left out.
    pub proof fn lemma_layout_fills()
        ensures
            tiles(Self::layout(), 0, 8),
    {
        let from_0 = Self::layout();
        let from_1 = from_0.drop_first();
        let from_2 = from_1.drop_first();
        assert(tiles(from_2, 8, 8));
        assert(tiles(from_1, 1, 8));
    }

    /// A value is made of its fields: it is the sum of what they hold, each at
    /// its place.
    pub proof fn lemma_fields_make_value(self)
        ensures
            sum_of_fields(self@ as u64, Self::layout()) == self@,
    {
        lemma2_to64();
        Self::lemma_layout_fills();
        lemma_fields_make_backing(self@ as u64, Self::layout(), 8);
    }

    /// The value with every bit clear.
    pub fn new() -> (made: Self)
        ensures
            made@ == 0,
    {
        Dsto { raw: 0 }
    }

    /// The value that the byte holds.
    pub fn from_bytes(bytes: [u8; 1]) -> (made: Self)
        ensures
            made@ == le_value(bytes@),
            made@ == bytes@[0],
    {
        Dsto { raw: u8_of(bytes) }
    }

    /// The byte that holds this value.
    pub fn into_bytes(self) -> (bytes: [u8; 1])
        ensures
            bytes@ == le_bytes(self@ as nat, 1),
    {
        le_array::<1>(self.raw as u128)
    }

    /// The flag `sync_self_test`: bit 0.
    pub fn sync_self_test(&self) -> (flag: bool)
        ensures
            flag == spec_get_flag(self@ as u64, 0),
    {
        get_flag(self.raw as u64, 0)
    }

    /// This value with the flag `sync_self_test` set to `flag`.
    pub fn with_sync_self_test(self, flag: bool) -> (made: Self)
        ensures
            made@ == spec_with_flag(self@ as u64, 0, flag),
    {
        Dsto { raw: with_flag(self.raw as u64, 0, flag) as u8 }
    }
}

/// Host controlled thermal management attributes: 16 bits, the lowest first.
///
/// | bits | field |
/// |------|-------|
/// | 0 | `host_thermal_mgmt` |
/// | 1-15 | reserved |
#[derive(Clone, Copy, Debug, PartialEq, Eq, Structural)]
pub struct Hctma {
    raw: u16,
}

impl View for Hctma {
    type V = u16;

    closed spec fn view(&self) -> u16 {
        self.raw
    }
}

impl Hctma {
    /// The fields of the value, the lowest first; the bits that have no meaning
    /// count as fields.
    pub open spec fn layout() -> Seq<Field> {
        seq![
            Field { offset: 0, width: 1 },
            Field { offset: 1, width: 15 },
        ]
    }

    /// The fields fill the 16 bits: no two of them share a bit and no bit is
    /// left out.
    pub proof fn lemma_layout_fills()
        ensures
            tiles(Self::layout(), 0, 16),
    {
        let from_0 = Self::layout();
        let from_1 = from_0.drop_first();
        let from_2 = from_1.drop_first();
        assert(tiles(from_2, 16, 16));
        assert(tiles(from_1, 1, 16));
    }

    /// A value is made of its fields: it is the sum of what they hold, each at
    /// its place.
    pub proof fn lemma_fields_make_value(self)
        ensures
            sum_of_fields(self@ as u64, Self::layout()) == self@,
    {
        lemma2_to64();
        Self::lemma_layout_fills();
        lemma_fields_make_backing(self@ as u64, Self::layout(), 16);
    }

    /// The value with every bit clear.
    pub fn new() -> (made: Self)
        ensures
            made@ == 0,
    {
        Hctma { raw: 0 }
    }

    /// The value that the bytes spell, the low byte first.
    pub fn from_bytes(bytes: [u8; 2]) -> (made: Self)
        ensures
            made@ == le_value(bytes@),
    {
        Hctma { raw: u16_of(bytes) }
    }

    /// The bytes that spell this value, the low byte first.
    pub fn into_bytes(self) -> (bytes: [u8; 2])
        ensures
            bytes@ == le_bytes(self@ as nat, 2),
    {
        le_array::<2>(self.raw as u128)
    }

    /// The flag `host_thermal_mgmt`: bit 0.
    pub fn host_thermal_mgmt(&self) -> (flag: bool)
        ensures
            flag == spec_get_flag(self@ as u64, 0),
    {
        get_flag(self.raw as u64, 0)
    }

    /// This value with the flag `host_thermal_mgmt` set to `flag`.
    pub fn with_host_thermal_mgmt(self, flag: bool) -> (made: Self)
        ensures
            made@ == spec_with_flag(self@ as u64, 0, flag),
    {
        Hctma { raw: with_flag(self.raw as u64, 0, flag) as u16 }
    }
}

/// Sanitize capabilities: 32 bits, the lowest first.
///
/// | bits | field |
/// |------|-------|
/// | 0 | `ces` |
/// | 1 | `bes` |
/// | 2 | `ows` |
/// | 3-28 | reserved |
/// | 29 | `ndi` |
/// | 30-31 | `nodmmas` |
#[derive(Clone, Copy, Debug, PartialEq, Eq, Structural)]
pub struct Sanicap {
    raw: u32,
}

impl View for Sanicap {
    type V = u32;

    closed spec fn view(&self) -> u32 {
        self.raw
    }
}

impl Sanicap {
    /// The fields of the value, the lowest first; the bits that have no meaning
    /// count as fields.
    pub open spec fn layout() -> Seq<Field> {
        seq![
            Field { offset: 0, width: 1 },
            Field { offset: 1, width: 1 },
            Field { offset: 2, width: 1 },
            Field { offset: 3, width: 26 },
            Field { offset: 29, width: 1 },
            Field { offset: 30, width: 2 },
        ]
    }

    /// The fields fill the 32 bits: no two of them share a bit and no bit is
    /// left out.
    pub proof fn lemma_layout_fills()
        ensures
            tiles(Self::layout(), 0, 32),
    {
        let from_0 = Self::layout();
        let from_1 = from_0.drop_first();
        let from_2 = from_1.drop_first();
        let from_3 = from_2.drop_first();
        let from_4 = from_3.drop_first();
        let from_5 = from_4.drop_first();
        let from_6 = from_5.drop_first();
        assert(tiles(from_6, 32, 32));
        assert(tiles(from_5, 30, 32));
        assert(tiles(from_4, 29, 32));
        assert(tiles(from_3, 3, 32));
        assert(tiles(from_2, 2, 32));
        assert(tiles(from_1, 1, 32));
    }

    /// A value is made of its fields: it is the sum of what they hold, each at
    /// its place.
    pub proof fn lemma_fields_make_value(self)
        ensures
            sum_of_fields(self@ as u64, Self::layout()) == self@,
    {
        lemma2_to64();
        Self::lemma_layout_fills();
        lemma_fields_make_backing(self@ as u64, Self::layout(), 32);
    }

    /// The value with every bit clear.
    pub fn new() -> (made: Self)
        ensures
            made@ == 0,
    {
        Sanicap { raw: 0 }
    }

    /// The value that the bytes spell, the low byte first.
    pub fn from_bytes(bytes: [u8; 4]) -> (made: Self)
        ensures
            made@ == le_value(bytes@),
    {
        Sanicap { raw: u32_of(bytes) }
    }

    /// The bytes that spell this value, the low byte first.
    pub fn into_bytes(self) -> (bytes: [u8; 4])
        ensures
            bytes@ == le_bytes(self@ as nat, 4),
    {
        le_array::<4>(self.raw as u128)
    }

    /// The flag `ces`: bit 0.
    pub fn ces(&self) -> (flag: bool)
        ensures
            flag == spec_get_flag(self@ as u64, 0),
    {
        get_flag(self.raw as u64, 0)
    }

    /// The flag `bes`: bit 1.
    pub fn bes(&self) -> (flag: bool)
        ensures
            flag == spec_get_flag(self@ as u64, 1),
    {
        get_flag(self.raw as u64, 1)
    }

    /// The flag `ows`: bit 2.
    pub fn ows(&self) -> (flag: bool)
        ensures
            flag == spec_get_flag(self@ as u64, 2),
    {
        get_flag(self.raw as u64, 2)
    }

    /// The flag `ndi`: bit 29.
    pub fn ndi(&self) -> (flag: bool)
        ensures
            flag == spec_get_flag(self@ as u64, 29),
    {
        get_flag(self.raw as u64, 29)
    }

    /// The field `nodmmas`: bits 30 to 31. Every pattern of them is a variant.
    pub fn nodmmas(&self) -> (value: Nodmmas)
        ensures
            value.code() == spec_get_field(self@ as u64, 30, 2),
            Nodmmas::named(spec_get_field(self@ as u64, 30, 2) as u8) == Some(value),
    {
        let code = get_field(self.raw as u64, 30, 2) as u8;
        proof {
            lemma2_to64();
            Nodmmas::lemma_exhaustive(code);
        }
        Nodmmas::from_u8(code).unwrap()
    }

    /// This value with the flag `ces` set to `flag`.
    pub fn with_ces(self, flag: bool) -> (made: Self)
        ensures
            made@ == spec_with_flag(self@ as u64, 0, flag),
    {
        Sanicap { raw: with_flag(self.raw as u64, 0, flag) as u32 }
    }

    /// This value with the flag `bes` set to `flag`.
    pub fn with_bes(self, flag: bool) -> (made: Self)
        ensures
            made@ == spec_with_flag(self@ as u64, 1, flag),
    {
        Sanicap { raw: with_flag(self.raw as u64, 1, flag) as u32 }
    }

    /// This value with the flag `ows` set to `flag`.
    pub fn with_ows(self, flag: bool) -> (made: Self)
        ensures
            made@ == spec_with_flag(self@ as u64, 2, flag),
    {
        Sanicap { raw: with_flag(self.raw as u64, 2, flag) as u32 }
    }

    /// This value with the flag `ndi` set to `flag`.
    pub fn with_ndi(self, flag: bool) -> (made: Self)
        ensures
            made@ == spec_with_flag(self@ as u64, 29, flag),
    {
        Sanicap { raw: with_flag(self.raw as u64, 29, flag) as u32 }
    }

    /// This value with the field `nodmmas` set to `value`.
    pub fn with_nodmmas(self, value: Nodmmas) -> (made: Self)
        ensures
            made@ == spec_with_field(self@ as u64, 30, 2, value.code() as u64),
    {
        proof {
            lemma2_to64();
            value.lemma_code_fits();
        }
        Sanicap { raw: put_field(self.raw as u64, 30, 2, value.to_u8() as u64) as u32 }
    }
}

/// Whether media is modified after a sanitize that was asked not to
/// deallocate: a field of two bits, each of whose four patterns is a
/// variant.
#[derive(Clone, Copy, Debug, PartialEq, Eq, Structural)]
pub enum Nodmmas {
    Undefined,
    NotModified,
    Modified,
    _Reserved,
}

impl Nodmmas {
    /// The code that stands for this answer.
    pub open spec fn code(self) -> u8 {
        match self {
            Nodmmas::Undefined => 0,
            Nodmmas::NotModified => 1,
            Nodmmas::Modified => 2,
            Nodmmas::_Reserved => 3,
        }
    }

    /// The answer that `code` stands for, if it stands for one.
    pub open spec fn named(code: u8) -> Option<Self> {
        if exists|named: Self| named.code() == code {
            Some(choose|named: Self| named.code() == code)
        } else {
            None
        }
    }

    /// No two of them share a code: each is the one that its code stands for.
    pub proof fn lemma_named_by_code(self)
        ensures
            Self::named(self.code()) == Some(self),
    {
        let found = choose|named: Self| named.code() == self.code();
        assert(found.code() == self.code());
    }

    /// What a code stands for is written as that code.
    pub proof fn lemma_code_of_named(code: u8)
        ensures
            Self::named(code) matches Some(named) ==> named.code() == code,
    {
    }

    /// Every pattern of the 2 bits stands for a variant.
    pub proof fn lemma_exhaustive(code: u8)
        requires
            code < 4,
        ensures
            Self::named(code) is Some,
            Self::named(code).unwrap().code() == code,
    {
        let witness = if code == 0 {
            Nodmmas::Undefined
        } else if code == 1 {
            Nodmmas::NotModified
        } else if code == 2 {
            Nodmmas::Modified
        } else {
            Nodmmas::_Reserved
        };
        assert(witness.code() == code);
    }

    /// A code fits the 2 bits.
    pub proof fn lemma_code_fits(self)
        ensures
            self.code() < 4,
    {
    }

    /// The code that stands for this answer.
    pub fn to_u8(&self) -> (code: u8)
        ensures
            code == self.code(),
    {
        match self {
            Nodmmas::Undefined => 0,
            Nodmmas::NotModified => 1,
            Nodmmas::Modified => 2,
            Nodmmas::_Reserved => 3,
        }
    }

    /// Looks `code` up: the answer it stands for, or `None` where it stands for none.
    pub fn from_u8(code: u8) -> (found: Option<Self>)
        ensures
            found == Self::named(code),
    {
        let found = match code {
            0 => Some(Nodmmas::Undefined),
            1 => Some(Nodmmas::NotModified),
            2 => Some(Nodmmas::Modified),
            3 => Some(Nodmmas::_Reserved),
            _ => None,
        };
        proof {
            match found {
                Some(named) => named.lemma_named_by_code(),
                None => assert(forall|named: Self| named.code() != code),
            }
        }
        found
    }
}

/// Asymmetric namespace access capabilities: 8 bits, the lowest first.
///
/// | bits | field |
/// |------|-------|
/// | 0 | `report_optimized` |
/// | 1 | `report_non_optimized` |
/// | 2 | `report_inaccessible` |
/// | 3 | `report_persistent_loss` |
/// | 4 | `report_change` |
/// | 5 | reserved |
/// | 6 | `anagrpid_static` |
/// | 7 | `anagrpid_supported` |
#[derive(Clone, Copy, Debug, PartialEq, Eq, Structural)]
pub struct Anacap {
    raw: u8,
}

impl View for Anacap {
    type V = u8;

    closed spec fn view(&self) -> u8 {
        self.raw
    }
}

impl Anacap {
    /// The fields of the value, the lowest first; the bits that have no meaning
    /// count as fields.
    pub open spec fn layout() -> Seq<Field> {
        seq![
            Field { offset: 0, width: 1 },
            Field { offset: 1, width: 1 },
            Field { offset: 2, width: 1 },
            Field { offset: 3, width: 1 },
            Field { offset: 4, width: 1 },
            Field { offset: 5, width: 1 },
            Field { offset: 6, width: 1 },
            Field { offset: 7, width: 1 },
        ]
    }

    /// The fields fill the 8 bits: no two of them share a bit and no bit is
    /// left out.
    pub proof fn lemma_layout_fills()
        ensures
            tiles(Self::layout(), 0, 8),
    {
        let from_0 = Self::layout();
        let from_1 = from_0.drop_first();
        let from_2 = from_1.drop_first();
        let from_3 = from_2.drop_first();
        let from_4 = from_3.drop_first();
        let from_5 = from_4.drop_first();
        let from_6 = from_5.drop_first();
        let from_7 = from_6.drop_first();
        let from_8 = from_7.drop_first();
        assert(tiles(from_8, 8, 8));
        assert(tiles(from_7, 7, 8));
        assert(tiles(from_6, 6, 8));
        assert(tiles(from_5, 5, 8));
        assert(tiles(from_4, 4, 8));
        assert(tiles(from_3, 3, 8));
        assert(tiles(from_2, 2, 8));
        assert(tiles(from_1, 1, 8));
    }

    /// A value is made of its fields: it is the sum of what they hold, each at
    /// its place.
    pub proof fn lemma_fields_make_value(self)
        ensures
            sum_of_fields(self@ as u64, Self::layout()) == self@,
    {
        lemma2_to64();
        Self::lemma_layout_fills();
        lemma_fields_make_backing(self@ as u64, Self::layout(), 8);
    }

    /// The value with every bit clear.
    pub fn new() -> (made: Self)
        ensures
            made@ == 0,
    {
        Anacap { raw: 0 }
    }

    /// The value that the byte holds.
    pub fn from_bytes(bytes: [u8; 1]) -> (made: Self)
        ensures
            made@ == le_value(bytes@),
            made@ == bytes@[0],
    {
        Anacap { raw: u8_of(bytes) }
    }

    /// The byte that holds this value.
    pub fn into_bytes(self) -> (bytes: [u8; 1])
        ensures
            bytes@ == le_bytes(self@ as nat, 1),
    {
        le_array::<1>(self.raw as u128)
    }

    /// The flag `report_optimized`: bit 0.
    pub fn report_optimized(&self) -> (flag: bool)
        ensures
            flag == spec_get_flag(self@ as u64, 0),
    {
        get_flag(self.raw as u64, 0)
    }

    /// The flag `report_non_optimized`: bit 1.
    pub fn report_non_optimized(&self) -> (flag: bool)
        ensures
            flag == spec_get_flag(self@ as u64, 1),
    {
        get_flag(self.raw as u64, 1)
    }

    /// The flag `report_inaccessible`: bit 2.
    pub fn report_inaccessible(&self) -> (flag: bool)
        ensures
            flag == spec_get_flag(self@ as u64, 2),
    {
        get_flag(self.raw as u64, 2)
    }

    /// The flag `report_persistent_loss`: bit 3.
    pub fn report_persistent_loss(&self) -> (flag: bool)
        ensures
            flag == spec_get_flag(self@ as u64, 3),
    {
        get_flag(self.raw as u64, 3)
    }

    /// The flag `report_change`: bit 4.
    pub fn report_change(&self) -> (flag: bool)
        ensures
            flag == spec_get_flag(self@ as u64, 4),
    {
        get_flag(self.raw as u64, 4)
    }

    /// The flag `anagrpid_static`: bit 6.
    pub fn anagrpid_static(&self) -> (flag: bool)
        ensures
            flag == spec_get_flag(self@ as u64, 6),
    {
        get_flag(self.raw as u64, 6)
    }

    /// The flag `anagrpid_supported`: bit 7.
    pub fn anagrpid_supported(&self) -> (flag: bool)
        ensures
            flag == spec_get_flag(self@ as u64, 7),
    {
        get_flag(self.raw as u64, 7)
    }

    /// This value with the flag `report_optimized` set to `flag`.
    pub fn with_report_optimized(self, flag: bool) -> (made: Self)
        ensures
            made@ == spec_with_flag(self@ as u64, 0, flag),
    {
        Anacap { raw: with_flag(self.raw as u64, 0, flag) as u8 }
    }

    /// This value with the flag `report_non_optimized` set to `flag`.
    pub fn with_report_non_optimized(self, flag: bool) -> (made: Self)
        ensures
            made@ == spec_with_flag(self@ as u64, 1, flag),
    {
        Anacap { raw: with_flag(self.raw as u64, 1, flag) as u8 }
    }

    /// This value with the flag `report_inaccessible` set to `flag`.
    pub fn with_report_inaccessible(self, flag: bool) -> (made: Self)
        ensures
            made@ == spec_with_flag(self@ as u64, 2, flag),
    {
        Anacap { raw: with_flag(self.raw as u64, 2, flag) as u8 }
    }

    /// This value with the flag `report_persistent_loss` set to `flag`.
    pub fn with_report_persistent_loss(self, flag: bool) -> (made: Self)
        ensures
            made@ == spec_with_flag(self@ as u64, 3, flag),
    {
        Anacap { raw: with_flag(self.raw as u64, 3, flag) as u8 }
    }

    /// This value with the flag `report_change` set to `flag`.
    pub fn with_report_change(self, flag: bool) -> (made: Self)
        ensures
            made@ == spec_with_flag(self@ as u64, 4, flag),
    {
        Anacap { raw: with_flag(self.raw as u64, 4, flag) as u8 }
    }

    /// This value with the flag `anagrpid_static` set to `flag`.
    pub fn with_anagrpid_static(self, flag: bool) -> (made: Self)
        ensures
            made@ == spec_with_flag(self@ as u64, 6, flag),
    {
        Anacap { raw: with_flag(self.raw as u64, 6, flag) as u8 }
    }

    /// This value with the flag `anagrpid_supported` set to `flag`.
    pub fn with_anagrpid_supported(self, flag: bool) -> (made: Self)
        ensures
            made@ == spec_with_flag(self@ as u64, 7, flag),
    {
        Anacap { raw: with_flag(self.raw as u64, 7, flag) as u8 }
    }
}

/// The smallest and the largest size of a queue entry, each as a power of two:
/// 8 bits, the lowest first.
///
/// | bits | field |
/// |------|-------|
/// | 0-3 | `min` |
/// | 4-7 | `max` |
#[derive(Clone, Copy, Debug, PartialEq, Eq, Structural)]
pub struct QueueEntrySize {
    raw: u8,
}

impl View for QueueEntrySize {
    type V = u8;

    closed spec fn view(&self) -> u8 {
        self.raw
    }
}

impl QueueEntrySize {
    /// The fields of the value, the lowest first; the bits that have no meaning
    /// count as fields.
    pub open spec fn layout() -> Seq<Field> {
        seq![
            Field { offset: 0, width: 4 },
            Field { offset: 4, width: 4 },
        ]
    }

    /// The fields fill the 8 bits: no two of them share a bit and no bit is
    /// left out.
    pub proof fn lemma_layout_fills()
        ensures
            tiles(Self::layout(), 0, 8),
    {
        let from_0 = Self::layout();
        let from_1 = from_0.drop_first();
        let from_2 = from_1.drop_first();
        assert(tiles(from_2, 8, 8));
        assert(tiles(from_1, 4, 8));
    }

    /// A value is made of its fields: it is the sum of what they hold, each at
    /// its place.
    pub proof fn lemma_fields_make_value(self)
        ensures
            sum_of_fields(self@ as u64, Self::layout()) == self@,
    {
        lemma2_to64();
        Self::lemma_layout_fills();
        lemma_fields_make_backing(self@ as u64, Self::layout(), 8);
    }

    /// The value with every bit clear.
    pub fn new() -> (made: Self)
        ensures
            made@ == 0,
    {
        QueueEntrySize { raw: 0 }
    }

    /// The value that the byte holds.
    pub fn from_bytes(bytes: [u8; 1]) -> (made: Self)
        ensures
            made@ == le_value(bytes@),
            made@ == bytes@[0],
    {
        QueueEntrySize { raw: u8_of(bytes) }
    }

    /// The byte that holds this value.
    pub fn into_bytes(self) -> (bytes: [u8; 1])
        ensures
            bytes@ == le_bytes(self@ as nat, 1),
    {
        le_array::<1>(self.raw as u128)
    }

    /// The number `min`: bits 0 to 3.
    pub fn min(&self) -> (value: u8)
        ensures
            value == spec_get_field(self@ as u64, 0, 4),
    {
        get_field(self.raw as u64, 0, 4) as u8
    }

    /// The number `max`: bits 4 to 7.
    pub fn max(&self) -> (value: u8)
        ensures
            value == spec_get_field(self@ as u64, 4, 4),
    {
        get_field(self.raw as u64, 4, 4) as u8
    }

    /// This value with the number `min` set to `value`; fails with `value`
    /// when it does not fit 4 bits.
    pub fn with_min(self, value: u8) -> (made: Result<Self, u64>)
        ensures
            value < 16 ==> made is Ok && made->Ok_0@ == spec_with_field(
                self@ as u64,
                0,
                4,
                value as u64,
            ),
            value >= 16 ==> made == Err::<Self, u64>(value as u64),
    {
        proof {
            lemma2_to64();
        }
        match with_field(self.raw as u64, 0, 4, value as u64) {
            Ok(raw) => Ok(QueueEntrySize { raw: raw as u8 }),
            Err(value) => Err(value),
        }
    }

    /// This value with the number `max` set to `value`; fails with `value`
    /// when it does not fit 4 bits.
    pub fn with_max(self, value: u8) -> (made: Result<Self, u64>)
        ensures
            value < 16 ==> made is Ok && made->Ok_0@ == spec_with_field(
                self@ as u64,
                4,
                4,
                value as u64,
            ),
            value >= 16 ==> made == Err::<Self, u64>(value as u64),
    {
        proof {
            lemma2_to64();
        }
        match with_field(self.raw as u64, 4, 4, value as u64) {
            Ok(raw) => Ok(QueueEntrySize { raw: raw as u8 }),
            Err(value) => Err(value),
        }
    }
}

/// Optional NVM command support: 16 bits, the lowest first.
///
/// | bits | field |
/// |------|-------|
/// | 0 | `compare` |
/// | 1 | `write_uncorrectable` |
/// | 2 | `dataset_mgmt` |
/// | 3 | `write_zeros` |
/// | 4 | `save_select` |
/// | 5 | `reservations` |
/// | 6 | `timestamp` |
/// | 7 | `verify` |
/// | 8-15 | reserved |
#[derive(Clone, Copy, Debug, PartialEq, Eq, Structural)]
pub struct Oncs {
    raw: u16,
}

impl View for Oncs {
    type V = u16;

    closed spec fn view(&self) -> u16 {
        self.raw
    }
}

impl Oncs {
    /// The fields of the value, the lowest first; the bits that have no meaning
    /// count as fields.
    pub open spec fn layout() -> Seq<Field> {
        seq![
            Field { offset: 0, width: 1 },
            Field { offset: 1, width: 1 },
            Field { offset: 2, width: 1 },
            Field { offset: 3, width: 1 },
            Field { offset: 4, width: 1 },
            Field { offset: 5, width: 1 },
            Field { offset: 6, width: 1 },
            Field { offset: 7, width: 1 },
            Field { offset: 8, width: 8 },
        ]
    }

    /// The fields fill the 16 bits: no two of them share a bit and no bit is
    /// left out.
    pub proof fn lemma_layout_fills()
        ensures
            tiles(Self::layout(), 0, 16),
    {
        let from_0 = Self::layout();
        let from_1 = from_0.drop_first();
        let from_2 = from_1.drop_first();
        let from_3 = from_2.drop_first();
        let from_4 = from_3.drop_first();
        let from_5 = from_4.drop_first();
        let from_6 = from_5.drop_first();
        let from_7 = from_6.drop_first();
        let from_8 = from_7.drop_first();
        let from_9 = from_8.drop_first();
        assert(tiles(from_9, 16, 16));
        assert(tiles(from_8, 8, 16));
        assert(tiles(from_7, 7, 16));
        assert(tiles(from_6, 6, 16));
        assert(tiles(from_5, 5, 16));
        assert(tiles(from_4, 4, 16));
        assert(tiles(from_3, 3, 16));
        assert(tiles(from_2, 2, 16));
        assert(tiles(from_1, 1, 16));
    }

    /// A value is made of its fields: it is the sum of what they hold, each at
    /// its place.
    pub proof fn lemma_fields_make_value(self)
        ensures
            sum_of_fields(self@ as u64, Self::layout()) == self@,
    {
        lemma2_to64();
        Self::lemma_layout_fills();
        lemma_fields_make_backing(self@ as u64, Self::layout(), 16);
    }

    /// The value with every bit clear.
    pub fn new() -> (made: Self)
        ensures
            made@ == 0,
    {
        Oncs { raw: 0 }
    }

    /// The value that the bytes spell, the low byte first.
    pub fn from_bytes(bytes: [u8; 2]) -> (made: Self)
        ensures
            made@ == le_value(bytes@),
    {
        Oncs { raw: u16_of(bytes) }
    }

    /// The bytes that spell this value, the low byte first.
    pub fn into_bytes(self) -> (bytes: [u8; 2])
        ensures
            bytes@ == le_bytes(self@ as nat, 2),
    {
        le_array::<2>(self.raw as u128)
    }

    /// The flag `compare`: bit 0.
    pub fn compare(&self) -> (flag: bool)
        ensures
            flag == spec_get_flag(self@ as u64, 0),
    {
        get_flag(self.raw as u64, 0)
    }

    /// The flag `write_uncorrectable`: bit 1.
    pub fn write_uncorrectable(&self) -> (flag: bool)
        ensures
            flag == spec_get_flag(self@ as u64, 1),
    {
        get_flag(self.raw as u64, 1)
    }

    /// The flag `dataset_mgmt`: bit 2.
    pub fn dataset_mgmt(&self) -> (flag: bool)
        ensures
            flag == spec_get_flag(self@ as u64, 2),
    {
        get_flag(self.raw as u64, 2)
    }

    /// The flag `write_zeros`: bit 3.
    pub fn write_zeros(&self) -> (flag: bool)
        ensures
            flag == spec_get_flag(self@ as u64, 3),
    {
        get_flag(self.raw as u64, 3)
    }

    /// The flag `save_select`: bit 4.
    pub fn save_select(&self) -> (flag: bool)
        ensures
            flag == spec_get_flag(self@ as u64, 4),
    {
        get_flag(self.raw as u64, 4)
    }

    /// The flag `reservations`: bit 5.
    pub fn reservations(&self) -> (flag: bool)
        ensures
            flag == spec_get_flag(self@ as u64, 5),
    {
        get_flag(self.raw as u64, 5)
    }

    /// The flag `timestamp`: bit 6.
    pub fn timestamp(&self) -> (flag: bool)
        ensures
            flag == spec_get_flag(self@ as u64, 6),
    {
        get_flag(self.raw as u64, 6)
    }

    /// The flag `verify`: bit 7.
    pub fn verify(&self) -> (flag: bool)
        ensures
            flag == spec_get_flag(self@ as u64, 7),
    {
        get_flag(self.raw as u64, 7)
    }

    /// This value with the flag `compare` set to `flag`.
    pub fn with_compare(self, flag: bool) -> (made: Self)
        ensures
            made@ == spec_with_flag(self@ as u64, 0, flag),
    {
        Oncs { raw: with_flag(self.raw as u64, 0, flag) as u16 }
    }

    /// This value with the flag `write_uncorrectable` set to `flag`.
    pub fn with_write_uncorrectable(self, flag: bool) -> (made: Self)
        ensures
            made@ == spec_with_flag(self@ as u64, 1, flag),
    {
        Oncs { raw: with_flag(self.raw as u64, 1, flag) as u16 }
    }

    /// This value with the flag `dataset_mgmt` set to `flag`.
    pub fn with_dataset_mgmt(self, flag: bool) -> (made: Self)
        ensures
            made@ == spec_with_flag(self@ as u64, 2, flag),
    {
        Oncs { raw: with_flag(self.raw as u64, 2, flag) as u16 }
    }

    /// This value with the flag `write_zeros` set to `flag`.
    pub fn with_write_zeros(self, flag: bool) -> (made: Self)
        ensures
            made@ == spec_with_flag(self@ as u64, 3, flag),
    {
        Oncs { raw: with_flag(self.raw as u64, 3, flag) as u16 }
    }

    /// This value with the flag `save_select` set to `flag`.
    pub fn with_save_select(self, flag: bool) -> (made: Self)
        ensures
            made@ == spec_with_flag(self@ as u64, 4, flag),
    {
        Oncs { raw: with_flag(self.raw as u64, 4, flag) as u16 }
    }

    /// This value with the flag `reservations` set to `flag`.
    pub fn with_reservations(self, flag: bool) -> (made: Self)
        ensures
            made@ == spec_with_flag(self@ as u64, 5, flag),
    {
        Oncs { raw: with_flag(self.raw as u64, 5, flag) as u16 }
    }

    /// This value with the flag `timestamp` set to `flag`.
    pub fn with_timestamp(self, flag: bool) -> (made: Self)
        ensures
            made@ == spec_with_flag(self@ as u64, 6, flag),
    {
        Oncs { raw: with_flag(self.raw as u64, 6, flag) as u16 }
    }

    /// This value with the flag `verify` set to `flag`.
    pub fn with_verify(self, flag: bool) -> (made: Self)
        ensures
            made@ == spec_with_flag(self@ as u64, 7, flag),
    {
        Oncs { raw: with_flag(self.raw as u64, 7, flag) as u16 }
    }
}

/// Fused operation support: 16 bits, the lowest first.
///
/// | bits | field |
/// |------|-------|
/// | 0 | `comp_write` |
/// | 1-15 | reserved |
#[derive(Clone, Copy, Debug, PartialEq, Eq, Structural)]
pub struct Fuses {
    raw: u16,
}

impl View for Fuses {
    type V = u16;

    closed spec fn view(&self) -> u16 {
        self.raw
    }
}

impl Fuses {
    /// The fields of the value, the lowest first; the bits that have no meaning
    /// count as fields.
    pub open spec fn layout() -> Seq<Field> {
        seq![
            Field { offset: 0, width: 1 },
            Field { offset: 1, width: 15 },
        ]
    }

    /// The fields fill the 16 bits: no two of them share a bit and no bit is
    /// left out.
    pub proof fn lemma_layout_fills()
        ensures
            tiles(Self::layout(), 0, 16),
    {
        let from_0 = Self::layout();
        let from_1 = from_0.drop_first();
        let from_2 = from_1.drop_first();
        assert(tiles(from_2, 16, 16));
        assert(tiles(from_1, 1, 16));
    }

    /// A value is made of its fields: it is the sum of what they hold, each at
    /// its place.
    pub proof fn lemma_fields_make_value(self)
        ensures
            sum_of_fields(self@ as u64, Self::layout()) == self@,
    {
        lemma2_to64();
        Self::lemma_layout_fills();
        lemma_fields_make_backing(self@ as u64, Self::layout(), 16);
    }

    /// The value with every bit clear.
    pub fn new() -> (made: Self)
        ensures
            made@ == 0,
    {
        Fuses { raw: 0 }
    }

    /// The value that the bytes spell, the low byte first.
    pub fn from_bytes(bytes: [u8; 2]) -> (made: Self)
        ensures
            made@ == le_value(bytes@),
    {
        Fuses { raw: u16_of(bytes) }
    }

    /// The bytes that spell this value, the low byte first.
    pub fn into_bytes(self) -> (bytes: [u8; 2])
        ensures
            bytes@ == le_bytes(self@ as nat, 2),
    {
        le_array::<2>(self.raw as u128)
    }

    /// The flag `comp_write`: bit 0.
    pub fn comp_write(&self) -> (flag: bool)
        ensures
            flag == spec_get_flag(self@ as u64, 0),
    {
        get_flag(self.raw as u64, 0)
    }

    /// This value with the flag `comp_write` set to `flag`.
    pub fn with_comp_write(self, flag: bool) -> (made: Self)
        ensures
            made@ == spec_with_flag(self@ as u64, 0, flag),
    {
        Fuses { raw: with_flag(self.raw as u64, 0, flag) as u16 }
    }
}

/// Format NVM attributes: 8 bits, the lowest first.
///
/// | bits | field |
/// |------|-------|
/// | 0 | `format_all` |
/// | 1 | `secure_erase_all` |
/// | 2 | `crypto_erase` |
/// | 3-7 | reserved |
#[derive(Clone, Copy, Debug, PartialEq, Eq, Structural)]
pub struct Fna {
    raw: u8,
}

impl View for Fna {
    type V = u8;

    closed spec fn view(&self) -> u8 {
        self.raw
    }
}

impl Fna {
    /// The fields of the value, the lowest first; the bits that have no meaning
    /// count as fields.
    pub open spec fn layout() -> Seq<Field> {
        seq![
            Field { offset: 0, width: 1 },
            Field { offset: 1, width: 1 },
            Field { offset: 2, width: 1 },
            Field { offset: 3, width: 5 },
        ]
    }

    /// The fields fill the 8 bits: no two of them share a bit and no bit is
    /// left out.
    pub proof fn lemma_layout_fills()
        ensures
            tiles(Self::layout(), 0, 8),
    {
        let from_0 = Self::layout();
        let from_1 = from_0.drop_first();
        let from_2 = from_1.drop_first();
        let from_3 = from_2.drop_first();
        let from_4 = from_3.drop_first();
        assert(tiles(from_4, 8, 8));
        assert(tiles(from_3, 3, 8));
        assert(tiles(from_2, 2, 8));
        assert(tiles(from_1, 1, 8));
    }

    /// A value is made of its fields: it is the sum of what they hold, each at
    /// its place.
    pub proof fn lemma_fields_make_value(self)
        ensures
            sum_of_fields(self@ as u64, Self::layout()) == self@,
    {
        lemma2_to64();
        Self::lemma_layout_fills();
        lemma_fields_make_backing(self@ as u64, Self::layout(), 8);
    }

    /// The value with every bit clear.
    pub fn new() -> (made: Self)
        ensures
            made@ == 0,
    {
        Fna { raw: 0 }
    }

    /// The value that the byte holds.
    pub fn from_bytes(bytes: [u8; 1]) -> (made: Self)
        ensures
            made@ == le_value(bytes@),
            made@ == bytes@[0],
    {
        Fna { raw: u8_of(bytes) }
    }

    /// The byte that holds this value.
    pub fn into_bytes(self) -> (bytes: [u8; 1])
        ensures
            bytes@ == le_bytes(self@ as nat, 1),
    {
        le_array::<1>(self.raw as u128)
    }

    /// The flag `format_all`: bit 0.
    pub fn format_all(&self) -> (flag: bool)
        ensures
            flag == spec_get_flag(self@ as u64, 0),
    {
        get_flag(self.raw as u64, 0)
    }

    /// The flag `secure_erase_all`: bit 1.
    pub fn secure_erase_all(&self) -> (flag: bool)
        ensures
            flag == spec_get_flag(self@ as u64, 1),
    {
        get_flag(self.raw as u64, 1)
    }

    /// The flag `crypto_erase`: bit 2.
    pub fn crypto_erase(&self) -> (flag: bool)
        ensures
            flag == spec_get_flag(self@ as u64, 2),
    {
        get_flag(self.raw as u64, 2)
    }

    /// This value with the flag `format_all` set to `flag`.
    pub fn with_format_all(self, flag: bool) -> (made: Self)
        ensures
            made@ == spec_with_flag(self@ as u64, 0, flag),
    {
        Fna { raw: with_flag(self.raw as u64, 0, flag) as u8 }
    }

    /// This value with the flag `secure_erase_all` set to `flag`.
    pub fn with_secure_erase_all(self, flag: bool) -> (made: Self)
        ensures
            made@ == spec_with_flag(self@ as u64, 1, flag),
    {
        Fna { raw: with_flag(self.raw as u64, 1, flag) as u8 }
    }

    /// This value with the flag `crypto_erase` set to `flag`.
    pub fn with_crypto_erase(self, flag: bool) -> (made: Self)
        ensures
            made@ == spec_with_flag(self@ as u64, 2, flag),
    {
        Fna { raw: with_flag(self.raw as u64, 2, flag) as u8 }
    }
}

/// NVM vendor specific command configuration: 8 bits, the lowest first.
///
/// | bits | field |
/// |------|-------|
/// | 0 | `vndr_standard` |
/// | 1-7 | reserved |
#[derive(Clone, Copy, Debug, PartialEq, Eq, Structural)]
pub struct Nvscc {
    raw: u8,
}

impl View for Nvscc {
    type V = u8;

    closed spec fn view(&self) -> u8 {
        self.raw
    }
}

impl Nvscc {
    /// The fields of the value, the lowest first; the bits that have no meaning
    /// count as fields.
    pub open spec fn layout() -> Seq<Field> {
        seq![
            Field { offset: 0, width: 1 },
            Field { offset: 1, width: 7 },
        ]
    }

    /// The fields fill the 8 bits: no two of them share a bit and no bit is
    /// left out.
    pub proof fn lemma_layout_fills()
        ensures
            tiles(Self::layout(), 0, 8),
    {
        let from_0 = Self::layout();
        let from_1 = from_0.drop_first();
        let from_2 = from_1.drop_first();
        assert(tiles(from_2, 8, 8));
        assert(tiles(from_1, 1, 8));
    }

    /// A value is made of its fields: it is the sum of what they hold, each at
    /// its place.
    pub proof fn lemma_fields_make_value(self)
        ensures
            sum_of_fields(self@ as u64, Self::layout()) == self@,
    {
        lemma2_to64();
        Self::lemma_layout_fills();
        lemma_fields_make_backing(self@ as u64, Self::layout(), 8);
    }

    /// The value with every bit clear.
    pub fn new() -> (made: Self)
        ensures
            made@ == 0,
    {
        Nvscc { raw: 0 }
    }

    /// The value that the byte holds.
    pub fn from_bytes(bytes: [u8; 1]) -> (made: Self)
        ensures
            made@ == le_value(bytes@),
            made@ == bytes@[0],
    {
        Nvscc { raw: u8_of(bytes) }
    }

    /// The byte that holds this value.
    pub fn into_bytes(self) -> (bytes: [u8; 1])
        ensures
            bytes@ == le_bytes(self@ as nat, 1),
    {
        le_array::<1>(self.raw as u128)
    }

    /// The flag `vndr_standard`: bit 0.
    pub fn vndr_standard(&self) -> (flag: bool)
        ensures
            flag == spec_get_flag(self@ as u64, 0),
    {
        get_flag(self.raw as u64, 0)
    }

    /// This value with the flag `vndr_standard` set to `flag`.
    pub fn with_vndr_standard(self, flag: bool) -> (made: Self)
        ensures
            made@ == spec_with_flag(self@ as u64, 0, flag),
    {
        Nvscc { raw: with_flag(self.raw as u64, 0, flag) as u8 }
    }
}

/// Namespace write protection capabilities: 8 bits, the lowest first.
///
/// | bits | field |
/// |------|-------|
/// | 0 | `supported` |
/// | 1 | `until_pwr_cycle` |
/// | 2 | `permanent` |
/// | 3-7 | reserved |
#[derive(Clone, Copy, Debug, PartialEq, Eq, Structural)]
pub struct Nwpc {
    raw: u8,
}

impl View for Nwpc {
    type V = u8;

    closed spec fn view(&self) -> u8 {
        self.raw
    }
}

impl Nwpc {
    /// The fields of the value, the lowest first; the bits that have no meaning
    /// count as fields.
    pub open spec fn layout() -> Seq<Field> {
        seq![
            Field { offset: 0, width: 1 },
            Field { offset: 1, width: 1 },
            Field { offset: 2, width: 1 },
            Field { offset: 3, width: 5 },
        ]
    }

    /// The fields fill the 8 bits: no two of them share a bit and no bit is
    /// left out.
    pub proof fn lemma_layout_fills()
        ensures
            tiles(Self::layout(), 0, 8),
    {
        let from_0 = Self::layout();
        let from_1 = from_0.drop_first();
        let from_2 = from_1.drop_first();
        let from_3 = from_2.drop_first();
        let from_4 = from_3.drop_first();
        assert(tiles(from_4, 8, 8));
        assert(tiles(from_3, 3, 8));
        assert(tiles(from_2, 2, 8));
        assert(tiles(from_1, 1, 8));
    }

    /// A value is made of its fields: it is the sum of what they hold, each at
    /// its place.
    pub proof fn lemma_fields_make_value(self)
        ensures
            sum_of_fields(self@ as u64, Self::layout()) == self@,
    {
        lemma2_to64();
        Self::lemma_layout_fills();
        lemma_fields_make_backing(self@ as u64, Self::layout(), 8);
    }

    /// The value with every bit clear.
    pub fn new() -> (made: Self)
        ensures
            made@ == 0,
    {
        Nwpc { raw: 0 }
    }

    /// The value that the byte holds.
    pub fn from_bytes(bytes: [u8; 1]) -> (made: Self)
        ensures
            made@ == le_value(bytes@),
            made@ == bytes@[0],
    {
        Nwpc { raw: u8_of(bytes) }
    }

    /// The byte that holds this value.
    pub fn into_bytes(self) -> (bytes: [u8; 1])
        ensures
            bytes@ == le_bytes(self@ as nat, 1),
    {
        le_array::<1>(self.raw as u128)
    }

    /// The flag `supported`: bit 0.
    pub fn supported(&self) -> (flag: bool)
        ensures
            flag == spec_get_flag(self@ as u64, 0),
    {
        get_flag(self.raw as u64, 0)
    }

    /// The flag `until_pwr_cycle`: bit 1.
    pub fn until_pwr_cycle(&self) -> (flag: bool)
        ensures
            flag == spec_get_flag(self@ as u64, 1),
    {
        get_flag(self.raw as u64, 1)
    }

    /// The flag `permanent`: bit 2.
    pub fn permanent(&self) -> (flag: bool)
        ensures
            flag == spec_get_flag(self@ as u64, 2),
    {
        get_flag(self.raw as u64, 2)
    }

    /// This value with the flag `supported` set to `flag`.
    pub fn with_supported(self, flag: bool) -> (made: Self)
        ensures
            made@ == spec_with_flag(self@ as u64, 0, flag),
    {
        Nwpc { raw: with_flag(self.raw as u64, 0, flag) as u8 }
    }

    /// This value with the flag `until_pwr_cycle` set to `flag`.
    pub fn with_until_pwr_cycle(self, flag: bool) -> (made: Self)
        ensures
            made@ == spec_with_flag(self@ as u64, 1, flag),
    {
        Nwpc { raw: with_flag(self.raw as u64, 1, flag) as u8 }
    }

    /// This value with the flag `permanent` set to `flag`.
    pub fn with_permanent(self, flag: bool) -> (made: Self)
        ensures
            made@ == spec_with_flag(self@ as u64, 2, flag),
    {
        Nwpc { raw: with_flag(self.raw as u64, 2, flag) as u8 }
    }
}

/// SGL support: 32 bits, the lowest first.
///
/// | bits | field |
/// |------|-------|
/// | 0-1 | `support` |
/// | 2 | `keyed` |
/// | 3-15 | reserved |
/// | 16 | `bit_bucket` |
/// | 17 | `meta_byte_aligned_contigious` |
/// | 18 | `oversized_buffer` |
/// | 19 | `meta_singular_sgl` |
/// | 20 | `addr_field` |
/// | 21 | `transport_descriptor` |
/// | 22-31 | reserved |
#[derive(Clone, Copy, Debug, PartialEq, Eq, Structural)]
pub struct Sgls {
    raw: u32,
}

impl View for Sgls {
    type V = u32;

    closed spec fn view(&self) -> u32 {
        self.raw
    }
}

impl Sgls {
    /// The fields of the value, the lowest first; the bits that have no meaning
    /// count as fields.
    pub open spec fn layout() -> Seq<Field> {
        seq![
            Field { offset: 0, width: 2 },
            Field { offset: 2, width: 1 },
            Field { offset: 3, width: 13 },
            Field { offset: 16, width: 1 },
            Field { offset: 17, width: 1 },
            Field { offset: 18, width: 1 },
            Field { offset: 19, width: 1 },
            Field { offset: 20, width: 1 },
            Field { offset: 21, width: 1 },
            Field { offset: 22, width: 10 },
        ]
    }

    /// The fields fill the 32 bits: no two of them share a bit and no bit is
    /// left out.
    pub proof fn lemma_layout_fills()
        ensures
            tiles(Self::layout(), 0, 32),
    {
        let from_0 = Self::layout();
        let from_1 = from_0.drop_first();
        let from_2 = from_1.drop_first();
        let from_3 = from_2.drop_first();
        let from_4 = from_3.drop_first();
        let from_5 = from_4.drop_first();
        let from_6 = from_5.drop_first();
        let from_7 = from_6.drop_first();
        let from_8 = from_7.drop_first();
        let from_9 = from_8.drop_first();
        let from_10 = from_9.drop_first();
        assert(tiles(from_10, 32, 32));
        assert(tiles(from_9, 22, 32));
        assert(tiles(from_8, 21, 32));
        assert(tiles(from_7, 20, 32));
        assert(tiles(from_6, 19, 32));
        assert(tiles(from_5, 18, 32));
        assert(tiles(from_4, 17, 32));
        assert(tiles(from_3, 16, 32));
        assert(tiles(from_2, 3, 32));
        assert(tiles(from_1, 2, 32));
    }

    /// A value is made of its fields: it is the sum of what they hold, each at
    /// its place.
    pub proof fn lemma_fields_make_value(self)
        ensures
            sum_of_fields(self@ as u64, Self::layout()) == self@,
    {
        lemma2_to64();
        Self::lemma_layout_fills();
        lemma_fields_make_backing(self@ as u64, Self::layout(), 32);
    }

    /// The value with every bit clear.
    pub fn new() -> (made: Self)
        ensures
            made@ == 0,
    {
        Sgls { raw: 0 }
    }

    /// The value that the bytes spell, the low byte first.
    pub fn from_bytes(bytes: [u8; 4]) -> (made: Self)
        ensures
            made@ == le_value(bytes@),
    {
        Sgls { raw: u32_of(bytes) }
    }

    /// The bytes that spell this value, the low byte first.
    pub fn into_bytes(self) -> (bytes: [u8; 4])
        ensures
            bytes@ == le_bytes(self@ as nat, 4),
    {
        le_array::<4>(self.raw as u128)
    }

    /// The field `support`: bits 0 to 1. Every pattern of them is a variant.
    pub fn support(&self) -> (value: SglsType)
        ensures
            value.code() == spec_get_field(self@ as u64, 0, 2),
            SglsType::named(spec_get_field(self@ as u64, 0, 2) as u8) == Some(value),
    {
        let code = get_field(self.raw as u64, 0, 2) as u8;
        proof {
            lemma2_to64();
            SglsType::lemma_exhaustive(code);
        }
        SglsType::from_u8(code).unwrap()
    }

    /// The flag `keyed`: bit 2.
    pub fn keyed(&self) -> (flag: bool)
        ensures
            flag == spec_get_flag(self@ as u64, 2),
    {
        get_flag(self.raw as u64, 2)
    }

    /// The flag `bit_bucket`: bit 16.
    pub fn bit_bucket(&self) -> (flag: bool)
        ensures
            flag == spec_get_flag(self@ as u64, 16),
    {
        get_flag(self.raw as u64, 16)
    }

    /// The flag `meta_byte_aligned_contigious`: bit 17.
    pub fn meta_byte_aligned_contigious(&self) -> (flag: bool)
        ensures
            flag == spec_get_flag(self@ as u64, 17),
    {
        get_flag(self.raw as u64, 17)
    }

    /// The flag `oversized_buffer`: bit 18.
    pub fn oversized_buffer(&self) -> (flag: bool)
        ensures
            flag == spec_get_flag(self@ as u64, 18),
    {
        get_flag(self.raw as u64, 18)
    }

    /// The flag `meta_singular_sgl`: bit 19.
    pub fn meta_singular_sgl(&self) -> (flag: bool)
        ensures
            flag == spec_get_flag(self@ as u64, 19),
    {
        get_flag(self.raw as u64, 19)
    }

    /// The flag `addr_field`: bit 20.
    pub fn addr_field(&self) -> (flag: bool)
        ensures
            flag == spec_get_flag(self@ as u64, 20),
    {
        get_flag(self.raw as u64, 20)
    }

    /// The flag `transport_descriptor`: bit 21.
    pub fn transport_descriptor(&self) -> (flag: bool)
        ensures
            flag == spec_get_flag(self@ as u64, 21),
    {
        get_flag(self.raw as u64, 21)
    }

    /// This value with the field `support` set to `value`.
    pub fn with_support(self, value: SglsType) -> (made: Self)
        ensures
            made@ == spec_with_field(self@ as u64, 0, 2, value.code() as u64),
    {
        proof {
            lemma2_to64();
            value.lemma_code_fits();
        }
        Sgls { raw: put_field(self.raw as u64, 0, 2, value.to_u8() as u64) as u32 }
    }

    /// This value with the flag `keyed` set to `flag`.
    pub fn with_keyed(self, flag: bool) -> (made: Self)
        ensures
            made@ == spec_with_flag(self@ as u64, 2, flag),
    {
        Sgls { raw: with_flag(self.raw as u64, 2, flag) as u32 }
    }

    /// This value with the flag `bit_bucket` set to `flag`.
    pub fn with_bit_bucket(self, flag: bool) -> (made: Self)
        ensures
            made@ == spec_with_flag(self@ as u64, 16, flag),
    {
        Sgls { raw: with_flag(self.raw as u64, 16, flag) as u32 }
    }

    /// This value with the flag `meta_byte_aligned_contigious` set to `flag`.
    pub fn with_meta_byte_aligned_contigious(self, flag: bool) -> (made: Self)
        ensures
            made@ == spec_with_flag(self@ as u64, 17, flag),
    {
        Sgls { raw: with_flag(self.raw as u64, 17, flag) as u32 }
    }

    /// This value with the flag `oversized_buffer` set to `flag`.
    pub fn with_oversized_buffer(self, flag: bool) -> (made: Self)
        ensures
            made@ == spec_with_flag(self@ as u64, 18, flag),
    {
        Sgls { raw: with_flag(self.raw as u64, 18, flag) as u32 }
    }

    /// This value with the flag `meta_singular_sgl` set to `flag`.
    pub fn with_meta_singular_sgl(self, flag: bool) -> (made: Self)
        ensures
            made@ == spec_with_flag(self@ as u64, 19, flag),
    {
        Sgls { raw: with_flag(self.raw as u64, 19, flag) as u32 }
    }

    /// This value with the flag `addr_field` set to `flag`.
    pub fn with_addr_field(self, flag: bool) -> (made: Self)
        ensures
            made@ == spec_with_flag(self@ as u64, 20, flag),
    {
        Sgls { raw: with_flag(self.raw as u64, 20, flag) as u32 }
    }

    /// This value with the flag `transport_descriptor` set to `flag`.
    pub fn with_transport_descriptor(self, flag: bool) -> (made: Self)
        ensures
            made@ == spec_with_flag(self@ as u64, 21, flag),
    {
        Sgls { raw: with_flag(self.raw as u64, 21, flag) as u32 }
    }
}

/// How far scatter gather lists are supported: a field of two bits, each
/// of whose four patterns is a variant.
#[derive(Clone, Copy, Debug, PartialEq, Eq, Structural)]
pub enum SglsType {
    NotSupported,
    Supported,
    SupportedAligned,
    _Reserved,
}

impl SglsType {
    /// The code that stands for this support.
    pub open spec fn code(self) -> u8 {
        match self {
            SglsType::NotSupported => 0,
            SglsType::Supported => 1,
            SglsType::SupportedAligned => 2,
            SglsType::_Reserved => 3,
        }
    }

    /// The support that `code` stands for, if it stands for one.
    pub open spec fn named(code: u8) -> Option<Self> {
        if exists|named: Self| named.code() == code {
            Some(choose|named: Self| named.code() == code)
        } else {
            None
        }
    }

    /// No two of them share a code: each is the one that its code stands for.
    pub proof fn lemma_named_by_code(self)
        ensures
            Self::named(self.code()) == Some(self),
    {
        let found = choose|named: Self| named.code() == self.code();
        assert(found.code() == self.code());
    }

    /// What a code stands for is written as that code.
    pub proof fn lemma_code_of_named(code: u8)
        ensures
            Self::named(code) matches Some(named) ==> named.code() == code,
    {
    }

    /// Every pattern of the 2 bits stands for a variant.
    pub proof fn lemma_exhaustive(code: u8)
        requires
            code < 4,
        ensures
            Self::named(code) is Some,
            Self::named(code).unwrap().code() == code,
    {
        let witness = if code == 0 {
            SglsType::NotSupported
        } else if code == 1 {
            SglsType::Supported
        } else if code == 2 {
            SglsType::SupportedAligned
        } else {
            SglsType::_Reserved
        };
        assert(witness.code() == code);
    }

    /// A code fits the 2 bits.
    pub proof fn lemma_code_fits(self)
        ensures
            self.code() < 4,
    {
    }

    /// The code that stands for this support.
    pub fn to_u8(&self) -> (code: u8)
        ensures
            code == self.code(),
    {
        match self {
            SglsType::NotSupported => 0,
            SglsType::Supported => 1,
            SglsType::SupportedAligned => 2,
            SglsType::_Reserved => 3,
        }
    }

    /// Looks `code` up: the support it stands for, or `None` where it stands for none.
    pub fn from_u8(code: u8) -> (found: Option<Self>)
        ensures
            found == Self::named(code),
    {
        let found = match code {
            0 => Some(SglsType::NotSupported),
            1 => Some(SglsType::Supported),
            2 => Some(SglsType::SupportedAligned),
            3 => Some(SglsType::_Reserved),
            _ => None,
        };
        proof {
            match found {
                Some(named) => named.lemma_named_by_code(),
                None => assert(forall|named: Self| named.code() != code),
            }
        }
        found
    }
}

/// A power state descriptor: 256 bits, held as four words of 64 bits, the low
/// word first. In each word the lowest bit comes first.
///
/// | word | bits | field |
/// |------|------|-------|
/// | 0 | 0-15 | `mp` |
/// | 0 | 16-23 | reserved |
/// | 0 | 24 | `mxps` |
/// | 0 | 25 | `nops` |
/// | 0 | 26-31 | reserved |
/// | 0 | 32-63 | `enlat` |
/// | 1 | 0-31 | `exlat` |
/// | 1 | 32-36 | `rrt` |
/// | 1 | 37-39 | reserved |
/// | 1 | 40-44 | `rrl` |
/// | 1 | 45-47 | reserved |
/// | 1 | 48-52 | `rwt` |
/// | 1 | 53-55 | reserved |
/// | 1 | 56-60 | `rwl` |
/// | 1 | 61-63 | reserved |
/// | 2 | 0-15 | `idlp` |
/// | 2 | 16-21 | reserved |
/// | 2 | 22-23 | `ips` |
/// | 2 | 24-31 | reserved |
/// | 2 | 32-47 | `actp` |
/// | 2 | 48-50 | `apw` |
/// | 2 | 51-53 | reserved |
/// | 2 | 54-55 | `aps` |
/// | 2 | 56-63 | reserved |
/// | 3 | 0-63 | reserved |
#[derive(Clone, Copy, Debug, PartialEq, Eq)]
pub struct PowerState {
    words: [u64; 4],
}

impl View for PowerState {
    type V = Seq<u64>;

    closed spec fn view(&self) -> Seq<u64> {
        self.words@
    }
}

impl PowerState {
    /// The fields of word `word` of the descriptor, the lowest first; the
    /// bits that have no meaning count as fields.
    pub open spec fn layout(word: int) -> Seq<Field> {
        if word == 0 {
            seq![
                Field { offset: 0, width: 16 },
                Field { offset: 16, width: 8 },
                Field { offset: 24, width: 1 },
                Field { offset: 25, width: 1 },
                Field { offset: 26, width: 6 },
                Field { offset: 32, width: 32 },
            ]
        } else if word == 1 {
            seq![
                Field { offset: 0, width: 32 },
                Field { offset: 32, width: 5 },
                Field { offset: 37, width: 3 },
                Field { offset: 40, width: 5 },
                Field { offset: 45, width: 3 },
                Field { offset: 48, width: 5 },
                Field { offset: 53, width: 3 },
                Field { offset: 56, width: 5 },
                Field { offset: 61, width: 3 },
            ]
        } else if word == 2 {
            seq![
                Field { offset: 0, width: 16 },
                Field { offset: 16, width: 6 },
                Field { offset: 22, width: 2 },
                Field { offset: 24, width: 8 },
                Field { offset: 32, width: 16 },
                Field { offset: 48, width: 3 },
                Field { offset: 51, width: 3 },
                Field { offset: 54, width: 2 },
                Field { offset: 56, width: 8 },
            ]
        } else {
            seq![Field { offset: 0, width: 64 }]
        }
    }

    /// The fields of each word fill its 64 bits: no two of them share a bit
    /// and no bit is left out.
    pub proof fn lemma_layout_fills(word: int)
        requires
            0 <= word < 4,
        ensures
            tiles(Self::layout(word), 0, 64),
    {
        if word == 0 {
            let from_0 = Self::layout(word);
            let from_1 = from_0.drop_first();
            let from_2 = from_1.drop_first();
            let from_3 = from_2.drop_first();
            let from_4 = from_3.drop_first();
            let from_5 = from_4.drop_first();
            let from_6 = from_5.drop_first();
            assert(tiles(from_6, 64, 64));
            assert(tiles(from_5, 32, 64));
            assert(tiles(from_4, 26, 64));
            assert(tiles(from_3, 25, 64));
            assert(tiles(from_2, 24, 64));
            assert(tiles(from_1, 16, 64));
        } else if word == 1 {
            let from_0 = Self::layout(word);
            let from_1 = from_0.drop_first();
            let from_2 = from_1.drop_first();
            let from_3 = from_2.drop_first();
            let from_4 = from_3.drop_first();
            let from_5 = from_4.drop_first();
            let from_6 = from_5.drop_first();
            let from_7 = from_6.drop_first();
            let from_8 = from_7.drop_first();
            let from_9 = from_8.drop_first();
            assert(tiles(from_9, 64, 64));
            assert(tiles(from_8, 61, 64));
            assert(tiles(from_7, 56, 64));
            assert(tiles(from_6, 53, 64));
            assert(tiles(from_5, 48, 64));
            assert(tiles(from_4, 45, 64));
            assert(tiles(from_3, 40, 64));
            assert(tiles(from_2, 37, 64));
            assert(tiles(from_1, 32, 64));
        } else if word == 2 {
            let from_0 = Self::layout(word);
            let from_1 = from_0.drop_first();
            let from_2 = from_1.drop_first();
            let from_3 = from_2.drop_first();
            let from_4 = from_3.drop_first();
            let from_5 = from_4.drop_first();
            let from_6 = from_5.drop_first();
            let from_7 = from_6.drop_first();
            let from_8 = from_7.drop_first();
            let from_9 = from_8.drop_first();
            assert(tiles(from_9, 64, 64));
            assert(tiles(from_8, 56, 64));
            assert(tiles(from_7, 54, 64));
            assert(tiles(from_6, 51, 64));
            assert(tiles(from_5, 48, 64));
            assert(tiles(from_4, 32, 64));
            assert(tiles(from_3, 24, 64));
            assert(tiles(from_2, 22, 64));
            assert(tiles(from_1, 16, 64));
        } else {
            let from_0 = Self::layout(word);
            let from_1 = from_0.drop_first();
            assert(tiles(from_1, 64, 64));
        }
    }

    /// Each word of a descriptor is made of its fields: it is the sum of
    /// what they hold, each at its place.
    pub proof fn lemma_fields_make_value(self, word: int)
        requires
            0 <= word < 4,
        ensures
            sum_of_fields(self@[word], Self::layout(word)) == self@[word],
    {
        lemma2_to64();
        Self::lemma_layout_fills(word);
        lemma_fields_make_backing(self@[word], Self::layout(word), 64);
    }

    /// The one descriptor that holds `words`. Meant for four words.
    pub closed spec fn holding(words: Seq<u64>) -> Self {
        choose|held: Self| held.words@ == words
    }

    /// A descriptor always holds four words.
    pub proof fn lemma_len(self)
        ensures
            self@.len() == 4,
    {
    }

    /// Two descriptors that hold the same words are the same descriptor.
    pub proof fn lemma_same_words(self, other: Self)
        requires
            self@ == other@,
        ensures
            self == other,
    {
        assert(self.words =~= other.words);
    }

    /// A descriptor is the one that holds its words.
    pub proof fn lemma_holding(self)
        ensures
            Self::holding(self@) == self,
    {
        let held = Self::holding(self@);
        assert(held.words@ == self.words@);
        held.lemma_same_words(self);
    }

    /// The descriptor with every bit clear.
    pub fn new() -> (made: Self)
        ensures
            made@ == seq![0u64, 0u64, 0u64, 0u64],
    {
        let made = PowerState { words: [0u64; 4] };
        assert(made@ =~= seq![0u64, 0u64, 0u64, 0u64]);
        made
    }

    /// The descriptor in the 32 bytes of `bytes` that start at `at`: word
    /// `i` is spelled by the eight bytes from `at + 8 * i` on.
    pub fn read(bytes: &[u8], at: usize) -> (made: Self)
        requires
            at + 32 <= bytes@.len(),
        ensures
            forall|word: int| 0 <= word < 4 ==> made@[word] == le_at(bytes@, at + 8 * word, 8),
    {
        assert(at + 32 <= bytes.len());
        PowerState {
            words: [
                read_u64(bytes, at),
                read_u64(bytes, at + 8),
                read_u64(bytes, at + 16),
                read_u64(bytes, at + 24),
            ],
        }
    }

    /// The descriptor that 32 bytes spell.
    pub fn from_bytes(bytes: [u8; 32]) -> (made: Self)
        ensures
            forall|word: int| 0 <= word < 4 ==> made@[word] == le_at(bytes@, 8 * word, 8),
    {
        PowerState::read(bytes.as_slice(), 0)
    }

    /// The 32 bytes that spell this descriptor: word `i` is written to the
    /// eight bytes from `8 * i` on, the low byte first.
    pub fn into_bytes(self) -> (bytes: [u8; 32])
        ensures
            forall|word: int|
                0 <= word < 4 ==> #[trigger] bytes@.subrange(8 * word, 8 * word + 8) == le_bytes(
                    self@[word] as nat,
                    8,
                ),
    {
        let mut bytes = [0u8; 32];
        let mut word: usize = 0;
        while word < 4
            invariant
                word <= 4,
                forall|done: int, k: int|
                    0 <= done < word && 0 <= k < 8 ==> bytes@[8 * done + k] == le_bytes(
                        self@[done] as nat,
                        8,
                    )[k],
            decreases 4 - word,
        {
            let spelled = le_array::<8>(self.words[word] as u128);
            let mut k: usize = 0;
            while k < 8
                invariant
                    word < 4,
                    k <= 8,
                    spelled@ == le_bytes(self@[word as int] as nat, 8),
                    forall|done: int, j: int|
                        0 <= done < word && 0 <= j < 8 ==> bytes@[8 * done + j] == le_bytes(
                            self@[done] as nat,
                            8,
                        )[j],
                    forall|j: int| 0 <= j < k ==> bytes@[8 * word + j] == spelled@[j],
                decreases 8 - k,
            {
                bytes[8 * word + k] = spelled[k];
                k = k + 1;
            }
            word = word + 1;
        }
        proof {
            assert forall|done: int| 0 <= done < 4 implies #[trigger] bytes@.subrange(
                8 * done,
                8 * done + 8,
            ) == le_bytes(self@[done] as nat, 8) by {
                assert(bytes@.subrange(8 * done, 8 * done + 8) =~= le_bytes(
                    self@[done] as nat,
                    8,
                ));
            }
        }
        bytes
    }

    /// Maximum power: word 0, bits 0 to 15.
    pub fn mp(&self) -> (value: u16)
        ensures
            value == spec_get_field(self@[0], 0, 16),
    {
        get_field(self.words[0], 0, 16) as u16
    }

    /// Max power scale: word 0, bit 24.
    pub fn mxps(&self) -> (flag: bool)
        ensures
            flag == spec_get_flag(self@[0], 24),
    {
        get_flag(self.words[0], 24)
    }

    /// Non-operational state: word 0, bit 25.
    pub fn nops(&self) -> (flag: bool)
        ensures
            flag == spec_get_flag(self@[0], 25),
    {
        get_flag(self.words[0], 25)
    }

    /// Entry latency: word 0, bits 32 to 63.
    pub fn enlat(&self) -> (value: u32)
        ensures
            value == spec_get_field(self@[0], 32, 32),
    {
        get_field(self.words[0], 32, 32) as u32
    }

    /// Exit latency: word 1, bits 0 to 31.
    pub fn exlat(&self) -> (value: u32)
        ensures
            value == spec_get_field(self@[1], 0, 32),
    {
        get_field(self.words[1], 0, 32) as u32
    }

    /// Relative read throughput: word 1, bits 32 to 36.
    pub fn rrt(&self) -> (value: u8)
        ensures
            value == spec_get_field(self@[1], 32, 5),
    {
        get_field(self.words[1], 32, 5) as u8
    }

    /// Relative read latency: word 1, bits 40 to 44.
    pub fn rrl(&self) -> (value: u8)
        ensures
            value == spec_get_field(self@[1], 40, 5),
    {
        get_field(self.words[1], 40, 5) as u8
    }

    /// Relative write throughput: word 1, bits 48 to 52.
    pub fn rwt(&self) -> (value: u8)
        ensures
            value == spec_get_field(self@[1], 48, 5),
    {
        get_field(self.words[1], 48, 5) as u8
    }

    /// Relative write latency: word 1, bits 56 to 60.
    pub fn rwl(&self) -> (value: u8)
        ensures
            value == spec_get_field(self@[1], 56, 5),
    {
        get_field(self.words[1], 56, 5) as u8
    }

    /// Idle power: word 2, bits 0 to 15.
    pub fn idlp(&self) -> (value: u16)
        ensures
            value == spec_get_field(self@[2], 0, 16),
    {
        get_field(self.words[2], 0, 16) as u16
    }

    /// Idle power scale: word 2, bits 22 to 23.
    pub fn ips(&self) -> (value: u8)
        ensures
            value == spec_get_field(self@[2], 22, 2),
    {
        get_field(self.words[2], 22, 2) as u8
    }

    /// Active power: word 2, bits 32 to 47.
    pub fn actp(&self) -> (value: u16)
        ensures
            value == spec_get_field(self@[2], 32, 16),
    {
        get_field(self.words[2], 32, 16) as u16
    }

    /// Active power workload: word 2, bits 48 to 50.
    pub fn apw(&self) -> (value: u8)
        ensures
            value == spec_get_field(self@[2], 48, 3),
    {
        get_field(self.words[2], 48, 3) as u8
    }

    /// Active power scale: word 2, bits 54 to 55.
    pub fn aps(&self) -> (value: u8)
        ensures
            value == spec_get_field(self@[2], 54, 2),
    {
        get_field(self.words[2], 54, 2) as u8
    }

    /// This descriptor with the number `mp` set to `value`.
    pub fn with_mp(self, value: u16) -> (made: Self)
        ensures
            made@ == self@.update(0, spec_with_field(self@[0], 0, 16, value as u64)),
    {
        proof {
            lemma2_to64();
        }
        let mut words = self.words;
        words[0] = put_field(words[0], 0, 16, value as u64);
        PowerState { words }
    }

    /// This descriptor with the flag `mxps` set to `flag`.
    pub fn with_mxps(self, flag: bool) -> (made: Self)
        ensures
            made@ == self@.update(0, spec_with_flag(self@[0], 24, flag)),
    {
        let mut words = self.words;
        words[0] = with_flag(words[0], 24, flag);
        PowerState { words }
    }

    /// This descriptor with the flag `nops` set to `flag`.
    pub fn with_nops(self, flag: bool) -> (made: Self)
        ensures
            made@ == self@.update(0, spec_with_flag(self@[0], 25, flag)),
    {
        let mut words = self.words;
        words[0] = with_flag(words[0], 25, flag);
        PowerState { words }
    }

    /// This descriptor with the number `enlat` set to `value`.
    pub fn with_enlat(self, value: u32) -> (made: Self)
        ensures
            made@ == self@.update(0, spec_with_field(self@[0], 32, 32, value as u64)),
    {
        proof {
            lemma2_to64();
        }
        let mut words = self.words;
        words[0] = put_field(words[0], 32, 32, value as u64);
        PowerState { words }
    }

    /// This descriptor with the number `exlat` set to `value`.
    pub fn with_exlat(self, value: u32) -> (made: Self)
        ensures
            made@ == self@.update(1, spec_with_field(self@[1], 0, 32, value as u64)),
    {
        proof {
            lemma2_to64();
        }
        let mut words = self.words;
        words[1] = put_field(words[1], 0, 32, value as u64);
        PowerState { words }
    }

    /// This descriptor with the number `rrt` set to `value`; fails with
    /// `value` when it does not fit 5 bits.
    pub fn with_rrt(self, value: u8) -> (made: Result<Self, u64>)
        ensures
            value < 32 ==> made is Ok && made->Ok_0@ == self@.update(
                1,
                spec_with_field(self@[1], 32, 5, value as u64),
            ),
            value >= 32 ==> made == Err::<Self, u64>(value as u64),
    {
        proof {
            lemma2_to64();
        }
        match with_field(self.words[1], 32, 5, value as u64) {
            Ok(word) => {
                let mut words = self.words;
                words[1] = word;
                Ok(PowerState { words })
            },
            Err(value) => Err(value),
        }
    }

    /// This descriptor with the number `rrl` set to `value`; fails with
    /// `value` when it does not fit 5 bits.
    pub fn with_rrl(self, value: u8) -> (made: Result<Self, u64>)
        ensures
            value < 32 ==> made is Ok && made->Ok_0@ == self@.update(
                1,
                spec_with_field(self@[1], 40, 5, value as u64),
            ),
            value >= 32 ==> made == Err::<Self, u64>(value as u64),
    {
        proof {
            lemma2_to64();
        }
        match with_field(self.words[1], 40, 5, value as u64) {
            Ok(word) => {
                let mut words = self.words;
                words[1] = word;
                Ok(PowerState { words })
            },
            Err(value) => Err(value),
        }
    }

    /// This descriptor with the number `rwt` set to `value`; fails with
    /// `value` when it does not fit 5 bits.
    pub fn with_rwt(self, value: u8) -> (made: Result<Self, u64>)
        ensures
            value < 32 ==> made is Ok && made->Ok_0@ == self@.update(
                1,
                spec_with_field(self@[1], 48, 5, value as u64),
            ),
            value >= 32 ==> made == Err::<Self, u64>(value as u64),
    {
        proof {
            lemma2_to64();
        }
        match with_field(self.words[1], 48, 5, value as u64) {
            Ok(word) => {
                let mut words = self.words;
                words[1] = word;
                Ok(PowerState { words })
            },
            Err(value) => Err(value),
        }
    }

    /// This descriptor with the number `rwl` set to `value`; fails with
    /// `value` when it does not fit 5 bits.
    pub fn with_rwl(self, value: u8) -> (made: Result<Self, u64>)
        ensures
            value < 32 ==> made is Ok && made->Ok_0@ == self@.update(
                1,
                spec_with_field(self@[1], 56, 5, value as u64),
            ),
            value >= 32 ==> made == Err::<Self, u64>(value as u64),
    {
        proof {
            lemma2_to64();
        }
        match with_field(self.words[1], 56, 5, value as u64) {
            Ok(word) => {
                let mut words = self.words;
                words[1] = word;
                Ok(PowerState { words })
            },
            Err(value) => Err(value),
        }
    }

    /// This descriptor with the number `idlp` set to `value`.
    pub fn with_idlp(self, value: u16) -> (made: Self)
        ensures
            made@ == self@.update(2, spec_with_field(self@[2], 0, 16, value as u64)),
    {
        proof {
            lemma2_to64();
        }
        let mut words = self.words;
        words[2] = put_field(words[2], 0, 16, value as u64);
        PowerState { words }
    }

    /// This descriptor with the number `ips` set to `value`; fails with
    /// `value` when it does not fit 2 bits.
    pub fn with_ips(self, value: u8) -> (made: Result<Self, u64>)
        ensures
            value < 4 ==> made is Ok && made->Ok_0@ == self@.update(
                2,
                spec_with_field(self@[2], 22, 2, value as u64),
            ),
            value >= 4 ==> made == Err::<Self, u64>(value as u64),
    {
        proof {
            lemma2_to64();
        }
        match with_field(self.words[2], 22, 2, value as u64) {
            Ok(word) => {
                let mut words = self.words;
                words[2] = word;
                Ok(PowerState { words })
            },
            Err(value) => Err(value),
        }
    }

    /// This descriptor with the number `actp` set to `value`.
    pub fn with_actp(self, value: u16) -> (made: Self)
        ensures
            made@ == self@.update(2, spec_with_field(self@[2], 32, 16, value as u64)),
    {
        proof {
            lemma2_to64();
        }
        let mut words = self.words;
        words[2] = put_field(words[2], 32, 16, value as u64);
        PowerState { words }
    }

    /// This descriptor with the number `apw` set to `value`; fails with
    /// `value` when it does not fit 3 bits.
    pub fn with_apw(self, value: u8) -> (made: Result<Self, u64>)
        ensures
            value < 8 ==> made is Ok && made->Ok_0@ == self@.update(
                2,
                spec_with_field(self@[2], 48, 3, value as u64),
            ),
            value >= 8 ==> made == Err::<Self, u64>(value as u64),
    {
        proof {
            lemma2_to64();
        }
        match with_field(self.words[2], 48, 3, value as u64) {
            Ok(word) => {
                let mut words = self.words;
                words[2] = word;
                Ok(PowerState { words })
            },
            Err(value) => Err(value),
        }
    }

    /// This descriptor with the number `aps` set to `value`; fails with
    /// `value` when it does not fit 2 bits.
    pub fn with_aps(self, value: u8) -> (made: Result<Self, u64>)
        ensures
            value < 4 ==> made is Ok && made->Ok_0@ == self@.update(
                2,
                spec_with_field(self@[2], 54, 2, value as u64),
            ),
            value >= 4 ==> made == Err::<Self, u64>(value as u64),
    {
        proof {
            lemma2_to64();
        }
        match with_field(self.words[2], 54, 2, value as u64) {
            Ok(word) => {
                let mut words = self.words;
                words[2] = word;
                Ok(PowerState { words })
            },
            Err(value) => Err(value),
        }
    }
}

/// A power state descriptor taken apart into plain values, for interchange.
/// The relative write latency is not among them.
#[derive(Clone, Copy, Debug, PartialEq, Eq, Structural)]
pub struct PowerStateUnpacked {
    pub mp: u16,
    pub mxps: bool,
    pub nops: bool,
    pub enlat: u32,
    pub exlat: u32,
    pub rrt: u8,
    pub rrl: u8,
    pub rwt: u8,
    pub idlp: u16,
    pub ips: u8,
    pub actp: u16,
    pub apw: u8,
    pub aps: u8,
}

impl PowerStateUnpacked {
    /// The first of these values that does not fit its field, if there is
    /// one. They are looked at in the order in which they are written: `rrt`,
    /// `rrl`, `rwt`, `ips`, `apw`, `aps`.
    pub open spec fn unfit(self) -> Option<u64> {
        if self.rrt >= 32 {
            Some(self.rrt as u64)
        } else if self.rrl >= 32 {
            Some(self.rrl as u64)
        } else if self.rwt >= 32 {
            Some(self.rwt as u64)
        } else if self.ips >= 4 {
            Some(self.ips as u64)
        } else if self.apw >= 8 {
            Some(self.apw as u64)
        } else if self.aps >= 4 {
            Some(self.aps as u64)
        } else {
            None
        }
    }

    /// The four words that these values make up, each value at its place
    /// and every other bit clear. Meant for values that fit.
    pub open spec fn words(self) -> Seq<u64> {
        seq![
            (self.mp + 0x100_0000 * flag_bit(self.mxps) + 0x200_0000 * flag_bit(self.nops)
                + 0x1_0000_0000 * self.enlat) as u64,
            (self.exlat + 0x1_0000_0000 * self.rrt + 0x100_0000_0000 * self.rrl
                + 0x1_0000_0000_0000 * self.rwt) as u64,
            (self.idlp + 0x40_0000 * self.ips + 0x1_0000_0000 * self.actp + 0x1_0000_0000_0000
                * self.apw + 0x40_0000_0000_0000 * self.aps) as u64,
            0u64,
        ]
    }

    /// The descriptor that these values make, or the first value that does
    /// not fit.
    pub open spec fn packed(self) -> Result<PowerState, u64> {
        match self.unfit() {
            Some(value) => Err(value),
            None => Ok(PowerState::holding(self.words())),
        }
    }
}

impl PowerState {
    /// This descriptor taken apart.
    pub open spec fn unpacked(self) -> PowerStateUnpacked {
        PowerStateUnpacked {
            mp: spec_get_field(self@[0], 0, 16) as u16,
            mxps: spec_get_flag(self@[0], 24),
            nops: spec_get_flag(self@[0], 25),
            enlat: spec_get_field(self@[0], 32, 32) as u32,
            exlat: spec_get_field(self@[1], 0, 32) as u32,
            rrt: spec_get_field(self@[1], 32, 5) as u8,
            rrl: spec_get_field(self@[1], 40, 5) as u8,
            rwt: spec_get_field(self@[1], 48, 5) as u8,
            idlp: spec_get_field(self@[2], 0, 16) as u16,
            ips: spec_get_field(self@[2], 22, 2) as u8,
            actp: spec_get_field(self@[2], 32, 16) as u16,
            apw: spec_get_field(self@[2], 48, 3) as u8,
            aps: spec_get_field(self@[2], 54, 2) as u8,
        }
    }
}

impl From<PowerState> for PowerStateUnpacked {
    /// Takes a descriptor apart. Every descriptor can be.
    fn from(packed: PowerState) -> (unpacked: Self) {
        PowerStateUnpacked {
            mp: packed.mp(),
            mxps: packed.mxps(),
            nops: packed.nops(),
            enlat: packed.enlat(),
            exlat: packed.exlat(),
            rrt: packed.rrt(),
            rrl: packed.rrl(),
            rwt: packed.rwt(),
            idlp: packed.idlp(),
            ips: packed.ips(),
            actp: packed.actp(),
            apw: packed.apw(),
            aps: packed.aps(),
        }
    }
}

impl FromSpecImpl<PowerState> for PowerStateUnpacked {
    open spec fn obeys_from_spec() -> bool {
        true
    }

    open spec fn from_spec(packed: PowerState) -> Self {
        packed.unpacked()
    }
}

impl TryFrom<PowerStateUnpacked> for PowerState {
    type Error = u64;

    /// Puts a descriptor together. Fails with the first value that does not
    /// fit its field; what the values do not cover is left clear.
    fn try_from(unpacked: PowerStateUnpacked) -> (packed: Result<Self, u64>)
        ensures
            unpacked.unfit() is None ==> packed is Ok && packed->Ok_0@ == unpacked.words(),
            unpacked.unfit() is Some ==> packed == Err::<Self, u64>(unpacked.unfit()->Some_0),
    {
        proof {
            lemma2_to64();
            lemma2_to64_rest();
        }
        let first = PowerState::new().with_mp(unpacked.mp).with_mxps(unpacked.mxps).with_nops(
            unpacked.nops,
        ).with_enlat(unpacked.enlat);
        let second = first.with_exlat(unpacked.exlat).with_rrt(unpacked.rrt)?.with_rrl(
            unpacked.rrl,
        )?.with_rwt(unpacked.rwt)?;
        let third = second.with_idlp(unpacked.idlp).with_ips(unpacked.ips)?.with_actp(
            unpacked.actp,
        ).with_apw(unpacked.apw)?.with_aps(unpacked.aps)?;
        proof {
            assert(first@[0] == unpacked.words()[0]);
            assert(second@[1] == unpacked.words()[1]);
            assert(third@[2] == unpacked.words()[2]);
            assert(third@ =~= unpacked.words());
            third.lemma_holding();
        }
        Ok(third)
    }
}

impl TryFromSpecImpl<PowerStateUnpacked> for PowerState {
    open spec fn obeys_try_from_spec() -> bool {
        true
    }

    open spec fn try_from_spec(unpacked: PowerStateUnpacked) -> Result<Self, u64> {
        unpacked.packed()
    }
}

/// In a word that is the sum of values at their places, each field holds
/// its value.
proof fn lemma_fields_of_words(unpacked: PowerStateUnpacked, low: u64, middle: u64, high: u64)
    requires
        unpacked.unfit() is None,
        low == unpacked.words()[0],
        middle == unpacked.words()[1],
        high == unpacked.words()[2],
    ensures
        (low / 0x1) % 0x1_0000 == unpacked.mp,
        (low / 0x100_0000) % 2 == flag_bit(unpacked.mxps),
        (low / 0x200_0000) % 2 == flag_bit(unpacked.nops),
        (low / 0x1_0000_0000) % 0x1_0000_0000 == unpacked.enlat,
        (middle / 0x1) % 0x1_0000_0000 == unpacked.exlat,
        (middle / 0x1_0000_0000) % 32 == unpacked.rrt,
        (middle / 0x100_0000_0000) % 32 == unpacked.rrl,
        (middle / 0x1_0000_0000_0000) % 32 == unpacked.rwt,
        (high / 0x1) % 0x1_0000 == unpacked.idlp,
        (high / 0x40_0000) % 4 == unpacked.ips,
        (high / 0x1_0000_0000) % 0x1_0000 == unpacked.actp,
        (high / 0x1_0000_0000_0000) % 8 == unpacked.apw,
        (high / 0x40_0000_0000_0000) % 4 == unpacked.aps,
{
    let mp = unpacked.mp as u64;
    let mxps = flag_bit(unpacked.mxps);
    let nops = flag_bit(unpacked.nops);
    let enlat = unpacked.enlat as u64;
    assert((low / 0x1) % 0x1_0000 == mp && (low / 0x100_0000) % 2 == mxps && (low / 0x200_0000) % 2
        == nops && (low / 0x1_0000_0000) % 0x1_0000_0000 == enlat) by (bit_vector)
        requires
            mp <= 0xffff,
            mxps <= 1,
            nops <= 1,
            enlat <= 0xffff_ffff,
            low == mp + 0x100_0000 * mxps + 0x200_0000 * nops + 0x1_0000_0000 * enlat,
    ;
    let exlat = unpacked.exlat as u64;
    let rrt = unpacked.rrt as u64;
    let rrl = unpacked.rrl as u64;
    let rwt = unpacked.rwt as u64;
    assert((middle / 0x1) % 0x1_0000_0000 == exlat && (middle / 0x1_0000_0000) % 32 == rrt && (
    middle / 0x100_0000_0000) % 32 == rrl && (middle / 0x1_0000_0000_0000) % 32 == rwt)
        by (bit_vector)
        requires
            exlat <= 0xffff_ffff,
            rrt < 32,
            rrl < 32,
            rwt < 32,
            middle == exlat + 0x1_0000_0000 * rrt + 0x100_0000_0000 * rrl + 0x1_0000_0000_0000
                * rwt,
    ;
    let idlp = unpacked.idlp as u64;
    let ips = unpacked.ips as u64;
    let actp = unpacked.actp as u64;
    let apw = unpacked.apw as u64;
    let aps = unpacked.aps as u64;
    assert((high / 0x1) % 0x1_0000 == idlp && (high / 0x40_0000) % 4 == ips && (high
        / 0x1_0000_0000) % 0x1_0000 == actp && (high / 0x1_0000_0000_0000) % 8 == apw && (high
        / 0x40_0000_0000_0000) % 4 == aps) by (bit_vector)
        requires
            idlp <= 0xffff,
            ips < 4,
            actp <= 0xffff,
            apw < 8,
            aps < 4,
            high == idlp + 0x40_0000 * ips + 0x1_0000_0000 * actp + 0x1_0000_0000_0000 * apw
                + 0x40_0000_0000_0000 * aps,
    ;
}

/// Values that are put together and taken apart again are the same values.
pub proof fn lemma_pack_then_unpack(unpacked: PowerStateUnpacked, packed: PowerState)
    requires
        unpacked.unfit() is None,
        packed@ == unpacked.words(),
    ensures
        packed.unpacked() == unpacked,
{
    lemma2_to64();
    lemma2_to64_rest();
    lemma_fields_of_words(unpacked, packed@[0], packed@[1], packed@[2]);
    let taken = packed.unpacked();
    assert(taken.mp == unpacked.mp);
    assert(taken.mxps == unpacked.mxps);
    assert(taken.nops == unpacked.nops);
    assert(taken.enlat == unpacked.enlat);
    assert(taken.exlat == unpacked.exlat);
    assert(taken.rrt == unpacked.rrt);
    assert(taken.rrl == unpacked.rrl);
    assert(taken.rwt == unpacked.rwt);
    assert(taken.idlp == unpacked.idlp);
    assert(taken.ips == unpacked.ips);
    assert(taken.actp == unpacked.actp);
    assert(taken.apw == unpacked.apw);
    assert(taken.aps == unpacked.aps);
}

} // verus!
