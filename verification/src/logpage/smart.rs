//! The SMART / health information log.

use crate::bitfield::{
    get_flag,
    lemma_fields_make_backing,
    spec_get_flag,
    spec_with_flag,
    sum_of_fields,
    tiles,
    with_flag,
    Field,
};
use crate::util::{FromBytes, TransmuteSafe};
use crate::wire::{
    le_array,
    le_at,
    le_bytes,
    le_value,
    read_u128,
    read_u16,
    read_u16s,
    read_u32,
    read_u32s,
    u8_of,
};
use vstd::arithmetic::power2::lemma2_to64;
use vstd::prelude::*;

verus! {

/// The SMART / health information log: a record of 512 bytes.
///
/// | bytes | field |
/// |-------|-------|
/// | 0 | `crit_warning` |
/// | 1-2 | `comp_temp` |
/// | 3 | `avail_spare` |
/// | 4 | `avail_spare_thresh` |
/// | 5 | `percent_used` |
/// | 6 | `endur_grp_crit_warning` |
/// | 7-31 | reserved |
/// | 32-47 | `data_units_read` |
/// | 48-63 | `data_units_written` |
/// | 64-79 | `host_read_cmds` |
/// | 80-95 | `host_write_cmds` |
/// | 96-111 | `ctrl_busy_time` |
/// | 112-127 | `pwr_cycles` |
/// | 128-143 | `pwr_on_hrs` |
/// | 144-159 | `unsafe_shutdowns` |
/// | 160-175 | `mad_integrity_errs` |
/// | 176-191 | `num_err_log_entries` |
/// | 192-195 | `warning_comp_temp_time` |
/// | 196-199 | `crit_comp_temp_time` |
/// | 200-215 | `temp_sensors` |
/// | 216-223 | `therm_mgmt_temp_transition_cnts` |
/// | 224-231 | `total_time_therm_mgmt_temp` |
/// | 232-511 | reserved |
#[derive(Clone, Copy, Debug)]
pub struct SmartLog<'a> {
    bytes: &'a [u8],
}

impl<'a> View for SmartLog<'a> {
    type V = Seq<u8>;

    closed spec fn view(&self) -> Seq<u8> {
        self.bytes@
    }
}

impl<'a> TransmuteSafe<'a> for SmartLog<'a> {
    open spec fn size() -> nat {
        512
    }

    fn byte_len() -> (len: usize) {
        512
    }

    fn over(bytes: &'a [u8]) -> (record: Self) {
        SmartLog { bytes }
    }

    fn as_bytes(&self) -> (bytes: &'a [u8]) {
        proof {
            use_type_invariant(self);
        }
        self.bytes
    }
}

impl<'a> SmartLog<'a> {
    /// A view lies over as many bytes as the record is long.
    #[verifier::type_invariant]
    spec fn well_formed(self) -> bool {
        self.bytes@.len() == 512
    }

    /// Whether any critical warning is raised: whether byte 0 holds anything
    /// but zero.
    pub fn has_critical_warning(&self) -> (any: bool)
        ensures
            any == (self@[0] > 0),
    {
        proof {
            use_type_invariant(self);
        }
        self.bytes[0] > 0
    }

    /// Critical warning: byte 0.
    pub fn crit_warning(&self) -> (field: CriticalWarning)
        ensures
            field@ == self@[0],
    {
        proof {
            use_type_invariant(self);
        }
        CriticalWarning::from_bytes([self.bytes[0]])
    }

    /// Composite temperature: bytes 1 to 2.
    pub fn comp_temp(&self) -> (value: u16)
        ensures
            value == le_at(self@, 1, 2),
    {
        proof {
            use_type_invariant(self);
        }
        read_u16(self.bytes, 1)
    }

    /// Available spare: byte 3.
    pub fn avail_spare(&self) -> (value: u8)
        ensures
            value == self@[3],
    {
        proof {
            use_type_invariant(self);
        }
        self.bytes[3]
    }

    /// Available spare threshold: byte 4.
    pub fn avail_spare_thresh(&self) -> (value: u8)
        ensures
            value == self@[4],
    {
        proof {
            use_type_invariant(self);
        }
        self.bytes[4]
    }

    /// Percentage used: byte 5.
    pub fn percent_used(&self) -> (value: u8)
        ensures
            value == self@[5],
    {
        proof {
            use_type_invariant(self);
        }
        self.bytes[5]
    }

    /// Whether any endurance group raises a critical warning: whether byte 6
    /// holds anything but zero.
    pub fn has_endur_grp_crit_warning(&self) -> (any: bool)
        ensures
            any == (self@[6] > 0),
    {
        proof {
            use_type_invariant(self);
        }
        self.bytes[6] > 0
    }

    /// Endurance group critical warning summary: byte 6.
    pub fn endur_grp_crit_warning(&self) -> (field: EndurGrpCritWarning)
        ensures
            field@ == self@[6],
    {
        proof {
            use_type_invariant(self);
        }
        EndurGrpCritWarning::from_bytes([self.bytes[6]])
    }

    /// Data units read: bytes 32 to 47.
    pub fn data_units_read(&self) -> (value: u128)
        ensures
            value == le_at(self@, 32, 16),
    {
        proof {
            use_type_invariant(self);
        }
        read_u128(self.bytes, 32)
    }

    /// Data units written: bytes 48 to 63.
    pub fn data_units_written(&self) -> (value: u128)
        ensures
            value == le_at(self@, 48, 16),
    {
        proof {
            use_type_invariant(self);
        }
        read_u128(self.bytes, 48)
    }

    /// Host read commands: bytes 64 to 79.
    pub fn host_read_cmds(&self) -> (value: u128)
        ensures
            value == le_at(self@, 64, 16),
    {
        proof {
            use_type_invariant(self);
        }
        read_u128(self.bytes, 64)
    }

    /// Host write commands: bytes 80 to 95.
    pub fn host_write_cmds(&self) -> (value: u128)
        ensures
            value == le_at(self@, 80, 16),
    {
        proof {
            use_type_invariant(self);
        }
        read_u128(self.bytes, 80)
    }

    /// Controller busy time: bytes 96 to 111.
    pub fn ctrl_busy_time(&self) -> (value: u128)
        ensures
            value == le_at(self@, 96, 16),
    {
        proof {
            use_type_invariant(self);
        }
        read_u128(self.bytes, 96)
    }

    /// Power cycles: bytes 112 to 127.
    pub fn pwr_cycles(&self) -> (value: u128)
        ensures
            value == le_at(self@, 112, 16),
    {
        proof {
            use_type_invariant(self);
        }
        read_u128(self.bytes, 112)
    }

    /// Power on hours: bytes 128 to 143.
    pub fn pwr_on_hrs(&self) -> (value: u128)
        ensures
            value == le_at(self@, 128, 16),
    {
        proof {
            use_type_invariant(self);
        }
        read_u128(self.bytes, 128)
    }

    /// Unsafe shutdowns: bytes 144 to 159.
    pub fn unsafe_shutdowns(&self) -> (value: u128)
        ensures
            value == le_at(self@, 144, 16),
    {
        proof {
            use_type_invariant(self);
        }
        read_u128(self.bytes, 144)
    }

    /// Media and data integrity errors: bytes 160 to 175.
    pub fn mad_integrity_errs(&self) -> (value: u128)
        ensures
            value == le_at(self@, 160, 16),
    {
        proof {
            use_type_invariant(self);
        }
        read_u128(self.bytes, 160)
    }

    /// Number of error information log entries: bytes 176 to 191.
    pub fn num_err_log_entries(&self) -> (value: u128)
        ensures
            value == le_at(self@, 176, 16),
    {
        proof {
            use_type_invariant(self);
        }
        read_u128(self.bytes, 176)
    }

    /// Warning composite temperature time: bytes 192 to 195.
    pub fn warning_comp_temp_time(&self) -> (value: u32)
        ensures
            value == le_at(self@, 192, 4),
    {
        proof {
            use_type_invariant(self);
        }
        read_u32(self.bytes, 192)
    }

    /// Critical composite temperature time: bytes 196 to 199.
    pub fn crit_comp_temp_time(&self) -> (value: u32)
        ensures
            value == le_at(self@, 196, 4),
    {
        proof {
            use_type_invariant(self);
        }
        read_u32(self.bytes, 196)
    }

    /// The eight temperature sensors: bytes 200 to 215.
    pub fn temp_sensors(&self) -> (values: [u16; 8])
        ensures
            forall|i: int| 0 <= i < 8 ==> values@[i] == le_at(self@, 200 + 2 * i, 2),
    {
        proof {
            use_type_invariant(self);
        }
        read_u16s::<8>(self.bytes, 200)
    }

    /// Thermal management temperature transition counts: bytes 216 to 223.
    pub fn therm_mgmt_temp_transition_cnts(&self) -> (values: [u32; 2])
        ensures
            forall|i: int| 0 <= i < 2 ==> values@[i] == le_at(self@, 216 + 4 * i, 4),
    {
        proof {
            use_type_invariant(self);
        }
        read_u32s::<2>(self.bytes, 216)
    }

    /// Total time for thermal management temperature: bytes 224 to 231.
    pub fn total_time_therm_mgmt_temp(&self) -> (values: [u32; 2])
        ensures
            forall|i: int| 0 <= i < 2 ==> values@[i] == le_at(self@, 224 + 4 * i, 4),
    {
        proof {
            use_type_invariant(self);
        }
        read_u32s::<2>(self.bytes, 224)
    }

    /// The record is 512 bytes long, and so is every buffer that is viewed
    /// as one.
    pub proof fn lemma_size(len: nat)
        ensures
            Self::size() == 512,
            <Self as FromBytes<'a>>::legal(len) <==> len == 512,
    {
    }
}

/// The critical warnings of a controller: 8 bits, the lowest first.
///
/// | bits | field |
/// |------|-------|
/// | 0 | `spare_cap_below_thresh` |
/// | 1 | `temp_out_of_thresh` |
/// | 2 | `nvm_subsys_degraded` |
/// | 3 | `readonly` |
/// | 4 | `volatile_mem_backup_failed` |
/// | 5 | `pmr_readonly` |
/// | 6-7 | reserved |
#[derive(Clone, Copy, Debug, PartialEq, Eq, Structural)]
pub struct CriticalWarning {
    raw: u8,
}

impl View for CriticalWarning {
    type V = u8;

    closed spec fn view(&self) -> u8 {
        self.raw
    }
}

impl CriticalWarning {
    /// The fields of the value, the lowest first; the bits that have no meaning
    /// count as fields.
    pub open spec fn layout() -> Seq<Field> {
        seq![
            Field { offset: 0, width: 1 },
            Field { offset: 1, width: 1 },
            Field { offset: 2, width: 1 },
            Field { offset: 3, width: 1 },
            Field { offset: 4, width: 1 },
            Field { offset: 5, width: 1 },
            Field { offset: 6, width: 2 },
        ]
    }

    /// The fields fill the 8 bits: no two of them share a bit and no bit is
    /// left out.
    pub proof fn lemma_layout_fills()
        ensures
            tiles(Self::layout(), 0, 8),
    {
        let from_0 = Self::layout();
        let from_1 = from_0.drop_first();
        let from_2 = from_1.drop_first();
        let from_3 = from_2.drop_first();
        let from_4 = from_3.drop_first();
        let from_5 = from_4.drop_first();
        let from_6 = from_5.drop_first();
        let from_7 = from_6.drop_first();
        assert(tiles(from_7, 8, 8));
        assert(tiles(from_6, 6, 8));
        assert(tiles(from_5, 5, 8));
        assert(tiles(from_4, 4, 8));
        assert(tiles(from_3, 3, 8));
        assert(tiles(from_2, 2, 8));
        assert(tiles(from_1, 1, 8));
    }

    /// A value is made of its fields: it is the sum of what they hold, each at
    /// its place.
    pub proof fn lemma_fields_make_value(self)
        ensures
            sum_of_fields(self@ as u64, Self::layout()) == self@,
    {
        lemma2_to64();
        Self::lemma_layout_fills();
        lemma_fields_make_backing(self@ as u64, Self::layout(), 8);
    }

    /// The value with every bit clear.
    pub fn new() -> (made: Self)
        ensures
            made@ == 0,
    {
        CriticalWarning { raw: 0 }
    }

    /// The value that the byte holds.
    pub fn from_bytes(bytes: [u8; 1]) -> (made: Self)
        ensures
            made@ == le_value(bytes@),
            made@ == bytes@[0],
    {
        CriticalWarning { raw: u8_of(bytes) }
    }

    /// The byte that holds this value.
    pub fn into_bytes(self) -> (bytes: [u8; 1])
        ensures
            bytes@ == le_bytes(self@ as nat, 1),
    {
        le_array::<1>(self.raw as u128)
    }

    /// The flag `spare_cap_below_thresh`: bit 0.
    pub fn spare_cap_below_thresh(&self) -> (flag: bool)
        ensures
            flag == spec_get_flag(self@ as u64, 0),
    {
        get_flag(self.raw as u64, 0)
    }

    /// The flag `temp_out_of_thresh`: bit 1.
    pub fn temp_out_of_thresh(&self) -> (flag: bool)
        ensures
            flag == spec_get_flag(self@ as u64, 1),
    {
        get_flag(self.raw as u64, 1)
    }

    /// The flag `nvm_subsys_degraded`: bit 2.
    pub fn nvm_subsys_degraded(&self) -> (flag: bool)
        ensures
            flag == spec_get_flag(self@ as u64, 2),
    {
        get_flag(self.raw as u64, 2)
    }

    /// The flag `readonly`: bit 3.
    pub fn readonly(&self) -> (flag: bool)
        ensures
            flag == spec_get_flag(self@ as u64, 3),
    {
        get_flag(self.raw as u64, 3)
    }

    /// The flag `volatile_mem_backup_failed`: bit 4.
    pub fn volatile_mem_backup_failed(&self) -> (flag: bool)
        ensures
            flag == spec_get_flag(self@ as u64, 4),
    {
        get_flag(self.raw as u64, 4)
    }

    /// The flag `pmr_readonly`: bit 5.
    pub fn pmr_readonly(&self) -> (flag: bool)
        ensures
            flag == spec_get_flag(self@ as u64, 5),
    {
        get_flag(self.raw as u64, 5)
    }

    /// This value with the flag `spare_cap_below_thresh` set to `flag`.
    pub fn with_spare_cap_below_thresh(self, flag: bool) -> (made: Self)
        ensures
            made@ == spec_with_flag(self@ as u64, 0, flag),
    {
        CriticalWarning { raw: with_flag(self.raw as u64, 0, flag) as u8 }
    }

    /// This value with the flag `temp_out_of_thresh` set to `flag`.
    pub fn with_temp_out_of_thresh(self, flag: bool) -> (made: Self)
        ensures
            made@ == spec_with_flag(self@ as u64, 1, flag),
    {
        CriticalWarning { raw: with_flag(self.raw as u64, 1, flag) as u8 }
    }

    /// This value with the flag `nvm_subsys_degraded` set to `flag`.
    pub fn with_nvm_subsys_degraded(self, flag: bool) -> (made: Self)
        ensures
            made@ == spec_with_flag(self@ as u64, 2, flag),
    {
        CriticalWarning { raw: with_flag(self.raw as u64, 2, flag) as u8 }
    }

    /// This value with the flag `readonly` set to `flag`.
    pub fn with_readonly(self, flag: bool) -> (made: Self)
        ensures
            made@ == spec_with_flag(self@ as u64, 3, flag),
    {
        CriticalWarning { raw: with_flag(self.raw as u64, 3, flag) as u8 }
    }

    /// This value with the flag `volatile_mem_backup_failed` set to `flag`.
    pub fn with_volatile_mem_backup_failed(self, flag: bool) -> (made: Self)
        ensures
            made@ == spec_with_flag(self@ as u64, 4, flag),
    {
        CriticalWarning { raw: with_flag(self.raw as u64, 4, flag) as u8 }
    }

    /// This value with the flag `pmr_readonly` set to `flag`.
    pub fn with_pmr_readonly(self, flag: bool) -> (made: Self)
        ensures
            made@ == spec_with_flag(self@ as u64, 5, flag),
    {
        CriticalWarning { raw: with_flag(self.raw as u64, 5, flag) as u8 }
    }
}

/// The critical warnings of the endurance groups: 8 bits, the lowest first.
///
/// | bits | field |
/// |------|-------|
/// | 0 | `spare_cap_below_thresh` |
/// | 1 | reserved |
/// | 2 | `nvm_subsys_degraded` |
/// | 3 | `readonly` |
/// | 4-7 | reserved |
#[derive(Clone, Copy, Debug, PartialEq, Eq, Structural)]
pub struct EndurGrpCritWarning {
    raw: u8,
}

impl View for EndurGrpCritWarning {
    type V = u8;

    closed spec fn view(&self) -> u8 {
        self.raw
    }
}

impl EndurGrpCritWarning {
    /// The fields of the value, the lowest first; the bits that have no meaning
    /// count as fields.
    pub open spec fn layout() -> Seq<Field> {
        seq![
            Field { offset: 0, width: 1 },
            Field { offset: 1, width: 1 },
            Field { offset: 2, width: 1 },
            Field { offset: 3, width: 1 },
            Field { offset: 4, width: 4 },
        ]
    }

    /// The fields fill the 8 bits: no two of them share a bit and no bit is
    /// left out.
    pub proof fn lemma_layout_fills()
        ensures
            tiles(Self::layout(), 0, 8),
    {
        let from_0 = Self::layout();
        let from_1 = from_0.drop_first();
        let from_2 = from_1.drop_first();
        let from_3 = from_2.drop_first();
        let from_4 = from_3.drop_first();
        let from_5 = from_4.drop_first();
        assert(tiles(from_5, 8, 8));
        assert(tiles(from_4, 4, 8));
        assert(tiles(from_3, 3, 8));
        assert(tiles(from_2, 2, 8));
        assert(tiles(from_1, 1, 8));
    }

    /// A value is made of its fields: it is the sum of what they hold, each at
    /// its place.
    pub proof fn lemma_fields_make_value(self)
        ensures
            sum_of_fields(self@ as u64, Self::layout()) == self@,
    {
        lemma2_to64();
        Self::lemma_layout_fills();
        lemma_fields_make_backing(self@ as u64, Self::layout(), 8);
    }

    /// The value with every bit clear.
    pub fn new() -> (made: Self)
        ensures
            made@ == 0,
    {
        EndurGrpCritWarning { raw: 0 }
    }

    /// The value that the byte holds.
    pub fn from_bytes(bytes: [u8; 1]) -> (made: Self)
        ensures
            made@ == le_value(bytes@),
            made@ == bytes@[0],
    {
        EndurGrpCritWarning { raw: u8_of(bytes) }
    }

    /// The byte that holds this value.
    pub fn into_bytes(self) -> (bytes: [u8; 1])
        ensures
            bytes@ == le_bytes(self@ as nat, 1),
    {
        le_array::<1>(self.raw as u128)
    }

    /// The flag `spare_cap_below_thresh`: bit 0.
    pub fn spare_cap_below_thresh(&self) -> (flag: bool)
        ensures
            flag == spec_get_flag(self@ as u64, 0),
    {
        get_flag(self.raw as u64, 0)
    }

    /// The flag `nvm_subsys_degraded`: bit 2.
    pub fn nvm_subsys_degraded(&self) -> (flag: bool)
        ensures
            flag == spec_get_flag(self@ as u64, 2),
    {
        get_flag(self.raw as u64, 2)
    }

    /// The flag `readonly`: bit 3.
    pub fn readonly(&self) -> (flag: bool)
        ensures
            flag == spec_get_flag(self@ as u64, 3),
    {
        get_flag(self.raw as u64, 3)
    }

    /// This value with the flag `spare_cap_below_thresh` set to `flag`.
    pub fn with_spare_cap_below_thresh(self, flag: bool) -> (made: Self)
        ensures
            made@ == spec_with_flag(self@ as u64, 0, flag),
    {
        EndurGrpCritWarning { raw: with_flag(self.raw as u64, 0, flag) as u8 }
    }

    /// This value with the flag `nvm_subsys_degraded` set to `flag`.
    pub fn with_nvm_subsys_degraded(self, flag: bool) -> (made: Self)
        ensures
            made@ == spec_with_flag(self@ as u64, 2, flag),
    {
        EndurGrpCritWarning { raw: with_flag(self.raw as u64, 2, flag) as u8 }
    }

    /// This value with the flag `readonly` set to `flag`.
    pub fn with_readonly(self, flag: bool) -> (made: Self)
        ensures
            made@ == spec_with_flag(self@ as u64, 3, flag),
    {
        EndurGrpCritWarning { raw: with_flag(self.raw as u64, 3, flag) as u8 }
    }
}

} // verus!
