//! The status word of a completion, and the taxonomy that its status code
//! decodes into.
//!
//! A status word names a category (its status code type) and a code within
//! that category. The four named categories each have a table of codes; a
//! code that its table does not list, or a category that is reserved, decodes
//! to [`StatusCode::Unknown`], which keeps both numbers as they were.

use crate::bitfield::{
    flag_bit,
    get_field,
    get_flag,
    lemma_fields_make_backing,
    put_field,
    spec_get_field,
    spec_get_flag,
    spec_with_field,
    spec_with_flag,
    sum_of_fields,
    tiles,
    with_field,
    with_flag,
    Field,
};
use crate::wire::{le_array, le_bytes, le_value, u16_of};
use vstd::arithmetic::power2::lemma2_to64;
use vstd::prelude::*;
use vstd::std_specs::convert::{FromSpecImpl, TryFromSpecImpl};

verus! {

/// The category of a status code: a field of three bits, each of whose
/// eight patterns is a variant, the unassigned ones as reserved placeholders.
#[derive(Debug, PartialEq, Eq, Clone, Copy, Structural)]
pub enum StatusCodeType {
    Generic,
    CmdSpecific,
    MadIntegrity,
    PathRelated,
    _Reserved4,
    _Reserved5,
    _Reserved6,
    VndrSpecific,
}

impl StatusCodeType {
    /// The code that stands for this category.
    pub open spec fn code(self) -> u8 {
        match self {
            StatusCodeType::Generic => 0,
            StatusCodeType::CmdSpecific => 1,
            StatusCodeType::MadIntegrity => 2,
            StatusCodeType::PathRelated => 3,
            StatusCodeType::_Reserved4 => 4,
            StatusCodeType::_Reserved5 => 5,
            StatusCodeType::_Reserved6 => 6,
            StatusCodeType::VndrSpecific => 7,
        }
    }

    /// The category that `code` stands for, if it stands for one.
    pub open spec fn named(code: u8) -> Option<Self> {
        if exists|named: Self| named.code() == code {
            Some(choose|named: Self| named.code() == code)
        } else {
            None
        }
    }

    /// No two of them share a code: each is the one that its code stands for.
    pub proof fn lemma_named_by_code(self)
        ensures
            Self::named(self.code()) == Some(self),
    {
        let found = choose|named: Self| named.code() == self.code();
        assert(found.code() == self.code());
    }

    /// What a code stands for is written as that code.
    pub proof fn lemma_code_of_named(code: u8)
        ensures
            Self::named(code) matches Some(named) ==> named.code() == code,
    {
    }

    /// Every pattern of the three-bit field stands for a category.
    pub proof fn lemma_exhaustive(code: u8)
        requires
            code < 8,
        ensures
            Self::named(code) is Some,
            Self::named(code).unwrap().code() == code,
    {
        let witness = if code == 0 {
            StatusCodeType::Generic
        } else if code == 1 {
            StatusCodeType::CmdSpecific
        } else if code == 2 {
            StatusCodeType::MadIntegrity
        } else if code == 3 {
            StatusCodeType::PathRelated
        } else if code == 4 {
            StatusCodeType::_Reserved4
        } else if code == 5 {
            StatusCodeType::_Reserved5
        } else if code == 6 {
            StatusCodeType::_Reserved6
        } else {
            StatusCodeType::VndrSpecific
        };
        assert(witness.code() == code);
    }

    /// A category's code fits the three-bit field.
    pub proof fn lemma_code_fits(self)
        ensures
            self.code() < 8,
    {
    }

    /// The code that stands for this category.
    pub fn to_u8(&self) -> (code: u8)
        ensures
            code == self.code(),
    {
        match self {
            StatusCodeType::Generic => 0,
            StatusCodeType::CmdSpecific => 1,
            StatusCodeType::MadIntegrity => 2,
            StatusCodeType::PathRelated => 3,
            StatusCodeType::_Reserved4 => 4,
            StatusCodeType::_Reserved5 => 5,
            StatusCodeType::_Reserved6 => 6,
            StatusCodeType::VndrSpecific => 7,
        }
    }

    /// Looks `code` up: the category it stands for, or `None` where it stands for none.
    pub fn from_u8(code: u8) -> (found: Option<Self>)
        ensures
            found == Self::named(code),
    {
        let found = match code {
            0 => Some(StatusCodeType::Generic),
            1 => Some(StatusCodeType::CmdSpecific),
            2 => Some(StatusCodeType::MadIntegrity),
            3 => Some(StatusCodeType::PathRelated),
            4 => Some(StatusCodeType::_Reserved4),
            5 => Some(StatusCodeType::_Reserved5),
            6 => Some(StatusCodeType::_Reserved6),
            7 => Some(StatusCodeType::VndrSpecific),
            _ => None,
        };
        proof {
            match found {
                Some(named) => named.lemma_named_by_code(),
                None => assert(forall|named: Self| named.code() != code),
            }
        }
        found
    }
}

/// Status codes of the generic category.
#[non_exhaustive]
#[derive(Clone, Copy, Debug, PartialEq, Eq, Structural)]
pub enum GenericStatus {
    Success,
    InvalidCmdOpcode,
    InvalidFieldInCmd,
    CmdIdConflict,
    DataTransferErr,
    CmdAbortedDueToPowerLossNotification,
    InternalErr,
    CmdAbortRequested,
    CmdAbortedDueToSqDeletion,
    CmdAbortedDueToFailedFusedCmd,
    CmdAbortedDueToMissingFusedCmd,
    InvalidNmspOrFormat,
    CmdSequenceErr,
    InvalidSglSegmentDescriptor,
    InvalidNumberOfSglDescriptors,
    DataSglLengthInvalid,
    MetadataSglLengthInvalid,
    SglDescriptorTypeInvalid,
    InvalidUseOfCtrlMemoryBuffer,
    PrpOffsetInvalid,
    AtomicWriteUnitExceeded,
    OperationDenied,
    SglOffsetInvalid,
    HostIdInconsistentFormat,
    KeepAliveTimerExpired,
    KeepAliveTimeoutInvalid,
    CmdAbortedDueToPreemptAndAbort,
    SanitizeFailed,
    SanitizeInProgress,
    SglDataBlockGranularityInvalid,
    CmdNotSupportedForQueueInCmb,
    NmspIsWriteProtected,
    CmdInterrupted,
    TransientTransportErr,
    LbaOutOfRange,
    CapacityExceeded,
    NmspNotReady,
    ReservationConflict,
    FormatInProgress,
}

impl GenericStatus {
    /// The code that stands for this status.
    pub open spec fn code(self) -> u8 {
        match self {
            GenericStatus::Success => 0x00,
            GenericStatus::InvalidCmdOpcode => 0x01,
            GenericStatus::InvalidFieldInCmd => 0x02,
            GenericStatus::CmdIdConflict => 0x03,
            GenericStatus::DataTransferErr => 0x04,
            GenericStatus::CmdAbortedDueToPowerLossNotification => 0x05,
            GenericStatus::InternalErr => 0x06,
            GenericStatus::CmdAbortRequested => 0x07,
            GenericStatus::CmdAbortedDueToSqDeletion => 0x08,
            GenericStatus::CmdAbortedDueToFailedFusedCmd => 0x09,
            GenericStatus::CmdAbortedDueToMissingFusedCmd => 0x0a,
            GenericStatus::InvalidNmspOrFormat => 0x0b,
            GenericStatus::CmdSequenceErr => 0x0c,
            GenericStatus::InvalidSglSegmentDescriptor => 0x0d,
            GenericStatus::InvalidNumberOfSglDescriptors => 0x0e,
            GenericStatus::DataSglLengthInvalid => 0x0f,
            GenericStatus::MetadataSglLengthInvalid => 0x10,
            GenericStatus::SglDescriptorTypeInvalid => 0x11,
            GenericStatus::InvalidUseOfCtrlMemoryBuffer => 0x12,
            GenericStatus::PrpOffsetInvalid => 0x13,
            GenericStatus::AtomicWriteUnitExceeded => 0x14,
            GenericStatus::OperationDenied => 0x15,
            GenericStatus::SglOffsetInvalid => 0x16,
            GenericStatus::HostIdInconsistentFormat => 0x18,
            GenericStatus::KeepAliveTimerExpired => 0x19,
            GenericStatus::KeepAliveTimeoutInvalid => 0x1a,
            GenericStatus::CmdAbortedDueToPreemptAndAbort => 0x1b,
            GenericStatus::SanitizeFailed => 0x1c,
            GenericStatus::SanitizeInProgress => 0x1d,
            GenericStatus::SglDataBlockGranularityInvalid => 0x1e,
            GenericStatus::CmdNotSupportedForQueueInCmb => 0x1f,
            GenericStatus::NmspIsWriteProtected => 0x20,
            GenericStatus::CmdInterrupted => 0x21,
            GenericStatus::TransientTransportErr => 0x22,
            GenericStatus::LbaOutOfRange => 0x80,
            GenericStatus::CapacityExceeded => 0x81,
            GenericStatus::NmspNotReady => 0x82,
            GenericStatus::ReservationConflict => 0x83,
            GenericStatus::FormatInProgress => 0x84,
        }
    }

    /// The status that `code` stands for, if it stands for one.
    pub open spec fn named(code: u8) -> Option<Self> {
        if exists|named: Self| named.code() == code {
            Some(choose|named: Self| named.code() == code)
        } else {
            None
        }
    }

    /// No two of them share a code: each is the one that its code stands for.
    pub proof fn lemma_named_by_code(self)
        ensures
            Self::named(self.code()) == Some(self),
    {
        let found = choose|named: Self| named.code() == self.code();
        assert(found.code() == self.code());
    }

    /// What a code stands for is written as that code.
    pub proof fn lemma_code_of_named(code: u8)
        ensures
            Self::named(code) matches Some(named) ==> named.code() == code,
    {
    }

    /// The code that stands for this status.
    pub fn to_u8(&self) -> (code: u8)
        ensures
            code == self.code(),
    {
        match self {
            GenericStatus::Success => 0x00,
            GenericStatus::InvalidCmdOpcode => 0x01,
            GenericStatus::InvalidFieldInCmd => 0x02,
            GenericStatus::CmdIdConflict => 0x03,
            GenericStatus::DataTransferErr => 0x04,
            GenericStatus::CmdAbortedDueToPowerLossNotification => 0x05,
            GenericStatus::InternalErr => 0x06,
            GenericStatus::CmdAbortRequested => 0x07,
            GenericStatus::CmdAbortedDueToSqDeletion => 0x08,
            GenericStatus::CmdAbortedDueToFailedFusedCmd => 0x09,
            GenericStatus::CmdAbortedDueToMissingFusedCmd => 0x0a,
            GenericStatus::InvalidNmspOrFormat => 0x0b,
            GenericStatus::CmdSequenceErr => 0x0c,
            GenericStatus::InvalidSglSegmentDescriptor => 0x0d,
            GenericStatus::InvalidNumberOfSglDescriptors => 0x0e,
            GenericStatus::DataSglLengthInvalid => 0x0f,
            GenericStatus::MetadataSglLengthInvalid => 0x10,
            GenericStatus::SglDescriptorTypeInvalid => 0x11,
            GenericStatus::InvalidUseOfCtrlMemoryBuffer => 0x12,
            GenericStatus::PrpOffsetInvalid => 0x13,
            GenericStatus::AtomicWriteUnitExceeded => 0x14,
            GenericStatus::OperationDenied => 0x15,
            GenericStatus::SglOffsetInvalid => 0x16,
            GenericStatus::HostIdInconsistentFormat => 0x18,
            GenericStatus::KeepAliveTimerExpired => 0x19,
            GenericStatus::KeepAliveTimeoutInvalid => 0x1a,
            GenericStatus::CmdAbortedDueToPreemptAndAbort => 0x1b,
            GenericStatus::SanitizeFailed => 0x1c,
            GenericStatus::SanitizeInProgress => 0x1d,
            GenericStatus::SglDataBlockGranularityInvalid => 0x1e,
            GenericStatus::CmdNotSupportedForQueueInCmb => 0x1f,
            GenericStatus::NmspIsWriteProtected => 0x20,
            GenericStatus::CmdInterrupted => 0x21,
            GenericStatus::TransientTransportErr => 0x22,
            GenericStatus::LbaOutOfRange => 0x80,
            GenericStatus::CapacityExceeded => 0x81,
            GenericStatus::NmspNotReady => 0x82,
            GenericStatus::ReservationConflict => 0x83,
            GenericStatus::FormatInProgress => 0x84,
        }
    }

    /// Looks `code` up: the status it stands for, or `None` where it stands for none.
    pub fn from_u8(code: u8) -> (found: Option<Self>)
        ensures
            found == Self::named(code),
    {
        let found = match code {
            0x00 => Some(GenericStatus::Success),
            0x01 => Some(GenericStatus::InvalidCmdOpcode),
            0x02 => Some(GenericStatus::InvalidFieldInCmd),
            0x03 => Some(GenericStatus::CmdIdConflict),
            0x04 => Some(GenericStatus::DataTransferErr),
            0x05 => Some(GenericStatus::CmdAbortedDueToPowerLossNotification),
            0x06 => Some(GenericStatus::InternalErr),
            0x07 => Some(GenericStatus::CmdAbortRequested),
            0x08 => Some(GenericStatus::CmdAbortedDueToSqDeletion),
            0x09 => Some(GenericStatus::CmdAbortedDueToFailedFusedCmd),
            0x0a => Some(GenericStatus::CmdAbortedDueToMissingFusedCmd),
            0x0b => Some(GenericStatus::InvalidNmspOrFormat),
            0x0c => Some(GenericStatus::CmdSequenceErr),
            0x0d => Some(GenericStatus::InvalidSglSegmentDescriptor),
            0x0e => Some(GenericStatus::InvalidNumberOfSglDescriptors),
            0x0f => Some(GenericStatus::DataSglLengthInvalid),
            0x10 => Some(GenericStatus::MetadataSglLengthInvalid),
            0x11 => Some(GenericStatus::SglDescriptorTypeInvalid),
            0x12 => Some(GenericStatus::InvalidUseOfCtrlMemoryBuffer),
            0x13 => Some(GenericStatus::PrpOffsetInvalid),
            0x14 => Some(GenericStatus::AtomicWriteUnitExceeded),
            0x15 => Some(GenericStatus::OperationDenied),
            0x16 => Some(GenericStatus::SglOffsetInvalid),
            0x18 => Some(GenericStatus::HostIdInconsistentFormat),
            0x19 => Some(GenericStatus::KeepAliveTimerExpired),
            0x1a => Some(GenericStatus::KeepAliveTimeoutInvalid),
            0x1b => Some(GenericStatus::CmdAbortedDueToPreemptAndAbort),
            0x1c => Some(GenericStatus::SanitizeFailed),
            0x1d => Some(GenericStatus::SanitizeInProgress),
            0x1e => Some(GenericStatus::SglDataBlockGranularityInvalid),
            0x1f => Some(GenericStatus::CmdNotSupportedForQueueInCmb),
            0x20 => Some(GenericStatus::NmspIsWriteProtected),
            0x21 => Some(GenericStatus::CmdInterrupted),
            0x22 => Some(GenericStatus::TransientTransportErr),
            0x80 => Some(GenericStatus::LbaOutOfRange),
            0x81 => Some(GenericStatus::CapacityExceeded),
            0x82 => Some(GenericStatus::NmspNotReady),
            0x83 => Some(GenericStatus::ReservationConflict),
            0x84 => Some(GenericStatus::FormatInProgress),
            _ => None,
        };
        proof {
            match found {
                Some(named) => named.lemma_named_by_code(),
                None => assert(forall|named: Self| named.code() != code),
            }
        }
        found
    }
}

/// Status codes of the command-specific category.
#[non_exhaustive]
#[derive(Clone, Copy, Debug, PartialEq, Eq, Structural)]
pub enum CmdSpecificStatus {
    CompletionQueueInvalid,
    InvalidQueueId,
    InvalidQueueSize,
    AbortCmdLimitExceeded,
    AsyncEventReqLimitExceeded,
    InvalidFwSlot,
    InvalidFwImage,
    InvalidInterruptVector,
    InvalidLogPage,
    InvalidFormat,
    FwActivationRequiresConventionalReset,
    InvalidQueueDeletion,
    FeatureIdNotSaveable,
    FeatureNotChangeable,
    FeatureNotNamespaceSpecific,
    FwActivationRequiresNvmSubsystemReset,
    FwActivationRequiresCtrlLevelReset,
    FwActivationRequiresMaximumTimeViolation,
    FwActivationProhibited,
    OverlappingRange,
    NmspInsufficientCapacity,
    NmspIdUnavailable,
    NmspAlreadyAttached,
    NmspIsPrivate,
    NmspNotAttached,
    ThinProvisioningNotSupported,
    CtrlListInvalid,
    DeviceSelfTestInProgress,
    BootPartitionWriteProhibited,
    InvalidCtrlId,
    InvalidSecondaryCtrlState,
    InvalidNumberOfCtrlResources,
    InvalidResourceIdentifier,
    SanitizeProhibitedWhilePersistentMemoryRegionIsEnabled,
    AnaGroupIdInvalid,
    AnaAttachFailed,
    ConflictingAttrs,
    InvalidProtectionInfo,
    AttemptedWriteToReadOnlyRange,
}

impl CmdSpecificStatus {
    /// The code that stands for this status.
    pub open spec fn code(self) -> u8 {
        match self {
            CmdSpecificStatus::CompletionQueueInvalid => 0x00,
            CmdSpecificStatus::InvalidQueueId => 0x01,
            CmdSpecificStatus::InvalidQueueSize => 0x02,
            CmdSpecificStatus::AbortCmdLimitExceeded => 0x03,
            CmdSpecificStatus::AsyncEventReqLimitExceeded => 0x05,
            CmdSpecificStatus::InvalidFwSlot => 0x06,
            CmdSpecificStatus::InvalidFwImage => 0x07,
            CmdSpecificStatus::InvalidInterruptVector => 0x08,
            CmdSpecificStatus::InvalidLogPage => 0x09,
            CmdSpecificStatus::InvalidFormat => 0x0a,
            CmdSpecificStatus::FwActivationRequiresConventionalReset => 0x0b,
            CmdSpecificStatus::InvalidQueueDeletion => 0x0c,
            CmdSpecificStatus::FeatureIdNotSaveable => 0x0d,
            CmdSpecificStatus::FeatureNotChangeable => 0x0e,
            CmdSpecificStatus::FeatureNotNamespaceSpecific => 0x0f,
            CmdSpecificStatus::FwActivationRequiresNvmSubsystemReset => 0x10,
            CmdSpecificStatus::FwActivationRequiresCtrlLevelReset => 0x11,
            CmdSpecificStatus::FwActivationRequiresMaximumTimeViolation => 0x12,
            CmdSpecificStatus::FwActivationProhibited => 0x13,
            CmdSpecificStatus::OverlappingRange => 0x14,
            CmdSpecificStatus::NmspInsufficientCapacity => 0x15,
            CmdSpecificStatus::NmspIdUnavailable => 0x16,
            CmdSpecificStatus::NmspAlreadyAttached => 0x18,
            CmdSpecificStatus::NmspIsPrivate => 0x19,
            CmdSpecificStatus::NmspNotAttached => 0x1a,
            CmdSpecificStatus::ThinProvisioningNotSupported => 0x1b,
            CmdSpecificStatus::CtrlListInvalid => 0x1c,
            CmdSpecificStatus::DeviceSelfTestInProgress => 0x1d,
            CmdSpecificStatus::BootPartitionWriteProhibited => 0x1e,
            CmdSpecificStatus::InvalidCtrlId => 0x1f,
            CmdSpecificStatus::InvalidSecondaryCtrlState => 0x20,
            CmdSpecificStatus::InvalidNumberOfCtrlResources => 0x21,
            CmdSpecificStatus::InvalidResourceIdentifier => 0x22,
            CmdSpecificStatus::SanitizeProhibitedWhilePersistentMemoryRegionIsEnabled => 0x23,
            CmdSpecificStatus::AnaGroupIdInvalid => 0x24,
            CmdSpecificStatus::AnaAttachFailed => 0x25,
            CmdSpecificStatus::ConflictingAttrs => 0x80,
            CmdSpecificStatus::InvalidProtectionInfo => 0x81,
            CmdSpecificStatus::AttemptedWriteToReadOnlyRange => 0x82,
        }
    }

    /// The status that `code` stands for, if it stands for one.
    pub open spec fn named(code: u8) -> Option<Self> {
        if exists|named: Self| named.code() == code {
            Some(choose|named: Self| named.code() == code)
        } else {
            None
        }
    }

    /// No two of them share a code: each is the one that its code stands for.
    pub proof fn lemma_named_by_code(self)
        ensures
            Self::named(self.code()) == Some(self),
    {
        let found = choose|named: Self| named.code() == self.code();
        assert(found.code() == self.code());
    }

    /// What a code stands for is written as that code.
    pub proof fn lemma_code_of_named(code: u8)
        ensures
            Self::named(code) matches Some(named) ==> named.code() == code,
    {
    }

    /// The code that stands for this status.
    pub fn to_u8(&self) -> (code: u8)
        ensures
            code == self.code(),
    {
        match self {
            CmdSpecificStatus::CompletionQueueInvalid => 0x00,
            CmdSpecificStatus::InvalidQueueId => 0x01,
            CmdSpecificStatus::InvalidQueueSize => 0x02,
            CmdSpecificStatus::AbortCmdLimitExceeded => 0x03,
            CmdSpecificStatus::AsyncEventReqLimitExceeded => 0x05,
            CmdSpecificStatus::InvalidFwSlot => 0x06,
            CmdSpecificStatus::InvalidFwImage => 0x07,
            CmdSpecificStatus::InvalidInterruptVector => 0x08,
            CmdSpecificStatus::InvalidLogPage => 0x09,
            CmdSpecificStatus::InvalidFormat => 0x0a,
            CmdSpecificStatus::FwActivationRequiresConventionalReset => 0x0b,
            CmdSpecificStatus::InvalidQueueDeletion => 0x0c,
            CmdSpecificStatus::FeatureIdNotSaveable => 0x0d,
            CmdSpecificStatus::FeatureNotChangeable => 0x0e,
            CmdSpecificStatus::FeatureNotNamespaceSpecific => 0x0f,
            CmdSpecificStatus::FwActivationRequiresNvmSubsystemReset => 0x10,
            CmdSpecificStatus::FwActivationRequiresCtrlLevelReset => 0x11,
            CmdSpecificStatus::FwActivationRequiresMaximumTimeViolation => 0x12,
            CmdSpecificStatus::FwActivationProhibited => 0x13,
            CmdSpecificStatus::OverlappingRange => 0x14,
            CmdSpecificStatus::NmspInsufficientCapacity => 0x15,
            CmdSpecificStatus::NmspIdUnavailable => 0x16,
            CmdSpecificStatus::NmspAlreadyAttached => 0x18,
            CmdSpecificStatus::NmspIsPrivate => 0x19,
            CmdSpecificStatus::NmspNotAttached => 0x1a,
            CmdSpecificStatus::ThinProvisioningNotSupported => 0x1b,
            CmdSpecificStatus::CtrlListInvalid => 0x1c,
            CmdSpecificStatus::DeviceSelfTestInProgress => 0x1d,
            CmdSpecificStatus::BootPartitionWriteProhibited => 0x1e,
            CmdSpecificStatus::InvalidCtrlId => 0x1f,
            CmdSpecificStatus::InvalidSecondaryCtrlState => 0x20,
            CmdSpecificStatus::InvalidNumberOfCtrlResources => 0x21,
            CmdSpecificStatus::InvalidResourceIdentifier => 0x22,
            CmdSpecificStatus::SanitizeProhibitedWhilePersistentMemoryRegionIsEnabled => 0x23,
            CmdSpecificStatus::AnaGroupIdInvalid => 0x24,
            CmdSpecificStatus::AnaAttachFailed => 0x25,
            CmdSpecificStatus::ConflictingAttrs => 0x80,
            CmdSpecificStatus::InvalidProtectionInfo => 0x81,
            CmdSpecificStatus::AttemptedWriteToReadOnlyRange => 0x82,
        }
    }

    /// Looks `code` up: the status it stands for, or `None` where it stands for none.
    pub fn from_u8(code: u8) -> (found: Option<Self>)
        ensures
            found == Self::named(code),
    {
        let found = match code {
            0x00 => Some(CmdSpecificStatus::CompletionQueueInvalid),
            0x01 => Some(CmdSpecificStatus::InvalidQueueId),
            0x02 => Some(CmdSpecificStatus::InvalidQueueSize),
            0x03 => Some(CmdSpecificStatus::AbortCmdLimitExceeded),
            0x05 => Some(CmdSpecificStatus::AsyncEventReqLimitExceeded),
            0x06 => Some(CmdSpecificStatus::InvalidFwSlot),
            0x07 => Some(CmdSpecificStatus::InvalidFwImage),
            0x08 => Some(CmdSpecificStatus::InvalidInterruptVector),
            0x09 => Some(CmdSpecificStatus::InvalidLogPage),
            0x0a => Some(CmdSpecificStatus::InvalidFormat),
            0x0b => Some(CmdSpecificStatus::FwActivationRequiresConventionalReset),
            0x0c => Some(CmdSpecificStatus::InvalidQueueDeletion),
            0x0d => Some(CmdSpecificStatus::FeatureIdNotSaveable),
            0x0e => Some(CmdSpecificStatus::FeatureNotChangeable),
            0x0f => Some(CmdSpecificStatus::FeatureNotNamespaceSpecific),
            0x10 => Some(CmdSpecificStatus::FwActivationRequiresNvmSubsystemReset),
            0x11 => Some(CmdSpecificStatus::FwActivationRequiresCtrlLevelReset),
            0x12 => Some(CmdSpecificStatus::FwActivationRequiresMaximumTimeViolation),
            0x13 => Some(CmdSpecificStatus::FwActivationProhibited),
            0x14 => Some(CmdSpecificStatus::OverlappingRange),
            0x15 => Some(CmdSpecificStatus::NmspInsufficientCapacity),
            0x16 => Some(CmdSpecificStatus::NmspIdUnavailable),
            0x18 => Some(CmdSpecificStatus::NmspAlreadyAttached),
            0x19 => Some(CmdSpecificStatus::NmspIsPrivate),
            0x1a => Some(CmdSpecificStatus::NmspNotAttached),
            0x1b => Some(CmdSpecificStatus::ThinProvisioningNotSupported),
            0x1c => Some(CmdSpecificStatus::CtrlListInvalid),
            0x1d => Some(CmdSpecificStatus::DeviceSelfTestInProgress),
            0x1e => Some(CmdSpecificStatus::BootPartitionWriteProhibited),
            0x1f => Some(CmdSpecificStatus::InvalidCtrlId),
            0x20 => Some(CmdSpecificStatus::InvalidSecondaryCtrlState),
            0x21 => Some(CmdSpecificStatus::InvalidNumberOfCtrlResources),
            0x22 => Some(CmdSpecificStatus::InvalidResourceIdentifier),
            0x23 => Some(CmdSpecificStatus::SanitizeProhibitedWhilePersistentMemoryRegionIsEnabled),
            0x24 => Some(CmdSpecificStatus::AnaGroupIdInvalid),
            0x25 => Some(CmdSpecificStatus::AnaAttachFailed),
            0x80 => Some(CmdSpecificStatus::ConflictingAttrs),
            0x81 => Some(CmdSpecificStatus::InvalidProtectionInfo),
            0x82 => Some(CmdSpecificStatus::AttemptedWriteToReadOnlyRange),
            _ => None,
        };
        proof {
            match found {
                Some(named) => named.lemma_named_by_code(),
                None => assert(forall|named: Self| named.code() != code),
            }
        }
        found
    }
}

/// Status codes of the media and data integrity category.
#[non_exhaustive]
#[derive(Clone, Copy, Debug, PartialEq, Eq, Structural)]
pub enum MadIntegrityStatus {
    WriteFault,
    UnrecoveredReadErr,
    E2EGuardCheckErr,
    E2EApplicationTagCheckErr,
    E2ERefTagCheckErr,
    CompareFailure,
    AccessDenied,
    DeallocatedOrUnwrittenLogicalBlock,
}

impl MadIntegrityStatus {
    /// The code that stands for this status.
    pub open spec fn code(self) -> u8 {
        match self {
            MadIntegrityStatus::WriteFault => 0x80,
            MadIntegrityStatus::UnrecoveredReadErr => 0x81,
            MadIntegrityStatus::E2EGuardCheckErr => 0x82,
            MadIntegrityStatus::E2EApplicationTagCheckErr => 0x83,
            MadIntegrityStatus::E2ERefTagCheckErr => 0x84,
            MadIntegrityStatus::CompareFailure => 0x85,
            MadIntegrityStatus::AccessDenied => 0x86,
            MadIntegrityStatus::DeallocatedOrUnwrittenLogicalBlock => 0x87,
        }
    }

    /// The status that `code` stands for, if it stands for one.
    pub open spec fn named(code: u8) -> Option<Self> {
        if exists|named: Self| named.code() == code {
            Some(choose|named: Self| named.code() == code)
        } else {
            None
        }
    }

    /// No two of them share a code: each is the one that its code stands for.
    pub proof fn lemma_named_by_code(self)
        ensures
            Self::named(self.code()) == Some(self),
    {
        let found = choose|named: Self| named.code() == self.code();
        assert(found.code() == self.code());
    }

    /// What a code stands for is written as that code.
    pub proof fn lemma_code_of_named(code: u8)
        ensures
            Self::named(code) matches Some(named) ==> named.code() == code,
    {
    }

    /// The code that stands for this status.
    pub fn to_u8(&self) -> (code: u8)
        ensures
            code == self.code(),
    {
        match self {
            MadIntegrityStatus::WriteFault => 0x80,
            MadIntegrityStatus::UnrecoveredReadErr => 0x81,
            MadIntegrityStatus::E2EGuardCheckErr => 0x82,
            MadIntegrityStatus::E2EApplicationTagCheckErr => 0x83,
            MadIntegrityStatus::E2ERefTagCheckErr => 0x84,
            MadIntegrityStatus::CompareFailure => 0x85,
            MadIntegrityStatus::AccessDenied => 0x86,
            MadIntegrityStatus::DeallocatedOrUnwrittenLogicalBlock => 0x87,
        }
    }

    /// Looks `code` up: the status it stands for, or `None` where it stands for none.
    pub fn from_u8(code: u8) -> (found: Option<Self>)
        ensures
            found == Self::named(code),
    {
        let found = match code {
            0x80 => Some(MadIntegrityStatus::WriteFault),
            0x81 => Some(MadIntegrityStatus::UnrecoveredReadErr),
            0x82 => Some(MadIntegrityStatus::E2EGuardCheckErr),
            0x83 => Some(MadIntegrityStatus::E2EApplicationTagCheckErr),
            0x84 => Some(MadIntegrityStatus::E2ERefTagCheckErr),
            0x85 => Some(MadIntegrityStatus::CompareFailure),
            0x86 => Some(MadIntegrityStatus::AccessDenied),
            0x87 => Some(MadIntegrityStatus::DeallocatedOrUnwrittenLogicalBlock),
            _ => None,
        };
        proof {
            match found {
                Some(named) => named.lemma_named_by_code(),
                None => assert(forall|named: Self| named.code() != code),
            }
        }
        found
    }
}

/// Status codes of the path-related category.
#[non_exhaustive]
#[derive(Clone, Copy, Debug, PartialEq, Eq, Structural)]
pub enum PathRelatedStatus {
    InternalPathErr,
    AsymAccessPersistentLoss,
    AsymAccessInaccessible,
    AsymAccessTransition,
    CtrlPathingErr,
    HostPathingErr,
    CmdAbortedByHost,
}

impl PathRelatedStatus {
    /// The code that stands for this status.
    pub open spec fn code(self) -> u8 {
        match self {
            PathRelatedStatus::InternalPathErr => 0x00,
            PathRelatedStatus::AsymAccessPersistentLoss => 0x01,
            PathRelatedStatus::AsymAccessInaccessible => 0x02,
            PathRelatedStatus::AsymAccessTransition => 0x03,
            PathRelatedStatus::CtrlPathingErr => 0x60,
            PathRelatedStatus::HostPathingErr => 0x70,
            PathRelatedStatus::CmdAbortedByHost => 0x71,
        }
    }

    /// The status that `code` stands for, if it stands for one.
    pub open spec fn named(code: u8) -> Option<Self> {
        if exists|named: Self| named.code() == code {
            Some(choose|named: Self| named.code() == code)
        } else {
            None
        }
    }

    /// No two of them share a code: each is the one that its code stands for.
    pub proof fn lemma_named_by_code(self)
        ensures
            Self::named(self.code()) == Some(self),
    {
        let found = choose|named: Self| named.code() == self.code();
        assert(found.code() == self.code());
    }

    /// What a code stands for is written as that code.
    pub proof fn lemma_code_of_named(code: u8)
        ensures
            Self::named(code) matches Some(named) ==> named.code() == code,
    {
    }

    /// The code that stands for this status.
    pub fn to_u8(&self) -> (code: u8)
        ensures
            code == self.code(),
    {
        match self {
            PathRelatedStatus::InternalPathErr => 0x00,
            PathRelatedStatus::AsymAccessPersistentLoss => 0x01,
            PathRelatedStatus::AsymAccessInaccessible => 0x02,
            PathRelatedStatus::AsymAccessTransition => 0x03,
            PathRelatedStatus::CtrlPathingErr => 0x60,
            PathRelatedStatus::HostPathingErr => 0x70,
            PathRelatedStatus::CmdAbortedByHost => 0x71,
        }
    }

    /// Looks `code` up: the status it stands for, or `None` where it stands for none.
    pub fn from_u8(code: u8) -> (found: Option<Self>)
        ensures
            found == Self::named(code),
    {
        let found = match code {
            0x00 => Some(PathRelatedStatus::InternalPathErr),
            0x01 => Some(PathRelatedStatus::AsymAccessPersistentLoss),
            0x02 => Some(PathRelatedStatus::AsymAccessInaccessible),
            0x03 => Some(PathRelatedStatus::AsymAccessTransition),
            0x60 => Some(PathRelatedStatus::CtrlPathingErr),
            0x70 => Some(PathRelatedStatus::HostPathingErr),
            0x71 => Some(PathRelatedStatus::CmdAbortedByHost),
            _ => None,
        };
        proof {
            match found {
                Some(named) => named.lemma_named_by_code(),
                None => assert(forall|named: Self| named.code() != code),
            }
        }
        found
    }
}
/// What a status word reports: the named reason within its category, or the
/// raw numbers where no name is assigned.
#[derive(Clone, Copy, Debug, PartialEq, Eq, Structural)]
pub enum StatusCode {
    Generic(GenericStatus),
    CmdSpecific(CmdSpecificStatus),
    MadIntegrity(MadIntegrityStatus),
    PathRelated(PathRelatedStatus),
    VndrSpecific(u8),
    Unknown(StatusCodeType, u8),
}

impl StatusCode {
    /// The category and code that this status is written as.
    pub open spec fn raw(self) -> (StatusCodeType, u8) {
        match self {
            StatusCode::Generic(sc) => (StatusCodeType::Generic, sc.code()),
            StatusCode::CmdSpecific(sc) => (StatusCodeType::CmdSpecific, sc.code()),
            StatusCode::MadIntegrity(sc) => (StatusCodeType::MadIntegrity, sc.code()),
            StatusCode::PathRelated(sc) => (StatusCodeType::PathRelated, sc.code()),
            StatusCode::VndrSpecific(sc) => (StatusCodeType::VndrSpecific, sc),
            StatusCode::Unknown(sct, sc) => (sct, sc),
        }
    }

    /// The status that category `sct` and code `sc` decode to. A named
    /// category gives the reason that its table lists for `sc`, and
    /// `Unknown` where it lists none; the vendor-specific category keeps `sc`
    /// as it is; a reserved category is always `Unknown`.
    pub open spec fn resolved(sct: StatusCodeType, sc: u8) -> StatusCode {
        match sct {
            StatusCodeType::Generic => match GenericStatus::named(sc) {
                Some(reason) => StatusCode::Generic(reason),
                None => StatusCode::Unknown(sct, sc),
            },
            StatusCodeType::CmdSpecific => match CmdSpecificStatus::named(sc) {
                Some(reason) => StatusCode::CmdSpecific(reason),
                None => StatusCode::Unknown(sct, sc),
            },
            StatusCodeType::MadIntegrity => match MadIntegrityStatus::named(sc) {
                Some(reason) => StatusCode::MadIntegrity(reason),
                None => StatusCode::Unknown(sct, sc),
            },
            StatusCodeType::PathRelated => match PathRelatedStatus::named(sc) {
                Some(reason) => StatusCode::PathRelated(reason),
                None => StatusCode::Unknown(sct, sc),
            },
            StatusCodeType::VndrSpecific => StatusCode::VndrSpecific(sc),
            _ => StatusCode::Unknown(sct, sc),
        }
    }

    /// Decodes category `sct` and code `sc`.
    pub fn from_raw(sct: StatusCodeType, sc: u8) -> (status: StatusCode)
        ensures
            status == Self::resolved(sct, sc),
    {
        match sct {
            StatusCodeType::Generic => match GenericStatus::from_u8(sc) {
                Some(reason) => StatusCode::Generic(reason),
                None => StatusCode::Unknown(sct, sc),
            },
            StatusCodeType::CmdSpecific => match CmdSpecificStatus::from_u8(sc) {
                Some(reason) => StatusCode::CmdSpecific(reason),
                None => StatusCode::Unknown(sct, sc),
            },
            StatusCodeType::MadIntegrity => match MadIntegrityStatus::from_u8(sc) {
                Some(reason) => StatusCode::MadIntegrity(reason),
                None => StatusCode::Unknown(sct, sc),
            },
            StatusCodeType::PathRelated => match PathRelatedStatus::from_u8(sc) {
                Some(reason) => StatusCode::PathRelated(reason),
                None => StatusCode::Unknown(sct, sc),
            },
            StatusCodeType::VndrSpecific => StatusCode::VndrSpecific(sc),
            _ => StatusCode::Unknown(sct, sc),
        }
    }

    /// The category and code that this status is written as.
    pub fn into_raw(self) -> (raw: (StatusCodeType, u8))
        ensures
            raw == self.raw(),
    {
        match self {
            StatusCode::Generic(sc) => (StatusCodeType::Generic, sc.to_u8()),
            StatusCode::CmdSpecific(sc) => (StatusCodeType::CmdSpecific, sc.to_u8()),
            StatusCode::MadIntegrity(sc) => (StatusCodeType::MadIntegrity, sc.to_u8()),
            StatusCode::PathRelated(sc) => (StatusCodeType::PathRelated, sc.to_u8()),
            StatusCode::VndrSpecific(sc) => (StatusCodeType::VndrSpecific, sc),
            StatusCode::Unknown(sct, sc) => (sct, sc),
        }
    }

    /// Whatever a category and a code decode to is written back as that
    /// category and that code, bit for bit.
    pub proof fn lemma_raw_of_resolved(sct: StatusCodeType, sc: u8)
        ensures
            Self::resolved(sct, sc).raw() == (sct, sc),
    {
    }

    /// In the vendor-specific category every code decodes to itself.
    pub proof fn lemma_vendor_specific(sc: u8)
        ensures
            Self::resolved(StatusCodeType::VndrSpecific, sc) == StatusCode::VndrSpecific(sc),
    {
    }

    /// A reserved category decodes to `Unknown`, whatever the code.
    pub proof fn lemma_reserved_is_unknown(sct: StatusCodeType, sc: u8)
        requires
            sct == StatusCodeType::_Reserved4 || sct == StatusCodeType::_Reserved5 || sct
                == StatusCodeType::_Reserved6,
        ensures
            Self::resolved(sct, sc) == StatusCode::Unknown(sct, sc),
    {
    }

    /// A status that was decoded decodes from what it is written as: decoding
    /// is the inverse of `raw` on all that decoding gives.
    pub proof fn lemma_resolved_of_raw(sct: StatusCodeType, sc: u8)
        ensures
            ({
                let raw = Self::resolved(sct, sc).raw();
                Self::resolved(raw.0, raw.1) == Self::resolved(sct, sc)
            }),
    {
        Self::lemma_raw_of_resolved(sct, sc);
    }
}

/// The status word of a completion: sixteen bits, the lowest first.
///
/// | bits  | field                          |
/// |-------|--------------------------------|
/// | 0     | `phase_tag`                    |
/// | 1-8   | `sc`, the status code          |
/// | 9-11  | `sct`, the status code type    |
/// | 12-13 | `crd`, the command retry delay |
/// | 14    | `more`                         |
/// | 15    | `dnr`, do not retry            |
///
/// The phase tag is counted in, so that the word is two whole bytes.
#[derive(Clone, Copy, Debug, PartialEq, Eq, Structural)]
pub struct StatusField {
    raw: u16,
}

impl View for StatusField {
    type V = u16;

    closed spec fn view(&self) -> u16 {
        self.raw
    }
}

impl StatusField {
    /// The six fields of the word, the lowest first.
    pub open spec fn layout() -> Seq<Field> {
        seq![
            Field { offset: 0, width: 1 },
            Field { offset: 1, width: 8 },
            Field { offset: 9, width: 3 },
            Field { offset: 12, width: 2 },
            Field { offset: 14, width: 1 },
            Field { offset: 15, width: 1 },
        ]
    }

    /// The six fields fill the sixteen bits: no two of them share a bit and
    /// no bit is left out.
    pub proof fn lemma_layout_fills()
        ensures
            tiles(Self::layout(), 0, 16),
    {
        let all = Self::layout();
        let from_sc = all.drop_first();
        let from_sct = from_sc.drop_first();
        let from_crd = from_sct.drop_first();
        let from_more = from_crd.drop_first();
        let from_dnr = from_more.drop_first();
        assert(tiles(from_dnr.drop_first(), 16, 16));
        assert(tiles(from_dnr, 15, 16));
        assert(tiles(from_more, 14, 16));
        assert(tiles(from_crd, 12, 16));
        assert(tiles(from_sct, 9, 16));
        assert(tiles(from_sc, 1, 16));
    }

    /// A word is made of its fields: it is the sum of what they hold, each at
    /// its place.
    pub proof fn lemma_fields_make_value(self)
        ensures
            sum_of_fields(self@ as u64, Self::layout()) == self@,
    {
        lemma2_to64();
        Self::lemma_layout_fills();
        lemma_fields_make_backing(self@ as u64, Self::layout(), 16);
    }

    /// The word with the bits `raw`.
    pub closed spec fn of_bits(raw: u16) -> Self {
        StatusField { raw }
    }

    /// The word made of given bits holds those bits.
    pub proof fn lemma_of_bits(raw: u16)
        ensures
            Self::of_bits(raw)@ == raw,
    {
    }

    /// The phase tag of this word.
    pub open spec fn spec_phase_tag(&self) -> bool {
        spec_get_flag(self@ as u64, 0)
    }

    /// The status code of this word.
    pub open spec fn spec_sc(&self) -> u8 {
        spec_get_field(self@ as u64, 1, 8) as u8
    }

    /// The status code type of this word.
    pub open spec fn spec_sct(&self) -> StatusCodeType {
        StatusCodeType::named(spec_get_field(self@ as u64, 9, 3) as u8).unwrap()
    }

    /// The command retry delay of this word.
    pub open spec fn spec_crd(&self) -> u8 {
        spec_get_field(self@ as u64, 12, 2) as u8
    }

    /// The flag `more` of this word.
    pub open spec fn spec_more(&self) -> bool {
        spec_get_flag(self@ as u64, 14)
    }

    /// The flag `dnr` of this word.
    pub open spec fn spec_dnr(&self) -> bool {
        spec_get_flag(self@ as u64, 15)
    }

    /// The status that this word reports.
    pub open spec fn spec_status_code(&self) -> StatusCode {
        StatusCode::resolved(self.spec_sct(), self.spec_sc())
    }

    /// Whether this word reports success.
    pub open spec fn spec_successful(&self) -> bool {
        self.spec_sct() == StatusCodeType::Generic && self.spec_sc() == 0
    }

    /// This word taken apart.
    pub open spec fn unpacked(self) -> StatusFieldUnpacked {
        StatusFieldUnpacked {
            phase_tag: self.phase_tag(),
            status_code: self.status_code(),
            crd: self.crd(),
            more: self.more(),
            dnr: self.dnr(),
        }
    }

    /// Two words with the same sixteen bits are the same word.
    pub proof fn lemma_same_bits(self, other: Self)
        requires
            self@ == other@,
        ensures
            self == other,
    {
    }

    /// The word with every bit clear.
    pub fn new() -> (word: Self)
        ensures
            word@ == 0,
    {
        StatusField { raw: 0 }
    }

    /// The word that two bytes spell, the low byte first.
    pub fn from_bytes(bytes: [u8; 2]) -> (word: Self)
        ensures
            word@ == le_value(bytes@),
    {
        StatusField { raw: u16_of(bytes) }
    }

    /// The two bytes that spell this word, the low byte first.
    pub fn into_bytes(self) -> (bytes: [u8; 2])
        ensures
            bytes@ == le_bytes(self@ as nat, 2),
    {
        le_array::<2>(self.raw as u128)
    }

    #[verifier::when_used_as_spec(spec_phase_tag)]
    pub fn phase_tag(&self) -> (flag: bool)
        ensures
            flag == self.spec_phase_tag(),
    {
        get_flag(self.raw as u64, 0)
    }

    #[verifier::when_used_as_spec(spec_sc)]
    pub fn sc(&self) -> (sc: u8)
        ensures
            sc == self.spec_sc(),
    {
        get_field(self.raw as u64, 1, 8) as u8
    }

    #[verifier::when_used_as_spec(spec_sct)]
    pub fn sct(&self) -> (sct: StatusCodeType)
        ensures
            sct == self.spec_sct(),
            sct.code() == spec_get_field(self@ as u64, 9, 3),
    {
        let code = get_field(self.raw as u64, 9, 3) as u8;
        proof {
            lemma2_to64();
            StatusCodeType::lemma_exhaustive(code);
        }
        StatusCodeType::from_u8(code).unwrap()
    }

    #[verifier::when_used_as_spec(spec_crd)]
    pub fn crd(&self) -> (crd: u8)
        ensures
            crd == self.spec_crd(),
            crd < 4,
    {
        proof {
            lemma2_to64();
        }
        get_field(self.raw as u64, 12, 2) as u8
    }

    #[verifier::when_used_as_spec(spec_more)]
    pub fn more(&self) -> (flag: bool)
        ensures
            flag == self.spec_more(),
    {
        get_flag(self.raw as u64, 14)
    }

    #[verifier::when_used_as_spec(spec_dnr)]
    pub fn dnr(&self) -> (flag: bool)
        ensures
            flag == self.spec_dnr(),
    {
        get_flag(self.raw as u64, 15)
    }

    /// This word with the phase tag set to `flag`.
    pub fn with_phase_tag(self, flag: bool) -> (word: Self)
        ensures
            word@ == spec_with_flag(self@ as u64, 0, flag),
    {
        StatusField { raw: with_flag(self.raw as u64, 0, flag) as u16 }
    }

    /// This word with the status code set to `sc`.
    pub fn with_sc(self, sc: u8) -> (word: Self)
        ensures
            word@ == spec_with_field(self@ as u64, 1, 8, sc as u64),
    {
        proof {
            lemma2_to64();
        }
        StatusField { raw: put_field(self.raw as u64, 1, 8, sc as u64) as u16 }
    }

    /// This word with the status code type set to `sct`.
    pub fn with_sct(self, sct: StatusCodeType) -> (word: Self)
        ensures
            word@ == spec_with_field(self@ as u64, 9, 3, sct.code() as u64),
    {
        proof {
            lemma2_to64();
            sct.lemma_code_fits();
        }
        StatusField { raw: put_field(self.raw as u64, 9, 3, sct.to_u8() as u64) as u16 }
    }

    /// This word with the command retry delay set to `crd`; fails with `crd`
    /// when it does not fit two bits.
    pub fn with_crd(self, crd: u8) -> (word: Result<Self, u64>)
        ensures
            crd < 4 ==> word is Ok && word->Ok_0@ == spec_with_field(
                self@ as u64,
                12,
                2,
                crd as u64,
            ),
            crd >= 4 ==> word == Err::<Self, u64>(crd as u64),
    {
        proof {
            lemma2_to64();
        }
        match with_field(self.raw as u64, 12, 2, crd as u64) {
            Ok(raw) => Ok(StatusField { raw: raw as u16 }),
            Err(value) => Err(value),
        }
    }

    /// This word with the flag `more` set to `flag`.
    pub fn with_more(self, flag: bool) -> (word: Self)
        ensures
            word@ == spec_with_flag(self@ as u64, 14, flag),
    {
        StatusField { raw: with_flag(self.raw as u64, 14, flag) as u16 }
    }

    /// This word with the flag `dnr` set to `flag`.
    pub fn with_dnr(self, flag: bool) -> (word: Self)
        ensures
            word@ == spec_with_flag(self@ as u64, 15, flag),
    {
        StatusField { raw: with_flag(self.raw as u64, 15, flag) as u16 }
    }

    /// The status that this word reports: its category and code, decoded.
    #[verifier::when_used_as_spec(spec_status_code)]
    pub fn status_code(&self) -> (status: StatusCode)
        ensures
            status == StatusCode::resolved(self.sct(), self.sc()),
    {
        StatusCode::from_raw(self.sct(), self.sc())
    }

    /// Whether this word reports success: no category but the generic one
    /// and no code but zero do.
    #[verifier::when_used_as_spec(spec_successful)]
    pub fn successful(&self) -> (success: bool)
        ensures
            success <==> self.sct() == StatusCodeType::Generic && self.sc() == 0,
    {
        self.sct() == StatusCodeType::Generic && self.sc() == 0
    }

    /// A word reports success exactly when its status decodes to the generic
    /// status `Success`.
    pub proof fn lemma_successful_is_success(self)
        ensures
            self.successful() <==> self.status_code() == StatusCode::Generic(
                GenericStatus::Success,
            ),
    {
        GenericStatus::Success.lemma_named_by_code();
        if self.spec_sct() == StatusCodeType::Generic {
            if self.spec_sc() != 0 {
                match GenericStatus::named(self.spec_sc()) {
                    Some(reason) => {
                        assert(reason.code() == self.spec_sc());
                    },
                    None => {},
                }
            }
        }
    }
}

/// A status word taken apart into plain values, for interchange. The status
/// code and its type appear decoded, as the status they stand for.
#[derive(Clone, Copy, Debug, PartialEq, Eq, Structural)]
pub struct StatusFieldUnpacked {
    pub phase_tag: bool,
    pub status_code: StatusCode,
    pub crd: u8,
    pub more: bool,
    pub dnr: bool,
}

impl StatusFieldUnpacked {
    /// The sixteen bits that these parts make up, each part at its place in
    /// the word. Meant for a `crd` below 4.
    pub open spec fn word(self) -> nat {
        (flag_bit(self.phase_tag) + 2 * self.status_code.raw().1 + 512
            * self.status_code.raw().0.code() + 4096 * self.crd + 16384 * flag_bit(self.more)
            + 32768 * flag_bit(self.dnr)) as nat
    }

    /// The word that these parts make, or the `crd` that does not fit.
    pub open spec fn packed(self) -> Result<StatusField, u64> {
        if self.crd < 4 {
            Ok(StatusField::of_bits(self.word() as u16))
        } else {
            Err(self.crd as u64)
        }
    }
}

impl From<StatusField> for StatusFieldUnpacked {
    /// Takes a status word apart. Every word can be.
    fn from(word: StatusField) -> (unpacked: Self) {
        StatusFieldUnpacked {
            phase_tag: word.phase_tag(),
            status_code: word.status_code(),
            crd: word.crd(),
            more: word.more(),
            dnr: word.dnr(),
        }
    }
}

impl FromSpecImpl<StatusField> for StatusFieldUnpacked {
    open spec fn obeys_from_spec() -> bool {
        true
    }

    open spec fn from_spec(word: StatusField) -> Self {
        word.unpacked()
    }
}

impl TryFrom<StatusFieldUnpacked> for StatusField {
    type Error = u64;

    /// Puts a status word together. Fails with `crd` when it does not fit
    /// its two bits; nothing else can be out of range.
    fn try_from(unpacked: StatusFieldUnpacked) -> (packed: Result<Self, u64>)
        ensures
            unpacked.crd < 4 ==> packed is Ok && packed->Ok_0@ == unpacked.word(),
            unpacked.crd >= 4 ==> packed == Err::<Self, u64>(unpacked.crd as u64),
    {
        let (sct, sc) = unpacked.status_code.into_raw();
        let started = StatusField::new().with_phase_tag(unpacked.phase_tag).with_sc(sc).with_sct(
            sct,
        );
        proof {
            lemma2_to64();
            sct.lemma_code_fits();
        }
        match started.with_crd(unpacked.crd) {
            Ok(word) => {
                let word = word.with_more(unpacked.more).with_dnr(unpacked.dnr);
                Ok(word)
            },
            Err(value) => Err(value),
        }
    }
}

impl TryFromSpecImpl<StatusFieldUnpacked> for StatusField {
    open spec fn obeys_try_from_spec() -> bool {
        true
    }

    open spec fn try_from_spec(unpacked: StatusFieldUnpacked) -> Result<Self, u64> {
        unpacked.packed()
    }
}

/// A word is the sum of its six fields, each at its place.
proof fn lemma_word_of_fields(word: u64)
    requires
        word <= u16::MAX,
    ensures
        word == (word / 1) % 2 + 2 * ((word / 2) % 256) + 512 * ((word / 512) % 8) + 4096 * ((word
            / 4096) % 4) + 16384 * ((word / 16384) % 2) + 32768 * ((word / 32768) % 2),
{
    lemma2_to64();
    StatusField::lemma_layout_fills();
    lemma_fields_make_backing(word, StatusField::layout(), 16);
    let all = StatusField::layout();
    let from_sc = all.drop_first();
    let from_sct = from_sc.drop_first();
    let from_crd = from_sct.drop_first();
    let from_more = from_crd.drop_first();
    let from_dnr = from_more.drop_first();
    assert(from_dnr[0].offset == 15 && from_dnr[0].width == 1);
    assert(from_more[0].offset == 14 && from_more[0].width == 1);
    assert(from_crd[0].offset == 12 && from_crd[0].width == 2);
    assert(from_sct[0].offset == 9 && from_sct[0].width == 3);
    assert(from_sc[0].offset == 1 && from_sc[0].width == 8);
    assert(all[0].offset == 0 && all[0].width == 1);
    assert(sum_of_fields(word, from_dnr.drop_first()) == 0);
    assert(sum_of_fields(word, from_dnr) == 32768 * ((word / 32768) % 2));
    assert(sum_of_fields(word, from_more) == 16384 * ((word / 16384) % 2) + sum_of_fields(
        word,
        from_dnr,
    ));
    assert(sum_of_fields(word, from_crd) == 4096 * ((word / 4096) % 4) + sum_of_fields(
        word,
        from_more,
    ));
    assert(sum_of_fields(word, from_sct) == 512 * ((word / 512) % 8) + sum_of_fields(
        word,
        from_crd,
    ));
    assert(sum_of_fields(word, from_sc) == 2 * ((word / 2) % 256) + sum_of_fields(
        word,
        from_sct,
    ));
    assert(sum_of_fields(word, all) == (word / 1) % 2 + sum_of_fields(word, from_sc));
}

/// Six values that fit their fields are the fields of the word they sum to.
proof fn lemma_fields_of_word(
    word: u64,
    phase_tag: u64,
    sc: u64,
    sct: u64,
    crd: u64,
    more: u64,
    dnr: u64,
)
    requires
        phase_tag <= 1,
        sc <= 255,
        sct <= 7,
        crd <= 3,
        more <= 1,
        dnr <= 1,
        word == phase_tag + 2 * sc + 512 * sct + 4096 * crd + 16384 * more + 32768 * dnr,
    ensures
        (word / 1) % 2 == phase_tag,
        (word / 2) % 256 == sc,
        (word / 512) % 8 == sct,
        (word / 4096) % 4 == crd,
        (word / 16384) % 2 == more,
        (word / 32768) % 2 == dnr,
{
    assert((word / 1) % 2 == phase_tag && (word / 2) % 256 == sc && (word / 512) % 8 == sct && (
    word / 4096) % 4 == crd && (word / 16384) % 2 == more && (word / 32768) % 2 == dnr)
        by (bit_vector)
        requires
            phase_tag <= 1,
            sc <= 255,
            sct <= 7,
            crd <= 3,
            more <= 1,
            dnr <= 1,
            word == phase_tag + 2 * sc + 512 * sct + 4096 * crd + 16384 * more + 32768 * dnr,
    ;
}

/// A word that is taken apart and put together again is the same word.
pub proof fn lemma_unpack_then_pack(word: StatusField)
    ensures
        word.unpacked().crd < 4,
        word.unpacked().word() == word@,
        word.unpacked().packed() == Ok::<StatusField, u64>(word),
{
    lemma2_to64();
    lemma_word_of_fields(word@ as u64);
    let code = spec_get_field(word@ as u64, 9, 3) as u8;
    assert(code == (word@ as u64 / 512) % 8);
    StatusCodeType::lemma_exhaustive(code);
    StatusCode::lemma_raw_of_resolved(word.spec_sct(), word.spec_sc());
    assert(word.unpacked().status_code.raw() == (word.spec_sct(), word.spec_sc()));
    assert(word.spec_sct().code() == code);
    assert(word.spec_sc() == (word@ as u64 / 2) % 256);
    assert(word.spec_crd() == (word@ as u64 / 4096) % 4);
    assert(flag_bit(word.spec_phase_tag()) == (word@ as u64 / 1) % 2);
    assert(flag_bit(word.spec_more()) == (word@ as u64 / 16384) % 2);
    assert(flag_bit(word.spec_dnr()) == (word@ as u64 / 32768) % 2);
}

/// Parts that are put together and taken apart again are the same parts, the
/// status being the one that its own category and code decode to.
pub proof fn lemma_pack_then_unpack(unpacked: StatusFieldUnpacked, word: StatusField)
    requires
        unpacked.crd < 4,
        word@ == unpacked.word(),
    ensures
        word.unpacked() == (StatusFieldUnpacked {
            status_code: StatusCode::resolved(
                unpacked.status_code.raw().0,
                unpacked.status_code.raw().1,
            ),
            ..unpacked
        }),
{
    lemma2_to64();
    let sct = unpacked.status_code.raw().0;
    let sc = unpacked.status_code.raw().1;
    sct.lemma_code_fits();
    sct.lemma_named_by_code();
    lemma_fields_of_word(
        word@ as u64,
        flag_bit(unpacked.phase_tag),
        sc as u64,
        sct.code() as u64,
        unpacked.crd as u64,
        flag_bit(unpacked.more),
        flag_bit(unpacked.dnr),
    );
    assert(spec_get_field(word@ as u64, 9, 3) == sct.code());
    assert(word.spec_sct() == sct);
    assert(word.spec_sc() == sc);
    assert(word.spec_crd() == unpacked.crd);
    assert(word.spec_phase_tag() == unpacked.phase_tag);
    assert(word.spec_more() == unpacked.more);
    assert(word.spec_dnr() == unpacked.dnr);
}

} // verus!
