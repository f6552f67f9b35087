//! Typed, read-only views over the fixed-layout records of the NVMe
//! management interface.
//!
//! A caller hands over the bytes that a device returned and gets a record
//! that borrows them: nothing is copied, and the only thing that can be wrong
//! with the bytes is their number. The fields of a record are read through
//! accessors, each at its byte offset; the fields that share a byte or a word
//! are read through the bit-field codec; and a status word is decoded into
//! the status that it reports.

pub mod bitfield;
pub mod ident;
pub mod logpage;
pub mod status;
pub mod util;
pub mod wire;

pub use ident::ctrl::{
    Anacap,
    Apsta,
    Avscc,
    Cmic,
    CtrlAttr,
    CtrlType,
    Dsto,
    Fna,
    Frmw,
    Fuses,
    Hctma,
    IdCtrl,
    Ieee,
    Lpa,
    Mec,
    Nodmmas,
    Nvmsr,
    Nvscc,
    Nwpc,
    Oacs,
    Oaes,
    Oncs,
    PowerState,
    PowerStateUnpacked,
    QueueEntrySize,
    Rpmbs,
    Sanicap,
    Sgls,
    SglsType,
    Vwci,
};
pub use ident::nmsp::{Dlfeat, Dpc, Flbas, Fpi, IdNmsp, Mc, Nmic, Nsfeat, Rescap};
pub use logpage::err::{ErrLogEntry, ParamErrLoc, ParamErrLocUnpacked};
pub use logpage::fw_slot::{ActiveFwInfo, ActiveFwInfoUnpacked, FwSlotLog};
pub use logpage::smart::{CriticalWarning, EndurGrpCritWarning, SmartLog};
pub use status::{
    CmdSpecificStatus,
    GenericStatus,
    MadIntegrityStatus,
    PathRelatedStatus,
    StatusCode,
    StatusCodeType,
    StatusField,
    StatusFieldUnpacked,
};
pub use util::{BitArray, FixedStr, FromBytes, Records, Reserved, TransmuteSafe};
