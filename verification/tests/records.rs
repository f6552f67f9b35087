use nvme::{
    ActiveFwInfo, ActiveFwInfoUnpacked, Cmic, CriticalWarning, CtrlType, ErrLogEntry, Fpi,
    FromBytes, Frmw, FwSlotLog, GenericStatus, Hctma, IdCtrl, IdNmsp, Ieee, Nodmmas, Oaes,
    ParamErrLoc, ParamErrLocUnpacked, PowerState, PowerStateUnpacked, QueueEntrySize, Rpmbs,
    Sanicap, Sgls, SglsType, SmartLog, StatusCode, StatusCodeType, TransmuteSafe,
};
use std::mem;

fn patterned(len: usize) -> Vec<u8> {
    (0..len).map(|i| (i * 7 + 3) as u8).collect()
}

fn le(bytes: &[u8]) -> u128 {
    bytes.iter().rev().fold(0u128, |acc, byte| (acc << 8) | *byte as u128)
}

#[test]
fn structure() {
    assert_eq!(FwSlotLog::byte_len(), 512);
    let bytes = [0u8; 512];
    let log = FwSlotLog::from_bytes(&bytes).unwrap();
    assert_eq!(mem::size_of_val(log.as_bytes()), 512);
    assert_eq!(FwSlotLog::from_bytes(&[0u8; 511]).err(), Some(511));
    assert_eq!(FwSlotLog::from_bytes(&[0u8; 513]).err(), Some(513));
}

#[test]
fn records_have_their_declared_lengths() {
    assert_eq!(IdCtrl::byte_len(), 4096);
    assert_eq!(IdNmsp::byte_len(), 4096);
    assert_eq!(SmartLog::byte_len(), 512);
    assert_eq!(FwSlotLog::byte_len(), 512);
    assert_eq!(ErrLogEntry::byte_len(), 64);
    assert!(IdCtrl::from_bytes(&vec![0u8; 4096]).is_ok());
    assert_eq!(IdCtrl::from_bytes(&vec![0u8; 4095]).err(), Some(4095));
    assert!(IdNmsp::from_bytes(&vec![0u8; 4096]).is_ok());
    assert_eq!(IdNmsp::from_bytes(&vec![0u8; 512]).err(), Some(512));
    assert!(SmartLog::from_bytes(&vec![0u8; 512]).is_ok());
    assert_eq!(SmartLog::from_bytes(&vec![0u8; 4096]).err(), Some(4096));
    assert!(ErrLogEntry::from_bytes(&vec![0u8; 64]).is_ok());
}

#[test]
fn error_log_entry_end_to_end() {
    let mut bytes = vec![0u8; 64];
    bytes[12] = 0x02;
    bytes[13] = 0x00;
    let entry = ErrLogEntry::from_bytes(&bytes).unwrap();
    let status = entry.status_field();
    assert_eq!(status.sct(), StatusCodeType::Generic);
    assert_eq!(status.sc(), 0x01);
    assert!(!status.phase_tag());
    assert_eq!(status.status_code(), StatusCode::Generic(GenericStatus::InvalidCmdOpcode));
    assert!(!status.successful());
}

#[test]
fn error_log_entry_fields() {
    let bytes = patterned(64);
    let entry = ErrLogEntry::from_bytes(&bytes).unwrap();
    assert_eq!(entry.err_count() as u128, le(&bytes[0..8]));
    assert_eq!(entry.submission_queue_id() as u128, le(&bytes[8..10]));
    assert_eq!(entry.cmd_id() as u128, le(&bytes[10..12]));
    assert_eq!(entry.status_field().into_bytes(), [bytes[12], bytes[13]]);
    assert_eq!(entry.param_err_loc().into_bytes(), [bytes[14], bytes[15]]);
    assert_eq!(entry.param_err_loc().byte(), bytes[14]);
    assert_eq!(entry.param_err_loc().bit(), bytes[15] & 7);
    assert_eq!(entry.lba() as u128, le(&bytes[16..24]));
    assert_eq!(entry.nmsp() as u128, le(&bytes[24..28]));
    assert_eq!(entry.vndr_specific_info_avail(), bytes[28]);
    assert_eq!(entry.trtype(), bytes[29]);
    assert_eq!(entry.cmd_specific_info() as u128, le(&bytes[32..40]));
    assert_eq!(entry.transport_type_specific_info() as u128, le(&bytes[40..42]));
    assert_eq!(entry.err_count(), 0x342d_261f_1811_0a03);
}

#[test]
fn error_log_is_a_run_of_entries() {
    let mut bytes = vec![0u8; 64 * 3];
    bytes[0] = 1;
    bytes[64] = 2;
    bytes[64 + 12] = 0x02;
    bytes[128] = 3;
    bytes[128 + 13] = 0x0e;
    let entries = <[ErrLogEntry]>::from_bytes(&bytes).unwrap();
    assert_eq!(entries.len(), 3);
    let first = entries.get(0).unwrap();
    assert_eq!(first.err_count(), 1);
    assert!(first.status_field().successful());
    let second = entries.get(1).unwrap();
    assert_eq!(second.err_count(), 2);
    assert_eq!(
        second.status_field().status_code(),
        StatusCode::Generic(GenericStatus::InvalidCmdOpcode)
    );
    let third = entries.get(2).unwrap();
    assert_eq!(third.err_count(), 3);
    assert_eq!(third.status_field().status_code(), StatusCode::VndrSpecific(0));
    assert!(entries.get(3).is_none());
    assert_eq!(<[ErrLogEntry]>::from_bytes(&bytes[..100]).err(), Some(100));
}

#[test]
fn param_err_loc_packing() {
    let loc = ParamErrLoc::try_from(ParamErrLocUnpacked { byte: 0x2a, bit: 5 }).unwrap();
    assert_eq!(loc.into_bytes(), [0x2a, 0x05]);
    assert_eq!(ParamErrLocUnpacked::from(loc), ParamErrLocUnpacked { byte: 0x2a, bit: 5 });
    assert_eq!(ParamErrLoc::try_from(ParamErrLocUnpacked { byte: 1, bit: 8 }), Err(8));
    assert_eq!(ParamErrLoc::new().with_bit(9), Err(9));
    assert_eq!(ParamErrLoc::from_bytes([0xff, 0xff]).with_byte(0).into_bytes(), [0x00, 0xff]);
    assert_eq!(
        ParamErrLoc::from_bytes([0xff, 0xff]).with_bit(2).unwrap().into_bytes(),
        [0xff, 0xfa]
    );
    for byte in 0u8..=255 {
        for bit in 0u8..8 {
            let unpacked = ParamErrLocUnpacked { byte, bit };
            let packed = ParamErrLoc::try_from(unpacked).unwrap();
            assert_eq!(ParamErrLocUnpacked::from(packed), unpacked);
        }
    }
}

#[test]
fn firmware_slot_log_fields() {
    let mut bytes = vec![0u8; 512];
    bytes[0] = 0b0011_0010;
    bytes[8..16].copy_from_slice(b"1.0.0   ");
    bytes[16..24].copy_from_slice(b"2.1.7\0\0\0");
    bytes[32..40].copy_from_slice(b"3.0\xff\xff\xff\xff\xff");
    bytes[56..64].copy_from_slice(&[b'x', 0xff, b'y', 0, 0, 0, 0, 0]);
    let log = FwSlotLog::from_bytes(&bytes).unwrap();
    assert_eq!(log.afi().active_slot(), 2);
    assert_eq!(log.afi().next_active(), 3);
    assert_eq!(log.get_slot(0), "1.0.0   ");
    assert_eq!(log.get_slot(1), "2.1.7");
    assert_eq!(log.get_slot(2), "");
    assert_eq!(log.get_slot(3), "3.0\u{fffd}\u{fffd}\u{fffd}\u{fffd}\u{fffd}");
    assert_eq!(log.get_slot(6), "x\u{fffd}y");
    let slots = log.frs();
    for (i, slot) in slots.iter().enumerate() {
        assert_eq!(slot.as_bytes(), &bytes[8 + 8 * i..16 + 8 * i]);
        assert_eq!(slot.to_string_lossy(), log.get_slot(i));
    }
}

#[test]
fn active_fw_info_packing() {
    let info = ActiveFwInfo::try_from(ActiveFwInfoUnpacked { active_slot: 5, next_active: 7 })
        .unwrap();
    assert_eq!(info.into_bytes(), [0x75]);
    assert_eq!(
        ActiveFwInfoUnpacked::from(info),
        ActiveFwInfoUnpacked { active_slot: 5, next_active: 7 }
    );
    assert_eq!(
        ActiveFwInfo::try_from(ActiveFwInfoUnpacked { active_slot: 8, next_active: 9 }),
        Err(8)
    );
    assert_eq!(
        ActiveFwInfo::try_from(ActiveFwInfoUnpacked { active_slot: 7, next_active: 9 }),
        Err(9)
    );
    assert_eq!(ActiveFwInfo::from_bytes([0xff]).active_slot(), 7);
    assert_eq!(ActiveFwInfo::from_bytes([0xff]).next_active(), 7);
    assert_eq!(ActiveFwInfo::from_bytes([0xff]).with_active_slot(0).unwrap().into_bytes(), [0xf8]);
    assert_eq!(ActiveFwInfo::from_bytes([0xff]).with_next_active(0).unwrap().into_bytes(), [0x8f]);
}

#[test]
fn smart_log_fields() {
    let bytes = patterned(512);
    let log = SmartLog::from_bytes(&bytes).unwrap();
    assert_eq!(log.crit_warning().into_bytes(), [bytes[0]]);
    assert!(log.has_critical_warning());
    assert_eq!(log.comp_temp() as u128, le(&bytes[1..3]));
    assert_eq!(log.avail_spare(), bytes[3]);
    assert_eq!(log.avail_spare_thresh(), bytes[4]);
    assert_eq!(log.percent_used(), bytes[5]);
    assert_eq!(log.endur_grp_crit_warning().into_bytes(), [bytes[6]]);
    assert!(log.has_endur_grp_crit_warning());
    assert_eq!(log.data_units_read(), le(&bytes[32..48]));
    assert_eq!(log.data_units_written(), le(&bytes[48..64]));
    assert_eq!(log.host_read_cmds(), le(&bytes[64..80]));
    assert_eq!(log.host_write_cmds(), le(&bytes[80..96]));
    assert_eq!(log.ctrl_busy_time(), le(&bytes[96..112]));
    assert_eq!(log.pwr_cycles(), le(&bytes[112..128]));
    assert_eq!(log.pwr_on_hrs(), le(&bytes[128..144]));
    assert_eq!(log.unsafe_shutdowns(), le(&bytes[144..160]));
    assert_eq!(log.mad_integrity_errs(), le(&bytes[160..176]));
    assert_eq!(log.num_err_log_entries(), le(&bytes[176..192]));
    assert_eq!(log.warning_comp_temp_time() as u128, le(&bytes[192..196]));
    assert_eq!(log.crit_comp_temp_time() as u128, le(&bytes[196..200]));
    let sensors = log.temp_sensors();
    for i in 0..8 {
        assert_eq!(sensors[i] as u128, le(&bytes[200 + 2 * i..202 + 2 * i]));
    }
    let counts = log.therm_mgmt_temp_transition_cnts();
    let times = log.total_time_therm_mgmt_temp();
    for i in 0..2 {
        assert_eq!(counts[i] as u128, le(&bytes[216 + 4 * i..220 + 4 * i]));
        assert_eq!(times[i] as u128, le(&bytes[224 + 4 * i..228 + 4 * i]));
    }
}

#[test]
fn smart_log_warnings() {
    let mut bytes = vec![0u8; 512];
    let log = SmartLog::from_bytes(&bytes).unwrap();
    assert!(!log.has_critical_warning());
    assert!(!log.has_endur_grp_crit_warning());
    bytes[0] = 0b0010_1001;
    bytes[6] = 0b0000_1100;
    let log = SmartLog::from_bytes(&bytes).unwrap();
    assert!(log.has_critical_warning());
    let warning = log.crit_warning();
    assert!(warning.spare_cap_below_thresh());
    assert!(!warning.temp_out_of_thresh());
    assert!(!warning.nvm_subsys_degraded());
    assert!(warning.readonly());
    assert!(!warning.volatile_mem_backup_failed());
    assert!(warning.pmr_readonly());
    assert!(log.has_endur_grp_crit_warning());
    let warning = log.endur_grp_crit_warning();
    assert!(!warning.spare_cap_below_thresh());
    assert!(warning.nvm_subsys_degraded());
    assert!(warning.readonly());
}

#[test]
fn id_nmsp_fields() {
    let bytes = patterned(4096);
    let id = IdNmsp::from_bytes(&bytes).unwrap();
    assert_eq!(id.nsze() as u128, le(&bytes[0..8]));
    assert_eq!(id.ncap() as u128, le(&bytes[8..16]));
    assert_eq!(id.nuse() as u128, le(&bytes[16..24]));
    assert_eq!(id.nsfeat().into_bytes(), [bytes[24]]);
    assert_eq!(id.nlbaf(), bytes[25]);
    assert_eq!(id.flbas().into_bytes(), [bytes[26]]);
    assert_eq!(id.flbas().format_index(), bytes[26] & 0x0f);
    assert_eq!(id.flbas().extended_data_lba(), bytes[26] & 0x10 != 0);
    assert_eq!(id.mc().into_bytes(), [bytes[27]]);
    assert_eq!(id.dpc().into_bytes(), [bytes[28]]);
    assert_eq!(id.nmic().into_bytes(), [bytes[30]]);
    assert_eq!(id.rescap().into_bytes(), [bytes[31]]);
    assert_eq!(id.fpi().into_bytes(), [bytes[32]]);
    assert_eq!(id.fpi().percent_remaining(), bytes[32] & 0x7f);
    assert_eq!(id.fpi().supported(), bytes[32] & 0x80 != 0);
    assert_eq!(id.dlfeat().into_bytes(), [bytes[33]]);
    assert_eq!(id.dlfeat().dealloc_read_behavior(), bytes[33] & 7);
}

#[test]
fn id_ctrl_fields() {
    let mut bytes = patterned(4096);
    bytes[4..24].copy_from_slice(b"S3EVNX0K123456      ");
    bytes[64..72].copy_from_slice(b"EXA7301Q");
    let id = IdCtrl::from_bytes(&bytes).unwrap();
    assert_eq!(id.vid() as u128, le(&bytes[0..2]));
    assert_eq!(id.ssvid() as u128, le(&bytes[2..4]));
    assert_eq!(id.sn().to_string_lossy(), "S3EVNX0K123456      ");
    assert_eq!(id.mn().as_bytes(), &bytes[24..64]);
    assert_eq!(id.fr().to_string_lossy(), "EXA7301Q");
    assert_eq!(id.rab(), bytes[72]);
    assert_eq!(u32::from(id.ieee()) as u128, le(&bytes[73..76]));
    assert_eq!(id.cmic().into_bytes(), [bytes[76]]);
    assert_eq!(id.mdts(), bytes[77]);
    assert_eq!(id.cntlid() as u128, le(&bytes[78..80]));
    assert_eq!(id.ver() as u128, le(&bytes[80..84]));
    assert_eq!(id.rtd3r() as u128, le(&bytes[84..88]));
    assert_eq!(id.rtd3e() as u128, le(&bytes[88..92]));
    assert_eq!(id.oaes().into_bytes(), bytes[92..96]);
    assert_eq!(id.ctrattr().into_bytes(), bytes[96..100]);
    let rrls = id.rrls();
    for i in 0..16 {
        assert_eq!(rrls.get(i), Some(bytes[100 + i / 8] & (1 << (i % 8)) != 0));
    }
    assert_eq!(rrls.get(16), None);
    assert_eq!(id.cntrltype().to_u8(), bytes[111]);
    assert_eq!(id.fguid(), le(&bytes[112..128]));
    let crdt = id.crdt();
    for i in 0..3 {
        assert_eq!(crdt[i] as u128, le(&bytes[128 + 2 * i..130 + 2 * i]));
    }
    assert_eq!(id.nvmsr().into_bytes(), [bytes[253]]);
    assert_eq!(id.vwci().into_bytes(), [bytes[254]]);
    assert_eq!(id.mec().into_bytes(), [bytes[255]]);
    assert_eq!(id.oacs().into_bytes(), bytes[256..258]);
    assert_eq!(id.acl(), bytes[258]);
    assert_eq!(id.aerl(), bytes[259]);
    assert_eq!(id.frmw().into_bytes(), [bytes[260]]);
    assert_eq!(id.lpa().into_bytes(), [bytes[261]]);
    assert_eq!(id.elpe(), bytes[262]);
    assert_eq!(id.npss(), bytes[263]);
    assert_eq!(id.avscc().into_bytes(), [bytes[264]]);
    assert_eq!(id.apsta().into_bytes(), [bytes[265]]);
    assert_eq!(id.wctemp() as u128, le(&bytes[266..268]));
    assert_eq!(id.cctemp() as u128, le(&bytes[268..270]));
    assert_eq!(id.mtfa() as u128, le(&bytes[270..272]));
    assert_eq!(id.hmpre() as u128, le(&bytes[272..276]));
    assert_eq!(id.hmmin() as u128, le(&bytes[276..280]));
    assert_eq!(id.tnvmcap(), le(&bytes[280..296]));
    assert_eq!(id.unvmcap(), le(&bytes[296..312]));
    assert_eq!(id.rpmbs().into_bytes(), bytes[312..316]);
    assert_eq!(id.edst() as u128, le(&bytes[316..318]));
    assert_eq!(id.dsto().into_bytes(), [bytes[318]]);
    assert_eq!(id.fwug(), bytes[319]);
    assert_eq!(id.kas() as u128, le(&bytes[320..322]));
    assert_eq!(id.hctma().into_bytes(), bytes[322..324]);
    assert_eq!(id.mntmt() as u128, le(&bytes[324..326]));
    assert_eq!(id.mxtmt() as u128, le(&bytes[326..328]));
    assert_eq!(id.sanicap().into_bytes(), bytes[328..332]);
    assert_eq!(id.hmminds() as u128, le(&bytes[332..336]));
    assert_eq!(id.hmmaxd() as u128, le(&bytes[336..338]));
    assert_eq!(id.nsetidmax() as u128, le(&bytes[338..340]));
    assert_eq!(id.endgidmax() as u128, le(&bytes[340..342]));
    assert_eq!(id.anatt(), bytes[342]);
    assert_eq!(id.anacap().into_bytes(), [bytes[343]]);
    assert_eq!(id.anagrpmax() as u128, le(&bytes[344..348]));
    assert_eq!(id.nanagrpid() as u128, le(&bytes[348..352]));
    assert_eq!(id.pels() as u128, le(&bytes[352..356]));
    assert_eq!(id.sqes().into_bytes(), [bytes[512]]);
    assert_eq!(id.cqes().into_bytes(), [bytes[513]]);
    assert_eq!(id.maxcmd() as u128, le(&bytes[514..516]));
    assert_eq!(id.nn() as u128, le(&bytes[516..520]));
    assert_eq!(id.oncs().into_bytes(), bytes[520..522]);
    assert_eq!(id.fuses().into_bytes(), bytes[522..524]);
    assert_eq!(id.fna().into_bytes(), [bytes[524]]);
    assert_eq!(id.vwc(), bytes[525]);
    assert_eq!(id.awun() as u128, le(&bytes[526..528]));
    assert_eq!(id.awupf() as u128, le(&bytes[528..530]));
    assert_eq!(id.nvscc().into_bytes(), [bytes[530]]);
    assert_eq!(id.nwpc().into_bytes(), [bytes[531]]);
    assert_eq!(id.acwu() as u128, le(&bytes[532..534]));
    assert_eq!(id.sgls().into_bytes(), bytes[536..540]);
    assert_eq!(id.mnan() as u128, le(&bytes[540..544]));
    assert_eq!(id.subnqn().as_bytes(), &bytes[768..1024]);
    let states = id.psds();
    for (i, state) in states.iter().enumerate() {
        assert_eq!(state.into_bytes(), bytes[2048 + 32 * i..2080 + 32 * i]);
    }
}

#[test]
fn id_ctrl_bit_fields() {
    let mut bytes = vec![0u8; 4096];
    bytes[76] = 0b0000_1010; // cmic
    bytes[93] = 0b0101_1001; // oaes, bits 8 to 15
    bytes[260] = 0b0001_0111; // frmw
    bytes[312..316].copy_from_slice(&[0b0010_1011, 0, 0x40, 0x80]); // rpmbs
    bytes[512] = 0x76; // sqes
    bytes[328..332].copy_from_slice(&[0b101, 0, 0, 0b1010_0000]); // sanicap
    bytes[536..540].copy_from_slice(&[0b110, 0, 0b0010_0101, 0]); // sgls
    let id = IdCtrl::from_bytes(&bytes).unwrap();
    let cmic = id.cmic();
    assert!(!cmic.multiple_subsys());
    assert!(cmic.multiple_ctrls());
    assert!(!cmic.sr_iov());
    assert!(cmic.asym_nmsp_access_reporting());
    let oaes = id.oaes();
    assert!(oaes.nmsp_attr());
    assert!(!oaes.fw_activation());
    assert!(oaes.asym_nmsp_access());
    assert!(oaes.predictable_latency_aggregate());
    assert!(!oaes.lba_status_info());
    assert!(oaes.endur_grp_aggregate());
    let frmw = id.frmw();
    assert!(frmw.slot_1_ro());
    assert_eq!(frmw.num_fw_slots(), 3);
    assert!(frmw.fw_activate_without_reset());
    let rpmbs = id.rpmbs();
    assert_eq!(rpmbs.num_rpmb_units(), 3);
    assert_eq!(rpmbs.auth_method(), 5);
    assert_eq!(rpmbs.total_size(), 0x40);
    assert_eq!(rpmbs.access_size(), 0x80);
    assert_eq!(id.sqes().min(), 6);
    assert_eq!(id.sqes().max(), 7);
    let sanicap = id.sanicap();
    assert!(sanicap.ces());
    assert!(!sanicap.bes());
    assert!(sanicap.ows());
    assert!(sanicap.ndi());
    assert_eq!(sanicap.nodmmas(), Nodmmas::Modified);
    let sgls = id.sgls();
    assert_eq!(sgls.support(), SglsType::SupportedAligned);
    assert!(sgls.keyed());
    assert!(sgls.bit_bucket());
    assert!(!sgls.meta_byte_aligned_contigious());
    assert!(sgls.oversized_buffer());
    assert!(!sgls.meta_singular_sgl());
    assert!(!sgls.addr_field());
    assert!(sgls.transport_descriptor());
}

#[test]
fn enumerated_fields_have_a_variant_for_every_pattern() {
    let nodmmas = [Nodmmas::Undefined, Nodmmas::NotModified, Nodmmas::Modified, Nodmmas::_Reserved];
    let support = [
        SglsType::NotSupported,
        SglsType::Supported,
        SglsType::SupportedAligned,
        SglsType::_Reserved,
    ];
    for code in 0u8..4 {
        assert_eq!(Nodmmas::from_u8(code), Some(nodmmas[code as usize]));
        assert_eq!(nodmmas[code as usize].to_u8(), code);
        assert_eq!(SglsType::from_u8(code), Some(support[code as usize]));
        assert_eq!(support[code as usize].to_u8(), code);
        assert_eq!(Sanicap::from_bytes([0, 0, 0, code << 6]).nodmmas(), nodmmas[code as usize]);
        assert_eq!(Sgls::from_bytes([code, 0, 0, 0]).support(), support[code as usize]);
    }
    for code in 4u8..=255 {
        assert_eq!(Nodmmas::from_u8(code), None);
        assert_eq!(SglsType::from_u8(code), None);
    }
    assert_eq!(CtrlType::from_u8(0), CtrlType::NotReported);
    assert_eq!(CtrlType::from_u8(1), CtrlType::IoCtrl);
    assert_eq!(CtrlType::from_u8(2), CtrlType::DiscoveryCtrl);
    assert_eq!(CtrlType::from_u8(3), CtrlType::AdminCtrl);
    assert_eq!(CtrlType::from_u8(4), CtrlType::_Reserved(4));
    for code in 0u8..=255 {
        assert_eq!(CtrlType::from_u8(code).to_u8(), code);
    }
}

#[test]
fn ieee_identifier() {
    let ieee = Ieee::from(0x12ab_cdefu32);
    assert_eq!(u32::from(ieee), 0x00ab_cdef);
    assert_eq!(u32::from(Ieee::from_array([0x01, 0x02, 0x03])), 0x0003_0201);
    assert_eq!(u32::from(Ieee::from(0)), 0);
    assert_eq!(u32::from(Ieee::from(0x00ff_ffff)), 0x00ff_ffff);
    assert_eq!(mem::size_of::<Ieee>(), 3);
}

#[test]
fn power_state_fields() {
    let mut bytes = [0u8; 32];
    bytes[0..2].copy_from_slice(&0x1234u16.to_le_bytes()); // mp
    bytes[3] = 0b10; // nops
    bytes[4..8].copy_from_slice(&0xdead_beefu32.to_le_bytes()); // enlat
    bytes[8..12].copy_from_slice(&0xcafe_f00du32.to_le_bytes()); // exlat
    bytes[12] = 31; // rrt
    bytes[13] = 17; // rrl
    bytes[14] = 1; // rwt
    bytes[15] = 30; // rwl
    bytes[16..18].copy_from_slice(&0x4321u16.to_le_bytes()); // idlp
    bytes[18] = 0b1000_0000; // ips
    bytes[20..22].copy_from_slice(&0xabcdu16.to_le_bytes()); // actp
    bytes[22] = 0b0100_0101; // aps, apw
    let state = PowerState::from_bytes(bytes);
    assert_eq!(state.mp(), 0x1234);
    assert!(!state.mxps());
    assert!(state.nops());
    assert_eq!(state.enlat(), 0xdead_beef);
    assert_eq!(state.exlat(), 0xcafe_f00d);
    assert_eq!(state.rrt(), 31);
    assert_eq!(state.rrl(), 17);
    assert_eq!(state.rwt(), 1);
    assert_eq!(state.rwl(), 30);
    assert_eq!(state.idlp(), 0x4321);
    assert_eq!(state.ips(), 2);
    assert_eq!(state.actp(), 0xabcd);
    assert_eq!(state.apw(), 5);
    assert_eq!(state.aps(), 1);
    assert_eq!(state.into_bytes(), bytes);
    assert_eq!(PowerState::new().into_bytes(), [0u8; 32]);
    assert_eq!(PowerState::read(&[[0xffu8; 8].as_slice(), bytes.as_slice()].concat(), 8), state);
}

#[test]
fn power_state_packing() {
    let unpacked = PowerStateUnpacked {
        mp: 0x1234,
        mxps: true,
        nops: false,
        enlat: 0xdead_beef,
        exlat: 0xcafe_f00d,
        rrt: 31,
        rrl: 17,
        rwt: 1,
        idlp: 0x4321,
        ips: 2,
        actp: 0xabcd,
        apw: 5,
        aps: 1,
    };
    let state = PowerState::try_from(unpacked).unwrap();
    let mut bytes = [0u8; 32];
    bytes[0..2].copy_from_slice(&0x1234u16.to_le_bytes());
    bytes[3] = 0b01;
    bytes[4..8].copy_from_slice(&0xdead_beefu32.to_le_bytes());
    bytes[8..12].copy_from_slice(&0xcafe_f00du32.to_le_bytes());
    bytes[12] = 31;
    bytes[13] = 17;
    bytes[14] = 1;
    bytes[16..18].copy_from_slice(&0x4321u16.to_le_bytes());
    bytes[18] = 0b1000_0000;
    bytes[20..22].copy_from_slice(&0xabcdu16.to_le_bytes());
    bytes[22] = 0b0100_0101;
    assert_eq!(state.into_bytes(), bytes);
    assert_eq!(state.rwl(), 0);
    assert_eq!(PowerStateUnpacked::from(state), unpacked);

    assert_eq!(PowerState::try_from(PowerStateUnpacked { rrt: 32, ..unpacked }), Err(32));
    assert_eq!(PowerState::try_from(PowerStateUnpacked { rrl: 33, ..unpacked }), Err(33));
    assert_eq!(PowerState::try_from(PowerStateUnpacked { rwt: 34, ..unpacked }), Err(34));
    assert_eq!(PowerState::try_from(PowerStateUnpacked { ips: 4, ..unpacked }), Err(4));
    assert_eq!(PowerState::try_from(PowerStateUnpacked { apw: 8, ..unpacked }), Err(8));
    assert_eq!(PowerState::try_from(PowerStateUnpacked { aps: 5, ..unpacked }), Err(5));
    assert_eq!(
        PowerState::try_from(PowerStateUnpacked { rrl: 40, aps: 9, rrt: 77, ..unpacked }),
        Err(77)
    );
    assert_eq!(PowerState::new().with_rwl(32), Err(32));
    assert_eq!(PowerState::new().with_rwl(31).unwrap().rwl(), 31);
}

#[test]
fn power_state_builders_write_only_their_field() {
    let all = PowerState::from_bytes([0xff; 32]);
    let mut expected = [0xffu8; 32];
    expected[0] = 0;
    expected[1] = 0;
    assert_eq!(all.with_mp(0).into_bytes(), expected);
    let mut expected = [0xffu8; 32];
    expected[3] = 0xfe;
    assert_eq!(all.with_mxps(false).into_bytes(), expected);
    let mut expected = [0xffu8; 32];
    expected[15] = 0xe0;
    assert_eq!(all.with_rwl(0).unwrap().into_bytes(), expected);
    let mut expected = [0xffu8; 32];
    expected[18] = 0x3f;
    assert_eq!(all.with_ips(0).unwrap().into_bytes(), expected);
    let mut expected = [0xffu8; 32];
    expected[22] = 0b0011_1111;
    assert_eq!(all.with_aps(0).unwrap().into_bytes(), expected);
}

#[test]
fn bit_field_builders_write_only_their_field() {
    assert_eq!(Cmic::new().with_multiple_ctrls(true).into_bytes(), [0b0000_0010]);
    assert_eq!(Cmic::from_bytes([0xff]).with_sr_iov(false).into_bytes(), [0b1111_1011]);
    assert!(Cmic::new().with_asym_nmsp_access_reporting(true).asym_nmsp_access_reporting());
    assert_eq!(Oaes::new().with_endur_grp_aggregate(true).into_bytes(), [0, 0x40, 0, 0]);
    assert_eq!(
        Oaes::from_bytes([0xff; 4]).with_nmsp_attr(false).into_bytes(),
        [0xff, 0xfe, 0xff, 0xff]
    );
    assert_eq!(Hctma::from_bytes([0xff, 0xff]).with_host_thermal_mgmt(false).into_bytes(), [0xfe, 0xff]);
    assert_eq!(Frmw::new().with_num_fw_slots(7).unwrap().into_bytes(), [0b0000_1110]);
    assert_eq!(Frmw::from_bytes([0xff]).with_num_fw_slots(0).unwrap().into_bytes(), [0b1111_0001]);
    assert_eq!(Frmw::new().with_num_fw_slots(8), Err(8));
    assert_eq!(Fpi::new().with_percent_remaining(127).unwrap().into_bytes(), [0x7f]);
    assert_eq!(Fpi::new().with_percent_remaining(128), Err(128));
    assert_eq!(QueueEntrySize::new().with_max(6).unwrap().with_min(4).unwrap().into_bytes(), [0x64]);
    assert_eq!(QueueEntrySize::new().with_max(16), Err(16));
    assert_eq!(Rpmbs::new().with_total_size(0xab).into_bytes(), [0, 0, 0xab, 0]);
    assert_eq!(Rpmbs::new().with_access_size(0xcd).into_bytes(), [0, 0, 0, 0xcd]);
    assert_eq!(Rpmbs::new().with_auth_method(5).unwrap().into_bytes(), [0b0010_1000, 0, 0, 0]);
    assert_eq!(Rpmbs::new().with_auth_method(9), Err(9));
    assert_eq!(
        Sanicap::new().with_nodmmas(Nodmmas::Modified).into_bytes(),
        [0, 0, 0, 0b1000_0000]
    );
    assert_eq!(
        Sanicap::from_bytes([0xff; 4]).with_nodmmas(Nodmmas::Undefined).into_bytes(),
        [0xff, 0xff, 0xff, 0x3f]
    );
    assert_eq!(Sgls::new().with_support(SglsType::_Reserved).into_bytes(), [3, 0, 0, 0]);
    assert_eq!(
        CriticalWarning::new().with_pmr_readonly(true).with_readonly(true).into_bytes(),
        [0b0010_1000]
    );
}

#[test]
fn every_flag_of_a_byte_reads_back_after_it_is_written() {
    for raw in 0u8..=255 {
        let field = Cmic::from_bytes([raw]);
        for flag in [false, true] {
            let changed = field.with_multiple_subsys(flag);
            assert_eq!(changed.multiple_subsys(), flag);
            assert_eq!(changed.multiple_ctrls(), field.multiple_ctrls());
            assert_eq!(changed.sr_iov(), field.sr_iov());
            assert_eq!(changed.into_bytes()[0] & 0xfe, raw & 0xfe);
            let changed = field.with_asym_nmsp_access_reporting(flag);
            assert_eq!(changed.asym_nmsp_access_reporting(), flag);
            assert_eq!(changed.into_bytes()[0] & 0xf7, raw & 0xf7);
        }
        let slots = Frmw::from_bytes([raw]);
        for value in 0u8..8 {
            let changed = slots.with_num_fw_slots(value).unwrap();
            assert_eq!(changed.num_fw_slots(), value);
            assert_eq!(changed.slot_1_ro(), slots.slot_1_ro());
            assert_eq!(changed.fw_activate_without_reset(), slots.fw_activate_without_reset());
            assert_eq!(changed.into_bytes()[0] & 0xf1, raw & 0xf1);
        }
    }
}
