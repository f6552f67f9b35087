use nvme::{
    CmdSpecificStatus, GenericStatus, MadIntegrityStatus, PathRelatedStatus, StatusCode,
    StatusCodeType, StatusField, StatusFieldUnpacked,
};

const ALL_TYPES: [StatusCodeType; 8] = [
    StatusCodeType::Generic,
    StatusCodeType::CmdSpecific,
    StatusCodeType::MadIntegrity,
    StatusCodeType::PathRelated,
    StatusCodeType::_Reserved4,
    StatusCodeType::_Reserved5,
    StatusCodeType::_Reserved6,
    StatusCodeType::VndrSpecific,
];

#[test]
fn test_from_bytes() {
    assert_eq!(
        StatusField::from_bytes([0b0000_0010, 0b0000_0000]).status_code(),
        StatusCode::Generic(GenericStatus::InvalidCmdOpcode)
    );
    assert_eq!(
        StatusField::from_bytes([0b0000_0000, 0b0000_0000]).status_code(),
        StatusCode::Generic(GenericStatus::Success)
    );
    assert!(StatusField::from_bytes([0b0000_0000, 0b0000_0000]).successful());
    assert!(!StatusField::from_bytes([0b0000_0010, 0b0000_0000]).successful());
    assert!(!StatusField::from_bytes([0b0000_0010, 0b0000_0000]).successful());
    assert_eq!(
        StatusField::from_bytes([0b0010_1110, 0b0000_0000]).status_code(),
        StatusCode::Unknown(StatusCodeType::Generic, 0x17)
    );
}

#[test]
fn status_code_type_fills_its_three_bits() {
    for code in 0u8..8 {
        let sct = StatusCodeType::from_u8(code).expect("every pattern is a variant");
        assert_eq!(sct.to_u8(), code);
        assert_eq!(sct, ALL_TYPES[code as usize]);
    }
    for code in 8u8..=255 {
        assert_eq!(StatusCodeType::from_u8(code), None);
    }
}

#[test]
fn status_tables_are_inverse_to_the_codes() {
    let mut generic = 0;
    let mut cmd_specific = 0;
    let mut mad_integrity = 0;
    let mut path_related = 0;
    for code in 0u8..=255 {
        if let Some(status) = GenericStatus::from_u8(code) {
            assert_eq!(status.to_u8(), code);
            generic += 1;
        }
        if let Some(status) = CmdSpecificStatus::from_u8(code) {
            assert_eq!(status.to_u8(), code);
            cmd_specific += 1;
        }
        if let Some(status) = MadIntegrityStatus::from_u8(code) {
            assert_eq!(status.to_u8(), code);
            mad_integrity += 1;
        }
        if let Some(status) = PathRelatedStatus::from_u8(code) {
            assert_eq!(status.to_u8(), code);
            path_related += 1;
        }
    }
    assert_eq!(generic, 39);
    assert_eq!(cmd_specific, 39);
    assert_eq!(mad_integrity, 8);
    assert_eq!(path_related, 7);
}

#[test]
fn status_tables_hold_the_assigned_codes() {
    assert_eq!(GenericStatus::from_u8(0x00), Some(GenericStatus::Success));
    assert_eq!(GenericStatus::from_u8(0x01), Some(GenericStatus::InvalidCmdOpcode));
    assert_eq!(GenericStatus::from_u8(0x16), Some(GenericStatus::SglOffsetInvalid));
    assert_eq!(GenericStatus::from_u8(0x17), None);
    assert_eq!(GenericStatus::from_u8(0x18), Some(GenericStatus::HostIdInconsistentFormat));
    assert_eq!(GenericStatus::from_u8(0x22), Some(GenericStatus::TransientTransportErr));
    assert_eq!(GenericStatus::from_u8(0x23), None);
    assert_eq!(GenericStatus::from_u8(0x80), Some(GenericStatus::LbaOutOfRange));
    assert_eq!(GenericStatus::from_u8(0x84), Some(GenericStatus::FormatInProgress));
    assert_eq!(GenericStatus::from_u8(0x85), None);
    assert_eq!(GenericStatus::SanitizeInProgress.to_u8(), 0x1d);

    assert_eq!(CmdSpecificStatus::from_u8(0x00), Some(CmdSpecificStatus::CompletionQueueInvalid));
    assert_eq!(CmdSpecificStatus::from_u8(0x04), None);
    assert_eq!(CmdSpecificStatus::from_u8(0x17), None);
    assert_eq!(CmdSpecificStatus::from_u8(0x25), Some(CmdSpecificStatus::AnaAttachFailed));
    assert_eq!(
        CmdSpecificStatus::from_u8(0x82),
        Some(CmdSpecificStatus::AttemptedWriteToReadOnlyRange)
    );
    assert_eq!(CmdSpecificStatus::InvalidFwImage.to_u8(), 0x07);

    assert_eq!(MadIntegrityStatus::from_u8(0x7f), None);
    assert_eq!(MadIntegrityStatus::from_u8(0x80), Some(MadIntegrityStatus::WriteFault));
    assert_eq!(
        MadIntegrityStatus::from_u8(0x87),
        Some(MadIntegrityStatus::DeallocatedOrUnwrittenLogicalBlock)
    );
    assert_eq!(MadIntegrityStatus::from_u8(0x88), None);
    assert_eq!(MadIntegrityStatus::AccessDenied.to_u8(), 0x86);

    assert_eq!(PathRelatedStatus::from_u8(0x00), Some(PathRelatedStatus::InternalPathErr));
    assert_eq!(PathRelatedStatus::from_u8(0x03), Some(PathRelatedStatus::AsymAccessTransition));
    assert_eq!(PathRelatedStatus::from_u8(0x04), None);
    assert_eq!(PathRelatedStatus::from_u8(0x60), Some(PathRelatedStatus::CtrlPathingErr));
    assert_eq!(PathRelatedStatus::from_u8(0x70), Some(PathRelatedStatus::HostPathingErr));
    assert_eq!(PathRelatedStatus::from_u8(0x71), Some(PathRelatedStatus::CmdAbortedByHost));
    assert_eq!(PathRelatedStatus::CmdAbortedByHost.to_u8(), 0x71);
}

#[test]
fn decoding_table() {
    assert!(StatusField::new()
        .with_sct(StatusCodeType::Generic)
        .with_sc(0x00)
        .successful());
    assert_eq!(
        StatusCode::from_raw(StatusCodeType::Generic, 0x00),
        StatusCode::Generic(GenericStatus::Success)
    );
    assert_eq!(
        StatusCode::from_raw(StatusCodeType::Generic, 0x01),
        StatusCode::Generic(GenericStatus::InvalidCmdOpcode)
    );
    assert_eq!(
        StatusCode::from_raw(StatusCodeType::Generic, 0x17),
        StatusCode::Unknown(StatusCodeType::Generic, 0x17)
    );
    assert_eq!(
        StatusCode::from_raw(StatusCodeType::VndrSpecific, 0x42),
        StatusCode::VndrSpecific(0x42)
    );
    assert_eq!(
        StatusCode::from_raw(StatusCodeType::CmdSpecific, 0x06),
        StatusCode::CmdSpecific(CmdSpecificStatus::InvalidFwSlot)
    );
    assert_eq!(
        StatusCode::from_raw(StatusCodeType::MadIntegrity, 0x81),
        StatusCode::MadIntegrity(MadIntegrityStatus::UnrecoveredReadErr)
    );
    assert_eq!(
        StatusCode::from_raw(StatusCodeType::MadIntegrity, 0x00),
        StatusCode::Unknown(StatusCodeType::MadIntegrity, 0x00)
    );
    assert_eq!(
        StatusCode::from_raw(StatusCodeType::PathRelated, 0x02),
        StatusCode::PathRelated(PathRelatedStatus::AsymAccessInaccessible)
    );
}

#[test]
fn vendor_specific_keeps_every_code() {
    for code in 0u8..=255 {
        assert_eq!(
            StatusCode::from_raw(StatusCodeType::VndrSpecific, code),
            StatusCode::VndrSpecific(code)
        );
    }
}

#[test]
fn reserved_types_are_always_unknown() {
    for sct in [
        StatusCodeType::_Reserved4,
        StatusCodeType::_Reserved5,
        StatusCodeType::_Reserved6,
    ] {
        for code in 0u8..=255 {
            assert_eq!(StatusCode::from_raw(sct, code), StatusCode::Unknown(sct, code));
        }
    }
}

#[test]
fn decoded_status_goes_back_to_its_raw_pair() {
    for sct in ALL_TYPES {
        for code in 0u8..=255 {
            assert_eq!(StatusCode::from_raw(sct, code).into_raw(), (sct, code));
        }
    }
}

#[test]
fn into_raw_of_each_kind() {
    assert_eq!(
        StatusCode::Generic(GenericStatus::InternalErr).into_raw(),
        (StatusCodeType::Generic, 0x06)
    );
    assert_eq!(
        StatusCode::CmdSpecific(CmdSpecificStatus::InvalidLogPage).into_raw(),
        (StatusCodeType::CmdSpecific, 0x09)
    );
    assert_eq!(
        StatusCode::MadIntegrity(MadIntegrityStatus::CompareFailure).into_raw(),
        (StatusCodeType::MadIntegrity, 0x85)
    );
    assert_eq!(
        StatusCode::PathRelated(PathRelatedStatus::CtrlPathingErr).into_raw(),
        (StatusCodeType::PathRelated, 0x60)
    );
    assert_eq!(StatusCode::VndrSpecific(0xfe).into_raw(), (StatusCodeType::VndrSpecific, 0xfe));
    assert_eq!(
        StatusCode::Unknown(StatusCodeType::_Reserved5, 9).into_raw(),
        (StatusCodeType::_Reserved5, 9)
    );
}

#[test]
fn only_generic_zero_is_success() {
    for word in 0u16..=u16::MAX {
        let field = StatusField::from_bytes(word.to_le_bytes());
        let expected = field.sct() == StatusCodeType::Generic && field.sc() == 0;
        assert_eq!(field.successful(), expected);
        assert_eq!(
            field.successful(),
            field.status_code() == StatusCode::Generic(GenericStatus::Success)
        );
    }
}

#[test]
fn status_field_reads_each_field_at_its_bits() {
    // dnr 1, more 0, crd 2, sct 5, sc 0xa5, phase tag 1
    let word: u16 = (1 << 15) | (2 << 12) | (5 << 9) | (0xa5 << 1) | 1;
    let field = StatusField::from_bytes(word.to_le_bytes());
    assert!(field.phase_tag());
    assert_eq!(field.sc(), 0xa5);
    assert_eq!(field.sct(), StatusCodeType::_Reserved5);
    assert_eq!(field.crd(), 2);
    assert!(!field.more());
    assert!(field.dnr());
    assert_eq!(field.into_bytes(), word.to_le_bytes());
    assert_eq!(field.status_code(), StatusCode::Unknown(StatusCodeType::_Reserved5, 0xa5));
}

#[test]
fn status_field_builders_write_only_their_field() {
    let all = StatusField::from_bytes([0xff, 0xff]);
    assert_eq!(all.with_phase_tag(false).into_bytes(), 0xfffeu16.to_le_bytes());
    assert_eq!(all.with_sc(0).into_bytes(), 0xfe01u16.to_le_bytes());
    assert_eq!(all.with_sct(StatusCodeType::Generic).into_bytes(), 0xf1ffu16.to_le_bytes());
    assert_eq!(all.with_crd(0).unwrap().into_bytes(), 0xcfffu16.to_le_bytes());
    assert_eq!(all.with_more(false).into_bytes(), 0xbfffu16.to_le_bytes());
    assert_eq!(all.with_dnr(false).into_bytes(), 0x7fffu16.to_le_bytes());

    let none = StatusField::new();
    assert_eq!(none.into_bytes(), [0, 0]);
    assert_eq!(none.with_phase_tag(true).into_bytes(), 0x0001u16.to_le_bytes());
    assert_eq!(none.with_sc(0xff).into_bytes(), 0x01feu16.to_le_bytes());
    assert_eq!(none.with_sct(StatusCodeType::VndrSpecific).into_bytes(), 0x0e00u16.to_le_bytes());
    assert_eq!(none.with_crd(3).unwrap().into_bytes(), 0x3000u16.to_le_bytes());
    assert_eq!(none.with_more(true).into_bytes(), 0x4000u16.to_le_bytes());
    assert_eq!(none.with_dnr(true).into_bytes(), 0x8000u16.to_le_bytes());
}

#[test]
fn crd_wider_than_two_bits_is_rejected() {
    assert_eq!(StatusField::new().with_crd(4), Err(4));
    assert_eq!(StatusField::new().with_crd(255), Err(255));
    assert!(StatusField::new().with_crd(3).is_ok());
}

#[test]
fn every_status_word_survives_unpacking_and_packing() {
    for word in 0u16..=u16::MAX {
        let field = StatusField::from_bytes(word.to_le_bytes());
        let unpacked = StatusFieldUnpacked::from(field);
        assert_eq!(unpacked.phase_tag, field.phase_tag());
        assert_eq!(unpacked.status_code, field.status_code());
        assert_eq!(unpacked.crd, field.crd());
        assert_eq!(unpacked.more, field.more());
        assert_eq!(unpacked.dnr, field.dnr());
        assert_eq!(StatusField::try_from(unpacked), Ok(field));
    }
}

#[test]
fn packing_a_status_word() {
    let unpacked = StatusFieldUnpacked {
        phase_tag: true,
        status_code: StatusCode::CmdSpecific(CmdSpecificStatus::InvalidFormat),
        crd: 1,
        more: true,
        dnr: false,
    };
    let field = StatusField::try_from(unpacked).unwrap();
    // 1 + 2 * 0x0a + 512 * 1 + 4096 * 1 + 16384 * 1
    assert_eq!(field.into_bytes(), 21013u16.to_le_bytes());
    assert_eq!(StatusFieldUnpacked::from(field), unpacked);

    let unfit = StatusFieldUnpacked { crd: 7, ..unpacked };
    assert_eq!(StatusField::try_from(unfit), Err(7));

    // A status that has a name is read back by its name.
    let raw = StatusFieldUnpacked {
        status_code: StatusCode::Unknown(StatusCodeType::Generic, 0),
        ..unpacked
    };
    let back = StatusFieldUnpacked::from(StatusField::try_from(raw).unwrap());
    assert_eq!(back.status_code, StatusCode::Generic(GenericStatus::Success));
}
