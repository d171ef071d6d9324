use hibana_mgmt::payload::{
    chunk_parse, decode_slot, slot_id, HostFault, LoaderFault, PolicyStats, PolicySlot,
    StatsReply, VerifyFault, LOAD_CHUNK_MAX,
};
use hibana_mgmt::wire::CodecError;
use hibana_mgmt::{
    LoadBegin, LoadChunk, LoadReport, LoadRequest, MgmtError, Reply, Request, SlotRequest,
    StatsResp, SubscribeReq, TransitionReport,
};

#[test]
fn payload_load_chunk_decode_is_borrowed_not_fixed_buffer_copy() {
    let mut encoded = [0u8; 16];
    let chunk = LoadChunk::new(7, &[1, 2, 3, 4]);
    let len = chunk.encode_into(&mut encoded).expect("encode load chunk");
    let decoded = LoadChunk::decode_payload(&encoded[..len]).expect("decode load chunk");

    assert_eq!(decoded.offset, 7);
    assert_eq!(decoded.len(), 4);
    assert_eq!(decoded.bytes(), &[1, 2, 3, 4]);
}

#[test]
fn request_reply_surface_load_chunk_decode_is_borrowed_not_fixed_buffer_copy() {
    let mut encoded = [0u8; 16];
    let chunk = LoadChunk::new(7, &[1, 2, 3, 4]);
    let len = chunk.encode_into(&mut encoded).expect("encode load chunk");
    let decoded = LoadChunk::decode_payload(&encoded[..len]).expect("decode load chunk");

    assert_eq!(decoded.offset, 7);
    assert_eq!(decoded.len(), 4);
    assert_eq!(decoded.bytes(), &[1, 2, 3, 4]);
}

#[test]
fn load_chunk_decode_rejects_trailing_bytes() {
    let encoded = [0, 0, 0, 7, 0, 4, 1, 2, 3, 4, 0xEE];

    assert!(
        LoadChunk::decode_payload(&encoded).is_err(),
        "LoadChunk decode must be canonical and reject trailing bytes"
    );
}

#[test]
fn fixed_management_payload_decoders_accept_exact_lengths() {
    let mgmt_error = [1];
    assert_eq!(
        MgmtError::decode_payload(&mgmt_error).expect("decode MgmtError"),
        MgmtError::InvalidTransition
    );

    let invalid_slot = [0, 4];
    assert_eq!(
        MgmtError::decode_payload(&invalid_slot).expect("decode InvalidSlot"),
        MgmtError::InvalidSlot(4)
    );

    let subscribe = [0, 1];
    assert_eq!(
        SubscribeReq::decode_payload(&subscribe).expect("decode SubscribeReq"),
        SubscribeReq { flags: 1 }
    );

    let stats_resp = [0u8; 16];
    assert!(StatsResp::decode_payload(&stats_resp).is_ok());

    let policy_stats = [0u8; 38];
    assert!(PolicyStats::decode_payload(&policy_stats).is_ok());

    let transition_report = [0u8; 42];
    assert!(TransitionReport::decode_payload(&transition_report).is_ok());

    let load_report = [0u8; 4];
    assert!(LoadReport::decode_payload(&load_report).is_ok());

    let stats_reply = [0u8; 21];
    assert!(StatsReply::decode_payload(&stats_reply).is_ok());

    let load_begin = [0u8; 13];
    assert!(LoadBegin::decode_payload(&load_begin).is_ok());

    let slot_request = [0];
    assert!(SlotRequest::decode_payload(&slot_request).is_ok());
}

#[test]
fn fixed_management_payload_decoders_reject_trailing_bytes() {
    let mgmt_error = [1, 0xEE];
    assert!(
        MgmtError::decode_payload(&mgmt_error).is_err(),
        "single-byte MgmtError must reject trailing bytes"
    );

    let invalid_slot = [0, 4, 0xEE];
    assert!(
        MgmtError::decode_payload(&invalid_slot).is_err(),
        "InvalidSlot MgmtError must reject trailing bytes"
    );

    let chunk_error = [2, 0, 0, 0, 1, 0, 0, 0, 2, 0xEE];
    assert!(
        MgmtError::decode_payload(&chunk_error).is_err(),
        "wide MgmtError must reject trailing bytes"
    );

    let subscribe = [0, 1, 0xEE];
    assert!(
        SubscribeReq::decode_payload(&subscribe).is_err(),
        "SubscribeReq must reject trailing bytes"
    );

    let stats_resp = [0u8; 17];
    assert!(
        StatsResp::decode_payload(&stats_resp).is_err(),
        "StatsResp must reject trailing bytes"
    );

    let policy_stats = [0u8; 39];
    assert!(
        PolicyStats::decode_payload(&policy_stats).is_err(),
        "PolicyStats must reject trailing bytes"
    );

    let transition_report = [0u8; 43];
    assert!(
        TransitionReport::decode_payload(&transition_report).is_err(),
        "TransitionReport must reject trailing bytes"
    );

    let load_report = [0u8; 5];
    assert!(
        LoadReport::decode_payload(&load_report).is_err(),
        "LoadReport must reject trailing bytes"
    );

    let stats_reply = [0u8; 22];
    assert!(
        StatsReply::decode_payload(&stats_reply).is_err(),
        "StatsReply must reject trailing bytes"
    );

    let load_begin = [0u8; 14];
    assert!(
        LoadBegin::decode_payload(&load_begin).is_err(),
        "LoadBegin must reject trailing bytes"
    );

    let slot_request = [0, 0xEE];
    assert!(
        SlotRequest::decode_payload(&slot_request).is_err(),
        "SlotRequest must reject trailing bytes"
    );
}

#[test]
fn request_reply_payload_surface_stays_available() {
    let _request = Request::LoadAndActivate(LoadRequest {
        slot: PolicySlot::Rendezvous,
        code: &[0x30, 0x03, 0x00, 0x01],
        fuel_max: 64,
        mem_len: 128,
    });
}

#[test]
fn observe_stream_payload_surface_stays_available() {
    let _subscribe = SubscribeReq::default();
    let _tap = hibana_mgmt::observe_stream::TapRecord::default();
}

#[test]
fn mgmt_error_wire_images_are_exact() {
    let cases: [(MgmtError, &[u8]); 13] = [
        (MgmtError::InvalidSlot(9), &[0, 9]),
        (MgmtError::InvalidTransition, &[1]),
        (
            MgmtError::ChunkOutOfOrder { expected: 0x0102_0304, got: 0x0A0B_0C0D },
            &[2, 1, 2, 3, 4, 0x0A, 0x0B, 0x0C, 0x0D],
        ),
        (
            MgmtError::ChunkTooLarge { remaining: 5, provided: 0xFFFF_FFFF },
            &[3, 0, 0, 0, 5, 0xFF, 0xFF, 0xFF, 0xFF],
        ),
        (MgmtError::LoaderNotFinalised, &[4]),
        (MgmtError::NoStagedImage, &[5]),
        (MgmtError::NoActiveImage, &[6]),
        (MgmtError::NoPreviousImage, &[7]),
        (MgmtError::CapabilityMismatch, &[8]),
        (MgmtError::ObserveUnavailable, &[9]),
        (MgmtError::HostInstallFailed, &[10]),
        (MgmtError::HostUninstallFailed, &[11]),
        (MgmtError::StreamEnded, &[12]),
    ];
    for (err, image) in cases.iter() {
        let mut out = [0xAAu8; 12];
        let n = err.encode_into(&mut out).expect("encode MgmtError");
        assert_eq!(n, image.len());
        assert_eq!(err.encoded_len(), Some(image.len()));
        assert_eq!(&out[..n], *image);
        assert!(out[n..].iter().all(|b| *b == 0xAA));
        assert_eq!(MgmtError::decode_payload(image), Ok(*err));
    }
}

#[test]
fn mgmt_error_decode_errors() {
    assert_eq!(MgmtError::decode_payload(&[]), Err(CodecError::Truncated));
    assert_eq!(
        MgmtError::decode_payload(&[13]),
        Err(CodecError::Invalid("unknown management error tag"))
    );
    assert_eq!(MgmtError::decode_payload(&[2, 0, 0]), Err(CodecError::Truncated));
    assert_eq!(
        MgmtError::decode_payload(&[5, 5]),
        Err(CodecError::Invalid("trailing bytes after MgmtError"))
    );
}

#[test]
fn encoders_refuse_short_buffers_and_leave_them_alone() {
    let mut out = [0x11u8; 8];
    assert_eq!(
        MgmtError::ChunkTooLarge { remaining: 1, provided: 2 }.encode_into(&mut out),
        Err(CodecError::Truncated)
    );
    assert_eq!(out, [0x11u8; 8]);

    let mut out = [0x22u8; 15];
    assert_eq!(StatsResp::default().encode_into(&mut out), Err(CodecError::Truncated));
    assert_eq!(out, [0x22u8; 15]);

    let mut out: [u8; 0] = [];
    assert_eq!(
        SlotRequest { slot: PolicySlot::Route }.encode_into(&mut out),
        Err(CodecError::Truncated)
    );
}

#[test]
fn stats_resp_image_is_big_endian_in_field_order() {
    let v = StatsResp { traps: 1, aborts: 0x0200, fuel_used: 0x03_0000, active_version: 0x0400_0000 };
    let mut out = [0u8; 20];
    assert_eq!(v.encode_into(&mut out), Ok(16));
    assert_eq!(
        &out[..16],
        &[0, 0, 0, 1, 0, 0, 2, 0, 0, 3, 0, 0, 4, 0, 0, 0]
    );
    assert_eq!(&out[16..], &[0, 0, 0, 0]);
    assert_eq!(StatsResp::decode_payload(&out[..16]), Ok(v));
    assert_eq!(StatsResp::decode_payload(&out[..15]), Err(CodecError::Truncated));
    assert_eq!(
        StatsResp::decode_payload(&out[..17]),
        Err(CodecError::Invalid("trailing bytes after StatsResp"))
    );
}

#[test]
fn policy_stats_roundtrip_and_presence_bytes() {
    let v = PolicyStats {
        aborts: 1,
        traps: 2,
        annotations: 3,
        effects: 4,
        effects_ok: 5,
        commits: 6,
        reverts: 7,
        last_commit: Some(0x0102_0304),
        last_revert: None,
    };
    let mut out = [0xFFu8; 38];
    assert_eq!(v.encode_into(&mut out), Ok(38));
    assert_eq!(&out[28..32], &[1, 2, 3, 4]);
    assert_eq!(out[32], 1);
    assert_eq!(&out[33..37], &[0, 0, 0, 0]);
    assert_eq!(out[37], 0);
    assert_eq!(PolicyStats::decode_payload(&out), Ok(v));

    // Any non-zero presence byte reads as present.
    out[37] = 7;
    out[36] = 9;
    let d = PolicyStats::decode_payload(&out).expect("decode PolicyStats");
    assert_eq!(d.last_revert, Some(9));
}

#[test]
fn transition_report_embeds_policy_stats() {
    let stats = PolicyStats { commits: 3, last_revert: Some(1), ..PolicyStats::default() };
    let v = TransitionReport { version: 0x0A0B_0C0D, policy_stats: stats };
    let mut out = [0u8; 42];
    assert_eq!(v.encode_into(&mut out), Ok(42));
    assert_eq!(&out[..4], &[0x0A, 0x0B, 0x0C, 0x0D]);
    let mut inner = [0u8; 38];
    stats.encode_into(&mut inner).expect("encode PolicyStats");
    assert_eq!(&out[4..], &inner[..]);
    assert_eq!(TransitionReport::decode_payload(&out), Ok(v));
    assert_eq!(v.encoded_len(), Some(42));
}

#[test]
fn stats_reply_and_load_report_roundtrip() {
    let v = StatsReply {
        stats: StatsResp { traps: 9, aborts: 8, fuel_used: 7, active_version: 6 },
        staged_version: Some(0x1234_5678),
    };
    let mut out = [0u8; 21];
    assert_eq!(v.encode_into(&mut out), Ok(21));
    assert_eq!(out[16], 1);
    assert_eq!(&out[17..21], &[0x12, 0x34, 0x56, 0x78]);
    assert_eq!(StatsReply::decode_payload(&out), Ok(v));

    let none = StatsReply { stats: StatsResp::default(), staged_version: None };
    assert_eq!(none.encode_into(&mut out), Ok(21));
    assert_eq!(out, [0u8; 21]);
    assert_eq!(StatsReply::decode_payload(&out), Ok(none));

    let report = LoadReport { staged_version: 0xDEAD_BEEF };
    let mut out = [0u8; 4];
    assert_eq!(report.encode_into(&mut out), Ok(4));
    assert_eq!(out, [0xDE, 0xAD, 0xBE, 0xEF]);
    assert_eq!(LoadReport::decode_payload(&out), Ok(report));
}

#[test]
fn load_begin_and_slot_request_roundtrip() {
    let v = LoadBegin {
        slot: PolicySlot::EndpointTx,
        code_len: 0x0000_0400,
        fuel_max: 0x0102,
        mem_len: 0x0304,
        hash: 0xCAFE_F00D,
    };
    let mut out = [0u8; 13];
    assert_eq!(v.encode_into(&mut out), Ok(13));
    assert_eq!(out, [2, 0, 0, 4, 0, 1, 2, 3, 4, 0xCA, 0xFE, 0xF0, 0x0D]);
    assert_eq!(LoadBegin::decode_payload(&out), Ok(v));

    out[0] = 5;
    assert_eq!(
        LoadBegin::decode_payload(&out),
        Err(CodecError::Invalid("unknown management slot"))
    );

    for (slot, code) in [
        (PolicySlot::Forward, 0u8),
        (PolicySlot::EndpointRx, 1),
        (PolicySlot::EndpointTx, 2),
        (PolicySlot::Rendezvous, 3),
        (PolicySlot::Route, 4),
    ] {
        assert_eq!(slot_id(slot), code as u32);
        assert_eq!(decode_slot(code), Ok(slot));
        let req = SlotRequest { slot };
        let mut one = [0u8; 1];
        assert_eq!(req.encode_into(&mut one), Ok(1));
        assert_eq!(one, [code]);
        assert_eq!(SlotRequest::decode_payload(&one), Ok(req));
    }
    assert_eq!(decode_slot(200), Err(CodecError::Invalid("unknown management slot")));
    assert_eq!(SlotRequest::decode_payload(&[]), Err(CodecError::Truncated));
}

#[test]
fn subscribe_req_roundtrip() {
    let v = SubscribeReq { flags: 0xA55A };
    let mut out = [0u8; 2];
    assert_eq!(v.encode_into(&mut out), Ok(2));
    assert_eq!(out, [0xA5, 0x5A]);
    assert_eq!(SubscribeReq::decode_payload(&out), Ok(v));
    assert_eq!(SubscribeReq::decode_payload(&out[..1]), Err(CodecError::Truncated));
}

#[test]
fn load_chunk_limits() {
    let body = [7u8; 1024];
    let chunk = LoadChunk::new(0x0102_0304, &body);
    assert_eq!(chunk.len(), 1024);
    assert_eq!(chunk.encoded_len(), Some(1030));
    let mut out = vec![0u8; 1030];
    assert_eq!(chunk.encode_into(&mut out), Ok(1030));
    assert_eq!(&out[..6], &[1, 2, 3, 4, 0x04, 0x00]);
    let back = LoadChunk::decode_payload(&out).expect("decode full chunk");
    assert_eq!(back.offset, 0x0102_0304);
    assert_eq!(back.bytes(), &body[..]);

    let mut short = vec![0u8; 1029];
    assert_eq!(chunk.encode_into(&mut short), Err(CodecError::Truncated));
    assert!(short.iter().all(|b| *b == 0));

    // A header announcing more than the limit is invalid.
    let too_long = [0, 0, 0, 0, 0x04, 0x01];
    assert_eq!(
        LoadChunk::decode_payload(&too_long),
        Err(CodecError::Invalid("chunk length exceeds LOAD_CHUNK_MAX"))
    );
    assert_eq!(LoadChunk::decode_payload(&[0, 0, 0]), Err(CodecError::Truncated));
    assert_eq!(LoadChunk::decode_payload(&[0, 0, 0, 0, 0, 2, 1]), Err(CodecError::Truncated));
    assert_eq!(
        LoadChunk::decode_payload(&[0, 0, 0, 0, 0, 0, 1]),
        Err(CodecError::Invalid("trailing bytes after LoadChunk"))
    );
    assert_eq!(LOAD_CHUNK_MAX, 1024);
    let _ = chunk_parse;
}

#[test]
fn loader_and_host_faults_map_to_management_errors() {
    assert_eq!(MgmtError::from(LoaderFault::AlreadyLoading), MgmtError::InvalidTransition);
    assert_eq!(MgmtError::from(LoaderFault::NotLoading), MgmtError::InvalidTransition);
    assert_eq!(
        MgmtError::from(LoaderFault::CodeTooLarge { declared: 5000 }),
        MgmtError::ChunkTooLarge { remaining: 0, provided: 5000 }
    );
    assert_eq!(
        MgmtError::from(LoaderFault::UnexpectedOffset { expected: 8, got: 4 }),
        MgmtError::ChunkOutOfOrder { expected: 8, got: 4 }
    );
    assert_eq!(
        MgmtError::from(LoaderFault::ChunkTooLarge { remaining: 3, provided: 9 }),
        MgmtError::ChunkTooLarge { remaining: 3, provided: 9 }
    );
    assert_eq!(MgmtError::from(LoaderFault::HashMismatch), MgmtError::LoaderNotFinalised);
    assert_eq!(MgmtError::from(LoaderFault::Verify), MgmtError::LoaderNotFinalised);
    assert_eq!(MgmtError::from(VerifyFault), MgmtError::LoaderNotFinalised);

    assert_eq!(MgmtError::from(HostFault::SlotOccupied), MgmtError::InvalidTransition);
    assert_eq!(MgmtError::from(HostFault::SlotEmpty), MgmtError::HostUninstallFailed);
    assert_eq!(MgmtError::from(HostFault::InvalidFuel), MgmtError::HostInstallFailed);
    assert_eq!(MgmtError::from(HostFault::ScratchTooSmall), MgmtError::HostInstallFailed);
    assert_eq!(MgmtError::from(HostFault::ScratchTooLarge), MgmtError::HostInstallFailed);
    assert_eq!(MgmtError::from(HostFault::Verify), MgmtError::HostInstallFailed);
}

#[test]
fn reply_variants_carry_reports() {
    let r = Reply::Stats { stats: StatsResp::default(), staged_version: Some(3) };
    match r {
        Reply::Stats { staged_version, .. } => assert_eq!(staged_version, Some(3)),
        _ => unreachable!(),
    }
    let l = Reply::Loaded(LoadReport { staged_version: 2 });
    assert_ne!(l, Reply::Reverted(TransitionReport::default()));
}
