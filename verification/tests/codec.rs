use emv_codec::emv_processor::EmvProcessor;
use emv_codec::apdu::ApduResponse;
use emv_codec::tlv::Tlv;
use emv_codec::hexstr::hex_encode;
use emv_codec::crypto::{sha256, sign_data, verify_signature};
use emv_codec::models::DeviceCapabilities;

#[test]
fn test_select_ppse() {
    let processor = EmvProcessor::new("156".to_string(), "CNY".to_string());
    let cmd = processor.select_ppse();

    assert_eq!(cmd.cla, 0x00);
    assert_eq!(cmd.ins, 0xA4);
    assert_eq!(cmd.p1, 0x04);
    assert_eq!(cmd.p2, 0x00);
}

#[test]
fn test_read_record() {
    let processor = EmvProcessor::new("156".to_string(), "CNY".to_string());
    let cmd = processor.read_record(1, 1);

    assert_eq!(cmd.cla, 0x00);
    assert_eq!(cmd.ins, 0xB2);
    assert_eq!(cmd.p1, 1);
    assert_eq!(cmd.p2, 0x0C); // (1 << 3) | 0x04
}

#[test]
fn select_ppse_data_and_le() {
    let processor = EmvProcessor::new("156".to_string(), "CNY".to_string());
    let cmd = processor.select_ppse();
    assert_eq!(cmd.data, Some(b"2PAY.SYS.DDF01".to_vec()));
    assert_eq!(cmd.le, Some(0x00));
}

#[test]
fn select_application_serializes_exactly() {
    let processor = EmvProcessor::new("156".to_string(), "CNY".to_string());
    let aid = vec![0xA0, 0x00, 0x00, 0x00, 0x03];
    let cmd = processor.select_application(&aid);
    assert_eq!(
        cmd.to_bytes(),
        vec![0x00, 0xA4, 0x04, 0x00, 0x05, 0xA0, 0x00, 0x00, 0x00, 0x03, 0x00]
    );
}

#[test]
fn read_record_serializes_exactly() {
    let processor = EmvProcessor::new("156".to_string(), "CNY".to_string());
    let cmd = processor.read_record(1, 1);
    assert_eq!(cmd.to_bytes(), vec![0x00, 0xB2, 0x01, 0x0C, 0x00]);
}

#[test]
fn gpo_wraps_pdol_in_tag_83() {
    let processor = EmvProcessor::new("156".to_string(), "CNY".to_string());
    let cmd = processor.get_processing_options(&[0x12, 0x34]);
    assert_eq!(cmd.cla, 0x80);
    assert_eq!(cmd.ins, 0xA8);
    assert_eq!(cmd.p1, 0x00);
    assert_eq!(cmd.p2, 0x00);
    assert_eq!(cmd.data, Some(vec![0x83, 0x02, 0x12, 0x34]));
    assert_eq!(
        cmd.to_bytes(),
        vec![0x80, 0xA8, 0x00, 0x00, 0x04, 0x83, 0x02, 0x12, 0x34, 0x00]
    );
}

#[test]
fn generate_ac_carries_cdol() {
    let processor = EmvProcessor::new("156".to_string(), "CNY".to_string());
    let cmd = processor.generate_ac(0x80, &[0x01, 0x02, 0x03]);
    assert_eq!(cmd.cla, 0x80);
    assert_eq!(cmd.ins, 0xAE);
    assert_eq!(cmd.p1, 0x80);
    assert_eq!(cmd.p2, 0x00);
    assert_eq!(
        cmd.to_bytes(),
        vec![0x80, 0xAE, 0x80, 0x00, 0x03, 0x01, 0x02, 0x03, 0x00]
    );
}

#[test]
fn command_without_data_or_le_is_header_only() {
    let cmd = emv_codec::ApduCommand::new(0x00, 0xC0, 0x01, 0x02);
    assert_eq!(cmd.to_bytes(), vec![0x00, 0xC0, 0x01, 0x02]);
}

#[test]
fn tlv_parse_single_record() {
    let tlvs = Tlv::parse(&[0x5A, 0x03, 0x12, 0x34, 0x56]).unwrap();
    assert_eq!(tlvs.len(), 1);
    assert_eq!(tlvs[0].tag, vec![0x5A]);
    assert_eq!(tlvs[0].value, vec![0x12, 0x34, 0x56]);
}

#[test]
fn tlv_parse_truncated_value_fails() {
    let r = Tlv::parse(&[0x5A, 0x05, 0x01, 0x02, 0x03]);
    assert_eq!(r, Err("Invalid TLV data".to_string()));
}

#[test]
fn tlv_parse_multi_byte_tag() {
    let tlvs = Tlv::parse(&[0x5F, 0x24, 0x02, 0x25, 0x12]).unwrap();
    assert_eq!(tlvs.len(), 1);
    assert_eq!(tlvs[0].tag, vec![0x5F, 0x24]);
    assert_eq!(tlvs[0].value, vec![0x25, 0x12]);
}

#[test]
fn tlv_parse_long_form_length() {
    let tlvs = Tlv::parse(&[0x5A, 0x81, 0x03, 0x01, 0x02, 0x03]).unwrap();
    assert_eq!(tlvs.len(), 1);
    assert_eq!(tlvs[0].tag, vec![0x5A]);
    assert_eq!(tlvs[0].value, vec![0x01, 0x02, 0x03]);
}

#[test]
fn tlv_parse_tag_runs_past_end() {
    // A multi-byte tag whose continuation bytes never end.
    assert_eq!(Tlv::parse(&[0x9F, 0x81]), Err("Invalid TLV tag".to_string()));
    // A tag with no length byte after it.
    assert_eq!(Tlv::parse(&[0x5A]), Err("Invalid TLV tag".to_string()));
}

#[test]
fn tlv_parse_length_bytes_run_past_end() {
    let r = Tlv::parse(&[0x5A, 0x82, 0x01]);
    assert_eq!(r, Err("Invalid length encoding".to_string()));
}

#[test]
fn tlv_parse_empty_buffer_is_no_records() {
    assert_eq!(Tlv::parse(&[]).unwrap().len(), 0);
}

#[test]
fn tlv_find_by_tag_first_match_in_order() {
    let tlvs = Tlv::parse(&[0x50, 0x01, 0x41, 0x50, 0x01, 0x42, 0x5A, 0x01, 0x99]).unwrap();
    let found = Tlv::find_by_tag(&tlvs, &[0x50]).unwrap();
    assert_eq!(found.value, vec![0x41]);
    assert!(Tlv::find_by_tag(&tlvs, &[0x57]).is_none());
}

#[test]
fn tlv_round_trip_short_form() {
    let original = vec![
        0x5A, 0x03, 0x12, 0x34, 0x56, 0x5F, 0x24, 0x02, 0x25, 0x12, 0x50, 0x00,
    ];
    let tlvs = Tlv::parse(&original).unwrap();
    assert_eq!(Tlv::serialize(&tlvs), original);
}

#[test]
fn tlv_record_to_bytes() {
    let tlvs = Tlv::parse(&[0x5A, 0x03, 0x12, 0x34, 0x56]).unwrap();
    assert_eq!(tlvs[0].to_bytes(), vec![0x5A, 0x03, 0x12, 0x34, 0x56]);
}

#[test]
fn response_success_and_status_word() {
    let bytes = vec![0x6F, 0x04, 0x84, 0x02, 0x10, 0x10, 0x90, 0x00];
    let resp = ApduResponse::from_bytes(&bytes).unwrap();
    assert!(resp.is_success());
    assert_eq!(resp.status_word(), 0x9000);
    assert_eq!(resp.data, vec![0x6F, 0x04, 0x84, 0x02, 0x10, 0x10]);

    let resp = ApduResponse::from_bytes(&[0x01, 0x6A, 0x82]).unwrap();
    assert!(!resp.is_success());
    assert_eq!(resp.status_word(), 0x6A82);
    assert_eq!(resp.data, vec![0x01]);
}

#[test]
fn response_too_short_fails() {
    assert_eq!(
        ApduResponse::from_bytes(&[0x90]),
        Err("Response too short".to_string())
    );
    assert_eq!(
        ApduResponse::from_bytes(&[]),
        Err("Response too short".to_string())
    );
}

#[test]
fn response_exactly_two_bytes_has_empty_payload() {
    let resp = ApduResponse::from_bytes(&[0x90, 0x00]).unwrap();
    assert!(resp.data.is_empty());
    assert!(resp.is_success());
}

#[test]
fn validate_response_names_the_status_word() {
    let processor = EmvProcessor::new("156".to_string(), "CNY".to_string());
    let bad = ApduResponse::from_bytes(&[0x6A, 0x82]).unwrap();
    assert_eq!(
        processor.validate_response(&bad),
        Err("APDU error: SW=6A82".to_string())
    );
    let ok = ApduResponse::from_bytes(&[0x90, 0x00]).unwrap();
    assert_eq!(processor.validate_response(&ok), Ok(()));
}

#[test]
fn parse_card_data_extracts_all_fields() {
    let processor = EmvProcessor::new("156".to_string(), "CNY".to_string());
    let mut buffer: Vec<u8> = Vec::new();
    // PAN, trailing FF padding
    buffer.extend_from_slice(&[0x5A, 0x04, 0x12, 0x34, 0x56, 0xFF]);
    // Expiry: December 2025
    buffer.extend_from_slice(&[0x5F, 0x24, 0x03, 0x25, 0x12, 0x31]);
    // Cardholder name
    buffer.extend_from_slice(&[0x5F, 0x20, 0x05, 0x41, 0x4C, 0x49, 0x43, 0x45]);
    // Track 2
    buffer.extend_from_slice(&[0x57, 0x02, 0xAB, 0xCD]);
    // Application label
    buffer.extend_from_slice(&[0x50, 0x04, 0x56, 0x49, 0x53, 0x41]);

    let card = processor
        .parse_card_data(&buffer, "A0000000031010".to_string())
        .unwrap();
    assert_eq!(card.pan, "123456");
    assert_eq!(card.expiry, "2512");
    assert_eq!(card.cardholder_name, Some("ALICE".to_string()));
    assert_eq!(card.track2, Some("abcd".to_string()));
    assert_eq!(card.aid, "A0000000031010");
    assert_eq!(card.app_label, Some("VISA".to_string()));
}

#[test]
fn parse_card_data_missing_pan_fails() {
    let processor = EmvProcessor::new("156".to_string(), "CNY".to_string());
    let buffer = vec![0x5F, 0x24, 0x02, 0x25, 0x12];
    assert_eq!(
        processor.parse_card_data(&buffer, "A0".to_string()),
        Err("PAN not found".to_string())
    );
}

#[test]
fn parse_card_data_missing_expiry_fails() {
    let processor = EmvProcessor::new("156".to_string(), "CNY".to_string());
    let buffer = vec![0x5A, 0x02, 0x12, 0x34];
    assert_eq!(
        processor.parse_card_data(&buffer, "A0".to_string()),
        Err("Expiry date not found".to_string())
    );
}

#[test]
fn parse_card_data_propagates_tlv_errors() {
    let processor = EmvProcessor::new("156".to_string(), "CNY".to_string());
    assert_eq!(
        processor.parse_card_data(&[0x5A, 0x09, 0x00], "A0".to_string()),
        Err("Invalid TLV data".to_string())
    );
}

#[test]
fn parse_card_data_strips_only_low_padding_nibble() {
    let processor = EmvProcessor::new("156".to_string(), "CNY".to_string());
    let buffer = vec![0x5A, 0x02, 0x12, 0x3F, 0x5F, 0x24, 0x02, 0x25, 0x12];
    let card = processor.parse_card_data(&buffer, "A0".to_string()).unwrap();
    assert_eq!(card.pan, "123");
}

#[test]
fn parse_card_data_short_expiry_renders_empty() {
    let processor = EmvProcessor::new("156".to_string(), "CNY".to_string());
    let buffer = vec![0x5A, 0x01, 0x12, 0x5F, 0x24, 0x01, 0x25];
    let card = processor.parse_card_data(&buffer, "A0".to_string()).unwrap();
    assert_eq!(card.expiry, "");
}

#[test]
fn parse_card_data_decodes_names_lossily() {
    let processor = EmvProcessor::new("156".to_string(), "CNY".to_string());
    let buffer = vec![
        0x5A, 0x01, 0x12, 0x5F, 0x24, 0x02, 0x25, 0x12, 0x5F, 0x20, 0x02, 0xFF, 0x41,
    ];
    let card = processor.parse_card_data(&buffer, "A0".to_string()).unwrap();
    assert_eq!(card.cardholder_name, Some("\u{FFFD}A".to_string()));
}

#[test]
fn hex_encode_is_lower_case_two_digits_per_byte() {
    assert_eq!(hex_encode(&[0xDE, 0xAD, 0x01]), "dead01");
    assert_eq!(hex_encode(&[]), "");
}

#[test]
fn sha256_matches_known_digest() {
    assert_eq!(
        sha256(b"abc"),
        "ba7816bf8f01cfea414140de5dae2223b00361a396177a9cb410ff61f20015ad"
    );
    assert_eq!(
        sha256(b""),
        "e3b0c44298fc1c149afbf4c8996fb92427ae41e4649b934ca495991b7852b855"
    );
}

#[test]
fn sign_data_matches_known_hmac() {
    // HMAC-SHA256 test vector: key "Jefe", message "what do ya want for nothing?"
    assert_eq!(
        sign_data(b"what do ya want for nothing?", b"Jefe"),
        "5bdcc146bf60754e6a042426089575c75a003f089d2739839dec58b964ec3843"
    );
}

#[test]
fn verify_signature_accepts_own_signature_only() {
    let data = b"attestation payload";
    let key = b"terminal signing key";
    let good = sign_data(data, key);
    assert!(verify_signature(data, &good, key));
    assert!(!verify_signature(data, "0000", key));
    assert!(!verify_signature(b"other payload", &good, key));
}

#[test]
fn device_capabilities_health_needs_emv_and_apdu() {
    let caps = DeviceCapabilities {
        nfc_available: false,
        tee_available: false,
        emv_processing: true,
        apdu_processing: true,
        network_available: false,
        gps_available: false,
        backend_connected: false,
    };
    assert!(caps.is_healthy());
    let degraded = DeviceCapabilities { apdu_processing: false, ..caps };
    assert!(!degraded.is_healthy());
}
