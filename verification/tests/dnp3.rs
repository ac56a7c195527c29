use poc_scada_core::dnp3::application::{parse_application_header, FunctionCode};
use poc_scada_core::dnp3::link::parse_link_frame;
use poc_scada_core::dnp3::{find_dnp3_messages, raw_transport, transport};

#[test]
fn parses_cold_restart() {
    let app_data = [0xc0, 0x0d, 0x00, 0x00];
    let header = parse_application_header(&app_data).expect("should parse");
    assert_eq!(header.function, FunctionCode::ColdRestart);
}

#[test]
fn parses_direct_operate() {
    let app_data = [0xc0, 0x05];
    let header = parse_application_header(&app_data).expect("should parse");
    assert_eq!(header.function, FunctionCode::DirectOperate);
}

#[test]
fn too_short_returns_none() {
    assert!(parse_application_header(&[0xc0]).is_none());
}

#[test]
fn unnamed_function_byte_is_other() {
    let header = parse_application_header(&[0xc0, 0x0b]).expect("should parse");
    assert_eq!(header.function, FunctionCode::Other(11));
    assert_eq!(FunctionCode::Other(11).name(), "Other(11)");
    assert_eq!(FunctionCode::ColdRestart.name(), "ColdRestart");
}

#[test]
fn parses_cold_restart_frame() {
    // dest=10 src=1, control=0xc0, 5 bytes of user data (transport + app_ctrl + func)
    let raw = [
        0x05, 0x64, 0x0a, 0xc0, 0x0a, 0x00, 0x01, 0x00, 0x00, 0x00, // header + crc
        0xc0, 0xc0, 0x0d, 0x00, 0x00, // 5 bytes user data
        0x00, 0x00, // block crc
    ];
    let frame = parse_link_frame(&raw).expect("should parse");
    assert_eq!(frame.dest, 10);
    assert_eq!(frame.src, 1);
    assert_eq!(
        frame.user_data_chunks(),
        vec![[0xc0, 0xc0, 0x0d, 0x00, 0x00].as_slice()]
    );
    assert_eq!(frame.consumed, raw.len());
}

#[test]
fn rejects_missing_sync_bytes() {
    let raw = [0x00; 20];
    assert!(parse_link_frame(&raw).is_none());
}

#[test]
fn rejects_truncated_frame() {
    let raw = [0x05, 0x64, 0x0a, 0xc0, 0x0a, 0x00, 0x01, 0x00, 0x00, 0x00];
    assert!(parse_link_frame(&raw).is_none());
}

#[test]
fn rejects_length_byte_below_header_fields() {
    let raw = [0x05, 0x64, 0x04, 0xc0, 0x0a, 0x00, 0x01, 0x00, 0x00, 0x00];
    assert!(parse_link_frame(&raw).is_none());
}

#[test]
fn zero_length_user_data_has_no_chunks() {
    // Link-status style frame: length byte 5 means user_data_len == 0.
    let raw = [0x05, 0x64, 0x05, 0xc9, 0x00, 0x04, 0x01, 0x00, 0x00, 0x00];
    let frame = parse_link_frame(&raw).expect("should parse");
    assert_eq!(frame.user_data_chunks().len(), 0);
    assert_eq!(frame.consumed, raw.len());
}

#[test]
fn multi_block_frame_yields_chunks_in_order_with_crcs_skipped() {
    // 17 bytes of user data: one full 16-byte block, one 1-byte block.
    let mut raw = vec![0x05, 0x64, 0x16, 0xc0, 0x0a, 0x00, 0x01, 0x00, 0x00, 0x00];
    let first_block: Vec<u8> = (0..16).collect();
    let second_block = [0xAA];
    raw.extend_from_slice(&first_block);
    raw.extend_from_slice(&[0x11, 0x22]); // first block's CRC
    raw.extend_from_slice(&second_block);
    raw.extend_from_slice(&[0x33, 0x44]); // second block's CRC

    let frame = parse_link_frame(&raw).expect("should parse");
    let chunks: Vec<&[u8]> = frame.user_data_chunks();
    assert_eq!(
        chunks,
        vec![first_block.as_slice(), second_block.as_slice()]
    );
    assert_eq!(frame.consumed, raw.len());
}

#[test]
fn truncated_second_block_is_rejected() {
    let mut raw = vec![0x05, 0x64, 0x16, 0xc0, 0x0a, 0x00, 0x01, 0x00, 0x00, 0x00];
    raw.extend_from_slice(&[0u8; 16]);
    raw.extend_from_slice(&[0x11, 0x22]);
    raw.push(0xAA);
    // missing the second block's trailing CRC bytes
    assert!(parse_link_frame(&raw).is_none());
}

#[test]
fn frame_fields_read_little_endian() {
    let raw = [0x05, 0x64, 0x05, 0x44, 0x34, 0x12, 0xcd, 0xab, 0x00, 0x00, 0xff];
    let frame = parse_link_frame(&raw).expect("should parse");
    assert_eq!(frame.control, 0x44);
    assert_eq!(frame.dest, 0x1234);
    assert_eq!(frame.src, 0xabcd);
    assert_eq!(frame.consumed, 10);
}

#[test]
fn transport_parses_single_frame_segment() {
    let raw = [
        0x05, 0x64, 0x0a, 0xc0, 0x0a, 0x00, 0x01, 0x00, 0x00, 0x00, 0xc0, 0xc0, 0x0d, 0x00,
        0x00, 0x00, 0x00,
    ];
    let frame = parse_link_frame(&raw).expect("should parse");
    let seg = transport::parse_transport_segment(&frame).expect("should parse");
    assert!(seg.fir);
    assert!(seg.fin);
    assert_eq!(seg.sequence, 0);
    assert_eq!(seg.app_data, &[0xc0, 0x0d, 0x00, 0x00]);
}

#[test]
fn transport_empty_user_data_returns_none() {
    // Link-status style frame: length byte 5 means user_data_len == 0.
    let raw = [0x05, 0x64, 0x05, 0xc9, 0x00, 0x04, 0x01, 0x00, 0x00, 0x00];
    let frame = parse_link_frame(&raw).expect("should parse");
    assert!(transport::parse_transport_segment(&frame).is_none());
}

#[test]
fn parses_single_frame_segment() {
    let user_data = [0xc0, 0xc0, 0x0d, 0x00, 0x00];
    let seg = raw_transport::parse_transport_segment(&user_data).expect("should parse");
    assert!(seg.fir);
    assert!(seg.fin);
    assert_eq!(seg.sequence, 0);
    assert_eq!(seg.app_data, &[0xc0, 0x0d, 0x00, 0x00]);
}

#[test]
fn empty_user_data_returns_none() {
    assert!(raw_transport::parse_transport_segment(&[]).is_none());
}

#[test]
fn transport_header_bits_and_sequence() {
    let seg = raw_transport::parse_transport_segment(&[0x45, 0x01]).expect("should parse");
    assert!(!seg.fir);
    assert!(seg.fin);
    assert_eq!(seg.sequence, 5);
    assert_eq!(seg.app_data, &[0x01]);
}

#[test]
fn finds_message_in_noisy_payload() {
    let cold_restart_frame: [u8; 17] = [
        0x05, 0x64, 0x0a, 0xc0, 0x0a, 0x00, 0x01, 0x00, 0x00, 0x00, 0xc0, 0xc0, 0x0d, 0x00,
        0x00, 0x00, 0x00,
    ];
    let mut payload = b"GET / HTTP/1.0\r\n\r\n".to_vec();
    payload.extend_from_slice(&cold_restart_frame);

    let messages = find_dnp3_messages(&payload);
    assert_eq!(messages.len(), 1);
    assert_eq!(messages[0].function, FunctionCode::ColdRestart);
    assert_eq!(messages[0].dest, 10);
    assert_eq!(messages[0].src, 1);
}

#[test]
fn no_sync_bytes_returns_empty() {
    assert!(find_dnp3_messages(b"not dnp3 at all").is_empty());
}

#[test]
fn frames_are_read_in_order_and_probes_skipped() {
    let select: [u8; 17] = [
        0x05, 0x64, 0x0a, 0xc0, 0x0a, 0x00, 0x01, 0x00, 0x00, 0x00, 0xc0, 0xc0, 0x03, 0x00,
        0x00, 0x00, 0x00,
    ];
    let link_status = [0x05, 0x64, 0x05, 0xc9, 0x00, 0x04, 0x01, 0x00, 0x00, 0x00];
    let operate: [u8; 17] = [
        0x05, 0x64, 0x0a, 0xc0, 0x0a, 0x00, 0x01, 0x00, 0x00, 0x00, 0xc1, 0xc1, 0x04, 0x00,
        0x00, 0x00, 0x00,
    ];
    let mut payload = Vec::new();
    payload.extend_from_slice(&select);
    payload.extend_from_slice(&link_status);
    payload.push(0x05);
    payload.extend_from_slice(&operate);
    let messages = find_dnp3_messages(&payload);
    assert_eq!(messages.len(), 2);
    assert_eq!(messages[0].function, FunctionCode::Select);
    assert_eq!(messages[1].function, FunctionCode::Operate);
}

#[test]
fn truncated_frame_at_end_gives_no_message() {
    let payload = [0x05, 0x64, 0x0a, 0xc0, 0x0a, 0x00, 0x01, 0x00, 0x00, 0x00, 0xc0, 0xc0];
    assert!(find_dnp3_messages(&payload).is_empty());
}

#[test]
fn function_code_found_whatever_object_data_follows() {
    // 20 bytes of user data (two blocks): transport, app control, Direct
    // Operate, then object bytes that do not form a valid object.
    let mut raw = vec![0x05, 0x64, 0x19, 0xc4, 0x0a, 0x00, 0x01, 0x00, 0x00, 0x00];
    raw.extend_from_slice(&[0xc0, 0xc0, 0x05]);
    raw.extend_from_slice(&[0xff; 13]);
    raw.extend_from_slice(&[0x12, 0x34]); // first block's CRC
    raw.extend_from_slice(&[0xee; 4]);
    raw.extend_from_slice(&[0x56, 0x78]); // second block's CRC
    let messages = find_dnp3_messages(&raw);
    assert_eq!(messages.len(), 1);
    assert_eq!(messages[0].function, FunctionCode::DirectOperate);
}

#[test]
fn header_crc_is_not_checked() {
    let good = [0x05, 0x64, 0x05, 0xc9, 0x00, 0x04, 0x01, 0x00, 0x00, 0x00];
    let bad_crc = [0x05, 0x64, 0x05, 0xc9, 0x00, 0x04, 0x01, 0x00, 0xde, 0xad];
    let a = parse_link_frame(&good).expect("should parse");
    let b = parse_link_frame(&bad_crc).expect("should parse");
    assert_eq!((a.control, a.dest, a.src, a.consumed), (b.control, b.dest, b.src, b.consumed));
}

#[test]
fn block_crcs_are_not_checked() {
    let mut a = vec![0x05, 0x64, 0x16, 0xc0, 0x0a, 0x00, 0x01, 0x00, 0x00, 0x00];
    a.extend_from_slice(&[0xc0, 0xc0, 0x0d]);
    a.extend_from_slice(&[0u8; 13]);
    a.extend_from_slice(&[0x11, 0x22]);
    a.push(0xAA);
    a.extend_from_slice(&[0x33, 0x44]);
    let mut b = a.clone();
    b[26] = 0x99;
    b[27] = 0x88;
    b[29] = 0x77;
    b[30] = 0x66;
    let fa = parse_link_frame(&a).expect("should parse");
    let fb = parse_link_frame(&b).expect("should parse");
    assert_eq!(fa.user_data_chunks(), fb.user_data_chunks());
    assert_eq!(find_dnp3_messages(&a), find_dnp3_messages(&b));
}
