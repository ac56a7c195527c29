use etherparse::PacketBuilder;
use pcap_parser::traits::PcapReaderIterator;
use pcap_parser::{LegacyPcapReader, PcapBlockOwned, PcapError};

use poc_scada_core::analyze;
use poc_scada_core::pcap::{
    decode_ethernet_packet, CursorStep, Error, IpAddress, Packet, PcapCursor, ReaderEvent,
};
use poc_scada_core::PcapAnalysis;

fn tcp_frame(tcp_payload: &[u8]) -> Vec<u8> {
    let builder = PacketBuilder::ethernet2([1, 2, 3, 4, 5, 6], [7, 8, 9, 10, 11, 12])
        .ipv4([192, 168, 1, 10], [192, 168, 1, 20], 64)
        .tcp(49152, 20000, 0, 65535);
    let mut packet = Vec::with_capacity(builder.size(tcp_payload.len()));
    builder.write(&mut packet, tcp_payload).unwrap();
    packet
}

fn legacy_pcap_bytes(packets: &[(u32, &[u8])]) -> Vec<u8> {
    let mut file_bytes = Vec::new();
    // Legacy pcap global header, microsecond resolution, Ethernet linktype.
    file_bytes.extend_from_slice(&0xa1b2c3d4u32.to_le_bytes());
    file_bytes.extend_from_slice(&2u16.to_le_bytes());
    file_bytes.extend_from_slice(&4u16.to_le_bytes());
    file_bytes.extend_from_slice(&0i32.to_le_bytes());
    file_bytes.extend_from_slice(&0u32.to_le_bytes());
    file_bytes.extend_from_slice(&65535u32.to_le_bytes());
    file_bytes.extend_from_slice(&1u32.to_le_bytes());

    for (ts_sec, tcp_payload) in packets {
        let packet = tcp_frame(tcp_payload);
        file_bytes.extend_from_slice(&ts_sec.to_le_bytes());
        file_bytes.extend_from_slice(&0u32.to_le_bytes()); // ts_usec
        file_bytes.extend_from_slice(&(packet.len() as u32).to_le_bytes()); // incl_len
        file_bytes.extend_from_slice(&(packet.len() as u32).to_le_bytes()); // orig_len
        file_bytes.extend_from_slice(&packet);
    }

    file_bytes
}

/// Drives a pcap reader over in-memory bytes through the library's cursor,
/// the way the command-line program drives it over a file.
fn read_packets(bytes: &[u8]) -> Result<Vec<Packet>, Error> {
    let mut reader =
        LegacyPcapReader::new(65536, bytes).map_err(|e| Error::Pcap(format!("{e:?}")))?;
    let mut cursor = PcapCursor::new();
    let mut packets = Vec::new();
    loop {
        let event = match reader.next() {
            Ok((offset, block)) => {
                let event = match block {
                    PcapBlockOwned::Legacy(b) => ReaderEvent::Block {
                        ts_sec: b.ts_sec,
                        data: b.data.to_vec(),
                    },
                    _ => ReaderEvent::OtherBlock,
                };
                reader.consume(offset);
                event
            }
            Err(PcapError::Eof) => ReaderEvent::Eof,
            Err(PcapError::Incomplete(_)) => ReaderEvent::Incomplete,
            Err(e) => ReaderEvent::Failed(format!("{e:?}")),
        };
        match cursor.step(event) {
            CursorStep::Continue => {}
            CursorStep::Refill => {
                if let Err(e) = reader.refill() {
                    let _ = cursor.step(ReaderEvent::Failed(format!("{e:?}")));
                    return Err(Error::Pcap(format!("{e:?}")));
                }
                let _ = cursor.step(ReaderEvent::Refilled);
            }
            CursorStep::Emit(packet) => packets.push(packet),
            CursorStep::Finished => return Ok(packets),
            CursorStep::Fail(e) => return Err(e),
        }
    }
}

#[test]
fn streams_packets_in_order() {
    let bytes = legacy_pcap_bytes(&[(1, &[0xAA, 0xBB]), (2, &[0xCC])]);

    let packets = read_packets(&bytes).expect("should decode");

    assert_eq!(packets.len(), 2);
    assert_eq!(packets[0].ts_sec, 1);
    assert_eq!(packets[0].payload, vec![0xAA, 0xBB]);
    assert_eq!(packets[1].ts_sec, 2);
    assert_eq!(packets[1].payload, vec![0xCC]);
}

#[test]
fn iterator_is_fused_after_eof() {
    let mut cursor = PcapCursor::new();
    assert!(matches!(cursor.step(ReaderEvent::Eof), CursorStep::Finished));
    assert!(cursor.is_done());
    // Polling again past exhaustion must stay finished, not restart.
    let data = tcp_frame(&[0xAA]);
    assert!(matches!(
        cursor.step(ReaderEvent::Block { ts_sec: 1, data }),
        CursorStep::Finished
    ));
}

#[test]
fn read_failure_is_reported_once_then_finished() {
    let mut cursor = PcapCursor::new();
    match cursor.step(ReaderEvent::Failed("broken".to_string())) {
        CursorStep::Fail(Error::Pcap(msg)) => assert_eq!(msg, "broken"),
        _ => panic!("expected a pcap error"),
    }
    assert!(matches!(cursor.step(ReaderEvent::OtherBlock), CursorStep::Finished));
    assert_eq!(
        Error::Pcap("broken".to_string()).describe(),
        "pcap parse error: broken"
    );
}

#[test]
fn incomplete_buffer_asks_for_refill() {
    let mut cursor = PcapCursor::new();
    assert!(matches!(cursor.step(ReaderEvent::Incomplete), CursorStep::Refill));
    assert!(matches!(cursor.step(ReaderEvent::Refilled), CursorStep::Continue));
    assert!(!cursor.is_done());
}

#[test]
fn truncated_capture_is_an_error() {
    let mut bytes = legacy_pcap_bytes(&[(1, &[0xAA, 0xBB])]);
    bytes.truncate(bytes.len() - 3);
    assert!(read_packets(&bytes).is_err());
}

#[test]
fn decodes_tcp_frame() {
    let packet = decode_ethernet_packet(5, &tcp_frame(&[1, 2, 3])).expect("tcp payload");
    assert_eq!(packet.ts_sec, 5);
    assert_eq!(packet.flow.src_ip, IpAddress::V4([192, 168, 1, 10]));
    assert_eq!(packet.flow.dst_ip, IpAddress::V4([192, 168, 1, 20]));
    assert_eq!(packet.flow.src_port, 49152);
    assert_eq!(packet.flow.dst_port, 20000);
    assert_eq!(packet.payload, vec![1, 2, 3]);
}

#[test]
fn decodes_udp_over_ipv6_frame() {
    let mut src = [0u8; 16];
    src[15] = 1;
    let mut dst = [0u8; 16];
    dst[15] = 2;
    let builder = PacketBuilder::ethernet2([1, 2, 3, 4, 5, 6], [7, 8, 9, 10, 11, 12])
        .ipv6(src, dst, 64)
        .udp(1000, 20000);
    let mut frame = Vec::new();
    builder.write(&mut frame, &[9, 9]).unwrap();
    let packet = decode_ethernet_packet(0, &frame).expect("udp payload");
    assert_eq!(packet.flow.src_ip, IpAddress::V6(src));
    assert_eq!(packet.flow.dst_ip, IpAddress::V6(dst));
    assert_eq!(packet.flow.src_port, 1000);
    assert_eq!(packet.payload, vec![9, 9]);
}

#[test]
fn empty_payload_or_garbage_gives_no_packet() {
    assert!(decode_ethernet_packet(0, &tcp_frame(&[])).is_none());
    assert!(decode_ethernet_packet(0, &[0u8; 5]).is_none());
}

#[test]
fn bare_operate_flags_select_before_operate_violation() {
    // A minimal synthetic capture with one bare Operate (function 4),
    // unpaired with a preceding Select.
    let dnp3_frame: [u8; 17] = [
        0x05, 0x64, 0x0a, 0xc4, 0x0a, 0x00, 0x01, 0x00, 0x00, 0x00, // link header + crc
        0xc0, 0xc0, 0x04, 0x00, 0x00, // transport + app_ctrl + func=Operate
        0x00, 0x00, // block crc
    ];
    let bytes = legacy_pcap_bytes(&[(0, &dnp3_frame)]);
    let packets = read_packets(&bytes).expect("should decode");

    let mut analysis = PcapAnalysis::new("bare_operate".to_string());
    for packet in &packets {
        analysis.add_packet(packet);
    }
    let report = analysis.finish();
    assert!(report
        .findings
        .iter()
        .any(|f| f.rule == "select-before-operate-violation"));
    assert_eq!(report.packet_count, 1);
    assert_eq!(report.messages.len(), 1);
    assert_eq!(report.file, "bare_operate");
}

#[test]
fn cold_restart_capture_gives_one_dangerous_finding() {
    let cold_restart: [u8; 17] = [
        0x05, 0x64, 0x0a, 0xc0, 0x0a, 0x00, 0x01, 0x00, 0x00, 0x00, 0xc0, 0xc0, 0x0d, 0x00,
        0x00, 0x00, 0x00,
    ];
    let response: [u8; 17] = [
        0x05, 0x64, 0x0a, 0x44, 0x01, 0x00, 0x0a, 0x00, 0x00, 0x00, 0xc0, 0xc0, 0x81, 0x00,
        0x00, 0x00, 0x00,
    ];
    let bytes = legacy_pcap_bytes(&[(1422552945, &cold_restart), (1422552946, &response)]);
    let packets = read_packets(&bytes).expect("should decode");
    let findings = analyze(&packets);
    assert_eq!(findings.len(), 1);
    assert_eq!(findings[0].rule, "dangerous-function-code");
    assert_eq!(findings[0].ts_sec, 1422552945);
    assert_eq!(
        findings[0].message,
        "ColdRestart function code seen (dnp3 dest=10, src=1)"
    );
}

#[test]
fn select_then_operate_capture_has_no_findings() {
    let select: [u8; 17] = [
        0x05, 0x64, 0x0a, 0xc0, 0x0a, 0x00, 0x01, 0x00, 0x00, 0x00, 0xc0, 0xc0, 0x03, 0x00,
        0x00, 0x00, 0x00,
    ];
    let operate: [u8; 17] = [
        0x05, 0x64, 0x0a, 0xc0, 0x0a, 0x00, 0x01, 0x00, 0x00, 0x00, 0xc1, 0xc1, 0x04, 0x00,
        0x00, 0x00, 0x00,
    ];
    let bytes = legacy_pcap_bytes(&[(1, &select), (2, &operate)]);
    let packets = read_packets(&bytes).expect("should decode");
    assert!(analyze(&packets).is_empty());
}

#[test]
fn io_error_text_follows_prefix() {
    let e = Error::Io(std::io::Error::new(std::io::ErrorKind::NotFound, "no such capture"));
    assert_eq!(e.describe(), "io error: no such capture");
}
