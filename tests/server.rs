use mc_honeypot::codec::{format_uuid, write_utf8_string, write_varint, WireError};
use mc_honeypot::server::{
    is_legacy_ping, parse_handshake, parse_modern_request, ping_reply, should_read_more,
    status_response_packet, ModernRequest, MAX_REQUEST_BYTES,
};

fn packet(id: i32, fields: &[u8]) -> Vec<u8> {
    let mut body = Vec::new();
    write_varint(&mut body, id);
    body.extend_from_slice(fields);
    let mut out = Vec::new();
    write_varint(&mut out, body.len() as i32);
    out.extend(body);
    out
}

fn handshake(protocol: i32, host: &str, port: u16, next: i32) -> Vec<u8> {
    let mut fields = Vec::new();
    write_varint(&mut fields, protocol);
    write_utf8_string(&mut fields, host.to_string());
    fields.extend(port.to_be_bytes());
    write_varint(&mut fields, next);
    packet(0, &fields)
}

#[test]
fn legacy_detection() {
    assert!(is_legacy_ping(&[0xfe]));
    assert!(is_legacy_ping(&[0xfe, 0x01, 0xfa, 0x00]));
    assert!(is_legacy_ping(&[0xfe, 0x10, 0x00]));
    assert!(!is_legacy_ping(&[]));
    assert!(!is_legacy_ping(&[0x10, 0xfe]));
}

#[test]
fn handshake_fields_are_read() {
    let data = handshake(765, "localhost", 25565, 1);
    let (h, end) = parse_handshake(&data).unwrap();
    assert_eq!(h.protocol_version, 765);
    assert_eq!(h.server_address, "localhost");
    assert_eq!(h.server_port, 25565);
    assert_eq!(h.next_state, 1);
    assert_eq!(end, data.len());
}

#[test]
fn modern_status_exchange() {
    let mut data = handshake(765, "localhost", 25565, 1);
    data.extend(packet(0, &[]));
    let consumed = data.len();
    let (request, end) = parse_modern_request(&data).unwrap();
    assert_eq!(end, consumed);
    match request {
        ModernRequest::Status(req) => {
            assert_eq!(req.protocol_version, 765);
            assert_eq!(req.server_address, "localhost");
            assert_eq!(req.server_port, 25565);
        }
        ModernRequest::Join(_) => panic!("expected a status request"),
    }

    let json = String::from("{\"description\":{\"text\":\"Hi\"}}");
    let status = status_response_packet(json.clone());
    let mut expected = vec![(2 + json.len()) as u8, 0, json.len() as u8];
    expected.extend(json.as_bytes());
    assert_eq!(status, expected);

    let payload = [1, 2, 3, 4, 5, 6, 7, 8];
    data.extend(packet(1, &payload));
    let pong = ping_reply(&data, end).unwrap();
    assert_eq!(pong, vec![9, 1, 1, 2, 3, 4, 5, 6, 7, 8]);
}

#[test]
fn ping_reply_without_ping() {
    assert_eq!(ping_reply(&[], 0), None);
    assert_eq!(ping_reply(&[9, 1, 1, 2, 3], 0), None);
}

#[test]
fn status_packet_with_long_body_uses_multi_byte_length() {
    let json = "x".repeat(200);
    let status = status_response_packet(json.clone());
    assert_eq!(&status[..5], &[0xcb, 0x01, 0x00, 0xc8, 0x01]);
    assert_eq!(status.len(), 205);
}

#[test]
fn modern_login_join() {
    let uuid: u128 = 0x4566e69fc90748ee8d71d7ba5aa00d20;
    let mut data = handshake(765, "localhost", 25565, 2);
    let mut fields = Vec::new();
    write_utf8_string(&mut fields, String::from("Duckulus"));
    fields.extend(uuid.to_be_bytes());
    data.extend(packet(0, &fields));
    let (request, end) = parse_modern_request(&data).unwrap();
    assert_eq!(end, data.len());
    match request {
        ModernRequest::Join(sample) => {
            assert_eq!(sample.name, "Duckulus");
            assert_eq!(sample.id, format_uuid(uuid));
            assert_eq!(sample.id, "4566e69f-c907-48ee-8d71-d7ba5aa00d20");
        }
        ModernRequest::Status(_) => panic!("expected a join attempt"),
    }
}

#[test]
fn modern_unsupported_state() {
    let mut data = handshake(765, "localhost", 25565, 3);
    data.extend(packet(0, &[]));
    assert!(matches!(parse_modern_request(&data), Err(WireError::UnsupportedState)));
}

#[test]
fn modern_truncated_input() {
    let data = handshake(765, "localhost", 25565, 1);
    assert!(matches!(parse_modern_request(&data[..5]), Err(WireError::TruncatedInput)));
    assert!(matches!(parse_modern_request(&data), Err(WireError::TruncatedInput)));
    assert!(matches!(parse_modern_request(&[]), Err(WireError::TruncatedInput)));
}

#[test]
fn read_more_only_while_truncated_and_under_cap() {
    let data = handshake(765, "localhost", 25565, 1);
    let cut = parse_modern_request(&data[..5]);
    assert!(should_read_more(&cut, 5));
    assert!(!should_read_more(&cut, MAX_REQUEST_BYTES + 1));
    let mut full = data.clone();
    full.extend(packet(0, &[]));
    assert!(!should_read_more(&parse_modern_request(&full), full.len()));
    let mut bad = handshake(765, "localhost", 25565, 5);
    bad.extend(packet(0, &[]));
    assert!(!should_read_more(&parse_modern_request(&bad), bad.len()));
}
