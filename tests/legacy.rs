use mc_honeypot::legacy::{
    legacy_ping_complete, legacy_response_packet, legacy_should_read_more, parse_legacy_ping,
    strip_color_codes,
};
use mc_honeypot::types::{Description, Players, ServerListPingResponse, Version};

fn response(protocol: i32, name: &str, motd: &str, online: i32, max: i32) -> ServerListPingResponse {
    ServerListPingResponse {
        version: Version { name: name.to_string(), protocol },
        players: Players { max, online, sample: vec![] },
        description: Description { text: motd.to_string() },
        favicon: None,
        enforces_secure_chat: true,
        previews_chat: true,
    }
}

fn utf16_be(s: &str) -> Vec<u8> {
    s.encode_utf16().flat_map(|u| u.to_be_bytes()).collect()
}

fn ping(channel: &str, protocol: u8, host: &str, port: u32) -> Vec<u8> {
    let mut data = vec![0xfe, 0x01, 0xfa];
    data.extend((channel.encode_utf16().count() as u16).to_be_bytes());
    data.extend(utf16_be(channel));
    let rest_len = 7 + 2 * host.encode_utf16().count() as u16;
    data.extend(rest_len.to_be_bytes());
    data.push(protocol);
    data.extend((host.encode_utf16().count() as u16).to_be_bytes());
    data.extend(utf16_be(host));
    data.extend(port.to_be_bytes());
    data
}

#[test]
fn strip_removes_color_codes() {
    assert_eq!(strip_color_codes("\u{a7}aHello, \u{a7}cWorld"), "Hello, World");
}

#[test]
fn strip_is_idempotent() {
    let once = strip_color_codes("\u{a7}aHello, \u{a7}cWorld");
    assert_eq!(strip_color_codes(&once), once);
    assert_eq!(strip_color_codes("plain text"), "plain text");
}

#[test]
fn strip_edge_cases() {
    assert_eq!(strip_color_codes(""), "");
    assert_eq!(strip_color_codes("abc\u{a7}"), "abc");
    assert_eq!(strip_color_codes("\u{a7}\u{a7}xy"), "xy");
}

#[test]
fn legacy_reply_frame() {
    let packet = legacy_response_packet(&response(765, "1.20.4", "\u{a7}aHi", 3, 100));
    let text = "\u{a7}1\u{0}765\u{0}1.20.4\u{0}Hi\u{0}3\u{0}100";
    let units = text.encode_utf16().count() as u16;
    let mut expected = vec![0xff];
    expected.extend((units - 1).to_be_bytes());
    expected.extend(utf16_be(text));
    assert_eq!(packet, expected);
    assert_eq!(&packet[..5], &[0xff, 0x00, 0x15, 0x00, 0xa7]);
}

#[test]
fn legacy_reply_negative_numbers() {
    let packet = legacy_response_packet(&response(-5, "", "", -1, i32::MIN));
    let text = "\u{a7}1\u{0}-5\u{0}\u{0}\u{0}-1\u{0}-2147483648";
    let mut expected = vec![0xff];
    expected.extend((text.encode_utf16().count() as u16 - 1).to_be_bytes());
    expected.extend(utf16_be(text));
    assert_eq!(packet, expected);
}

#[test]
fn legacy_ping_parses_fields() {
    let req = parse_legacy_ping(&ping("MC|PingHost", 74, "localhost", 25565));
    assert_eq!(req.protocol_version, 74);
    assert_eq!(req.server_address, "localhost");
    assert_eq!(req.server_port, 25565);
}

#[test]
fn legacy_ping_port_keeps_low_bits() {
    let req = parse_legacy_ping(&ping("MC|PingHost", 1, "h", 0x0001_0050));
    assert_eq!(req.server_port, 0x50);
}

#[test]
fn legacy_ping_truncated_input_gives_defaults() {
    for data in [vec![], vec![0xfe], vec![0xfe, 0x01, 0xfa, 0x00]] {
        let req = parse_legacy_ping(&data);
        assert_eq!(req.protocol_version, 0);
        assert_eq!(req.server_address, "");
        assert_eq!(req.server_port, 0);
    }
}

#[test]
fn legacy_ping_cut_inside_hostname() {
    let full = ping("MC|PingHost", 74, "localhost", 25565);
    let req = parse_legacy_ping(&full[..full.len() - 8]);
    assert_eq!(req.protocol_version, 0);
    assert_eq!(req.server_address, "");
    assert_eq!(req.server_port, 0);
}

#[test]
fn legacy_ping_cut_before_port() {
    let data = [0xfe, 0x01, 0xfa, 0x00, 0x00, 0x00, 0x00, 0x4a, 0x00, 0x00];
    let req = parse_legacy_ping(&data);
    assert_eq!(req.protocol_version, 0);
    assert_eq!(req.server_address, "");
    assert_eq!(req.server_port, 0);
    let full = ping("MC|PingHost", 74, "localhost", 25565);
    let req = parse_legacy_ping(&full[..full.len() - 1]);
    assert_eq!(req.protocol_version, 0);
    assert_eq!(req.server_address, "");
    assert_eq!(req.server_port, 0);
}

#[test]
fn legacy_ping_completeness() {
    let full = ping("MC|PingHost", 74, "localhost", 25565);
    assert!(legacy_ping_complete(&full));
    for cut in 0..full.len() {
        assert!(!legacy_ping_complete(&full[..cut]));
    }
    let mut longer = full.clone();
    longer.push(0x00);
    assert!(legacy_ping_complete(&longer));
    assert_eq!(parse_legacy_ping(&longer).server_address, "localhost");
}

#[test]
fn legacy_ping_invalid_channel_is_ignored() {
    let mut data = ping("MC", 74, "host", 25565);
    data[5] = 0xd8;
    data[6] = 0x00;
    let req = parse_legacy_ping(&data);
    assert_eq!(req.protocol_version, 74);
    assert_eq!(req.server_address, "host");
    assert_eq!(req.server_port, 25565);
    let packet = legacy_response_packet(&response(req.protocol_version, "v", "m", 0, 0));
    assert_eq!(packet[0], 0xff);
}

#[test]
fn legacy_ping_garbage_still_answers() {
    let data: Vec<u8> = (0..200u32).map(|i| (i * 37 % 251) as u8).collect();
    let req = parse_legacy_ping(&data);
    let packet = legacy_response_packet(&response(req.protocol_version, "v", "m", 0, 0));
    assert_eq!(packet[0], 0xff);
}

#[test]
fn legacy_ping_invalid_hostname_is_empty() {
    let mut data = ping("MC", 74, "ab", 25565);
    let host_at = 3 + 2 + 4 + 2 + 1 + 2;
    data[host_at] = 0xdc;
    data[host_at + 1] = 0x00;
    let req = parse_legacy_ping(&data);
    assert_eq!(req.server_address, "");
    assert_eq!(req.protocol_version, 74);
    assert_eq!(req.server_port, 25565);
}

#[test]
fn legacy_read_more_until_whole() {
    let full = ping("MC|PingHost", 74, "localhost", 25565);
    assert!(legacy_should_read_more(&[]));
    assert!(legacy_should_read_more(&full[..full.len() - 1]));
    assert!(!legacy_should_read_more(&full));
    let flood = vec![0xfe, 0x01, 0xfa, 0xff, 0xff];
    let mut big = flood.clone();
    big.resize(70000, 0);
    assert!(!legacy_should_read_more(&big));
}
