use mc_honeypot::color::RgbColor;
use mc_honeypot::favicon::favicon_data_uri;
use mc_honeypot::types::{RequestType, Sample, ServerListPingRequest};
use mc_honeypot::webhook::{
    get_color_from_request_type, Embed, Message, WebhookBuffer, WebhookPayload,
};

fn embed(i: i32) -> Embed {
    Embed { title: String::from("Ping!"), description: format!("event {}", i), color: i }
}

#[test]
fn batching_flushes_at_ten() {
    let mut buf = WebhookBuffer::new(String::from("https://example.invalid/hook"));
    for i in 0..9 {
        assert!(buf.add_message(embed(i)).is_none());
    }
    assert_eq!(buf.embeds.len(), 9);
    let payload = buf.add_message(embed(9)).expect("the tenth event sends the batch");
    let colors: Vec<i32> = payload.embeds.iter().map(|e| e.color).collect();
    assert_eq!(colors, (0..10).collect::<Vec<i32>>());
    assert!(buf.embeds.is_empty());
    assert!(buf.flush().is_none());
}

#[test]
fn flush_sends_partial_batch() {
    let mut buf = WebhookBuffer::new(String::from("u"));
    assert!(buf.flush().is_none());
    buf.add_message(embed(1));
    buf.add_message(embed(2));
    let payload = buf.flush().unwrap();
    assert_eq!(payload.embeds.len(), 2);
    assert_eq!(payload.embeds[1].description, "event 2");
    assert!(buf.embeds.is_empty());
    assert_eq!(buf.url, "u");
}

#[test]
fn worker_messages() {
    let mut buf = WebhookBuffer::new(String::from("u"));
    assert!(buf.handle(Message::AddEmbed(embed(7))).is_none());
    let payload = buf.handle(Message::Flush).unwrap();
    assert_eq!(payload.embeds[0].color, 7);
    assert!(buf.handle(Message::Flush).is_none());
}

#[test]
fn payload_keeps_order() {
    let payload = WebhookPayload::new(vec![embed(3), embed(1)]);
    assert_eq!(payload.embeds[0].color, 3);
    assert_eq!(payload.embeds[1].color, 1);
}

#[test]
fn rgb_packing() {
    assert_eq!(RgbColor::new(0x12, 0x34, 0x56).rgb(), 0x123456);
    assert_eq!(RgbColor::new(255, 255, 255).rgb(), 0xffffff);
    assert_eq!(RgbColor::new(0, 0, 0).rgb(), 0);
}

#[test]
fn accent_colors() {
    let req = ServerListPingRequest {
        protocol_version: 765,
        server_address: String::from("h"),
        server_port: 1,
    };
    let join = RequestType::Join(Sample { name: String::from("n"), id: String::from("i") });
    assert_eq!(get_color_from_request_type(&join), 0xfa1414);
    assert_eq!(get_color_from_request_type(&RequestType::LegacyPing(req.clone())), 0xdc9614);
    assert_eq!(get_color_from_request_type(&RequestType::ModernPing(req)), 0x14fa14);
}

#[test]
fn favicon_uri() {
    assert_eq!(favicon_data_uri(&b"abc".to_vec()), "data:image/png;base64,YWJj");
    assert_eq!(favicon_data_uri(&vec![0xff, 0x00]), "data:image/png;base64,/wA=");
    assert_eq!(favicon_data_uri(&vec![]), "data:image/png;base64,");
}
