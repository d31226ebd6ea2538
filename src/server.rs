use vstd::prelude::*;
use vstd::utf8::{encode_utf8, encode_utf8_decode_utf8, encode_utf8_valid_utf8};

use crate::codec::{
    be_value, field, format_uuid, lemma_varint_bytes_len, lemma_varint_round_trip, push_all,
    read_bytes, read_int128, read_unsigned_short, read_utf8_string, read_varint, u32_magnitude,
    utf8_field, uuid_text, varint_bytes, varint_complete, varint_len, varint_max_len,
    varint_value, write_utf8_string, write_varint, WireError,
};
use crate::types::{Sample, ServerListPingRequest};

verus! {

/// A connection whose first byte is `0xFE` speaks the legacy protocol.
pub open spec fn starts_legacy(data: Seq<u8>) -> bool {
    data.len() > 0 && data[0] == 0xFE
}

/// Whether the bytes a client sent first call for the legacy handler; an empty input does not.
pub fn is_legacy_ping(data: &[u8]) -> (r: bool)
    ensures
        r == starts_legacy(data@),
{
    data.len() > 0 && data[0] == 0xFE
}

/// A varint at `pos`: its value and the position after it.
pub open spec fn varint_at(s: Seq<u8>, pos: int) -> Option<(int, int)> {
    if 0 <= pos <= s.len() && varint_complete(s.skip(pos)) {
        Some((varint_value(s.skip(pos)), pos + varint_len(s.skip(pos), varint_max_len())))
    } else {
        None
    }
}

/// A length-prefixed UTF-8 string at `pos`: its text and the position after it.
pub open spec fn utf8_at(s: Seq<u8>, pos: int) -> Option<(Seq<char>, int)> {
    if 0 <= pos <= s.len() {
        match utf8_field(s.skip(pos)) {
            Some((text, n)) => Some((text, pos + n)),
            None => None,
        }
    } else {
        None
    }
}

/// A big-endian unsigned integer of `k` bytes at `pos`, and the position after it.
pub open spec fn uint_at(s: Seq<u8>, pos: int, k: int) -> Option<(nat, int)> {
    if 0 <= pos && pos + k <= s.len() {
        Some((be_value(field(s, pos, k)), pos + k))
    } else {
        None
    }
}

/// The handshake fields, read from the start of the input: packet length and id (both
/// unused), protocol version, server address, port and next state, then the position after
/// them.
pub open spec fn handshake_fields(s: Seq<u8>) -> Option<(int, Seq<char>, nat, int, int)> {
    match varint_at(s, 0) {
        None => None,
        Some((_, p1)) => match varint_at(s, p1) {
            None => None,
            Some((_, p2)) => match varint_at(s, p2) {
                None => None,
                Some((protocol, p3)) => match utf8_at(s, p3) {
                    None => None,
                    Some((address, p4)) => match uint_at(s, p4, 2) {
                        None => None,
                        Some((port, p5)) => match varint_at(s, p5) {
                            None => None,
                            Some((next, p6)) => Some((protocol, address, port, next, p6)),
                        },
                    },
                },
            },
        },
    }
}

/// The login-start packet at `pos`: length and id (unused), user name, 128-bit UUID, and
/// the position after it.
pub open spec fn login_fields(s: Seq<u8>, pos: int) -> Option<(Seq<char>, nat, int)> {
    match varint_at(s, pos) {
        None => None,
        Some((_, p1)) => match varint_at(s, p1) {
            None => None,
            Some((_, p2)) => match utf8_at(s, p2) {
                None => None,
                Some((name, p3)) => match uint_at(s, p3, 16) {
                    None => None,
                    Some((uuid, p4)) => Some((name, uuid, p4)),
                },
            },
        },
    }
}

/// The status-request packet at `pos`, a length and an id: the position after it.
pub open spec fn status_request_end(s: Seq<u8>, pos: int) -> Option<int> {
    match varint_at(s, pos) {
        None => None,
        Some((_, p1)) => match varint_at(s, p1) {
            None => None,
            Some((_, p2)) => Some(p2),
        },
    }
}

/// The fields of a handshake.
pub struct Handshake {
    pub protocol_version: i32,
    pub server_address: String,
    pub server_port: u16,
    pub next_state: i32,
}

/// Reads the handshake at the start of the input.
pub fn parse_handshake(data: &[u8]) -> (r: Result<(Handshake, usize), WireError>)
    ensures
        match (r, handshake_fields(data@)) {
            (Ok((h, end)), Some((protocol, address, port, next, e))) => h.protocol_version
                == protocol && h.server_address@ == address && h.server_port == port
                && h.next_state == next && end == e,
            (Err(e), None) => e == WireError::TruncatedInput,
            _ => false,
        },
{
    let (_len, p1) = match read_varint(data, 0) {
        Ok(x) => x,
        Err(e) => return Err(e),
    };
    let (_id, p2) = match read_varint(data, p1) {
        Ok(x) => x,
        Err(e) => return Err(e),
    };
    let (protocol_version, p3) = match read_varint(data, p2) {
        Ok(x) => x,
        Err(e) => return Err(e),
    };
    let (server_address, p4) = match read_utf8_string(data, p3) {
        Ok(x) => x,
        Err(e) => return Err(e),
    };
    let (server_port, p5) = match read_unsigned_short(data, p4) {
        Ok(x) => x,
        Err(e) => return Err(e),
    };
    let (next_state, p6) = match read_varint(data, p5) {
        Ok(x) => x,
        Err(e) => return Err(e),
    };
    Ok((Handshake { protocol_version, server_address, server_port, next_state }, p6))
}

/// What a modern client asked for.
pub enum ModernRequest {
    /// A status query (next state 1), with the handshake's fields.
    Status(ServerListPingRequest),
    /// A login attempt (next state 2): the user name and the formatted UUID.
    Join(Sample),
}

/// Reads a modern client's opening packets: the handshake, then for a login the login-start
/// packet, for a status query the status-request packet. Returns what was asked and the
/// position after what was read. A next state other than 1 or 2 is refused.
pub fn parse_modern_request(data: &[u8]) -> (r: Result<(ModernRequest, usize), WireError>)
    ensures
        match handshake_fields(data@) {
            None => r == Err::<(ModernRequest, usize), WireError>(WireError::TruncatedInput),
            Some((protocol, address, port, next, p)) => if next == 1 {
                match (r, status_request_end(data@, p)) {
                    (Ok((ModernRequest::Status(req), end)), Some(e)) => req.protocol_version
                        == protocol && req.server_address@ == address && req.server_port == port
                        && end == e,
                    (Err(WireError::TruncatedInput), None) => true,
                    _ => false,
                }
            } else if next == 2 {
                match (r, login_fields(data@, p)) {
                    (Ok((ModernRequest::Join(sample), end)), Some((name, uuid, e))) => sample.name@
                        == name && sample.id@ == uuid_text(uuid) && end == e,
                    (Err(WireError::TruncatedInput), None) => true,
                    _ => false,
                }
            } else {
                r == Err::<(ModernRequest, usize), WireError>(WireError::UnsupportedState)
            },
        },
{
    let (h, p) = match parse_handshake(data) {
        Ok(x) => x,
        Err(e) => return Err(e),
    };
    if h.next_state == 2 {
        let (_len, p1) = match read_varint(data, p) {
            Ok(x) => x,
            Err(e) => return Err(e),
        };
        let (_id, p2) = match read_varint(data, p1) {
            Ok(x) => x,
            Err(e) => return Err(e),
        };
        let (name, p3) = match read_utf8_string(data, p2) {
            Ok(x) => x,
            Err(e) => return Err(e),
        };
        let (uuid, p4) = match read_int128(data, p3) {
            Ok(x) => x,
            Err(e) => return Err(e),
        };
        Ok((ModernRequest::Join(Sample { name, id: format_uuid(uuid) }), p4))
    } else if h.next_state == 1 {
        let (_len, p1) = match read_varint(data, p) {
            Ok(x) => x,
            Err(e) => return Err(e),
        };
        let (_id, p2) = match read_varint(data, p1) {
            Ok(x) => x,
            Err(e) => return Err(e),
        };
        let request = ServerListPingRequest {
            protocol_version: h.protocol_version,
            server_address: h.server_address,
            server_port: h.server_port,
        };
        Ok((ModernRequest::Status(request), p2))
    } else {
        Err(WireError::UnsupportedState)
    }
}

/// The most a client may send before its request has been read.
pub const MAX_REQUEST_BYTES: usize = 65536;

/// Whether to wait for more bytes before deciding: only where the request was cut short
/// and the client has not sent more than the cap.
pub fn should_read_more(parsed: &Result<(ModernRequest, usize), WireError>, buffered: usize) -> (r: bool)
    ensures
        r == (parsed matches Err(WireError::TruncatedInput) && buffered <= MAX_REQUEST_BYTES),
{
    match parsed {
        Err(WireError::TruncatedInput) => buffered <= MAX_REQUEST_BYTES,
        _ => false,
    }
}

/// The status-response packet that carries the text `json`: its length, then id 0 and the
/// text as a length-prefixed UTF-8 string.
pub open spec fn status_packet(json: Seq<char>) -> Seq<u8> {
    let body = seq![0u8] + varint_bytes(encode_utf8(json).len()) + encode_utf8(json);
    varint_bytes(body.len()) + body
}

/// Frames the serialized status response.
pub fn status_response_packet(json: String) -> (r: Vec<u8>)
    requires
        encode_utf8(json@).len() <= i32::MAX - 6,
    ensures
        r@ == status_packet(json@),
{
    let ghost text = json@;
    let mut body: Vec<u8> = Vec::new();
    write_varint(&mut body, 0);
    write_utf8_string(&mut body, json);
    proof {
        lemma_varint_bytes_len(encode_utf8(text).len());
        assert(varint_bytes(0) == seq![0u8]);
    }
    let mut out: Vec<u8> = Vec::new();
    write_varint(&mut out, body.len() as i32);
    push_all(&mut out, body.as_slice());
    assert(out@ =~= status_packet(text));
    out
}

/// A status-response packet reads back as one frame, whatever bytes follow it: its length
/// covers exactly the rest of the packet, which holds id 0 and then the text it was made of.
pub proof fn lemma_status_packet_reads_back(json: Seq<char>, rest: Seq<u8>)
    requires
        encode_utf8(json).len() <= i32::MAX - 6,
    ensures
        ({
            let p = status_packet(json);
            let s = p + rest;
            match varint_at(s, 0) {
                Some((len, h)) => h + len == p.len() && varint_at(s, h) == Some((0int, h + 1))
                    && utf8_at(s, h + 1) == Some((json, p.len() as int)),
                None => false,
            }
        }),
{
    let enc = encode_utf8(json);
    let n = enc.len();
    lemma_varint_bytes_len(n);
    let body = seq![0u8] + varint_bytes(n) + enc;
    let p = status_packet(json);
    let s = p + rest;
    let v = body.len() as i32;
    assert(u32_magnitude(v) == body.len());
    lemma_varint_round_trip(v, body + rest);
    let h = varint_bytes(body.len()).len() as int;
    assert(s.skip(0) =~= varint_bytes(u32_magnitude(v)) + (body + rest));
    assert(s.skip(h) =~= varint_bytes(u32_magnitude(0)) + ((varint_bytes(n) + enc) + rest)) by {
        lemma_varint_round_trip(0, Seq::empty());
    }
    lemma_varint_round_trip(0, (varint_bytes(n) + enc) + rest);
    let t = s.skip(h + 1);
    let w = n as i32;
    assert(u32_magnitude(w) == n);
    assert(t =~= varint_bytes(u32_magnitude(w)) + (enc + rest));
    lemma_varint_round_trip(w, enc + rest);
    let k = varint_bytes(n).len() as int;
    assert(t.subrange(k, k + n) =~= enc);
    encode_utf8_valid_utf8(json);
    encode_utf8_decode_utf8(json);
}

/// The 8-byte payload of the ping packet at `pos`, after its length and id.
pub open spec fn ping_payload(s: Seq<u8>, pos: int) -> Option<Seq<u8>> {
    match status_request_end(s, pos) {
        None => None,
        Some(p) => if p + 8 <= s.len() {
            Some(field(s, p, 8))
        } else {
            None
        },
    }
}

/// The pong packet: length 9, id 1, then the ping's payload unchanged.
pub open spec fn pong_packet(payload: Seq<u8>) -> Seq<u8> {
    seq![9u8, 1u8] + payload
}

/// The reply to a ping packet at `pos`, where a complete one is there; `None` where the
/// client sent none (or not all of one).
pub fn ping_reply(data: &[u8], pos: usize) -> (r: Option<Vec<u8>>)
    requires
        pos <= data@.len(),
    ensures
        match (r, ping_payload(data@, pos as int)) {
            (Some(v), Some(payload)) => v@ == pong_packet(payload),
            (None, None) => true,
            _ => false,
        },
{
    let (_len, p1) = match read_varint(data, pos) {
        Ok(x) => x,
        Err(_) => return None,
    };
    let (_id, p2) = match read_varint(data, p1) {
        Ok(x) => x,
        Err(_) => return None,
    };
    let (payload, _) = match read_bytes(data, p2, 8) {
        Ok(x) => x,
        Err(_) => return None,
    };
    let mut out: Vec<u8> = Vec::new();
    write_varint(&mut out, 9);
    write_varint(&mut out, 1);
    push_all(&mut out, payload.as_slice());
    assert(varint_bytes(9) == seq![9u8]);
    assert(varint_bytes(1) == seq![1u8]);
    assert(out@ =~= pong_packet(payload@));
    Some(out)
}

} // verus!
