use vstd::prelude::*;

use crate::codec::{
    be16_units, be_value, field, push_all, read_int, read_unsigned_short, read_utf16_string,
};
use crate::text::{chars_of, string_from_chars, utf16_encode, utf16_units};
use crate::server::MAX_REQUEST_BYTES;
use crate::types::{ServerListPingRequest, ServerListPingResponse};

verus! {

/// The character that opens a color code; the character after it names the color.
pub open spec fn is_color_marker(c: char) -> bool {
    c == '\u{a7}'
}

/// `s` from position `i` on, with every marker and the character after it removed.
pub open spec fn strip_from(s: Seq<char>, i: int) -> Seq<char>
    decreases s.len() + 1 - i,
{
    if i < 0 || i >= s.len() {
        Seq::empty()
    } else if is_color_marker(s[i]) {
        strip_from(s, i + 2)
    } else {
        seq![s[i]] + strip_from(s, i + 1)
    }
}

/// `s` without its color codes.
pub open spec fn strip(s: Seq<char>) -> Seq<char> {
    strip_from(s, 0)
}

/// Removes color codes: each marker character together with the character that follows it.
pub fn strip_color_codes(input: &str) -> (r: String)
    ensures
        r@ == strip(input@),
{
    let chars = chars_of(input);
    let mut out: Vec<char> = Vec::new();
    let mut i: usize = 0;
    while i < chars.len()
        invariant
            chars@ == input@,
            out@ + strip_from(chars@, i as int) == strip(chars@),
        decreases chars@.len() - i,
    {
        if chars[i] == '\u{a7}' {
            assert(strip_from(chars@, i as int) == strip_from(chars@, i + 2));
            assert(strip_from(chars@, chars@.len() as int) == Seq::<char>::empty());
            i = if chars.len() - i >= 2 {
                i + 2
            } else {
                chars.len()
            };
        } else {
            let ghost before = out@;
            out.push(chars[i]);
            assert(out@ + strip_from(chars@, i + 1) =~= before + strip_from(chars@, i as int));
            i += 1;
        }
    }
    assert(strip_from(chars@, i as int) =~= Seq::<char>::empty());
    assert(out@ =~= strip(chars@));
    string_from_chars(&out)
}

proof fn lemma_strip_has_no_marker(s: Seq<char>, i: int)
    ensures
        forall|k: int| 0 <= k < strip_from(s, i).len() ==> !is_color_marker(#[trigger] strip_from(s, i)[k]),
    decreases s.len() + 1 - i,
{
    if 0 <= i < s.len() {
        if is_color_marker(s[i]) {
            lemma_strip_has_no_marker(s, i + 2);
            assert(strip_from(s, i) == strip_from(s, i + 2));
        } else {
            lemma_strip_has_no_marker(s, i + 1);
            let t = strip_from(s, i + 1);
            assert(strip_from(s, i) == seq![s[i]] + t);
            assert forall|k: int| 0 <= k < strip_from(s, i).len() implies !is_color_marker(
                #[trigger] strip_from(s, i)[k],
            ) by {
                if k > 0 {
                    assert(strip_from(s, i)[k] == t[k - 1]);
                }
            }
        }
    }
}

proof fn lemma_strip_plain(s: Seq<char>, i: int)
    requires
        0 <= i,
        forall|k: int| 0 <= k < s.len() ==> !is_color_marker(#[trigger] s[k]),
    ensures
        strip_from(s, i) == (if i < s.len() { s.skip(i) } else { Seq::empty() }),
    decreases s.len() - i,
{
    if i < s.len() {
        lemma_strip_plain(s, i + 1);
        assert(strip_from(s, i) =~= s.skip(i));
    }
}

/// Text without color codes is left as it is, and so stripping twice strips no more than
/// stripping once.
pub proof fn lemma_strip_idempotent(s: Seq<char>)
    ensures
        strip(strip(s)) == strip(s),
        (forall|k: int| 0 <= k < s.len() ==> !is_color_marker(#[trigger] s[k])) ==> strip(s) == s,
{
    lemma_strip_has_no_marker(s, 0);
    lemma_strip_plain(strip(s), 0);
    assert(strip(s).skip(0) =~= strip(s));
    if forall|k: int| 0 <= k < s.len() ==> !is_color_marker(#[trigger] s[k]) {
        lemma_strip_plain(s, 0);
        assert(s.skip(0) =~= s);
    }
}

/// The decimal digit `d`.
pub open spec fn digit_char(d: nat) -> char {
    (48 + d) as char
}

/// The decimal digits of `n`, without leading zeros.
pub open spec fn nat_digits(n: nat) -> Seq<char>
    decreases n,
{
    if n < 10 {
        seq![digit_char(n)]
    } else {
        nat_digits(n / 10) + seq![digit_char(n % 10)]
    }
}

/// `n` in decimal, with a leading `-` where it is negative.
pub open spec fn decimal(n: int) -> Seq<char> {
    if n < 0 {
        seq!['-'] + nat_digits((-n) as nat)
    } else {
        nat_digits(n as nat)
    }
}

fn push_nat_digits(out: &mut Vec<char>, n: u64)
    ensures
        final(out)@ == old(out)@ + nat_digits(n as nat),
    decreases n,
{
    let ghost start = out@;
    if n >= 10 {
        push_nat_digits(out, n / 10);
    }
    out.push((48u8 + (n % 10) as u8) as char);
    assert(out@ =~= start + nat_digits(n as nat));
}

fn push_decimal(out: &mut Vec<char>, n: i32)
    ensures
        final(out)@ == old(out)@ + decimal(n as int),
{
    let ghost start = out@;
    if n < 0 {
        out.push('-');
        push_nat_digits(out, (-(n as i64)) as u64);
        assert(out@ =~= start + decimal(n as int));
    } else {
        push_nat_digits(out, n as u64);
    }
}

/// The text of a legacy status reply: a marker and `1`, then protocol, version name,
/// description without color codes, online and maximum player counts, all separated by NUL.
pub open spec fn legacy_text(
    protocol: i32,
    name: Seq<char>,
    description: Seq<char>,
    online: i32,
    max: i32,
) -> Seq<char> {
    seq!['\u{a7}', '1', '\0'] + decimal(protocol as int) + seq!['\0'] + name + seq!['\0'] + strip(
        description,
    ) + seq!['\0'] + decimal(online as int) + seq!['\0'] + decimal(max as int)
}

/// Each 16-bit unit as two bytes, high byte first.
pub open spec fn be16_bytes(units: Seq<u16>) -> Seq<u8>
    decreases units.len(),
{
    if units.len() == 0 {
        Seq::empty()
    } else {
        be16_bytes(units.drop_last()) + seq![(units.last() / 256) as u8, (units.last() % 256) as u8]
    }
}

/// A legacy reply frame: byte `0xFF`, the unit count less one as a big-endian 16-bit
/// number, then the units big-endian.
pub open spec fn legacy_frame(units: Seq<u16>) -> Seq<u8> {
    let n = ((units.len() + 65535) % 65536) as nat;
    seq![0xFFu8, (n / 256) as u8, (n % 256) as u8] + be16_bytes(units)
}

/// The legacy reply for a status response.
pub open spec fn legacy_reply(response: &ServerListPingResponse) -> Seq<u8> {
    legacy_frame(
        utf16_encode(
            legacy_text(
                response.version.protocol,
                response.version.name@,
                response.description.text@,
                response.players.online,
                response.players.max,
            ),
        ),
    )
}

fn legacy_text_chars(response: &ServerListPingResponse) -> (r: Vec<char>)
    ensures
        r@ == legacy_text(
            response.version.protocol,
            response.version.name@,
            response.description.text@,
            response.players.online,
            response.players.max,
        ),
{
    let mut text: Vec<char> = Vec::new();
    text.push('\u{a7}');
    text.push('1');
    text.push('\0');
    let ghost t0 = text@;
    push_decimal(&mut text, response.version.protocol);
    text.push('\0');
    let ghost t1 = text@;
    assert(t1 =~= t0 + decimal(response.version.protocol as int) + seq!['\0']);
    let name = chars_of(response.version.name.as_str());
    push_all(&mut text, name.as_slice());
    text.push('\0');
    let ghost t2 = text@;
    assert(t2 =~= t1 + response.version.name@ + seq!['\0']);
    let stripped = strip_color_codes(response.description.text.as_str());
    let description = chars_of(stripped.as_str());
    push_all(&mut text, description.as_slice());
    text.push('\0');
    let ghost t3 = text@;
    assert(t3 =~= t2 + strip(response.description.text@) + seq!['\0']);
    push_decimal(&mut text, response.players.online);
    text.push('\0');
    let ghost t4 = text@;
    assert(t4 =~= t3 + decimal(response.players.online as int) + seq!['\0']);
    push_decimal(&mut text, response.players.max);
    assert(text@ =~= legacy_text(
        response.version.protocol,
        response.version.name@,
        response.description.text@,
        response.players.online,
        response.players.max,
    ));
    text
}

fn legacy_frame_bytes(units: &[u16]) -> (r: Vec<u8>)
    ensures
        r@ == legacy_frame(units@),
{
    let len = units.len();
    let n: usize = (len % 65536 + 65535) % 65536;
    assert(n == (len + 65535) % 65536) by (nonlinear_arith)
        requires
            n == (len % 65536 + 65535) % 65536,
    ;
    let mut out: Vec<u8> = Vec::new();
    out.push(0xFF);
    out.push((n / 256) as u8);
    out.push((n % 256) as u8);
    let ghost header = out@;
    let mut i: usize = 0;
    while i < units.len()
        invariant
            i <= units@.len(),
            out@ == header + be16_bytes(units@.take(i as int)),
        decreases units@.len() - i,
    {
        let u = units[i];
        let ghost prev = units@.take(i as int);
        let ghost next = units@.take(i + 1);
        assert(next.drop_last() =~= prev);
        assert(next.last() == u);
        assert(be16_bytes(next) == be16_bytes(prev) + seq![(u / 256) as u8, (u % 256) as u8]);
        out.push((u / 256) as u8);
        out.push((u % 256) as u8);
        i += 1;
        assert(out@ =~= header + be16_bytes(next));
    }
    assert(units@.take(i as int) =~= units@);
    assert(out@ =~= legacy_frame(units@));
    out
}

/// Builds the framed legacy reply that reports `response`.
pub fn legacy_response_packet(response: &ServerListPingResponse) -> (r: Vec<u8>)
    ensures
        r@ == legacy_reply(response),
{
    let text = legacy_text_chars(response);
    let units = utf16_units(text.as_slice());
    legacy_frame_bytes(units.as_slice())
}

/// Every legacy reply, whatever the response, is a frame: byte `0xFF` and a two-byte length
/// come first.
pub proof fn lemma_legacy_reply_is_frame(response: &ServerListPingResponse)
    ensures
        legacy_reply(response).len() >= 3,
        legacy_reply(response)[0] == 0xFF,
{
}

/// The length in UTF-16 units of the plugin channel name of a legacy ping, which stands
/// after three single bytes; `None` where the input ends first.
pub open spec fn legacy_channel_len(s: Seq<u8>) -> Option<int> {
    if s.len() >= 5 {
        Some(be_value(field(s, 3, 2)) as int)
    } else {
        None
    }
}

/// The hostname length of a legacy ping whose channel name is `c` units long: it stands
/// after the channel name, a 16-bit length and the protocol byte.
pub open spec fn legacy_host_len(s: Seq<u8>, c: int) -> int {
    be_value(field(s, 8 + 2 * c, 2)) as int
}

/// The input holds a whole legacy ping: three single bytes, the channel name with its
/// length, a 16-bit length, the protocol byte, the hostname with its length, and a
/// 32-bit port.
pub open spec fn legacy_complete(s: Seq<u8>) -> bool {
    match legacy_channel_len(s) {
        Some(c) => 10 + 2 * c <= s.len() && 14 + 2 * c + 2 * legacy_host_len(s, c) <= s.len(),
        None => false,
    }
}

/// The protocol byte of a whole legacy ping.
pub open spec fn legacy_protocol(s: Seq<u8>) -> int {
    let c = legacy_channel_len(s).unwrap();
    s[7 + 2 * c] as int
}

/// The UTF-16 units of the hostname of a whole legacy ping.
pub open spec fn legacy_host_units(s: Seq<u8>) -> Seq<u16> {
    let c = legacy_channel_len(s).unwrap();
    be16_units(field(s, 10 + 2 * c, 2 * legacy_host_len(s, c)))
}

/// The 32-bit port of a whole legacy ping, after the hostname.
pub open spec fn legacy_port(s: Seq<u8>) -> nat {
    let c = legacy_channel_len(s).unwrap();
    be_value(field(s, 10 + 2 * c + 2 * legacy_host_len(s, c), 4))
}

/// Whether the bytes received so far hold a whole legacy ping, so that nothing more need
/// be read before answering.
pub fn legacy_ping_complete(data: &[u8]) -> (r: bool)
    ensures
        r == legacy_complete(data@),
{
    let total = data.len();
    if total < 5 {
        return false;
    }
    let c: usize = match read_unsigned_short(data, 3) {
        Ok((v, _)) => v as usize,
        Err(_) => return false,
    };
    let host_pos: usize = 8 + 2 * c;
    if host_pos + 2 > total {
        return false;
    }
    let h: usize = match read_unsigned_short(data, host_pos) {
        Ok((v, _)) => v as usize,
        Err(_) => return false,
    };
    assert(legacy_channel_len(data@) == Some(c as int));
    assert(legacy_host_len(data@, c as int) == h);
    4 + 2 * h <= total - (host_pos + 2)
}

/// Whether to wait for more bytes of a legacy ping: only while it is not whole and the
/// client has not sent more than the cap.
pub fn legacy_should_read_more(data: &[u8]) -> (r: bool)
    ensures
        r == (!legacy_complete(data@) && data@.len() <= MAX_REQUEST_BYTES),
{
    !legacy_ping_complete(data) && data.len() <= MAX_REQUEST_BYTES
}

/// Reads a legacy ping from the bytes a client sent, starting at its first byte `0xFE`.
/// Never fails. Where the input does not hold a whole ping, the request is made of empty
/// and zero fields. In a whole ping, a hostname that is not valid UTF-16 reads as empty and
/// the other fields are kept; the port keeps the low 16 bits of the 32-bit field.
pub fn parse_legacy_ping(data: &[u8]) -> (r: ServerListPingRequest)
    ensures
        legacy_complete(data@) ==> {
            &&& r.protocol_version == legacy_protocol(data@)
            &&& r.server_port == legacy_port(data@) % 65536
            &&& (utf16_encode(r.server_address@) == legacy_host_units(data@) || (
            r.server_address@ == Seq::<char>::empty() && forall|t: Seq<char>|
                #[trigger] utf16_encode(t) != legacy_host_units(data@)))
        },
        !legacy_complete(data@) ==> r.protocol_version == 0 && r.server_port == 0
            && r.server_address@ == Seq::<char>::empty(),
{
    let empty = ServerListPingRequest {
        protocol_version: 0,
        server_address: String::new(),
        server_port: 0,
    };
    if !legacy_ping_complete(data) {
        return empty;
    }
    let c: usize = match read_unsigned_short(data, 3) {
        Ok((v, _)) => v as usize,
        Err(_) => return empty,
    };
    let ghost s = data@;
    assert(legacy_channel_len(s) == Some(c as int));
    let protocol: i32 = data[7 + 2 * c] as i32;
    let host_pos: usize = 8 + 2 * c;
    let h: usize = match read_unsigned_short(data, host_pos) {
        Ok((v, _)) => v as usize,
        Err(_) => return empty,
    };
    assert(legacy_host_len(s, c as int) == h);
    let text_pos: usize = host_pos + 2;
    let host = match read_utf16_string(data, text_pos, h as u16) {
        Ok((v, _)) => v,
        Err(_) => String::new(),
    };
    let port: u32 = match read_int(data, text_pos + 2 * h) {
        Ok((v, _)) => v,
        Err(_) => return empty,
    };
    ServerListPingRequest {
        protocol_version: protocol,
        server_address: host,
        server_port: (port % 65536) as u16,
    }
}

} // verus!
