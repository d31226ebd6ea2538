use vstd::prelude::*;

use vstd::utf8::encode_utf8;

use crate::text::{
    string_from_chars, string_from_utf16, string_from_utf8, utf16_encode, utf8_text_or_empty,
};

verus! {

/// Why a field could not be read from a byte buffer.
#[derive(PartialEq, Eq, Structural, Debug, Clone, Copy)]
pub enum WireError {
    /// The input ended before the field was complete.
    TruncatedInput,
    /// A UTF-16 text held an unpaired surrogate.
    InvalidEncoding,
    /// The handshake asked for a state other than status or login.
    UnsupportedState,
}

pub open spec fn pow128(k: nat) -> nat
    decreases k,
{
    if k == 0 {
        1
    } else {
        128 * pow128((k - 1) as nat)
    }
}

/// The varint encoding of `n`: seven bits per byte, least significant group first, the high
/// bit set on every byte but the last.
pub open spec fn varint_bytes(n: nat) -> Seq<u8>
    decreases n,
{
    if n < 128 {
        seq![n as u8]
    } else {
        seq![(n % 128 + 128) as u8] + varint_bytes(n / 128)
    }
}

/// The unsigned 32-bit magnitude under which a signed value is encoded.
pub open spec fn u32_magnitude(v: i32) -> nat {
    if v >= 0 {
        v as nat
    } else {
        (v + 0x1_0000_0000) as nat
    }
}

/// How many bytes a varint reader consumes from the front of `s` when it reads at most
/// `budget` bytes: up to and including the first byte without its high bit.
pub open spec fn varint_len(s: Seq<u8>, budget: nat) -> nat
    decreases budget,
{
    if budget <= 1 || s.len() == 0 || s[0] < 128 {
        1
    } else {
        1 + varint_len(s.drop_first(), (budget - 1) as nat)
    }
}

/// The seven-bit groups of the first `k` bytes of `s`, least significant first.
pub open spec fn varint_sum(s: Seq<u8>, k: nat) -> nat
    decreases k,
{
    if k == 0 || s.len() == 0 {
        0
    } else {
        (s[0] % 128) as nat + 128 * varint_sum(s.drop_first(), (k - 1) as nat)
    }
}

/// The signed 32-bit value whose bit pattern is the low 32 bits of `n`.
pub open spec fn i32_of_bits(n: nat) -> int {
    let m = n % 0x1_0000_0000;
    if m < 0x8000_0000 {
        m as int
    } else {
        m - 0x1_0000_0000
    }
}

/// The longest varint a reader accepts.
pub open spec fn varint_max_len() -> nat {
    5
}

/// A varint can be read from the front of `s`: the bytes it needs are all there.
pub open spec fn varint_complete(s: Seq<u8>) -> bool {
    varint_len(s, varint_max_len()) <= s.len()
}

/// The value read from a varint at the front of `s`.
pub open spec fn varint_value(s: Seq<u8>) -> int {
    i32_of_bits(varint_sum(s, varint_len(s, varint_max_len())))
}

/// Appends the varint encoding of `value`, taken as an unsigned 32-bit magnitude.
pub fn write_varint(buffer: &mut Vec<u8>, value: i32)
    ensures
        final(buffer)@ == old(buffer)@ + varint_bytes(u32_magnitude(value)),
{
    let mut n: u64 = if value >= 0 {
        value as u64
    } else {
        (value as i64 + 0x1_0000_0000) as u64
    };
    let ghost start = buffer@;
    while n >= 128
        invariant
            start + varint_bytes(u32_magnitude(value)) == buffer@ + varint_bytes(n as nat),
        decreases n,
    {
        let ghost before = buffer@;
        let b: u8 = (n % 128 + 128) as u8;
        buffer.push(b);
        n = n / 128;
        assert(before + varint_bytes((n * 128 + b % 128) as nat) =~= buffer@ + varint_bytes(
            n as nat,
        ));
    }
    buffer.push(n as u8);
    assert(start + varint_bytes(u32_magnitude(value)) =~= buffer@);
}

fn varint_sum_at(data: &[u8], pos: usize, budget: usize) -> (r: Option<(u64, usize)>)
    requires
        pos <= data@.len(),
        1 <= budget <= 5,
    ensures
        ({
            let s = data@.skip(pos as int);
            match r {
                Some((acc, n)) => 1 <= n <= budget && n == varint_len(s, budget as nat) && n <= s.len() && acc
                    == varint_sum(s, n as nat) && acc < pow128(n as nat),
                None => s.len() < varint_len(s, budget as nat),
            }
        }),
    decreases budget,
{
    let ghost s = data@.skip(pos as int);
    if pos >= data.len() {
        return None;
    }
    let b = data[pos];
    assert(s[0] == b);
    if budget == 1 || b < 128 {
        assert(varint_sum(s, 1) == (s[0] % 128) as nat + 128 * varint_sum(s.drop_first(), 0));
        assert(pow128(1) == 128 * pow128(0));
        return Some(((b % 128) as u64, 1));
    }
    assert(data@.skip(pos + 1) =~= s.drop_first());
    match varint_sum_at(data, pos + 1, budget - 1) {
        None => None,
        Some((acc, n)) => {
            assert(pow128((n + 1) as nat) == 128 * pow128(n as nat));
            assert(pow128(n as nat) <= pow128(4)) by {
                lemma_pow128_mono(n as nat, 4);
            }
            assert(pow128(4) == 268435456) by {
                reveal_with_fuel(pow128, 5);
            }
            assert((b % 128) as u64 + 128 * acc < 128 * pow128(n as nat)) by (nonlinear_arith)
                requires
                    acc < pow128(n as nat),
                    b % 128 < 128,
                    acc + 1 <= pow128(n as nat),
            ;
            Some(((b % 128) as u64 + 128 * acc, n + 1))
        },
    }
}

proof fn lemma_pow128_mono(a: nat, b: nat)
    requires
        a <= b,
    ensures
        pow128(a) <= pow128(b),
    decreases b,
{
    if a < b {
        lemma_pow128_mono(a, (b - 1) as nat);
    }
}

/// Reads a varint at `pos`: up to five bytes, each adding its low seven bits, until one
/// without the high bit. Returns the value and the position after it.
pub fn read_varint(data: &[u8], pos: usize) -> (r: Result<(i32, usize), WireError>)
    requires
        pos <= data@.len(),
    ensures
        ({
            let s = data@.skip(pos as int);
            match r {
                Ok((v, end)) => varint_complete(s) && v == varint_value(s) && end == pos
                    + varint_len(s, varint_max_len()),
                Err(e) => !varint_complete(s) && e == WireError::TruncatedInput,
            }
        }),
{
    match varint_sum_at(data, pos, 5) {
        None => Err(WireError::TruncatedInput),
        Some((acc, n)) => {
            let total = data.len();
            assert(pos + n <= total);
            let low: u64 = acc % 0x1_0000_0000;
            let v: i32 = if low < 0x8000_0000 {
                low as i32
            } else {
                (low as i64 - 0x1_0000_0000) as i32
            };
            Ok((v, pos + n))
        },
    }
}

proof fn lemma_varint_prefix(n: nat, budget: nat, t: Seq<u8>)
    requires
        1 <= budget,
        n < pow128(budget),
    ensures
        varint_bytes(n).len() <= budget,
        varint_len(varint_bytes(n) + t, budget) == varint_bytes(n).len(),
        varint_sum(varint_bytes(n) + t, varint_bytes(n).len()) == n,
    decreases n,
{
    let s = varint_bytes(n) + t;
    if n < 128 {
        assert(s[0] == n as u8);
        assert(varint_sum(s.drop_first(), 0) == 0);
    } else {
        if budget == 1 {
            assert(pow128(1) == 128 * pow128(0));
        }
        let m = n / 128;
        assert(s.drop_first() =~= varint_bytes(m) + t);
        assert(m < pow128((budget - 1) as nat)) by (nonlinear_arith)
            requires
                n < 128 * pow128((budget - 1) as nat),
                m == n / 128,
        ;
        lemma_varint_prefix(m, (budget - 1) as nat, t);
        assert(n == n % 128 + 128 * m);
    }
}

/// Any 32-bit magnitude encodes in one to five bytes.
pub proof fn lemma_varint_bytes_len(n: nat)
    requires
        n < 0x1_0000_0000,
    ensures
        1 <= varint_bytes(n).len() <= varint_max_len(),
{
    assert(pow128(5) == 34359738368) by {
        reveal_with_fuel(pow128, 6);
    }
    lemma_varint_prefix(n, 5, Seq::empty());
    if n >= 128 {
        assert(varint_bytes(n) == seq![(n % 128 + 128) as u8] + varint_bytes(n / 128));
    }
}

/// Reading back what `write_varint` wrote gives the value that was written, whatever bytes
/// follow, and consumes exactly the encoding, which is one to five bytes long; zero is the
/// single byte 0.
pub proof fn lemma_varint_round_trip(v: i32, rest: Seq<u8>)
    ensures
        1 <= varint_bytes(u32_magnitude(v)).len() <= varint_max_len(),
        varint_complete(varint_bytes(u32_magnitude(v)) + rest),
        varint_len(varint_bytes(u32_magnitude(v)) + rest, varint_max_len()) == varint_bytes(
            u32_magnitude(v),
        ).len(),
        varint_value(varint_bytes(u32_magnitude(v)) + rest) == v,
        varint_bytes(u32_magnitude(0)) == seq![0u8],
{
    let n = u32_magnitude(v);
    assert(pow128(5) == 34359738368) by {
        reveal_with_fuel(pow128, 6);
    }
    lemma_varint_prefix(n, 5, rest);
    assert(varint_bytes(n).len() >= 1) by {
        if n >= 128 {
            assert(varint_bytes(n) == seq![(n % 128 + 128) as u8] + varint_bytes(n / 128));
        }
    }
}

pub open spec fn pow256(k: nat) -> nat
    decreases k,
{
    if k == 0 {
        1
    } else {
        256 * pow256((k - 1) as nat)
    }
}

proof fn lemma_pow256_mono(a: nat, b: nat)
    requires
        a <= b,
    ensures
        1 <= pow256(a) <= pow256(b),
    decreases b,
{
    if a < b {
        lemma_pow256_mono(a, (b - 1) as nat);
    } else if a > 0 {
        lemma_pow256_mono(0, (a - 1) as nat);
    }
}

/// The unsigned big-endian integer that the bytes `s` spell.
pub open spec fn be_value(s: Seq<u8>) -> nat
    decreases s.len(),
{
    if s.len() == 0 {
        0
    } else {
        be_value(s.drop_last()) * 256 + s.last() as nat
    }
}

/// The `k` bytes at `pos`, where they are all there.
pub open spec fn field(data: Seq<u8>, pos: int, k: int) -> Seq<u8> {
    data.subrange(pos, pos + k)
}

/// Reads a big-endian unsigned integer of `k` bytes at `pos`.
fn read_be(data: &[u8], pos: usize, k: usize) -> (r: Result<(u128, usize), WireError>)
    requires
        pos <= data@.len(),
        k <= 16,
    ensures
        match r {
            Ok((v, end)) => pos + k <= data@.len() && v == be_value(field(data@, pos as int, k as int))
                && end == pos + k && v < pow256(k as nat),
            Err(e) => pos + k > data@.len() && e == WireError::TruncatedInput,
        },
{
    let total = data.len();
    if k > total - pos {
        return Err(WireError::TruncatedInput);
    }
    let mut acc: u128 = 0;
    let mut i: usize = 0;
    proof {
        lemma_pow256_mono(15, 15);
        assert(pow256(15) == 0x1_0000_0000_0000_0000_0000_0000_0000_00) by {
            reveal_with_fuel(pow256, 16);
        }
    }
    while i < k
        invariant
            i <= k <= 16,
            pos + k <= total,
            total == data@.len(),
            acc == be_value(field(data@, pos as int, i as int)),
            acc < pow256(i as nat),
            pow256(15) == 0x1_0000_0000_0000_0000_0000_0000_0000_00,
        decreases k - i,
    {
        let b = data[pos + i];
        proof {
            lemma_pow256_mono(i as nat, 15);
            assert(acc * 256 + b < 256 * pow256(i as nat)) by (nonlinear_arith)
                requires
                    acc + 1 <= pow256(i as nat),
                    b < 256,
            ;
            assert(field(data@, pos as int, i + 1).drop_last() =~= field(data@, pos as int, i as int));
        }
        acc = acc * 256 + b as u128;
        i += 1;
    }
    Ok((acc, pos + k))
}

/// Reads one byte at `pos`.
pub fn read_byte(data: &[u8], pos: usize) -> (r: Result<(u8, usize), WireError>)
    requires
        pos <= data@.len(),
    ensures
        match r {
            Ok((v, end)) => pos < data@.len() && v == data@[pos as int] && end == pos + 1,
            Err(e) => pos >= data@.len() && e == WireError::TruncatedInput,
        },
{
    if pos < data.len() {
        Ok((data[pos], pos + 1))
    } else {
        Err(WireError::TruncatedInput)
    }
}

/// Reads a big-endian `u16` at `pos`.
pub fn read_unsigned_short(data: &[u8], pos: usize) -> (r: Result<(u16, usize), WireError>)
    requires
        pos <= data@.len(),
    ensures
        match r {
            Ok((v, end)) => pos + 2 <= data@.len() && v == be_value(field(data@, pos as int, 2))
                && end == pos + 2,
            Err(e) => pos + 2 > data@.len() && e == WireError::TruncatedInput,
        },
{
    match read_be(data, pos, 2) {
        Ok((v, end)) => {
            assert(pow256(2) == 65536) by {
                reveal_with_fuel(pow256, 3);
            }
            Ok((v as u16, end))
        },
        Err(e) => Err(e),
    }
}

/// Reads a little-endian `u16` at `pos`.
pub fn read_short_le(data: &[u8], pos: usize) -> (r: Result<(u16, usize), WireError>)
    requires
        pos <= data@.len(),
    ensures
        match r {
            Ok((v, end)) => pos + 2 <= data@.len() && v == data@[pos as int] + 256 * data@[pos
                + 1] && end == pos + 2,
            Err(e) => pos + 2 > data@.len() && e == WireError::TruncatedInput,
        },
{
    let total = data.len();
    if total - pos < 2 {
        return Err(WireError::TruncatedInput);
    }
    Ok((data[pos] as u16 + 256 * data[pos + 1] as u16, pos + 2))
}

/// Reads a big-endian `u32` at `pos`.
pub fn read_int(data: &[u8], pos: usize) -> (r: Result<(u32, usize), WireError>)
    requires
        pos <= data@.len(),
    ensures
        match r {
            Ok((v, end)) => pos + 4 <= data@.len() && v == be_value(field(data@, pos as int, 4))
                && end == pos + 4,
            Err(e) => pos + 4 > data@.len() && e == WireError::TruncatedInput,
        },
{
    match read_be(data, pos, 4) {
        Ok((v, end)) => {
            assert(pow256(4) == 0x1_0000_0000) by {
                reveal_with_fuel(pow256, 5);
            }
            Ok((v as u32, end))
        },
        Err(e) => Err(e),
    }
}

/// Reads a big-endian two's-complement `i64` at `pos`.
pub fn read_long(data: &[u8], pos: usize) -> (r: Result<(i64, usize), WireError>)
    requires
        pos <= data@.len(),
    ensures
        match r {
            Ok((v, end)) => pos + 8 <= data@.len() && end == pos + 8 && v == (if be_value(
                field(data@, pos as int, 8),
            ) < 0x8000_0000_0000_0000 {
                be_value(field(data@, pos as int, 8)) as int
            } else {
                be_value(field(data@, pos as int, 8)) - 0x1_0000_0000_0000_0000
            }),
            Err(e) => pos + 8 > data@.len() && e == WireError::TruncatedInput,
        },
{
    match read_be(data, pos, 8) {
        Ok((v, end)) => {
            assert(pow256(8) == 0x1_0000_0000_0000_0000) by {
                reveal_with_fuel(pow256, 9);
            }
            if v < 0x8000_0000_0000_0000 {
                Ok((v as i64, end))
            } else {
                Ok(((v as i128 - 0x1_0000_0000_0000_0000) as i64, end))
            }
        },
        Err(e) => Err(e),
    }
}

/// Reads a big-endian `u128` at `pos`.
pub fn read_int128(data: &[u8], pos: usize) -> (r: Result<(u128, usize), WireError>)
    requires
        pos <= data@.len(),
    ensures
        match r {
            Ok((v, end)) => pos + 16 <= data@.len() && v == be_value(field(data@, pos as int, 16))
                && end == pos + 16,
            Err(e) => pos + 16 > data@.len() && e == WireError::TruncatedInput,
        },
{
    read_be(data, pos, 16)
}

/// Reads `amount` raw bytes at `pos`.
pub fn read_bytes(data: &[u8], pos: usize, amount: usize) -> (r: Result<(Vec<u8>, usize), WireError>)
    requires
        pos <= data@.len(),
    ensures
        match r {
            Ok((v, end)) => pos + amount <= data@.len() && v@ == field(data@, pos as int, amount as int)
                && end == pos + amount,
            Err(e) => pos + amount > data@.len() && e == WireError::TruncatedInput,
        },
{
    let total = data.len();
    if amount > total - pos {
        return Err(WireError::TruncatedInput);
    }
    let mut out: Vec<u8> = Vec::new();
    let mut i: usize = 0;
    while i < amount
        invariant
            i <= amount,
            pos + amount <= total,
            total == data@.len(),
            out@ == field(data@, pos as int, i as int),
        decreases amount - i,
    {
        out.push(data[pos + i]);
        i += 1;
        assert(out@ =~= field(data@, pos as int, i as int));
    }
    Ok((out, pos + amount))
}

/// A length-prefixed UTF-8 string at the front of `s`: its text (empty where the bytes are
/// not valid UTF-8) and how many bytes it takes; `None` where the input ends first or the
/// length is negative.
pub open spec fn utf8_field(s: Seq<u8>) -> Option<(Seq<char>, int)> {
    if !varint_complete(s) {
        None
    } else {
        let h = varint_len(s, varint_max_len()) as int;
        let n = varint_value(s);
        if n < 0 || h + n > s.len() {
            None
        } else {
            Some((utf8_text_or_empty(s.subrange(h, h + n)), h + n))
        }
    }
}

/// Reads a varint byte length and that many bytes of UTF-8 at `pos`; invalid UTF-8 gives
/// the empty string.
pub fn read_utf8_string(data: &[u8], pos: usize) -> (r: Result<(String, usize), WireError>)
    requires
        pos <= data@.len(),
    ensures
        match (r, utf8_field(data@.skip(pos as int))) {
            (Ok((v, end)), Some((text, n))) => v@ == text && end == pos + n,
            (Err(e), None) => e == WireError::TruncatedInput,
            _ => false,
        },
{
    let ghost s = data@.skip(pos as int);
    let (n, p) = match read_varint(data, pos) {
        Ok(x) => x,
        Err(e) => return Err(e),
    };
    if n < 0 {
        return Err(WireError::TruncatedInput);
    }
    let (bytes, end) = match read_bytes(data, p, n as usize) {
        Ok(x) => x,
        Err(e) => return Err(e),
    };
    proof {
        let h = varint_len(s, varint_max_len()) as int;
        assert(bytes@ =~= s.subrange(h, h + n));
    }
    match string_from_utf8(bytes) {
        Some(text) => Ok((text, end)),
        None => Ok((String::new(), end)),
    }
}

/// The big-endian 16-bit units that the bytes `b` spell, two bytes each.
pub open spec fn be16_units(b: Seq<u8>) -> Seq<u16> {
    Seq::new(b.len() / 2, |i: int| (b[2 * i] as nat * 256 + b[2 * i + 1] as nat) as u16)
}

/// Reads `chars` big-endian UTF-16 code units at `pos` and decodes them.
pub fn read_utf16_string(data: &[u8], pos: usize, chars: u16) -> (r: Result<(String, usize), WireError>)
    requires
        pos <= data@.len(),
    ensures
        ({
            let units = be16_units(field(data@, pos as int, 2 * chars));
            match r {
                Ok((v, end)) => pos + 2 * chars <= data@.len() && utf16_encode(v@) == units && end
                    == pos + 2 * chars,
                Err(WireError::TruncatedInput) => pos + 2 * chars > data@.len(),
                Err(WireError::InvalidEncoding) => pos + 2 * chars <= data@.len() && forall|t: Seq<
                    char,
                >| #[trigger] utf16_encode(t) != units,
                Err(WireError::UnsupportedState) => false,
            }
        }),
{
    let amount: usize = 2 * chars as usize;
    let (bytes, end) = match read_bytes(data, pos, amount) {
        Ok(x) => x,
        Err(e) => return Err(e),
    };
    let mut units: Vec<u16> = Vec::new();
    let mut i: usize = 0;
    while i < chars as usize
        invariant
            i <= chars,
            bytes@.len() == 2 * chars,
            units@ == be16_units(bytes@).take(i as int),
        decreases chars - i,
    {
        units.push(bytes[2 * i] as u16 * 256 + bytes[2 * i + 1] as u16);
        i += 1;
        assert(units@ =~= be16_units(bytes@).take(i as int));
    }
    assert(units@ =~= be16_units(bytes@));
    match string_from_utf16(&units) {
        Some(text) => Ok((text, end)),
        None => Err(WireError::InvalidEncoding),
    }
}

/// Appends the items of a slice, in order.
pub fn push_all<T: Copy>(buffer: &mut Vec<T>, bytes: &[T])
    ensures
        final(buffer)@ == old(buffer)@ + bytes@,
{
    let ghost start = buffer@;
    let mut i: usize = 0;
    while i < bytes.len()
        invariant
            i <= bytes@.len(),
            buffer@ == start + bytes@.take(i as int),
        decreases bytes@.len() - i,
    {
        buffer.push(bytes[i]);
        i += 1;
        assert(buffer@ =~= start + bytes@.take(i as int));
    }
    assert(bytes@.take(i as int) =~= bytes@);
}

/// Appends a string as its UTF-8 byte length, a varint, followed by those bytes.
pub fn write_utf8_string(buffer: &mut Vec<u8>, value: String)
    requires
        encode_utf8(value@).len() <= i32::MAX,
    ensures
        final(buffer)@ == old(buffer)@ + varint_bytes(encode_utf8(value@).len()) + encode_utf8(
            value@,
        ),
{
    let bytes = value.as_str().as_bytes();
    write_varint(buffer, bytes.len() as i32);
    push_all(buffer, bytes);
}

pub open spec fn pow16(k: nat) -> nat
    decreases k,
{
    if k == 0 {
        1
    } else {
        16 * pow16((k - 1) as nat)
    }
}

/// The lowercase hexadecimal digit of `d`, below 16.
pub open spec fn hex_char(d: nat) -> char {
    if d < 10 {
        (48 + d) as char
    } else {
        (87 + d) as char
    }
}

/// The hexadecimal digit of `v` at position `k`, counted from the least significant.
pub open spec fn nibble(v: nat, k: nat) -> nat {
    (v / pow16(k)) % 16
}

/// The 32 lowercase hexadecimal digits of `v`, most significant first, zero-padded.
pub open spec fn hex32(v: nat) -> Seq<char> {
    Seq::new(32, |i: int| hex_char(nibble(v, (31 - i) as nat)))
}

/// `v` written as a UUID: its 32 hexadecimal digits grouped 8-4-4-4-12 by dashes.
pub open spec fn uuid_text(v: nat) -> Seq<char> {
    let h = hex32(v);
    h.subrange(0, 8) + seq!['-'] + h.subrange(8, 12) + seq!['-'] + h.subrange(12, 16) + seq!['-']
        + h.subrange(16, 20) + seq!['-'] + h.subrange(20, 32)
}

fn hex_digit(d: u128) -> (c: char)
    requires
        d < 16,
    ensures
        c == hex_char(d as nat),
{
    if d < 10 {
        (48u8 + d as u8) as char
    } else {
        (87u8 + d as u8) as char
    }
}

/// Appends the digits of `hex32(v)` from `from` to `to`, given them least significant first.
fn push_hex_range(out: &mut Vec<char>, rev: &Vec<char>, from: usize, to: usize, Ghost(v): Ghost<nat>)
    requires
        from <= to <= 32,
        rev@.len() == 32,
        forall|j: int| 0 <= j < 32 ==> #[trigger] rev@[j] == hex_char(nibble(v, j as nat)),
    ensures
        final(out)@ == old(out)@ + hex32(v).subrange(from as int, to as int),
{
    let ghost start = out@;
    let mut i: usize = from;
    while i < to
        invariant
            from <= i <= to <= 32,
            rev@.len() == 32,
            forall|j: int| 0 <= j < 32 ==> #[trigger] rev@[j] == hex_char(nibble(v, j as nat)),
            out@ == start + hex32(v).subrange(from as int, i as int),
        decreases to - i,
    {
        out.push(rev[31 - i]);
        i += 1;
        assert(out@ =~= start + hex32(v).subrange(from as int, i as int));
    }
}

/// Renders a 128-bit value as a UUID: lowercase hexadecimal, zero-padded to 32 digits, with
/// dashes after the 8th, 12th, 16th and 20th digit.
pub fn format_uuid(value: u128) -> (r: String)
    ensures
        r@ == uuid_text(value as nat),
{
    let mut rev: Vec<char> = Vec::new();
    let mut x: u128 = value;
    let mut k: usize = 0;
    assert(pow16(0) == 1);
    while k < 32
        invariant
            k <= 32,
            pow16(k as nat) > 0,
            rev@.len() == k,
            x == value as nat / pow16(k as nat),
            forall|j: int| 0 <= j < k ==> #[trigger] rev@[j] == hex_char(nibble(value as nat, j as nat)),
        decreases 32 - k,
    {
        rev.push(hex_digit(x % 16));
        proof {
            vstd::arithmetic::div_mod::lemma_div_denominator(value as int, pow16(k as nat) as int, 16);
            assert(pow16((k + 1) as nat) == pow16(k as nat) * 16);
        }
        x = x / 16;
        k += 1;
    }
    let mut out: Vec<char> = Vec::new();
    push_hex_range(&mut out, &rev, 0, 8, Ghost(value as nat));
    out.push('-');
    push_hex_range(&mut out, &rev, 8, 12, Ghost(value as nat));
    out.push('-');
    push_hex_range(&mut out, &rev, 12, 16, Ghost(value as nat));
    out.push('-');
    push_hex_range(&mut out, &rev, 16, 20, Ghost(value as nat));
    out.push('-');
    push_hex_range(&mut out, &rev, 20, 32, Ghost(value as nat));
    assert(out@ =~= uuid_text(value as nat));
    string_from_chars(&out)
}

} // verus!
