//! The primitives of the binary format: little-endian integers of fixed
//! width, byte arrays of fixed length, and strings behind a length prefix.

use vstd::prelude::*;
use vstd::slice::slice_subrange;
use vstd::string::StringSliceAdditionalSpecFns;
use vstd::utf8::*;
use crate::state::status::ErStatus;

verus! {

/// The two bytes of `x`, lowest first.
pub open spec fn le16(x: u16) -> Seq<u8> {
    seq![(x & 0xff) as u8, ((x >> 8) & 0xff) as u8]
}

/// The four bytes of `x`, lowest first.
pub open spec fn le32(x: u32) -> Seq<u8> {
    seq![
        (x & 0xff) as u8,
        ((x >> 8) & 0xff) as u8,
        ((x >> 16) & 0xff) as u8,
        ((x >> 24) & 0xff) as u8,
    ]
}

/// The number that the first two bytes of `b` stand for, lowest first.
pub open spec fn from_le16(b: Seq<u8>) -> u16 {
    (b[0] as u16) | ((b[1] as u16) << 8)
}

/// The number that the first four bytes of `b` stand for, lowest first.
pub open spec fn from_le32(b: Seq<u8>) -> u32 {
    (b[0] as u32) | ((b[1] as u32) << 8) | ((b[2] as u32) << 16) | ((b[3] as u32) << 24)
}

/// Whether a string is short enough for its length prefix.
pub open spec fn string_fits(s: Seq<char>) -> bool {
    encode_utf8(s).len() <= u32::MAX
}

/// A string in the format: the number of its UTF-8 bytes, then the bytes.
pub open spec fn string_bytes(s: Seq<char>) -> Seq<u8> {
    le32(encode_utf8(s).len() as u32) + encode_utf8(s)
}

/// The string at the start of `b` and the number of bytes it takes, or
/// `None` where `b` is too short or the bytes are not UTF-8.
pub open spec fn parse_string(b: Seq<u8>) -> Option<(Seq<char>, int)> {
    if b.len() >= 4 && 4 + from_le32(b) <= b.len() && valid_utf8(b.subrange(4, 4 + from_le32(b)))
    {
        Some((decode_utf8(b.subrange(4, 4 + from_le32(b))), 4 + from_le32(b)))
    } else {
        None
    }
}

/// The two bytes of a number stand for that number.
pub proof fn lemma_le16_round_trip(x: u16)
    ensures
        le16(x).len() == 2,
        from_le16(le16(x)) == x,
{
    assert(((((x & 0xff) as u8) as u16) | (((((x >> 8) & 0xff) as u8) as u16) << 8)) == x)
        by (bit_vector);
}

/// The four bytes of a number stand for that number.
pub proof fn lemma_le32_round_trip(x: u32)
    ensures
        le32(x).len() == 4,
        from_le32(le32(x)) == x,
{
    assert(((((x & 0xff) as u8) as u32) | (((((x >> 8) & 0xff) as u8) as u32) << 8) | (((((x >> 16)
        & 0xff) as u8) as u32) << 16) | (((((x >> 24) & 0xff) as u8) as u32) << 24)) == x)
        by (bit_vector);
}

/// The number that two bytes stand for has those two bytes.
pub proof fn lemma_from_le16_round_trip(b: Seq<u8>)
    requires
        b.len() >= 2,
    ensures
        le16(from_le16(b)) == b.subrange(0, 2),
{
    let b0 = b[0];
    let b1 = b[1];
    let x = (b0 as u16) | ((b1 as u16) << 8);
    assert((((b0 as u16) | ((b1 as u16) << 8)) & 0xff) as u8 == b0) by (bit_vector);
    assert(((((b0 as u16) | ((b1 as u16) << 8)) >> 8) & 0xff) as u8 == b1) by (bit_vector);
    assert(le16(x) =~= b.subrange(0, 2));
}

/// The number that four bytes stand for has those four bytes.
pub proof fn lemma_from_le32_round_trip(b: Seq<u8>)
    requires
        b.len() >= 4,
    ensures
        le32(from_le32(b)) == b.subrange(0, 4),
{
    let b0 = b[0];
    let b1 = b[1];
    let b2 = b[2];
    let b3 = b[3];
    let x = (b0 as u32) | ((b1 as u32) << 8) | ((b2 as u32) << 16) | ((b3 as u32) << 24);
    assert((((b0 as u32) | ((b1 as u32) << 8) | ((b2 as u32) << 16) | ((b3 as u32) << 24)) & 0xff)
        as u8 == b0) by (bit_vector);
    assert(((((b0 as u32) | ((b1 as u32) << 8) | ((b2 as u32) << 16) | ((b3 as u32) << 24)) >> 8)
        & 0xff) as u8 == b1) by (bit_vector);
    assert(((((b0 as u32) | ((b1 as u32) << 8) | ((b2 as u32) << 16) | ((b3 as u32) << 24)) >> 16)
        & 0xff) as u8 == b2) by (bit_vector);
    assert(((((b0 as u32) | ((b1 as u32) << 8) | ((b2 as u32) << 16) | ((b3 as u32) << 24)) >> 24)
        & 0xff) as u8 == b3) by (bit_vector);
    assert(le32(x) =~= b.subrange(0, 4));
}

/// A string that fits is read back from its bytes, whatever follows them.
pub proof fn lemma_parse_string_bytes(s: Seq<char>, rest: Seq<u8>)
    requires
        string_fits(s),
    ensures
        parse_string(string_bytes(s) + rest) == Some((s, string_bytes(s).len() as int)),
        string_bytes(s).len() == 4 + encode_utf8(s).len(),
{
    let n = encode_utf8(s).len() as u32;
    let b = string_bytes(s) + rest;
    lemma_le32_round_trip(n);
    assert(le32(n) =~= seq![b[0], b[1], b[2], b[3]]);
    assert(from_le32(b) == from_le32(le32(n)));
    assert(b.subrange(4, 4 + n) =~= encode_utf8(s));
    encode_utf8_valid_utf8(s);
    encode_utf8_decode_utf8(s);
}

/// What was read as a string is written back as the bytes it was read from.
pub proof fn lemma_string_bytes_parse(b: Seq<u8>)
    requires
        parse_string(b) is Some,
    ensures
        string_fits(parse_string(b).unwrap().0),
        string_bytes(parse_string(b).unwrap().0) == b.subrange(0, parse_string(b).unwrap().1),
{
    let n = from_le32(b);
    let body = b.subrange(4, 4 + n);
    decode_utf8_encode_utf8(body);
    lemma_from_le32_round_trip(b);
    assert(body.len() == n);
    assert(string_bytes(decode_utf8(body)) =~= b.subrange(0, 4 + n));
}

/// Appends the two bytes of `x` to `out`.
pub fn write_u16(out: &mut Vec<u8>, x: u16)
    ensures
        final(out)@ == old(out)@ + le16(x),
{
    let lo: u16 = x & 0xff;
    let hi: u16 = (x >> 8) & 0xff;
    proof {
        assert((x & 0xff) < 256) by (bit_vector);
        assert(((x >> 8) & 0xff) < 256) by (bit_vector);
    }
    out.push(lo as u8);
    out.push(hi as u8);
    assert(out@ =~= old(out)@ + le16(x));
}

/// Appends the four bytes of `x` to `out`.
pub fn write_u32(out: &mut Vec<u8>, x: u32)
    ensures
        final(out)@ == old(out)@ + le32(x),
{
    let b0: u32 = x & 0xff;
    let b1: u32 = (x >> 8) & 0xff;
    let b2: u32 = (x >> 16) & 0xff;
    let b3: u32 = (x >> 24) & 0xff;
    proof {
        assert((x & 0xff) < 256) by (bit_vector);
        assert(((x >> 8) & 0xff) < 256) by (bit_vector);
        assert(((x >> 16) & 0xff) < 256) by (bit_vector);
        assert(((x >> 24) & 0xff) < 256) by (bit_vector);
    }
    out.push(b0 as u8);
    out.push(b1 as u8);
    out.push(b2 as u8);
    out.push(b3 as u8);
    assert(out@ =~= old(out)@ + le32(x));
}

/// Appends the bytes of `bytes` to `out`.
pub fn write_bytes(out: &mut Vec<u8>, bytes: &[u8])
    ensures
        final(out)@ == old(out)@ + bytes@,
{
    let mut i: usize = 0;
    while i < bytes.len()
        invariant
            i <= bytes.len(),
            out@ == old(out)@ + bytes@.subrange(0, i as int),
        decreases bytes.len() - i,
    {
        out.push(bytes[i]);
        i += 1;
        assert(out@ =~= old(out)@ + bytes@.subrange(0, i as int));
    }
    assert(bytes@.subrange(0, bytes.len() as int) =~= bytes@);
}

/// Appends a string to `out`: its length, then its UTF-8 bytes. A string too
/// long for its length prefix is not written.
pub fn write_string(out: &mut Vec<u8>, s: &str) -> (ok: bool)
    ensures
        ok == string_fits(s@),
        ok ==> final(out)@ == old(out)@ + string_bytes(s@),
        !ok ==> final(out)@ == old(out)@,
{
    let bytes = s.as_bytes();
    if bytes.len() > 0xffff_ffff {
        return false;
    }
    write_u32(out, bytes.len() as u32);
    write_bytes(out, bytes);
    assert(out@ =~= old(out)@ + string_bytes(s@));
    true
}

/// Reads the two bytes at `at` as a number.
pub fn read_u16(bytes: &[u8], at: usize) -> (x: u16)
    requires
        at + 2 <= bytes.len(),
    ensures
        x == from_le16(bytes@.subrange(at as int, at + 2)),
{
    (bytes[at] as u16) | ((bytes[at + 1] as u16) << 8)
}

/// Reads the four bytes at `at` as a number.
pub fn read_u32(bytes: &[u8], at: usize) -> (x: u32)
    requires
        at + 4 <= bytes.len(),
    ensures
        x == from_le32(bytes@.subrange(at as int, at + 4)),
{
    (bytes[at] as u32) | ((bytes[at + 1] as u32) << 8) | ((bytes[at + 2] as u32) << 16) | ((
    bytes[at + 3] as u32) << 24)
}

/// Reads the 32 bytes at `at`.
pub fn read_array32(bytes: &[u8], at: usize) -> (res: [u8; 32])
    requires
        at + 32 <= bytes.len(),
    ensures
        res@ == bytes@.subrange(at as int, at + 32),
{
    let mut res = [0u8; 32];
    let mut i: usize = 0;
    while i < 32
        invariant
            i <= 32,
            at + 32 <= bytes.len(),
            forall|j: int| 0 <= j < i ==> res@[j] == bytes@[at + j],
        decreases 32 - i,
    {
        res[i] = bytes[at + i];
        i += 1;
    }
    assert(res@ =~= bytes@.subrange(at as int, at + 32));
    res
}

/// Reads the 3 bytes at `at`.
pub fn read_array3(bytes: &[u8], at: usize) -> (res: [u8; 3])
    requires
        at + 3 <= bytes.len(),
    ensures
        res@ == bytes@.subrange(at as int, at + 3),
{
    let res = [bytes[at], bytes[at + 1], bytes[at + 2]];
    assert(res@ =~= bytes@.subrange(at as int, at + 3));
    res
}

/// Calls `core::str::from_utf8` of std, which gives the same bytes back as
/// a string where they are valid UTF-8 and an error where they are not.
#[verifier::external_body]
fn str_from_utf8(bytes: &[u8]) -> (res: Option<&str>)
    ensures
        res is Some == valid_utf8(bytes@),
        res matches Some(s) ==> s.spec_bytes() == bytes@,
{
    match core::str::from_utf8(bytes) {
        Ok(s) => Some(s),
        Err(_) => None,
    }
}

/// Reads the string at `at`, and says where the bytes after it start.
pub fn read_string(bytes: &[u8], at: usize) -> (res: Option<(String, usize)>)
    requires
        at <= bytes.len(),
    ensures
        match parse_string(bytes@.skip(at as int)) {
            Some((s, n)) => res matches Some((r, next)) && r@ == s && next == at + n && at + n
                <= bytes.len(),
            None => res is None,
        },
{
    let ghost b = bytes@.skip(at as int);
    if bytes.len() - at < 4 {
        return None;
    }
    let n: u32 = read_u32(bytes, at);
    assert(bytes@.subrange(at as int, at + 4) =~= b.subrange(0, 4));
    assert(from_le32(b) == from_le32(b.subrange(0, 4)));
    if bytes.len() - at - 4 < n as usize {
        return None;
    }
    let body = slice_subrange(bytes, at + 4, at + 4 + n as usize);
    assert(body@ =~= b.subrange(4, 4 + n));
    match str_from_utf8(body) {
        Some(s) => {
            proof {
                encode_utf8_decode_utf8(s@);
            }
            Some((s.to_owned(), at + 4 + n as usize))
        },
        None => None,
    }
}

/// An optional value in the format: a byte that says whether the value is
/// there, then the bytes of the value if it is.
pub open spec fn option_bytes(payload: Option<Seq<u8>>) -> Seq<u8> {
    match payload {
        Some(bytes) => seq![1u8] + bytes,
        None => seq![0u8],
    }
}

/// The bytes of an optional status.
pub open spec fn opt_status_bytes(v: Option<ErStatus>) -> Seq<u8> {
    option_bytes(
        match v {
            Some(s) => Some(seq![s.spec_tag()]),
            None => None,
        },
    )
}

/// The bytes of an optional 16-bit number.
pub open spec fn opt_u16_bytes(v: Option<u16>) -> Seq<u8> {
    option_bytes(
        match v {
            Some(x) => Some(le16(x)),
            None => None,
        },
    )
}

/// The bytes of an optional 32-bit number.
pub open spec fn opt_u32_bytes(v: Option<u32>) -> Seq<u8> {
    option_bytes(
        match v {
            Some(x) => Some(le32(x)),
            None => None,
        },
    )
}

/// The bytes of an optional string.
pub open spec fn opt_string_bytes(v: Option<Seq<char>>) -> Seq<u8> {
    option_bytes(
        match v {
            Some(s) => Some(string_bytes(s)),
            None => None,
        },
    )
}

/// The optional status at the start of `b` and the number of bytes it takes.
pub open spec fn parse_opt_status(b: Seq<u8>) -> Option<(Option<ErStatus>, int)> {
    if b.len() >= 1 && b[0] == 0 {
        Some((None, 1))
    } else if b.len() >= 2 && b[0] == 1 && ErStatus::spec_from_tag(b[1]) is Some {
        Some((ErStatus::spec_from_tag(b[1]), 2))
    } else {
        None
    }
}

/// The optional 16-bit number at the start of `b` and the number of bytes it
/// takes.
pub open spec fn parse_opt_u16(b: Seq<u8>) -> Option<(Option<u16>, int)> {
    if b.len() >= 1 && b[0] == 0 {
        Some((None, 1))
    } else if b.len() >= 3 && b[0] == 1 {
        Some((Some(from_le16(b.subrange(1, 3))), 3))
    } else {
        None
    }
}

/// The optional 32-bit number at the start of `b` and the number of bytes it
/// takes.
pub open spec fn parse_opt_u32(b: Seq<u8>) -> Option<(Option<u32>, int)> {
    if b.len() >= 1 && b[0] == 0 {
        Some((None, 1))
    } else if b.len() >= 5 && b[0] == 1 {
        Some((Some(from_le32(b.subrange(1, 5))), 5))
    } else {
        None
    }
}

/// The optional array of `n` bytes at the start of `b` and the number of
/// bytes it takes.
pub open spec fn parse_opt_array(b: Seq<u8>, n: int) -> Option<(Option<Seq<u8>>, int)> {
    if b.len() >= 1 && b[0] == 0 {
        Some((None, 1))
    } else if b.len() >= 1 + n && b[0] == 1 {
        Some((Some(b.subrange(1, 1 + n)), 1 + n))
    } else {
        None
    }
}

/// The optional string at the start of `b` and the number of bytes it takes.
pub open spec fn parse_opt_string(b: Seq<u8>) -> Option<(Option<Seq<char>>, int)> {
    if b.len() >= 1 && b[0] == 0 {
        Some((None, 1))
    } else if b.len() >= 1 && b[0] == 1 && parse_string(b.skip(1)) is Some {
        Some((Some(parse_string(b.skip(1)).unwrap().0), 1 + parse_string(b.skip(1)).unwrap().1))
    } else {
        None
    }
}

/// An optional status is read back from its bytes, whatever follows them.
pub proof fn lemma_parse_opt_status_bytes(v: Option<ErStatus>, rest: Seq<u8>)
    ensures
        parse_opt_status(opt_status_bytes(v) + rest) == Some((v, opt_status_bytes(v).len() as int)),
{
}

/// An optional 16-bit number is read back from its bytes, whatever follows
/// them.
pub proof fn lemma_parse_opt_u16_bytes(v: Option<u16>, rest: Seq<u8>)
    ensures
        parse_opt_u16(opt_u16_bytes(v) + rest) == Some((v, opt_u16_bytes(v).len() as int)),
{
    let b = opt_u16_bytes(v) + rest;
    if let Some(x) = v {
        lemma_le16_round_trip(x);
        assert(b.subrange(1, 3) =~= le16(x));
    }
}

/// An optional 32-bit number is read back from its bytes, whatever follows
/// them.
pub proof fn lemma_parse_opt_u32_bytes(v: Option<u32>, rest: Seq<u8>)
    ensures
        parse_opt_u32(opt_u32_bytes(v) + rest) == Some((v, opt_u32_bytes(v).len() as int)),
{
    let b = opt_u32_bytes(v) + rest;
    if let Some(x) = v {
        lemma_le32_round_trip(x);
        assert(b.subrange(1, 5) =~= le32(x));
    }
}

/// An optional array of `n` bytes is read back from its bytes, whatever
/// follows them.
pub proof fn lemma_parse_opt_array_bytes(v: Option<Seq<u8>>, n: int, rest: Seq<u8>)
    requires
        v matches Some(a) ==> a.len() == n,
        0 <= n,
    ensures
        parse_opt_array(option_bytes(v) + rest, n) == Some((v, option_bytes(v).len() as int)),
{
    let b = option_bytes(v) + rest;
    if let Some(a) = v {
        assert(b.subrange(1, 1 + n) =~= a);
    }
}

/// An optional string that fits is read back from its bytes, whatever
/// follows them.
pub proof fn lemma_parse_opt_string_bytes(v: Option<Seq<char>>, rest: Seq<u8>)
    requires
        v matches Some(s) ==> string_fits(s),
    ensures
        parse_opt_string(opt_string_bytes(v) + rest) == Some((v, opt_string_bytes(v).len() as int)),
{
    let b = opt_string_bytes(v) + rest;
    if let Some(s) = v {
        lemma_parse_string_bytes(s, rest);
        assert(b.skip(1) =~= string_bytes(s) + rest);
    }
}

/// What was read as an optional status is written back as the bytes it was
/// read from.
pub proof fn lemma_opt_status_bytes_parse(b: Seq<u8>)
    requires
        parse_opt_status(b) is Some,
    ensures
        1 <= parse_opt_status(b).unwrap().1 <= b.len(),
        opt_status_bytes(parse_opt_status(b).unwrap().0) == b.subrange(
            0,
            parse_opt_status(b).unwrap().1,
        ),
{
    let (v, n) = parse_opt_status(b).unwrap();
    assert(opt_status_bytes(v) =~= b.subrange(0, n));
}

/// What was read as an optional 16-bit number is written back as the bytes
/// it was read from.
pub proof fn lemma_opt_u16_bytes_parse(b: Seq<u8>)
    requires
        parse_opt_u16(b) is Some,
    ensures
        1 <= parse_opt_u16(b).unwrap().1 <= b.len(),
        opt_u16_bytes(parse_opt_u16(b).unwrap().0) == b.subrange(0, parse_opt_u16(b).unwrap().1),
{
    let (v, n) = parse_opt_u16(b).unwrap();
    if v is Some {
        lemma_from_le16_round_trip(b.subrange(1, 3));
        assert(b.subrange(1, 3).subrange(0, 2) =~= b.subrange(1, 3));
    }
    assert(opt_u16_bytes(v) =~= b.subrange(0, n));
}

/// What was read as an optional 32-bit number is written back as the bytes
/// it was read from.
pub proof fn lemma_opt_u32_bytes_parse(b: Seq<u8>)
    requires
        parse_opt_u32(b) is Some,
    ensures
        1 <= parse_opt_u32(b).unwrap().1 <= b.len(),
        opt_u32_bytes(parse_opt_u32(b).unwrap().0) == b.subrange(0, parse_opt_u32(b).unwrap().1),
{
    let (v, n) = parse_opt_u32(b).unwrap();
    if v is Some {
        lemma_from_le32_round_trip(b.subrange(1, 5));
        assert(b.subrange(1, 5).subrange(0, 4) =~= b.subrange(1, 5));
    }
    assert(opt_u32_bytes(v) =~= b.subrange(0, n));
}

/// What was read as an optional array is written back as the bytes it was
/// read from, and has the length it was read with.
pub proof fn lemma_opt_array_bytes_parse(b: Seq<u8>, len: int)
    requires
        0 <= len,
        parse_opt_array(b, len) is Some,
    ensures
        1 <= parse_opt_array(b, len).unwrap().1 <= b.len(),
        parse_opt_array(b, len).unwrap().0 matches Some(a) ==> a.len() == len,
        option_bytes(parse_opt_array(b, len).unwrap().0) == b.subrange(
            0,
            parse_opt_array(b, len).unwrap().1,
        ),
{
    let (v, n) = parse_opt_array(b, len).unwrap();
    assert(option_bytes(v) =~= b.subrange(0, n));
}

/// What was read as an optional string is written back as the bytes it was
/// read from, and fits its length prefix.
pub proof fn lemma_opt_string_bytes_parse(b: Seq<u8>)
    requires
        parse_opt_string(b) is Some,
    ensures
        1 <= parse_opt_string(b).unwrap().1 <= b.len(),
        parse_opt_string(b).unwrap().0 matches Some(s) ==> string_fits(s),
        opt_string_bytes(parse_opt_string(b).unwrap().0) == b.subrange(
            0,
            parse_opt_string(b).unwrap().1,
        ),
{
    let (v, n) = parse_opt_string(b).unwrap();
    if v is Some {
        lemma_string_bytes_parse(b.skip(1));
        assert(b.skip(1).subrange(0, n - 1) =~= b.subrange(1, n));
    }
    assert(opt_string_bytes(v) =~= b.subrange(0, n));
}

/// A run of bytes taken after skipping is the same run taken in place.
pub proof fn lemma_skip_subrange(s: Seq<u8>, i: int, n: int)
    requires
        0 <= i,
        0 <= n,
        i + n <= s.len(),
    ensures
        s.skip(i).subrange(0, n) == s.subrange(i, i + n),
{
    assert(s.skip(i).subrange(0, n) =~= s.subrange(i, i + n));
}

/// Two runs of bytes that follow each other join to one.
pub proof fn lemma_subrange_join(s: Seq<u8>, i: int, j: int, k: int)
    requires
        0 <= i <= j <= k <= s.len(),
    ensures
        s.subrange(i, j) + s.subrange(j, k) == s.subrange(i, k),
{
    assert(s.subrange(i, j) + s.subrange(j, k) =~= s.subrange(i, k));
}

/// Joining three runs of bytes gives the same whichever two are joined first.
pub proof fn lemma_concat_assoc(a: Seq<u8>, b: Seq<u8>, c: Seq<u8>)
    ensures
        (a + b) + c == a + (b + c),
{
    assert((a + b) + c =~= a + (b + c));
}

/// What follows the first run of two joined runs is the second.
pub proof fn lemma_concat_skip(a: Seq<u8>, b: Seq<u8>)
    ensures
        (a + b).skip(a.len() as int) == b,
{
    assert((a + b).skip(a.len() as int) =~= b);
}

/// Skipping twice is skipping once by the sum.
pub proof fn lemma_skip_skip(s: Seq<u8>, i: int, j: int)
    requires
        0 <= i,
        0 <= j,
        i + j <= s.len(),
    ensures
        s.skip(i).skip(j) == s.skip(i + j),
{
    assert(s.skip(i).skip(j) =~= s.skip(i + j));
}

/// Appends an optional run of bytes to `out`.
pub fn write_opt_bytes(out: &mut Vec<u8>, v: Option<&[u8]>)
    ensures
        final(out)@ == old(out)@ + option_bytes(
            match v {
                Some(bytes) => Some(bytes@),
                None => None,
            },
        ),
{
    match v {
        Some(bytes) => {
            out.push(1u8);
            write_bytes(out, bytes);
            assert(out@ =~= old(out)@ + (seq![1u8] + bytes@));
        },
        None => {
            out.push(0u8);
            assert(out@ =~= old(out)@ + seq![0u8]);
        },
    }
}

/// Appends an optional string to `out`. A string too long for its length
/// prefix is not written.
pub fn write_opt_string(out: &mut Vec<u8>, v: Option<&str>) -> (ok: bool)
    ensures
        ok == (v matches Some(s) ==> string_fits(s@)),
        ok ==> final(out)@ == old(out)@ + opt_string_bytes(
            match v {
                Some(s) => Some(s@),
                None => None,
            },
        ),
        !ok ==> final(out)@ == old(out)@,
{
    match v {
        Some(s) => {
            if s.as_bytes().len() > 0xffff_ffff {
                return false;
            }
            out.push(1u8);
            let written = write_string(out, s);
            assert(out@ =~= old(out)@ + (seq![1u8] + string_bytes(s@)));
            true
        },
        None => {
            out.push(0u8);
            assert(out@ =~= old(out)@ + seq![0u8]);
            true
        },
    }
}

/// Appends an optional 16-bit number to `out`.
pub fn write_opt_u16(out: &mut Vec<u8>, v: Option<u16>)
    ensures
        final(out)@ == old(out)@ + opt_u16_bytes(v),
{
    match v {
        Some(x) => {
            out.push(1u8);
            write_u16(out, x);
        },
        None => {
            out.push(0u8);
        },
    }
    assert(out@ =~= old(out)@ + opt_u16_bytes(v));
}

/// Appends an optional 32-bit number to `out`.
pub fn write_opt_u32(out: &mut Vec<u8>, v: Option<u32>)
    ensures
        final(out)@ == old(out)@ + opt_u32_bytes(v),
{
    match v {
        Some(x) => {
            out.push(1u8);
            write_u32(out, x);
        },
        None => {
            out.push(0u8);
        },
    }
    assert(out@ =~= old(out)@ + opt_u32_bytes(v));
}

/// Appends an optional status to `out`.
pub fn write_opt_status(out: &mut Vec<u8>, v: Option<ErStatus>)
    ensures
        final(out)@ == old(out)@ + opt_status_bytes(v),
{
    match v {
        Some(s) => {
            out.push(1u8);
            out.push(s.tag());
        },
        None => {
            out.push(0u8);
        },
    }
    assert(out@ =~= old(out)@ + opt_status_bytes(v));
}

/// Reads the optional status at `at`, and says where the bytes after it
/// start.
pub fn read_opt_status(bytes: &[u8], at: usize) -> (res: Option<(Option<ErStatus>, usize)>)
    requires
        at <= bytes.len(),
    ensures
        match parse_opt_status(bytes@.skip(at as int)) {
            Some((v, n)) => res == Some((v, (at + n) as usize)) && at + n <= bytes.len(),
            None => res is None,
        },
{
    if bytes.len() - at < 1 {
        return None;
    }
    if bytes[at] == 0 {
        return Some((None, at + 1));
    }
    if bytes[at] != 1 || bytes.len() - at < 2 {
        return None;
    }
    match ErStatus::from_tag(bytes[at + 1]) {
        Some(s) => Some((Some(s), at + 2)),
        None => None,
    }
}

/// Reads the optional 16-bit number at `at`, and says where the bytes after
/// it start.
pub fn read_opt_u16(bytes: &[u8], at: usize) -> (res: Option<(Option<u16>, usize)>)
    requires
        at <= bytes.len(),
    ensures
        match parse_opt_u16(bytes@.skip(at as int)) {
            Some((v, n)) => res == Some((v, (at + n) as usize)) && at + n <= bytes.len(),
            None => res is None,
        },
{
    if bytes.len() - at < 1 {
        return None;
    }
    if bytes[at] == 0 {
        return Some((None, at + 1));
    }
    if bytes[at] != 1 || bytes.len() - at < 3 {
        return None;
    }
    let x: u16 = read_u16(bytes, at + 1);
    assert(bytes@.subrange(at + 1, at + 3) =~= bytes@.skip(at as int).subrange(1, 3));
    Some((Some(x), at + 3))
}

/// Reads the optional 32-bit number at `at`, and says where the bytes after
/// it start.
pub fn read_opt_u32(bytes: &[u8], at: usize) -> (res: Option<(Option<u32>, usize)>)
    requires
        at <= bytes.len(),
    ensures
        match parse_opt_u32(bytes@.skip(at as int)) {
            Some((v, n)) => res == Some((v, (at + n) as usize)) && at + n <= bytes.len(),
            None => res is None,
        },
{
    if bytes.len() - at < 1 {
        return None;
    }
    if bytes[at] == 0 {
        return Some((None, at + 1));
    }
    if bytes[at] != 1 || bytes.len() - at < 5 {
        return None;
    }
    let x: u32 = read_u32(bytes, at + 1);
    assert(bytes@.subrange(at + 1, at + 5) =~= bytes@.skip(at as int).subrange(1, 5));
    Some((Some(x), at + 5))
}

/// Reads the optional array of 32 bytes at `at`, and says where the bytes
/// after it start.
pub fn read_opt_array32(bytes: &[u8], at: usize) -> (res: Option<(Option<[u8; 32]>, usize)>)
    requires
        at <= bytes.len(),
    ensures
        match parse_opt_array(bytes@.skip(at as int), 32) {
            Some((v, n)) => res matches Some((r, next)) && next == at + n && at + n <= bytes.len()
                && match v {
                Some(a) => r matches Some(array) && array@ == a,
                None => r is None,
            },
            None => res is None,
        },
{
    if bytes.len() - at < 1 {
        return None;
    }
    if bytes[at] == 0 {
        return Some((None, at + 1));
    }
    if bytes[at] != 1 || bytes.len() - at < 33 {
        return None;
    }
    let array = read_array32(bytes, at + 1);
    assert(bytes@.subrange(at + 1, at + 33) =~= bytes@.skip(at as int).subrange(1, 33));
    Some((Some(array), at + 33))
}

/// Reads the optional array of 3 bytes at `at`, and says where the bytes
/// after it start.
pub fn read_opt_array3(bytes: &[u8], at: usize) -> (res: Option<(Option<[u8; 3]>, usize)>)
    requires
        at <= bytes.len(),
    ensures
        match parse_opt_array(bytes@.skip(at as int), 3) {
            Some((v, n)) => res matches Some((r, next)) && next == at + n && at + n <= bytes.len()
                && match v {
                Some(a) => r matches Some(array) && array@ == a,
                None => r is None,
            },
            None => res is None,
        },
{
    if bytes.len() - at < 1 {
        return None;
    }
    if bytes[at] == 0 {
        return Some((None, at + 1));
    }
    if bytes[at] != 1 || bytes.len() - at < 4 {
        return None;
    }
    let array = read_array3(bytes, at + 1);
    assert(bytes@.subrange(at + 1, at + 4) =~= bytes@.skip(at as int).subrange(1, 4));
    Some((Some(array), at + 4))
}

/// Reads the optional string at `at`, and says where the bytes after it
/// start.
pub fn read_opt_string(bytes: &[u8], at: usize) -> (res: Option<(Option<String>, usize)>)
    requires
        at <= bytes.len(),
    ensures
        match parse_opt_string(bytes@.skip(at as int)) {
            Some((v, n)) => res matches Some((r, next)) && next == at + n && at + n <= bytes.len()
                && match v {
                Some(s) => r matches Some(string) && string@ == s,
                None => r is None,
            },
            None => res is None,
        },
{
    if bytes.len() - at < 1 {
        return None;
    }
    if bytes[at] == 0 {
        return Some((None, at + 1));
    }
    if bytes[at] != 1 {
        return None;
    }
    assert(bytes@.skip(at + 1) =~= bytes@.skip(at as int).skip(1));
    match read_string(bytes, at + 1) {
        Some((s, next)) => Some((Some(s), next)),
        None => None,
    }
}

} // verus!
