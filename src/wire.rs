use vstd::prelude::*;
use vstd::utf8::encode_utf8;
use crate::types::{PixelFormat, Resolution, ServerInit};

verus! {

/// `v` as two bytes, most significant first.
pub open spec fn be16(v: u16) -> Seq<u8> {
    seq![(v as nat / 256) as u8, (v as nat % 256) as u8]
}

/// `v` as four bytes, most significant first.
pub open spec fn be32(v: u32) -> Seq<u8> {
    seq![
        (v as nat / 0x100_0000) as u8,
        (v as nat / 0x1_0000 % 256) as u8,
        (v as nat / 256 % 256) as u8,
        (v as nat % 256) as u8,
    ]
}

/// The big-endian 16-bit value at `i`.
pub open spec fn read16(b: Seq<u8>, i: int) -> u16 {
    (b[i] as nat * 256 + b[i + 1] as nat) as u16
}

/// The big-endian 32-bit value at `i`.
pub open spec fn read32(b: Seq<u8>, i: int) -> u32 {
    (b[i] as nat * 0x100_0000 + b[i + 1] as nat * 0x1_0000 + b[i + 2] as nat * 256
        + b[i + 3] as nat) as u32
}

/// The 16-byte block that describes a pixel format on the wire; the last
/// three bytes are padding.
pub open spec fn pixel_format_bytes(pf: PixelFormat) -> Seq<u8> {
    seq![pf.bits_per_pixel, pf.depth, if pf.big_endian { 1u8 } else { 0u8 }, pf.true_color_flag]
        + be16(pf.red_max) + be16(pf.green_max) + be16(pf.blue_max)
        + seq![pf.red_shift, pf.green_shift, pf.blue_shift, 0u8, 0u8, 0u8]
}

/// The pixel format written by the 16-byte block that starts at `i`; any
/// nonzero big-endian byte means big-endian, padding is ignored.
pub open spec fn pixel_format_at(b: Seq<u8>, i: int) -> PixelFormat {
    PixelFormat {
        bits_per_pixel: b[i],
        depth: b[i + 1],
        big_endian: b[i + 2] != 0,
        true_color_flag: b[i + 3],
        red_max: read16(b, i + 4),
        green_max: read16(b, i + 6),
        blue_max: read16(b, i + 8),
        red_shift: b[i + 10],
        green_shift: b[i + 11],
        blue_shift: b[i + 12],
    }
}

/// A block in the form this library writes: 16 bytes, the big-endian byte
/// 0 or 1, and zero padding.
pub open spec fn canonical_block(b: Seq<u8>) -> bool {
    &&& b.len() == 16
    &&& b[2] <= 1
    &&& b[13] == 0
    &&& b[14] == 0
    &&& b[15] == 0
}

proof fn lemma_read16_be16(s: Seq<u8>, i: int, v: u16)
    requires
        0 <= i,
        i + 2 <= s.len(),
        s[i] == be16(v)[0],
        s[i + 1] == be16(v)[1],
    ensures
        read16(s, i) == v,
{
}

/// Decoding the block that a pixel format encodes to gives that format back.
pub proof fn lemma_pixel_format_decode_encode(pf: PixelFormat)
    ensures
        pixel_format_bytes(pf).len() == 16,
        pixel_format_at(pixel_format_bytes(pf), 0) == pf,
{
    let b = pixel_format_bytes(pf);
    assert(b.len() == 16);
    assert(b[4] == be16(pf.red_max)[0] && b[5] == be16(pf.red_max)[1]);
    assert(b[6] == be16(pf.green_max)[0] && b[7] == be16(pf.green_max)[1]);
    assert(b[8] == be16(pf.blue_max)[0] && b[9] == be16(pf.blue_max)[1]);
    lemma_read16_be16(b, 4, pf.red_max);
    lemma_read16_be16(b, 6, pf.green_max);
    lemma_read16_be16(b, 8, pf.blue_max);
}

/// Encoding the format that a block in canonical form decodes to gives the
/// same bytes back.
pub proof fn lemma_pixel_format_encode_decode(b: Seq<u8>)
    requires
        canonical_block(b),
    ensures
        pixel_format_bytes(pixel_format_at(b, 0)) == b,
{
    let pf = pixel_format_at(b, 0);
    let e = pixel_format_bytes(pf);
    assert(e.len() == 16);
    assert forall|k: int| 0 <= k < 16 implies e[k] == b[k] by {
        if k == 4 || k == 5 {
            assert(e[4] == (pf.red_max as nat / 256) as u8);
            assert(e[5] == (pf.red_max as nat % 256) as u8);
        } else if k == 6 || k == 7 {
            assert(e[6] == (pf.green_max as nat / 256) as u8);
            assert(e[7] == (pf.green_max as nat % 256) as u8);
        } else if k == 8 || k == 9 {
            assert(e[8] == (pf.blue_max as nat / 256) as u8);
            assert(e[9] == (pf.blue_max as nat % 256) as u8);
        }
    }
    assert(e =~= b);
}

/// Appends `v` as two big-endian bytes.
pub fn push_u16(out: &mut Vec<u8>, v: u16)
    ensures
        final(out)@ == old(out)@ + be16(v),
{
    out.push((v / 256) as u8);
    out.push((v % 256) as u8);
    assert(final(out)@ =~= old(out)@ + be16(v));
}

/// Appends `v` as four big-endian bytes.
pub fn push_u32(out: &mut Vec<u8>, v: u32)
    ensures
        final(out)@ == old(out)@ + be32(v),
{
    out.push((v / 0x100_0000) as u8);
    out.push((v / 0x1_0000 % 256) as u8);
    out.push((v / 256 % 256) as u8);
    out.push((v % 256) as u8);
    assert(final(out)@ =~= old(out)@ + be32(v));
}

/// Appends every byte of `src`.
pub fn push_all(out: &mut Vec<u8>, src: &[u8])
    ensures
        final(out)@ == old(out)@ + src@,
{
    let mut i: usize = 0;
    while i < src.len()
        invariant
            i <= src@.len(),
            out@ == old(out)@ + src@.subrange(0, i as int),
        decreases src@.len() - i,
    {
        out.push(src[i]);
        i = i + 1;
        assert(out@ =~= old(out)@ + src@.subrange(0, i as int));
    }
    assert(src@.subrange(0, src@.len() as int) =~= src@);
}

/// The big-endian 16-bit value at `i` of `b`.
pub fn get_u16(b: &[u8], i: usize) -> (r: u16)
    requires
        i + 2 <= b@.len(),
    ensures
        r == read16(b@, i as int),
{
    (b[i] as u16) * 256 + (b[i + 1] as u16)
}

/// The big-endian 32-bit value at `i` of `b`.
pub fn get_u32(b: &[u8], i: usize) -> (r: u32)
    requires
        i + 4 <= b@.len(),
    ensures
        r == read32(b@, i as int),
{
    (b[i] as u32) * 0x100_0000 + (b[i + 1] as u32) * 0x1_0000 + (b[i + 2] as u32) * 256
        + (b[i + 3] as u32)
}

/// Appends the 16-byte block of `pf`.
pub fn push_pixel_format(out: &mut Vec<u8>, pf: &PixelFormat)
    ensures
        final(out)@ == old(out)@ + pixel_format_bytes(*pf),
{
    out.push(pf.bits_per_pixel);
    out.push(pf.depth);
    out.push(if pf.big_endian { 1u8 } else { 0u8 });
    out.push(pf.true_color_flag);
    push_u16(out, pf.red_max);
    push_u16(out, pf.green_max);
    push_u16(out, pf.blue_max);
    out.push(pf.red_shift);
    out.push(pf.green_shift);
    out.push(pf.blue_shift);
    out.push(0);
    out.push(0);
    out.push(0);
    assert(out@ =~= old(out)@ + pixel_format_bytes(*pf));
}

/// The 16-byte block of `pf`.
pub fn encode_pixel_format(pf: &PixelFormat) -> (r: Vec<u8>)
    ensures
        r@ == pixel_format_bytes(*pf),
{
    let mut out: Vec<u8> = Vec::new();
    push_pixel_format(&mut out, pf);
    assert(out@ =~= pixel_format_bytes(*pf));
    out
}

/// The pixel format of the block that starts at `i` of `b`.
pub fn get_pixel_format(b: &[u8], i: usize) -> (r: PixelFormat)
    requires
        i + 16 <= b@.len(),
    ensures
        r == pixel_format_at(b@, i as int),
{
    PixelFormat {
        bits_per_pixel: b[i],
        depth: b[i + 1],
        big_endian: b[i + 2] != 0,
        true_color_flag: b[i + 3],
        red_max: get_u16(b, i + 4),
        green_max: get_u16(b, i + 6),
        blue_max: get_u16(b, i + 8),
        red_shift: b[i + 10],
        green_shift: b[i + 11],
        blue_shift: b[i + 12],
    }
}

/// The pixel format at the start of `b`, or `None` when `b` is shorter than
/// a block.
pub fn decode_pixel_format(b: &[u8]) -> (r: Option<PixelFormat>)
    ensures
        b@.len() < 16 ==> r is None,
        b@.len() >= 16 ==> r == Some(pixel_format_at(b@, 0)),
{
    if b.len() < 16 {
        None
    } else {
        Some(get_pixel_format(b, 0))
    }
}

/// The protocol version line that both sides send: `RFB 003.008\n`.
pub open spec fn version_line() -> Seq<u8> {
    seq![82u8, 70, 66, 32, 48, 48, 51, 46, 48, 48, 56, 10]
}

pub fn version_bytes() -> (r: Vec<u8>)
    ensures
        r@ == version_line(),
{
    let r: Vec<u8> = vec![82u8, 70, 66, 32, 48, 48, 51, 46, 48, 48, 56, 10];
    assert(r@ =~= version_line());
    r
}

/// The security type "None".
pub const SECURITY_NONE: u8 = 1;

/// The server's offer of security types: one type, "None".
pub open spec fn security_offer() -> Seq<u8> {
    seq![1u8, SECURITY_NONE]
}

/// A security result of success.
pub open spec fn security_ok() -> Seq<u8> {
    be32(0)
}

/// A security result of failure with its reason.
pub open spec fn security_failed(reason: Seq<u8>) -> Seq<u8> {
    be32(1) + be32(reason.len() as u32) + reason
}

/// The server-init message: resolution, pixel format, name length, name.
pub open spec fn server_init_bytes(res: Resolution, pf: PixelFormat, name: Seq<u8>) -> Seq<u8> {
    be16(res.width) + be16(res.height) + pixel_format_bytes(pf) + be32(name.len() as u32) + name
}

/// Appends the security offer.
pub fn push_security_offer(out: &mut Vec<u8>)
    ensures
        final(out)@ == old(out)@ + security_offer(),
{
    out.push(1);
    out.push(SECURITY_NONE);
    assert(final(out)@ =~= old(out)@ + security_offer());
}

/// Appends a security result: success, or failure with `reason`.
pub fn push_security_result(out: &mut Vec<u8>, reason: Option<&[u8]>)
    requires
        reason is Some ==> reason->0@.len() <= u32::MAX,
    ensures
        reason is None ==> final(out)@ == old(out)@ + security_ok(),
        reason is Some ==> final(out)@ == old(out)@ + security_failed(reason->0@),
{
    match reason {
        None => push_u32(out, 0),
        Some(text) => {
            push_u32(out, 1);
            push_u32(out, text.len() as u32);
            push_all(out, text);
            assert(out@ =~= old(out)@ + security_failed(text@));
        },
    }
}

/// The bytes of `name` as UTF-8.
pub open spec fn name_bytes(name: Seq<char>) -> Seq<u8> {
    encode_utf8(name)
}

/// Appends a server-init message from its parts.
pub fn push_server_init_parts(out: &mut Vec<u8>, res: Resolution, pf: &PixelFormat, name: &[u8])
    requires
        name@.len() <= u32::MAX,
    ensures
        final(out)@ == old(out)@ + server_init_bytes(res, *pf, name@),
{
    push_u16(out, res.width);
    push_u16(out, res.height);
    push_pixel_format(out, pf);
    push_u32(out, name.len() as u32);
    push_all(out, name);
    assert(out@ =~= old(out)@ + server_init_bytes(res, *pf, name@));
}

/// Appends the server-init message of `init`.
pub fn push_server_init(out: &mut Vec<u8>, init: &ServerInit)
    requires
        name_bytes(init.name@).len() <= u32::MAX,
    ensures
        final(out)@ == old(out)@ + server_init_bytes(
            init.resolution,
            init.pixel_format,
            name_bytes(init.name@),
        ),
{
    push_server_init_parts(out, init.resolution, &init.pixel_format, init.name.as_str().as_bytes());
}

} // verus!
