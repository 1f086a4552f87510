//! DDP packet format.
//!
//! Header layout (big-endian, 10 bytes):
//! ```text
//! offset 0: flags    u8   0x40 = header present, 0x01 = PUSH (end of frame)
//! offset 1: seq      u8   sequence 1..=15 (never 0, never above 15)
//! offset 2: cfg      u8   pixel config: 0x0B RGB888, 0x61 RGB565 BE, 0x62 RGB565 LE
//! offset 3: out_id   u8   destination output/canvas id
//! offset 4: offset   u32  byte offset within the frame buffer
//! offset 8: length   u16  payload bytes in this packet
//! ```

use bytes::BufMut;
use bytes::Bytes;
use bytes::BytesMut;
use vstd::prelude::*;

use crate::output::sink::PixelFormat;

verus! {

/// Largest payload of one packet: 1440 keeps UDP datagrams under a 1500-byte MTU.
pub const DDP_MAX_DATA: usize = 1440;

pub const DDP_HEADER_LEN: usize = 10;

pub const DDP_FLAG_VER1: u8 = 0x40;

pub const DDP_FLAG_PUSH: u8 = 0x01;

pub const DDP_PIXEL_CFG_RGB888: u8 = 0x0B;

pub const DDP_PIXEL_CFG_RGB565_BE: u8 = 0x61;

pub const DDP_PIXEL_CFG_RGB565_LE: u8 = 0x62;

// ---------------------------------------------------------------------------
// The byte buffers of the `bytes` crate
// ---------------------------------------------------------------------------

#[verifier::external_type_specification]
#[verifier::external_body]
pub struct ExBytesMut(bytes::BytesMut);

#[verifier::external_type_specification]
#[verifier::external_body]
pub struct ExBytes(bytes::Bytes);

/// The bytes a `BytesMut` holds.
pub uninterp spec fn bytes_mut_view(b: BytesMut) -> Seq<u8>;

/// The bytes a `Bytes` holds.
pub uninterp spec fn bytes_view(b: Bytes) -> Seq<u8>;

/// `BytesMut::with_capacity`: an empty buffer (it panics above `isize::MAX`).
#[verifier::external_body]
fn bytes_with_capacity(capacity: usize) -> (r: BytesMut)
    requires
        capacity <= isize::MAX,
    ensures
        bytes_mut_view(r) == Seq::<u8>::empty(),
{
    BytesMut::with_capacity(capacity)
}

/// `BufMut::put_u8` on a `BytesMut`: appends the byte. The buffer grows up
/// to `isize::MAX` bytes; past that the call panics.
#[verifier::external_body]
fn put_u8(buf: &mut BytesMut, n: u8)
    requires
        bytes_mut_view(*old(buf)).len() + 1 <= isize::MAX,
    ensures
        bytes_mut_view(*final(buf)) == bytes_mut_view(*old(buf)).push(n),
{
    buf.put_u8(n)
}

/// The big-endian bytes of a `u16`.
pub open spec fn be_u16(n: u16) -> Seq<u8> {
    seq![(n / 0x100) as u8, (n % 0x100) as u8]
}

/// The big-endian bytes of a `u32`.
pub open spec fn be_u32(n: u32) -> Seq<u8> {
    seq![
        (n / 0x100_0000) as u8,
        ((n / 0x1_0000) % 0x100) as u8,
        ((n / 0x100) % 0x100) as u8,
        (n % 0x100) as u8,
    ]
}

/// `BufMut::put_u16` on a `BytesMut`: appends the value big-endian.
#[verifier::external_body]
fn put_u16(buf: &mut BytesMut, n: u16)
    requires
        bytes_mut_view(*old(buf)).len() + 2 <= isize::MAX,
    ensures
        bytes_mut_view(*final(buf)) == bytes_mut_view(*old(buf)) + be_u16(n),
{
    buf.put_u16(n)
}

/// `BufMut::put_u32` on a `BytesMut`: appends the value big-endian.
#[verifier::external_body]
fn put_u32(buf: &mut BytesMut, n: u32)
    requires
        bytes_mut_view(*old(buf)).len() + 4 <= isize::MAX,
    ensures
        bytes_mut_view(*final(buf)) == bytes_mut_view(*old(buf)) + be_u32(n),
{
    buf.put_u32(n)
}

/// `BytesMut::extend_from_slice` with `s[start..end]`: appends those bytes.
#[verifier::external_body]
fn extend_from_subslice(buf: &mut BytesMut, s: &[u8], start: usize, end: usize)
    requires
        start <= end <= s@.len(),
        bytes_mut_view(*old(buf)).len() + (end - start) <= isize::MAX,
    ensures
        bytes_mut_view(*final(buf)) == bytes_mut_view(*old(buf)) + s@.subrange(start as int, end as int),
{
    buf.extend_from_slice(&s[start..end])
}

/// `BytesMut::freeze`: the same bytes, immutable.
#[verifier::external_body]
fn freeze(buf: BytesMut) -> (r: Bytes)
    ensures
        bytes_view(r) == bytes_mut_view(buf),
{
    buf.freeze()
}

// ---------------------------------------------------------------------------
// Packets
// ---------------------------------------------------------------------------

pub open spec fn pixel_cfg(format: PixelFormat) -> u8 {
    match format {
        PixelFormat::Rgb888 => DDP_PIXEL_CFG_RGB888,
        PixelFormat::Rgb565Be => DDP_PIXEL_CFG_RGB565_BE,
        PixelFormat::Rgb565Le => DDP_PIXEL_CFG_RGB565_LE,
    }
}

pub fn pixel_cfg_for(format: PixelFormat) -> (r: u8)
    ensures
        r == pixel_cfg(format),
{
    match format {
        PixelFormat::Rgb888 => DDP_PIXEL_CFG_RGB888,
        PixelFormat::Rgb565Be => DDP_PIXEL_CFG_RGB565_BE,
        PixelFormat::Rgb565Le => DDP_PIXEL_CFG_RGB565_LE,
    }
}

#[derive(Debug, Clone, Copy)]
pub struct DdpHeader {
    pub flags: u8,
    pub seq: u8,
    pub cfg: u8,
    pub out_id: u8,
    pub offset: u32,
    pub length: u16,
}

/// The ten bytes of a header.
pub open spec fn header_bytes(h: DdpHeader) -> Seq<u8> {
    seq![h.flags, h.seq, h.cfg, h.out_id] + be_u32(h.offset) + be_u16(h.length)
}

impl DdpHeader {
    /// Appends the header's ten bytes to `buf`.
    pub fn encode_into(&self, buf: &mut BytesMut)
        requires
            bytes_mut_view(*old(buf)).len() + 10 <= isize::MAX,
        ensures
            bytes_mut_view(*final(buf)) == bytes_mut_view(*old(buf)) + header_bytes(*self),
    {
        let ghost b0 = bytes_mut_view(*buf);
        put_u8(buf, self.flags);
        put_u8(buf, self.seq);
        put_u8(buf, self.cfg);
        put_u8(buf, self.out_id);
        put_u32(buf, self.offset);
        put_u16(buf, self.length);
        assert(bytes_mut_view(*buf) =~= b0 + header_bytes(*self));
    }
}

/// The sequence number after `current`: sequence numbers run 1..=15 and
/// wrap (0 is reserved).
pub open spec fn next_seq(current: u8) -> u8 {
    ((current % 15) + 1) as u8
}

pub fn next_sequence(current: u8) -> (r: u8)
    ensures
        r == next_seq(current),
{
    (current % 15) + 1
}

/// Sequence numbers are never 0 and never above 15.
pub proof fn lemma_next_sequence_in_range(current: u8)
    ensures
        1 <= next_seq(current) <= 15,
{
}

/// The sequence number `n` steps after `start`.
pub open spec fn seq_after(start: u8, n: nat) -> u8
    decreases n,
{
    if n == 0 {
        start
    } else {
        next_seq(seq_after(start, (n - 1) as nat))
    }
}

/// From a valid sequence number, `n` steps count up by one modulo 15 in
/// the range 1..=15.
pub proof fn lemma_seq_after_formula(start: u8, n: nat)
    requires
        1 <= start <= 15,
    ensures
        seq_after(start, n) == ((start - 1 + n) % 15) + 1,
    decreases n,
{
    if n > 0 {
        lemma_seq_after_formula(start, (n - 1) as nat);
    }
}

/// From any valid sequence number, the numbers repeat every 15 steps.
pub proof fn lemma_sequence_period(start: u8, n: nat)
    requires
        1 <= start <= 15,
    ensures
        seq_after(start, n + 15) == seq_after(start, n),
{
    lemma_seq_after_formula(start, n);
    lemma_seq_after_formula(start, n + 15);
}

/// Number of packets for a payload: one per started 1440 bytes.
pub open spec fn packet_count(total: nat) -> nat {
    (total + 1439) / 1440
}

/// The start and end of packet `i`'s chunk.
pub open spec fn chunk_start(i: nat) -> nat {
    i * 1440
}

pub open spec fn chunk_end(total: nat, i: nat) -> nat {
    if i * 1440 + 1440 < total {
        i * 1440 + 1440
    } else {
        total
    }
}

/// The header of packet `i`: PUSH only on the last packet, the sequence
/// number `i` steps after `start`, the byte offset (as `u32`, truncated) and
/// the chunk length.
pub open spec fn packet_header(total: nat, out_id: u8, start: u8, cfg: u8, i: nat) -> DdpHeader {
    let end = chunk_end(total, i);
    DdpHeader {
        flags: if end >= total {
            0x41u8
        } else {
            0x40u8
        },
        seq: seq_after(start, i),
        cfg,
        out_id,
        offset: (chunk_start(i) % 0x1_0000_0000) as u32,
        length: (end - chunk_start(i)) as u16,
    }
}

/// The bytes of packet `i`: its header, then its chunk of the payload.
pub open spec fn packet_bytes(payload: Seq<u8>, out_id: u8, start: u8, cfg: u8, i: nat) -> Seq<u8> {
    header_bytes(packet_header(payload.len(), out_id, start, cfg, i)) + payload.subrange(
        chunk_start(i) as int,
        chunk_end(payload.len(), i) as int,
    )
}

/// Each element of `r` is packet `i` of the payload with the sequence
/// number that follows it.
pub open spec fn packets_are(r: Seq<(Bytes, u8)>, payload: Seq<u8>, out_id: u8, start: u8, cfg: u8) -> bool {
    forall|i: int|
        0 <= i < r.len() ==> bytes_view(#[trigger] r[i].0) == packet_bytes(payload, out_id, start, cfg, i as nat)
            && r[i].1 == seq_after(start, (i + 1) as nat)
}

/// Every packet's header names the payload's pixel format in its third
/// byte, one code per format as DDP assigns them: 0x0B for RGB888, 0x61
/// for big-endian RGB565 and 0x62 for little-endian RGB565; the first
/// byte carries the version and, on the last packet alone, PUSH.
pub proof fn lemma_packets_name_their_format(
    r: Seq<(Bytes, u8)>,
    payload: Seq<u8>,
    out_id: u8,
    start: u8,
    format: PixelFormat,
    i: int,
)
    requires
        packets_are(r, payload, out_id, start, pixel_cfg(format)),
        0 <= i < r.len(),
    ensures
        bytes_view(r[i].0)[2] == (match format {
            PixelFormat::Rgb888 => 0x0Bu8,
            PixelFormat::Rgb565Be => 0x61u8,
            PixelFormat::Rgb565Le => 0x62u8,
        }),
        bytes_view(r[i].0)[3] == out_id,
        bytes_view(r[i].0)[0] == (if chunk_end(payload.len(), i as nat) >= payload.len() {
            0x41u8
        } else {
            0x40u8
        }),
{
    let h = packet_header(payload.len(), out_id, start, pixel_cfg(format), i as nat);
    let head = header_bytes(h);
    let body = payload.subrange(chunk_start(i as nat) as int, chunk_end(payload.len(), i as nat) as int);
    assert(bytes_view(r[i].0) == packet_bytes(payload, out_id, start, pixel_cfg(format), i as nat));
    assert(packet_bytes(payload, out_id, start, pixel_cfg(format), i as nat) == head + body);
    assert(head[0] == h.flags && head[2] == h.cfg && head[3] == h.out_id);
    assert((head + body)[0] == head[0] && (head + body)[2] == head[2] && (head + body)[3] == head[3]);
}

/// Packet `i` carries the payload's bytes from `1440 * i` on, 1440 of them
/// or what is left, after its ten header bytes; the header gives that byte
/// offset and length big-endian, and from a valid starting sequence number
/// the packets count 1..=15 round, one step per packet.
pub proof fn lemma_packet_layout(r: Seq<(Bytes, u8)>, payload: Seq<u8>, out_id: u8, start: u8, cfg: u8, i: int)
    requires
        packets_are(r, payload, out_id, start, cfg),
        0 <= i < r.len(),
        1440 * i < payload.len(),
    ensures
        ({
            let n: int = if payload.len() - 1440 * i < 1440 {
                payload.len() - 1440 * i
            } else {
                1440
            };
            let b = bytes_view(r[i].0);
            &&& b.len() == 10 + n
            &&& forall|j: int| 0 <= j < n ==> #[trigger] b[10 + j] == payload[1440 * i + j]
            &&& b[8] * 256 + b[9] == n
            &&& b[4] * 0x100_0000 + b[5] * 0x1_0000 + b[6] * 0x100 + b[7] == (1440 * i) % 0x1_0000_0000
            &&& 1 <= start <= 15 ==> b[1] == (start - 1 + i) % 15 + 1 && r[i].1 == (start + i) % 15 + 1
        }),
{
    let h = packet_header(payload.len(), out_id, start, cfg, i as nat);
    let head = header_bytes(h);
    let lo = chunk_start(i as nat) as int;
    let hi = chunk_end(payload.len(), i as nat) as int;
    let body = payload.subrange(lo, hi);
    let b = bytes_view(r[i].0);
    assert(b == packet_bytes(payload, out_id, start, cfg, i as nat));
    assert(b == head + body);
    assert(head.len() == 10);
    assert forall|j: int| 0 <= j < hi - lo implies #[trigger] b[10 + j] == payload[1440 * i + j] by {
        assert(b[10 + j] == body[j]);
    }
    assert(b[8] == head[8] && b[9] == head[9]);
    assert(b[4] == head[4] && b[5] == head[5] && b[6] == head[6] && b[7] == head[7] && b[1] == head[1]);
    let off = h.offset;
    assert(off as int == (1440 * i) % 0x1_0000_0000);
    assert((off / 0x100_0000) * 0x100_0000 + ((off / 0x1_0000) % 0x100) * 0x1_0000 + ((off / 0x100) % 0x100) * 0x100
        + off % 0x100 == off) by (nonlinear_arith)
        requires
            0 <= off < 0x1_0000_0000,
    ;
    assert((h.length / 0x100) * 0x100 + h.length % 0x100 == h.length) by (nonlinear_arith);
    if 1 <= start <= 15 {
        lemma_seq_after_formula(start, i as nat);
        lemma_seq_after_formula(start, (i + 1) as nat);
    }
}

/// Packet `k` of a payload, whose chunk starts at `offset`.
fn make_packet(payload: &[u8], output_id: u8, starting_seq: u8, seq: u8, cfg: u8, k: usize, offset: usize) -> (b: Bytes)
    requires
        offset == k * 1440,
        offset < payload@.len(),
        seq == seq_after(starting_seq, k as nat),
    ensures
        bytes_view(b) == packet_bytes(payload@, output_id, starting_seq, cfg, k as nat),
{
    let total = payload.len();
    let end: usize = if total - offset > DDP_MAX_DATA {
        offset + DDP_MAX_DATA
    } else {
        total
    };
    assert(end as nat == chunk_end(total as nat, k as nat));
    let flags: u8 = if end >= total {
        DDP_FLAG_VER1 | DDP_FLAG_PUSH
    } else {
        DDP_FLAG_VER1
    };
    assert(DDP_FLAG_VER1 | DDP_FLAG_PUSH == 0x41u8) by (bit_vector);
    let off32: u32 = ((offset as u64) % 0x1_0000_0000u64) as u32;
    let header = DdpHeader {
        flags,
        seq,
        cfg,
        out_id: output_id,
        offset: off32,
        length: (end - offset) as u16,
    };
    assert(header == packet_header(total as nat, output_id, starting_seq, cfg, k as nat));
    let mut buf = bytes_with_capacity(DDP_HEADER_LEN + (end - offset));
    header.encode_into(&mut buf);
    extend_from_subslice(&mut buf, payload, offset, end);
    let b = freeze(buf);
    assert(bytes_view(b) =~= packet_bytes(payload@, output_id, starting_seq, cfg, k as nat));
    b
}

/// The packets of a payload, each with the sequence number to use after it.
pub fn iter_packets(payload: &[u8], output_id: u8, starting_seq: u8, format: PixelFormat) -> (r: Vec<(Bytes, u8)>)
    ensures
        r@.len() == packet_count(payload@.len()),
        packets_are(r@, payload@, output_id, starting_seq, pixel_cfg(format)),
{
    let cfg = pixel_cfg_for(format);
    let total = payload.len();
    let mut seq = starting_seq;
    let mut offset: usize = 0;
    let mut k: usize = 0;
    let mut out: Vec<(Bytes, u8)> = Vec::new();
    while offset < total
        invariant
            total == payload@.len(),
            k == out@.len(),
            offset < total ==> offset == k * 1440,
            offset >= total ==> k * 1440 >= total,
            offset <= total,
            k == 0 || (k - 1) * 1440 < total,
            cfg == pixel_cfg(format),
            seq == seq_after(starting_seq, k as nat),
            packets_are(out@, payload@, output_id, starting_seq, cfg),
        decreases total - offset,
    {
        let b = make_packet(payload, output_id, starting_seq, seq, cfg, k, offset);
        let next = next_sequence(seq);
        out.push((b, next));
        seq = next;
        if total - offset > DDP_MAX_DATA {
            offset = offset + DDP_MAX_DATA;
        } else {
            offset = total;
        }
        k = k + 1;
    }
    assert(out@.len() == packet_count(total as nat)) by (nonlinear_arith)
        requires
            out@.len() * 1440 >= total,
            out@.len() == 0 || (out@.len() - 1) * 1440 < total,
    ;
    out
}

} // verus!
