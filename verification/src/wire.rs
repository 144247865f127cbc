//! Glowbe Wire v1: FRAME datagrams sent to the sphere and STATUS datagrams it answers with.

use vstd::prelude::*;

verus! {

pub const MAGIC0: u8 = 0x47;
pub const MAGIC1: u8 = 0x42;
pub const VERSION: u8 = 1;
pub const MSG_FRAME: u8 = 1;
pub const MSG_STATUS: u8 = 3;
pub const HEADER_SIZE: usize = 16;
/// Max RGB bytes per UDP datagram (MTU-friendly; must match firmware `kMaxChunkPayload`).
pub const MAX_CHUNK_PAYLOAD: usize = 1472;

/// Little-endian bytes of a 16-bit value.
pub open spec fn le16(x: int) -> Seq<u8> {
    seq![(x % 256) as u8, ((x / 256) % 256) as u8]
}

/// Little-endian bytes of a 32-bit value.
pub open spec fn le32(x: int) -> Seq<u8> {
    seq![
        (x % 256) as u8,
        ((x / 0x100) % 256) as u8,
        ((x / 0x1_0000) % 256) as u8,
        ((x / 0x100_0000) % 256) as u8,
    ]
}

/// The 16-bit little-endian value stored at `d[i..i+2]`.
pub open spec fn le16_at(d: Seq<u8>, i: int) -> int {
    d[i] + 256 * d[i + 1]
}

/// The 32-bit little-endian value stored at `d[i..i+4]`.
pub open spec fn le32_at(d: Seq<u8>, i: int) -> int {
    d[i] + 0x100 * d[i + 1] + 0x1_0000 * d[i + 2] + 0x100_0000 * d[i + 3]
}

/// Number of datagrams a frame of `total` RGB bytes is split into.
pub open spec fn chunk_count(total: int) -> int {
    (total + MAX_CHUNK_PAYLOAD - 1) / (MAX_CHUNK_PAYLOAD as int)
}

/// Payload length of datagram `k` of a frame of `total` bytes.
pub open spec fn chunk_len(total: int, k: int) -> int {
    let rest = total - k * MAX_CHUNK_PAYLOAD;
    if rest < MAX_CHUNK_PAYLOAD {
        rest
    } else {
        MAX_CHUNK_PAYLOAD as int
    }
}

/// The 16-byte FRAME header of datagram `k` out of `count`, carrying `len` payload bytes.
pub open spec fn frame_header(frame_id: u32, led_count: u16, k: int, count: int, len: int) -> Seq<u8> {
    seq![MAGIC0, MAGIC1, VERSION, MSG_FRAME] + le32(frame_id as int) + le16(led_count as int) + le16(k)
        + le16(count) + le16(len)
}

/// Datagram `k` of the frame `rgb`: header followed by its slice of the RGB bytes.
pub open spec fn frame_packet(frame_id: u32, led_count: u16, rgb: Seq<u8>, k: int) -> Seq<u8> {
    let total = rgb.len() as int;
    let off = k * MAX_CHUNK_PAYLOAD;
    let len = chunk_len(total, k);
    frame_header(frame_id, led_count, k, chunk_count(total), len) + rgb.subrange(off, off + len)
}

fn push_le16(v: &mut Vec<u8>, x: u16)
    ensures
        final(v)@ == old(v)@ + le16(x as int),
{
    v.push((x % 256) as u8);
    v.push((x / 256) as u8);
}

fn push_le32(v: &mut Vec<u8>, x: u32)
    ensures
        final(v)@ == old(v)@ + le32(x as int),
{
    v.push((x % 256) as u8);
    v.push(((x / 0x100) % 256) as u8);
    v.push(((x / 0x1_0000) % 256) as u8);
    v.push((x / 0x100_0000) as u8);
}

/// Build one or more UDP datagrams for a full RGB frame.
pub fn encode_frame(led_count: u16, frame_id: u32, rgb: &[u8]) -> (packets: Vec<Vec<u8>>)
    requires
        rgb.len() == led_count * 3,
    ensures
        packets.len() == chunk_count(rgb.len() as int),
        forall|k: int|
            0 <= k < packets.len() ==> #[trigger] packets@[k]@ == frame_packet(frame_id, led_count, rgb@, k),
{
    let total = rgb.len();
    let mut packets: Vec<Vec<u8>> = Vec::new();
    let mut offset: usize = 0;
    let mut chunk_index: u16 = 0;
    let chunk_count_u: usize = (total + MAX_CHUNK_PAYLOAD - 1) / MAX_CHUNK_PAYLOAD;
    assert(chunk_count_u <= 134);
    let count16 = chunk_count_u as u16;

    while offset < total
        invariant
            total == rgb.len(),
            total == led_count * 3,
            chunk_count_u == chunk_count(total as int),
            count16 == chunk_count_u,
            offset <= total,
            offset < total ==> offset == chunk_index * MAX_CHUNK_PAYLOAD,
            offset == total ==> chunk_index == chunk_count_u,
            chunk_index <= chunk_count_u,
            packets.len() == chunk_index,
            offset < total ==> chunk_index < chunk_count_u,
            forall|k: int|
                0 <= k < packets.len() ==> #[trigger] packets@[k]@ == frame_packet(frame_id, led_count, rgb@, k),
        decreases total - offset,
    {
        let chunk_len_u: usize = if total - offset < MAX_CHUNK_PAYLOAD {
            total - offset
        } else {
            MAX_CHUNK_PAYLOAD
        };
        let mut pkt: Vec<u8> = Vec::new();
        pkt.push(MAGIC0);
        pkt.push(MAGIC1);
        pkt.push(VERSION);
        pkt.push(MSG_FRAME);
        push_le32(&mut pkt, frame_id);
        push_le16(&mut pkt, led_count);
        push_le16(&mut pkt, chunk_index);
        push_le16(&mut pkt, count16);
        push_le16(&mut pkt, chunk_len_u as u16);
        let ghost header = pkt@;
        assert(header == frame_header(frame_id, led_count, chunk_index as int, chunk_count_u as int, chunk_len_u as int));
        let mut j: usize = 0;
        while j < chunk_len_u
            invariant
                offset + chunk_len_u <= total == rgb.len(),
                j <= chunk_len_u,
                pkt@ == header + rgb@.subrange(offset as int, offset + j),
            decreases chunk_len_u - j,
        {
            pkt.push(rgb[offset + j]);
            assert(rgb@.subrange(offset as int, offset + j + 1) == rgb@.subrange(offset as int, offset + j).push(rgb@[offset + j]));
            j += 1;
        }
        assert(pkt@ == frame_packet(frame_id, led_count, rgb@, chunk_index as int));
        packets.push(pkt);
        proof {
            let ci = chunk_index as int;
            let t = total as int;
            if offset + chunk_len_u == total {
                assert(ci * 1472 < t <= ci * 1472 + 1472);
                assert((t + 1471) / 1472 == ci + 1) by (nonlinear_arith)
                    requires
                        ci * 1472 < t <= ci * 1472 + 1472,
                ;
            } else {
                assert(ci * 1472 + 1472 < t);
                assert((t + 1471) / 1472 > ci + 1) by (nonlinear_arith)
                    requires
                        ci * 1472 + 1472 < t,
                ;
            }
        }
        offset += chunk_len_u;
        chunk_index += 1;
    }
    packets
}

/// STATUS datagram fields reported by the sphere.
#[derive(Debug, Clone)]
pub struct Status {
    pub frames_complete: u32,
    pub fps_rx_x10: u16,
    /// Discarded/dropped packets (low 16 bits), per Glowbe Wire v1 STATUS offset 10.
    pub drops: u16,
    pub rssi: i8,
    /// Layout fingerprint from ESP (bytes 16–19 LE); `None` if packet is legacy 16-byte STATUS.
    pub layout_hash: Option<u32>,
}

/// A datagram carries a STATUS message: long enough and with the STATUS magic/version/type.
pub open spec fn is_status_datagram(d: Seq<u8>) -> bool {
    &&& d.len() >= HEADER_SIZE
    &&& d[0] == MAGIC0
    &&& d[1] == MAGIC1
    &&& d[2] == VERSION
    &&& d[3] == MSG_STATUS
}

/// What a STATUS datagram says.
pub open spec fn status_fields(d: Seq<u8>) -> Status {
    Status {
        frames_complete: le32_at(d, 4) as u32,
        fps_rx_x10: le16_at(d, 8) as u16,
        drops: le16_at(d, 10) as u16,
        rssi: d[12] as i8,
        layout_hash: if d.len() >= 20 {
            Some(le32_at(d, 16) as u32)
        } else {
            None
        },
    }
}

fn read_le16(d: &[u8], i: usize) -> (r: u16)
    requires
        i + 2 <= d.len(),
    ensures
        r == le16_at(d@, i as int),
{
    d[i] as u16 + 256 * (d[i + 1] as u16)
}

fn read_le32(d: &[u8], i: usize) -> (r: u32)
    requires
        i + 4 <= d.len(),
    ensures
        r == le32_at(d@, i as int),
{
    d[i] as u32 + 0x100 * (d[i + 1] as u32) + 0x1_0000 * (d[i + 2] as u32) + 0x100_0000 * (d[i + 3] as u32)
}

/// Signed reading of a byte (two's complement).
fn byte_as_i8(b: u8) -> (r: i8)
    ensures
        r == b as i8,
{
    if b < 128 {
        b as i8
    } else {
        assert(b as i8 == b - 256) by (bit_vector)
            requires
                128 <= b,
        ;
        (b as i16 - 256) as i8
    }
}

/// Parse a STATUS datagram; `None` unless it is one.
pub fn parse_status(data: &[u8]) -> (r: Option<Status>)
    ensures
        r is Some <==> is_status_datagram(data@),
        r matches Some(st) ==> st == status_fields(data@),
{
    if data.len() < HEADER_SIZE {
        return None;
    }
    if data[0] != MAGIC0 || data[1] != MAGIC1 || data[2] != VERSION || data[3] != MSG_STATUS {
        return None;
    }
    let frames_complete = read_le32(data, 4);
    let fps_rx_x10 = read_le16(data, 8);
    let drops = read_le16(data, 10);
    let rssi = byte_as_i8(data[12]);
    let layout_hash = if data.len() >= 20 {
        Some(read_le32(data, 16))
    } else {
        None
    };
    Some(Status { frames_complete, fps_rx_x10, drops, rssi, layout_hash })
}

/// The payloads of datagrams `0..n`, concatenated in order.
pub open spec fn payloads_upto(frame_id: u32, led_count: u16, rgb: Seq<u8>, n: nat) -> Seq<u8>
    decreases n,
{
    if n == 0 {
        Seq::empty()
    } else {
        payloads_upto(frame_id, led_count, rgb, (n - 1) as nat) + frame_packet(
            frame_id,
            led_count,
            rgb,
            n - 1,
        ).skip(HEADER_SIZE as int)
    }
}

proof fn lemma_payloads_prefix(frame_id: u32, led_count: u16, rgb: Seq<u8>, n: nat)
    requires
        n <= chunk_count(rgb.len() as int),
    ensures
        payloads_upto(frame_id, led_count, rgb, n) == rgb.take(
            if n * MAX_CHUNK_PAYLOAD < rgb.len() { n * MAX_CHUNK_PAYLOAD } else { rgb.len() as int },
        ),
    decreases n,
{
    if n > 0 {
        lemma_payloads_prefix(frame_id, led_count, rgb, (n - 1) as nat);
        let k = n - 1;
        let t = rgb.len() as int;
        assert(k * 1472 < t) by (nonlinear_arith)
            requires
                k + 1 <= (t + 1471) / 1472,
                k >= 0,
        ;
        let pkt = frame_packet(frame_id, led_count, rgb, k);
        assert(frame_header(frame_id, led_count, k, chunk_count(t), chunk_len(t, k)).len() == 16);
        assert(pkt.skip(16) =~= rgb.subrange(k * 1472, k * 1472 + chunk_len(t, k)));
        assert(n * 1472 == k * 1472 + 1472);
        assert(payloads_upto(frame_id, led_count, rgb, n) =~= rgb.take(
            if n * MAX_CHUNK_PAYLOAD < rgb.len() { n * MAX_CHUNK_PAYLOAD } else { rgb.len() as int },
        ));
    }
}

/// Reassembly law: concatenating, in order, the payloads of all the datagrams that
/// `encode_frame` produces for a frame gives back exactly that frame's RGB bytes.
pub proof fn lemma_frame_payloads_reassemble(frame_id: u32, led_count: u16, rgb: Seq<u8>)
    ensures
        payloads_upto(frame_id, led_count, rgb, chunk_count(rgb.len() as int) as nat) == rgb,
{
    let t = rgb.len() as int;
    let n = chunk_count(t);
    assert(n * 1472 >= t) by (nonlinear_arith)
        requires
            n == (t + 1471) / 1472,
            t >= 0,
    ;
    lemma_payloads_prefix(frame_id, led_count, rgb, n as nat);
    assert(rgb.take(t) =~= rgb);
}

/// Header law: in every datagram of a frame, the header's chunk-index field is the
/// datagram's position, its chunk-count field is the number of datagrams, and its
/// payload-length field is the number of bytes that follow the header.
pub proof fn lemma_frame_header_fields(frame_id: u32, led_count: u16, rgb: Seq<u8>, k: int)
    requires
        0 <= k < chunk_count(rgb.len() as int),
        rgb.len() <= led_count * 3,
    ensures
        ({
            let p = frame_packet(frame_id, led_count, rgb, k);
            &&& p.len() >= HEADER_SIZE
            &&& p[0] == MAGIC0 && p[1] == MAGIC1 && p[2] == VERSION && p[3] == MSG_FRAME
            &&& le32_at(p, 4) == frame_id
            &&& le16_at(p, 8) == led_count
            &&& le16_at(p, 10) == k
            &&& le16_at(p, 12) == chunk_count(rgb.len() as int)
            &&& le16_at(p, 14) == p.len() - HEADER_SIZE
        }),
{
    let t = rgb.len() as int;
    assert(k * 1472 < t) by (nonlinear_arith)
        requires
            k + 1 <= (t + 1471) / 1472,
            k >= 0,
    ;
    assert(chunk_count(t) <= 134);
    let p = frame_packet(frame_id, led_count, rgb, k);
    let len = chunk_len(t, k);
    assert(p.len() == 16 + len);
    let f = frame_id as int;
    assert(le32_at(p, 4) == f) by {
        assert(p[4] == (f % 256) as u8);
        assert(p[5] == ((f / 0x100) % 256) as u8);
        assert(p[6] == ((f / 0x1_0000) % 256) as u8);
        assert(p[7] == ((f / 0x100_0000) % 256) as u8);
        assert((f % 256) + 0x100 * ((f / 0x100) % 256) + 0x1_0000 * ((f / 0x1_0000) % 256)
            + 0x100_0000 * ((f / 0x100_0000) % 256) == f) by (nonlinear_arith)
            requires
                0 <= f < 0x1_0000_0000,
        ;
    }
    assert(le16_at(p, 8) == led_count as int) by {
        let x = led_count as int;
        assert(p[8] == (x % 256) as u8);
        assert(p[9] == ((x / 256) % 256) as u8);
        assert((x % 256) + 256 * ((x / 256) % 256) == x) by (nonlinear_arith)
            requires
                0 <= x < 0x1_0000,
        ;
    }
}

} // verus!
