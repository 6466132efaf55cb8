//! The outer packet container: a fixed header followed by typed,
//! length-delimited segments. Every integer on the wire is little-endian.

use vstd::prelude::*;
use crate::bytes::{
    copy_range, push_bytes, push_u16_le, push_u32_le, push_u64_le, read_u16_le, read_u32_le,
    read_u64_le, spec_u16_le, spec_u32_le, spec_u64_le, u16_le_bytes, u32_le_bytes, u64_le_bytes,
};

verus! {

/// Length of the packet header on the wire.
pub const PACKET_HEADER_LEN: usize = 40;

/// Length of a segment header on the wire.
pub const SEGMENT_HEADER_LEN: usize = 16;

/// Largest packet, header included, that the codec accepts.
pub const MAX_PACKET_LEN: usize = 0x10000;

/// How the segments of a packet are compressed.
#[derive(Clone, Copy, Debug, PartialEq, Eq, Structural)]
pub enum CompressionType {
    Uncompressed,
    Zlib,
    Oodle,
}

impl CompressionType {
    /// The compression that a wire code stands for.
    pub open spec fn spec_try_from_primitive(code: u16) -> Option<CompressionType> {
        if code == 0 {
            Some(CompressionType::Uncompressed)
        } else if code == 1 {
            Some(CompressionType::Zlib)
        } else if code == 2 {
            Some(CompressionType::Oodle)
        } else {
            None
        }
    }

    /// Reads a wire code: 0 is `Uncompressed`, 1 `Zlib`, 2 `Oodle`.
    pub fn try_from_primitive(code: u16) -> (r: Option<CompressionType>)
        ensures
            r == Self::spec_try_from_primitive(code),
    {
        if code == 0 {
            Some(CompressionType::Uncompressed)
        } else if code == 1 {
            Some(CompressionType::Zlib)
        } else if code == 2 {
            Some(CompressionType::Oodle)
        } else {
            None
        }
    }
}

/// The fixed preamble of a packet.
#[derive(Clone, Copy, Debug, PartialEq, Eq, Structural)]
pub struct PacketHeader {
    pub unknown_0: u64,
    pub unknown_8: u64,
    pub timestamp: u64,
    pub size: u32,
    pub connection_type: u16,
    pub count: u16,
    pub unknown_20: u8,
    pub is_compressed: u8,
    pub unknown_24: u16,
    pub uncompressed_size: u32,
}

/// The kinds of segment a client sends.
#[derive(Clone, Copy, Debug, PartialEq, Eq, Structural)]
pub enum SegmentType {
    SessionInit,
    Ipc,
    KeepAlive,
    EncryptionInit,
}

/// Wire code of the answer to a keep-alive segment.
pub const KEEP_ALIVE_ACK: u16 = 0x08;

/// Wire code of the answer to an encryption handshake.
pub const ENCRYPTION_INIT_ACK: u16 = 0x0a;

impl SegmentType {
    /// The wire code of a segment type.
    pub open spec fn spec_code(self) -> u16 {
        match self {
            SegmentType::SessionInit => 1,
            SegmentType::Ipc => 3,
            SegmentType::KeepAlive => 7,
            SegmentType::EncryptionInit => 9,
        }
    }

    /// The segment type that a wire code stands for, if any.
    pub open spec fn spec_try_from_primitive(code: u16) -> Option<SegmentType> {
        if code == 1 {
            Some(SegmentType::SessionInit)
        } else if code == 3 {
            Some(SegmentType::Ipc)
        } else if code == 7 {
            Some(SegmentType::KeepAlive)
        } else if code == 9 {
            Some(SegmentType::EncryptionInit)
        } else {
            None
        }
    }

    /// The wire code: 1, 3, 7 or 9.
    pub fn code(self) -> (c: u16)
        ensures
            c == self.spec_code(),
            Self::spec_try_from_primitive(c) == Some(self),
    {
        match self {
            SegmentType::SessionInit => 1,
            SegmentType::Ipc => 3,
            SegmentType::KeepAlive => 7,
            SegmentType::EncryptionInit => 9,
        }
    }

    /// Reads a wire code; a code outside the known set gives `None`.
    pub fn try_from_primitive(code: u16) -> (r: Option<SegmentType>)
        ensures
            r == Self::spec_try_from_primitive(code),
    {
        if code == 1 {
            Some(SegmentType::SessionInit)
        } else if code == 3 {
            Some(SegmentType::Ipc)
        } else if code == 7 {
            Some(SegmentType::KeepAlive)
        } else if code == 9 {
            Some(SegmentType::EncryptionInit)
        } else {
            None
        }
    }
}

/// The header of one segment. `size` counts this header too.
#[derive(Clone, Copy, Debug, PartialEq, Eq, Structural)]
pub struct PacketSegmentHeader {
    pub size: u32,
    pub source_actor: u32,
    pub target_actor: u32,
    pub segment_type: u16,
    pub padding: u16,
}

impl PacketSegmentHeader {
    /// The header of a segment whose payload has `size` bytes.
    pub fn new(segment_type: u16, size: u32, source_actor: u32, target_actor: u32) -> (h:
        PacketSegmentHeader)
        requires
            size <= u32::MAX - 16,
        ensures
            h == (PacketSegmentHeader {
                size: (size + 16) as u32,
                source_actor,
                target_actor,
                segment_type,
                padding: 0,
            }),
    {
        PacketSegmentHeader {
            size: 16 + size,
            source_actor,
            target_actor,
            segment_type,
            padding: 0,
        }
    }
}

/// One segment: its header and its payload.
#[derive(Clone, Debug, PartialEq, Eq)]
pub struct PacketRaw {
    pub segment_header: PacketSegmentHeader,
    pub data: Vec<u8>,
}

/// A segment as mathematics: its header and its payload bytes.
pub struct Segment {
    pub header: PacketSegmentHeader,
    pub data: Seq<u8>,
}

impl View for PacketRaw {
    type V = Segment;

    open spec fn view(&self) -> Segment {
        Segment { header: self.segment_header, data: self.data@ }
    }
}

/// The views of a list of segments, in order.
pub open spec fn spec_segments(v: Seq<PacketRaw>) -> Seq<Segment> {
    Seq::new(v.len(), |i: int| v[i]@)
}

/// Why a buffer is not a packet.
#[derive(Clone, Copy, Debug, PartialEq, Eq, Structural)]
pub enum FrameError {
    /// The buffer ends before the header, a segment header or a payload does.
    Truncated,
    /// A size field contradicts the layout: a packet smaller than its header,
    /// a segment smaller than its header, or segments that do not fill the
    /// packet exactly.
    Malformed,
    /// The header announces a packet larger than `MAX_PACKET_LEN`.
    TooLarge,
}

/// The packet header that the 40 bytes at the start of `s` encode.
pub open spec fn spec_header_at(s: Seq<u8>) -> PacketHeader {
    PacketHeader {
        unknown_0: spec_u64_le(s, 0),
        unknown_8: spec_u64_le(s, 8),
        timestamp: spec_u64_le(s, 16),
        size: spec_u32_le(s, 24),
        connection_type: spec_u16_le(s, 28),
        count: spec_u16_le(s, 30),
        unknown_20: s[32],
        is_compressed: s[33],
        unknown_24: spec_u16_le(s, 34),
        uncompressed_size: spec_u32_le(s, 36),
    }
}

/// The segment header that the 16 bytes of `s` at `i` encode.
pub open spec fn spec_segment_header_at(s: Seq<u8>, i: int) -> PacketSegmentHeader {
    PacketSegmentHeader {
        size: spec_u32_le(s, i),
        source_actor: spec_u32_le(s, i + 4),
        target_actor: spec_u32_le(s, i + 8),
        segment_type: spec_u16_le(s, i + 12),
        padding: spec_u16_le(s, i + 14),
    }
}

/// The 40 bytes that encode a packet header.
pub open spec fn spec_header_bytes(h: PacketHeader) -> Seq<u8> {
    u64_le_bytes(h.unknown_0) + u64_le_bytes(h.unknown_8) + u64_le_bytes(h.timestamp)
        + u32_le_bytes(h.size) + u16_le_bytes(h.connection_type) + u16_le_bytes(h.count)
        + seq![h.unknown_20] + seq![h.is_compressed] + u16_le_bytes(h.unknown_24) + u32_le_bytes(
        h.uncompressed_size,
    )
}

/// The 16 bytes that encode a segment header.
pub open spec fn spec_segment_header_bytes(h: PacketSegmentHeader) -> Seq<u8> {
    u32_le_bytes(h.size) + u32_le_bytes(h.source_actor) + u32_le_bytes(h.target_actor)
        + u16_le_bytes(h.segment_type) + u16_le_bytes(h.padding)
}

/// `acc` put in front of the segments of a successful result.
pub open spec fn spec_prepend(acc: Seq<Segment>, r: Result<Seq<Segment>, FrameError>) -> Result<
    Seq<Segment>,
    FrameError,
> {
    match r {
        Ok(rest) => Ok(acc + rest),
        Err(e) => Err(e),
    }
}

/// The `count` segments that stand in `s` from `pos` up to `end`. A segment
/// that does not fit is `Truncated`; a segment size under 16, or an end other
/// than `end` after the last segment, is `Malformed`.
pub open spec fn spec_parse_segments(s: Seq<u8>, pos: int, end: int, count: nat) -> Result<
    Seq<Segment>,
    FrameError,
>
    decreases count,
{
    if count == 0 {
        if pos == end {
            Ok(Seq::<Segment>::empty())
        } else {
            Err(FrameError::Malformed)
        }
    } else if pos + 16 > end {
        Err(FrameError::Truncated)
    } else {
        let h = spec_segment_header_at(s, pos);
        if h.size < 16 {
            Err(FrameError::Malformed)
        } else if pos + h.size > end {
            Err(FrameError::Truncated)
        } else {
            spec_prepend(
                seq![Segment { header: h, data: s.subrange(pos + 16, pos + h.size) }],
                spec_parse_segments(s, pos + h.size, end, (count - 1) as nat),
            )
        }
    }
}

/// The packet at the start of `s`: its header and its segments. Bytes after
/// the packet's announced size are not looked at.
pub open spec fn spec_parse(s: Seq<u8>) -> Result<(PacketHeader, Seq<Segment>), FrameError> {
    if s.len() < 40 {
        Err(FrameError::Truncated)
    } else {
        let h = spec_header_at(s);
        if h.size < 40 {
            Err(FrameError::Malformed)
        } else if h.size > MAX_PACKET_LEN {
            Err(FrameError::TooLarge)
        } else if h.size > s.len() {
            Err(FrameError::Truncated)
        } else {
            match spec_parse_segments(s, 40, h.size as int, h.count as nat) {
                Ok(segments) => Ok((h, segments)),
                Err(e) => Err(e),
            }
        }
    }
}

/// Reads the packet header at the start of `data`.
pub fn read_header(data: &[u8]) -> (h: PacketHeader)
    requires
        data@.len() >= 40,
    ensures
        h == spec_header_at(data@),
{
    PacketHeader {
        unknown_0: read_u64_le(data, 0),
        unknown_8: read_u64_le(data, 8),
        timestamp: read_u64_le(data, 16),
        size: read_u32_le(data, 24),
        connection_type: read_u16_le(data, 28),
        count: read_u16_le(data, 30),
        unknown_20: data[32],
        is_compressed: data[33],
        unknown_24: read_u16_le(data, 34),
        uncompressed_size: read_u32_le(data, 36),
    }
}

/// Reads the segment header at `pos`.
pub fn read_segment_header(data: &[u8], pos: usize) -> (h: PacketSegmentHeader)
    requires
        pos + 16 <= data@.len(),
    ensures
        h == spec_segment_header_at(data@, pos as int),
{
    let size = read_u32_le(data, pos);
    assert(pos + 16 <= data.len());
    PacketSegmentHeader {
        size,
        source_actor: read_u32_le(data, pos + 4),
        target_actor: read_u32_le(data, pos + 8),
        segment_type: read_u16_le(data, pos + 12),
        padding: read_u16_le(data, pos + 14),
    }
}

/// Parses the packet at the start of `data`: the header, then as many
/// segments as the header counts, which must fill the announced size exactly.
pub fn parse(data: &[u8]) -> (r: Result<(PacketHeader, Vec<PacketRaw>), FrameError>)
    ensures
        match spec_parse(data@) {
            Ok(p) => r is Ok && r->Ok_0.0 == p.0 && spec_segments(r->Ok_0.1@) == p.1,
            Err(e) => r == Err::<(PacketHeader, Vec<PacketRaw>), FrameError>(e),
        },
{
    if data.len() < PACKET_HEADER_LEN {
        return Err(FrameError::Truncated);
    }
    let header = read_header(data);
    if header.size < 40 {
        return Err(FrameError::Malformed);
    }
    if header.size as usize > MAX_PACKET_LEN {
        return Err(FrameError::TooLarge);
    }
    if header.size as usize > data.len() {
        return Err(FrameError::Truncated);
    }
    let end: usize = header.size as usize;
    let mut segments: Vec<PacketRaw> = Vec::new();
    let mut pos: usize = PACKET_HEADER_LEN;
    let mut k: u16 = 0;
    assert(spec_segments(segments@) =~= Seq::<Segment>::empty());
    assert(Seq::<Segment>::empty() + Seq::<Segment>::empty() =~= Seq::<Segment>::empty());
    while k < header.count
        invariant
            k <= header.count,
            40 <= pos <= end,
            end <= data@.len(),
            end == header.size,
            end <= MAX_PACKET_LEN,
            header == spec_header_at(data@),
            spec_parse_segments(data@, 40, end as int, header.count as nat) == spec_prepend(
                spec_segments(segments@),
                spec_parse_segments(data@, pos as int, end as int, (header.count - k) as nat),
            ),
        decreases header.count - k,
    {
        if end - pos < SEGMENT_HEADER_LEN {
            return Err(FrameError::Truncated);
        }
        let segment_header = read_segment_header(data, pos);
        if segment_header.size < 16 {
            return Err(FrameError::Malformed);
        }
        if segment_header.size as usize > end - pos {
            return Err(FrameError::Truncated);
        }
        let next: usize = pos + segment_header.size as usize;
        let payload = copy_range(data, pos + SEGMENT_HEADER_LEN, next);
        let ghost before = spec_segments(segments@);
        let ghost rest = spec_parse_segments(
            data@,
            next as int,
            end as int,
            (header.count - k - 1) as nat,
        );
        segments.push(PacketRaw { segment_header, data: payload });
        proof {
            let one = seq![Segment { header: segment_header, data: payload@ }];
            assert(spec_segments(segments@) =~= before + one);
            match rest {
                Ok(tail) => {
                    assert(before + (one + tail) =~= (before + one) + tail);
                },
                Err(_) => {},
            }
        }
        pos = next;
        k += 1;
    }
    if pos != end {
        return Err(FrameError::Malformed);
    }
    proof {
        assert(spec_segments(segments@) + Seq::<Segment>::empty() =~= spec_segments(segments@));
    }
    Ok((header, segments))
}


/// `h` with the size and count of a packet that carries one segment with a
/// payload of `payload_len` bytes.
pub open spec fn spec_sized_header(h: PacketHeader, payload_len: int) -> PacketHeader {
    PacketHeader {
        unknown_0: h.unknown_0,
        unknown_8: h.unknown_8,
        timestamp: h.timestamp,
        size: (56 + payload_len) as u32,
        connection_type: h.connection_type,
        count: 1,
        unknown_20: h.unknown_20,
        is_compressed: h.is_compressed,
        unknown_24: h.unknown_24,
        uncompressed_size: h.uncompressed_size,
    }
}

/// `seg` with the size that its payload gives it.
pub open spec fn spec_sized_segment(seg: Segment) -> Segment {
    Segment {
        header: PacketSegmentHeader {
            size: (16 + seg.data.len()) as u32,
            source_actor: seg.header.source_actor,
            target_actor: seg.header.target_actor,
            segment_type: seg.header.segment_type,
            padding: seg.header.padding,
        },
        data: seg.data,
    }
}

/// The bytes of a packet that carries the one segment `seg`: both size
/// fields and the count follow from the payload, every other field is
/// written as given.
pub open spec fn spec_encode(h: PacketHeader, seg: Segment) -> Seq<u8> {
    spec_header_bytes(spec_sized_header(h, seg.data.len() as int)) + spec_segment_header_bytes(
        spec_sized_segment(seg).header,
    ) + seg.data
}

/// Appends the 40 bytes of a packet header.
pub fn write_header(out: &mut Vec<u8>, h: &PacketHeader)
    ensures
        final(out)@ == old(out)@ + spec_header_bytes(*h),
{
    let ghost start = out@;
    push_u64_le(out, h.unknown_0);
    push_u64_le(out, h.unknown_8);
    push_u64_le(out, h.timestamp);
    push_u32_le(out, h.size);
    push_u16_le(out, h.connection_type);
    push_u16_le(out, h.count);
    out.push(h.unknown_20);
    out.push(h.is_compressed);
    push_u16_le(out, h.unknown_24);
    push_u32_le(out, h.uncompressed_size);
    assert(out@ =~= start + spec_header_bytes(*h));
}

/// Appends the 16 bytes of a segment header.
pub fn write_segment_header(out: &mut Vec<u8>, h: &PacketSegmentHeader)
    ensures
        final(out)@ == old(out)@ + spec_segment_header_bytes(*h),
{
    let ghost start = out@;
    push_u32_le(out, h.size);
    push_u32_le(out, h.source_actor);
    push_u32_le(out, h.target_actor);
    push_u16_le(out, h.segment_type);
    push_u16_le(out, h.padding);
    assert(out@ =~= start + spec_segment_header_bytes(*h));
}

/// Serialises a packet that carries the one segment `segment`. The count is
/// 1, and the packet's and the segment's size are computed from the payload.
pub fn encode(header: &PacketHeader, segment: &PacketRaw) -> (out: Vec<u8>)
    requires
        segment.data@.len() + 56 <= u32::MAX,
    ensures
        out@ == spec_encode(*header, segment@),
        out@.len() == 56 + segment.data@.len(),
{
    let n: usize = segment.data.len();
    let sized = PacketHeader {
        unknown_0: header.unknown_0,
        unknown_8: header.unknown_8,
        timestamp: header.timestamp,
        size: (56 + n) as u32,
        connection_type: header.connection_type,
        count: 1,
        unknown_20: header.unknown_20,
        is_compressed: header.is_compressed,
        unknown_24: header.unknown_24,
        uncompressed_size: header.uncompressed_size,
    };
    let segment_header = PacketSegmentHeader {
        size: (16 + n) as u32,
        source_actor: segment.segment_header.source_actor,
        target_actor: segment.segment_header.target_actor,
        segment_type: segment.segment_header.segment_type,
        padding: segment.segment_header.padding,
    };
    let mut out: Vec<u8> = Vec::new();
    write_header(&mut out, &sized);
    write_segment_header(&mut out, &segment_header);
    push_bytes(&mut out, segment.data.as_slice());
    proof {
        assert(out@ =~= spec_encode(*header, segment@));
        lemma_header_read_back(sized, Seq::<u8>::empty());
        lemma_segment_header_read_back(Seq::<u8>::empty(), segment_header, Seq::<u8>::empty());
    }
    out
}

/// A header's bytes have length 40, and the header read from them, whatever
/// follows, is that header.
pub proof fn lemma_header_read_back(h: PacketHeader, tail: Seq<u8>)
    ensures
        spec_header_bytes(h).len() == 40,
        spec_header_at(spec_header_bytes(h) + tail) == h,
{
    let c = spec_header_bytes(h) + tail;
    {
        let w = u64_le_bytes(h.unknown_0);
        crate::bytes::lemma_u64_le_round_trip(h.unknown_0);
        assert(c[0] == w[0] && c[1] == w[1] && c[2] == w[2] && c[3] == w[3] && c[4] == w[4] && c[5] == w[5] && c[6] == w[6] && c[7] == w[7]);
        assert(spec_u64_le(c, 0) == h.unknown_0);
    }
    {
        let w = u64_le_bytes(h.unknown_8);
        crate::bytes::lemma_u64_le_round_trip(h.unknown_8);
        assert(c[8] == w[0] && c[9] == w[1] && c[10] == w[2] && c[11] == w[3] && c[12] == w[4] && c[13] == w[5] && c[14] == w[6] && c[15] == w[7]);
        assert(spec_u64_le(c, 8) == h.unknown_8);
    }
    {
        let w = u64_le_bytes(h.timestamp);
        crate::bytes::lemma_u64_le_round_trip(h.timestamp);
        assert(c[16] == w[0] && c[17] == w[1] && c[18] == w[2] && c[19] == w[3] && c[20] == w[4] && c[21] == w[5] && c[22] == w[6] && c[23] == w[7]);
        assert(spec_u64_le(c, 16) == h.timestamp);
    }
    {
        let w = u32_le_bytes(h.size);
        crate::bytes::lemma_u32_le_round_trip(h.size);
        assert(c[24] == w[0] && c[25] == w[1] && c[26] == w[2] && c[27] == w[3]);
        assert(spec_u32_le(c, 24) == h.size);
    }
    {
        let w = u16_le_bytes(h.connection_type);
        crate::bytes::lemma_u16_le_round_trip(h.connection_type);
        assert(c[28] == w[0] && c[29] == w[1]);
        assert(spec_u16_le(c, 28) == h.connection_type);
    }
    {
        let w = u16_le_bytes(h.count);
        crate::bytes::lemma_u16_le_round_trip(h.count);
        assert(c[30] == w[0] && c[31] == w[1]);
        assert(spec_u16_le(c, 30) == h.count);
    }
    assert(c[32] == h.unknown_20);
    assert(c[33] == h.is_compressed);
    {
        let w = u16_le_bytes(h.unknown_24);
        crate::bytes::lemma_u16_le_round_trip(h.unknown_24);
        assert(c[34] == w[0] && c[35] == w[1]);
        assert(spec_u16_le(c, 34) == h.unknown_24);
    }
    {
        let w = u32_le_bytes(h.uncompressed_size);
        crate::bytes::lemma_u32_le_round_trip(h.uncompressed_size);
        assert(c[36] == w[0] && c[37] == w[1] && c[38] == w[2] && c[39] == w[3]);
        assert(spec_u32_le(c, 36) == h.uncompressed_size);
    }
}

/// A segment header's bytes have length 16, and the header read from them in
/// the middle of a buffer is that header.
pub proof fn lemma_segment_header_read_back(
    front: Seq<u8>,
    h: PacketSegmentHeader,
    tail: Seq<u8>,
)
    ensures
        spec_segment_header_bytes(h).len() == 16,
        spec_segment_header_at(front + spec_segment_header_bytes(h) + tail, front.len() as int)
            == h,
{
    let d = spec_segment_header_bytes(h) + tail;
    {
        let w = u32_le_bytes(h.size);
        crate::bytes::lemma_u32_le_round_trip(h.size);
        assert(d[0] == w[0] && d[1] == w[1] && d[2] == w[2] && d[3] == w[3]);
        assert(spec_u32_le(d, 0) == h.size);
    }
    {
        let w = u32_le_bytes(h.source_actor);
        crate::bytes::lemma_u32_le_round_trip(h.source_actor);
        assert(d[4] == w[0] && d[5] == w[1] && d[6] == w[2] && d[7] == w[3]);
        assert(spec_u32_le(d, 4) == h.source_actor);
    }
    {
        let w = u32_le_bytes(h.target_actor);
        crate::bytes::lemma_u32_le_round_trip(h.target_actor);
        assert(d[8] == w[0] && d[9] == w[1] && d[10] == w[2] && d[11] == w[3]);
        assert(spec_u32_le(d, 8) == h.target_actor);
    }
    {
        let w = u16_le_bytes(h.segment_type);
        crate::bytes::lemma_u16_le_round_trip(h.segment_type);
        assert(d[12] == w[0] && d[13] == w[1]);
        assert(spec_u16_le(d, 12) == h.segment_type);
    }
    {
        let w = u16_le_bytes(h.padding);
        crate::bytes::lemma_u16_le_round_trip(h.padding);
        assert(d[14] == w[0] && d[15] == w[1]);
        assert(spec_u16_le(d, 14) == h.padding);
    }
    let c = front + spec_segment_header_bytes(h) + tail;
    let n = front.len() as int;
    assert(forall|j: int| 0 <= j < 16 ==> c[n + j] == d[j]);
    assert(c[n] == d[0] && c[n + 1] == d[1] && c[n + 2] == d[2] && c[n + 3] == d[3]);
    assert(c[n + 4] == d[4] && c[n + 5] == d[5] && c[n + 6] == d[6] && c[n + 7] == d[7]);
    assert(c[n + 8] == d[8] && c[n + 9] == d[9] && c[n + 10] == d[10] && c[n + 11] == d[11]);
    assert(c[n + 12] == d[12] && c[n + 13] == d[13] && c[n + 14] == d[14] && c[n + 15] == d[15]);
}

/// Parsing an encoded packet gives back what was encoded: the header with
/// count 1 and the computed size, and the one segment with its computed size
/// and its payload, byte for byte.
pub proof fn lemma_parse_encode(h: PacketHeader, seg: Segment)
    requires
        seg.data.len() + 56 <= MAX_PACKET_LEN,
    ensures
        spec_parse(spec_encode(h, seg)) == Ok::<(PacketHeader, Seq<Segment>), FrameError>(
            (spec_sized_header(h, seg.data.len() as int), seq![spec_sized_segment(seg)]),
        ),
{
    let sh = spec_sized_header(h, seg.data.len() as int);
    let ss = spec_sized_segment(seg);
    let hb = spec_header_bytes(sh);
    let sb = spec_segment_header_bytes(ss.header);
    let c = spec_encode(h, seg);
    lemma_header_read_back(sh, sb + seg.data);
    lemma_segment_header_read_back(hb, ss.header, seg.data);
    assert(c =~= hb + (sb + seg.data));
    assert(c.len() == 56 + seg.data.len());
    assert(spec_header_at(c) == sh);
    assert(spec_segment_header_at(c, 40) == ss.header);
    let end = sh.size as int;
    assert(end == c.len());
    assert(c.subrange(56, end) =~= seg.data);
    assert(spec_parse_segments(c, end, end, 0) == Ok::<Seq<Segment>, FrameError>(
        Seq::<Segment>::empty(),
    ));
    assert(seq![ss] + Seq::<Segment>::empty() =~= seq![ss]);
    assert(spec_parse_segments(c, 40, end, 1) == Ok::<Seq<Segment>, FrameError>(seq![ss]));
}

/// Bytes received and not yet parsed.
pub struct FrameBuffer {
    pub pending: Vec<u8>,
}

impl View for FrameBuffer {
    type V = Seq<u8>;

    open spec fn view(&self) -> Seq<u8> {
        self.pending@
    }
}

/// Whether the packet at the start of `buf` is still arriving: the header is
/// not there yet, or it announces an acceptable size that `buf` has not
/// reached.
pub open spec fn spec_incomplete(buf: Seq<u8>) -> bool {
    buf.len() < 40 || (40 <= spec_header_at(buf).size <= MAX_PACKET_LEN && buf.len()
        < spec_header_at(buf).size)
}

/// What the bytes received so far yield: nothing while the first packet is
/// incomplete, else that packet or the reason why it is none.
pub open spec fn spec_next(buf: Seq<u8>) -> Result<
    Option<(PacketHeader, Seq<Segment>)>,
    FrameError,
> {
    if spec_incomplete(buf) {
        Ok(None)
    } else {
        match spec_parse(buf) {
            Ok(p) => Ok(Some(p)),
            Err(e) => Err(e),
        }
    }
}

impl FrameBuffer {
    /// A buffer that holds nothing.
    pub fn new() -> (b: FrameBuffer)
        ensures
            b@ == Seq::<u8>::empty(),
    {
        FrameBuffer { pending: Vec::new() }
    }

    /// Adds the bytes of one read at the end.
    pub fn push(&mut self, bytes: &[u8])
        ensures
            final(self)@ == old(self)@ + bytes@,
    {
        push_bytes(&mut self.pending, bytes);
    }

    /// Takes the first packet out of the buffer once all of it has arrived.
    /// While it is incomplete, and when it is rejected, the buffer stays as
    /// it is.
    pub fn next_packet(&mut self) -> (r: Result<
        Option<(PacketHeader, Vec<PacketRaw>)>,
        FrameError,
    >)
        ensures
            match spec_next(old(self)@) {
                Ok(Some(p)) => r is Ok && r->Ok_0 is Some && r->Ok_0->Some_0.0 == p.0
                    && spec_segments(r->Ok_0->Some_0.1@) == p.1 && final(self)@ == old(self)@.skip(
                    p.0.size as int,
                ) && 40 <= p.0.size <= old(self)@.len(),
                Ok(None) => r is Ok && r->Ok_0 is None && final(self)@ == old(self)@,
                Err(e) => r == Err::<Option<(PacketHeader, Vec<PacketRaw>)>, FrameError>(e)
                    && final(self)@ == old(self)@,
            },
    {
        let n: usize = self.pending.len();
        if n < PACKET_HEADER_LEN {
            return Ok(None);
        }
        let header = read_header(self.pending.as_slice());
        if header.size >= 40 && header.size as usize <= MAX_PACKET_LEN && n < header.size as usize {
            return Ok(None);
        }
        match parse(self.pending.as_slice()) {
            Ok((h, segments)) => {
                let rest = copy_range(self.pending.as_slice(), h.size as usize, n);
                assert(rest@ =~= self.pending@.skip(h.size as int));
                self.pending = rest;
                Ok(Some((h, segments)))
            },
            Err(e) => Err(e),
        }
    }
}

/// A packet delivered in two reads, split at any byte, yields nothing after
/// the first read; after the second the buffer holds the whole packet, so it
/// yields what one read of the packet yields, and taking the packet out
/// leaves the buffer empty.
pub proof fn lemma_split_delivery(packet: Seq<u8>, k: int)
    requires
        40 <= packet.len() <= MAX_PACKET_LEN,
        spec_header_at(packet).size == packet.len(),
        0 <= k < packet.len(),
    ensures
        spec_next(packet.subrange(0, k)) == Ok::<
            Option<(PacketHeader, Seq<Segment>)>,
            FrameError,
        >(None),
        packet.subrange(0, k) + packet.subrange(k, packet.len() as int) == packet,
        spec_next(packet.subrange(0, k) + packet.subrange(k, packet.len() as int)) == spec_next(
            packet,
        ),
        !spec_incomplete(packet),
        packet.skip(spec_header_at(packet).size as int) == Seq::<u8>::empty(),
{
    let first = packet.subrange(0, k);
    if k >= 40 {
        assert(first[24] == packet[24] && first[25] == packet[25] && first[26] == packet[26]
            && first[27] == packet[27]);
        assert(spec_header_at(first).size == spec_header_at(packet).size);
    }
    assert(first + packet.subrange(k, packet.len() as int) =~= packet);
    assert(packet.skip(spec_header_at(packet).size as int) =~= Seq::<u8>::empty());
}

} // verus!
