//! The per-connection session: it owns the key once the handshake has run,
//! answers each inbound segment by its type and builds the outbound packets.

use vstd::prelude::*;
use crate::brokefish::{
    lemma_decrypt_encrypt, lemma_encrypt_len, spec_decrypt, spec_encrypt, spec_new, Brokefish,
    CipherState,
};
use crate::bytes::{
    copy_range, push_bytes, push_u32_le, push_zeros, read_u16_le, spec_u16_le, u32_le_bytes,
    u64_le_bytes,
};
use crate::ipc::{IPCHeader, IPCServiceAccount, IPCServiceIDInfo};
use crate::keys::{current_layout, key_from_payload, spec_current_layout, spec_key_from_payload};
use crate::packets::{
    encode, lemma_split_delivery, parse, spec_encode, spec_header_at, spec_next, spec_parse,
    spec_segments, FrameBuffer, FrameError, PacketHeader, PacketRaw, PacketSegmentHeader, Segment,
    SegmentType, MAX_PACKET_LEN,
};

verus! {

/// Length of the region at the end of an `Ipc` payload that the cipher never
/// touches, on the way in and on the way out.
pub const RESERVED_TAIL_LEN: usize = 8;

/// Length of a session key.
pub const KEY_LEN: usize = 16;

/// Length of the payload that acknowledges an encryption handshake.
pub const ENCRYPTION_ACK_LEN: usize = 0x290;

/// The number that opens the acknowledgment of an encryption handshake.
pub const ENCRYPTION_ACK_MAGIC: u32 = 0xe0003c2a;

/// Inner message type of a client's version info.
pub const CLIENT_VERSION_INFO: u16 = 0x0005;

/// Inner message type of the service account list.
pub const SERVICE_ID_INFO: u16 = 12;

/// Actor id that outbound `Ipc` segments carry as source and target.
pub const LOBBY_ACTOR: u32 = 0xe001c898;

/// The name of the one service account: "FINAL FANTASY XIV" in ASCII.
pub const PRODUCT_NAME: [u8; 17] = [
    0x46, 0x49, 0x4e, 0x41, 0x4c, 0x20, 0x46, 0x41, 0x4e, 0x54, 0x41, 0x53, 0x59, 0x20, 0x58, 0x49,
    0x56,
];

/// Why a session must be closed.
#[derive(Clone, Copy, Debug, PartialEq, Eq, Structural)]
pub enum SessionError {
    /// A packet or a segment is truncated or malformed.
    Framing(FrameError),
    /// The session's key is not 16 bytes long.
    Crypto,
}

/// What one inbound segment leads to.
#[derive(Clone, Debug, PartialEq, Eq)]
pub enum Outcome {
    /// Nothing is sent.
    Silent,
    /// The bytes of one packet to send.
    Reply(Vec<u8>),
    /// The segment's type code is not known; the session goes on.
    UnknownSegmentType(u16),
    /// The inner message's type has no handler; the session goes on.
    UnknownMessageType(u16),
}

/// An outcome as mathematics.
pub enum OutcomeView {
    Silent,
    Reply(Seq<u8>),
    UnknownSegmentType(u16),
    UnknownMessageType(u16),
}

impl View for Outcome {
    type V = OutcomeView;

    open spec fn view(&self) -> OutcomeView {
        match self {
            Outcome::Silent => OutcomeView::Silent,
            Outcome::Reply(bytes) => OutcomeView::Reply(bytes@),
            Outcome::UnknownSegmentType(code) => OutcomeView::UnknownSegmentType(*code),
            Outcome::UnknownMessageType(code) => OutcomeView::UnknownMessageType(*code),
        }
    }
}

/// `n` zero bytes.
pub open spec fn spec_zeros(n: nat) -> Seq<u8> {
    Seq::new(n, |k: int| 0u8)
}

/// An `Ipc` payload on its way out: all but the reserved last eight bytes
/// encrypted, those eight carried through. A payload shorter than that is
/// left as it is.
pub open spec fn spec_protect(st: CipherState, data: Seq<u8>) -> Seq<u8> {
    if data.len() < 8 {
        data
    } else {
        spec_encrypt(st, data.subrange(0, data.len() - 8)) + data.subrange(
            data.len() - 8,
            data.len() as int,
        )
    }
}

/// An `Ipc` payload on its way in: all but the reserved last eight bytes
/// decrypted, those eight carried through. A payload shorter than that is
/// left as it is.
pub open spec fn spec_unprotect(st: CipherState, data: Seq<u8>) -> Seq<u8> {
    if data.len() < 8 {
        data
    } else {
        spec_decrypt(st, data.subrange(0, data.len() - 8)) + data.subrange(
            data.len() - 8,
            data.len() as int,
        )
    }
}

/// What is protected on the way out is recovered on the way in: both
/// directions leave out the same reserved region.
pub proof fn lemma_unprotect_protect(st: CipherState, data: Seq<u8>)
    ensures
        spec_unprotect(st, spec_protect(st, data)) == data,
{
    if data.len() >= 8 {
        let n = data.len() as int;
        let head = data.subrange(0, n - 8);
        let tail = data.subrange(n - 8, n);
        let sent = spec_protect(st, data);
        lemma_encrypt_len(st, head);
        lemma_decrypt_encrypt(st, head);
        assert(sent.subrange(0, n - 8) =~= spec_encrypt(st, head));
        assert(sent.subrange(n - 8, n) =~= tail);
        assert(head + tail =~= data);
    }
}

/// Encrypts an outbound `Ipc` payload, the reserved tail left out.
pub fn encrypt_payload(bf: &Brokefish, data: &[u8]) -> (out: Vec<u8>)
    ensures
        out@ == spec_protect(bf@, data@),
        out@.len() == data@.len(),
{
    let n: usize = data.len();
    if n < RESERVED_TAIL_LEN {
        let out = copy_range(data, 0, n);
        assert(out@ =~= data@);
        return out;
    }
    let head = copy_range(data, 0, n - RESERVED_TAIL_LEN);
    let mut out = bf.encrypt(head.as_slice());
    let tail = copy_range(data, n - RESERVED_TAIL_LEN, n);
    push_bytes(&mut out, tail.as_slice());
    out
}

/// Decrypts an inbound `Ipc` payload, the reserved tail left out.
pub fn decrypt_payload(bf: &Brokefish, data: &[u8]) -> (out: Vec<u8>)
    ensures
        out@ == spec_unprotect(bf@, data@),
        out@.len() == data@.len(),
{
    let n: usize = data.len();
    if n < RESERVED_TAIL_LEN {
        let out = copy_range(data, 0, n);
        assert(out@ =~= data@);
        return out;
    }
    let head = copy_range(data, 0, n - RESERVED_TAIL_LEN);
    let mut out = bf.decrypt(head.as_slice());
    let tail = copy_range(data, n - RESERVED_TAIL_LEN, n);
    push_bytes(&mut out, tail.as_slice());
    out
}

/// The header of every outbound packet before its size is filled in: one
/// segment, no compression, stamped with `now_ms`.
pub open spec fn spec_outbound_header(now_ms: u64) -> PacketHeader {
    PacketHeader {
        unknown_0: 0,
        unknown_8: 0,
        timestamp: now_ms,
        size: 0,
        connection_type: 0,
        count: 1,
        unknown_20: 1,
        is_compressed: 0,
        unknown_24: 0,
        uncompressed_size: 0,
    }
}

/// The packet that carries one segment out. The payload of an `Ipc` segment
/// is protected when the session has a key; a key that is not 16 bytes long
/// is an error.
pub open spec fn spec_send_packet(
    key: Option<Seq<u8>>,
    segment_header: PacketSegmentHeader,
    data: Seq<u8>,
    now_ms: u64,
) -> Result<Seq<u8>, SessionError> {
    if segment_header.segment_type == 3 && key is Some {
        if key->Some_0.len() != 16 {
            Err(SessionError::Crypto)
        } else {
            Ok(
                spec_encode(
                    spec_outbound_header(now_ms),
                    Segment {
                        header: segment_header,
                        data: spec_protect(spec_new(key->Some_0), data),
                    },
                ),
            )
        }
    } else {
        Ok(spec_encode(spec_outbound_header(now_ms), Segment { header: segment_header, data }))
    }
}

/// The header of a segment of type `segment_type` between `source_actor`
/// and `target_actor`, for a payload of `size` bytes.
pub open spec fn spec_segment_header(
    segment_type: u16,
    size: int,
    source_actor: u32,
    target_actor: u32,
) -> PacketSegmentHeader {
    PacketSegmentHeader {
        size: (size + 16) as u32,
        source_actor,
        target_actor,
        segment_type,
        padding: 0,
    }
}

/// The packet that carries the inner message `data` of type `ipc_type` out:
/// the envelope stamped with `now_secs`, then `data`, in an `Ipc` segment.
pub open spec fn spec_send_ipc_packet(
    key: Option<Seq<u8>>,
    ipc_type: u16,
    data: Seq<u8>,
    now_ms: u64,
    now_secs: u32,
) -> Result<Seq<u8>, SessionError> {
    spec_send_packet(
        key,
        spec_segment_header(3, 16 + data.len() as int, LOBBY_ACTOR, LOBBY_ACTOR),
        (IPCHeader {
            reserved: 0,
            ipc_type,
            padding: 0,
            server_id: 0,
            timestamp: now_secs,
            padding1: 0,
        }).spec_bytes() + data,
        now_ms,
    )
}

/// The name field of the one service account: the product name, then zeros.
pub open spec fn spec_product_name() -> Seq<u8> {
    Seq::new(68, |k: int| if k < 17 { PRODUCT_NAME@[k] } else { 0u8 })
}

/// The payload of the acknowledgment of an encryption handshake: the magic
/// number little-endian, then zeros up to 0x290 bytes.
pub open spec fn spec_encryption_ack() -> Seq<u8> {
    u32_le_bytes(ENCRYPTION_ACK_MAGIC) + spec_zeros(0x28c)
}

/// Whether an exec result is the given result, bytes compared by view.
pub open spec fn spec_bytes_are(r: Result<Vec<u8>, SessionError>, s: Result<Seq<u8>, SessionError>)
    -> bool {
    match s {
        Ok(bytes) => r is Ok && r->Ok_0@ == bytes,
        Err(e) => r == Err::<Vec<u8>, SessionError>(e),
    }
}

/// The payload of the service account list: sequence number 1, one account
/// in use, the fixed marker bytes, the one account with id, unknown and index
/// zero and the product name, then seven empty slots.
pub open spec fn spec_service_account_payload() -> Seq<u8> {
    u64_le_bytes(1) + seq![0u8, 1u8, 3u8, 0x99u8, 0u8] + spec_zeros(12) + spec_product_name()
        + spec_zeros(560)
}

/// What handling one segment leads to, and the key afterwards.
pub open spec fn spec_handle_packet(
    key: Option<Seq<u8>>,
    seg: Segment,
    now_ms: u64,
    now_secs: u32,
) -> (Option<Seq<u8>>, Result<OutcomeView, SessionError>) {
    match SegmentType::spec_try_from_primitive(seg.header.segment_type) {
        None => (key, Ok(OutcomeView::UnknownSegmentType(seg.header.segment_type))),
        Some(SegmentType::SessionInit) => (key, Ok(OutcomeView::Silent)),
        Some(SegmentType::KeepAlive) => {
            if seg.data.len() < 8 {
                (key, Err(SessionError::Framing(FrameError::Truncated)))
            } else {
                (
                    key,
                    spec_reply(
                        spec_send_packet(
                            key,
                            spec_segment_header(0x08, 8, 0, 0),
                            seg.data.subrange(0, 8),
                            now_ms,
                        ),
                    ),
                )
            }
        },
        Some(SegmentType::EncryptionInit) => {
            if seg.data.len() < 104 {
                (key, Err(SessionError::Framing(FrameError::Truncated)))
            } else {
                let new_key = Some(
                    spec_key_from_payload(seg.data, spec_current_layout()),
                );
                (
                    new_key,
                    spec_reply(
                        spec_send_packet(
                            new_key,
                            spec_segment_header(0x0a, 0x290, 0, 0),
                            spec_encryption_ack(),
                            now_ms,
                        ),
                    ),
                )
            }
        },
        Some(SegmentType::Ipc) => {
            if key is Some && key->Some_0.len() != 16 {
                (key, Err(SessionError::Crypto))
            } else if seg.data.len() < 4 {
                (key, Err(SessionError::Framing(FrameError::Truncated)))
            } else {
                let plain = if key is Some {
                    spec_unprotect(spec_new(key->Some_0), seg.data)
                } else {
                    seg.data
                };
                let ipc_type = spec_u16_le(plain, 2);
                if ipc_type == CLIENT_VERSION_INFO {
                    (
                        key,
                        spec_reply(
                            spec_send_ipc_packet(
                                key,
                                SERVICE_ID_INFO,
                                spec_service_account_payload(),
                                now_ms,
                                now_secs,
                            ),
                        ),
                    )
                } else {
                    (key, Ok(OutcomeView::UnknownMessageType(ipc_type)))
                }
            }
        },
    }
}

/// The outcome that sends the packet `r`, or the error that `r` is.
pub open spec fn spec_reply(r: Result<Seq<u8>, SessionError>) -> Result<
    OutcomeView,
    SessionError,
> {
    match r {
        Ok(bytes) => Ok(OutcomeView::Reply(bytes)),
        Err(e) => Err(e),
    }
}

/// Whether an exec result is the given result, outcomes compared by view.
pub open spec fn spec_outcome_is(
    r: Result<Outcome, SessionError>,
    s: Result<OutcomeView, SessionError>,
) -> bool {
    match s {
        Ok(o) => r is Ok && r->Ok_0@ == o,
        Err(e) => r == Err::<Outcome, SessionError>(e),
    }
}

/// The course of a session over a run of segments: the key afterwards, the
/// outcomes in order, and the error that ended the run, if one did.
pub struct SessionRun {
    pub key: Option<Seq<u8>>,
    pub outcomes: Seq<OutcomeView>,
    pub error: Option<SessionError>,
}

/// `run` with `acc` in front of its outcomes.
pub open spec fn spec_run_after(acc: Seq<OutcomeView>, run: SessionRun) -> SessionRun {
    SessionRun { key: run.key, outcomes: acc + run.outcomes, error: run.error }
}

/// Handling the segments of `segs` from index `i` on, in order, each under
/// the key that the ones before it left. The first error ends the run.
pub open spec fn spec_handle_from(
    key: Option<Seq<u8>>,
    segs: Seq<Segment>,
    i: int,
    now_ms: u64,
    now_secs: u32,
) -> SessionRun
    decreases segs.len() - i,
{
    if i < 0 || i >= segs.len() {
        SessionRun { key, outcomes: Seq::<OutcomeView>::empty(), error: None }
    } else {
        let step = spec_handle_packet(key, segs[i], now_ms, now_secs);
        match step.1 {
            Err(e) => SessionRun {
                key: step.0,
                outcomes: Seq::<OutcomeView>::empty(),
                error: Some(e),
            },
            Ok(o) => spec_run_after(
                seq![o],
                spec_handle_from(step.0, segs, i + 1, now_ms, now_secs),
            ),
        }
    }
}

/// Handling the one packet at the start of `buf`: a buffer that does not
/// parse is a framing error; else its segments are handled in order.
pub open spec fn spec_handle_packets(
    key: Option<Seq<u8>>,
    buf: Seq<u8>,
    now_ms: u64,
    now_secs: u32,
) -> SessionRun {
    match spec_parse(buf) {
        Err(e) => SessionRun {
            key,
            outcomes: Seq::<OutcomeView>::empty(),
            error: Some(SessionError::Framing(e)),
        },
        Ok(p) => spec_handle_from(key, p.1, 0, now_ms, now_secs),
    }
}

/// What the bytes received so far lead to, and the bytes that stay
/// buffered: every complete packet at the front is taken out and its
/// segments handled, until the front is incomplete or an error ends the run.
#[verifier::opaque]
pub open spec fn spec_handle(key: Option<Seq<u8>>, buf: Seq<u8>, now_ms: u64, now_secs: u32) -> (
    SessionRun,
    Seq<u8>,
)
    decreases buf.len(),
{
    match spec_next(buf) {
        Ok(None) => (SessionRun { key, outcomes: Seq::<OutcomeView>::empty(), error: None }, buf),
        Err(e) => (
            SessionRun {
                key,
                outcomes: Seq::<OutcomeView>::empty(),
                error: Some(SessionError::Framing(e)),
            },
            buf,
        ),
        Ok(Some(p)) => {
            let run = spec_handle_from(key, p.1, 0, now_ms, now_secs);
            let rest = buf.skip(p.0.size as int);
            if run.error is Some || p.0.size < 40 || p.0.size > buf.len() {
                (run, rest)
            } else {
                let more = spec_handle(run.key, rest, now_ms, now_secs);
                (spec_run_after(run.outcomes, more.0), more.1)
            }
        },
    }
}

/// Outcomes put in front of a run in two steps are put in front at once.
proof fn lemma_run_after_twice(a: Seq<OutcomeView>, b: Seq<OutcomeView>, run: SessionRun)
    ensures
        spec_run_after(a, spec_run_after(b, run)) == spec_run_after(a + b, run),
{
    assert(a + (b + run.outcomes) =~= (a + b) + run.outcomes);
}

/// Nothing put in front of a run leaves the run as it is.
proof fn lemma_run_after_nothing(run: SessionRun)
    ensures
        spec_run_after(Seq::<OutcomeView>::empty(), run) == run,
        spec_run_after(
            run.outcomes,
            SessionRun { key: run.key, outcomes: Seq::<OutcomeView>::empty(), error: run.error },
        ) == run,
{
    assert(Seq::<OutcomeView>::empty() + run.outcomes =~= run.outcomes);
    assert(run.outcomes + Seq::<OutcomeView>::empty() =~= run.outcomes);
}

/// While the front of the buffer is incomplete, nothing happens.
proof fn lemma_handle_waits(key: Option<Seq<u8>>, buf: Seq<u8>, now_ms: u64, now_secs: u32)
    requires
        spec_next(buf) == Ok::<Option<(PacketHeader, Seq<Segment>)>, FrameError>(None),
    ensures
        spec_handle(key, buf, now_ms, now_secs) == (
            SessionRun { key, outcomes: Seq::<OutcomeView>::empty(), error: None },
            buf,
        ),
{
    reveal(spec_handle);
}

/// A packet that the codec rejects ends the run with a framing error.
proof fn lemma_handle_rejects(
    key: Option<Seq<u8>>,
    buf: Seq<u8>,
    e: FrameError,
    now_ms: u64,
    now_secs: u32,
)
    requires
        spec_next(buf) == Err::<Option<(PacketHeader, Seq<Segment>)>, FrameError>(e),
    ensures
        spec_handle(key, buf, now_ms, now_secs) == (
            SessionRun {
                key,
                outcomes: Seq::<OutcomeView>::empty(),
                error: Some(SessionError::Framing(e)),
            },
            buf,
        ),
{
    reveal(spec_handle);
}

/// A complete packet at the front is handled, and unless an error ends the
/// run there, handling goes on with the bytes behind it.
proof fn lemma_handle_takes(
    key: Option<Seq<u8>>,
    buf: Seq<u8>,
    p: (PacketHeader, Seq<Segment>),
    now_ms: u64,
    now_secs: u32,
)
    requires
        spec_next(buf) == Ok::<Option<(PacketHeader, Seq<Segment>)>, FrameError>(Some(p)),
        40 <= p.0.size <= buf.len(),
    ensures
        ({
            let run = spec_handle_from(key, p.1, 0, now_ms, now_secs);
            let rest = buf.skip(p.0.size as int);
            let more = spec_handle(run.key, rest, now_ms, now_secs);
            spec_handle(key, buf, now_ms, now_secs) == if run.error is Some {
                (run, rest)
            } else {
                (spec_run_after(run.outcomes, more.0), more.1)
            }
        }),
{
    reveal(spec_handle);
}

/// A packet that arrives in two reads, split at any byte, is handled as if
/// it had arrived in one: the first read leads to nothing and leaves its
/// bytes buffered, and the second read then handles the whole packet.
pub proof fn lemma_split_read(
    key: Option<Seq<u8>>,
    packet: Seq<u8>,
    k: int,
    now_ms: u64,
    now_secs: u32,
)
    requires
        40 <= packet.len() <= MAX_PACKET_LEN,
        spec_header_at(packet).size == packet.len(),
        0 <= k < packet.len(),
    ensures
        ({
            let first = packet.subrange(0, k);
            let second = packet.subrange(k, packet.len() as int);
            let after_first = spec_handle(key, Seq::<u8>::empty() + first, now_ms, now_secs);
            &&& after_first == (
                SessionRun { key, outcomes: Seq::<OutcomeView>::empty(), error: None },
                first,
            )
            &&& spec_handle(after_first.0.key, after_first.1 + second, now_ms, now_secs)
                == spec_handle(key, Seq::<u8>::empty() + packet, now_ms, now_secs)
        }),
{
    let first = packet.subrange(0, k);
    lemma_split_delivery(packet, k);
    lemma_handle_waits(key, first, now_ms, now_secs);
    assert(Seq::<u8>::empty() + first =~= first);
    assert(Seq::<u8>::empty() + packet =~= packet);
}

/// A segment of unknown type changes nothing and ends nothing: the key stays
/// and the outcome is a report, not an error.
pub proof fn lemma_unknown_segment_harmless(
    key: Option<Seq<u8>>,
    seg: Segment,
    now_ms: u64,
    now_secs: u32,
)
    requires
        SegmentType::spec_try_from_primitive(seg.header.segment_type) is None,
    ensures
        spec_handle_packet(key, seg, now_ms, now_secs) == (
            key,
            Ok::<OutcomeView, SessionError>(
                OutcomeView::UnknownSegmentType(seg.header.segment_type),
            ),
        ),
{
}

/// A keep-alive that follows a segment of unknown type is echoed as if the
/// unknown segment had not been there: the reply carries the first eight
/// bytes of its payload in a segment of type 8.
pub proof fn lemma_keep_alive_after_unknown(
    key: Option<Seq<u8>>,
    unknown: Segment,
    keep_alive: Segment,
    now_ms: u64,
    now_secs: u32,
)
    requires
        SegmentType::spec_try_from_primitive(unknown.header.segment_type) is None,
        keep_alive.header.segment_type == 7,
        keep_alive.data.len() >= 8,
    ensures
        spec_handle_from(key, seq![unknown, keep_alive], 0, now_ms, now_secs) == (SessionRun {
            key,
            outcomes: seq![
                OutcomeView::UnknownSegmentType(unknown.header.segment_type),
                OutcomeView::Reply(
                    spec_encode(
                        spec_outbound_header(now_ms),
                        Segment {
                            header: spec_segment_header(8, 8, 0, 0),
                            data: keep_alive.data.subrange(0, 8),
                        },
                    ),
                ),
            ],
            error: None,
        }),
{
    let segs = seq![unknown, keep_alive];
    reveal_with_fuel(spec_handle_from, 4);
    let run = spec_handle_from(key, segs, 0, now_ms, now_secs);
    assert(segs[0] == unknown && segs[1] == keep_alive);
    assert(run.outcomes =~= seq![
        OutcomeView::UnknownSegmentType(unknown.header.segment_type),
        OutcomeView::Reply(
            spec_encode(
                spec_outbound_header(now_ms),
                Segment {
                    header: spec_segment_header(8, 8, 0, 0),
                    data: keep_alive.data.subrange(0, 8),
                },
            ),
        ),
    ]);
}

/// The views of a list of outcomes, in order.
pub open spec fn spec_outcomes(v: Seq<Outcome>) -> Seq<OutcomeView> {
    Seq::new(v.len(), |i: int| v[i]@)
}

/// What a run of segments led to: the outcomes in order, and the error that
/// ended the run, if one did.
pub struct Dispatch {
    pub outcomes: Vec<Outcome>,
    pub error: Option<SessionError>,
}

impl Dispatch {
    /// Whether this is what `run` says, the session's key being `key`.
    pub open spec fn matches_run(self, key: Option<Seq<u8>>, run: SessionRun) -> bool {
        key == run.key && spec_outcomes(self.outcomes@) == run.outcomes && self.error == run.error
    }
}

/// The bytes of an account with zero fields and a zero name are all zero.
proof fn lemma_empty_account_bytes(a: IPCServiceAccount)
    requires
        a.id == 0,
        a.unknown == 0,
        a.index == 0,
        a.name@ == Seq::new(68, |j: int| 0u8),
    ensures
        a.spec_bytes() == spec_zeros(80),
{
    lemma_zero_word();
    assert(a.spec_bytes() =~= spec_zeros(80));
}

/// The bytes of the number zero are four zeros.
proof fn lemma_zero_word()
    ensures
        u32_le_bytes(0) == seq![0u8, 0u8, 0u8, 0u8],
{
    assert(0u32 & 0xff == 0 && (0u32 >> 8) & 0xff == 0 && (0u32 >> 16) & 0xff == 0 && (0u32 >> 24)
        & 0xff == 0) by (bit_vector);
    assert(u32_le_bytes(0) =~= seq![0u8, 0u8, 0u8, 0u8]);
}

/// The name field of the one service account.
pub fn product_name() -> (name: [u8; 68])
    ensures
        name@ == spec_product_name(),
{
    let mut name: [u8; 68] = [0u8; 68];
    let mut i: usize = 0;
    while i < 17
        invariant
            i <= 17,
            forall|k: int| 0 <= k < i ==> name@[k] == PRODUCT_NAME@[k],
            forall|k: int| i <= k < 68 ==> name@[k] == 0u8,
        decreases 17 - i,
    {
        name[i] = PRODUCT_NAME[i];
        i += 1;
    }
    assert(name@ =~= spec_product_name());
    name
}

/// The payload of the service account list, built from a list with the one
/// account added.
pub fn service_account_payload() -> (out: Vec<u8>)
    ensures
        out@ == spec_service_account_payload(),
        out@.len() == 653,
{
    let mut service_id_info = IPCServiceIDInfo::default();
    let service_account = IPCServiceAccount { id: 0, unknown: 0, index: 0, name: product_name() };
    service_id_info.add_service_account(service_account);
    let mut out: Vec<u8> = Vec::new();
    service_id_info.write_to(&mut out);
    proof {
        let accounts = service_id_info.service_accounts@;
        reveal_with_fuel(crate::ipc::spec_accounts_bytes, 10);
        lemma_zero_word();
        assert(accounts[0].spec_bytes() =~= spec_zeros(12) + spec_product_name());
        lemma_empty_account_bytes(accounts[1]);
        lemma_empty_account_bytes(accounts[2]);
        lemma_empty_account_bytes(accounts[3]);
        lemma_empty_account_bytes(accounts[4]);
        lemma_empty_account_bytes(accounts[5]);
        lemma_empty_account_bytes(accounts[6]);
        lemma_empty_account_bytes(accounts[7]);
        assert(crate::ipc::spec_accounts_bytes(accounts, 8) =~= spec_zeros(12)
            + spec_product_name() + spec_zeros(560));
        assert(out@ =~= spec_service_account_payload());
    }
    out
}

/// The state of one connection: the key, once a handshake has set it.
pub struct Client {
    pub encryption_key: Option<Vec<u8>>,
}

impl View for Client {
    type V = Option<Seq<u8>>;

    open spec fn view(&self) -> Option<Seq<u8>> {
        match self.encryption_key {
            Some(key) => Some(key@),
            None => None,
        }
    }
}

impl Client {
    /// A session without a key.
    pub fn new() -> (c: Client)
        ensures
            c@ is None,
    {
        Client { encryption_key: None }
    }

    /// Makes `key` the session's key, replacing an earlier one. A key that
    /// is not 16 bytes long is refused and the session stays as it is.
    pub fn install_key(&mut self, key: &[u8]) -> (r: Result<(), SessionError>)
        ensures
            key@.len() == 16 ==> r is Ok && final(self)@ == Some(key@),
            key@.len() != 16 ==> r == Err::<(), SessionError>(SessionError::Crypto) && final(self)@
                == old(self)@,
    {
        if key.len() != KEY_LEN {
            return Err(SessionError::Crypto);
        }
        let copy = copy_range(key, 0, KEY_LEN);
        assert(copy@ =~= key@);
        self.encryption_key = Some(copy);
        Ok(())
    }

    /// Builds the packet that carries one segment with payload `data`.
    pub fn send_packet(&self, segment_header: PacketSegmentHeader, data: &[u8], now_ms: u64) -> (r:
        Result<Vec<u8>, SessionError>)
        requires
            data@.len() + 56 <= u32::MAX,
        ensures
            spec_bytes_are(r, spec_send_packet(self@, segment_header, data@, now_ms)),
    {
        let packet_header = PacketHeader {
            unknown_0: 0,
            unknown_8: 0,
            timestamp: now_ms,
            size: 0,
            connection_type: 0,
            count: 1,
            unknown_20: 1,
            is_compressed: 0,
            unknown_24: 0,
            uncompressed_size: 0,
        };
        let body: Vec<u8> = match &self.encryption_key {
            Some(key) => {
                if segment_header.segment_type == 3 {
                    if key.len() != KEY_LEN {
                        return Err(SessionError::Crypto);
                    }
                    let bf = Brokefish::new(key.as_slice());
                    encrypt_payload(&bf, data)
                } else {
                    let copy = copy_range(data, 0, data.len());
                    assert(copy@ =~= data@);
                    copy
                }
            },
            None => {
                let copy = copy_range(data, 0, data.len());
                assert(copy@ =~= data@);
                copy
            },
        };
        let segment = PacketRaw { segment_header, data: body };
        Ok(encode(&packet_header, &segment))
    }

    /// Builds the packet that carries the inner message `data` of type
    /// `ipc_type`, in an envelope stamped with `now_secs`.
    pub fn send_ipc_packet(&self, ipc_type: u16, data: &[u8], now_ms: u64, now_secs: u32) -> (r:
        Result<Vec<u8>, SessionError>)
        requires
            data@.len() + 72 <= u32::MAX,
        ensures
            spec_bytes_are(r, spec_send_ipc_packet(self@, ipc_type, data@, now_ms, now_secs)),
    {
        let ipc_header = IPCHeader::new(0, ipc_type, now_secs);
        let size: u32 = 16 + data.len() as u32;
        let segment_header = PacketSegmentHeader::new(3, size, LOBBY_ACTOR, LOBBY_ACTOR);
        let mut buf: Vec<u8> = Vec::new();
        ipc_header.write_to(&mut buf);
        push_bytes(&mut buf, data);
        assert(buf@ =~= ipc_header.spec_bytes() + data@);
        self.send_packet(segment_header, buf.as_slice(), now_ms)
    }

    /// Builds the packet that answers a client's version info: the list of
    /// service accounts, as inner message 12.
    pub fn send_service_account(&self, now_ms: u64, now_secs: u32) -> (r: Result<
        Vec<u8>,
        SessionError,
    >)
        ensures
            spec_bytes_are(
                r,
                spec_send_ipc_packet(
                    self@,
                    SERVICE_ID_INFO,
                    spec_service_account_payload(),
                    now_ms,
                    now_secs,
                ),
            ),
    {
        let payload = service_account_payload();
        self.send_ipc_packet(SERVICE_ID_INFO, payload.as_slice(), now_ms, now_secs)
    }

    /// Handles one inbound segment by its type. A session handshake does
    /// nothing; a keep-alive is echoed; an encryption handshake sets the key
    /// and is acknowledged; an inner message is decrypted when the session has
    /// a key and answered when it is a version info. An unknown segment or
    /// message type is reported and the session goes on.
    pub fn handle_packet(&mut self, packet: &PacketRaw, now_ms: u64, now_secs: u32) -> (r: Result<
        Outcome,
        SessionError,
    >)
        ensures
            final(self)@ == spec_handle_packet(old(self)@, packet@, now_ms, now_secs).0,
            spec_outcome_is(r, spec_handle_packet(old(self)@, packet@, now_ms, now_secs).1),
    {
        let code = packet.segment_header.segment_type;
        let segment_type = match SegmentType::try_from_primitive(code) {
            Some(t) => t,
            None => {
                return Ok(Outcome::UnknownSegmentType(code));
            },
        };
        let data = packet.data.as_slice();
        match segment_type {
            SegmentType::SessionInit => Ok(Outcome::Silent),
            SegmentType::KeepAlive => {
                if data.len() < 8 {
                    return Err(SessionError::Framing(FrameError::Truncated));
                }
                let echo = copy_range(data, 0, 8);
                let segment_header = PacketSegmentHeader::new(0x08, 0x08, 0, 0);
                match self.send_packet(segment_header, echo.as_slice(), now_ms) {
                    Ok(bytes) => Ok(Outcome::Reply(bytes)),
                    Err(e) => Err(e),
                }
            },
            SegmentType::EncryptionInit => {
                let layout = current_layout();
                let key = match key_from_payload(data, &layout) {
                    Some(key) => key,
                    None => {
                        return Err(SessionError::Framing(FrameError::Truncated));
                    },
                };
                match self.install_key(key.as_slice()) {
                    Ok(()) => {},
                    Err(e) => {
                        return Err(e);
                    },
                }
                let mut send_data: Vec<u8> = Vec::new();
                push_u32_le(&mut send_data, ENCRYPTION_ACK_MAGIC);
                push_zeros(&mut send_data, ENCRYPTION_ACK_LEN - 4);
                assert(send_data@ =~= spec_encryption_ack());
                let segment_header = PacketSegmentHeader::new(0x0a, 0x290, 0, 0);
                match self.send_packet(segment_header, send_data.as_slice(), now_ms) {
                    Ok(bytes) => Ok(Outcome::Reply(bytes)),
                    Err(e) => Err(e),
                }
            },
            SegmentType::Ipc => {
                let plain: Vec<u8> = match &self.encryption_key {
                    Some(key) => {
                        if key.len() != KEY_LEN {
                            return Err(SessionError::Crypto);
                        }
                        if data.len() < 4 {
                            return Err(SessionError::Framing(FrameError::Truncated));
                        }
                        let bf = Brokefish::new(key.as_slice());
                        decrypt_payload(&bf, data)
                    },
                    None => {
                        if data.len() < 4 {
                            return Err(SessionError::Framing(FrameError::Truncated));
                        }
                        let copy = copy_range(data, 0, data.len());
                        assert(copy@ =~= data@);
                        copy
                    },
                };
                let ipc_type = read_u16_le(plain.as_slice(), 2);
                if ipc_type == CLIENT_VERSION_INFO {
                    match self.send_service_account(now_ms, now_secs) {
                        Ok(bytes) => Ok(Outcome::Reply(bytes)),
                        Err(e) => Err(e),
                    }
                } else {
                    Ok(Outcome::UnknownMessageType(ipc_type))
                }
            },
        }
    }

    /// Handles the segments of one packet in order. The run ends at the
    /// first error; the outcomes before it are kept.
    pub fn handle_segments(&mut self, segments: &Vec<PacketRaw>, now_ms: u64, now_secs: u32) -> (d:
        Dispatch)
        ensures
            d.matches_run(
                final(self)@,
                spec_handle_from(old(self)@, spec_segments(segments@), 0, now_ms, now_secs),
            ),
    {
        let ghost segs = spec_segments(segments@);
        let ghost key0 = self@;
        let mut outcomes: Vec<Outcome> = Vec::new();
        let mut i: usize = 0;
        assert(spec_outcomes(outcomes@) + spec_handle_from(key0, segs, 0, now_ms, now_secs).outcomes
            =~= spec_handle_from(key0, segs, 0, now_ms, now_secs).outcomes);
        while i < segments.len()
            invariant
                i <= segments@.len(),
                segs == spec_segments(segments@),
                key0 == old(self)@,
                spec_handle_from(key0, segs, 0, now_ms, now_secs) == spec_run_after(
                    spec_outcomes(outcomes@),
                    spec_handle_from(self@, segs, i as int, now_ms, now_secs),
                ),
            decreases segments@.len() - i,
        {
            let ghost before = spec_outcomes(outcomes@);
            let ghost key_before = self@;
            match self.handle_packet(&segments[i], now_ms, now_secs) {
                Ok(outcome) => {
                    let ghost o = outcome@;
                    outcomes.push(outcome);
                    proof {
                        let rest = spec_handle_from(self@, segs, i + 1, now_ms, now_secs);
                        assert(spec_outcomes(outcomes@) =~= before + seq![o]);
                        assert(before + (seq![o] + rest.outcomes) =~= (before + seq![o])
                            + rest.outcomes);
                    }
                },
                Err(e) => {
                    proof {
                        let run = spec_handle_from(key_before, segs, i as int, now_ms, now_secs);
                        assert(segs[i as int] == segments@[i as int]@);
                        assert(run.error == Some(e));
                        assert(before + run.outcomes =~= before);
                        assert(key0 == old(self)@);
                    }
                    return Dispatch { outcomes, error: Some(e) };
                },
            }
            i += 1;
        }
        proof {
            assert(spec_outcomes(outcomes@) + Seq::<OutcomeView>::empty() =~= spec_outcomes(
                outcomes@,
            ));
        }
        Dispatch { outcomes, error: None }
    }

    /// Parses the packet at the start of `buf` and handles its segments in
    /// order.
    pub fn handle_packets(&mut self, buf: &[u8], now_ms: u64, now_secs: u32) -> (d: Dispatch)
        ensures
            d.matches_run(final(self)@, spec_handle_packets(old(self)@, buf@, now_ms, now_secs)),
    {
        match parse(buf) {
            Ok((_header, segments)) => self.handle_segments(&segments, now_ms, now_secs),
            Err(e) => {
                let outcomes: Vec<Outcome> = Vec::new();
                assert(spec_outcomes(outcomes@) =~= Seq::<OutcomeView>::empty());
                Dispatch { outcomes, error: Some(SessionError::Framing(e)) }
            },
        }
    }

    /// Takes in the bytes of one read: they join the bytes buffered so far,
    /// and every complete packet at the front is handled, in order. A packet
    /// that is still arriving stays buffered for the next read.
    pub fn handle(
        &mut self,
        buffer: &mut FrameBuffer,
        bytes: &[u8],
        now_ms: u64,
        now_secs: u32,
    ) -> (d: Dispatch)
        ensures
            d.matches_run(
                final(self)@,
                spec_handle(old(self)@, old(buffer)@ + bytes@, now_ms, now_secs).0,
            ),
            final(buffer)@ == spec_handle(old(self)@, old(buffer)@ + bytes@, now_ms, now_secs).1,
    {
        buffer.push(bytes);
        let ghost key0 = self@;
        let ghost buf0 = buffer@;
        let mut outcomes: Vec<Outcome> = Vec::new();
        proof {
            assert(spec_outcomes(outcomes@) =~= Seq::<OutcomeView>::empty());
            lemma_run_after_nothing(spec_handle(key0, buf0, now_ms, now_secs).0);
        }
        loop
            invariant
                key0 == old(self)@,
                buf0 == old(buffer)@ + bytes@,
                spec_handle(key0, buf0, now_ms, now_secs).0 == spec_run_after(
                    spec_outcomes(outcomes@),
                    spec_handle(self@, buffer@, now_ms, now_secs).0,
                ),
                spec_handle(key0, buf0, now_ms, now_secs).1 == spec_handle(
                    self@,
                    buffer@,
                    now_ms,
                    now_secs,
                ).1,
            decreases buffer@.len(),
        {
            let ghost before = spec_outcomes(outcomes@);
            let ghost key_before = self@;
            let ghost buf_before = buffer@;
            let ghost here = spec_handle(key_before, buf_before, now_ms, now_secs);
            match buffer.next_packet() {
                Ok(None) => {
                    proof {
                        lemma_handle_waits(key_before, buf_before, now_ms, now_secs);
                        lemma_run_after_nothing(
                            spec_run_after(before, here.0),
                        );
                        assert(before + Seq::<OutcomeView>::empty() =~= before);
                    }
                    return Dispatch { outcomes, error: None };
                },
                Err(e) => {
                    proof {
                        lemma_handle_rejects(key_before, buf_before, e, now_ms, now_secs);
                        assert(before + Seq::<OutcomeView>::empty() =~= before);
                    }
                    return Dispatch { outcomes, error: Some(SessionError::Framing(e)) };
                },
                Ok(Some((packet_header, segments))) => {
                    let mut d = self.handle_segments(&segments, now_ms, now_secs);
                    let ghost added = spec_outcomes(d.outcomes@);
                    let ghost run = spec_handle_from(
                        key_before,
                        spec_segments(segments@),
                        0,
                        now_ms,
                        now_secs,
                    );
                    outcomes.append(&mut d.outcomes);
                    proof {
                        lemma_handle_takes(
                            key_before,
                            buf_before,
                            (packet_header, spec_segments(segments@)),
                            now_ms,
                            now_secs,
                        );
                        assert(spec_outcomes(outcomes@) =~= before + added);
                        lemma_run_after_twice(
                            before,
                            added,
                            spec_handle(self@, buffer@, now_ms, now_secs).0,
                        );
                    }
                    match d.error {
                        Some(e) => {
                            return Dispatch { outcomes, error: Some(e) };
                        },
                        None => {},
                    }
                },
            }
        }
    }
}

} // verus!
