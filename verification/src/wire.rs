//! The telemetry wire format, as the `discovery-telemetry` crate defines it.
//!
//! A [`Frame`] is a time stamp and a message. On the wire it is one packet: a run of non-zero
//! bytes closed by a zero. The types here hold what the firmware and the host tool read and
//! write; the four measurement payloads are the wire crate's own and are carried through as they
//! are, because their fields are floating-point numbers.
use vstd::prelude::*;

use discovery_telemetry::codec::Decoder;
use discovery_telemetry::{
    Baro as WireBaro, Board as WireBoard, Frame as WireFrame, Fused as WireFused,
    Hello as WireHello, Imu as WireImu, Level as WireLevel, Mag as WireMag, Msg as WireMsg,
    Status as WireStatus,
};

verus! {

/// An IMU payload of the wire crate.
#[verifier::external_type_specification]
#[verifier::external_body]
pub struct ExImu(WireImu);

/// A barometer payload of the wire crate.
#[verifier::external_type_specification]
#[verifier::external_body]
pub struct ExBaro(WireBaro);

/// A magnetometer payload of the wire crate.
#[verifier::external_type_specification]
#[verifier::external_body]
pub struct ExMag(WireMag);

/// A fused-state payload of the wire crate.
#[verifier::external_type_specification]
#[verifier::external_body]
pub struct ExFused(WireFused);

/// A message of the wire crate.
#[verifier::external_type_specification]
#[verifier::external_body]
pub struct ExMsg(WireMsg);

/// The streaming decoder of the wire crate.
#[verifier::external_type_specification]
#[verifier::external_body]
pub struct ExDecoder(Decoder);

/// The longest packet, its closing zero included, and the room a decoder has for one.
pub const MAX_FRAME: usize = 64;

/// The board that sends.
#[derive(Clone, Copy, Debug, PartialEq, Eq, Structural)]
pub enum Board {
    ArkDiscovery,
    HolybroDiscovery,
    Unknown,
}

/// How grave a status line is.
#[derive(Clone, Copy, Debug, PartialEq, Eq, Structural)]
pub enum Level {
    Info,
    Warn,
    Error,
}

/// The greeting of a stream: which protocol, which firmware, which board.
#[derive(Clone, Copy, Debug)]
pub struct Hello {
    pub proto: u16,
    /// Short commit hash, padded with zeros.
    pub fw_git: [u8; 8],
    pub board: Board,
}

/// A status line.
#[derive(Clone, Copy, Debug)]
pub struct Status {
    pub level: Level,
    /// The line's text, padded with zeros.
    pub text: [u8; 48],
}

/// One telemetry message.
#[derive(Clone, Copy, Debug)]
pub enum Msg {
    Hello(Hello),
    Tick(u32),
    Imu(WireImu),
    Baro(WireBaro),
    Mag(WireMag),
    Fused(WireFused),
    Status(Status),
}

/// A message with the time it was made, in milliseconds since the board started.
#[derive(Clone, Copy, Debug)]
pub struct Frame {
    pub t_ms: u32,
    pub msg: Msg,
}

/// `msg` with the time stamp `t_ms`.
pub open spec fn stamped(t_ms: u32, msg: Msg) -> Frame {
    Frame { t_ms, msg }
}

/// What a message of the wire crate says.
pub uninterp spec fn message(m: WireMsg) -> Msg;

/// The packet of a message with a time stamp.
pub uninterp spec fn wire_bytes(t_ms: u32, msg: Msg) -> Seq<u8>;

/// The frame that a packet holds, closing zero included, or nothing where it is malformed.
pub uninterp spec fn frame_in(packet: Seq<u8>) -> Option<Frame>;

/// The bytes of an unfinished packet that a decoder has taken in.
pub uninterp spec fn pending(d: Decoder) -> Seq<u8>;

/// Whether `bytes` is one packet: a zero at its end and nowhere else, and short enough.
pub open spec fn is_packet(bytes: Seq<u8>) -> bool {
    &&& 0 < bytes.len() <= MAX_FRAME
    &&& bytes.last() == 0
    &&& forall|i: int| 0 <= i < bytes.len() - 1 ==> #[trigger] bytes[i] != 0
}

/// What feeding bytes to a decoder leads to.
#[verifier::ext_equal]
pub struct Fed {
    /// The frames that were completed, in order.
    pub frames: Seq<Frame>,
    /// How many packets were given up as malformed or too long.
    pub dropped: nat,
    /// What is left of an unfinished packet.
    pub held: Seq<u8>,
}

/// The first packet's end in `bytes`, counted so as to take the zero in.
pub open spec fn packet_end(bytes: Seq<u8>) -> Option<int>
    decreases bytes.len(),
{
    if bytes.len() == 0 {
        None
    } else if bytes[0] == 0 {
        Some(1)
    } else {
        match packet_end(bytes.skip(1)) {
            Some(n) => Some(n + 1),
            None => None,
        }
    }
}

/// How many more bytes a decoder has room for that holds `held`.
pub open spec fn room(held: Seq<u8>) -> int {
    if held.len() <= MAX_FRAME {
        MAX_FRAME - held.len()
    } else {
        0
    }
}

/// Feeding `bytes` to a decoder that holds `held`. Up to each zero there is one packet, which
/// is decoded if it fits and counted as dropped if it does not fit or is malformed; what comes
/// after the last zero is held. Where it outgrows the room, what was held is given up.
pub open spec fn fed(held: Seq<u8>, bytes: Seq<u8>) -> Fed
    decreases bytes.len(), held.len(),
{
    if bytes.len() == 0 {
        Fed { frames: Seq::empty(), dropped: 0, held }
    } else {
        match packet_end(bytes) {
            Some(n) => {
                proof {
                    lemma_packet_end(bytes);
                }
                let rest = fed(Seq::empty(), bytes.skip(n));
                match (held.len() + n <= MAX_FRAME, frame_in(held + bytes.take(n))) {
                    (true, Some(f)) => Fed { frames: seq![f] + rest.frames, ..rest },
                    _ => Fed { dropped: rest.dropped + 1, ..rest },
                }
            },
            None => if held.len() + bytes.len() <= MAX_FRAME {
                Fed { frames: Seq::empty(), dropped: 0, held: held + bytes }
            } else {
                let rest = fed(Seq::empty(), bytes.skip(room(held)));
                Fed { dropped: rest.dropped + 1, ..rest }
            },
        }
    }
}

/// The frames that wire messages with their time stamps say.
pub open spec fn frames_of(ms: Seq<(u32, WireMsg)>) -> Seq<Frame> {
    Seq::new(ms.len(), |i: int| Frame { t_ms: ms[i].0, msg: message(ms[i].1) })
}

/// Builds `discovery_telemetry::Msg` out of a message of this crate, field by field: the result
/// says what `m` says.
#[verifier::external_body]
fn to_wire(m: Msg) -> (w: WireMsg)
    ensures
        m == message(w),
{
    match m {
        Msg::Hello(Hello { proto, fw_git, board }) => WireMsg::Hello(WireHello { proto, fw_git,
            board: match board {
                Board::ArkDiscovery => WireBoard::ArkDiscovery,
                Board::HolybroDiscovery => WireBoard::HolybroDiscovery,
                Board::Unknown => WireBoard::Unknown } }),
        Msg::Tick(n) => WireMsg::Tick(n), Msg::Imu(s) => WireMsg::Imu(s),
        Msg::Baro(s) => WireMsg::Baro(s), Msg::Mag(s) => WireMsg::Mag(s),
        Msg::Fused(s) => WireMsg::Fused(s),
        Msg::Status(Status { level, text }) => WireMsg::Status(WireStatus { text,
            level: match level { Level::Info => WireLevel::Info,
                Level::Warn => WireLevel::Warn, Level::Error => WireLevel::Error } }),
    }
}

/// Takes a `discovery_telemetry::Msg` apart, field by field.
#[verifier::external_body]
fn from_wire(w: WireMsg) -> (m: Msg)
    ensures
        m == message(w),
{
    match w {
        WireMsg::Hello(WireHello { proto, fw_git, board }) => Msg::Hello(Hello { proto, fw_git,
            board: match board {
                WireBoard::ArkDiscovery => Board::ArkDiscovery,
                WireBoard::HolybroDiscovery => Board::HolybroDiscovery,
                WireBoard::Unknown => Board::Unknown } }),
        WireMsg::Tick(n) => Msg::Tick(n), WireMsg::Imu(s) => Msg::Imu(s),
        WireMsg::Baro(s) => Msg::Baro(s), WireMsg::Mag(s) => Msg::Mag(s),
        WireMsg::Fused(s) => Msg::Fused(s),
        WireMsg::Status(WireStatus { level, text }) => Msg::Status(Status { text,
            level: match level { WireLevel::Info => Level::Info,
                WireLevel::Warn => Level::Warn, WireLevel::Error => Level::Error } }),
    }
}

/// Calls `discovery_telemetry::codec::encode` with a buffer of `MAX_FRAME` bytes. Every message
/// fits: the longest, a status line, takes 57 bytes. The bytes depend on the time stamp and the
/// message alone, are one packet, and decode to the frame that was encoded.
#[verifier::external_body]
fn encode(t_ms: u32, msg: WireMsg) -> (r: Option<Vec<u8>>)
    ensures
        r is Some,
        r->0@ == wire_bytes(t_ms, message(msg)),
        is_packet(r->0@),
        frame_in(r->0@) == Some(stamped(t_ms, message(msg))),
{
    let mut buf = [0u8; discovery_telemetry::codec::MAX_FRAME];
    match discovery_telemetry::codec::encode(&WireFrame { t_ms, msg }, &mut buf) {
        Ok(bytes) => Some(bytes.to_vec()),
        Err(_) => None,
    }
}

/// Calls `discovery_telemetry::codec::Decoder::new`: a decoder that holds nothing.
#[verifier::external_body]
fn new_decoder() -> (d: Decoder)
    ensures
        pending(d) == Seq::<u8>::empty(),
{
    Decoder::new()
}

/// Calls `discovery_telemetry::codec::Decoder::push` and collects the frames it hands out. What
/// comes out and what the decoder holds afterwards is [`fed`] of what it held and the bytes.
#[verifier::external_body]
fn push_bytes(d: &mut Decoder, bytes: &[u8]) -> (r: (
    Vec<(u32, WireMsg)>,
    usize,
))
    ensures
        frames_of(r.0@) == fed(pending(*old(d)), bytes@).frames,
        r.1 == fed(pending(*old(d)), bytes@).dropped,
        pending(*final(d)) == fed(pending(*old(d)), bytes@).held,
{
    let mut frames = Vec::new();
    let dropped = d.push(bytes, |f| frames.push((f.t_ms, f.msg)));
    (frames, dropped)
}

/// Reads `discovery_telemetry::PROTOCOL_VERSION`, which is 2.
#[verifier::external_body]
fn wire_protocol_version() -> (v: u16)
    ensures
        v == 2,
{
    discovery_telemetry::PROTOCOL_VERSION
}

/// The protocol that this crate speaks.
pub fn protocol_version() -> (v: u16)
    ensures
        v == 2,
{
    wire_protocol_version()
}

/// Whether a message with its time stamp makes one packet that decodes to it.
pub open spec fn travels(t_ms: u32, msg: Msg) -> bool {
    &&& is_packet(wire_bytes(t_ms, msg))
    &&& frame_in(wire_bytes(t_ms, msg)) == Some(stamped(t_ms, msg))
}

/// The packet that carries `msg`, made at `t_ms`.
pub fn packet(t_ms: u32, msg: Msg) -> (r: Option<Vec<u8>>)
    ensures
        r is Some,
        r->0@ == wire_bytes(t_ms, msg),
        travels(t_ms, msg),
{
    encode(t_ms, to_wire(msg))
}

/// The receiving end of a stream.
pub struct Receiver {
    pub decoder: Decoder,
}

impl Receiver {
    /// What is left of an unfinished packet.
    pub open spec fn held(self) -> Seq<u8> {
        pending(self.decoder)
    }

    /// A receiver that has seen nothing.
    pub fn new() -> (r: Receiver)
        ensures
            r.held() == Seq::<u8>::empty(),
    {
        Receiver { decoder: new_decoder() }
    }

    /// Take in the next bytes of the stream: the frames they complete, and how many packets were
    /// dropped.
    pub fn push(&mut self, bytes: &[u8]) -> (r: (Vec<Frame>, usize))
        ensures
            r.0@ == fed(old(self).held(), bytes@).frames,
            r.1 == fed(old(self).held(), bytes@).dropped,
            final(self).held() == fed(old(self).held(), bytes@).held,
    {
        let (ms, dropped) = push_bytes(&mut self.decoder, bytes);
        let mut frames: Vec<Frame> = Vec::new();
        let mut i: usize = 0;
        while i < ms.len()
            invariant
                i <= ms.len(),
                frames@ == frames_of(ms@).take(i as int),
            decreases ms.len() - i,
        {
            let (t_ms, m) = ms[i];
            frames.push(Frame { t_ms, msg: from_wire(m) });
            i += 1;
            proof {
                assert(frames@ =~= frames_of(ms@).take(i as int));
            }
        }
        proof {
            assert(frames@ =~= frames_of(ms@));
        }
        (frames, dropped)
    }
}

/// The end of the first packet is just behind the first zero; where there is none, there is no
/// zero.
pub proof fn lemma_packet_end(bytes: Seq<u8>)
    ensures
        match packet_end(bytes) {
            Some(n) => {
                &&& 0 < n <= bytes.len()
                &&& bytes[n - 1] == 0
                &&& forall|i: int| 0 <= i < n - 1 ==> #[trigger] bytes[i] != 0
            },
            None => forall|i: int| 0 <= i < bytes.len() ==> #[trigger] bytes[i] != 0,
        },
    decreases bytes.len(),
{
    if bytes.len() > 0 && bytes[0] != 0 {
        let tail = bytes.skip(1);
        lemma_packet_end(tail);
        assert forall|i: int| 0 < i < bytes.len() implies #[trigger] bytes[i] == tail[i - 1] by {}
    }
}

/// Where the first zero is, there the first packet ends.
proof fn lemma_packet_end_is(bytes: Seq<u8>, n: int)
    requires
        0 < n <= bytes.len(),
        bytes[n - 1] == 0,
        forall|i: int| 0 <= i < n - 1 ==> #[trigger] bytes[i] != 0,
    ensures
        packet_end(bytes) == Some(n),
{
    lemma_packet_end(bytes);
    match packet_end(bytes) {
        Some(m) => {
            assert(m <= n) by {
                if n < m {
                    assert(bytes[n - 1] != 0);
                }
            }
            assert(n <= m) by {
                if m < n {
                    assert(bytes[m - 1] != 0);
                }
            }
        },
        None => {
            assert(bytes[n - 1] != 0);
        },
    }
}

/// First `a`, then what follows from `b`.
pub open spec fn fed_then(a: Fed, b: Fed) -> Fed {
    Fed { frames: a.frames + b.frames, dropped: a.dropped + b.dropped, held: b.held }
}

/// A decoder is back in step after any zero: whatever came before it, `b` behind it is decoded as
/// by a fresh decoder. Garbage and a connection made in mid-stream cost what stands before the
/// next zero and no more.
pub proof fn resyncs_at_every_zero(held: Seq<u8>, a: Seq<u8>, b: Seq<u8>)
    requires
        a.len() > 0,
        a.last() == 0,
    ensures
        fed(held, a).held == Seq::<u8>::empty(),
        fed(held, a + b) == fed_then(fed(held, a), fed(Seq::empty(), b)),
    decreases a.len(),
{
    lemma_packet_end(a);
    assert(a[a.len() - 1] == 0);
    let n = packet_end(a)->0;
    let ab = a + b;
    assert forall|i: int| 0 <= i < n implies #[trigger] ab[i] == a[i] by {}
    lemma_packet_end_is(ab, n);
    assert(ab.take(n) =~= a.take(n));
    assert(ab.skip(n) =~= a.skip(n) + b);
    let whole = fed(held, ab);
    let parts = fed_then(fed(held, a), fed(Seq::empty(), b));
    if n < a.len() {
        assert(a.skip(n).last() == 0);
        resyncs_at_every_zero(Seq::empty(), a.skip(n), b);
    } else {
        assert(a.skip(n) =~= Seq::<u8>::empty());
        assert(a.skip(n) + b =~= b);
    }
    assert(whole.frames =~= parts.frames);
}

/// A packet together with the frame it carries.
pub struct Packet {
    pub bytes: Seq<u8>,
    pub frame: Frame,
}

impl Packet {
    /// What [`packet`](crate::wire::packet) promises of its result.
    pub open spec fn sound(self) -> bool {
        is_packet(self.bytes) && frame_in(self.bytes) == Some(self.frame)
    }
}

/// A fresh decoder makes exactly one frame of a packet.
pub proof fn one_packet_is_one_frame(p: Packet)
    requires
        p.sound(),
    ensures
        fed(Seq::empty(), p.bytes) == (Fed {
            frames: seq![p.frame],
            dropped: 0,
            held: Seq::empty(),
        }),
{
    let n = p.bytes.len() as int;
    reveal_with_fuel(fed, 2);
    lemma_packet_end_is(p.bytes, n);
    assert(Seq::<u8>::empty() + p.bytes.take(n) =~= p.bytes);
    assert(p.bytes.skip(n) =~= Seq::<u8>::empty());
    assert(seq![p.frame] + Seq::<Frame>::empty() =~= seq![p.frame]);
}

/// The packets one after the other.
pub open spec fn stream(ps: Seq<Packet>) -> Seq<u8>
    decreases ps.len(),
{
    if ps.len() == 0 {
        Seq::empty()
    } else {
        ps[0].bytes + stream(ps.skip(1))
    }
}

/// One more packet at the end of a stream.
pub proof fn lemma_stream_push(ps: Seq<Packet>, p: Packet)
    ensures
        stream(ps.push(p)) == stream(ps) + p.bytes,
    decreases ps.len(),
{
    let all = ps.push(p);
    if ps.len() == 0 {
        assert(all.skip(1) =~= Seq::<Packet>::empty());
        assert(stream(all.skip(1)) =~= Seq::<u8>::empty());
        assert(stream(all) =~= stream(ps) + p.bytes);
    } else {
        assert(all.skip(1) =~= ps.skip(1).push(p));
        lemma_stream_push(ps.skip(1), p);
        assert(stream(all) =~= stream(ps) + p.bytes);
    }
}

/// The frames of the packets.
pub open spec fn carried(ps: Seq<Packet>) -> Seq<Frame> {
    Seq::new(ps.len(), |i: int| ps[i].frame)
}

/// Where a decoder stands that has seen the first `n` bytes of the packets: the frames of those
/// it has seen whole, and the part of the next one that it has seen.
pub open spec fn seen(ps: Seq<Packet>, n: int) -> (Seq<Frame>, Seq<u8>)
    decreases ps.len(),
{
    if ps.len() == 0 {
        (Seq::empty(), Seq::empty())
    } else if n < ps[0].bytes.len() {
        (Seq::empty(), ps[0].bytes.take(n))
    } else {
        let rest = seen(ps.skip(1), n - ps[0].bytes.len());
        (seq![ps[0].frame] + rest.0, rest.1)
    }
}

/// From byte `i` to byte `j` of a stream of sound packets.
proof fn lemma_fed_between(ps: Seq<Packet>, i: int, j: int)
    requires
        forall|k: int| 0 <= k < ps.len() ==> (#[trigger] ps[k]).sound(),
        0 <= i <= j <= stream(ps).len(),
    ensures
        fed(seen(ps, i).1, stream(ps).subrange(i, j)).dropped == 0,
        fed(seen(ps, i).1, stream(ps).subrange(i, j)).held == seen(ps, j).1,
        seen(ps, i).0 + fed(seen(ps, i).1, stream(ps).subrange(i, j)).frames == seen(ps, j).0,
    decreases ps.len(),
{
    let s = stream(ps);
    let chunk = s.subrange(i, j);
    let held = seen(ps, i).1;
    if ps.len() == 0 {
        assert(chunk =~= Seq::<u8>::empty());
        assert(seen(ps, i).0 + fed(held, chunk).frames =~= seen(ps, j).0);
    } else {
        let p = ps[0];
        let l = p.bytes.len() as int;
        let tail = ps.skip(1);
        assert(p.sound());
        assert forall|k: int| 0 <= k < tail.len() implies (#[trigger] tail[k]).sound() by {
            assert(tail[k] == ps[k + 1]);
        }
        if i >= l {
            lemma_fed_between(tail, i - l, j - l);
            assert(chunk =~= stream(tail).subrange(i - l, j - l));
            assert(seen(ps, i).0 + fed(held, chunk).frames =~= seq![p.frame] + (seen(
                tail,
                i - l,
            ).0 + fed(held, chunk).frames));
        } else if j < l {
            assert(chunk =~= p.bytes.subrange(i, j));
            lemma_packet_end(chunk);
            if packet_end(chunk) is Some {
                let n = packet_end(chunk)->0;
                assert(chunk[n - 1] == p.bytes[i + n - 1]);
            }
            assert(p.bytes.take(i) + chunk =~= p.bytes.take(j));
            assert(seen(ps, i).0 + fed(held, chunk).frames =~= seen(ps, j).0);
        } else {
            let n = l - i;
            assert(chunk[n - 1] == p.bytes[l - 1]);
            assert forall|k: int| 0 <= k < n - 1 implies #[trigger] chunk[k] != 0 by {
                assert(chunk[k] == p.bytes[i + k]);
            }
            lemma_packet_end_is(chunk, n);
            assert(p.bytes.take(i) + chunk.take(n) =~= p.bytes);
            lemma_fed_between(tail, 0, j - l);
            assert(chunk.skip(n) =~= stream(tail).subrange(0, j - l));
            assert(seen(tail, 0).0 =~= Seq::<Frame>::empty() && seen(tail, 0).1 =~= Seq::<
                u8,
            >::empty()) by {
                if tail.len() > 0 {
                    assert(tail[0].sound());
                    assert(tail[0].bytes.take(0) =~= Seq::<u8>::empty());
                }
            }
            assert(fed(held, chunk).frames =~= seq![p.frame] + fed(
                Seq::empty(),
                chunk.skip(n),
            ).frames);
            assert(seen(tail, 0).0 + fed(Seq::empty(), chunk.skip(n)).frames =~= fed(
                Seq::empty(),
                chunk.skip(n),
            ).frames);
            assert(seen(ps, i).0 + fed(held, chunk).frames =~= seen(ps, j).0);
        }
    }
}

/// A decoder that has seen all of a stream has all of its frames and holds nothing.
proof fn lemma_seen_all(ps: Seq<Packet>)
    requires
        forall|k: int| 0 <= k < ps.len() ==> (#[trigger] ps[k]).sound(),
    ensures
        seen(ps, stream(ps).len() as int) == (carried(ps), Seq::<u8>::empty()),
        seen(ps, 0) == (Seq::<Frame>::empty(), Seq::<u8>::empty()),
    decreases ps.len(),
{
    if ps.len() > 0 {
        let tail = ps.skip(1);
        assert(ps[0].sound());
        assert forall|k: int| 0 <= k < tail.len() implies (#[trigger] tail[k]).sound() by {
            assert(tail[k] == ps[k + 1]);
        }
        lemma_seen_all(tail);
        assert(seq![ps[0].frame] + carried(tail) =~= carried(ps));
        assert(ps[0].bytes.take(0) =~= Seq::<u8>::empty());
    } else {
        assert(carried(ps) =~= Seq::<Frame>::empty());
    }
}

/// Feeding `chunks` one after the other.
pub open spec fn fed_all(held: Seq<u8>, chunks: Seq<Seq<u8>>) -> Fed
    decreases chunks.len(),
{
    if chunks.len() == 0 {
        Fed { frames: Seq::empty(), dropped: 0, held }
    } else {
        let first = fed(held, chunks[0]);
        fed_then(first, fed_all(first.held, chunks.skip(1)))
    }
}

/// From byte `i` of a stream on, in any chunks.
proof fn lemma_fed_all_from(ps: Seq<Packet>, i: int, chunks: Seq<Seq<u8>>)
    requires
        forall|k: int| 0 <= k < ps.len() ==> (#[trigger] ps[k]).sound(),
        0 <= i <= stream(ps).len(),
        chunks.flatten() == stream(ps).skip(i),
    ensures
        fed_all(seen(ps, i).1, chunks).dropped == 0,
        fed_all(seen(ps, i).1, chunks).held == Seq::<u8>::empty(),
        seen(ps, i).0 + fed_all(seen(ps, i).1, chunks).frames == carried(ps),
    decreases chunks.len(),
{
    let s = stream(ps);
    lemma_seen_all(ps);
    if chunks.len() == 0 {
        assert(s.skip(i).len() == 0);
        assert(seen(ps, i).0 + fed_all(seen(ps, i).1, chunks).frames =~= carried(ps));
    } else {
        let c = chunks[0];
        let j = i + c.len();
        let rest = chunks.skip(1);
        assert(chunks.drop_first() =~= rest);
        assert(chunks.flatten() == c + rest.flatten());
        assert(s.skip(i).len() == s.len() - i);
        assert(c =~= s.subrange(i, j)) by {
            assert(c =~= (c + rest.flatten()).take(c.len() as int));
            assert(s.skip(i).take(c.len() as int) =~= s.subrange(i, j));
        }
        assert(rest.flatten() =~= s.skip(j)) by {
            assert(rest.flatten() =~= (c + rest.flatten()).skip(c.len() as int));
            assert(s.skip(i).skip(c.len() as int) =~= s.skip(j));
        }
        lemma_fed_between(ps, i, j);
        lemma_fed_all_from(ps, j, rest);
        let held = seen(ps, i).1;
        assert(seen(ps, i).0 + fed_all(held, chunks).frames =~= (seen(ps, i).0 + fed(
            held,
            c,
        ).frames) + fed_all(fed(held, c).held, rest).frames);
    }
}

/// A stream of packets is decoded without loss: however it is cut into chunks, a fresh decoder
/// hands out exactly the frames that were encoded, in order, and drops nothing.
pub proof fn any_chunking_gives_back_the_frames(ps: Seq<Packet>, chunks: Seq<Seq<u8>>)
    requires
        forall|k: int| 0 <= k < ps.len() ==> (#[trigger] ps[k]).sound(),
        chunks.flatten() == stream(ps),
    ensures
        fed_all(Seq::empty(), chunks) == (Fed {
            frames: carried(ps),
            dropped: 0,
            held: Seq::empty(),
        }),
{
    lemma_seen_all(ps);
    assert(stream(ps).skip(0) =~= stream(ps));
    lemma_fed_all_from(ps, 0, chunks);
    assert(Seq::<Frame>::empty() + fed_all(Seq::empty(), chunks).frames =~= fed_all(
        Seq::empty(),
        chunks,
    ).frames);
}

} // verus!
