//! Serial output: text lines and binary frames, and the run-time modes that choose between them.
//!
//! There are two output modes. Text is the mode at the start: readable lines, so that a terminal
//! needs no set-up. Binary sends packets of the telemetry wire format, which the host decodes
//! without loss. The functions append to the serial link's transmit queue; whoever owns the port
//! sends the queue on as far as the port takes it.
use vstd::prelude::*;
use vstd::string::*;
use vstd::utf8::*;

use discovery_telemetry::{
    Baro as WireBaro, Fused as WireFused, Imu as WireImu, Mag as WireMag,
};

use crate::config;
use crate::figures;
use crate::telem::before_nul;
use crate::text;
use crate::wire;
use crate::wire::{Board, Hello, Level, Msg, Status};

verus! {

/// The longest text line, in bytes.
pub const LOG_LINE_CAP: usize = 192;

/// The room for a status line's text, in bytes.
pub const STATUS_CAP: usize = 48;

/// The run-time modes.
#[derive(Clone, Copy, Debug, PartialEq, Eq, Structural)]
pub struct Modes {
    /// Whether sensor tasks write register dumps in place of concise readings.
    pub diag: bool,
    /// Whether output is binary.
    pub binary: bool,
}

impl Modes {
    /// These modes with the diagnostic mode flipped.
    pub open spec fn toggled(self) -> Modes {
        Modes { diag: !self.diag, binary: self.binary }
    }

    /// These modes with this output mode.
    pub open spec fn with_binary(self, on: bool) -> Modes {
        Modes { diag: self.diag, binary: on }
    }

    /// The modes at the start.
    pub fn new() -> (m: Modes)
        ensures
            !m.diag,
            m.binary == config::DEFAULT_OUTPUT_BINARY,
    {
        Modes { diag: false, binary: config::DEFAULT_OUTPUT_BINARY }
    }
}

/// Whether diagnostics are on.
pub fn diag_enabled(modes: &Modes) -> (on: bool)
    ensures
        on == modes.diag,
{
    modes.diag
}

/// Flip the diagnostic mode and return the new one.
pub fn toggle_diag(modes: &mut Modes) -> (on: bool)
    ensures
        *final(modes) == old(modes).toggled(),
        on == final(modes).diag,
{
    modes.diag = !modes.diag;
    modes.diag
}

/// Whether output is binary.
pub fn output_is_binary(modes: &Modes) -> (on: bool)
    ensures
        on == modes.binary,
{
    modes.binary
}

/// Choose binary output or text.
pub fn set_output_binary(modes: &mut Modes, on: bool)
    ensures
        *final(modes) == old(modes).with_binary(on),
{
    modes.binary = on;
}

/// The first `n` bytes of `b`, with zeros behind it where it is shorter.
pub open spec fn zero_padded(b: Seq<u8>, n: nat) -> Seq<u8> {
    Seq::new(
        n,
        |i: int|
            if i < b.len() {
                b[i]
            } else {
                0u8
            },
    )
}

/// The longest beginning of `s` that takes at most `cap` bytes as UTF-8.
pub open spec fn fitting(s: Seq<char>, cap: nat) -> Seq<char>
    decreases s.len(),
{
    if s.len() == 0 || encode_utf8(s).len() <= cap {
        s
    } else {
        fitting(s.drop_last(), cap)
    }
}

/// Copy bytes to the front of an array, as far as they fit.
fn copy_to_front<const N: usize>(out: &mut [u8; N], b: &[u8])
    requires
        old(out)@ == zero_padded(Seq::empty(), N as nat),
    ensures
        final(out)@ == zero_padded(b@, N as nat),
{
    let mut i: usize = 0;
    while i < N && i < b.len()
        invariant
            i <= N,
            i <= b@.len(),
            out@.len() == N,
            forall|k: int|
                0 <= k < N ==> #[trigger] out@[k] == (if k < i {
                    b@[k]
                } else {
                    0u8
                }),
        decreases N - i,
    {
        out[i] = b[i];
        i += 1;
    }
    proof {
        assert(out@ =~= zero_padded(b@, N as nat));
    }
}

/// The firmware's commit hash as the greeting carries it.
pub fn fw_git(git_hash: &str) -> (out: [u8; 8])
    ensures
        out@ == zero_padded(encode_utf8(git_hash@), 8),
{
    let mut out = [0u8;8];
    proof {
        assert(out@ =~= zero_padded(Seq::empty(), 8));
    }
    copy_to_front(&mut out, git_hash.as_bytes());
    out
}

/// Calls `heapless::String::push_str` on an empty `heapless::String` of `N` bytes: it takes the
/// text if and only if the text fits, and then holds its bytes.
#[verifier::external_body]
fn buffered<const N: usize>(s: &str) -> (r: Option<Vec<u8>>)
    ensures
        r is Some <==> encode_utf8(s@).len() <= N,
        r is Some ==> r->0@ == encode_utf8(s@),
{
    let mut buffer: heapless::String<N> = heapless::String::new();
    match buffer.push_str(s) {
        Ok(()) => Some(buffer.as_bytes().to_vec()),
        Err(_) => None,
    }
}

/// The longest beginning of a text that a buffer of `N` bytes takes.
fn truncated<const N: usize>(s: &str) -> (bytes: Vec<u8>)
    ensures
        bytes@ == encode_utf8(fitting(s@, N as nat)),
        bytes@.len() <= N,
{
    let mut k: usize = s.unicode_len();
    proof {
        assert(s@.take(k as int) =~= s@);
    }
    loop
        invariant
            k <= s@.len(),
            fitting(s@, N as nat) == fitting(s@.take(k as int), N as nat),
        decreases k,
    {
        let part = s.substring_char(0, k);
        proof {
            assert(part@ =~= s@.take(k as int));
        }
        match buffered::<N>(part) {
            Some(bytes) => {
                return bytes;
            },
            None => {
                proof {
                    assert(encode_utf8(Seq::<char>::empty()).len() == 0);
                    if k == 0 {
                        assert(part@ =~= Seq::<char>::empty());
                    }
                    assert(s@.take(k as int).drop_last() =~= s@.take(k - 1));
                }
                k -= 1;
            },
        }
    }
}

/// Queue bytes for the serial link.
pub fn write_serial(serial: &mut Vec<u8>, bytes: &[u8])
    ensures
        final(serial)@ == old(serial)@ + bytes@,
{
    let mut i: usize = 0;
    proof {
        assert(old(serial)@ + bytes@.take(0) =~= old(serial)@);
    }
    while i < bytes.len()
        invariant
            i <= bytes@.len(),
            serial@ == old(serial)@ + bytes@.take(i as int),
        decreases bytes@.len() - i,
    {
        serial.push(bytes[i]);
        i += 1;
        proof {
            assert(serial@ =~= old(serial)@ + bytes@.take(i as int));
        }
    }
    proof {
        assert(bytes@.take(i as int) =~= bytes@);
    }
}

/// What a text line puts on the serial link: all of it, or as much as a line may take.
pub open spec fn logged(line: Seq<char>) -> Seq<u8> {
    encode_utf8(fitting(line, LOG_LINE_CAP as nat))
}

/// Queue a text, cut off where it is longer than a line may be.
pub fn log_fmt(serial: &mut Vec<u8>, line: &str)
    ensures
        final(serial)@ == old(serial)@ + logged(line@),
{
    let bytes = truncated::<LOG_LINE_CAP>(line);
    write_serial(serial, bytes.as_slice());
}

/// The packet for `msg`, made at `t_ms`. Every message fits into a packet.
pub fn encode_frame(t_ms: u32, msg: Msg) -> (r: Option<Vec<u8>>)
    ensures
        r is Some,
        r->0@ == wire::wire_bytes(t_ms, msg),
        wire::travels(t_ms, msg),
{
    wire::packet(t_ms, msg)
}

/// Queue the packet for `msg`.
pub fn write_frame(serial: &mut Vec<u8>, t_ms: u32, msg: Msg)
    ensures
        final(serial)@ == old(serial)@ + wire::wire_bytes(t_ms, msg),
        wire::travels(t_ms, msg),
{
    if let Some(w) = encode_frame(t_ms, msg) {
        write_serial(serial, w.as_slice());
    }
}

/// Queue the packet for `msg` (from a task, which shares the port).
pub fn emit_frame(serial: &mut Vec<u8>, t_ms: u32, msg: Msg)
    ensures
        final(serial)@ == old(serial)@ + wire::wire_bytes(t_ms, msg),
        wire::travels(t_ms, msg),
{
    write_frame(serial, t_ms, msg);
}

/// Whether `m` is the status message for a text.
pub open spec fn is_status(m: Msg, level: Level, line: Seq<char>) -> bool {
    m matches Msg::Status(s) && s.level == level && s.text@ == zero_padded(
        encode_utf8(fitting(line, STATUS_CAP as nat)),
        STATUS_CAP as nat,
    )
}

/// The status message for a text.
pub open spec fn status_of(level: Level, line: Seq<char>) -> Msg {
    choose|m: Msg| is_status(m, level, line)
}

/// There is one status message for a text.
proof fn lemma_one_status(m: Msg, level: Level, line: Seq<char>)
    requires
        is_status(m, level, line),
    ensures
        m == status_of(level, line),
{
    let other = status_of(level, line);
    assert(is_status(other, level, line));
    match (m, other) {
        (Msg::Status(a), Msg::Status(b)) => {
            assert(a.text =~= b.text);
        },
        _ => {},
    }
}

/// The status message for a text, cut off where it is longer than a status line may be.
pub fn status_msg(level: Level, line: &str) -> (m: Msg)
    ensures
        is_status(m, level, line@),
        m == status_of(level, line@),
{
    let bytes = truncated::<STATUS_CAP>(line);
    let mut text = [0u8;48];
    proof {
        assert(text@ =~= zero_padded(Seq::empty(), 48));
    }
    copy_to_front(&mut text, bytes.as_slice());
    let m = Msg::Status(Status { level, text });
    proof {
        lemma_one_status(m, level, line@);
    }
    m
}

/// Whether `m` is the greeting of a firmware with this commit hash.
pub open spec fn is_hello(m: Msg, git_hash: Seq<char>) -> bool {
    m matches Msg::Hello(h) && h.proto == 2 && h.board == Board::ArkDiscovery && h.fw_git@
        == zero_padded(encode_utf8(git_hash), 8)
}

/// The greeting of a firmware with this commit hash.
pub open spec fn hello_of(git_hash: Seq<char>) -> Msg {
    choose|m: Msg| is_hello(m, git_hash)
}

/// The greeting that opens a binary stream: protocol, commit hash and board.
pub fn hello_msg(git_hash: &str) -> (m: Msg)
    ensures
        is_hello(m, git_hash@),
        m == hello_of(git_hash@),
{
    let m = Msg::Hello(
        Hello {
            proto: wire::protocol_version(),
            fw_git: fw_git(git_hash),
            board: Board::ArkDiscovery,
        },
    );
    proof {
        let other = hello_of(git_hash@);
        assert(is_hello(m, git_hash@));
        assert(is_hello(other, git_hash@));
        match (m, other) {
            (Msg::Hello(a), Msg::Hello(b)) => {
                assert(a.fw_git =~= b.fw_git);
            },
            _ => {},
        }
    }
    m
}

/// What a notice puts on the serial link: a status packet, or a text line.
pub open spec fn noticed(modes: Modes, t_ms: u32, level: Level, line: Seq<char>) -> Seq<u8> {
    if modes.binary {
        wire::wire_bytes(t_ms, status_of(level, line))
    } else {
        logged(line + "\r\n"@)
    }
}

/// Queue a notice in whichever mode is on. The text has no line end.
pub fn emit_line(serial: &mut Vec<u8>, modes: &Modes, t_ms: u32, level: Level, line: &str)
    ensures
        final(serial)@ == old(serial)@ + noticed(*modes, t_ms, level, line@),
        modes.binary ==> is_status(status_of(level, line@), level, line@),
        modes.binary ==> wire::travels(t_ms, status_of(level, line@)),
{
    if output_is_binary(modes) {
        emit_frame(serial, t_ms, status_msg(level, line));
    } else {
        let mut whole = line.to_owned();
        whole.append("\r\n");
        log_fmt(serial, whole.as_str());
    }
}

/// The status text that names the IMU.
pub open spec fn imu_identity(id: u8, exp: u8) -> Seq<char> {
    "imu id=0x"@ + text::hex_byte(id) + " (exp "@ + text::hex_byte(exp) + ")"@
}

/// The text line for an IMU sample.
pub open spec fn imu_line(n: u32, id: u8, exp: u8, figures: Seq<Seq<char>>) -> Seq<char> {
    "imu["@ + text::decimal(n as nat) + "] id=0x"@ + text::hex_byte(id) + "(exp "@
        + text::hex_byte(exp) + ") "@ + figures::imu_phrase(figures) + "\r\n"@
}

/// What an IMU sample puts on the serial link.
pub open spec fn imu_sent(modes: Modes, t_ms: u32, n: u32, id: u8, exp: u8, s: WireImu) -> Seq<
    u8,
> {
    if modes.binary {
        (if n == config::IMU_LOG_DIV {
            wire::wire_bytes(t_ms, status_of(Level::Info, imu_identity(id, exp)))
        } else {
            Seq::empty()
        }) + wire::wire_bytes(t_ms, Msg::Imu(s))
    } else {
        logged(imu_line(n, id, exp, figures::imu_figures(s)))
    }
}

/// The status text that names the IMU.
pub fn imu_identity_text(id: u8, exp: u8) -> (s: String)
    ensures
        s@ == imu_identity(id, exp),
{
    let mut s = "imu id=0x".to_owned();
    s.append(text::hex_text(id).as_str());
    s.append(" (exp ");
    s.append(text::hex_text(exp).as_str());
    s.append(")");
    s
}

/// The text line for an IMU sample whose figures are already rendered.
pub fn imu_line_text(n: u32, id: u8, exp: u8, figs: &Vec<String>) -> (s: String)
    requires
        figs@.len() == 7,
    ensures
        s@ == imu_line(n, id, exp, text::texts(figs@)),
{
    let mut s = "imu[".to_owned();
    s.append(text::decimal_text(n as u64).as_str());
    s.append("] id=0x");
    s.append(text::hex_text(id).as_str());
    s.append("(exp ");
    s.append(text::hex_text(exp).as_str());
    s.append(") ");
    s.append(figures::imu_phrase_text(figs).as_str());
    s.append("\r\n");
    s
}

/// Queue one IMU sample: its packet, or a text line. With the first sample that is logged, binary
/// output also names the chip once, because the packet does not. `n` counts samples, `id` is what
/// the chip answered and `exp` what it should answer.
pub fn log_imu(
    serial: &mut Vec<u8>,
    modes: &Modes,
    t_ms: u32,
    n: u32,
    id: u8,
    exp: u8,
    s: &WireImu,
)
    ensures
        final(serial)@ == old(serial)@ + imu_sent(*modes, t_ms, n, id, exp, *s),
        modes.binary ==> wire::travels(t_ms, Msg::Imu(*s)),
        modes.binary && n == config::IMU_LOG_DIV ==> is_status(
            status_of(Level::Info, imu_identity(id, exp)),
            Level::Info,
            imu_identity(id, exp),
        ),
        modes.binary && n == config::IMU_LOG_DIV ==> wire::travels(
            t_ms,
            status_of(Level::Info, imu_identity(id, exp)),
        ),
{
    if output_is_binary(modes) {
        if n == config::IMU_LOG_DIV {
            let identity = imu_identity_text(id, exp);
            emit_frame(serial, t_ms, status_msg(Level::Info, identity.as_str()));
        }
        emit_frame(serial, t_ms, Msg::Imu(*s));
        proof {
            assert(serial@ =~= old(serial)@ + imu_sent(*modes, t_ms, n, id, exp, *s));
        }
    } else {
        let figs = figures::imu_figure_texts(s);
        proof {
            assert(text::texts(figs@).len() == figs@.len());
        }
        log_fmt(serial, imu_line_text(n, id, exp, &figs).as_str());
    }
}

/// What a barometer sample puts on the serial link.
pub open spec fn baro_sent(modes: Modes, t_ms: u32, s: WireBaro) -> Seq<u8> {
    if modes.binary {
        wire::wire_bytes(t_ms, Msg::Baro(s))
    } else {
        logged(figures::baro_phrase(figures::baro_figures(s)) + "\r\n"@)
    }
}

/// Queue one barometer sample: its packet, or a text line.
pub fn log_baro(serial: &mut Vec<u8>, modes: &Modes, t_ms: u32, s: &WireBaro)
    ensures
        final(serial)@ == old(serial)@ + baro_sent(*modes, t_ms, *s),
        modes.binary ==> wire::travels(t_ms, Msg::Baro(*s)),
{
    if output_is_binary(modes) {
        emit_frame(serial, t_ms, Msg::Baro(*s));
    } else {
        let figs = figures::baro_figure_texts(s);
        proof {
            assert(text::texts(figs@).len() == figs@.len());
        }
        let mut line = figures::baro_phrase_text(&figs);
        line.append("\r\n");
        log_fmt(serial, line.as_str());
    }
}

/// What a magnetometer sample puts on the serial link.
pub open spec fn mag_sent(modes: Modes, t_ms: u32, s: WireMag) -> Seq<u8> {
    if modes.binary {
        wire::wire_bytes(t_ms, Msg::Mag(s))
    } else {
        logged(figures::mag_phrase(figures::mag_figures(s)) + "\r\n"@)
    }
}

/// Queue one magnetometer sample: its packet, or a text line.
pub fn log_mag(serial: &mut Vec<u8>, modes: &Modes, t_ms: u32, s: &WireMag)
    ensures
        final(serial)@ == old(serial)@ + mag_sent(*modes, t_ms, *s),
        modes.binary ==> wire::travels(t_ms, Msg::Mag(*s)),
{
    if output_is_binary(modes) {
        emit_frame(serial, t_ms, Msg::Mag(*s));
    } else {
        let figs = figures::mag_figure_texts(s);
        proof {
            assert(text::texts(figs@).len() == figs@.len());
        }
        let mut line = figures::mag_phrase_text(&figs);
        line.append("\r\n");
        log_fmt(serial, line.as_str());
    }
}

/// What a fused state puts on the serial link.
pub open spec fn fused_sent(modes: Modes, t_ms: u32, s: WireFused) -> Seq<u8> {
    if modes.binary {
        wire::wire_bytes(t_ms, Msg::Fused(s))
    } else {
        logged(figures::fused_phrase(figures::fused_figures(s)) + "\r\n"@)
    }
}

/// Queue one fused state: its packet, or a text line.
pub fn log_fused(serial: &mut Vec<u8>, modes: &Modes, t_ms: u32, s: &WireFused)
    ensures
        final(serial)@ == old(serial)@ + fused_sent(*modes, t_ms, *s),
        modes.binary ==> wire::travels(t_ms, Msg::Fused(*s)),
{
    if output_is_binary(modes) {
        emit_frame(serial, t_ms, Msg::Fused(*s));
    } else {
        let figs = figures::fused_figure_texts(s);
        proof {
            assert(text::texts(figs@).len() == figs@.len());
        }
        let mut line = figures::fused_phrase_text(&figs);
        line.append("\r\n");
        log_fmt(serial, line.as_str());
    }
}

/// Flipping the diagnostic mode twice leaves every mode as it was.
pub proof fn toggling_twice_changes_nothing(m: Modes)
    ensures
        m.toggled().toggled() == m,
{
}

/// A text is cut off as late as possible: what is kept is a beginning of it that fits, and any
/// longer beginning does not fit.
pub proof fn fitting_is_the_longest_beginning(s: Seq<char>, cap: nat)
    ensures
        fitting(s, cap).is_prefix_of(s),
        encode_utf8(fitting(s, cap)).len() <= cap,
        forall|k: int|
            fitting(s, cap).len() < k <= s.len() ==> #[trigger] encode_utf8(s.take(k)).len() > cap,
    decreases s.len(),
{
    assert(s.take(s.len() as int) =~= s);
    if s.len() == 0 {
        assert(encode_utf8(s).len() == 0);
    } else if encode_utf8(s).len() > cap {
        let shorter = s.drop_last();
        fitting_is_the_longest_beginning(shorter, cap);
        let f = fitting(s, cap);
        assert(f =~= s.subrange(0, f.len() as int)) by {
            assert(f =~= shorter.subrange(0, f.len() as int));
        }
        assert forall|k: int| f.len() < k <= s.len() implies #[trigger] encode_utf8(
            s.take(k),
        ).len() > cap by {
            if k < s.len() {
                assert(shorter.take(k) =~= s.take(k));
                assert(encode_utf8(shorter.take(k)).len() > cap);
            }
        }
    }
}

/// ASCII text is cut off at exactly as many characters as there are bytes of room.
pub proof fn ascii_is_cut_at_the_cap(s: Seq<char>, cap: nat)
    requires
        is_ascii_chars(s),
    ensures
        fitting(s, cap) == (if s.len() <= cap {
            s
        } else {
            s.take(cap as int)
        }),
        encode_utf8(fitting(s, cap)).len() == fitting(s, cap).len(),
    decreases s.len(),
{
    is_ascii_chars_encode_utf8(s);
    if s.len() > cap {
        let shorter = s.drop_last();
        assert(is_ascii_chars(shorter));
        ascii_is_cut_at_the_cap(shorter, cap);
        if shorter.len() > cap {
            assert(shorter.take(cap as int) =~= s.take(cap as int));
        } else {
            assert(shorter =~= s.take(cap as int));
        }
    }
}

/// The bytes of a character other than the zero character are not zero.
proof fn lemma_scalar_has_no_zero(c: char)
    requires
        c != '\0',
    ensures
        forall|i: int|
            0 <= i < encode_scalar(c as u32).len() ==> #[trigger] encode_scalar(c as u32)[i] != 0,
{
    let v: u32 = c as u32;
    char_is_scalar(c);
    assert(v != 0);
    assert(v < 0x80 ==> leading_byte_width_1(v) != 0) by (bit_vector)
        requires
            v != 0,
    ;
    assert(leading_byte_width_2(v) != 0) by (bit_vector);
    assert(leading_byte_width_3(v) != 0) by (bit_vector);
    assert(leading_byte_width_4(v) != 0) by (bit_vector);
    assert(last_continuation_byte(v) != 0) by (bit_vector);
    assert(second_last_continuation_byte(v) != 0) by (bit_vector);
    assert(third_last_continuation_byte(v) != 0) by (bit_vector);
}

/// The UTF-8 form of a text without the zero character has no zero.
proof fn lemma_text_has_no_zero(s: Seq<char>)
    requires
        !s.contains('\0'),
    ensures
        forall|i: int| 0 <= i < encode_utf8(s).len() ==> #[trigger] encode_utf8(s)[i] != 0,
    decreases s.len(),
{
    if s.len() > 0 {
        let rest = s.drop_first();
        assert(s[0] != '\0');
        assert(!rest.contains('\0')) by {
            if rest.contains('\0') {
                let k = choose|k: int| 0 <= k < rest.len() && rest[k] == '\0';
                assert(s[k + 1] == '\0');
            }
        }
        lemma_scalar_has_no_zero(s[0]);
        lemma_text_has_no_zero(rest);
        let first = encode_scalar(s[0] as u32);
        assert(encode_utf8(s) == first + encode_utf8(rest));
        assert forall|i: int| 0 <= i < encode_utf8(s).len() implies #[trigger] encode_utf8(s)[i]
            != 0 by {
            if i < first.len() {
                assert(encode_utf8(s)[i] == first[i]);
            } else {
                assert(encode_utf8(s)[i] == encode_utf8(rest)[i - first.len()]);
            }
        }
    }
}

/// What was padded with zeros comes back whole.
proof fn lemma_padding_comes_off(b: Seq<u8>, n: nat)
    requires
        b.len() <= n,
        forall|i: int| 0 <= i < b.len() ==> #[trigger] b[i] != 0,
    ensures
        before_nul(zero_padded(b, n)) == b,
    decreases b.len(),
{
    let p = zero_padded(b, n);
    if b.len() == 0 {
        assert(before_nul(p) =~= b);
    } else {
        let rest = b.skip(1);
        assert forall|i: int| 0 <= i < rest.len() implies #[trigger] rest[i] != 0 by {
            assert(rest[i] == b[i + 1]);
        }
        lemma_padding_comes_off(rest, (n - 1) as nat);
        assert(p.skip(1) =~= zero_padded(rest, (n - 1) as nat));
        assert(p[0] == b[0]);
        assert(seq![b[0]] + rest =~= b);
    }
}

/// A status line's text comes back from its message: all of it where it fits, and otherwise the
/// longest beginning that does. The zero character, which ends a padded text, is left out.
pub proof fn status_text_reads_back(m: Msg, level: Level, line: Seq<char>)
    requires
        is_status(m, level, line),
        !line.contains('\0'),
    ensures
        m matches Msg::Status(s) && valid_utf8(before_nul(s.text@)) && decode_utf8(
            before_nul(s.text@),
        ) == fitting(line, STATUS_CAP as nat),
{
    let kept = fitting(line, STATUS_CAP as nat);
    fitting_is_the_longest_beginning(line, STATUS_CAP as nat);
    assert(!kept.contains('\0')) by {
        if kept.contains('\0') {
            let k = choose|k: int| 0 <= k < kept.len() && kept[k] == '\0';
            assert(line[k] == '\0');
        }
    }
    lemma_text_has_no_zero(kept);
    lemma_padding_comes_off(encode_utf8(kept), STATUS_CAP as nat);
    encode_utf8_valid_utf8(kept);
    encode_utf8_decode_utf8(kept);
}

/// A commit hash of up to eight bytes comes back from the greeting.
pub proof fn commit_hash_reads_back(m: Msg, git_hash: Seq<char>)
    requires
        is_hello(m, git_hash),
        encode_utf8(git_hash).len() <= 8,
        !git_hash.contains('\0'),
    ensures
        m matches Msg::Hello(h) && valid_utf8(before_nul(h.fw_git@)) && decode_utf8(
            before_nul(h.fw_git@),
        ) == git_hash,
{
    lemma_text_has_no_zero(git_hash);
    lemma_padding_comes_off(encode_utf8(git_hash), 8);
    encode_utf8_valid_utf8(git_hash);
    encode_utf8_decode_utf8(git_hash);
}

/// Texts one after the other are encoded one after the other.
proof fn lemma_encode_concat(a: Seq<char>, b: Seq<char>)
    ensures
        encode_utf8(a + b) == encode_utf8(a) + encode_utf8(b),
    decreases a.len(),
{
    if a.len() == 0 {
        assert(a + b =~= b);
        assert(encode_utf8(a) + encode_utf8(b) =~= encode_utf8(b));
    } else {
        assert((a + b).drop_first() =~= a.drop_first() + b);
        lemma_encode_concat(a.drop_first(), b);
        let first = encode_scalar(a[0] as u32);
        assert(first + (encode_utf8(a.drop_first()) + encode_utf8(b)) =~= (first + encode_utf8(
            a.drop_first(),
        )) + encode_utf8(b));
    }
}

/// A notice says the same in both modes: where its text fits a status line, the text line is that
/// text and a line end, and the status message gives exactly that text back.
pub proof fn notice_says_the_same_in_both_modes(t_ms: u32, level: Level, line: Seq<char>, m: Msg)
    requires
        encode_utf8(line).len() <= STATUS_CAP,
        !line.contains('\0'),
        is_status(m, level, line),
    ensures
        noticed(Modes { diag: false, binary: false }, t_ms, level, line) == encode_utf8(line)
            + seq![0x0Du8, 0x0Au8],
        noticed(Modes { diag: false, binary: true }, t_ms, level, line) == wire::wire_bytes(
            t_ms,
            m,
        ),
        m matches Msg::Status(s) && decode_utf8(before_nul(s.text@)) == line,
{
    lemma_one_status(m, level, line);
    status_text_reads_back(m, level, line);
    reveal_strlit("\r\n");
    let end = "\r\n"@;
    assert(is_ascii_chars(end));
    is_ascii_chars_encode_utf8(end);
    lemma_encode_concat(line, end);
    assert(encode_utf8(end) =~= seq![0x0Du8, 0x0Au8]) by {
        assert(end[0] as u8 == encode_utf8(end)[0]);
        assert(end[1] as u8 == encode_utf8(end)[1]);
    }
    assert(fitting(line + end, LOG_LINE_CAP as nat) == line + end);
}

/// The packets for messages with their time stamps.
pub open spec fn packets_of(sent: Seq<(u32, Msg)>) -> Seq<wire::Packet> {
    Seq::new(
        sent.len(),
        |i: int|
            wire::Packet {
                bytes: wire::wire_bytes(sent[i].0, sent[i].1),
                frame: wire::stamped(sent[i].0, sent[i].1),
            },
    )
}

/// What was sent in binary mode arrives: however the link cuts the bytes up, the host gets every
/// message with its time stamp, in order, and drops nothing.
pub proof fn binary_output_arrives(sent: Seq<(u32, Msg)>, chunks: Seq<Seq<u8>>)
    requires
        forall|i: int| 0 <= i < sent.len() ==> wire::travels((#[trigger] sent[i]).0, sent[i].1),
        chunks.flatten() == wire::stream(packets_of(sent)),
    ensures
        ({
            let got = wire::fed_all(Seq::empty(), chunks);
            &&& got.frames == Seq::new(sent.len(), |i: int| wire::stamped(sent[i].0, sent[i].1))
            &&& got.dropped == 0
            &&& got.held.len() == 0
        }),
{
    let ps = packets_of(sent);
    assert forall|k: int| 0 <= k < ps.len() implies (#[trigger] ps[k]).sound() by {
        assert(wire::travels(sent[k].0, sent[k].1));
    }
    wire::any_chunking_gives_back_the_frames(ps, chunks);
    assert(wire::carried(ps) =~= Seq::new(
        sent.len(),
        |i: int| wire::stamped(sent[i].0, sent[i].1),
    ));
}

/// What the mode functions do: a flip changes the diagnostic mode and leaves the output mode alone,
/// and choosing the output mode sets it and leaves the diagnostic mode alone.
pub proof fn modes_change_one_at_a_time(m: Modes, on: bool)
    ensures
        m.toggled().diag != m.diag,
        m.toggled().binary == m.binary,
        m.with_binary(on).binary == on,
        m.with_binary(on).diag == m.diag,
{
}

/// A padded field is as long as it should be, begins with what was put in, and is zero behind it.
pub proof fn padding_is_behind(b: Seq<u8>, n: nat, i: int)
    requires
        0 <= i < n,
    ensures
        zero_padded(b, n).len() == n,
        i < b.len() ==> zero_padded(b, n)[i] == b[i],
        i >= b.len() ==> zero_padded(b, n)[i] == 0,
{
}

/// A text line goes out whole up to 192 bytes; a longer one is cut to the longest beginning that
/// takes no more.
pub proof fn lines_go_out_up_to_the_cap(line: Seq<char>)
    ensures
        encode_utf8(line).len() <= 192 ==> logged(line) == encode_utf8(line),
        exists|k: int|
            {
                &&& 0 <= k <= line.len()
                &&& logged(line) == encode_utf8(#[trigger] line.take(k))
                &&& encode_utf8(line.take(k)).len() <= 192
                &&& forall|j: int|
                    k < j <= line.len() ==> #[trigger] encode_utf8(line.take(j)).len() > 192
            },
{
    fitting_is_the_longest_beginning(line, 192);
    let f = fitting(line, 192);
    assert(line.take(f.len() as int) =~= f);
    assert(line.take(line.len() as int) =~= line);
}

/// What a status message holds: the level it was given, and its text, whole up to 48 bytes and
/// otherwise the longest beginning that takes no more, with zeros behind it.
pub proof fn status_holds_level_and_text(m: Msg, level: Level, line: Seq<char>)
    requires
        is_status(m, level, line),
    ensures
        m is Status,
        m->Status_0.level == level,
        m->Status_0.text@.len() == 48,
        exists|k: int|
            {
                &&& 0 <= k <= line.len()
                &&& encode_utf8(#[trigger] line.take(k)).len() <= 48
                &&& encode_utf8(line).len() <= 48 ==> k == line.len()
                &&& forall|j: int|
                    k < j <= line.len() ==> #[trigger] encode_utf8(line.take(j)).len() > 48
                &&& forall|i: int|
                    0 <= i < 48 ==> #[trigger] m->Status_0.text@[i] == (if i < encode_utf8(
                        line.take(k),
                    ).len() {
                        encode_utf8(line.take(k))[i]
                    } else {
                        0u8
                    })
            },
{
    fitting_is_the_longest_beginning(line, 48);
    let f = fitting(line, 48);
    assert(line.take(f.len() as int) =~= f);
    assert(line.take(line.len() as int) =~= line);
}

/// What the greeting holds: protocol 2, this board, and the first eight bytes of the commit hash with
/// zeros behind it.
pub proof fn greeting_holds_protocol_board_and_hash(m: Msg, git_hash: Seq<char>, i: int)
    requires
        is_hello(m, git_hash),
        0 <= i < 8,
    ensures
        m is Hello,
        m->Hello_0.proto == 2,
        m->Hello_0.board == Board::ArkDiscovery,
        m->Hello_0.fw_git@[i] == (if i < encode_utf8(git_hash).len() {
            encode_utf8(git_hash)[i]
        } else {
            0u8
        }),
{
}

/// The IMU's text line, word for word: the sample's number and the two identities come back from
/// their digits, and the figures stand in the order of the payload's fields.
pub proof fn imu_line_word_for_word(n: u32, id: u8, exp: u8, figs: Seq<Seq<char>>)
    ensures
        exists|d: Seq<char>|
            {
                &&& #[trigger] text::decimal_value(d) == n
                &&& forall|i: int| 0 <= i < d.len() ==> '0' <= #[trigger] d[i] && d[i] <= '9'
                &&& imu_line(n, id, exp, figs) == "imu["@ + d + "] id=0x"@ + text::hex_byte(id)
                    + "(exp "@ + text::hex_byte(exp) + ") "@ + ("accel[g]="@ + figs[0] + ","@
                    + figs[1] + ","@ + figs[2] + " gyro[dps]="@ + figs[3] + ","@ + figs[4] + ","@
                    + figs[5] + " temp="@ + figs[6] + "C"@) + "\r\n"@
            },
        imu_identity(id, exp) == "imu id=0x"@ + text::hex_byte(id) + " (exp "@ + text::hex_byte(
            exp,
        ) + ")"@,
{
    let d = text::decimal(n as nat);
    text::decimal_reads_back(n as nat);
    text::decimal_is_digits(n as nat);
    assert(text::decimal_value(d) == n);
}

/// What each kind of sample puts on the link. In binary mode it is one packet with that payload, and
/// for the hundredth IMU sample, and no other, a status that names the chip before it. In text mode
/// it is one line with the payload's figures, in the order and with the places that the unit calls
/// for.
#[verifier::rlimit(50)]
pub proof fn samples_on_the_link(
    diag: bool,
    t_ms: u32,
    n: u32,
    id: u8,
    exp: u8,
    imu: WireImu,
    baro: WireBaro,
    mag: WireMag,
    fused: WireFused,
)
    ensures
        ({
            let b = Modes { diag, binary: true };
            let t = Modes { diag, binary: false };
            &&& imu_sent(b, t_ms, n, id, exp, imu) == (if n == 100 {
                wire::wire_bytes(t_ms, status_of(Level::Info, imu_identity(id, exp)))
            } else {
                Seq::empty()
            }) + wire::wire_bytes(t_ms, Msg::Imu(imu))
            &&& baro_sent(b, t_ms, baro) == wire::wire_bytes(t_ms, Msg::Baro(baro))
            &&& mag_sent(b, t_ms, mag) == wire::wire_bytes(t_ms, Msg::Mag(mag))
            &&& fused_sent(b, t_ms, fused) == wire::wire_bytes(t_ms, Msg::Fused(fused))
            &&& imu_sent(t, t_ms, n, id, exp, imu) == logged(
                imu_line(
                    n,
                    id,
                    exp,
                    Seq::new(
                        7,
                        |i: int|
                            figures::imu_number(
                                imu,
                                i as nat,
                                if i < 3 {
                                    2
                                } else {
                                    1
                                },
                            ),
                    ),
                ),
            )
            &&& baro_sent(t, t_ms, baro) == logged(
                "baro press="@ + figures::baro_number(baro, 0, 2) + "hPa temp="@
                    + figures::baro_number(baro, 1, 2) + "C"@ + "\r\n"@,
            )
            &&& mag_sent(t, t_ms, mag) == logged(
                "mag field[uT]="@ + figures::mag_number(mag, 0, 1) + ","@ + figures::mag_number(
                    mag,
                    1,
                    1,
                ) + ","@ + figures::mag_number(mag, 2, 1) + " temp="@ + figures::mag_number(
                    mag,
                    3,
                    1,
                ) + "C"@ + "\r\n"@,
            )
            &&& fused_sent(t, t_ms, fused) == logged(
                "fus roll="@ + figures::fused_number(fused, 0, 1) + " pitch="@
                    + figures::fused_number(fused, 1, 1) + " yaw="@ + figures::fused_number(
                    fused,
                    2,
                    1,
                ) + "deg alt="@ + figures::fused_number(fused, 3, 2) + "m vz="@
                    + figures::fused_number(fused, 4, 2) + "m/s"@ + "\r\n"@,
            )
        }),
{
    assert(figures::imu_figures(imu) =~= Seq::new(
        7,
        |i: int|
            figures::imu_number(
                imu,
                i as nat,
                if i < 3 {
                    2
                } else {
                    1
                },
            ),
    ));
}

/// What a notice puts on the link: in binary mode one packet with its status, in text mode the line
/// with a line end.
pub proof fn notices_on_the_link(diag: bool, t_ms: u32, level: Level, line: Seq<char>)
    ensures
        noticed(Modes { diag, binary: true }, t_ms, level, line) == wire::wire_bytes(
            t_ms,
            status_of(level, line),
        ),
        noticed(Modes { diag, binary: false }, t_ms, level, line) == logged(line + "\r\n"@),
{
}

} // verus!
