//! What the firmware's tasks decide: the way into the boot loader, the commands on the serial
//! link, and the heartbeat.
use vstd::prelude::*;
use vstd::string::*;

use crate::telemetry;
use crate::telemetry::Modes;
use crate::text;
use crate::wire;
use crate::wire::{Level, Msg};

verus! {

/// What the boot flag holds when a jump to the boot loader is asked for.
pub const BOOTLOADER_MAGIC: u32 = 0xB007_0DF1;

/// Where the chip's boot loader keeps its entry vector.
pub const SYSTEM_BOOTLOADER: u32 = 0x1FF0_9800;

/// The system clock in hertz.
pub const SYSTEM_CLOCK_HZ: u32 = 400_000_000;

/// The time between two heartbeats, in milliseconds.
pub const HEARTBEAT_MS: u32 = 1_000;

pub const USB_VENDOR_ID: u16 = 0x1209;

pub const USB_PRODUCT_ID: u16 = 0x0001;

/// Reboot into the boot loader.
pub const CMD_REBOOT: u8 = 0x72;

/// Switch to binary output.
pub const CMD_BINARY: u8 = 0x62;

/// Switch to text output.
pub const CMD_TEXT: u8 = 0x74;

/// Flip the diagnostic mode.
pub const CMD_DIAG: u8 = 0x64;

/// Ask for a jump to the boot loader. The flag survives the reset that has to follow; the jump
/// itself is made when the firmware starts again, while the clocks are as after a reset.
pub fn reboot_to_bootloader(boot_flag: &mut u32)
    ensures
        *final(boot_flag) == BOOTLOADER_MAGIC,
{
    *boot_flag = BOOTLOADER_MAGIC;
}

/// Whether the firmware, starting, is to jump to the boot loader at once, before it touches
/// anything. The request is used up.
pub fn maybe_enter_bootloader(boot_flag: &mut u32) -> (enter: bool)
    ensures
        enter == (*old(boot_flag) == BOOTLOADER_MAGIC),
        *final(boot_flag) == flag_after_start(*old(boot_flag)),
{
    if *boot_flag == BOOTLOADER_MAGIC {
        *boot_flag = 0;
        true
    } else {
        false
    }
}

/// The boot flag after a start that found `flag` in it.
pub open spec fn flag_after_start(flag: u32) -> u32 {
    if flag == BOOTLOADER_MAGIC {
        0
    } else {
        flag
    }
}

/// A request leads into the boot loader once: the start after it jumps, and the next one does not.
/// Without a request no start jumps, whatever else the flag holds.
pub proof fn a_request_is_honoured_once(flag: u32)
    ensures
        flag_after_start(BOOTLOADER_MAGIC) != BOOTLOADER_MAGIC,
        flag != BOOTLOADER_MAGIC ==> flag_after_start(flag) == flag,
        flag_after_start(flag) != BOOTLOADER_MAGIC,
{
}

/// The answer to a flip of the diagnostic mode.
pub open spec fn diag_answer(on: bool) -> Seq<char> {
    if on {
        "diag on"@
    } else {
        "diag off"@
    }
}

/// What one command byte leads to: the modes, and the bytes that are sent. Binary output opens with
/// a lone zero, which closes off whatever text the host still holds, and the greeting; the other
/// commands are acknowledged by a line.
pub open spec fn obeyed(modes: Modes, t_ms: u32, git_hash: Seq<char>, command: u8) -> (
    Modes,
    Seq<u8>,
) {
    if command == CMD_BINARY {
        (
            modes.with_binary(true),
            seq![0u8] + wire::wire_bytes(t_ms, telemetry::hello_of(git_hash)),
        )
    } else if command == CMD_TEXT {
        let m = modes.with_binary(false);
        (m, telemetry::noticed(m, t_ms, Level::Info, "text mode"@))
    } else if command == CMD_DIAG {
        let m = modes.toggled();
        (m, telemetry::noticed(m, t_ms, Level::Info, diag_answer(m.diag)))
    } else {
        (modes, Seq::empty())
    }
}

/// Whether what one command byte sends in packets is sound: each packet holds the message it is
/// named for, and travels.
pub open spec fn answer_travels(modes: Modes, t_ms: u32, git_hash: Seq<char>, command: u8) -> bool {
    let hello = telemetry::hello_of(git_hash);
    let answer = diag_answer(!modes.diag);
    let ack = telemetry::status_of(Level::Info, answer);
    &&& command == CMD_BINARY ==> telemetry::is_hello(hello, git_hash) && wire::travels(t_ms, hello)
    &&& command == CMD_DIAG && modes.binary ==> telemetry::is_status(ack, Level::Info, answer)
        && wire::travels(t_ms, ack)
}

/// What several command bytes lead to, one after the other.
pub open spec fn obeyed_all(modes: Modes, t_ms: u32, git_hash: Seq<char>, commands: Seq<u8>) -> (
    Modes,
    Seq<u8>,
)
    decreases commands.len(),
{
    if commands.len() == 0 {
        (modes, Seq::empty())
    } else {
        let before = obeyed_all(modes, t_ms, git_hash, commands.drop_last());
        let last = obeyed(before.0, t_ms, git_hash, commands.last());
        (last.0, before.1 + last.1)
    }
}

/// Do what one command byte asks for.
fn obey(serial: &mut Vec<u8>, modes: &mut Modes, t_ms: u32, git_hash: &str, command: u8)
    ensures
        *final(modes) == obeyed(*old(modes), t_ms, git_hash@, command).0,
        final(serial)@ == old(serial)@ + obeyed(*old(modes), t_ms, git_hash@, command).1,
        answer_travels(*old(modes), t_ms, git_hash@, command),
{
    if command == CMD_BINARY {
        telemetry::set_output_binary(modes, true);
        telemetry::write_serial(serial, [0u8].as_slice());
        telemetry::write_frame(serial, t_ms, telemetry::hello_msg(git_hash));
        proof {
            assert(serial@ =~= old(serial)@ + obeyed(*old(modes), t_ms, git_hash@, command).1);
        }
    } else if command == CMD_TEXT {
        telemetry::set_output_binary(modes, false);
        telemetry::emit_line(serial, modes, t_ms, Level::Info, "text mode");
    } else if command == CMD_DIAG {
        let on = telemetry::toggle_diag(modes);
        let answer = if on {
            "diag on"
        } else {
            "diag off"
        };
        telemetry::emit_line(serial, modes, t_ms, Level::Info, answer);
    }
    proof {
        assert(old(serial)@ + Seq::<u8>::empty() =~= old(serial)@);
    }
}

/// Whether one of the bytes asks for a reboot.
pub open spec fn reboot_asked(bytes: Seq<u8>) -> bool {
    bytes.contains(CMD_REBOOT)
}

/// Whether one of the bytes asks for a reboot.
fn asks_for_reboot(bytes: &[u8]) -> (b: bool)
    ensures
        b == reboot_asked(bytes@),
{
    let mut i: usize = 0;
    while i < bytes.len()
        invariant
            i <= bytes@.len(),
            forall|k: int| 0 <= k < i ==> #[trigger] bytes@[k] != CMD_REBOOT,
        decreases bytes@.len() - i,
    {
        if bytes[i] == CMD_REBOOT {
            proof {
                assert(bytes@[i as int] == CMD_REBOOT);
            }
            return true;
        }
        i += 1;
    }
    false
}

/// Take in bytes from the serial link. A reboot command anywhere among them wins: the result is
/// true, and nothing else is done. Otherwise each byte is obeyed in turn.
pub fn usb_irq(
    serial: &mut Vec<u8>,
    modes: &mut Modes,
    t_ms: u32,
    git_hash: &str,
    bytes: &[u8],
) -> (reboot: bool)
    ensures
        reboot == reboot_asked(bytes@),
        reboot ==> *final(modes) == *old(modes) && final(serial)@ == old(serial)@,
        !reboot ==> *final(modes) == obeyed_all(*old(modes), t_ms, git_hash@, bytes@).0,
        !reboot ==> final(serial)@ == old(serial)@ + obeyed_all(
            *old(modes),
            t_ms,
            git_hash@,
            bytes@,
        ).1,
        !reboot ==> forall|k: int|
            0 <= k < bytes@.len() ==> answer_travels(
                obeyed_all(*old(modes), t_ms, git_hash@, bytes@.take(k)).0,
                t_ms,
                git_hash@,
                #[trigger] bytes@[k],
            ),
{
    if asks_for_reboot(bytes) {
        return true;
    }
    let mut i: usize = 0;
    proof {
        assert(bytes@.take(0) =~= Seq::<u8>::empty());
        assert(old(serial)@ + Seq::<u8>::empty() =~= old(serial)@);
    }
    while i < bytes.len()
        invariant
            i <= bytes@.len(),
            *modes == obeyed_all(*old(modes), t_ms, git_hash@, bytes@.take(i as int)).0,
            serial@ == old(serial)@ + obeyed_all(
                *old(modes),
                t_ms,
                git_hash@,
                bytes@.take(i as int),
            ).1,
            forall|k: int|
                0 <= k < i ==> answer_travels(
                    obeyed_all(*old(modes), t_ms, git_hash@, bytes@.take(k)).0,
                    t_ms,
                    git_hash@,
                    #[trigger] bytes@[k],
                ),
        decreases bytes@.len() - i,
    {
        let ghost before = serial@;
        obey(serial, modes, t_ms, git_hash, bytes[i]);
        proof {
            assert(bytes@.take(i + 1).drop_last() =~= bytes@.take(i as int));
            let all = obeyed_all(*old(modes), t_ms, git_hash@, bytes@.take(i + 1)).1;
            assert(serial@ =~= old(serial)@ + all);
        }
        i += 1;
    }
    proof {
        assert(bytes@.take(i as int) =~= bytes@);
    }
    false
}

/// The host has closed the port: the next one to open it finds text.
pub fn port_closed(modes: &mut Modes)
    ensures
        *final(modes) == old(modes).with_binary(false),
{
    telemetry::set_output_binary(modes, false);
}

/// The modes after a look at the port.
pub open spec fn watched(modes: Modes, was_open: bool, dtr: bool) -> Modes {
    if was_open && !dtr {
        modes.with_binary(false)
    } else {
        modes
    }
}

/// Follow the port: `was_open` is whether it was open when last looked at, and `dtr` whether the
/// host holds it open now. Where the host has closed it meanwhile, output goes back to text.
pub fn watch_port(modes: &mut Modes, was_open: bool, dtr: bool) -> (open: bool)
    ensures
        open == dtr,
        *final(modes) == watched(*old(modes), was_open, dtr),
{
    if was_open && !dtr {
        port_closed(modes);
    }
    dtr
}

/// A status light.
#[derive(Clone, Copy, Debug, PartialEq, Eq, Structural)]
pub enum Led {
    Red,
    Green,
    Blue,
}

impl Led {
    /// The light that follows.
    pub open spec fn following(self) -> Led {
        match self {
            Led::Red => Led::Green,
            Led::Green => Led::Blue,
            Led::Blue => Led::Red,
        }
    }

    /// The place of this light's pin: red, green, blue.
    pub open spec fn place(self) -> int {
        match self {
            Led::Red => 0,
            Led::Green => 1,
            Led::Blue => 2,
        }
    }

    /// The light that follows.
    fn next(self) -> (l: Led)
        ensures
            l == self.following(),
    {
        match self {
            Led::Red => Led::Green,
            Led::Green => Led::Blue,
            Led::Blue => Led::Red,
        }
    }
}

/// Whether the pins light this light and no other: a low pin lights.
pub open spec fn pins_light(high: [bool; 3], lit: Option<Led>) -> bool {
    forall|i: int| 0 <= i < 3 ==> #[trigger] high[i] == !(lit matches Some(l) && l.place() == i)
}

/// Which of the three pins are high. The lights are lit by a low pin, so that every pin is high
/// but that of the light that is on, if one is.
pub fn led_pins(lit: Option<Led>) -> (high: [bool; 3])
    ensures
        pins_light(high, lit),
{
    match lit {
        None => [true, true, true],
        Some(Led::Red) => [false, true, true],
        Some(Led::Green) => [true, false, true],
        Some(Led::Blue) => [true, true, false],
    }
}

/// The heartbeat: a counter that is sent once per second, and lights that take turns.
#[derive(Clone, Copy, Debug, PartialEq, Eq, Structural)]
pub struct Heartbeat {
    pub counter: u32,
    /// The light for the next beat.
    pub led: Led,
}

/// The text line for a beat.
pub open spec fn tick_line(n: u32) -> Seq<char> {
    "hello from RTIC on STM32H743, tick "@ + text::decimal(n as nat) + "\r\n"@
}

/// What a beat puts on the serial link.
pub open spec fn tick_sent(modes: Modes, t_ms: u32, n: u32) -> Seq<u8> {
    if modes.binary {
        wire::wire_bytes(t_ms, Msg::Tick(n))
    } else {
        telemetry::logged(tick_line(n))
    }
}

impl Heartbeat {
    /// The state after one beat. The counter starts over at its limit.
    pub open spec fn beaten(self) -> Heartbeat {
        Heartbeat {
            counter: if self.counter == u32::MAX {
                0
            } else {
                (self.counter + 1) as u32
            },
            led: self.led.following(),
        }
    }

    /// No beat yet: the counter stands at zero, and red comes first.
    pub fn new() -> (h: Heartbeat)
        ensures
            h.counter == 0,
            h.led == Led::Red,
    {
        Heartbeat { counter: 0, led: Led::Red }
    }

    /// One beat: send the counter in whichever mode is on, and say which light is to be lit until
    /// the next beat.
    pub fn log_tick(&mut self, serial: &mut Vec<u8>, modes: &Modes, t_ms: u32) -> (lit: Led)
        ensures
            *final(self) == old(self).beaten(),
            lit == old(self).led,
            final(serial)@ == old(serial)@ + tick_sent(*modes, t_ms, old(self).counter),
            modes.binary ==> wire::travels(t_ms, Msg::Tick(old(self).counter)),
    {
        let n: u32 = self.counter;
        if telemetry::output_is_binary(modes) {
            telemetry::emit_frame(serial, t_ms, Msg::Tick(n));
        } else {
            let mut line = "hello from RTIC on STM32H743, tick ".to_owned();
            line.append(text::decimal_text(n as u64).as_str());
            line.append("\r\n");
            telemetry::log_fmt(serial, line.as_str());
        }
        let lit = self.led;
        self.counter = n.wrapping_add(1);
        self.led = lit.next();
        lit
    }
}

/// The state after `k` beats.
pub open spec fn beaten_times(h: Heartbeat, k: nat) -> Heartbeat
    decreases k,
{
    if k == 0 {
        h
    } else {
        beaten_times(h, (k - 1) as nat).beaten()
    }
}

/// From the start on, beat number `k` sends `k`, up to the counter's limit and then from zero
/// again, and lights red, green and blue in turn without a break.
pub proof fn heartbeat_counts_and_cycles(h: Heartbeat, k: nat)
    requires
        h.counter == 0,
        h.led == Led::Red,
    ensures
        beaten_times(h, k).counter == k % 0x1_0000_0000,
        beaten_times(h, k).led.place() == k % 3,
    decreases k,
{
    if k > 0 {
        heartbeat_counts_and_cycles(h, (k - 1) as nat);
    }
}

/// A beat's text line is never cut off.
pub proof fn tick_line_is_sent_whole(n: u32)
    ensures
        vstd::utf8::is_ascii_chars(tick_line(n)),
        telemetry::logged(tick_line(n)) == vstd::utf8::encode_utf8(tick_line(n)),
{
    reveal_strlit("hello from RTIC on STM32H743, tick ");
    reveal_strlit("\r\n");
    text::decimal_is_ascii(n as nat);
    text::decimal_of_u32_is_short(n);
    let line = tick_line(n);
    assert(line.len() <= telemetry::LOG_LINE_CAP);
    telemetry::ascii_is_cut_at_the_cap(line, telemetry::LOG_LINE_CAP as nat);
}

/// The messages that acknowledge commands in binary mode, where no command leaves it.
pub open spec fn acknowledged(modes: Modes, t_ms: u32, git_hash: Seq<char>, commands: Seq<u8>) -> Seq<
    (u32, Msg),
>
    decreases commands.len(),
{
    if commands.len() == 0 {
        Seq::empty()
    } else {
        let before = acknowledged(modes, t_ms, git_hash, commands.drop_last());
        let m = obeyed_all(modes, t_ms, git_hash, commands.drop_last()).0;
        if commands.last() == CMD_DIAG {
            before.push((t_ms, telemetry::status_of(Level::Info, diag_answer(!m.diag))))
        } else {
            before
        }
    }
}

/// In binary mode, commands that leave the mode alone are answered in packets and nothing else, one
/// for each flip of the diagnostic mode, and each of them travels, so that the host gets them all.
pub proof fn binary_answers_are_packets(
    modes: Modes,
    t_ms: u32,
    git_hash: Seq<char>,
    commands: Seq<u8>,
)
    requires
        modes.binary,
        forall|k: int|
            0 <= k < commands.len() ==> #[trigger] commands[k] != CMD_BINARY && commands[k]
                != CMD_TEXT,
        forall|k: int|
            0 <= k < commands.len() ==> answer_travels(
                obeyed_all(modes, t_ms, git_hash, commands.take(k)).0,
                t_ms,
                git_hash,
                #[trigger] commands[k],
            ),
    ensures
        ({
            let sent = acknowledged(modes, t_ms, git_hash, commands);
            &&& obeyed_all(modes, t_ms, git_hash, commands).0.binary
            &&& obeyed_all(modes, t_ms, git_hash, commands).1 == wire::stream(
                telemetry::packets_of(sent),
            )
            &&& forall|i: int|
                0 <= i < sent.len() ==> wire::travels((#[trigger] sent[i]).0, sent[i].1)
        }),
    decreases commands.len(),
{
    let sent = acknowledged(modes, t_ms, git_hash, commands);
    if commands.len() == 0 {
        assert(telemetry::packets_of(sent) =~= Seq::<wire::Packet>::empty());
    } else {
        let fewer = commands.drop_last();
        let last = commands.len() - 1;
        assert(commands.take(last) =~= fewer);
        assert(commands[last] == commands.last());
        assert forall|k: int| 0 <= k < fewer.len() implies #[trigger] fewer[k] != CMD_BINARY
            && fewer[k] != CMD_TEXT && answer_travels(
            obeyed_all(modes, t_ms, git_hash, fewer.take(k)).0,
            t_ms,
            git_hash,
            fewer[k],
        ) by {
            assert(fewer[k] == commands[k]);
            assert(fewer.take(k) =~= commands.take(k));
        }
        binary_answers_are_packets(modes, t_ms, git_hash, fewer);
        let before = acknowledged(modes, t_ms, git_hash, fewer);
        let m = obeyed_all(modes, t_ms, git_hash, fewer).0;
        if commands.last() == CMD_DIAG {
            let ack = telemetry::status_of(Level::Info, diag_answer(!m.diag));
            let p = wire::Packet {
                bytes: wire::wire_bytes(t_ms, ack),
                frame: wire::stamped(t_ms, ack),
            };
            assert(telemetry::packets_of(sent) =~= telemetry::packets_of(before).push(p));
            wire::lemma_stream_push(telemetry::packets_of(before), p);
            assert forall|i: int| 0 <= i < sent.len() implies wire::travels(
                (#[trigger] sent[i]).0,
                sent[i].1,
            ) by {
                if i < before.len() {
                    assert(sent[i] == before[i]);
                }
            }
        } else {
            let all = obeyed_all(modes, t_ms, git_hash, commands).1;
            assert(all =~= obeyed_all(modes, t_ms, git_hash, fewer).1);
        }
    }
}

/// The greeting always gets through: whatever the host's decoder still holds, the switch to binary
/// ends with the greeting's frame, and the decoder holds nothing afterwards.
pub proof fn greeting_gets_through(modes: Modes, held: Seq<u8>, t_ms: u32, git_hash: Seq<char>)
    requires
        wire::travels(t_ms, telemetry::hello_of(git_hash)),
    ensures
        ({
            let zero = seq![0u8];
            let got = wire::fed(held, obeyed(modes, t_ms, git_hash, CMD_BINARY).1);
            &&& got.frames == wire::fed(held, zero).frames.push(
                wire::stamped(t_ms, telemetry::hello_of(git_hash)),
            )
            &&& got.dropped == wire::fed(held, zero).dropped
            &&& got.held.len() == 0
        }),
{
    let zero = seq![0u8];
    let hello = telemetry::hello_of(git_hash);
    let p = wire::Packet {
        bytes: wire::wire_bytes(t_ms, hello),
        frame: wire::stamped(t_ms, hello),
    };
    wire::resyncs_at_every_zero(held, zero, p.bytes);
    wire::one_packet_is_one_frame(p);
}

/// Switching to binary and back, or closing the port, leaves text output and the diagnostic mode
/// as it was.
pub proof fn text_output_comes_back(modes: Modes, t_ms: u32, git_hash: Seq<char>)
    ensures
        obeyed_all(modes, t_ms, git_hash, seq![CMD_BINARY, CMD_TEXT]).0 == modes.with_binary(false),
        obeyed(modes, t_ms, git_hash, CMD_BINARY).0.with_binary(false) == modes.with_binary(false),
{
    let both = seq![CMD_BINARY, CMD_TEXT];
    assert(both.drop_last() =~= seq![CMD_BINARY]);
    assert(seq![CMD_BINARY].drop_last() =~= Seq::<u8>::empty());
    reveal_with_fuel(obeyed_all, 3);
}

/// The commands, byte by byte. `b` sets binary output and sends a zero and the greeting. `t` sets
/// text output and answers "text mode". `d` flips the diagnostic mode and answers with what it is
/// now, in whichever output mode is on. Each leaves the other mode alone, and any other byte changes
/// and sends nothing.
#[verifier::rlimit(50)]
pub proof fn commands_byte_by_byte(modes: Modes, t_ms: u32, git_hash: Seq<char>, c: u8)
    ensures
        ({
            let (after, sent) = obeyed(modes, t_ms, git_hash, c);
            let now = if modes.diag {
                "diag off"@
            } else {
                "diag on"@
            };
            &&& c == 98 ==> {
                &&& after.binary && after.diag == modes.diag
                &&& sent == seq![0u8] + wire::wire_bytes(t_ms, telemetry::hello_of(git_hash))
            }
            &&& c == 116 ==> {
                &&& !after.binary && after.diag == modes.diag
                &&& sent == vstd::utf8::encode_utf8("text mode"@ + "\r\n"@)
            }
            &&& c == 100 ==> {
                &&& after.binary == modes.binary && after.diag != modes.diag
                &&& modes.binary ==> sent == wire::wire_bytes(
                    t_ms,
                    telemetry::status_of(Level::Info, now),
                )
                &&& !modes.binary ==> sent == vstd::utf8::encode_utf8(now + "\r\n"@)
            }
            &&& c != 98 && c != 116 && c != 100 ==> after == modes && sent.len() == 0
        }),
{
    reveal_strlit("text mode");
    reveal_strlit("diag on");
    reveal_strlit("diag off");
    reveal_strlit("\r\n");
    let end = "\r\n"@;
    telemetry::ascii_is_cut_at_the_cap("text mode"@ + end, 192);
    telemetry::ascii_is_cut_at_the_cap("diag on"@ + end, 192);
    telemetry::ascii_is_cut_at_the_cap("diag off"@ + end, 192);
}

/// A reboot is asked for by the letter `r`, wherever it stands.
pub proof fn reboot_is_the_letter_r(bytes: Seq<u8>)
    ensures
        reboot_asked(bytes) <==> exists|i: int| 0 <= i < bytes.len() && #[trigger] bytes[i] == 114,
{
    if reboot_asked(bytes) {
        let i = choose|i: int| 0 <= i < bytes.len() && bytes[i] == CMD_REBOOT;
        assert(bytes[i] == 114);
    }
}

/// A reboot is asked for by bytes exactly where one of two parts of them asks for it.
pub proof fn reboot_in_either_part(a: Seq<u8>, b: Seq<u8>)
    ensures
        reboot_asked(a + b) <==> reboot_asked(a) || reboot_asked(b),
{
    let ab = a + b;
    if reboot_asked(a) {
        let i = choose|i: int| 0 <= i < a.len() && a[i] == CMD_REBOOT;
        assert(ab[i] == CMD_REBOOT);
    }
    if reboot_asked(b) {
        let i = choose|i: int| 0 <= i < b.len() && b[i] == CMD_REBOOT;
        assert(ab[a.len() + i] == CMD_REBOOT);
    }
    if reboot_asked(ab) {
        let i = choose|i: int| 0 <= i < ab.len() && ab[i] == CMD_REBOOT;
        if i < a.len() {
            assert(a[i] == CMD_REBOOT);
        } else {
            assert(b[i - a.len()] == CMD_REBOOT);
        }
    }
}

/// Commands are obeyed one after the other: first those in `a`, then those in `b` with the modes
/// that `a` led to; and one command alone is obeyed as such.
pub proof fn commands_are_obeyed_in_turn(
    modes: Modes,
    t_ms: u32,
    git_hash: Seq<char>,
    a: Seq<u8>,
    b: Seq<u8>,
    c: u8,
)
    ensures
        ({
            let first = obeyed_all(modes, t_ms, git_hash, a);
            let second = obeyed_all(first.0, t_ms, git_hash, b);
            obeyed_all(modes, t_ms, git_hash, a + b) == (second.0, first.1 + second.1)
        }),
        obeyed_all(modes, t_ms, git_hash, seq![c]) == obeyed(modes, t_ms, git_hash, c),
        obeyed_all(modes, t_ms, git_hash, Seq::empty()) == (modes, Seq::<u8>::empty()),
    decreases b.len(),
{
    reveal_with_fuel(obeyed_all, 2);
    assert(seq![c].drop_last() =~= Seq::<u8>::empty());
    let one = obeyed(modes, t_ms, git_hash, c);
    assert(Seq::<u8>::empty() + one.1 =~= one.1);
    let first = obeyed_all(modes, t_ms, git_hash, a);
    if b.len() == 0 {
        assert(a + b =~= a);
        assert(first.1 + Seq::<u8>::empty() =~= first.1);
    } else {
        let shorter = b.drop_last();
        assert((a + b).drop_last() =~= a + shorter);
        commands_are_obeyed_in_turn(modes, t_ms, git_hash, a, shorter, c);
        let second = obeyed_all(first.0, t_ms, git_hash, shorter);
        let last = obeyed(second.0, t_ms, git_hash, b.last());
        assert((first.1 + second.1) + last.1 =~= first.1 + (second.1 + last.1));
    }
}

/// What the boot flag leads to, number for number: a start jumps where it finds 0xB0070DF1, and then
/// leaves zero there; any other value it leaves as it is.
pub proof fn boot_flag_number_for_number(flag: u32)
    ensures
        BOOTLOADER_MAGIC == 0xB007_0DF1,
        SYSTEM_BOOTLOADER == 0x1FF0_9800,
        flag == 0xB007_0DF1 ==> flag_after_start(flag) == 0,
        flag != 0xB007_0DF1 ==> flag_after_start(flag) == flag,
{
}

/// Text output comes back exactly where the port was open and is not any more; the diagnostic mode
/// is never touched.
pub proof fn only_closing_the_port_changes_output(modes: Modes, was_open: bool, dtr: bool)
    ensures
        watched(modes, was_open, dtr).diag == modes.diag,
        was_open && !dtr ==> !watched(modes, was_open, dtr).binary,
        !(was_open && !dtr) ==> watched(modes, was_open, dtr).binary == modes.binary,
{
}

/// Red, green and blue have a pin each, in this order; a light that is lit has the only low pin.
pub proof fn one_low_pin_per_light(high: [bool; 3], lit: Option<Led>)
    requires
        pins_light(high, lit),
    ensures
        high[0] <==> lit != Some(Led::Red),
        high[1] <==> lit != Some(Led::Green),
        high[2] <==> lit != Some(Led::Blue),
        Led::Red.following() == Led::Green,
        Led::Green.following() == Led::Blue,
        Led::Blue.following() == Led::Red,
{
}

/// What a beat puts on the link: in binary mode one packet with the counter, in text mode one line
/// from which the counter comes back.
pub proof fn beats_on_the_link(diag: bool, t_ms: u32, n: u32)
    ensures
        tick_sent(Modes { diag, binary: true }, t_ms, n) == wire::wire_bytes(t_ms, Msg::Tick(n)),
        exists|d: Seq<char>|
            {
                &&& #[trigger] text::decimal_value(d) == n
                &&& forall|i: int| 0 <= i < d.len() ==> '0' <= #[trigger] d[i] && d[i] <= '9'
                &&& tick_sent(Modes { diag, binary: false }, t_ms, n) == vstd::utf8::encode_utf8(
                    "hello from RTIC on STM32H743, tick "@ + d + "\r\n"@,
                )
            },
{
    let d = text::decimal(n as nat);
    text::decimal_reads_back(n as nat);
    text::decimal_is_digits(n as nat);
    tick_line_is_sent_whole(n);
    assert(text::decimal_value(d) == n);
}

/// One beat moves the counter on by one, or from its limit to zero, and the lights on by one.
pub proof fn one_beat(h: Heartbeat)
    ensures
        h.counter < u32::MAX ==> h.beaten().counter == h.counter + 1,
        h.counter == u32::MAX ==> h.beaten().counter == 0,
        h.beaten().led == h.led.following(),
{
}

} // verus!
