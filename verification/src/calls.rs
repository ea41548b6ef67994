//! What calls give back, end to end. Each law takes the arguments of one or more calls together with
//! what the calls returned, and relates the two in plain numbers, bytes and characters.
use vstd::prelude::*;
use vstd::utf8::*;

use discovery_telemetry::{
    Baro as WireBaro, Fused as WireFused, Imu as WireImu, Mag as WireMag,
};

use crate::build_info::{git_hash, short_hash, short_hash_is_the_beginning, trimmed};
use crate::figures;
use crate::figures::{baro_number, fused_number, imu_number, mag_number};
use crate::firmware;
use crate::firmware::{
    led_pins, maybe_enter_bootloader, port_closed, reboot_to_bootloader, usb_irq, watch_port,
    Heartbeat, Led,
};
use crate::fusion;
use crate::fusion::{Fusion, FusionStep, ImuMean, SensorState};
use crate::i2c_regs::{I2cOp, I2cRegs};
use crate::sensors::baro;
use crate::sensors::baro::{
    odr_reg, osr_reg, Baro, BaroBringUp, BaroConfig, BaroOdr, BaroPhase, BaroSample, ConfigError,
    Oversampling,
};
use crate::sensors::imu;
use crate::sensors::imu::{Imu, ImuOdr, ImuSample, SpiOp};
use crate::sensors::mag;
use crate::sensors::mag::{Mag, MagBringUp, MagOdr, MagPhase, MagRaw, MagSample};
use crate::sensors::{BringUp, Identify, Sensor, SoftReset, Step, Wait};
use crate::telem;
use crate::telem::{
    detect_port, nul_trimmed, print_frame, receive, render_frame, report, PortInfo,
};
use crate::telemetry;
use crate::telemetry::{
    diag_enabled, emit_frame, emit_line, encode_frame, fw_git, hello_msg, log_baro, log_fmt, log_fused,
    log_imu, log_mag, output_is_binary, set_output_binary, status_msg, toggle_diag, write_frame,
    write_serial, Modes,
};
use crate::text;
use crate::text::{aligned_text, decimal_text, hex_text};
use crate::wire;
use crate::wire::{Board, Frame, Level, Msg, Receiver};

verus! {

/// Reading the IMU: on every axis the acceleration is the 16-bit signed number of its two bytes, and
/// the rate 125 times such a number.
pub proof fn imu_read_gives_signed_axes(dev: Imu, raw: [u8; 15], s: ImuSample, i: int)
    requires
        call_ensures(Imu::read, (&dev, &raw), s),
        0 <= i < 3,
    ensures
        -32768 <= s.accel[i] <= 32767,
        s.accel[i] as int % 65536 == 256 * raw[3 + 2 * i] + raw[4 + 2 * i],
        s.gyro[i] as int % 125 == 0,
        -32768 <= s.gyro[i] as int / 125 <= 32767,
        (s.gyro[i] as int / 125) % 65536 == 256 * raw[9 + 2 * i] + raw[10 + 2 * i],
        (s.temp - 82_800) % 25 == 0,
        -32768 <= (s.temp - 82_800) / 25 <= 32767,
        ((s.temp - 82_800) / 25) % 65536 == 256 * raw[1] + raw[2],
{
    imu::axes_are_signed_and_to_scale(dev, raw, s, i);
}

/// Reading the magnetometer: on every axis the field is 150 times the 16-bit signed number of its
/// two bytes, and the temperature 125 times such a number above 25000.
pub proof fn mag_read_gives_signed_axes(dev: Mag, raw: MagRaw, s: MagSample, i: int)
    requires
        call_ensures(Mag::read, (&dev, &raw), s),
        0 <= i < 3,
    ensures
        s.field_nt[i] as int % 150 == 0,
        -32768 <= s.field_nt[i] as int / 150 <= 32767,
        (s.field_nt[i] as int / 150) % 65536 == 256 * raw.field[2 * i + 1] + raw.field[2 * i],
        (s.temp_mc - 25_000) % 125 == 0,
        -32768 <= (s.temp_mc - 25_000) / 125 <= 32767,
        ((s.temp_mc - 25_000) / 125) % 65536 == 256 * raw.temp[1] + raw.temp[0],
{
    mag::field_is_signed_and_to_scale(dev, raw, s, i);
}

/// Reading the barometer: the converter's outputs hold their bytes, the temperature is zero at 256
/// times `t1`, and one count more of the converter adds what the coefficients say, below zero as
/// above it.
pub proof fn baro_read_follows_the_converter(
    dev: Baro,
    raw: [u8; 6],
    next: [u8; 6],
    s: BaroSample,
    s2: BaroSample,
)
    requires
        call_ensures(Baro::read, (&dev, &raw), s),
        call_ensures(Baro::read, (&dev, &next), s2),
    ensures
        s.adc_p % 256 == raw[0] && (s.adc_p / 256) % 256 == raw[1] && s.adc_p / 65536 == raw[2],
        s.adc_t % 256 == raw[3] && (s.adc_t / 256) % 256 == raw[4] && s.adc_t / 65536 == raw[5],
        s.adc_t == 256 * dev.calib.t1 ==> s.temp_q48 == 0,
        s2.adc_t == s.adc_t + 1 ==> s2.temp_q48 - s.temp_q48 == 0x4_0000 * dev.calib.t2 + (2 * (
        s.adc_t - 256 * dev.calib.t1) + 1) * dev.calib.t3,
        dev.calib.t3 == 0 && dev.calib.t2 > 0 ==> (s.temp_q48 < 0 <==> s.adc_t < 256
            * dev.calib.t1),
{
    baro::converter_outputs_hold_their_bytes(dev, raw, s);
    baro::one_count_more(dev, raw, next, s, s2);
    if dev.calib.t3 == 0 && dev.calib.t2 > 0 {
        baro::temperature_keeps_its_sign(dev, raw, next, s, s2);
    }
}

/// Configuring the barometer: accepted exactly where the conversions of pressure and temperature
/// together are few enough for the rate; then oversampling, rate and power are written, in this
/// order.
pub proof fn baro_configure_counts_both(
    dev: Baro,
    config: BaroConfig,
    r: Result<Vec<I2cOp>, ConfigError>,
)
    requires
        call_ensures(Baro::configure, (&dev, config), r),
    ensures
        ({
            let count = |o: Oversampling|
                match o {
                    Oversampling::X1 => 1int,
                    Oversampling::X2 => 2int,
                    Oversampling::X4 => 4int,
                    Oversampling::X8 => 8int,
                    Oversampling::X16 => 16int,
                    Oversampling::X32 => 32int,
                };
            let code = |o: Oversampling|
                match o {
                    Oversampling::X1 => 0int,
                    Oversampling::X2 => 1int,
                    Oversampling::X4 => 2int,
                    Oversampling::X8 => 3int,
                    Oversampling::X16 => 4int,
                    Oversampling::X32 => 5int,
                };
            let (most, rate) = match config.odr {
                BaroOdr::Hz200 => (2int, 0u8),
                BaroOdr::Hz100 => (4int, 1u8),
                BaroOdr::Hz50 => (9int, 2u8),
                BaroOdr::Hz25 => (19int, 3u8),
                BaroOdr::Hz12_5 => (39int, 4u8),
            };
            let addr = dev.regs.addr;
            &&& r is Ok <==> count(config.osr_p) + count(config.osr_t) <= most
            &&& r is Err ==> r->Err_0 == ConfigError::OdrTooFast
            &&& r is Ok ==> r->Ok_0@ == seq![
                I2cOp::Write {
                    addr,
                    reg: 0x1C,
                    val: (8 * code(config.osr_t) + code(config.osr_p)) as u8,
                },
                I2cOp::Write { addr, reg: 0x1D, val: rate },
                I2cOp::Write { addr, reg: 0x1B, val: 0x33 },
            ]
        }),
{
    baro::conversions_that_fit_the_rate(config);
}

/// Reading the barometer's calibration: every byte of the block comes back from its coefficient.
pub proof fn baro_calibration_holds_the_block(dev: &mut Baro, b: [u8; 21])
    requires
        call_ensures(Baro::read_calibration, (dev, &b), ()),
    ensures
        ({
            let c = final(dev).calib;
            &&& final(dev).regs == old(dev).regs
            &&& c.t1 == b[0] + 256 * b[1] && c.t2 == b[2] + 256 * b[3]
            &&& c.p5 == b[11] + 256 * b[12] && c.p6 == b[13] + 256 * b[14]
            &&& c.p1 as int % 65536 == b[5] + 256 * b[6]
            &&& c.p2 as int % 65536 == b[7] + 256 * b[8]
            &&& c.p9 as int % 65536 == b[17] + 256 * b[18]
            &&& c.t3 as int % 256 == b[4] && c.p3 as int % 256 == b[9]
            &&& c.p4 as int % 256 == b[10] && c.p7 as int % 256 == b[15]
            &&& c.p8 as int % 256 == b[16] && c.p10 as int % 256 == b[19]
            &&& c.p11 as int % 256 == b[20]
        }),
{
    baro::calibration_holds_the_block(b@);
}

/// The barometer's requests, register by register.
pub proof fn baro_requests(dev: Baro, id: I2cOp, reset: I2cOp, calib: I2cOp, sample: I2cOp)
    requires
        call_ensures(Baro::chip_id, (&dev,), id),
        call_ensures(Baro::soft_reset, (&dev,), reset),
        call_ensures(Baro::calibration_query, (&dev,), calib),
        call_ensures(Baro::sample_query, (&dev,), sample),
    ensures
        ({
            let addr = dev.regs.addr;
            &&& id == (I2cOp::Read { addr, reg: 0x00, len: 1 })
            &&& reset == (I2cOp::Write { addr, reg: 0x7E, val: 0xB6 })
            &&& calib == (I2cOp::Read { addr, reg: 0x31, len: 21 })
            &&& sample == (I2cOp::Read { addr, reg: 0x04, len: 6 })
        }),
{
    baro::requests_name_their_registers(dev, reset, 0);
}

/// The magnetometer's requests, register by register.
pub proof fn mag_requests(
    dev: Mag,
    id: I2cOp,
    reset: I2cOp,
    status: I2cOp,
    cfg: I2cOp,
    reset_look: I2cOp,
    sample: Vec<I2cOp>,
)
    requires
        call_ensures(Mag::who_am_i, (&dev,), id),
        call_ensures(Mag::soft_reset, (&dev,), reset),
        call_ensures(Mag::status, (&dev,), status),
        call_ensures(Mag::cfg_query, (&dev,), cfg),
        call_ensures(Mag::reset_query, (&dev,), reset_look),
        call_ensures(Mag::sample_queries, (&dev,), sample),
    ensures
        ({
            let addr = dev.regs.addr;
            &&& id == (I2cOp::Read { addr, reg: 0x4F, len: 1 })
            &&& reset == (I2cOp::Write { addr, reg: 0x60, val: 0x20 })
            &&& status == (I2cOp::Read { addr, reg: 0x67, len: 1 })
            &&& cfg == (I2cOp::Read { addr, reg: 0x60, len: 3 })
            &&& reset_look == (I2cOp::Read { addr, reg: 0x60, len: 1 })
            &&& sample@ == seq![
                I2cOp::Read { addr, reg: 0x68, len: 6 },
                I2cOp::Read { addr, reg: 0x6E, len: 2 },
            ]
        }),
{
    mag::requests_name_their_registers(dev, reset, 0);
}

/// Configuring the magnetometer: block data update, offset cancellation, then temperature
/// compensation with the rate in bits 3 and 2 and continuous mode; asking for continuous mode again
/// is that last write.
pub proof fn mag_configure_writes(dev: Mag, odr: MagOdr, ops: Vec<I2cOp>, again: I2cOp)
    requires
        call_ensures(Mag::configure, (&dev, odr), ops),
        call_ensures(Mag::start_continuous, (&dev, odr), again),
    ensures
        ({
            let addr = dev.regs.addr;
            let mode: u8 = match odr {
                MagOdr::Hz10 => 0x80,
                MagOdr::Hz20 => 0x84,
                MagOdr::Hz50 => 0x88,
                MagOdr::Hz100 => 0x8C,
            };
            &&& again == (I2cOp::Write { addr, reg: 0x60, val: mode })
            &&& ops@ == seq![
                I2cOp::Write { addr, reg: 0x62, val: 0x10 },
                I2cOp::Write { addr, reg: 0x61, val: 0x02 },
                again,
            ]
        }),
{
}

/// The magnetometer's registers, bit by bit.
pub proof fn mag_register_bits(v: u8, b: [u8; 3], cfg: (u8, u8, u8), reset: bool, on: bool, new: bool)
    requires
        call_ensures(Mag::reset_complete, (v,), reset),
        call_ensures(Mag::read_cfg, (&b,), cfg),
        call_ensures(Mag::is_continuous, (cfg,), on),
        call_ensures(Mag::data_ready, (v,), new),
    ensures
        reset <==> v & 0x20 == 0,
        cfg.0 == b[0] && cfg.1 == b[1] && cfg.2 == b[2],
        on <==> b[0] & 0x03 == 0,
        new <==> v & 0x08 != 0,
{
    mag::register_bits_decide(v);
    mag::register_bits_decide(b[0]);
}

/// Which identities each driver works with.
pub proof fn accepted_identities(id: u8, imu_ok: bool, baro_ok: bool, mag_ok: bool)
    requires
        call_ensures(Imu::id_matches, (id,), imu_ok),
        call_ensures(Baro::id_matches, (id,), baro_ok),
        call_ensures(Mag::id_matches, (id,), mag_ok),
    ensures
        imu_ok <==> id == 0x56,
        baro_ok <==> id == 0x50 || id == 0x60,
        mag_ok <==> id == 0x40,
{
}

/// The IMU's requests, byte by byte: each stands between select and deselect, and a read has the
/// highest bit of its address set.
pub proof fn imu_requests(
    dev: Imu,
    id: Vec<SpiOp>,
    reset: Vec<SpiOp>,
    clear: Vec<SpiOp>,
    sample: Vec<SpiOp>,
)
    requires
        call_ensures(Imu::who_am_i, (&dev,), id),
        call_ensures(Imu::soft_reset, (&dev,), reset),
        call_ensures(Imu::clear_interrupt, (&dev,), clear),
        call_ensures(Imu::sample_query, (&dev,), sample),
    ensures
        id@ == seq![SpiOp::Select, SpiOp::Transfer { command: 0xF5, len: 2 }, SpiOp::Deselect],
        reset@ == seq![SpiOp::Select, SpiOp::Write { reg: 0x11, val: 0x01 }, SpiOp::Deselect],
        clear@ == seq![SpiOp::Select, SpiOp::Transfer { command: 0xAD, len: 2 }, SpiOp::Deselect],
        sample@ == seq![SpiOp::Select, SpiOp::Transfer { command: 0x9D, len: 15 }, SpiOp::Deselect],
{
    imu::requests_name_their_registers(dev, reset, 0);
}

/// Configuring the IMU for a control loop: eight register writes, each between select and deselect,
/// the power last.
pub proof fn imu_configure_writes(dev: Imu, odr: ImuOdr, ops: Vec<SpiOp>, hz: u32, i: int)
    requires
        call_ensures(Imu::configure_control_mode, (&dev, odr), ops),
        call_ensures(ImuOdr::hz, (odr,), hz),
        0 <= i < 8,
    ensures
        ({
            let (cfg, rate): (u8, int) = match odr {
                ImuOdr::Hz200 => (0x27, 200),
                ImuOdr::Hz500 => (0x2F, 500),
                ImuOdr::Hz1000 => (0x26, 1000),
            };
            let writes: Seq<(u8, u8)> = seq![
                (0x76, 0x00),
                (0x50, cfg),
                (0x4F, cfg),
                (0x52, 0x11),
                (0x14, 0x07),
                (0x64, 0x00),
                (0x65, 0x08),
                (0x4E, 0x0F),
            ];
            &&& hz == rate
            &&& ops@.len() == 24
            &&& ops@[3 * i] == SpiOp::Select
            &&& ops@[3 * i + 1] == (SpiOp::Write { reg: writes[i].0, val: writes[i].1 })
            &&& ops@[3 * i + 2] == SpiOp::Deselect
        }),
{
    imu::lemma_control_mode_unfolds(odr);
}

/// Whether a line opens with a time stamp in brackets: spaces, then digits that stand for it, in
/// eight columns or as many as it takes, then the closing bracket and a space.
pub open spec fn opens_with_time(line: Seq<char>, t_ms: int) -> bool {
    exists|k: int, e: int|
        {
            &&& 1 <= k < e && e + 1 < line.len() && e >= 9 && (k > 1 ==> e == 9)
            &&& line[0] == '[' && line[e] == ']' && line[e + 1] == ' '
            &&& forall|i: int| 1 <= i < k ==> #[trigger] line[i] == ' '
            &&& forall|i: int| k <= i < e ==> '0' <= #[trigger] line[i] && line[i] <= '9'
            &&& text::decimal_value(#[trigger] line.subrange(k, e)) == t_ms
        }
}

/// The line for a frame, rendered or printed: it opens with the time stamp, in brackets, behind
/// spaces up to eight columns, and the time stamp comes back from its digits.
#[verifier::rlimit(50)]
pub proof fn lines_give_the_time_back(
    f: Frame,
    figs: Vec<String>,
    words: &str,
    rendered: String,
    printed: String,
)
    requires
        call_ensures(render_frame, (&f, &figs, words), rendered),
        call_ensures(print_frame, (&f,), printed),
    ensures
        opens_with_time(rendered@, f.t_ms as int),
        opens_with_time(printed@, f.t_ms as int),
{
    telem::line_gives_the_time_back(f, text::texts(figs@), words@);
    telem::line_gives_the_time_back(f, telem::figures_in(f.msg), telem::words_in(f.msg));
}

/// Frames with different time stamps are printed as different lines.
pub proof fn printed_lines_tell_times_apart(f: Frame, g: Frame, a: String, b: String)
    requires
        call_ensures(print_frame, (&f,), a),
        call_ensures(print_frame, (&g,), b),
        f.t_ms != g.t_ms,
    ensures
        a@ != b@,
{
    telem::lines_tell_times_apart(f, g, Seq::empty(), Seq::empty(), Seq::empty(), Seq::empty());
}

/// Heartbeats with different counters are printed as different lines.
pub proof fn printed_ticks_tell_counters_apart(t_ms: u32, m: u32, n: u32, a: String, b: String)
    requires
        call_ensures(print_frame, (&wire::stamped(t_ms, Msg::Tick(m)),), a),
        call_ensures(print_frame, (&wire::stamped(t_ms, Msg::Tick(n)),), b),
        m != n,
    ensures
        a@ != b@,
{
    let start = "["@ + text::right_aligned(t_ms as nat, 8) + "] "@;
    let (x, y) = ("tick "@ + text::decimal(m as nat), "tick "@ + text::decimal(n as nat));
    if a@ == b@ {
        let k = start.len() as int;
        assert(a@.skip(k) =~= x);
        assert(b@.skip(k) =~= y);
        assert(x.skip("tick "@.len() as int) =~= text::decimal(m as nat));
        assert(y.skip("tick "@.len() as int) =~= text::decimal(n as nat));
        text::decimal_tells_numbers_apart(m as nat, n as nat);
    }
}

/// The port that is found: none exactly where there is none; a USB port wherever there is one, the
/// first of them; otherwise the first port.
pub proof fn the_first_usb_port_is_found(ports: Vec<PortInfo>, r: Option<String>)
    requires
        call_ensures(detect_port, (&ports,), r),
    ensures
        r is None <==> ports@.len() == 0,
        r is Some ==> exists|i: int|
            {
                &&& 0 <= i < ports@.len()
                &&& r->0@ == (#[trigger] ports@[i]).name@
                &&& forall|k: int| 0 <= k < i ==> !(#[trigger] ports@[k]).usb
                &&& ports@[i].usb || (i == 0 && forall|k: int|
                    0 <= k < ports@.len() ==> !(#[trigger] ports@[k]).usb)
            },
{
    if ports@.len() > 0 {
        telem::a_usb_port_is_preferred(ports@);
        let i = telem::chosen_port(ports@);
        assert(r->0@ == ports@[i].name@);
    }
}

/// A padded field as text: what stands before the first zero.
pub proof fn padded_text_ends_at_the_first_zero(b: &[u8], s: String)
    requires
        call_ensures(nul_trimmed, (b,), s),
    ensures
        exists|k: int|
            {
                &&& 0 <= k <= b@.len()
                &&& s@ == telem::lossy(#[trigger] b@.take(k))
                &&& valid_utf8(b@.take(k)) ==> s@ == decode_utf8(b@.take(k))
                &&& forall|i: int| 0 <= i < k ==> #[trigger] b@[i] != 0
                &&& k < b@.len() ==> b@[k] == 0
            },
{
    telem::text_ends_at_the_first_zero(b@);
    let t = telem::before_nul(b@);
    let k = t.len() as int;
    assert(b@.take(k) =~= t);
    assert forall|i: int| 0 <= i < k implies #[trigger] b@[i] != 0 by {
        assert(t[i] == b@.subrange(0, k)[i]);
        assert(t[i] != 0);
    }
}

/// Numbers as text: decimal digits that give the number back, the same behind spaces, and two
/// hexadecimal digits.
pub proof fn numbers_come_back_from_text(
    n: u64,
    width: usize,
    b: u8,
    d: String,
    a: String,
    h: String,
)
    requires
        call_ensures(decimal_text, (n,), d),
        call_ensures(aligned_text, (n, width), a),
        call_ensures(hex_text, (b,), h),
    ensures
        text::decimal_value(d@) == n,
        forall|i: int| 0 <= i < d@.len() ==> '0' <= #[trigger] d@[i] && d@[i] <= '9',
        d@[0] == '0' ==> n == 0,
        a@.len() >= width && a@.len() >= d@.len(),
        a@.skip(a@.len() - d@.len()) == d@,
        forall|i: int| 0 <= i < a@.len() - d@.len() ==> #[trigger] a@[i] == ' ',
        a@.len() > width ==> a@.len() == d@.len(),
        h@.len() == 2,
        ({
            let value = |c: char|
                if c <= '9' {
                    c as int - 48
                } else {
                    c as int - 87
                };
            16 * value(h@[0]) + value(h@[1]) == b
        }),
{
    text::decimal_reads_back(n as nat);
    text::decimal_is_digits(n as nat);
    text::right_aligned_fills_the_width(n as nat, width as nat);
    text::alignment_is_by_spaces(n as nat, width as nat);
    text::hex_reads_back(b);
}

/// The hash for a build: "unknown" where nothing was printed, or nothing but white space; otherwise
/// the first characters, seven at most, of what was printed without the white space at its ends.
pub proof fn build_hash_is_the_beginning(shown: Option<&str>, s: String, hash: &str, cut: String)
    requires
        call_ensures(git_hash, (shown,), s),
        call_ensures(short_hash, (hash,), cut),
    ensures
        1 <= s@.len() <= 7,
        shown is None ==> s@ == "unknown"@,
        shown is Some && trimmed(shown->0@).len() == 0 ==> s@ == "unknown"@,
        shown is Some && trimmed(shown->0@).len() > 0 ==> s@.is_prefix_of(trimmed(shown->0@)),
        shown is Some && 0 < trimmed(shown->0@).len() <= 7 ==> s@ == trimmed(shown->0@),
        hash@.len() == 0 ==> cut@ == "unknown"@,
        hash@.len() > 0 ==> cut@.is_prefix_of(hash@) && (cut@.len() == 7 || cut@ == hash@),
{
    reveal_strlit("unknown");
    if shown is Some {
        short_hash_is_the_beginning(trimmed(shown->0@));
    }
    short_hash_is_the_beginning(hash@);
}

/// The commit hash in the greeting: its first eight bytes, with zeros behind it.
pub proof fn commit_hash_is_padded(hash: &str, out: [u8; 8], m: Msg, i: int)
    requires
        call_ensures(fw_git, (hash,), out),
        call_ensures(hello_msg, (hash,), m),
        0 <= i < 8,
    ensures
        i < encode_utf8(hash@).len() ==> out[i] == encode_utf8(hash@)[i],
        i >= encode_utf8(hash@).len() ==> out[i] == 0,
        m is Hello,
        m->Hello_0.proto == 2,
        m->Hello_0.board == Board::ArkDiscovery,
        m->Hello_0.fw_git[i] == out[i],
{
    telemetry::greeting_holds_protocol_board_and_hash(m, hash@, i);
}

/// A status message: its level, and the longest beginning of its text that takes 48 bytes at most,
/// with zeros behind it.
pub proof fn status_is_cut_and_padded(level: Level, line: &str, m: Msg)
    requires
        call_ensures(status_msg, (level, line), m),
    ensures
        m is Status,
        m->Status_0.level == level,
        exists|k: int|
            {
                &&& 0 <= k <= line@.len()
                &&& encode_utf8(#[trigger] line@.take(k)).len() <= 48
                &&& encode_utf8(line@).len() <= 48 ==> k == line@.len()
                &&& forall|j: int|
                    k < j <= line@.len() ==> #[trigger] encode_utf8(line@.take(j)).len() > 48
                &&& forall|i: int|
                    0 <= i < 48 ==> #[trigger] m->Status_0.text@[i] == (if i < encode_utf8(
                        line@.take(k),
                    ).len() {
                        encode_utf8(line@.take(k))[i]
                    } else {
                        0u8
                    })
            },
{
    telemetry::status_holds_level_and_text(m, level, line@);
}

/// The modes: what is asked for is told, a flip changes the diagnostic mode alone and tells the new
/// one, and choosing the output changes the output alone.
pub proof fn mode_calls(
    m: Modes,
    diag: bool,
    binary: bool,
    flipped: &mut Modes,
    told: bool,
    set: &mut Modes,
    on: bool,
    closed: &mut Modes,
    start: Modes,
)
    requires
        call_ensures(diag_enabled, (&m,), diag),
        call_ensures(output_is_binary, (&m,), binary),
        call_ensures(toggle_diag, (flipped,), told),
        call_ensures(set_output_binary, (set, on), ()),
        call_ensures(port_closed, (closed,), ()),
        call_ensures(Modes::new, (), start),
    ensures
        diag == m.diag,
        binary == m.binary,
        final(flipped).diag == !old(flipped).diag && told == final(flipped).diag,
        final(flipped).binary == old(flipped).binary,
        final(set).binary == on && final(set).diag == old(set).diag,
        !final(closed).binary && final(closed).diag == old(closed).diag,
        !start.diag && !start.binary,
{
}

/// Raw bytes, lines and packets go to the end of the transmit queue, behind what is there already.
pub proof fn output_is_appended(
    raw: &mut Vec<u8>,
    bytes: &[u8],
    lines: &mut Vec<u8>,
    line: &str,
    packets: &mut Vec<u8>,
    t_ms: u32,
    msg: Msg,
    encoded: Option<Vec<u8>>,
)
    requires
        call_ensures(write_serial, (raw, bytes), ()),
        call_ensures(log_fmt, (lines, line), ()),
        call_ensures(write_frame, (packets, t_ms, msg), ()),
        call_ensures(encode_frame, (t_ms, msg), encoded),
    ensures
        final(raw)@ == old(raw)@ + bytes@,
        encode_utf8(line@).len() <= 192 ==> final(lines)@ == old(lines)@ + encode_utf8(line@),
        exists|k: int|
            {
                &&& 0 <= k <= line@.len()
                &&& final(lines)@ == old(lines)@ + encode_utf8(#[trigger] line@.take(k))
                &&& encode_utf8(line@.take(k)).len() <= 192
                &&& forall|j: int|
                    k < j <= line@.len() ==> #[trigger] encode_utf8(line@.take(j)).len() > 192
            },
        encoded is Some,
        final(packets)@ == old(packets)@ + encoded->0@,
        wire::frame_in(encoded->0@) == Some(wire::stamped(t_ms, msg)),
        encoded->0@.last() == 0,
{
    telemetry::lines_go_out_up_to_the_cap(line@);
}

/// A notice: in binary mode the packet of its status, in text mode the line with a line end.
pub proof fn notice_is_appended(
    serial: &mut Vec<u8>,
    modes: Modes,
    t_ms: u32,
    level: Level,
    line: &str,
    status: Msg,
)
    requires
        call_ensures(emit_line, (serial, &modes, t_ms, level, line), ()),
        call_ensures(status_msg, (level, line), status),
    ensures
        modes.binary ==> final(serial)@ == old(serial)@ + wire::wire_bytes(t_ms, status),
        !modes.binary && encode_utf8(line@ + "\r\n"@).len() <= 192 ==> final(serial)@
            == old(serial)@ + encode_utf8(line@ + "\r\n"@),
{
    telemetry::lines_go_out_up_to_the_cap(line@ + "\r\n"@);
}

/// An IMU sample in binary mode: its packet, and before that of the hundredth sample a status that
/// names the chip. In text mode: one line with the sample's number, both identities and all seven
/// figures.
#[verifier::rlimit(50)]
pub proof fn imu_sample_is_appended(
    serial: &mut Vec<u8>,
    modes: Modes,
    t_ms: u32,
    n: u32,
    id: u8,
    exp: u8,
    s: WireImu,
    named: &str,
    status: Msg,
    number: String,
    id_hex: String,
    exp_hex: String,
)
    requires
        call_ensures(log_imu, (serial, &modes, t_ms, n, id, exp, &s), ()),
        call_ensures(decimal_text, (n as u64,), number),
        call_ensures(hex_text, (id,), id_hex),
        call_ensures(hex_text, (exp,), exp_hex),
        named@ == "imu id=0x"@ + id_hex@ + " (exp "@ + exp_hex@ + ")"@,
        call_ensures(status_msg, (Level::Info, named), status),
    ensures
        modes.binary && n != 100 ==> final(serial)@ == old(serial)@ + wire::wire_bytes(
            t_ms,
            Msg::Imu(s),
        ),
        modes.binary && n == 100 ==> final(serial)@ == old(serial)@ + wire::wire_bytes(t_ms, status)
            + wire::wire_bytes(t_ms, Msg::Imu(s)),
        ({
            let line = "imu["@ + number@ + "] id=0x"@ + id_hex@ + "(exp "@ + exp_hex@ + ") "@ + (
            "accel[g]="@ + imu_number(s, 0, 2) + ","@ + imu_number(s, 1, 2) + ","@ + imu_number(
                s,
                2,
                2,
            ) + " gyro[dps]="@ + imu_number(s, 3, 1) + ","@ + imu_number(s, 4, 1) + ","@
                + imu_number(s, 5, 1) + " temp="@ + imu_number(s, 6, 1) + "C"@) + "\r\n"@;
            !modes.binary && encode_utf8(line).len() <= 192 ==> final(serial)@ == old(serial)@
                + encode_utf8(line)
        }),
{
    let line = telemetry::imu_line(n, id, exp, figures::imu_figures(s));
    telemetry::lines_go_out_up_to_the_cap(line);
    let sent = telemetry::imu_sent(modes, t_ms, n, id, exp, s);
    if modes.binary {
        assert(Seq::<u8>::empty() + wire::wire_bytes(t_ms, Msg::Imu(s)) =~= wire::wire_bytes(
            t_ms,
            Msg::Imu(s),
        ));
        assert(old(serial)@ + (wire::wire_bytes(t_ms, status) + wire::wire_bytes(
            t_ms,
            Msg::Imu(s),
        )) =~= old(serial)@ + wire::wire_bytes(t_ms, status) + wire::wire_bytes(
            t_ms,
            Msg::Imu(s),
        ));
    }
}

/// The other samples: in binary mode the packet, in text mode the line with the payload's figures.
#[verifier::rlimit(50)]
pub proof fn other_samples_are_appended(
    sb: &mut Vec<u8>,
    sm: &mut Vec<u8>,
    sf: &mut Vec<u8>,
    modes: Modes,
    t_ms: u32,
    b: WireBaro,
    m: WireMag,
    f: WireFused,
)
    requires
        call_ensures(log_baro, (sb, &modes, t_ms, &b), ()),
        call_ensures(log_mag, (sm, &modes, t_ms, &m), ()),
        call_ensures(log_fused, (sf, &modes, t_ms, &f), ()),
    ensures
        modes.binary ==> final(sb)@ == old(sb)@ + wire::wire_bytes(t_ms, Msg::Baro(b)),
        modes.binary ==> final(sm)@ == old(sm)@ + wire::wire_bytes(t_ms, Msg::Mag(m)),
        modes.binary ==> final(sf)@ == old(sf)@ + wire::wire_bytes(t_ms, Msg::Fused(f)),
        ({
            let line = "baro press="@ + baro_number(b, 0, 2) + "hPa temp="@ + baro_number(b, 1, 2)
                + "C"@ + "\r\n"@;
            !modes.binary && encode_utf8(line).len() <= 192 ==> final(sb)@ == old(sb)@
                + encode_utf8(line)
        }),
        ({
            let line = "mag field[uT]="@ + mag_number(m, 0, 1) + ","@ + mag_number(m, 1, 1) + ","@
                + mag_number(m, 2, 1) + " temp="@ + mag_number(m, 3, 1) + "C"@ + "\r\n"@;
            !modes.binary && encode_utf8(line).len() <= 192 ==> final(sm)@ == old(sm)@
                + encode_utf8(line)
        }),
        ({
            let line = "fus roll="@ + fused_number(f, 0, 1) + " pitch="@ + fused_number(f, 1, 1)
                + " yaw="@ + fused_number(f, 2, 1) + "deg alt="@ + fused_number(f, 3, 2) + "m vz="@
                + fused_number(f, 4, 2) + "m/s"@ + "\r\n"@;
            !modes.binary && encode_utf8(line).len() <= 192 ==> final(sf)@ == old(sf)@
                + encode_utf8(line)
        }),
{
    let end = "\r\n"@;
    telemetry::lines_go_out_up_to_the_cap(
        figures::baro_phrase(figures::baro_figures(b)) + end,
    );
    telemetry::lines_go_out_up_to_the_cap(
        figures::mag_phrase(figures::mag_figures(m)) + end,
    );
    telemetry::lines_go_out_up_to_the_cap(
        figures::fused_phrase(figures::fused_figures(f)) + end,
    );
}

/// The boot flag: a request writes 0xB0070DF1; a start jumps exactly where it finds that, and then
/// leaves zero, and any other value as it was.
pub proof fn boot_flag_calls(asked: &mut u32, found: &mut u32, enter: bool)
    requires
        call_ensures(reboot_to_bootloader, (asked,), ()),
        call_ensures(maybe_enter_bootloader, (found,), enter),
    ensures
        *final(asked) == 0xB007_0DF1,
        enter <==> *old(found) == 0xB007_0DF1,
        enter ==> *final(found) == 0,
        !enter ==> *final(found) == *old(found),
{
}

/// Bytes from the serial link. The letter `r` anywhere asks for a reboot, and then nothing else
/// happens. A single other byte does what its command says: `b`, `t` and `d`, or nothing.
#[verifier::rlimit(50)]
pub proof fn serial_commands(
    serial: &mut Vec<u8>,
    modes: &mut Modes,
    t_ms: u32,
    hash: &str,
    bytes: &[u8],
    reboot: bool,
    hello: Msg,
)
    requires
        call_ensures(usb_irq, (serial, modes, t_ms, hash, bytes), reboot),
        call_ensures(hello_msg, (hash,), hello),
    ensures
        reboot <==> exists|i: int| 0 <= i < bytes@.len() && #[trigger] bytes@[i] == 114,
        reboot ==> final(serial)@ == old(serial)@ && *final(modes) == *old(modes),
        bytes@.len() == 0 ==> final(serial)@ == old(serial)@ && *final(modes) == *old(modes),
        bytes@.len() == 1 ==> {
            let c = bytes@[0];
            let now = if old(modes).diag {
                "diag off"@
            } else {
                "diag on"@
            };
            &&& c == 98 ==> {
                &&& final(modes).binary && final(modes).diag == old(modes).diag
                &&& final(serial)@ == old(serial)@ + (seq![0u8] + wire::wire_bytes(t_ms, hello))
            }
            &&& c == 116 ==> {
                &&& !final(modes).binary && final(modes).diag == old(modes).diag
                &&& final(serial)@ == old(serial)@ + encode_utf8("text mode"@ + "\r\n"@)
            }
            &&& c == 100 ==> {
                &&& final(modes).binary == old(modes).binary && final(modes).diag
                    == !old(modes).diag
                &&& old(modes).binary ==> final(serial)@ == old(serial)@ + wire::wire_bytes(
                    t_ms,
                    telemetry::status_of(Level::Info, now),
                ) && telemetry::is_status(
                    telemetry::status_of(Level::Info, now),
                    Level::Info,
                    now,
                )
                &&& !old(modes).binary ==> final(serial)@ == old(serial)@ + encode_utf8(
                    now + "\r\n"@,
                )
            }
            &&& c != 98 && c != 116 && c != 100 ==> final(serial)@ == old(serial)@ && *final(modes)
                == *old(modes)
        },
{
    firmware::reboot_is_the_letter_r(bytes@);
    let m = *old(modes);
    if bytes@.len() == 0 {
        assert(bytes@ =~= Seq::<u8>::empty());
        assert(old(serial)@ + Seq::<u8>::empty() =~= old(serial)@);
    }
    if bytes@.len() == 1 {
        let c = bytes@[0];
        assert(bytes@ =~= seq![c]);
        assert(bytes@.take(0) =~= Seq::<u8>::empty());
        firmware::commands_byte_by_byte(m, t_ms, hash@, c);
        firmware::commands_are_obeyed_in_turn(m, t_ms, hash@, Seq::empty(), Seq::empty(), c);
        if c != 98 && c != 116 && c != 100 {
            assert(old(serial)@ + firmware::obeyed(m, t_ms, hash@, c).1 =~= old(serial)@);
        }
        if !reboot {
            assert(firmware::answer_travels(m, t_ms, hash@, c));
        }
    }
}

/// Several bytes without a reboot among them do what they do one part after the other, with the
/// modes that the first part led to.
#[verifier::spinoff_prover]
#[verifier::rlimit(50)]
pub proof fn serial_commands_in_turn(
    s: &mut Vec<u8>,
    s1: &mut Vec<u8>,
    s2: &mut Vec<u8>,
    m: &mut Modes,
    m1: &mut Modes,
    m2: &mut Modes,
    t_ms: u32,
    hash: &str,
    all: &[u8],
    first: &[u8],
    second: &[u8],
    r1: bool,
    r2: bool,
)
    requires
        all@ == first@ + second@,
        call_ensures(usb_irq, (s, m, t_ms, hash, all), false),
        call_ensures(usb_irq, (s1, m1, t_ms, hash, first), r1),
        call_ensures(usb_irq, (s2, m2, t_ms, hash, second), r2),
        *old(m) == *old(m1),
        *old(m2) == *final(m1),
        old(s)@ == old(s1)@,
        old(s2)@ == final(s1)@,
    ensures
        *final(m) == *final(m2),
        final(s)@ == final(s2)@,
{
    firmware::reboot_in_either_part(first@, second@);
    firmware::commands_are_obeyed_in_turn(*old(m), t_ms, hash@, first@, second@, 0);
    let a = firmware::obeyed_all(*old(m), t_ms, hash@, first@);
    let b = firmware::obeyed_all(a.0, t_ms, hash@, second@);
    assert(old(s)@ + (a.1 + b.1) =~= old(s)@ + a.1 + b.1);
}

/// Following the port: text comes back exactly where it was open and is not any more.
pub proof fn port_calls(modes: &mut Modes, was_open: bool, dtr: bool, open: bool)
    requires
        call_ensures(watch_port, (modes, was_open, dtr), open),
    ensures
        open == dtr,
        final(modes).diag == old(modes).diag,
        final(modes).binary <==> old(modes).binary && !(was_open && !dtr),
{
}

/// A beat: the counter that was, in its packet or its line, and the light that was next; then the
/// counter and the lights move on. The pins light that light alone.
#[verifier::rlimit(50)]
pub proof fn beat_calls(
    h: &mut Heartbeat,
    serial: &mut Vec<u8>,
    modes: Modes,
    t_ms: u32,
    lit: Led,
    number: String,
    pins: [bool; 3],
    dark: [bool; 3],
    start: Heartbeat,
)
    requires
        call_ensures(Heartbeat::log_tick, (h, serial, &modes, t_ms), lit),
        call_ensures(decimal_text, (old(h).counter as u64,), number),
        call_ensures(led_pins, (Some(lit),), pins),
        call_ensures(led_pins, (None::<Led>,), dark),
        call_ensures(Heartbeat::new, (), start),
    ensures
        start.counter == 0 && start.led == Led::Red,
        lit == old(h).led,
        final(h).counter == (if old(h).counter == 0xFFFF_FFFF {
            0int
        } else {
            old(h).counter + 1
        }),
        final(h).led == (match lit {
            Led::Red => Led::Green,
            Led::Green => Led::Blue,
            Led::Blue => Led::Red,
        }),
        modes.binary ==> final(serial)@ == old(serial)@ + wire::wire_bytes(
            t_ms,
            Msg::Tick(old(h).counter),
        ),
        !modes.binary ==> final(serial)@ == old(serial)@ + encode_utf8(
            "hello from RTIC on STM32H743, tick "@ + number@ + "\r\n"@,
        ),
        pins[0] == (lit != Led::Red) && pins[1] == (lit != Led::Green) && pins[2] == (lit
            != Led::Blue),
        dark[0] && dark[1] && dark[2],
{
    firmware::tick_line_is_sent_whole(old(h).counter);
    firmware::one_low_pin_per_light(pins, Some(lit));
    firmware::one_low_pin_per_light(dark, None);
}

/// Counting a sample in adds each of its components to the sums and one to the count, and touches
/// nothing else.
pub proof fn accumulate_adds_the_sample<P>(st: &mut SensorState<P>, s: ImuSample, i: int)
    requires
        call_ensures(SensorState::<P>::accumulate, (st, &s), ()),
        0 <= i < 3,
    ensures
        final(st).n == old(st).n + 1,
        final(st).accel_sum[i] == old(st).accel_sum[i] + s.accel[i],
        final(st).gyro_sum[i] == old(st).gyro_sum[i] + s.gyro[i],
        final(st).temp_sum == old(st).temp_sum + s.temp,
        final(st).mag == old(st).mag,
        final(st).pressure == old(st).pressure,
{
}

/// Draining hands out the sums and the count and starts over from zero; where nothing was counted it
/// hands out nothing and changes nothing.
pub proof fn drain_hands_out_and_starts_over<P>(st: &mut SensorState<P>, r: Option<ImuMean>, i: int)
    requires
        call_ensures(SensorState::<P>::drain_imu, (st,), r),
        0 <= i < 3,
    ensures
        r is Some <==> old(st).n > 0,
        r is Some ==> r->0.n == old(st).n && r->0.temp_sum == old(st).temp_sum,
        r is Some ==> r->0.accel_sum[i] == old(st).accel_sum[i],
        r is Some ==> r->0.gyro_sum[i] == old(st).gyro_sum[i],
        r is Some ==> final(st).n == 0 && final(st).temp_sum == 0,
        r is Some ==> final(st).accel_sum[i] == 0 && final(st).gyro_sum[i] == 0,
        r is None ==> *final(st) == *old(st),
        final(st).mag == old(st).mag,
        final(st).pressure == old(st).pressure,
{
    assert(fusion::accel_total(Seq::empty(), i) == 0);
    assert(fusion::gyro_total(Seq::empty(), i) == 0);
}

/// The latest magnetometer sample and the latest pressure are kept until they are taken, once; the
/// IMU's sums are not touched.
pub proof fn latest_inputs_are_taken_once<P>(
    sm: &mut SensorState<P>,
    m: MagSample,
    sp: &mut SensorState<P>,
    p: P,
    tm: &mut SensorState<P>,
    got_m: Option<MagSample>,
    tp: &mut SensorState<P>,
    got_p: Option<P>,
)
    requires
        call_ensures(SensorState::<P>::set_mag, (sm, m), ()),
        call_ensures(SensorState::<P>::set_pressure, (sp, p), ()),
        call_ensures(SensorState::<P>::take_mag, (tm,), got_m),
        call_ensures(SensorState::<P>::take_pressure, (tp,), got_p),
    ensures
        final(sm).mag == Some(m) && final(sm).pressure == old(sm).pressure,
        final(sp).pressure == Some(p) && final(sp).mag == old(sp).mag,
        got_m == old(tm).mag && final(tm).mag is None && final(tm).pressure == old(tm).pressure,
        got_p == old(tp).pressure && final(tp).pressure is None && final(tp).mag == old(tp).mag,
        final(sm).n == old(sm).n && final(sm).accel_sum == old(sm).accel_sum && final(sm).gyro_sum
            == old(sm).gyro_sum,
        final(sp).n == old(sp).n && final(sp).accel_sum == old(sp).accel_sum && final(sp).gyro_sum
            == old(sp).gyro_sum,
{
}

/// A fusion step: every vector keeps its X component and changes the sign of the others; the field
/// is there exactly where the magnetometer takes part and has delivered; a fresh pressure is used
/// and held, an old one used again, and only the first of all starts the altitude estimator.
pub proof fn update_turns_and_holds<P: Copy>(
    f: &mut Fusion<P>,
    imu: ImuMean,
    mag: Option<MagSample>,
    pressure: Option<P>,
    step: FusionStep<P>,
    start: Fusion<P>,
    use_mag: bool,
)
    requires
        call_ensures(Fusion::<P>::update, (f, &imu, mag, pressure), step),
        call_ensures(Fusion::<P>::new, (use_mag,), start),
    ensures
        start.use_mag == use_mag && start.held is None,
        step.n == imu.n,
        step.gyro_sum[0] == imu.gyro_sum[0],
        step.gyro_sum[1] + imu.gyro_sum[1] == 0,
        step.gyro_sum[2] + imu.gyro_sum[2] == 0,
        step.accel_sum[0] == imu.accel_sum[0],
        step.accel_sum[1] + imu.accel_sum[1] == 0,
        step.accel_sum[2] + imu.accel_sum[2] == 0,
        step.field_nt is Some <==> old(f).use_mag && mag is Some,
        step.field_nt is Some ==> step.field_nt->0[0] == mag->0.field_nt[0] && step.field_nt->0[1]
            + mag->0.field_nt[1] == 0 && step.field_nt->0[2] + mag->0.field_nt[2] == 0,
        pressure is Some ==> step.pressure == pressure && final(f).held == pressure,
        pressure is None ==> step.pressure == old(f).held && final(f).held == old(f).held,
        old(f).held is None ==> step.seed == pressure,
        old(f).held is Some ==> step.seed is None,
        final(f).use_mag == old(f).use_mag,
{
    fusion::every_sensor_is_turned_about_x(*old(f), imu, mag, pressure, step, *final(f));
    fusion::a_fresh_pressure_is_used_and_held(*old(f), imu, mag, pressure, step, *final(f));
}

/// What the host prints for a packet that was encoded: one line, which opens with the packet's time
/// stamp, and no notice of anything dropped. A fresh receiver holds nothing.
#[verifier::rlimit(50)]
pub proof fn an_encoded_frame_is_printed(
    t_ms: u32,
    msg: Msg,
    encoded: Option<Vec<u8>>,
    fresh: Receiver,
    receiver: &mut Receiver,
    bytes: &[u8],
    r: telem::Received,
    line: String,
)
    requires
        call_ensures(encode_frame, (t_ms, msg), encoded),
        call_ensures(Receiver::new, (), fresh),
        *old(receiver) == fresh,
        bytes@ == encoded->0@,
        call_ensures(receive, (receiver, bytes), r),
        call_ensures(print_frame, (&wire::stamped(t_ms, msg),), line),
    ensures
        r.lines@.len() == 1,
        r.lines@[0]@ == line@,
        r.notice is None,
        final(receiver).held().len() == 0,
{
    let p = wire::Packet { bytes: bytes@, frame: wire::stamped(t_ms, msg) };
    wire::one_packet_is_one_frame(p);
    let lines = text::texts(r.lines@);
    assert(lines.len() == 1);
    assert(lines[0] == r.lines@[0]@);
}

/// What stands behind the time stamp in a printed line, for every kind of message: its words, its
/// figures in the order of the payload's fields, and its text up to the first zero.
#[verifier::rlimit(50)]
pub proof fn printed_line_says_the_message(f: Frame, line: String)
    requires
        call_ensures(print_frame, (&f,), line),
    ensures
        ({
            let start = "["@ + text::right_aligned(f.t_ms as nat, 8) + "] "@;
            match f.msg {
                Msg::Hello(h) => line@ == start + ("HELLO proto="@ + text::decimal(h.proto as nat)
                    + " board="@ + (match h.board {
                    Board::ArkDiscovery => "ArkDiscovery"@,
                    Board::HolybroDiscovery => "HolybroDiscovery"@,
                    Board::Unknown => "Unknown"@,
                }) + " fw="@ + telem::lossy(telem::before_nul(h.fw_git@)) + (if h.proto == 2 {
                    ""@
                } else {
                    "  !! proto mismatch (host expects "@ + text::decimal(2) + ")"@
                })),
                Msg::Tick(n) => line@ == start + ("tick "@ + text::decimal(n as nat)),
                Msg::Imu(s) => line@ == start + ("imu "@ + ("accel[g]="@ + imu_number(s, 0, 2)
                    + ","@ + imu_number(s, 1, 2) + ","@ + imu_number(s, 2, 2) + " gyro[dps]="@
                    + imu_number(s, 3, 1) + ","@ + imu_number(s, 4, 1) + ","@ + imu_number(s, 5, 1)
                    + " temp="@ + imu_number(s, 6, 1) + "C"@)),
                Msg::Baro(s) => line@ == start + ("baro press="@ + baro_number(s, 0, 2)
                    + "hPa temp="@ + baro_number(s, 1, 2) + "C"@),
                Msg::Mag(s) => line@ == start + ("mag field[uT]="@ + mag_number(s, 0, 1) + ","@
                    + mag_number(s, 1, 1) + ","@ + mag_number(s, 2, 1) + " temp="@ + mag_number(
                    s,
                    3,
                    1,
                ) + "C"@),
                Msg::Fused(s) => line@ == start + ("fus roll="@ + fused_number(s, 0, 1)
                    + " pitch="@ + fused_number(s, 1, 1) + " yaw="@ + fused_number(s, 2, 1)
                    + "deg alt="@ + fused_number(s, 3, 2) + "m vz="@ + fused_number(s, 4, 2)
                    + "m/s"@ + " resid="@ + fused_number(s, 5, 2) + "m"@),
                Msg::Status(s) => line@ == start + ("["@ + (match s.level {
                    Level::Info => "INFO"@,
                    Level::Warn => "WARN"@,
                    Level::Error => "ERROR"@,
                }) + "] "@ + telem::lossy(telem::before_nul(s.text@))),
            }
        }),
{
}

/// A report has a line for each frame, in order, as the frame is printed alone, and a notice exactly
/// where something was dropped, which says how much.
pub proof fn report_has_every_frame(
    frames: Vec<Frame>,
    dropped: usize,
    r: telem::Received,
    i: int,
    line: String,
    count: String,
)
    requires
        call_ensures(report, (&frames, dropped), r),
        0 <= i < frames@.len(),
        call_ensures(print_frame, (&frames@[i],), line),
        call_ensures(decimal_text, (dropped as u64,), count),
    ensures
        r.lines@.len() == frames@.len(),
        r.lines@[i]@ == line@,
        r.notice is Some <==> dropped > 0,
        r.notice is Some ==> r.notice->0@ == "telem: dropped "@ + count@
            + " frame(s) (resync / version skew)"@,
{
    let lines = text::texts(r.lines@);
    assert(lines.len() == frames@.len());
    assert(lines[i] == r.lines@[i]@);
}

/// Register access: the transaction for the register asked for, at the device's address.
pub proof fn register_access(
    addr: u8,
    dev: I2cRegs,
    reg: u8,
    val: u8,
    len: usize,
    many: I2cOp,
    one: I2cOp,
    write: I2cOp,
    made: I2cRegs,
)
    requires
        call_ensures(I2cRegs::new, (addr,), made),
        call_ensures(I2cRegs::read_regs, (&dev, reg, len), many),
        call_ensures(I2cRegs::read_reg, (&dev, reg), one),
        call_ensures(I2cRegs::write_reg, (&dev, reg, val), write),
    ensures
        made.addr == addr,
        many == (I2cOp::Read { addr: dev.addr, reg, len }),
        one == (I2cOp::Read { addr: dev.addr, reg, len: 1 }),
        write == (I2cOp::Write { addr: dev.addr, reg, val }),
{
}

/// What a transaction puts on the bus: a write its register and value and nothing to read, a read
/// its register and as many bytes to read as it says.
pub proof fn transaction_bytes(op: I2cOp, a: u8, b: Vec<u8>, n: usize)
    requires
        call_ensures(I2cOp::addr, (&op,), a),
        call_ensures(I2cOp::bytes, (&op,), b),
        call_ensures(I2cOp::reply_len, (&op,), n),
    ensures
        match op {
            I2cOp::Write { addr, reg, val } => a == addr && b@ == seq![reg, val] && n == 0,
            I2cOp::Read { addr, reg, len } => a == addr && b@ == seq![reg] && n == len,
        },
{
}

/// The IMU's register access, byte by byte.
pub proof fn imu_register_access(
    dev: Imu,
    reg: u8,
    val: u8,
    len: usize,
    one: Vec<SpiOp>,
    burst: Vec<SpiOp>,
    write: Vec<SpiOp>,
    first: (Imu, SpiOp),
)
    requires
        call_ensures(Imu::read_reg, (&dev, reg), one),
        call_ensures(Imu::read_burst, (&dev, reg, len), burst),
        call_ensures(Imu::write_reg, (&dev, reg, val), write),
        call_ensures(Imu::new, (), first),
    ensures
        ({
            let command: u8 = if reg < 128 {
                (reg + 128) as u8
            } else {
                reg
            };
            &&& one@ == seq![SpiOp::Select, SpiOp::Transfer { command, len: 2 }, SpiOp::Deselect]
            &&& burst@ == seq![SpiOp::Select, SpiOp::Transfer { command, len }, SpiOp::Deselect]
        }),
        write@ == seq![SpiOp::Select, SpiOp::Write { reg, val }, SpiOp::Deselect],
        first.1 == SpiOp::Deselect,
{
}

/// The codes, counts and periods of rates and oversamplings.
pub proof fn rate_codes(
    odr: BaroOdr,
    osr: Oversampling,
    mag_odr: MagOdr,
    imu_odr: ImuOdr,
    code: u8,
    us: u32,
    bits: u8,
    n: u32,
    field: u8,
    imu_code: u8,
    config: BaroConfig,
)
    requires
        call_ensures(odr_reg, (odr,), code),
        call_ensures(BaroOdr::period_us, (odr,), us),
        call_ensures(osr_reg, (osr,), bits),
        call_ensures(Oversampling::factor, (osr,), n),
        call_ensures(MagOdr::reg, (mag_odr,), field),
        call_ensures(ImuOdr::reg, (imu_odr,), imu_code),
        call_ensures(crate::config::baro_config, (), config),
    ensures
        (code, us as int) == (match odr {
            BaroOdr::Hz200 => (0u8, 5_000int),
            BaroOdr::Hz100 => (1u8, 10_000int),
            BaroOdr::Hz50 => (2u8, 20_000int),
            BaroOdr::Hz25 => (3u8, 40_000int),
            BaroOdr::Hz12_5 => (4u8, 80_000int),
        }),
        (bits, n as int) == (match osr {
            Oversampling::X1 => (0u8, 1int),
            Oversampling::X2 => (1u8, 2int),
            Oversampling::X4 => (2u8, 4int),
            Oversampling::X8 => (3u8, 8int),
            Oversampling::X16 => (4u8, 16int),
            Oversampling::X32 => (5u8, 32int),
        }),
        field == (match mag_odr {
            MagOdr::Hz10 => 0int,
            MagOdr::Hz20 => 4int,
            MagOdr::Hz50 => 8int,
            MagOdr::Hz100 => 12int,
        }),
        imu_code == (match imu_odr {
            ImuOdr::Hz200 => 0x07int,
            ImuOdr::Hz500 => 0x0Fint,
            ImuOdr::Hz1000 => 0x06int,
        }),
        config.odr == BaroOdr::Hz25 && config.osr_p == Oversampling::X8 && config.osr_t
            == Oversampling::X1,
{
}

/// The first steps of both bring-ups: a reset, then a pause of two or of five milliseconds; what was
/// asked for is remembered.
pub proof fn bring_ups_begin_with_a_reset(
    m: Mag,
    odr: MagOdr,
    rm: (MagBringUp, Step<bool>),
    b: Baro,
    config: BaroConfig,
    rb: (BaroBringUp, Step<Result<(), ConfigError>>),
)
    requires
        call_ensures(Mag::bring_up, (&m, odr), rm),
        call_ensures(Baro::bring_up, (&b, config), rb),
    ensures
        rm.0.odr == odr && rm.0.phase == (MagPhase::ResetPause { polls: 0 }),
        rm.1.writes@ == seq![I2cOp::Write { addr: m.regs.addr, reg: 0x60, val: 0x20 }],
        rm.1.wait == Wait::<bool>::Delay(2),
        rb.0.config == config && rb.0.phase == BaroPhase::Settling,
        rb.1.writes@ == seq![I2cOp::Write { addr: b.regs.addr, reg: 0x7E, val: 0xB6 }],
        rb.1.wait == Wait::<Result<(), ConfigError>>::Delay(5),
{
    assert(rm.1@ == m.started(odr).1);
    assert(rb.1@ == b.started(config).1);
    assert(rm.1@.writes == rm.1.writes@);
    assert(rb.1@.writes == rb.1.writes@);
}

/// A step of the magnetometer's bring-up that looks for continuous mode: confirmed by a read that
/// came back with both mode bits clear, and by nothing else; otherwise the mode is asked for again,
/// and after the tenth look the bring-up has failed.
pub proof fn mag_look_confirms_or_asks_again(
    m: &mut Mag,
    odr: MagOdr,
    polls: u32,
    reply: &[u8],
    r: (MagBringUp, Step<bool>),
)
    requires
        call_ensures(
            Mag::resume,
            (m, MagBringUp { odr, phase: MagPhase::LatchLook { polls } }, reply),
            r,
        ),
    ensures
        ({
            let found = reply@.len() > 0 && reply@[0] & 0x03 == 0;
            let mode: u8 = match odr {
                MagOdr::Hz10 => 0x80,
                MagOdr::Hz20 => 0x84,
                MagOdr::Hz50 => 0x88,
                MagOdr::Hz100 => 0x8C,
            };
            let again = I2cOp::Write { addr: old(m).regs.addr, reg: 0x60, val: mode };
            &&& *final(m) == *old(m)
            &&& found ==> r.1.writes@.len() == 0 && r.1.wait == Wait::Done(true)
            &&& !found ==> r.1.writes@ == seq![again]
            &&& !found && polls == 9 ==> r.1.wait == Wait::Done(false)
            &&& !found && polls < 9 ==> r.1.wait == Wait::<bool>::Delay(10) && r.0.odr == odr
                && r.0.phase == (MagPhase::LatchPause { polls: (polls + 1) as u32 })
        }),
{
    if reply@.len() > 0 {
        mag::register_bits_decide(reply@[0]);
    }
    assert(r.1@.writes == r.1.writes@);
}

/// Emitting a packet from a task is writing it.
pub proof fn emitting_is_writing(
    a: &mut Vec<u8>,
    b: &mut Vec<u8>,
    t_ms: u32,
    msg: Msg,
    encoded: Option<Vec<u8>>,
)
    requires
        call_ensures(emit_frame, (a, t_ms, msg), ()),
        call_ensures(write_frame, (b, t_ms, msg), ()),
        call_ensures(encode_frame, (t_ms, msg), encoded),
    ensures
        final(a)@ == old(a)@ + encoded->0@,
        final(b)@ == old(b)@ + encoded->0@,
{
}

} // verus!
