//! Register-level driver for the ARK FPV's IIM-42653 six-axis IMU on SPI1.
//!
//! The driver checks the identity, configures the chip for a control loop (selectable rate,
//! interface filtering, data-ready interrupt on INT1) and turns a burst of output registers into
//! an [`ImuSample`]. This part's range table is shifted one step up against its relatives, so
//! that range code 1 selects 16 g and 2000 degrees per second. All registers are in bank 0.
//!
//! The interrupt is latched: INT1 stays asserted until the status register is read, which gives
//! one clean edge per sample and an explicit acknowledgement.
use vstd::prelude::*;

use crate::sensors::{Identify, Sensor, SoftReset};
use crate::words;

verus! {

pub const WHO_AM_I: u8 = 0x75;

pub const REG_BANK_SEL: u8 = 0x76;

pub const DEVICE_CONFIG: u8 = 0x11;

pub const INT_CONFIG: u8 = 0x14;

pub const PWR_MGMT0: u8 = 0x4E;

pub const GYRO_CONFIG0: u8 = 0x4F;

pub const ACCEL_CONFIG0: u8 = 0x50;

/// Interface filter bandwidth, accelerometer in bits 7..4, gyroscope in bits 3..0.
pub const GYRO_ACCEL_CONFIG0: u8 = 0x52;

/// Reading it drops the latched interrupt.
pub const INT_STATUS: u8 = 0x2D;

pub const INT_CONFIG1: u8 = 0x64;

pub const INT_SOURCE0: u8 = 0x65;

/// Where a burst starts: temperature, acceleration X/Y/Z, rate X/Y/Z, high byte first.
pub const TEMP_DATA: u8 = 0x1D;

/// The identity of an IIM-42653.
pub const EXPECTED_WHO_AM_I: u8 = 0x56;

/// Range code 1 in bits 7..5: 16 g and 2000 degrees per second.
pub const FS_SEL: u8 = 0x20;

/// Bandwidth of about a quarter of the rate, for both sensors.
pub const UI_FILT_BW_ODR_4: u8 = 0x11;

/// INT1 active high, push-pull, latched.
pub const INT_CONFIG_VAL: u8 = 0x07;

/// Data-ready goes to INT1.
pub const INT_SOURCE0_DRDY_INT1: u8 = 0x08;

/// Gyroscope in low-noise mode in bits 3..2, accelerometer in low-noise mode in bits 1..0.
pub const PWR_MGMT0_LOW_NOISE: u8 = 0x0F;

/// The bit that starts a reset.
pub const DEVICE_CONFIG_SOFT_RESET: u8 = 0x01;

/// Set in the address byte of a read.
pub const READ: u8 = 0x80;

/// The command byte and fourteen data bytes.
pub const BURST_LEN: usize = 15;

/// Output data rate. The data-ready interrupt fires at this rate, so it is the pace of the
/// control loop.
#[derive(Clone, Copy, Debug, PartialEq, Eq, Structural)]
pub enum ImuOdr {
    Hz200,
    Hz500,
    Hz1000,
}

impl ImuOdr {
    /// The rate's code in bits 3..0 of the two sensor configuration registers.
    pub open spec fn code(self) -> u8 {
        match self {
            ImuOdr::Hz200 => 0x07,
            ImuOdr::Hz500 => 0x0F,
            ImuOdr::Hz1000 => 0x06,
        }
    }

    /// Samples per second.
    pub open spec fn rate(self) -> int {
        match self {
            ImuOdr::Hz200 => 200,
            ImuOdr::Hz500 => 500,
            ImuOdr::Hz1000 => 1000,
        }
    }

    /// The rate's register code.
    pub fn reg(self) -> (code: u8)
        ensures
            code == self.code(),
    {
        match self {
            ImuOdr::Hz200 => 0x07,
            ImuOdr::Hz500 => 0x0F,
            ImuOdr::Hz1000 => 0x06,
        }
    }

    /// Samples per second.
    pub fn hz(self) -> (hz: u32)
        ensures
            hz == self.rate(),
    {
        match self {
            ImuOdr::Hz200 => 200,
            ImuOdr::Hz500 => 500,
            ImuOdr::Hz1000 => 1000,
        }
    }
}

/// One thing to do on the SPI bus or with the chip-select pin.
#[derive(Clone, Copy, Debug, PartialEq, Eq, Structural)]
pub enum SpiOp {
    /// Drive chip select low: the chip listens.
    Select,
    /// Drive chip select high: the chip is left alone.
    Deselect,
    /// Send `reg`, then `val`.
    Write { reg: u8, val: u8 },
    /// Send `command`, then zeros, `len` bytes in all, and keep the `len` bytes that come back
    /// meanwhile.
    Transfer { command: u8, len: usize },
}

/// The state of chip select after `ops`, where `selected` holds before them, or nothing where a
/// byte would have gone out with the chip not selected.
pub open spec fn selected_after(selected: bool, ops: Seq<SpiOp>) -> Option<bool>
    decreases ops.len(),
{
    if ops.len() == 0 {
        Some(selected)
    } else {
        match selected_after(selected, ops.drop_last()) {
            None => None,
            Some(s) => match ops.last() {
                SpiOp::Select => Some(true),
                SpiOp::Deselect => Some(false),
                SpiOp::Write { reg, val } => if s {
                    Some(true)
                } else {
                    None
                },
                SpiOp::Transfer { command, len } => if s {
                    Some(true)
                } else {
                    None
                },
            },
        }
    }
}

/// The register file of a chip that stores what it is told, after `ops`.
pub open spec fn registers_after(regs: Map<u8, u8>, ops: Seq<SpiOp>) -> Map<u8, u8>
    decreases ops.len(),
{
    if ops.len() == 0 {
        regs
    } else {
        let before = registers_after(regs, ops.drop_last());
        match ops.last() {
            SpiOp::Write { reg, val } => before.insert(reg, val),
            _ => before,
        }
    }
}

/// One register write.
pub open spec fn writing(reg: u8, val: u8) -> Seq<SpiOp> {
    seq![SpiOp::Select, SpiOp::Write { reg, val }, SpiOp::Deselect]
}

/// The address byte that reads `reg`: its highest bit is set.
pub open spec fn read_command(reg: u8) -> u8 {
    if reg < READ {
        (reg + READ) as u8
    } else {
        reg
    }
}

/// A read of `len - 1` registers from `reg` on; they come back from index one on.
pub open spec fn reading(reg: u8, len: usize) -> Seq<SpiOp> {
    seq![SpiOp::Select, SpiOp::Transfer { command: read_command(reg), len }, SpiOp::Deselect]
}

/// The register writes `vals` one after the other.
pub open spec fn writing_all(vals: Seq<(u8, u8)>) -> Seq<SpiOp>
    decreases vals.len(),
{
    if vals.len() == 0 {
        Seq::empty()
    } else {
        writing_all(vals.drop_last()) + writing(vals.last().0, vals.last().1)
    }
}

/// What a control-loop configuration writes, the power last.
pub open spec fn control_mode(odr: ImuOdr) -> Seq<(u8, u8)> {
    let cfg = (FS_SEL + odr.code()) as u8;
    seq![
        (REG_BANK_SEL, 0x00u8),
        (ACCEL_CONFIG0, cfg),
        (GYRO_CONFIG0, cfg),
        (GYRO_ACCEL_CONFIG0, UI_FILT_BW_ODR_4),
        (INT_CONFIG, INT_CONFIG_VAL),
        (INT_CONFIG1, 0x00u8),
        (INT_SOURCE0, INT_SOURCE0_DRDY_INT1),
        (PWR_MGMT0, PWR_MGMT0_LOW_NOISE),
    ]
}

/// One sample, exact in integer units.
#[derive(Clone, Copy, Debug, PartialEq, Eq)]
pub struct ImuSample {
    /// Acceleration along X, Y and Z in g over 2048.
    pub accel: [i32; 3],
    /// Angular rate about X, Y and Z in degrees per second over 2048. One count of the chip is
    /// 125 of these, since 16.384 counts are one degree per second.
    pub gyro: [i32; 3],
    /// Die temperature in degrees Celsius over 3312. One count of the chip is 25 of these, since
    /// 132.48 counts are one degree.
    pub temp: i32,
}

/// What one count of a rate register is worth.
pub const GYRO_PER_LSB: i32 = 125;

/// What one count of the temperature register is worth.
pub const TEMP_PER_LSB: i32 = 25;

/// Twenty-five degrees Celsius, where the temperature register reads zero.
pub const TEMP_REF: i32 = 82_800;

/// The IMU.
#[derive(Clone, Copy, Debug, PartialEq, Eq, Structural)]
pub struct Imu {}

/// Append one register write.
fn push_write(ops: &mut Vec<SpiOp>, reg: u8, val: u8)
    ensures
        final(ops)@ == old(ops)@ + writing(reg, val),
{
    ops.push(SpiOp::Select);
    ops.push(SpiOp::Write { reg, val });
    ops.push(SpiOp::Deselect);
}

impl Imu {
    /// The read that drops the latched interrupt.
    pub open spec fn interrupt_ops(self) -> Seq<SpiOp> {
        reading(INT_STATUS, 2)
    }

    /// The burst of one sample.
    pub open spec fn sample_ops(self) -> Seq<SpiOp> {
        reading(TEMP_DATA, BURST_LEN)
    }

    /// The IMU, and what to do first: chip select idles high.
    pub fn new() -> (r: (Imu, SpiOp))
        ensures
            r.1 == SpiOp::Deselect,
    {
        (Imu {  }, SpiOp::Deselect)
    }

    /// Read one register; it comes back at index one.
    pub fn read_reg(&self, reg: u8) -> (ops: Vec<SpiOp>)
        ensures
            ops@ == reading(reg, 2),
    {
        self.read_burst(reg, 2)
    }

    /// Write one register.
    pub fn write_reg(&self, reg: u8, val: u8) -> (ops: Vec<SpiOp>)
        ensures
            ops@ == writing(reg, val),
    {
        let mut ops: Vec<SpiOp> = Vec::new();
        push_write(&mut ops, reg, val);
        ops
    }

    /// Read registers from `start` on: `len` bytes, of which the first only keeps the place of the
    /// command byte.
    pub fn read_burst(&self, start: u8, len: usize) -> (ops: Vec<SpiOp>)
        ensures
            ops@ == reading(start, len),
    {
        assert(start | 0x80u8 == (if start < 0x80u8 {
            (start + 0x80) as u8
        } else {
            start
        })) by (bit_vector);
        vec![SpiOp::Select, SpiOp::Transfer { command: start | READ, len }, SpiOp::Deselect]
    }

    /// Read the identity register.
    pub fn who_am_i(&self) -> (ops: Vec<SpiOp>)
        ensures
            ops@ == reading(WHO_AM_I, 2),
    {
        self.read_reg(WHO_AM_I)
    }

    /// Configure for a control loop: range and rate, interface filtering, data-ready on INT1, then
    /// both sensors on in low-noise mode. Everything is written while the sensors are still off,
    /// as the chip demands; the power comes last.
    pub fn configure_control_mode(&self, odr: ImuOdr) -> (ops: Vec<SpiOp>)
        ensures
            ops@ == writing_all(control_mode(odr)),
    {
        let code: u8 = odr.reg();
        assert(0x20u8 | code == 0x20 + code) by (bit_vector)
            requires
                code < 0x20,
        ;
        let cfg: u8 = FS_SEL | code;
        let mut ops: Vec<SpiOp> = Vec::new();
        push_write(&mut ops, REG_BANK_SEL, 0x00);
        push_write(&mut ops, ACCEL_CONFIG0, cfg);
        push_write(&mut ops, GYRO_CONFIG0, cfg);
        push_write(&mut ops, GYRO_ACCEL_CONFIG0, UI_FILT_BW_ODR_4);
        push_write(&mut ops, INT_CONFIG, INT_CONFIG_VAL);
        push_write(&mut ops, INT_CONFIG1, 0x00);
        push_write(&mut ops, INT_SOURCE0, INT_SOURCE0_DRDY_INT1);
        push_write(&mut ops, PWR_MGMT0, PWR_MGMT0_LOW_NOISE);
        proof {
            lemma_control_mode_unfolds(odr);
        }
        ops
    }

    /// Acknowledge the latched data-ready interrupt, which drops INT1. Without this no further
    /// edge comes.
    pub fn clear_interrupt(&self) -> (ops: Vec<SpiOp>)
        ensures
            ops@ == self.interrupt_ops(),
    {
        self.read_reg(INT_STATUS)
    }

    /// The burst of one sample.
    pub fn sample_query(&self) -> (ops: Vec<SpiOp>)
        ensures
            ops@ == self.sample_ops(),
    {
        self.read_burst(TEMP_DATA, BURST_LEN)
    }
}

/// The control-loop configuration, written out one register at a time.
pub proof fn lemma_control_mode_unfolds(odr: ImuOdr)
    ensures
        ({
            let cfg = (FS_SEL + odr.code()) as u8;
            writing_all(control_mode(odr)) == Seq::<SpiOp>::empty() + writing(REG_BANK_SEL, 0x00)
                + writing(ACCEL_CONFIG0, cfg) + writing(GYRO_CONFIG0, cfg) + writing(
                GYRO_ACCEL_CONFIG0,
                UI_FILT_BW_ODR_4,
            ) + writing(INT_CONFIG, INT_CONFIG_VAL) + writing(INT_CONFIG1, 0x00) + writing(
                INT_SOURCE0,
                INT_SOURCE0_DRDY_INT1,
            ) + writing(PWR_MGMT0, PWR_MGMT0_LOW_NOISE)
        }),
{
    let v = control_mode(odr);
    assert(v.drop_last() =~= v.take(7));
    assert(v.take(7).drop_last() =~= v.take(6));
    assert(v.take(6).drop_last() =~= v.take(5));
    assert(v.take(5).drop_last() =~= v.take(4));
    assert(v.take(4).drop_last() =~= v.take(3));
    assert(v.take(3).drop_last() =~= v.take(2));
    assert(v.take(2).drop_last() =~= v.take(1));
    assert(v.take(1).drop_last() =~= Seq::<(u8, u8)>::empty());
    reveal_with_fuel(writing_all, 9);
}

impl Sensor for Imu {
    type Raw = [u8; 15];

    type Sample = ImuSample;

    open spec fn reads_as(&self, raw: [u8; 15], sample: ImuSample) -> bool {
        &&& sample.temp == TEMP_REF + TEMP_PER_LSB * words::signed_word(raw[2], raw[1])
        &&& forall|i: int|
            0 <= i < 3 ==> #[trigger] sample.accel[i] == words::signed_word(
                raw[2 * i + 4],
                raw[2 * i + 3],
            )
        &&& forall|i: int|
            0 <= i < 3 ==> #[trigger] sample.gyro[i] == GYRO_PER_LSB * words::signed_word(
                raw[2 * i + 10],
                raw[2 * i + 9],
            )
    }

    /// Scale a burst: the command's place, then the registers, high byte first.
    fn read(&self, raw: &[u8; 15]) -> (sample: ImuSample) {
        let t: i32 = words::signed16(raw[2], raw[1]) as i32;
        let ax: i32 = words::signed16(raw[4], raw[3]) as i32;
        let ay: i32 = words::signed16(raw[6], raw[5]) as i32;
        let az: i32 = words::signed16(raw[8], raw[7]) as i32;
        let gx: i32 = words::signed16(raw[10], raw[9]) as i32;
        let gy: i32 = words::signed16(raw[12], raw[11]) as i32;
        let gz: i32 = words::signed16(raw[14], raw[13]) as i32;
        ImuSample {
            accel: [ax, ay, az],
            gyro: [GYRO_PER_LSB * gx, GYRO_PER_LSB * gy, GYRO_PER_LSB * gz],
            temp: TEMP_REF + TEMP_PER_LSB * t,
        }
    }
}

impl Identify for Imu {
    type Request = Vec<SpiOp>;

    open spec fn asks_id(&self, request: Vec<SpiOp>) -> bool {
        request@ == reading(WHO_AM_I, 2)
    }

    open spec fn accepts(id: u8) -> bool {
        id == EXPECTED_WHO_AM_I
    }

    fn read_id(&self) -> (request: Vec<SpiOp>) {
        self.who_am_i()
    }

    fn id_matches(id: u8) -> (b: bool) {
        id == EXPECTED_WHO_AM_I
    }
}

impl SoftReset for Imu {
    type Request = Vec<SpiOp>;

    open spec fn resets(&self, request: Vec<SpiOp>) -> bool {
        request@ == writing(DEVICE_CONFIG, DEVICE_CONFIG_SOFT_RESET)
    }

    /// Reset the chip. It needs about two milliseconds afterwards.
    fn soft_reset(&self) -> (request: Vec<SpiOp>) {
        self.write_reg(DEVICE_CONFIG, DEVICE_CONFIG_SOFT_RESET)
    }
}

/// Doing `b` after `a` leaves chip select where `b` leaves it after where `a` left it.
proof fn lemma_selected_concat(selected: bool, a: Seq<SpiOp>, b: Seq<SpiOp>)
    ensures
        selected_after(selected, a + b) == (match selected_after(selected, a) {
            None => None,
            Some(s) => selected_after(s, b),
        }),
    decreases b.len(),
{
    if b.len() == 0 {
        assert(a + b =~= a);
    } else {
        assert((a + b).drop_last() =~= a + b.drop_last());
        lemma_selected_concat(selected, a, b.drop_last());
    }
}

/// Writing a register changes that register and no other.
proof fn lemma_registers_writing(regs: Map<u8, u8>, ops: Seq<SpiOp>, reg: u8, val: u8)
    ensures
        registers_after(regs, ops + writing(reg, val)) == registers_after(regs, ops).insert(
            reg,
            val,
        ),
{
    let all = ops + writing(reg, val);
    assert(all.drop_last() =~= ops.push(SpiOp::Select).push(SpiOp::Write { reg, val }));
    assert(all.drop_last().drop_last() =~= ops.push(SpiOp::Select));
    assert(all.drop_last().drop_last().drop_last() =~= ops);
    reveal_with_fuel(registers_after, 4);
}

/// Every register access selects the chip, and leaves it deselected: no byte goes out to a chip
/// that is not selected, however accesses are strung together.
pub proof fn accesses_frame_chip_select(reg: u8, val: u8, len: usize, vals: Seq<(u8, u8)>)
    ensures
        selected_after(false, writing(reg, val)) == Some(false),
        selected_after(false, reading(reg, len)) == Some(false),
        selected_after(false, writing_all(vals)) == Some(false),
    decreases vals.len(),
{
    reveal_with_fuel(selected_after, 4);
    let w = writing(reg, val);
    assert(w.drop_last() =~= seq![SpiOp::Select, SpiOp::Write { reg, val }]);
    assert(w.drop_last().drop_last() =~= seq![SpiOp::Select]);
    assert(w.drop_last().drop_last().drop_last() =~= Seq::<SpiOp>::empty());
    let r = reading(reg, len);
    let transfer = SpiOp::Transfer { command: read_command(reg), len };
    assert(r.drop_last() =~= seq![SpiOp::Select, transfer]);
    assert(r.drop_last().drop_last() =~= seq![SpiOp::Select]);
    assert(r.drop_last().drop_last().drop_last() =~= Seq::<SpiOp>::empty());
    if vals.len() > 0 {
        let last = vals.last();
        accesses_frame_chip_select(last.0, last.1, len, vals.drop_last());
        lemma_selected_concat(
            false,
            writing_all(vals.drop_last()),
            writing(last.0, last.1),
        );
    }
}

/// A chip that stores what it is told ends up with the whole control-loop configuration, and the
/// sensors are powered by the last write of all, after every other register has its value.
pub proof fn control_mode_takes_hold(odr: ImuOdr, regs: Map<u8, u8>)
    ensures
        ({
            let ops = writing_all(control_mode(odr));
            let after = registers_after(regs, ops);
            let before_power = registers_after(regs, ops.take(ops.len() - 3));
            &&& after[ACCEL_CONFIG0] == FS_SEL + odr.code()
            &&& after[GYRO_CONFIG0] == FS_SEL + odr.code()
            &&& after[GYRO_ACCEL_CONFIG0] == UI_FILT_BW_ODR_4
            &&& after[INT_CONFIG] == INT_CONFIG_VAL
            &&& after[INT_CONFIG1] == 0
            &&& after[INT_SOURCE0] == INT_SOURCE0_DRDY_INT1
            &&& after[REG_BANK_SEL] == 0
            &&& ops.skip(ops.len() - 3) == writing(PWR_MGMT0, PWR_MGMT0_LOW_NOISE)
            &&& after == before_power.insert(PWR_MGMT0, PWR_MGMT0_LOW_NOISE)
            &&& regs.dom().contains(PWR_MGMT0) ==> before_power[PWR_MGMT0] == regs[PWR_MGMT0]
        }),
{
    lemma_control_mode_unfolds(odr);
    let cfg = (FS_SEL + odr.code()) as u8;
    let s0 = Seq::<SpiOp>::empty();
    let s1 = s0 + writing(REG_BANK_SEL, 0x00);
    let s2 = s1 + writing(ACCEL_CONFIG0, cfg);
    let s3 = s2 + writing(GYRO_CONFIG0, cfg);
    let s4 = s3 + writing(GYRO_ACCEL_CONFIG0, UI_FILT_BW_ODR_4);
    let s5 = s4 + writing(INT_CONFIG, INT_CONFIG_VAL);
    let s6 = s5 + writing(INT_CONFIG1, 0x00);
    let s7 = s6 + writing(INT_SOURCE0, INT_SOURCE0_DRDY_INT1);
    lemma_registers_writing(regs, s0, REG_BANK_SEL, 0x00);
    lemma_registers_writing(regs, s1, ACCEL_CONFIG0, cfg);
    lemma_registers_writing(regs, s2, GYRO_CONFIG0, cfg);
    lemma_registers_writing(regs, s3, GYRO_ACCEL_CONFIG0, UI_FILT_BW_ODR_4);
    lemma_registers_writing(regs, s4, INT_CONFIG, INT_CONFIG_VAL);
    lemma_registers_writing(regs, s5, INT_CONFIG1, 0x00);
    lemma_registers_writing(regs, s6, INT_SOURCE0, INT_SOURCE0_DRDY_INT1);
    lemma_registers_writing(regs, s7, PWR_MGMT0, PWR_MGMT0_LOW_NOISE);
    let ops = writing_all(control_mode(odr));
    assert(ops.take(ops.len() - 3) =~= s7);
    assert(ops.skip(ops.len() - 3) =~= writing(PWR_MGMT0, PWR_MGMT0_LOW_NOISE));
}

/// Every axis is read with its sign and to the same scale: a count is the one 16-bit signed number
/// that agrees with its two bytes, 32768 counts of acceleration are 16 g, and 32768 counts of rate
/// are 2000 degrees per second, which is 4096000 in the sample's unit, as 16 g are 32768.
pub proof fn axes_are_signed_and_to_scale(dev: Imu, raw: [u8; 15], sample: ImuSample, i: int)
    requires
        dev.reads_as(raw, sample),
        0 <= i < 3,
    ensures
        -32768 <= sample.accel[i] <= 32767,
        sample.accel[i] as int % 65536 == 256 * raw[3 + 2 * i] + raw[4 + 2 * i],
        sample.gyro[i] * 32768 % 4_096_000 == 0,
        ({
            let count = sample.gyro[i] * 32768 / 4_096_000;
            &&& -32768 <= count <= 32767
            &&& count % 65536 == 256 * raw[9 + 2 * i] + raw[10 + 2 * i]
        }),
{
}

/// The temperature is read with its sign: 25 degrees where the register reads zero, and 100 degrees
/// more for every 13248 counts. `temp` is in degrees Celsius over 3312.
pub proof fn temperature_is_signed_and_to_scale(dev: Imu, raw: [u8; 15], sample: ImuSample)
    requires
        dev.reads_as(raw, sample),
    ensures
        ({
            let above = sample.temp - 25 * 3312;
            let count = above * 13248 / 331_200;
            &&& above * 13248 % 331_200 == 0
            &&& -32768 <= count <= 32767
            &&& count % 65536 == 256 * raw[1] + raw[2]
        }),
{
}

/// Turning the board round, which negates the registers, negates the readings of every axis. The
/// one pattern without a negative is left out.
pub proof fn turning_round_negates_every_axis(
    dev: Imu,
    raw: [u8; 15],
    turned: [u8; 15],
    sample: ImuSample,
    turned_sample: ImuSample,
    i: int,
)
    requires
        dev.reads_as(raw, sample),
        dev.reads_as(turned, turned_sample),
        0 <= i < 3,
    ensures
        raw[4 + 2 * i] + turned[4 + 2 * i] + 256 * (raw[3 + 2 * i] + turned[3 + 2 * i]) == 65536
            && !(raw[3 + 2 * i] == 128 && raw[4 + 2 * i] == 0) ==> turned_sample.accel[i]
            == -sample.accel[i],
        raw[10 + 2 * i] + turned[10 + 2 * i] + 256 * (raw[9 + 2 * i] + turned[9 + 2 * i]) == 65536
            && !(raw[9 + 2 * i] == 128 && raw[10 + 2 * i] == 0) ==> turned_sample.gyro[i]
            == -sample.gyro[i],
{
}

/// Equal byte pairs read alike on all three axes, in the same burst or in two.
pub proof fn axes_read_alike(
    dev: Imu,
    raw: [u8; 15],
    other: [u8; 15],
    sample: ImuSample,
    other_sample: ImuSample,
    i: int,
    j: int,
)
    requires
        dev.reads_as(raw, sample),
        dev.reads_as(other, other_sample),
        0 <= i < 3,
        0 <= j < 3,
    ensures
        raw[3 + 2 * i] == other[3 + 2 * j] && raw[4 + 2 * i] == other[4 + 2 * j]
            ==> sample.accel[i] == other_sample.accel[j],
        raw[9 + 2 * i] == other[9 + 2 * j] && raw[10 + 2 * i] == other[10 + 2 * j]
            ==> sample.gyro[i] == other_sample.gyro[j],
{
}

/// What goes over the bus for an access: a write sends the register and the value between select
/// and deselect; a read sends the register with its highest bit set and the rest as it is.
pub proof fn accesses_address_their_register(reg: u8, val: u8, len: usize)
    ensures
        writing(reg, val).len() == 3,
        writing(reg, val)[1] == (SpiOp::Write { reg, val }),
        reading(reg, len).len() == 3,
        reading(reg, len)[1] matches SpiOp::Transfer { command, len: l } && l == len && command
            >= 128 && command % 128 == reg % 128,
{
}

/// The requests of the driver, by register: identity at 0x75 (an IIM-42653 answers 0x56), reset by
/// bit 0 of 0x11, interrupt status at 0x2D, and a sample as fourteen bytes from 0x1D on.
pub proof fn requests_name_their_registers(dev: Imu, request: Vec<SpiOp>, id: u8)
    ensures
        dev.asks_id(request) ==> request@ == seq![
            SpiOp::Select,
            SpiOp::Transfer { command: 0xF5, len: 2 },
            SpiOp::Deselect,
        ],
        Imu::accepts(id) <==> id == 0x56,
        dev.resets(request) ==> request@ == seq![
            SpiOp::Select,
            SpiOp::Write { reg: 0x11, val: 0x01 },
            SpiOp::Deselect,
        ],
        dev.interrupt_ops() == seq![
            SpiOp::Select,
            SpiOp::Transfer { command: 0xAD, len: 2 },
            SpiOp::Deselect,
        ],
        dev.sample_ops() == seq![
            SpiOp::Select,
            SpiOp::Transfer { command: 0x9D, len: 15 },
            SpiOp::Deselect,
        ],
{
}

/// What a control-loop configuration leaves in a chip that stores what it is told: range code 1 and
/// the code of the rate in both sensors' registers, a quarter of the rate as bandwidth, a latched
/// data-ready interrupt on INT1, and both sensors on. Registers that are not named stay as they
/// were.
pub proof fn control_mode_registers(odr: ImuOdr, regs: Map<u8, u8>, other: u8)
    ensures
        ({
            let after = registers_after(regs, writing_all(control_mode(odr)));
            let code = match odr {
                ImuOdr::Hz200 => 7int,
                ImuOdr::Hz500 => 15int,
                ImuOdr::Hz1000 => 6int,
            };
            &&& after[0x50] == 32 + code
            &&& after[0x4F] == 32 + code
            &&& after[0x52] == 0x11
            &&& after[0x14] == 0x07
            &&& after[0x64] == 0x00
            &&& after[0x65] == 0x08
            &&& after[0x76] == 0x00
            &&& after[0x4E] == 0x0F
            &&& other != 0x50 && other != 0x4F && other != 0x52 && other != 0x14 && other != 0x64
                && other != 0x65 && other != 0x76 && other != 0x4E && regs.dom().contains(other)
                ==> after[other] == regs[other]
        }),
        odr.rate() == (match odr {
            ImuOdr::Hz200 => 200int,
            ImuOdr::Hz500 => 500int,
            ImuOdr::Hz1000 => 1000int,
        }),
{
    control_mode_takes_hold(odr, regs);
    lemma_control_mode_unfolds(odr);
    let cfg = (FS_SEL + odr.code()) as u8;
    let s0 = Seq::<SpiOp>::empty();
    let s1 = s0 + writing(REG_BANK_SEL, 0x00);
    let s2 = s1 + writing(ACCEL_CONFIG0, cfg);
    let s3 = s2 + writing(GYRO_CONFIG0, cfg);
    let s4 = s3 + writing(GYRO_ACCEL_CONFIG0, UI_FILT_BW_ODR_4);
    let s5 = s4 + writing(INT_CONFIG, INT_CONFIG_VAL);
    let s6 = s5 + writing(INT_CONFIG1, 0x00);
    let s7 = s6 + writing(INT_SOURCE0, INT_SOURCE0_DRDY_INT1);
    lemma_registers_writing(regs, s0, REG_BANK_SEL, 0x00);
    lemma_registers_writing(regs, s1, ACCEL_CONFIG0, cfg);
    lemma_registers_writing(regs, s2, GYRO_CONFIG0, cfg);
    lemma_registers_writing(regs, s3, GYRO_ACCEL_CONFIG0, UI_FILT_BW_ODR_4);
    lemma_registers_writing(regs, s4, INT_CONFIG, INT_CONFIG_VAL);
    lemma_registers_writing(regs, s5, INT_CONFIG1, 0x00);
    lemma_registers_writing(regs, s6, INT_SOURCE0, INT_SOURCE0_DRDY_INT1);
    lemma_registers_writing(regs, s7, PWR_MGMT0, PWR_MGMT0_LOW_NOISE);
}

} // verus!
