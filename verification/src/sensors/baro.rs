//! Register-level driver for the ARK FPV's BMP388/BMP390 barometer on I2C2.
//!
//! The two parts share a register map and differ only in their identity. The driver identifies
//! the chip, takes its factory calibration apart, checks that a configuration can keep up with
//! its output rate, and turns raw output registers into a [`BaroSample`]. The temperature comes
//! out exact; pressure compensation works on the sample with floating point and is not done here.
use vstd::arithmetic::power2::pow2;
use vstd::prelude::*;

use crate::i2c_regs::{I2cOp, I2cRegs};
use crate::sensors::{
    brought_up, played, BringUp, Identify, Sensor, SoftReset, Step, StepView, Wait,
};
use crate::words;

verus! {

/// 7-bit I2C address (SDO tied low on this board).
pub const ADDR: u8 = 0x76;

pub const REG_CHIP_ID: u8 = 0x00;

/// Pressure, then temperature, three bytes each, lowest byte first.
pub const REG_DATA: u8 = 0x04;

pub const REG_PWR_CTRL: u8 = 0x1B;

/// Temperature oversampling in bits 5..3, pressure oversampling in bits 2..0.
pub const REG_OSR: u8 = 0x1C;

pub const REG_ODR: u8 = 0x1D;

/// The factory calibration, [`CALIB_LEN`] bytes.
pub const REG_CALIB: u8 = 0x31;

pub const REG_CMD: u8 = 0x7E;

pub const CALIB_LEN: usize = 21;

pub const CMD_SOFT_RESET: u8 = 0xB6;

/// The identity of a BMP388.
pub const CHIP_ID_BMP388: u8 = 0x50;

/// The identity of a BMP390.
pub const CHIP_ID_BMP390: u8 = 0x60;

/// Normal mode in bits 5..4, temperature enabled in bit 1, pressure enabled in bit 0.
pub const PWR_CTRL_NORMAL: u8 = 0x33;

/// What the chip adds to the coefficients `p1` and `p2` before it stores them.
pub const P_OFFSET: i16 = 16_384;

/// Fixed part of a measurement, in microseconds.
pub const MEAS_BASE_US: u32 = 234;

/// Settling before the pressure conversions, in microseconds.
pub const SETTLE_PRESS_US: u32 = 392;

/// Settling before the temperature conversions, in microseconds.
pub const SETTLE_TEMP_US: u32 = 313;

/// One conversion, in microseconds.
pub const ADC_CONV_US: u32 = 2000;

/// Pause after a reset, in milliseconds (the chip needs about two).
pub const RESET_SETTLE_MS: u32 = 5;

/// Pause for the first conversion, in milliseconds.
pub const FIRST_CONVERSION_MS: u32 = 50;

/// Output data rate.
#[derive(Clone, Copy, Debug, PartialEq, Eq, Structural)]
pub enum BaroOdr {
    Hz200,
    Hz100,
    Hz50,
    Hz25,
    Hz12_5,
}

impl BaroOdr {
    /// The time between two outputs, in microseconds.
    pub open spec fn period(self) -> int {
        match self {
            BaroOdr::Hz200 => 5_000,
            BaroOdr::Hz100 => 10_000,
            BaroOdr::Hz50 => 20_000,
            BaroOdr::Hz25 => 40_000,
            BaroOdr::Hz12_5 => 80_000,
        }
    }

    /// The rate's register code: how often the fastest rate has been halved.
    pub open spec fn code(self) -> u8 {
        match self {
            BaroOdr::Hz200 => 0,
            BaroOdr::Hz100 => 1,
            BaroOdr::Hz50 => 2,
            BaroOdr::Hz25 => 3,
            BaroOdr::Hz12_5 => 4,
        }
    }

    /// The time between two outputs, in microseconds.
    pub fn period_us(self) -> (us: u32)
        ensures
            us == self.period(),
    {
        match self {
            BaroOdr::Hz200 => 5_000,
            BaroOdr::Hz100 => 10_000,
            BaroOdr::Hz50 => 20_000,
            BaroOdr::Hz25 => 40_000,
            BaroOdr::Hz12_5 => 80_000,
        }
    }
}

/// How many conversions make one value.
#[derive(Clone, Copy, Debug, PartialEq, Eq, Structural)]
pub enum Oversampling {
    X1,
    X2,
    X4,
    X8,
    X16,
    X32,
}

impl Oversampling {
    /// The number of conversions.
    pub open spec fn conversions(self) -> int {
        match self {
            Oversampling::X1 => 1,
            Oversampling::X2 => 2,
            Oversampling::X4 => 4,
            Oversampling::X8 => 8,
            Oversampling::X16 => 16,
            Oversampling::X32 => 32,
        }
    }

    /// The register code: the logarithm to base two of the number of conversions.
    pub open spec fn code(self) -> u8 {
        match self {
            Oversampling::X1 => 0,
            Oversampling::X2 => 1,
            Oversampling::X4 => 2,
            Oversampling::X8 => 3,
            Oversampling::X16 => 4,
            Oversampling::X32 => 5,
        }
    }

    /// The number of conversions.
    pub fn factor(self) -> (n: u32)
        ensures
            n == self.conversions(),
    {
        match self {
            Oversampling::X1 => 1,
            Oversampling::X2 => 2,
            Oversampling::X4 => 4,
            Oversampling::X8 => 8,
            Oversampling::X16 => 16,
            Oversampling::X32 => 32,
        }
    }
}

/// The output rate's register code.
pub fn odr_reg(odr: BaroOdr) -> (code: u8)
    ensures
        code == odr.code(),
{
    match odr {
        BaroOdr::Hz200 => 0x00,
        BaroOdr::Hz100 => 0x01,
        BaroOdr::Hz50 => 0x02,
        BaroOdr::Hz25 => 0x03,
        BaroOdr::Hz12_5 => 0x04,
    }
}

/// The oversampling's register code.
pub fn osr_reg(osr: Oversampling) -> (code: u8)
    ensures
        code == osr.code(),
{
    match osr {
        Oversampling::X1 => 0,
        Oversampling::X2 => 1,
        Oversampling::X4 => 2,
        Oversampling::X8 => 3,
        Oversampling::X16 => 4,
        Oversampling::X32 => 5,
    }
}

/// Why a configuration is refused.
#[derive(Clone, Copy, Debug, PartialEq, Eq, Structural)]
pub enum ConfigError {
    /// A measurement would take as long as the time between two outputs, or longer.
    OdrTooFast,
}

/// What a barometer is set to.
#[derive(Clone, Copy, Debug, PartialEq, Eq, Structural)]
pub struct BaroConfig {
    pub odr: BaroOdr,
    pub osr_p: Oversampling,
    pub osr_t: Oversampling,
}

impl BaroConfig {
    /// How long one measurement takes, in microseconds.
    pub open spec fn measurement_us(self) -> int {
        MEAS_BASE_US + (SETTLE_PRESS_US + self.osr_p.conversions() * ADC_CONV_US) + (SETTLE_TEMP_US
            + self.osr_t.conversions() * ADC_CONV_US)
    }

    /// Whether a measurement is over before the next one is due.
    pub open spec fn in_time(self) -> bool {
        self.measurement_us() < self.odr.period()
    }
}

/// The factory calibration, as the chip stores it. Each coefficient stands for the number
/// written behind it.
#[derive(Clone, Copy, Debug, PartialEq, Eq, Structural)]
pub struct Calib {
    /// Times 2^8.
    pub t1: u16,
    /// Over 2^30.
    pub t2: u16,
    /// Over 2^48.
    pub t3: i8,
    /// Less 2^14, over 2^20.
    pub p1: i16,
    /// Less 2^14, over 2^29.
    pub p2: i16,
    /// Over 2^32.
    pub p3: i8,
    /// Over 2^37.
    pub p4: i8,
    /// Times 2^3.
    pub p5: u16,
    /// Over 2^6.
    pub p6: u16,
    /// Over 2^8.
    pub p7: i8,
    /// Over 2^15.
    pub p8: i8,
    /// Over 2^48.
    pub p9: i16,
    /// Over 2^48.
    pub p10: i8,
    /// Over 2^65.
    pub p11: i8,
}

/// Whether `c` is what the calibration block `b` holds.
pub open spec fn calibrated(b: Seq<u8>, c: Calib) -> bool {
    &&& c.t1 == words::word(b[0], b[1])
    &&& c.t2 == words::word(b[2], b[3])
    &&& c.t3 == words::signed_byte(b[4])
    &&& c.p1 == words::signed_word(b[5], b[6])
    &&& c.p2 == words::signed_word(b[7], b[8])
    &&& c.p3 == words::signed_byte(b[9])
    &&& c.p4 == words::signed_byte(b[10])
    &&& c.p5 == words::word(b[11], b[12])
    &&& c.p6 == words::word(b[13], b[14])
    &&& c.p7 == words::signed_byte(b[15])
    &&& c.p8 == words::signed_byte(b[16])
    &&& c.p9 == words::signed_word(b[17], b[18])
    &&& c.p10 == words::signed_byte(b[19])
    &&& c.p11 == words::signed_byte(b[20])
}

/// What the calibration block `b` holds.
pub open spec fn calib_of(b: Seq<u8>) -> Calib {
    Calib {
        t1: words::word(b[0], b[1]) as u16,
        t2: words::word(b[2], b[3]) as u16,
        t3: words::signed_byte(b[4]) as i8,
        p1: words::signed_word(b[5], b[6]) as i16,
        p2: words::signed_word(b[7], b[8]) as i16,
        p3: words::signed_byte(b[9]) as i8,
        p4: words::signed_byte(b[10]) as i8,
        p5: words::word(b[11], b[12]) as u16,
        p6: words::word(b[13], b[14]) as u16,
        p7: words::signed_byte(b[15]) as i8,
        p8: words::signed_byte(b[16]) as i8,
        p9: words::signed_word(b[17], b[18]) as i16,
        p10: words::signed_byte(b[19]) as i8,
        p11: words::signed_byte(b[20]) as i8,
    }
}

/// The calibration before it has been read: every coefficient stands for zero. Two of them are
/// stored with an offset, so that it is the offset that stands for zero.
pub open spec fn no_calib() -> Calib {
    Calib {
        t1: 0,
        t2: 0,
        t3: 0,
        p1: P_OFFSET,
        p2: P_OFFSET,
        p3: 0,
        p4: 0,
        p5: 0,
        p6: 0,
        p7: 0,
        p8: 0,
        p9: 0,
        p10: 0,
        p11: 0,
    }
}

/// The block that stands for what a read of the calibration brought: its bytes, or zeros where the
/// read failed.
pub open spec fn block_of(reply: Seq<u8>) -> Seq<u8> {
    if reply.len() == CALIB_LEN {
        reply
    } else {
        Seq::new(CALIB_LEN as nat, |i: int| 0u8)
    }
}

/// The terms whose sum is the compensated pressure in pascal, for the converter's output `adc_p`
/// and the temperature `t`, each without the power of two that its coefficient is to be taken
/// times: see [`pressure_exponents`].
pub open spec fn pressure_terms(c: Calib, adc_p: int, t: int) -> Seq<int> {
    seq![
        c.p5 as int,
        c.p6 * t,
        c.p7 * (t * t),
        c.p8 * (t * t * t),
        (c.p1 - P_OFFSET) * adc_p,
        (c.p2 - P_OFFSET) * (adc_p * t),
        c.p3 * (adc_p * t * t),
        c.p4 * (adc_p * t * t * t),
        c.p9 * (adc_p * adc_p),
        c.p10 * (adc_p * adc_p * t),
        c.p11 * (adc_p * adc_p * adc_p),
    ]
}

/// For each of the [`pressure_terms`], the exponent of the power of two it is to be taken times,
/// with the temperature in degrees Celsius.
pub open spec fn pressure_exponents() -> Seq<int> {
    seq![3, -6, -8, -15, -20, -29, -32, -37, -48, -48, -65]
}

/// One sample: what the converter gave for pressure and temperature, and the compensated
/// temperature. The pressure is compensated with the driver's calibration.
#[derive(Clone, Copy, Debug, PartialEq, Eq, Structural)]
pub struct BaroSample {
    /// The converter's output for the pressure.
    pub adc_p: u32,
    /// The converter's output for the temperature.
    pub adc_t: u32,
    /// The compensated temperature in degrees Celsius over 2^48.
    pub temp_q48: i64,
}

/// The compensated temperature in degrees Celsius over 2^48: with `d` for the distance of the
/// converter's output from the coefficient `t1`, it is `d * t2 / 2^30 + d * d * t3 / 2^48`.
pub open spec fn compensated_temperature(c: Calib, adc_t: int) -> int {
    let d = adc_t - 256 * c.t1;
    d * c.t2 * 0x4_0000 + d * d * c.t3
}

/// The barometer.
#[derive(Clone, Copy, Debug, PartialEq, Eq, Structural)]
pub struct Baro {
    pub regs: I2cRegs,
    /// Stands for zero in every coefficient until
    /// [`read_calibration`](Baro::read_calibration) has run.
    pub calib: Calib,
}

/// How far a bring-up sequence has come.
#[derive(Clone, Copy, Debug, PartialEq, Eq, Structural)]
pub enum BaroPhase {
    /// Pausing for the reset.
    Settling,
    /// Waiting for the calibration block.
    Calibrating,
    /// Pausing for the first conversion.
    Converting,
    /// The outcome is out.
    Over,
}

/// A barometer bring-up sequence under way.
#[derive(Clone, Copy, Debug, PartialEq, Eq, Structural)]
pub struct BaroBringUp {
    pub config: BaroConfig,
    pub phase: BaroPhase,
}

impl Baro {
    /// The writes that start sampling: oversampling, rate, then power.
    pub open spec fn configure_ops(self, config: BaroConfig) -> Seq<I2cOp> {
        seq![
            self.regs.writing(REG_OSR, (8 * config.osr_t.code() + config.osr_p.code()) as u8),
            self.regs.writing(REG_ODR, config.odr.code()),
            self.regs.writing(REG_PWR_CTRL, PWR_CTRL_NORMAL),
        ]
    }

    /// The read of one sample.
    pub open spec fn sample_op(self) -> I2cOp {
        self.regs.reading(REG_DATA, 6)
    }

    /// The barometer at its address, its calibration not read yet.
    pub fn new() -> (b: Baro)
        ensures
            b.regs.addr == ADDR,
            b.calib == no_calib(),
    {
        Baro {
            regs: I2cRegs::new(ADDR),
            calib: Calib {
                t1: 0,
                t2: 0,
                t3: 0,
                p1: P_OFFSET,
                p2: P_OFFSET,
                p3: 0,
                p4: 0,
                p5: 0,
                p6: 0,
                p7: 0,
                p8: 0,
                p9: 0,
                p10: 0,
                p11: 0,
            },
        }
    }

    /// Read the identity register.
    pub fn chip_id(&self) -> (op: I2cOp)
        ensures
            self.asks_id(op),
            op == self.regs.reading(REG_CHIP_ID, 1),
    {
        self.regs.read_reg(REG_CHIP_ID)
    }

    /// Read the calibration block.
    pub fn calibration_query(&self) -> (op: I2cOp)
        ensures
            op == self.regs.reading(REG_CALIB, CALIB_LEN),
    {
        self.regs.read_regs(REG_CALIB, CALIB_LEN)
    }

    /// Take the calibration block apart (low byte first; which coefficients are signed is the
    /// chip's choice) and keep it.
    pub fn read_calibration(&mut self, b: &[u8; 21])
        ensures
            final(self).regs == old(self).regs,
            calibrated(b@, final(self).calib),
            final(self).calib == calib_of(b@),
    {
        self.calib = Calib {
            t1: words::unsigned16(b[0], b[1]),
            t2: words::unsigned16(b[2], b[3]),
            t3: words::signed8(b[4]),
            p1: words::signed16(b[5], b[6]),
            p2: words::signed16(b[7], b[8]),
            p3: words::signed8(b[9]),
            p4: words::signed8(b[10]),
            p5: words::unsigned16(b[11], b[12]),
            p6: words::unsigned16(b[13], b[14]),
            p7: words::signed8(b[15]),
            p8: words::signed8(b[16]),
            p9: words::signed16(b[17], b[18]),
            p10: words::signed8(b[19]),
            p11: words::signed8(b[20]),
        };
    }

    /// Set oversampling and rate and start sampling, or refuse, and touch nothing, where a
    /// measurement cannot be over before the next one is due. The first conversion takes a while.
    pub fn configure(&self, config: BaroConfig) -> (r: Result<Vec<I2cOp>, ConfigError>)
        ensures
            r is Ok <==> config.in_time(),
            r matches Ok(ops) ==> ops@ == self.configure_ops(config),
            r matches Err(e) ==> e == ConfigError::OdrTooFast,
    {
        let meas_us: u32 = MEAS_BASE_US + (SETTLE_PRESS_US + config.osr_p.factor() * ADC_CONV_US)
            + (SETTLE_TEMP_US + config.osr_t.factor() * ADC_CONV_US);
        if meas_us >= config.odr.period_us() {
            return Err(ConfigError::OdrTooFast);
        }
        let t: u8 = osr_reg(config.osr_t);
        let p: u8 = osr_reg(config.osr_p);
        assert((t << 3) | p == 8 * t + p) by (bit_vector)
            requires
                t <= 5,
                p <= 5,
        ;
        let ops = vec![
            self.regs.write_reg(REG_OSR, (t << 3) | p),
            self.regs.write_reg(REG_ODR, odr_reg(config.odr)),
            self.regs.write_reg(REG_PWR_CTRL, PWR_CTRL_NORMAL),
        ];
        Ok(ops)
    }

    /// The read of one sample.
    pub fn sample_query(&self) -> (op: I2cOp)
        ensures
            op == self.sample_op(),
    {
        self.regs.read_regs(REG_DATA, 6)
    }
}

/// The compensated temperature is far from the limits of its type.
proof fn lemma_temperature_fits(c: Calib, adc_t: int)
    requires
        0 <= adc_t < 0x100_0000,
    ensures
        ({
            let d = adc_t - 256 * c.t1;
            &&& -0x100_0000 < d < 0x100_0000
            &&& -0x100_0000_0000 < d * c.t2 < 0x100_0000_0000
            &&& 0 <= d * d <= 0x1_0000_0000_0000
            &&& -0x80_0000_0000_0000 <= d * d * c.t3 <= 0x80_0000_0000_0000
        }),
{
    let d = adc_t - 256 * c.t1;
    let t2 = c.t2 as int;
    let t3 = c.t3 as int;
    assert(-0x100_0000 < d < 0x100_0000);
    assert(-0x100_0000_0000 < d * t2 < 0x100_0000_0000) by (nonlinear_arith)
        requires
            -0x100_0000 < d < 0x100_0000,
            0 <= t2 < 0x1_0000,
    ;
    assert(0 <= d * d <= 0x1_0000_0000_0000) by (nonlinear_arith)
        requires
            -0x100_0000 < d < 0x100_0000,
    ;
    let s = d * d;
    assert(-0x80_0000_0000_0000 <= s * t3 <= 0x80_0000_0000_0000) by (nonlinear_arith)
        requires
            0 <= s <= 0x1_0000_0000_0000,
            -128 <= t3 < 128,
    ;
}

impl Sensor for Baro {
    type Raw = [u8; 6];

    type Sample = BaroSample;

    open spec fn reads_as(&self, raw: [u8; 6], sample: BaroSample) -> bool {
        &&& sample.adc_p == words::word24(raw[0], raw[1], raw[2])
        &&& sample.adc_t == words::word24(raw[3], raw[4], raw[5])
        &&& sample.temp_q48 == compensated_temperature(self.calib, sample.adc_t as int)
    }

    /// Take the output registers apart and compensate the temperature.
    fn read(&self, raw: &[u8; 6]) -> (sample: BaroSample) {
        let adc_p: u32 = words::unsigned24(raw[0], raw[1], raw[2]);
        let adc_t: u32 = words::unsigned24(raw[3], raw[4], raw[5]);
        let d: i64 = adc_t as i64 - 256 * (self.calib.t1 as i64);
        proof {
            lemma_temperature_fits(self.calib, adc_t as int);
        }
        let linear: i64 = d * (self.calib.t2 as i64);
        let square: i64 = d * d;
        let quadratic: i64 = square * (self.calib.t3 as i64);
        BaroSample { adc_p, adc_t, temp_q48: linear * 0x4_0000 + quadratic }
    }
}

impl Identify for Baro {
    type Request = I2cOp;

    open spec fn asks_id(&self, request: I2cOp) -> bool {
        request == self.regs.reading(REG_CHIP_ID, 1)
    }

    open spec fn accepts(id: u8) -> bool {
        id == CHIP_ID_BMP388 || id == CHIP_ID_BMP390
    }

    fn read_id(&self) -> (request: I2cOp) {
        self.chip_id()
    }

    fn id_matches(id: u8) -> (b: bool) {
        id == CHIP_ID_BMP388 || id == CHIP_ID_BMP390
    }
}

impl SoftReset for Baro {
    type Request = I2cOp;

    open spec fn resets(&self, request: I2cOp) -> bool {
        request == self.regs.writing(REG_CMD, CMD_SOFT_RESET)
    }

    /// Reset the chip. It needs about two milliseconds afterwards.
    fn soft_reset(&self) -> (request: I2cOp) {
        self.regs.write_reg(REG_CMD, CMD_SOFT_RESET)
    }
}

impl BringUp for Baro {
    type Config = BaroConfig;

    type Progress = BaroBringUp;

    type Output = Result<(), ConfigError>;

    open spec fn started(self, config: BaroConfig) -> (
        BaroBringUp,
        StepView<Result<(), ConfigError>>,
    ) {
        (
            BaroBringUp { config, phase: BaroPhase::Settling },
            StepView {
                writes: seq![self.regs.writing(REG_CMD, CMD_SOFT_RESET)],
                wait: Wait::Delay(RESET_SETTLE_MS),
            },
        )
    }

    open spec fn awaits(self, b: BaroBringUp, reply: Seq<u8>) -> bool {
        match b.phase {
            BaroPhase::Settling => reply.len() == 0,
            BaroPhase::Calibrating => reply.len() == 0 || reply.len() == CALIB_LEN,
            BaroPhase::Converting => reply.len() == 0,
            BaroPhase::Over => false,
        }
    }

    open spec fn next(self, b: BaroBringUp, reply: Seq<u8>) -> (
        Baro,
        BaroBringUp,
        StepView<Result<(), ConfigError>>,
    ) {
        let config = b.config;
        match b.phase {
            BaroPhase::Settling => (
                self,
                BaroBringUp { config, phase: BaroPhase::Calibrating },
                StepView {
                    writes: Seq::empty(),
                    wait: Wait::Read(self.regs.reading(REG_CALIB, CALIB_LEN)),
                },
            ),
            BaroPhase::Calibrating => {
                let calibrated = Baro { regs: self.regs, calib: calib_of(block_of(reply)) };
                if config.in_time() {
                    (
                        calibrated,
                        BaroBringUp { config, phase: BaroPhase::Converting },
                        StepView {
                            writes: self.configure_ops(config),
                            wait: Wait::Delay(FIRST_CONVERSION_MS),
                        },
                    )
                } else {
                    (
                        calibrated,
                        BaroBringUp { config, phase: BaroPhase::Over },
                        StepView {
                            writes: Seq::empty(),
                            wait: Wait::Done(Err(ConfigError::OdrTooFast)),
                        },
                    )
                }
            },
            BaroPhase::Converting => (
                self,
                BaroBringUp { config, phase: BaroPhase::Over },
                StepView { writes: Seq::empty(), wait: Wait::Done(Ok(())) },
            ),
            BaroPhase::Over => (
                self,
                b,
                StepView { writes: Seq::empty(), wait: Wait::Done(Ok(())) },
            ),
        }
    }

    /// Start a full bring-up: reset, settle, load the factory calibration, start sampling, then
    /// wait for the first conversion. The outcome is that of [`configure`](Baro::configure).
    fn bring_up(&self, config: BaroConfig) -> (r: (BaroBringUp, Step<Result<(), ConfigError>>)) {
        let step = Step { writes: vec![self.soft_reset()], wait: Wait::Delay(RESET_SETTLE_MS) };
        proof {
            assert(step.writes@ =~= seq![self.regs.writing(REG_CMD, CMD_SOFT_RESET)]);
        }
        (BaroBringUp { config, phase: BaroPhase::Settling }, step)
    }

    fn resume(&mut self, b: BaroBringUp, reply: &[u8]) -> (r: (
        BaroBringUp,
        Step<Result<(), ConfigError>>,
    )) {
        let config = b.config;
        let (phase, writes, wait) = match b.phase {
            BaroPhase::Settling => (
                BaroPhase::Calibrating,
                vec![],
                Wait::Read(self.calibration_query()),
            ),
            BaroPhase::Calibrating => {
                let mut block = [0u8;21];
                let mut i: usize = 0;
                while i < reply.len()
                    invariant
                        i <= reply@.len(),
                        reply@.len() == 0 || reply@.len() == CALIB_LEN,
                        forall|j: int|
                            0 <= j < 21 ==> #[trigger] block[j] == (if j < i {
                                reply@[j]
                            } else {
                                0u8
                            }),
                    decreases reply@.len() - i,
                {
                    block[i] = reply[i];
                    i += 1;
                }
                self.read_calibration(&block);
                proof {
                    assert(block@ =~= block_of(reply@));
                }
                match self.configure(config) {
                    Ok(ops) => (BaroPhase::Converting, ops, Wait::Delay(FIRST_CONVERSION_MS)),
                    Err(e) => (BaroPhase::Over, vec![], Wait::Done(Err(e))),
                }
            },
            BaroPhase::Converting => (BaroPhase::Over, vec![], Wait::Done(Ok(()))),
            BaroPhase::Over => (BaroPhase::Over, vec![], Wait::Done(Ok(()))),
        };
        let step = Step { writes, wait };
        proof {
            assert(step@.writes =~= old(self).next(b, reply@).2.writes);
        }
        (BaroBringUp { config, phase }, step)
    }
}

/// A whole bring-up, whatever the chip answers: the reset is followed by the configuration where
/// a measurement is over before the next one is due, and by nothing where it is not. The outcome
/// says which.
pub proof fn bring_up_configures_or_refuses(dev: Baro, config: BaroConfig, block: Seq<u8>)
    requires
        block.len() == 0 || block.len() == CALIB_LEN,
    ensures
        ({
            let run = brought_up(
                dev,
                config,
                seq![Seq::empty(), block, Seq::empty()],
            );
            let reset = seq![dev.regs.writing(REG_CMD, CMD_SOFT_RESET)];
            &&& run.reads == seq![dev.regs.reading(REG_CALIB, CALIB_LEN)]
            &&& if config.in_time() {
                &&& run.outcome == Some(Ok::<(), ConfigError>(()))
                &&& run.writes == reset + dev.configure_ops(config)
                &&& run.delay_ms == RESET_SETTLE_MS + FIRST_CONVERSION_MS
            } else {
                &&& run.outcome == Some(Err::<(), ConfigError>(ConfigError::OdrTooFast))
                &&& run.writes == reset
                &&& run.delay_ms == RESET_SETTLE_MS
            }
        }),
{
    let replies = seq![Seq::<u8>::empty(), block, Seq::<u8>::empty()];
    assert(replies.skip(1) =~= seq![block, Seq::<u8>::empty()]);
    assert(replies.skip(1).skip(1) =~= seq![Seq::<u8>::empty()]);
    reveal_with_fuel(played, 4);
    let run = brought_up(dev, config, replies);
    assert(run.reads =~= seq![dev.regs.reading(REG_CALIB, CALIB_LEN)]);
    let reset = seq![dev.regs.writing(REG_CMD, CMD_SOFT_RESET)];
    if config.in_time() {
        assert(run.writes =~= reset + dev.configure_ops(config));
    } else {
        assert(run.writes =~= reset);
    }
}

/// A finished bring-up has loaded the calibration that the chip answered with, or a block of zeros
/// where the read failed, whether or not the configuration was accepted.
pub proof fn bring_up_loads_the_calibration(dev: Baro, config: BaroConfig, block: Seq<u8>)
    requires
        block.len() == 0 || block.len() == CALIB_LEN,
    ensures
        ({
            let (dev2, p2, s2) = dev.next(
                BaroBringUp { config, phase: BaroPhase::Calibrating },
                block,
            );
            &&& dev2.regs == dev.regs
            &&& calibrated(block_of(block), dev2.calib)
        }),
{
}

/// Until the calibration is read, a sample reads as nothing at all: no degrees, and no pressure
/// from any term, whatever the converter gives.
pub proof fn uncalibrated_samples_read_zero(adc_p: int, adc_t: int, t: int)
    ensures
        compensated_temperature(no_calib(), adc_t) == 0,
        forall|i: int|
            0 <= i < pressure_terms(no_calib(), adc_p, t).len() ==> #[trigger] pressure_terms(
                no_calib(),
                adc_p,
                t,
            )[i] == 0,
        pressure_terms(no_calib(), adc_p, t).len() == pressure_exponents().len(),
{
    assert(adc_t * 0 * 0x4_0000 == 0 && adc_t * adc_t * 0 == 0) by (nonlinear_arith);
    assert forall|x: int| #[trigger] (0 * x) == 0 by {}
    let terms = pressure_terms(no_calib(), adc_p, t);
    assert(terms =~= Seq::new(11, |i: int| 0int));
}

/// The register codes count doublings: of the conversions, and of the fastest rate's period.
pub proof fn codes_count_doublings(osr: Oversampling, odr: BaroOdr)
    ensures
        osr.conversions() == pow2(osr.code() as nat),
        odr.period() == BaroOdr::Hz200.period() * pow2(
            odr.code() as nat,
        ),
{
    vstd::arithmetic::power2::lemma2_to64();
}

/// Slowing the output down, or taking fewer conversions, never makes a configuration invalid.
pub proof fn slower_or_coarser_stays_valid(a: BaroConfig, b: BaroConfig)
    requires
        a.in_time(),
        b.odr.period() >= a.odr.period(),
        b.osr_p.conversions() <= a.osr_p.conversions(),
        b.osr_t.conversions() <= a.osr_t.conversions(),
    ensures
        b.in_time(),
{
}

/// The converter's outputs hold their bytes, the lowest first.
pub proof fn converter_outputs_hold_their_bytes(dev: Baro, raw: [u8; 6], s: BaroSample)
    requires
        dev.reads_as(raw, s),
    ensures
        s.adc_p % 256 == raw[0],
        (s.adc_p / 256) % 256 == raw[1],
        s.adc_p / 65536 == raw[2],
        s.adc_t % 256 == raw[3],
        (s.adc_t / 256) % 256 == raw[4],
        s.adc_t / 65536 == raw[5],
{
}

/// How the temperature follows the converter, below zero as above it: nought degrees where the
/// output is 256 times `t1`, and with every count more it grows by `t2` over 2^30 degrees and by
/// the quadratic coefficient's share, which itself grows by twice `t3` over 2^48 with every count.
pub proof fn one_count_more(dev: Baro, raw: [u8; 6], next: [u8; 6], s: BaroSample, s2: BaroSample)
    requires
        dev.reads_as(raw, s),
        dev.reads_as(next, s2),
    ensures
        s.adc_t == 256 * dev.calib.t1 ==> s.temp_q48 == 0,
        s2.adc_t == s.adc_t + 1 ==> s2.temp_q48 - s.temp_q48 == 0x4_0000 * dev.calib.t2 + (2 * (
        s.adc_t - 256 * dev.calib.t1) + 1) * dev.calib.t3,
{
    let d = s.adc_t - 256 * dev.calib.t1;
    let t2 = dev.calib.t2 as int;
    let t3 = dev.calib.t3 as int;
    if d == 0 {
        assert(d * t2 * 0x4_0000 == 0 && d * d * t3 == 0) by (nonlinear_arith)
            requires
                d == 0,
        ;
    }
    if s2.adc_t == s.adc_t + 1 {
        let e = d + 1;
        assert(e * t2 * 0x4_0000 - d * t2 * 0x4_0000 == 0x4_0000 * t2) by (nonlinear_arith)
            requires
                e == d + 1,
        ;
        assert(e * e * t3 - d * d * t3 == (2 * d + 1) * t3) by (nonlinear_arith)
            requires
                e == d + 1,
        ;
    }
}

/// Without a quadratic coefficient the temperature is a straight line through zero: it is below zero
/// exactly where the converter's output is below 256 times `t1`, zero exactly there, and distances
/// between readings go as distances between outputs.
pub proof fn temperature_keeps_its_sign(
    dev: Baro,
    raw: [u8; 6],
    other: [u8; 6],
    s: BaroSample,
    s2: BaroSample,
)
    requires
        dev.reads_as(raw, s),
        dev.reads_as(other, s2),
        dev.calib.t3 == 0,
        dev.calib.t2 > 0,
    ensures
        s.temp_q48 < 0 <==> s.adc_t < 256 * dev.calib.t1,
        s.temp_q48 == 0 <==> s.adc_t == 256 * dev.calib.t1,
        s2.temp_q48 - s.temp_q48 == (s2.adc_t - s.adc_t) * dev.calib.t2 * 0x4_0000,
{
    let d = s.adc_t - 256 * dev.calib.t1;
    let e = s2.adc_t - 256 * dev.calib.t1;
    let f = s2.adc_t - s.adc_t;
    let t2 = dev.calib.t2 as int;
    assert(d * d * 0 == 0 && e * e * 0 == 0) by (nonlinear_arith);
    assert((d * t2 * 0x4_0000 < 0) == (d < 0)) by (nonlinear_arith)
        requires
            t2 > 0,
    ;
    assert((d * t2 * 0x4_0000 == 0) == (d == 0)) by (nonlinear_arith)
        requires
            t2 > 0,
    ;
    assert(e * t2 * 0x4_0000 - d * t2 * 0x4_0000 == f * t2 * 0x4_0000) by (nonlinear_arith)
        requires
            f == e - d,
    ;
}

/// The calibration holds the block: every byte comes back from its coefficient, low byte first, and
/// a coefficient with a sign is the one in its type's range that agrees with its bytes.
pub proof fn calibration_holds_the_block(b: Seq<u8>)
    requires
        b.len() == 21,
    ensures
        ({
            let c = calib_of(b);
            &&& c.t1 % 256 == b[0] && c.t1 / 256 == b[1]
            &&& c.t2 % 256 == b[2] && c.t2 / 256 == b[3]
            &&& c.t3 as int % 256 == b[4]
            &&& c.p1 as int % 65536 == b[5] + 256 * b[6]
            &&& c.p2 as int % 65536 == b[7] + 256 * b[8]
            &&& c.p3 as int % 256 == b[9]
            &&& c.p4 as int % 256 == b[10]
            &&& c.p5 % 256 == b[11] && c.p5 / 256 == b[12]
            &&& c.p6 % 256 == b[13] && c.p6 / 256 == b[14]
            &&& c.p7 as int % 256 == b[15]
            &&& c.p8 as int % 256 == b[16]
            &&& c.p9 as int % 65536 == b[17] + 256 * b[18]
            &&& c.p10 as int % 256 == b[19]
            &&& c.p11 as int % 256 == b[20]
        }),
{
}

/// How many conversions each oversampling takes, and how the rates and periods go together: a
/// period is a second over the rate.
pub proof fn conversions_and_periods(osr: Oversampling, odr: BaroOdr)
    ensures
        osr.conversions() == (match osr {
            Oversampling::X1 => 1int,
            Oversampling::X2 => 2int,
            Oversampling::X4 => 4int,
            Oversampling::X8 => 8int,
            Oversampling::X16 => 16int,
            Oversampling::X32 => 32int,
        }),
        odr.period() * (match odr {
            BaroOdr::Hz200 => 400int,
            BaroOdr::Hz100 => 200int,
            BaroOdr::Hz50 => 100int,
            BaroOdr::Hz25 => 50int,
            BaroOdr::Hz12_5 => 25int,
        }) == 2_000_000,
{
}

/// Every further conversion, of the pressure or of the temperature, makes a measurement two
/// milliseconds longer, and a measurement without any would take 939 microseconds. So exchanging
/// the two oversamplings changes nothing about whether a configuration is accepted.
pub proof fn every_conversion_counts_alike(a: BaroConfig, b: BaroConfig)
    ensures
        a.measurement_us() - b.measurement_us() == 2000 * ((a.osr_p.conversions()
            + a.osr_t.conversions()) - (b.osr_p.conversions() + b.osr_t.conversions())),
        a.measurement_us() - 2000 * a.osr_p.conversions() - 2000 * a.osr_t.conversions() == 939,
        a.odr == b.odr && a.osr_p == b.osr_t && a.osr_t == b.osr_p ==> a.in_time() == b.in_time(),
{
}

/// Which configurations can keep up: those whose conversions, of pressure and temperature together,
/// are few enough for the rate.
pub proof fn conversions_that_fit_the_rate(config: BaroConfig)
    ensures
        config.in_time() <==> config.osr_p.conversions() + config.osr_t.conversions() <= (
        match config.odr {
            BaroOdr::Hz200 => 2int,
            BaroOdr::Hz100 => 4int,
            BaroOdr::Hz50 => 9int,
            BaroOdr::Hz25 => 19int,
            BaroOdr::Hz12_5 => 39int,
        }),
{
}

/// The requests of the driver, by register: identity at 0x00 (a BMP388 answers 0x50, a BMP390
/// 0x60), reset by command 0xB6 at 0x7E, and a sample as six bytes from 0x04 on.
pub proof fn requests_name_their_registers(dev: Baro, request: I2cOp, id: u8)
    ensures
        dev.asks_id(request) <==> request == (I2cOp::Read {
            addr: dev.regs.addr,
            reg: 0x00,
            len: 1,
        }),
        Baro::accepts(id) <==> id == 0x50 || id == 0x60,
        dev.resets(request) <==> request == (I2cOp::Write {
            addr: dev.regs.addr,
            reg: 0x7E,
            val: 0xB6,
        }),
        dev.sample_op() == (I2cOp::Read { addr: dev.regs.addr, reg: 0x04, len: 6 }),
        ADDR == 0x76,
{
}

/// A whole bring-up in the terms of the chip. It resets, waits five milliseconds and reads the 21
/// calibration bytes. Where the conversions fit the rate, it writes oversampling (temperature in
/// bits 5 to 3, pressure in bits 2 to 0, each the number of doublings), rate and power, in this
/// order, waits fifty milliseconds and reports success; otherwise it writes nothing more and reports
/// that the rate is too fast.
#[verifier::rlimit(50)]
pub proof fn bring_up_in_the_terms_of_the_chip(dev: Baro, config: BaroConfig, block: Seq<u8>)
    requires
        block.len() == 0 || block.len() == 21,
    ensures
        ({
            let run = brought_up(dev, config, seq![Seq::empty(), block, Seq::empty()]);
            let addr = dev.regs.addr;
            let count = config.osr_p.conversions() + config.osr_t.conversions();
            let fits = 939 + 2000 * count < config.odr.period();
            &&& run.reads == seq![I2cOp::Read { addr, reg: 0x31, len: 21 }]
            &&& run.outcome == Some(
                if fits {
                    Ok::<(), ConfigError>(())
                } else {
                    Err(ConfigError::OdrTooFast)
                },
            )
            &&& run.delay_ms == if fits {
                55nat
            } else {
                5nat
            }
            &&& run.writes.len() == if fits {
                4nat
            } else {
                1nat
            }
            &&& run.writes[0] == (I2cOp::Write { addr, reg: 0x7E, val: 0xB6 })
            &&& fits ==> {
                &&& run.writes[1] matches I2cOp::Write { addr: a, reg, val } && a == addr && reg
                    == 0x1C && val < 64 && config.osr_p.conversions() == pow2((val % 8) as nat)
                    && config.osr_t.conversions() == pow2((val / 8) as nat)
                &&& run.writes[2] matches I2cOp::Write { addr: a, reg, val } && a == addr && reg
                    == 0x1D && config.odr.period() == 5000 * pow2(val as nat)
                &&& run.writes[3] == (I2cOp::Write { addr, reg: 0x1B, val: 0x33 })
            }
        }),
{
    bring_up_configures_or_refuses(dev, config, block);
    codes_count_doublings(config.osr_p, config.odr);
    codes_count_doublings(config.osr_t, config.odr);
}

/// After bring-up the driver reads samples with the calibration that came: every byte of the block
/// is in it, or zeros where no block came.
pub proof fn bring_up_keeps_every_byte(dev: Baro, config: BaroConfig, block: Seq<u8>)
    requires
        block.len() == 0 || block.len() == 21,
    ensures
        ({
            let (dev2, p2, s2) = dev.next(
                BaroBringUp { config, phase: BaroPhase::Calibrating },
                block,
            );
            let (dev3, p3, s3) = dev2.next(
                BaroBringUp { config, phase: BaroPhase::Converting },
                Seq::empty(),
            );
            &&& block.len() == 21 ==> dev2.calib == calib_of(block)
            &&& block.len() == 0 ==> dev2.calib == calib_of(Seq::new(21, |i: int| 0u8))
            &&& dev2.regs == dev.regs
            &&& dev3 == dev2
        }),
{
}

/// What the coefficients are before the calibration is read: nought, but for the two that are stored
/// with 2^14 added, which are that.
pub proof fn coefficients_before_calibration()
    ensures
        no_calib().p1 - 0x4000 == 0,
        no_calib().p2 - 0x4000 == 0,
        ({
            let c = no_calib();
            c.t1 == 0 && c.t2 == 0 && c.t3 == 0 && c.p3 == 0 && c.p4 == 0 && c.p5 == 0 && c.p6 == 0
                && c.p7 == 0 && c.p8 == 0 && c.p9 == 0 && c.p10 == 0 && c.p11 == 0
        }),
{
}

} // verus!
