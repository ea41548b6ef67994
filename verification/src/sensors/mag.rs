//! Register-level driver for the ARK FPV's IIS2MDC/LIS2MDL magnetometer on I2C4.
//!
//! The IIS2MDC and the LIS2MDL are the same three-axis part at the same address with the same
//! register map. The driver identifies the chip, resets it, starts continuous conversion with
//! on-chip temperature compensation, and turns raw output registers into a [`MagSample`].
use vstd::prelude::*;

use crate::i2c_regs::{lemma_registers_push, registers_after, I2cOp, I2cRegs};
use crate::sensors::{
    after_pauses, brought_up, lemma_after_pauses, played, BringUp, Identify, Played, Sensor,
    SoftReset, Step, StepView, Wait,
};
use crate::words::{signed16, signed_word};

verus! {

/// 7-bit I2C address, fixed on this part.
pub const ADDR: u8 = 0x1E;

pub const REG_WHO_AM_I: u8 = 0x4F;

/// COMP_TEMP_EN in bit 7, SOFT_RST in bit 5, ODR in bits 3..2, MD in bits 1..0.
pub const REG_CFG_A: u8 = 0x60;

/// OFF_CANC in bit 1.
pub const REG_CFG_B: u8 = 0x61;

/// BDU in bit 4.
pub const REG_CFG_C: u8 = 0x62;

pub const REG_STATUS: u8 = 0x67;

/// X, Y and Z, two bytes each, low byte first.
pub const REG_OUTX_L: u8 = 0x68;

/// Two bytes, low byte first.
pub const REG_TEMP_L: u8 = 0x6E;

/// The identity an IIS2MDC/LIS2MDL reports.
pub const EXPECTED_WHO_AM_I: u8 = 0x40;

/// On-chip hard-iron and temperature compensation.
pub const CFG_A_COMP_TEMP_EN: u8 = 0x80;

/// Reset of the configuration registers; the chip clears the bit when it is through.
pub const CFG_A_SOFT_RST: u8 = 0x20;

/// Offset cancellation.
pub const CFG_B_VAL: u8 = 0x02;

/// Block data update: the output registers stay as they are while they are being read.
pub const CFG_C_BDU: u8 = 0x10;

/// Status bit: a full X/Y/Z set is ready.
pub const STATUS_ZYXDA: u8 = 0x08;

/// How often bring-up looks whether the reset has finished, at most.
pub const RESET_POLLS: u32 = 10;

/// How often bring-up looks whether continuous mode has latched, at most.
pub const LATCH_POLLS: u32 = 10;

/// Pause before each look at the reset bit, in milliseconds.
pub const RESET_POLL_MS: u32 = 2;

/// Pause before each look at the mode bits, in milliseconds.
pub const LATCH_POLL_MS: u32 = 10;

/// Output data rate. A low-bandwidth sensor: poll at or below this rate.
#[derive(Clone, Copy, Debug, PartialEq, Eq, Structural)]
pub enum MagOdr {
    Hz10,
    Hz20,
    Hz50,
    Hz100,
}

impl MagOdr {
    /// The rate's code, which the chip takes in bits 3..2 of CFG_REG_A.
    pub open spec fn code(self) -> int {
        match self {
            MagOdr::Hz10 => 0,
            MagOdr::Hz20 => 1,
            MagOdr::Hz50 => 2,
            MagOdr::Hz100 => 3,
        }
    }

    /// The rate's field in CFG_REG_A, in place.
    pub fn reg(self) -> (r: u8)
        ensures
            r == 4 * self.code(),
    {
        match self {
            MagOdr::Hz10 => 0x00,
            MagOdr::Hz20 => 0x04,
            MagOdr::Hz50 => 0x08,
            MagOdr::Hz100 => 0x0C,
        }
    }
}

/// Whether a CFG_REG_A value says that the reset has finished: bit 5 is clear.
pub open spec fn reset_finished(cfg_a: u8) -> bool {
    (cfg_a / 32) % 2 == 0
}

/// Whether a CFG_REG_A value says that conversions are running: both mode bits, 1 and 0, are
/// clear.
pub open spec fn continuous(cfg_a: u8) -> bool {
    cfg_a % 4 == 0
}

/// Whether a look at the reset bit found the reset finished. A read that failed found nothing.
pub open spec fn reset_seen(reply: Seq<u8>) -> bool {
    reply.len() > 0 && reset_finished(reply[0])
}

/// Whether a look at the mode bits found conversions running. A read that failed found nothing.
pub open spec fn running_seen(reply: Seq<u8>) -> bool {
    reply.len() > 0 && continuous(reply[0])
}

/// Whether a status value says that a fresh X/Y/Z set is there: bit 3 is set.
pub open spec fn fresh(status: u8) -> bool {
    (status / 8) % 2 == 1
}

/// The CFG_REG_A value that asks for temperature compensation, `odr` and continuous mode.
pub open spec fn continuous_cfg(odr: MagOdr) -> int {
    CFG_A_COMP_TEMP_EN + 4 * odr.code()
}

/// The magnetometer.
#[derive(Clone, Copy, Debug, PartialEq, Eq, Structural)]
pub struct Mag {
    pub regs: I2cRegs,
}

/// The bytes of one reading: X, Y and Z, then the temperature, each low byte first.
#[derive(Clone, Copy, Debug)]
pub struct MagRaw {
    pub field: [u8; 6],
    pub temp: [u8; 2],
}

/// One sample, exact in integer units.
#[derive(Clone, Copy, Debug, PartialEq, Eq)]
pub struct MagSample {
    /// X, Y and Z in nanotesla.
    pub field_nt: [i32; 3],
    /// Die temperature in thousandths of a degree Celsius.
    pub temp_mc: i32,
}

/// What an output register counts: 1.5 milligauss, which is 150 nT.
pub const NT_PER_LSB: i32 = 150;

/// What the temperature register counts: an eighth of a degree.
pub const TEMP_MC_PER_LSB: i32 = 125;

/// The temperature at which that register reads zero.
pub const TEMP_REF_MC: i32 = 25_000;

/// How far a bring-up sequence has come.
#[derive(Clone, Copy, Debug, PartialEq, Eq, Structural)]
pub enum MagPhase {
    /// Pausing before look number `polls` at the reset bit.
    ResetPause { polls: u32 },
    /// Waiting for the answer to look number `polls` at the reset bit.
    ResetLook { polls: u32 },
    /// Pausing before look number `polls` at the mode bits.
    LatchPause { polls: u32 },
    /// Waiting for the answer to look number `polls` at the mode bits.
    LatchLook { polls: u32 },
    /// The outcome is out.
    Over,
}

/// A magnetometer bring-up sequence under way.
#[derive(Clone, Copy, Debug, PartialEq, Eq, Structural)]
pub struct MagBringUp {
    pub odr: MagOdr,
    pub phase: MagPhase,
}

impl Mag {
    /// The write that asks for continuous mode.
    pub open spec fn continuous_op(self, odr: MagOdr) -> I2cOp {
        self.regs.writing(REG_CFG_A, continuous_cfg(odr) as u8)
    }

    /// The writes that configure the chip, the mode last.
    pub open spec fn configure_ops(self, odr: MagOdr) -> Seq<I2cOp> {
        seq![
            self.regs.writing(REG_CFG_C, CFG_C_BDU),
            self.regs.writing(REG_CFG_B, CFG_B_VAL),
            self.continuous_op(odr),
        ]
    }

    /// The two reads of one sample.
    pub open spec fn sample_ops(self) -> Seq<I2cOp> {
        seq![self.regs.reading(REG_OUTX_L, 6), self.regs.reading(REG_TEMP_L, 2)]
    }

    /// The magnetometer at its fixed address.
    pub fn new() -> (m: Mag)
        ensures
            m.regs.addr == ADDR,
    {
        Mag { regs: I2cRegs::new(ADDR) }
    }

    /// Read the identity register.
    pub fn who_am_i(&self) -> (op: I2cOp)
        ensures
            self.asks_id(op),
            op == self.regs.reading(REG_WHO_AM_I, 1),
    {
        self.regs.read_reg(REG_WHO_AM_I)
    }

    /// Read the register that holds the reset bit.
    pub fn reset_query(&self) -> (op: I2cOp)
        ensures
            op == self.regs.reading(REG_CFG_A, 1),
    {
        self.regs.read_regs(REG_CFG_A, 1)
    }

    /// Whether a CFG_REG_A value says that the soft reset has finished.
    pub fn reset_complete(cfg_a: u8) -> (done: bool)
        ensures
            done == reset_finished(cfg_a),
    {
        assert((cfg_a & 0x20 == 0) == ((cfg_a / 32) % 2 == 0)) by (bit_vector);
        cfg_a & CFG_A_SOFT_RST == 0
    }

    /// Set block data update and offset cancellation, then ask for continuous mode. The mode is
    /// written last, so that conversions start only once the rest is set. The first such write
    /// after a reset often does not hold: check with [`is_continuous`](Self::is_continuous).
    pub fn configure(&self, odr: MagOdr) -> (ops: Vec<I2cOp>)
        ensures
            ops@ == self.configure_ops(odr),
    {
        vec![
            self.regs.write_reg(REG_CFG_C, CFG_C_BDU),
            self.regs.write_reg(REG_CFG_B, CFG_B_VAL),
            self.start_continuous(odr),
        ]
    }

    /// Ask for temperature compensation, `odr` and continuous mode. Safe to repeat until it holds.
    pub fn start_continuous(&self, odr: MagOdr) -> (op: I2cOp)
        ensures
            op == self.continuous_op(odr),
    {
        let field: u8 = odr.reg();
        assert(0x80u8 | field == 0x80 + field) by (bit_vector)
            requires
                field == 0 || field == 4 || field == 8 || field == 12,
        ;
        self.regs.write_reg(REG_CFG_A, CFG_A_COMP_TEMP_EN | field)
    }

    /// Read the three configuration registers (they follow one another).
    pub fn cfg_query(&self) -> (op: I2cOp)
        ensures
            op == self.regs.reading(REG_CFG_A, 3),
    {
        self.regs.read_regs(REG_CFG_A, 3)
    }

    /// The three configuration registers CFG_A, CFG_B and CFG_C out of their bytes.
    pub fn read_cfg(b: &[u8; 3]) -> (cfg: (u8, u8, u8))
        ensures
            cfg == (b[0], b[1], b[2]),
    {
        (b[0], b[1], b[2])
    }

    /// Whether the configuration registers say that conversions are running.
    pub fn is_continuous(cfg: (u8, u8, u8)) -> (running: bool)
        ensures
            running == continuous(cfg.0),
    {
        let a: u8 = cfg.0;
        assert((a & 0b11 == 0) == (a % 4 == 0)) by (bit_vector);
        a & 0b11 == 0
    }

    /// Read the status register.
    pub fn status(&self) -> (op: I2cOp)
        ensures
            op == self.regs.reading(REG_STATUS, 1),
    {
        self.regs.read_reg(REG_STATUS)
    }

    /// Whether a status value says that a fresh X/Y/Z set is there.
    pub fn data_ready(status: u8) -> (ready: bool)
        ensures
            ready == fresh(status),
    {
        assert((status & 0x08 != 0) == ((status / 8) % 2 == 1)) by (bit_vector);
        status & STATUS_ZYXDA != 0
    }

    /// The two reads of one sample: first the field, then the temperature.
    pub fn sample_queries(&self) -> (ops: Vec<I2cOp>)
        ensures
            ops@ == self.sample_ops(),
    {
        vec![self.regs.read_regs(REG_OUTX_L, 6), self.regs.read_regs(REG_TEMP_L, 2)]
    }
}

impl Sensor for Mag {
    type Raw = MagRaw;

    type Sample = MagSample;

    open spec fn reads_as(&self, raw: MagRaw, sample: MagSample) -> bool {
        &&& forall|i: int|
            0 <= i < 3 ==> #[trigger] sample.field_nt[i] == NT_PER_LSB * signed_word(
                raw.field[2 * i],
                raw.field[2 * i + 1],
            )
        &&& sample.temp_mc == TEMP_REF_MC + TEMP_MC_PER_LSB * signed_word(raw.temp[0], raw.temp[1])
    }

    /// Scale the output registers to nanotesla and thousandths of a degree.
    fn read(&self, raw: &MagRaw) -> (sample: MagSample) {
        let b = raw.field;
        let x: i32 = NT_PER_LSB * signed16(b[0], b[1]) as i32;
        let y: i32 = NT_PER_LSB * signed16(b[2], b[3]) as i32;
        let z: i32 = NT_PER_LSB * signed16(b[4], b[5]) as i32;
        let t: i32 = signed16(raw.temp[0], raw.temp[1]) as i32;
        MagSample { field_nt: [x, y, z], temp_mc: TEMP_REF_MC + TEMP_MC_PER_LSB * t }
    }
}

impl Identify for Mag {
    type Request = I2cOp;

    open spec fn asks_id(&self, request: I2cOp) -> bool {
        request == self.regs.reading(REG_WHO_AM_I, 1)
    }

    open spec fn accepts(id: u8) -> bool {
        id == EXPECTED_WHO_AM_I
    }

    fn read_id(&self) -> (request: I2cOp) {
        self.who_am_i()
    }

    fn id_matches(id: u8) -> (b: bool) {
        id == EXPECTED_WHO_AM_I
    }
}

impl SoftReset for Mag {
    type Request = I2cOp;

    open spec fn resets(&self, request: I2cOp) -> bool {
        request == self.regs.writing(REG_CFG_A, CFG_A_SOFT_RST)
    }

    /// Reset the configuration registers. The chip clears the reset bit when it is through, and
    /// configuring it before that would be undone: look with [`reset_query`](Mag::reset_query)
    /// until [`reset_complete`](Mag::reset_complete) holds.
    fn soft_reset(&self) -> (request: I2cOp) {
        self.regs.write_reg(REG_CFG_A, CFG_A_SOFT_RST)
    }
}

impl BringUp for Mag {
    type Config = MagOdr;

    type Progress = MagBringUp;

    type Output = bool;

    open spec fn started(self, odr: MagOdr) -> (MagBringUp, StepView<bool>) {
        (
            MagBringUp { odr, phase: MagPhase::ResetPause { polls: 0 } },
            StepView {
                writes: seq![self.regs.writing(REG_CFG_A, CFG_A_SOFT_RST)],
                wait: Wait::Delay(RESET_POLL_MS),
            },
        )
    }

    open spec fn awaits(self, b: MagBringUp, reply: Seq<u8>) -> bool {
        match b.phase {
            MagPhase::ResetPause { polls } => polls < RESET_POLLS && reply.len() == 0,
            MagPhase::ResetLook { polls } => polls < RESET_POLLS && (reply.len() == 0
                || reply.len() == 1),
            MagPhase::LatchPause { polls } => polls < LATCH_POLLS && reply.len() == 0,
            MagPhase::LatchLook { polls } => polls < LATCH_POLLS && (reply.len() == 0
                || reply.len() == 3),
            MagPhase::Over => false,
        }
    }

    open spec fn next(self, b: MagBringUp, reply: Seq<u8>) -> (Mag, MagBringUp, StepView<bool>) {
        let odr = b.odr;
        let (phase, writes, wait) = match b.phase {
            MagPhase::ResetPause { polls } => (
                MagPhase::ResetLook { polls },
                Seq::empty(),
                Wait::Read(self.regs.reading(REG_CFG_A, 1)),
            ),
            MagPhase::ResetLook { polls } => if reset_seen(reply) || polls + 1 == RESET_POLLS {
                (
                    MagPhase::LatchPause { polls: 0 },
                    self.configure_ops(odr),
                    Wait::Delay(LATCH_POLL_MS),
                )
            } else {
                (
                    MagPhase::ResetPause { polls: (polls + 1) as u32 },
                    Seq::empty(),
                    Wait::Delay(RESET_POLL_MS),
                )
            },
            MagPhase::LatchPause { polls } => (
                MagPhase::LatchLook { polls },
                Seq::empty(),
                Wait::Read(self.regs.reading(REG_CFG_A, 3)),
            ),
            MagPhase::LatchLook { polls } => if running_seen(reply) {
                (MagPhase::Over, Seq::empty(), Wait::Done(true))
            } else if polls + 1 == LATCH_POLLS {
                (MagPhase::Over, seq![self.continuous_op(odr)], Wait::Done(false))
            } else {
                (
                    MagPhase::LatchPause { polls: (polls + 1) as u32 },
                    seq![self.continuous_op(odr)],
                    Wait::Delay(LATCH_POLL_MS),
                )
            },
            MagPhase::Over => (MagPhase::Over, Seq::empty(), Wait::Done(false)),
        };
        (self, MagBringUp { odr, phase }, StepView { writes, wait })
    }

    /// Start a full bring-up: reset, wait for the reset bit to clear, configure, then repeat the
    /// request for continuous mode until it holds. The outcome says whether it did.
    fn bring_up(&self, odr: MagOdr) -> (r: (MagBringUp, Step<bool>)) {
        let step = Step { writes: vec![self.soft_reset()], wait: Wait::Delay(RESET_POLL_MS) };
        proof {
            assert(step.writes@ =~= seq![self.regs.writing(REG_CFG_A, CFG_A_SOFT_RST)]);
        }
        (MagBringUp { odr, phase: MagPhase::ResetPause { polls: 0 } }, step)
    }

    fn resume(&mut self, b: MagBringUp, reply: &[u8]) -> (r: (MagBringUp, Step<bool>)) {
        let odr = b.odr;
        let (phase, writes, wait) = match b.phase {
            MagPhase::ResetPause { polls } => (
                MagPhase::ResetLook { polls },
                vec![],
                Wait::Read(self.reset_query()),
            ),
            MagPhase::ResetLook { polls } => if (reply.len() > 0 && Self::reset_complete(
                reply[0],
            )) || polls + 1 == RESET_POLLS {
                (
                    MagPhase::LatchPause { polls: 0 },
                    self.configure(odr),
                    Wait::Delay(LATCH_POLL_MS),
                )
            } else {
                (MagPhase::ResetPause { polls: polls + 1 }, vec![], Wait::Delay(RESET_POLL_MS))
            },
            MagPhase::LatchPause { polls } => (
                MagPhase::LatchLook { polls },
                vec![],
                Wait::Read(self.cfg_query()),
            ),
            MagPhase::LatchLook { polls } => {
                let running = reply.len() > 0 && Self::is_continuous(
                    Self::read_cfg(&[reply[0], reply[1], reply[2]]),
                );
                if running {
                    (MagPhase::Over, vec![], Wait::Done(true))
                } else {
                    let again = self.start_continuous(odr);
                    if polls + 1 == LATCH_POLLS {
                        (MagPhase::Over, vec![again], Wait::Done(false))
                    } else {
                        (
                            MagPhase::LatchPause { polls: polls + 1 },
                            vec![again],
                            Wait::Delay(LATCH_POLL_MS),
                        )
                    }
                }
            },
            MagPhase::Over => (MagPhase::Over, vec![], Wait::Done(false)),
        };
        let step = Step { writes, wait };
        proof {
            assert(step@.writes =~= old(self).next(b, reply@).2.writes);
        }
        (MagBringUp { odr, phase }, step)
    }
}

/// `op` written `n` times over.
pub open spec fn repeated(op: I2cOp, n: nat) -> Seq<I2cOp> {
    Seq::new(n, |i: int| op)
}

/// Whether `looks` are answers that make bring-up look exactly this often, at most `limit` times:
/// each but the last was refused, and the last was taken or used up the last try.
pub open spec fn looked(
    looks: Seq<Seq<u8>>,
    limit: int,
    accepted: spec_fn(Seq<u8>) -> bool,
) -> bool {
    &&& 1 <= looks.len() <= limit
    &&& forall|i: int| 0 <= i < looks.len() - 1 ==> !accepted(#[trigger] looks[i])
    &&& looks.len() == limit || accepted(looks.last())
}

/// What the tail of bring-up amounts to, from look number `polls` at the mode bits on.
proof fn lemma_latching(dev: Mag, odr: MagOdr, polls: u32, looks: Seq<Seq<u8>>)
    requires
        polls < LATCH_POLLS,
        looked(looks, LATCH_POLLS - polls, |v: Seq<u8>| running_seen(v)),
    ensures
        played(
            dev,
            MagBringUp { odr, phase: MagPhase::LatchPause { polls } },
            after_pauses(looks),
        ) == (Played {
            writes: repeated(
                dev.continuous_op(odr),
                (looks.len() - if running_seen(looks.last()) {
                    1int
                } else {
                    0int
                }) as nat,
            ),
            reads: repeated(dev.regs.reading(REG_CFG_A, 3), looks.len()),
            delay_ms: (LATCH_POLL_MS * (looks.len() - 1)) as nat,
            outcome: Some(running_seen(looks.last())),
        }),
    decreases looks.len(),
{
    let accepted = |v: Seq<u8>| running_seen(v);
    let replies = after_pauses(looks);
    let b = MagBringUp { odr, phase: MagPhase::LatchPause { polls } };
    lemma_after_pauses(looks);
    reveal_with_fuel(played, 3);
    if looks.len() == 1 {
        assert(looks.last() == looks[0]);
    } else {
        assert(!accepted(looks[0]));
        assert(looks.skip(1).last() == looks.last());
        assert forall|i: int| 0 <= i < looks.skip(1).len() - 1 implies !accepted(
            #[trigger] looks.skip(1)[i],
        ) by {
            assert(looks.skip(1)[i] == looks[i + 1]);
            assert(!accepted(looks[i + 1]));
        }
        lemma_latching(dev, odr, (polls + 1) as u32, looks.skip(1));
    }
    let expected = repeated(
        dev.continuous_op(odr),
        (looks.len() - if running_seen(looks.last()) {
            1int
        } else {
            0int
        }) as nat,
    );
    assert(played(dev, b, replies).writes =~= expected);
    assert(played(dev, b, replies).reads =~= repeated(
        dev.regs.reading(REG_CFG_A, 3),
        looks.len(),
    ));
}

/// What bring-up amounts to, from look number `polls` at the reset bit on.
proof fn lemma_resetting(
    dev: Mag,
    odr: MagOdr,
    polls: u32,
    resets: Seq<Seq<u8>>,
    latches: Seq<Seq<u8>>,
)
    requires
        polls < RESET_POLLS,
        looked(resets, RESET_POLLS - polls, |v: Seq<u8>| reset_seen(v)),
        looked(latches, LATCH_POLLS as int, |v: Seq<u8>| running_seen(v)),
    ensures
        played(
            dev,
            MagBringUp { odr, phase: MagPhase::ResetPause { polls } },
            after_pauses(resets + latches),
        ) == (Played {
            writes: dev.configure_ops(odr) + repeated(
                dev.continuous_op(odr),
                (latches.len() - if running_seen(latches.last()) {
                    1int
                } else {
                    0int
                }) as nat,
            ),
            reads: repeated(dev.regs.reading(REG_CFG_A, 1), resets.len()) + repeated(
                dev.regs.reading(REG_CFG_A, 3),
                latches.len(),
            ),
            delay_ms: (RESET_POLL_MS * (resets.len() - 1) + LATCH_POLL_MS * latches.len()) as nat,
            outcome: Some(running_seen(latches.last())),
        }),
    decreases resets.len(),
{
    let accepted = |v: Seq<u8>| reset_seen(v);
    let looks = resets + latches;
    let replies = after_pauses(looks);
    let b = MagBringUp { odr, phase: MagPhase::ResetPause { polls } };
    lemma_after_pauses(looks);
    reveal_with_fuel(played, 3);
    assert(looks[0] == resets[0]);
    if resets.len() == 1 {
        assert(resets.last() == resets[0]);
        assert(looks.skip(1) =~= latches);
        lemma_latching(dev, odr, 0, latches);
    } else {
        assert(!accepted(resets[0]));
        assert(resets.skip(1).last() == resets.last());
        assert forall|i: int| 0 <= i < resets.skip(1).len() - 1 implies !accepted(
            #[trigger] resets.skip(1)[i],
        ) by {
            assert(resets.skip(1)[i] == resets[i + 1]);
            assert(!accepted(resets[i + 1]));
        }
        assert(looks.skip(1) =~= resets.skip(1) + latches);
        lemma_resetting(dev, odr, (polls + 1) as u32, resets.skip(1), latches);
    }
    let expected = dev.configure_ops(odr) + repeated(
        dev.continuous_op(odr),
        (latches.len() - if running_seen(latches.last()) {
            1int
        } else {
            0int
        }) as nat,
    );
    assert(played(dev, b, replies).writes =~= expected);
    assert(played(dev, b, replies).reads =~= repeated(
        dev.regs.reading(REG_CFG_A, 1),
        resets.len(),
    ) + repeated(dev.regs.reading(REG_CFG_A, 3), latches.len()));
}

/// A whole bring-up, whatever the chip answers and whichever reads fail. It looks at the reset bit until it is clear and at
/// the mode bits until they are, ten times each at most. It writes the reset, then the
/// configuration, then asks for continuous mode again after every look that did not find it. It
/// reports whether the last look did.
pub proof fn bring_up_runs_to_its_end(
    dev: Mag,
    odr: MagOdr,
    resets: Seq<Seq<u8>>,
    latches: Seq<Seq<u8>>,
)
    requires
        looked(resets, RESET_POLLS as int, |v: Seq<u8>| reset_seen(v)),
        looked(latches, LATCH_POLLS as int, |v: Seq<u8>| running_seen(v)),
    ensures
        ({
            let run = brought_up(
                dev,
                odr,
                after_pauses(resets + latches),
            );
            let held = running_seen(latches.last());
            &&& run.outcome == Some(held)
            &&& run.writes == seq![dev.regs.writing(REG_CFG_A, CFG_A_SOFT_RST)]
                + dev.configure_ops(odr) + repeated(
                dev.continuous_op(odr),
                (latches.len() - if held {
                    1int
                } else {
                    0int
                }) as nat,
            )
            &&& run.reads == repeated(dev.regs.reading(REG_CFG_A, 1), resets.len()) + repeated(
                dev.regs.reading(REG_CFG_A, 3),
                latches.len(),
            )
            &&& run.delay_ms == RESET_POLL_MS * resets.len() + LATCH_POLL_MS * latches.len()
        }),
{
    lemma_resetting(dev, odr, 0, resets, latches);
    let held = running_seen(latches.last());
    let again = repeated(
        dev.continuous_op(odr),
        (latches.len() - if held {
            1int
        } else {
            0int
        }) as nat,
    );
    let first = seq![dev.regs.writing(REG_CFG_A, CFG_A_SOFT_RST)];
    assert(first + (dev.configure_ops(odr) + again) =~= first + dev.configure_ops(odr) + again);
}

/// Bring-up reports success only once conversions are confirmed: where no read ever comes back, it
/// looks as often as it may, asks for continuous mode again each time, and reports failure.
pub proof fn unanswered_bring_up_fails(dev: Mag, odr: MagOdr)
    ensures
        ({
            let lost = Seq::new((RESET_POLLS + LATCH_POLLS) as nat, |i: int| Seq::<u8>::empty());
            let run = brought_up(dev, odr, after_pauses(lost));
            &&& run.outcome == Some(false)
            &&& run.writes == seq![dev.regs.writing(REG_CFG_A, CFG_A_SOFT_RST)]
                + dev.configure_ops(odr) + repeated(dev.continuous_op(odr), LATCH_POLLS as nat)
        }),
{
    let resets = Seq::new(RESET_POLLS as nat, |i: int| Seq::<u8>::empty());
    let latches = Seq::new(LATCH_POLLS as nat, |i: int| Seq::<u8>::empty());
    let lost = Seq::new((RESET_POLLS + LATCH_POLLS) as nat, |i: int| Seq::<u8>::empty());
    assert(resets + latches =~= lost);
    bring_up_runs_to_its_end(dev, odr, resets, latches);
}

/// A chip that stores what it is told runs continuously once it is configured, with block data
/// update and offset cancellation set; asking for continuous mode again changes nothing.
pub proof fn configured_chip_is_continuous(dev: Mag, odr: MagOdr, regs: Map<u8, u8>, again: nat)
    ensures
        ({
            let after = registers_after(regs, dev.configure_ops(odr));
            &&& after[REG_CFG_A] == continuous_cfg(odr)
            &&& continuous(after[REG_CFG_A])
            &&& reset_finished(after[REG_CFG_A])
            &&& after[REG_CFG_B] == CFG_B_VAL
            &&& after[REG_CFG_C] == CFG_C_BDU
            &&& registers_after(
                regs,
                dev.configure_ops(odr) + repeated(dev.continuous_op(odr), again),
            ) == after
        }),
    decreases again,
{
    let ops = dev.configure_ops(odr);
    let c = dev.regs.writing(REG_CFG_C, CFG_C_BDU);
    let b = dev.regs.writing(REG_CFG_B, CFG_B_VAL);
    let a = dev.continuous_op(odr);
    assert(ops.drop_last() =~= seq![c, b]);
    assert(seq![c, b].drop_last() =~= seq![c]);
    assert(seq![c].drop_last() =~= Seq::<I2cOp>::empty());
    reveal_with_fuel(registers_after, 4);
    let v: u8 = continuous_cfg(odr) as u8;
    if again == 0 {
        assert(ops + repeated(a, 0) =~= ops);
    } else {
        let fewer = (again - 1) as nat;
        configured_chip_is_continuous(dev, odr, regs, fewer);
        assert(ops + repeated(a, again) =~= (ops + repeated(a, fewer)).push(a));
        lemma_registers_push(regs, ops + repeated(a, fewer), a);
        let after = registers_after(regs, ops);
        assert(after.insert(REG_CFG_A, v) =~= after);
    }
}

/// Every axis is read with its sign and to the same scale: a count is the one 16-bit signed number
/// that agrees with its two bytes, and is worth 1.5 milligauss, which is 150 nanotesla.
pub proof fn field_is_signed_and_to_scale(dev: Mag, raw: MagRaw, sample: MagSample, i: int)
    requires
        dev.reads_as(raw, sample),
        0 <= i < 3,
    ensures
        sample.field_nt[i] as int % 150 == 0,
        -150 * 32768 <= sample.field_nt[i] <= 150 * 32767,
        (sample.field_nt[i] as int / 150) % 65536 == 256 * raw.field[2 * i + 1] + raw.field[2 * i],
{
}

/// The temperature is read with its sign: 25 degrees where the register reads zero, and a degree
/// more for every eight counts.
pub proof fn temperature_is_signed_and_to_scale(dev: Mag, raw: MagRaw, sample: MagSample)
    requires
        dev.reads_as(raw, sample),
    ensures
        ({
            let above = sample.temp_mc - 25_000;
            let count = above * 8 / 1000;
            &&& above * 8 % 1000 == 0
            &&& -32768 <= count <= 32767
            &&& count % 65536 == 256 * raw.temp[1] + raw.temp[0]
        }),
{
}

/// Turning the board round, which negates the registers, negates the field on every axis. The one
/// pattern without a negative is left out.
pub proof fn turning_round_negates_the_field(
    dev: Mag,
    raw: MagRaw,
    turned: MagRaw,
    sample: MagSample,
    turned_sample: MagSample,
    i: int,
)
    requires
        dev.reads_as(raw, sample),
        dev.reads_as(turned, turned_sample),
        0 <= i < 3,
        raw.field[2 * i] + turned.field[2 * i] + 256 * (raw.field[2 * i + 1] + turned.field[2 * i
            + 1]) == 65536,
        !(raw.field[2 * i + 1] == 128 && raw.field[2 * i] == 0),
    ensures
        turned_sample.field_nt[i] == -sample.field_nt[i],
{
}

/// Equal byte pairs read alike on all three axes, in the same reading or in two.
pub proof fn axes_read_alike(
    dev: Mag,
    raw: MagRaw,
    other: MagRaw,
    sample: MagSample,
    other_sample: MagSample,
    i: int,
    j: int,
)
    requires
        dev.reads_as(raw, sample),
        dev.reads_as(other, other_sample),
        0 <= i < 3,
        0 <= j < 3,
        raw.field[2 * i] == other.field[2 * j],
        raw.field[2 * i + 1] == other.field[2 * j + 1],
    ensures
        sample.field_nt[i] == other_sample.field_nt[j],
{
}

/// The requests of the driver, by register: identity at 0x4F (an IIS2MDC/LIS2MDL answers 0x40),
/// reset by bit 5 of 0x60, and a sample as six bytes from 0x68 on and two from 0x6E on.
pub proof fn requests_name_their_registers(dev: Mag, request: I2cOp, id: u8)
    ensures
        dev.asks_id(request) <==> request == (I2cOp::Read {
            addr: dev.regs.addr,
            reg: 0x4F,
            len: 1,
        }),
        Mag::accepts(id) <==> id == 0x40,
        dev.resets(request) <==> request == (I2cOp::Write {
            addr: dev.regs.addr,
            reg: 0x60,
            val: 0x20,
        }),
        dev.sample_ops() == seq![
            I2cOp::Read { addr: dev.regs.addr, reg: 0x68, len: 6 },
            I2cOp::Read { addr: dev.regs.addr, reg: 0x6E, len: 2 },
        ],
        ADDR == 0x1E,
{
}

/// The three questions asked of a register, bit by bit: a reset has finished where bit 5 is clear,
/// conversions run where bits 1 and 0 are clear, and a sample is fresh where bit 3 is set.
pub proof fn register_bits_decide(v: u8)
    ensures
        reset_finished(v) <==> v & 0b0010_0000 == 0,
        continuous(v) <==> v & 0b0000_0011 == 0,
        fresh(v) <==> v & 0b0000_1000 != 0,
{
    assert((v & 0x20 == 0) == ((v / 32) % 2 == 0)) by (bit_vector);
    assert((v & 0x03 == 0) == (v % 4 == 0)) by (bit_vector);
    assert((v & 0x08 != 0) == ((v / 8) % 2 == 1)) by (bit_vector);
}

/// What a configuration leaves in a chip that stores what it is told: temperature compensation on,
/// the code of the rate in bits 3 and 2, continuous mode, offset cancellation and block data update.
/// Registers that are not named stay as they were.
pub proof fn configured_registers(dev: Mag, odr: MagOdr, regs: Map<u8, u8>, other: u8)
    ensures
        ({
            let after = registers_after(regs, dev.configure_ops(odr));
            let code = match odr {
                MagOdr::Hz10 => 0int,
                MagOdr::Hz20 => 1int,
                MagOdr::Hz50 => 2int,
                MagOdr::Hz100 => 3int,
            };
            &&& after[0x60] == 0x80 + 4 * code
            &&& after[0x61] == 0x02
            &&& after[0x62] == 0x10
            &&& other != 0x60 && other != 0x61 && other != 0x62 && regs.dom().contains(other)
                ==> after[other] == regs[other]
        }),
{
    let ops = dev.configure_ops(odr);
    assert(ops.drop_last().drop_last().drop_last() =~= Seq::<I2cOp>::empty());
    reveal_with_fuel(registers_after, 4);
}

/// A whole bring-up in the terms of the chip: the reset is written, the reset bit is looked at up to
/// ten times two milliseconds apart until a read finds it clear, then block data update, offset
/// cancellation and continuous mode are written, and the mode bits are looked at up to ten times ten
/// milliseconds apart until a read finds them clear. Each look that does not find them clear, or
/// does not come back, writes the mode again. Success is reported exactly where the last look found
/// them clear.
#[verifier::rlimit(50)]
pub proof fn bring_up_in_the_terms_of_the_chip(
    dev: Mag,
    odr: MagOdr,
    resets: Seq<Seq<u8>>,
    latches: Seq<Seq<u8>>,
)
    requires
        1 <= resets.len() <= 10,
        1 <= latches.len() <= 10,
        forall|i: int|
            0 <= i < resets.len() - 1 ==> #[trigger] resets[i].len() == 0 || resets[i][0] & 0x20
                != 0,
        resets.len() == 10 || (resets.last().len() > 0 && resets.last()[0] & 0x20 == 0),
        forall|i: int|
            0 <= i < latches.len() - 1 ==> #[trigger] latches[i].len() == 0 || latches[i][0] & 0x03
                != 0,
        latches.len() == 10 || (latches.last().len() > 0 && latches.last()[0] & 0x03 == 0),
    ensures
        ({
            let run = brought_up(dev, odr, after_pauses(resets + latches));
            let addr = dev.regs.addr;
            let held = latches.last().len() > 0 && latches.last()[0] & 0x03 == 0;
            let mode: u8 = match odr {
                MagOdr::Hz10 => 0x80,
                MagOdr::Hz20 => 0x84,
                MagOdr::Hz50 => 0x88,
                MagOdr::Hz100 => 0x8C,
            };
            &&& run.outcome == Some(held)
            &&& run.delay_ms == 2 * resets.len() + 10 * latches.len()
            &&& run.reads.len() == resets.len() + latches.len()
            &&& forall|i: int|
                0 <= i < run.reads.len() ==> #[trigger] run.reads[i] == (I2cOp::Read {
                    addr,
                    reg: 0x60,
                    len: if i < resets.len() {
                        1
                    } else {
                        3
                    },
                })
            &&& run.writes.len() == 4 + latches.len() - if held {
                1int
            } else {
                0int
            }
            &&& run.writes[0] == (I2cOp::Write { addr, reg: 0x60, val: 0x20 })
            &&& run.writes[1] == (I2cOp::Write { addr, reg: 0x62, val: 0x10 })
            &&& run.writes[2] == (I2cOp::Write { addr, reg: 0x61, val: 0x02 })
            &&& forall|i: int|
                3 <= i < run.writes.len() ==> #[trigger] run.writes[i] == (I2cOp::Write {
                    addr,
                    reg: 0x60,
                    val: mode,
                })
        }),
{
    assert forall|i: int| 0 <= i < resets.len() implies reset_seen(#[trigger] resets[i]) == (
    resets[i].len() > 0 && resets[i][0] & 0x20 == 0) by {
        if resets[i].len() > 0 {
            register_bits_decide(resets[i][0]);
        }
    }
    assert forall|i: int| 0 <= i < latches.len() implies running_seen(#[trigger] latches[i]) == (
    latches[i].len() > 0 && latches[i][0] & 0x03 == 0) by {
        if latches[i].len() > 0 {
            register_bits_decide(latches[i][0]);
        }
    }
    assert(resets.last() == resets[resets.len() - 1]);
    assert(latches.last() == latches[latches.len() - 1]);
    bring_up_runs_to_its_end(dev, odr, resets, latches);
}

} // verus!
