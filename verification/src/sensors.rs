//! The sensor role layer: what the drivers have in common.
//!
//! A driver never touches a bus. It says which transactions to perform and makes sense of the
//! bytes that come back, so that whoever owns the bus only carries them out. The traits name the
//! shape that the drivers share: identify, reset, bring up, read a typed sample.
use vstd::prelude::*;

use crate::i2c_regs::I2cOp;

pub mod baro;
pub mod imu;
pub mod mag;

verus! {

/// Turns the bytes that a device answers into one typed sample.
///
/// The sample is an associated type because the sensors measure different things in different
/// units.
pub trait Sensor {
    /// The bytes of one reading.
    type Raw;

    /// The driver's unit-bearing output.
    type Sample;

    /// Whether `sample` is what the bytes `raw` say.
    spec fn reads_as(&self, raw: Self::Raw, sample: Self::Sample) -> bool;

    /// Decode one reading.
    fn read(&self, raw: &Self::Raw) -> (sample: Self::Sample)
        ensures
            self.reads_as(*raw, sample),
    ;
}

/// Identification by an identity register.
///
/// Which identities are accepted is a function and not a constant because one driver may serve
/// several parts that answer differently.
pub trait Identify {
    /// What has to be done on the bus to read the identity register.
    type Request;

    /// The request for the identity register.
    spec fn asks_id(&self, request: Self::Request) -> bool;

    /// The identities this driver works with.
    spec fn accepts(id: u8) -> bool;

    /// Ask for the identity register.
    fn read_id(&self) -> (request: Self::Request)
        ensures
            self.asks_id(request),
    ;

    /// Whether this driver works with a device that answers `id`.
    fn id_matches(id: u8) -> (b: bool)
        ensures
            b == Self::accepts(id),
    ;

    /// Whether the device behind this driver, which answered `id`, is one it works with.
    fn identified(&self, id: u8) -> (b: bool)
        ensures
            b == Self::accepts(id),
    {
        Self::id_matches(id)
    }
}

/// Reset to a known state. What has to pass between the reset and the next access differs from
/// device to device and belongs to its bring-up.
pub trait SoftReset {
    /// What has to be done on the bus.
    type Request;

    /// The request that resets the device.
    spec fn resets(&self, request: Self::Request) -> bool;

    /// Ask for a reset.
    fn soft_reset(&self) -> (request: Self::Request)
        ensures
            self.resets(request),
    ;
}

/// What comes next in a bring-up sequence, once its writes are out.
#[derive(Debug, PartialEq, Eq)]
pub enum Wait<O> {
    /// Let this many milliseconds pass.
    Delay(u32),
    /// Perform this read and hand back its bytes.
    Read(I2cOp),
    /// The sequence is over, with this outcome.
    Done(O),
}

/// One step of a bring-up sequence: perform `writes` in order, then do what `wait` says.
pub struct Step<O> {
    pub writes: Vec<I2cOp>,
    pub wait: Wait<O>,
}

/// The mathematical side of a [`Step`].
#[verifier::ext_equal]
pub struct StepView<O> {
    pub writes: Seq<I2cOp>,
    pub wait: Wait<O>,
}

impl<O> View for Step<O> {
    type V = StepView<O>;

    open spec fn view(&self) -> StepView<O> {
        StepView { writes: self.writes@, wait: self.wait }
    }
}

/// Bring-up of a polled sensor: reset, settle, configure, wait, one step at a time. Whoever owns
/// the bus and the clock performs a step and comes back with the bytes that were read, or with
/// nothing after a pause or after a read that failed.
///
/// The interrupt-driven sensor has no such sequence: its set-up is one list of writes.
pub trait BringUp: Sized {
    /// What the device is to be set to.
    type Config;

    /// How far a sequence has come.
    type Progress;

    /// What a finished sequence reports.
    type Output;

    /// The first step and where it leads.
    spec fn started(self, config: Self::Config) -> (Self::Progress, StepView<Self::Output>);

    /// Whether `reply` is what the sequence waits for.
    spec fn awaits(self, progress: Self::Progress, reply: Seq<u8>) -> bool;

    /// What `reply` leads to: the driver, the progress and the step that follows.
    spec fn next(self, progress: Self::Progress, reply: Seq<u8>) -> (
        Self,
        Self::Progress,
        StepView<Self::Output>,
    );

    /// Begin the sequence.
    fn bring_up(&self, config: Self::Config) -> (r: (Self::Progress, Step<Self::Output>))
        ensures
            (r.0, r.1@) == self.started(config),
    ;

    /// Go on with the sequence.
    fn resume(&mut self, progress: Self::Progress, reply: &[u8]) -> (r: (
        Self::Progress,
        Step<Self::Output>,
    ))
        requires
            old(self).awaits(progress, reply@),
        ensures
            (*final(self), r.0, r.1@) == old(self).next(progress, reply@),
    ;
}

/// What a stretch of a bring-up sequence amounts to.
#[verifier::ext_equal]
pub struct Played<O> {
    /// All that was written, in order.
    pub writes: Seq<I2cOp>,
    /// All that was read, in order.
    pub reads: Seq<I2cOp>,
    /// How long the pauses were together, in milliseconds.
    pub delay_ms: nat,
    /// The outcome, where the sequence came to its end.
    pub outcome: Option<O>,
}

/// The sequence from `progress` on, with `replies` as the answers to its steps.
pub open spec fn played<D: BringUp>(
    device: D,
    progress: D::Progress,
    replies: Seq<Seq<u8>>,
) -> Played<D::Output>
    decreases replies.len(),
{
    if replies.len() == 0 {
        Played { writes: Seq::empty(), reads: Seq::empty(), delay_ms: 0, outcome: None }
    } else {
        let (device2, progress2, step) = device.next(progress, replies[0]);
        match step.wait {
            Wait::Done(o) => Played {
                writes: step.writes,
                reads: Seq::empty(),
                delay_ms: 0,
                outcome: Some(o),
            },
            Wait::Delay(ms) => {
                let rest = played(device2, progress2, replies.skip(1));
                Played {
                    writes: step.writes + rest.writes,
                    reads: rest.reads,
                    delay_ms: ms as nat + rest.delay_ms,
                    outcome: rest.outcome,
                }
            },
            Wait::Read(op) => {
                let rest = played(device2, progress2, replies.skip(1));
                Played {
                    writes: step.writes + rest.writes,
                    reads: seq![op] + rest.reads,
                    delay_ms: rest.delay_ms,
                    outcome: rest.outcome,
                }
            },
        }
    }
}

/// The whole sequence for `config`.
pub open spec fn brought_up<D: BringUp>(
    device: D,
    config: D::Config,
    replies: Seq<Seq<u8>>,
) -> Played<D::Output> {
    let (progress, step) = device.started(config);
    let rest = played(device, progress, replies);
    Played {
        writes: step.writes + rest.writes,
        reads: rest.reads,
        delay_ms: (match step.wait {
            Wait::Delay(ms) => ms as nat,
            _ => 0,
        }) + rest.delay_ms,
        outcome: rest.outcome,
    }
}

/// The answers to a sequence that pauses before each of its reads: nothing after the pause, then
/// the bytes of the read.
pub open spec fn after_pauses(looks: Seq<Seq<u8>>) -> Seq<Seq<u8>> {
    Seq::new(
        2 * looks.len(),
        |i: int|
            if i % 2 == 0 {
                Seq::<u8>::empty()
            } else {
                looks[i / 2]
            },
    )
}

/// The first pause and the first read of such a list of answers, and what comes after them.
pub proof fn lemma_after_pauses(looks: Seq<Seq<u8>>)
    requires
        looks.len() > 0,
    ensures
        after_pauses(looks).len() == 2 * looks.len(),
        after_pauses(looks)[0] == Seq::<u8>::empty(),
        after_pauses(looks).skip(1)[0] == looks[0],
        after_pauses(looks).skip(1).skip(1) == after_pauses(looks.skip(1)),
{
    assert(after_pauses(looks).skip(1).skip(1) =~= after_pauses(looks.skip(1))) by {
        assert forall|i: int| 0 <= i < 2 * looks.len() - 2 implies #[trigger] after_pauses(
            looks,
        ).skip(1).skip(1)[i] == after_pauses(looks.skip(1))[i] by {
            assert((i + 2) % 2 == i % 2);
            assert((i + 2) / 2 == i / 2 + 1);
        }
    }
}

} // verus!
