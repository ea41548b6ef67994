//! Sensor fusion bookkeeping: what the sensors delivered since the last step, and what a step
//! hands to the attitude and altitude estimators.
//!
//! The estimators work with floating point and are run by the program around this crate. A
//! [`FusionStep`] says what to feed them. Pressures are carried as they are, in a type of the
//! caller's choice.
use vstd::prelude::*;

use crate::sensors::imu::ImuSample;
use crate::sensors::mag::MagSample;

verus! {

/// The sum of the accelerations along axis `i`.
pub open spec fn accel_total(samples: Seq<ImuSample>, i: int) -> int
    decreases samples.len(),
{
    if samples.len() == 0 {
        0
    } else {
        accel_total(samples.drop_last(), i) + samples.last().accel[i]
    }
}

/// The sum of the rates about axis `i`.
pub open spec fn gyro_total(samples: Seq<ImuSample>, i: int) -> int
    decreases samples.len(),
{
    if samples.len() == 0 {
        0
    } else {
        gyro_total(samples.drop_last(), i) + samples.last().gyro[i]
    }
}

/// The sum of the temperatures.
pub open spec fn temp_total(samples: Seq<ImuSample>) -> int
    decreases samples.len(),
{
    if samples.len() == 0 {
        0
    } else {
        temp_total(samples.drop_last()) + samples.last().temp
    }
}

/// Whether a sum of `n` 32-bit numbers can come to `sum`.
pub open spec fn summable(sum: i64, n: u32) -> bool {
    -(n * 0x8000_0000) <= sum <= n * 0x8000_0000
}

/// Whether sums of `n` samples can come to these.
pub open spec fn summable3(sums: [i64; 3], n: u32) -> bool {
    summable(sums[0], n) && summable(sums[1], n) && summable(sums[2], n)
}

/// The mean of some IMU samples, as sums and a count: each component of the mean is its sum over
/// the count, in the units of [`ImuSample`].
#[derive(Clone, Copy, Debug)]
pub struct ImuMean {
    pub accel_sum: [i64; 3],
    pub gyro_sum: [i64; 3],
    pub temp_sum: i64,
    pub n: u32,
}

impl ImuMean {
    /// There is something to average, and the sums are within what so many samples can come to.
    pub open spec fn wf(self) -> bool {
        &&& self.n > 0
        &&& summable3(self.accel_sum, self.n)
        &&& summable3(self.gyro_sum, self.n)
        &&& summable(self.temp_sum, self.n)
    }

    /// Whether this is the mean of `samples`.
    pub open spec fn is_mean_of(self, samples: Seq<ImuSample>) -> bool {
        &&& self.n == samples.len()
        &&& forall|i: int| 0 <= i < 3 ==> #[trigger] self.accel_sum[i] == accel_total(samples, i)
        &&& forall|i: int| 0 <= i < 3 ==> #[trigger] self.gyro_sum[i] == gyro_total(samples, i)
        &&& self.temp_sum == temp_total(samples)
    }
}

/// The latest sensor inputs, between those who produce them and the fusion step. The IMU is kept
/// as running sums and a count, so that every sample counts though the step runs less often.
#[derive(Debug)]
pub struct SensorState<P> {
    pub accel_sum: [i64; 3],
    pub gyro_sum: [i64; 3],
    pub temp_sum: i64,
    pub n: u32,
    pub mag: Option<MagSample>,
    pub pressure: Option<P>,
}

impl<P> SensorState<P> {
    /// The sums are within what so many samples can come to.
    pub open spec fn wf(self) -> bool {
        &&& summable3(self.accel_sum, self.n)
        &&& summable3(self.gyro_sum, self.n)
        &&& summable(self.temp_sum, self.n)
    }

    /// Whether exactly `samples` have come in since the last step.
    pub open spec fn holds(self, samples: Seq<ImuSample>) -> bool {
        &&& self.n == samples.len()
        &&& forall|i: int| 0 <= i < 3 ==> #[trigger] self.accel_sum[i] == accel_total(samples, i)
        &&& forall|i: int| 0 <= i < 3 ==> #[trigger] self.gyro_sum[i] == gyro_total(samples, i)
        &&& self.temp_sum == temp_total(samples)
    }

    /// Nothing has come in yet.
    pub fn new() -> (s: SensorState<P>)
        ensures
            s.wf(),
            s.holds(Seq::empty()),
            s.mag is None,
            s.pressure is None,
    {
        SensorState {
            accel_sum: [0i64;3],
            gyro_sum: [0i64;3],
            temp_sum: 0,
            n: 0,
            mag: None,
            pressure: None,
        }
    }

    /// Count one IMU sample in. Additions only, so that an interrupt handler can do it.
    pub fn accumulate(&mut self, s: &ImuSample)
        requires
            old(self).wf(),
            old(self).n < u32::MAX,
        ensures
            final(self).wf(),
            final(self).n == old(self).n + 1,
            forall|i: int|
                0 <= i < 3 ==> #[trigger] final(self).accel_sum[i] == old(self).accel_sum[i]
                    + s.accel[i],
            forall|i: int|
                0 <= i < 3 ==> #[trigger] final(self).gyro_sum[i] == old(self).gyro_sum[i]
                    + s.gyro[i],
            final(self).temp_sum == old(self).temp_sum + s.temp,
            final(self).mag == old(self).mag,
            final(self).pressure == old(self).pressure,
            forall|samples: Seq<ImuSample>|
                old(self).holds(samples) ==> #[trigger] final(self).holds(samples.push(*s)),
    {
        let a = self.accel_sum;
        let g = self.gyro_sum;
        self.accel_sum = [
            a[0] + s.accel[0] as i64,
            a[1] + s.accel[1] as i64,
            a[2] + s.accel[2] as i64,
        ];
        self.gyro_sum = [g[0] + s.gyro[0] as i64, g[1] + s.gyro[1] as i64, g[2] + s.gyro[2] as i64];
        self.temp_sum = self.temp_sum + s.temp as i64;
        self.n = self.n + 1;
        proof {
            assert forall|samples: Seq<ImuSample>| old(self).holds(samples) implies
                #[trigger] self.holds(samples.push(*s)) by {
                assert(samples.push(*s).drop_last() =~= samples);
                assert forall|i: int| 0 <= i < 3 implies #[trigger] self.accel_sum[i]
                    == accel_total(samples.push(*s), i) by {
                    assert(old(self).accel_sum[i] == accel_total(samples, i));
                }
                assert forall|i: int| 0 <= i < 3 implies #[trigger] self.gyro_sum[i] == gyro_total(
                    samples.push(*s),
                    i,
                ) by {
                    assert(old(self).gyro_sum[i] == gyro_total(samples, i));
                }
            }
        }
    }

    /// Take the mean of the samples since the last step and start over. There is none until the
    /// IMU has delivered.
    pub fn drain_imu(&mut self) -> (r: Option<ImuMean>)
        requires
            old(self).wf(),
        ensures
            final(self).wf(),
            r is Some <==> old(self).n > 0,
            r matches Some(m) ==> m.wf() && m.n == old(self).n && m.accel_sum
                == old(self).accel_sum && m.gyro_sum == old(self).gyro_sum && m.temp_sum
                == old(self).temp_sum,
            r matches Some(m) ==> forall|samples: Seq<ImuSample>|
                #![trigger old(self).holds(samples)]
                old(self).holds(samples) ==> m.is_mean_of(samples),
            r is Some ==> final(self).holds(Seq::empty()),
            r is None ==> *final(self) == *old(self),
            final(self).mag == old(self).mag,
            final(self).pressure == old(self).pressure,
    {
        if self.n == 0 {
            return None;
        }
        let mean = ImuMean {
            accel_sum: self.accel_sum,
            gyro_sum: self.gyro_sum,
            temp_sum: self.temp_sum,
            n: self.n,
        };
        self.accel_sum = [0i64;3];
        self.gyro_sum = [0i64;3];
        self.temp_sum = 0;
        self.n = 0;
        Some(mean)
    }

    /// Note the latest magnetometer sample.
    pub fn set_mag(&mut self, m: MagSample)
        ensures
            *final(self) == (SensorState { mag: Some(m), ..*old(self) }),
    {
        self.mag = Some(m);
    }

    /// Note the latest pressure.
    pub fn set_pressure(&mut self, p: P)
        ensures
            *final(self) == (SensorState { pressure: Some(p), ..*old(self) }),
    {
        self.pressure = Some(p);
    }

    /// Take the magnetometer sample that came in since the last step, if one did.
    pub fn take_mag(&mut self) -> (m: Option<MagSample>)
        ensures
            m == old(self).mag,
            *final(self) == (SensorState { mag: None, ..*old(self) }),
    {
        self.mag.take()
    }

    /// Take the pressure that came in since the last step, if one did.
    pub fn take_pressure(&mut self) -> (p: Option<P>)
        ensures
            p == old(self).pressure,
            *final(self) == (SensorState { pressure: None, ..*old(self) }),
    {
        self.pressure.take()
    }
}

/// A vector's three components.
pub open spec fn components(v: [i64; 3]) -> (int, int, int) {
    (v[0] as int, v[1] as int, v[2] as int)
}

/// Half a turn about X.
pub open spec fn half_turn(v: (int, int, int)) -> (int, int, int) {
    (v.0, -v.1, -v.2)
}

/// The inner product.
pub open spec fn dot(a: (int, int, int), b: (int, int, int)) -> int {
    a.0 * b.0 + a.1 * b.1 + a.2 * b.2
}

/// The outer product.
pub open spec fn cross(a: (int, int, int), b: (int, int, int)) -> (int, int, int) {
    (a.1 * b.2 - a.2 * b.1, a.2 * b.0 - a.0 * b.2, a.0 * b.1 - a.1 * b.0)
}

/// What one fusion step hands to the estimators, in this order: the attitude estimator takes the
/// rates and accelerations and, where there is one, the field; where there is a seed, the altitude
/// estimator is reset to the altitude it stands for; where there is a pressure, the altitude
/// estimator takes the vertical acceleration and the altitude that the pressure stands for.
#[derive(Debug)]
pub struct FusionStep<P> {
    /// Sums of the rates in the body frame, to be divided by `n`.
    pub gyro_sum: [i64; 3],
    /// Sums of the accelerations in the body frame, to be divided by `n`.
    pub accel_sum: [i64; 3],
    pub n: u32,
    /// The field in the body frame in nanotesla, where the magnetometer takes part.
    pub field_nt: Option<[i64; 3]>,
    /// The pressure to start the altitude estimator from.
    pub seed: Option<P>,
    /// The pressure to correct the altitude estimator with.
    pub pressure: Option<P>,
}

/// What the fusion step remembers from one call to the next.
#[derive(Debug)]
pub struct Fusion<P> {
    /// Whether the magnetometer takes part.
    pub use_mag: bool,
    /// The most recent pressure, held between samples: the barometer is slower than the step.
    pub held: Option<P>,
}

impl<P: Copy> Fusion<P> {
    /// Fusion that has not seen a pressure yet.
    pub fn new(use_mag: bool) -> (f: Fusion<P>)
        ensures
            f.use_mag == use_mag,
            f.held is None,
    {
        Fusion { use_mag, held: None }
    }

    /// The state after a step with this pressure.
    pub open spec fn after(self, pressure: Option<P>) -> Fusion<P> {
        Fusion {
            use_mag: self.use_mag,
            held: match pressure {
                Some(p) => Some(p),
                None => self.held,
            },
        }
    }

    /// What the altitude estimator is started from in a step with this pressure.
    pub open spec fn seed(self, pressure: Option<P>) -> Option<P> {
        if self.held is None {
            pressure
        } else {
            None
        }
    }

    /// What a step does: whether these inputs lead to this step and to this state.
    pub open spec fn steps_to(
        self,
        imu: ImuMean,
        mag: Option<MagSample>,
        pressure: Option<P>,
        step: FusionStep<P>,
        next: Fusion<P>,
    ) -> bool {
        &&& next == self.after(pressure)
        &&& step.n == imu.n
        &&& components(step.gyro_sum) == half_turn(components(imu.gyro_sum))
        &&& components(step.accel_sum) == half_turn(components(imu.accel_sum))
        &&& step.field_nt is Some <==> self.use_mag && mag is Some
        &&& step.field_nt matches Some(f) ==> components(f) == half_turn(
            (
                mag->0.field_nt[0] as int,
                mag->0.field_nt[1] as int,
                mag->0.field_nt[2] as int,
            ),
        )
        &&& step.seed == self.seed(pressure)
        &&& step.pressure == next.held
    }

    /// From the sensor frame to the body frame. The IMU is mounted with its Z axis pointing down,
    /// so that the frames are half a turn about X apart.
    fn to_body_frame(v: [i64; 3]) -> (w: [i64; 3])
        requires
            v[1] > i64::MIN,
            v[2] > i64::MIN,
        ensures
            components(w) == half_turn(components(v)),
    {
        [v[0], -v[1], -v[2]]
    }

    /// One fusion step, with the mean of the IMU samples since the last one, and with the
    /// magnetometer sample and the pressure that came in since, if they did.
    pub fn update(&mut self, imu: &ImuMean, mag: Option<MagSample>, pressure: Option<P>) -> (step:
        FusionStep<P>)
        requires
            imu.wf(),
        ensures
            old(self).steps_to(*imu, mag, pressure, step, *final(self)),
    {
        let field_nt = match (self.use_mag, mag) {
            (true, Some(m)) => {
                let v = [m.field_nt[0] as i64, m.field_nt[1] as i64, m.field_nt[2] as i64];
                Some(Self::to_body_frame(v))
            },
            _ => None,
        };
        let mut seed = None;
        if let Some(p) = pressure {
            if self.held.is_none() {
                seed = Some(p);
            }
            self.held = Some(p);
        }
        FusionStep {
            gyro_sum: Self::to_body_frame(imu.gyro_sum),
            accel_sum: Self::to_body_frame(imu.accel_sum),
            n: imu.n,
            field_nt,
            seed,
            pressure: self.held,
        }
    }
}

/// The mount remap is a proper rotation: it is its own inverse, and it keeps inner and outer
/// products, so that lengths, angles and handedness stay as they are.
pub proof fn remap_is_a_rotation(a: (int, int, int), b: (int, int, int))
    ensures
        half_turn(half_turn(a)) == a,
        dot(half_turn(a), half_turn(b)) == dot(a, b),
        cross(half_turn(a), half_turn(b)) == half_turn(cross(a, b)),
{
    let (a1, a2) = (a.1, a.2);
    let (b1, b2) = (b.1, b.2);
    let (a0, b0) = (a.0, b.0);
    assert((-a1) * (-b1) == a1 * b1) by (nonlinear_arith);
    assert((-a2) * (-b2) == a2 * b2) by (nonlinear_arith);
    assert((-a1) * (-b2) == a1 * b2) by (nonlinear_arith);
    assert((-a2) * (-b1) == a2 * b1) by (nonlinear_arith);
    assert((-a2) * b0 == -(a2 * b0)) by (nonlinear_arith);
    assert(a0 * (-b2) == -(a0 * b2)) by (nonlinear_arith);
    assert(a0 * (-b1) == -(a0 * b1)) by (nonlinear_arith);
    assert((-a1) * b0 == -(a1 * b0)) by (nonlinear_arith);
}

/// The latest of some pressures.
pub open spec fn latest<P>(pressures: Seq<Option<P>>) -> Option<P>
    decreases pressures.len(),
{
    if pressures.len() == 0 {
        None
    } else {
        match pressures.last() {
            Some(p) => Some(p),
            None => latest(pressures.drop_last()),
        }
    }
}

/// The state after steps with these pressures.
pub open spec fn fusion_after<P: Copy>(f: Fusion<P>, pressures: Seq<Option<P>>) -> Fusion<P>
    decreases pressures.len(),
{
    if pressures.len() == 0 {
        f
    } else {
        fusion_after(f, pressures.drop_last()).after(pressures.last())
    }
}

/// Fusion holds the latest pressure it has seen.
pub proof fn fusion_holds_the_latest_pressure<P: Copy>(f: Fusion<P>, pressures: Seq<Option<P>>)
    requires
        f.held is None,
    ensures
        fusion_after(f, pressures).held == latest(pressures),
        fusion_after(f, pressures).use_mag == f.use_mag,
    decreases pressures.len(),
{
    if pressures.len() > 0 {
        fusion_holds_the_latest_pressure(f, pressures.drop_last());
    }
}

/// The altitude estimator is started once, by the first pressure of all, and corrected in every
/// step from then on, with the latest pressure. `pressures` are those of the steps so far and `p`
/// is that of the next.
pub proof fn altitude_is_seeded_once_and_corrected_ever_after<P: Copy>(
    f: Fusion<P>,
    pressures: Seq<Option<P>>,
    p: Option<P>,
)
    requires
        f.held is None,
    ensures
        ({
            let now = fusion_after(f, pressures);
            let fresh = forall|i: int|
                0 <= i < pressures.len() ==> (#[trigger] pressures[i]) is None;
            &&& now.seed(p) is Some <==> p is Some && fresh
            &&& now.seed(p) is Some ==> now.seed(p) == p
            &&& now.after(p).held == latest(pressures.push(p))
            &&& now.after(p).held is Some <==> p is Some || !fresh
        }),
{
    fusion_holds_the_latest_pressure(f, pressures);
    lemma_latest(pressures);
    assert(pressures.push(p).drop_last() =~= pressures);
}

/// There is a latest pressure as soon as there is any.
proof fn lemma_latest<P>(pressures: Seq<Option<P>>)
    ensures
        latest(pressures) is None <==> forall|i: int|
            0 <= i < pressures.len() ==> (#[trigger] pressures[i]) is None,
    decreases pressures.len(),
{
    if pressures.len() > 0 {
        let before = pressures.drop_last();
        lemma_latest(before);
        assert(pressures.last() == pressures[pressures.len() - 1]);
        assert forall|i: int| 0 <= i < before.len() implies #[trigger] before[i]
            == pressures[i] by {}
        if latest(pressures) is None {
            assert forall|i: int| 0 <= i < pressures.len() implies (
            #[trigger] pressures[i]) is None by {
                if i < before.len() {
                    assert(before[i] is None);
                }
            }
        }
    }
}

/// Rates, accelerations and field are all turned half a turn about X, and by nothing else: each
/// keeps its X component, and its Y and Z components cancel what the sensor gave. So a board that
/// lies level, whose sensor reads one g downwards, has one g upwards in the body frame.
pub proof fn every_sensor_is_turned_about_x<P: Copy>(
    f: Fusion<P>,
    imu: ImuMean,
    mag: Option<MagSample>,
    pressure: Option<P>,
    step: FusionStep<P>,
    next: Fusion<P>,
)
    requires
        f.steps_to(imu, mag, pressure, step, next),
    ensures
        step.n == imu.n,
        step.gyro_sum[0] - imu.gyro_sum[0] == 0,
        step.gyro_sum[1] + imu.gyro_sum[1] == 0,
        step.gyro_sum[2] + imu.gyro_sum[2] == 0,
        step.accel_sum[0] - imu.accel_sum[0] == 0,
        step.accel_sum[1] + imu.accel_sum[1] == 0,
        step.accel_sum[2] + imu.accel_sum[2] == 0,
        step.field_nt is Some <==> f.use_mag && mag is Some,
        step.field_nt is Some ==> step.field_nt->0[0] - mag->0.field_nt[0] == 0,
        step.field_nt is Some ==> step.field_nt->0[1] + mag->0.field_nt[1] == 0,
        step.field_nt is Some ==> step.field_nt->0[2] + mag->0.field_nt[2] == 0,
{
}

/// A fresh pressure is used at once and held; without one the held one is used again. The first
/// pressure of all, and no other, starts the altitude estimator. Whether the magnetometer takes
/// part never changes.
pub proof fn a_fresh_pressure_is_used_and_held<P: Copy>(
    f: Fusion<P>,
    imu: ImuMean,
    mag: Option<MagSample>,
    pressure: Option<P>,
    step: FusionStep<P>,
    next: Fusion<P>,
)
    requires
        f.steps_to(imu, mag, pressure, step, next),
    ensures
        pressure is Some ==> step.pressure == pressure && next.held == pressure,
        pressure is None ==> step.pressure == f.held && next.held == f.held && step.seed is None,
        f.held is None ==> step.seed == pressure,
        f.held is Some ==> step.seed is None,
        next.use_mag == f.use_mag,
{
}

/// The mean of one sample is that sample.
pub proof fn mean_of_one_sample(m: ImuMean, s: ImuSample, i: int)
    requires
        m.is_mean_of(seq![s]),
        0 <= i < 3,
    ensures
        m.n == 1,
        m.accel_sum[i] == s.accel[i],
        m.gyro_sum[i] == s.gyro[i],
        m.temp_sum == s.temp,
{
    let one = seq![s];
    assert(one.drop_last() =~= Seq::<ImuSample>::empty());
    reveal_with_fuel(accel_total, 2);
    reveal_with_fuel(gyro_total, 2);
    reveal_with_fuel(temp_total, 2);
    assert(m.accel_sum[i] == accel_total(one, i));
    assert(m.gyro_sum[i] == gyro_total(one, i));
}

/// Every sample counts once: the sums over two stretches of samples together are the sums over each,
/// added.
pub proof fn sums_over_stretches_add(
    a: Seq<ImuSample>,
    b: Seq<ImuSample>,
    ma: ImuMean,
    mb: ImuMean,
    m: ImuMean,
    i: int,
)
    requires
        ma.is_mean_of(a),
        mb.is_mean_of(b),
        m.is_mean_of(a + b),
        0 <= i < 3,
    ensures
        m.n == ma.n + mb.n,
        m.accel_sum[i] == ma.accel_sum[i] + mb.accel_sum[i],
        m.gyro_sum[i] == ma.gyro_sum[i] + mb.gyro_sum[i],
        m.temp_sum == ma.temp_sum + mb.temp_sum,
{
    lemma_totals_add(a, b, i);
    assert(m.accel_sum[i] == accel_total(a + b, i));
    assert(m.gyro_sum[i] == gyro_total(a + b, i));
    assert(ma.accel_sum[i] == accel_total(a, i));
    assert(ma.gyro_sum[i] == gyro_total(a, i));
    assert(mb.accel_sum[i] == accel_total(b, i));
    assert(mb.gyro_sum[i] == gyro_total(b, i));
}

/// Totals over two stretches add.
proof fn lemma_totals_add(a: Seq<ImuSample>, b: Seq<ImuSample>, i: int)
    ensures
        accel_total(a + b, i) == accel_total(a, i) + accel_total(b, i),
        gyro_total(a + b, i) == gyro_total(a, i) + gyro_total(b, i),
        temp_total(a + b) == temp_total(a) + temp_total(b),
    decreases b.len(),
{
    if b.len() == 0 {
        assert(a + b =~= a);
    } else {
        assert((a + b).drop_last() =~= a + b.drop_last());
        lemma_totals_add(a, b.drop_last(), i);
    }
}

/// What a sensor state has collected is what the mean of the same samples holds.
pub proof fn collected_sums_are_the_means<P>(
    st: SensorState<P>,
    m: ImuMean,
    samples: Seq<ImuSample>,
    i: int,
)
    requires
        st.holds(samples),
        m.is_mean_of(samples),
        0 <= i < 3,
    ensures
        st.n == m.n,
        st.accel_sum[i] == m.accel_sum[i],
        st.gyro_sum[i] == m.gyro_sum[i],
        st.temp_sum == m.temp_sum,
{
    assert(st.accel_sum[i] == accel_total(samples, i));
    assert(st.gyro_sum[i] == gyro_total(samples, i));
    assert(m.accel_sum[i] == accel_total(samples, i));
    assert(m.gyro_sum[i] == gyro_total(samples, i));
}

} // verus!
