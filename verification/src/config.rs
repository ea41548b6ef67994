//! The one place to tune sensor and loop rates.
use vstd::prelude::*;

use crate::sensors::baro::{BaroConfig, BaroOdr, Oversampling};
use crate::sensors::imu::ImuOdr;
use crate::sensors::mag::MagOdr;

verus! {

/// The IMU's rate, which is the pace of the control loop: its data-ready interrupt drives the
/// loop. Logging runs far slower and never holds the loop up.
pub const IMU_ODR: ImuOdr = ImuOdr::Hz1000;

pub const IMU_LOG_HZ: u32 = 10;

/// Log one of every so many IMU samples.
pub const IMU_LOG_DIV: u32 = 100;

/// The barometer's rate. Rate and oversampling hang together: the driver refuses a pair that
/// cannot keep up.
pub const BARO_ODR: BaroOdr = BaroOdr::Hz25;

pub const BARO_OSR_P: Oversampling = Oversampling::X8;

pub const BARO_OSR_T: Oversampling = Oversampling::X1;

pub const BARO_SAMPLE_HZ: u32 = 25;

pub const BARO_LOG_HZ: u32 = 5;

/// Log one of every so many barometer samples.
pub const BARO_LOG_DIV: u32 = BARO_SAMPLE_HZ / BARO_LOG_HZ;

/// The magnetometer's conversion rate; it is sampled no faster.
pub const MAG_ODR: MagOdr = MagOdr::Hz50;

pub const MAG_SAMPLE_HZ: u32 = 50;

pub const MAG_LOG_HZ: u32 = 5;

/// Log one of every so many magnetometer samples.
pub const MAG_LOG_DIV: u32 = MAG_SAMPLE_HZ / MAG_LOG_HZ;

/// The estimators' rate, apart from every sensor's own.
pub const FUSION_RATE_HZ: u32 = 250;

pub const FUSION_LOG_HZ: u32 = 10;

/// Log one of every so many fused states.
pub const FUSION_LOG_DIV: u32 = FUSION_RATE_HZ / FUSION_LOG_HZ;

/// Whether the magnetometer takes part, for an absolute heading.
pub const FUSION_USE_MAG: bool = true;

/// For how many samples in a row the attitude estimator may reject a sensor before it recovers:
/// about five seconds.
pub const AHRS_RECOVERY_TRIGGER_PERIOD: u32 = 5 * FUSION_RATE_HZ;

/// The output mode at the start: readable text, so that a terminal needs no set-up.
pub const DEFAULT_OUTPUT_BINARY: bool = false;

/// The barometer's configuration.
pub fn baro_config() -> (c: BaroConfig)
    ensures
        c.odr == BARO_ODR,
        c.osr_p == BARO_OSR_P,
        c.osr_t == BARO_OSR_T,
        c.in_time(),
{
    BaroConfig { odr: BARO_ODR, osr_p: BARO_OSR_P, osr_t: BARO_OSR_T }
}

/// The log rates divide the sample rates evenly.
pub proof fn log_divisors_are_even()
    ensures
        IMU_LOG_DIV * IMU_LOG_HZ == IMU_ODR.rate(),
        BARO_LOG_DIV * BARO_LOG_HZ == BARO_SAMPLE_HZ,
        MAG_LOG_DIV * MAG_LOG_HZ == MAG_SAMPLE_HZ,
        FUSION_LOG_DIV * FUSION_LOG_HZ == FUSION_RATE_HZ,
{
}

/// The rates: the IMU at 1000 Hz logged at 10, the barometer at 25 Hz (eight pressure conversions to
/// one of the temperature) logged at 5, the magnetometer at 50 Hz logged at 5, the estimators at
/// 250 Hz logged at 10, with the magnetometer; text output at the start.
pub proof fn configured_rates()
    ensures
        IMU_ODR == ImuOdr::Hz1000 && IMU_LOG_HZ == 10 && IMU_LOG_DIV == 100,
        BARO_ODR == BaroOdr::Hz25 && BARO_OSR_P == Oversampling::X8 && BARO_OSR_T
            == Oversampling::X1,
        BARO_SAMPLE_HZ == 25 && BARO_LOG_HZ == 5 && BARO_LOG_DIV == 5,
        MAG_ODR == MagOdr::Hz50 && MAG_SAMPLE_HZ == 50 && MAG_LOG_HZ == 5 && MAG_LOG_DIV == 10,
        FUSION_RATE_HZ == 250 && FUSION_LOG_HZ == 10 && FUSION_LOG_DIV == 25 && FUSION_USE_MAG,
        AHRS_RECOVERY_TRIGGER_PERIOD == 1250,
        !DEFAULT_OUTPUT_BINARY,
{
}

} // verus!
