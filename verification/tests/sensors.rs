use ark_discovery::config;
use ark_discovery::i2c_regs::{I2cOp, I2cRegs};
use ark_discovery::sensors::baro::{
    odr_reg, osr_reg, Baro, BaroConfig, BaroOdr, ConfigError, Oversampling,
};
use ark_discovery::sensors::imu::{Imu, ImuOdr, SpiOp};
use ark_discovery::sensors::mag::{Mag, MagOdr, MagRaw};
use ark_discovery::sensors::{BringUp, Identify, Sensor, SoftReset, Wait};

fn write(addr: u8, reg: u8, val: u8) -> I2cOp {
    I2cOp::Write { addr, reg, val }
}

#[test]
fn i2c_transactions() {
    let dev = I2cRegs::new(0x1E);
    let w = dev.write_reg(0x60, 0x8C);
    assert_eq!(w, write(0x1E, 0x60, 0x8C));
    assert_eq!(w.addr(), 0x1E);
    assert_eq!(w.bytes(), vec![0x60, 0x8C]);
    assert_eq!(w.reply_len(), 0);
    let r = dev.read_regs(0x68, 6);
    assert_eq!(r.bytes(), vec![0x68]);
    assert_eq!(r.reply_len(), 6);
    assert_eq!(dev.read_reg(0x4F), I2cOp::Read { addr: 0x1E, reg: 0x4F, len: 1 });
}

#[test]
fn mag_register_access() {
    let mag = Mag::new();
    assert_eq!(mag.who_am_i(), I2cOp::Read { addr: 0x1E, reg: 0x4F, len: 1 });
    assert_eq!(mag.read_id(), mag.who_am_i());
    assert!(Mag::id_matches(0x40));
    assert!(!Mag::id_matches(0x41));
    assert!(mag.identified(0x40));
    assert_eq!(mag.soft_reset(), write(0x1E, 0x60, 0x20));
    assert!(Mag::reset_complete(0x80));
    assert!(!Mag::reset_complete(0xA0));
    assert_eq!(
        mag.configure(MagOdr::Hz50),
        vec![write(0x1E, 0x62, 0x10), write(0x1E, 0x61, 0x02), write(0x1E, 0x60, 0x88)]
    );
    assert_eq!(mag.start_continuous(MagOdr::Hz10), write(0x1E, 0x60, 0x80));
    assert_eq!(mag.start_continuous(MagOdr::Hz20), write(0x1E, 0x60, 0x84));
    assert_eq!(mag.start_continuous(MagOdr::Hz100), write(0x1E, 0x60, 0x8C));
    assert!(Mag::is_continuous(Mag::read_cfg(&[0x88, 0xFF, 0xFF])));
    assert!(!Mag::is_continuous(Mag::read_cfg(&[0x8B, 0x00, 0x00])));
    assert_eq!(Mag::read_cfg(&[1, 2, 3]), (1, 2, 3));
    assert_eq!(mag.status(), I2cOp::Read { addr: 0x1E, reg: 0x67, len: 1 });
    assert!(Mag::data_ready(0x08));
    assert!(!Mag::data_ready(0xF7));
    assert_eq!(
        mag.sample_queries(),
        vec![
            I2cOp::Read { addr: 0x1E, reg: 0x68, len: 6 },
            I2cOp::Read { addr: 0x1E, reg: 0x6E, len: 2 }
        ]
    );
}

#[test]
fn asking_again_for_continuous_mode_changes_nothing() {
    let mag = Mag::new();
    let ops = mag.configure(MagOdr::Hz100);
    assert_eq!(ops[2], mag.start_continuous(MagOdr::Hz100));
    let regs = |ops: &[I2cOp]| {
        let mut regs = [0u8; 256];
        for op in ops {
            if let I2cOp::Write { reg, val, .. } = op {
                regs[*reg as usize] = *val;
            }
        }
        regs
    };
    let mut again = ops.clone();
    again.push(mag.start_continuous(MagOdr::Hz100));
    assert_eq!(regs(&ops), regs(&again));
    assert!(Mag::is_continuous((regs(&ops)[0x60], 0, 0)));
}

#[test]
fn mag_sample_is_scaled() {
    let raw = MagRaw { field: [0x64, 0x00, 0xFF, 0xFF, 0x00, 0x80], temp: [0xF8, 0xFF] };
    let s = Mag::new().read(&raw);
    assert_eq!(s.field_nt, [15_000, -150, -4_915_200]);
    assert_eq!(s.temp_mc, 24_000);
}

/// Runs a bring-up against scripted replies and returns all writes, the total pause and the
/// outcome.
fn run_mag(replies: &[Vec<u8>]) -> (Vec<I2cOp>, u32, Option<bool>) {
    let mut mag = Mag::new();
    let mut looks = replies.iter();
    let (mut progress, mut step) = mag.bring_up(MagOdr::Hz50);
    let mut writes = Vec::new();
    let mut paused: u32 = 0;
    loop {
        writes.extend(step.writes.iter().copied());
        let reply = match step.wait {
            Wait::Done(held) => return (writes, paused, Some(held)),
            Wait::Delay(ms) => {
                paused += ms;
                Vec::new()
            }
            Wait::Read(op) => match looks.next() {
                Some(r) => {
                    assert!(r.is_empty() || r.len() == op.reply_len());
                    r.clone()
                }
                None => return (writes, paused, None),
            },
        };
        (progress, step) = mag.resume(progress, &reply);
    }
}

#[test]
fn mag_bring_up_latches_at_once() {
    let (writes, paused, outcome) = run_mag(&[vec![0x00], vec![0x88, 0x02, 0x10]]);
    assert_eq!(outcome, Some(true));
    assert_eq!(
        writes,
        vec![
            write(0x1E, 0x60, 0x20),
            write(0x1E, 0x62, 0x10),
            write(0x1E, 0x61, 0x02),
            write(0x1E, 0x60, 0x88)
        ]
    );
    assert_eq!(paused, 12);
}

#[test]
fn mag_bring_up_asks_again_until_it_latches() {
    let idle = vec![0x8B, 0x02, 0x10];
    let (writes, paused, outcome) =
        run_mag(&[vec![0x20], vec![0x00], idle.clone(), idle, vec![0x88, 0x02, 0x10]]);
    assert_eq!(outcome, Some(true));
    assert_eq!(writes.len(), 4 + 2);
    assert_eq!(writes[5], write(0x1E, 0x60, 0x88));
    assert_eq!(paused, 2 * 2 + 3 * 10);
}

#[test]
fn mag_bring_up_gives_up_after_ten_looks() {
    let mut replies = vec![vec![0x20u8]; 10];
    replies.extend(vec![vec![0x8B, 0x02, 0x10]; 10]);
    let (writes, paused, outcome) = run_mag(&replies);
    assert_eq!(outcome, Some(false));
    assert_eq!(writes.len(), 4 + 10);
    assert_eq!(paused, 20 + 100);
}

#[test]
fn mag_bring_up_fails_where_no_read_comes_back() {
    let (writes, paused, outcome) = run_mag(&vec![vec![]; 20]);
    assert_eq!(outcome, Some(false));
    assert_eq!(writes.len(), 4 + 10);
    assert_eq!(writes[13], write(0x1E, 0x60, 0x88));
    assert_eq!(paused, 20 + 100);
    // One lost read does not decide anything.
    let (_, _, outcome) = run_mag(&[vec![], vec![0x00], vec![], vec![0x88, 0x02, 0x10]]);
    assert_eq!(outcome, Some(true));
}

fn calib_block() -> [u8; 21] {
    [
        0x10, 0x6C, 0x34, 0x4A, 0xF9, 0x00, 0xC0, 0xFF, 0x7F, 0x80, 0x7F, 0x01, 0x02, 0x03, 0x04,
        0xFE, 0x05, 0xFF, 0xFF, 0x06, 0xC4,
    ]
}

#[test]
fn baro_codes_and_periods() {
    let odrs = [BaroOdr::Hz200, BaroOdr::Hz100, BaroOdr::Hz50, BaroOdr::Hz25, BaroOdr::Hz12_5];
    for (i, odr) in odrs.iter().enumerate() {
        assert_eq!(odr_reg(*odr) as usize, i);
        assert_eq!(odr.period_us(), 5_000 << i);
    }
    let osrs = [
        Oversampling::X1,
        Oversampling::X2,
        Oversampling::X4,
        Oversampling::X8,
        Oversampling::X16,
        Oversampling::X32,
    ];
    for (i, osr) in osrs.iter().enumerate() {
        assert_eq!(osr_reg(*osr) as usize, i);
        assert_eq!(osr.factor(), 1 << i);
    }
}

#[test]
fn baro_register_access() {
    let baro = Baro::new();
    assert_eq!(baro.chip_id(), I2cOp::Read { addr: 0x76, reg: 0x00, len: 1 });
    assert_eq!(baro.read_id(), baro.chip_id());
    assert!(Baro::id_matches(0x50));
    assert!(Baro::id_matches(0x60));
    assert!(!Baro::id_matches(0x58));
    assert!(!baro.identified(0x00));
    assert_eq!(baro.soft_reset(), write(0x76, 0x7E, 0xB6));
    assert_eq!(baro.calibration_query(), I2cOp::Read { addr: 0x76, reg: 0x31, len: 21 });
    assert_eq!(baro.sample_query(), I2cOp::Read { addr: 0x76, reg: 0x04, len: 6 });
}

#[test]
fn baro_calibration_is_taken_apart() {
    let mut baro = Baro::new();
    baro.read_calibration(&calib_block());
    let c = baro.calib;
    assert_eq!(c.t1, 0x6C10);
    assert_eq!(c.t2, 0x4A34);
    assert_eq!(c.t3, -7);
    assert_eq!(c.p1, -16384);
    assert_eq!(c.p2, 32767);
    assert_eq!(c.p3, -128);
    assert_eq!(c.p4, 127);
    assert_eq!(c.p5, 0x0201);
    assert_eq!(c.p6, 0x0403);
    assert_eq!(c.p7, -2);
    assert_eq!(c.p8, 5);
    assert_eq!(c.p9, -1);
    assert_eq!(c.p10, 6);
    assert_eq!(c.p11, -60);
}

#[test]
fn baro_reads_nothing_before_it_is_calibrated() {
    let baro = Baro::new();
    let c = baro.calib;
    let s = baro.read(&[0x00, 0x00, 0x80, 0x00, 0x00, 0x80]);
    assert_eq!((s.adc_p, s.adc_t, s.temp_q48), (0x800000, 0x800000, 0));
    // The coefficients by the chip maker's scaling, and the pressure they give.
    let p1 = (c.p1 as f64 - 16_384.0) / 1_048_576.0;
    let p2 = (c.p2 as f64 - 16_384.0) / 536_870_912.0;
    assert_eq!((p1, p2), (0.0, 0.0));
    assert_eq!((c.t1, c.t2, c.t3, c.p3, c.p4, c.p5, c.p6), (0, 0, 0, 0, 0, 0, 0));
    assert_eq!((c.p7, c.p8, c.p9, c.p10, c.p11), (0, 0, 0, 0, 0));
    assert_eq!(s.adc_p as f64 * (p1 + p2 * 0.0), 0.0);
}

#[test]
fn baro_calibration_that_fails_to_come_is_a_block_of_zeros() {
    let mut baro = Baro::new();
    let (p, _) = baro.bring_up(config::baro_config());
    let (p, _) = baro.resume(p, &[]);
    let (_, step) = baro.resume(p, &[]);
    assert_eq!(step.writes.len(), 3);
    let mut zeros = Baro::new();
    zeros.read_calibration(&[0; 21]);
    assert_eq!(baro.calib, zeros.calib);
}

#[test]
fn baro_configuration_is_checked() {
    let baro = Baro::new();
    let good = config::baro_config();
    assert_eq!(
        baro.configure(good),
        Ok(vec![write(0x76, 0x1C, 0x03), write(0x76, 0x1D, 0x03), write(0x76, 0x1B, 0x33)])
    );
    let both = BaroConfig { odr: BaroOdr::Hz12_5, osr_p: Oversampling::X16, osr_t: Oversampling::X2 };
    assert_eq!(baro.configure(both).map(|ops| ops[0]), Ok(write(0x76, 0x1C, 0x0C)));
    let too_fast = BaroConfig { odr: BaroOdr::Hz100, ..good };
    assert_eq!(baro.configure(too_fast), Err(ConfigError::OdrTooFast));
    // 4939 us fit into 5 ms, 6939 us do not.
    let x1 = BaroConfig { odr: BaroOdr::Hz200, osr_p: Oversampling::X1, osr_t: Oversampling::X1 };
    assert!(baro.configure(x1).is_ok());
    assert!(baro.configure(BaroConfig { osr_p: Oversampling::X2, ..x1 }).is_err());
}

#[test]
fn slower_or_coarser_configurations_stay_valid() {
    let baro = Baro::new();
    let good = config::baro_config();
    for odr in [BaroOdr::Hz25, BaroOdr::Hz12_5] {
        for osr_p in [Oversampling::X1, Oversampling::X2, Oversampling::X4, Oversampling::X8] {
            assert!(baro.configure(BaroConfig { odr, osr_p, ..good }).is_ok());
        }
    }
}

#[test]
fn baro_sample_is_compensated() {
    let mut baro = Baro::new();
    baro.read_calibration(&calib_block());
    let s = baro.read(&[0x01, 0x02, 0x6E, 0x00, 0x10, 0x80]);
    assert_eq!(s.adc_p, 0x6E0201);
    assert_eq!(s.adc_t, 0x801000);
    let d = 0x801000i64 - 256 * 0x6C10;
    assert_eq!(s.temp_q48, d * 0x4A34 * 262_144 - d * d * 7);
    // The same by the chip maker's formula, in floating point.
    let (t1, t2, t3) = (0x6C10 as f64 * 256.0, 0x4A34 as f64 / 1073741824.0, -7.0 / 281474976710656.0);
    let pd = s.adc_t as f64 - t1;
    let t_lin = pd * t2 + pd * pd * t3;
    assert!((s.temp_q48 as f64 / 281474976710656.0 - t_lin).abs() < 1e-9);
    assert!(t_lin > 20.0 && t_lin < 30.0);
}

#[test]
fn baro_bring_up_configures_or_refuses() {
    for (odr, ok) in [(BaroOdr::Hz25, true), (BaroOdr::Hz200, false)] {
        let mut baro = Baro::new();
        let cfg = BaroConfig { odr, ..config::baro_config() };
        let (p, step) = baro.bring_up(cfg);
        assert_eq!(step.writes, vec![write(0x76, 0x7E, 0xB6)]);
        assert!(step.wait == Wait::Delay(5));
        let (p, step) = baro.resume(p, &[]);
        assert!(step.writes.is_empty());
        assert!(step.wait == Wait::Read(baro.calibration_query()));
        let (p, step) = baro.resume(p, &calib_block());
        assert_eq!(baro.calib.t1, 0x6C10);
        if ok {
            assert_eq!(step.writes.len(), 3);
            assert!(step.wait == Wait::Delay(50));
            let (_, step) = baro.resume(p, &[]);
            assert!(step.wait == Wait::Done(Ok(())));
        } else {
            assert!(step.writes.is_empty());
            assert!(step.wait == Wait::Done(Err(ConfigError::OdrTooFast)));
        }
    }
}

#[test]
fn imu_register_access() {
    let (imu, first) = Imu::new();
    assert_eq!(first, SpiOp::Deselect);
    assert_eq!(
        imu.who_am_i(),
        vec![SpiOp::Select, SpiOp::Transfer { command: 0xF5, len: 2 }, SpiOp::Deselect]
    );
    assert_eq!(imu.read_id(), imu.who_am_i());
    assert!(Imu::id_matches(0x56));
    assert!(!Imu::id_matches(0x47));
    assert_eq!(
        imu.soft_reset(),
        vec![SpiOp::Select, SpiOp::Write { reg: 0x11, val: 0x01 }, SpiOp::Deselect]
    );
    assert_eq!(
        imu.clear_interrupt(),
        vec![SpiOp::Select, SpiOp::Transfer { command: 0xAD, len: 2 }, SpiOp::Deselect]
    );
    assert_eq!(
        imu.sample_query(),
        vec![SpiOp::Select, SpiOp::Transfer { command: 0x9D, len: 15 }, SpiOp::Deselect]
    );
}

#[test]
fn imu_control_mode_powers_up_last() {
    let (imu, _) = Imu::new();
    for (odr, cfg) in [(ImuOdr::Hz200, 0x27), (ImuOdr::Hz500, 0x2F), (ImuOdr::Hz1000, 0x26)] {
        let ops = imu.configure_control_mode(odr);
        let writes: Vec<(u8, u8)> = ops
            .iter()
            .filter_map(|op| match op {
                SpiOp::Write { reg, val } => Some((*reg, *val)),
                _ => None,
            })
            .collect();
        assert_eq!(
            writes,
            vec![
                (0x76, 0x00),
                (0x50, cfg),
                (0x4F, cfg),
                (0x52, 0x11),
                (0x14, 0x07),
                (0x64, 0x00),
                (0x65, 0x08),
                (0x4E, 0x0F)
            ]
        );
        // Chip select goes low before every byte and high after it.
        for access in ops.chunks(3) {
            assert_eq!(access[0], SpiOp::Select);
            assert_eq!(access[2], SpiOp::Deselect);
        }
    }
    assert_eq!(ImuOdr::Hz200.hz(), 200);
    assert_eq!(ImuOdr::Hz500.hz(), 500);
    assert_eq!(ImuOdr::Hz1000.hz(), 1000);
}

#[test]
fn imu_sample_is_scaled() {
    let (imu, _) = Imu::new();
    let s = imu.read(&[
        0xAA, 0x00, 0x64, 0x08, 0x00, 0xF8, 0x00, 0x00, 0x01, 0x40, 0x00, 0xFF, 0xFF, 0x80, 0x00,
    ]);
    assert_eq!(s.accel, [2048, -2048, 1]);
    assert_eq!(s.gyro, [0x4000 * 125, -125, -32768 * 125]);
    assert_eq!(s.temp, 82_800 + 2_500);
    // The same in the units of the data sheet.
    assert_eq!(s.accel[0] as f32 / 2048.0, 1.0);
    assert!((s.gyro[0] as f32 / 2048.0 - 16384.0 / 16.384).abs() < 1e-3);
    assert!((s.temp as f32 / 3312.0 - (100.0 / 132.48 + 25.0)).abs() < 1e-4);
}

#[test]
fn configured_rates() {
    assert_eq!(config::IMU_LOG_DIV * config::IMU_LOG_HZ, config::IMU_ODR.hz());
    assert_eq!(config::BARO_LOG_DIV, 5);
    assert_eq!(config::MAG_LOG_DIV, 10);
    assert_eq!(config::FUSION_LOG_DIV, 25);
    assert_eq!(config::AHRS_RECOVERY_TRIGGER_PERIOD, 1250);
}
