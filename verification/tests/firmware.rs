use ark_discovery::firmware::{
    led_pins, maybe_enter_bootloader, port_closed, reboot_to_bootloader, usb_irq, watch_port,
    Heartbeat, Led, BOOTLOADER_MAGIC,
};
use ark_discovery::fusion::{Fusion, SensorState};
use ark_discovery::sensors::imu::ImuSample;
use ark_discovery::sensors::mag::MagSample;
use ark_discovery::telem::{nul_trimmed, print_frame};
use ark_discovery::telemetry::Modes;
use ark_discovery::wire::Receiver;
use discovery_telemetry as dt;

fn frames(bytes: &[u8]) -> Vec<dt::Frame> {
    let mut out = Vec::new();
    let dropped = dt::codec::Decoder::new().push(bytes, |f| out.push(f));
    assert_eq!(dropped, 0);
    out
}

#[test]
fn boot_request_is_honoured_once() {
    let mut flag = 0x1234;
    assert!(!maybe_enter_bootloader(&mut flag));
    assert_eq!(flag, 0x1234);
    reboot_to_bootloader(&mut flag);
    assert_eq!(flag, BOOTLOADER_MAGIC);
    assert!(maybe_enter_bootloader(&mut flag));
    assert_eq!(flag, 0);
    assert!(!maybe_enter_bootloader(&mut flag));
}

#[test]
fn commands_switch_modes() {
    let mut serial = Vec::new();
    let mut modes = Modes::new();
    assert!(!usb_irq(&mut serial, &mut modes, 7, "7c44b5e", b"x\r\n"));
    assert_eq!(modes, Modes::new());
    assert!(serial.is_empty());
    assert!(!usb_irq(&mut serial, &mut modes, 7, "7c44b5e", b"b"));
    assert!(modes.binary);
    let hello =
        dt::Hello { proto: 2, fw_git: *b"7c44b5e\0", board: dt::Board::ArkDiscovery };
    assert_eq!(serial[0], 0);
    assert_eq!(frames(&serial[1..]), vec![dt::Frame { t_ms: 7, msg: dt::Msg::Hello(hello) }]);
    serial.clear();
    assert!(!usb_irq(&mut serial, &mut modes, 7, "7c44b5e", b"t"));
    assert_eq!(modes, Modes::new());
    assert_eq!(serial, b"text mode\r\n");
    serial.clear();
    assert!(!usb_irq(&mut serial, &mut modes, 7, "7c44b5e", b"b"));
    serial.clear();
    assert!(!usb_irq(&mut serial, &mut modes, 8, "7c44b5e", b"td"));
    assert_eq!(modes, Modes { diag: true, binary: false });
    assert_eq!(serial, b"text mode\r\ndiag on\r\n");
    serial.clear();
    assert!(!usb_irq(&mut serial, &mut modes, 9, "7c44b5e", b"bd"));
    assert_eq!(modes, Modes { diag: false, binary: true });
    let got = frames(&serial[1..]);
    assert_eq!(got.len(), 2);
    assert!(matches!(got[1].msg, dt::Msg::Status(s) if &s.text[..9] == b"diag off\0"));
    port_closed(&mut modes);
    assert_eq!(modes, Modes::new());
}

#[test]
fn binary_answers_are_packets_alone() {
    let mut serial = Vec::new();
    let mut modes = Modes { diag: false, binary: true };
    assert!(!usb_irq(&mut serial, &mut modes, 6, "h", b"d?d\n"));
    let texts: Vec<String> = frames(&serial)
        .iter()
        .map(|f| match f.msg {
            dt::Msg::Status(s) => nul_trimmed(&s.text),
            _ => panic!("not a status"),
        })
        .collect();
    assert_eq!(texts, vec!["diag on", "diag off"]);
    assert_eq!(modes, Modes { diag: false, binary: true });
}

#[test]
fn closing_the_port_brings_text_back() {
    let binary = Modes { diag: true, binary: true };
    for (was_open, dtr) in [(false, false), (false, true), (true, true)] {
        let mut modes = binary;
        assert_eq!(watch_port(&mut modes, was_open, dtr), dtr);
        assert_eq!(modes, binary);
    }
    let mut modes = binary;
    assert!(!watch_port(&mut modes, true, false));
    assert_eq!(modes, Modes { diag: true, binary: false });
}

#[test]
fn greeting_gets_through_stale_text() {
    let mut serial = Vec::new();
    let mut modes = Modes::new();
    usb_irq(&mut serial, &mut modes, 3, "7c44b5e", b"b");
    for stale in [&b""[..], b"hello from RTIC on", &[0x55; 64]] {
        let mut receiver = Receiver::new();
        receiver.push(stale);
        let (got, _) = receiver.push(&serial);
        assert_eq!(
            print_frame(got.last().unwrap()),
            "[       3] HELLO proto=2 board=ArkDiscovery fw=7c44b5e"
        );
        let mut tick = Vec::new();
        Heartbeat::new().log_tick(&mut tick, &modes, 4);
        let (got, dropped) = receiver.push(&tick);
        assert_eq!((got.len(), dropped), (1, 0));
    }
}

#[test]
fn reboot_command_wins() {
    let mut serial = Vec::new();
    let mut modes = Modes::new();
    assert!(usb_irq(&mut serial, &mut modes, 1, "h", b"bdr"));
    assert_eq!(modes, Modes::new());
    assert!(serial.is_empty());
}

#[test]
fn heartbeat_in_both_modes() {
    let mut h = Heartbeat::new();
    let mut serial = Vec::new();
    assert_eq!(h.log_tick(&mut serial, &Modes::new(), 0), Led::Red);
    assert_eq!(h.log_tick(&mut serial, &Modes::new(), 1000), Led::Green);
    assert_eq!(
        String::from_utf8(serial).unwrap(),
        "hello from RTIC on STM32H743, tick 0\r\nhello from RTIC on STM32H743, tick 1\r\n"
    );
    let mut serial = Vec::new();
    let binary = Modes { diag: false, binary: true };
    assert_eq!(h.log_tick(&mut serial, &binary, 2000), Led::Blue);
    assert_eq!(frames(&serial), vec![dt::Frame { t_ms: 2000, msg: dt::Msg::Tick(2) }]);
    assert_eq!(h.log_tick(&mut serial, &binary, 3000), Led::Red);
}

#[test]
fn heartbeat_counter_starts_over() {
    let mut h = Heartbeat { counter: u32::MAX, led: Led::Blue };
    h.log_tick(&mut Vec::new(), &Modes::new(), 0);
    assert_eq!(h, Heartbeat { counter: 0, led: Led::Red });
}

#[test]
fn one_light_is_lit_by_a_low_pin() {
    assert_eq!(led_pins(None), [true, true, true]);
    assert_eq!(led_pins(Some(Led::Red)), [false, true, true]);
    assert_eq!(led_pins(Some(Led::Green)), [true, false, true]);
    assert_eq!(led_pins(Some(Led::Blue)), [true, true, false]);
}

fn sample(k: i32) -> ImuSample {
    ImuSample { accel: [k, -k, 2 * k], gyro: [10 * k, 0, -k], temp: 82_800 + k }
}

#[test]
fn imu_mean_counts_every_sample() {
    let mut state: SensorState<f32> = SensorState::new();
    assert!(state.drain_imu().is_none());
    for k in 1..=4 {
        state.accumulate(&sample(k));
    }
    let mean = state.drain_imu().unwrap();
    assert_eq!(mean.n, 4);
    assert_eq!(mean.accel_sum, [10, -10, 20]);
    assert_eq!(mean.gyro_sum, [100, 0, -10]);
    assert_eq!(mean.temp_sum, 4 * 82_800 + 10);
    assert!(state.drain_imu().is_none());
    state.accumulate(&sample(7));
    assert_eq!(state.drain_imu().unwrap().accel_sum, [7, -7, 14]);
}

#[test]
fn latest_inputs_are_taken_once() {
    let mut state: SensorState<f32> = SensorState::new();
    assert_eq!(state.take_mag(), None);
    let m = MagSample { field_nt: [1, 2, 3], temp_mc: 4 };
    state.set_mag(MagSample { field_nt: [0, 0, 0], temp_mc: 0 });
    state.set_mag(m);
    assert_eq!(state.take_mag(), Some(m));
    assert_eq!(state.take_mag(), None);
    state.set_pressure(1013.25);
    assert_eq!(state.take_pressure(), Some(1013.25));
    assert_eq!(state.take_pressure(), None);
}

#[test]
fn fusion_steps() {
    let mut state: SensorState<f32> = SensorState::new();
    // Flat and level the IMU reads one g downwards.
    state.accumulate(&ImuSample { accel: [0, 0, -2048], gyro: [1, 2, 3], temp: 0 });
    let mean = state.drain_imu().unwrap();
    let m = MagSample { field_nt: [10, 20, 30], temp_mc: 0 };
    let mut fusion: Fusion<f32> = Fusion::new(true);
    let step = fusion.update(&mean, None, None);
    assert_eq!(step.accel_sum, [0, 0, 2048]);
    assert_eq!(step.gyro_sum, [1, -2, -3]);
    assert_eq!((step.n, step.field_nt, step.seed, step.pressure), (1, None, None, None));
    let step = fusion.update(&mean, Some(m), Some(1000.0));
    assert_eq!(step.field_nt, Some([10, -20, -30]));
    assert_eq!((step.seed, step.pressure), (Some(1000.0), Some(1000.0)));
    let step = fusion.update(&mean, None, None);
    assert_eq!((step.seed, step.pressure), (None, Some(1000.0)));
    let step = fusion.update(&mean, None, Some(999.0));
    assert_eq!((step.seed, step.pressure), (None, Some(999.0)));
    let mut without: Fusion<f32> = Fusion::new(false);
    assert_eq!(without.update(&mean, Some(m), None).field_nt, None);
}
