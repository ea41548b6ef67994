use ark_discovery::build_info::{git_hash, short_hash};
use ark_discovery::telem::{detect_port, nul_trimmed, print_frame, receive, render_frame, report, PortInfo};
use ark_discovery::telemetry::{
    diag_enabled, emit_frame, emit_line, encode_frame, fw_git, hello_msg, imu_line_text, log_baro,
    log_fmt, log_fused, log_imu, log_mag, output_is_binary, set_output_binary, status_msg,
    toggle_diag, write_frame, write_serial, Modes,
};
use ark_discovery::text::{aligned_text, decimal_text, hex_text};
use ark_discovery::wire::{self, Board, Frame, Hello, Level, Msg, Receiver, Status};
use discovery_telemetry as dt;

fn imu() -> dt::Imu {
    dt::Imu { accel_g: [0.01, -0.02, -1.03], gyro_dps: [0.1, 0.2, -0.3], temp_c: 28.5 }
}

fn baro() -> dt::Baro {
    dt::Baro { pressure_hpa: 1013.25, temp_c: 25.5 }
}

fn mag() -> dt::Mag {
    dt::Mag { field_ut: [22.5, 10.3, -45.2], temp_c: 24.5 }
}

fn fused() -> dt::Fused {
    dt::Fused {
        roll_deg: 5.2,
        pitch_deg: 3.1,
        yaw_deg: 127.5,
        altitude_m: 100.45,
        vertical_speed_mps: 0.12,
        baro_residual_m: 0.05,
    }
}

fn binary() -> Modes {
    Modes { diag: false, binary: true }
}

fn text_mode() -> Modes {
    Modes { diag: false, binary: false }
}

fn text_of(serial: Vec<u8>) -> String {
    String::from_utf8(serial).unwrap()
}

fn frames(bytes: &[u8]) -> Vec<dt::Frame> {
    let mut out = Vec::new();
    let dropped = dt::codec::Decoder::new().push(bytes, |f| out.push(f));
    assert_eq!(dropped, 0);
    out
}

#[test]
fn numbers_as_text() {
    assert_eq!(decimal_text(0), "0");
    assert_eq!(decimal_text(4294967295), "4294967295");
    assert_eq!(hex_text(0x05), "05");
    assert_eq!(hex_text(0xAF), "af");
    assert_eq!(aligned_text(42, 8), "      42");
    assert_eq!(aligned_text(1234567890, 8), "1234567890");
}

#[test]
fn modes_at_the_start_and_switched() {
    let mut m = Modes::new();
    assert!(!diag_enabled(&m));
    assert!(!output_is_binary(&m));
    assert!(toggle_diag(&mut m));
    assert!(diag_enabled(&m));
    assert!(!toggle_diag(&mut m));
    set_output_binary(&mut m, true);
    assert!(output_is_binary(&m));
    set_output_binary(&mut m, false);
    assert_eq!(m, Modes::new());
}

#[test]
fn commit_hash_is_padded() {
    assert_eq!(&fw_git("7c44b5e"), b"7c44b5e\0");
    assert_eq!(&fw_git("0123456789"), b"01234567");
    assert_eq!(&fw_git(""), &[0u8; 8]);
    assert_eq!(nul_trimmed(&fw_git("7c44b5e")), "7c44b5e");
}

#[test]
fn build_hash() {
    assert_eq!(git_hash(Some("  7c44b5e\n")), "7c44b5e");
    assert_eq!(git_hash(Some("7c44b5e01\n")), "7c44b5e");
    assert_eq!(git_hash(Some(" \n")), "unknown");
    assert_eq!(git_hash(Some("\u{3000}\u{85}a b\u{2028}\t")), "a b");
    assert_eq!(git_hash(None), "unknown");
    assert_eq!(short_hash("abc"), "abc");
}

#[test]
fn serial_queue_keeps_order() {
    let mut serial = vec![1u8];
    write_serial(&mut serial, &[2, 3]);
    write_serial(&mut serial, &[]);
    assert_eq!(serial, vec![1, 2, 3]);
}

#[test]
fn long_lines_are_cut() {
    let mut serial = Vec::new();
    log_fmt(&mut serial, &"x".repeat(300));
    assert_eq!(serial, vec![b'x'; 192]);
    // A character is never split: 95 of two bytes each and one of one byte leave one byte free.
    let mut serial = Vec::new();
    let line = format!("{}a{}", "é".repeat(95), "é".repeat(9));
    log_fmt(&mut serial, &line);
    assert_eq!(text_of(serial), format!("{}a", "é".repeat(95)));
    let mut serial = Vec::new();
    log_fmt(&mut serial, &"y".repeat(192));
    assert_eq!(serial.len(), 192);
}

fn status_text(m: Msg) -> (Level, [u8; 48]) {
    match m {
        Msg::Status(s) => (s.level, s.text),
        _ => panic!("not a status"),
    }
}

#[test]
fn status_text_is_padded_and_cut() {
    let (level, text) = status_text(status_msg(Level::Warn, "baro BMP390"));
    assert_eq!(level, Level::Warn);
    assert_eq!(&text[..11], b"baro BMP390");
    assert!(text[11..].iter().all(|b| *b == 0));
    assert_eq!(nul_trimmed(&text), "baro BMP390");
    let (_, text) = status_text(status_msg(Level::Info, &"z".repeat(60)));
    assert_eq!(text, [b'z'; 48]);
    assert_eq!(nul_trimmed(&text), "z".repeat(48));
}

#[test]
fn text_that_is_not_utf8_is_replaced() {
    assert_eq!(nul_trimmed(&[b'a', 0xFF, b'b', 0, b'c']), "a\u{FFFD}b");
    assert_eq!(nul_trimmed(&[0, b'c']), "");
    assert_eq!(nul_trimmed(b"full"), "full");
}

#[test]
fn packets_are_those_of_the_wire_crate() {
    let mut buf = [0u8; dt::codec::MAX_FRAME];
    let f = dt::Frame { t_ms: 12345, msg: dt::Msg::Fused(fused()) };
    let expected = dt::codec::encode(&f, &mut buf).unwrap().to_vec();
    assert_eq!(encode_frame(12345, Msg::Fused(fused())), Some(expected.clone()));
    let mut serial = Vec::new();
    write_frame(&mut serial, 12345, Msg::Fused(fused()));
    assert_eq!(serial, expected);
    emit_frame(&mut serial, 12345, Msg::Fused(fused()));
    assert_eq!(serial.len(), 2 * expected.len());
    assert_eq!(wire::MAX_FRAME, dt::codec::MAX_FRAME);
    assert_eq!(wire::protocol_version(), dt::PROTOCOL_VERSION);
}

#[test]
fn longest_packet_fits() {
    for text in [[0u8; 48], [0xFFu8; 48]] {
        let msg = Msg::Status(Status { level: Level::Error, text });
        let bytes = encode_frame(u32::MAX, msg).unwrap();
        assert_eq!(bytes.len(), 57);
        assert_eq!(*bytes.last().unwrap(), 0);
        assert!(bytes[..56].iter().all(|b| *b != 0));
    }
}

#[test]
fn every_message_is_carried() {
    let boards = [
        (Board::ArkDiscovery, dt::Board::ArkDiscovery),
        (Board::HolybroDiscovery, dt::Board::HolybroDiscovery),
        (Board::Unknown, dt::Board::Unknown),
    ];
    for (board, expected) in boards {
        let msg = Msg::Hello(Hello { proto: 7, fw_git: *b"7c44b5e\0", board });
        let got = frames(&encode_frame(1, msg).unwrap());
        assert_eq!(
            got,
            vec![dt::Frame {
                t_ms: 1,
                msg: dt::Msg::Hello(dt::Hello { proto: 7, fw_git: *b"7c44b5e\0", board: expected })
            }]
        );
    }
    let levels = [
        (Level::Info, dt::Level::Info),
        (Level::Warn, dt::Level::Warn),
        (Level::Error, dt::Level::Error),
    ];
    for (level, expected) in levels {
        let msg = Msg::Status(Status { level, text: [7; 48] });
        let got = frames(&encode_frame(2, msg).unwrap());
        let status = dt::Msg::Status(dt::Status { level: expected, text: [7; 48] });
        assert_eq!(got, vec![dt::Frame { t_ms: 2, msg: status }]);
    }
    for (msg, expected) in [
        (Msg::Tick(42), dt::Msg::Tick(42)),
        (Msg::Imu(imu()), dt::Msg::Imu(imu())),
        (Msg::Baro(baro()), dt::Msg::Baro(baro())),
        (Msg::Mag(mag()), dt::Msg::Mag(mag())),
        (Msg::Fused(fused()), dt::Msg::Fused(fused())),
    ] {
        let got = frames(&encode_frame(3, msg).unwrap());
        assert_eq!(got, vec![dt::Frame { t_ms: 3, msg: expected }]);
    }
}

fn lines_of(f: &[Frame]) -> Vec<String> {
    f.iter().map(print_frame).collect()
}

#[test]
fn any_chunking_decodes_without_loss() {
    let mut stream = Vec::new();
    let mut expected = Vec::new();
    for (t, msg) in [
        (1, hello_msg("7c44b5e")),
        (2, Msg::Tick(0)),
        (3, Msg::Imu(imu())),
        (4, Msg::Baro(baro())),
        (5, Msg::Mag(mag())),
        (6, Msg::Fused(fused())),
        (7, status_msg(Level::Error, &"e".repeat(48))),
    ] {
        emit_frame(&mut stream, t, msg);
        expected.push(print_frame(&Frame { t_ms: t, msg }));
    }
    for size in [1, 2, 7, 63, 64, 65, 1000] {
        let mut receiver = Receiver::new();
        let mut got = Vec::new();
        for chunk in stream.chunks(size) {
            let (f, dropped) = receiver.push(chunk);
            assert_eq!(dropped, 0);
            got.extend(lines_of(&f));
        }
        assert_eq!(got, expected);
    }
}

#[test]
fn garbage_costs_one_packet() {
    let mut receiver = Receiver::new();
    let mut stream = vec![0x11, 0x22, 0x33, 0x00];
    emit_frame(&mut stream, 9, Msg::Tick(7));
    let r = receive(&mut receiver, &stream);
    assert_eq!(r.lines, vec!["[       9] tick 7"]);
    assert_eq!(
        r.notice.as_deref(),
        Some("telem: dropped 1 frame(s) (resync / version skew)")
    );
}

#[test]
fn overlong_input_is_given_up() {
    // 70 bytes and a zero at once: one packet that is too long.
    let mut receiver = Receiver::new();
    let mut long = vec![0x55u8; 70];
    long.push(0);
    let (f, dropped) = receiver.push(&long);
    assert_eq!((f.len(), dropped), (0, 1));
    // Without the zero the room is used up, and the six bytes behind it are held.
    let mut receiver = Receiver::new();
    let (f, dropped) = receiver.push(&[0x55; 70]);
    assert_eq!((f.len(), dropped), (0, 1));
    let (f, dropped) = receiver.push(&[0x55; 58]);
    assert_eq!((f.len(), dropped), (0, 0));
    let (f, dropped) = receiver.push(&[0x55]);
    assert_eq!((f.len(), dropped), (0, 1));
}

#[test]
fn nothing_received() {
    let r = receive(&mut Receiver::new(), &[]);
    assert!(r.lines.is_empty());
    assert_eq!(r.notice, None);
    let r = report(&vec![Frame { t_ms: 0, msg: Msg::Tick(1) }], 12);
    assert_eq!(r.lines, vec!["[       0] tick 1"]);
    assert_eq!(
        r.notice.as_deref(),
        Some("telem: dropped 12 frame(s) (resync / version skew)")
    );
}

#[test]
fn frames_are_printed() {
    let line = |msg| print_frame(&Frame { t_ms: 12345, msg });
    assert_eq!(line(Msg::Tick(42)), "[   12345] tick 42");
    assert_eq!(
        line(hello_msg("7c44b5e")),
        "[   12345] HELLO proto=2 board=ArkDiscovery fw=7c44b5e"
    );
    assert_eq!(
        line(Msg::Hello(Hello { proto: 3, fw_git: *b"abc\0\0\0\0\0", board: Board::Unknown })),
        "[   12345] HELLO proto=3 board=Unknown fw=abc  !! proto mismatch (host expects 2)"
    );
    assert_eq!(
        line(Msg::Hello(Hello { proto: 2, fw_git: [0; 8], board: Board::HolybroDiscovery })),
        "[   12345] HELLO proto=2 board=HolybroDiscovery fw="
    );
    assert_eq!(
        line(Msg::Imu(imu())),
        "[   12345] imu accel[g]=0.01,-0.02,-1.03 gyro[dps]=0.1,0.2,-0.3 temp=28.5C"
    );
    assert_eq!(line(Msg::Baro(baro())), "[   12345] baro press=1013.25hPa temp=25.50C");
    assert_eq!(line(Msg::Mag(mag())), "[   12345] mag field[uT]=22.5,10.3,-45.2 temp=24.5C");
    assert_eq!(
        line(Msg::Fused(fused())),
        "[   12345] fus roll=5.2 pitch=3.1 yaw=127.5deg alt=100.45m vz=0.12m/s resid=0.05m"
    );
    assert_eq!(line(status_msg(Level::Info, "diag on")), "[   12345] [INFO] diag on");
    assert_eq!(line(status_msg(Level::Warn, "w")), "[   12345] [WARN] w");
    assert_eq!(line(status_msg(Level::Error, "e")), "[   12345] [ERROR] e");
}

#[test]
fn rendered_figures_are_placed() {
    let figs: Vec<String> = ["1", "2"].iter().map(|s| s.to_string()).collect();
    assert_eq!(
        render_frame(&Frame { t_ms: 1, msg: Msg::Baro(baro()) }, &figs, ""),
        "[       1] baro press=1hPa temp=2C"
    );
    let figs: Vec<String> = (1..8).map(|n| n.to_string()).collect();
    assert_eq!(
        imu_line_text(3, 0x56, 0x56, &figs),
        "imu[3] id=0x56(exp 56) accel[g]=1,2,3 gyro[dps]=4,5,6 temp=7C\r\n"
    );
}

#[test]
fn notices_in_both_modes() {
    let mut serial = Vec::new();
    emit_line(&mut serial, &text_mode(), 5, Level::Info, "mag ok");
    assert_eq!(text_of(serial), "mag ok\r\n");
    let mut serial = Vec::new();
    emit_line(&mut serial, &binary(), 5, Level::Error, "mag gone");
    let mut text = [0u8; 48];
    text[..8].copy_from_slice(b"mag gone");
    let status = dt::Msg::Status(dt::Status { level: dt::Level::Error, text });
    assert_eq!(frames(&serial), vec![dt::Frame { t_ms: 5, msg: status }]);
}

#[test]
fn a_notice_says_the_same_in_both_modes() {
    let line = "mag: continuous mode did not latch";
    let mut as_text = Vec::new();
    emit_line(&mut as_text, &text_mode(), 1, Level::Warn, line);
    let mut as_packet = Vec::new();
    emit_line(&mut as_packet, &binary(), 1, Level::Warn, line);
    let r = receive(&mut Receiver::new(), &as_packet);
    assert_eq!(r.lines, vec![format!("[       1] [WARN] {line}")]);
    assert_eq!(text_of(as_text), format!("{line}\r\n"));
}

#[test]
fn samples_as_text() {
    let m = text_mode();
    let mut serial = Vec::new();
    log_imu(&mut serial, &m, 1, 100, 0x56, 0x56, &imu());
    assert_eq!(
        text_of(serial),
        "imu[100] id=0x56(exp 56) accel[g]=0.01,-0.02,-1.03 gyro[dps]=0.1,0.2,-0.3 temp=28.5C\r\n"
    );
    let mut serial = Vec::new();
    log_baro(&mut serial, &m, 1, &baro());
    assert_eq!(text_of(serial), "baro press=1013.25hPa temp=25.50C\r\n");
    let mut serial = Vec::new();
    log_mag(&mut serial, &m, 1, &mag());
    assert_eq!(text_of(serial), "mag field[uT]=22.5,10.3,-45.2 temp=24.5C\r\n");
    let mut serial = Vec::new();
    log_fused(&mut serial, &m, 1, &fused());
    assert_eq!(
        text_of(serial),
        "fus roll=5.2 pitch=3.1 yaw=127.5deg alt=100.45m vz=0.12m/s\r\n"
    );
}

#[test]
fn samples_as_packets() {
    let m = binary();
    let mut serial = Vec::new();
    log_imu(&mut serial, &m, 1, 100, 0x47, 0x56, &imu());
    let got = frames(&serial);
    assert_eq!(got.len(), 2);
    match got[0].msg {
        dt::Msg::Status(s) => {
            assert_eq!(s.level, dt::Level::Info);
            assert_eq!(nul_trimmed(&s.text), "imu id=0x47 (exp 56)");
        }
        _ => panic!("no status"),
    }
    assert_eq!(got[1], dt::Frame { t_ms: 1, msg: dt::Msg::Imu(imu()) });
    let mut serial = Vec::new();
    log_imu(&mut serial, &m, 2, 200, 0x47, 0x56, &imu());
    log_baro(&mut serial, &m, 3, &baro());
    log_mag(&mut serial, &m, 4, &mag());
    log_fused(&mut serial, &m, 5, &fused());
    assert_eq!(
        frames(&serial),
        vec![
            dt::Frame { t_ms: 2, msg: dt::Msg::Imu(imu()) },
            dt::Frame { t_ms: 3, msg: dt::Msg::Baro(baro()) },
            dt::Frame { t_ms: 4, msg: dt::Msg::Mag(mag()) },
            dt::Frame { t_ms: 5, msg: dt::Msg::Fused(fused()) },
        ]
    );
}

#[test]
fn port_is_found() {
    let port = |name: &str, usb| PortInfo { name: name.to_string(), usb };
    assert_eq!(detect_port(&vec![]), None);
    assert_eq!(detect_port(&vec![port("a", false), port("b", false)]).as_deref(), Some("a"));
    assert_eq!(
        detect_port(&vec![port("a", false), port("b", true), port("c", true)]).as_deref(),
        Some("b")
    );
}
