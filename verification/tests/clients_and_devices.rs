use trusdx_bridge::device::{
    find_trusdx_device, matches_ch340, open_trusdx_serial, sysfs_device_path, usb_serial_name,
    DataBits, DevEntry, FlowControl, Parity, SerialSetup, StopBits, UsbIds,
};
use trusdx_bridge::rigctl::{
    holder_to_end, log_lines, read_foreign_holder, set_frequency, LineOutcome, RigAction,
    RigSession,
};

fn obey(session: &mut RigSession, line: &str) -> Vec<RigAction> {
    match session.handle_line(Some(line), 7_074_000, false) {
        LineOutcome::Actions(actions) => actions,
        LineOutcome::Decimal(word) => panic!("unexpected {word}"),
    }
}

fn said(s: &str) -> Vec<RigAction> {
    vec![RigAction::Reply(s.to_string())]
}

fn tuned(hz: u64) -> Vec<RigAction> {
    vec![
        RigAction::SetFrequency(hz),
        RigAction::Queue(format!("FA{:011};", hz).into_bytes()),
        RigAction::Reply("RPRT 0\n".to_string()),
    ]
}

#[test]
fn plain_commands_are_answered() {
    let mut s = RigSession::new();
    assert_eq!(obey(&mut s, "\\get_powerstat\n"), said("1\n"));
    assert_eq!(obey(&mut s, "\\chk_vfo\n"), said("0\n"));
    assert_eq!(obey(&mut s, "\\dump_caps\n"), said("RPRT 0\n"));
    assert_eq!(obey(&mut s, "m\n"), said("USB\n2400\n"));
    assert_eq!(obey(&mut s, "v\n"), said("VFOA\n"));
    assert_eq!(obey(&mut s, "V VFOB\n"), said("RPRT 0\n"));
    assert_eq!(
        obey(&mut s, "M USB 2400\n"),
        [RigAction::Queue(b"MD2;".to_vec()), RigAction::Reply("RPRT 0\n".to_string())]
    );
    assert_eq!(
        obey(&mut s, "q\n"),
        [RigAction::Reply("RPRT 0\n".to_string()), RigAction::Close]
    );
}

#[test]
fn the_state_is_dumped_line_by_line() {
    let lines = [
        "0", "0", "0", "0 0 0 0 0 0 0", "0 0 0 0 0 0 0", "0 0", "0 0", "0", "0", "0", "0",
        "0 0 0 0 0 0 0", "0 0 0 0 0 0 0", "0", "0", "0", "0", "0", "0",
    ];
    let expected: String = lines.iter().map(|l| format!("{l}\n")).collect();
    assert_eq!(obey(&mut RigSession::new(), "\\dump_state\n"), said(&expected));
}

#[test]
fn the_frequency_is_told() {
    let mut s = RigSession::new();
    assert_eq!(obey(&mut s, "f\n"), said("7074000\n"));
    assert_eq!(obey(&mut s, "\\get_freq\r\n"), said("7074000\n"));
    assert_eq!(obey(&mut s, "f VFOA\n"), said("RPRT -1\n"));
    obey(&mut s, "\\set_vfo_opt 1\n");
    assert_eq!(obey(&mut s, "f VFOA\n"), said("7074000\n"));
    assert_eq!(obey(&mut s, "f VFOB\n"), said("RPRT -1\n"));
    assert_eq!(obey(&mut s, "f\n"), said("RPRT -1\n"));
    assert_eq!(obey(&mut s, "f VFOA x\n"), said("RPRT -1\n"));
}

#[test]
fn the_frequency_is_set() {
    let mut s = RigSession::new();
    assert_eq!(obey(&mut s, "F 14074000\n"), tuned(14_074_000));
    assert_eq!(obey(&mut s, "\\set_freq +5\n"), tuned(5));
    assert_eq!(obey(&mut s, "F 18446744073709551615\n"), tuned(u64::MAX));
    assert_eq!(obey(&mut s, "F\n"), said("RPRT -1\n"));
    assert_eq!(obey(&mut s, "F VFOA 5\n"), said("RPRT -1\n"));
    obey(&mut s, "\\set_vfo_opt 1\n");
    assert_eq!(obey(&mut s, "F VFOA 5\n"), tuned(5));
    assert_eq!(obey(&mut s, "F VFOB 5\n"), said("RPRT -1\n"));
    assert_eq!(obey(&mut s, "F 5\n"), said("RPRT -1\n"));
}

#[test]
fn a_frequency_with_a_fraction_is_handed_out() {
    let mut s = RigSession::new();
    assert_eq!(
        s.handle_line(Some("F 14074000.000000\n"), 0, false),
        LineOutcome::Decimal("14074000.000000".to_string())
    );
    assert_eq!(
        s.handle_line(Some("F nonsense\n"), 0, false),
        LineOutcome::Decimal("nonsense".to_string())
    );
    s.handle_line(Some("\\set_vfo_opt 1"), 0, false);
    assert_eq!(
        s.handle_line(Some("F VFOA 18446744073709551616\n"), 0, false),
        LineOutcome::Decimal("18446744073709551616".to_string())
    );
    assert_eq!(set_frequency(Some(14_074_000)), tuned(14_074_000));
    assert!(set_frequency(None).is_empty());
}

#[test]
fn what_is_set_is_what_is_got() {
    for hz in [0, 7_074_000, u64::MAX] {
        let mut s = RigSession::new();
        assert_eq!(obey(&mut s, &format!("F {hz}\n")), tuned(hz));
        assert_eq!(
            s.handle_line(Some("f\n"), hz, false),
            LineOutcome::Actions(said(&format!("{hz}\n")))
        );
    }
}

#[test]
fn the_transmitter_is_keyed_and_released() {
    let mut s = RigSession::new();
    let done = || RigAction::Reply("RPRT 0\n".to_string());
    for line in ["T 1\n", "\\set_ptt 3\n", "T -1 x\n"] {
        assert_eq!(
            obey(&mut s, line),
            [RigAction::StartTransmit, RigAction::SetTransmit(true), done()]
        );
    }
    for line in ["T 0\n", "T x\n", "T 2147483648\n"] {
        assert_eq!(
            obey(&mut s, line),
            [RigAction::EnableStreaming, RigAction::SetTransmit(false), done()]
        );
    }
    assert_eq!(obey(&mut s, "T\n"), said("RPRT -1\n"));
    assert_eq!(obey(&mut s, "t\n"), said("0\n"));
    assert_eq!(
        s.handle_line(Some("\\get_ptt\n"), 0, true),
        LineOutcome::Actions(said("1\n"))
    );
}

#[test]
fn the_vfo_option_is_kept() {
    let mut s = RigSession::new();
    assert_eq!(obey(&mut s, "\\set_vfo_opt 1\n"), said("RPRT 0\n"));
    assert_eq!(obey(&mut s, "\\chk_vfo\n"), said("1\n"));
    assert_eq!(obey(&mut s, "nonsense\n"), said("RPRT -1\n"));
    assert_eq!(obey(&mut s, "\\chk_vfo\n"), said("1\n"));
    assert_eq!(obey(&mut s, "\\set_vfo_opt\n"), said("RPRT 0\n"));
    assert_eq!(obey(&mut s, "\\chk_vfo\n"), said("0\n"));
}

#[test]
fn what_no_one_knows_is_refused() {
    let mut s = RigSession::new();
    for line in ["x\n", "\\get_frequ\n", "ff\n", "\u{e9}\n", "\\\n"] {
        assert_eq!(obey(&mut s, line), said("RPRT -1\n"));
    }
}

#[test]
fn the_connection_ends_with_its_input() {
    let mut s = RigSession::new();
    assert_eq!(
        s.handle_line(None, 0, false),
        LineOutcome::Actions(vec![RigAction::Close])
    );
    assert_eq!(obey(&mut s, ""), [RigAction::Close]);
    assert!(obey(&mut s, "\n").is_empty());
    assert!(obey(&mut s, " \u{2003}\r\n").is_empty());
    assert_eq!(obey(&mut s, "\u{a0}f\u{b}\n"), said("7074000\n"));
}

#[test]
fn another_holder_of_the_port_is_ended() {
    assert_eq!(holder_to_end(b"", 7), None);
    assert_eq!(holder_to_end(b"7\n", 7), None);
    assert_eq!(holder_to_end(b"8\n", 7), Some("8".to_string()));
    assert_eq!(holder_to_end(b"8\n7\n", 7), Some("8\n7".to_string()));
    assert_eq!(holder_to_end(b"\n", 7), Some(String::new()));
    assert_eq!(holder_to_end(b"\xff", 7), Some("\u{fffd}".to_string()));
    assert_eq!(read_foreign_holder("4294967295", u32::MAX), None);
}

fn named(name: &str, ids: UsbIds) -> DevEntry {
    DevEntry::Named { name: name.to_string(), ids }
}

fn ch340() -> UsbIds {
    UsbIds::Known { vendor: "1a86\n".to_string(), product: "7523\n".to_string() }
}

fn other() -> UsbIds {
    UsbIds::Known { vendor: "0403\n".to_string(), product: "6001\n".to_string() }
}

#[test]
fn the_first_ch340_is_the_radio() {
    let entries = vec![
        named("tty0", UsbIds::Missing),
        named("ttyUSB0", other()),
        named("ttyUSB1", UsbIds::Missing),
        named("xttyUSB2", ch340()),
        named("ttyUSB3", ch340()),
        named("ttyUSB4", ch340()),
        DevEntry::Unreadable,
    ];
    assert_eq!(find_trusdx_device(&entries), Some("/dev/ttyUSB3".to_string()));
}

#[test]
fn a_failure_before_the_radio_ends_the_search() {
    assert_eq!(
        find_trusdx_device(&vec![DevEntry::Unreadable, named("ttyUSB0", ch340())]),
        None
    );
    assert_eq!(
        find_trusdx_device(&vec![named("ttyUSB0", UsbIds::Failed), named("ttyUSB1", ch340())]),
        None
    );
    assert_eq!(
        find_trusdx_device(&vec![named("tty0", UsbIds::Failed), named("ttyUSB1", ch340())]),
        Some("/dev/ttyUSB1".to_string())
    );
    assert_eq!(find_trusdx_device(&Vec::new()), None);
}

#[test]
fn identifiers_are_compared_in_either_case() {
    assert!(matches_ch340(" 1A86\n", "7523"));
    assert!(matches_ch340("1a86", "\u{2003}7523"));
    assert!(!matches_ch340("1a86", "7524"));
    assert!(!matches_ch340("1a8 6", "7523"));
    for n in 0u32..0x11_0000 {
        if let Some(c) = char::from_u32(n) {
            let vendor = format!("1{c}86");
            let expected = vendor.trim().to_lowercase() == "1a86";
            assert_eq!(matches_ch340(&vendor, "7523"), expected);
        }
    }
}

#[test]
fn names_and_paths_of_devices() {
    assert!(usb_serial_name("ttyUSB"));
    assert!(usb_serial_name("ttyUSB12"));
    assert!(!usb_serial_name("ttyUS"));
    assert!(!usb_serial_name("ttyusb0"));
    assert_eq!(sysfs_device_path("ttyUSB0"), "/sys/class/tty/ttyUSB0/device");
}

#[test]
fn a_command_is_logged_word_by_word() {
    assert_eq!(
        log_lines("  F  VFOA\t7074000 \r\n"),
        ["F  VFOA\t7074000", "  3", "    0 => F", "    1 => VFOA", "    2 => 7074000"]
    );
    assert_eq!(log_lines("q"), ["q", "  1", "    0 => q"]);
    assert_eq!(log_lines("a\u{2003}b c"), ["a\u{2003}b c", "  2", "    0 => a\u{2003}b", "    1 => c"]);
    let many = log_lines("x x x x x x x x x x x\n");
    assert_eq!(many.len(), 13);
    assert_eq!(many[1], "  11");
    assert_eq!(many[12], "    10 => x");
}

#[test]
fn a_blank_line_is_not_logged() {
    assert!(log_lines("").is_empty());
    assert!(log_lines(" \t\r\n").is_empty());
    assert!(log_lines("\u{2003}\n").is_empty());
}

#[test]
fn the_line_to_the_radio_is_set_up() {
    assert_eq!(
        open_trusdx_serial(Some("/dev/ttyUSB3".to_string())),
        Ok(SerialSetup {
            path: "/dev/ttyUSB3".to_string(),
            baud_rate: 115200,
            data_bits: DataBits::Eight,
            parity: Parity::Off,
            stop_bits: StopBits::One,
            flow_control: FlowControl::Off,
            timeout_ms: 10,
        })
    );
    assert_eq!(open_trusdx_serial(None), Err("No CH340 device found".to_string()));
}

/// Obeys `line` over `session`, and keeps what is noted in `freq` and `tx`.
fn obey_and_note(session: &mut RigSession, line: &str, freq: &mut u64, tx: &mut bool) -> String {
    let mut reply = String::new();
    match session.handle_line(Some(line), *freq, *tx) {
        LineOutcome::Actions(actions) => {
            for action in actions {
                match action {
                    RigAction::SetFrequency(hz) => *freq = hz,
                    RigAction::SetTransmit(on) => *tx = on,
                    RigAction::Reply(s) => reply.push_str(&s),
                    _ => {}
                }
            }
        }
        LineOutcome::Decimal(word) => panic!("unexpected {word}"),
    }
    reply
}

#[test]
fn a_new_connection_shares_what_is_noted_and_not_the_vfo_option() {
    let (mut freq, mut tx) = (14_074_000, false);
    let mut first = RigSession::new();
    assert_eq!(obey_and_note(&mut first, "F 7074000\n", &mut freq, &mut tx), "RPRT 0\n");
    assert_eq!(obey_and_note(&mut first, "\\set_vfo_opt 1\n", &mut freq, &mut tx), "RPRT 0\n");
    assert_eq!(obey_and_note(&mut first, "T 1\n", &mut freq, &mut tx), "RPRT 0\n");
    let mut second = RigSession::new();
    assert_eq!(obey_and_note(&mut second, "\\chk_vfo\n", &mut freq, &mut tx), "0\n");
    assert_eq!(obey_and_note(&mut second, "f\n", &mut freq, &mut tx), "7074000\n");
    assert_eq!(obey_and_note(&mut second, "t\n", &mut freq, &mut tx), "1\n");
    assert_eq!(obey_and_note(&mut first, "\\chk_vfo\n", &mut freq, &mut tx), "1\n");
    assert_eq!(obey_and_note(&mut first, "f VFOA\n", &mut freq, &mut tx), "7074000\n");
}

#[test]
fn long_names_and_other_spellings_do_the_same() {
    let mut s = RigSession::new();
    assert_eq!(obey(&mut s, "\\set_freq +007030000\n"), tuned(7_030_000));
    assert_eq!(obey(&mut s, "\\get_freq\n"), said("7074000\n"));
    assert_eq!(obey(&mut s, "\\get_ptt\n"), said("0\n"));
    assert_eq!(
        obey(&mut s, "\\set_ptt 2 more words\n"),
        [
            RigAction::StartTransmit,
            RigAction::SetTransmit(true),
            RigAction::Reply("RPRT 0\n".to_string())
        ]
    );
    assert_eq!(obey(&mut s, "\\set_ptt\n"), said("RPRT -1\n"));
    assert_eq!(obey(&mut s, "\\set_vfo_opt 1 more\n"), said("RPRT 0\n"));
    assert!(s.vfo_mode);
    assert_eq!(obey(&mut s, "\\set_freq VFOA 7030000\n"), tuned(7_030_000));
    assert_eq!(obey(&mut s, "\\set_vfo_opt\n"), said("RPRT 0\n"));
    assert!(!s.vfo_mode);
}
