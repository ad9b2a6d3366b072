use trusdx_bridge::demux::{Mode, RxDemux, RxEvent};
use trusdx_bridge::shutdown::{shutdown, ShutdownStep};
use trusdx_bridge::trusdx::{
    control_dtr, control_rts, drain_cat, enable_streaming_speaker_off, enable_streaming_speaker_on,
    flush_serial_line, get_last_rts, last_rts_state, query_vfo_a, send_audio_stream_raw,
    send_command_to_radio, set_last_dtr, set_last_rts, set_mode, start_transmit_baseband,
    LineState, OnError, SerialOp, SerialRun, SerialStep,
};

/// Runs `steps` with the given results, and gives the operations done and the failure reported.
fn run(steps: Vec<SerialStep>, lines: &mut LineState, results: &[bool]) -> (usize, Option<usize>) {
    let mut run = SerialRun::new(steps);
    let mut done = 0;
    while run.current().is_some() {
        run.advance(results[done], lines);
        done += 1;
    }
    (done, run.failed_step())
}

fn command(data: &[u8]) -> Vec<SerialStep> {
    vec![
        SerialStep { op: SerialOp::Flush, on_error: OnError::Ignore },
        SerialStep { op: SerialOp::WriteAll(data.to_vec()), on_error: OnError::Keep },
        SerialStep { op: SerialOp::Flush, on_error: OnError::Ignore },
    ]
}

fn keyed(data: &[u8]) -> Vec<SerialStep> {
    let mut steps =
        vec![SerialStep { op: SerialOp::RequestToSend(true), on_error: OnError::Return }];
    steps.extend(command(data));
    steps.push(SerialStep { op: SerialOp::RequestToSend(false), on_error: OnError::Return });
    steps
}

#[test]
fn commands_are_written_as_the_radio_wants_them() {
    assert_eq!(start_transmit_baseband(), command(b";TX0;"));
    assert_eq!(query_vfo_a(), command(b"FA;"));
    assert_eq!(send_command_to_radio(b"XY;".to_vec()), command(b"XY;"));
    assert_eq!(enable_streaming_speaker_off(), keyed(b";RX;UA2;"));
    assert_eq!(enable_streaming_speaker_on(), keyed(b";RX;UA1;"));
    for (mode, data) in [
        (0u8, b"MD0;"),
        (1, b"MD1;"),
        (2, b"MD2;"),
        (3, b"MD3;"),
        (4, b"MD4;"),
        (5, b"MD5;"),
        (6, b"MD2;"),
        (255, b"MD2;"),
    ] {
        assert_eq!(set_mode(mode), command(data));
    }
}

#[test]
fn single_operations_report_their_failure() {
    let op = |op| vec![SerialStep { op, on_error: OnError::Return }];
    assert_eq!(flush_serial_line(), op(SerialOp::Flush));
    assert_eq!(control_rts(true), op(SerialOp::RequestToSend(true)));
    assert_eq!(control_dtr(false), op(SerialOp::DataTerminalReady(false)));
    assert_eq!(
        send_audio_stream_raw(vec![1, 2]),
        op(SerialOp::WriteOnce(vec![1, 2]))
    );
    let mut lines = LineState::new();
    assert_eq!(run(flush_serial_line(), &mut lines, &[false]), (1, Some(0)));
    assert_eq!(run(flush_serial_line(), &mut lines, &[true]), (1, None));
}

#[test]
fn control_lines_are_remembered_when_they_were_set() {
    let mut lines = LineState::new();
    assert!(!last_rts_state(&lines));
    run(control_rts(true), &mut lines, &[true]);
    assert!(last_rts_state(&lines));
    run(control_rts(false), &mut lines, &[false]);
    assert!(last_rts_state(&lines));
    run(control_dtr(true), &mut lines, &[true]);
    assert_eq!(lines, LineState { rts: true, dtr: true });
    set_last_rts(&mut lines, false);
    set_last_dtr(&mut lines, false);
    assert!(!get_last_rts(&lines));
    assert_eq!(lines, LineState { rts: false, dtr: false });
}

#[test]
fn a_failed_flush_is_no_failure_of_a_command() {
    for first in [false, true] {
        for write in [false, true] {
            for last in [false, true] {
                let mut lines = LineState { rts: true, dtr: false };
                let end = run(query_vfo_a(), &mut lines, &[first, write, last]);
                assert_eq!(end, (3, if write { None } else { Some(1) }));
                assert_eq!(lines, LineState { rts: true, dtr: false });
            }
        }
    }
}

#[test]
fn a_keyed_command_lowers_rts_again() {
    let mut lines = LineState::new();
    let all = [true; 5];
    assert_eq!(run(enable_streaming_speaker_off(), &mut lines, &all), (5, None));
    assert!(!last_rts_state(&lines));
    let write_fails = [true, true, false, true, true];
    assert_eq!(run(enable_streaming_speaker_off(), &mut lines, &write_fails), (5, Some(2)));
    assert!(!last_rts_state(&lines));
    let both_fail = [true, true, false, true, false];
    assert_eq!(run(enable_streaming_speaker_on(), &mut lines, &both_fail), (5, Some(4)));
    assert!(last_rts_state(&lines));
}

#[test]
fn a_keyed_command_writes_nothing_without_rts() {
    let mut lines = LineState::new();
    assert_eq!(run(enable_streaming_speaker_off(), &mut lines, &[false]), (1, Some(0)));
    assert_eq!(lines, LineState::new());
}

#[test]
fn a_finished_run_stays_as_it_is() {
    let mut lines = LineState::new();
    let mut run = SerialRun::new(control_rts(true));
    run.advance(false, &mut lines);
    run.advance(true, &mut lines);
    assert_eq!(run.failed_step(), Some(0));
    assert!(run.current().is_none());
    assert!(!lines.rts);
}

#[test]
fn waiting_commands_are_all_written() {
    let mut queue = vec![b"FA00007074000;".to_vec(), b"MD2;".to_vec()];
    let steps = drain_cat(&mut queue);
    assert!(queue.is_empty());
    let ops: Vec<&SerialOp> = steps.iter().map(|s| &s.op).collect();
    assert_eq!(
        ops,
        [
            &SerialOp::WriteAll(b"FA00007074000;".to_vec()),
            &SerialOp::WriteAll(b"MD2;".to_vec()),
            &SerialOp::Flush,
        ]
    );
    let mut lines = LineState::new();
    assert_eq!(run(steps, &mut lines, &[false; 3]), (3, None));
    assert!(drain_cat(&mut queue).is_empty());
}

#[test]
fn mode_commands_are_heard_back() {
    for (mode, expected) in [
        (0u8, Mode::Usb),
        (1, Mode::Lsb),
        (2, Mode::Usb),
        (3, Mode::Cw),
        (4, Mode::Fm),
        (5, Mode::Am),
        (9, Mode::Usb),
    ] {
        let steps = set_mode(mode);
        match &steps[1].op {
            SerialOp::WriteAll(data) => assert_eq!(
                RxDemux::new().feed(data),
                [RxEvent::ModeChange(expected), RxEvent::SendPending]
            ),
            _ => panic!("no write"),
        }
    }
}

#[test]
fn the_end_gives_the_radio_its_speaker_back() {
    assert_eq!(
        shutdown(),
        [
            ShutdownStep::MarkShuttingDown,
            ShutdownStep::StopAudio,
            ShutdownStep::Serial(vec![keyed(b";RX;UA1;"), flush_serial_line()]),
        ]
    );
}
