use trusdx_bridge::bridge::{Bridge, BridgeAction, BridgeEvent};
use trusdx_bridge::demux::RxEvent;
use trusdx_bridge::gui::{check_display, state_label};
use trusdx_bridge::monitor::{start_radio, PollAction, StartAction, StreamStart, VfoPoll};
use trusdx_bridge::trusdx::{
    control_dtr, control_rts, enable_streaming_speaker_off, set_mode,
};

fn switches(is_tx: bool) -> BridgeEvent {
    BridgeEvent::Switches { stop: false, is_tx }
}

fn transmitting() -> Bridge {
    let mut bridge = Bridge::new();
    bridge.step(switches(true));
    bridge.step(BridgeEvent::Drained { ok: false });
    bridge.step(BridgeEvent::RecordFailed);
    bridge
}

#[test]
fn the_first_question_is_for_the_switches() {
    assert_eq!(Bridge::new().ask(), BridgeAction::AskSwitches);
}

#[test]
fn receiving_reads_and_acts() {
    let mut bridge = Bridge::new();
    assert_eq!(
        bridge.step(switches(false)),
        [BridgeAction::ClearOutputLevel, BridgeAction::AskReceive]
    );
    assert_eq!(
        bridge.step(BridgeEvent::Received(b"USab".to_vec())),
        [BridgeAction::Rx(RxEvent::Streaming), BridgeAction::AskSwitches]
    );
    bridge.step(switches(false));
    assert_eq!(
        bridge.step(BridgeEvent::Received(b"c;".to_vec())),
        [
            BridgeAction::Rx(RxEvent::Play(b"abc".to_vec())),
            BridgeAction::Rx(RxEvent::SendPending),
            BridgeAction::AskSwitches,
        ]
    );
    bridge.step(switches(false));
    assert_eq!(
        bridge.step(BridgeEvent::Received(Vec::new())),
        [BridgeAction::AskSwitches]
    );
}

#[test]
fn transmission_throws_old_audio_away_ten_times_at_the_most() {
    let mut bridge = Bridge::new();
    assert_eq!(bridge.step(switches(true)), [BridgeAction::AskDrain]);
    for _ in 0..9 {
        assert_eq!(
            bridge.step(BridgeEvent::Drained { ok: true }),
            [BridgeAction::AskDrain]
        );
    }
    let to_transmit = [
        BridgeAction::SendPending,
        BridgeAction::ClearInputLevel,
        BridgeAction::AskRecord,
    ];
    assert_eq!(bridge.step(BridgeEvent::Drained { ok: true }), to_transmit);

    let mut bridge = Bridge::new();
    bridge.step(switches(true));
    assert_eq!(bridge.step(BridgeEvent::Drained { ok: false }), to_transmit);
}

#[test]
fn transmission_sends_what_is_loud_enough() {
    let mut bridge = transmitting();
    assert_eq!(
        bridge.step(switches(true)),
        [
            BridgeAction::SendPending,
            BridgeAction::ClearInputLevel,
            BridgeAction::AskRecord,
        ]
    );
    assert_eq!(
        bridge.step(BridgeEvent::Recorded { samples: vec![0, -17664, i16::MAX], quiet: false }),
        [
            BridgeAction::SendAudio(vec![128, b':', 255]),
            BridgeAction::AskSwitches,
        ]
    );
    bridge.step(switches(true));
    assert_eq!(
        bridge.step(BridgeEvent::Recorded { samples: vec![1, 2], quiet: true }),
        [BridgeAction::AskSwitches]
    );
    bridge.step(switches(true));
    assert_eq!(bridge.step(BridgeEvent::RecordFailed), [BridgeAction::AskSwitches]);
}

#[test]
fn the_end_of_transmission_restarts_the_stream() {
    let mut bridge = transmitting();
    assert_eq!(
        bridge.step(switches(false)),
        [
            BridgeAction::ClearStreaming,
            BridgeAction::Sleep(30),
            BridgeAction::EnableStreaming,
            BridgeAction::StartTimer,
            BridgeAction::AskStreaming,
        ]
    );
    let look = |started, elapsed_ms| BridgeEvent::Streaming { started, elapsed_ms };
    let again = [BridgeAction::Sleep(5), BridgeAction::AskStreaming];
    assert_eq!(bridge.step(look(false, 0)), again);
    assert_eq!(bridge.step(look(false, 199)), again);
    assert_eq!(
        bridge.step(look(false, 200)),
        [
            BridgeAction::EnableStreaming,
            BridgeAction::StartTimer,
            BridgeAction::AskStreaming,
        ]
    );
    assert_eq!(bridge.step(look(false, 99)), again);
    let receive = [BridgeAction::ClearOutputLevel, BridgeAction::AskReceive];
    assert_eq!(bridge.step(look(false, 100)), receive);

    let mut bridge = transmitting();
    bridge.step(switches(false));
    assert_eq!(bridge.step(look(true, 500)), receive);
}

#[test]
fn the_end_of_transmission_forgets_an_open_frame() {
    let mut bridge = Bridge::new();
    bridge.step(switches(false));
    bridge.step(BridgeEvent::Received(b"USabc".to_vec()));
    bridge.step(switches(true));
    bridge.step(BridgeEvent::Drained { ok: false });
    bridge.step(BridgeEvent::RecordFailed);
    bridge.step(switches(false));
    bridge.step(BridgeEvent::Streaming { started: true, elapsed_ms: 0 });
    assert_eq!(
        bridge.step(BridgeEvent::Received(b";".to_vec())),
        [BridgeAction::Rx(RxEvent::SendPending), BridgeAction::AskSwitches]
    );
}

#[test]
fn an_answer_to_another_question_is_passed_over() {
    let mut bridge = Bridge::new();
    assert_eq!(
        bridge.step(BridgeEvent::Received(b"FA7;".to_vec())),
        [BridgeAction::AskSwitches]
    );
    assert_eq!(bridge.step(BridgeEvent::RecordFailed), [BridgeAction::AskSwitches]);
}

#[test]
fn the_stop_switch_ends_the_bridge() {
    let mut bridge = Bridge::new();
    let stop = || BridgeEvent::Switches { stop: true, is_tx: true };
    assert_eq!(bridge.step(stop()), [BridgeAction::Stop]);
    assert_eq!(bridge.step(switches(false)), [BridgeAction::Stop]);
    assert_eq!(bridge.ask(), BridgeAction::Stop);
}

#[test]
fn the_radio_is_started_in_order() {
    assert_eq!(
        start_radio(),
        [
            control_rts(false),
            control_dtr(true),
            enable_streaming_speaker_off(),
            set_mode(2),
        ]
    );
}

#[test]
fn the_first_stream_is_asked_for_three_times_in_all() {
    let mut start = StreamStart::new();
    assert_eq!(start.look(false, 249), StartAction::Sleep(10));
    assert_eq!(start.look(false, 250), StartAction::EnableStreaming);
    assert_eq!(start.look(false, 0), StartAction::Sleep(10));
    assert_eq!(start.look(false, 250), StartAction::EnableStreaming);
    assert_eq!(start.look(false, 250), StartAction::Proceed);
    assert_eq!(start.retries, 2);
    assert_eq!(StreamStart::new().look(true, 0), StartAction::Proceed);
}

#[test]
fn the_frequency_is_asked_for_when_the_radio_is_at_rest() {
    let mut poll = VfoPoll::new();
    assert_eq!(poll.poll(1999, 5000), PollAction::Wait);
    assert_eq!(poll.poll(2000, 5000), PollAction::Query);
    assert!(!poll.note(true));
    assert_eq!(poll.poll(9000, 5000), PollAction::Wait);
    assert!(poll.note(false));
    assert!(!poll.note(false));
    assert_eq!(poll.poll(2000, 499), PollAction::Skip);
    assert_eq!(poll.poll(2000, 500), PollAction::Query);
}

#[test]
fn a_window_needs_a_display() {
    assert_eq!(check_display(true, false), Ok(()));
    assert_eq!(check_display(false, true), Ok(()));
    assert_eq!(
        check_display(false, false),
        Err("Neither DISPLAY nor WAYLAND_DISPLAY environment variables are set. Cannot initialize GUI.".to_string())
    );
    assert_eq!(state_label(true), "TX");
    assert_eq!(state_label(false), "RX");
}
