//! The loop that carries audio between the radio and the sound card.
//!
//! A `Bridge` says what is to be done, in order. The last thing it asks for is always a question:
//! to look at the switches, to read audio, to read the serial line. The answer is handed back as a
//! `BridgeEvent`, and brings the next things to do.

use vstd::prelude::*;

use crate::audio;
use crate::demux::{event_views, steps, RxDemux, RxEvent, RxEventView, RxState};

verus! {

/// How long the radio is given to fall back to receiving, in milliseconds.
pub const TX_FALLING_DELAY_MS: u64 = 30;

/// How long the stream of audio is waited for at first, in milliseconds.
pub const STREAMING_TIMEOUT_MS: u64 = 200;

/// How long the stream of audio is waited for the second time, in milliseconds.
pub const STREAMING_RETRY_TIMEOUT_MS: u64 = 100;

/// How long to sleep between two looks at the stream, in milliseconds.
pub const POLL_INTERVAL_MS: u64 = 5;

/// How many old pieces of audio are thrown away when transmission starts, at the most.
pub const DRAIN_ATTEMPTS: usize = 10;

/// How many samples are transmitted at once.
pub const AUDIO_SAMPLE_SIZE: usize = 48;

/// Which answer the bridge waits for.
#[derive(Clone, Copy, Debug, PartialEq, Eq, Structural)]
pub enum Phase {
    /// Whether to stop, and whether to transmit.
    Switches,
    /// Whether a piece of old audio could be thrown away, after so many were.
    Draining(usize),
    /// Whether the radio streams audio again.
    FirstWait,
    /// Whether it does so after it was told twice.
    SecondWait,
    /// Audio to transmit.
    Transmit,
    /// Bytes from the radio.
    Receive,
    /// None: it has ended.
    Stopped,
}

/// An answer.
#[derive(Debug, PartialEq, Eq)]
pub enum BridgeEvent {
    /// How the switches stand.
    Switches { stop: bool, is_tx: bool },
    /// Whether a piece of old audio could be read.
    Drained { ok: bool },
    /// Whether the radio streams audio, and how long that has been waited for, in milliseconds.
    Streaming { started: bool, elapsed_ms: u64 },
    /// Audio to transmit, and whether it is too quiet for that.
    Recorded { samples: Vec<i16>, quiet: bool },
    /// No audio could be recorded.
    RecordFailed,
    /// Bytes from the radio.
    Received(Vec<u8>),
}

/// A `BridgeEvent` with its data as sequences.
pub enum EventView {
    Switches { stop: bool, is_tx: bool },
    Drained { ok: bool },
    Streaming { started: bool, elapsed_ms: u64 },
    Recorded { samples: Seq<i16>, quiet: bool },
    RecordFailed,
    Received(Seq<u8>),
}

impl View for BridgeEvent {
    type V = EventView;

    open spec fn view(&self) -> EventView {
        match self {
            BridgeEvent::Switches { stop, is_tx } => EventView::Switches {
                stop: *stop,
                is_tx: *is_tx,
            },
            BridgeEvent::Drained { ok } => EventView::Drained { ok: *ok },
            BridgeEvent::Streaming { started, elapsed_ms } => EventView::Streaming {
                started: *started,
                elapsed_ms: *elapsed_ms,
            },
            BridgeEvent::Recorded { samples, quiet } => EventView::Recorded {
                samples: samples@,
                quiet: *quiet,
            },
            BridgeEvent::RecordFailed => EventView::RecordFailed,
            BridgeEvent::Received(bytes) => EventView::Received(bytes@),
        }
    }
}

/// Something to do.
#[derive(Debug, PartialEq, Eq)]
pub enum BridgeAction {
    /// Note that the radio does not stream audio.
    ClearStreaming,
    /// Sleep for so many milliseconds.
    Sleep(u64),
    /// Tell the radio to stream audio with its speaker off.
    EnableStreaming,
    /// Start to count the time of a wait.
    StartTimer,
    /// Send the CAT commands that wait.
    SendPending,
    /// Show no input level.
    ClearInputLevel,
    /// Show no output level.
    ClearOutputLevel,
    /// Send this audio to the radio.
    SendAudio(Vec<u8>),
    /// Do what the radio's bytes ask for.
    Rx(RxEvent),
    /// Ask how the switches stand.
    AskSwitches,
    /// Ask for a piece of old audio.
    AskDrain,
    /// Ask whether the radio streams audio.
    AskStreaming,
    /// Ask for audio to transmit.
    AskRecord,
    /// Ask for bytes from the radio.
    AskReceive,
    /// End.
    Stop,
}

/// A `BridgeAction` with its data as sequences.
pub enum ActionView {
    ClearStreaming,
    Sleep(u64),
    EnableStreaming,
    StartTimer,
    SendPending,
    ClearInputLevel,
    ClearOutputLevel,
    SendAudio(Seq<u8>),
    Rx(RxEventView),
    AskSwitches,
    AskDrain,
    AskStreaming,
    AskRecord,
    AskReceive,
    Stop,
}

impl View for BridgeAction {
    type V = ActionView;

    open spec fn view(&self) -> ActionView {
        match self {
            BridgeAction::ClearStreaming => ActionView::ClearStreaming,
            BridgeAction::Sleep(ms) => ActionView::Sleep(*ms),
            BridgeAction::EnableStreaming => ActionView::EnableStreaming,
            BridgeAction::StartTimer => ActionView::StartTimer,
            BridgeAction::SendPending => ActionView::SendPending,
            BridgeAction::ClearInputLevel => ActionView::ClearInputLevel,
            BridgeAction::ClearOutputLevel => ActionView::ClearOutputLevel,
            BridgeAction::SendAudio(data) => ActionView::SendAudio(data@),
            BridgeAction::Rx(event) => ActionView::Rx(event@),
            BridgeAction::AskSwitches => ActionView::AskSwitches,
            BridgeAction::AskDrain => ActionView::AskDrain,
            BridgeAction::AskStreaming => ActionView::AskStreaming,
            BridgeAction::AskRecord => ActionView::AskRecord,
            BridgeAction::AskReceive => ActionView::AskReceive,
            BridgeAction::Stop => ActionView::Stop,
        }
    }
}

/// The views of `actions`, in order.
pub open spec fn action_views(actions: Seq<BridgeAction>) -> Seq<ActionView> {
    actions.map_values(|a: BridgeAction| a@)
}

/// The actions that do what `events` ask for.
pub open spec fn rx_actions(events: Seq<RxEventView>) -> Seq<ActionView> {
    events.map_values(|e: RxEventView| ActionView::Rx(e))
}

/// Where the bridge stands.
pub struct BridgeState {
    pub phase: Phase,
    /// Whether the radio transmitted when the switches were last looked at.
    pub prev_tx: bool,
    pub rx: RxState,
}

impl BridgeState {
    /// Receiving, with nothing done yet.
    pub open spec fn start() -> BridgeState {
        BridgeState { phase: Phase::Switches, prev_tx: false, rx: RxState::idle() }
    }

    /// What holds of every state that is reached from `start`.
    pub open spec fn wf(self) -> bool {
        &&& self.phase matches Phase::Draining(n) ==> n < DRAIN_ATTEMPTS
        &&& self.rx.wf()
    }
}

/// What is asked in the phase `p`.
pub open spec fn question(p: Phase) -> ActionView {
    match p {
        Phase::Switches => ActionView::AskSwitches,
        Phase::Draining(_) => ActionView::AskDrain,
        Phase::FirstWait => ActionView::AskStreaming,
        Phase::SecondWait => ActionView::AskStreaming,
        Phase::Transmit => ActionView::AskRecord,
        Phase::Receive => ActionView::AskReceive,
        Phase::Stopped => ActionView::Stop,
    }
}

/// On to transmit a piece of audio.
pub open spec fn to_transmit(s: BridgeState) -> (BridgeState, Seq<ActionView>) {
    (
        BridgeState { phase: Phase::Transmit, ..s },
        seq![ActionView::SendPending, ActionView::ClearInputLevel],
    )
}

/// On to read what the radio sends.
pub open spec fn to_receive(s: BridgeState) -> (BridgeState, Seq<ActionView>) {
    (BridgeState { phase: Phase::Receive, ..s }, seq![ActionView::ClearOutputLevel])
}

/// How the switches are followed.
pub open spec fn on_switches(s: BridgeState, stop: bool, is_tx: bool) -> (
    BridgeState,
    Seq<ActionView>,
) {
    if stop {
        (BridgeState { phase: Phase::Stopped, ..s }, Seq::empty())
    } else if is_tx && !s.prev_tx {
        (BridgeState { phase: Phase::Draining(0), prev_tx: true, ..s }, Seq::empty())
    } else if !is_tx && s.prev_tx {
        (
            BridgeState { phase: Phase::FirstWait, prev_tx: false, rx: RxState::idle() },
            seq![
                ActionView::ClearStreaming,
                ActionView::Sleep(TX_FALLING_DELAY_MS),
                ActionView::EnableStreaming,
                ActionView::StartTimer,
            ],
        )
    } else if is_tx {
        to_transmit(s)
    } else {
        to_receive(s)
    }
}

/// How old audio is thrown away: until there is none, and not more often than is set.
pub open spec fn on_drained(s: BridgeState, done: usize, ok: bool) -> (
    BridgeState,
    Seq<ActionView>,
) {
    if ok && done + 1 < DRAIN_ATTEMPTS {
        (BridgeState { phase: Phase::Draining((done + 1) as usize), ..s }, Seq::empty())
    } else {
        to_transmit(s)
    }
}

/// How the stream is waited for: the radio is told once more if it does not start in time, and
/// then it is left at that.
pub open spec fn on_streaming(s: BridgeState, started: bool, elapsed_ms: u64) -> (
    BridgeState,
    Seq<ActionView>,
) {
    let timeout = if s.phase == Phase::FirstWait {
        STREAMING_TIMEOUT_MS
    } else {
        STREAMING_RETRY_TIMEOUT_MS
    };
    if !started && elapsed_ms < timeout {
        (s, seq![ActionView::Sleep(POLL_INTERVAL_MS)])
    } else if !started && s.phase == Phase::FirstWait {
        (
            BridgeState { phase: Phase::SecondWait, ..s },
            seq![ActionView::EnableStreaming, ActionView::StartTimer],
        )
    } else {
        to_receive(s)
    }
}

/// What the answer `e` brings in the state `s`, up to the next question. An answer to another
/// question than the one that was asked brings nothing.
pub open spec fn respond(s: BridgeState, e: EventView) -> (BridgeState, Seq<ActionView>) {
    match (s.phase, e) {
        (Phase::Switches, EventView::Switches { stop, is_tx }) => on_switches(s, stop, is_tx),
        (Phase::Draining(done), EventView::Drained { ok }) => on_drained(s, done, ok),
        (Phase::FirstWait, EventView::Streaming { started, elapsed_ms }) => on_streaming(
            s,
            started,
            elapsed_ms,
        ),
        (Phase::SecondWait, EventView::Streaming { started, elapsed_ms }) => on_streaming(
            s,
            started,
            elapsed_ms,
        ),
        (Phase::Transmit, EventView::Recorded { samples, quiet }) => (
            BridgeState { phase: Phase::Switches, ..s },
            if quiet {
                Seq::empty()
            } else {
                seq![ActionView::SendAudio(audio::line_bytes(samples))]
            },
        ),
        (Phase::Transmit, EventView::RecordFailed) => (
            BridgeState { phase: Phase::Switches, ..s },
            Seq::empty(),
        ),
        (Phase::Receive, EventView::Received(bytes)) => (
            BridgeState { phase: Phase::Switches, rx: steps(s.rx, bytes).0, ..s },
            rx_actions(steps(s.rx, bytes).1),
        ),
        _ => (s, Seq::empty()),
    }
}

/// What the answer `e` brings in the state `s`, with the next question at the end.
pub open spec fn answered(s: BridgeState, e: EventView) -> (BridgeState, Seq<ActionView>) {
    let (end, actions) = respond(s, e);
    (end, actions.push(question(end.phase)))
}

/// The loop that carries audio between the radio and the sound card.
#[derive(Debug)]
pub struct Bridge {
    phase: Phase,
    prev_tx: bool,
    demux: RxDemux,
}

impl View for Bridge {
    type V = BridgeState;

    closed spec fn view(&self) -> BridgeState {
        BridgeState { phase: self.phase, prev_tx: self.prev_tx, rx: self.demux@ }
    }
}

impl Bridge {
    /// Receiving, with nothing done yet. The first thing to do is to ask how the switches stand.
    pub fn new() -> (r: Bridge)
        ensures
            r@ == BridgeState::start(),
    {
        Bridge { phase: Phase::Switches, prev_tx: false, demux: RxDemux::new() }
    }

    /// What is to be asked now.
    pub fn ask(&self) -> (action: BridgeAction)
        ensures
            action@ == question(self@.phase),
    {
        match self.phase {
            Phase::Switches => BridgeAction::AskSwitches,
            Phase::Draining(_) => BridgeAction::AskDrain,
            Phase::FirstWait => BridgeAction::AskStreaming,
            Phase::SecondWait => BridgeAction::AskStreaming,
            Phase::Transmit => BridgeAction::AskRecord,
            Phase::Receive => BridgeAction::AskReceive,
            Phase::Stopped => BridgeAction::Stop,
        }
    }

    /// Goes on to transmit a piece of audio.
    fn enter_transmit(&mut self, actions: &mut Vec<BridgeAction>)
        ensures
            final(self)@ == to_transmit(old(self)@).0,
            action_views(final(actions)@) == action_views(old(actions)@) + to_transmit(
                old(self)@,
            ).1,
    {
        self.phase = Phase::Transmit;
        actions.push(BridgeAction::SendPending);
        actions.push(BridgeAction::ClearInputLevel);
        assert(action_views(actions@) =~= action_views(old(actions)@) + to_transmit(old(self)@).1);
    }

    /// Goes on to read what the radio sends.
    fn enter_receive(&mut self, actions: &mut Vec<BridgeAction>)
        ensures
            final(self)@ == to_receive(old(self)@).0,
            action_views(final(actions)@) == action_views(old(actions)@) + to_receive(
                old(self)@,
            ).1,
    {
        self.phase = Phase::Receive;
        actions.push(BridgeAction::ClearOutputLevel);
        assert(action_views(actions@) =~= action_views(old(actions)@) + to_receive(old(self)@).1);
    }

    /// Follows the switches.
    fn follow_switches(&mut self, stop: bool, is_tx: bool, actions: &mut Vec<BridgeAction>)
        requires
            old(actions)@.len() == 0,
        ensures
            final(self)@ == on_switches(old(self)@, stop, is_tx).0,
            action_views(final(actions)@) == on_switches(old(self)@, stop, is_tx).1,
    {
        if stop {
            self.phase = Phase::Stopped;
        } else if is_tx && !self.prev_tx {
            self.phase = Phase::Draining(0);
            self.prev_tx = true;
        } else if !is_tx && self.prev_tx {
            self.phase = Phase::FirstWait;
            self.prev_tx = false;
            self.demux.reset();
            actions.push(BridgeAction::ClearStreaming);
            actions.push(BridgeAction::Sleep(TX_FALLING_DELAY_MS));
            actions.push(BridgeAction::EnableStreaming);
            actions.push(BridgeAction::StartTimer);
        } else if is_tx {
            self.enter_transmit(actions);
        } else {
            self.enter_receive(actions);
        }
        assert(action_views(actions@) =~= on_switches(old(self)@, stop, is_tx).1);
    }

    /// Waits for the stream.
    fn follow_stream(&mut self, started: bool, elapsed_ms: u64, actions: &mut Vec<BridgeAction>)
        requires
            old(actions)@.len() == 0,
        ensures
            final(self)@ == on_streaming(old(self)@, started, elapsed_ms).0,
            action_views(final(actions)@) == on_streaming(old(self)@, started, elapsed_ms).1,
    {
        let first: bool = self.phase == Phase::FirstWait;
        let timeout: u64 = if first {
            STREAMING_TIMEOUT_MS
        } else {
            STREAMING_RETRY_TIMEOUT_MS
        };
        if !started && elapsed_ms < timeout {
            actions.push(BridgeAction::Sleep(POLL_INTERVAL_MS));
        } else if !started && first {
            self.phase = Phase::SecondWait;
            actions.push(BridgeAction::EnableStreaming);
            actions.push(BridgeAction::StartTimer);
        } else {
            self.enter_receive(actions);
        }
        assert(action_views(actions@) =~= on_streaming(old(self)@, started, elapsed_ms).1);
    }

    /// Reads what the radio sent.
    fn take_in(&mut self, bytes: &[u8], actions: &mut Vec<BridgeAction>)
        requires
            old(actions)@.len() == 0,
        ensures
            final(self)@ == (BridgeState {
                phase: Phase::Switches,
                rx: steps(old(self)@.rx, bytes@).0,
                ..old(self)@
            }),
            action_views(final(actions)@) == rx_actions(steps(old(self)@.rx, bytes@).1),
    {
        self.phase = Phase::Switches;
        let events = self.demux.feed(bytes);
        let ghost heard = events@;
        let ghost asked = rx_actions(event_views(heard));
        assert(action_views(actions@) =~= asked.take(0));
        for event in it: events
            invariant
                it.seq() == heard,
                asked == rx_actions(event_views(heard)),
                action_views(actions@) == asked.take(it.index() as int),
        {
            let ghost i = it.index() as int;
            let ghost so_far = action_views(actions@);
            assert(0 <= i < heard.len());
            assert(asked[i] == ActionView::Rx(event@));
            actions.push(BridgeAction::Rx(event));
            assert(action_views(actions@) =~= so_far.push(asked[i]));
            assert(so_far.push(asked[i]) =~= asked.take(i + 1));
        }
        assert(asked.take(asked.len() as int) =~= asked);
    }

    /// Takes the answer `event`, and gives what is to be done next, in order. The last of it is the
    /// next question.
    pub fn step(&mut self, event: BridgeEvent) -> (actions: Vec<BridgeAction>)
        ensures
            final(self)@ == answered(old(self)@, event@).0,
            action_views(actions@) == answered(old(self)@, event@).1,
    {
        let mut actions: Vec<BridgeAction> = Vec::new();
        match (self.phase, event) {
            (Phase::Switches, BridgeEvent::Switches { stop, is_tx }) => {
                self.follow_switches(stop, is_tx, &mut actions);
            },
            (Phase::Draining(done), BridgeEvent::Drained { ok }) => {
                if ok && done < DRAIN_ATTEMPTS - 1 {
                    self.phase = Phase::Draining(done + 1);
                } else {
                    self.enter_transmit(&mut actions);
                }
            },
            (Phase::FirstWait, BridgeEvent::Streaming { started, elapsed_ms }) => {
                self.follow_stream(started, elapsed_ms, &mut actions);
            },
            (Phase::SecondWait, BridgeEvent::Streaming { started, elapsed_ms }) => {
                self.follow_stream(started, elapsed_ms, &mut actions);
            },
            (Phase::Transmit, BridgeEvent::Recorded { samples, quiet }) => {
                self.phase = Phase::Switches;
                if !quiet {
                    actions.push(
                        BridgeAction::SendAudio(audio::transmit_bytes(samples.as_slice())),
                    );
                }
            },
            (Phase::Transmit, BridgeEvent::RecordFailed) => {
                self.phase = Phase::Switches;
            },
            (Phase::Receive, BridgeEvent::Received(bytes)) => {
                self.take_in(bytes.as_slice(), &mut actions);
            },
            _ => {},
        }
        assert(action_views(actions@) =~= respond(old(self)@, event@).1);
        let ghost so_far = action_views(actions@);
        actions.push(self.ask());
        assert(action_views(actions@) =~= so_far.push(question(self@.phase)));
        actions
    }
}

/// Where the bridge stands after the answers `events`, and all it did on the way.
pub open spec fn runs(s: BridgeState, events: Seq<EventView>) -> (BridgeState, Seq<ActionView>)
    decreases events.len(),
{
    if events.len() == 0 {
        (s, Seq::empty())
    } else {
        let (mid, before) = runs(s, events.drop_last());
        let (end, last) = answered(mid, events.last());
        (end, before + last)
    }
}

/// How often `actions` tell the radio to stream audio.
pub open spec fn times_enabled(actions: Seq<ActionView>) -> nat
    decreases actions.len(),
{
    if actions.len() == 0 {
        0
    } else {
        times_enabled(actions.drop_last()) + if actions.last() is EnableStreaming {
            1nat
        } else {
            0
        }
    }
}

/// Whatever is answered, the bridge keeps its invariant.
pub proof fn bridge_keeps_order(s: BridgeState, events: Seq<EventView>)
    requires
        s.wf(),
    ensures
        runs(s, events).0.wf(),
    decreases events.len(),
{
    if events.len() > 0 {
        bridge_keeps_order(s, events.drop_last());
        let mid = runs(s, events.drop_last()).0;
        crate::demux::idle_is_wf();
        if let EventView::Received(bytes) = events.last() {
            crate::demux::every_piece_fits(mid.rx, bytes);
        }
    }
}

/// Once it has ended, the bridge does nothing more whatever it is told.
pub proof fn stopped_stays_stopped(s: BridgeState, e: EventView)
    requires
        s.phase == Phase::Stopped,
    ensures
        answered(s, e) == (s, seq![ActionView::Stop]),
{
    assert(answered(s, e).1 =~= seq![ActionView::Stop]);
}

/// The stop switch ends the bridge at the next look, in whichever direction audio goes.
pub proof fn stop_is_obeyed(s: BridgeState, is_tx: bool)
    requires
        s.phase == Phase::Switches,
    ensures
        answered(s, EventView::Switches { stop: true, is_tx }).0.phase == Phase::Stopped,
        answered(s, EventView::Switches { stop: true, is_tx }).1 == seq![ActionView::Stop],
{
    assert(answered(s, EventView::Switches { stop: true, is_tx }).1 =~= seq![ActionView::Stop]);
}

/// Whatever becomes of the reads, transmission starts after ten of them at the latest.
pub proof fn draining_is_bounded(s: BridgeState, events: Seq<EventView>)
    requires
        s.phase == Phase::Draining(0),
        events.len() >= DRAIN_ATTEMPTS,
        forall|i: int| 0 <= i < events.len() ==> #[trigger] events[i] is Drained,
    ensures
        runs(s, events).0 == (BridgeState { phase: Phase::Transmit, ..s }),
{
    draining_progresses(s, events);
}

/// How far it has come after so many answers.
proof fn draining_progresses(s: BridgeState, events: Seq<EventView>)
    requires
        s.phase == Phase::Draining(0),
        forall|i: int| 0 <= i < events.len() ==> #[trigger] events[i] is Drained,
    ensures
        ({
            let end = runs(s, events).0;
            ||| end == BridgeState { phase: Phase::Transmit, ..s }
            ||| events.len() < DRAIN_ATTEMPTS && end == BridgeState {
                phase: Phase::Draining(events.len() as usize),
                ..s
            }
        }),
    decreases events.len(),
{
    if events.len() > 0 {
        let front = events.drop_last();
        assert forall|i: int| 0 <= i < front.len() implies #[trigger] front[i] is Drained by {
            assert(front[i] == events[i]);
        }
        draining_progresses(s, front);
        assert(events.last() == events[events.len() - 1]);
    }
}

/// When old audio cannot be read any more, transmission starts at once.
pub proof fn draining_ends_when_empty(s: BridgeState, done: usize)
    requires
        s.phase == Phase::Draining(done),
    ensures
        answered(s, EventView::Drained { ok: false }) == (
            BridgeState { phase: Phase::Transmit, ..s },
            seq![ActionView::SendPending, ActionView::ClearInputLevel, ActionView::AskRecord],
        ),
{
    assert(answered(s, EventView::Drained { ok: false }).1 =~= seq![
        ActionView::SendPending,
        ActionView::ClearInputLevel,
        ActionView::AskRecord,
    ]);
}

proof fn times_enabled_adds(a: Seq<ActionView>, b: Seq<ActionView>)
    ensures
        times_enabled(a + b) == times_enabled(a) + times_enabled(b),
    decreases b.len(),
{
    if b.len() == 0 {
        assert(a + b =~= a);
    } else {
        assert((a + b).drop_last() =~= a + b.drop_last());
        times_enabled_adds(a, b.drop_last());
    }
}

/// While the stream is waited for, the radio is told once more at the most.
proof fn waiting_tells_once(s: BridgeState, events: Seq<EventView>)
    requires
        s.phase == Phase::FirstWait,
        forall|i: int| 0 <= i < events.len() ==> #[trigger] events[i] is Streaming,
    ensures
        ({
            let (end, actions) = runs(s, events);
            ||| end.phase == Phase::FirstWait && times_enabled(actions) == 0
            ||| end.phase == Phase::SecondWait && times_enabled(actions) == 1
            ||| end.phase == Phase::Receive && times_enabled(actions) <= 1
        }),
    decreases events.len(),
{
    reveal_with_fuel(times_enabled, 4);
    if events.len() > 0 {
        let front = events.drop_last();
        assert forall|i: int| 0 <= i < front.len() implies #[trigger] front[i] is Streaming by {
            assert(front[i] == events[i]);
        }
        waiting_tells_once(s, front);
        assert(events.last() == events[events.len() - 1]);
        let (mid, before) = runs(s, front);
        let (end, last) = answered(mid, events.last());
        times_enabled_adds(before, last);
        let told = respond(mid, events.last()).1;
        assert(last.drop_last() =~= told);
        if told.len() > 0 {
            assert(told.drop_last().len() < 2);
            if told.len() == 2 {
                assert(told.drop_last() =~= seq![ActionView::EnableStreaming]);
                assert(seq![ActionView::EnableStreaming].drop_last() =~= Seq::empty());
            } else {
                assert(told.drop_last() =~= Seq::empty());
            }
        }
    }
}

/// When transmission ends, nothing is left of what was read before it, and however long the stream
/// then takes to start, the radio is told to start it once or twice.
pub proof fn reception_is_restarted(s: BridgeState, events: Seq<EventView>)
    requires
        s.phase == Phase::Switches,
        s.prev_tx,
        forall|i: int| 0 <= i < events.len() ==> #[trigger] events[i] is Streaming,
    ensures
        ({
            let (mid, first) = answered(s, EventView::Switches { stop: false, is_tx: false });
            let (end, rest) = runs(mid, events);
            &&& mid.rx == RxState::idle()
            &&& 1 <= times_enabled(first + rest) <= 2
        }),
{
    reveal_with_fuel(times_enabled, 6);
    let (mid, first) = answered(s, EventView::Switches { stop: false, is_tx: false });
    waiting_tells_once(mid, events);
    times_enabled_adds(first, runs(mid, events).1);
    assert(first.drop_last().drop_last() =~= seq![
        ActionView::ClearStreaming,
        ActionView::Sleep(TX_FALLING_DELAY_MS),
        ActionView::EnableStreaming,
    ]);
    let three = first.drop_last().drop_last();
    assert(three.drop_last() =~= seq![
        ActionView::ClearStreaming,
        ActionView::Sleep(TX_FALLING_DELAY_MS),
    ]);
    assert(three.drop_last().drop_last() =~= seq![ActionView::ClearStreaming]);
    assert(three.drop_last().drop_last().drop_last() =~= Seq::empty());
    assert(times_enabled(three) == 1);
}

/// A stream that has started ends the wait, and so does a second wait that is over.
pub proof fn waiting_ends(s: BridgeState, started: bool, elapsed_ms: u64)
    requires
        s.phase == Phase::FirstWait || s.phase == Phase::SecondWait,
        started || s.phase == Phase::SecondWait && elapsed_ms >= STREAMING_RETRY_TIMEOUT_MS,
    ensures
        answered(s, EventView::Streaming { started, elapsed_ms }) == (
            BridgeState { phase: Phase::Receive, ..s },
            seq![ActionView::ClearOutputLevel, ActionView::AskReceive],
        ),
{
    assert(answered(s, EventView::Streaming { started, elapsed_ms }).1 =~= seq![
        ActionView::ClearOutputLevel,
        ActionView::AskReceive,
    ]);
}

/// While the radio transmits, nothing that it sent before is touched or acted on; and audio leaves
/// for the radio only then.
pub proof fn directions_do_not_mix(s: BridgeState, e: EventView, i: int)
    requires
        0 <= i < answered(s, e).1.len(),
    ensures
        s.phase == Phase::Transmit ==> answered(s, e).0.rx == s.rx,
        answered(s, e).1[i] is Rx ==> s.phase == Phase::Receive,
        answered(s, e).1[i] is SendAudio ==> s.phase == Phase::Transmit,
{
}

/// What the radio sends while it is received is handed on as it is heard: every event that is read
/// in the bytes, in order, unchanged, and nothing else before the switches are looked at again.
pub proof fn what_is_heard_is_handed_on(s: BridgeState, bytes: Seq<u8>)
    requires
        s.phase == Phase::Receive,
    ensures
        ({
            let (end, actions) = answered(s, EventView::Received(bytes));
            let (rx, events) = steps(s.rx, bytes);
            &&& actions.len() == events.len() + 1
            &&& forall|i: int|
                0 <= i < events.len() ==> #[trigger] actions[i] == ActionView::Rx(events[i])
            &&& actions.last() == ActionView::AskSwitches
            &&& end == BridgeState { phase: Phase::Switches, prev_tx: s.prev_tx, rx }
        }),
{
}

/// What is recorded while the radio transmits is sent, all of it, in order, and once: a byte for
/// every sample. What is too quiet is not sent, and neither is what could not be recorded.
pub proof fn what_is_recorded_is_sent(s: BridgeState, samples: Seq<i16>)
    requires
        s.phase == Phase::Transmit,
    ensures
        ({
            let (end, actions) = answered(s, EventView::Recorded { samples, quiet: false });
            &&& actions.len() == 2
            &&& actions[0] matches ActionView::SendAudio(data) && {
                &&& data.len() == samples.len()
                &&& forall|i: int|
                    0 <= i < samples.len() ==> #[trigger] data[i] == audio::line_byte(samples[i])
            }
            &&& actions[1] == ActionView::AskSwitches
            &&& end == BridgeState { phase: Phase::Switches, prev_tx: s.prev_tx, rx: s.rx }
        }),
        answered(s, EventView::Recorded { samples, quiet: true }) == (
            BridgeState { phase: Phase::Switches, prev_tx: s.prev_tx, rx: s.rx },
            seq![ActionView::AskSwitches],
        ),
        answered(s, EventView::RecordFailed) == (
            BridgeState { phase: Phase::Switches, prev_tx: s.prev_tx, rx: s.rx },
            seq![ActionView::AskSwitches],
        ),
{
    audio::every_sample_is_sent(samples);
    let sent = answered(s, EventView::Recorded { samples, quiet: false }).1;
    assert(sent[0] == ActionView::SendAudio(audio::line_bytes(samples)));
    assert(answered(s, EventView::Recorded { samples, quiet: true }).1 =~= seq![
        ActionView::AskSwitches,
    ]);
    assert(answered(s, EventView::RecordFailed).1 =~= seq![ActionView::AskSwitches]);
}

/// While the radio goes on as it did at the last look, the commands that wait are sent before every
/// piece that is transmitted, and the level of the other direction is cleared.
pub proof fn direction_is_kept(s: BridgeState)
    requires
        s.phase == Phase::Switches,
    ensures
        s.prev_tx ==> answered(s, EventView::Switches { stop: false, is_tx: true }) == (
            BridgeState { phase: Phase::Transmit, prev_tx: true, rx: s.rx },
            seq![ActionView::SendPending, ActionView::ClearInputLevel, ActionView::AskRecord],
        ),
        !s.prev_tx ==> answered(s, EventView::Switches { stop: false, is_tx: false }) == (
            BridgeState { phase: Phase::Receive, prev_tx: false, rx: s.rx },
            seq![ActionView::ClearOutputLevel, ActionView::AskReceive],
        ),
{
    if s.prev_tx {
        assert(answered(s, EventView::Switches { stop: false, is_tx: true }).1 =~= seq![
            ActionView::SendPending,
            ActionView::ClearInputLevel,
            ActionView::AskRecord,
        ]);
    } else {
        assert(answered(s, EventView::Switches { stop: false, is_tx: false }).1 =~= seq![
            ActionView::ClearOutputLevel,
            ActionView::AskReceive,
        ]);
    }
}

/// When transmission starts, old audio is read away first, and what was half received is kept. When
/// it ends, the stream counts as stopped, the radio is given 30 ms, it is told to stream, the wait
/// begins, and what was half received is forgotten.
pub proof fn direction_is_changed(s: BridgeState)
    requires
        s.phase == Phase::Switches,
    ensures
        !s.prev_tx ==> answered(s, EventView::Switches { stop: false, is_tx: true }) == (
            BridgeState { phase: Phase::Draining(0), prev_tx: true, rx: s.rx },
            seq![ActionView::AskDrain],
        ),
        s.prev_tx ==> answered(s, EventView::Switches { stop: false, is_tx: false }) == (
            BridgeState { phase: Phase::FirstWait, prev_tx: false, rx: RxState::idle() },
            seq![
                ActionView::ClearStreaming,
                ActionView::Sleep(30),
                ActionView::EnableStreaming,
                ActionView::StartTimer,
                ActionView::AskStreaming,
            ],
        ),
{
    if s.prev_tx {
        assert(answered(s, EventView::Switches { stop: false, is_tx: false }).1 =~= seq![
            ActionView::ClearStreaming,
            ActionView::Sleep(30),
            ActionView::EnableStreaming,
            ActionView::StartTimer,
            ActionView::AskStreaming,
        ]);
    } else {
        assert(answered(s, EventView::Switches { stop: false, is_tx: true }).1 =~= seq![
            ActionView::AskDrain,
        ]);
    }
}

/// Old audio is read away ten times at the most, and as long as there is some: after `done` reads
/// that went well, one more goes on to the next or, as the tenth, to transmission.
pub proof fn old_audio_is_read_away(s: BridgeState, done: usize)
    requires
        s.phase == Phase::Draining(done),
    ensures
        done < 9 ==> answered(s, EventView::Drained { ok: true }) == (
            BridgeState {
                phase: Phase::Draining((done + 1) as usize),
                prev_tx: s.prev_tx,
                rx: s.rx,
            },
            seq![ActionView::AskDrain],
        ),
        done >= 9 ==> answered(s, EventView::Drained { ok: true }) == (
            BridgeState { phase: Phase::Transmit, prev_tx: s.prev_tx, rx: s.rx },
            seq![ActionView::SendPending, ActionView::ClearInputLevel, ActionView::AskRecord],
        ),
        answered(s, EventView::Drained { ok: false }) == (
            BridgeState { phase: Phase::Transmit, prev_tx: s.prev_tx, rx: s.rx },
            seq![ActionView::SendPending, ActionView::ClearInputLevel, ActionView::AskRecord],
        ),
{
    let on = seq![ActionView::SendPending, ActionView::ClearInputLevel, ActionView::AskRecord];
    if done < 9 {
        assert(answered(s, EventView::Drained { ok: true }).1 =~= seq![ActionView::AskDrain]);
    } else {
        assert(answered(s, EventView::Drained { ok: true }).1 =~= on);
    }
    assert(answered(s, EventView::Drained { ok: false }).1 =~= on);
}

/// The stream is waited for in steps of 5 ms, for 200 ms and then, once the radio has been told
/// again, for 100 ms. After that, or as soon as it has started, the radio is read.
pub proof fn stream_is_waited_for(s: BridgeState, elapsed_ms: u64)
    requires
        s.phase == Phase::FirstWait || s.phase == Phase::SecondWait,
    ensures
        ({
            let limit: int = if s.phase == Phase::FirstWait {
                200
            } else {
                100
            };
            let reading = (
                BridgeState { phase: Phase::Receive, prev_tx: s.prev_tx, rx: s.rx },
                seq![ActionView::ClearOutputLevel, ActionView::AskReceive],
            );
            &&& answered(s, EventView::Streaming { started: true, elapsed_ms }) == reading
            &&& elapsed_ms < limit ==> answered(
                s,
                EventView::Streaming { started: false, elapsed_ms },
            ) == (s, seq![ActionView::Sleep(5), ActionView::AskStreaming])
            &&& elapsed_ms >= limit && s.phase == Phase::FirstWait ==> answered(
                s,
                EventView::Streaming { started: false, elapsed_ms },
            ) == (
                BridgeState { phase: Phase::SecondWait, prev_tx: s.prev_tx, rx: s.rx },
                seq![
                    ActionView::EnableStreaming,
                    ActionView::StartTimer,
                    ActionView::AskStreaming,
                ],
            )
            &&& elapsed_ms >= limit && s.phase == Phase::SecondWait ==> answered(
                s,
                EventView::Streaming { started: false, elapsed_ms },
            ) == reading
        }),
{
    let not_yet = answered(s, EventView::Streaming { started: false, elapsed_ms });
    assert(answered(s, EventView::Streaming { started: true, elapsed_ms }).1 =~= seq![
        ActionView::ClearOutputLevel,
        ActionView::AskReceive,
    ]);
    if elapsed_ms < 100 || elapsed_ms < 200 && s.phase == Phase::FirstWait {
        assert(not_yet.1 =~= seq![ActionView::Sleep(5), ActionView::AskStreaming]);
    } else if s.phase == Phase::FirstWait {
        assert(not_yet.1 =~= seq![
            ActionView::EnableStreaming,
            ActionView::StartTimer,
            ActionView::AskStreaming,
        ]);
    } else {
        assert(not_yet.1 =~= seq![ActionView::ClearOutputLevel, ActionView::AskReceive]);
    }
}

/// Whether `e` answers what is asked in the phase `p`.
pub open spec fn answers_the_question(p: Phase, e: EventView) -> bool {
    match p {
        Phase::Switches => e is Switches,
        Phase::Draining(_) => e is Drained,
        Phase::FirstWait => e is Streaming,
        Phase::SecondWait => e is Streaming,
        Phase::Transmit => e is Recorded || e is RecordFailed,
        Phase::Receive => e is Received,
        Phase::Stopped => false,
    }
}

/// An answer to another question changes nothing, and the question is asked again. So each phase
/// asks for the answer that it takes.
pub proof fn other_answers_are_passed_over(s: BridgeState, e: EventView)
    requires
        !answers_the_question(s.phase, e),
    ensures
        answered(s, e) == (s, seq![question(s.phase)]),
        question(s.phase) == match s.phase {
            Phase::Switches => ActionView::AskSwitches,
            Phase::Draining(_) => ActionView::AskDrain,
            Phase::FirstWait => ActionView::AskStreaming,
            Phase::SecondWait => ActionView::AskStreaming,
            Phase::Transmit => ActionView::AskRecord,
            Phase::Receive => ActionView::AskReceive,
            Phase::Stopped => ActionView::Stop,
        },
{
    assert(answered(s, e).1 =~= seq![question(s.phase)]);
}

/// Every answer ends in one question, the one of the phase that follows, and asks no other.
pub proof fn one_question_at_a_time(s: BridgeState, e: EventView, i: int)
    requires
        0 <= i < answered(s, e).1.len(),
    ensures
        ({
            let (end, actions) = answered(s, e);
            let asks = actions[i] is AskSwitches || actions[i] is AskDrain || actions[i]
                is AskStreaming || actions[i] is AskRecord || actions[i] is AskReceive
                || actions[i] is Stop;
            &&& asks <==> i == actions.len() - 1
            &&& actions.last() == question(end.phase)
        }),
{
}

/// Over a whole stretch of reception, from one look at the switches to the next for as often as the
/// radio is read, nothing that it sends is lost: what is handed on is what is heard in all its bytes
/// together, however they were cut into reads.
pub proof fn stretch_of_reception_is_heard(s: BridgeState, reads: Seq<Seq<u8>>)
    requires
        s.phase == Phase::Switches,
        !s.prev_tx,
    ensures
        ({
            let (end, actions) = runs(s, looks_and_reads(reads));
            let (rx, events) = steps(s.rx, reads.flatten());
            &&& end == BridgeState { phase: Phase::Switches, prev_tx: false, rx }
            &&& heard_in(actions) == events
        }),
    decreases reads.len(),
{
    if reads.len() == 0 {
        assert(reads =~= Seq::empty());
        assert(reads.flatten() =~= Seq::empty()) by {
            reveal(Seq::flatten);
        }
        assert(heard_in(Seq::<ActionView>::empty()) =~= Seq::empty());
    } else {
        let front = reads.drop_last();
        let bytes = reads.last();
        stretch_of_reception_is_heard(s, front);
        let before = looks_and_reads(front);
        let look = EventView::Switches { stop: false, is_tx: false };
        let all = looks_and_reads(reads);
        assert(all =~= before.push(look).push(EventView::Received(bytes)));
        assert(all.drop_last() =~= before.push(look));
        assert(all.drop_last().drop_last() =~= before);
        let (s1, a1) = runs(s, before);
        direction_is_kept(s1);
        let (s2, a2) = answered(s1, look);
        assert(runs(s, before.push(look)) == (s2, a1 + a2));
        what_is_heard_is_handed_on(s2, bytes);
        let (s3, a3) = answered(s2, EventView::Received(bytes));
        assert(runs(s, all) == (s3, a1 + a2 + a3));
        let events = steps(s2.rx, bytes).1;
        heard_adds(a1 + a2, a3);
        heard_adds(a1, a2);
        nothing_is_heard_at_a_look();
        assert(a3 =~= rx_actions(events).push(ActionView::AskSwitches));
        heard_in_rx(events);
        crate::demux::reads_may_be_cut_anywhere(s.rx, front.flatten(), bytes);
        assert(reads.flatten() =~= front.flatten() + bytes) by {
            assert(reads =~= front.push(bytes));
            front.lemma_flatten_push(bytes);
        }
        assert(heard_in(a1 + a2 + a3) =~= steps(s.rx, reads.flatten()).1);
    }
}

/// A look at the switches, which tell it to receive, and a read, for each of `reads`.
pub open spec fn looks_and_reads(reads: Seq<Seq<u8>>) -> Seq<EventView>
    decreases reads.len(),
{
    if reads.len() == 0 {
        Seq::empty()
    } else {
        looks_and_reads(reads.drop_last()).push(
            EventView::Switches { stop: false, is_tx: false },
        ).push(EventView::Received(reads.last()))
    }
}

/// The events among `actions`, in order.
pub open spec fn heard_in(actions: Seq<ActionView>) -> Seq<RxEventView>
    decreases actions.len(),
{
    if actions.len() == 0 {
        Seq::empty()
    } else {
        match actions.last() {
            ActionView::Rx(event) => heard_in(actions.drop_last()).push(event),
            _ => heard_in(actions.drop_last()),
        }
    }
}

proof fn heard_adds(a: Seq<ActionView>, b: Seq<ActionView>)
    ensures
        heard_in(a + b) == heard_in(a) + heard_in(b),
    decreases b.len(),
{
    if b.len() == 0 {
        assert(a + b =~= a);
        assert(heard_in(a) + heard_in(b) =~= heard_in(a));
    } else {
        assert((a + b).drop_last() =~= a + b.drop_last());
        heard_adds(a, b.drop_last());
        assert(heard_in(a + b) =~= heard_in(a) + heard_in(b));
    }
}

proof fn heard_in_rx(events: Seq<RxEventView>)
    ensures
        heard_in(rx_actions(events)) == events,
        heard_in(rx_actions(events).push(ActionView::AskSwitches)) == events,
    decreases events.len(),
{
    let actions = rx_actions(events);
    if events.len() > 0 {
        heard_in_rx(events.drop_last());
        assert(actions.drop_last() =~= rx_actions(events.drop_last()));
    }
    assert(heard_in(actions) =~= events);
    assert(actions.push(ActionView::AskSwitches).drop_last() =~= actions);
}

proof fn nothing_is_heard_at_a_look()
    ensures
        heard_in(seq![ActionView::ClearOutputLevel, ActionView::AskReceive]) == Seq::<
            RxEventView,
        >::empty(),
{
    reveal_with_fuel(heard_in, 3);
    let look = seq![ActionView::ClearOutputLevel, ActionView::AskReceive];
    assert(look.drop_last().drop_last() =~= Seq::empty());
}

/// The bridge starts by looking at the switches, and has received nothing and transmitted nothing.
/// It sends samples in pieces of 48.
pub proof fn bridge_starts_afresh()
    ensures
        BridgeState::start() == (BridgeState {
            phase: Phase::Switches,
            prev_tx: false,
            rx: RxState::idle(),
        }),
        AUDIO_SAMPLE_SIZE == 48,
{
}

/// Answers and actions are looked at as they stand, and actions one by one.
pub proof fn actions_are_what_is_there(
    event: BridgeEvent,
    action: BridgeAction,
    actions: Seq<BridgeAction>,
)
    ensures
        match event {
            BridgeEvent::Switches { stop, is_tx } => event@ == (EventView::Switches {
                stop,
                is_tx,
            }),
            BridgeEvent::Drained { ok } => event@ == (EventView::Drained { ok }),
            BridgeEvent::Streaming { started, elapsed_ms } => event@ == (EventView::Streaming {
                started,
                elapsed_ms,
            }),
            BridgeEvent::Recorded { samples, quiet } => event@ == (EventView::Recorded {
                samples: samples@,
                quiet,
            }),
            BridgeEvent::RecordFailed => event@ == EventView::RecordFailed,
            BridgeEvent::Received(bytes) => event@ == EventView::Received(bytes@),
        },
        match action {
            BridgeAction::ClearStreaming => action@ == ActionView::ClearStreaming,
            BridgeAction::Sleep(ms) => action@ == ActionView::Sleep(ms),
            BridgeAction::EnableStreaming => action@ == ActionView::EnableStreaming,
            BridgeAction::StartTimer => action@ == ActionView::StartTimer,
            BridgeAction::SendPending => action@ == ActionView::SendPending,
            BridgeAction::ClearInputLevel => action@ == ActionView::ClearInputLevel,
            BridgeAction::ClearOutputLevel => action@ == ActionView::ClearOutputLevel,
            BridgeAction::SendAudio(data) => action@ == ActionView::SendAudio(data@),
            BridgeAction::Rx(event) => action@ == ActionView::Rx(event@),
            BridgeAction::AskSwitches => action@ == ActionView::AskSwitches,
            BridgeAction::AskDrain => action@ == ActionView::AskDrain,
            BridgeAction::AskStreaming => action@ == ActionView::AskStreaming,
            BridgeAction::AskRecord => action@ == ActionView::AskRecord,
            BridgeAction::AskReceive => action@ == ActionView::AskReceive,
            BridgeAction::Stop => action@ == ActionView::Stop,
        },
        action_views(actions).len() == actions.len(),
        forall|i: int| 0 <= i < actions.len() ==> #[trigger] action_views(actions)[i] == actions[i]@,
{
}

} // verus!
