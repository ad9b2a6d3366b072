//! How the radio is started, and what is watched from outside the bridge: that it streams, and its
//! frequency.

use vstd::prelude::*;

use crate::text::ascii;
use crate::trusdx;
use crate::trusdx::{
    command_steps, command_views, keyed_command_steps, step_of, OnError, OpView, SerialStep,
};

verus! {

/// How long the first stream is waited for each time, in milliseconds.
pub const START_TIMEOUT_MS: u64 = 250;

/// How long to sleep between two looks at the stream, in milliseconds.
pub const START_POLL_MS: u64 = 10;

/// How often the radio is told again to stream, at the most.
pub const START_RETRIES: u32 = 2;

/// How often the frequency is asked for, in milliseconds.
pub const VFO_POLL_MS: u64 = 2000;

/// How long the radio is left alone after it has transmitted, in milliseconds.
pub const TX_SETTLE_MS: u64 = 500;

/// The commands that start the radio, each to be run whatever became of the one before: RTS low,
/// DTR high, stream audio with the speaker off, and USB.
pub fn start_radio() -> (commands: Vec<Vec<SerialStep>>)
    ensures
        command_views(commands@) == seq![
            seq![step_of(OpView::RequestToSend(false), OnError::Return)],
            seq![step_of(OpView::DataTerminalReady(true), OnError::Return)],
            keyed_command_steps(ascii(";RX;UA2;"@)),
            command_steps(ascii("MD2;"@)),
        ],
{
    let mut commands: Vec<Vec<SerialStep>> = Vec::new();
    commands.push(trusdx::control_rts(false));
    commands.push(trusdx::control_dtr(true));
    commands.push(trusdx::enable_streaming_speaker_off());
    commands.push(trusdx::set_mode(2));
    assert(command_views(commands@) =~= seq![
        seq![step_of(OpView::RequestToSend(false), OnError::Return)],
        seq![step_of(OpView::DataTerminalReady(true), OnError::Return)],
        keyed_command_steps(ascii(";RX;UA2;"@)),
        command_steps(ascii("MD2;"@)),
    ]);
    commands
}

/// What to do while the first stream is waited for.
#[derive(Clone, Copy, Debug, PartialEq, Eq, Structural)]
pub enum StartAction {
    /// Sleep for so many milliseconds, and look again.
    Sleep(u64),
    /// Tell the radio once more to stream, start to count the time anew, and look again.
    EnableStreaming,
    /// Go on, whether or not it streams.
    Proceed,
}

/// What to do when the radio streams or not (`started`), after it was waited for `elapsed_ms` this
/// time and was told again `retries` times.
pub open spec fn start_action(retries: u32, started: bool, elapsed_ms: u64) -> StartAction {
    if started {
        StartAction::Proceed
    } else if elapsed_ms < START_TIMEOUT_MS {
        StartAction::Sleep(START_POLL_MS)
    } else if retries < START_RETRIES {
        StartAction::EnableStreaming
    } else {
        StartAction::Proceed
    }
}

/// The wait for the first stream.
#[derive(Debug)]
pub struct StreamStart {
    /// How often the radio was told again to stream.
    pub retries: u32,
}

impl StreamStart {
    /// The radio has been told to stream, and not yet told again.
    pub fn new() -> (r: StreamStart)
        ensures
            r.retries == 0,
    {
        StreamStart { retries: 0 }
    }

    /// Says what to do next, after a look at the stream.
    pub fn look(&mut self, started: bool, elapsed_ms: u64) -> (action: StartAction)
        ensures
            action == start_action(old(self).retries, started, elapsed_ms),
            final(self).retries == old(self).retries + (if action == StartAction::EnableStreaming {
                1int
            } else {
                0
            }),
    {
        if started {
            StartAction::Proceed
        } else if elapsed_ms < START_TIMEOUT_MS {
            StartAction::Sleep(START_POLL_MS)
        } else if self.retries < START_RETRIES {
            self.retries = self.retries + 1;
            StartAction::EnableStreaming
        } else {
            StartAction::Proceed
        }
    }
}

/// A look at the stream: whether it has started, and how long it was waited for this time.
pub struct Look {
    pub started: bool,
    pub elapsed_ms: u64,
}

/// How often the radio has been told again after `looks`.
pub open spec fn retries_after(retries: u32, looks: Seq<Look>) -> u32
    decreases looks.len(),
{
    if looks.len() == 0 {
        retries
    } else {
        let before = retries_after(retries, looks.drop_last());
        let look = looks.last();
        if start_action(before, look.started, look.elapsed_ms) == StartAction::EnableStreaming {
            (before + 1) as u32
        } else {
            before
        }
    }
}

/// Whatever the looks show, the radio is told again twice at the most; and a look after a whole
/// wait, when it was told twice, ends the wait.
pub proof fn start_is_bounded(looks: Seq<Look>, started: bool, elapsed_ms: u64)
    ensures
        retries_after(0, looks) <= START_RETRIES,
        started || retries_after(0, looks) == START_RETRIES && elapsed_ms >= START_TIMEOUT_MS
            ==> start_action(retries_after(0, looks), started, elapsed_ms) == StartAction::Proceed,
    decreases looks.len(),
{
    if looks.len() > 0 {
        start_is_bounded(looks.drop_last(), started, elapsed_ms);
    }
}

/// What to do about the frequency.
#[derive(Clone, Copy, Debug, PartialEq, Eq, Structural)]
pub enum PollAction {
    /// Nothing yet.
    Wait,
    /// Count the time to the next question anew, without asking.
    Skip,
    /// Ask the radio for its frequency, and count the time to the next question anew.
    Query,
}

/// What to do about the frequency: it is asked for when it is due, but not while the radio
/// transmits or has just done so.
pub open spec fn poll_action(tx_now: bool, since_poll_ms: u64, since_tx_end_ms: u64) -> PollAction {
    if tx_now || since_poll_ms < VFO_POLL_MS {
        PollAction::Wait
    } else if since_tx_end_ms < TX_SETTLE_MS {
        PollAction::Skip
    } else {
        PollAction::Query
    }
}

/// The watch over the frequency.
#[derive(Debug)]
pub struct VfoPoll {
    /// Whether the radio transmitted at the last look.
    pub prev_tx: bool,
}

impl VfoPoll {
    /// The radio receives.
    pub fn new() -> (r: VfoPoll)
        ensures
            !r.prev_tx,
    {
        VfoPoll { prev_tx: false }
    }

    /// Notes whether the radio transmits, and says whether a transmission has just ended.
    pub fn note(&mut self, tx_now: bool) -> (ended: bool)
        ensures
            ended == (old(self).prev_tx && !tx_now),
            final(self).prev_tx == tx_now,
    {
        let ended: bool = self.prev_tx && !tx_now;
        self.prev_tx = tx_now;
        ended
    }

    /// Says what to do about the frequency, so many milliseconds after it was last asked for and
    /// after the last transmission ended.
    pub fn poll(&self, since_poll_ms: u64, since_tx_end_ms: u64) -> (action: PollAction)
        ensures
            action == poll_action(self.prev_tx, since_poll_ms, since_tx_end_ms),
    {
        if self.prev_tx || since_poll_ms < VFO_POLL_MS {
            PollAction::Wait
        } else if since_tx_end_ms < TX_SETTLE_MS {
            PollAction::Skip
        } else {
            PollAction::Query
        }
    }
}

/// The radio is asked for its frequency only while it receives, half a second or more after it
/// transmitted, and two seconds or more after the last time.
pub proof fn radio_is_left_alone(tx_now: bool, since_poll_ms: u64, since_tx_end_ms: u64)
    ensures
        poll_action(tx_now, since_poll_ms, since_tx_end_ms) == PollAction::Query <==> !tx_now
            && since_poll_ms >= VFO_POLL_MS && since_tx_end_ms >= TX_SETTLE_MS,
{
}

/// The first stream is waited for in steps of 10 ms, 250 ms each time; the radio is told again after
/// the first wait and after the second, and then it is left at that. A stream that has started ends
/// the wait at once.
pub proof fn first_stream_is_waited_for(retries: u32, elapsed_ms: u64)
    ensures
        start_action(retries, true, elapsed_ms) == StartAction::Proceed,
        elapsed_ms < 250 ==> start_action(retries, false, elapsed_ms) == StartAction::Sleep(10),
        elapsed_ms >= 250 && retries < 2 ==> start_action(retries, false, elapsed_ms)
            == StartAction::EnableStreaming,
        elapsed_ms >= 250 && retries >= 2 ==> start_action(retries, false, elapsed_ms)
            == StartAction::Proceed,
{
}

/// The frequency is asked for every two seconds while the radio receives. A question that falls due
/// within half a second of a transmission is left out; one that is not due, or falls due during a
/// transmission, waits.
pub proof fn frequency_is_asked_for(since_poll_ms: u64, since_tx_end_ms: u64)
    ensures
        poll_action(true, since_poll_ms, since_tx_end_ms) == PollAction::Wait,
        since_poll_ms < 2000 ==> poll_action(false, since_poll_ms, since_tx_end_ms)
            == PollAction::Wait,
        since_poll_ms >= 2000 && since_tx_end_ms < 500 ==> poll_action(
            false,
            since_poll_ms,
            since_tx_end_ms,
        ) == PollAction::Skip,
        since_poll_ms >= 2000 && since_tx_end_ms >= 500 ==> poll_action(
            false,
            since_poll_ms,
            since_tx_end_ms,
        ) == PollAction::Query,
{
}

} // verus!
