//! What is said to the radio over the serial line, and in which order.
//!
//! A command is a list of steps. Each step is one operation on the port together with what its
//! failure means. A `SerialRun` walks through such a list: it names the next operation, is told
//! whether it succeeded, and in the end says which failure, if any, the command reports.

use vstd::prelude::*;

use crate::text::{ascii, ascii_bytes};

verus! {

/// One operation on the serial port.
#[derive(Debug, PartialEq, Eq)]
pub enum SerialOp {
    /// Wait until everything written has left.
    Flush,
    /// Write all of these bytes.
    WriteAll(Vec<u8>),
    /// Write as many of these bytes as go out at once.
    WriteOnce(Vec<u8>),
    /// Set the RTS line.
    RequestToSend(bool),
    /// Set the DTR line.
    DataTerminalReady(bool),
}

/// A `SerialOp` with its bytes as a sequence.
pub enum OpView {
    Flush,
    WriteAll(Seq<u8>),
    WriteOnce(Seq<u8>),
    RequestToSend(bool),
    DataTerminalReady(bool),
}

impl View for SerialOp {
    type V = OpView;

    open spec fn view(&self) -> OpView {
        match self {
            SerialOp::Flush => OpView::Flush,
            SerialOp::WriteAll(data) => OpView::WriteAll(data@),
            SerialOp::WriteOnce(data) => OpView::WriteOnce(data@),
            SerialOp::RequestToSend(high) => OpView::RequestToSend(*high),
            SerialOp::DataTerminalReady(high) => OpView::DataTerminalReady(*high),
        }
    }
}

/// What the failure of a step means.
#[derive(Clone, Copy, Debug, PartialEq, Eq, Structural)]
pub enum OnError {
    /// Go on as if it had succeeded.
    Ignore,
    /// Go on, and report it at the end.
    Keep,
    /// Report it now, and do nothing more.
    Return,
}

/// One step of a command.
#[derive(Debug, PartialEq, Eq)]
pub struct SerialStep {
    pub op: SerialOp,
    pub on_error: OnError,
}

/// A `SerialStep` with its bytes as a sequence.
pub struct StepView {
    pub op: OpView,
    pub on_error: OnError,
}

impl View for SerialStep {
    type V = StepView;

    open spec fn view(&self) -> StepView {
        StepView { op: self.op@, on_error: self.on_error }
    }
}

/// The views of `steps`, in order.
pub open spec fn step_views(steps: Seq<SerialStep>) -> Seq<StepView> {
    steps.map_values(|s: SerialStep| s@)
}

/// The views of `commands`, in order.
pub open spec fn command_views(commands: Seq<Vec<SerialStep>>) -> Seq<Seq<StepView>> {
    commands.map_values(|c: Vec<SerialStep>| step_views(c@))
}

/// The step that does `op`.
pub open spec fn step_of(op: OpView, on_error: OnError) -> StepView {
    StepView { op, on_error }
}

/// How the control lines were last set.
#[derive(Clone, Copy, Debug, PartialEq, Eq, Structural)]
pub struct LineState {
    pub rts: bool,
    pub dtr: bool,
}

impl LineState {
    /// Neither line has been set yet; both count as low.
    pub fn new() -> (r: LineState)
        ensures
            r == (LineState { rts: false, dtr: false }),
    {
        LineState { rts: false, dtr: false }
    }
}

/// Notes how the RTS line was set.
pub fn set_last_rts(lines: &mut LineState, v: bool)
    ensures
        *final(lines) == (LineState { rts: v, ..*old(lines) }),
{
    lines.rts = v;
}

/// Notes how the DTR line was set.
pub fn set_last_dtr(lines: &mut LineState, v: bool)
    ensures
        *final(lines) == (LineState { dtr: v, ..*old(lines) }),
{
    lines.dtr = v;
}

/// How the RTS line was last set; low if it never was.
pub fn get_last_rts(lines: &LineState) -> (v: bool)
    ensures
        v == lines.rts,
{
    lines.rts
}

/// How the RTS line was last set; low if it never was.
pub fn last_rts_state(lines: &LineState) -> (v: bool)
    ensures
        v == lines.rts,
{
    get_last_rts(lines)
}

/// The steps that write the command `data`: the line is flushed before and after, and only the
/// failure of the write itself is reported.
pub open spec fn command_steps(data: Seq<u8>) -> Seq<StepView> {
    seq![
        step_of(OpView::Flush, OnError::Ignore),
        step_of(OpView::WriteAll(data), OnError::Keep),
        step_of(OpView::Flush, OnError::Ignore),
    ]
}

/// The steps that write the command `data` while RTS is high.
pub open spec fn keyed_command_steps(data: Seq<u8>) -> Seq<StepView> {
    seq![step_of(OpView::RequestToSend(true), OnError::Return)] + command_steps(data) + seq![
        step_of(OpView::RequestToSend(false), OnError::Return),
    ]
}

/// The steps that write the command `data`.
pub fn send_command_to_radio(data: Vec<u8>) -> (steps: Vec<SerialStep>)
    ensures
        step_views(steps@) == command_steps(data@),
{
    let mut steps: Vec<SerialStep> = Vec::new();
    steps.push(SerialStep { op: SerialOp::Flush, on_error: OnError::Ignore });
    steps.push(SerialStep { op: SerialOp::WriteAll(data), on_error: OnError::Keep });
    steps.push(SerialStep { op: SerialOp::Flush, on_error: OnError::Ignore });
    assert(step_views(steps@) =~= command_steps(data@));
    steps
}

/// The steps that write the command `data` while RTS is high.
fn send_keyed_command(data: Vec<u8>) -> (steps: Vec<SerialStep>)
    ensures
        step_views(steps@) == keyed_command_steps(data@),
{
    let mut steps: Vec<SerialStep> = Vec::new();
    steps.push(SerialStep { op: SerialOp::RequestToSend(true), on_error: OnError::Return });
    let ghost first = step_views(steps@);
    let mut command = send_command_to_radio(data);
    let ghost middle = step_views(command@);
    steps.append(&mut command);
    assert(step_views(steps@) =~= first + middle);
    steps.push(SerialStep { op: SerialOp::RequestToSend(false), on_error: OnError::Return });
    assert(step_views(steps@) =~= keyed_command_steps(data@));
    steps
}

/// Switches the radio to transmit what comes over the serial line.
pub fn start_transmit_baseband() -> (steps: Vec<SerialStep>)
    ensures
        step_views(steps@) == command_steps(ascii(";TX0;"@)),
{
    proof {
        reveal_strlit(";TX0;");
    }
    send_command_to_radio(ascii_bytes(";TX0;"))
}

/// Asks the radio for the frequency of VFO A.
pub fn query_vfo_a() -> (steps: Vec<SerialStep>)
    ensures
        step_views(steps@) == command_steps(ascii("FA;"@)),
{
    proof {
        reveal_strlit("FA;");
    }
    send_command_to_radio(ascii_bytes("FA;"))
}

/// The command that sets the mode numbered `mode`; a number past 5 sets USB.
pub open spec fn mode_command(mode: u8) -> Seq<char> {
    if mode == 0 {
        "MD0;"@
    } else if mode == 1 {
        "MD1;"@
    } else if mode == 3 {
        "MD3;"@
    } else if mode == 4 {
        "MD4;"@
    } else if mode == 5 {
        "MD5;"@
    } else {
        "MD2;"@
    }
}

/// Sets the mode numbered `mode`.
pub fn set_mode(mode: u8) -> (steps: Vec<SerialStep>)
    ensures
        step_views(steps@) == command_steps(ascii(mode_command(mode))),
{
    proof {
        reveal_strlit("MD0;");
        reveal_strlit("MD1;");
        reveal_strlit("MD2;");
        reveal_strlit("MD3;");
        reveal_strlit("MD4;");
        reveal_strlit("MD5;");
    }
    let command: &str = match mode {
        0 => "MD0;",
        1 => "MD1;",
        2 => "MD2;",
        3 => "MD3;",
        4 => "MD4;",
        5 => "MD5;",
        _ => "MD2;",
    };
    send_command_to_radio(ascii_bytes(command))
}

/// Flushes the line.
pub fn flush_serial_line() -> (steps: Vec<SerialStep>)
    ensures
        step_views(steps@) == seq![step_of(OpView::Flush, OnError::Return)],
{
    let mut steps: Vec<SerialStep> = Vec::new();
    steps.push(SerialStep { op: SerialOp::Flush, on_error: OnError::Return });
    assert(step_views(steps@) =~= seq![step_of(OpView::Flush, OnError::Return)]);
    steps
}

/// Switches the radio to receive and to stream its audio, with its own speaker off.
pub fn enable_streaming_speaker_off() -> (steps: Vec<SerialStep>)
    ensures
        step_views(steps@) == keyed_command_steps(ascii(";RX;UA2;"@)),
{
    proof {
        reveal_strlit(";RX;UA2;");
    }
    send_keyed_command(ascii_bytes(";RX;UA2;"))
}

/// Switches the radio to receive and to stream its audio, with its own speaker on.
pub fn enable_streaming_speaker_on() -> (steps: Vec<SerialStep>)
    ensures
        step_views(steps@) == keyed_command_steps(ascii(";RX;UA1;"@)),
{
    proof {
        reveal_strlit(";RX;UA1;");
    }
    send_keyed_command(ascii_bytes(";RX;UA1;"))
}

/// Sends audio for transmission, as much as goes out at once.
pub fn send_audio_stream_raw(audio_data: Vec<u8>) -> (steps: Vec<SerialStep>)
    ensures
        step_views(steps@) == seq![step_of(OpView::WriteOnce(audio_data@), OnError::Return)],
{
    let mut steps: Vec<SerialStep> = Vec::new();
    steps.push(SerialStep { op: SerialOp::WriteOnce(audio_data), on_error: OnError::Return });
    assert(step_views(steps@) =~= seq![
        step_of(OpView::WriteOnce(audio_data@), OnError::Return),
    ]);
    steps
}

/// Sets the RTS line.
pub fn control_rts(high: bool) -> (steps: Vec<SerialStep>)
    ensures
        step_views(steps@) == seq![step_of(OpView::RequestToSend(high), OnError::Return)],
{
    let mut steps: Vec<SerialStep> = Vec::new();
    steps.push(SerialStep { op: SerialOp::RequestToSend(high), on_error: OnError::Return });
    assert(step_views(steps@) =~= seq![step_of(OpView::RequestToSend(high), OnError::Return)]);
    steps
}

/// Sets the DTR line.
pub fn control_dtr(high: bool) -> (steps: Vec<SerialStep>)
    ensures
        step_views(steps@) == seq![step_of(OpView::DataTerminalReady(high), OnError::Return)],
{
    let mut steps: Vec<SerialStep> = Vec::new();
    steps.push(SerialStep { op: SerialOp::DataTerminalReady(high), on_error: OnError::Return });
    assert(step_views(steps@) =~= seq![
        step_of(OpView::DataTerminalReady(high), OnError::Return),
    ]);
    steps
}

/// What each of the waiting commands says.
pub open spec fn queued(queue: Seq<Vec<u8>>) -> Seq<Seq<u8>> {
    queue.map_values(|c: Vec<u8>| c@)
}

/// The steps that write the waiting commands one after the other and then flush the line, whatever
/// fails; none if nothing waits.
pub open spec fn drain_steps(commands: Seq<Seq<u8>>) -> Seq<StepView> {
    if commands.len() == 0 {
        Seq::empty()
    } else {
        commands.map_values(
            |c: Seq<u8>| step_of(OpView::WriteAll(c), OnError::Ignore),
        ).push(step_of(OpView::Flush, OnError::Ignore))
    }
}

/// Takes every waiting command out of the queue, and gives the steps that write them.
pub fn drain_cat(queue: &mut Vec<Vec<u8>>) -> (steps: Vec<SerialStep>)
    ensures
        final(queue)@.len() == 0,
        step_views(steps@) == drain_steps(queued(old(queue)@)),
{
    let mut steps: Vec<SerialStep> = Vec::new();
    let ghost waiting = queue@;
    let ghost written = queued(waiting).map_values(
        |c: Seq<u8>| step_of(OpView::WriteAll(c), OnError::Ignore),
    );
    let n: usize = queue.len();
    let mut taken: Vec<Vec<u8>> = Vec::new();
    std::mem::swap(&mut taken, queue);
    assert(step_views(steps@) =~= written.take(0));
    for data in it: taken
        invariant
            it.seq() == waiting,
            n == waiting.len(),
            written == queued(waiting).map_values(
                |c: Seq<u8>| step_of(OpView::WriteAll(c), OnError::Ignore),
            ),
            step_views(steps@) == written.take(it.index() as int),
    {
        let ghost i = it.index() as int;
        let ghost so_far = step_views(steps@);
        assert(0 <= i < waiting.len());
        assert(data == waiting[i]);
        assert(written[i] == step_of(OpView::WriteAll(data@), OnError::Ignore));
        steps.push(SerialStep { op: SerialOp::WriteAll(data), on_error: OnError::Ignore });
        assert(step_views(steps@) =~= so_far.push(written[i]));
        assert(so_far.push(written[i]) =~= written.take(i + 1));
    }
    assert(written.take(n as int) =~= written);
    if n > 0 {
        steps.push(SerialStep { op: SerialOp::Flush, on_error: OnError::Ignore });
    }
    assert(step_views(steps@) =~= drain_steps(queued(waiting)));
    steps
}

/// Where the run of a command stands.
pub struct RunState {
    pub steps: Seq<StepView>,
    /// How many steps are behind.
    pub next: int,
    /// The step whose failure is to be reported, if there is one.
    pub error: Option<int>,
}

impl RunState {
    /// Nothing done yet.
    pub open spec fn start(steps: Seq<StepView>) -> RunState {
        RunState { steps, next: 0, error: None }
    }

    /// Whether nothing is left to do.
    pub open spec fn finished(self) -> bool {
        self.next >= self.steps.len()
    }

    /// The state after the next operation has succeeded (`ok`) or failed.
    pub open spec fn advanced(self, ok: bool) -> RunState {
        if ok || self.steps[self.next].on_error == OnError::Ignore {
            RunState { next: self.next + 1, ..self }
        } else if self.steps[self.next].on_error == OnError::Keep {
            RunState { next: self.next + 1, error: Some(self.next), ..self }
        } else {
            RunState { next: self.steps.len() as int, error: Some(self.next), ..self }
        }
    }

    /// What holds of every state of a run.
    pub open spec fn wf(self) -> bool {
        &&& 0 <= self.next <= self.steps.len()
        &&& self.error matches Some(i) ==> 0 <= i < self.steps.len()
    }
}

/// How the control lines stand after `op` has succeeded.
pub open spec fn lines_after(lines: LineState, op: OpView) -> LineState {
    match op {
        OpView::RequestToSend(high) => LineState { rts: high, ..lines },
        OpView::DataTerminalReady(high) => LineState { dtr: high, ..lines },
        _ => lines,
    }
}

/// The run of one command.
#[derive(Debug)]
pub struct SerialRun {
    steps: Vec<SerialStep>,
    next: usize,
    error: Option<usize>,
}

impl View for SerialRun {
    type V = RunState;

    closed spec fn view(&self) -> RunState {
        RunState {
            steps: step_views(self.steps@),
            next: self.next as int,
            error: match self.error {
                Some(i) => Some(i as int),
                None => None,
            },
        }
    }
}

impl SerialRun {
    #[verifier::type_invariant]
    spec fn inv(self) -> bool {
        self@.wf()
    }

    /// Starts the command that `steps` make.
    pub fn new(steps: Vec<SerialStep>) -> (r: SerialRun)
        ensures
            r@ == RunState::start(step_views(steps@)),
    {
        SerialRun { steps, next: 0, error: None }
    }

    /// The next operation; none once the run has finished.
    pub fn current(&self) -> (op: Option<&SerialOp>)
        ensures
            match op {
                Some(op) => !self@.finished() && op@ == self@.steps[self@.next].op,
                None => self@.finished(),
            },
    {
        if self.next < self.steps.len() {
            Some(&self.steps[self.next].op)
        } else {
            None
        }
    }

    /// Takes note of how the next operation went, and in `lines` of a control line it has set.
    /// Once the run has finished there is nothing to note.
    pub fn advance(&mut self, ok: bool, lines: &mut LineState)
        ensures
            old(self)@.finished() ==> final(self)@ == old(self)@ && *final(lines) == *old(lines),
            !old(self)@.finished() ==> final(self)@ == old(self)@.advanced(ok),
            !old(self)@.finished() ==> *final(lines) == (if ok {
                lines_after(*old(lines), old(self)@.steps[old(self)@.next].op)
            } else {
                *old(lines)
            }),
    {
        proof {
            use_type_invariant(&*self);
        }
        if self.next >= self.steps.len() {
            return;
        }
        let at: usize = self.next;
        if ok {
            match &self.steps[at].op {
                SerialOp::RequestToSend(high) => set_last_rts(lines, *high),
                SerialOp::DataTerminalReady(high) => set_last_dtr(lines, *high),
                _ => {},
            }
            self.next = at + 1;
        } else {
            match self.steps[at].on_error {
                OnError::Ignore => {
                    self.next = at + 1;
                },
                OnError::Keep => {
                    self.error = Some(at);
                    self.next = at + 1;
                },
                OnError::Return => {
                    self.error = Some(at);
                    self.next = self.steps.len();
                },
            }
        }
    }

    /// The step whose failure the command reports; none if it succeeded.
    pub fn failed_step(&self) -> (r: Option<usize>)
        ensures
            match r {
                Some(i) => self@.error == Some(i as int),
                None => self@.error is None,
            },
    {
        self.error
    }
}

/// The run `s` after its next operations went as `results` say, and the control lines then. What
/// is left of `results` once the run has finished does not count.
pub open spec fn run(s: RunState, lines: LineState, results: Seq<bool>) -> (RunState, LineState)
    decreases results.len(),
{
    if results.len() == 0 || s.finished() {
        (s, lines)
    } else {
        let next_lines = if results[0] {
            lines_after(lines, s.steps[s.next].op)
        } else {
            lines
        };
        run(s.advanced(results[0]), next_lines, results.skip(1))
    }
}

/// A run never does more operations than it has steps, and then it has finished.
pub proof fn run_ends(s: RunState, lines: LineState, results: Seq<bool>)
    requires
        s.wf(),
        results.len() >= s.steps.len() - s.next,
    ensures
        run(s, lines, results).0.finished(),
        run(s, lines, results).0.wf(),
    decreases results.len(),
{
    if results.len() > 0 && !s.finished() {
        let next_lines = if results[0] {
            lines_after(lines, s.steps[s.next].op)
        } else {
            lines
        };
        run_ends(s.advanced(results[0]), next_lines, results.skip(1));
    }
}

/// One more operation of a run.
proof fn run_step(s: RunState, lines: LineState, results: Seq<bool>, from: int)
    requires
        0 <= from < results.len(),
        !s.finished(),
    ensures
        run(s, lines, results.skip(from)) == run(
            s.advanced(results[from]),
            if results[from] {
                lines_after(lines, s.steps[s.next].op)
            } else {
                lines
            },
            results.skip(from + 1),
        ),
{
    let rest = results.skip(from);
    assert(rest[0] == results[from]);
    assert(rest.skip(1) =~= results.skip(from + 1));
}

/// A plain command fails when its write fails and only then; a failed flush is no failure. The
/// control lines stay as they are.
pub proof fn command_reports_its_write(data: Seq<u8>, lines: LineState, results: Seq<bool>)
    requires
        results.len() >= 3,
    ensures
        ({
            let (end, after) = run(RunState::start(command_steps(data)), lines, results);
            &&& end.finished()
            &&& end.error == (if results[1] {
                None::<int>
            } else {
                Some(1int)
            })
            &&& after == lines
        }),
{
    let s0 = RunState::start(command_steps(data));
    let s1 = s0.advanced(results[0]);
    let s2 = s1.advanced(results[1]);
    assert(results.skip(0) =~= results);
    run_step(s0, lines, results, 0);
    run_step(s1, lines, results, 1);
    run_step(s2, lines, results, 2);
}

/// A command under RTS: if RTS cannot be raised, nothing is written. Otherwise the command is
/// written, and RTS lowered again. If it cannot be lowered, that is the failure reported and RTS
/// counts as high; else the write decides, and RTS is low.
pub proof fn keyed_command_lowers_rts(data: Seq<u8>, lines: LineState, results: Seq<bool>)
    requires
        results.len() >= 5,
    ensures
        ({
            let (end, after) = run(RunState::start(keyed_command_steps(data)), lines, results);
            &&& end.finished()
            &&& end.error == (if !results[0] {
                Some(0int)
            } else if !results[4] {
                Some(4int)
            } else if !results[2] {
                Some(2int)
            } else {
                None::<int>
            })
            &&& after == (if !results[0] {
                lines
            } else {
                LineState { rts: !results[4], ..lines }
            })
        }),
{
    let steps = keyed_command_steps(data);
    assert(steps.len() == 5);
    assert(steps[1] == command_steps(data)[0]);
    assert(steps[2] == command_steps(data)[1]);
    assert(steps[3] == command_steps(data)[2]);
    let s0 = RunState::start(steps);
    let s1 = s0.advanced(results[0]);
    assert(results.skip(0) =~= results);
    run_step(s0, lines, results, 0);
    if results[0] {
        let high = LineState { rts: true, ..lines };
        let s2 = s1.advanced(results[1]);
        let s3 = s2.advanced(results[2]);
        let s4 = s3.advanced(results[3]);
        run_step(s1, high, results, 1);
        run_step(s2, high, results, 2);
        run_step(s3, high, results, 3);
        run_step(s4, high, results, 4);
    }
}

/// Whatever fails, every command that waits is written, and writing them reports no failure.
pub proof fn drain_writes_them_all(commands: Seq<Seq<u8>>, lines: LineState, results: Seq<bool>)
    requires
        results.len() >= drain_steps(commands).len(),
    ensures
        ({
            let (end, after) = run(RunState::start(drain_steps(commands)), lines, results);
            &&& end == (RunState {
                next: drain_steps(commands).len() as int,
                ..RunState::start(drain_steps(commands))
            })
            &&& after == lines
        }),
{
    drain_goes_on(commands, 0, lines, results);
}

/// The rest of such a run, from its step `from`.
proof fn drain_goes_on(commands: Seq<Seq<u8>>, from: int, lines: LineState, results: Seq<bool>)
    requires
        0 <= from <= drain_steps(commands).len(),
        results.len() >= drain_steps(commands).len() - from,
    ensures
        ({
            let start = RunState::start(drain_steps(commands));
            run(RunState { next: from, ..start }, lines, results) == (
                RunState { next: drain_steps(commands).len() as int, ..start },
                lines,
            )
        }),
    decreases drain_steps(commands).len() - from,
{
    let s = RunState { next: from, ..RunState::start(drain_steps(commands)) };
    if from < drain_steps(commands).len() {
        drain_goes_on(commands, from + 1, lines, results.skip(1));
        assert(s.advanced(results[0]) == RunState { next: from + 1, ..s });
    }
}

/// The operations that the run `s` does, in order, where they go as `results` say.
pub open spec fn performed(s: RunState, results: Seq<bool>) -> Seq<OpView>
    decreases results.len(),
{
    if results.len() == 0 || s.finished() {
        Seq::empty()
    } else {
        seq![s.steps[s.next].op] + performed(s.advanced(results[0]), results.skip(1))
    }
}

/// One more operation is done.
proof fn performed_step(s: RunState, results: Seq<bool>, from: int)
    requires
        0 <= from < results.len(),
        !s.finished(),
    ensures
        performed(s, results.skip(from)) == seq![s.steps[s.next].op] + performed(
            s.advanced(results[from]),
            results.skip(from + 1),
        ),
{
    let rest = results.skip(from);
    assert(rest[0] == results[from]);
    assert(rest.skip(1) =~= results.skip(from + 1));
}

/// What a step's end means: success goes on; so does a failure that is ignored, and one that is
/// kept, which is then the one that is reported; any other failure is reported and ends the run.
pub proof fn failures_mean_what_they_say(s: RunState)
    requires
        0 <= s.next < s.steps.len(),
    ensures
        !s.finished(),
        s.advanced(true) == (RunState { steps: s.steps, next: s.next + 1, error: s.error }),
        s.steps[s.next].on_error == OnError::Ignore ==> s.advanced(false) == (RunState {
            steps: s.steps,
            next: s.next + 1,
            error: s.error,
        }),
        s.steps[s.next].on_error == OnError::Keep ==> s.advanced(false) == (RunState {
            steps: s.steps,
            next: s.next + 1,
            error: Some(s.next),
        }),
        s.steps[s.next].on_error == OnError::Return ==> s.advanced(false) == (RunState {
            steps: s.steps,
            next: s.steps.len() as int,
            error: Some(s.next),
        }),
{
}

/// A run starts at its first step with nothing to report, and has ended when no step is left.
pub proof fn run_starts_at_its_first_step(steps: Seq<StepView>, next: int, error: Option<int>)
    ensures
        RunState::start(steps) == (RunState { steps, next: 0, error: None }),
        (RunState { steps, next, error }).finished() <==> next >= steps.len(),
{
}

/// An operation on a control line sets that line and leaves the other; any other operation leaves
/// both.
pub proof fn control_lines_are_set(lines: LineState, high: bool, data: Seq<u8>)
    ensures
        lines_after(lines, OpView::RequestToSend(high)) == (LineState { rts: high, dtr: lines.dtr }),
        lines_after(lines, OpView::DataTerminalReady(high)) == (LineState {
            rts: lines.rts,
            dtr: high,
        }),
        lines_after(lines, OpView::Flush) == lines,
        lines_after(lines, OpView::WriteAll(data)) == lines,
        lines_after(lines, OpView::WriteOnce(data)) == lines,
{
}

/// Whatever fails, a plain command is written once, whole, between two flushes of the line.
pub proof fn command_is_written(data: Seq<u8>, results: Seq<bool>)
    requires
        results.len() >= 3,
    ensures
        performed(RunState::start(command_steps(data)), results) == seq![
            OpView::Flush,
            OpView::WriteAll(data),
            OpView::Flush,
        ],
{
    let s0 = RunState::start(command_steps(data));
    let s1 = s0.advanced(results[0]);
    let s2 = s1.advanced(results[1]);
    assert(results.skip(0) =~= results);
    performed_step(s0, results, 0);
    performed_step(s1, results, 1);
    performed_step(s2, results, 2);
    assert(performed(RunState::start(command_steps(data)), results) =~= seq![
        OpView::Flush,
        OpView::WriteAll(data),
        OpView::Flush,
    ]);
}

/// A command under RTS is written once, whole, after RTS was raised and before it is lowered; and
/// not at all where RTS could not be raised.
pub proof fn keyed_command_is_written(data: Seq<u8>, results: Seq<bool>)
    requires
        results.len() >= 5,
    ensures
        performed(RunState::start(keyed_command_steps(data)), results) == (if results[0] {
            seq![
                OpView::RequestToSend(true),
                OpView::Flush,
                OpView::WriteAll(data),
                OpView::Flush,
                OpView::RequestToSend(false),
            ]
        } else {
            seq![OpView::RequestToSend(true)]
        }),
{
    let steps = keyed_command_steps(data);
    assert(steps.len() == 5);
    assert(steps[1] == command_steps(data)[0]);
    assert(steps[2] == command_steps(data)[1]);
    assert(steps[3] == command_steps(data)[2]);
    let s0 = RunState::start(steps);
    let s1 = s0.advanced(results[0]);
    assert(results.skip(0) =~= results);
    performed_step(s0, results, 0);
    let all = performed(s0, results);
    if results[0] {
        let s2 = s1.advanced(results[1]);
        let s3 = s2.advanced(results[2]);
        let s4 = s3.advanced(results[3]);
        performed_step(s1, results, 1);
        performed_step(s2, results, 2);
        performed_step(s3, results, 3);
        performed_step(s4, results, 4);
        assert(all =~= seq![
            OpView::RequestToSend(true),
            OpView::Flush,
            OpView::WriteAll(data),
            OpView::Flush,
            OpView::RequestToSend(false),
        ]);
    } else {
        assert(all =~= seq![OpView::RequestToSend(true)]);
    }
}

/// Every command that waits is written, each whole, in the order of the queue, and one flush
/// follows the last; where none waits nothing is done. No failure among them ends it.
pub proof fn every_waiting_command_is_written(commands: Seq<Seq<u8>>)
    ensures
        ({
            let steps = drain_steps(commands);
            &&& commands.len() == 0 ==> steps.len() == 0
            &&& commands.len() > 0 ==> {
                &&& steps.len() == commands.len() + 1
                &&& steps.last() == (StepView { op: OpView::Flush, on_error: OnError::Ignore })
            }
            &&& forall|i: int|
                0 <= i < commands.len() ==> #[trigger] steps[i] == (StepView {
                    op: OpView::WriteAll(commands[i]),
                    on_error: OnError::Ignore,
                })
        }),
{
}

/// And so it is done on the line, whatever fails there.
pub proof fn waiting_commands_reach_the_line(commands: Seq<Seq<u8>>, results: Seq<bool>, i: int)
    requires
        results.len() >= commands.len() + 1,
    ensures
        ({
            let done = performed(RunState::start(drain_steps(commands)), results);
            &&& done.len() == (if commands.len() == 0 {
                0
            } else {
                commands.len() + 1
            })
            &&& 0 <= i < commands.len() ==> done[i] == OpView::WriteAll(commands[i])
            &&& commands.len() > 0 ==> done.last() == OpView::Flush
        }),
{
    drain_performs(commands, 0, results);
}

/// The rest of what is done, from the step `from`.
proof fn drain_performs(commands: Seq<Seq<u8>>, from: int, results: Seq<bool>)
    requires
        0 <= from <= drain_steps(commands).len(),
        results.len() >= drain_steps(commands).len() - from,
    ensures
        ({
            let steps = drain_steps(commands);
            performed(RunState { next: from, ..RunState::start(steps) }, results) == steps.skip(
                from,
            ).map_values(|s: StepView| s.op)
        }),
    decreases drain_steps(commands).len() - from,
{
    let steps = drain_steps(commands);
    let s = RunState { next: from, ..RunState::start(steps) };
    let done = steps.skip(from).map_values(|s: StepView| s.op);
    if from < steps.len() {
        drain_performs(commands, from + 1, results.skip(1));
        assert(s.advanced(results[0]) == RunState { next: from + 1, ..s });
        assert(performed(s, results) =~= done);
    } else {
        assert(done =~= Seq::empty());
    }
}

/// The command that sets a mode names it by its number, and by that of USB where there is no such
/// mode.
pub proof fn mode_is_named_by_its_number(mode: u8)
    ensures
        mode_command(mode) == seq![
            'M',
            'D',
            (0x30 + if mode <= 5 {
                mode as int
            } else {
                2
            }) as char,
            ';',
        ],
{
    reveal_strlit("MD0;");
    reveal_strlit("MD1;");
    reveal_strlit("MD2;");
    reveal_strlit("MD3;");
    reveal_strlit("MD4;");
    reveal_strlit("MD5;");
    let n = if mode <= 5 {
        mode as int
    } else {
        2
    };
    assert(mode_command(mode) =~= seq!['M', 'D', (0x30 + n) as char, ';']);
}

/// Steps and what they are made of are looked at as they stand, one by one; and so are the commands
/// in a queue.
pub proof fn steps_are_what_is_there(
    op: SerialOp,
    step: SerialStep,
    steps: Seq<SerialStep>,
    commands: Seq<Vec<SerialStep>>,
    queue: Seq<Vec<u8>>,
)
    ensures
        match op {
            SerialOp::Flush => op@ == OpView::Flush,
            SerialOp::WriteAll(data) => op@ == OpView::WriteAll(data@),
            SerialOp::WriteOnce(data) => op@ == OpView::WriteOnce(data@),
            SerialOp::RequestToSend(high) => op@ == OpView::RequestToSend(high),
            SerialOp::DataTerminalReady(high) => op@ == OpView::DataTerminalReady(high),
        },
        step@ == (StepView { op: step.op@, on_error: step.on_error }),
        step_of(step.op@, step.on_error) == step@,
        step_views(steps).len() == steps.len(),
        forall|i: int| 0 <= i < steps.len() ==> #[trigger] step_views(steps)[i] == steps[i]@,
        command_views(commands).len() == commands.len(),
        forall|i: int|
            0 <= i < commands.len() ==> #[trigger] command_views(commands)[i] == step_views(
                commands[i]@,
            ),
        queued(queue).len() == queue.len(),
        forall|i: int| 0 <= i < queue.len() ==> #[trigger] queued(queue)[i] == queue[i]@,
{
}

} // verus!
