//! How everything is brought to an end.

use vstd::prelude::*;

use crate::text::ascii;
use crate::trusdx;
use crate::trusdx::{
    command_views, keyed_command_steps, step_of, OnError, OpView, SerialStep, StepView,
};

verus! {

/// One thing to do at the end.
#[derive(Debug, PartialEq, Eq)]
pub enum ShutdownStep {
    /// Tell everyone that the end has come.
    MarkShuttingDown,
    /// Stop the audio bridge.
    StopAudio,
    /// Run these commands on the serial port, which is held until the last is done; what they
    /// report does not matter.
    Serial(Vec<Vec<SerialStep>>),
}

/// A `ShutdownStep` with its data as sequences.
pub enum ShutdownView {
    MarkShuttingDown,
    StopAudio,
    Serial(Seq<Seq<StepView>>),
}

impl View for ShutdownStep {
    type V = ShutdownView;

    open spec fn view(&self) -> ShutdownView {
        match self {
            ShutdownStep::MarkShuttingDown => ShutdownView::MarkShuttingDown,
            ShutdownStep::StopAudio => ShutdownView::StopAudio,
            ShutdownStep::Serial(commands) => ShutdownView::Serial(command_views(commands@)),
        }
    }
}

/// The views of `steps`, in order.
pub open spec fn shutdown_views(steps: Seq<ShutdownStep>) -> Seq<ShutdownView> {
    steps.map_values(|s: ShutdownStep| s@)
}

/// Everyone is told, the audio bridge is stopped, and the radio gets its speaker back. The line is
/// flushed last, whatever became of that.
pub fn shutdown() -> (steps: Vec<ShutdownStep>)
    ensures
        shutdown_views(steps@) == seq![
            ShutdownView::MarkShuttingDown,
            ShutdownView::StopAudio,
            ShutdownView::Serial(
                seq![
                    keyed_command_steps(ascii(";RX;UA1;"@)),
                    seq![step_of(OpView::Flush, OnError::Return)],
                ],
            ),
        ],
{
    let mut commands: Vec<Vec<SerialStep>> = Vec::new();
    commands.push(trusdx::enable_streaming_speaker_on());
    commands.push(trusdx::flush_serial_line());
    let ghost told = seq![
        keyed_command_steps(ascii(";RX;UA1;"@)),
        seq![step_of(OpView::Flush, OnError::Return)],
    ];
    assert(command_views(commands@) =~= told);
    let mut steps: Vec<ShutdownStep> = Vec::new();
    steps.push(ShutdownStep::MarkShuttingDown);
    steps.push(ShutdownStep::StopAudio);
    steps.push(ShutdownStep::Serial(commands));
    assert(shutdown_views(steps@) =~= seq![
        ShutdownView::MarkShuttingDown,
        ShutdownView::StopAudio,
        ShutdownView::Serial(told),
    ]);
    steps
}

/// Steps are looked at as they stand, one by one.
pub proof fn shutdown_is_what_is_there(step: ShutdownStep, steps: Seq<ShutdownStep>)
    ensures
        match step {
            ShutdownStep::MarkShuttingDown => step@ == ShutdownView::MarkShuttingDown,
            ShutdownStep::StopAudio => step@ == ShutdownView::StopAudio,
            ShutdownStep::Serial(commands) => step@ == ShutdownView::Serial(
                command_views(commands@),
            ),
        },
        shutdown_views(steps).len() == steps.len(),
        forall|i: int| 0 <= i < steps.len() ==> #[trigger] shutdown_views(steps)[i] == steps[i]@,
{
}

} // verus!
