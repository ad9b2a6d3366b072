//! What every command of the rigctl protocol does, for every client and whatever is noted of the
//! radio.

use vstd::prelude::*;

use crate::demux::{steps, Mode, RxEventView, RxState};
use crate::laws::{any_line_is_obeyed, mode_is_heard_back, tuning_is_heard_back};
use crate::number;
use crate::rigctl::{
    foreign_holder, frequency_actions, frequency_command, line_outcome, line_vfo_mode, line_words,
    logged, next_vfo_mode, outcome, rig_views, verb, LineOutcome, OutcomeView, RigAction,
    RigSession, RigView, Verb,
};
use crate::text;
use crate::trusdx::mode_command;

verus! {

/// No other word names a command: each is known by its one name or its two.
pub proof fn only_names_are_read(w: Seq<char>)
    ensures
        match verb(w) {
            Verb::SetVfoOption => w == "\\set_vfo_opt"@,
            Verb::CheckVfo => w == "\\chk_vfo"@,
            Verb::GetPowerState => w == "\\get_powerstat"@,
            Verb::DumpState => w == "\\dump_state"@,
            Verb::GetFrequency => w == "\\get_freq"@ || w == "f"@,
            Verb::SetFrequency => w == "\\set_freq"@ || w == "F"@,
            Verb::DumpCapabilities => w == "\\dump_caps"@,
            Verb::GetMode => w == "m"@,
            Verb::SetMode => w == "M"@,
            Verb::GetVfo => w == "v"@,
            Verb::SetVfo => w == "V"@,
            Verb::GetPtt => w == "t"@ || w == "\\get_ptt"@,
            Verb::SetPtt => w == "T"@ || w == "\\set_ptt"@,
            Verb::Quit => w == "q"@,
            Verb::Unknown => true,
        },
{
}

/// The words of a line are those of its middle, without the blank text around it.
pub proof fn words_are_in_the_middle(before: Seq<char>, middle: Seq<char>, after: Seq<char>)
    requires
        text::blank(before),
        text::blank(after),
        middle.len() > 0,
        !text::is_white_space(middle[0]),
        !text::is_white_space(middle.last()),
    ensures
        line_words(before + middle + after) == text::ascii_words(middle),
        line_words(before + middle + after).len() > 0,
{
    text::middle_is_left(before, middle, after);
    crate::rigctl::line_has_a_word(before + middle + after);
}

/// A line that could not be read, and the end of the input, end the connection; a blank line is
/// passed over without an answer. None of them changes whether commands name the VFO.
pub proof fn lines_without_words(vfo_mode: bool, line: Seq<char>, freq: u64, tx: bool)
    requires
        text::blank(line),
    ensures
        line_outcome(vfo_mode, None, freq, tx) == OutcomeView::Actions(seq![RigView::Close]),
        line_outcome(vfo_mode, Some(line), freq, tx) == OutcomeView::Actions(
            if line.len() == 0 {
                seq![RigView::Close]
            } else {
                Seq::empty()
            },
        ),
        line_vfo_mode(vfo_mode, None) == vfo_mode,
        line_vfo_mode(vfo_mode, Some(line)) == vfo_mode,
{
    text::nothing_is_left_of_blank_text(line);
}

/// Every connection starts with commands that do not name the VFO, and only the command that sets
/// it changes that: to whether a number other than zero follows.
pub proof fn only_the_option_changes_the_vfo_mode(vfo_mode: bool, words: Seq<Seq<char>>)
    ensures
        !RigSession::fresh().vfo_mode,
        verb(words[0]) != Verb::SetVfoOption ==> next_vfo_mode(vfo_mode, words) == vfo_mode,
        verb(words[0]) == Verb::SetVfoOption ==> (next_vfo_mode(vfo_mode, words) <==> words.len()
            > 1 && number::signed(words[1]) is Some && number::signed(words[1]) != Some(0int)),
{
}

/// What a client asks is answered by what is noted, and by nothing else: the frequency where the
/// VFO is named just as it is to be, the state of the transmitter, and whether commands name the
/// VFO.
pub proof fn questions_are_answered(vfo_mode: bool, words: Seq<Seq<char>>, freq: u64, tx: bool)
    ensures
        verb(words[0]) == Verb::GetFrequency ==> outcome(vfo_mode, words, freq, tx)
            == OutcomeView::Actions(
            if !vfo_mode && words.len() == 1 || vfo_mode && words.len() == 2 && words[1]
                == "VFOA"@ {
                seq![RigView::Reply(number::decimal(freq as nat) + seq!['\n'])]
            } else {
                seq![RigView::Reply("RPRT -1\n"@)]
            },
        ),
        verb(words[0]) == Verb::GetPtt ==> outcome(vfo_mode, words, freq, tx)
            == OutcomeView::Actions(
            seq![
                RigView::Reply(
                    if tx {
                        seq!['1', '\n']
                    } else {
                        seq!['0', '\n']
                    },
                ),
            ],
        ),
        verb(words[0]) == Verb::CheckVfo ==> outcome(vfo_mode, words, freq, tx)
            == OutcomeView::Actions(
            seq![
                RigView::Reply(
                    if vfo_mode {
                        seq!['1', '\n']
                    } else {
                        seq!['0', '\n']
                    },
                ),
            ],
        ),
{
    reveal_strlit("\n");
    reveal_strlit("1\n");
    reveal_strlit("0\n");
    assert("\n"@ =~= seq!['\n']);
    assert("1\n"@ =~= seq!['1', '\n']);
    assert("0\n"@ =~= seq!['0', '\n']);
}

/// What does not depend on the radio is answered the same way every time, whatever words follow.
pub proof fn fixed_answers_are_fixed(vfo_mode: bool, words: Seq<Seq<char>>, freq: u64, tx: bool)
    ensures
        ({
            let answer = outcome(vfo_mode, words, freq, tx);
            let ready = OutcomeView::Actions(seq![RigView::Reply("RPRT 0\n"@)]);
            match verb(words[0]) {
                Verb::SetVfoOption => answer == ready,
                Verb::SetVfo => answer == ready,
                Verb::DumpCapabilities => answer == ready,
                Verb::GetPowerState => answer == OutcomeView::Actions(
                    seq![RigView::Reply("1\n"@)],
                ),
                Verb::GetMode => answer == OutcomeView::Actions(
                    seq![RigView::Reply("USB\n2400\n"@)],
                ),
                Verb::GetVfo => answer == OutcomeView::Actions(seq![RigView::Reply("VFOA\n"@)]),
                Verb::DumpState => answer == OutcomeView::Actions(
                    seq![
                        RigView::Reply(
                            "0\n0\n0\n0 0 0 0 0 0 0\n0 0 0 0 0 0 0\n0 0\n0 0\n0\n0\n0\n0\n0 0 0 0 0 0 0\n0 0 0 0 0 0 0\n0\n0\n0\n0\n0\n0\n"@,
                        ),
                    ],
                ),
                Verb::Quit => answer == OutcomeView::Actions(
                    seq![RigView::Reply("RPRT 0\n"@), RigView::Close],
                ),
                Verb::Unknown => answer == OutcomeView::Actions(
                    seq![RigView::Reply("RPRT -1\n"@)],
                ),
                _ => true,
            }
        }),
{
}

/// A client that sets the mode, whichever it names, has one command queued for the radio: the one
/// that is heard as USB. It is so whatever is noted of the radio.
pub proof fn setting_the_mode_queues_usb(
    vfo_mode: bool,
    words: Seq<Seq<char>>,
    freq: u64,
    tx: bool,
)
    requires
        verb(words[0]) == Verb::SetMode,
    ensures
        ({
            let command = seq![0x4du8, 0x44u8, 0x32u8, 0x3bu8];
            &&& outcome(vfo_mode, words, freq, tx) == OutcomeView::Actions(
                seq![RigView::Queue(command), RigView::Reply("RPRT 0\n"@)],
            )
            &&& command == text::ascii(mode_command(2))
            &&& steps(RxState::idle(), command) == (
                RxState::idle(),
                seq![RxEventView::ModeChange(Mode::Usb), RxEventView::SendPending],
            )
        }),
{
    reveal_strlit("MD2;");
    assert(text::ascii("MD2;"@) =~= seq![0x4du8, 0x44u8, 0x32u8, 0x3bu8]);
    mode_is_heard_back(2);
}

/// A client that sets a frequency, where it names the VFO just as it is to be, has it noted, and the
/// command queued that is heard as that frequency; then it is told so. Where the word writes no whole
/// number it is handed out to be read as a fraction, and where the words are too few, too many or
/// name another VFO, the client is refused.
pub proof fn frequency_is_set(
    vfo_mode: bool,
    words: Seq<Seq<char>>,
    freq: u64,
    tx: bool,
    hz: u64,
)
    requires
        verb(words[0]) == Verb::SetFrequency,
    ensures
        ({
            let answer = outcome(vfo_mode, words, freq, tx);
            let command = text::ascii(frequency_command(hz));
            let placed = !vfo_mode && words.len() == 2 || vfo_mode && words.len() == 3 && words[1]
                == "VFOA"@;
            let word = words.last();
            &&& placed && number::unsigned(word, 18446744073709551615) == Some(hz as nat) ==> answer
                == OutcomeView::Actions(
                seq![
                    RigView::SetFrequency(hz),
                    RigView::Queue(command),
                    RigView::Reply("RPRT 0\n"@),
                ],
            )
            &&& placed && number::unsigned(word, 18446744073709551615) is None ==> answer
                == OutcomeView::Decimal(word)
            &&& !placed ==> answer == OutcomeView::Actions(seq![RigView::Reply("RPRT -1\n"@)])
            &&& steps(RxState::idle(), command) == (
                RxState::idle(),
                seq![RxEventView::Frequency(hz), RxEventView::SendPending],
            )
        }),
{
    tuning_is_heard_back(hz);
}

/// A fraction that came to a frequency sets it as a whole number would; one that came to nothing is
/// passed over without an answer.
pub proof fn rounded_frequency_is_set(hz: u64)
    ensures
        frequency_actions(Some(hz)) == seq![
            RigView::SetFrequency(hz),
            RigView::Queue(text::ascii(frequency_command(hz))),
            RigView::Reply("RPRT 0\n"@),
        ],
        frequency_actions(None).len() == 0,
{
}

/// The command that tunes the radio is `FA`, the frequency in hertz with zeros in front up to eleven
/// digits, and a semicolon.
pub proof fn tuning_command_is_spelled(hz: u64)
    ensures
        ({
            let command = frequency_command(hz);
            let d = number::decimal(hz as nat);
            let n: int = if d.len() < 11 {
                11
            } else {
                d.len() as int
            };
            &&& command.len() == n + 3
            &&& command[0] == 'F' && command[1] == 'A' && command[n + 2] == ';'
            &&& command.subrange(n + 2 - d.len(), n + 2) == d
            &&& forall|i: int| 2 <= i < n + 2 - d.len() ==> #[trigger] command[i] == '0'
        }),
{
    reveal_strlit("FA");
    reveal_strlit(";");
    number::zeros_fill_the_width(hz as nat, 11);
    let command = frequency_command(hz);
    let d = number::decimal(hz as nat);
    let z = number::zero_padded(hz as nat, 11);
    let from = z.len() - d.len();
    assert(command.subrange(from + 2, z.len() as int + 2) =~= z.skip(from));
    assert forall|i: int| 2 <= i < from + 2 implies #[trigger] command[i] == '0' by {
        assert(command[i] == z[i - 2]);
    }
}

/// A client that keys the transmitter, with a number other than zero, or releases it, with any other
/// word, has the radio told at once, then it is noted, and then the client is told. Without a word it
/// is refused.
pub proof fn transmitter_is_keyed(vfo_mode: bool, words: Seq<Seq<char>>, freq: u64, tx: bool)
    requires
        verb(words[0]) == Verb::SetPtt,
    ensures
        ({
            let answer = outcome(vfo_mode, words, freq, tx);
            let n = number::signed(words[1]);
            &&& words.len() < 2 ==> answer == OutcomeView::Actions(
                seq![RigView::Reply("RPRT -1\n"@)],
            )
            &&& words.len() >= 2 && n is Some && n != Some(0int) ==> answer == OutcomeView::Actions(
                seq![
                    RigView::StartTransmit,
                    RigView::SetTransmit(true),
                    RigView::Reply("RPRT 0\n"@),
                ],
            )
            &&& words.len() >= 2 && (n is None || n == Some(0int)) ==> answer
                == OutcomeView::Actions(
                seq![
                    RigView::EnableStreaming,
                    RigView::SetTransmit(false),
                    RigView::Reply("RPRT 0\n"@),
                ],
            )
        }),
{
}

/// The log says of a line what stands in it: the line without the blank text around it, how many
/// words it has, and each word under its place in the line. Of a blank line it says nothing.
pub proof fn log_says_what_was_said(line: Seq<char>, i: int)
    ensures
        ({
            let log = logged(line);
            let words = line_words(line);
            let indent = seq![' ', ' '];
            &&& text::trimmed(line).len() == 0 ==> log.len() == 0
            &&& text::trimmed(line).len() > 0 ==> {
                &&& log.len() == words.len() + 2
                &&& log[0] == text::trimmed(line)
                &&& log[1] == indent + number::decimal(words.len())
                &&& 0 <= i < words.len() ==> log[i + 2] == indent + indent + number::decimal(
                    i as nat,
                ) + seq![' ', '=', '>', ' '] + words[i]
            }
        }),
{
    reveal_strlit("  ");
    reveal_strlit("    ");
    reveal_strlit(" => ");
    assert("  "@ =~= seq![' ', ' ']);
    assert("    "@ =~= seq![' ', ' '] + seq![' ', ' ']);
    assert(" => "@ =~= seq![' ', '=', '>', ' ']);
}

/// The process that holds the port is ended unless it is this one: it is named as it was listed,
/// without the blank text around it.
pub proof fn another_holder_is_named(
    before: Seq<char>,
    pid: Seq<char>,
    after: Seq<char>,
    own_pid: u32,
)
    requires
        text::blank(before),
        text::blank(after),
        pid.len() > 0,
        !text::is_white_space(pid[0]),
        !text::is_white_space(pid.last()),
    ensures
        foreign_holder(before + pid + after, own_pid) == (if pid == number::decimal(
            own_pid as nat,
        ) {
            None
        } else {
            Some(pid)
        }),
        foreign_holder(before, own_pid) == Some(Seq::<char>::empty()),
{
    text::middle_is_left(before, pid, after);
    text::nothing_is_left_of_blank_text(before);
    number::decimal_reads_back(own_pid as nat);
    assert(text::trimmed(before) =~= Seq::empty());
}

/// What a line comes to, and what is to be done for a client, is looked at as it stands, one by one.
pub proof fn outcomes_are_what_is_there(
    action: RigAction,
    actions: Seq<RigAction>,
    result: LineOutcome,
)
    ensures
        match action {
            RigAction::SetFrequency(hz) => action@ == RigView::SetFrequency(hz),
            RigAction::Queue(command) => action@ == RigView::Queue(command@),
            RigAction::StartTransmit => action@ == RigView::StartTransmit,
            RigAction::EnableStreaming => action@ == RigView::EnableStreaming,
            RigAction::SetTransmit(on) => action@ == RigView::SetTransmit(on),
            RigAction::Reply(reply) => action@ == RigView::Reply(reply@),
            RigAction::Close => action@ == RigView::Close,
        },
        match result {
            LineOutcome::Actions(actions) => result@ == OutcomeView::Actions(rig_views(actions@)),
            LineOutcome::Decimal(word) => result@ == OutcomeView::Decimal(word@),
        },
        rig_views(actions).len() == actions.len(),
        forall|i: int| 0 <= i < actions.len() ==> #[trigger] rig_views(actions)[i] == actions[i]@,
{
}

/// From the client to the radio: the line that sets a frequency leaves one command in the queue, and
/// when the queue is sent, whatever waits before it and after it, that command is written to the
/// radio, which hears it as the frequency that the client named.
pub proof fn frequency_reaches_the_radio(
    vfo_mode: bool,
    line: Seq<char>,
    freq: u64,
    tx: bool,
    hz: u64,
    before: Seq<Seq<u8>>,
    after: Seq<Seq<u8>>,
    results: Seq<bool>,
)
    requires
        verb(line_words(line)[0]) == Verb::SetFrequency,
        !vfo_mode && line_words(line).len() == 2 || vfo_mode && line_words(line).len() == 3
            && line_words(line)[1] == "VFOA"@,
        number::unsigned(line_words(line).last(), 18446744073709551615) == Some(hz as nat),
        results.len() >= before.len() + after.len() + 2,
    ensures
        line_outcome(vfo_mode, Some(line), freq, tx) matches OutcomeView::Actions(actions) && {
            &&& actions[1] matches RigView::Queue(command) && {
                let queue = before.push(command) + after;
                let done = crate::trusdx::performed(
                    crate::trusdx::RunState::start(crate::trusdx::drain_steps(queue)),
                    results,
                );
                &&& done[before.len() as int] == crate::trusdx::OpView::WriteAll(command)
                &&& steps(RxState::idle(), command) == (
                    RxState::idle(),
                    seq![RxEventView::Frequency(hz), RxEventView::SendPending],
                )
            }
        },
{
    any_line_is_obeyed(vfo_mode, line, freq, tx);
    frequency_is_set(vfo_mode, line_words(line), freq, tx, hz);
    let command = text::ascii(frequency_command(hz));
    let queue = before.push(command) + after;
    crate::trusdx::waiting_commands_reach_the_line(queue, results, before.len() as int);
    assert(queue[before.len() as int] == command);
}

} // verus!
