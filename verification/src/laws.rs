//! What holds across the parts of the bridge: of commands and the replies that echo them, and of
//! what a client of the rigctl server is told about what clients have set.

use vstd::prelude::*;

use crate::audio::{line_bytes, line_bytes_keep_order};
use crate::bridge::{
    answered, heard_in, what_is_heard_is_handed_on, what_is_recorded_is_sent, ActionView,
    BridgeState, EventView, Phase,
};
use crate::demux::{
    as_chars, audio, reply_is_reported, reported, steps, whole_frame_is_played, Mode, RxEventView,
    RxState, SEMICOLON,
};
use crate::number;
use crate::rigctl::{
    asks_rightly, done, flag, frequency_actions, frequency_command, frequency_word, line_outcome,
    line_vfo_mode, line_words, next_vfo_mode, outcome, refused, switched_on, verb, OutcomeView,
    RigView, Verb,
};
use crate::text;
use crate::trusdx::mode_command;

verus! {

/// ASCII text is UTF-8.
proof fn ascii_is_utf8(s: Seq<char>)
    requires
        vstd::utf8::is_ascii_chars(s),
    ensures
        vstd::utf8::valid_utf8(text::ascii(s)),
{
    vstd::utf8::is_ascii_chars_encode_utf8(s);
    assert(vstd::utf8::encode_utf8(s) =~= text::ascii(s));
    vstd::utf8::encode_utf8_valid_utf8(s);
}

/// The command that tunes the radio, sent back as the radio echoes it, is heard as the very
/// frequency it sets, whichever that is; and afterwards nothing is left over.
pub proof fn tuning_is_heard_back(hz: u64)
    ensures
        steps(RxState::idle(), text::ascii(frequency_command(hz))) == (
            RxState::idle(),
            seq![RxEventView::Frequency(hz), RxEventView::SendPending],
        ),
{
    reveal_strlit("FA");
    reveal_strlit(";");
    let d = number::zero_padded(hz as nat, 11);
    let command = frequency_command(hz);
    let sent = text::ascii(command);
    let told = sent.drop_last();
    number::zero_padded_reads_back(hz as nat, 11);
    assert(forall|i: int| 0 <= i < d.len() ==> number::is_digit(#[trigger] d[i]));
    assert forall|i: int| 0 <= i < d.len() implies #[trigger] command[i + 2] == d[i] by {}
    assert forall|i: int| 2 <= i < command.len() - 1 implies number::is_digit(
        #[trigger] command[i],
    ) by {
        assert(command[(i - 2) + 2] == d[i - 2]);
    }
    assert(command[0] == 'F' && command[1] == 'A' && command.last() == ';');
    assert(vstd::utf8::is_ascii_chars(command));
    ascii_is_utf8(command);
    assert(told.push(SEMICOLON) =~= sent);
    assert(!told.contains(SEMICOLON)) by {
        assert forall|i: int| 0 <= i < told.len() implies #[trigger] told[i] != SEMICOLON by {
            assert(told[i] == command[i] as u8);
        }
    }
    reply_is_reported(told);
    let tail = as_chars(sent.skip(2));
    assert(tail =~= d + seq![';']) by {
        assert forall|i: int| 0 <= i < d.len() implies #[trigger] tail[i] == d[i] by {
            assert(tail[i] == command[i + 2] as u8 as char);
        }
    }
    number::leading_digits_stop(d, seq![';']);
    assert(reported(sent) =~= seq![RxEventView::Frequency(hz)]);
    assert(reported(sent).push(RxEventView::SendPending) =~= seq![
        RxEventView::Frequency(hz),
        RxEventView::SendPending,
    ]);
}

/// Audio made for the serial line never ends the frame it is sent in: between `US` and a semicolon
/// it is heard back whole, whatever the samples were.
pub proof fn sent_audio_is_heard_whole(samples: Seq<i16>)
    ensures
        ({
            let sent = seq!['U' as u8, 'S' as u8] + line_bytes(samples) + seq![SEMICOLON];
            let (end, events) = steps(RxState::idle(), sent);
            end == RxState::idle() && audio(events) == line_bytes(samples)
        }),
{
    let bytes = line_bytes(samples);
    assert forall|i: int| 0 <= i < bytes.len() implies #[trigger] bytes[i] != SEMICOLON by {
        line_bytes_keep_order(samples[i], samples[i]);
    }
    whole_frame_is_played(bytes);
}

/// The mode that the number `mode` asks the radio for.
pub open spec fn mode_numbered(mode: u8) -> Mode {
    if mode == 1 {
        Mode::Lsb
    } else if mode == 3 {
        Mode::Cw
    } else if mode == 4 {
        Mode::Fm
    } else if mode == 5 {
        Mode::Am
    } else {
        Mode::Usb
    }
}

/// The command that sets a mode, sent back as the radio echoes it, is heard as that mode.
pub proof fn mode_is_heard_back(mode: u8)
    ensures
        steps(RxState::idle(), text::ascii(mode_command(mode))) == (
            RxState::idle(),
            seq![RxEventView::ModeChange(mode_numbered(mode)), RxEventView::SendPending],
        ),
{
    reveal_strlit("MD0;");
    reveal_strlit("MD1;");
    reveal_strlit("MD2;");
    reveal_strlit("MD3;");
    reveal_strlit("MD4;");
    reveal_strlit("MD5;");
    let sent = text::ascii(mode_command(mode));
    let told = sent.drop_last();
    assert(told.push(SEMICOLON) =~= sent);
    assert(!told.contains(SEMICOLON)) by {
        assert forall|i: int| 0 <= i < told.len() implies #[trigger] told[i] != SEMICOLON by {
            assert(told[i] == mode_command(mode)[i] as u8);
        }
    }
    reply_is_reported(told);
    assert(reported(sent).push(RxEventView::SendPending) =~= seq![
        RxEventView::ModeChange(mode_numbered(mode)),
        RxEventView::SendPending,
    ]);
}

/// Whether `w` is a word: not empty, and without white space.
pub open spec fn is_word(w: Seq<char>) -> bool {
    w.len() > 0 && forall|i: int| 0 <= i < w.len() ==> !text::is_white_space(#[trigger] w[i])
}

/// Whether `words` are words, and at least one.
pub open spec fn are_words(words: Seq<Seq<char>>) -> bool {
    words.len() > 0 && forall|i: int| 0 <= i < words.len() ==> is_word(#[trigger] words[i])
}

/// The words with a space between each two.
pub open spec fn spaced(words: Seq<Seq<char>>) -> Seq<char>
    decreases words.len(),
{
    if words.len() == 0 {
        Seq::empty()
    } else if words.len() == 1 {
        words[0]
    } else {
        words[0] + seq![' '] + spaced(words.skip(1))
    }
}

/// The line that a client sends to say `words`.
pub open spec fn line_of(words: Seq<Seq<char>>) -> Seq<char> {
    spaced(words).push('\n')
}

/// The first of the words ends where white space stands.
proof fn word_then_space(w: Seq<char>, rest: Seq<char>)
    requires
        is_word(w),
        rest.len() > 0 ==> text::is_ascii_white_space(rest[0]),
    ensures
        text::ascii_word_len(w + rest) == w.len(),
        text::ascii_words(w + rest) == seq![w] + text::ascii_words(rest),
{
    word_len_is(w, rest);
    let s = w + rest;
    assert(s[0] == w[0]);
    assert(s.take(w.len() as int) =~= w);
    assert(s.skip(w.len() as int) =~= rest);
}

proof fn word_len_is(w: Seq<char>, rest: Seq<char>)
    requires
        forall|i: int| 0 <= i < w.len() ==> !text::is_white_space(#[trigger] w[i]),
        rest.len() > 0 ==> text::is_ascii_white_space(rest[0]),
    ensures
        text::ascii_word_len(w + rest) == w.len(),
    decreases w.len(),
{
    let s = w + rest;
    if w.len() > 0 {
        let tail = w.skip(1);
        assert forall|i: int| 0 <= i < tail.len() implies !text::is_white_space(
            #[trigger] tail[i],
        ) by {
            assert(tail[i] == w[i + 1]);
        }
        word_len_is(tail, rest);
        assert(s.skip(1) =~= tail + rest);
        assert(s[0] == w[0]);
    } else {
        assert(s =~= rest);
    }
}

/// Spaced words start and end with something other than white space, and are the words they are
/// made of.
proof fn spaced_words(words: Seq<Seq<char>>)
    requires
        are_words(words),
    ensures
        spaced(words).len() > 0,
        !text::is_white_space(spaced(words)[0]),
        !text::is_white_space(spaced(words).last()),
        text::ascii_words(spaced(words)) == words,
    decreases words.len(),
{
    let w = words[0];
    assert(is_word(w));
    if words.len() == 1 {
        let none = Seq::<char>::empty();
        word_then_space(w, none);
        assert(w + none =~= w);
        assert(text::ascii_words(none) =~= Seq::empty());
        assert(seq![w] + text::ascii_words(none) =~= words);
    } else {
        let others = words.skip(1);
        assert(are_words(others)) by {
            assert forall|i: int| 0 <= i < others.len() implies is_word(#[trigger] others[i]) by {
                assert(others[i] == words[i + 1]);
            }
        }
        spaced_words(others);
        word_before_words(w, spaced(others));
        assert(seq![w] + others =~= words);
    }
}

/// A word, a space, and a text that starts and ends with something other than white space.
proof fn word_before_words(w: Seq<char>, rest: Seq<char>)
    requires
        is_word(w),
        rest.len() > 0,
        !text::is_white_space(rest.last()),
    ensures
        ({
            let s = w + seq![' '] + rest;
            &&& s.len() > 0
            &&& !text::is_white_space(s[0])
            &&& !text::is_white_space(s.last())
            &&& text::ascii_words(s) == seq![w] + text::ascii_words(rest)
        }),
{
    let s = w + seq![' '] + rest;
    let tail = seq![' '] + rest;
    assert(s =~= w + tail);
    word_then_space(w, tail);
    assert(tail.skip(1) =~= rest);
    assert(text::ascii_words(tail) == text::ascii_words(tail.skip(1)));
    assert(s[0] == w[0]);
    assert(s.last() == rest.last());
}

/// A line is read as the words it was written with.
pub proof fn line_is_its_words(words: Seq<Seq<char>>)
    requires
        are_words(words),
    ensures
        line_words(line_of(words)) == words,
        text::trimmed(line_of(words)).len() > 0,
{
    spaced_words(words);
    let s = spaced(words);
    let line = line_of(words);
    assert(line[0] == s[0]);
    assert(line.drop_last() =~= s);
    reveal_with_fuel(text::trim_end, 2);
    assert(text::trimmed(line) == s);
}

/// So what a client says in words is obeyed as those words, and in no other way.
pub proof fn line_is_obeyed(vfo_mode: bool, words: Seq<Seq<char>>, freq: u64, tx: bool)
    requires
        are_words(words),
    ensures
        line_outcome(vfo_mode, Some(line_of(words)), freq, tx) == outcome(
            vfo_mode,
            words,
            freq,
            tx,
        ),
        line_vfo_mode(vfo_mode, Some(line_of(words))) == next_vfo_mode(vfo_mode, words),
{
    line_is_its_words(words);
}

/// However a client spaces a line, and whatever else it holds: if there are words in it, it is
/// obeyed as those words.
pub proof fn any_line_is_obeyed(vfo_mode: bool, line: Seq<char>, freq: u64, tx: bool)
    requires
        line_words(line).len() > 0,
    ensures
        line_outcome(vfo_mode, Some(line), freq, tx) == outcome(
            vfo_mode,
            line_words(line),
            freq,
            tx,
        ),
        line_vfo_mode(vfo_mode, Some(line)) == next_vfo_mode(vfo_mode, line_words(line)),
{
    let t = text::trimmed(line);
    assert(t.len() > 0);
    if line.len() == 0 {
        assert(text::trim_start(line).len() == 0);
    }
}

/// Written numbers are words.
pub proof fn decimal_is_word(n: nat)
    ensures
        is_word(number::decimal(n)),
{
    number::decimal_reads_back(n);
    let d = number::decimal(n);
    assert forall|i: int| 0 <= i < d.len() implies !text::is_white_space(#[trigger] d[i]) by {
        assert(number::is_digit(d[i]));
    }
}

/// The words that set the frequency `hz`, naming the VFO where that is asked for.
pub open spec fn set_frequency_words(vfo_mode: bool, hz: u64) -> Seq<Seq<char>> {
    if vfo_mode {
        seq!["F"@, "VFOA"@, number::decimal(hz as nat)]
    } else {
        seq!["F"@, number::decimal(hz as nat)]
    }
}

/// The words that ask for the frequency, naming the VFO where that is asked for.
pub open spec fn get_frequency_words(vfo_mode: bool) -> Seq<Seq<char>> {
    if vfo_mode {
        seq!["f"@, "VFOA"@]
    } else {
        seq!["f"@]
    }
}

/// A client that sets a frequency has it noted and queued for the radio, and is told so; a client
/// that asks for it is then told that frequency. So it is for every frequency, whether commands
/// name the VFO or not.
pub proof fn frequency_set_is_frequency_got(vfo_mode: bool, hz: u64, freq: u64, tx: bool)
    ensures
        line_outcome(vfo_mode, Some(line_of(set_frequency_words(vfo_mode, hz))), freq, tx)
            == OutcomeView::Actions(frequency_actions(Some(hz))),
        frequency_actions(Some(hz)).first() == RigView::SetFrequency(hz),
        line_vfo_mode(vfo_mode, Some(line_of(set_frequency_words(vfo_mode, hz)))) == vfo_mode,
        line_outcome(vfo_mode, Some(line_of(get_frequency_words(vfo_mode))), hz, tx)
            == OutcomeView::Actions(
            seq![RigView::Reply(number::decimal(hz as nat) + "\n"@)],
        ),
{
    names_are_read();
    reveal_strlit("F");
    reveal_strlit("f");
    reveal_strlit("VFOA");
    number::decimal_reads_back(hz as nat);
    decimal_is_word(hz as nat);
    assert(is_word("F"@));
    assert(is_word("f"@));
    assert(is_word("VFOA"@));
    let setting = set_frequency_words(vfo_mode, hz);
    let getting = get_frequency_words(vfo_mode);
    assert(are_words(setting));
    assert(are_words(getting));
    line_is_obeyed(vfo_mode, setting, freq, tx);
    line_is_obeyed(vfo_mode, getting, hz, tx);
    assert(number::unsigned(number::decimal(hz as nat), u64::MAX as nat) == Some(hz as nat));
}

/// So it is under every name of the two commands: whatever words set the frequency `hz`, as it is
/// written in decimal, and whatever words ask for it.
pub proof fn frequency_set_by_any_name_is_got(
    vfo_mode: bool,
    setting: Seq<Seq<char>>,
    getting: Seq<Seq<char>>,
    hz: u64,
    freq: u64,
    tx: bool,
)
    requires
        verb(setting[0]) == Verb::SetFrequency,
        frequency_word(vfo_mode, setting) == Some(number::decimal(hz as nat)),
        verb(getting[0]) == Verb::GetFrequency,
        asks_rightly(vfo_mode, getting),
    ensures
        outcome(vfo_mode, setting, freq, tx) == OutcomeView::Actions(frequency_actions(Some(hz))),
        frequency_actions(Some(hz)).first() == RigView::SetFrequency(hz),
        next_vfo_mode(vfo_mode, setting) == vfo_mode,
        outcome(vfo_mode, getting, hz, tx) == OutcomeView::Actions(
            seq![RigView::Reply(number::decimal(hz as nat) + "\n"@)],
        ),
        next_vfo_mode(vfo_mode, getting) == vfo_mode,
{
    number::decimal_reads_back(hz as nat);
}

/// And it is so of the lines that say it, however they are spaced, and in every spelling of the
/// number: with a plus sign or with zeros in front it is the same frequency.
pub proof fn frequency_in_any_spelling_is_got(
    vfo_mode: bool,
    setting: Seq<char>,
    getting: Seq<char>,
    hz: u64,
    freq: u64,
    tx: bool,
)
    requires
        verb(line_words(setting)[0]) == Verb::SetFrequency,
        frequency_word(vfo_mode, line_words(setting)) matches Some(w) && number::unsigned(
            w,
            u64::MAX as nat,
        ) == Some(hz as nat),
        verb(line_words(getting)[0]) == Verb::GetFrequency,
        asks_rightly(vfo_mode, line_words(getting)),
    ensures
        line_outcome(vfo_mode, Some(setting), freq, tx) == OutcomeView::Actions(
            frequency_actions(Some(hz)),
        ),
        line_vfo_mode(vfo_mode, Some(setting)) == vfo_mode,
        line_outcome(vfo_mode, Some(getting), hz, tx) == OutcomeView::Actions(
            seq![RigView::Reply(number::decimal(hz as nat) + "\n"@)],
        ),
        line_vfo_mode(vfo_mode, Some(getting)) == vfo_mode,
{
    any_line_is_obeyed(vfo_mode, setting, freq, tx);
    any_line_is_obeyed(vfo_mode, getting, hz, tx);
}

/// Every command is read as what it is, under each of its names.
pub proof fn names_are_read()
    ensures
        verb("\\set_vfo_opt"@) == Verb::SetVfoOption,
        verb("\\chk_vfo"@) == Verb::CheckVfo,
        verb("\\get_powerstat"@) == Verb::GetPowerState,
        verb("\\dump_state"@) == Verb::DumpState,
        verb("\\get_freq"@) == Verb::GetFrequency,
        verb("f"@) == Verb::GetFrequency,
        verb("\\set_freq"@) == Verb::SetFrequency,
        verb("F"@) == Verb::SetFrequency,
        verb("\\dump_caps"@) == Verb::DumpCapabilities,
        verb("m"@) == Verb::GetMode,
        verb("M"@) == Verb::SetMode,
        verb("v"@) == Verb::GetVfo,
        verb("V"@) == Verb::SetVfo,
        verb("t"@) == Verb::GetPtt,
        verb("\\get_ptt"@) == Verb::GetPtt,
        verb("T"@) == Verb::SetPtt,
        verb("\\set_ptt"@) == Verb::SetPtt,
        verb("q"@) == Verb::Quit,
{
    reveal_strlit("F");
    reveal_strlit("f");
    reveal_strlit("T");
    reveal_strlit("t");
    reveal_strlit("m");
    reveal_strlit("M");
    reveal_strlit("v");
    reveal_strlit("V");
    reveal_strlit("q");
    reveal_strlit("\\set_vfo_opt");
    reveal_strlit("\\chk_vfo");
    reveal_strlit("\\get_powerstat");
    reveal_strlit("\\dump_state");
    reveal_strlit("\\get_freq");
    reveal_strlit("\\set_freq");
    reveal_strlit("\\dump_caps");
    reveal_strlit("\\get_ptt");
    reveal_strlit("\\set_ptt");
    assert("F"@[0] == 'F' && "f"@[0] == 'f' && "T"@[0] == 'T' && "t"@[0] == 't');
    assert("m"@[0] == 'm' && "M"@[0] == 'M' && "v"@[0] == 'v' && "V"@[0] == 'V');
    assert("q"@[0] == 'q');
    assert("\\set_vfo_opt"@.len() == 12);
    assert("\\chk_vfo"@.len() == 8);
    assert("\\get_powerstat"@.len() == 14);
    assert("\\dump_state"@.len() == 11);
    assert("\\get_freq"@.len() == 9);
    assert("\\set_freq"@.len() == 9);
    assert("\\get_freq"@[1] == 'g' && "\\set_freq"@[1] == 's');
    assert("\\dump_caps"@.len() == 10);
    assert("\\get_ptt"@.len() == 8 && "\\set_ptt"@.len() == 8);
    assert("\\chk_vfo"@[1] == 'c' && "\\get_ptt"@[1] == 'g' && "\\set_ptt"@[1] == 's');
}

/// A client that keys the transmitter, or releases it, has that noted and told to the radio; a
/// client that asks for its state is then told that state.
pub proof fn keying_is_told(vfo_mode: bool, word: Seq<char>, freq: u64, tx: bool)
    requires
        is_word(word),
    ensures
        ({
            let on = number::signed(word) matches Some(n) && n != 0;
            &&& line_outcome(vfo_mode, Some(line_of(seq!["T"@, word])), freq, tx)
                == OutcomeView::Actions(
                seq![
                    if on {
                        RigView::StartTransmit
                    } else {
                        RigView::EnableStreaming
                    },
                    RigView::SetTransmit(on),
                    RigView::Reply("RPRT 0\n"@),
                ],
            )
            &&& line_outcome(vfo_mode, Some(line_of(seq!["t"@])), freq, on)
                == OutcomeView::Actions(flag(on))
        }),
{
    names_are_read();
    reveal_strlit("T");
    reveal_strlit("t");
    assert(is_word("T"@));
    assert(is_word("t"@));
    let setting = seq!["T"@, word];
    let getting = seq!["t"@];
    assert(are_words(setting));
    assert(are_words(getting));
    let on = switched_on(setting, 1);
    line_is_obeyed(vfo_mode, setting, freq, tx);
    line_is_obeyed(vfo_mode, getting, freq, on);
    assert(setting[1] == word);
}

/// So it is under every name of the two commands, however the lines are spaced and whatever follows
/// the word that keys or releases. Without that word the command is refused.
pub proof fn keying_by_any_name_is_told(
    vfo_mode: bool,
    setting: Seq<char>,
    getting: Seq<char>,
    freq: u64,
    tx: bool,
)
    requires
        line_words(setting).len() > 0,
        verb(line_words(setting)[0]) == Verb::SetPtt,
        line_words(getting).len() > 0,
        verb(line_words(getting)[0]) == Verb::GetPtt,
    ensures
        ({
            let words = line_words(setting);
            let on = switched_on(words, 1);
            &&& line_outcome(vfo_mode, Some(setting), freq, tx) == OutcomeView::Actions(
                if words.len() >= 2 {
                    seq![
                        if on {
                            RigView::StartTransmit
                        } else {
                            RigView::EnableStreaming
                        },
                        RigView::SetTransmit(on),
                        RigView::Reply("RPRT 0\n"@),
                    ]
                } else {
                    refused()
                },
            )
            &&& line_vfo_mode(vfo_mode, Some(setting)) == vfo_mode
            &&& line_outcome(vfo_mode, Some(getting), freq, on) == OutcomeView::Actions(flag(on))
            &&& line_vfo_mode(vfo_mode, Some(getting)) == vfo_mode
        }),
{
    any_line_is_obeyed(vfo_mode, setting, freq, tx);
    any_line_is_obeyed(vfo_mode, getting, freq, switched_on(line_words(setting), 1));
}

/// A client that says whether commands name the VFO is told so when it asks.
pub proof fn vfo_option_is_told(vfo_mode: bool, word: Seq<char>, freq: u64, tx: bool)
    requires
        is_word(word),
    ensures
        ({
            let on = number::signed(word) matches Some(n) && n != 0;
            let line = line_of(seq!["\\set_vfo_opt"@, word]);
            &&& line_outcome(vfo_mode, Some(line), freq, tx) == OutcomeView::Actions(done())
            &&& line_vfo_mode(vfo_mode, Some(line)) == on
            &&& line_outcome(on, Some(line_of(seq!["\\chk_vfo"@])), freq, tx)
                == OutcomeView::Actions(flag(on))
        }),
{
    names_are_read();
    reveal_strlit("\\set_vfo_opt");
    reveal_strlit("\\chk_vfo");
    assert(is_word("\\set_vfo_opt"@));
    assert(is_word("\\chk_vfo"@));
    let setting = seq!["\\set_vfo_opt"@, word];
    let getting = seq!["\\chk_vfo"@];
    assert(are_words(setting));
    assert(are_words(getting));
    let on = switched_on(setting, 1);
    line_is_obeyed(vfo_mode, setting, freq, tx);
    line_is_obeyed(on, getting, freq, tx);
    assert(setting[1] == word);
}

/// So it is however many words follow, none included: without any, commands do not name the VFO.
pub proof fn vfo_option_in_any_words_is_told(
    vfo_mode: bool,
    setting: Seq<char>,
    getting: Seq<char>,
    freq: u64,
    tx: bool,
)
    requires
        line_words(setting).len() > 0,
        verb(line_words(setting)[0]) == Verb::SetVfoOption,
        line_words(getting).len() > 0,
        verb(line_words(getting)[0]) == Verb::CheckVfo,
    ensures
        ({
            let on = switched_on(line_words(setting), 1);
            &&& line_outcome(vfo_mode, Some(setting), freq, tx) == OutcomeView::Actions(done())
            &&& line_vfo_mode(vfo_mode, Some(setting)) == on
            &&& line_words(setting).len() == 1 ==> !on
            &&& line_outcome(on, Some(getting), freq, tx) == OutcomeView::Actions(flag(on))
            &&& line_vfo_mode(on, Some(getting)) == on
        }),
{
    any_line_is_obeyed(vfo_mode, setting, freq, tx);
    any_line_is_obeyed(switched_on(line_words(setting), 1), getting, freq, tx);
}

/// A command that no one knows is refused, and a refused command changes nothing: it notes no
/// frequency and no state of the transmitter, tells the radio nothing, and leaves it as it was
/// whether commands name the VFO.
pub proof fn refusal_changes_nothing(vfo_mode: bool, words: Seq<Seq<char>>, freq: u64, tx: bool)
    ensures
        verb(words[0]) == Verb::Unknown ==> outcome(vfo_mode, words, freq, tx)
            == OutcomeView::Actions(refused()),
        outcome(vfo_mode, words, freq, tx) == OutcomeView::Actions(refused()) ==> next_vfo_mode(
            vfo_mode,
            words,
        ) == vfo_mode,
        refused().len() == 1 && refused()[0] is Reply,
{
    reveal_strlit("RPRT 0\n");
    reveal_strlit("RPRT -1\n");
    assert("RPRT 0\n"@.len() == 7);
    assert("RPRT -1\n"@.len() == 8);
    if verb(words[0]) == Verb::SetVfoOption {
        assert(done()[0] != refused()[0]);
    }
}

/// What a client does not ask for does not happen: only a command that sets the frequency notes
/// one, only one that keys the transmitter notes that or speaks to the radio at once, and only the
/// end of the conversation ends it.
pub proof fn commands_do_what_they_say(
    vfo_mode: bool,
    words: Seq<Seq<char>>,
    freq: u64,
    tx: bool,
    actions: Seq<RigView>,
    i: int,
)
    requires
        outcome(vfo_mode, words, freq, tx) == OutcomeView::Actions(actions),
        0 <= i < actions.len(),
    ensures
        actions[i] is SetFrequency ==> verb(words[0]) == Verb::SetFrequency,
        actions[i] is SetTransmit || actions[i] is StartTransmit || actions[i] is EnableStreaming
            ==> verb(words[0]) == Verb::SetPtt,
        actions[i] is Queue ==> verb(words[0]) == Verb::SetFrequency || verb(words[0])
            == Verb::SetMode,
        actions[i] is Close ==> verb(words[0]) == Verb::Quit,
{
}

/// How many answers there are in `actions`.
pub open spec fn answers(actions: Seq<RigView>) -> nat
    decreases actions.len(),
{
    if actions.len() == 0 {
        0
    } else {
        answers(actions.drop_last()) + if actions.last() is Reply {
            1nat
        } else {
            0
        }
    }
}

/// A client gets one answer to every command, save to one that sets a frequency which cannot be
/// read: to that it gets none.
pub proof fn every_command_is_answered_once(
    vfo_mode: bool,
    words: Seq<Seq<char>>,
    freq: u64,
    tx: bool,
    hz: Option<u64>,
)
    ensures
        outcome(vfo_mode, words, freq, tx) matches OutcomeView::Actions(actions) ==> answers(
            actions,
        ) == 1,
        answers(frequency_actions(hz)) == (if hz is Some {
            1nat
        } else {
            0
        }),
{
    reveal_with_fuel(answers, 4);
    if let Some(hz) = hz {
        let a = frequency_actions(Some(hz));
        assert(a.drop_last() =~= seq![a[0], a[1]]);
        assert(seq![a[0], a[1]].drop_last() =~= seq![a[0]]);
        assert(seq![a[0]].drop_last() =~= Seq::empty());
    }
    if let OutcomeView::Actions(a) = outcome(vfo_mode, words, freq, tx) {
        if a.len() == 1 {
            assert(a.drop_last() =~= Seq::empty());
        } else if a.len() == 2 {
            assert(a.drop_last() =~= seq![a[0]]);
            assert(seq![a[0]].drop_last() =~= Seq::empty());
        } else {
            assert(a.len() == 3);
            assert(a.drop_last() =~= seq![a[0], a[1]]);
            assert(seq![a[0], a[1]].drop_last() =~= seq![a[0]]);
            assert(seq![a[0]].drop_last() =~= Seq::empty());
        }
    }
}

/// What the radio reports of its frequency, in answer to a question or by itself, reaches whoever
/// follows the bridge: a reply with the frequency `hz` is handed on as that frequency, the line is
/// free, and the bridge goes on.
pub proof fn reported_frequency_is_handed_on(s: BridgeState, hz: u64)
    requires
        s.phase == Phase::Receive,
        s.rx == RxState::idle(),
    ensures
        answered(s, EventView::Received(text::ascii(frequency_command(hz)))) == (
            BridgeState { phase: Phase::Switches, prev_tx: s.prev_tx, rx: RxState::idle() },
            seq![
                ActionView::Rx(RxEventView::Frequency(hz)),
                ActionView::Rx(RxEventView::SendPending),
                ActionView::AskSwitches,
            ],
        ),
{
    let bytes = text::ascii(frequency_command(hz));
    tuning_is_heard_back(hz);
    what_is_heard_is_handed_on(s, bytes);
    assert(answered(s, EventView::Received(bytes)).1 =~= seq![
        ActionView::Rx(RxEventView::Frequency(hz)),
        ActionView::Rx(RxEventView::SendPending),
        ActionView::AskSwitches,
    ]);
}

/// And so with the mode.
pub proof fn reported_mode_is_handed_on(s: BridgeState, mode: u8)
    requires
        s.phase == Phase::Receive,
        s.rx == RxState::idle(),
    ensures
        ({
            let heard = if mode == 1 {
                Mode::Lsb
            } else if mode == 3 {
                Mode::Cw
            } else if mode == 4 {
                Mode::Fm
            } else if mode == 5 {
                Mode::Am
            } else {
                Mode::Usb
            };
            answered(s, EventView::Received(text::ascii(mode_command(mode)))) == (
                BridgeState { phase: Phase::Switches, prev_tx: s.prev_tx, rx: RxState::idle() },
                seq![
                    ActionView::Rx(RxEventView::ModeChange(heard)),
                    ActionView::Rx(RxEventView::SendPending),
                    ActionView::AskSwitches,
                ],
            )
        }),
{
    let bytes = text::ascii(mode_command(mode));
    mode_is_heard_back(mode);
    what_is_heard_is_handed_on(s, bytes);
    assert(answered(s, EventView::Received(bytes)).1 =~= seq![
        ActionView::Rx(RxEventView::ModeChange(mode_numbered(mode))),
        ActionView::Rx(RxEventView::SendPending),
        ActionView::AskSwitches,
    ]);
}

/// Audio goes through the bridge whole in both directions: what is recorded and sent, had the radio
/// sent it in a frame, would be played, byte for byte and in order.
pub proof fn audio_goes_through_whole(sending: BridgeState, s: BridgeState, samples: Seq<i16>)
    requires
        sending.phase == Phase::Transmit,
        s.phase == Phase::Receive,
        s.rx == RxState::idle(),
    ensures
        answered(
            sending,
            EventView::Recorded { samples, quiet: false },
        ).1[0] matches ActionView::SendAudio(data) && {
            let frame = seq!['U' as u8, 'S' as u8] + data + seq![';' as u8];
            let (end, actions) = answered(s, EventView::Received(frame));
            &&& data.len() == samples.len()
            &&& audio(heard_in(actions)) == data
            &&& end.rx == RxState::idle()
        },
{
    what_is_recorded_is_sent(sending, samples);
    let sent = answered(sending, EventView::Recorded { samples, quiet: false }).1;
    assert(sent[0] == ActionView::SendAudio(line_bytes(samples)));
    sent_audio_is_heard_whole(samples);
    let data = line_bytes(samples);
    let frame = seq!['U' as u8, 'S' as u8] + data + seq![';' as u8];
    what_is_heard_is_handed_on(s, frame);
    let actions = answered(s, EventView::Received(frame)).1;
    let events = steps(s.rx, frame).1;
    assert(actions.drop_last() =~= events.map_values(|e: RxEventView| ActionView::Rx(e)));
    handed_on_is_heard(events, actions.drop_last());
}

proof fn handed_on_is_heard(events: Seq<RxEventView>, actions: Seq<ActionView>)
    requires
        actions.len() == events.len(),
        forall|i: int|
            0 <= i < events.len() ==> #[trigger] actions[i] == ActionView::Rx(events[i]),
    ensures
        heard_in(actions) == events,
    decreases events.len(),
{
    if events.len() > 0 {
        let front = actions.drop_last();
        assert forall|i: int| 0 <= i < events.len() - 1 implies #[trigger] front[i]
            == ActionView::Rx(events.drop_last()[i]) by {
            assert(actions[i] == ActionView::Rx(events[i]));
        }
        handed_on_is_heard(events.drop_last(), front);
        assert(actions[actions.len() - 1] == ActionView::Rx(events[events.len() - 1]));
        assert(heard_in(actions) =~= events);
    } else {
        assert(heard_in(actions) =~= events);
    }
}

} // verus!
