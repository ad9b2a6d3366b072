//! The server that other programs control the radio through, in the words of rigctl.

use vstd::prelude::*;
use vstd::utf8::{decode_utf8, valid_utf8};

use crate::number;
use crate::text;
use crate::utf8;

verus! {

/// Something to do for a client.
#[derive(Debug, PartialEq, Eq)]
pub enum RigAction {
    /// Note this frequency in hertz.
    SetFrequency(u64),
    /// Queue this CAT command for the radio.
    Queue(Vec<u8>),
    /// Tell the radio to transmit.
    StartTransmit,
    /// Tell the radio to receive and to stream audio with its speaker off.
    EnableStreaming,
    /// Note whether the radio transmits.
    SetTransmit(bool),
    /// Write this to the client.
    Reply(String),
    /// End the connection.
    Close,
}

/// A `RigAction` with its data as sequences.
pub enum RigView {
    SetFrequency(u64),
    Queue(Seq<u8>),
    StartTransmit,
    EnableStreaming,
    SetTransmit(bool),
    Reply(Seq<char>),
    Close,
}

impl View for RigAction {
    type V = RigView;

    open spec fn view(&self) -> RigView {
        match self {
            RigAction::SetFrequency(hz) => RigView::SetFrequency(*hz),
            RigAction::Queue(command) => RigView::Queue(command@),
            RigAction::StartTransmit => RigView::StartTransmit,
            RigAction::EnableStreaming => RigView::EnableStreaming,
            RigAction::SetTransmit(on) => RigView::SetTransmit(*on),
            RigAction::Reply(reply) => RigView::Reply(reply@),
            RigAction::Close => RigView::Close,
        }
    }
}

/// The views of `actions`, in order.
pub open spec fn rig_views(actions: Seq<RigAction>) -> Seq<RigView> {
    actions.map_values(|a: RigAction| a@)
}

/// What a line from a client comes to.
#[derive(Debug, PartialEq, Eq)]
pub enum LineOutcome {
    /// These things are to be done, in order.
    Actions(Vec<RigAction>),
    /// A frequency is to be set that is not written as a whole number. It is to be read as a
    /// decimal fraction and rounded, and the result handed to `set_frequency`.
    Decimal(String),
}

/// A `LineOutcome` with its data as sequences.
pub enum OutcomeView {
    Actions(Seq<RigView>),
    Decimal(Seq<char>),
}

impl View for LineOutcome {
    type V = OutcomeView;

    open spec fn view(&self) -> OutcomeView {
        match self {
            LineOutcome::Actions(actions) => OutcomeView::Actions(rig_views(actions@)),
            LineOutcome::Decimal(word) => OutcomeView::Decimal(word@),
        }
    }
}

/// A command of the protocol.
#[derive(Clone, Copy, Debug, PartialEq, Eq, Structural)]
pub enum Verb {
    SetVfoOption,
    CheckVfo,
    GetPowerState,
    DumpState,
    GetFrequency,
    SetFrequency,
    DumpCapabilities,
    GetMode,
    SetMode,
    GetVfo,
    SetVfo,
    GetPtt,
    SetPtt,
    Quit,
    Unknown,
}

/// The command that the word `w` names.
pub open spec fn verb(w: Seq<char>) -> Verb {
    if w == "\\set_vfo_opt"@ {
        Verb::SetVfoOption
    } else if w == "\\chk_vfo"@ {
        Verb::CheckVfo
    } else if w == "\\get_powerstat"@ {
        Verb::GetPowerState
    } else if w == "\\dump_state"@ {
        Verb::DumpState
    } else if w == "\\get_freq"@ || w == "f"@ {
        Verb::GetFrequency
    } else if w == "\\set_freq"@ || w == "F"@ {
        Verb::SetFrequency
    } else if w == "\\dump_caps"@ {
        Verb::DumpCapabilities
    } else if w == "m"@ {
        Verb::GetMode
    } else if w == "M"@ {
        Verb::SetMode
    } else if w == "v"@ {
        Verb::GetVfo
    } else if w == "V"@ {
        Verb::SetVfo
    } else if w == "t"@ || w == "\\get_ptt"@ {
        Verb::GetPtt
    } else if w == "T"@ || w == "\\set_ptt"@ {
        Verb::SetPtt
    } else if w == "q"@ {
        Verb::Quit
    } else {
        Verb::Unknown
    }
}

/// Whether the word at `i` is there and writes a number other than zero.
pub open spec fn switched_on(words: Seq<Seq<char>>, i: int) -> bool {
    i < words.len() && (number::signed(words[i]) matches Some(n) && n != 0)
}

/// The answer "done".
pub open spec fn done() -> Seq<RigView> {
    seq![RigView::Reply("RPRT 0\n"@)]
}

/// The answer "refused".
pub open spec fn refused() -> Seq<RigView> {
    seq![RigView::Reply("RPRT -1\n"@)]
}

/// The answer "yes" or "no".
pub open spec fn flag(on: bool) -> Seq<RigView> {
    seq![
        RigView::Reply(
            if on {
                "1\n"@
            } else {
                "0\n"@
            },
        ),
    ]
}

/// The CAT command that tunes the radio to `hz`.
pub open spec fn frequency_command(hz: u64) -> Seq<char> {
    "FA"@ + number::zero_padded(hz as nat, 11) + ";"@
}

/// What sets the frequency `hz`: it is noted, the radio is told when it can be, and the client
/// hears that it is done. A frequency that could not be read is passed over in silence.
pub open spec fn frequency_actions(hz: Option<u64>) -> Seq<RigView> {
    match hz {
        Some(hz) => seq![
            RigView::SetFrequency(hz),
            RigView::Queue(text::ascii(frequency_command(hz))),
            RigView::Reply("RPRT 0\n"@),
        ],
        None => Seq::empty(),
    }
}

/// Where the frequency stands in a command that sets it: after the VFO where that is to be named.
pub open spec fn frequency_word(vfo_mode: bool, words: Seq<Seq<char>>) -> Option<Seq<char>> {
    if words.len() == 2 && !vfo_mode {
        Some(words[1])
    } else if words.len() == 3 && vfo_mode && words[1] == "VFOA"@ {
        Some(words[2])
    } else {
        None
    }
}

/// Whether a command that asks for the frequency names the VFO just where that is to be done.
pub open spec fn asks_rightly(vfo_mode: bool, words: Seq<Seq<char>>) -> bool {
    (words.len() == 1 && !vfo_mode) || (words.len() == 2 && vfo_mode && words[1] == "VFOA"@)
}

/// What the words of a command come to. `vfo_mode` says whether commands name the VFO, `freq` and
/// `tx` what is noted of the radio.
pub open spec fn outcome(
    vfo_mode: bool,
    words: Seq<Seq<char>>,
    freq: u64,
    tx: bool,
) -> OutcomeView {
    match verb(words[0]) {
        Verb::SetVfoOption => OutcomeView::Actions(done()),
        Verb::CheckVfo => OutcomeView::Actions(flag(vfo_mode)),
        Verb::GetPowerState => OutcomeView::Actions(flag(true)),
        Verb::DumpState => OutcomeView::Actions(
            seq![
                RigView::Reply(
                    "0\n0\n0\n0 0 0 0 0 0 0\n0 0 0 0 0 0 0\n0 0\n0 0\n0\n0\n0\n0\n0 0 0 0 0 0 0\n0 0 0 0 0 0 0\n0\n0\n0\n0\n0\n0\n"@,
                ),
            ],
        ),
        Verb::GetFrequency => OutcomeView::Actions(
            if asks_rightly(vfo_mode, words) {
                seq![RigView::Reply(number::decimal(freq as nat) + "\n"@)]
            } else {
                refused()
            },
        ),
        Verb::SetFrequency => match frequency_word(vfo_mode, words) {
            Some(w) => match number::unsigned(w, u64::MAX as nat) {
                Some(hz) => OutcomeView::Actions(frequency_actions(Some(hz as u64))),
                None => OutcomeView::Decimal(w),
            },
            None => OutcomeView::Actions(refused()),
        },
        Verb::DumpCapabilities => OutcomeView::Actions(done()),
        Verb::GetMode => OutcomeView::Actions(seq![RigView::Reply("USB\n2400\n"@)]),
        Verb::SetMode => OutcomeView::Actions(
            seq![RigView::Queue(text::ascii("MD2;"@)), RigView::Reply("RPRT 0\n"@)],
        ),
        Verb::GetVfo => OutcomeView::Actions(seq![RigView::Reply("VFOA\n"@)]),
        Verb::SetVfo => OutcomeView::Actions(done()),
        Verb::GetPtt => OutcomeView::Actions(flag(tx)),
        Verb::SetPtt => OutcomeView::Actions(
            if words.len() >= 2 {
                let on = switched_on(words, 1);
                seq![
                    if on {
                        RigView::StartTransmit
                    } else {
                        RigView::EnableStreaming
                    },
                    RigView::SetTransmit(on),
                    RigView::Reply("RPRT 0\n"@),
                ]
            } else {
                refused()
            },
        ),
        Verb::Quit => OutcomeView::Actions(seq![RigView::Reply("RPRT 0\n"@), RigView::Close]),
        Verb::Unknown => OutcomeView::Actions(refused()),
    }
}

/// Whether commands name the VFO once the words of a command have been obeyed.
pub open spec fn next_vfo_mode(vfo_mode: bool, words: Seq<Seq<char>>) -> bool {
    if verb(words[0]) == Verb::SetVfoOption {
        switched_on(words, 1)
    } else {
        vfo_mode
    }
}

/// The words of a line.
pub open spec fn line_words(line: Seq<char>) -> Seq<Seq<char>> {
    text::ascii_words(text::trimmed(line))
}

/// What a line from a client comes to. A line that could not be read, and one with nothing in it,
/// not even its end, is the end of the connection; a blank one is passed over.
pub open spec fn line_outcome(
    vfo_mode: bool,
    line: Option<Seq<char>>,
    freq: u64,
    tx: bool,
) -> OutcomeView {
    match line {
        None => OutcomeView::Actions(seq![RigView::Close]),
        Some(line) => if line.len() == 0 {
            OutcomeView::Actions(seq![RigView::Close])
        } else if text::trimmed(line).len() == 0 {
            OutcomeView::Actions(Seq::empty())
        } else {
            outcome(vfo_mode, line_words(line), freq, tx)
        },
    }
}

/// Whether commands name the VFO once a line has been obeyed.
pub open spec fn line_vfo_mode(vfo_mode: bool, line: Option<Seq<char>>) -> bool {
    match line {
        Some(line) if text::trimmed(line).len() > 0 => next_vfo_mode(vfo_mode, line_words(line)),
        _ => vfo_mode,
    }
}

/// The command that the word `w` names.
fn read_verb(w: &[char]) -> (r: Verb)
    ensures
        r == verb(w@),
{
    if text::spells(w, "\\set_vfo_opt") {
        Verb::SetVfoOption
    } else if text::spells(w, "\\chk_vfo") {
        Verb::CheckVfo
    } else if text::spells(w, "\\get_powerstat") {
        Verb::GetPowerState
    } else if text::spells(w, "\\dump_state") {
        Verb::DumpState
    } else if text::spells(w, "\\get_freq") || text::spells(w, "f") {
        Verb::GetFrequency
    } else if text::spells(w, "\\set_freq") || text::spells(w, "F") {
        Verb::SetFrequency
    } else if text::spells(w, "\\dump_caps") {
        Verb::DumpCapabilities
    } else if text::spells(w, "m") {
        Verb::GetMode
    } else if text::spells(w, "M") {
        Verb::SetMode
    } else if text::spells(w, "v") {
        Verb::GetVfo
    } else if text::spells(w, "V") {
        Verb::SetVfo
    } else if text::spells(w, "t") || text::spells(w, "\\get_ptt") {
        Verb::GetPtt
    } else if text::spells(w, "T") || text::spells(w, "\\set_ptt") {
        Verb::SetPtt
    } else if text::spells(w, "q") {
        Verb::Quit
    } else {
        Verb::Unknown
    }
}

/// A trimmed text that holds anything starts with something other than white space.
proof fn trimmed_starts_with_ink(s: Seq<char>)
    requires
        text::trimmed(s).len() > 0,
    ensures
        !text::is_white_space(text::trimmed(s)[0]),
    decreases s.len(),
{
    trim_start_starts_with_ink(s);
    trim_end_is_prefix(text::trim_start(s));
}

proof fn trim_start_starts_with_ink(s: Seq<char>)
    ensures
        text::trim_start(s).len() > 0 ==> !text::is_white_space(text::trim_start(s)[0]),
    decreases s.len(),
{
    if s.len() > 0 && text::is_white_space(s[0]) {
        trim_start_starts_with_ink(s.skip(1));
    }
}

proof fn trim_end_is_prefix(s: Seq<char>)
    ensures
        text::trim_end(s).len() <= s.len(),
        text::trim_end(s) == s.take(text::trim_end(s).len() as int),
    decreases s.len(),
{
    if s.len() > 0 && text::is_white_space(s.last()) {
        trim_end_is_prefix(s.drop_last());
        let n = text::trim_end(s).len() as int;
        assert(s.drop_last().take(n) =~= s.take(n));
    } else {
        assert(s.take(s.len() as int) =~= s);
    }
}

/// A line that is not blank has a first word.
pub proof fn line_has_a_word(line: Seq<char>)
    requires
        text::trimmed(line).len() > 0,
    ensures
        line_words(line).len() > 0,
{
    trimmed_starts_with_ink(line);
    text::ascii_word_len_bound(text::trimmed(line));
}

/// An answer of one line.
fn reply(line: &str) -> (actions: Vec<RigAction>)
    ensures
        rig_views(actions@) == seq![RigView::Reply(line@)],
{
    let mut actions: Vec<RigAction> = Vec::new();
    actions.push(RigAction::Reply(line.to_owned()));
    assert(rig_views(actions@) =~= seq![RigView::Reply(line@)]);
    actions
}

/// The answer "yes" or "no".
fn reply_flag(on: bool) -> (actions: Vec<RigAction>)
    ensures
        rig_views(actions@) == flag(on),
{
    if on {
        reply("1\n")
    } else {
        reply("0\n")
    }
}

/// The CAT command that tunes the radio to `hz`.
pub fn write_frequency_command(hz: u64) -> (r: Vec<u8>)
    ensures
        r@ == text::ascii(frequency_command(hz)),
{
    let digits = number::write_zero_padded(hz, 11);
    let mut command = String::new();
    text::append(&mut command, "FA");
    text::append(&mut command, digits.as_str());
    text::append(&mut command, ";");
    assert(command@ =~= frequency_command(hz));
    proof {
        reveal_strlit("FA");
        reveal_strlit(";");
        number::zero_padded_reads_back(hz as nat, 11);
        let d = number::zero_padded(hz as nat, 11);
        assert(forall|i: int| 0 <= i < d.len() ==> number::is_digit(#[trigger] d[i]));
        assert(vstd::utf8::is_ascii_chars(command@));
    }
    text::ascii_bytes(command.as_str())
}

/// Sets the frequency `hz`, or nothing where it could not be read.
pub fn set_frequency(hz: Option<u64>) -> (actions: Vec<RigAction>)
    ensures
        rig_views(actions@) == frequency_actions(hz),
{
    let mut actions: Vec<RigAction> = Vec::new();
    if let Some(hz) = hz {
        actions.push(RigAction::SetFrequency(hz));
        actions.push(RigAction::Queue(write_frequency_command(hz)));
        actions.push(RigAction::Reply("RPRT 0\n".to_owned()));
    }
    assert(rig_views(actions@) =~= frequency_actions(hz));
    actions
}

/// Whether the word at `i` is there and writes a number other than zero.
fn read_switch(words: &Vec<Vec<char>>, i: usize) -> (r: bool)
    ensures
        r == switched_on(text::texts(words@), i as int),
{
    if i < words.len() {
        assert(text::texts(words@)[i as int] == words@[i as int]@);
        number::reads_nonzero(words[i].as_slice())
    } else {
        false
    }
}

/// A connection with a client.
#[derive(Debug)]
pub struct RigSession {
    /// Whether commands name the VFO.
    pub vfo_mode: bool,
}

impl RigSession {
    /// How every connection starts: commands do not name the VFO.
    pub open spec fn fresh() -> RigSession {
        RigSession { vfo_mode: false }
    }

    /// A new connection. Commands do not name the VFO.
    pub fn new() -> (r: RigSession)
        ensures
            r == RigSession::fresh(),
            !r.vfo_mode,
    {
        RigSession { vfo_mode: false }
    }

    /// Sets the frequency that the words ask for.
    fn obey_set_frequency(&self, words: &Vec<Vec<char>>) -> (r: LineOutcome)
        requires
            words@.len() > 0,
            verb(words@[0]@) == Verb::SetFrequency,
        ensures
            forall|freq: u64, tx: bool|
                r@ == #[trigger] outcome(self.vfo_mode, text::texts(words@), freq, tx),
    {
        let ghost ws = text::texts(words@);
        assert(ws[0] == words@[0]@);
        let w: &Vec<char>;
        if words.len() == 2 && !self.vfo_mode {
            w = &words[1];
            assert(ws[1] == w@);
        } else if words.len() == 3 && self.vfo_mode && text::spells(words[1].as_slice(), "VFOA") {
            w = &words[2];
            assert(ws[1] == words@[1]@);
            assert(ws[2] == w@);
        } else {
            assert(words@.len() == 3 ==> ws[1] == words@[1]@);
            return LineOutcome::Actions(reply("RPRT -1\n"));
        }
        match number::read_unsigned(w.as_slice(), u64::MAX) {
            Some(hz) => LineOutcome::Actions(set_frequency(Some(hz))),
            None => LineOutcome::Decimal(text::string_of(w.as_slice())),
        }
    }

    /// Obeys the words of a command.
    fn obey(&mut self, words: &Vec<Vec<char>>, freq: u64, tx: bool) -> (r: LineOutcome)
        requires
            words@.len() > 0,
        ensures
            r@ == outcome(old(self).vfo_mode, text::texts(words@), freq, tx),
            final(self).vfo_mode == next_vfo_mode(old(self).vfo_mode, text::texts(words@)),
    {
        let ghost ws = text::texts(words@);
        assert(ws[0] == words@[0]@);
        let actions: Vec<RigAction> = match read_verb(words[0].as_slice()) {
            Verb::SetVfoOption => {
                self.vfo_mode = read_switch(words, 1);
                reply("RPRT 0\n")
            },
            Verb::CheckVfo => reply_flag(self.vfo_mode),
            Verb::GetPowerState => reply_flag(true),
            Verb::DumpState => reply(
                "0\n0\n0\n0 0 0 0 0 0 0\n0 0 0 0 0 0 0\n0 0\n0 0\n0\n0\n0\n0\n0 0 0 0 0 0 0\n0 0 0 0 0 0 0\n0\n0\n0\n0\n0\n0\n",
            ),
            Verb::GetFrequency => {
                assert(words@.len() == 2 ==> ws[1] == words@[1]@);
                if (words.len() == 1 && !self.vfo_mode) || (words.len() == 2 && self.vfo_mode
                    && text::spells(words[1].as_slice(), "VFOA")) {
                    let mut line = number::write_decimal(freq);
                    text::append(&mut line, "\n");
                    reply(line.as_str())
                } else {
                    reply("RPRT -1\n")
                }
            },
            Verb::SetFrequency => {
                return self.obey_set_frequency(words);
            },
            Verb::DumpCapabilities => reply("RPRT 0\n"),
            Verb::GetMode => reply("USB\n2400\n"),
            Verb::SetMode => {
                proof {
                    reveal_strlit("MD2;");
                }
                let mut actions: Vec<RigAction> = Vec::new();
                actions.push(RigAction::Queue(text::ascii_bytes("MD2;")));
                actions.push(RigAction::Reply("RPRT 0\n".to_owned()));
                assert(rig_views(actions@) =~= seq![
                    RigView::Queue(text::ascii("MD2;"@)),
                    RigView::Reply("RPRT 0\n"@),
                ]);
                actions
            },
            Verb::GetVfo => reply("VFOA\n"),
            Verb::SetVfo => reply("RPRT 0\n"),
            Verb::GetPtt => reply_flag(tx),
            Verb::SetPtt => {
                if words.len() >= 2 {
                    let on: bool = read_switch(words, 1);
                    let mut actions: Vec<RigAction> = Vec::new();
                    if on {
                        actions.push(RigAction::StartTransmit);
                    } else {
                        actions.push(RigAction::EnableStreaming);
                    }
                    actions.push(RigAction::SetTransmit(on));
                    actions.push(RigAction::Reply("RPRT 0\n".to_owned()));
                    assert(rig_views(actions@) =~= seq![
                        if on {
                            RigView::StartTransmit
                        } else {
                            RigView::EnableStreaming
                        },
                        RigView::SetTransmit(on),
                        RigView::Reply("RPRT 0\n"@),
                    ]);
                    actions
                } else {
                    reply("RPRT -1\n")
                }
            },
            Verb::Quit => {
                let mut actions: Vec<RigAction> = Vec::new();
                actions.push(RigAction::Reply("RPRT 0\n".to_owned()));
                actions.push(RigAction::Close);
                assert(rig_views(actions@) =~= seq![RigView::Reply("RPRT 0\n"@), RigView::Close]);
                actions
            },
            Verb::Unknown => reply("RPRT -1\n"),
        };
        LineOutcome::Actions(actions)
    }

    /// Obeys a line from the client: `None` where reading it failed. `freq` and `tx` are what is
    /// noted of the radio.
    pub fn handle_line(&mut self, line: Option<&str>, freq: u64, tx: bool) -> (r: LineOutcome)
        ensures
            r@ == line_outcome(
                old(self).vfo_mode,
                match line {
                    Some(line) => Some(line@),
                    None => None,
                },
                freq,
                tx,
            ),
            final(self).vfo_mode == line_vfo_mode(
                old(self).vfo_mode,
                match line {
                    Some(line) => Some(line@),
                    None => None,
                },
            ),
    {
        let mut actions: Vec<RigAction> = Vec::new();
        match line {
            None => {
                actions.push(RigAction::Close);
                assert(rig_views(actions@) =~= seq![RigView::Close]);
                LineOutcome::Actions(actions)
            },
            Some(line) => {
                let chars = text::chars_of(line);
                if chars.len() == 0 {
                    assert(text::trimmed(line@) =~= Seq::empty());
                    actions.push(RigAction::Close);
                    assert(rig_views(actions@) =~= seq![RigView::Close]);
                    return LineOutcome::Actions(actions);
                }
                let trimmed = text::trim(chars.as_slice());
                if trimmed.len() == 0 {
                    assert(rig_views(actions@) =~= Seq::empty());
                    return LineOutcome::Actions(actions);
                }
                let words = text::split_ascii(trimmed);
                proof {
                    line_has_a_word(line@);
                    assert(text::texts(words@).len() == words@.len());
                }
                self.obey(&words, freq, tx)
            },
        }
    }
}

/// What the log says of the word `w`, the one after `i` others.
pub open spec fn logged_word(i: nat, w: Seq<char>) -> Seq<char> {
    "    "@ + number::decimal(i) + " => "@ + w
}

/// What the log says of a line from a client: nothing of a blank one, and of any other the line
/// without the white space around it, how many words it has, and each of them under its number.
pub open spec fn logged(line: Seq<char>) -> Seq<Seq<char>> {
    if text::trimmed(line).len() == 0 {
        Seq::empty()
    } else {
        let words = line_words(line);
        seq![text::trimmed(line), "  "@ + number::decimal(words.len())] + words.map(
            |i: int, w: Seq<char>| logged_word(i as nat, w),
        )
    }
}

/// The lines of the log on a line from a client.
pub fn log_lines(line: &str) -> (r: Vec<String>)
    ensures
        text::string_texts(r@) == logged(line@),
{
    let mut r: Vec<String> = Vec::new();
    let chars = text::chars_of(line);
    let trimmed = text::trim(chars.as_slice());
    if trimmed.len() == 0 {
        assert(text::string_texts(r@) =~= logged(line@));
        return r;
    }
    let words = text::split_ascii(trimmed);
    let ghost ws = line_words(line@);
    let ghost told = ws.map(|i: int, w: Seq<char>| logged_word(i as nat, w));
    assert(ws.len() == words@.len());
    r.push(text::string_of(trimmed));
    let mut count = String::new();
    text::append(&mut count, "  ");
    text::append(&mut count, number::write_decimal(words.len() as u64).as_str());
    assert(count@ =~= "  "@ + number::decimal(ws.len()));
    r.push(count);
    let ghost head = text::string_texts(r@);
    assert(head =~= seq![text::trimmed(line@), "  "@ + number::decimal(ws.len())]);
    let mut i: usize = 0;
    assert(head + told.take(0) =~= head);
    while i < words.len()
        invariant
            i <= words@.len(),
            text::texts(words@) == ws,
            told == ws.map(|i: int, w: Seq<char>| logged_word(i as nat, w)),
            text::string_texts(r@) == head + told.take(i as int),
        decreases words@.len() - i,
    {
        let ghost so_far = text::string_texts(r@);
        let word = text::string_of(words[i].as_slice());
        assert(word@ == ws[i as int]);
        let mut entry = String::new();
        text::append(&mut entry, "    ");
        text::append(&mut entry, number::write_decimal(i as u64).as_str());
        text::append(&mut entry, " => ");
        text::append(&mut entry, word.as_str());
        assert(entry@ =~= logged_word(i as nat, word@));
        assert(told[i as int] == entry@);
        r.push(entry);
        assert(text::string_texts(r@) =~= so_far.push(told[i as int]));
        i += 1;
        assert(so_far.push(told[i - 1]) =~= head + told.take(i as int));
    }
    assert(told.take(told.len() as int) =~= told);
    r
}

/// The process that holds the port, out of the list of those that do: none if the list is this
/// process alone.
pub open spec fn foreign_holder(listing: Seq<char>, own_pid: u32) -> Option<Seq<char>> {
    let pid = text::trimmed(listing);
    if pid == number::decimal(own_pid as nat) {
        None
    } else {
        Some(pid)
    }
}

/// Reads which process holds the port, if it is another one.
pub fn read_foreign_holder(listing: &str, own_pid: u32) -> (r: Option<String>)
    ensures
        match r {
            Some(pid) => foreign_holder(listing@, own_pid) == Some(pid@),
            None => foreign_holder(listing@, own_pid) is None,
        },
{
    let chars = text::chars_of(listing);
    let pid = text::trim(chars.as_slice());
    let own = number::write_decimal(own_pid as u64);
    if text::spells(pid, own.as_str()) {
        None
    } else {
        Some(text::string_of(pid))
    }
}

/// The process to be ended so that the port is free, out of what the lister of its holders
/// printed; none if it printed nothing, or this process alone.
pub fn holder_to_end(stdout: &[u8], own_pid: u32) -> (r: Option<String>)
    ensures
        match r {
            Some(pid) => stdout@.len() > 0 && foreign_holder(utf8::utf8_lossy(stdout@), own_pid)
                == Some(pid@),
            None => stdout@.len() == 0 || foreign_holder(utf8::utf8_lossy(stdout@), own_pid)
                is None,
        },
        stdout@.len() > 0 && valid_utf8(stdout@) ==> match r {
            Some(pid) => foreign_holder(decode_utf8(stdout@), own_pid) == Some(pid@),
            None => foreign_holder(decode_utf8(stdout@), own_pid) is None,
        },
{
    if stdout.len() == 0 {
        return None;
    }
    let listing = utf8::decode_lossy(stdout);
    read_foreign_holder(listing.as_str(), own_pid)
}

} // verus!
