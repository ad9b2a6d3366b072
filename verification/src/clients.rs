//! What the clients of the rigctl server share, and what each has for itself: the frequency, the
//! state of the transmitter and the queue of commands outlive a connection, and whether commands
//! name the VFO does not.

use vstd::prelude::*;

use crate::laws::{any_line_is_obeyed, commands_do_what_they_say};
use crate::number;
use crate::rigctl::{
    asks_rightly, flag, frequency_actions, frequency_command, frequency_word, line_has_a_word,
    line_outcome, line_vfo_mode, line_words, switched_on, verb, OutcomeView, RigSession, RigView,
    Verb,
};
use crate::text;

verus! {

/// What all connections share.
pub struct Noted {
    /// The frequency that is noted, in hertz.
    pub freq: u64,
    /// Whether the radio is noted to transmit.
    pub tx: bool,
    /// The commands that clients have queued for the radio.
    pub queue: Seq<Seq<u8>>,
}

/// What the action `a` changes in what is noted.
pub open spec fn noting(n: Noted, a: RigView) -> Noted {
    match a {
        RigView::SetFrequency(hz) => Noted { freq: hz, ..n },
        RigView::SetTransmit(on) => Noted { tx: on, ..n },
        RigView::Queue(command) => Noted { queue: n.queue.push(command), ..n },
        _ => n,
    }
}

/// What is noted after `actions`, one after the other.
pub open spec fn noted_after(n: Noted, actions: Seq<RigView>) -> Noted
    decreases actions.len(),
{
    if actions.len() == 0 {
        n
    } else {
        noting(noted_after(n, actions.drop_last()), actions.last())
    }
}

/// A line from a client.
pub struct Said {
    /// The line; none where it could not be read.
    pub line: Option<Seq<char>>,
    /// What a frequency in it comes to that is not written as a whole number.
    pub rounded: Option<u64>,
}

impl Said {
    /// The command in the line, if there is one.
    pub open spec fn command(self) -> Option<Verb> {
        match self.line {
            Some(line) if line_words(line).len() > 0 => Some(verb(line_words(line)[0])),
            _ => None,
        }
    }
}

/// Where a connection stands.
pub struct Talk {
    pub session: RigSession,
    pub noted: Noted,
    pub open: bool,
}

impl Talk {
    /// A new connection, with what is noted when it comes.
    pub open spec fn start(noted: Noted) -> Talk {
        Talk { session: RigSession::fresh(), noted, open: true }
    }

    /// What is done for the client that says `said`.
    pub open spec fn actions(self, said: Said) -> Seq<RigView> {
        match line_outcome(self.session.vfo_mode, said.line, self.noted.freq, self.noted.tx) {
            OutcomeView::Actions(actions) => actions,
            OutcomeView::Decimal(_) => frequency_actions(said.rounded),
        }
    }

    /// Where the connection stands once `said` has been obeyed. After its end nothing is.
    pub open spec fn hear(self, said: Said) -> Talk {
        if self.open {
            Talk {
                session: RigSession { vfo_mode: line_vfo_mode(self.session.vfo_mode, said.line) },
                noted: noted_after(self.noted, self.actions(said)),
                open: !self.actions(said).contains(RigView::Close),
            }
        } else {
            self
        }
    }

    /// Where the connection stands once all of `said` has been obeyed, in order.
    pub open spec fn hear_all(self, said: Seq<Said>) -> Talk
        decreases said.len(),
    {
        if said.len() == 0 {
            self
        } else {
            self.hear_all(said.drop_last()).hear(said.last())
        }
    }
}

/// What is noted once `clients` have been served, one connection after the other.
pub open spec fn served(noted: Noted, clients: Seq<Seq<Said>>) -> Noted
    decreases clients.len(),
{
    if clients.len() == 0 {
        noted
    } else {
        Talk::start(served(noted, clients.drop_last())).hear_all(clients.last()).noted
    }
}

/// Whether the command `v` is nowhere in `said`.
pub open spec fn unsaid(said: Seq<Said>, v: Verb) -> bool {
    forall|i: int| 0 <= i < said.len() ==> (#[trigger] said[i]).command() != Some(v)
}

/// Whether no client in `clients` gives the command `v`.
pub open spec fn unsaid_by_all(clients: Seq<Seq<Said>>, v: Verb) -> bool {
    forall|i: int| 0 <= i < clients.len() ==> unsaid(#[trigger] clients[i], v)
}

/// Whether `said` sets the frequency `hz` over a connection that stands at `t`: as a whole number,
/// or as a fraction that comes to it.
pub open spec fn sets_frequency(t: Talk, said: Said, hz: u64) -> bool {
    &&& said.command() == Some(Verb::SetFrequency)
    &&& frequency_word(t.session.vfo_mode, line_words(said.line->0)) matches Some(w) && (
    match number::unsigned(w, u64::MAX as nat) {
        Some(n) => n == hz,
        None => said.rounded == Some(hz),
    })
}

/// Actions that do not note a frequency leave the noted one, and so with the transmitter. Nothing
/// that is queued is taken back.
proof fn actions_note_what_they_say(n: Noted, actions: Seq<RigView>)
    ensures
        (forall|i: int| 0 <= i < actions.len() ==> !(#[trigger] actions[i] is SetFrequency)) ==> noted_after(
            n,
            actions,
        ).freq == n.freq,
        (forall|i: int| 0 <= i < actions.len() ==> !(#[trigger] actions[i] is SetTransmit)) ==> noted_after(
            n,
            actions,
        ).tx == n.tx,
        n.queue.is_prefix_of(noted_after(n, actions).queue),
    decreases actions.len(),
{
    if actions.len() > 0 {
        let front = actions.drop_last();
        actions_note_what_they_say(n, front);
        assert(forall|i: int| 0 <= i < front.len() ==> #[trigger] front[i] == actions[i]);
        assert(actions[actions.len() - 1] == actions.last());
    }
}

/// What a line does not ask for it leaves as it is.
pub proof fn line_changes_what_it_says(t: Talk, said: Said)
    ensures
        said.command() != Some(Verb::SetFrequency) ==> t.hear(said).noted.freq == t.noted.freq,
        said.command() != Some(Verb::SetPtt) ==> t.hear(said).noted.tx == t.noted.tx,
        said.command() != Some(Verb::SetVfoOption) ==> t.hear(said).session == t.session,
        t.noted.queue.is_prefix_of(t.hear(said).noted.queue),
{
    let vfo_mode = t.session.vfo_mode;
    let freq = t.noted.freq;
    let tx = t.noted.tx;
    let actions = t.actions(said);
    actions_note_what_they_say(t.noted, actions);
    match said.command() {
        Some(v) => {
            let line = said.line->0;
            let words = line_words(line);
            any_line_is_obeyed(vfo_mode, line, freq, tx);
            assert forall|i: int| 0 <= i < actions.len() implies {
                &&& (v != Verb::SetFrequency ==> !(#[trigger] actions[i] is SetFrequency))
                &&& (v != Verb::SetPtt ==> !(actions[i] is SetTransmit))
            } by {
                if let OutcomeView::Actions(a) = line_outcome(vfo_mode, said.line, freq, tx) {
                    commands_do_what_they_say(vfo_mode, words, freq, tx, a, i);
                }
            }
        },
        None => {
            if let Some(line) = said.line {
                if text::trimmed(line).len() > 0 {
                    line_has_a_word(line);
                }
            }
        },
    }
}

/// And so with everything that a client says over a connection.
pub proof fn talk_changes_what_it_says(t: Talk, said: Seq<Said>)
    ensures
        unsaid(said, Verb::SetFrequency) ==> t.hear_all(said).noted.freq == t.noted.freq,
        unsaid(said, Verb::SetPtt) ==> t.hear_all(said).noted.tx == t.noted.tx,
        unsaid(said, Verb::SetVfoOption) ==> t.hear_all(said).session == t.session,
        t.noted.queue.is_prefix_of(t.hear_all(said).noted.queue),
    decreases said.len(),
{
    if said.len() > 0 {
        let front = said.drop_last();
        talk_changes_what_it_says(t, front);
        line_changes_what_it_says(t.hear_all(front), said.last());
        assert(forall|i: int| 0 <= i < front.len() ==> #[trigger] front[i] == said[i]);
        assert(said[said.len() - 1] == said.last());
    }
}

/// And so with everything that clients say over connections one after the other. What was queued
/// for the radio before stays in front of what they queue.
pub proof fn clients_change_what_they_say(noted: Noted, clients: Seq<Seq<Said>>)
    ensures
        unsaid_by_all(clients, Verb::SetFrequency) ==> served(noted, clients).freq == noted.freq,
        unsaid_by_all(clients, Verb::SetPtt) ==> served(noted, clients).tx == noted.tx,
        noted.queue.is_prefix_of(served(noted, clients).queue),
    decreases clients.len(),
{
    if clients.len() > 0 {
        let front = clients.drop_last();
        clients_change_what_they_say(noted, front);
        talk_changes_what_it_says(Talk::start(served(noted, front)), clients.last());
        assert(forall|i: int| 0 <= i < front.len() ==> #[trigger] front[i] == clients[i]);
        assert(clients[clients.len() - 1] == clients.last());
    }
}

/// Whatever clients have said before, on a new connection commands do not name the VFO. A client
/// that asks is told so, until it says otherwise itself.
pub proof fn new_connection_does_not_name_the_vfo(
    noted: Noted,
    clients: Seq<Seq<Said>>,
    said: Seq<Said>,
    asking: Said,
)
    requires
        unsaid(said, Verb::SetVfoOption),
        asking.command() == Some(Verb::CheckVfo),
    ensures
        ({
            let t = Talk::start(served(noted, clients)).hear_all(said);
            &&& !t.session.vfo_mode
            &&& t.actions(asking) == flag(false)
        }),
{
    let start = Talk::start(served(noted, clients));
    talk_changes_what_it_says(start, said);
    let t = start.hear_all(said);
    any_line_is_obeyed(false, asking.line->0, t.noted.freq, t.noted.tx);
}

/// A client that sets a frequency has it noted and queued, and the connection goes on.
pub proof fn frequency_is_noted(t: Talk, setting: Said, hz: u64)
    requires
        t.open,
        sets_frequency(t, setting, hz),
    ensures
        t.hear(setting) == (Talk {
            noted: Noted {
                freq: hz,
                queue: t.noted.queue.push(text::ascii(frequency_command(hz))),
                ..t.noted
            },
            ..t
        }),
{
    any_line_is_obeyed(t.session.vfo_mode, setting.line->0, t.noted.freq, t.noted.tx);
    let a = t.actions(setting);
    assert(a == frequency_actions(Some(hz)));
    three_notes(t.noted, a);
    assert(!a.contains(RigView::Close));
}

/// What is noted after three actions.
proof fn three_notes(n: Noted, a: Seq<RigView>)
    requires
        a.len() == 3,
    ensures
        noted_after(n, a) == noting(noting(noting(n, a[0]), a[1]), a[2]),
{
    reveal_with_fuel(noted_after, 4);
    assert(a.drop_last() =~= seq![a[0], a[1]]);
    assert(seq![a[0], a[1]].drop_last() =~= seq![a[0]]);
    assert(seq![a[0]].drop_last() =~= Seq::empty());
}

/// The frequency that one client sets is the frequency that another is told. The first may have
/// made its commands name the VFO, and may say anything afterwards, as may others after it, so long
/// as none sets a frequency again. The one that asks, over a new connection, does not name the VFO
/// unless it has chosen to.
pub proof fn frequency_outlives_its_connection(
    t: Talk,
    setting: Said,
    hz: u64,
    rest: Seq<Said>,
    clients: Seq<Seq<Said>>,
    said: Seq<Said>,
    asking: Said,
)
    requires
        t.open,
        sets_frequency(t, setting, hz),
        unsaid(rest, Verb::SetFrequency),
        unsaid_by_all(clients, Verb::SetFrequency),
        unsaid(said, Verb::SetFrequency),
        asking.command() == Some(Verb::GetFrequency),
    ensures
        ({
            let left = t.hear(setting).hear_all(rest).noted;
            let there = Talk::start(served(left, clients)).hear_all(said);
            let vfo_mode = there.session.vfo_mode;
            &&& there.noted.freq == hz
            &&& asks_rightly(vfo_mode, line_words(asking.line->0)) ==> there.actions(asking)
                == seq![RigView::Reply(number::decimal(hz as nat) + "\n"@)]
            &&& unsaid(said, Verb::SetVfoOption) ==> !vfo_mode
            &&& left.queue.is_prefix_of(there.noted.queue)
        }),
{
    frequency_is_noted(t, setting, hz);
    talk_changes_what_it_says(t.hear(setting), rest);
    let left = t.hear(setting).hear_all(rest).noted;
    clients_change_what_they_say(left, clients);
    let start = Talk::start(served(left, clients));
    talk_changes_what_it_says(start, said);
    let there = start.hear_all(said);
    any_line_is_obeyed(there.session.vfo_mode, asking.line->0, there.noted.freq, there.noted.tx);
}

/// And so it is with the state of the transmitter: what one client has keyed or released, another
/// is told.
pub proof fn keying_outlives_its_connection(
    t: Talk,
    setting: Said,
    rest: Seq<Said>,
    clients: Seq<Seq<Said>>,
    said: Seq<Said>,
    asking: Said,
)
    requires
        t.open,
        setting.command() == Some(Verb::SetPtt),
        line_words(setting.line->0).len() >= 2,
        unsaid(rest, Verb::SetPtt),
        unsaid_by_all(clients, Verb::SetPtt),
        unsaid(said, Verb::SetPtt),
        asking.command() == Some(Verb::GetPtt),
    ensures
        ({
            let on = switched_on(line_words(setting.line->0), 1);
            let left = t.hear(setting).hear_all(rest).noted;
            let there = Talk::start(served(left, clients)).hear_all(said);
            &&& there.noted.tx == on
            &&& there.actions(asking) == flag(on)
        }),
{
    any_line_is_obeyed(t.session.vfo_mode, setting.line->0, t.noted.freq, t.noted.tx);
    three_notes(t.noted, t.actions(setting));
    talk_changes_what_it_says(t.hear(setting), rest);
    let left = t.hear(setting).hear_all(rest).noted;
    clients_change_what_they_say(left, clients);
    let start = Talk::start(served(left, clients));
    talk_changes_what_it_says(start, said);
    let there = start.hear_all(said);
    any_line_is_obeyed(there.session.vfo_mode, asking.line->0, there.noted.freq, there.noted.tx);
}

} // verus!
