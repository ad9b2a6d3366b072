//! What the radio sends: CAT replies in text, and frames of audio between `US` and a semicolon.

use vstd::prelude::*;
use vstd::utf8::valid_utf8;

use crate::number;
use crate::text;
use crate::utf8;

verus! {

/// The byte that ends a CAT reply and an audio frame.
pub const SEMICOLON: u8 = 0x3b;

/// How many bytes of audio are played at once, at the most.
pub const WAVE_BUF_MAX_SIZE: usize = 512;

/// An operating mode of the radio.
#[derive(Clone, Copy, Debug, PartialEq, Eq, Structural)]
pub enum Mode {
    Lsb,
    Usb,
    Cw,
    Fm,
    Am,
}

impl Mode {
    /// How the mode is shown.
    pub open spec fn label(self) -> Seq<char> {
        match self {
            Mode::Lsb => "LSB"@,
            Mode::Usb => "USB"@,
            Mode::Cw => "CW"@,
            Mode::Fm => "FM"@,
            Mode::Am => "AM"@,
        }
    }

    /// How the mode is shown.
    pub fn name(self) -> (s: &'static str)
        ensures
            s@ == self.label(),
    {
        match self {
            Mode::Lsb => "LSB",
            Mode::Usb => "USB",
            Mode::Cw => "CW",
            Mode::Fm => "FM",
            Mode::Am => "AM",
        }
    }
}

/// The mode that the third byte of a mode reply stands for; an unknown one is taken for USB.
pub open spec fn mode_of(b: u8) -> Mode {
    if b == '1' as u8 {
        Mode::Lsb
    } else if b == '3' as u8 {
        Mode::Cw
    } else if b == '4' as u8 {
        Mode::Fm
    } else if b == '5' as u8 {
        Mode::Am
    } else {
        Mode::Usb
    }
}

/// What a piece of input from the radio asks for.
#[derive(Debug, PartialEq, Eq)]
pub enum RxEvent {
    /// Play this audio.
    Play(Vec<u8>),
    /// The radio has started to stream audio.
    Streaming,
    /// The radio reports its frequency in hertz.
    Frequency(u64),
    /// The radio reports its mode.
    ModeChange(Mode),
    /// The line is free: send the CAT commands that wait.
    SendPending,
}

/// An `RxEvent` with its audio as a sequence.
pub enum RxEventView {
    Play(Seq<u8>),
    Streaming,
    Frequency(u64),
    ModeChange(Mode),
    SendPending,
}

impl View for RxEvent {
    type V = RxEventView;

    open spec fn view(&self) -> RxEventView {
        match self {
            RxEvent::Play(wave) => RxEventView::Play(wave@),
            RxEvent::Streaming => RxEventView::Streaming,
            RxEvent::Frequency(hz) => RxEventView::Frequency(*hz),
            RxEvent::ModeChange(mode) => RxEventView::ModeChange(*mode),
            RxEvent::SendPending => RxEventView::SendPending,
        }
    }
}

/// The views of `events`, in order.
pub open spec fn event_views(events: Seq<RxEvent>) -> Seq<RxEventView> {
    events.map_values(|e: RxEvent| e@)
}

/// Where the reading of the radio's bytes stands.
pub struct RxState {
    /// Whether an audio frame is open.
    pub in_frame: bool,
    /// The bytes of the CAT reply so far.
    pub text: Seq<u8>,
    /// The audio that has not been played yet.
    pub wave: Seq<u8>,
}

impl RxState {
    /// Between two replies, with nothing read yet.
    pub open spec fn idle() -> RxState {
        RxState { in_frame: false, text: Seq::empty(), wave: Seq::empty() }
    }

    /// What holds of every state that is reached from `idle`.
    pub open spec fn wf(self) -> bool {
        &&& self.wave.len() < WAVE_BUF_MAX_SIZE
        &&& !self.wave.contains(SEMICOLON)
        &&& !self.text.contains(SEMICOLON)
        &&& self.in_frame ==> self.text.len() == 0
        &&& !self.in_frame ==> self.wave.len() == 0
    }
}

/// The events that play `wave`: none for silence of no length.
pub open spec fn played(wave: Seq<u8>) -> Seq<RxEventView> {
    if wave.len() == 0 {
        Seq::empty()
    } else {
        seq![RxEventView::Play(wave)]
    }
}

/// Bytes as the characters of the same code.
pub open spec fn as_chars(bytes: Seq<u8>) -> Seq<char> {
    bytes.map_values(|b: u8| b as char)
}

/// Whether `text` starts with the characters `a` and `b`.
pub open spec fn starts_with(text: Seq<u8>, a: char, b: char) -> bool {
    text.len() >= 2 && text[0] == a as u8 && text[1] == b as u8
}

/// The frequency in a reply: the digits that follow its two letters, if the reply is UTF-8.
pub open spec fn reported_frequency(text: Seq<u8>) -> Option<nat> {
    if valid_utf8(text) {
        number::magnitude(number::leading_digits(as_chars(text.skip(2))), u64::MAX as nat)
    } else {
        None
    }
}

/// What the complete reply `text`, with its semicolon, reports.
pub open spec fn reported(text: Seq<u8>) -> Seq<RxEventView> {
    if starts_with(text, 'F', 'A') {
        match reported_frequency(text) {
            Some(hz) => seq![RxEventView::Frequency(hz as u64)],
            None => Seq::empty(),
        }
    } else if starts_with(text, 'M', 'D') {
        seq![
            RxEventView::ModeChange(
                mode_of(
                    if text.len() > 2 {
                        text[2]
                    } else {
                        '2' as u8
                    },
                ),
            ),
        ]
    } else {
        Seq::empty()
    }
}

/// What the byte `b` does to the state `s`, and the events it brings.
pub open spec fn step(s: RxState, b: u8) -> (RxState, Seq<RxEventView>) {
    if s.in_frame {
        if b == SEMICOLON {
            (
                RxState { in_frame: false, wave: Seq::empty(), ..s },
                played(s.wave).push(RxEventView::SendPending),
            )
        } else if s.wave.len() + 1 >= WAVE_BUF_MAX_SIZE {
            (RxState { wave: Seq::empty(), ..s }, played(s.wave.push(b)))
        } else {
            (RxState { wave: s.wave.push(b), ..s }, Seq::empty())
        }
    } else if s.text.len() == 1 && s.text[0] == 'U' as u8 && b == 'S' as u8 {
        (
            RxState { in_frame: true, text: Seq::empty(), ..s },
            seq![RxEventView::Streaming],
        )
    } else if b == SEMICOLON {
        (
            RxState { text: Seq::empty(), ..s },
            reported(s.text.push(b)).push(RxEventView::SendPending),
        )
    } else {
        (RxState { text: s.text.push(b), ..s }, Seq::empty())
    }
}

/// What `bytes` do to the state `s`, and the events they bring, in order.
pub open spec fn steps(s: RxState, bytes: Seq<u8>) -> (RxState, Seq<RxEventView>)
    decreases bytes.len(),
{
    if bytes.len() == 0 {
        (s, Seq::empty())
    } else {
        let (mid, before) = steps(s, bytes.drop_last());
        let (end, last) = step(mid, bytes.last());
        (end, before + last)
    }
}

/// Takes the radio's bytes apart.
#[derive(Debug)]
pub struct RxDemux {
    in_frame: bool,
    text: Vec<u8>,
    wave: Vec<u8>,
}

impl View for RxDemux {
    type V = RxState;

    closed spec fn view(&self) -> RxState {
        RxState { in_frame: self.in_frame, text: self.text@, wave: self.wave@ }
    }
}

/// The mode that the third byte of a mode reply stands for.
fn read_mode(b: u8) -> (mode: Mode)
    ensures
        mode == mode_of(b),
{
    if b == '1' as u8 {
        Mode::Lsb
    } else if b == '3' as u8 {
        Mode::Cw
    } else if b == '4' as u8 {
        Mode::Fm
    } else if b == '5' as u8 {
        Mode::Am
    } else {
        Mode::Usb
    }
}

/// Reads the frequency in a reply.
fn read_frequency(text: &Vec<u8>) -> (r: Option<u64>)
    requires
        text@.len() >= 2,
    ensures
        match r {
            Some(hz) => reported_frequency(text@) == Some(hz as nat),
            None => reported_frequency(text@) is None,
        },
{
    if !utf8::is_utf8(text.as_slice()) {
        return None;
    }
    let mut chars: Vec<char> = Vec::new();
    let mut i: usize = 2;
    assert(chars@ =~= as_chars(text@.subrange(2, 2)));
    while i < text.len()
        invariant
            2 <= i <= text@.len(),
            chars@ == as_chars(text@.subrange(2, i as int)),
        decreases text@.len() - i,
    {
        chars.push(text[i] as char);
        i += 1;
        assert(chars@ =~= as_chars(text@.subrange(2, i as int)));
    }
    assert(text@.subrange(2, text@.len() as int) =~= text@.skip(2));
    number::read_magnitude(number::read_leading_digits(chars.as_slice()), u64::MAX)
}

impl RxDemux {
    /// Nothing read yet.
    pub fn new() -> (r: Self)
        ensures
            r@ == RxState::idle(),
    {
        let r = RxDemux { in_frame: false, text: Vec::new(), wave: Vec::new() };
        assert(r@ == RxState::idle());
        r
    }

    /// Forgets what was read of an unfinished reply or frame.
    pub fn reset(&mut self)
        ensures
            final(self)@ == RxState::idle(),
    {
        self.in_frame = false;
        self.wave.clear();
        self.text.clear();
        assert(self@ == RxState::idle());
    }

    /// Adds what the complete reply in `text` reports to `events`.
    fn report(&self, events: &mut Vec<RxEvent>)
        ensures
            event_views(final(events)@) == event_views(old(events)@) + reported(self@.text),
    {
        if self.text.len() >= 2 && self.text[0] == 'F' as u8 && self.text[1] == 'A' as u8 {
            if let Some(hz) = read_frequency(&self.text) {
                events.push(RxEvent::Frequency(hz));
            }
        } else if self.text.len() >= 2 && self.text[0] == 'M' as u8 && self.text[1] == 'D' as u8 {
            let b: u8 = if self.text.len() > 2 {
                self.text[2]
            } else {
                '2' as u8
            };
            events.push(RxEvent::ModeChange(read_mode(b)));
        }
        assert(event_views(events@) =~= event_views(old(events)@) + reported(self@.text));
    }

    /// Adds what plays the waiting audio to `events`, and empties it.
    fn play(&mut self, events: &mut Vec<RxEvent>)
        ensures
            event_views(final(events)@) == event_views(old(events)@) + played(old(self)@.wave),
            final(self)@ == (RxState { wave: Seq::empty(), ..old(self)@ }),
    {
        if self.wave.len() > 0 {
            let mut wave: Vec<u8> = Vec::new();
            std::mem::swap(&mut wave, &mut self.wave);
            events.push(RxEvent::Play(wave));
        }
        assert(self.wave@ =~= Seq::empty());
        assert(event_views(events@) =~= event_views(old(events)@) + played(old(self)@.wave));
    }

    /// Takes in the byte `b`, and adds the events it brings to `events`.
    pub fn push(&mut self, b: u8, events: &mut Vec<RxEvent>)
        ensures
            final(self)@ == step(old(self)@, b).0,
            event_views(final(events)@) == event_views(old(events)@) + step(old(self)@, b).1,
    {
        let ghost heard = event_views(events@);
        if self.in_frame {
            if b == SEMICOLON {
                self.play(events);
                self.in_frame = false;
                let ghost so_far = event_views(events@);
                events.push(RxEvent::SendPending);
                assert(event_views(events@) =~= so_far.push(RxEventView::SendPending));
            } else {
                self.wave.push(b);
                if self.wave.len() >= WAVE_BUF_MAX_SIZE {
                    self.play(events);
                }
            }
        } else {
            self.text.push(b);
            if self.text.len() == 2 && self.text[0] == 'U' as u8 && self.text[1] == 'S' as u8 {
                self.text.clear();
                self.in_frame = true;
                events.push(RxEvent::Streaming);
            } else if b == SEMICOLON {
                self.report(events);
                self.text.clear();
                let ghost so_far = event_views(events@);
                events.push(RxEvent::SendPending);
                assert(event_views(events@) =~= so_far.push(RxEventView::SendPending));
            }
        }
        assert(event_views(events@) =~= heard + step(old(self)@, b).1);
        assert(self@.text =~= step(old(self)@, b).0.text);
        assert(self@.wave =~= step(old(self)@, b).0.wave);
    }

    /// Takes in `bytes`, and gives the events they bring, in order.
    pub fn feed(&mut self, bytes: &[u8]) -> (events: Vec<RxEvent>)
        ensures
            final(self)@ == steps(old(self)@, bytes@).0,
            event_views(events@) == steps(old(self)@, bytes@).1,
    {
        let mut events: Vec<RxEvent> = Vec::new();
        let mut i: usize = 0;
        assert(event_views(events@) =~= Seq::empty());
        while i < bytes.len()
            invariant
                i <= bytes@.len(),
                self@ == steps(old(self)@, bytes@.take(i as int)).0,
                event_views(events@) == steps(old(self)@, bytes@.take(i as int)).1,
            decreases bytes@.len() - i,
        {
            self.push(bytes[i], &mut events);
            i += 1;
            assert(bytes@.take(i as int).drop_last() =~= bytes@.take(i - 1));
        }
        assert(bytes@.take(bytes@.len() as int) =~= bytes@);
        events
    }
}

/// The audio that `events` play, one piece after the other.
pub open spec fn audio(events: Seq<RxEventView>) -> Seq<u8>
    decreases events.len(),
{
    if events.len() == 0 {
        Seq::empty()
    } else {
        audio(events.drop_last()) + match events.last() {
            RxEventView::Play(wave) => wave,
            _ => Seq::empty(),
        }
    }
}

/// Whether every piece that `events` play holds from 1 to 512 bytes, none a semicolon.
pub open spec fn plays_fit(events: Seq<RxEventView>) -> bool {
    forall|i: int|
        0 <= i < events.len() ==> (#[trigger] events[i] matches RxEventView::Play(wave) ==> {
            &&& 1 <= wave.len() <= WAVE_BUF_MAX_SIZE
            &&& !wave.contains(SEMICOLON)
        })
}

/// What is played by two runs of events is played by the one after the other.
proof fn audio_adds(a: Seq<RxEventView>, b: Seq<RxEventView>)
    ensures
        audio(a + b) == audio(a) + audio(b),
    decreases b.len(),
{
    if b.len() == 0 {
        assert(a + b =~= a);
        assert(audio(a) + audio(b) =~= audio(a));
    } else {
        assert((a + b).drop_last() =~= a + b.drop_last());
        audio_adds(a, b.drop_last());
        assert(audio(a + b) =~= audio(a) + audio(b));
    }
}

/// However the radio's bytes are cut into reads, the events and the state are the same.
pub proof fn reads_may_be_cut_anywhere(s: RxState, a: Seq<u8>, b: Seq<u8>)
    ensures
        steps(s, a + b).0 == steps(steps(s, a).0, b).0,
        steps(s, a + b).1 == steps(s, a).1 + steps(steps(s, a).0, b).1,
    decreases b.len(),
{
    if b.len() == 0 {
        assert(a + b =~= a);
        assert(steps(s, a).1 + Seq::empty() =~= steps(s, a).1);
    } else {
        assert((a + b).drop_last() =~= a + b.drop_last());
        reads_may_be_cut_anywhere(s, a, b.drop_last());
        assert(steps(s, a + b).1 =~= steps(s, a).1 + steps(steps(s, a).0, b).1);
    }
}

/// One byte keeps the invariant, and what it plays fits.
proof fn step_keeps_order(s: RxState, b: u8)
    requires
        s.wf(),
    ensures
        step(s, b).0.wf(),
        plays_fit(step(s, b).1),
{
    let w = s.wave.push(b);
    let t = s.text.push(b);
    if b != SEMICOLON {
        assert(!w.contains(SEMICOLON)) by {
            assert(forall|i: int| 0 <= i < s.wave.len() ==> s.wave[i] != SEMICOLON);
            assert(forall|i: int| 0 <= i < w.len() ==> #[trigger] w[i] != SEMICOLON);
        }
        assert(!t.contains(SEMICOLON)) by {
            assert(forall|i: int| 0 <= i < s.text.len() ==> s.text[i] != SEMICOLON);
            assert(forall|i: int| 0 <= i < t.len() ==> #[trigger] t[i] != SEMICOLON);
        }
    }
}

/// Whatever the radio sends, the invariant is kept: less than a full piece of audio waits, text is
/// kept only outside a frame and audio only inside one, and neither holds a semicolon. And every
/// piece that is played holds from 1 to 512 bytes, none of them a semicolon.
pub proof fn every_piece_fits(s: RxState, bytes: Seq<u8>)
    requires
        s.wf(),
    ensures
        steps(s, bytes).0.wf(),
        plays_fit(steps(s, bytes).1),
    decreases bytes.len(),
{
    if bytes.len() > 0 {
        every_piece_fits(s, bytes.drop_last());
        let (mid, before) = steps(s, bytes.drop_last());
        step_keeps_order(mid, bytes.last());
        let last = step(mid, bytes.last()).1;
        assert forall|i: int| 0 <= i < (before + last).len() implies (#[trigger] (before + last)[i] matches RxEventView::Play(
            wave,
        ) ==> {
            &&& 1 <= wave.len() <= WAVE_BUF_MAX_SIZE
            &&& !wave.contains(SEMICOLON)
        }) by {
            if i < before.len() {
                assert((before + last)[i] == before[i]);
            } else {
                assert((before + last)[i] == last[i - before.len()]);
            }
        }
    }
}

/// The state that every bridge starts from obeys the invariant.
pub proof fn idle_is_wf()
    ensures
        RxState::idle().wf(),
{
}

/// Inside a frame nothing is lost and nothing added: what was played and what still waits are
/// together what waited before and what came in.
pub proof fn frame_keeps_every_byte(s: RxState, payload: Seq<u8>)
    requires
        s.in_frame,
        !payload.contains(SEMICOLON),
    ensures
        steps(s, payload).0.in_frame,
        steps(s, payload).0.text == s.text,
        audio(steps(s, payload).1) + steps(s, payload).0.wave == s.wave + payload,
    decreases payload.len(),
{
    if payload.len() == 0 {
        assert(audio(steps(s, payload).1) + s.wave =~= s.wave + payload);
    } else {
        let front = payload.drop_last();
        let b = payload.last();
        assert(payload[payload.len() - 1] == b);
        assert(b != SEMICOLON);
        assert(!front.contains(SEMICOLON)) by {
            assert(forall|i: int| 0 <= i < front.len() ==> #[trigger] front[i] == payload[i]);
        }
        frame_keeps_every_byte(s, front);
        let (mid, before) = steps(s, front);
        let (end, last) = step(mid, b);
        audio_adds(before, last);
        if mid.wave.len() + 1 >= WAVE_BUF_MAX_SIZE {
            audio_of_played(mid.wave.push(b));
        }
        assert(audio(before + last) + end.wave =~= (audio(before) + mid.wave).push(b));
        assert((s.wave + front).push(b) =~= s.wave + payload);
    }
}

/// Playing a piece plays it.
proof fn audio_of_played(wave: Seq<u8>)
    ensures
        audio(played(wave)) == wave,
{
    reveal_with_fuel(audio, 2);
    if wave.len() > 0 {
        assert(played(wave).drop_last() =~= Seq::empty());
        assert(audio(played(wave)) =~= wave);
    } else {
        assert(audio(played(wave)) =~= wave);
    }
}

/// The pieces of full size at the front of `payload`, in order.
pub open spec fn full_pieces(payload: Seq<u8>) -> Seq<RxEventView> {
    Seq::new(
        payload.len() / WAVE_BUF_MAX_SIZE as nat,
        |k: int|
            RxEventView::Play(
                payload.subrange(WAVE_BUF_MAX_SIZE * k, WAVE_BUF_MAX_SIZE * k + WAVE_BUF_MAX_SIZE),
            ),
    )
}

/// What of `payload` follows its pieces of full size.
pub open spec fn odd_piece(payload: Seq<u8>) -> Seq<u8> {
    payload.skip(WAVE_BUF_MAX_SIZE * (payload.len() / WAVE_BUF_MAX_SIZE as nat))
}

/// From the start of a frame the audio is cut into pieces of 512 bytes: each is played as soon as
/// it is full, and the rest waits.
pub proof fn frame_is_cut(s: RxState, payload: Seq<u8>)
    requires
        s.in_frame,
        s.wave.len() == 0,
        !payload.contains(SEMICOLON),
    ensures
        steps(s, payload) == (RxState { wave: odd_piece(payload), ..s }, full_pieces(payload)),
    decreases payload.len(),
{
    if payload.len() == 0 {
        assert(s.wave =~= odd_piece(payload));
        assert(full_pieces(payload) =~= Seq::empty());
    } else {
        let front = payload.drop_last();
        let b = payload.last();
        assert(payload[payload.len() - 1] == b);
        assert(b != SEMICOLON);
        assert(!front.contains(SEMICOLON)) by {
            assert(forall|i: int| 0 <= i < front.len() ==> #[trigger] front[i] == payload[i]);
        }
        frame_is_cut(s, front);
        let (mid, before) = steps(s, front);
        let (end, last) = step(mid, b);
        let q = (front.len() / 512) as int;
        assert(mid.wave.push(b) =~= payload.skip(512 * q));
        assert forall|k: int| 0 <= k < q implies #[trigger] full_pieces(front)[k] == full_pieces(
            payload,
        )[k] by {
            assert(front.subrange(512 * k, 512 * k + 512) =~= payload.subrange(
                512 * k,
                512 * k + 512,
            ));
        }
        if mid.wave.len() + 1 >= WAVE_BUF_MAX_SIZE {
            assert(payload.len() == 512 * (q + 1));
            assert(payload.skip(512 * q) =~= payload.subrange(512 * q, 512 * q + 512));
            assert(end.wave =~= odd_piece(payload));
            assert(before + last =~= full_pieces(payload));
        } else {
            assert(payload.len() / 512 == q);
            assert(end.wave =~= odd_piece(payload));
            assert(before + last =~= full_pieces(payload));
        }
    }
}

/// `US` opens a frame.
proof fn frame_opens()
    ensures
        steps(RxState::idle(), seq!['U' as u8, 'S' as u8]) == (
            RxState { in_frame: true, ..RxState::idle() },
            seq![RxEventView::Streaming],
        ),
{
    reveal_with_fuel(steps, 3);
    let idle = RxState::idle();
    let us = seq!['U' as u8, 'S' as u8];
    assert(us.drop_last() =~= seq!['U' as u8]);
    assert(us.drop_last().drop_last() =~= Seq::empty());
    assert(idle.text.push('U' as u8)[0] == 'U' as u8);
    assert(step(idle, 'U' as u8).0.text =~= seq!['U' as u8]);
    assert(steps(idle, us).0.text =~= idle.text);
    assert(steps(idle, us).1 =~= seq![RxEventView::Streaming]);
}

/// The end of a frame plays what waits, and frees the line.
proof fn audio_of_end(wave: Seq<u8>)
    ensures
        audio(played(wave).push(RxEventView::SendPending)) == wave,
        audio(seq![RxEventView::Streaming]) == Seq::<u8>::empty(),
{
    reveal_with_fuel(audio, 2);
    let last = played(wave).push(RxEventView::SendPending);
    assert(last.drop_last() =~= played(wave));
    audio_of_played(wave);
    assert(audio(last) =~= wave);
    assert(seq![RxEventView::Streaming].drop_last() =~= Seq::<RxEventView>::empty());
    assert(audio(seq![RxEventView::Streaming]) =~= Seq::empty());
}

/// The events of a whole frame.
proof fn frame_brings_events(payload: Seq<u8>)
    requires
        !payload.contains(SEMICOLON),
    ensures
        steps(RxState::idle(), seq!['U' as u8, 'S' as u8] + payload + seq![SEMICOLON]) == (
            RxState::idle(),
            seq![RxEventView::Streaming] + full_pieces(payload) + played(odd_piece(payload)).push(
                RxEventView::SendPending,
            ),
        ),
{
    let idle = RxState::idle();
    let us = seq!['U' as u8, 'S' as u8];
    let open = RxState { in_frame: true, ..idle };
    frame_opens();
    reads_may_be_cut_anywhere(idle, us, payload);
    frame_is_cut(open, payload);
    let sent = us + payload + seq![SEMICOLON];
    assert(sent.drop_last() =~= us + payload);
    assert(sent.last() == SEMICOLON);
    let end = steps(idle, sent).0;
    assert(end.text =~= idle.text && end.wave =~= idle.wave);
}

/// The audio of a whole frame.
proof fn frame_brings_audio(payload: Seq<u8>)
    requires
        !payload.contains(SEMICOLON),
    ensures
        audio(
            seq![RxEventView::Streaming] + full_pieces(payload) + played(odd_piece(payload)).push(
                RxEventView::SendPending,
            ),
        ) == payload,
{
    let open = RxState { in_frame: true, ..RxState::idle() };
    frame_keeps_every_byte(open, payload);
    frame_is_cut(open, payload);
    let first = seq![RxEventView::Streaming];
    let full = full_pieces(payload);
    let last = played(odd_piece(payload)).push(RxEventView::SendPending);
    audio_adds(first + full, last);
    audio_adds(first, full);
    audio_of_end(odd_piece(payload));
    assert(Seq::<u8>::empty() + audio(full) + odd_piece(payload) =~= payload) by {
        assert(open.wave + payload =~= payload);
    }
}

/// A whole frame: `US`, audio without a semicolon, a semicolon. The audio played is the audio
/// sent: first its pieces of 512 bytes, in order, then the rest, if there is any. Before them the
/// start of the stream is noticed, after them the line is free, and nothing is left over.
pub proof fn whole_frame_is_played(payload: Seq<u8>)
    requires
        !payload.contains(SEMICOLON),
    ensures
        ({
            let sent = seq!['U' as u8, 'S' as u8] + payload + seq![SEMICOLON];
            let (end, events) = steps(RxState::idle(), sent);
            &&& end == RxState::idle()
            &&& audio(events) == payload
            &&& events == seq![RxEventView::Streaming] + full_pieces(payload) + played(
                odd_piece(payload),
            ) + seq![RxEventView::SendPending]
        }),
{
    frame_brings_events(payload);
    frame_brings_audio(payload);
    let full = full_pieces(payload);
    let rest = played(odd_piece(payload));
    assert(seq![RxEventView::Streaming] + full + rest.push(RxEventView::SendPending) =~= seq![
        RxEventView::Streaming,
    ] + full + rest + seq![RxEventView::SendPending]);
}

/// Text without a semicolon that does not start a frame is kept, and brings no event.
pub proof fn text_waits_for_its_end(text: Seq<u8>)
    requires
        !text.contains(SEMICOLON),
        !starts_with(text, 'U', 'S'),
    ensures
        steps(RxState::idle(), text) == (RxState { text, ..RxState::idle() }, Seq::<RxEventView>::empty()),
    decreases text.len(),
{
    let idle = RxState::idle();
    if text.len() > 0 {
        let front = text.drop_last();
        let b = text.last();
        assert(b == text[text.len() - 1]);
        assert(!front.contains(SEMICOLON)) by {
            assert(forall|i: int| 0 <= i < front.len() ==> #[trigger] front[i] == text[i]);
        }
        text_waits_for_its_end(front);
        assert(front.push(b) =~= text);
        assert(Seq::<RxEventView>::empty() + Seq::<RxEventView>::empty() =~= Seq::empty());
    } else {
        assert(text =~= idle.text);
    }
}

/// A CAT reply on a quiet line: what it reports is reported once its semicolon is in, the line is
/// free then, and nothing is left over.
pub proof fn reply_is_reported(text: Seq<u8>)
    requires
        !text.contains(SEMICOLON),
        !starts_with(text, 'U', 'S'),
    ensures
        steps(RxState::idle(), text.push(SEMICOLON)) == (
            RxState::idle(),
            reported(text.push(SEMICOLON)).push(RxEventView::SendPending),
        ),
{
    text_waits_for_its_end(text);
    let idle = RxState::idle();
    let sent = text.push(SEMICOLON);
    assert(sent.drop_last() =~= text);
    let told = reported(sent).push(RxEventView::SendPending);
    assert(Seq::<RxEventView>::empty() + told =~= told);
    assert(steps(idle, sent).0.text =~= idle.text);
}

/// A frame of any length, piece by piece: the stream is noticed, every 512 bytes of audio are one
/// piece, what is left over is one more, and then the line is free.
pub proof fn frame_is_played_piece_by_piece(payload: Seq<u8>, k: int)
    requires
        !payload.contains(0x3b),
    ensures
        ({
            let (end, events) = steps(
                RxState::idle(),
                seq![0x55u8, 0x53u8] + payload + seq![0x3bu8],
            );
            let full = payload.len() as int / 512;
            let rest = payload.len() as int % 512;
            let pieces = full + if rest > 0 {
                1int
            } else {
                0
            };
            &&& !end.in_frame && end.text.len() == 0 && end.wave.len() == 0
            &&& events.len() == pieces + 2
            &&& events[0] == RxEventView::Streaming
            &&& 0 <= k < full ==> events[1 + k] == RxEventView::Play(
                payload.subrange(512 * k, 512 * k + 512),
            )
            &&& rest > 0 ==> events[1 + full] == RxEventView::Play(payload.skip(512 * full))
            &&& events[1 + pieces] == RxEventView::SendPending
        }),
{
    whole_frame_is_played(payload);
    assert(seq!['U' as u8, 'S' as u8] =~= seq![0x55u8, 0x53u8]);
    let full = full_pieces(payload);
    if 0 <= k < full.len() {
        assert(full[k] == RxEventView::Play(payload.subrange(512 * k, 512 * k + 512)));
    }
}

/// An open frame is played as it comes in: with `n` bytes behind it, `n / 512` pieces have been
/// played, and the bytes after them wait.
pub proof fn open_frame_is_played_as_it_comes(payload: Seq<u8>, k: int)
    requires
        !payload.contains(0x3b),
    ensures
        ({
            let (end, events) = steps(RxState::idle(), seq![0x55u8, 0x53u8] + payload);
            let full = payload.len() as int / 512;
            &&& end.in_frame && end.text.len() == 0
            &&& end.wave == payload.skip(512 * full)
            &&& events.len() == 1 + full
            &&& events[0] == RxEventView::Streaming
            &&& 0 <= k < full ==> events[1 + k] == RxEventView::Play(
                payload.subrange(512 * k, 512 * k + 512),
            )
        }),
{
    let idle = RxState::idle();
    let us = seq![0x55u8, 0x53u8];
    let open = RxState { in_frame: true, ..idle };
    assert(us =~= seq!['U' as u8, 'S' as u8]);
    frame_opens();
    reads_may_be_cut_anywhere(idle, us, payload);
    frame_is_cut(open, payload);
    let full = full_pieces(payload);
    if 0 <= k < full.len() {
        assert(full[k] == RxEventView::Play(payload.subrange(512 * k, 512 * k + 512)));
    }
}

/// The mode that is heard in `MD`, a byte, and whatever follows up to the semicolon: 1 is LSB, 2 is
/// USB, 3 is CW, 4 is FM and 5 is AM; any other byte, and none, is taken for USB.
pub proof fn mode_reply_is_heard(b: u8, rest: Seq<u8>)
    requires
        b != 0x3b,
        !rest.contains(0x3b),
    ensures
        ({
            let mode = if b == 0x31 {
                Mode::Lsb
            } else if b == 0x32 {
                Mode::Usb
            } else if b == 0x33 {
                Mode::Cw
            } else if b == 0x34 {
                Mode::Fm
            } else if b == 0x35 {
                Mode::Am
            } else {
                Mode::Usb
            };
            steps(RxState::idle(), seq![0x4du8, 0x44u8, b] + rest + seq![0x3bu8]) == (
                RxState::idle(),
                seq![RxEventView::ModeChange(mode), RxEventView::SendPending],
            )
        }),
        steps(RxState::idle(), seq![0x4du8, 0x44u8, 0x3bu8]) == (
            RxState::idle(),
            seq![RxEventView::ModeChange(Mode::Usb), RxEventView::SendPending],
        ),
{
    let told = seq![0x4du8, 0x44u8, b] + rest;
    assert(told + seq![0x3bu8] =~= told.push(SEMICOLON));
    assert(!told.contains(SEMICOLON)) by {
        assert forall|i: int| 0 <= i < told.len() implies #[trigger] told[i] != SEMICOLON by {
            if i >= 3 {
                assert(told[i] == rest[i - 3]);
            }
        }
    }
    reply_is_reported(told);
    assert(told.push(SEMICOLON)[2] == b);
    assert(reported(told.push(SEMICOLON)).push(RxEventView::SendPending) =~= seq![
        RxEventView::ModeChange(mode_of(b)),
        RxEventView::SendPending,
    ]);
    let short = seq![0x4du8, 0x44u8];
    assert(!short.contains(SEMICOLON));
    assert(seq![0x4du8, 0x44u8, 0x3bu8] =~= short.push(SEMICOLON));
    reply_is_reported(short);
    assert(reported(short.push(SEMICOLON)).push(RxEventView::SendPending) =~= seq![
        RxEventView::ModeChange(Mode::Usb),
        RxEventView::SendPending,
    ]);
}

/// The frequency that is heard in `FA`, digits, and whatever follows up to the semicolon: what the
/// digits are worth in hertz. Without digits, with more than 64 bits hold, and in a reply that is
/// not UTF-8, there is none.
pub proof fn frequency_reply_is_heard(digits: Seq<char>, rest: Seq<u8>)
    requires
        forall|i: int| 0 <= i < digits.len() ==> '0' <= (#[trigger] digits[i]) <= '9',
        rest.len() > 0 ==> !(0x30 <= rest[0] <= 0x39),
        !rest.contains(0x3b),
    ensures
        ({
            let reply = seq![0x46u8, 0x41u8] + text::ascii(digits) + rest + seq![0x3bu8];
            let hz = number::value(digits);
            steps(RxState::idle(), reply) == (
                RxState::idle(),
                if valid_utf8(reply) && digits.len() > 0 && hz <= 18446744073709551615 {
                    seq![RxEventView::Frequency(hz as u64), RxEventView::SendPending]
                } else {
                    seq![RxEventView::SendPending]
                },
            )
        }),
{
    number::digits_are_known('0', digits);
    let d = text::ascii(digits);
    let told = seq![0x46u8, 0x41u8] + d + rest;
    let reply = told + seq![0x3bu8];
    assert(reply =~= told.push(SEMICOLON));
    assert(!told.contains(SEMICOLON)) by {
        assert forall|i: int| 0 <= i < told.len() implies #[trigger] told[i] != SEMICOLON by {
            if 2 <= i < 2 + d.len() {
                assert(told[i] == d[i - 2]);
                assert('0' <= digits[i - 2] <= '9');
            } else if i >= 2 {
                assert(told[i] == rest[i - 2 - d.len()]);
            }
        }
    }
    assert(told[0] == 0x46u8 && told[1] == 0x41u8);
    reply_is_reported(told);
    let tail = as_chars(reply.skip(2));
    let after = as_chars(rest + seq![0x3bu8]);
    assert(tail =~= digits + after) by {
        assert forall|i: int| 0 <= i < tail.len() implies tail[i] == (digits + after)[i] by {
            if i < digits.len() {
                assert(reply[i + 2] == d[i]);
                assert('0' <= digits[i] <= '9');
            } else {
                assert(reply[i + 2] == (rest + seq![0x3bu8])[i - d.len()]);
            }
        }
    }
    assert(!number::is_digit(after[0]));
    number::leading_digits_stop(digits, after);
    assert(reported(reply).push(RxEventView::SendPending) =~= if valid_utf8(reply)
        && digits.len() > 0 && number::value(digits) <= 18446744073709551615 {
        seq![
            RxEventView::Frequency(number::value(digits) as u64),
            RxEventView::SendPending,
        ]
    } else {
        seq![RxEventView::SendPending]
    });
}

/// Any other reply only says that the line is free.
pub proof fn other_reply_frees_the_line(told: Seq<u8>)
    requires
        !told.contains(0x3b),
        told.len() >= 2 ==> {
            &&& !(told[0] == 0x46 && told[1] == 0x41)
            &&& !(told[0] == 0x4d && told[1] == 0x44)
            &&& !(told[0] == 0x55 && told[1] == 0x53)
        },
    ensures
        steps(RxState::idle(), told + seq![0x3bu8]) == (
            RxState::idle(),
            seq![RxEventView::SendPending],
        ),
{
    let reply = told.push(SEMICOLON);
    assert(told + seq![0x3bu8] =~= reply);
    reply_is_reported(told);
    if told.len() >= 2 {
        assert(reply[0] == told[0] && reply[1] == told[1]);
    } else if told.len() == 1 {
        assert(reply[1] == SEMICOLON);
    }
    assert(reported(reply).push(RxEventView::SendPending) =~= seq![RxEventView::SendPending]);
}

/// What comes after a whole frame or reply is heard as if nothing had come before it.
pub proof fn messages_are_heard_one_by_one(first: Seq<u8>, rest: Seq<u8>)
    requires
        steps(RxState::idle(), first).0 == RxState::idle(),
    ensures
        steps(RxState::idle(), first + rest) == (
            steps(RxState::idle(), rest).0,
            steps(RxState::idle(), first).1 + steps(RxState::idle(), rest).1,
        ),
{
    reads_may_be_cut_anywhere(RxState::idle(), first, rest);
}

/// Each mode is shown under its own name.
pub proof fn modes_are_shown_by_name(mode: Mode)
    ensures
        mode.label() == match mode {
            Mode::Lsb => seq!['L', 'S', 'B'],
            Mode::Usb => seq!['U', 'S', 'B'],
            Mode::Cw => seq!['C', 'W'],
            Mode::Fm => seq!['F', 'M'],
            Mode::Am => seq!['A', 'M'],
        },
{
    reveal_strlit("LSB");
    reveal_strlit("USB");
    reveal_strlit("CW");
    reveal_strlit("FM");
    reveal_strlit("AM");
}

/// Before anything has come in, no frame is open and nothing waits.
pub proof fn idle_is_empty()
    ensures
        !RxState::idle().in_frame,
        RxState::idle().text.len() == 0,
        RxState::idle().wave.len() == 0,
{
}

/// An event is looked at as it stands, and events one by one.
pub proof fn events_are_what_is_there(events: Seq<RxEvent>, event: RxEvent)
    ensures
        event_views(events).len() == events.len(),
        forall|i: int| 0 <= i < events.len() ==> #[trigger] event_views(events)[i] == events[i]@,
        match event {
            RxEvent::Play(wave) => event@ == RxEventView::Play(wave@),
            RxEvent::Streaming => event@ == RxEventView::Streaming,
            RxEvent::Frequency(hz) => event@ == RxEventView::Frequency(hz),
            RxEvent::ModeChange(mode) => event@ == RxEventView::ModeChange(mode),
            RxEvent::SendPending => event@ == RxEventView::SendPending,
        },
{
}

} // verus!
