//! Sound: the virtual sound card, the streams on it, and the samples that go through them.

use vstd::prelude::*;
use vstd::utf8::{decode_utf8, valid_utf8};

use crate::demux::SEMICOLON;
use crate::number;
use crate::text;
use crate::utf8;

verus! {

/// How many samples of received audio the radio sends in a second.
pub const AUDIO_RX_RATE: u32 = 7812;

/// How many samples of audio to transmit the radio takes in a second.
pub const AUDIO_TX_RATE: u32 = 11520;

/// The numbers of the loaded modules that belong to the radio: the first word of each line that
/// names it.
pub open spec fn module_ids(listing: Seq<char>) -> Seq<Seq<char>> {
    text::lines(listing).filter(|line: Seq<char>| text::holds(line, "TRUSDX"@)).map_values(
        |line: Seq<char>| text::first_word(line),
    )
}

/// Reads the numbers of the modules that belong to the radio out of the listing of all modules.
pub fn trusdx_module_ids(listing: &str) -> (ids: Vec<String>)
    ensures
        text::string_texts(ids@) == module_ids(listing@),
{
    let chars = text::chars_of(listing);
    let lines = text::split_lines(chars.as_slice());
    let ghost all = text::lines(listing@);
    let ghost ours = |line: Seq<char>| text::holds(line, "TRUSDX"@);
    let ghost id = |line: Seq<char>| text::first_word(line);
    let mut ids: Vec<String> = Vec::new();
    let mut i: usize = 0;
    proof {
        reveal(Seq::filter);
        assert(text::string_texts(ids@) =~= all.take(0).filter(ours).map_values(id));
    }
    while i < lines.len()
        invariant
            i <= lines@.len(),
            text::texts(lines@) == all,
            ours == (|line: Seq<char>| text::holds(line, "TRUSDX"@)),
            id == (|line: Seq<char>| text::first_word(line)),
            text::string_texts(ids@) == all.take(i as int).filter(ours).map_values(id),
        decreases lines@.len() - i,
    {
        let line = lines[i].as_slice();
        let ghost found = all.take(i as int).filter(ours);
        let ghost so_far = text::string_texts(ids@);
        assert(line@ == all[i as int]);
        proof {
            reveal(Seq::filter);
            assert(all.take(i + 1).drop_last() =~= all.take(i as int));
            assert(all.take(i + 1).last() == line@);
        }
        if text::contains(line, "TRUSDX") {
            ids.push(text::string_of(text::leading_word(line)));
            assert(ours(line@));
            assert(all.take(i + 1).filter(ours) == found.push(line@));
            assert(found.push(line@).map_values(id) =~= so_far.push(id(line@)));
            assert(text::string_texts(ids@) =~= so_far.push(id(line@)));
        } else {
            assert(!ours(line@));
        }
        i += 1;
    }
    assert(all.take(all.len() as int) =~= all);
    ids
}

/// The modules that belong to the radio, out of what the lister of modules printed. They are to
/// be unloaded.
pub fn cleanup_trusdx_audio_interfaces(stdout: &[u8]) -> (ids: Vec<String>)
    ensures
        text::string_texts(ids@) == module_ids(utf8::utf8_lossy(stdout@)),
        valid_utf8(stdout@) ==> text::string_texts(ids@) == module_ids(decode_utf8(stdout@)),
{
    let listing = utf8::decode_lossy(stdout);
    trusdx_module_ids(listing.as_str())
}

/// The number of the module that was loaded, out of what the loader printed.
pub open spec fn module_number(printed: Seq<char>) -> Option<nat> {
    number::unsigned(text::trimmed(printed), u32::MAX as nat)
}

/// Reads the number of the module that was loaded.
pub fn read_module_number(printed: &str) -> (r: Option<u32>)
    ensures
        match r {
            Some(n) => module_number(printed@) == Some(n as nat),
            None => module_number(printed@) is None,
        },
{
    let chars = text::chars_of(printed);
    match number::read_unsigned(text::trim(chars.as_slice()), 0xffff_ffff) {
        Some(n) => Some(n as u32),
        None => None,
    }
}

/// The number of the module of the new sound card, out of how its loader ended and what it
/// printed; none unless the loader succeeded.
pub fn create_trusdx_audio_interface(success: bool, stdout: &[u8]) -> (r: Option<u32>)
    ensures
        match r {
            Some(n) => success && module_number(utf8::utf8_lossy(stdout@)) == Some(n as nat),
            None => !success || module_number(utf8::utf8_lossy(stdout@)) is None,
        },
        success && valid_utf8(stdout@) ==> match r {
            Some(n) => module_number(decode_utf8(stdout@)) == Some(n as nat),
            None => module_number(decode_utf8(stdout@)) is None,
        },
{
    if !success {
        return None;
    }
    let printed = utf8::decode_lossy(stdout);
    read_module_number(printed.as_str())
}

/// How much a stream buffers, in bytes.
#[derive(Clone, Copy, Debug, PartialEq, Eq, Structural)]
pub struct BufferAttr {
    pub maxlength: u32,
    pub tlength: u32,
    pub prebuf: u32,
    pub minreq: u32,
    pub fragsize: u32,
}

/// The buffers of a stream of `rate` samples a second of `sample_size` bytes each: a quarter of a
/// second at the most, 20 ms as a target, 10 ms before it starts and in a piece, and 5 ms at the
/// least.
pub fn create_buffer_attr(rate: u32, sample_size: usize) -> (attr: BufferAttr)
    requires
        (rate / 4) * (sample_size as u32) <= u32::MAX,
    ensures
        attr.maxlength == (rate / 4) * (sample_size as u32),
        attr.tlength == (rate / 50) * (sample_size as u32),
        attr.prebuf == (rate / 100) * (sample_size as u32),
        attr.minreq == (rate / 200) * (sample_size as u32),
        attr.fragsize == (rate / 100) * (sample_size as u32),
{
    let size: u32 = sample_size as u32;
    proof {
        let q = (rate / 4) as int;
        let s = size as int;
        assert((rate / 50) as int * s <= q * s) by (nonlinear_arith)
            requires
                (rate / 50) as int <= q,
                s >= 0,
        ;
        assert((rate / 100) as int * s <= q * s) by (nonlinear_arith)
            requires
                (rate / 100) as int <= q,
                s >= 0,
        ;
        assert((rate / 200) as int * s <= q * s) by (nonlinear_arith)
            requires
                (rate / 200) as int <= q,
                s >= 0,
        ;
    }
    BufferAttr {
        maxlength: (rate / 4) * size,
        tlength: (rate / 50) * size,
        prebuf: (rate / 100) * size,
        minreq: (rate / 200) * size,
        fragsize: (rate / 100) * size,
    }
}

/// How a sample is stored.
#[derive(Clone, Copy, Debug, PartialEq, Eq, Structural)]
pub enum SampleFormat {
    /// A 32-bit float, little-endian.
    Float32Le,
    /// A 16-bit signed integer, little-endian.
    Signed16Le,
}

/// Which way a stream runs.
#[derive(Clone, Copy, Debug, PartialEq, Eq, Structural)]
pub enum Direction {
    Playback,
    Record,
}

/// What a stream is opened with.
#[derive(Clone, Copy, Debug, PartialEq, Eq)]
pub struct StreamSetup {
    pub application: &'static str,
    pub direction: Direction,
    pub device: &'static str,
    pub description: &'static str,
    pub format: SampleFormat,
    pub channels: u8,
    pub rate: u32,
    pub attr: BufferAttr,
}

/// The stream of what the radio receives and that of what it is to transmit.
#[derive(Clone, Copy, Debug, PartialEq, Eq)]
pub struct AudioSetup {
    pub playback: StreamSetup,
    pub record: StreamSetup,
}

/// The buffers of a stream of `rate` samples a second of `size` bytes each.
pub open spec fn buffers(rate: u32, size: u32) -> BufferAttr {
    BufferAttr {
        maxlength: ((rate / 4) * size) as u32,
        tlength: ((rate / 50) * size) as u32,
        prebuf: ((rate / 100) * size) as u32,
        minreq: ((rate / 200) * size) as u32,
        fragsize: ((rate / 100) * size) as u32,
    }
}

/// How the two streams are opened: received audio is played to the sound card, and what is played
/// to the sound card is recorded for transmission.
pub fn setup_pulseaudio(audio_rx_rate: u32, audio_tx_rate: u32) -> (r: AudioSetup)
    ensures
        r.playback.application@ == "trusdxAudio"@,
        r.playback.direction == Direction::Playback,
        r.playback.device@ == "TRUSDX"@,
        r.playback.description@ == "Radio RX Audio"@,
        r.playback.format == SampleFormat::Float32Le,
        r.playback.channels == 1,
        r.playback.rate == audio_rx_rate,
        r.playback.attr == buffers(audio_rx_rate, 4),
        r.record.application@ == "trusdxAudio"@,
        r.record.direction == Direction::Record,
        r.record.device@ == "TRUSDX.monitor"@,
        r.record.description@ == "Radio TX Audio"@,
        r.record.format == SampleFormat::Signed16Le,
        r.record.channels == 1,
        r.record.rate == audio_tx_rate,
        r.record.attr == buffers(audio_tx_rate, 2),
{
    AudioSetup {
        playback: StreamSetup {
            application: "trusdxAudio",
            direction: Direction::Playback,
            device: "TRUSDX",
            description: "Radio RX Audio",
            format: SampleFormat::Float32Le,
            channels: 1,
            rate: audio_rx_rate,
            attr: create_buffer_attr(audio_rx_rate, 4),
        },
        record: StreamSetup {
            application: "trusdxAudio",
            direction: Direction::Record,
            device: "TRUSDX.monitor",
            description: "Radio TX Audio",
            format: SampleFormat::Signed16Le,
            channels: 1,
            rate: audio_tx_rate,
            attr: create_buffer_attr(audio_tx_rate, 2),
        },
    }
}

/// The 16-bit sample in two bytes, the low one first.
pub open spec fn sample_le(low: u8, high: u8) -> int {
    let n = low + 256 * high;
    if n < 0x8000 {
        n
    } else {
        n - 0x10000
    }
}

/// Reads 16-bit samples, low byte first, into `output`: as many as there are pairs of bytes and
/// places. The places past them, and a last odd byte, are left alone.
pub fn bytes_to_i16_le(bytes: &[u8], output: &mut [i16])
    ensures
        final(output)@.len() == old(output)@.len(),
        forall|i: int|
            0 <= i < old(output)@.len() ==> #[trigger] final(output)@[i] == (if 2 * i + 1
                < bytes@.len() {
                sample_le(bytes@[2 * i], bytes@[2 * i + 1])
            } else {
                old(output)@[i] as int
            }),
{
    let pairs: usize = bytes.len() / 2;
    let mut i: usize = 0;
    while i < pairs && i < output.len()
        invariant
            pairs == bytes@.len() / 2,
            bytes@.len() <= usize::MAX,
            i <= pairs,
            i <= output@.len(),
            output@.len() == old(output)@.len(),
            forall|j: int|
                0 <= j < output@.len() ==> #[trigger] output@[j] == (if j < i {
                    sample_le(bytes@[2 * j], bytes@[2 * j + 1])
                } else {
                    old(output)@[j] as int
                }),
        decreases pairs - i,
    {
        let low: i32 = bytes[2 * i] as i32;
        let high: i32 = bytes[2 * i + 1] as i32;
        let n: i32 = low + 256 * high;
        let sample: i16 = if n < 0x8000 {
            n as i16
        } else {
            (n - 0x10000) as i16
        };
        output[i] = sample;
        i += 1;
    }
}

/// The level, from 0 to 255, that stands for the sample `x` on the serial line: the middle is 128,
/// and 256 steps of the sample make one of the level, rounded towards the middle.
pub open spec fn line_level(x: i16) -> int {
    if x >= 0 {
        128 + x as int / 256
    } else {
        128 - (-(x as int)) / 256
    }
}

/// The byte that stands for the sample `x` on the serial line. A level that would read as the end
/// of the stream is sent as the one below it.
pub open spec fn line_byte(x: i16) -> int {
    if line_level(x) == SEMICOLON {
        SEMICOLON - 1
    } else {
        line_level(x)
    }
}

/// The bytes that stand for `samples` on the serial line.
pub open spec fn line_bytes(samples: Seq<i16>) -> Seq<u8> {
    samples.map_values(|x: i16| line_byte(x) as u8)
}

/// The bytes that stand for `samples` on the serial line. None of them ends the stream.
pub fn transmit_bytes(samples: &[i16]) -> (r: Vec<u8>)
    ensures
        r@ == line_bytes(samples@),
        !r@.contains(SEMICOLON),
{
    let mut r: Vec<u8> = Vec::new();
    let mut i: usize = 0;
    while i < samples.len()
        invariant
            i <= samples@.len(),
            r@.len() == i,
            forall|j: int| 0 <= j < i ==> #[trigger] r@[j] == line_byte(samples@[j]),
        decreases samples@.len() - i,
    {
        let x: i16 = samples[i];
        let level: i16 = 128 + x / 256;
        assert(level == line_level(x));
        let byte: u8 = level as u8;
        if byte == SEMICOLON {
            r.push(SEMICOLON - 1);
        } else {
            r.push(byte);
        }
        i += 1;
    }
    assert(r@ =~= line_bytes(samples@));
    r
}

/// How far the sample `b` of received audio is from the middle.
pub open spec fn deviation(b: u8) -> int {
    if b >= 128 {
        b - 128
    } else {
        128 - b
    }
}

/// The greatest distance of a sample of `wave` from the middle, in steps of which 128 are full
/// scale; zero for no samples.
pub fn peak_deviation(wave: &[u8]) -> (peak: u8)
    ensures
        peak <= 128,
        forall|i: int| 0 <= i < wave@.len() ==> deviation(#[trigger] wave@[i]) <= peak,
        peak > 0 ==> exists|i: int| 0 <= i < wave@.len() && deviation(#[trigger] wave@[i]) == peak,
{
    let mut peak: u8 = 0;
    let mut i: usize = 0;
    while i < wave.len()
        invariant
            i <= wave@.len(),
            peak <= 128,
            forall|j: int| 0 <= j < i ==> deviation(#[trigger] wave@[j]) <= peak,
            peak > 0 ==> exists|j: int| 0 <= j < i && deviation(#[trigger] wave@[j]) == peak,
        decreases wave@.len() - i,
    {
        let b: u8 = wave[i];
        let d: u8 = if b >= 128 {
            b - 128
        } else {
            128 - b
        };
        if d > peak {
            peak = d;
        }
        i += 1;
    }
    peak
}

/// The samples of `wave` as signed distances from the middle, of which 128 are full scale.
pub fn wave_offsets(wave: &[u8]) -> (r: Vec<i16>)
    ensures
        r@.len() == wave@.len(),
        forall|i: int| 0 <= i < r@.len() ==> #[trigger] r@[i] == wave@[i] - 128,
{
    let mut r: Vec<i16> = Vec::new();
    let mut i: usize = 0;
    while i < wave.len()
        invariant
            i <= wave@.len(),
            r@.len() == i,
            forall|j: int| 0 <= j < i ==> #[trigger] r@[j] == wave@[j] - 128,
        decreases wave@.len() - i,
    {
        r.push(wave[i] as i16 - 128);
        i += 1;
    }
    r
}

/// Every module of the radio that a listing shows has a number: none is the empty word.
pub proof fn module_ids_are_words(listing: Seq<char>, i: int)
    requires
        0 <= i < module_ids(listing).len(),
    ensures
        module_ids(listing)[i].len() > 0,
{
    reveal_strlit("TRUSDX");
    let ours = |line: Seq<char>| text::holds(line, "TRUSDX"@);
    let found = text::lines(listing).filter(ours);
    text::lines(listing).lemma_filter_pred(ours, i);
    let line = found[i];
    let at = choose|at: int| text::stands_at(line, "TRUSDX"@, at);
    assert(line.subrange(at, at + 6)[0] == line[at]);
    text::first_word_exists(line, at);
}

/// Each pair of bytes is one sample and each sample one pair of bytes.
pub proof fn samples_and_pairs_agree(low: u8, high: u8, other_low: u8, other_high: u8)
    ensures
        -0x8000 <= sample_le(low, high) < 0x8000,
        sample_le(low, high) == sample_le(other_low, other_high) <==> low == other_low && high
            == other_high,
{
}

/// On the serial line a louder sample is never a lower byte, the range is used from end to end, and
/// a level is changed by one step at the most.
pub proof fn line_bytes_keep_order(x: i16, y: i16)
    ensures
        0 <= line_byte(x) <= 255,
        x <= y ==> line_byte(x) <= line_byte(y),
        line_byte(i16::MIN) == 0,
        line_byte(0) == 128,
        line_byte(i16::MAX) == 255,
        line_level(x) - 1 <= line_byte(x) <= line_level(x),
        line_byte(x) != SEMICOLON,
{
}

/// The buffers of a stream nest: what is asked for at the least fits in a piece, a piece in the
/// target, the target in what is kept at the most, and that is no more than a quarter of a second.
/// Each holds whole samples.
pub proof fn buffers_nest(rate: u32, size: u32)
    requires
        (rate / 4) * size <= u32::MAX,
    ensures
        ({
            let attr = buffers(rate, size);
            &&& attr.minreq <= attr.prebuf
            &&& attr.prebuf == attr.fragsize
            &&& attr.prebuf <= attr.tlength
            &&& attr.tlength <= attr.maxlength
            &&& 4 * attr.maxlength <= rate * size
            &&& size > 0 ==> {
                &&& attr.maxlength % size == 0
                &&& attr.tlength % size == 0
                &&& attr.prebuf % size == 0
                &&& attr.minreq % size == 0
                &&& attr.fragsize % size == 0
            }
        }),
{
    let s = size as int;
    let a = (rate / 200) as int;
    let b = (rate / 100) as int;
    let c = (rate / 50) as int;
    let d = (rate / 4) as int;
    let e = rate as int;
    assert(0 <= a * s <= b * s && b * s <= c * s && c * s <= d * s && 4 * (d * s) <= e * s)
        by (nonlinear_arith)
        requires
            0 <= a <= b,
            b <= c,
            c <= d,
            4 * d <= e,
            s >= 0,
    ;
    if s > 0 {
        vstd::arithmetic::div_mod::lemma_mod_multiples_basic(a, s);
        vstd::arithmetic::div_mod::lemma_mod_multiples_basic(b, s);
        vstd::arithmetic::div_mod::lemma_mod_multiples_basic(c, s);
        vstd::arithmetic::div_mod::lemma_mod_multiples_basic(d, s);
    }
}

/// What is sent of a sample is close to it: less than two levels away, and less than one where the
/// level did not have to give way.
pub proof fn line_byte_is_close(x: i16)
    ensures
        -512 < x - 256 * (line_byte(x) - 128) < 512,
        line_level(x) != SEMICOLON ==> -256 < x - 256 * (line_byte(x) - 128) < 256,
{
}

/// A sample that lies `k` whole steps of 256 from zero, counted towards zero, is sent as the byte
/// 128 + `k`; only the byte that would end the stream is sent as the one below it.
pub proof fn sample_is_sent_as_its_step(x: i16, k: int)
    requires
        -128 <= k <= 127,
        k > 0 ==> 256 * k <= x < 256 * k + 256,
        k == 0 ==> -256 < x < 256,
        k < 0 ==> 256 * k - 256 < x <= 256 * k,
    ensures
        line_byte(x) == (if 128 + k == 0x3b {
            0x3a
        } else {
            128 + k
        }),
{
}

/// Every sample is sent, as one byte, and the bytes go in the order of the samples.
pub proof fn every_sample_is_sent(samples: Seq<i16>)
    ensures
        line_bytes(samples).len() == samples.len(),
        forall|i: int| 0 <= i < samples.len() ==> #[trigger] line_bytes(samples)[i] == line_byte(samples[i]),
        forall|i: int| 0 <= i < samples.len() ==> #[trigger] line_bytes(samples)[i] != 0x3b,
{
    assert forall|i: int| 0 <= i < samples.len() implies #[trigger] line_bytes(samples)[i]
        == line_byte(samples[i]) && line_bytes(samples)[i] != 0x3b by {
        line_bytes_keep_order(samples[i], samples[i]);
    }
}

/// A sample is its two bytes as a number in two's complement.
pub proof fn sample_is_its_bytes(low: u8, high: u8)
    ensures
        high < 0x80 ==> sample_le(low, high) == 256 * high + low,
        high >= 0x80 ==> sample_le(low, high) == 256 * (high - 256) + low,
{
}

/// The deviation is the distance from 128, on either side.
pub proof fn deviation_is_a_distance(b: u8, d: int)
    requires
        0 <= d,
        b == 128 + d || b == 128 - d,
    ensures
        deviation(b) == d,
{
}

/// How long the buffers last: a quarter of a second, a fiftieth, a hundredth and a two-hundredth,
/// in whole samples.
pub proof fn buffers_last_so_long(rate: u32, size: u32, q: int, f: int, h: int, t: int)
    requires
        (rate / 4) * size <= u32::MAX,
        4 * q <= rate < 4 * q + 4,
        50 * f <= rate < 50 * f + 50,
        100 * h <= rate < 100 * h + 100,
        200 * t <= rate < 200 * t + 200,
    ensures
        buffers(rate, size).maxlength == q * size,
        buffers(rate, size).tlength == f * size,
        buffers(rate, size).prebuf == h * size,
        buffers(rate, size).minreq == t * size,
        buffers(rate, size).fragsize == h * size,
{
    assert(q == rate / 4 && f == rate / 50 && h == rate / 100 && t == rate / 200);
    let s = size as int;
    assert(0 <= t * s && t * s <= q * s && 0 <= h * s && h * s <= q * s && 0 <= f * s && f * s
        <= q * s) by (nonlinear_arith)
        requires
            0 <= t <= q,
            0 <= h <= q,
            0 <= f <= q,
            s >= 0,
    ;
}

/// The listing is read line by line: a line that names the radio, with any text before the name and
/// any text after it, gives the word it starts with, and any other line gives nothing.
pub proof fn modules_are_found_line_by_line(line: Seq<char>, rest: Seq<char>)
    requires
        !line.contains('\n'),
    ensures
        ({
            let named = exists|a: Seq<char>, b: Seq<char>| line == #[trigger] (a + "TRUSDX"@ + b);
            let found = if named {
                seq![text::first_word(line)]
            } else {
                Seq::empty()
            };
            &&& module_ids(line + seq!['\n'] + rest) == found + module_ids(rest)
            &&& module_ids(line) == found
            &&& module_ids(Seq::<char>::empty()).len() == 0
        }),
{
    reveal_strlit("TRUSDX");
    let t = "TRUSDX"@;
    assert(t.len() == 6);
    text::held_text_has_two_sides(line, t);
    let named = exists|a: Seq<char>, b: Seq<char>| line == #[trigger] (a + t + b);
    assert(named == text::holds(line, t));
    let ours = |line: Seq<char>| text::holds(line, "TRUSDX"@);
    let id = |line: Seq<char>| text::first_word(line);
    text::lines_come_one_by_one(line, rest);
    let one = seq![line];
    let others = text::lines(rest);
    assert(one.filter(ours) == if named {
        one
    } else {
        Seq::empty()
    }) by {
        reveal(Seq::filter);
        assert(one.drop_last() =~= Seq::<Seq<char>>::empty());
        assert(Seq::<Seq<char>>::empty().filter(ours) =~= Seq::empty());
        assert(Seq::<Seq<char>>::empty().push(line) =~= one);
    }
    Seq::filter_distributes_over_add(one, others, ours);
    let found = if named {
        seq![text::first_word(line)]
    } else {
        Seq::empty()
    };
    assert((one.filter(ours) + others.filter(ours)).map_values(id) =~= found + others.filter(
        ours,
    ).map_values(id));
    assert(one.filter(ours).map_values(id) =~= found);
    let none = text::lines(Seq::<char>::empty());
    assert(none.filter(ours).len() == 0) by {
        reveal(Seq::filter);
    }
    if line.len() == 0 {
        assert(line =~= Seq::empty());
        if named {
            let (a, b) = choose|a: Seq<char>, b: Seq<char>| line == #[trigger] (a + t + b);
            assert((a + t + b).len() >= 6);
        }
        assert(module_ids(line) =~= found);
    }
}

/// The number of a module is what the digits are worth that the loader printed, with white space
/// around them or none, where 32 bits hold it. A plus sign in front changes nothing.
pub proof fn module_number_is_read(before: Seq<char>, digits: Seq<char>, after: Seq<char>)
    requires
        text::blank(before),
        text::blank(after),
        digits.len() > 0,
        forall|i: int| 0 <= i < digits.len() ==> '0' <= (#[trigger] digits[i]) <= '9',
    ensures
        ({
            let read = if number::value(digits) <= 4294967295 {
                Some(number::value(digits))
            } else {
                None
            };
            &&& module_number(before + digits + after) == read
            &&& module_number(before + (seq!['+'] + digits) + after) == read
        }),
{
    assert('0' <= digits[0] <= '9');
    assert('0' <= digits[digits.len() - 1] <= '9');
    text::middle_is_left(before, digits, after);
    text::middle_is_left(before, seq!['+'] + digits, after);
    number::digits_are_read(digits, 4294967295);
}

/// And what does not start and end with digits, but for a plus sign in front, is no number, nor is
/// what has anything else in between.
pub proof fn other_print_is_no_module_number(
    before: Seq<char>,
    middle: Seq<char>,
    after: Seq<char>,
    i: int,
)
    requires
        text::blank(before),
        text::blank(after),
        middle.len() > 0,
        !text::is_white_space(middle[0]),
        !text::is_white_space(middle.last()),
        0 <= i < middle.len(),
        !('0' <= middle[i] <= '9'),
        i > 0 || middle[0] != '+' || middle.len() == 1,
    ensures
        module_number(before + middle + after) is None,
        module_number(before) is None,
{
    text::middle_is_left(before, middle, after);
    number::other_text_is_no_number(middle, 4294967295, i);
    text::nothing_is_left_of_blank_text(before);
    number::other_text_is_no_number(text::trimmed(before), 4294967295, 0);
}

/// How fast audio goes in and out, and in which pieces.
pub proof fn audio_has_its_pace()
    ensures
        AUDIO_RX_RATE == 7812,
        AUDIO_TX_RATE == 11520,
{
}

} // verus!
