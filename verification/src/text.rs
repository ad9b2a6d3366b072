//! Text as the radio link and its neighbours write it: white space, words, and ASCII.

use vstd::prelude::*;
use vstd::utf8::is_ascii_chars;

verus! {

/// `String::push` appends one character at the end.
pub assume_specification[ String::push ](s: &mut String, c: char)
    ensures
        final(s)@ == old(s)@.push(c),
;

/// The bytes of an ASCII text, one for each character.
pub open spec fn ascii(s: Seq<char>) -> Seq<u8> {
    s.map_values(|c: char| c as u8)
}

/// The bytes of the ASCII text `s`.
pub fn ascii_bytes(s: &str) -> (r: Vec<u8>)
    requires
        is_ascii_chars(s@),
    ensures
        r@ == ascii(s@),
{
    let r = vstd::slice::slice_to_vec(s.as_bytes());
    proof {
        vstd::utf8::is_ascii_chars_encode_utf8(s@);
        assert(r@ =~= ascii(s@));
    }
    r
}

/// The characters of `s`.
pub fn chars_of(s: &str) -> (v: Vec<char>)
    ensures
        v@ == s@,
{
    let mut v: Vec<char> = Vec::new();
    for c in it: s.chars()
        invariant
            it.seq() == s@,
            v@ == s@.take(it.index() as int),
    {
        v.push(c);
    }
    assert(s@.take(s@.len() as int) =~= s@);
    v
}

/// The text that the characters `v` make.
pub fn string_of(v: &[char]) -> (s: String)
    ensures
        s@ == v@,
{
    let mut s = String::new();
    let mut i: usize = 0;
    while i < v.len()
        invariant
            i <= v@.len(),
            s@ == v@.take(i as int),
        decreases v@.len() - i,
    {
        s.push(v[i]);
        i += 1;
        assert(v@.take(i as int) =~= v@.take(i - 1).push(v@[i - 1]));
    }
    assert(v@.take(v@.len() as int) =~= v@);
    s
}

/// Appends `t` to `s`.
pub fn append(s: &mut String, t: &str)
    ensures
        final(s)@ == old(s)@ + t@,
{
    for c in it: t.chars()
        invariant
            it.seq() == t@,
            s@ == old(s)@ + t@.take(it.index() as int),
    {
        s.push(c);
    }
    assert(t@.take(t@.len() as int) =~= t@);
}

/// Whether the characters `v` spell `s`.
pub fn spells(v: &[char], s: &str) -> (r: bool)
    ensures
        r == (v@ == s@),
{
    let w = chars_of(s);
    if v.len() != w.len() {
        return false;
    }
    let mut i: usize = 0;
    while i < v.len()
        invariant
            v@.len() == w@.len(),
            i <= v@.len(),
            w@ == s@,
            v@.take(i as int) == w@.take(i as int),
        decreases v@.len() - i,
    {
        if v[i] != w[i] {
            return false;
        }
        i += 1;
        assert(v@.take(i as int) =~= v@.take(i - 1).push(v@[i - 1]));
        assert(w@.take(i as int) =~= w@.take(i - 1).push(w@[i - 1]));
    }
    assert(v@.take(v@.len() as int) =~= v@);
    assert(w@.take(w@.len() as int) =~= w@);
    true
}

/// The Unicode property White_Space.
pub open spec fn is_white_space(c: char) -> bool {
    ||| 0x9 <= c as u32 <= 0xd
    ||| c as u32 == 0x20
    ||| c as u32 == 0x85
    ||| c as u32 == 0xa0
    ||| c as u32 == 0x1680
    ||| 0x2000 <= c as u32 <= 0x200a
    ||| c as u32 == 0x2028
    ||| c as u32 == 0x2029
    ||| c as u32 == 0x202f
    ||| c as u32 == 0x205f
    ||| c as u32 == 0x3000
}

/// ASCII white space: space, tab, line feed, form feed and carriage return.
pub open spec fn is_ascii_white_space(c: char) -> bool {
    ||| c == ' '
    ||| c == '\t'
    ||| c == '\n'
    ||| c as u32 == 0xc
    ||| c == '\r'
}

/// Whether `c` has the Unicode property White_Space.
pub fn white_space(c: char) -> (r: bool)
    ensures
        r == is_white_space(c),
{
    let n: u32 = c as u32;
    (0x9 <= n && n <= 0xd) || n == 0x20 || n == 0x85 || n == 0xa0 || n == 0x1680 || (0x2000 <= n
        && n <= 0x200a) || n == 0x2028 || n == 0x2029 || n == 0x202f || n == 0x205f || n == 0x3000
}

/// Whether `c` is ASCII white space.
pub fn ascii_white_space(c: char) -> (r: bool)
    ensures
        r == is_ascii_white_space(c),
{
    let n: u32 = c as u32;
    n == 0x20 || n == 0x9 || n == 0xa || n == 0xc || n == 0xd
}

/// `s` without the white space at its start.
pub open spec fn trim_start(s: Seq<char>) -> Seq<char>
    decreases s.len(),
{
    if s.len() > 0 && is_white_space(s[0]) {
        trim_start(s.skip(1))
    } else {
        s
    }
}

/// `s` without the white space at its end.
pub open spec fn trim_end(s: Seq<char>) -> Seq<char>
    decreases s.len(),
{
    if s.len() > 0 && is_white_space(s.last()) {
        trim_end(s.drop_last())
    } else {
        s
    }
}

/// `s` without the white space at either end.
pub open spec fn trimmed(s: Seq<char>) -> Seq<char> {
    trim_end(trim_start(s))
}

/// `v` without the white space at its start.
pub fn without_leading_space(v: &[char]) -> (r: &[char])
    ensures
        r@ == trim_start(v@),
{
    let mut lo: usize = 0;
    assert(v@.skip(0) =~= v@);
    while lo < v.len() && white_space(v[lo])
        invariant
            lo <= v@.len(),
            trim_start(v@) == trim_start(v@.skip(lo as int)),
        decreases v@.len() - lo,
    {
        assert(v@.skip(lo as int).skip(1) =~= v@.skip(lo + 1));
        lo += 1;
    }
    assert(v@.subrange(lo as int, v@.len() as int) =~= v@.skip(lo as int));
    vstd::slice::slice_subrange(v, lo, v.len())
}

/// `v` without the white space at either end.
pub fn trim(v: &[char]) -> (r: &[char])
    ensures
        r@ == trimmed(v@),
{
    let w = without_leading_space(v);
    let mut hi: usize = w.len();
    assert(w@.take(hi as int) =~= w@);
    while hi > 0 && white_space(w[hi - 1])
        invariant
            hi <= w@.len(),
            trim_end(w@) == trim_end(w@.take(hi as int)),
        decreases hi,
    {
        assert(w@.take(hi as int).drop_last() =~= w@.take(hi - 1));
        hi -= 1;
    }
    assert(w@.subrange(0, hi as int) =~= w@.take(hi as int));
    vstd::slice::slice_subrange(w, 0, hi)
}

/// How many characters stand before the first white space of `s`.
pub open spec fn word_len(s: Seq<char>) -> nat
    decreases s.len(),
{
    if s.len() > 0 && !is_white_space(s[0]) {
        1 + word_len(s.skip(1))
    } else {
        0
    }
}

/// The first of the words that white space separates in `s`; empty if there is none.
pub open spec fn first_word(s: Seq<char>) -> Seq<char> {
    trim_start(s).take(word_len(trim_start(s)) as int)
}

/// A word is no longer than the text it starts.
pub proof fn word_len_bound(s: Seq<char>)
    ensures
        word_len(s) <= s.len(),
    decreases s.len(),
{
    if s.len() > 0 && !is_white_space(s[0]) {
        word_len_bound(s.skip(1));
    }
}

/// The first of the words that white space separates in `v`; empty if there is none.
pub fn leading_word(v: &[char]) -> (r: &[char])
    ensures
        r@ == first_word(v@),
{
    let w = without_leading_space(v);
    let mut n: usize = 0;
    assert(w@.skip(0) =~= w@);
    while n < w.len() && !white_space(w[n])
        invariant
            n <= w@.len(),
            word_len(w@) == n + word_len(w@.skip(n as int)),
        decreases w@.len() - n,
    {
        assert(w@.skip(n as int).skip(1) =~= w@.skip(n + 1));
        n += 1;
    }
    assert(w@.subrange(0, n as int) =~= w@.take(n as int));
    vstd::slice::slice_subrange(w, 0, n)
}

/// How many characters stand before the first ASCII white space of `s`.
pub open spec fn ascii_word_len(s: Seq<char>) -> nat
    decreases s.len(),
{
    if s.len() > 0 && !is_ascii_white_space(s[0]) {
        1 + ascii_word_len(s.skip(1))
    } else {
        0
    }
}

/// An ASCII word is no longer than the text it starts.
pub proof fn ascii_word_len_bound(s: Seq<char>)
    ensures
        ascii_word_len(s) <= s.len(),
        s.len() > 0 && !is_ascii_white_space(s[0]) ==> ascii_word_len(s) > 0,
    decreases s.len(),
{
    if s.len() > 0 && !is_ascii_white_space(s[0]) {
        ascii_word_len_bound(s.skip(1));
    }
}

/// The words that ASCII white space separates in `s`, in order.
pub open spec fn ascii_words(s: Seq<char>) -> Seq<Seq<char>>
    decreases s.len(),
    via ascii_words_shrink
{
    if s.len() == 0 {
        Seq::empty()
    } else if is_ascii_white_space(s[0]) {
        ascii_words(s.skip(1))
    } else {
        let n = ascii_word_len(s) as int;
        seq![s.take(n)] + ascii_words(s.skip(n))
    }
}

#[via_fn]
proof fn ascii_words_shrink(s: Seq<char>) {
    ascii_word_len_bound(s);
}

/// What each of the words spells.
pub open spec fn texts(words: Seq<Vec<char>>) -> Seq<Seq<char>> {
    words.map_values(|w: Vec<char>| w@)
}

/// What each of the strings holds.
pub open spec fn string_texts(strings: Seq<String>) -> Seq<Seq<char>> {
    strings.map_values(|s: String| s@)
}

/// The words that ASCII white space separates in `v`, in order.
pub fn split_ascii(v: &[char]) -> (words: Vec<Vec<char>>)
    ensures
        texts(words@) == ascii_words(v@),
{
    let mut words: Vec<Vec<char>> = Vec::new();
    let mut at: usize = 0;
    assert(v@.skip(0) =~= v@);
    assert(texts(words@) =~= Seq::empty());
    while at < v.len()
        invariant
            at <= v@.len(),
            ascii_words(v@) == texts(words@) + ascii_words(v@.skip(at as int)),
        decreases v@.len() - at,
    {
        let ghost rest = v@.skip(at as int);
        let ghost before = texts(words@);
        if ascii_white_space(v[at]) {
            at += 1;
            assert(rest.skip(1) =~= v@.skip(at as int));
        } else {
            let start: usize = at;
            let mut word: Vec<char> = Vec::new();
            while at < v.len() && !ascii_white_space(v[at])
                invariant
                    start <= at <= v@.len(),
                    rest == v@.skip(start as int),
                    word@ == v@.subrange(start as int, at as int),
                    ascii_word_len(rest) == at - start + ascii_word_len(v@.skip(at as int)),
                decreases v@.len() - at,
            {
                assert(v@.skip(at as int).skip(1) =~= v@.skip(at + 1));
                word.push(v[at]);
                at += 1;
                assert(word@ =~= v@.subrange(start as int, at as int));
            }
            let ghost n = ascii_word_len(rest) as int;
            assert(n == at - start);
            assert(n > 0) by {
                ascii_word_len_bound(rest);
            }
            assert(word@ =~= rest.take(n));
            assert(rest.skip(n) =~= v@.skip(at as int));
            words.push(word);
            assert(texts(words@) =~= before + seq![rest.take(n)]);
            assert(ascii_words(rest) == seq![rest.take(n)] + ascii_words(rest.skip(n)));
            assert(texts(words@) + ascii_words(v@.skip(at as int)) =~= before + ascii_words(rest));
        }
    }
    assert(ascii_words(v@.skip(at as int)) =~= Seq::empty());
    assert(texts(words@) =~= ascii_words(v@));
    words
}

/// How many characters stand before the first line feed of `s`.
pub open spec fn line_len(s: Seq<char>) -> nat
    decreases s.len(),
{
    if s.len() > 0 && s[0] != '\n' {
        1 + line_len(s.skip(1))
    } else {
        0
    }
}

/// The lines of `s`, without the line feeds that end them; the last one need not be ended.
pub open spec fn lines(s: Seq<char>) -> Seq<Seq<char>>
    decreases s.len(),
{
    let n = line_len(s) as int;
    if s.len() == 0 {
        Seq::empty()
    } else if n < s.len() {
        seq![s.take(n)] + lines(s.skip(n + 1))
    } else {
        seq![s]
    }
}

/// The lines of `v`.
pub fn split_lines(v: &[char]) -> (r: Vec<Vec<char>>)
    ensures
        texts(r@) == lines(v@),
{
    let mut r: Vec<Vec<char>> = Vec::new();
    let mut at: usize = 0;
    assert(v@.skip(0) =~= v@);
    assert(texts(r@) =~= Seq::empty());
    while at < v.len()
        invariant
            at <= v@.len(),
            lines(v@) == texts(r@) + lines(v@.skip(at as int)),
        decreases v@.len() - at,
    {
        let start: usize = at;
        let ghost rest = v@.skip(start as int);
        let ghost before = texts(r@);
        let mut line: Vec<char> = Vec::new();
        while at < v.len() && v[at] != '\n'
            invariant
                start <= at <= v@.len(),
                rest == v@.skip(start as int),
                line@ == v@.subrange(start as int, at as int),
                line_len(rest) == at - start + line_len(v@.skip(at as int)),
            decreases v@.len() - at,
        {
            assert(v@.skip(at as int).skip(1) =~= v@.skip(at + 1));
            line.push(v[at]);
            at += 1;
            assert(line@ =~= v@.subrange(start as int, at as int));
        }
        let ghost n = line_len(rest) as int;
        assert(n == at - start);
        assert(line@ =~= rest.take(n));
        r.push(line);
        assert(texts(r@) =~= before.push(rest.take(n)));
        if at < v.len() {
            at += 1;
            assert(rest.skip(n + 1) =~= v@.skip(at as int));
            assert(before + (seq![rest.take(n)] + lines(rest.skip(n + 1))) =~= before.push(
                rest.take(n),
            ) + lines(rest.skip(n + 1)));
        } else {
            assert(rest.take(n) =~= rest);
            assert(v@.skip(at as int) =~= Seq::empty());
            assert(before + seq![rest] =~= before.push(rest) + lines(v@.skip(at as int)));
        }
    }
    assert(v@.skip(at as int) =~= Seq::empty());
    assert(texts(r@) =~= lines(v@));
    r
}

/// Whether `t` stands in `s` from its character `i` on.
pub open spec fn stands_at(s: Seq<char>, t: Seq<char>, i: int) -> bool {
    0 <= i && i + t.len() <= s.len() && s.subrange(i, i + t.len()) == t
}

/// Whether `t` stands somewhere in `s`.
pub open spec fn holds(s: Seq<char>, t: Seq<char>) -> bool {
    exists|i: int| stands_at(s, t, i)
}

/// Whether `t` stands somewhere in `v`.
pub fn contains(v: &[char], t: &str) -> (r: bool)
    ensures
        r == holds(v@, t@),
{
    let n: usize = chars_of(t).len();
    if v.len() < n {
        return false;
    }
    let mut i: usize = 0;
    while i <= v.len() - n
        invariant
            n == t@.len(),
            n <= v@.len(),
            i <= v@.len() - n + 1,
            forall|j: int| 0 <= j < i ==> !stands_at(v@, t@, j),
        decreases v@.len() - n + 1 - i,
    {
        if spells(vstd::slice::slice_subrange(v, i, i + n), t) {
            assert(stands_at(v@, t@, i as int));
            return true;
        }
        if i == v.len() - n {
            assert forall|j: int| !stands_at(v@, t@, j) by {}
            return false;
        }
        i += 1;
    }
    false
}

/// A text with something other than white space in it has a first word.
pub proof fn first_word_exists(s: Seq<char>, i: int)
    requires
        0 <= i < s.len(),
        !is_white_space(s[i]),
    ensures
        first_word(s).len() > 0,
    decreases s.len(),
{
    if is_white_space(s[0]) {
        assert(s.skip(1)[i - 1] == s[i]);
        first_word_exists(s.skip(1), i - 1);
    } else {
        word_len_bound(s);
        assert(word_len(s) > 0);
    }
}

/// Every character of an ASCII text is one byte, and the byte is its code.
pub proof fn ascii_is_byte_for_character(s: Seq<char>)
    ensures
        ascii(s).len() == s.len(),
        forall|i: int| 0 <= i < s.len() ==> #[trigger] ascii(s)[i] == s[i] as u8,
{
}

/// What is not white space: the characters between those that are. And ASCII white space is what
/// of it is ASCII, save the vertical tab.
pub proof fn white_space_is_known(c: char)
    ensures
        ({
            let u = c as u32;
            !is_white_space(c) <==> {
                ||| u < 0x9
                ||| 0xd < u < 0x20
                ||| 0x20 < u < 0x85
                ||| 0x85 < u < 0xa0
                ||| 0xa0 < u < 0x1680
                ||| 0x1680 < u < 0x2000
                ||| 0x200a < u < 0x2028
                ||| 0x2029 < u < 0x202f
                ||| 0x202f < u < 0x205f
                ||| 0x205f < u < 0x3000
                ||| 0x3000 < u
            }
        }),
        is_ascii_white_space(c) <==> is_white_space(c) && (c as u32) < 0x80 && c as u32 != 0xb,
{
}

/// Whether `s` is nothing but white space.
pub open spec fn blank(s: Seq<char>) -> bool {
    forall|i: int| 0 <= i < s.len() ==> is_white_space(#[trigger] s[i])
}

/// Whether `s` has no white space in it.
pub open spec fn solid(s: Seq<char>) -> bool {
    forall|i: int| 0 <= i < s.len() ==> !is_white_space(#[trigger] s[i])
}

/// Blank text in front of a text that does not start with white space is taken away, all of it and
/// nothing else.
pub proof fn leading_space_goes(before: Seq<char>, rest: Seq<char>)
    requires
        blank(before),
        rest.len() == 0 || !is_white_space(rest[0]),
    ensures
        trim_start(before + rest) == rest,
    decreases before.len(),
{
    if before.len() == 0 {
        assert(before + rest =~= rest);
    } else {
        let fewer = before.skip(1);
        assert forall|i: int| 0 <= i < fewer.len() implies is_white_space(#[trigger] fewer[i]) by {
            assert(fewer[i] == before[i + 1]);
        }
        leading_space_goes(fewer, rest);
        assert((before + rest)[0] == before[0]);
        assert((before + rest).skip(1) =~= fewer + rest);
    }
}

/// And so with blank text at the end.
pub proof fn trailing_space_goes(rest: Seq<char>, after: Seq<char>)
    requires
        blank(after),
        rest.len() == 0 || !is_white_space(rest.last()),
    ensures
        trim_end(rest + after) == rest,
    decreases after.len(),
{
    if after.len() == 0 {
        assert(rest + after =~= rest);
    } else {
        let fewer = after.drop_last();
        assert forall|i: int| 0 <= i < fewer.len() implies is_white_space(#[trigger] fewer[i]) by {
            assert(fewer[i] == after[i]);
        }
        trailing_space_goes(rest, fewer);
        assert((rest + after).last() == after[after.len() - 1]);
        assert((rest + after).drop_last() =~= rest + fewer);
    }
}

/// A text that starts and ends with something other than white space is what is left of it with
/// blank text on both sides.
pub proof fn middle_is_left(before: Seq<char>, middle: Seq<char>, after: Seq<char>)
    requires
        blank(before),
        blank(after),
        middle.len() > 0,
        !is_white_space(middle[0]),
        !is_white_space(middle.last()),
    ensures
        trimmed(before + middle + after) == middle,
{
    assert(before + middle + after =~= before + (middle + after));
    assert((middle + after)[0] == middle[0]);
    leading_space_goes(before, middle + after);
    trailing_space_goes(middle, after);
}

/// Of blank text nothing is left.
pub proof fn nothing_is_left_of_blank_text(s: Seq<char>)
    requires
        blank(s),
    ensures
        trimmed(s).len() == 0,
        first_word(s).len() == 0,
{
    let none = Seq::<char>::empty();
    leading_space_goes(s, none);
    assert(s + none =~= s);
}

/// A word with white space after it, or nothing, is as long as it is.
proof fn word_len_stops(w: Seq<char>, rest: Seq<char>)
    requires
        solid(w),
        rest.len() == 0 || is_white_space(rest[0]),
    ensures
        word_len(w + rest) == w.len(),
    decreases w.len(),
{
    let s = w + rest;
    if w.len() == 0 {
        assert(s =~= rest);
    } else {
        let tail = w.skip(1);
        assert forall|i: int| 0 <= i < tail.len() implies !is_white_space(#[trigger] tail[i]) by {
            assert(tail[i] == w[i + 1]);
        }
        word_len_stops(tail, rest);
        assert(s[0] == w[0]);
        assert(s.skip(1) =~= tail + rest);
    }
}

/// The first word of a text is what stands between the white space in front and that after it.
pub proof fn first_word_is_first(before: Seq<char>, w: Seq<char>, rest: Seq<char>)
    requires
        blank(before),
        w.len() > 0,
        solid(w),
        rest.len() == 0 || is_white_space(rest[0]),
    ensures
        first_word(before + w + rest) == w,
{
    let s = w + rest;
    assert(before + w + rest =~= before + s);
    assert(s[0] == w[0]);
    leading_space_goes(before, s);
    word_len_stops(w, rest);
    assert(s.take(w.len() as int) =~= w);
}

/// ASCII white space in front of words is passed over.
proof fn ascii_space_is_passed_over(before: Seq<char>, rest: Seq<char>)
    requires
        forall|i: int| 0 <= i < before.len() ==> is_ascii_white_space(#[trigger] before[i]),
    ensures
        ascii_words(before + rest) == ascii_words(rest),
    decreases before.len(),
{
    if before.len() == 0 {
        assert(before + rest =~= rest);
    } else {
        let fewer = before.skip(1);
        assert forall|i: int| 0 <= i < fewer.len() implies is_ascii_white_space(
            #[trigger] fewer[i],
        ) by {
            assert(fewer[i] == before[i + 1]);
        }
        ascii_space_is_passed_over(fewer, rest);
        assert((before + rest)[0] == before[0]);
        assert((before + rest).skip(1) =~= fewer + rest);
    }
}

proof fn ascii_word_len_stops(w: Seq<char>, rest: Seq<char>)
    requires
        forall|i: int| 0 <= i < w.len() ==> !is_ascii_white_space(#[trigger] w[i]),
        rest.len() == 0 || is_ascii_white_space(rest[0]),
    ensures
        ascii_word_len(w + rest) == w.len(),
    decreases w.len(),
{
    let s = w + rest;
    if w.len() == 0 {
        assert(s =~= rest);
    } else {
        let tail = w.skip(1);
        assert forall|i: int| 0 <= i < tail.len() implies !is_ascii_white_space(
            #[trigger] tail[i],
        ) by {
            assert(tail[i] == w[i + 1]);
        }
        ascii_word_len_stops(tail, rest);
        assert(s[0] == w[0]);
        assert(s.skip(1) =~= tail + rest);
    }
}

/// Words come one by one: the first is what stands between ASCII white space in front of it and
/// behind it, and the others are the words of what follows.
pub proof fn words_come_one_by_one(before: Seq<char>, w: Seq<char>, rest: Seq<char>)
    requires
        forall|i: int| 0 <= i < before.len() ==> is_ascii_white_space(#[trigger] before[i]),
        w.len() > 0,
        forall|i: int| 0 <= i < w.len() ==> !is_ascii_white_space(#[trigger] w[i]),
        rest.len() == 0 || is_ascii_white_space(rest[0]),
    ensures
        ascii_words(before + w + rest) == seq![w] + ascii_words(rest),
{
    let s = w + rest;
    assert(before + w + rest =~= before + s);
    ascii_space_is_passed_over(before, s);
    ascii_word_len_stops(w, rest);
    assert(s[0] == w[0]);
    assert(s.take(w.len() as int) =~= w);
    assert(s.skip(w.len() as int) =~= rest);
}

/// There are no words in white space.
pub proof fn no_words_in_white_space(s: Seq<char>)
    requires
        forall|i: int| 0 <= i < s.len() ==> is_ascii_white_space(#[trigger] s[i]),
    ensures
        ascii_words(s).len() == 0,
{
    let none = Seq::<char>::empty();
    ascii_space_is_passed_over(s, none);
    assert(s + none =~= s);
}

proof fn line_len_stops(a: Seq<char>, rest: Seq<char>)
    requires
        !a.contains('\n'),
        rest.len() == 0 || rest[0] == '\n',
    ensures
        line_len(a + rest) == a.len(),
    decreases a.len(),
{
    let s = a + rest;
    if a.len() == 0 {
        assert(s =~= rest);
    } else {
        let tail = a.skip(1);
        assert(!tail.contains('\n')) by {
            assert(forall|i: int| 0 <= i < tail.len() ==> #[trigger] tail[i] == a[i + 1]);
        }
        line_len_stops(tail, rest);
        assert(s[0] == a[0]);
        assert(s.skip(1) =~= tail + rest);
    }
}

/// Lines come one by one: what stands before a line feed is the first, and the others are the lines
/// of what follows it. The last need not be ended, and nothing has no lines.
pub proof fn lines_come_one_by_one(a: Seq<char>, rest: Seq<char>)
    requires
        !a.contains('\n'),
    ensures
        lines(a + seq!['\n'] + rest) == seq![a] + lines(rest),
        a.len() > 0 ==> lines(a) == seq![a],
        lines(Seq::<char>::empty()).len() == 0,
{
    let tail = seq!['\n'] + rest;
    let s = a + tail;
    assert(a + seq!['\n'] + rest =~= s);
    line_len_stops(a, tail);
    assert(s.take(a.len() as int) =~= a);
    assert(s.skip(a.len() as int + 1) =~= rest);
    let none = Seq::<char>::empty();
    line_len_stops(a, none);
    assert(a + none =~= a);
}

/// A text holds what stands in it with any text in front and any text behind, and nothing else.
pub proof fn held_text_has_two_sides(s: Seq<char>, t: Seq<char>)
    ensures
        forall|a: Seq<char>, b: Seq<char>| holds(#[trigger] (a + t + b), t),
        holds(s, t) ==> exists|a: Seq<char>, b: Seq<char>| s == #[trigger] (a + t + b),
{
    assert forall|a: Seq<char>, b: Seq<char>| holds(#[trigger] (a + t + b), t) by {
        let whole = a + t + b;
        let i = a.len() as int;
        assert(whole.subrange(i, i + t.len()) =~= t);
        assert(stands_at(whole, t, i));
    }
    if holds(s, t) {
        let i = choose|i: int| stands_at(s, t, i);
        assert(s =~= s.take(i) + t + s.skip(i + t.len())) by {
            assert(s.subrange(i, i + t.len()) == t);
            assert forall|j: int| 0 <= j < t.len() implies #[trigger] s[i + j] == t[j] by {
                assert(s.subrange(i, i + t.len())[j] == s[i + j]);
            }
            let whole = s.take(i) + t + s.skip(i + t.len());
            assert forall|j: int| 0 <= j < s.len() implies s[j] == whole[j] by {
                if i <= j < i + t.len() {
                    assert(s[i + (j - i)] == t[j - i]);
                }
            }
        }
    }
}

/// Words and strings are looked at one by one, each as it stands.
pub proof fn texts_are_what_is_there(words: Seq<Vec<char>>, strings: Seq<String>)
    ensures
        texts(words).len() == words.len(),
        forall|i: int| 0 <= i < words.len() ==> #[trigger] texts(words)[i] == words[i]@,
        string_texts(strings).len() == strings.len(),
        forall|i: int| 0 <= i < strings.len() ==> #[trigger] string_texts(strings)[i] == strings[i]@,
{
}

} // verus!
