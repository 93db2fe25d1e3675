//! Cutting texts at separators and into words, and reading numbers.

use vstd::prelude::*;
use vstd::string::*;

use crate::text;
use crate::text::{chars_of, index_of_char, parse_u64, text_of_range, trimmed, white_space};

verus! {

/// The pieces of a text between the separators; there is one more piece than
/// separators.
pub open spec fn split_on(s: Seq<char>, c: char) -> Seq<Seq<char>>
    decreases s.len(),
{
    let i = text::first_index(s, c);
    if 0 <= i < s.len() {
        seq![s.take(i)] + split_on(s.skip(i + 1), c)
    } else {
        seq![s]
    }
}

/// The pieces of a text between the separators.
pub fn split_text(s: &str, c: char) -> (r: Vec<String>)
    ensures
        text::texts(r@) == split_on(s@, c),
{
    let cs = chars_of(s);
    let n = cs.len();
    let mut out: Vec<String> = Vec::new();
    let mut i: usize = 0;
    assert(cs@.skip(0) =~= s@);
    assert(text::texts(out@) + split_on(s@, c) =~= split_on(s@, c));
    loop
        invariant
            i <= n,
            n == cs@.len(),
            cs@ == s@,
            split_on(s@, c) == text::texts(out@) + split_on(cs@.skip(i as int), c),
        decreases n - i,
    {
        let ghost rest = cs@.skip(i as int);
        let j = index_of_char(&cs, i, c);
        proof {
            assert(cs@.subrange(i as int, n as int) =~= rest);
            text::lemma_first_index(rest, c);
        }
        let ghost before = text::texts(out@);
        let piece = text_of_range(&cs, i, j);
        proof {
            assert(text::texts(out@.push(piece)) =~= before.push(piece@));
            assert(piece@ =~= rest.take(j - i));
        }
        out.push(piece);
        if j == n {
            proof {
                assert(rest.take(j - i) =~= rest);
                assert(before + seq![rest] =~= before.push(rest));
            }
            return out;
        }
        proof {
            assert(rest.skip(j - i + 1) =~= cs@.skip(j + 1));
            let tail = split_on(cs@.skip(j + 1), c);
            assert(before + (seq![piece@] + tail) =~= before.push(piece@) + tail);
        }
        i = j + 1;
    }
}

/// The text before the first separator and the text behind it.
pub open spec fn split_once(s: Seq<char>, c: char) -> Option<(Seq<char>, Seq<char>)> {
    let i = text::first_index(s, c);
    if 0 <= i < s.len() {
        Some((s.take(i), s.skip(i + 1)))
    } else {
        None
    }
}

pub fn cut_once(s: &str, c: char) -> (r: Option<(String, String)>)
    ensures
        match r {
            Some((a, b)) => split_once(s@, c) == Some((a@, b@)),
            None => split_once(s@, c) is None,
        },
{
    let cs = chars_of(s);
    let i = index_of_char(&cs, 0, c);
    proof {
        assert(cs@.subrange(0, cs@.len() as int) =~= s@);
        text::lemma_first_index(s@, c);
    }
    if i < cs.len() {
        let a = text_of_range(&cs, 0, i);
        let b = text_of_range(&cs, i + 1, cs.len());
        assert(a@ =~= s@.take(i as int));
        assert(b@ =~= s@.skip(i + 1));
        Some((a, b))
    } else {
        None
    }
}

/// Whether a character stands in a text.
pub fn has_char(s: &str, c: char) -> (r: bool)
    ensures
        r == s@.contains(c),
{
    let cs = chars_of(s);
    let i = index_of_char(&cs, 0, c);
    proof {
        assert(cs@.subrange(0, cs@.len() as int) =~= s@);
        text::lemma_first_index(s@, c);
        if i < s@.len() {
            assert(s@[i as int] == c);
        }
    }
    i < cs.len()
}

/// The number of characters that a text begins with which are no white space.
pub open spec fn word_len(s: Seq<char>) -> int
    decreases s.len(),
{
    if s.len() == 0 || text::is_white_space(s[0]) {
        0
    } else {
        1 + word_len(s.drop_first())
    }
}

pub proof fn lemma_word_len(s: Seq<char>)
    ensures
        0 <= word_len(s) <= s.len(),
    decreases s.len(),
{
    if s.len() > 0 && !text::is_white_space(s[0]) {
        lemma_word_len(s.drop_first());
    }
}

proof fn lemma_trim_start_len(s: Seq<char>)
    ensures
        text::trim_start(s).len() <= s.len(),
        text::trim_start(s).len() > 0 ==> !text::is_white_space(text::trim_start(s)[0]),
    decreases s.len(),
{
    if s.len() > 0 && text::is_white_space(s[0]) {
        lemma_trim_start_len(s.drop_first());
    }
}

/// The words of a text: its longest runs of characters that are no white space.
pub open spec fn words(s: Seq<char>) -> Seq<Seq<char>>
    decreases s.len(),
    via words_decreases
{
    let t = text::trim_start(s);
    if t.len() == 0 {
        seq![]
    } else {
        seq![t.take(word_len(t))] + words(t.skip(word_len(t)))
    }
}

#[via_fn]
proof fn words_decreases(s: Seq<char>) {
    lemma_trim_start_len(s);
    let t = text::trim_start(s);
    lemma_word_len(t);
    if t.len() > 0 {
        lemma_word_len(t.drop_first());
    }
}

/// The words of a text.
pub fn words_of(s: &str) -> (r: Vec<String>)
    ensures
        text::texts(r@) == words(s@),
{
    let cs = chars_of(s);
    let n = cs.len();
    let mut out: Vec<String> = Vec::new();
    let mut i: usize = 0;
    assert(cs@.skip(0) =~= s@);
    assert(text::texts(out@) + words(s@) =~= words(s@));
    loop
        invariant
            i <= n,
            n == cs@.len(),
            cs@ == s@,
            words(s@) == text::texts(out@) + words(cs@.skip(i as int)),
        decreases n - i,
    {
        let ghost rest = cs@.skip(i as int);
        let ghost start = i;
        while i < n && white_space(cs[i])
            invariant
                start <= i <= n,
                n == cs@.len(),
                text::trim_start(rest) == text::trim_start(cs@.skip(i as int)),
            decreases n - i,
        {
            assert(cs@.skip(i as int)[0] == cs@[i as int]);
            assert(cs@.skip(i as int).drop_first() =~= cs@.skip(i + 1));
            i += 1;
        }
        let ghost t = cs@.skip(i as int);
        proof {
            if i < n {
                assert(t[0] == cs@[i as int]);
            }
            assert(text::trim_start(rest) == t);
        }
        if i == n {
            assert(words(rest) =~= seq![]);
            assert(text::texts(out@) + words(rest) =~= text::texts(out@));
            return out;
        }
        let from = i;
        assert(t.skip(0) =~= t);
        while i < n && !white_space(cs[i])
            invariant
                from <= i <= n,
                n == cs@.len(),
                t == cs@.skip(from as int),
                word_len(t) == (i - from) + word_len(t.skip(i - from)),
            decreases n - i,
        {
            let ghost here = t.skip(i - from);
            assert(here[0] == cs@[i as int]);
            assert(here.drop_first() =~= t.skip(i + 1 - from));
            i += 1;
        }
        let word = text_of_range(&cs, from, i);
        let ghost before = text::texts(out@);
        proof {
            let here = t.skip(i - from);
            if i < n {
                assert(here[0] == cs@[i as int]);
            }
            assert(word_len(here) == 0);
            assert(word@ =~= t.take(i - from));
            assert(here =~= cs@.skip(i as int));
            assert(text::texts(out@.push(word)) =~= before.push(word@));
            let tail = words(here);
            assert(before + (seq![word@] + tail) =~= before.push(word@) + tail);
            assert(i > from);
        }
        out.push(word);
    }
}

/// The number that a text stands for in a machine word of 16 bits.
pub open spec fn small_value(s: Seq<char>) -> Option<u16> {
    match text::unsigned_value(s) {
        Some(v) => if v <= 0xffff {
            Some(v as u16)
        } else {
            None
        },
        None => None,
    }
}

pub fn parse_u16(s: &str) -> (r: Option<u16>)
    ensures
        r == small_value(s@),
{
    match parse_u64(s) {
        Some(v) => if v <= 0xffff {
            Some(v as u16)
        } else {
            None
        },
        None => None,
    }
}

pub open spec fn is_hex_digit(c: char) -> bool {
    ||| '0' <= c <= '9'
    ||| 'a' <= c <= 'f'
    ||| 'A' <= c <= 'F'
}

/// The value of a hexadecimal digit.
pub open spec fn hex_digit(c: char) -> nat {
    if '0' <= c <= '9' {
        (c as u32 - 48) as nat
    } else if 'a' <= c <= 'f' {
        (c as u32 - 87) as nat
    } else {
        (c as u32 - 55) as nat
    }
}

/// The number that a sequence of hexadecimal digits stands for.
pub open spec fn hex_value(s: Seq<char>) -> nat
    decreases s.len(),
{
    if s.len() == 0 {
        0
    } else {
        hex_value(s.drop_last()) * 16 + hex_digit(s.last())
    }
}

pub open spec fn all_hex(s: Seq<char>) -> bool {
    forall|i: int| 0 <= i < s.len() ==> is_hex_digit(#[trigger] s[i])
}

/// The number that a hexadecimal text stands for, after an optional plus sign.
pub open spec fn hex_number(s: Seq<char>) -> Option<nat> {
    let digits = if s.len() > 0 && s[0] == '+' {
        s.drop_first()
    } else {
        s
    };
    if digits.len() > 0 && all_hex(digits) {
        Some(hex_value(digits))
    } else {
        None
    }
}

proof fn lemma_hex_value_grows(s: Seq<char>, n: int)
    requires
        0 <= n <= s.len(),
    ensures
        hex_value(s.take(n)) <= hex_value(s),
    decreases s.len(),
{
    if n == s.len() {
        assert(s.take(n) =~= s);
    } else {
        assert(s.drop_last().take(n) =~= s.take(n));
        lemma_hex_value_grows(s.drop_last(), n);
    }
}

fn hex_digit_of(c: char) -> (r: Option<u8>)
    ensures
        match r {
            Some(d) => is_hex_digit(c) && d == hex_digit(c) && d < 16,
            None => !is_hex_digit(c),
        },
{
    if '0' <= c && c <= '9' {
        Some((c as u32 - 48) as u8)
    } else if 'a' <= c && c <= 'f' {
        Some((c as u32 - 87) as u8)
    } else if 'A' <= c && c <= 'F' {
        Some((c as u32 - 55) as u8)
    } else {
        None
    }
}

/// The number that a hexadecimal text stands for, if it is not above a limit.
pub fn parse_hex(s: &str, limit: u64) -> (r: Option<u64>)
    ensures
        match r {
            Some(v) => hex_number(s@) == Some(v as nat) && v <= limit,
            None => hex_number(s@) is None || hex_number(s@)->0 > limit,
        },
{
    let cs = chars_of(s);
    let from: usize = if cs.len() > 0 && cs[0] == '+' {
        1
    } else {
        0
    };
    let ghost digits = s@.skip(from as int);
    proof {
        if from == 1 {
            assert(digits =~= s@.drop_first());
        } else {
            assert(digits =~= s@);
        }
    }
    if from >= cs.len() {
        return None;
    }
    let mut value: u64 = 0;
    let mut too_large = false;
    let mut i: usize = from;
    assert(digits.take(0) =~= seq![]);
    while i < cs.len()
        invariant
            from <= i <= cs@.len(),
            cs@ == s@,
            digits == s@.skip(from as int),
            digits.len() > 0,
            hex_number(s@) == if digits.len() > 0 && all_hex(digits) {
                Some(hex_value(digits))
            } else {
                None
            },
            forall|k: int| 0 <= k < i - from ==> is_hex_digit(#[trigger] digits[k]),
            !too_large ==> value == hex_value(digits.take(i - from)) && value <= limit,
            too_large ==> hex_value(digits) > limit,
        decreases cs@.len() - i,
    {
        let d = match hex_digit_of(cs[i]) {
            Some(d) => d,
            None => {
                assert(digits[i - from] == cs@[i as int]);
                return None;
            },
        };
        proof {
            assert(digits[i - from] == cs@[i as int]);
            assert(digits.take(i + 1 - from).drop_last() =~= digits.take(i - from));
            assert(digits.take(i + 1 - from).last() == cs@[i as int]);
            lemma_hex_value_grows(digits, i + 1 - from);
        }
        if !too_large {
            if limit < d as u64 || value > limit / 16 || value * 16 > limit - d as u64 {
                too_large = true;
            } else {
                value = value * 16 + d as u64;
            }
        }
        i += 1;
    }
    assert(digits.take(i - from) =~= digits);
    if too_large {
        None
    } else {
        Some(value)
    }
}

/// Whether a text is blank.
pub fn is_blank(s: &str) -> (r: bool)
    ensures
        r == (text::trim(s@).len() == 0),
{
    trimmed(s).as_str().is_empty()
}

} // verus!
