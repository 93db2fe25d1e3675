//! What holds of every text that is trimmed, lowered, cut into lines, parts and words,
//! or read as a number.

use vstd::prelude::*;

use crate::scan;
use crate::text;

verus! {

/// White space is what Unicode says it is.
pub proof fn law_white_space(c: char)
    ensures
        text::is_white_space(c) <==> c == ' ' || ('\t' <= c <= '\r') || c == '\u{85}' || c
            == '\u{a0}' || c == '\u{1680}' || ('\u{2000}' <= c <= '\u{200a}') || c == '\u{2028}'
            || c == '\u{2029}' || c == '\u{202f}' || c == '\u{205f}' || c == '\u{3000}',
        text::is_control_char(c) <==> c <= '\u{1f}' || ('\u{7f}' <= c <= '\u{9f}'),
        text::is_alphanumeric(c) <==> ('0' <= c <= '9') || ('a' <= c <= 'z') || ('A' <= c <= 'Z'),
{
}

/// Every character of a text is white space.
pub open spec fn is_white(s: Seq<char>) -> bool {
    forall|i: int| 0 <= i < s.len() ==> text::is_white_space(#[trigger] s[i])
}

proof fn lemma_trim_start(s: Seq<char>) -> (k: int)
    ensures
        0 <= k <= s.len(),
        is_white(s.take(k)),
        text::trim_start(s) == s.skip(k),
        k < s.len() ==> !text::is_white_space(s[k]),
    decreases s.len(),
{
    if s.len() > 0 && text::is_white_space(s[0]) {
        let rest = s.drop_first();
        let j = lemma_trim_start(rest);
        assert(rest.skip(j) =~= s.skip(j + 1));
        assert forall|i: int| 0 <= i < j + 1 implies text::is_white_space(
            #[trigger] s.take(j + 1)[i],
        ) by {
            if i > 0 {
                assert(rest.take(j)[i - 1] == s[i]);
            }
        }
        j + 1
    } else {
        assert(s.skip(0) =~= s);
        0
    }
}

proof fn lemma_trim_end(s: Seq<char>) -> (k: int)
    ensures
        0 <= k <= s.len(),
        is_white(s.skip(k)),
        text::trim_end(s) == s.take(k),
        k > 0 ==> !text::is_white_space(s[k - 1]),
    decreases s.len(),
{
    if s.len() > 0 && text::is_white_space(s.last()) {
        let rest = s.drop_last();
        let j = lemma_trim_end(rest);
        assert(rest.take(j) =~= s.take(j));
        assert forall|i: int| 0 <= i < s.skip(j).len() implies text::is_white_space(
            #[trigger] s.skip(j)[i],
        ) by {
            if i < rest.skip(j).len() {
                assert(rest.skip(j)[i] == s.skip(j)[i]);
            }
        }
        j
    } else {
        assert(s.take(s.len() as int) =~= s);
        s.len() as int
    }
}

/// A trimmed text is the text without the white space at its two ends, and without
/// anything else: what is cut off is white, and what is left neither begins nor ends
/// with white space.
pub proof fn law_trim_cuts_white_ends(s: Seq<char>)
    ensures
        exists|a: Seq<char>, b: Seq<char>|
            s == #[trigger] (a + text::trim(s) + b) && is_white(a) && is_white(b),
        text::trim(s).len() > 0 ==> !text::is_white_space(text::trim(s)[0])
            && !text::is_white_space(text::trim(s).last()),
        text::trim(s).len() == 0 <==> is_white(s),
{
    let i = lemma_trim_start(s);
    let t = text::trim_start(s);
    let j = lemma_trim_end(t);
    let a = s.take(i);
    let b = t.skip(j);
    assert(s =~= a + text::trim(s) + b);
    if text::trim(s).len() > 0 {
        assert(text::trim(s)[0] == s[i]);
    } else {
        assert forall|k: int| 0 <= k < s.len() implies text::is_white_space(#[trigger] s[k]) by {
            if k < i {
                assert(a[k] == s[k]);
            } else {
                assert(b[k - i] == s[k]);
            }
        }
    }
    if is_white(s) && text::trim(s).len() > 0 {
        assert(text::is_white_space(s[i]));
    }
}

/// A text that is not empty, has no white space at its ends and no control character,
/// and is at most 256 bytes long is a safe identifier as it is; what is taken as one has
/// all of these.
pub proof fn law_safe_identifiers(s: Seq<char>)
    ensures
        text::safe_identifier(s) matches Some(t) ==> {
            &&& t == text::trim(s)
            &&& 0 < t.len()
            &&& text::byte_len(t) <= 256
            &&& forall|i: int| 0 <= i < t.len() ==> !text::is_control_char(#[trigger] t[i])
        },
        s.len() > 0 && text::byte_len(s) <= 256 && !text::is_white_space(s[0])
            && !text::is_white_space(s.last()) && (forall|i: int|
            0 <= i < s.len() ==> !text::is_control_char(#[trigger] s[i])) ==> text::safe_identifier(
            s,
        ) == Some(s),
        is_white(s) ==> text::safe_identifier(s) is None,
{
    law_trim_cuts_white_ends(s);
}

/// In small letters a text keeps its length and all but its capital letters; each of
/// these becomes the small letter of its own.
pub proof fn law_lower_keeps_all_but_capitals(s: Seq<char>)
    ensures
        text::lower(s).len() == s.len(),
        forall|i: int|
            0 <= i < s.len() ==> {
                let c = s[i];
                let d = #[trigger] text::lower(s)[i];
                &&& !('A' <= c <= 'Z') ==> d == c
                &&& ('A' <= c <= 'Z') ==> 'a' <= d <= 'z' && d as u32 - c as u32 == 32
            },
        text::lower(text::lower(s)) == text::lower(s),
{
    assert(text::lower(text::lower(s)) =~= text::lower(s));
}

/// What stands before the first line feed is the first line, without a carriage return
/// at its end; the other lines are those of the rest.
pub proof fn law_lines_end_at_line_feeds(a: Seq<char>, rest: Seq<char>)
    requires
        !a.contains('\n'),
    ensures
        text::lines(a + seq!['\n'] + rest) == seq![
            if a.len() > 0 && a.last() == '\r' {
                a.drop_last()
            } else {
                a
            },
        ] + text::lines(rest),
        a.len() > 0 ==> text::lines(a) == seq![a],
        text::lines(seq![]) == Seq::<Seq<char>>::empty(),
{
    let s = a + seq!['\n'] + rest;
    text::lemma_first_index(s, '\n');
    let i = text::first_index(s, '\n');
    assert(s[a.len() as int] == '\n');
    if i < a.len() {
        assert(a[i] == '\n');
    }
    assert(i == a.len());
    assert(s.subrange(0, i) =~= a);
    assert(s.subrange(i + 1, s.len() as int) =~= rest);
    text::lemma_first_index(a, '\n');
}

/// The parts of a text, with the character between them, are the text again, and no part
/// holds that character.
pub proof fn law_parts_make_up_the_text(s: Seq<char>, c: char)
    ensures
        text::join(scan::split_on(s, c), seq![c]) == s,
        scan::split_on(s, c).len() > 0,
        forall|i: int|
            0 <= i < scan::split_on(s, c).len() ==> !(#[trigger] scan::split_on(s, c)[i]).contains(
                c,
            ),
    decreases s.len(),
{
    let i = text::first_index(s, c);
    text::lemma_first_index(s, c);
    if 0 <= i < s.len() {
        let head = s.take(i);
        let rest = s.skip(i + 1);
        law_parts_make_up_the_text(rest, c);
        let tail = scan::split_on(rest, c);
        let parts = scan::split_on(s, c);
        assert(parts =~= seq![head] + tail);
        lemma_join_first(head, tail, seq![c]);
        assert(s =~= head + seq![c] + rest);
        assert forall|k: int| 0 <= k < parts.len() implies !(#[trigger] parts[k]).contains(c) by {
            if k == 0 {
                if head.contains(c) {
                    let j = choose|j: int| 0 <= j < head.len() && head[j] == c;
                    assert(s[j] == c);
                }
            } else {
                assert(parts[k] == tail[k - 1]);
            }
        }
    } else {
        assert(scan::split_on(s, c) =~= seq![s]);
    }
}

pub proof fn lemma_join_first(head: Seq<char>, tail: Seq<Seq<char>>, sep: Seq<char>)
    requires
        tail.len() > 0,
    ensures
        text::join(seq![head] + tail, sep) == head + sep + text::join(tail, sep),
    decreases tail.len(),
{
    let all = seq![head] + tail;
    assert(all.last() == tail.last());
    if tail.len() == 1 {
        assert(all.drop_last() =~= seq![head]);
        assert(text::join(seq![head], sep) == head);
        assert(text::join(tail, sep) == tail[0]);
        assert(head + sep + tail[0] =~= (head + sep) + tail.last());
    } else {
        let less = tail.drop_last();
        assert(all.drop_last() =~= seq![head] + less);
        lemma_join_first(head, less, sep);
        assert(text::join(all, sep) =~= head + sep + text::join(tail, sep));
    }
}

/// A text without white space before white space is a word; the other words are those of
/// what comes after.
pub proof fn law_words_end_at_white_space(w: Seq<char>, c: char, rest: Seq<char>)
    requires
        w.len() > 0,
        forall|i: int| 0 <= i < w.len() ==> !text::is_white_space(#[trigger] w[i]),
        text::is_white_space(c),
    ensures
        scan::words(w + seq![c] + rest) == seq![w] + scan::words(rest),
        scan::words(seq![c] + rest) == scan::words(rest),
        scan::words(w) == seq![w],
        scan::words(seq![]) == Seq::<Seq<char>>::empty(),
{
    let s = w + seq![c] + rest;
    assert(s[0] == w[0]);
    assert(text::trim_start(s) == s);
    lemma_word_len(s, w.len() as int);
    assert(s.take(w.len() as int) =~= w);
    let after = s.skip(w.len() as int);
    assert(after =~= seq![c] + rest);
    assert(after.drop_first() =~= rest);
    assert(text::trim_start(after) == text::trim_start(rest));
    assert(scan::words(after) == scan::words(rest));
    assert(text::trim_start(w) == w);
    lemma_word_len(w, w.len() as int);
    assert(w.take(w.len() as int) =~= w);
    assert(w.skip(w.len() as int) =~= seq![]);
    assert(text::trim_start(seq![]) == Seq::<char>::empty());
    assert(scan::words(w) =~= seq![w] + scan::words(seq![]));
}

proof fn lemma_word_len(s: Seq<char>, n: int)
    requires
        0 <= n <= s.len(),
        forall|i: int| 0 <= i < n ==> !text::is_white_space(#[trigger] s[i]),
        n < s.len() ==> text::is_white_space(s[n]),
    ensures
        scan::word_len(s) == n,
    decreases s.len(),
{
    if n > 0 {
        let t = s.drop_first();
        assert(forall|i: int| 0 <= i < t.len() ==> #[trigger] t[i] == s[i + 1]);
        lemma_word_len(t, n - 1);
    }
}

/// Decimal digits are written and read in tens, the highest first, each by its own sign.
pub proof fn law_decimal_digits(n: nat, d: nat, s: Seq<char>)
    requires
        d < 10,
    ensures
        n > 0 ==> text::decimal(10 * n + d) == text::decimal(n) + text::decimal(d),
        text::decimal(d).len() == 1,
        text::decimal(d)[0] as u32 == '0' as u32 + d,
        '0' <= text::decimal(d)[0] <= '9',
        text::decimal_value(s + text::decimal(d)) == 10 * text::decimal_value(s) + d,
        text::decimal_value(seq![]) == 0,
{
    let c = text::digit_char(d);
    assert(text::decimal(d) =~= seq![c]);
    if n > 0 {
        assert((10 * n + d) / 10 == n);
        assert((10 * n + d) % 10 == d);
        assert(text::decimal(10 * n + d) =~= text::decimal(n) + text::decimal(d));
    }
    let t = s + text::decimal(d);
    assert(t.drop_last() =~= s);
    assert(t.last() == c);
}

/// A number below two to the power 64 is read from its digits, also behind a plus sign;
/// nothing is read from a text that holds anything else.
pub proof fn law_numbers_are_read_from_digits(n: u64, s: Seq<char>)
    ensures
        text::unsigned_value(text::decimal(n as nat)) == Some(n),
        text::unsigned_value(seq!['+'] + text::decimal(n as nat)) == Some(n),
        text::unsigned_value(s) is Some ==> s.len() > 0 && forall|i: int|
            0 < i < s.len() ==> '0' <= #[trigger] s[i] <= '9',
        s.len() > 0 && s[0] != '+' && !('0' <= s[0] <= '9') ==> text::unsigned_value(s) is None,
        text::unsigned_value(seq![]) is None,
{
    text::law_decimal_reads_back(n as nat);
    let d = text::decimal(n as nat);
    assert(text::is_digit(d[0]));
    assert((seq!['+'] + d).drop_first() =~= d);
    if text::unsigned_value(s) is Some {
        if s[0] == '+' {
            let t = s.drop_first();
            assert forall|i: int| 0 < i < s.len() implies '0' <= #[trigger] s[i] <= '9' by {
                assert(text::is_digit(t[i - 1]));
            }
        } else {
            assert forall|i: int| 0 < i < s.len() implies '0' <= #[trigger] s[i] <= '9' by {
                assert(text::is_digit(s[i]));
            }
        }
    }
    if s.len() > 0 && s[0] != '+' && text::unsigned_value(s) is Some {
        assert(text::is_digit(s[0]));
    }
}

/// A port is a number up to 65535.
pub proof fn law_ports_are_small_numbers(n: u64)
    ensures
        n <= 65_535 ==> scan::small_value(text::decimal(n as nat)) == Some(n as u16),
        n > 65_535 ==> scan::small_value(text::decimal(n as nat)) is None,
{
    law_numbers_are_read_from_digits(n, seq![]);
}

/// Hexadecimal digits are read in sixteens, in small and in capital letters alike.
pub proof fn law_hex_digits(s: Seq<char>, c: char)
    ensures
        scan::hex_value(seq![]) == 0,
        scan::hex_value(s.push(c)) == 16 * scan::hex_value(s) + scan::hex_digit(c),
        '0' <= c <= '9' ==> scan::hex_digit(c) == c as u32 - '0' as u32,
        'a' <= c <= 'f' ==> scan::hex_digit(c) == c as u32 - 'a' as u32 + 10,
        'A' <= c <= 'F' ==> scan::hex_digit(c) == c as u32 - 'A' as u32 + 10,
        scan::is_hex_digit(c) <==> ('0' <= c <= '9') || ('a' <= c <= 'f') || ('A' <= c <= 'F'),
        scan::hex_number(s) is Some ==> s.len() > 0,
        s.len() > 0 && scan::all_hex(s) ==> scan::hex_number(s) == Some(scan::hex_value(s)),
        (exists|i: int| 0 < i < s.len() && !scan::is_hex_digit(#[trigger] s[i]))
            ==> scan::hex_number(s) is None,
{
    assert(s.push(c).drop_last() =~= s);
    if s.len() > 0 && scan::all_hex(s) {
        assert(scan::is_hex_digit(s[0]));
    }
    if exists|i: int| 0 < i < s.len() && !scan::is_hex_digit(#[trigger] s[i]) {
        let i = choose|i: int| 0 < i < s.len() && !scan::is_hex_digit(#[trigger] s[i]);
        if s[0] == '+' {
            assert(s.drop_first()[i - 1] == s[i]);
        }
    }
}

/// A text stands at the start, at the end or anywhere in another one exactly if the
/// other is made of it and of something around it.
pub proof fn law_texts_stand_in_texts(a: Seq<char>, p: Seq<char>, b: Seq<char>)
    ensures
        text::starts_with(p + b, p),
        text::ends_with(a + p, p),
        text::contains_text(a + p + b, p),
        text::starts_with(a, p) ==> a == p + a.skip(p.len() as int),
        text::ends_with(a, p) ==> a == a.take(a.len() - p.len()) + p,
{
    assert((p + b).subrange(0, p.len() as int) =~= p);
    assert((a + p).subrange(a.len() as int, (a + p).len() as int) =~= p);
    assert((a + p + b).subrange(a.len() as int, (a.len() + p.len()) as int) =~= p);
    assert(text::occurs_at(a + p + b, p, a.len() as int));
    if text::starts_with(a, p) {
        assert(a.subrange(0, p.len() as int) == p);
        assert(a =~= p + a.skip(p.len() as int));
    }
    if text::ends_with(a, p) {
        let k = a.len() - p.len();
        assert(a.subrange(k, k + p.len()) == p);
        assert(a =~= a.take(k) + p);
    }
}

} // verus!
