//! Removal of credential values from text that comes from outside the host.

use vstd::prelude::*;
use vstd::string::*;
use vstd::utf8::*;

use crate::text;
use crate::text::{bytes_len, chars_of, index_from, lowered, text_of, utf8_prefix, white_space};

verus! {

/// The most bytes of a line that is exchanged with a runtime.
pub const MAX_TRANSPORT_LINE_BYTES: usize = 131072;

/// What stands between a marker and its value.
pub open spec fn is_separator(c: char) -> bool {
    text::is_white_space(c) || c == ':' || c == '='
}

pub open spec fn is_quote(c: char) -> bool {
    c == '\'' || c == '"'
}

/// What ends a value that is not quoted.
pub open spec fn is_value_end(c: char) -> bool {
    text::is_white_space(c) || c == ',' || c == ';' || c == '&' || c == '}' || c == ']'
}

/// How the end of a value is found: at the end of the line, at a quote, or at
/// the first character that ends a bare value.
pub enum ValueEnd {
    Line,
    Quote(char),
    Bare,
}

pub open spec fn ends_value(kind: ValueEnd, c: char) -> bool {
    match kind {
        ValueEnd::Line => c == '\r' || c == '\n',
        ValueEnd::Quote(q) => c == q,
        ValueEnd::Bare => is_value_end(c),
    }
}

/// The first index at or after `i` that holds no separator, or the length.
pub open spec fn skip_separators(s: Seq<char>, i: int) -> int
    decreases s.len() - i,
{
    if 0 <= i < s.len() && is_separator(s[i]) {
        skip_separators(s, i + 1)
    } else {
        i
    }
}

/// The first index at or after `i` at which a value ends, or the length.
pub open spec fn find_value_end(s: Seq<char>, kind: ValueEnd, i: int) -> int
    decreases s.len() - i,
{
    if 0 <= i < s.len() && !ends_value(kind, s[i]) {
        find_value_end(s, kind, i + 1)
    } else {
        i
    }
}

/// Where the value that belongs to a marker starts, the marker ending before
/// index `after`: behind the separators and an opening quote.
pub open spec fn value_start(s: Seq<char>, after: int) -> int {
    let i = skip_separators(s, after);
    if 0 <= i < s.len() && is_quote(s[i]) {
        i + 1
    } else {
        i
    }
}

/// How the end of that value is found.
pub open spec fn value_kind(s: Seq<char>, after: int, to_line_end: bool) -> ValueEnd {
    let i = skip_separators(s, after);
    if to_line_end {
        ValueEnd::Line
    } else if 0 <= i < s.len() && is_quote(s[i]) {
        ValueEnd::Quote(s[i])
    } else {
        ValueEnd::Bare
    }
}

/// Where that value ends.
pub open spec fn value_end(s: Seq<char>, after: int, to_line_end: bool) -> int {
    find_value_end(s, value_kind(s, after, to_line_end), value_start(s, after))
}

/// What a removed value is replaced by.
pub open spec fn replacement() -> Seq<char> {
    seq!['<', 'r', 'e', 'd', 'a', 'c', 't', 'e', 'd', '>']
}

/// The text with the value behind each occurrence of the marker replaced. An
/// occurrence without a value is kept, and the search goes on behind it.
pub open spec fn redact_marker(s: Seq<char>, marker: Seq<char>, to_line_end: bool) -> Seq<char>
    decreases s.len(),
    when marker.len() > 0
    via redact_marker_decreases
{
    match text::find(text::lower(s), marker) {
        None => s,
        Some(i) => {
            let after = i + marker.len();
            let from = value_start(s, after);
            let to = value_end(s, after, to_line_end);
            if from < to {
                s.take(from) + replacement() + redact_marker(s.skip(to), marker, to_line_end)
            } else {
                s.take(after) + redact_marker(s.skip(after), marker, to_line_end)
            }
        },
    }
}

#[via_fn]
proof fn redact_marker_decreases(s: Seq<char>, marker: Seq<char>, to_line_end: bool) {
    text::lemma_find_from(text::lower(s), marker, 0);
    if let Some(i) = text::find(text::lower(s), marker) {
        lemma_value_range(s, i + marker.len(), to_line_end);
    }
}

proof fn lemma_skip_separators(s: Seq<char>, i: int)
    requires
        0 <= i <= s.len(),
    ensures
        i <= skip_separators(s, i) <= s.len(),
        skip_separators(s, i) < s.len() ==> !is_separator(s[skip_separators(s, i)]),
        forall|j: int| i <= j < skip_separators(s, i) ==> is_separator(s[j]),
    decreases s.len() - i,
{
    if i < s.len() && is_separator(s[i]) {
        lemma_skip_separators(s, i + 1);
    }
}

proof fn lemma_find_value_end(s: Seq<char>, kind: ValueEnd, i: int)
    requires
        0 <= i <= s.len(),
    ensures
        i <= find_value_end(s, kind, i) <= s.len(),
        find_value_end(s, kind, i) < s.len() ==> ends_value(kind, s[find_value_end(s, kind, i)]),
        forall|j: int| i <= j < find_value_end(s, kind, i) ==> !ends_value(kind, s[j]),
    decreases s.len() - i,
{
    if i < s.len() && !ends_value(kind, s[i]) {
        lemma_find_value_end(s, kind, i + 1);
    }
}

proof fn lemma_value_range(s: Seq<char>, after: int, to_line_end: bool)
    requires
        0 <= after <= s.len(),
    ensures
        after <= value_start(s, after) <= value_end(s, after, to_line_end) <= s.len(),
{
    lemma_skip_separators(s, after);
    lemma_find_value_end(s, value_kind(s, after, to_line_end), value_start(s, after));
}

fn ends(kind: &ValueEnd, c: char) -> (r: bool)
    ensures
        r == ends_value(*kind, c),
{
    match kind {
        ValueEnd::Line => c == '\r' || c == '\n',
        ValueEnd::Quote(q) => c == *q,
        ValueEnd::Bare => white_space(c) || c == ',' || c == ';' || c == '&' || c == '}' || c
            == ']',
    }
}

fn push_range(out: &mut Vec<char>, cs: &Vec<char>, from: usize, to: usize)
    requires
        from <= to <= cs@.len(),
    ensures
        final(out)@ == old(out)@ + cs@.subrange(from as int, to as int),
{
    let mut i: usize = from;
    let ghost before = out@;
    assert(before + cs@.subrange(from as int, from as int) =~= before);
    while i < to
        invariant
            from <= i <= to <= cs@.len(),
            out@ == before + cs@.subrange(from as int, i as int),
        decreases to - i,
    {
        out.push(cs[i]);
        i += 1;
        assert(cs@.subrange(from as int, i as int) =~= cs@.subrange(from as int, i - 1).push(
            cs@[i - 1],
        ));
        assert(out@ =~= before + cs@.subrange(from as int, i as int));
    }
}

proof fn lemma_lower_skip(s: Seq<char>, i: int)
    requires
        0 <= i <= s.len(),
    ensures
        text::lower(s.skip(i)) == text::lower(s).skip(i),
{
    assert(text::lower(s.skip(i)) =~= text::lower(s).skip(i));
}

proof fn lemma_skip_separators_skip(s: Seq<char>, c: int, j: int)
    requires
        0 <= c <= s.len(),
        0 <= j <= s.len() - c,
    ensures
        skip_separators(s.skip(c), j) + c == skip_separators(s, c + j),
    decreases s.len() - j,
{
    if c + j < s.len() && is_separator(s[c + j]) {
        lemma_skip_separators_skip(s, c, j + 1);
    }
}

proof fn lemma_find_value_end_skip(s: Seq<char>, kind: ValueEnd, c: int, j: int)
    requires
        0 <= c <= s.len(),
        0 <= j <= s.len() - c,
    ensures
        find_value_end(s.skip(c), kind, j) + c == find_value_end(s, kind, c + j),
    decreases s.len() - j,
{
    if c + j < s.len() && !ends_value(kind, s[c + j]) {
        lemma_find_value_end_skip(s, kind, c, j + 1);
    }
}

/// The value range of a suffix is the value range of the whole text, shifted.
proof fn lemma_value_range_skip(s: Seq<char>, c: int, after: int, to_line_end: bool)
    requires
        0 <= c <= s.len(),
        0 <= after <= s.len() - c,
    ensures
        value_start(s.skip(c), after) + c == value_start(s, c + after),
        value_end(s.skip(c), after, to_line_end) + c == value_end(s, c + after, to_line_end),
{
    lemma_skip_separators_skip(s, c, after);
    lemma_skip_separators(s, c + after);
    lemma_find_value_end_skip(
        s,
        value_kind(s, c + after, to_line_end),
        c,
        value_start(s, c + after) - c,
    );
}

/// The range of the value that belongs to a marker ending before index `after`.
fn value_range(cs: &Vec<char>, after: usize, to_line_end: bool) -> (r: (usize, usize))
    requires
        after <= cs@.len(),
    ensures
        r.0 == value_start(cs@, after as int),
        r.1 == value_end(cs@, after as int, to_line_end),
        after <= r.0 <= r.1 <= cs@.len(),
{
    let n = cs.len();
    let mut start: usize = after;
    while start < n && (white_space(cs[start]) || cs[start] == ':' || cs[start] == '=')
        invariant
            after <= start <= n,
            n == cs@.len(),
            skip_separators(cs@, after as int) == skip_separators(cs@, start as int),
        decreases n - start,
    {
        start += 1;
    }
    let mut kind: ValueEnd = ValueEnd::Bare;
    if start < n && (cs[start] == '\'' || cs[start] == '"') {
        kind = ValueEnd::Quote(cs[start]);
        start += 1;
    }
    if to_line_end {
        kind = ValueEnd::Line;
    }
    assert(start == value_start(cs@, after as int));
    assert(kind == value_kind(cs@, after as int, to_line_end));
    let mut end: usize = start;
    while end < n && !ends(&kind, cs[end])
        invariant
            start <= end <= n,
            n == cs@.len(),
            find_value_end(cs@, kind, start as int) == find_value_end(cs@, kind, end as int),
        decreases n - end,
    {
        end += 1;
    }
    (start, end)
}

/// One step of [`redact_marker`] on the text behind `cursor`.
proof fn lemma_redact_step(s: Seq<char>, marker: Seq<char>, to_line_end: bool, cursor: int)
    requires
        0 <= cursor <= s.len(),
        marker.len() > 0,
    ensures
        ({
            let rest = s.skip(cursor);
            match text::find_from(text::lower(s), marker, cursor) {
                None => redact_marker(rest, marker, to_line_end) == rest,
                Some(found) => {
                    let after = found + marker.len();
                    let from = value_start(s, after);
                    let to = value_end(s, after, to_line_end);
                    &&& cursor <= found
                    &&& after <= s.len()
                    &&& redact_marker(rest, marker, to_line_end) == if from < to {
                        s.subrange(cursor, from) + replacement() + redact_marker(
                            s.skip(to),
                            marker,
                            to_line_end,
                        )
                    } else {
                        s.subrange(cursor, after) + redact_marker(
                            s.skip(after),
                            marker,
                            to_line_end,
                        )
                    }
                },
            }
        }),
{
    let rest = s.skip(cursor);
    lemma_lower_skip(s, cursor);
    text::lemma_find_skip(text::lower(s), marker, cursor);
    text::lemma_find_from(text::lower(s), marker, cursor);
    if let Some(found) = text::find_from(text::lower(s), marker, cursor) {
        let after = found + marker.len();
        lemma_value_range(s, after, to_line_end);
        lemma_value_range_skip(s, cursor, after - cursor, to_line_end);
        let from = value_start(s, after);
        let to = value_end(s, after, to_line_end);
        assert(rest.take(from - cursor) =~= s.subrange(cursor, from));
        assert(rest.take(after - cursor) =~= s.subrange(cursor, after));
        assert(rest.skip(to - cursor) =~= s.skip(to));
        assert(rest.skip(after - cursor) =~= s.skip(after));
    }
}

/// Replaces the value behind each occurrence of the marker, which is looked for
/// without regard to the case of ASCII letters.
#[verifier::rlimit(60)]
pub fn redact_marker_value(value: &str, marker: &str, to_line_end: bool) -> (r: String)
    requires
        marker@.len() > 0,
    ensures
        r@ == redact_marker(value@, text::lower(marker@), to_line_end),
{
    let cs = chars_of(value);
    let low = chars_of(lowered(value).as_str());
    let pat = chars_of(lowered(marker).as_str());
    let word = chars_of("<redacted>");
    proof {
        reveal_strlit("<redacted>");
        assert(word@ =~= replacement());
        assert(word@.subrange(0, 10) =~= word@);
    }
    let n = cs.len();
    let mut out: Vec<char> = Vec::new();
    let mut cursor: usize = 0;
    let ghost goal = redact_marker(value@, text::lower(marker@), to_line_end);
    assert(value@.skip(0) =~= value@);
    assert(out@ + goal =~= goal);
    loop
        invariant_except_break
            goal == out@ + redact_marker(value@.skip(cursor as int), pat@, to_line_end),
        invariant
            cursor <= n,
            n == cs@.len(),
            cs@ == value@,
            low@ == text::lower(value@),
            pat@ == text::lower(marker@),
            pat@.len() > 0,
            word@ == replacement(),
            word@.subrange(0, 10) == word@,
            word@.len() == 10,
        ensures
            out@ == goal,
        decreases n - cursor,
    {
        let ghost before = out@;
        proof {
            lemma_redact_step(value@, pat@, to_line_end, cursor as int);
        }
        match index_from(&low, &pat, cursor) {
            None => {
                push_range(&mut out, &cs, cursor, n);
                assert(value@.skip(cursor as int) =~= cs@.subrange(cursor as int, n as int));
                break;
            },
            Some(found) => {
                let after: usize = found + pat.len();
                let (start, end) = value_range(&cs, after, to_line_end);
                if start < end {
                    push_range(&mut out, &cs, cursor, start);
                    push_range(&mut out, &word, 0, 10);
                    proof {
                        let tail = redact_marker(value@.skip(end as int), pat@, to_line_end);
                        assert(before + (cs@.subrange(cursor as int, start as int) + replacement()
                            + tail) =~= out@ + tail);
                    }
                    cursor = end;
                } else {
                    push_range(&mut out, &cs, cursor, after);
                    proof {
                        let tail = redact_marker(value@.skip(after as int), pat@, to_line_end);
                        assert(before + (cs@.subrange(cursor as int, after as int) + tail)
                            =~= out@ + tail);
                    }
                    cursor = after;
                }
            },
        }
    }
    text_of(&out)
}

/// The text without the values of all known markers.
pub open spec fn redact_markers(s: Seq<char>) -> Seq<char> {
    let s = redact_marker(s, text::lower("authorization:"@), true);
    let s = redact_marker(s, text::lower("proxy-authorization:"@), true);
    let s = redact_marker(s, text::lower("cookie:"@), true);
    let s = redact_marker(s, text::lower("set-cookie:"@), true);
    let s = redact_marker(s, text::lower("\"authorization\""@), false);
    let s = redact_marker(s, text::lower("\"runtimetoken\""@), false);
    let s = redact_marker(s, text::lower("\"runtime_token\""@), false);
    let s = redact_marker(s, text::lower("\"token\""@), false);
    let s = redact_marker(s, text::lower("\"apikey\""@), false);
    let s = redact_marker(s, text::lower("\"api_key\""@), false);
    let s = redact_marker(s, text::lower("bearer "@), false);
    let s = redact_marker(s, text::lower("api_key="@), false);
    let s = redact_marker(s, text::lower("api-key="@), false);
    let s = redact_marker(s, text::lower("apikey="@), false);
    let s = redact_marker(s, text::lower("token="@), false);
    let s = redact_marker(s, text::lower("runtime_token="@), false);
    redact_marker(s, text::lower("cookie="@), false)
}

/// What of an outside text may be shown: its values behind known markers are
/// removed, and what is longer than a line may be is cut and marked as cut.
pub open spec fn redacted(s: Seq<char>) -> Seq<char> {
    let r = redact_markers(s);
    if text::byte_len(r) > MAX_TRANSPORT_LINE_BYTES {
        text::bounded_prefix(r, MAX_TRANSPORT_LINE_BYTES as nat) + "...[truncated]"@
    } else {
        r
    }
}

/// Keeps ordinary text readable while the values of credentials, in header form
/// as well as in key and value form, are removed.
pub fn redact_external_text(value: &str) -> (r: String)
    ensures
        r@ == redacted(value@),
{
    proof {
        reveal_strlit("authorization:");
        reveal_strlit("proxy-authorization:");
        reveal_strlit("cookie:");
        reveal_strlit("set-cookie:");
        reveal_strlit("\"authorization\"");
        reveal_strlit("\"runtimetoken\"");
        reveal_strlit("\"runtime_token\"");
        reveal_strlit("\"token\"");
        reveal_strlit("\"apikey\"");
        reveal_strlit("\"api_key\"");
        reveal_strlit("bearer ");
        reveal_strlit("api_key=");
        reveal_strlit("api-key=");
        reveal_strlit("apikey=");
        reveal_strlit("token=");
        reveal_strlit("runtime_token=");
        reveal_strlit("cookie=");
    }
    let s = redact_marker_value(value, "authorization:", true);
    let s = redact_marker_value(s.as_str(), "proxy-authorization:", true);
    let s = redact_marker_value(s.as_str(), "cookie:", true);
    let s = redact_marker_value(s.as_str(), "set-cookie:", true);
    let s = redact_marker_value(s.as_str(), "\"authorization\"", false);
    let s = redact_marker_value(s.as_str(), "\"runtimetoken\"", false);
    let s = redact_marker_value(s.as_str(), "\"runtime_token\"", false);
    let s = redact_marker_value(s.as_str(), "\"token\"", false);
    let s = redact_marker_value(s.as_str(), "\"apikey\"", false);
    let s = redact_marker_value(s.as_str(), "\"api_key\"", false);
    let s = redact_marker_value(s.as_str(), "bearer ", false);
    let s = redact_marker_value(s.as_str(), "api_key=", false);
    let s = redact_marker_value(s.as_str(), "api-key=", false);
    let s = redact_marker_value(s.as_str(), "apikey=", false);
    let s = redact_marker_value(s.as_str(), "token=", false);
    let s = redact_marker_value(s.as_str(), "runtime_token=", false);
    let s = redact_marker_value(s.as_str(), "cookie=", false);
    if bytes_len(s.as_str()) > MAX_TRANSPORT_LINE_BYTES {
        let mut cut = utf8_prefix(s.as_str(), MAX_TRANSPORT_LINE_BYTES).to_owned();
        cut.append("...[truncated]");
        cut
    } else {
        s
    }
}

/// What is shown of an outside text is never longer than a line and the mark
/// that it was cut.
pub proof fn law_redacted_is_bounded(s: Seq<char>)
    ensures
        text::byte_len(redacted(s)) <= MAX_TRANSPORT_LINE_BYTES + 14,
{
    let r = redact_markers(s);
    if text::byte_len(r) > MAX_TRANSPORT_LINE_BYTES {
        let p = text::bounded_prefix(r, MAX_TRANSPORT_LINE_BYTES as nat);
        text::law_bounded_prefix(r, MAX_TRANSPORT_LINE_BYTES as nat);
        text::lemma_encode_concat(p, "...[truncated]"@);
        reveal_strlit("...[truncated]");
        is_ascii_chars_encode_utf8("...[truncated]"@);
    }
}

proof fn lemma_find_is(s: Seq<char>, pat: Seq<char>, i: int)
    requires
        text::occurs_at(s, pat, i),
        forall|j: int| 0 <= j < i ==> !text::occurs_at(s, pat, j),
    ensures
        text::find(s, pat) == Some(i),
{
    text::lemma_find_from(s, pat, 0);
}

proof fn lemma_skip_separators_is(s: Seq<char>, i: int, v: int)
    requires
        0 <= i <= v <= s.len(),
        forall|j: int| i <= j < v ==> is_separator(s[j]),
        v < s.len() ==> !is_separator(s[v]),
    ensures
        skip_separators(s, i) == v,
    decreases v - i,
{
    if i < v {
        lemma_skip_separators_is(s, i + 1, v);
    }
}

proof fn lemma_find_value_end_is(s: Seq<char>, kind: ValueEnd, i: int, v: int)
    requires
        0 <= i <= v <= s.len(),
        forall|j: int| i <= j < v ==> !ends_value(kind, s[j]),
        v < s.len() ==> ends_value(kind, s[v]),
    ensures
        find_value_end(s, kind, i) == v,
    decreases v - i,
{
    if i < v {
        lemma_find_value_end_is(s, kind, i + 1, v);
    }
}

/// A text and its redaction agree up to the end of the first marker.
proof fn lemma_redact_prefix(s: Seq<char>, marker: Seq<char>, to_line_end: bool)
    requires
        marker.len() > 0,
    ensures
        match text::find(text::lower(s), marker) {
            None => redact_marker(s, marker, to_line_end) == s,
            Some(i) => {
                &&& 0 <= i
                &&& i + marker.len() <= s.len()
                &&& i + marker.len() <= redact_marker(s, marker, to_line_end).len()
                &&& forall|j: int|
                    0 <= j < i + marker.len() ==> redact_marker(s, marker, to_line_end)[j] == s[j]
            },
        },
{
    text::lemma_find_from(text::lower(s), marker, 0);
    if let Some(i) = text::find(text::lower(s), marker) {
        lemma_value_range(s, i + marker.len(), to_line_end);
    }
}

/// The first marker of a text stays where it is when what is behind the marker
/// changes.
proof fn lemma_first_marker_kept(s: Seq<char>, r: Seq<char>, marker: Seq<char>, i: int)
    requires
        marker.len() > 0,
        text::find(text::lower(s), marker) == Some(i),
        i + marker.len() <= r.len(),
        forall|j: int| 0 <= j < i + marker.len() ==> r[j] == s[j],
    ensures
        text::find(text::lower(r), marker) == Some(i),
{
    text::lemma_find_from(text::lower(s), marker, 0);
    assert forall|j: int| 0 <= j <= i implies text::occurs_at(text::lower(r), marker, j) == text::occurs_at(
        text::lower(s),
        marker,
        j,
    ) by {
        assert(text::lower(r).subrange(j, j + marker.len()) =~= text::lower(s).subrange(j, j + marker.len()));
    }
    lemma_find_is(text::lower(r), marker, i);
}

proof fn lemma_replacement_has_no_value_end(to_line_end: bool, q: char)
    requires
        is_quote(q),
    ensures
        forall|j: int|
            0 <= j < 10 ==> !ends_value(ValueEnd::Line, #[trigger] replacement()[j]) && !ends_value(
                ValueEnd::Quote(q),
                replacement()[j],
            ) && !ends_value(ValueEnd::Bare, replacement()[j]),
        !is_separator(replacement()[0]),
        !is_quote(replacement()[0]),
{
}

/// The marker has a character that can stand neither between a marker and a
/// value nor around a value.
pub open spec fn has_word_char(marker: Seq<char>) -> bool {
    exists|k: int|
        0 <= k < marker.len() && !is_separator(#[trigger] marker[k]) && !is_quote(marker[k])
            && text::lower_char(marker[k]) == marker[k]
}

/// The redaction of a text whose first marker has a value, redacted once more.
#[verifier::rlimit(60)]
proof fn lemma_settles_after_value(s: Seq<char>, marker: Seq<char>, to_line_end: bool, i: int)
    requires
        marker.len() > 0,
        text::find(text::lower(s), marker) == Some(i),
        value_start(s, i + marker.len()) < value_end(s, i + marker.len(), to_line_end),
    ensures
        ({
            let r = redact_marker(s, marker, to_line_end);
            let to = value_end(s, i + marker.len(), to_line_end);
            let tail = redact_marker(s.skip(to), marker, to_line_end);
            redact_marker(tail, marker, to_line_end) == tail ==> redact_marker(
                r,
                marker,
                to_line_end,
            ) == r
        }),
{
    let r = redact_marker(s, marker, to_line_end);
    let after = i + marker.len();
    let from = value_start(s, after);
    let to = value_end(s, after, to_line_end);
    let sep = skip_separators(s, after);
    let kind = value_kind(s, after, to_line_end);
    text::lemma_find_from(text::lower(s), marker, 0);
    lemma_value_range(s, after, to_line_end);
    lemma_skip_separators(s, after);
    lemma_find_value_end(s, kind, from);
    let x = s.skip(to);
    let tail = redact_marker(x, marker, to_line_end);
    lemma_redact_prefix(x, marker, to_line_end);
    assert(r == s.take(from) + replacement() + tail);
    lemma_first_marker_kept(s, r, marker, i);
    lemma_replacement_has_no_value_end(to_line_end, '"');
    lemma_replacement_has_no_value_end(to_line_end, '\'');
    assert(r[from] == replacement()[0]);
    assert(value_start(r, after) == from && value_kind(r, after, to_line_end) == kind) by {
        lemma_skip_separators_is(r, after, sep);
    }
    assert(value_end(r, after, to_line_end) == from + 10) by {
        if x.len() > 0 {
            text::lemma_find_from(text::lower(x), marker, 0);
            assert(x[0] == s[to]);
            assert(tail[0] == x[0]);
            assert(r[from + 10] == tail[0]);
        } else {
            text::lemma_find_from(text::lower(x), marker, 0);
            assert(tail == x);
        }
        assert forall|j: int| from <= j < from + 10 implies !ends_value(kind, r[j]) by {
            assert(r[j] == replacement()[j - from]);
        }
        lemma_find_value_end_is(r, kind, from, from + 10);
    }
    assert(r.take(from) =~= s.take(from));
    assert(r.skip(from + 10) =~= tail);
}

/// Between a marker and the place where its value would start no marker stands.
proof fn lemma_no_marker_before_value(s: Seq<char>, marker: Seq<char>, after: int, j: int)
    requires
        has_word_char(marker),
        0 <= after <= s.len(),
        0 <= j,
        text::occurs_at(text::lower(s.skip(after)), marker, j),
    ensures
        j + marker.len() > value_start(s, after) - after,
{
    let x = s.skip(after);
    let v = value_start(s, after) - after;
    lemma_skip_separators(s, after);
    if j + marker.len() <= v {
        let k = choose|k: int|
            0 <= k < marker.len() && !is_separator(#[trigger] marker[k]) && !is_quote(marker[k])
                && text::lower_char(marker[k]) == marker[k];
        assert(text::lower(x).subrange(j, j + marker.len())[k] == marker[k]);
        assert(text::lower_char(x[j + k]) == marker[k]);
        assert(x[j + k] == s[after + j + k]);
        assert(is_separator(s[after + j + k]) || is_quote(s[after + j + k]));
        assert(false);
    }
}

/// The redaction of a text whose first marker has no value, redacted once more.
proof fn lemma_settles_without_value(s: Seq<char>, marker: Seq<char>, to_line_end: bool, i: int)
    requires
        has_word_char(marker),
        text::find(text::lower(s), marker) == Some(i),
        value_start(s, i + marker.len()) >= value_end(s, i + marker.len(), to_line_end),
    ensures
        ({
            let r = redact_marker(s, marker, to_line_end);
            let tail = redact_marker(s.skip(i + marker.len()), marker, to_line_end);
            redact_marker(tail, marker, to_line_end) == tail ==> redact_marker(
                r,
                marker,
                to_line_end,
            ) == r
        }),
{
    let r = redact_marker(s, marker, to_line_end);
    let after = i + marker.len();
    let x = s.skip(after);
    let tail = redact_marker(x, marker, to_line_end);
    text::lemma_find_from(text::lower(s), marker, 0);
    lemma_redact_prefix(x, marker, to_line_end);
    text::lemma_find_from(text::lower(x), marker, 0);
    match text::find(text::lower(x), marker) {
        Some(j) => {
            lemma_no_marker_before_value(s, marker, after, j);
        },
        None => {},
    }
    assert(r == s.take(after) + tail);
    lemma_first_marker_kept(s, r, marker, i);
    assert forall|k: int|
        0 <= k <= value_start(s, after) - after && k < s.len() - after implies tail[k] == s[after
        + k] by {
        assert(x[k] == s[after + k]);
    }
    lemma_empty_value_kept(s, tail, after, to_line_end);
    assert(r.take(after) =~= s.take(after));
    assert(r.skip(after) =~= tail);
}

/// A marker without a value has none either when what follows keeps its start.
proof fn lemma_empty_value_kept(s: Seq<char>, tail: Seq<char>, after: int, to_line_end: bool)
    requires
        0 <= after <= s.len(),
        value_start(s, after) >= value_end(s, after, to_line_end),
        value_start(s, after) == s.len() ==> tail == s.skip(after),
        value_start(s, after) < s.len() ==> value_start(s, after) - after < tail.len(),
        forall|k: int|
            0 <= k <= value_start(s, after) - after && k < s.len() - after ==> tail[k] == s[after
                + k],
    ensures
        value_start(s.take(after) + tail, after) >= value_end(
            s.take(after) + tail,
            after,
            to_line_end,
        ),
{
    let r = s.take(after) + tail;
    let from = value_start(s, after);
    let sep = skip_separators(s, after);
    let kind = value_kind(s, after, to_line_end);
    lemma_value_range(s, after, to_line_end);
    lemma_skip_separators(s, after);
    lemma_find_value_end(s, kind, from);
    if from == s.len() {
        assert(r =~= s);
    } else {
        assert(forall|k: int| after <= k <= from ==> r[k] == s[k]) by {
            assert forall|k: int| after <= k <= from implies r[k] == s[k] by {
                assert(r[k] == tail[k - after]);
                assert(tail[k - after] == s[after + (k - after)]);
            }
        }
        lemma_skip_separators_is(r, after, sep);
        assert(value_start(r, after) == from);
        assert(value_kind(r, after, to_line_end) == kind);
        lemma_find_value_end_is(r, kind, from, from);
    }
}

/// Redaction settles: a text that has been redacted for a marker is not changed
/// by redacting it for that marker again. So behind each marker that is found in
/// it stands no value, or the replacement. The marker has a character that can
/// stand neither between a marker and a value nor around a value.
pub proof fn law_redaction_settles(s: Seq<char>, marker: Seq<char>, to_line_end: bool)
    requires
        has_word_char(marker),
    ensures
        redact_marker(redact_marker(s, marker, to_line_end), marker, to_line_end) == redact_marker(
            s,
            marker,
            to_line_end,
        ),
    decreases s.len(),
{
    text::lemma_find_from(text::lower(s), marker, 0);
    if let Some(i) = text::find(text::lower(s), marker) {
        let after = i + marker.len();
        lemma_value_range(s, after, to_line_end);
        if value_start(s, after) < value_end(s, after, to_line_end) {
            law_redaction_settles(
                s.skip(value_end(s, after, to_line_end)),
                marker,
                to_line_end,
            );
            lemma_settles_after_value(s, marker, to_line_end, i);
        } else {
            law_redaction_settles(s.skip(after), marker, to_line_end);
            lemma_settles_without_value(s, marker, to_line_end, i);
        }
    }
}

/// A character of a word: it stands neither around a value nor between a marker
/// and its value, ends no value, and is none of the brackets of the replacement.
pub open spec fn is_word_char(c: char) -> bool {
    &&& !is_separator(c)
    &&& !is_quote(c)
    &&& !is_value_end(c)
    &&& c != '<'
    &&& c != '>'
    &&& text::lower_char(c) == c
}

/// The form of the known markers: a word in lower case, which a quote may open and
/// a quote, a space, a colon or an equals sign closes. The value behind a colon
/// goes on to the end of the line.
pub open spec fn is_plain_marker(marker: Seq<char>, to_line_end: bool) -> bool {
    &&& marker.len() >= 3
    &&& forall|k: int| 0 < k < marker.len() - 1 ==> is_word_char(#[trigger] marker[k])
    &&& marker[0] == '"' || is_word_char(marker[0])
    &&& marker.last() == ':' || marker.last() == '"' || marker.last() == ' ' || marker.last()
        == '='
    &&& to_line_end <==> marker.last() == ':'
}

/// Whether nothing, or the replacement, stands behind a marker that ends before
/// index `after`.
pub open spec fn is_cleared(s: Seq<char>, after: int, to_line_end: bool) -> bool {
    let from = value_start(s, after);
    let to = value_end(s, after, to_line_end);
    from == to || s.subrange(from, to) == replacement()
}

/// Whether nothing, or the replacement, stands behind each occurrence of a marker.
#[verifier::opaque]
pub open spec fn is_redacted_for(s: Seq<char>, marker: Seq<char>, to_line_end: bool) -> bool {
    forall|i: int| #[trigger]
        text::occurs_at(text::lower(s), marker, i) ==> is_cleared(
            s,
            i + marker.len(),
            to_line_end,
        )
}

/// The characters of an occurrence are those of the marker.
proof fn lemma_marker_chars(s: Seq<char>, marker: Seq<char>, i: int)
    requires
        text::occurs_at(text::lower(s), marker, i),
    ensures
        0 <= i,
        i + marker.len() <= s.len(),
        forall|k: int| i <= k < i + marker.len() ==> text::lower_char(#[trigger] s[k]) == marker[k
            - i],
{
    assert forall|k: int| i <= k < i + marker.len() implies text::lower_char(#[trigger] s[k])
        == marker[k - i] by {
        assert(text::lower(s).subrange(i, i + marker.len())[k - i] == text::lower(s)[k]);
    }
}

/// What the value range of a marker consists of.
proof fn lemma_value_chars(s: Seq<char>, after: int, to_line_end: bool)
    requires
        0 <= after <= s.len(),
    ensures
        ({
            let from = value_start(s, after);
            let to = value_end(s, after, to_line_end);
            let kind = value_kind(s, after, to_line_end);
            &&& after <= from <= to <= s.len()
            &&& forall|k: int| after <= k < from - 1 ==> is_separator(#[trigger] s[k])
            &&& from > after ==> is_separator(s[from - 1]) || is_quote(s[from - 1])
            &&& from < s.len() && from == after ==> !is_separator(s[from]) && !is_quote(s[from])
            &&& from < s.len() && from == to ==> ends_value(kind, s[from])
            &&& kind is Line <==> to_line_end
            &&& kind matches ValueEnd::Quote(q) ==> is_quote(q)
        }),
{
    lemma_skip_separators(s, after);
    lemma_find_value_end(s, value_kind(s, after, to_line_end), value_start(s, after));
}

/// A word is no value end of any kind.
proof fn lemma_word_goes_on(kind: ValueEnd, x: char)
    requires
        is_word_char(text::lower_char(x)),
        kind matches ValueEnd::Quote(q) ==> is_quote(q),
    ensures
        !ends_value(kind, x),
        !is_separator(x),
        !is_quote(x),
        x != '<',
        x != '>',
{
}

/// Behind a marker that is cleared, a marker that ends later starts behind the
/// value.
#[verifier::rlimit(40)]
proof fn lemma_markers_do_not_mix(
    s: Seq<char>,
    a: Seq<char>,
    a_line: bool,
    i: int,
    b: Seq<char>,
    b_line: bool,
    j: int,
)
    requires
        is_plain_marker(a, a_line),
        is_plain_marker(b, b_line),
        text::occurs_at(text::lower(s), a, i),
        text::occurs_at(text::lower(s), b, j),
        is_cleared(s, i + a.len(), a_line),
        i + a.len() < j + b.len(),
    ensures
        value_end(s, i + a.len(), a_line) <= j,
{
    let after = i + a.len();
    let end = j + b.len();
    let from = value_start(s, after);
    let to = value_end(s, after, a_line);
    let kind = value_kind(s, after, a_line);
    lemma_marker_chars(s, a, i);
    lemma_marker_chars(s, b, j);
    lemma_value_chars(s, after, a_line);
    let value = s.subrange(from, to);
    if j < to {
        assert(text::lower_char(s[j]) == b[0]);
        assert(text::lower_char(s[j + 1]) == b[1] && is_word_char(b[1]));
        lemma_word_goes_on(kind, s[j + 1]);
        if j < after {
            assert(text::lower_char(s[after - 1]) == a[a.len() - 1]);
            assert(text::lower_char(s[after - 1]) == b[after - 1 - j]);
            if j < after - 1 {
                assert(is_word_char(b[after - 1 - j]));
            }
            assert(j == after - 1);
            assert(a.last() == '"');
            assert(s[after] == s[j + 1]);
            lemma_skip_separators_is(s, after, after);
            assert(from == after && kind is Bare);
            assert(from < to);
            assert(value[0] == s[from]);
        } else if j < from {
            assert(is_quote(s[j]) && j == from - 1) by {
                if j < from - 1 {
                    assert(is_separator(s[j]));
                }
            }
            assert(s[from] == s[j + 1]);
            assert(from < to);
            assert(value[0] == s[from]);
        } else {
            assert(value == replacement());
            assert(value.len() == to - from && replacement().len() == 10);
            if end <= to {
                assert(text::lower_char(s[end - 1]) == b[b.len() - 1]);
                assert(value[end - 1 - from] == s[end - 1]);
                lemma_replacement_chars(end - 1 - from);
            } else {
                assert(text::lower_char(s[to - 1]) == b[to - 1 - j]);
                assert(value[9] == s[to - 1]);
                assert(s[to - 1] == '>');
                if to - 1 - j > 0 {
                    assert(is_word_char(b[to - 1 - j]));
                }
            }
        }
    }
}

proof fn lemma_replacement_chars(k: int)
    requires
        0 <= k < 10,
    ensures
        ({
            let c = text::lower_char(replacement()[k]);
            c != ':' && c != '"' && c != ' ' && c != '='
        }),
{
}

/// A value that starts behind index `c` is the same when what is before `c`
/// changes.
proof fn lemma_cleared_behind(s: Seq<char>, r: Seq<char>, c: int, d: int, after: int, line: bool)
    requires
        0 <= c <= s.len(),
        0 <= d <= r.len(),
        s.skip(c) == r.skip(d),
        0 <= after <= s.len() - c,
    ensures
        is_cleared(s, c + after, line) == is_cleared(r, d + after, line),
{
    let x = s.skip(c);
    assert(x.len() == s.len() - c && x.len() == r.len() - d);
    lemma_value_range_skip(s, c, after, line);
    lemma_value_range_skip(r, d, after, line);
    lemma_value_range(x, after, line);
    let from = value_start(x, after);
    let to = value_end(x, after, line);
    assert(s.subrange(c + from, c + to) =~= x.subrange(from, to));
    assert(r.subrange(d + from, d + to) =~= r.skip(d).subrange(from, to));
}

/// An occurrence behind index `c` is there too when what is before `c` changes.
proof fn lemma_occurs_behind(s: Seq<char>, r: Seq<char>, c: int, d: int, m: Seq<char>, j: int)
    requires
        0 <= c <= s.len(),
        0 <= d <= r.len(),
        s.skip(c) == r.skip(d),
        0 <= j,
        text::occurs_at(text::lower(s), m, c + j),
    ensures
        text::occurs_at(text::lower(r), m, d + j),
{
    let x = s.skip(c);
    assert(x.len() == s.len() - c && x.len() == r.len() - d);
    assert forall|k: int| 0 <= k < m.len() implies text::lower(r).subrange(
        d + j,
        d + j + m.len(),
    )[k] == m[k] by {
        assert(text::lower(s).subrange(c + j, c + j + m.len())[k] == m[k]);
        assert(x[j + k] == s[c + j + k]);
        assert(r.skip(d)[j + k] == r[d + j + k]);
    }
    assert(text::lower(r).subrange(d + j, d + j + m.len()) =~= m);
}

/// A value that ends before index `c` is the same when what is behind `c` changes.
proof fn lemma_cleared_before(s: Seq<char>, r: Seq<char>, c: int, after: int, line: bool)
    requires
        0 <= after,
        c <= s.len(),
        c <= r.len(),
        forall|k: int| 0 <= k < c ==> s[k] == r[k],
        after <= s.len(),
        value_end(s, after, line) < c,
    ensures
        is_cleared(s, after, line) == is_cleared(r, after, line),
{
    let from = value_start(s, after);
    let to = value_end(s, after, line);
    let sep = skip_separators(s, after);
    let kind = value_kind(s, after, line);
    lemma_skip_separators(s, after);
    lemma_find_value_end(s, kind, from);
    lemma_skip_separators_is(r, after, sep);
    lemma_find_value_end_is(r, kind, from, to);
    assert(s.subrange(from, to) =~= r.subrange(from, to));
}

/// Replacing the value behind one marker brings no value behind another.
#[verifier::rlimit(40)]
proof fn lemma_replacing_keeps_redacted(
    s: Seq<char>,
    m: Seq<char>,
    m_line: bool,
    l: Seq<char>,
    l_line: bool,
    i: int,
)
    requires
        is_plain_marker(m, m_line),
        is_plain_marker(l, l_line),
        is_redacted_for(s, m, m_line),
        text::occurs_at(text::lower(s), l, i),
        value_start(s, i + l.len()) < value_end(s, i + l.len(), l_line),
    ensures
        ({
            let from = value_start(s, i + l.len());
            let to = value_end(s, i + l.len(), l_line);
            is_redacted_for(s.take(from) + replacement() + s.skip(to), m, m_line)
        }),
{
    reveal(is_redacted_for);
    let after = i + l.len();
    let from = value_start(s, after);
    let to = value_end(s, after, l_line);
    let r = s.take(from) + replacement() + s.skip(to);
    lemma_marker_chars(s, l, i);
    lemma_value_chars(s, after, l_line);
    assert(r.skip(from + 10) =~= s.skip(to));
    assert forall|j: int| #[trigger] text::occurs_at(text::lower(r), m, j) implies is_cleared(
        r,
        j + m.len(),
        m_line,
    ) by {
        let end = j + m.len();
        lemma_marker_chars(r, m, j);
        if j >= from + 10 {
            let k = j - from - 10;
            lemma_occurs_behind(r, s, from + 10, to, m, k);
            lemma_cleared_behind(r, s, from + 10, to, k + m.len(), m_line);
        } else if end > from {
            if end <= from + 10 {
                assert(r[end - 1] == replacement()[end - 1 - from]);
                assert(text::lower_char(r[end - 1]) == m[m.len() - 1]);
                lemma_replacement_chars(end - 1 - from);
            } else {
                assert(r[from + 9] == replacement()[9]);
                assert(text::lower_char(r[from + 9]) == m[from + 9 - j]);
                if from + 9 - j > 0 {
                    assert(is_word_char(m[from + 9 - j]));
                }
            }
            assert(false);
        } else {
            assert(text::occurs_at(text::lower(s), m, j)) by {
                assert(text::lower(s).subrange(j, end) =~= text::lower(r).subrange(j, end));
            }
            lemma_marker_chars(s, m, j);
            assert(is_cleared(s, end, m_line));
            if end < after {
                lemma_markers_do_not_mix(s, m, m_line, j, l, l_line, i);
                lemma_value_range(s, end, m_line);
                lemma_cleared_before(s, r, from, end, m_line);
            } else if end == after {
                assert(text::lower_char(s[end - 1]) == m[m.len() - 1]);
                assert(text::lower_char(s[end - 1]) == l[l.len() - 1]);
                assert(m_line == l_line);
                assert(s.subrange(from, to) == replacement());
                assert(r =~= s);
            } else {
                assert(text::lower_char(s[end - 2]) == m[m.len() - 2]);
                assert(is_word_char(m[m.len() - 2]));
                if end - 2 >= after {
                    assert(is_separator(s[end - 2]));
                } else {
                    assert(text::lower_char(s[after - 1]) == l[l.len() - 1]);
                }
                assert(false);
            }
        }
    }
}

/// Replacing a value at the end of a text brings no value behind another marker.
#[verifier::rlimit(40)]
proof fn lemma_one_value_keeps_redacted(
    p: Seq<char>,
    x: Seq<char>,
    m: Seq<char>,
    m_line: bool,
    l: Seq<char>,
    l_line: bool,
    i: int,
)
    requires
        is_plain_marker(m, m_line),
        is_plain_marker(l, l_line),
        is_redacted_for(p + x, m, m_line),
        text::occurs_at(text::lower(x), l, i),
        value_start(x, i + l.len()) < value_end(x, i + l.len(), l_line),
    ensures
        ({
            let from = value_start(x, i + l.len());
            let to = value_end(x, i + l.len(), l_line);
            is_redacted_for(p + x.take(from) + replacement() + x.skip(to), m, m_line)
        }),
{
    let s = p + x;
    let c = p.len() as int;
    let after = i + l.len();
    assert(s.skip(c) =~= x);
    assert(x.skip(0) =~= x);
    lemma_marker_chars(x, l, i);
    lemma_value_range(x, after, l_line);
    lemma_value_range_skip(s, c, after, l_line);
    lemma_occurs_behind(x, s, 0, c, l, i);
    let from = value_start(x, after);
    let to = value_end(x, after, l_line);
    lemma_replacing_keeps_redacted(s, m, m_line, l, l_line, c + i);
    assert(s.take(c + from) =~= p + x.take(from));
    assert(s.skip(c + to) =~= x.skip(to));
}

/// Removing the values of one marker brings no value behind another.
#[verifier::rlimit(40)]
proof fn lemma_redact_keeps_redacted(
    p: Seq<char>,
    x: Seq<char>,
    m: Seq<char>,
    m_line: bool,
    l: Seq<char>,
    l_line: bool,
)
    requires
        is_plain_marker(m, m_line),
        is_plain_marker(l, l_line),
        is_redacted_for(p + x, m, m_line),
    ensures
        is_redacted_for(p + redact_marker(x, l, l_line), m, m_line),
    decreases x.len(),
{
    text::lemma_find_from(text::lower(x), l, 0);
    if let Some(i) = text::find(text::lower(x), l) {
        let after = i + l.len();
        lemma_value_range(x, after, l_line);
        let from = value_start(x, after);
        let to = value_end(x, after, l_line);
        if from < to {
            lemma_one_value_keeps_redacted(p, x, m, m_line, l, l_line, i);
            let q = p + x.take(from) + replacement();
            let y = x.skip(to);
            lemma_redact_keeps_redacted(q, y, m, m_line, l, l_line);
            let rest = redact_marker(y, l, l_line);
            assert(q + rest =~= p + (x.take(from) + replacement() + rest));
        } else {
            let q = p + x.take(after);
            let y = x.skip(after);
            assert(p + x =~= q + y);
            lemma_redact_keeps_redacted(q, y, m, m_line, l, l_line);
            let rest = redact_marker(y, l, l_line);
            assert(q + rest =~= p + (x.take(after) + rest));
        }
    }
}

/// A part at the end of a text has no value behind a marker that the text has not.
proof fn lemma_redacted_behind(s: Seq<char>, c: int, m: Seq<char>, line: bool)
    requires
        0 <= c <= s.len(),
        is_redacted_for(s, m, line),
    ensures
        is_redacted_for(s.skip(c), m, line),
{
    reveal(is_redacted_for);
    let x = s.skip(c);
    assert(x.skip(0) =~= x);
    assert forall|j: int| #[trigger] text::occurs_at(text::lower(x), m, j) implies is_cleared(
        x,
        j + m.len(),
        line,
    ) by {
        lemma_marker_chars(x, m, j);
        lemma_occurs_behind(x, s, 0, c, m, j);
        lemma_cleared_behind(s, x, c, 0, j + m.len(), line);
        assert(is_cleared(s, c + j + m.len(), line));
    }
}

/// A text with no value behind a marker is not changed by removing them.
proof fn lemma_redacted_stays(s: Seq<char>, m: Seq<char>, line: bool)
    requires
        m.len() > 0,
        is_redacted_for(s, m, line),
    ensures
        redact_marker(s, m, line) == s,
    decreases s.len(),
{
    text::lemma_find_from(text::lower(s), m, 0);
    if let Some(i) = text::find(text::lower(s), m) {
        let after = i + m.len();
        lemma_marker_chars(s, m, i);
        lemma_value_range(s, after, line);
        let from = value_start(s, after);
        let to = value_end(s, after, line);
        assert(is_cleared(s, after, line)) by {
            reveal(is_redacted_for);
        }
        if from < to {
            lemma_redacted_behind(s, to, m, line);
            lemma_redacted_stays(s.skip(to), m, line);
            assert(s.take(from) + s.subrange(from, to) + s.skip(to) =~= s);
        } else {
            lemma_redacted_behind(s, after, m, line);
            lemma_redacted_stays(s.skip(after), m, line);
            assert(s.take(after) + s.skip(after) =~= s);
        }
    }
}

/// A value that a replacement was put in place of without changing the text is the
/// replacement.
proof fn lemma_value_is_replacement(
    s: Seq<char>,
    kind: ValueEnd,
    from: int,
    to: int,
    tail: Seq<char>,
)
    requires
        0 <= from < to <= s.len(),
        forall|k: int| from <= k < to ==> !ends_value(kind, #[trigger] s[k]),
        to < s.len() ==> ends_value(kind, s[to]) && tail.len() > 0 && tail[0] == s[to],
        to == s.len() ==> tail.len() == 0,
        kind matches ValueEnd::Quote(q) ==> is_quote(q),
        s == s.take(from) + replacement() + tail,
    ensures
        s.subrange(from, to) == replacement(),
        s.skip(to) == tail,
{
    let r = s.take(from) + replacement() + tail;
    assert(replacement().len() == 10);
    lemma_replacement_has_no_value_end(true, '"');
    lemma_replacement_has_no_value_end(true, '\'');
    assert forall|k: int| from <= k < from + 10 implies #[trigger] s[k] == replacement()[k
        - from] by {
        assert(r[k] == replacement()[k - from]);
    }
    if to < from + 10 {
        assert(s[to] == replacement()[to - from]);
        assert(!ends_value(kind, replacement()[to - from]));
    }
    if to > from + 10 {
        assert(r[from + 10] == tail[0]);
        assert(s[from + 10] == s[to]);
    }
    assert(s.subrange(from, to) =~= replacement());
    assert(r.skip(to) =~= tail);
}

/// The first marker of a text that removing does not change is cleared, and the
/// text behind it is not changed either.
#[verifier::rlimit(40)]
proof fn lemma_first_is_cleared(s: Seq<char>, m: Seq<char>, line: bool, i: int)
    requires
        m.len() > 0,
        redact_marker(s, m, line) == s,
        text::find(text::lower(s), m) == Some(i),
    ensures
        is_cleared(s, i + m.len(), line),
        ({
            let from = value_start(s, i + m.len());
            let to = value_end(s, i + m.len(), line);
            let rest = if from < to {
                s.skip(to)
            } else {
                s.skip(i + m.len())
            };
            redact_marker(rest, m, line) == rest
        }),
{
    let after = i + m.len();
    text::lemma_find_from(text::lower(s), m, 0);
    lemma_marker_chars(s, m, i);
    lemma_value_chars(s, after, line);
    let from = value_start(s, after);
    let to = value_end(s, after, line);
    let kind = value_kind(s, after, line);
    if from < to {
        let x = s.skip(to);
        let tail = redact_marker(x, m, line);
        lemma_find_value_end(s, kind, from);
        lemma_redact_prefix(x, m, line);
        if x.len() > 0 {
            assert(x[0] == s[to]);
            assert(tail.len() > 0 && tail[0] == x[0]);
        } else {
            text::lemma_find_from(text::lower(x), m, 0);
            assert(tail == x);
        }
        lemma_value_is_replacement(s, kind, from, to, tail);
    } else {
        let tail = redact_marker(s.skip(after), m, line);
        assert((s.take(after) + tail).skip(after) =~= tail);
    }
}

/// The occurrences of a marker behind one that is cleared.
#[verifier::rlimit(40)]
proof fn lemma_behind_cleared(s: Seq<char>, m: Seq<char>, line: bool, i: int, c: int, j: int)
    requires
        is_plain_marker(m, line),
        text::occurs_at(text::lower(s), m, i),
        text::occurs_at(text::lower(s), m, j),
        is_cleared(s, i + m.len(), line),
        i < j,
        0 <= c <= value_end(s, i + m.len(), line),
        c <= s.len(),
        is_redacted_for(s.skip(c), m, line),
    ensures
        is_cleared(s, j + m.len(), line),
{
    let x = s.skip(c);
    assert(x.skip(0) =~= x);
    lemma_marker_chars(s, m, j);
    lemma_markers_do_not_mix(s, m, line, i, m, line, j);
    lemma_occurs_behind(s, x, c, 0, m, j - c);
    assert(is_cleared(x, j - c + m.len(), line)) by {
        reveal(is_redacted_for);
        assert(text::occurs_at(text::lower(x), m, j - c));
    }
    lemma_cleared_behind(s, x, c, 0, j - c + m.len(), line);
}

/// A text that removing the values of a marker does not change has none.
#[verifier::rlimit(40)]
proof fn lemma_settled_is_redacted(s: Seq<char>, m: Seq<char>, line: bool)
    requires
        is_plain_marker(m, line),
        redact_marker(s, m, line) == s,
    ensures
        is_redacted_for(s, m, line),
    decreases s.len(),
{
    text::lemma_find_from(text::lower(s), m, 0);
    let found = text::find(text::lower(s), m);
    if let Some(i) = found {
        let after = i + m.len();
        lemma_marker_chars(s, m, i);
        lemma_first_is_cleared(s, m, line, i);
        lemma_value_range(s, after, line);
        let to = value_end(s, after, line);
        let c = if value_start(s, after) < to {
            to
        } else {
            after
        };
        lemma_settled_is_redacted(s.skip(c), m, line);
        assert forall|j: int| #[trigger] text::occurs_at(text::lower(s), m, j) implies is_cleared(
            s,
            j + m.len(),
            line,
        ) by {
            if j != i {
                lemma_behind_cleared(s, m, line, i, c, j);
            }
        }
    }
    assert(is_redacted_for(s, m, line)) by {
        reveal(is_redacted_for);
    }
}

/// After the values of a marker were removed there are none, and there are none
/// either behind the markers that had none before.
pub proof fn law_redaction_keeps_redacted(
    s: Seq<char>,
    marker: Seq<char>,
    to_line_end: bool,
    other: Seq<char>,
    other_to_line_end: bool,
)
    requires
        is_plain_marker(marker, to_line_end),
        is_plain_marker(other, other_to_line_end),
    ensures
        is_redacted_for(redact_marker(s, marker, to_line_end), marker, to_line_end),
        is_redacted_for(s, other, other_to_line_end) ==> is_redacted_for(
            redact_marker(s, marker, to_line_end),
            other,
            other_to_line_end,
        ),
{
    assert(is_word_char(marker[1]));
    law_redaction_settles(s, marker, to_line_end);
    lemma_settled_is_redacted(redact_marker(s, marker, to_line_end), marker, to_line_end);
    if is_redacted_for(s, other, other_to_line_end) {
        let p = Seq::<char>::empty();
        assert(p + s =~= s);
        lemma_redact_keeps_redacted(p, s, other, other_to_line_end, marker, to_line_end);
        let r = redact_marker(s, marker, to_line_end);
        assert(p + r =~= r);
    }
}

/// The known markers, each with whether its value goes on to the end of the line,
/// in the order in which their values are removed.
pub open spec fn known_markers() -> Seq<(Seq<char>, bool)> {
    seq![
        (text::lower("authorization:"@), true),
        (text::lower("proxy-authorization:"@), true),
        (text::lower("cookie:"@), true),
        (text::lower("set-cookie:"@), true),
        (text::lower("\"authorization\""@), false),
        (text::lower("\"runtimetoken\""@), false),
        (text::lower("\"runtime_token\""@), false),
        (text::lower("\"token\""@), false),
        (text::lower("\"apikey\""@), false),
        (text::lower("\"api_key\""@), false),
        (text::lower("bearer "@), false),
        (text::lower("api_key="@), false),
        (text::lower("api-key="@), false),
        (text::lower("apikey="@), false),
        (text::lower("token="@), false),
        (text::lower("runtime_token="@), false),
        (text::lower("cookie="@), false),
    ]
}

/// The text without the values of the first markers of a list.
pub open spec fn redact_first(s: Seq<char>, markers: Seq<(Seq<char>, bool)>, n: nat) -> Seq<char>
    decreases n,
{
    if n == 0 {
        s
    } else {
        let (marker, to_line_end) = markers[n - 1];
        redact_marker(redact_first(s, markers, (n - 1) as nat), marker, to_line_end)
    }
}

/// Whether all characters of a range are those of a word.
spec fn all_words(s: Seq<char>, i: int, n: int) -> bool
    decreases n - i,
{
    i >= n || (is_word_char(s[i]) && all_words(s, i + 1, n))
}

proof fn lemma_all_words(s: Seq<char>, i: int, n: int)
    requires
        all_words(s, i, n),
    ensures
        forall|k: int| i <= k < n ==> is_word_char(#[trigger] s[k]),
    decreases n - i,
{
    if i < n {
        lemma_all_words(s, i + 1, n);
    }
}

proof fn lemma_plain_marker(marker: Seq<char>, to_line_end: bool)
    requires
        marker.len() >= 3,
        all_words(marker, 1, marker.len() - 1),
        marker[0] == '"' || is_word_char(marker[0]),
        marker.last() == ':' || marker.last() == '"' || marker.last() == ' ' || marker.last()
            == '=',
        to_line_end <==> marker.last() == ':',
    ensures
        is_plain_marker(marker, to_line_end),
{
    lemma_all_words(marker, 1, marker.len() - 1);
}

/// The markers of headers have the form of markers.
#[verifier::spinoff_prover]
proof fn lemma_header_markers()
    ensures
        is_plain_marker(text::lower("authorization:"@), true),
        is_plain_marker(text::lower("proxy-authorization:"@), true),
        is_plain_marker(text::lower("cookie:"@), true),
        is_plain_marker(text::lower("set-cookie:"@), true),
{
    reveal_strlit("authorization:");
    reveal_strlit("proxy-authorization:");
    reveal_strlit("cookie:");
    reveal_strlit("set-cookie:");
    reveal_with_fuel(all_words, 20);
    lemma_plain_marker(text::lower("authorization:"@), true);
    lemma_plain_marker(text::lower("proxy-authorization:"@), true);
    lemma_plain_marker(text::lower("cookie:"@), true);
    lemma_plain_marker(text::lower("set-cookie:"@), true);
}

/// The markers in quotes have the form of markers.
#[verifier::spinoff_prover]
proof fn lemma_quoted_markers()
    ensures
        is_plain_marker(text::lower("\"authorization\""@), false),
        is_plain_marker(text::lower("\"runtimetoken\""@), false),
        is_plain_marker(text::lower("\"runtime_token\""@), false),
        is_plain_marker(text::lower("\"token\""@), false),
        is_plain_marker(text::lower("\"apikey\""@), false),
        is_plain_marker(text::lower("\"api_key\""@), false),
{
    reveal_strlit("\"authorization\"");
    reveal_strlit("\"runtimetoken\"");
    reveal_strlit("\"runtime_token\"");
    reveal_strlit("\"token\"");
    reveal_strlit("\"apikey\"");
    reveal_strlit("\"api_key\"");
    reveal_with_fuel(all_words, 15);
    lemma_plain_marker(text::lower("\"authorization\""@), false);
    lemma_plain_marker(text::lower("\"runtimetoken\""@), false);
    lemma_plain_marker(text::lower("\"runtime_token\""@), false);
    lemma_plain_marker(text::lower("\"token\""@), false);
    lemma_plain_marker(text::lower("\"apikey\""@), false);
    lemma_plain_marker(text::lower("\"api_key\""@), false);
}

/// The markers before a bare value have the form of markers.
#[verifier::spinoff_prover]
proof fn lemma_pair_markers()
    ensures
        is_plain_marker(text::lower("bearer "@), false),
        is_plain_marker(text::lower("api_key="@), false),
        is_plain_marker(text::lower("api-key="@), false),
        is_plain_marker(text::lower("apikey="@), false),
        is_plain_marker(text::lower("token="@), false),
        is_plain_marker(text::lower("runtime_token="@), false),
        is_plain_marker(text::lower("cookie="@), false),
{
    reveal_strlit("bearer ");
    reveal_strlit("api_key=");
    reveal_strlit("api-key=");
    reveal_strlit("apikey=");
    reveal_strlit("token=");
    reveal_strlit("runtime_token=");
    reveal_strlit("cookie=");
    reveal_with_fuel(all_words, 14);
    lemma_plain_marker(text::lower("bearer "@), false);
    lemma_plain_marker(text::lower("api_key="@), false);
    lemma_plain_marker(text::lower("api-key="@), false);
    lemma_plain_marker(text::lower("apikey="@), false);
    lemma_plain_marker(text::lower("token="@), false);
    lemma_plain_marker(text::lower("runtime_token="@), false);
    lemma_plain_marker(text::lower("cookie="@), false);
}

/// Every known marker has the form of markers.
proof fn lemma_known_markers()
    ensures
        known_markers().len() == 17,
        forall|k: int|
            0 <= k < 17 ==> is_plain_marker(
                (#[trigger] known_markers()[k]).0,
                known_markers()[k].1,
            ),
{
    lemma_header_markers();
    lemma_quoted_markers();
    lemma_pair_markers();
    assert forall|k: int| 0 <= k < 17 implies is_plain_marker(
        (#[trigger] known_markers()[k]).0,
        known_markers()[k].1,
    ) by {
        assert(k == 0 || k == 1 || k == 2 || k == 3 || k == 4 || k == 5 || k == 6 || k == 7 || k
            == 8 || k == 9 || k == 10 || k == 11 || k == 12 || k == 13 || k == 14 || k == 15 || k
            == 16);
    }
}

proof fn lemma_first_markers_cleared(
    s: Seq<char>,
    markers: Seq<(Seq<char>, bool)>,
    n: nat,
    k: int,
)
    requires
        n <= markers.len(),
        0 <= k < n,
        forall|i: int|
            0 <= i < markers.len() ==> is_plain_marker((#[trigger] markers[i]).0, markers[i].1),
    ensures
        is_redacted_for(redact_first(s, markers, n), markers[k].0, markers[k].1),
    decreases n,
{
    let before = redact_first(s, markers, (n - 1) as nat);
    let (marker, to_line_end) = markers[n - 1];
    let (other, other_to_line_end) = markers[k];
    assert(is_plain_marker(markers[n - 1].0, markers[n - 1].1));
    assert(is_plain_marker(markers[k].0, markers[k].1));
    law_redaction_keeps_redacted(before, marker, to_line_end, other, other_to_line_end);
    if k < n - 1 {
        lemma_first_markers_cleared(s, markers, (n - 1) as nat, k);
    }
}

proof fn lemma_first_markers_stay(s: Seq<char>, markers: Seq<(Seq<char>, bool)>, n: nat)
    requires
        n <= markers.len(),
        forall|i: int|
            0 <= i < markers.len() ==> is_plain_marker((#[trigger] markers[i]).0, markers[i].1)
                && is_redacted_for(s, markers[i].0, markers[i].1),
    ensures
        redact_first(s, markers, n) == s,
    decreases n,
{
    if n > 0 {
        lemma_first_markers_stay(s, markers, (n - 1) as nat);
        assert(is_plain_marker(markers[n - 1].0, markers[n - 1].1));
        lemma_redacted_stays(s, markers[n - 1].0, markers[n - 1].1);
    }
}

proof fn lemma_redact_markers_is(s: Seq<char>)
    ensures
        redact_markers(s) == redact_first(s, known_markers(), 17),
{
    reveal_with_fuel(redact_first, 18);
}

/// In a text that was redacted nothing but the replacement stands behind any known
/// marker, however the markers stand in each other and in their values.
pub proof fn law_no_value_is_left(s: Seq<char>, k: int)
    requires
        0 <= k < known_markers().len(),
    ensures
        is_redacted_for(redact_markers(s), known_markers()[k].0, known_markers()[k].1),
{
    lemma_known_markers();
    lemma_redact_markers_is(s);
    lemma_first_markers_cleared(s, known_markers(), 17, k);
}

/// A redacted text is not changed by redacting it again, unless it was cut.
pub proof fn law_redacted_settles(s: Seq<char>)
    ensures
        redact_markers(redact_markers(s)) == redact_markers(s),
        text::byte_len(redact_markers(s)) <= MAX_TRANSPORT_LINE_BYTES ==> redacted(redacted(s))
            == redacted(s),
{
    let r = redact_markers(s);
    lemma_known_markers();
    assert forall|k: int| 0 <= k < known_markers().len() implies is_plain_marker(
        (#[trigger] known_markers()[k]).0,
        known_markers()[k].1,
    ) && is_redacted_for(r, known_markers()[k].0, known_markers()[k].1) by {
        law_no_value_is_left(s, k);
    }
    lemma_first_markers_stay(r, known_markers(), 17);
    lemma_redact_markers_is(r);
}

} // verus!
