//! What holds of every text that is redacted, in terms of the secrets that stand in it.

use vstd::prelude::*;
use vstd::string::*;

use crate::redact;
use crate::text;

verus! {

/// The marker is kept in small letters.
proof fn lemma_marker_0()
    ensures
        text::lower("authorization:"@) == "authorization:"@,
        "authorization:"@.len() == 14,
{
    reveal_strlit("authorization:");
    let m = "authorization:"@;
    assert forall|i: int| 0 <= i < m.len() implies text::lower_char(#[trigger] m[i]) == m[i] by {}
    assert(text::lower(m) =~= m);
}

/// The marker is kept in small letters.
proof fn lemma_marker_1()
    ensures
        text::lower("proxy-authorization:"@) == "proxy-authorization:"@,
        "proxy-authorization:"@.len() == 20,
{
    reveal_strlit("proxy-authorization:");
    let m = "proxy-authorization:"@;
    assert forall|i: int| 0 <= i < m.len() implies text::lower_char(#[trigger] m[i]) == m[i] by {}
    assert(text::lower(m) =~= m);
}

/// The marker is kept in small letters.
proof fn lemma_marker_2()
    ensures
        text::lower("cookie:"@) == "cookie:"@,
        "cookie:"@.len() == 7,
{
    reveal_strlit("cookie:");
    let m = "cookie:"@;
    assert forall|i: int| 0 <= i < m.len() implies text::lower_char(#[trigger] m[i]) == m[i] by {}
    assert(text::lower(m) =~= m);
}

/// The marker is kept in small letters.
proof fn lemma_marker_3()
    ensures
        text::lower("set-cookie:"@) == "set-cookie:"@,
        "set-cookie:"@.len() == 11,
{
    reveal_strlit("set-cookie:");
    let m = "set-cookie:"@;
    assert forall|i: int| 0 <= i < m.len() implies text::lower_char(#[trigger] m[i]) == m[i] by {}
    assert(text::lower(m) =~= m);
}

/// The marker is kept in small letters.
proof fn lemma_marker_4()
    ensures
        text::lower("\"authorization\""@) == "\"authorization\""@,
        "\"authorization\""@.len() == 15,
{
    reveal_strlit("\"authorization\"");
    let m = "\"authorization\""@;
    assert forall|i: int| 0 <= i < m.len() implies text::lower_char(#[trigger] m[i]) == m[i] by {}
    assert(text::lower(m) =~= m);
}

/// The marker is kept in small letters.
proof fn lemma_marker_5()
    ensures
        text::lower("\"runtimetoken\""@) == "\"runtimetoken\""@,
        "\"runtimetoken\""@.len() == 14,
{
    reveal_strlit("\"runtimetoken\"");
    let m = "\"runtimetoken\""@;
    assert forall|i: int| 0 <= i < m.len() implies text::lower_char(#[trigger] m[i]) == m[i] by {}
    assert(text::lower(m) =~= m);
}

/// The marker is kept in small letters.
proof fn lemma_marker_6()
    ensures
        text::lower("\"runtime_token\""@) == "\"runtime_token\""@,
        "\"runtime_token\""@.len() == 15,
{
    reveal_strlit("\"runtime_token\"");
    let m = "\"runtime_token\""@;
    assert forall|i: int| 0 <= i < m.len() implies text::lower_char(#[trigger] m[i]) == m[i] by {}
    assert(text::lower(m) =~= m);
}

/// The marker is kept in small letters.
proof fn lemma_marker_7()
    ensures
        text::lower("\"token\""@) == "\"token\""@,
        "\"token\""@.len() == 7,
{
    reveal_strlit("\"token\"");
    let m = "\"token\""@;
    assert forall|i: int| 0 <= i < m.len() implies text::lower_char(#[trigger] m[i]) == m[i] by {}
    assert(text::lower(m) =~= m);
}

/// The marker is kept in small letters.
proof fn lemma_marker_8()
    ensures
        text::lower("\"apikey\""@) == "\"apikey\""@,
        "\"apikey\""@.len() == 8,
{
    reveal_strlit("\"apikey\"");
    let m = "\"apikey\""@;
    assert forall|i: int| 0 <= i < m.len() implies text::lower_char(#[trigger] m[i]) == m[i] by {}
    assert(text::lower(m) =~= m);
}

/// The marker is kept in small letters.
proof fn lemma_marker_9()
    ensures
        text::lower("\"api_key\""@) == "\"api_key\""@,
        "\"api_key\""@.len() == 9,
{
    reveal_strlit("\"api_key\"");
    let m = "\"api_key\""@;
    assert forall|i: int| 0 <= i < m.len() implies text::lower_char(#[trigger] m[i]) == m[i] by {}
    assert(text::lower(m) =~= m);
}

/// The marker is kept in small letters.
proof fn lemma_marker_10()
    ensures
        text::lower("bearer "@) == "bearer "@,
        "bearer "@.len() == 7,
{
    reveal_strlit("bearer ");
    let m = "bearer "@;
    assert forall|i: int| 0 <= i < m.len() implies text::lower_char(#[trigger] m[i]) == m[i] by {}
    assert(text::lower(m) =~= m);
}

/// The marker is kept in small letters.
proof fn lemma_marker_11()
    ensures
        text::lower("api_key="@) == "api_key="@,
        "api_key="@.len() == 8,
{
    reveal_strlit("api_key=");
    let m = "api_key="@;
    assert forall|i: int| 0 <= i < m.len() implies text::lower_char(#[trigger] m[i]) == m[i] by {}
    assert(text::lower(m) =~= m);
}

/// The marker is kept in small letters.
proof fn lemma_marker_12()
    ensures
        text::lower("api-key="@) == "api-key="@,
        "api-key="@.len() == 8,
{
    reveal_strlit("api-key=");
    let m = "api-key="@;
    assert forall|i: int| 0 <= i < m.len() implies text::lower_char(#[trigger] m[i]) == m[i] by {}
    assert(text::lower(m) =~= m);
}

/// The marker is kept in small letters.
proof fn lemma_marker_13()
    ensures
        text::lower("apikey="@) == "apikey="@,
        "apikey="@.len() == 7,
{
    reveal_strlit("apikey=");
    let m = "apikey="@;
    assert forall|i: int| 0 <= i < m.len() implies text::lower_char(#[trigger] m[i]) == m[i] by {}
    assert(text::lower(m) =~= m);
}

/// The marker is kept in small letters.
proof fn lemma_marker_14()
    ensures
        text::lower("token="@) == "token="@,
        "token="@.len() == 6,
{
    reveal_strlit("token=");
    let m = "token="@;
    assert forall|i: int| 0 <= i < m.len() implies text::lower_char(#[trigger] m[i]) == m[i] by {}
    assert(text::lower(m) =~= m);
}

/// The marker is kept in small letters.
proof fn lemma_marker_15()
    ensures
        text::lower("runtime_token="@) == "runtime_token="@,
        "runtime_token="@.len() == 14,
{
    reveal_strlit("runtime_token=");
    let m = "runtime_token="@;
    assert forall|i: int| 0 <= i < m.len() implies text::lower_char(#[trigger] m[i]) == m[i] by {}
    assert(text::lower(m) =~= m);
}

/// The marker is kept in small letters.
proof fn lemma_marker_16()
    ensures
        text::lower("cookie="@) == "cookie="@,
        "cookie="@.len() == 7,
{
    reveal_strlit("cookie=");
    let m = "cookie="@;
    assert forall|i: int| 0 <= i < m.len() implies text::lower_char(#[trigger] m[i]) == m[i] by {}
    assert(text::lower(m) =~= m);
}

/// Behind a marker, however its letters are written, there is no value but the mark that
/// one was removed.
pub open spec fn is_clear_of(s: Seq<char>, marker: Seq<char>, to_line_end: bool) -> bool {
    forall|i: int| #[trigger]
        text::occurs_at(text::lower(s), marker, i) ==> {
            let from = redact::value_start(s, i + marker.len());
            let to = redact::value_end(s, i + marker.len(), to_line_end);
            from == to || s.subrange(from, to) == "<redacted>"@
        }
}

proof fn lemma_clear(r: Seq<char>, marker: Seq<char>, to_line_end: bool)
    requires
        redact::is_redacted_for(r, marker, to_line_end),
    ensures
        is_clear_of(r, marker, to_line_end),
{
    reveal(redact::is_redacted_for);
    reveal_strlit("<redacted>");
    assert(redact::replacement() =~= "<redacted>"@);
    assert forall|i: int| #[trigger]
        text::occurs_at(text::lower(r), marker, i) implies redact::is_cleared(
        r,
        i + marker.len(),
        to_line_end,
    ) by {
        assert(text::occurs_at(text::lower(r), marker, i));
    }
}

/// No secret is left behind any of the words that announce one: the header lines for
/// authorization and cookies to their ends, and the members and parameters for tokens, keys
/// and cookies.
pub proof fn law_no_secret_is_left(s: Seq<char>)
    ensures
        is_clear_of(redact::redact_markers(s), "authorization:"@, true),
        is_clear_of(redact::redact_markers(s), "proxy-authorization:"@, true),
        is_clear_of(redact::redact_markers(s), "cookie:"@, true),
        is_clear_of(redact::redact_markers(s), "set-cookie:"@, true),
        is_clear_of(redact::redact_markers(s), "\"authorization\""@, false),
        is_clear_of(redact::redact_markers(s), "\"runtimetoken\""@, false),
        is_clear_of(redact::redact_markers(s), "\"runtime_token\""@, false),
        is_clear_of(redact::redact_markers(s), "\"token\""@, false),
        is_clear_of(redact::redact_markers(s), "\"apikey\""@, false),
        is_clear_of(redact::redact_markers(s), "\"api_key\""@, false),
        is_clear_of(redact::redact_markers(s), "bearer "@, false),
        is_clear_of(redact::redact_markers(s), "api_key="@, false),
        is_clear_of(redact::redact_markers(s), "api-key="@, false),
        is_clear_of(redact::redact_markers(s), "apikey="@, false),
        is_clear_of(redact::redact_markers(s), "token="@, false),
        is_clear_of(redact::redact_markers(s), "runtime_token="@, false),
        is_clear_of(redact::redact_markers(s), "cookie="@, false),
{
    let r = redact::redact_markers(s);
    assert(is_clear_of(r, "authorization:"@, true)) by {
        lemma_marker_0();
        redact::law_no_value_is_left(s, 0);
        lemma_clear(r, "authorization:"@, true);
    }
    assert(is_clear_of(r, "proxy-authorization:"@, true)) by {
        lemma_marker_1();
        redact::law_no_value_is_left(s, 1);
        lemma_clear(r, "proxy-authorization:"@, true);
    }
    assert(is_clear_of(r, "cookie:"@, true)) by {
        lemma_marker_2();
        redact::law_no_value_is_left(s, 2);
        lemma_clear(r, "cookie:"@, true);
    }
    assert(is_clear_of(r, "set-cookie:"@, true)) by {
        lemma_marker_3();
        redact::law_no_value_is_left(s, 3);
        lemma_clear(r, "set-cookie:"@, true);
    }
    assert(is_clear_of(r, "\"authorization\""@, false)) by {
        lemma_marker_4();
        redact::law_no_value_is_left(s, 4);
        lemma_clear(r, "\"authorization\""@, false);
    }
    assert(is_clear_of(r, "\"runtimetoken\""@, false)) by {
        lemma_marker_5();
        redact::law_no_value_is_left(s, 5);
        lemma_clear(r, "\"runtimetoken\""@, false);
    }
    assert(is_clear_of(r, "\"runtime_token\""@, false)) by {
        lemma_marker_6();
        redact::law_no_value_is_left(s, 6);
        lemma_clear(r, "\"runtime_token\""@, false);
    }
    assert(is_clear_of(r, "\"token\""@, false)) by {
        lemma_marker_7();
        redact::law_no_value_is_left(s, 7);
        lemma_clear(r, "\"token\""@, false);
    }
    assert(is_clear_of(r, "\"apikey\""@, false)) by {
        lemma_marker_8();
        redact::law_no_value_is_left(s, 8);
        lemma_clear(r, "\"apikey\""@, false);
    }
    assert(is_clear_of(r, "\"api_key\""@, false)) by {
        lemma_marker_9();
        redact::law_no_value_is_left(s, 9);
        lemma_clear(r, "\"api_key\""@, false);
    }
    assert(is_clear_of(r, "bearer "@, false)) by {
        lemma_marker_10();
        redact::law_no_value_is_left(s, 10);
        lemma_clear(r, "bearer "@, false);
    }
    assert(is_clear_of(r, "api_key="@, false)) by {
        lemma_marker_11();
        redact::law_no_value_is_left(s, 11);
        lemma_clear(r, "api_key="@, false);
    }
    assert(is_clear_of(r, "api-key="@, false)) by {
        lemma_marker_12();
        redact::law_no_value_is_left(s, 12);
        lemma_clear(r, "api-key="@, false);
    }
    assert(is_clear_of(r, "apikey="@, false)) by {
        lemma_marker_13();
        redact::law_no_value_is_left(s, 13);
        lemma_clear(r, "apikey="@, false);
    }
    assert(is_clear_of(r, "token="@, false)) by {
        lemma_marker_14();
        redact::law_no_value_is_left(s, 14);
        lemma_clear(r, "token="@, false);
    }
    assert(is_clear_of(r, "runtime_token="@, false)) by {
        lemma_marker_15();
        redact::law_no_value_is_left(s, 15);
        lemma_clear(r, "runtime_token="@, false);
    }
    assert(is_clear_of(r, "cookie="@, false)) by {
        lemma_marker_16();
        redact::law_no_value_is_left(s, 16);
        lemma_clear(r, "cookie="@, false);
    }
}

/// A text in which no such word stands is shown as it is, if it is no longer than 131072
/// bytes; a longer one is cut, and that is said.
pub proof fn law_harmless_text_is_shown(s: Seq<char>)
    requires
        !text::contains_text(text::lower(s), "authorization:"@),
        !text::contains_text(text::lower(s), "proxy-authorization:"@),
        !text::contains_text(text::lower(s), "cookie:"@),
        !text::contains_text(text::lower(s), "set-cookie:"@),
        !text::contains_text(text::lower(s), "\"authorization\""@),
        !text::contains_text(text::lower(s), "\"runtimetoken\""@),
        !text::contains_text(text::lower(s), "\"runtime_token\""@),
        !text::contains_text(text::lower(s), "\"token\""@),
        !text::contains_text(text::lower(s), "\"apikey\""@),
        !text::contains_text(text::lower(s), "\"api_key\""@),
        !text::contains_text(text::lower(s), "bearer "@),
        !text::contains_text(text::lower(s), "api_key="@),
        !text::contains_text(text::lower(s), "api-key="@),
        !text::contains_text(text::lower(s), "apikey="@),
        !text::contains_text(text::lower(s), "token="@),
        !text::contains_text(text::lower(s), "runtime_token="@),
        !text::contains_text(text::lower(s), "cookie="@),
    ensures
        redact::redact_markers(s) == s,
        text::byte_len(s) <= 131_072 ==> redact::redacted(s) == s,
        text::byte_len(s) > 131_072 ==> redact::redacted(s) == text::bounded_prefix(s, 131_072)
            + "...[truncated]"@,
{
    assert(redact::redact_marker(s, text::lower("authorization:"@), true) == s) by {
        lemma_marker_0();
        lemma_no_marker(s, "authorization:"@, true);
    }
    assert(redact::redact_marker(s, text::lower("proxy-authorization:"@), true) == s) by {
        lemma_marker_1();
        lemma_no_marker(s, "proxy-authorization:"@, true);
    }
    assert(redact::redact_marker(s, text::lower("cookie:"@), true) == s) by {
        lemma_marker_2();
        lemma_no_marker(s, "cookie:"@, true);
    }
    assert(redact::redact_marker(s, text::lower("set-cookie:"@), true) == s) by {
        lemma_marker_3();
        lemma_no_marker(s, "set-cookie:"@, true);
    }
    assert(redact::redact_marker(s, text::lower("\"authorization\""@), false) == s) by {
        lemma_marker_4();
        lemma_no_marker(s, "\"authorization\""@, false);
    }
    assert(redact::redact_marker(s, text::lower("\"runtimetoken\""@), false) == s) by {
        lemma_marker_5();
        lemma_no_marker(s, "\"runtimetoken\""@, false);
    }
    assert(redact::redact_marker(s, text::lower("\"runtime_token\""@), false) == s) by {
        lemma_marker_6();
        lemma_no_marker(s, "\"runtime_token\""@, false);
    }
    assert(redact::redact_marker(s, text::lower("\"token\""@), false) == s) by {
        lemma_marker_7();
        lemma_no_marker(s, "\"token\""@, false);
    }
    assert(redact::redact_marker(s, text::lower("\"apikey\""@), false) == s) by {
        lemma_marker_8();
        lemma_no_marker(s, "\"apikey\""@, false);
    }
    assert(redact::redact_marker(s, text::lower("\"api_key\""@), false) == s) by {
        lemma_marker_9();
        lemma_no_marker(s, "\"api_key\""@, false);
    }
    assert(redact::redact_marker(s, text::lower("bearer "@), false) == s) by {
        lemma_marker_10();
        lemma_no_marker(s, "bearer "@, false);
    }
    assert(redact::redact_marker(s, text::lower("api_key="@), false) == s) by {
        lemma_marker_11();
        lemma_no_marker(s, "api_key="@, false);
    }
    assert(redact::redact_marker(s, text::lower("api-key="@), false) == s) by {
        lemma_marker_12();
        lemma_no_marker(s, "api-key="@, false);
    }
    assert(redact::redact_marker(s, text::lower("apikey="@), false) == s) by {
        lemma_marker_13();
        lemma_no_marker(s, "apikey="@, false);
    }
    assert(redact::redact_marker(s, text::lower("token="@), false) == s) by {
        lemma_marker_14();
        lemma_no_marker(s, "token="@, false);
    }
    assert(redact::redact_marker(s, text::lower("runtime_token="@), false) == s) by {
        lemma_marker_15();
        lemma_no_marker(s, "runtime_token="@, false);
    }
    assert(redact::redact_marker(s, text::lower("cookie="@), false) == s) by {
        lemma_marker_16();
        lemma_no_marker(s, "cookie="@, false);
    }
}

proof fn lemma_no_marker(s: Seq<char>, marker: Seq<char>, to_line_end: bool)
    requires
        marker.len() > 0,
        !text::contains_text(text::lower(s), marker),
    ensures
        redact::redact_marker(s, marker, to_line_end) == s,
{
    text::lemma_find_from(text::lower(s), marker, 0);
    if let Some(i) = text::find(text::lower(s), marker) {
        assert(text::occurs_at(text::lower(s), marker, i));
    }
}

/// A character that can stand in a value without quotes.
pub open spec fn is_bare(c: char) -> bool {
    !text::is_white_space(c) && c != ':' && c != '=' && c != '\'' && c != '"' && c != ',' && c != ';'
        && c != '&' && c != '}' && c != ']'
}

/// A value behind the first marker in a text is replaced by the mark that it was removed,
/// up to the white space, comma, semicolon, ampersand or bracket that ends it; what stands
/// before and behind it is kept.
pub proof fn law_value_is_replaced(
    before: Seq<char>,
    marker: Seq<char>,
    value: Seq<char>,
    rest: Seq<char>,
)
    requires
        marker.len() > 0,
        value.len() > 0,
        forall|i: int| 0 <= i < value.len() ==> is_bare(#[trigger] value[i]),
        rest.len() > 0 ==> text::is_white_space(rest[0]) || rest[0] == ',' || rest[0] == ';'
            || rest[0] == '&' || rest[0] == '}' || rest[0] == ']',
        text::find(text::lower(before + marker + value + rest), marker) == Some(
            before.len() as int,
        ),
    ensures
        redact::redact_marker(before + marker + value + rest, marker, false) == before + marker
            + "<redacted>"@ + redact::redact_marker(rest, marker, false),
{
    reveal_strlit("<redacted>");
    assert(redact::replacement() =~= "<redacted>"@);
    let s = before + marker + value + rest;
    let a = (before.len() + marker.len()) as int;
    let e = a + value.len();
    assert(s[a] == value[0]);
    assert(redact::skip_separators(s, a) == a);
    assert(redact::value_start(s, a) == a);
    assert(redact::value_kind(s, a, false) == redact::ValueEnd::Bare);
    assert forall|i: int| a <= i < e implies !redact::is_value_end(#[trigger] s[i]) by {
        assert(s[i] == value[i - a]);
    }
    if rest.len() > 0 {
        assert(s[e] == rest[0]);
    }
    lemma_end_found(s, redact::ValueEnd::Bare, a, e);
    assert(s.take(a) =~= before + marker);
    assert(s.skip(e) =~= rest);
    assert(redact::redact_marker(s, marker, false) =~= before + marker + "<redacted>"@
        + redact::redact_marker(rest, marker, false));
}

proof fn lemma_end_found(s: Seq<char>, kind: redact::ValueEnd, i: int, e: int)
    requires
        0 <= i <= e <= s.len(),
        forall|k: int| i <= k < e ==> !redact::ends_value(kind, #[trigger] s[k]),
        e < s.len() ==> redact::ends_value(kind, s[e]),
    ensures
        redact::find_value_end(s, kind, i) == e,
    decreases e - i,
{
    if i < e {
        assert(!redact::ends_value(kind, s[i]));
        lemma_end_found(s, kind, i + 1, e);
    }
}

/// A value in quotes behind the first marker is replaced up to the quote that ends it,
/// whatever stands in it; one of a header line is replaced up to the end of the line.
pub proof fn law_quoted_value_is_replaced(
    before: Seq<char>,
    marker: Seq<char>,
    quote: char,
    value: Seq<char>,
    rest: Seq<char>,
)
    requires
        marker.len() > 0,
        value.len() > 0,
        quote == '"' || quote == '\'',
        !value.contains(quote),
        text::find(
            text::lower(before + marker + seq![':', quote] + value + seq![quote] + rest),
            marker,
        ) == Some(before.len() as int),
    ensures
        redact::redact_marker(
            before + marker + seq![':', quote] + value + seq![quote] + rest,
            marker,
            false,
        ) == before + marker + seq![':', quote] + "<redacted>"@ + redact::redact_marker(
            seq![quote] + rest,
            marker,
            false,
        ),
{
    reveal_strlit("<redacted>");
    assert(redact::replacement() =~= "<redacted>"@);
    let s = before + marker + seq![':', quote] + value + seq![quote] + rest;
    let a = (before.len() + marker.len()) as int;
    let e = a + 2 + value.len();
    assert(s[a] == ':');
    assert(s[a + 1] == quote);
    assert(redact::skip_separators(s, a + 1) == a + 1);
    assert(redact::skip_separators(s, a) == a + 1);
    assert(redact::value_start(s, a) == a + 2);
    let kind = redact::ValueEnd::Quote(quote);
    assert(redact::value_kind(s, a, false) == kind);
    assert forall|i: int| a + 2 <= i < e implies !redact::ends_value(kind, #[trigger] s[i]) by {
        assert(s[i] == value[i - a - 2]);
        if s[i] == quote {
            assert(value.contains(quote));
        }
    }
    assert(s[e] == quote);
    lemma_end_found(s, kind, a + 2, e);
    assert(s.take(a + 2) =~= before + marker + seq![':', quote]);
    assert(s.skip(e) =~= seq![quote] + rest);
    assert(redact::redact_marker(s, marker, false) =~= before + marker + seq![':', quote]
        + "<redacted>"@ + redact::redact_marker(seq![quote] + rest, marker, false));
}

/// A secret in a header line is replaced up to the end of the line, also where it is made
/// of several words.
pub proof fn law_header_is_replaced_to_its_end(
    before: Seq<char>,
    marker: Seq<char>,
    value: Seq<char>,
    rest: Seq<char>,
)
    requires
        marker.len() > 0,
        value.len() > 0,
        is_bare(value[0]),
        !value.contains('\r'),
        !value.contains('\n'),
        rest.len() > 0 ==> rest[0] == '\r' || rest[0] == '\n',
        text::find(text::lower(before + marker + seq![' '] + value + rest), marker) == Some(
            before.len() as int,
        ),
    ensures
        redact::redact_marker(before + marker + seq![' '] + value + rest, marker, true) == before
            + marker + seq![' '] + "<redacted>"@ + redact::redact_marker(rest, marker, true),
{
    reveal_strlit("<redacted>");
    assert(redact::replacement() =~= "<redacted>"@);
    let s = before + marker + seq![' '] + value + rest;
    let a = (before.len() + marker.len()) as int;
    let e = a + 1 + value.len();
    assert(s[a] == ' ');
    assert(s[a + 1] == value[0]);
    assert(redact::skip_separators(s, a + 1) == a + 1);
    assert(redact::skip_separators(s, a) == a + 1);
    assert(redact::value_start(s, a) == a + 1);
    let kind = redact::ValueEnd::Line;
    assert(redact::value_kind(s, a, true) == kind);
    assert forall|i: int| a + 1 <= i < e implies !redact::ends_value(kind, #[trigger] s[i]) by {
        assert(s[i] == value[i - a - 1]);
        if s[i] == '\r' {
            assert(value.contains('\r'));
        }
        if s[i] == '\n' {
            assert(value.contains('\n'));
        }
    }
    if rest.len() > 0 {
        assert(s[e] == rest[0]);
    }
    lemma_end_found(s, kind, a + 1, e);
    assert(s.take(a + 1) =~= before + marker + seq![' ']);
    assert(s.skip(e) =~= rest);
    assert(redact::redact_marker(s, marker, true) =~= before + marker + seq![' ']
        + "<redacted>"@ + redact::redact_marker(rest, marker, true));
}

} // verus!
