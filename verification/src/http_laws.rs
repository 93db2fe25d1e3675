//! What holds of every address of a local runtime, of every request that is sent to it
//! and of every answer that comes back.

use vstd::prelude::*;
use vstd::string::*;

use crate::address;
use crate::address::LoopbackAddress;
use crate::error;
use crate::http;
use crate::http::{HostRule, HttpFailureKind};
use crate::json;
use crate::scan;
use crate::text;
use crate::text_laws;

verus! {

/// A base address is "http://" and an authority, with or without a slash behind it; an
/// authority holds neither a slash nor an at sign.
pub proof fn law_base_addresses(value: Seq<char>, a: Seq<char>)
    ensures
        text::trim(value) == "http://"@ + a || text::trim(value) == "http://"@ + a + seq!['/']
            ==> (!a.contains('/') && !a.contains('@') ==> http::base_authority(value) == Some(a)),
        http::base_authority(value) == Some(a) ==> !a.contains('/') && !a.contains('@') && (
        text::trim(value) == "http://"@ + a || text::trim(value) == "http://"@ + a + seq!['/']),
        !text::starts_with(text::trim(value), "http://"@) ==> http::base_authority(value) is None,
{
    let v = text::trim(value);
    let p = "http://"@;
    if v == p + a {
        text_laws::law_texts_stand_in_texts(a, p, a);
        assert(v.skip(p.len() as int) =~= a);
        if a.len() > 0 && a.last() == '/' {
            assert(a.contains('/'));
        }
    }
    if v == p + a + seq!['/'] {
        text_laws::law_texts_stand_in_texts(a, p, a + seq!['/']);
        assert(v =~= p + (a + seq!['/']));
        assert(v.skip(p.len() as int) =~= a + seq!['/']);
        assert((a + seq!['/']).drop_last() =~= a);
    }
    if http::base_authority(value) == Some(a) {
        text_laws::law_texts_stand_in_texts(v, p, v);
        let rest = v.skip(p.len() as int);
        if rest.len() > 0 && rest.last() == '/' {
            assert(rest =~= a + seq!['/']);
            assert(v =~= p + a + seq!['/']);
        }
    }
}

proof fn lemma_last_index(s: Seq<char>, c: char, i: int)
    requires
        0 <= i < s.len(),
        s[i] == c,
        forall|j: int| i < j < s.len() ==> s[j] != c,
    ensures
        http::last_index(s, c) == i,
    decreases s.len(),
{
    if i < s.len() - 1 {
        assert(s[s.len() - 1] != c);
        lemma_last_index(s.drop_last(), c, i);
    }
}

/// The host of an authority is what stands before its last colon, and the port what
/// stands behind it; a host in square brackets is what stands in them.
pub proof fn law_host_and_port(host: Seq<char>, port: Seq<char>)
    requires
        !port.contains(':'),
        host.len() > 0,
        host[0] != '[',
    ensures
        http::host_port(host + seq![':'] + port) == Some((host, port)),
        !host.contains(']') ==> http::host_port(seq!['['] + host + seq![']', ':'] + port) == Some(
            (host, port),
        ),
        !host.contains(':') ==> http::host_port(host) is None,
{
    let a = host + seq![':'] + port;
    assert(a[0] == host[0]);
    assert(a[host.len() as int] == ':');
    assert forall|j: int| host.len() < j < a.len() implies a[j] != ':' by {
        if a[j] == ':' {
            assert(port[j - host.len() - 1] == ':');
        }
    }
    lemma_last_index(a, ':', host.len() as int);
    assert(a.take(host.len() as int) =~= host);
    assert(a.skip(host.len() as int + 1) =~= port);
    if !host.contains(']') {
        reveal_strlit("]:");
        let b = seq!['['] + host + seq![']', ':'] + port;
        let v = b.drop_first();
        assert(v =~= host + seq![']', ':'] + port);
        let n = host.len() as int;
        assert(v.subrange(n, n + 2) =~= "]:"@);
        assert(text::occurs_at(v, "]:"@, n));
        text::lemma_find_from(v, "]:"@, 0);
        let i = text::find(v, "]:"@)->0;
        if i < n {
            assert(v.subrange(i, i + 2)[0] == ']');
            assert(host[i] == ']');
        }
        assert(i == n);
        assert(v.take(n) =~= host);
        assert(v.skip(n + 2) =~= port);
    }
    if !host.contains(':') {
        lemma_no_last_index(host, ':');
    }
}

proof fn lemma_no_last_index(s: Seq<char>, c: char)
    requires
        !s.contains(c),
    ensures
        http::last_index(s, c) == -1,
    decreases s.len(),
{
    if s.len() > 0 {
        assert(s[s.len() - 1] != c);
        let t = s.drop_last();
        assert(!t.contains(c)) by {
            if t.contains(c) {
                let i = choose|i: int| 0 <= i < t.len() && t[i] == c;
                assert(s[i] == c);
            }
        }
        lemma_no_last_index(t, c);
    }
}

/// A base address with a host and a port from 1 to 65535 gives both.
pub proof fn law_base_gives_host_and_port(value: Seq<char>, host: Seq<char>, port: u64)
    requires
        text::trim(value) == "http://"@ + (host + seq![':'] + text::decimal(port as nat)),
        host.len() > 0,
        host[0] != '[',
        !host.contains('/'),
        !host.contains('@'),
    ensures
        1 <= port <= 65_535 ==> http::base_host_port(value) == Some((host, port as u16)),
        port == 0 || port > 65_535 ==> http::base_host_port(value) is None,
{
    let d = text::decimal(port as nat);
    let a = host + seq![':'] + d;
    text::law_decimal_reads_back(port as nat);
    assert forall|c: char| !('0' <= c <= '9') implies !#[trigger] d.contains(c) by {
        if d.contains(c) {
            let i = choose|i: int| 0 <= i < d.len() && d[i] == c;
            assert(text::is_digit(d[i]));
        }
    }
    assert forall|c: char| c == '/' || c == '@' implies !#[trigger] a.contains(c) by {
        if a.contains(c) {
            let i = choose|i: int| 0 <= i < a.len() && a[i] == c;
            if i < host.len() {
                assert(host[i] == c);
            } else if i > host.len() {
                assert(d[i - host.len() - 1] == c);
                assert(d.contains(c));
            }
        }
    }
    assert(!d.contains(':'));
    law_base_addresses(value, a);
    law_host_and_port(host, d);
    text_laws::law_ports_are_small_numbers(port);
}

/// Only this machine is spoken to: an address is allowed exactly if it is one of the
/// loopback addresses, and no name is but "localhost", in whatever letters.
pub proof fn law_only_this_machine_is_spoken_to(host: Seq<char>, parts: Seq<u16>)
    ensures
        address::loopback(parts) is Some <==> (parts.len() == 4 && parts[0] == 127) || (parts.len()
            == 8 && (forall|i: int| 0 <= i < 7 ==> #[trigger] parts[i] == 0) && parts[7] == 1),
        parts.len() == 4 && parts[0] == 127 ==> address::loopback(parts) == Some(
            LoopbackAddress::V4(parts[1], parts[2], parts[3]),
        ),
        parts.len() == 8 && address::loopback(parts) is Some ==> address::loopback(parts) == Some(
            LoopbackAddress::V6,
        ),
        address::ip_parts(text::trim(host)) == Some(parts) ==> match http::host_rule(host) {
            HostRule::Address(a) => address::loopback(parts) == Some(a),
            HostRule::Localhost => false,
            HostRule::Refused => address::loopback(parts) is None || text::trim(host).contains('@')
                || text::trim(host).contains('/') || text::trim(host).contains('\\')
                || text::trim(host).len() == 0,
        },
        address::ip_parts(text::trim(host)) is None ==> (http::host_rule(host)
            == HostRule::Localhost ==> text::lower(text::trim(host)) == "localhost"@)
            && !(http::host_rule(host) is Address),
        text::trim(host).contains('@') || text::trim(host).contains('/') || text::trim(
            host,
        ).contains('\\') || text::trim(host).len() == 0 ==> http::host_rule(host)
            == HostRule::Refused,
{
    let six = seq![0u16, 0u16, 0u16, 0u16, 0u16, 0u16, 0u16, 1u16];
    if parts.len() == 8 && (forall|i: int| 0 <= i < 7 ==> #[trigger] parts[i] == 0) && parts[7]
        == 1 {
        assert(parts =~= six);
    }
    if parts == six {
        assert(forall|i: int| 0 <= i < 7 ==> #[trigger] parts[i] == 0);
    }
}

/// Four numbers up to 255, in decimal digits with dots between them, are an address of
/// the older kind, in that order.
pub proof fn law_dotted_numbers_are_addresses(a: u16, b: u16, c: u16, d: u16)
    requires
        a <= 255,
        b <= 255,
        c <= 255,
        d <= 255,
    ensures
        address::ipv4(
            text::decimal(a as nat) + seq!['.'] + (text::decimal(b as nat) + seq!['.'] + (
            text::decimal(c as nat) + seq!['.'] + text::decimal(d as nat))),
        ) == Some(seq![a, b, c, d]),
{
    let (ta, tb, tc, td) = (
        text::decimal(a as nat),
        text::decimal(b as nat),
        text::decimal(c as nat),
        text::decimal(d as nat),
    );
    lemma_octet(a);
    lemma_octet(b);
    lemma_octet(c);
    lemma_octet(d);
    let s3 = tc + seq!['.'] + td;
    let s2 = tb + seq!['.'] + s3;
    let s1 = ta + seq!['.'] + s2;
    lemma_first_part(ta, s2, '.');
    lemma_first_part(tb, s3, '.');
    lemma_first_part(tc, td, '.');
    text::lemma_first_index(td, '.');
    assert(scan::split_on(td, '.') == seq![td]);
    assert(scan::split_on(s1, '.') =~= seq![ta, tb, tc, td]);
}

proof fn lemma_first_part(a: Seq<char>, rest: Seq<char>, c: char)
    requires
        !a.contains(c),
    ensures
        scan::split_on(a + seq![c] + rest, c) == seq![a] + scan::split_on(rest, c),
{
    let s = a + seq![c] + rest;
    text::lemma_first_index(s, c);
    let i = text::first_index(s, c);
    assert(s[a.len() as int] == c);
    if i < a.len() {
        assert(a[i] == c);
    }
    assert(s.take(i) =~= a);
    assert(s.skip(i + 1) =~= rest);
}

proof fn lemma_octet(n: u16)
    requires
        n <= 255,
    ensures
        address::octet(text::decimal(n as nat)) == Some(n),
        !text::decimal(n as nat).contains('.'),
{
    let d = text::decimal(n as nat);
    text::law_decimal_reads_back(n as nat);
    reveal_with_fuel(text::decimal, 4);
    if d.contains('.') {
        let i = choose|i: int| 0 <= i < d.len() && d[i] == '.';
        assert(text::is_digit(d[i]));
    }
    if n >= 100 {
        assert(d.len() == 3);
        assert(d[0] == text::digit_char(((n as nat) / 10) / 10));
    } else if n >= 10 {
        assert(d.len() == 2);
        assert(d[0] == text::digit_char((n as nat) / 10));
    }
}

/// An address of the older kind is preferred to the newer one.
pub proof fn law_older_addresses_come_first(b: u16, c: u16, d: u16, port: u16)
    ensures
        http::preferred(LoopbackAddress::V4(b, c, d), LoopbackAddress::V6, port),
        !http::preferred(LoopbackAddress::V6, LoopbackAddress::V4(b, c, d), port),
{
}

/// Of the addresses that a name was found to have, only those of this machine count, and
/// all of these do.
pub proof fn law_only_loopback_addresses_count(resolved: Seq<Vec<u16>>, a: LoopbackAddress)
    ensures
        http::loopbacks(resolved).contains(a) <==> exists|i: int|
            0 <= i < resolved.len() && address::loopback((#[trigger] resolved[i])@) == Some(a),
    decreases resolved.len(),
{
    let all = http::loopbacks(resolved);
    if resolved.len() > 0 {
        let shorter = resolved.drop_last();
        let before = http::loopbacks(shorter);
        law_only_loopback_addresses_count(shorter, a);
        assert(resolved[resolved.len() - 1] == resolved.last());
        assert(forall|i: int| 0 <= i < shorter.len() ==> #[trigger] shorter[i] == resolved[i]);
        if before.contains(a) {
            let k = choose|k: int| 0 <= k < before.len() && before[k] == a;
            assert(all[k] == a);
            let i = choose|i: int|
                0 <= i < shorter.len() && address::loopback((#[trigger] shorter[i])@) == Some(a);
            assert(address::loopback(resolved[i]@) == Some(a));
        }
        if address::loopback(resolved.last()@) == Some(a) {
            assert(all.last() == a);
            assert(all[all.len() - 1] == a);
        }
        if all.contains(a) && !before.contains(a) {
            let k = choose|k: int| 0 <= k < all.len() && all[k] == a;
            if k < before.len() {
                assert(before[k] == a);
            }
            assert(address::loopback(resolved[resolved.len() - 1]@) == Some(a));
        }
        if exists|i: int|
            0 <= i < resolved.len() && address::loopback((#[trigger] resolved[i])@) == Some(a) {
            let i = choose|i: int|
                0 <= i < resolved.len() && address::loopback((#[trigger] resolved[i])@) == Some(a);
            if i < shorter.len() {
                assert(address::loopback(shorter[i]@) == Some(a));
            }
        }
    }
}

/// A request names its method and path first and its host next. It carries a token only
/// if there is one, and says how long its body is only if it has one.
pub proof fn law_request_says_what_is_asked(
    method: Seq<char>,
    path: Seq<char>,
    authority: Seq<char>,
    accept: Seq<char>,
    token: Seq<char>,
    n: nat,
)
    ensures
        ({
            let common = method + " "@ + path + " HTTP/1.1\r\nHost: "@ + authority
                + "\r\nAccept: "@ + accept + "\r\nConnection: close\r\n"@;
            let bearer = "Authorization: Bearer "@ + token + "\r\n"@;
            let length = "Content-Type: application/json\r\nContent-Length: "@ + text::decimal(n)
                + "\r\n"@;
            &&& http::request_head(method, path, authority, accept, None, None) == common
                + "\r\n"@
            &&& http::request_head(method, path, authority, accept, Some(token), None) == common
                + bearer + "\r\n"@
            &&& http::request_head(method, path, authority, accept, None, Some(n)) == common
                + length + "\r\n"@
            &&& http::request_head(method, path, authority, accept, Some(token), Some(n)) == common
                + bearer + length + "\r\n"@
        }),
{
    let common = method + " "@ + path + " HTTP/1.1\r\nHost: "@ + authority + "\r\nAccept: "@
        + accept + "\r\nConnection: close\r\n"@;
    assert(common + Seq::<char>::empty() =~= common);
    let bearer = common + ("Authorization: Bearer "@ + token + "\r\n"@);
    assert(bearer + Seq::<char>::empty() =~= bearer);
}

/// The status of an answer is the number that stands second in its first line.
pub proof fn law_status_stands_second(version: Seq<char>, status: u64, reason: Seq<char>)
    requires
        version.len() > 0,
        forall|i: int| 0 <= i < version.len() ==> !text::is_white_space(#[trigger] version[i]),
    ensures
        status <= 65_535 ==> http::line_status(
            version + seq![' '] + (text::decimal(status as nat) + seq![' '] + reason),
        ) == Some(status as u16),
        http::line_status(version) is None,
{
    let d = text::decimal(status as nat);
    let rest = d + seq![' '] + reason;
    let line = version + seq![' '] + rest;
    text::law_decimal_reads_back(status as nat);
    assert forall|i: int| 0 <= i < d.len() implies !text::is_white_space(#[trigger] d[i]) by {
        assert(text::is_digit(d[i]));
    }
    text_laws::law_words_end_at_white_space(version, ' ', rest);
    text_laws::law_words_end_at_white_space(d, ' ', reason);
    assert(scan::words(line) =~= seq![version] + (seq![d] + scan::words(reason)));
    assert(scan::words(line)[1] == d);
    text_laws::law_ports_are_small_numbers(status);
}

/// The head of an answer ends at the first empty line behind its status, and not before.
/// A line of nothing is the end of the connection, and a head of more than 16384 bytes, a
/// first line of more than 8192 or one without a status is refused.
pub proof fn law_head_ends_at_an_empty_line(s: http::HeadView, line: Seq<char>, expired: bool)
    ensures
        line.len() == 0 ==> http::head_step(s, line, expired) == Err::<
            http::HeadView,
            error::ErrorView,
        >(error::ErrorView::Transport("kun_shared_runtime_unavailable"@)),
        line.len() > 0 && s.bytes + text::byte_len(line) > 16_384 ==> http::head_step(
            s,
            line,
            expired,
        ) == Err::<http::HeadView, error::ErrorView>(
            error::ErrorView::Protocol("kun_protocol_error"@),
        ),
        line.len() > 0 && s.status is None && text::byte_len(line) > 8_192 ==> http::head_step(
            s,
            line,
            expired,
        ) == Err::<http::HeadView, error::ErrorView>(
            error::ErrorView::Protocol("kun_protocol_error"@),
        ),
        line.len() > 0 && s.status is None && text::byte_len(line) <= 8_192 && s.bytes
            + text::byte_len(line) <= 16_384 && expired ==> http::head_step(s, line, expired)
            == Err::<http::HeadView, error::ErrorView>(error::ErrorView::Timeout),
        http::head_step(s, line, expired) matches Ok(t) ==> {
            &&& t.done && !s.done ==> s.status is Some && (line == "\r\n"@ || line == "\n"@)
            &&& s.status is Some && (line == "\r\n"@ || line == "\n"@) ==> t.done
            &&& s.status is Some ==> t.status == s.status
            &&& s.status is None && text::trim(line).len() > 0 ==> t.status == http::line_status(
                line,
            ) && t.status is Some
            &&& s.status is None ==> t.chunked == s.chunked
        },
{
}

/// A body comes in chunks exactly if the last header that speaks of its transfer says so,
/// in whatever letters; other headers do not matter.
pub proof fn law_chunks_are_announced(key: Seq<char>, value: Seq<char>, before: bool)
    requires
        !key.contains(':'),
    ensures
        text::lower(text::trim(key)) == "transfer-encoding"@ ==> http::chunked_after(
            key + seq![':'] + value,
            before,
        ) == text::contains_text(text::lower(text::trim(value)), "chunked"@),
        text::lower(text::trim(key)) != "transfer-encoding"@ ==> http::chunked_after(
            key + seq![':'] + value,
            before,
        ) == before,
        http::chunked_after(key, before) == before,
{
    let s = key + seq![':'] + value;
    text::lemma_first_index(s, ':');
    let i = text::first_index(s, ':');
    assert(s[key.len() as int] == ':');
    if i < key.len() {
        assert(key[i] == ':');
    }
    assert(s.take(i) =~= key);
    assert(s.skip(i + 1) =~= value);
    text::lemma_first_index(key, ':');
}

/// The length of a chunk is the hexadecimal number at the start of its line; what stands
/// behind a semicolon does not matter.
pub proof fn law_chunk_length_is_hexadecimal(a: Seq<char>, rest: Seq<char>)
    requires
        !a.contains(';'),
    ensures
        http::chunk_length(a) == scan::hex_number(text::trim(a)),
        http::chunk_length(a + seq![';'] + rest) == scan::hex_number(text::trim(a)),
{
    let s = a + seq![';'] + rest;
    text::lemma_first_index(s, ';');
    let i = text::first_index(s, ';');
    assert(s[a.len() as int] == ';');
    if i < a.len() {
        assert(a[i] == ';');
    }
    assert(s.take(i) =~= a);
    text::lemma_first_index(a, ';');
    assert(a.take(a.len() as int) =~= a);
}

/// What a refused provider sign-in is told by: the code or the type of the error, or the
/// code of the answer itself.
pub open spec fn tells_code(value: json::JsonTree, code: Seq<char>) -> bool {
    let inner = json::field(value, "error"@);
    ||| json::then_field(inner, "code"@) == Some(json::JsonTree::Text(code))
    ||| !(json::then_field(inner, "code"@) matches Some(json::JsonTree::Text(_)))
        && json::then_field(inner, "type"@) == Some(json::JsonTree::Text(code))
    ||| !(json::then_field(inner, "code"@) matches Some(json::JsonTree::Text(_))) && !(
    json::then_field(inner, "type"@) matches Some(json::JsonTree::Text(_))) && json::field(
        value,
        "code"@,
    ) == Some(json::JsonTree::Text(code))
}

/// A provider's sign-in was refused exactly if the answer has one of the codes for it, in
/// whatever letters.
pub proof fn law_refused_sign_in_is_told_by_its_code(value: json::JsonTree, code: Seq<char>)
    requires
        tells_code(value, code),
    ensures
        http::provider_authentication(value) <==> text::lower(code) == "provider_authentication_failed"@ || text::lower(code) == "provider_unauthorized"@ || text::lower(code) == "invalid_api_key"@ || text::lower(code) == "invalid_api_key_error"@ || text::lower(code) == "authentication_error"@,
{
}

/// An answer 401 or 403 is a refused sign-in, whatever was asked. Any other that is no
/// success is a failure of what was asked: of the runtime, of the catalog, or of the
/// provider, and then it is told whether its sign-in was refused.
pub proof fn law_failures_are_of_what_was_asked(
    status: u16,
    kind: HttpFailureKind,
    authentication: bool,
)
    ensures
        status == 401 || status == 403 <==> http::http_failure(status, kind, authentication)
            == error::ErrorView::Authentication,
        status != 401 && status != 403 ==> match kind {
            HttpFailureKind::Catalog => http::http_failure(status, kind, authentication)
                == error::ErrorView::Transport("kun_catalog_unavailable"@),
            HttpFailureKind::Runtime => http::http_failure(status, kind, authentication)
                == error::ErrorView::Transport("kun_shared_runtime_unavailable"@),
            HttpFailureKind::Provider => http::http_failure(status, kind, true)
                == error::ErrorView::Provider("kun_provider_authentication_failed"@)
                && http::http_failure(status, kind, false) == error::ErrorView::Provider(
                "kun_provider_rejected"@,
            ),
        },
{
}

/// In a path, ASCII letters, digits and the four unreserved marks stand for themselves;
/// every other byte is written as a percent sign and its two hexadecimal digits.
pub proof fn law_path_bytes(b: u8)
    ensures
        ({
            let c = b as char;
            let plain = ('0' <= c <= '9') || ('A' <= c <= 'Z') || ('a' <= c <= 'z') || c == '-' || c
                == '_' || c == '.' || c == '~';
            &&& plain ==> http::path_byte(b) == seq![c]
            &&& !plain ==> http::path_byte(b).len() == 3 && http::path_byte(b)[0] == '%'
                && scan::hex_digit(http::path_byte(b)[1]) * 16 + scan::hex_digit(
                http::path_byte(b)[2],
            ) == b && !('a' <= http::path_byte(b)[1] <= 'z') && !('a' <= http::path_byte(b)[2]
                <= 'z')
        }),
{
}

} // verus!
