//! Endpoints that the user names. Only endpoints on this machine are taken.

use vstd::prelude::*;
use vstd::string::*;

use crate::address;
use crate::address::is_allowed_loopback_ip;
use crate::observation::DiscoveryDiagnosticCode;
use crate::paths;
use crate::paths::plain_text;
use crate::scan;
use crate::scan::{cut_once, has_char};
use crate::text;
use crate::text::{
    chars_of, decimal_text, digit, index_from, joined, lowered, parse_u64, same_text,
    text_of_range, trimmed,
};

verus! {

/// A port: decimal digits of a number from 1 to 65535.
pub open spec fn port_of(s: Seq<char>) -> Option<u16> {
    if s.len() > 0 && text::all_digits(s) && 1 <= text::decimal_value(s) <= 0xffff {
        Some(text::decimal_value(s) as u16)
    } else {
        None
    }
}

pub fn parse_endpoint_port(value: &str) -> (r: Result<u16, DiscoveryDiagnosticCode>)
    ensures
        match r {
            Ok(p) => port_of(value@) == Some(p),
            Err(code) => port_of(value@) is None && code
                == DiscoveryDiagnosticCode::InvalidSourceRecord,
        },
{
    let cs = chars_of(value);
    if cs.len() == 0 {
        return Err(DiscoveryDiagnosticCode::InvalidSourceRecord);
    }
    let mut i: usize = 0;
    while i < cs.len()
        invariant
            i <= cs@.len(),
            cs@ == value@,
            forall|k: int| 0 <= k < i ==> text::is_digit(#[trigger] value@[k]),
        decreases cs@.len() - i,
    {
        if !digit(cs[i]) {
            assert(!text::is_digit(value@[i as int]));
            return Err(DiscoveryDiagnosticCode::InvalidSourceRecord);
        }
        i += 1;
    }
    assert(value@[0] != '+');
    match parse_u64(value) {
        Some(v) => if 1 <= v && v <= 0xffff {
            Ok(v as u16)
        } else {
            Err(DiscoveryDiagnosticCode::InvalidSourceRecord)
        },
        None => Err(DiscoveryDiagnosticCode::InvalidSourceRecord),
    }
}

/// A character behind the authority of an address.
pub open spec fn ends_authority(c: char) -> bool {
    c == '/' || c == '?' || c == '#'
}

/// Where the authority of an address ends.
pub open spec fn authority_end(s: Seq<char>) -> int
    decreases s.len(),
{
    if s.len() == 0 || ends_authority(s[0]) {
        0
    } else {
        1 + authority_end(s.drop_first())
    }
}

/// The host, the host as it is written, and the port of an authority.
pub open spec fn endpoint_host(a: Seq<char>) -> Option<(Seq<char>, Seq<char>, u16)> {
    if a.len() == 0 || a.contains('@') || a.contains('\\') {
        None
    } else if a[0] == '[' {
        match scan::split_once(a.drop_first(), ']') {
            Some((host, tail)) => if tail.len() > 1 && tail[0] == ':' {
                match port_of(tail.drop_first()) {
                    Some(port) => Some((host, "["@ + text::lower(host) + "]"@, port)),
                    None => None,
                }
            } else {
                None
            },
            None => None,
        }
    } else {
        match scan::split_once(a, ':') {
            Some((host, tail)) => if host.len() > 0 && !tail.contains(':') {
                match port_of(tail) {
                    Some(port) => Some((host, text::lower(host), port)),
                    None => None,
                }
            } else {
                None
            },
            None => None,
        }
    }
}

/// An endpoint as it is kept: the scheme, the host and the port, in lower case. No
/// path is kept, and an endpoint of another machine is refused.
pub open spec fn normalized_endpoint(e: Seq<char>) -> Result<Seq<char>, DiscoveryDiagnosticCode> {
    let invalid = Err(DiscoveryDiagnosticCode::InvalidSourceRecord);
    if text::trim(e) != e || !paths::is_plain(e) {
        invalid
    } else {
        match text::find(e, "://"@) {
            None => invalid,
            Some(i) => {
                let scheme = text::lower(e.take(i));
                let rest = e.skip(i + 3);
                if scheme != "http"@ && scheme != "https"@ {
                    invalid
                } else {
                    match endpoint_host(rest.take(authority_end(rest))) {
                        None => invalid,
                        Some((host, written, port)) => if written == "localhost"@
                            || address::loopback_text(host) is Some {
                            Ok(scheme + "://"@ + written + ":"@ + text::decimal(port as nat))
                        } else {
                            Err(DiscoveryDiagnosticCode::NonLoopbackRejected)
                        },
                    }
                }
            },
        }
    }
}

fn host_of_authority(a: &str) -> (r: Option<(String, String, u16)>)
    ensures
        match r {
            Some((host, written, port)) => endpoint_host(a@) == Some((host@, written@, port)),
            None => endpoint_host(a@) is None,
        },
{
    let cs = chars_of(a);
    if cs.len() == 0 || has_char(a, '@') || has_char(a, '\\') {
        return None;
    }
    if cs[0] == '[' {
        let inner = text_of_range(&cs, 1, cs.len());
        assert(inner@ =~= a@.drop_first());
        return match cut_once(inner.as_str(), ']') {
            Some((host, tail)) => {
                let tcs = chars_of(tail.as_str());
                if tcs.len() > 1 && tcs[0] == ':' {
                    let port = text_of_range(&tcs, 1, tcs.len());
                    assert(port@ =~= tail@.drop_first());
                    match parse_endpoint_port(port.as_str()) {
                        Ok(p) => {
                            let written = joined("[", lowered(host.as_str()).as_str());
                            let written = joined(written.as_str(), "]");
                            Some((host, written, p))
                        },
                        Err(_) => None,
                    }
                } else {
                    None
                }
            },
            None => None,
        };
    }
    match cut_once(a, ':') {
        Some((host, tail)) => {
            if host.as_str().is_empty() || has_char(tail.as_str(), ':') {
                return None;
            }
            match parse_endpoint_port(tail.as_str()) {
                Ok(p) => {
                    let written = lowered(host.as_str());
                    Some((host, written, p))
                },
                Err(_) => None,
            }
        },
        None => None,
    }
}

pub fn normalize_explicit_loopback_endpoint(endpoint: &str) -> (r: Result<
    String,
    DiscoveryDiagnosticCode,
>)
    ensures
        match r {
            Ok(s) => normalized_endpoint(endpoint@) == Ok::<Seq<char>, DiscoveryDiagnosticCode>(
                s@,
            ),
            Err(code) => normalized_endpoint(endpoint@) == Err::<
                Seq<char>,
                DiscoveryDiagnosticCode,
            >(code),
        },
{
    if !same_text(trimmed(endpoint).as_str(), endpoint) || !plain_text(endpoint) {
        return Err(DiscoveryDiagnosticCode::InvalidSourceRecord);
    }
    let cs = chars_of(endpoint);
    let pat = chars_of("://");
    proof {
        reveal_strlit("://");
    }
    let i = match index_from(&cs, &pat, 0) {
        Some(i) => i,
        None => {
            return Err(DiscoveryDiagnosticCode::InvalidSourceRecord);
        },
    };
    let first = text_of_range(&cs, 0, i);
    assert(first@ =~= endpoint@.take(i as int));
    let scheme = lowered(first.as_str());
    if !same_text(scheme.as_str(), "http") && !same_text(scheme.as_str(), "https") {
        return Err(DiscoveryDiagnosticCode::InvalidSourceRecord);
    }
    let from: usize = i + 3;
    let ghost rest = endpoint@.skip(i + 3);
    let mut end: usize = from;
    assert(rest.skip(0) =~= rest);
    while end < cs.len() && cs[end] != '/' && cs[end] != '?' && cs[end] != '#'
        invariant
            from <= end <= cs@.len(),
            cs@ == endpoint@,
            rest == endpoint@.skip(from as int),
            authority_end(rest) == (end - from) + authority_end(rest.skip(end - from)),
        decreases cs@.len() - end,
    {
        let ghost here = rest.skip(end - from);
        assert(here[0] == cs@[end as int]);
        assert(here.drop_first() =~= rest.skip(end + 1 - from));
        end += 1;
    }
    let authority = text_of_range(&cs, from, end);
    proof {
        let here = rest.skip(end - from);
        if end < cs@.len() {
            assert(here[0] == cs@[end as int]);
        }
        assert(authority_end(here) == 0);
        assert(authority@ =~= rest.take(authority_end(rest)));
    }
    let (host, written, port) = match host_of_authority(authority.as_str()) {
        Some(x) => x,
        None => {
            return Err(DiscoveryDiagnosticCode::InvalidSourceRecord);
        },
    };
    if !same_text(written.as_str(), "localhost") && !is_allowed_loopback_ip(host.as_str()) {
        return Err(DiscoveryDiagnosticCode::NonLoopbackRejected);
    }
    let mut out = scheme;
    out.append("://");
    out.append(written.as_str());
    out.append(":");
    out.append(decimal_text(port as u64).as_str());
    Ok(out)
}

/// What is kept of an endpoint names this machine.
pub proof fn law_endpoint_is_local(e: Seq<char>)
    requires
        normalized_endpoint(e) is Ok,
    ensures
        exists|host: Seq<char>, written: Seq<char>, port: u16, scheme: Seq<char>|
            {
                &&& (scheme == "http"@ || scheme == "https"@)
                &&& (written == "localhost"@ || address::loopback_text(host) is Some)
                &&& (written == text::lower(host) || written == "["@ + text::lower(host) + "]"@)
                &&& port > 0
                &&& normalized_endpoint(e)->Ok_0 == #[trigger] endpoint_text(
                    scheme,
                    host,
                    written,
                    port,
                )
            },
{
    let i = text::find(e, "://"@)->0;
    let scheme = text::lower(e.take(i));
    let rest = e.skip(i + 3);
    let (host, written, port) = endpoint_host(rest.take(authority_end(rest)))->0;
    assert(normalized_endpoint(e)->Ok_0 == endpoint_text(scheme, host, written, port));
}

/// An endpoint, written from its parts; `host` is the host before it was written.
pub open spec fn endpoint_text(
    scheme: Seq<char>,
    host: Seq<char>,
    written: Seq<char>,
    port: u16,
) -> Seq<char> {
    scheme + "://"@ + written + ":"@ + text::decimal(port as nat)
}

/// No character before the end of an authority ends it, and the end is the first
/// that does.
proof fn lemma_authority_chars(s: Seq<char>)
    ensures
        0 <= authority_end(s) <= s.len(),
        forall|i: int| 0 <= i < authority_end(s) ==> !ends_authority(#[trigger] s[i]),
        (forall|i: int| 0 <= i < s.len() ==> !ends_authority(#[trigger] s[i])) ==> authority_end(s)
            == s.len(),
    decreases s.len(),
{
    if s.len() > 0 {
        let t = s.drop_first();
        lemma_authority_chars(t);
        assert forall|i: int| 0 <= i < authority_end(s) implies !ends_authority(
            #[trigger] s[i],
        ) by {
            if i > 0 {
                assert(t[i - 1] == s[i]);
            }
        }
        if forall|i: int| 0 <= i < s.len() ==> !ends_authority(#[trigger] s[i]) {
            assert(!ends_authority(s[0]));
            assert forall|i: int| 0 <= i < t.len() implies !ends_authority(#[trigger] t[i]) by {
                assert(t[i] == s[i + 1]);
            }
        }
    }
}

/// A character that may stand in what is kept of a host.
pub open spec fn is_host_char(c: char) -> bool {
    &&& paths::is_plain_char(c)
    &&& !ends_authority(c)
    &&& c != '@'
    &&& c != '\\'
    &&& text::lower_char(c) == c
}

/// What is known of the host of an authority.
proof fn lemma_host_chars(a: Seq<char>)
    requires
        endpoint_host(a) is Some,
        paths::is_plain(a),
        forall|i: int| 0 <= i < a.len() ==> !ends_authority(#[trigger] a[i]),
    ensures
        ({
            let (host, written, port) = endpoint_host(a)->0;
            let low = text::lower(host);
            &&& port > 0
            &&& forall|i: int| 0 <= i < low.len() ==> is_host_char(#[trigger] low[i])
            &&& written == "["@ + low + "]"@ && !low.contains(']') || written == low && low.len()
                > 0 && low[0] != '[' && !low.contains(':')
        }),
{
    let (host, written, port) = endpoint_host(a)->0;
    let low = text::lower(host);
    let bracketed = a[0] == '[';
    let from: int = if bracketed {
        1
    } else {
        0
    };
    let b = if bracketed {
        a.drop_first()
    } else {
        a
    };
    let c = if bracketed {
        ']'
    } else {
        ':'
    };
    text::lemma_first_index(b, c);
    let (first, _) = scan::split_once(b, c)->0;
    assert(first == host);
    assert forall|i: int| 0 <= i < low.len() implies is_host_char(#[trigger] low[i]) && low[i]
        != c by {
        assert(host[i] == b[i] && b[i] == a[i + from]);
        assert(!ends_authority(a[i + from]) && paths::is_plain_char(a[i + from]));
        assert(a.contains(a[i + from]));
    }
    assert(!low.contains(c));
    if !bracketed {
        assert(host[0] == a[0]);
        assert(low[0] == text::lower_char(a[0]));
    }
}

/// An authority that is written from its parts is read as these parts.
#[verifier::spinoff_prover]
#[verifier::rlimit(40)]
proof fn lemma_authority_reads_back(low: Seq<char>, written: Seq<char>, port: u16)
    requires
        port > 0,
        forall|i: int| 0 <= i < low.len() ==> is_host_char(#[trigger] low[i]),
        written == "["@ + low + "]"@ && !low.contains(']') || written == low && low.len() > 0
            && low[0] != '[' && !low.contains(':'),
    ensures
        ({
            let a = written + ":"@ + text::decimal(port as nat);
            &&& endpoint_host(a) == Some((low, written, port))
            &&& forall|i: int|
                0 <= i < a.len() ==> !ends_authority(#[trigger] a[i]) && paths::is_plain_char(a[i])
        }),
{
    reveal_strlit("[");
    reveal_strlit("]");
    reveal_strlit(":");
    let digits = text::decimal(port as nat);
    text::law_decimal_reads_back(port as nat);
    assert(port_of(digits) == Some(port));
    let a = written + ":"@ + digits;
    assert forall|i: int| 0 <= i < a.len() implies !ends_authority(#[trigger] a[i])
        && paths::is_plain_char(a[i]) && a[i] != '@' && a[i] != '\\' by {
        if i < written.len() {
            assert(a[i] == written[i]);
            if written != low && 0 < i < written.len() - 1 {
                assert(written[i] == low[i - 1]);
                assert(is_host_char(low[i - 1]));
            } else if written == low {
                assert(is_host_char(low[i]));
            }
        } else if i > written.len() {
            assert(a[i] == digits[i - written.len() - 1]);
            assert(text::is_digit(digits[i - written.len() - 1]));
        }
    }
    assert(!a.contains('@') && !a.contains('\\'));
    assert(text::lower(low) =~= low) by {
        assert forall|i: int| 0 <= i < low.len() implies text::lower(low)[i] == #[trigger] low[i] by {
            assert(is_host_char(low[i]));
        }
    }
    if written == "["@ + low + "]"@ && !low.contains(']') {
        assert(a[0] == '[');
        let b = a.drop_first();
        let tail = ":"@ + digits;
        assert(b =~= low + "]"@ + tail);
        text::lemma_first_index(b, ']');
        let k = text::first_index(b, ']');
        assert(b[low.len() as int] == ']');
        if k < low.len() {
            assert(b[k] == low[k]);
            assert(low.contains(']'));
        }
        assert(k == low.len());
        assert(b.take(k) =~= low);
        assert(b.skip(k + 1) =~= tail);
        assert(tail.drop_first() =~= digits);
        assert(tail.len() > 1 && tail[0] == ':');
    } else {
        assert(a[0] == low[0]);
        text::lemma_first_index(a, ':');
        let k = text::first_index(a, ':');
        assert(a[low.len() as int] == ':');
        if k < low.len() {
            assert(a[k] == low[k]);
            assert(low.contains(':'));
        }
        assert(k == low.len());
        assert(a.take(k) =~= low);
        assert(a.skip(k + 1) =~= digits);
        if digits.contains(':') {
            let j = choose|j: int| 0 <= j < digits.len() && digits[j] == ':';
            assert(text::is_digit(digits[j]));
        }
    }
}

/// An endpoint that is written from its parts is plain, and its scheme is found.
proof fn lemma_written_endpoint(scheme: Seq<char>, rest: Seq<char>)
    requires
        scheme == "http"@ || scheme == "https"@,
        rest.len() > 0,
        text::is_digit(rest.last()),
        forall|i: int| 0 <= i < rest.len() ==> paths::is_plain_char(#[trigger] rest[i]),
    ensures
        ({
            let n = scheme + "://"@ + rest;
            &&& text::trim(n) == n
            &&& paths::is_plain(n)
            &&& text::find(n, "://"@) == Some(scheme.len() as int)
            &&& n.take(scheme.len() as int) == scheme
            &&& n.skip(scheme.len() as int + 3) == rest
            &&& text::lower(scheme) == scheme
        }),
{
    reveal_strlit("://");
    reveal_strlit("http");
    reveal_strlit("https");
    let n = scheme + "://"@ + rest;
    let m = scheme.len() as int;
    assert(n.skip(m + 3) =~= rest);
    assert(n.take(m) =~= scheme);
    assert(text::lower(scheme) =~= scheme);
    assert(n.last() == rest.last());
    assert(n[0] == scheme[0]);
    assert(text::trim_start(n) == n);
    assert(text::trim_end(n) == n);
    assert forall|k: int| 0 <= k < n.len() implies paths::is_plain_char(#[trigger] n[k]) by {
        if k < m {
            assert(n[k] == scheme[k]);
        } else if k < m + 3 {
            assert(n[k] == "://"@[k - m]);
        } else {
            assert(n[k] == rest[k - m - 3]);
        }
    }
    text::lemma_find_from(n, "://"@, 0);
    assert(n.subrange(m, m + 3) =~= "://"@);
    assert(text::occurs_at(n, "://"@, m));
    assert forall|k: int| 0 <= k < m implies !text::occurs_at(n, "://"@, k) by {
        assert(n[k] == scheme[k]);
        if text::occurs_at(n, "://"@, k) {
            assert(n.subrange(k, k + 3)[0] == n[k]);
        }
    }
}

/// The parts of an endpoint that is kept.
#[verifier::spinoff_prover]
#[verifier::rlimit(40)]
proof fn lemma_kept_parts(e: Seq<char>) -> (r: (Seq<char>, Seq<char>, Seq<char>, u16))
    requires
        normalized_endpoint(e) is Ok,
    ensures
        ({
            let (scheme, low, written, port) = r;
            &&& scheme == "http"@ || scheme == "https"@
            &&& port > 0
            &&& forall|i: int| 0 <= i < low.len() ==> is_host_char(#[trigger] low[i])
            &&& written == "["@ + low + "]"@ && !low.contains(']') || written == low && low.len()
                > 0 && low[0] != '[' && !low.contains(':')
            &&& written == "localhost"@ || address::loopback_text(low) is Some
            &&& normalized_endpoint(e)->Ok_0 == scheme + "://"@ + (written + ":"@ + text::decimal(
                port as nat,
            ))
        }),
{
    reveal_strlit("://");
    let i = text::find(e, "://"@)->0;
    text::lemma_find_from(e, "://"@, 0);
    let scheme = text::lower(e.take(i));
    let before = e.skip(i + 3);
    lemma_authority_chars(before);
    let authority = before.take(authority_end(before));
    assert(paths::is_plain(authority)) by {
        assert forall|k: int| 0 <= k < authority.len() implies paths::is_plain_char(
            #[trigger] authority[k],
        ) by {
            assert(authority[k] == e[k + i + 3]);
        }
    }
    assert forall|k: int| 0 <= k < authority.len() implies !ends_authority(
        #[trigger] authority[k],
    ) by {
        assert(authority[k] == before[k]);
    }
    let (host, written, port) = endpoint_host(authority)->0;
    lemma_host_chars(authority);
    address::law_case_does_not_matter(host);
    let digits = text::decimal(port as nat);
    assert(scheme + "://"@ + written + ":"@ + digits =~= scheme + "://"@ + (written + ":"@
        + digits));
    (scheme, text::lower(host), written, port)
}

/// An endpoint whose parts are in lower case is kept as it is.
proof fn lemma_kept_from_parts(
    n: Seq<char>,
    scheme: Seq<char>,
    rest: Seq<char>,
    low: Seq<char>,
    written: Seq<char>,
    port: u16,
)
    requires
        text::trim(n) == n,
        paths::is_plain(n),
        text::find(n, "://"@) == Some(scheme.len() as int),
        n.take(scheme.len() as int) == scheme,
        n.skip(scheme.len() as int + 3) == rest,
        text::lower(scheme) == scheme,
        scheme == "http"@ || scheme == "https"@,
        rest.take(authority_end(rest)) == rest,
        endpoint_host(rest) == Some((low, written, port)),
        written == "localhost"@ || address::loopback_text(low) is Some,
        n == scheme + "://"@ + written + ":"@ + text::decimal(port as nat),
    ensures
        normalized_endpoint(n) == Ok::<Seq<char>, DiscoveryDiagnosticCode>(n),
{
}

/// An endpoint that is kept is kept as it is, when it is named again.
#[verifier::spinoff_prover]
#[verifier::rlimit(40)]
pub proof fn law_kept_endpoint_settles(e: Seq<char>)
    requires
        normalized_endpoint(e) is Ok,
    ensures
        normalized_endpoint(normalized_endpoint(e)->Ok_0) == normalized_endpoint(e),
{
    let (scheme, low, written, port) = lemma_kept_parts(e);
    let digits = text::decimal(port as nat);
    let rest = written + ":"@ + digits;
    let n = scheme + "://"@ + rest;
    assert(rest.last() == digits.last() && text::is_digit(rest.last())) by {
        text::law_decimal_reads_back(port as nat);
    }
    lemma_authority_reads_back(low, written, port);
    lemma_written_endpoint(scheme, rest);
    assert(rest.take(authority_end(rest)) == rest) by {
        lemma_authority_chars(rest);
        assert(rest.take(rest.len() as int) =~= rest);
    }
    assert(n =~= scheme + "://"@ + written + ":"@ + digits);
    lemma_kept_from_parts(n, scheme, rest, low, written, port);
}

/// What is kept of an endpoint has no user, no path, no query and no fragment: it
/// is the scheme and what stands between the two slashes and the end.
#[verifier::spinoff_prover]
#[verifier::rlimit(40)]
pub proof fn law_kept_endpoint_is_an_origin(e: Seq<char>)
    requires
        normalized_endpoint(e) is Ok,
    ensures
        ({
            let n = normalized_endpoint(e)->Ok_0;
            let i = text::find(n, "://"@)->0;
            let rest = n.skip(i + 3);
            &&& text::find(n, "://"@) is Some
            &&& n.take(i) == "http"@ || n.take(i) == "https"@
            &&& forall|k: int|
                0 <= k < rest.len() ==> !ends_authority(#[trigger] rest[k]) && rest[k] != '@'
                    && rest[k] != '\\' && text::lower_char(rest[k]) == rest[k]
        }),
{
    reveal_strlit("[");
    reveal_strlit("]");
    reveal_strlit(":");
    let (scheme, low, written, port) = lemma_kept_parts(e);
    let digits = text::decimal(port as nat);
    let rest = written + ":"@ + digits;
    text::law_decimal_reads_back(port as nat);
    assert(rest.last() == digits[digits.len() - 1]);
    lemma_authority_reads_back(low, written, port);
    lemma_written_endpoint(scheme, rest);
    assert forall|k: int| 0 <= k < rest.len() implies !ends_authority(#[trigger] rest[k]) && rest[k]
        != '@' && rest[k] != '\\' && text::lower_char(rest[k]) == rest[k] by {
        if k < written.len() {
            assert(rest[k] == written[k]);
            if written == low {
                assert(is_host_char(low[k]));
            } else if 0 < k < written.len() - 1 {
                assert(written[k] == low[k - 1]);
                assert(is_host_char(low[k - 1]));
            }
        } else if k > written.len() {
            assert(rest[k] == digits[k - written.len() - 1]);
            assert(text::is_digit(digits[k - written.len() - 1]));
        }
    }
}

} // verus!
