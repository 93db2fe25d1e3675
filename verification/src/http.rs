//! HTTP to a runtime on this machine: where it listens, what is written to it, and
//! how the head and the body of its answers are read.

use vstd::prelude::*;
use vstd::string::*;
use vstd::utf8::*;

use crate::address;
use crate::address::{authority_of, loopback_address, parse_ip, LoopbackAddress};
use crate::error;
use crate::error::{
    RuntimeError, KUN_CATALOG_UNAVAILABLE, KUN_PROVIDER_AUTHENTICATION_FAILED,
    KUN_RUNTIME_IDENTITY_MISMATCH, KUN_SHARED_RUNTIME_UNAVAILABLE,
};
use crate::json;
use crate::json::{parse_json_bytes, Json};
use crate::order;
use crate::order::text_precedes;
use crate::scan;
use crate::scan::{cut_once, has_char, is_blank, parse_hex, parse_u16, words_of};
use crate::text;
use crate::text::{
    bytes_len, chars_of, decimal_text, index_from, lowered, same_text, text_contains,
    text_of_range, trimmed, without_prefix,
};

verus! {

pub const MAX_TRANSPORT_BODY_BYTES: usize = 524_288;

pub const MAX_HEAD_LINE_BYTES: usize = 8_192;

pub const MAX_HEAD_BYTES: usize = 16_384;

/// The last index of a character, or -1.
pub open spec fn last_index(s: Seq<char>, c: char) -> int
    decreases s.len(),
{
    if s.len() == 0 {
        -1
    } else if s.last() == c {
        s.len() - 1
    } else {
        last_index(s.drop_last(), c)
    }
}

fn last_char(cs: &Vec<char>, c: char) -> (r: Option<usize>)
    ensures
        match r {
            Some(i) => i < cs@.len() && last_index(cs@, c) == i,
            None => last_index(cs@, c) == -1,
        },
{
    let mut i: usize = cs.len();
    assert(cs@.take(i as int) =~= cs@);
    while i > 0
        invariant
            i <= cs@.len(),
            last_index(cs@, c) == last_index(cs@.take(i as int), c),
        decreases i,
    {
        assert(cs@.take(i as int).last() == cs@[i - 1]);
        assert(cs@.take(i as int).drop_last() =~= cs@.take(i - 1));
        if cs[i - 1] == c {
            return Some(i - 1);
        }
        i -= 1;
    }
    None
}

/// The part of a base address between the scheme and a final slash. There is no
/// path in it and no user.
pub open spec fn base_authority(value: Seq<char>) -> Option<Seq<char>> {
    let v = text::trim(value);
    if !text::starts_with(v, "http://"@) {
        None
    } else {
        let rest = v.skip("http://"@.len() as int);
        let a = if rest.len() > 0 && rest.last() == '/' {
            rest.drop_last()
        } else {
            rest
        };
        if a.contains('/') || a.contains('@') {
            None
        } else {
            Some(a)
        }
    }
}

/// The host and the port of an authority.
pub open spec fn host_port(a: Seq<char>) -> Option<(Seq<char>, Seq<char>)> {
    if a.len() > 0 && a[0] == '[' {
        let v = a.drop_first();
        match text::find(v, "]:"@) {
            Some(i) => Some((v.take(i), v.skip(i + 2))),
            None => None,
        }
    } else {
        let i = last_index(a, ':');
        if i < 0 {
            None
        } else {
            Some((a.take(i), a.skip(i + 1)))
        }
    }
}

/// What a host stands for.
#[derive(Clone, Copy, Debug, PartialEq, Eq, Structural)]
pub enum HostRule {
    /// An address of this machine.
    Address(LoopbackAddress),
    /// The one name that may be looked up.
    Localhost,
    Refused,
}

/// A host is an address of this machine, or `localhost`. No other name is looked
/// up.
pub open spec fn host_rule(host: Seq<char>) -> HostRule {
    let h = text::trim(host);
    if h.len() == 0 || h.contains('@') || h.contains('/') || h.contains('\\') {
        HostRule::Refused
    } else {
        match address::ip_parts(h) {
            Some(parts) => match address::loopback(parts) {
                Some(a) => HostRule::Address(a),
                None => HostRule::Refused,
            },
            None => if text::lower(h) == "localhost"@ {
                HostRule::Localhost
            } else {
                HostRule::Refused
            },
        }
    }
}

/// Decides what a host stands for.
pub fn rule_of_host(host: &str) -> (r: HostRule)
    ensures
        r == host_rule(host@),
{
    let h = trimmed(host);
    if h.as_str().is_empty() || has_char(h.as_str(), '@') || has_char(h.as_str(), '/') || has_char(
        h.as_str(),
        '\\',
    ) {
        return HostRule::Refused;
    }
    match parse_ip(h.as_str()) {
        Some(parts) => match loopback_address(&parts) {
            Some(a) => HostRule::Address(a),
            None => HostRule::Refused,
        },
        None => if same_text(lowered(h.as_str()).as_str(), "localhost") {
            HostRule::Localhost
        } else {
            HostRule::Refused
        },
    }
}

/// Which of two addresses is preferred: IPv4 before IPv6, then by the text.
pub open spec fn preferred(a: LoopbackAddress, b: LoopbackAddress, port: u16) -> bool {
    match (a, b) {
        (LoopbackAddress::V4(..), LoopbackAddress::V6) => true,
        (LoopbackAddress::V6, LoopbackAddress::V4(..)) => false,
        _ => order::text_less(
            address::authority_text(a, port),
            address::authority_text(b, port),
        ),
    }
}

fn is_preferred(a: LoopbackAddress, b: LoopbackAddress, port: u16) -> (r: bool)
    ensures
        r == preferred(a, b, port),
{
    match (a, b) {
        (LoopbackAddress::V4(..), LoopbackAddress::V6) => true,
        (LoopbackAddress::V6, LoopbackAddress::V4(..)) => false,
        _ => text_precedes(authority_of(a, port).as_str(), authority_of(b, port).as_str()),
    }
}

proof fn lemma_preferred(a: LoopbackAddress, b: LoopbackAddress, c: LoopbackAddress, port: u16)
    ensures
        !preferred(a, a, port),
        preferred(a, b, port) && !preferred(c, b, port) ==> !preferred(c, a, port),
{
    let ta = address::authority_text(a, port);
    let tb = address::authority_text(b, port);
    let tc = address::authority_text(c, port);
    order::lemma_less_irreflexive(ta);
    if preferred(a, b, port) && !preferred(c, b, port) && preferred(c, a, port) {
        if order::text_less(tc, ta) && order::text_less(ta, tb) {
            order::lemma_less_transitive(tc, ta, tb);
        }
    }
}

/// The addresses of this machine among some addresses.
pub open spec fn loopbacks(resolved: Seq<Vec<u16>>) -> Seq<LoopbackAddress>
    decreases resolved.len(),
{
    if resolved.len() == 0 {
        seq![]
    } else {
        match address::loopback(resolved.last()@) {
            Some(a) => loopbacks(resolved.drop_last()).push(a),
            None => loopbacks(resolved.drop_last()),
        }
    }
}

/// Where a local runtime listens.
#[derive(Clone, Copy, Debug, PartialEq, Eq, Structural)]
pub struct LocalHttpEndpoint {
    pub address: LoopbackAddress,
    pub port: u16,
}

/// What a host and a port resolve to, where the look-up of `localhost` gives
/// certain addresses.
pub open spec fn resolves_to(
    host: Seq<char>,
    port: u16,
    resolved: Seq<Vec<u16>>,
    e: LocalHttpEndpoint,
) -> bool {
    &&& e.port == port
    &&& match host_rule(host) {
        HostRule::Address(a) => e.address == a,
        HostRule::Localhost => {
            &&& loopbacks(resolved).contains(e.address)
            &&& forall|i: int|
                0 <= i < loopbacks(resolved).len() ==> !preferred(
                    #[trigger] loopbacks(resolved)[i],
                    e.address,
                    port,
                )
        },
        HostRule::Refused => false,
    }
}

/// Whether a host resolves to anything.
pub open spec fn resolvable(host: Seq<char>, resolved: Seq<Vec<u16>>) -> bool {
    match host_rule(host) {
        HostRule::Address(_) => true,
        HostRule::Localhost => loopbacks(resolved).len() > 0,
        HostRule::Refused => false,
    }
}

/// Finds where a host and a port lead. `resolved` is what the look-up of
/// `localhost` gave; it is used for that name only.
pub fn resolve_loopback_socket(host: &str, port: u16, resolved: &Vec<Vec<u16>>) -> (r: Result<
    LocalHttpEndpoint,
    RuntimeError,
>)
    ensures
        match r {
            Ok(e) => resolvable(host@, resolved@) && resolves_to(host@, port, resolved@, e),
            Err(e) => !resolvable(host@, resolved@) && e@ == error::ErrorView::Protocol(
                KUN_RUNTIME_IDENTITY_MISMATCH@,
            ),
        },
{
    match rule_of_host(host) {
        HostRule::Address(address) => Ok(LocalHttpEndpoint { address, port }),
        HostRule::Refused => Err(RuntimeError::protocol(KUN_RUNTIME_IDENTITY_MISMATCH)),
        HostRule::Localhost => {
            let mut best: Option<LoopbackAddress> = None;
            let mut i: usize = 0;
            assert(resolved@.take(0) =~= seq![]);
            while i < resolved.len()
                invariant
                    i <= resolved@.len(),
                    match best {
                        Some(b) => {
                            &&& loopbacks(resolved@.take(i as int)).contains(b)
                            &&& forall|k: int|
                                0 <= k < loopbacks(resolved@.take(i as int)).len() ==> !preferred(
                                    #[trigger] loopbacks(resolved@.take(i as int))[k],
                                    b,
                                    port,
                                )
                        },
                        None => loopbacks(resolved@.take(i as int)).len() == 0,
                    },
                decreases resolved@.len() - i,
            {
                let ghost before = loopbacks(resolved@.take(i as int));
                let ghost after = loopbacks(resolved@.take(i + 1));
                proof {
                    assert(resolved@.take(i + 1).drop_last() =~= resolved@.take(i as int));
                    assert(resolved@.take(i + 1).last() == resolved@[i as int]);
                }
                if let Some(a) = loopback_address(&resolved[i]) {
                    let better = match best {
                        Some(b) => is_preferred(a, b, port),
                        None => true,
                    };
                    proof {
                        assert(after == before.push(a));
                        assert(after[before.len() as int] == a);
                        lemma_preferred(a, a, a, port);
                        if let Some(b) = best {
                            let k = choose|k: int| 0 <= k < before.len() && before[k] == b;
                            assert(after[k] == b);
                            assert forall|k: int| 0 <= k < after.len() && better implies !preferred(
                                #[trigger] after[k],
                                a,
                                port,
                            ) by {
                                if k < before.len() {
                                    assert(before[k] == after[k]);
                                    lemma_preferred(a, b, after[k], port);
                                }
                            }
                            assert forall|k: int| 0 <= k < after.len() && !better implies !preferred(
                                #[trigger] after[k],
                                b,
                                port,
                            ) by {
                                if k < before.len() {
                                    assert(before[k] == after[k]);
                                }
                            }
                        }
                    }
                    if better {
                        best = Some(a);
                    }
                }
                i += 1;
            }
            assert(resolved@.take(i as int) =~= resolved@);
            match best {
                Some(address) => Ok(LocalHttpEndpoint { address, port }),
                None => Err(RuntimeError::protocol(KUN_RUNTIME_IDENTITY_MISMATCH)),
            }
        },
    }
}

/// The host and the port that a base address names.
pub open spec fn base_host_port(value: Seq<char>) -> Option<(Seq<char>, u16)> {
    match base_authority(value) {
        None => None,
        Some(a) => match host_port(a) {
            None => None,
            Some((host, port)) => match scan::small_value(port) {
                Some(p) => if p > 0 {
                    Some((host, p))
                } else {
                    None
                },
                None => None,
            },
        },
    }
}

fn base_parts(value: &str) -> (r: Option<(String, u16)>)
    ensures
        match r {
            Some((host, port)) => base_host_port(value@) == Some((host@, port)),
            None => base_host_port(value@) is None,
        },
{
    let v = trimmed(value);
    let rest = match without_prefix(v.as_str(), "http://") {
        Some(rest) => rest,
        None => {
            return None;
        },
    };
    assert(rest@ =~= v@.skip("http://"@.len() as int));
    let cs = chars_of(rest.as_str());
    let end: usize = if cs.len() > 0 && cs[cs.len() - 1] == '/' {
        cs.len() - 1
    } else {
        cs.len()
    };
    let a = text_of_range(&cs, 0, end);
    proof {
        if end < cs@.len() {
            assert(a@ =~= rest@.drop_last());
        } else {
            assert(a@ =~= rest@);
        }
    }
    if has_char(a.as_str(), '/') || has_char(a.as_str(), '@') {
        return None;
    }
    let acs = chars_of(a.as_str());
    let (host, port) = if acs.len() > 0 && acs[0] == '[' {
        let inner = text_of_range(&acs, 1, acs.len());
        assert(inner@ =~= a@.drop_first());
        let ics = chars_of(inner.as_str());
        let pat = chars_of("]:");
        proof {
            reveal_strlit("]:");
        }
        match index_from(&ics, &pat, 0) {
            None => {
                return None;
            },
            Some(i) => {
                let host = text_of_range(&ics, 0, i);
                let port = text_of_range(&ics, i + 2, ics.len());
                assert(host@ =~= inner@.take(i as int));
                assert(port@ =~= inner@.skip(i + 2));
                (host, port)
            },
        }
    } else {
        match last_char(&acs, ':') {
            None => {
                return None;
            },
            Some(i) => {
                let host = text_of_range(&acs, 0, i);
                let port = text_of_range(&acs, i + 1, acs.len());
                assert(host@ =~= a@.take(i as int));
                assert(port@ =~= a@.skip(i + 1));
                (host, port)
            },
        }
    };
    match parse_u16(port.as_str()) {
        Some(p) => if p > 0 {
            Some((host, p))
        } else {
            None
        },
        None => None,
    }
}

impl LocalHttpEndpoint {
    /// Reads a base address, such as `http://127.0.0.1:8080/`. `resolved` is what
    /// the look-up of `localhost` gave.
    pub fn parse(value: &str, resolved: &Vec<Vec<u16>>) -> (r: Result<Self, RuntimeError>)
        ensures
            match r {
                Ok(e) => base_host_port(value@) matches Some((host, port)) && resolvable(
                    host,
                    resolved@,
                ) && resolves_to(host, port, resolved@, e),
                Err(e) => e@ == error::ErrorView::Protocol(KUN_RUNTIME_IDENTITY_MISMATCH@)
                    && match base_host_port(value@) {
                    Some((host, port)) => !resolvable(host, resolved@),
                    None => true,
                },
            },
    {
        match base_parts(value) {
            Some((host, port)) => resolve_loopback_socket(host.as_str(), port, resolved),
            None => Err(RuntimeError::protocol(KUN_RUNTIME_IDENTITY_MISMATCH)),
        }
    }

    /// Whether a host and a port lead here.
    pub fn matches_host_port(&self, host: &str, port: u16, resolved: &Vec<Vec<u16>>) -> (r: bool)
        ensures
            r == (resolvable(host@, resolved@) && resolves_to(host@, port, resolved@, *self)),
    {
        match resolve_loopback_socket(host, port, resolved) {
            Ok(e) => {
                proof {
                    lemma_resolution_is_one(host@, port, resolved@, e, *self);
                }
                e == *self
            },
            Err(_) => false,
        }
    }

    pub fn authority(&self) -> (r: String)
        ensures
            r@ == address::authority_text(self.address, self.port),
    {
        authority_of(self.address, self.port)
    }
}

/// A text of digits ends at the first character that is none.
proof fn lemma_digits_end(a: Seq<char>, x: Seq<char>, b: Seq<char>, y: Seq<char>, c: char)
    requires
        text::all_digits(a),
        text::all_digits(b),
        !text::is_digit(c),
        a + seq![c] + x == b + seq![c] + y,
    ensures
        a == b,
        x == y,
{
    let s = a + seq![c] + x;
    assert(s[a.len() as int] == c);
    assert((b + seq![c] + y)[b.len() as int] == c);
    if a.len() < b.len() {
        assert(s[a.len() as int] == b[a.len() as int]);
        assert(false);
    }
    if b.len() < a.len() {
        assert((b + seq![c] + y)[b.len() as int] == a[b.len() as int]);
        assert(false);
    }
    assert(a =~= s.take(a.len() as int));
    assert(b =~= (b + seq![c] + y).take(b.len() as int));
    assert(x =~= s.skip(a.len() as int + 1));
    assert(y =~= (b + seq![c] + y).skip(b.len() as int + 1));
}

/// The text behind the first part of an IPv4 loopback address.
spec fn v4_rest(b: u16, c: u16, d: u16, port: u16) -> Seq<char> {
    text::decimal(b as nat) + seq!['.'] + (text::decimal(c as nat) + seq!['.'] + (text::decimal(
        d as nat,
    ) + seq![':'] + text::decimal(port as nat)))
}

proof fn lemma_v4_text(b: u16, c: u16, d: u16, port: u16)
    ensures
        address::authority_text(LoopbackAddress::V4(b, c, d), port) == "127."@ + v4_rest(
            b,
            c,
            d,
            port,
        ),
{
    reveal_strlit(".");
    reveal_strlit(":");
    assert("."@ =~= seq!['.']);
    assert(":"@ =~= seq![':']);
    assert(address::authority_text(LoopbackAddress::V4(b, c, d), port) =~= "127."@ + v4_rest(
        b,
        c,
        d,
        port,
    ));
}

proof fn lemma_v4_differ(b1: u16, c1: u16, d1: u16, b2: u16, c2: u16, d2: u16, port: u16)
    requires
        v4_rest(b1, c1, d1, port) == v4_rest(b2, c2, d2, port),
    ensures
        b1 == b2 && c1 == c2 && d1 == d2,
{
    let p = text::decimal(port as nat);
    text::law_decimal_reads_back(b1 as nat);
    text::law_decimal_reads_back(c1 as nat);
    text::law_decimal_reads_back(d1 as nat);
    text::law_decimal_reads_back(b2 as nat);
    text::law_decimal_reads_back(c2 as nat);
    text::law_decimal_reads_back(d2 as nat);
    let x3 = text::decimal(d1 as nat) + seq![':'] + p;
    let y3 = text::decimal(d2 as nat) + seq![':'] + p;
    let x2 = text::decimal(c1 as nat) + seq!['.'] + x3;
    let y2 = text::decimal(c2 as nat) + seq!['.'] + y3;
    lemma_digits_end(text::decimal(b1 as nat), x2, text::decimal(b2 as nat), y2, '.');
    lemma_digits_end(text::decimal(c1 as nat), x3, text::decimal(c2 as nat), y3, '.');
    lemma_digits_end(text::decimal(d1 as nat), p, text::decimal(d2 as nat), p, ':');
}

proof fn lemma_families_differ(b: u16, c: u16, d: u16, port: u16)
    ensures
        address::authority_text(LoopbackAddress::V4(b, c, d), port) != address::authority_text(
            LoopbackAddress::V6,
            port,
        ),
{
    lemma_v4_text(b, c, d, port);
    reveal_strlit("127.");
    reveal_strlit("[::1]");
    assert(("127."@ + v4_rest(b, c, d, port))[0] == '1');
    assert(address::authority_text(LoopbackAddress::V6, port)[0] == '[');
}

/// Different addresses are written differently.
pub proof fn law_authorities_differ(a: LoopbackAddress, b: LoopbackAddress, port: u16)
    requires
        address::authority_text(a, port) == address::authority_text(b, port),
    ensures
        a == b,
{
    match (a, b) {
        (LoopbackAddress::V4(b1, c1, d1), LoopbackAddress::V4(b2, c2, d2)) => {
            lemma_v4_text(b1, c1, d1, port);
            lemma_v4_text(b2, c2, d2, port);
            let x = v4_rest(b1, c1, d1, port);
            let y = v4_rest(b2, c2, d2, port);
            assert(x =~= ("127."@ + x).skip("127."@.len() as int));
            assert(y =~= ("127."@ + y).skip("127."@.len() as int));
            lemma_v4_differ(b1, c1, d1, b2, c2, d2, port);
        },
        (LoopbackAddress::V4(b1, c1, d1), LoopbackAddress::V6) => {
            lemma_families_differ(b1, c1, d1, port);
        },
        (LoopbackAddress::V6, LoopbackAddress::V4(b2, c2, d2)) => {
            lemma_families_differ(b2, c2, d2, port);
        },
        _ => {},
    }
}

pub proof fn lemma_resolution_is_one(
    host: Seq<char>,
    port: u16,
    resolved: Seq<Vec<u16>>,
    x: LocalHttpEndpoint,
    y: LocalHttpEndpoint,
)
    requires
        resolves_to(host, port, resolved, x),
    ensures
        resolves_to(host, port, resolved, y) ==> x == y,
{
    if resolves_to(host, port, resolved, y) {
        if host_rule(host) == HostRule::Localhost {
            let all = loopbacks(resolved);
            let i = choose|i: int| 0 <= i < all.len() && all[i] == x.address;
            let j = choose|j: int| 0 <= j < all.len() && all[j] == y.address;
            assert(!preferred(all[i], y.address, port));
            assert(!preferred(all[j], x.address, port));
            order::lemma_less_total(
                address::authority_text(x.address, port),
                address::authority_text(y.address, port),
            );
            if address::authority_text(x.address, port) == address::authority_text(
                y.address,
                port,
            ) {
                law_authorities_differ(x.address, y.address, port);
            }
        }
    }
}

/// A hostile name never leads anywhere: what is resolved is an address of this
/// machine, whatever the look-up gave.
pub proof fn law_only_loopback_is_reached(
    host: Seq<char>,
    resolved: Seq<Vec<u16>>,
)
    requires
        resolvable(host, resolved),
    ensures
        address::loopback_text(text::trim(host)) is Some || text::lower(text::trim(host))
            == "localhost"@,
{
}

/// The head of a request.
pub open spec fn request_head(
    method: Seq<char>,
    path: Seq<char>,
    authority: Seq<char>,
    accept: Seq<char>,
    authorization: Option<Seq<char>>,
    body_len: Option<nat>,
) -> Seq<char> {
    method + " "@ + path + " HTTP/1.1\r\nHost: "@ + authority + "\r\nAccept: "@ + accept
        + "\r\nConnection: close\r\n"@ + (match authorization {
        Some(token) => "Authorization: Bearer "@ + token + "\r\n"@,
        None => seq![],
    }) + (match body_len {
        Some(n) => "Content-Type: application/json\r\nContent-Length: "@ + text::decimal(n)
            + "\r\n"@,
        None => seq![],
    }) + "\r\n"@
}

/// Writes the head of a request.
pub fn request_head_text(
    method: &str,
    path: &str,
    endpoint: &LocalHttpEndpoint,
    accept: &str,
    authorization: Option<&str>,
    body_len: Option<usize>,
) -> (r: String)
    ensures
        r@ == request_head(
            method@,
            path@,
            address::authority_text(endpoint.address, endpoint.port),
            accept@,
            match authorization {
                Some(s) => Some(s@),
                None => None,
            },
            match body_len {
                Some(n) => Some(n as nat),
                None => None,
            },
        ),
{
    let mut r = String::new();
    r.append(method);
    r.append(" ");
    r.append(path);
    r.append(" HTTP/1.1\r\nHost: ");
    r.append(endpoint.authority().as_str());
    r.append("\r\nAccept: ");
    r.append(accept);
    r.append("\r\nConnection: close\r\n");
    let ghost first = method@ + " "@ + path@ + " HTTP/1.1\r\nHost: "@ + address::authority_text(
        endpoint.address,
        endpoint.port,
    ) + "\r\nAccept: "@ + accept@ + "\r\nConnection: close\r\n"@;
    assert(r@ =~= first);
    let ghost second: Seq<char> = match authorization {
        Some(token) => "Authorization: Bearer "@ + token@ + "\r\n"@,
        None => seq![],
    };
    if let Some(token) = authorization {
        r.append("Authorization: Bearer ");
        r.append(token);
        r.append("\r\n");
    }
    assert(r@ =~= first + second);
    let ghost third: Seq<char> = match body_len {
        Some(n) => "Content-Type: application/json\r\nContent-Length: "@ + text::decimal(n as nat)
            + "\r\n"@,
        None => seq![],
    };
    if let Some(n) = body_len {
        r.append("Content-Type: application/json\r\nContent-Length: ");
        r.append(decimal_text(n as u64).as_str());
        r.append("\r\n");
    }
    assert(r@ =~= first + second + third);
    r.append("\r\n");
    r
}

/// The state of reading the head of an answer.
#[verifier::ext_equal]
pub struct HeadView {
    pub status: Option<u16>,
    pub bytes: nat,
    pub chunked: bool,
    pub done: bool,
}

/// The status that a status line gives: its second word.
pub open spec fn line_status(line: Seq<char>) -> Option<u16> {
    let w = scan::words(line);
    if w.len() >= 2 {
        scan::small_value(w[1])
    } else {
        None
    }
}

/// Whether the body comes in chunks, after one more header.
pub open spec fn chunked_after(line: Seq<char>, chunked: bool) -> bool {
    match scan::split_once(line, ':') {
        Some((key, value)) => if text::lower(text::trim(key)) == "transfer-encoding"@ {
            text::contains_text(text::lower(text::trim(value)), "chunked"@)
        } else {
            chunked
        },
        None => chunked,
    }
}

/// The state after one more line, which keeps its line end. An empty line means
/// that the connection was closed.
pub open spec fn head_step(s: HeadView, line: Seq<char>, expired: bool) -> Result<
    HeadView,
    error::ErrorView,
> {
    let n = text::byte_len(line);
    if line.len() == 0 {
        Err(error::ErrorView::Transport(KUN_SHARED_RUNTIME_UNAVAILABLE@))
    } else if s.status is None {
        if n > MAX_HEAD_LINE_BYTES || s.bytes + n > MAX_HEAD_BYTES {
            Err(error::ErrorView::Protocol("kun_protocol_error"@))
        } else if expired {
            Err(error::ErrorView::Timeout)
        } else if text::trim(line).len() == 0 {
            Ok(HeadView { bytes: s.bytes + n, ..s })
        } else {
            match line_status(line) {
                Some(status) => Ok(HeadView { status: Some(status), bytes: 0, ..s }),
                None => Err(error::ErrorView::Protocol("kun_protocol_error"@)),
            }
        }
    } else if s.bytes + n > MAX_HEAD_BYTES {
        Err(error::ErrorView::Protocol("kun_protocol_error"@))
    } else if line == "\r\n"@ || line == "\n"@ {
        Ok(HeadView { bytes: s.bytes + n, done: true, ..s })
    } else if expired {
        Err(error::ErrorView::Timeout)
    } else {
        Ok(HeadView { bytes: s.bytes + n, chunked: chunked_after(line, s.chunked), ..s })
    }
}

/// Reads the head of an answer, line by line.
#[derive(Debug)]
pub struct HttpHead {
    status: Option<u16>,
    bytes: usize,
    chunked: bool,
    done: bool,
}

impl HttpHead {
    pub closed spec fn view(&self) -> HeadView {
        HeadView {
            status: self.status,
            bytes: self.bytes as nat,
            chunked: self.chunked,
            done: self.done,
        }
    }

    pub fn new() -> (r: Self)
        ensures
            r@ == (HeadView { status: None, bytes: 0, chunked: false, done: false }),
    {
        HttpHead { status: None, bytes: 0, chunked: false, done: false }
    }

    /// Takes the next line.
    pub fn on_line(&mut self, line: &str, expired: bool) -> (r: Result<(), RuntimeError>)
        requires
            old(self)@.bytes <= MAX_HEAD_BYTES,
        ensures
            match r {
                Ok(_) => head_step(old(self)@, line@, expired) == Ok::<HeadView, error::ErrorView>(
                    final(self)@,
                ),
                Err(e) => head_step(old(self)@, line@, expired) == Err::<
                    HeadView,
                    error::ErrorView,
                >(e@) && final(self)@ == old(self)@,
            },
            final(self)@.bytes <= MAX_HEAD_BYTES,
    {
        if line.is_empty() {
            return Err(RuntimeError::transport(KUN_SHARED_RUNTIME_UNAVAILABLE));
        }
        let n = bytes_len(line);
        if self.status.is_none() {
            if n > MAX_HEAD_LINE_BYTES || self.bytes + n > MAX_HEAD_BYTES {
                return Err(RuntimeError::protocol("kun_protocol_error"));
            }
            if expired {
                return Err(RuntimeError::Timeout);
            }
            if is_blank(line) {
                self.bytes = self.bytes + n;
                return Ok(());
            }
            let words = words_of(line);
            let status = if words.len() >= 2 {
                assert(text::texts(words@)[1] == words@[1]@);
                parse_u16(words[1].as_str())
            } else {
                None
            };
            return match status {
                Some(status) => {
                    self.status = Some(status);
                    self.bytes = 0;
                    Ok(())
                },
                None => Err(RuntimeError::protocol("kun_protocol_error")),
            };
        }
        if n > MAX_HEAD_BYTES || self.bytes + n > MAX_HEAD_BYTES {
            return Err(RuntimeError::protocol("kun_protocol_error"));
        }
        if same_text(line, "\r\n") || same_text(line, "\n") {
            self.bytes = self.bytes + n;
            self.done = true;
            return Ok(());
        }
        if expired {
            return Err(RuntimeError::Timeout);
        }
        self.bytes = self.bytes + n;
        if let Some((key, value)) = cut_once(line, ':') {
            let key = lowered(trimmed(key.as_str()).as_str());
            if same_text(key.as_str(), "transfer-encoding") {
                let value = lowered(trimmed(value.as_str()).as_str());
                self.chunked = text_contains(value.as_str(), "chunked");
            }
        }
        Ok(())
    }

    pub fn status(&self) -> (r: Option<u16>)
        ensures
            r == self@.status,
    {
        self.status
    }

    pub fn is_chunked(&self) -> (r: bool)
        ensures
            r == self@.chunked,
    {
        self.chunked
    }

    pub fn is_done(&self) -> (r: bool)
        ensures
            r == self@.done,
    {
        self.done
    }
}

/// The length that the header line of a chunk gives.
pub open spec fn chunk_length(line: Seq<char>) -> Option<nat> {
    scan::hex_number(text::trim(line.take(text::first_index(line, ';'))))
}

fn chunk_length_of(line: &str) -> (r: Option<usize>)
    ensures
        match r {
            Some(n) => chunk_length(line@) == Some(n as nat),
            None => chunk_length(line@) is None || chunk_length(line@)->0 > usize::MAX,
        },
{
    let cs = chars_of(line);
    let i = text::index_of_char(&cs, 0, ';');
    proof {
        assert(cs@.subrange(0, cs@.len() as int) =~= line@);
    }
    let first = text_of_range(&cs, 0, i);
    assert(first@ =~= line@.take(text::first_index(line@, ';')));
    match parse_hex(trimmed(first.as_str()).as_str(), usize::MAX as u64) {
        Some(n) => Some(n as usize),
        None => None,
    }
}

/// What is left of a body in chunks.
#[derive(Clone, Copy, Debug, PartialEq, Eq, Structural)]
pub struct ChunkedBody {
    pub remaining: usize,
    pub finished: bool,
}

/// A body in chunks that is not written as it must be.
#[derive(Clone, Copy, Debug, PartialEq, Eq, Structural)]
pub struct InvalidChunk;

impl ChunkedBody {
    pub fn new() -> (r: Self)
        ensures
            r == (ChunkedBody { remaining: 0, finished: false }),
    {
        ChunkedBody { remaining: 0, finished: false }
    }

    /// Whether the header line of a chunk comes next.
    pub fn header_is_next(&self) -> (r: bool)
        ensures
            r == (!self.finished && self.remaining == 0),
    {
        !self.finished && self.remaining == 0
    }

    /// Takes the header line of a chunk. The chunk without any bytes is the last
    /// one; lines that follow it are skipped up to an empty one.
    pub fn next_chunk(&mut self, line: &str) -> (r: Result<(), InvalidChunk>)
        requires
            !old(self).finished && old(self).remaining == 0,
        ensures
            match r {
                Ok(_) => chunk_length(line@) matches Some(n) && n <= usize::MAX && *final(self) == (
                ChunkedBody { remaining: n as usize, finished: n == 0 }),
                Err(_) => (chunk_length(line@) is None || chunk_length(line@)->0 > usize::MAX)
                    && *final(self) == *old(self),
            },
    {
        match chunk_length_of(line) {
            Some(n) => {
                self.remaining = n;
                self.finished = n == 0;
                Ok(())
            },
            None => Err(InvalidChunk),
        }
    }

    /// Whether a line ends what follows the last chunk.
    pub fn ends_trailer(line: &str) -> (r: bool)
        ensures
            r == (line@ == "\r\n"@ || line@ == "\n"@ || line@.len() == 0),
    {
        same_text(line, "\r\n") || same_text(line, "\n") || line.is_empty()
    }

    /// How many bytes may be read into a buffer.
    pub fn limit(&self, buffer: usize) -> (r: usize)
        ensures
            r == if buffer <= self.remaining {
                buffer
            } else {
                self.remaining
            },
    {
        if buffer <= self.remaining {
            buffer
        } else {
            self.remaining
        }
    }

    /// Takes note of bytes that were read, and says whether the two bytes that end
    /// a chunk come next.
    pub fn consumed(&mut self, read: usize) -> (r: bool)
        requires
            read <= old(self).remaining,
        ensures
            *final(self) == (ChunkedBody {
                remaining: (old(self).remaining - read) as usize,
                finished: old(self).finished,
            }),
            r == (read > 0 && read == old(self).remaining),
    {
        self.remaining = self.remaining - read;
        read > 0 && self.remaining == 0
    }

    /// Checks the two bytes that end a chunk.
    pub fn ending(first: u8, second: u8) -> (r: Result<(), InvalidChunk>)
        ensures
            r is Ok <==> first == 13 && second == 10,
    {
        if first == 13 && second == 10 {
            Ok(())
        } else {
            Err(InvalidChunk)
        }
    }
}

/// Takes more bytes of a body. A body that is too long is refused.
pub fn append_body(body: &mut Vec<u8>, piece: &[u8]) -> (r: Result<(), RuntimeError>)
    ensures
        match r {
            Ok(_) => old(body)@.len() + piece@.len() <= MAX_TRANSPORT_BODY_BYTES && final(body)@
                == old(body)@ + piece@,
            Err(e) => old(body)@.len() + piece@.len() > MAX_TRANSPORT_BODY_BYTES && e@
                == error::ErrorView::Protocol("kun_protocol_error"@) && final(body)@ == old(
                body,
            )@,
        },
{
    if body.len() > MAX_TRANSPORT_BODY_BYTES || piece.len() > MAX_TRANSPORT_BODY_BYTES - body.len() {
        return Err(RuntimeError::protocol("kun_protocol_error"));
    }
    let ghost before = body@;
    let mut i: usize = 0;
    while i < piece.len()
        invariant
            i <= piece@.len(),
            body@ == before + piece@.take(i as int),
        decreases piece@.len() - i,
    {
        body.push(piece[i]);
        i += 1;
        assert(body@ =~= before + piece@.take(i as int));
    }
    assert(piece@.take(i as int) =~= piece@);
    Ok(())
}

/// What was asked of a runtime when it failed.
#[derive(Clone, Copy, Debug, PartialEq, Eq, Structural)]
pub enum HttpFailureKind {
    Runtime,
    Catalog,
    Provider,
}

/// Whether an answer says that a provider refused the credential.
pub open spec fn provider_authentication(value: json::JsonTree) -> bool {
    match json::first_of(
        json::text_value(json::then_field(json::field(value, "error"@), "code"@)),
        json::first_of(
            json::text_value(json::then_field(json::field(value, "error"@), "type"@)),
            json::text_field(value, "code"@),
        ),
    ) {
        None => false,
        Some(code) => {
            let c = text::lower(code);
            ||| c == "provider_authentication_failed"@
            ||| c == "provider_unauthorized"@
            ||| c == "invalid_api_key"@
            ||| c == "invalid_api_key_error"@
            ||| c == "authentication_error"@
        },
    }
}

pub fn kun_provider_authentication_value(value: &Json) -> (r: bool)
    ensures
        r == provider_authentication(value.tree()),
{
    let nested = match value.get("error") {
        Some(e) => match e.get_str("code") {
            Some(s) => Some(s),
            None => e.get_str("type"),
        },
        None => None,
    };
    let code = match nested {
        Some(s) => Some(s),
        None => value.get_str("code"),
    };
    match code {
        None => false,
        Some(s) => {
            let c = lowered(s);
            same_text(c.as_str(), "provider_authentication_failed") || same_text(
                c.as_str(),
                "provider_unauthorized",
            ) || same_text(c.as_str(), "invalid_api_key") || same_text(
                c.as_str(),
                "invalid_api_key_error",
            ) || same_text(c.as_str(), "authentication_error")
        },
    }
}

/// Whether the bytes of an answer say that a provider refused the credential.
pub open spec fn body_says_authentication(body: Seq<u8>) -> bool {
    match json::json_bytes(body) {
        Ok(value) => provider_authentication(value),
        Err(_) => false,
    }
}

/// The error for an answer with a status that is no success. A runtime that
/// refuses its own credential is never taken for a provider.
pub open spec fn http_failure(
    status: u16,
    kind: HttpFailureKind,
    authentication: bool,
) -> error::ErrorView {
    if status == 401 || status == 403 {
        error::ErrorView::Authentication
    } else {
        match kind {
            HttpFailureKind::Catalog => error::ErrorView::Transport(KUN_CATALOG_UNAVAILABLE@),
            HttpFailureKind::Runtime => error::ErrorView::Transport(
                KUN_SHARED_RUNTIME_UNAVAILABLE@,
            ),
            HttpFailureKind::Provider => if authentication {
                error::ErrorView::Provider(KUN_PROVIDER_AUTHENTICATION_FAILED@)
            } else {
                error::ErrorView::Provider("kun_provider_rejected"@)
            },
        }
    }
}

/// The error for a status, where it is known whether the body says that a
/// provider refused the credential.
pub fn failure_for(status: u16, kind: HttpFailureKind, authentication: bool) -> (r: RuntimeError)
    ensures
        r@ == http_failure(status, kind, authentication),
{
    if status == 401 || status == 403 {
        return RuntimeError::Authentication;
    }
    match kind {
        HttpFailureKind::Catalog => RuntimeError::transport(KUN_CATALOG_UNAVAILABLE),
        HttpFailureKind::Runtime => RuntimeError::transport(KUN_SHARED_RUNTIME_UNAVAILABLE),
        HttpFailureKind::Provider => if authentication {
            RuntimeError::provider(KUN_PROVIDER_AUTHENTICATION_FAILED)
        } else {
            RuntimeError::provider("kun_provider_rejected")
        },
    }
}

/// The error for an answer with a status that is no success.
pub fn map_kun_http_failure(status: u16, kind: HttpFailureKind, body: &[u8]) -> (r: RuntimeError)
    ensures
        r@ == http_failure(status, kind, body_says_authentication(body@)),
{
    let authentication = match parse_json_bytes(body) {
        Ok(value) => kun_provider_authentication_value(&value),
        Err(_) => false,
    };
    failure_for(status, kind, authentication)
}

/// Whether a status is a success.
pub fn is_success(status: u16) -> (r: bool)
    ensures
        r == (200 <= status < 300),
{
    200 <= status && status < 300
}

/// Whether a byte stands for itself in a path.
pub open spec fn is_unreserved(b: u8) -> bool {
    ||| 48 <= b <= 57
    ||| 65 <= b <= 90
    ||| 97 <= b <= 122
    ||| b == 45
    ||| b == 95
    ||| b == 46
    ||| b == 126
}

/// A hexadecimal digit in upper case.
pub open spec fn upper_hex(d: nat) -> char {
    if d < 10 {
        (48 + d) as char
    } else {
        (55 + d) as char
    }
}

/// How a byte is written in a path.
pub open spec fn path_byte(b: u8) -> Seq<char> {
    if is_unreserved(b) {
        seq![b as char]
    } else {
        seq!['%', upper_hex((b / 16) as nat), upper_hex((b % 16) as nat)]
    }
}

/// How bytes are written in a path.
pub open spec fn path_bytes(bytes: Seq<u8>) -> Seq<char>
    decreases bytes.len(),
{
    if bytes.len() == 0 {
        seq![]
    } else {
        path_byte(bytes[0]) + path_bytes(bytes.drop_first())
    }
}

fn upper_hex_char(d: u8) -> (r: char)
    requires
        d < 16,
    ensures
        r == upper_hex(d as nat),
{
    if d < 10 {
        (48 + d) as char
    } else {
        (55 + d) as char
    }
}

/// Writes a text as one component of a path.
pub fn encode_path_component(value: &str) -> (r: String)
    ensures
        r@ == path_bytes(encode_utf8(value@)),
{
    let bytes = value.as_bytes();
    let mut out = String::new();
    let mut i: usize = 0;
    let ghost all = encode_utf8(value@);
    assert(all.skip(0) =~= all);
    assert(out@ + path_bytes(all) =~= path_bytes(all));
    while i < bytes.len()
        invariant
            i <= bytes@.len(),
            bytes@ == all,
            path_bytes(all) == out@ + path_bytes(all.skip(i as int)),
        decreases bytes@.len() - i,
    {
        let b = bytes[i];
        let ghost before = out@;
        let ghost rest = all.skip(i as int);
        assert(rest[0] == b);
        assert(rest.drop_first() =~= all.skip(i + 1));
        if (48 <= b && b <= 57) || (65 <= b && b <= 90) || (97 <= b && b <= 122) || b == 45 || b
            == 95 || b == 46 || b == 126 {
            out.push(b as char);
        } else {
            out.push('%');
            out.push(upper_hex_char(b / 16));
            out.push(upper_hex_char(b % 16));
        }
        proof {
            assert(out@ =~= before + path_byte(b));
            let tail = path_bytes(all.skip(i + 1));
            assert(before + (path_byte(b) + tail) =~= out@ + tail);
        }
        i += 1;
    }
    assert(out@ + path_bytes(all.skip(i as int)) =~= out@);
    out
}

/// The bytes that a path component stands for.
pub open spec fn path_component_bytes(s: Seq<char>) -> Seq<u8>
    decreases s.len(),
{
    if s.len() == 0 {
        seq![]
    } else if s[0] == '%' && s.len() >= 3 {
        seq![(scan::hex_digit(s[1]) * 16 + scan::hex_digit(s[2])) as u8] + path_component_bytes(
            s.skip(3),
        )
    } else {
        seq![s[0] as u8] + path_component_bytes(s.drop_first())
    }
}

/// A path component can be read back, and holds nothing but letters, digits and
/// `-`, `_`, `.`, `~` and `%`.
pub proof fn law_path_component_reads_back(bytes: Seq<u8>)
    ensures
        path_component_bytes(path_bytes(bytes)) == bytes,
        forall|i: int|
            0 <= i < path_bytes(bytes).len() ==> {
                let c = #[trigger] path_bytes(bytes)[i];
                text::is_alphanumeric(c) || c == '-' || c == '_' || c == '.' || c == '~' || c == '%'
            },
    decreases bytes.len(),
{
    if bytes.len() > 0 {
        let b = bytes[0];
        let rest = bytes.drop_first();
        law_path_component_reads_back(rest);
        let first = path_byte(b);
        let tail = path_bytes(rest);
        let s = first + tail;
        assert(bytes =~= seq![b] + rest);
        assert forall|i: int| 0 <= i < s.len() implies {
            let c = #[trigger] s[i];
            text::is_alphanumeric(c) || c == '-' || c == '_' || c == '.' || c == '~' || c == '%'
        } by {
            if i >= first.len() {
                assert(s[i] == tail[i - first.len()]);
            }
        }
        if is_unreserved(b) {
            assert(s.drop_first() =~= tail);
            assert(s[0] == b as char);
            assert(s[0] != '%');
        } else {
            assert(s.skip(3) =~= tail);
            let d1 = (b / 16) as nat;
            let d2 = (b % 16) as nat;
            assert(scan::hex_digit(upper_hex(d1)) == d1);
            assert(scan::hex_digit(upper_hex(d2)) == d2);
            assert(s[1] == upper_hex(d1) && s[2] == upper_hex(d2));
            assert(d1 * 16 + d2 == b);
        }
    } else {
        assert(path_component_bytes(path_bytes(bytes)) =~= bytes);
    }
}

} // verus!
