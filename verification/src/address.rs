//! Addresses of the local machine: reading an IP address from a text, and telling
//! the loopback addresses from all others.

use vstd::prelude::*;
use vstd::string::*;

use crate::scan;
use crate::scan::{parse_hex, split_text};
use crate::text;
use crate::text::{chars_of, decimal_text, digit, index_from, parse_u64, text_of_range};

verus! {

/// A part of an IPv4 address: a number up to 255 in decimal digits without leading
/// zeros.
pub open spec fn octet(s: Seq<char>) -> Option<u16> {
    if 1 <= s.len() <= 3 && text::all_digits(s) && (s.len() == 1 || s[0] != '0')
        && text::decimal_value(s) <= 255 {
        Some(text::decimal_value(s) as u16)
    } else {
        None
    }
}

/// A part of an IPv6 address: up to four hexadecimal digits.
pub open spec fn group(s: Seq<char>) -> Option<u16> {
    if 1 <= s.len() <= 4 && scan::all_hex(s) {
        Some(scan::hex_value(s) as u16)
    } else {
        None
    }
}

/// The four parts of an IPv4 address, which stand between full stops.
pub open spec fn ipv4(s: Seq<char>) -> Option<Seq<u16>> {
    let p = scan::split_on(s, '.');
    if p.len() == 4 && octet(p[0]) is Some && octet(p[1]) is Some && octet(p[2]) is Some && octet(
        p[3],
    ) is Some {
        Some(seq![octet(p[0])->0, octet(p[1])->0, octet(p[2])->0, octet(p[3])->0])
    } else {
        None
    }
}

/// Parts of an IPv6 address. Where it may, an IPv4 address at the end stands for
/// two parts.
pub open spec fn piece_groups(pieces: Seq<Seq<char>>, ending: bool) -> Option<Seq<u16>>
    decreases pieces.len(),
{
    if pieces.len() == 0 {
        Some(seq![])
    } else {
        match piece_groups(pieces.drop_last(), false) {
            None => None,
            Some(before) => match group(pieces.last()) {
                Some(g) => Some(before.push(g)),
                None => match ipv4(pieces.last()) {
                    Some(o) => if ending {
                        Some(
                            before.push((o[0] * 256 + o[1]) as u16).push(
                                (o[2] * 256 + o[3]) as u16,
                            ),
                        )
                    } else {
                        None
                    },
                    None => None,
                },
            },
        }
    }
}

/// The parts in a text that stand between colons; there may be none.
pub open spec fn groups(s: Seq<char>, ending: bool) -> Option<Seq<u16>> {
    if s.len() == 0 {
        Some(seq![])
    } else {
        piece_groups(scan::split_on(s, ':'), ending)
    }
}

/// The eight parts of an IPv6 address. Two colons stand for one or more parts that
/// are zero.
pub open spec fn ipv6(s: Seq<char>) -> Option<Seq<u16>> {
    match text::find(s, "::"@) {
        None => match groups(s, true) {
            Some(g) => if g.len() == 8 {
                Some(g)
            } else {
                None
            },
            None => None,
        },
        Some(i) => match (groups(s.take(i), false), groups(s.skip(i + 2), true)) {
            (Some(head), Some(tail)) => if head.len() + tail.len() <= 7 {
                Some(head + Seq::new((8 - head.len() - tail.len()) as nat, |k: int| 0u16) + tail)
            } else {
                None
            },
            _ => None,
        },
    }
}

/// The parts of an IP address: four for IPv4, eight for IPv6.
pub open spec fn ip_parts(s: Seq<char>) -> Option<Seq<u16>> {
    match ipv4(s) {
        Some(p) => Some(p),
        None => ipv6(s),
    }
}

fn octet_of(s: &str) -> (r: Option<u16>)
    ensures
        r == octet(s@),
{
    let cs = chars_of(s);
    if cs.len() < 1 || cs.len() > 3 {
        return None;
    }
    let mut i: usize = 0;
    while i < cs.len()
        invariant
            i <= cs@.len(),
            cs@ == s@,
            forall|k: int| 0 <= k < i ==> text::is_digit(#[trigger] s@[k]),
        decreases cs@.len() - i,
    {
        if !digit(cs[i]) {
            return None;
        }
        i += 1;
    }
    if cs.len() > 1 && cs[0] == '0' {
        return None;
    }
    proof {
        assert(s@[0] != '+');
    }
    match parse_u64(s) {
        Some(v) => if v <= 255 {
            Some(v as u16)
        } else {
            None
        },
        None => None,
    }
}

proof fn lemma_group_fits(s: Seq<char>)
    requires
        s.len() <= 4,
        scan::all_hex(s),
    ensures
        scan::hex_value(s) <= 0xffff,
{
    reveal_with_fuel(scan::hex_value, 5);
}

fn group_of(s: &str) -> (r: Option<u16>)
    ensures
        r == group(s@),
{
    let cs = chars_of(s);
    if cs.len() < 1 || cs.len() > 4 || cs[0] == '+' {
        proof {
            if s@.len() > 0 && s@[0] == '+' {
                assert(!scan::is_hex_digit(s@[0]));
            }
        }
        return None;
    }
    proof {
        if scan::all_hex(s@) {
            lemma_group_fits(s@);
        }
    }
    match parse_hex(s, 0xffff) {
        Some(v) => Some(v as u16),
        None => None,
    }
}

fn ipv4_of(s: &str) -> (r: Option<Vec<u16>>)
    ensures
        match r {
            Some(v) => ipv4(s@) == Some(v@),
            None => ipv4(s@) is None,
        },
{
    let pieces = split_text(s, '.');
    let ghost p = text::texts(pieces@);
    if pieces.len() != 4 {
        return None;
    }
    assert(p[0] == pieces@[0]@ && p[1] == pieces@[1]@ && p[2] == pieces@[2]@ && p[3]
        == pieces@[3]@);
    let parts = (
        octet_of(pieces[0].as_str()),
        octet_of(pieces[1].as_str()),
        octet_of(pieces[2].as_str()),
        octet_of(pieces[3].as_str()),
    );
    match parts {
        (Some(a), Some(b), Some(c), Some(d)) => {
            let mut v: Vec<u16> = Vec::new();
            v.push(a);
            v.push(b);
            v.push(c);
            v.push(d);
            assert(v@ =~= ipv4(s@)->0);
            Some(v)
        },
        _ => None,
    }
}

fn pieces_of(pieces: &Vec<String>, ending: bool) -> (r: Option<Vec<u16>>)
    ensures
        match r {
            Some(v) => piece_groups(text::texts(pieces@), ending) == Some(v@),
            None => piece_groups(text::texts(pieces@), ending) is None,
        },
{
    let ghost all = text::texts(pieces@);
    let mut out: Vec<u16> = Vec::new();
    let mut i: usize = 0;
    assert(piece_groups(all.take(0), false) == Some(out@));
    assert(all.take(0) =~= seq![]);
    while i < pieces.len()
        invariant
            i <= pieces@.len(),
            all == text::texts(pieces@),
            i < pieces@.len() ==> piece_groups(all.take(i as int), false) == Some(out@),
            i == pieces@.len() ==> piece_groups(all.take(i as int), ending) == Some(out@),
        decreases pieces@.len() - i,
    {
        let last = i + 1 == pieces.len();
        let ghost before = out@;
        proof {
            assert(all.take(i + 1).drop_last() =~= all.take(i as int));
            assert(all.take(i + 1).last() == pieces@[i as int]@);
        }
        match group_of(pieces[i].as_str()) {
            Some(g) => {
                out.push(g);
            },
            None => {
                let address = if last && ending {
                    ipv4_of(pieces[i].as_str())
                } else {
                    None
                };
                match address {
                    Some(o) => {
                        proof {
                            lemma_octets(pieces@[i as int]@);
                        }
                        out.push(o[0] * 256 + o[1]);
                        out.push(o[2] * 256 + o[3]);
                    },
                    None => {
                        proof {
                            lemma_broken(all, i as int, ending);
                        }
                        return None;
                    },
                }
            },
        }
        i += 1;
    }
    assert(all.take(i as int) =~= all);
    Some(out)
}

proof fn lemma_octets(s: Seq<char>)
    ensures
        ipv4(s) matches Some(o) ==> o.len() == 4 && o[0] <= 255 && o[1] <= 255 && o[2] <= 255
            && o[3] <= 255,
{
}

/// A piece that is no part spoils the whole.
proof fn lemma_broken(pieces: Seq<Seq<char>>, i: int, ending: bool)
    requires
        0 <= i < pieces.len(),
        group(pieces[i]) is None,
        i + 1 < pieces.len() || !ending || ipv4(pieces[i]) is None,
    ensures
        piece_groups(pieces, ending) is None,
    decreases pieces.len(),
{
    if i + 1 < pieces.len() {
        assert(pieces.drop_last()[i] == pieces[i]);
        lemma_broken(pieces.drop_last(), i, false);
    } else {
        assert(pieces.last() == pieces[i]);
    }
}

fn groups_of(s: &str, ending: bool) -> (r: Option<Vec<u16>>)
    ensures
        match r {
            Some(v) => groups(s@, ending) == Some(v@),
            None => groups(s@, ending) is None,
        },
{
    if chars_of(s).len() == 0 {
        let v: Vec<u16> = Vec::new();
        assert(v@ =~= seq![]);
        return Some(v);
    }
    let pieces = split_text(s, ':');
    pieces_of(&pieces, ending)
}

fn ipv6_of(s: &str) -> (r: Option<Vec<u16>>)
    ensures
        match r {
            Some(v) => ipv6(s@) == Some(v@),
            None => ipv6(s@) is None,
        },
{
    let cs = chars_of(s);
    let pat = chars_of("::");
    proof {
        reveal_strlit("::");
        text::lemma_find_from(s@, "::"@, 0);
    }
    match index_from(&cs, &pat, 0) {
        None => match groups_of(s, true) {
            Some(g) => if g.len() == 8 {
                Some(g)
            } else {
                None
            },
            None => None,
        },
        Some(i) => {
            let head = text_of_range(&cs, 0, i);
            let tail = text_of_range(&cs, i + 2, cs.len());
            assert(head@ =~= s@.take(i as int));
            assert(tail@ =~= s@.skip(i + 2));
            match (groups_of(head.as_str(), false), groups_of(tail.as_str(), true)) {
                (Some(head), Some(tail)) => {
                    if head.len() > 7 || tail.len() > 7 - head.len() {
                        return None;
                    }
                    let ghost zeros = (8 - head@.len() - tail@.len()) as nat;
                    let ghost front = head@;
                    let mut out = head;
                    let mut k: usize = 0;
                    let missing: usize = 8 - out.len() - tail.len();
                    while k < missing
                        invariant
                            k <= missing,
                            missing == zeros,
                            out@ == front + Seq::new(k as nat, |k: int| 0u16),
                        decreases missing - k,
                    {
                        out.push(0);
                        k += 1;
                        assert(out@ =~= front + Seq::new(k as nat, |k: int| 0u16));
                    }
                    let ghost middle = out@;
                    let mut j: usize = 0;
                    while j < tail.len()
                        invariant
                            j <= tail@.len(),
                            out@ == middle + tail@.take(j as int),
                        decreases tail@.len() - j,
                    {
                        out.push(tail[j]);
                        j += 1;
                        assert(out@ =~= middle + tail@.take(j as int));
                    }
                    assert(out@ =~= front + Seq::new(zeros, |k: int| 0u16) + tail@);
                    Some(out)
                },
                _ => None,
            }
        },
    }
}

/// Reads an IP address.
pub fn parse_ip(s: &str) -> (r: Option<Vec<u16>>)
    ensures
        match r {
            Some(v) => ip_parts(s@) == Some(v@),
            None => ip_parts(s@) is None,
        },
{
    match ipv4_of(s) {
        Some(v) => Some(v),
        None => ipv6_of(s),
    }
}

/// An address that only this machine has: 127.b.c.d or ::1.
#[derive(Clone, Copy, Debug, PartialEq, Eq, Structural)]
pub enum LoopbackAddress {
    V4(u16, u16, u16),
    V6,
}

/// The loopback address that some parts stand for.
pub open spec fn loopback(parts: Seq<u16>) -> Option<LoopbackAddress> {
    if parts.len() == 4 && parts[0] == 127 {
        Some(LoopbackAddress::V4(parts[1], parts[2], parts[3]))
    } else if parts == seq![0u16, 0u16, 0u16, 0u16, 0u16, 0u16, 0u16, 1u16] {
        Some(LoopbackAddress::V6)
    } else {
        None
    }
}

/// Tells a loopback address from all others.
pub fn loopback_address(parts: &Vec<u16>) -> (r: Option<LoopbackAddress>)
    ensures
        r == loopback(parts@),
{
    if parts.len() == 4 {
        if parts[0] == 127 {
            return Some(LoopbackAddress::V4(parts[1], parts[2], parts[3]));
        }
        return None;
    }
    if parts.len() != 8 {
        return None;
    }
    if parts[0] == 0 && parts[1] == 0 && parts[2] == 0 && parts[3] == 0 && parts[4] == 0 && parts[5]
        == 0 && parts[6] == 0 && parts[7] == 1 {
        assert(parts@ =~= seq![0u16, 0u16, 0u16, 0u16, 0u16, 0u16, 0u16, 1u16]);
        Some(LoopbackAddress::V6)
    } else {
        None
    }
}

/// The loopback address that a text names.
pub open spec fn loopback_text(s: Seq<char>) -> Option<LoopbackAddress> {
    match ip_parts(s) {
        Some(parts) => loopback(parts),
        None => None,
    }
}

/// Whether a text is an address of this machine.
pub fn is_allowed_loopback_ip(s: &str) -> (r: bool)
    ensures
        r == (loopback_text(s@) is Some),
{
    match parse_ip(s) {
        Some(parts) => loopback_address(&parts).is_some(),
        None => false,
    }
}

/// How an address and a port are written together.
pub open spec fn authority_text(address: LoopbackAddress, port: u16) -> Seq<char> {
    (match address {
        LoopbackAddress::V4(b, c, d) => "127."@ + text::decimal(b as nat) + "."@ + text::decimal(
            c as nat,
        ) + "."@ + text::decimal(d as nat),
        LoopbackAddress::V6 => "[::1]"@,
    }) + ":"@ + text::decimal(port as nat)
}

pub fn authority_of(address: LoopbackAddress, port: u16) -> (r: String)
    ensures
        r@ == authority_text(address, port),
{
    let mut r = String::new();
    match address {
        LoopbackAddress::V4(b, c, d) => {
            r.append("127.");
            r.append(decimal_text(b as u64).as_str());
            r.append(".");
            r.append(decimal_text(c as u64).as_str());
            r.append(".");
            r.append(decimal_text(d as u64).as_str());
        },
        LoopbackAddress::V6 => {
            r.append("[::1]");
        },
    }
    assert(r@ =~= match address {
        LoopbackAddress::V4(b, c, d) => "127."@ + text::decimal(b as nat) + "."@ + text::decimal(
            c as nat,
        ) + "."@ + text::decimal(d as nat),
        LoopbackAddress::V6 => "[::1]"@,
    });
    r.append(":");
    r.append(decimal_text(port as u64).as_str());
    r
}

/// How an address of this machine is written.
pub open spec fn address_name(address: LoopbackAddress) -> Seq<char> {
    match address {
        LoopbackAddress::V4(b, c, d) => "127."@ + text::decimal(b as nat) + "."@ + text::decimal(
            c as nat,
        ) + "."@ + text::decimal(d as nat),
        LoopbackAddress::V6 => "::1"@,
    }
}

pub fn address_of(address: LoopbackAddress) -> (r: String)
    ensures
        r@ == address_name(address),
{
    match address {
        LoopbackAddress::V4(b, c, d) => {
            let mut r = "127.".to_owned();
            r.append(decimal_text(b as u64).as_str());
            r.append(".");
            r.append(decimal_text(c as u64).as_str());
            r.append(".");
            r.append(decimal_text(d as u64).as_str());
            r
        },
        LoopbackAddress::V6 => "::1".to_owned(),
    }
}

proof fn lemma_first_index_lower(s: Seq<char>, c: char)
    requires
        !text::is_ascii_letter(c),
    ensures
        text::first_index(text::lower(s), c) == text::first_index(s, c),
    decreases s.len(),
{
    if s.len() > 0 {
        lemma_first_index_lower(s.drop_first(), c);
        assert(text::lower(s).drop_first() =~= text::lower(s.drop_first()));
    }
}

/// The pieces of a text in lower case are its pieces in lower case.
proof fn lemma_split_lower(s: Seq<char>, c: char)
    requires
        !text::is_ascii_letter(c),
    ensures
        scan::split_on(text::lower(s), c).len() == scan::split_on(s, c).len(),
        forall|i: int|
            0 <= i < scan::split_on(s, c).len() ==> #[trigger] scan::split_on(text::lower(s), c)[i]
                == text::lower(scan::split_on(s, c)[i]),
    decreases s.len(),
{
    lemma_first_index_lower(s, c);
    let i = text::first_index(s, c);
    if 0 <= i < s.len() {
        let t = s.skip(i + 1);
        lemma_split_lower(t, c);
        assert(text::lower(s).take(i) =~= text::lower(s.take(i)));
        assert(text::lower(s).skip(i + 1) =~= text::lower(t));
        assert forall|k: int| 0 <= k < scan::split_on(s, c).len() implies #[trigger] scan::split_on(
            text::lower(s),
            c,
        )[k] == text::lower(scan::split_on(s, c)[k]) by {
            if k > 0 {
                assert(scan::split_on(text::lower(s), c)[k] == scan::split_on(text::lower(t), c)[k
                    - 1]);
                assert(scan::split_on(s, c)[k] == scan::split_on(t, c)[k - 1]);
            }
        }
    }
}

proof fn lemma_digits_lower(s: Seq<char>)
    ensures
        text::all_digits(text::lower(s)) == text::all_digits(s),
        text::all_digits(s) ==> text::lower(s) == s,
{
    let t = text::lower(s);
    assert(t.len() == s.len());
    if text::all_digits(s) {
        assert(t =~= s);
    }
    if text::all_digits(t) {
        assert forall|i: int| 0 <= i < s.len() implies text::is_digit(#[trigger] s[i]) by {
            assert(text::is_digit(t[i]));
        }
    }
}

proof fn lemma_octet_lower(s: Seq<char>)
    ensures
        octet(text::lower(s)) == octet(s),
{
    lemma_digits_lower(s);
}

proof fn lemma_hex_value_lower(s: Seq<char>)
    requires
        scan::all_hex(s),
    ensures
        scan::hex_value(text::lower(s)) == scan::hex_value(s),
    decreases s.len(),
{
    if s.len() > 0 {
        lemma_hex_value_lower(s.drop_last());
        assert(text::lower(s).drop_last() =~= text::lower(s.drop_last()));
        assert(scan::is_hex_digit(s.last()));
    }
}

proof fn lemma_group_lower(s: Seq<char>)
    ensures
        group(text::lower(s)) == group(s),
{
    let t = text::lower(s);
    if scan::all_hex(s) {
        assert forall|i: int| 0 <= i < t.len() implies scan::is_hex_digit(#[trigger] t[i]) by {
            assert(scan::is_hex_digit(s[i]));
        }
        lemma_hex_value_lower(s);
    }
    if scan::all_hex(t) {
        assert forall|i: int| 0 <= i < s.len() implies scan::is_hex_digit(#[trigger] s[i]) by {
            assert(scan::is_hex_digit(t[i]));
        }
    }
}

proof fn lemma_ipv4_lower(s: Seq<char>)
    ensures
        ipv4(text::lower(s)) == ipv4(s),
{
    lemma_split_lower(s, '.');
    let p = scan::split_on(s, '.');
    if p.len() == 4 {
        lemma_octet_lower(p[0]);
        lemma_octet_lower(p[1]);
        lemma_octet_lower(p[2]);
        lemma_octet_lower(p[3]);
    }
}

proof fn lemma_piece_groups_lower(a: Seq<Seq<char>>, b: Seq<Seq<char>>, ending: bool)
    requires
        a.len() == b.len(),
        forall|i: int| 0 <= i < a.len() ==> #[trigger] b[i] == text::lower(a[i]),
    ensures
        piece_groups(b, ending) == piece_groups(a, ending),
    decreases a.len(),
{
    if a.len() > 0 {
        lemma_piece_groups_lower(a.drop_last(), b.drop_last(), false);
        assert(b[b.len() - 1] == text::lower(a[a.len() - 1]));
        lemma_group_lower(a.last());
        lemma_ipv4_lower(a.last());
    }
}

proof fn lemma_groups_lower(s: Seq<char>, ending: bool)
    ensures
        groups(text::lower(s), ending) == groups(s, ending),
{
    lemma_split_lower(s, ':');
    lemma_piece_groups_lower(
        scan::split_on(s, ':'),
        scan::split_on(text::lower(s), ':'),
        ending,
    );
}

proof fn lemma_find_lower(s: Seq<char>, pat: Seq<char>, from: int)
    requires
        0 <= from,
        forall|i: int| 0 <= i < pat.len() ==> !text::is_ascii_letter(#[trigger] pat[i]),
    ensures
        text::find_from(text::lower(s), pat, from) == text::find_from(s, pat, from),
    decreases s.len() + 1 - from,
{
    let t = text::lower(s);
    if from + pat.len() <= s.len() {
        let x = s.subrange(from, from + pat.len());
        let y = t.subrange(from, from + pat.len());
        if x == pat {
            assert forall|i: int| 0 <= i < pat.len() implies #[trigger] y[i] == pat[i] by {
                assert(x[i] == pat[i]);
            }
            assert(y =~= pat);
        }
        if y == pat {
            assert forall|i: int| 0 <= i < pat.len() implies #[trigger] x[i] == pat[i] by {
                assert(y[i] == pat[i]);
            }
            assert(x =~= pat);
        }
        lemma_find_lower(s, pat, from + 1);
    }
}

/// The case of the letters in an address does not matter.
pub proof fn law_case_does_not_matter(s: Seq<char>)
    ensures
        ip_parts(text::lower(s)) == ip_parts(s),
        loopback_text(text::lower(s)) == loopback_text(s),
{
    reveal_strlit("::");
    lemma_ipv4_lower(s);
    lemma_find_lower(s, "::"@, 0);
    lemma_groups_lower(s, true);
    if let Some(i) = text::find(s, "::"@) {
        text::lemma_find_from(s, "::"@, 0);
        lemma_groups_lower(s.take(i), false);
        lemma_groups_lower(s.skip(i + 2), true);
        assert(text::lower(s).take(i) =~= text::lower(s.take(i)));
        assert(text::lower(s).skip(i + 2) =~= text::lower(s.skip(i + 2)));
    }
}

} // verus!
