//! What holds of every scan of this machine: what it takes in, what it refuses and why.

use vstd::prelude::*;
use vstd::string::*;

use crate::address;
use crate::digest;
use crate::endpoint;
use crate::observation;
use crate::observation::{
    CandidateCategory, DiscoveryDiagnostic, DiscoveryDiagnosticCode, DiscoveryEvidence,
    ExecutableProbe, ObservationSourceKind, ObservationTrustLevel,
};
use crate::passive;
use crate::passive::{DirectoryProbe, EntryProbe, WindowsAppPathRecord, WindowsLoopbackListenerRecord};
use crate::paths;
use crate::paths::PathPart;
use crate::text;
use crate::text_laws;

verus! {

/// A diagnostic is told once, and those that were told stay.
pub proof fn law_diagnostics_are_told_once(
    c: passive::CollectionView,
    kind: ObservationSourceKind,
    code: DiscoveryDiagnosticCode,
)
    ensures
        ({
            let d = DiscoveryDiagnostic { source_kind: kind, code };
            let after = c.diagnosed(kind, code);
            &&& after.diagnostics.contains(d)
            &&& after.observations == c.observations
            &&& c.diagnostics.contains(d) ==> after == c
            &&& !c.diagnostics.contains(d) ==> after.diagnostics == c.diagnostics.push(d)
        }),
{
    let d = DiscoveryDiagnostic { source_kind: kind, code };
    let after = c.diagnosed(kind, code);
    if !c.diagnostics.contains(d) {
        assert(after.diagnostics[c.diagnostics.len() as int] == d);
    }
}

/// What was found is taken while there is room for it, at the end; what could not be taken
/// is told by its diagnostic, and the scan goes on.
pub proof fn law_findings_are_taken_while_there_is_room(
    c: passive::CollectionView,
    kind: ObservationSourceKind,
    o: observation::ObservationView,
    code: DiscoveryDiagnosticCode,
    max: nat,
)
    ensures
        c.observations.len() < max ==> c.took(kind, Ok(o), max).1 && c.took(
            kind,
            Ok(o),
            max,
        ).0.observations == c.observations.push(o) && c.took(kind, Ok(o), max).0.diagnostics
            == c.diagnostics,
        c.observations.len() >= max ==> !c.took(kind, Ok(o), max).1 && c.took(kind, Ok(o), max).0
            == c,
        c.took(kind, Err(code), max).1,
        c.took(kind, Err(code), max).0 == c.diagnosed(kind, code),
{
}

/// A directory of the search path is looked through if it is absolute, no link, and was not
/// looked through before; otherwise it is told why not, unless it is a repetition.
pub proof fn law_directories_are_looked_through_once(
    s: passive::PathScanView,
    probe: DirectoryProbe,
    windows: bool,
)
    ensures
        ({
            let (after, look) = s.directory(probe, windows);
            let kind = ObservationSourceKind::WindowsPath;
            &&& after.directories == s.directories + 1
            &&& probe is Relative ==> !look && after.collection == s.collection.diagnosed(
                kind,
                DiscoveryDiagnosticCode::InvalidSourceRecord,
            )
            &&& probe is Reparse ==> !look && after.collection == s.collection.diagnosed(
                kind,
                DiscoveryDiagnosticCode::ReparsePointRejected,
            )
            &&& probe matches DirectoryProbe::Unresolved(code) ==> !look && after.collection
                == s.collection.diagnosed(kind, code)
            &&& probe matches DirectoryProbe::Canonical(p) ==> {
                &&& look <==> !s.seen.contains(digest::path_key(p@, windows))
                &&& after.seen.contains(digest::path_key(p@, windows))
                &&& after.collection == s.collection
                &&& look ==> after.accepted == 0
            }
        }),
{
}

/// An entry of a directory is taken if it is an executable file; a link is told to be one,
/// and any other file is passed over in silence.
pub proof fn law_entries_are_taken_if_executable(
    s: passive::PathScanView,
    probe: EntryProbe,
    max: nat,
)
    ensures
        ({
            let (after, more) = s.entry(probe, max);
            let kind = ObservationSourceKind::WindowsPath;
            &&& probe is NotExecutable ==> after == s && more
            &&& probe is Reparse ==> more && after.collection == s.collection.diagnosed(
                kind,
                DiscoveryDiagnosticCode::ReparsePointRejected,
            ) && after.accepted == s.accepted
            &&& probe matches EntryProbe::Unreadable(code) ==> more && after.collection
                == s.collection.diagnosed(kind, code) && after.accepted == s.accepted
            &&& probe matches EntryProbe::Executable(p) ==> {
                let r = observation::probed(
                    kind,
                    DiscoveryEvidence::WindowsPathEntry,
                    ObservationTrustLevel::Heuristic,
                    p,
                );
                &&& (after.collection, more) == s.collection.took(kind, r, max)
                &&& r is Ok ==> after.accepted == s.accepted + 1
                &&& r is Err ==> after.accepted == s.accepted
            }
            &&& after.seen == s.seen
            &&& after.directories == s.directories
        }),
{
}

/// A packaged executable is known by its package and its place in it, not by its own
/// identity; it is taken only if the package is in order and the file could be read twice.
pub proof fn law_packaged_executables_are_known_by_their_package(
    family: Seq<char>,
    absolute: bool,
    parts: Seq<PathPart>,
    probe: ExecutableProbe,
    again: Result<Seq<char>, DiscoveryDiagnosticCode>,
)
    ensures
        match passive::packaged(family, absolute, parts, probe, again) {
            Ok(o) => {
                &&& probe matches ExecutableProbe::File { path, identity, .. } && o.locator
                    == observation::LocatorView::Executable(path@)
                    && o.association_fingerprints.len() == 2 && o.association_fingerprints[0]
                    == seq!["windows-executable"@, identity@]
                &&& again matches Ok(x) && o.association_fingerprints[1] == seq![
                    "windows-executable"@,
                    x,
                ]
                &&& paths::package_identity(family, absolute, parts) == Some(o.fingerprint)
                &&& o.assessment.source_kind == ObservationSourceKind::WindowsPackage
                &&& o.evidence_summary == seq![DiscoveryEvidence::WindowsPackageInventory]
                &&& o.assessment.category == CandidateCategory::Unknown
                &&& crate::discovery_laws::claims_nothing(o.assessment)
            },
            Err(code) => {
                &&& probe is File ==> (again matches Err(x) ==> code == x)
                &&& probe is File && again is Ok ==> paths::package_identity(
                    family,
                    absolute,
                    parts,
                ) is None && code == DiscoveryDiagnosticCode::InvalidSourceRecord
                &&& probe is Reparse ==> code == DiscoveryDiagnosticCode::ReparsePointRejected
            },
        },
{
}

/// A listener is looked at only if it listens on this machine alone, belongs to a program,
/// and is still there as it was when it is looked for again.
pub proof fn law_only_local_listeners_are_looked_at(
    record: WindowsLoopbackListenerRecord,
    again: Option<Seq<WindowsLoopbackListenerRecord>>,
    windows: bool,
)
    ensures
        match passive::listener_view(record, again, windows) {
            passive::ListenerView::Owned(executable) => {
                &&& address::loopback_text(record.address@) is Some
                &&& record.owner_executable matches Some(e) && e@ == executable
                &&& again matches Some(all) ==> exists|i: int|
                    0 <= i < all.len() && is_still(#[trigger] all[i], record, windows)
            },
            passive::ListenerView::Refused(code) => {
                &&& address::ip_parts(record.address@) is None ==> code
                    == DiscoveryDiagnosticCode::InvalidSourceRecord
                &&& address::ip_parts(record.address@) is Some && address::loopback_text(
                    record.address@,
                ) is None ==> code == DiscoveryDiagnosticCode::NonLoopbackRejected
                &&& address::loopback_text(record.address@) is Some ==> code
                    == DiscoveryDiagnosticCode::SourceDisappeared && (record.owner_executable is None
                    || (again matches Some(all) && forall|i: int|
                    0 <= i < all.len() ==> !is_still(#[trigger] all[i], record, windows)))
            },
        },
{
    if let Some(all) = again {
        if passive::survives(record, all, windows) {
            let i = choose|i: int|
                0 <= i < all.len() && passive::same_listener(#[trigger] all[i], record, windows);
            assert(is_still(all[i], record, windows));
        } else {
            assert forall|i: int| 0 <= i < all.len() implies !is_still(
                #[trigger] all[i],
                record,
                windows,
            ) by {
                assert(!passive::same_listener(all[i], record, windows));
            }
        }
    }
}

/// A listener is the one that it was: at the same address and port, of the same process,
/// with the same identity and the same program.
pub open spec fn is_still(
    a: WindowsLoopbackListenerRecord,
    b: WindowsLoopbackListenerRecord,
    windows: bool,
) -> bool {
    &&& a.address@ == b.address@
    &&& a.port == b.port
    &&& a.owner_pid == b.owner_pid
    &&& match (a.owner_identity, b.owner_identity) {
        (Some(x), Some(y)) => x@ == y@,
        (None, None) => true,
        _ => false,
    }
    &&& match (a.owner_executable, b.owner_executable) {
        (Some(x), Some(y)) => paths::same_components(x@, y@, windows),
        (None, None) => true,
        _ => false,
    }
}

/// The program of a listener is told as that, and no more is claimed of it.
pub proof fn law_listening_programs_claim_nothing(probe: ExecutableProbe)
    ensures
        match passive::listening(probe) {
            Ok(o) => {
                &&& probe matches ExecutableProbe::File { path, identity, .. } && o.locator
                    == observation::LocatorView::Executable(path@) && o.fingerprint == seq![
                    "windows-executable"@,
                    identity@,
                ]
                &&& o.display_name == "Loopback listener"@
                &&& o.assessment.source_kind == ObservationSourceKind::LoopbackListener
                &&& o.evidence_summary == seq![DiscoveryEvidence::LoopbackListener]
                &&& crate::discovery_laws::claims_nothing(o.assessment)
            },
            Err(code) => !(probe is File) && observation::probe_refusal(probe) == Some(code),
        },
{
}

/// A path is known by its characters, with slashes for backslashes; on Windows the case of
/// its letters does not matter.
pub proof fn law_path_keys(path: Seq<char>, windows: bool)
    ensures
        digest::path_key(path, windows).len() == path.len(),
        forall|i: int|
            0 <= i < path.len() ==> {
                let k = #[trigger] digest::path_key(path, windows)[i];
                &&& path[i] == '\\' ==> k == '/'
                &&& path[i] != '\\' && (!windows || !('A' <= path[i] <= 'Z')) ==> k == path[i]
                &&& path[i] != '\\' && windows && 'A' <= path[i] <= 'Z' ==> k as u32
                    == path[i] as u32 + 32
            },
{
}

/// Bytes are written in two hexadecimal digits each, in small letters, the higher one
/// first.
pub proof fn law_hex_texts(bytes: Seq<u8>, b: u8)
    ensures
        digest::hex_text(seq![]).len() == 0,
        ({
            let t = digest::hex_text(bytes.push(b));
            let before = digest::hex_text(bytes);
            &&& t.len() == before.len() + 2
            &&& t.take(before.len() as int) == before
            &&& crate::scan::hex_digit(t[before.len() as int]) * 16 + crate::scan::hex_digit(
                t[before.len() as int + 1],
            ) == b
            &&& !('A' <= t[before.len() as int] <= 'Z')
            &&& !('A' <= t[before.len() as int + 1] <= 'Z')
        }),
{
    let all = bytes.push(b);
    assert(all.drop_last() =~= bytes);
    assert(all.last() == b);
    let before = digest::hex_text(bytes);
    let t = digest::hex_text(all);
    assert(t =~= before.push(digest::lower_hex((b / 16) as nat)).push(
        digest::lower_hex((b % 16) as nat),
    ));
    assert(t.take(before.len() as int) =~= before);
}

/// A port of an endpoint is a number from 1 to 65535 in digits.
pub proof fn law_endpoint_ports(n: u64, s: Seq<char>)
    ensures
        1 <= n <= 65_535 ==> endpoint::port_of(text::decimal(n as nat)) == Some(n as u16),
        n == 0 || n > 65_535 ==> endpoint::port_of(text::decimal(n as nat)) is None,
        endpoint::port_of(s) is Some ==> s.len() > 0 && forall|i: int|
            0 <= i < s.len() ==> '0' <= #[trigger] s[i] <= '9',
{
    text::law_decimal_reads_back(n as nat);
    if endpoint::port_of(s) is Some {
        assert forall|i: int| 0 <= i < s.len() implies '0' <= #[trigger] s[i] <= '9' by {
            assert(text::is_digit(s[i]));
        }
    }
}

/// A character of a host that a user may name.
pub open spec fn is_host_char(c: char) -> bool {
    c != ':' && c != '/' && c != '?' && c != '#' && c != '@' && c != '\\' && c != '['
}

/// The scheme of an endpoint ends where the first "://" stands.
proof fn lemma_scheme(scheme: Seq<char>, rest: Seq<char>)
    requires
        text::lower(scheme) == "http"@ || text::lower(scheme) == "https"@,
    ensures
        text::find(scheme + "://"@ + rest, "://"@) == Some(scheme.len() as int),
        (scheme + "://"@ + rest).take(scheme.len() as int) == scheme,
        (scheme + "://"@ + rest).skip(scheme.len() as int + 3) == rest,
{
    reveal_strlit("://");
    reveal_strlit("http");
    reveal_strlit("https");
    let sep = "://"@;
    let e = scheme + sep + rest;
    let n = scheme.len() as int;
    assert(!scheme.contains(':')) by {
        if scheme.contains(':') {
            let i = choose|i: int| 0 <= i < scheme.len() && scheme[i] == ':';
            let low = text::lower(scheme);
            assert(low[i] == ':');
            assert(low.len() == 4 || low.len() == 5);
        }
    }
    assert(e.subrange(n, n + 3) =~= sep);
    assert(text::occurs_at(e, sep, n));
    text::lemma_find_from(e, sep, 0);
    let i = text::find(e, sep)->0;
    if i < n {
        assert(e.subrange(i, i + 3)[0] == ':');
        assert(scheme[i] == ':');
    }
    assert(e.take(n) =~= scheme);
    assert(e.skip(n + 3) =~= rest);
}

/// A host without separators, and a port behind a colon, are read as such.
proof fn lemma_authority(host: Seq<char>, port: u64, tail: Seq<char>)
    requires
        host.len() > 0,
        forall|i: int| 0 <= i < host.len() ==> is_host_char(#[trigger] host[i]),
        1 <= port <= 65_535,
        tail.len() > 0 ==> tail[0] == '/' || tail[0] == '?' || tail[0] == '#',
    ensures
        ({
            let rest = host + seq![':'] + text::decimal(port as nat) + tail;
            endpoint::endpoint_host(rest.take(endpoint::authority_end(rest))) == Some(
                (host, text::lower(host), port as u16),
            )
        }),
{
    let d = text::decimal(port as nat);
    let a = host + seq![':'] + d;
    let rest = a + tail;
    text::law_decimal_reads_back(port as nat);
    assert forall|k: int| 0 <= k < a.len() implies !endpoint::ends_authority(#[trigger] a[k]) && a[k]
        != '@' && a[k] != '\\' by {
        if k < host.len() {
            assert(is_host_char(host[k]));
        } else if k > host.len() {
            assert(text::is_digit(d[k - host.len() - 1]));
        }
    }
    assert forall|k: int| 0 <= k < a.len() implies !endpoint::ends_authority(
        #[trigger] rest[k],
    ) by {
        assert(rest[k] == a[k]);
    }
    lemma_authority_end(rest, a.len() as int);
    assert(rest.take(a.len() as int) =~= a);
    assert(a[0] == host[0] && is_host_char(host[0]));
    text::lemma_first_index(a, ':');
    let j = text::first_index(a, ':');
    assert(a[host.len() as int] == ':');
    if j < host.len() {
        assert(is_host_char(host[j]));
    }
    assert(a.take(j) =~= host);
    assert(a.skip(j + 1) =~= d);
    assert(!d.contains(':')) by {
        if d.contains(':') {
            let k = choose|k: int| 0 <= k < d.len() && d[k] == ':';
            assert(text::is_digit(d[k]));
        }
    }
    law_endpoint_ports(port, d);
}

/// An endpoint of this machine is kept as its scheme, host and port, in small letters,
/// without what follows; one of another machine is refused as such.
pub proof fn law_local_endpoints_are_kept(
    scheme: Seq<char>,
    host: Seq<char>,
    port: u64,
    tail: Seq<char>,
)
    requires
        text::lower(scheme) == "http"@ || text::lower(scheme) == "https"@,
        host.len() > 0,
        forall|i: int| 0 <= i < host.len() ==> is_host_char(#[trigger] host[i]),
        1 <= port <= 65_535,
        tail.len() > 0 ==> tail[0] == '/' || tail[0] == '?' || tail[0] == '#',
        ({
            let e = scheme + "://"@ + host + seq![':'] + text::decimal(port as nat) + tail;
            text::trim(e) == e && paths::is_plain(e)
        }),
    ensures
        ({
            let e = scheme + "://"@ + host + seq![':'] + text::decimal(port as nat) + tail;
            if text::lower(host) == "localhost"@ || address::loopback_text(host) is Some {
                endpoint::normalized_endpoint(e) == Ok::<Seq<char>, DiscoveryDiagnosticCode>(
                    text::lower(scheme) + "://"@ + text::lower(host) + ":"@ + text::decimal(
                        port as nat,
                    ),
                )
            } else {
                endpoint::normalized_endpoint(e) == Err::<Seq<char>, DiscoveryDiagnosticCode>(
                    DiscoveryDiagnosticCode::NonLoopbackRejected,
                )
            }
        }),
{
    let d = text::decimal(port as nat);
    let rest = host + seq![':'] + d + tail;
    let e = scheme + "://"@ + host + seq![':'] + d + tail;
    assert(e =~= scheme + "://"@ + rest);
    lemma_scheme(scheme, rest);
    lemma_authority(host, port, tail);
}

proof fn lemma_authority_end(s: Seq<char>, n: int)
    requires
        0 <= n <= s.len(),
        forall|i: int| 0 <= i < n ==> !endpoint::ends_authority(#[trigger] s[i]),
        n < s.len() ==> endpoint::ends_authority(s[n]),
    ensures
        endpoint::authority_end(s) == n,
    decreases s.len(),
{
    if n > 0 {
        let t = s.drop_first();
        assert(forall|i: int| 0 <= i < t.len() ==> #[trigger] t[i] == s[i + 1]);
        lemma_authority_end(t, n - 1);
    }
}

/// What is no plain text, has white space around it, or names no scheme, another scheme, a
/// user or no port, is no endpoint.
pub proof fn law_other_endpoints_are_refused(e: Seq<char>)
    ensures
        text::trim(e) != e || !paths::is_plain(e) || !text::contains_text(e, "://"@)
            ==> endpoint::normalized_endpoint(e) == Err::<Seq<char>, DiscoveryDiagnosticCode>(
            DiscoveryDiagnosticCode::InvalidSourceRecord,
        ),
        endpoint::normalized_endpoint(e) matches Ok(n) ==> text::starts_with(n, "http://"@)
            || text::starts_with(n, "https://"@),
        endpoint::normalized_endpoint(e) matches Err(code) ==> code
            == DiscoveryDiagnosticCode::InvalidSourceRecord || code
            == DiscoveryDiagnosticCode::NonLoopbackRejected,
{
    text::lemma_find_from(e, "://"@, 0);
    if let Some(i) = text::find(e, "://"@) {
        assert(text::occurs_at(e, "://"@, i));
    }
    if let Ok(n) = endpoint::normalized_endpoint(e) {
        reveal_strlit("://");
        reveal_strlit("http");
        reveal_strlit("https");
        reveal_strlit("http://");
        reveal_strlit("https://");
        assert("http"@ + "://"@ =~= "http://"@);
        assert("https"@ + "://"@ =~= "https://"@);
        let i = text::find(e, "://"@)->0;
        let scheme = text::lower(e.take(i));
        let tail = n.skip(scheme.len() as int + 3);
        assert(n =~= (scheme + "://"@) + tail);
        text_laws::law_texts_stand_in_texts(n, scheme + "://"@, tail);
    }
}

/// A registered program is looked at once in each hive and view: two records have the same
/// key only where hive and view are the same and their paths have the same key.
pub proof fn law_registered_programs_have_keys(
    a: WindowsAppPathRecord,
    b: WindowsAppPathRecord,
    windows: bool,
)
    ensures
        passive::app_path_key(a, windows) == passive::app_path_key(b, windows) <==> a.hive == b.hive
            && a.view == b.view && digest::path_key(a.executable_path@, windows)
            == digest::path_key(b.executable_path@, windows),
{
    reveal_strlit("CurrentUser");
    reveal_strlit("LocalMachine");
    reveal_strlit("Native");
    reveal_strlit("Wow6432");
    reveal_strlit(":");
    let ha = passive::hive_text(a.hive);
    let hb = passive::hive_text(b.hive);
    let va = passive::view_text(a.view);
    let vb = passive::view_text(b.view);
    let ka = passive::app_path_key(a, windows);
    let kb = passive::app_path_key(b, windows);
    if ka == kb {
        assert(ka[0] == ha[0]);
        assert(kb[0] == hb[0]);
        assert(a.hive == b.hive);
        let n = ha.len() as int + 1;
        assert(ka[n] == va[0]);
        assert(kb[n] == vb[0]);
        assert(a.view == b.view);
        let m = n + va.len() as int + 1;
        assert(ka.skip(m) =~= digest::path_key(a.executable_path@, windows));
        assert(kb.skip(m) =~= digest::path_key(b.executable_path@, windows));
    }
}

} // verus!
