//! What holds of every runtime that is taken for the recorded one: where it listens, what
//! was asked of it first, and what an answer that does not fit comes to.

use vstd::prelude::*;
use vstd::string::*;

use crate::address;
use crate::address::LoopbackAddress;
use crate::error;
use crate::error::{ConnectorRuntimeFailure, RuntimeError};
use crate::event;
use crate::event_laws;
use crate::event::{RuntimeEvent, RuntimeRequest};
use crate::http;
use crate::http::LocalHttpEndpoint;
use crate::http_laws;
use crate::json;
use crate::json::Json;
use crate::kun_discovery;
use crate::kun_discovery::LocalKunRecord;
use crate::kun_frames;
use crate::kun_record;
use crate::kun_record::{KunRuntimeBuildMetadata, MetadataRead};
use crate::kun_resolve;
use crate::kun_resolve::{KunBuildChecked, KunConnection};
use crate::runtimes::{KunSharedRuntimeConfig, TransportBackedRuntime};
use crate::scan;
use crate::text;

verus! {

/// A group of an address is one to four hex digits, and nothing else is one: its value is
/// that of the digits before the last one, moved up one place, and of the last digit.
pub proof fn law_groups_are_short_hex_numbers(s: Seq<char>, c: char)
    ensures
        address::group(s) is Some <==> 1 <= s.len() <= 4 && (forall|i: int|
            0 <= i < s.len() ==> ('0' <= #[trigger] s[i] <= '9' || 'a' <= s[i] <= 'f' || 'A' <= s[i]
                <= 'F')),
        address::group(seq!['0']) == Some(0u16),
        '0' <= c <= '9' ==> address::group(seq![c]) == Some((c as u32 - '0' as u32) as u16),
        'a' <= c <= 'f' ==> address::group(seq![c]) == Some((c as u32 - 'a' as u32 + 10) as u16),
        'A' <= c <= 'F' ==> address::group(seq![c]) == Some((c as u32 - 'A' as u32 + 10) as u16),
        1 <= s.len() <= 3 && address::group(s) is Some && '0' <= c <= '9' ==> address::group(
            s.push(c),
        ) == Some((address::group(s)->0 * 16 + (c as u32 - '0' as u32)) as u16),
{
    reveal_with_fuel(scan::hex_value, 2);
    let one = seq![c];
    assert(one.drop_last() =~= seq![]);
    let zero = seq!['0'];
    assert(zero.drop_last() =~= seq![]);
    assert(forall|i: int|
        0 <= i < s.len() ==> #[trigger] scan::is_hex_digit(s[i]) == ('0' <= s[i] <= '9' || 'a'
            <= s[i] <= 'f' || 'A' <= s[i] <= 'F'));
    let longer = s.push(c);
    assert(longer.drop_last() =~= s);
    if 1 <= s.len() <= 3 && address::group(s) is Some && '0' <= c <= '9' {
        assert forall|i: int| 0 <= i < longer.len() implies scan::is_hex_digit(
            #[trigger] longer[i],
        ) by {
            if i < s.len() {
                assert(longer[i] == s[i]);
            }
        }
        lemma_short_hex_fits(s);
    }
}

proof fn lemma_short_hex_fits(s: Seq<char>)
    requires
        s.len() <= 4,
        scan::all_hex(s),
    ensures
        scan::hex_value(s) <= 0xffff,
        s.len() <= 3 ==> scan::hex_value(s) <= 0xfff,
{
    reveal_with_fuel(scan::hex_value, 5);
}

/// A long address has eight groups. Written with two colons next to each other it leaves
/// out at least one group, which is zero: the groups before stand first and those behind
/// stand last.
pub proof fn law_long_addresses_have_eight_groups(s: Seq<char>)
    ensures
        address::ipv6(s) matches Some(g) ==> g.len() == 8,
        text::find(s, "::"@) is None && address::groups(s, true) is Some && address::groups(
            s,
            true,
        )->0.len() == 8 ==> address::ipv6(s) == address::groups(s, true),
        text::find(s, "::"@) matches Some(i) ==> (address::ipv6(s) matches Some(g) ==> {
            let head = address::groups(s.take(i), false);
            let tail = address::groups(s.skip(i + 2), true);
            &&& head is Some
            &&& tail is Some
            &&& head->0.len() + tail->0.len() < 8
            &&& forall|k: int| 0 <= k < head->0.len() ==> #[trigger] g[k] == head->0[k]
            &&& forall|k: int|
                head->0.len() <= k < 8 - tail->0.len() ==> #[trigger] g[k] == 0
            &&& forall|k: int|
                8 - tail->0.len() <= k < 8 ==> #[trigger] g[k] == tail->0[k - (8 - tail->0.len())]
        }),
        text::find(s, "::"@) matches Some(i) && address::groups(s.take(i), false) is Some
            && address::groups(s.skip(i + 2), true) is Some && address::groups(
            s.take(i),
            false,
        )->0.len() + address::groups(s.skip(i + 2), true)->0.len() < 8 ==> address::ipv6(
            s,
        ) is Some,
{
}

/// Pieces that are all groups stand in an address in their order.
pub proof fn law_pieces_are_groups(pieces: Seq<Seq<char>>, ending: bool)
    requires
        forall|i: int| 0 <= i < pieces.len() ==> address::group(#[trigger] pieces[i]) is Some,
    ensures
        address::piece_groups(pieces, ending) matches Some(g) && g.len() == pieces.len() && (forall|
            i: int,
        |
            0 <= i < pieces.len() ==> Some(#[trigger] g[i]) == address::group(pieces[i])),
    decreases pieces.len(),
{
    if pieces.len() > 0 {
        let before = pieces.drop_last();
        assert(forall|i: int| 0 <= i < before.len() ==> #[trigger] before[i] == pieces[i]);
        law_pieces_are_groups(before, false);
        assert(pieces.last() == pieces[pieces.len() - 1]);
    }
}

/// The text of a local address tells the short kind by its four numbers; the long kind has
/// one text, which stands in brackets before a port.
pub proof fn law_local_addresses_are_written_out(b: u16, c: u16, d: u16, port: u16)
    ensures
        address::address_name(LoopbackAddress::V4(b, c, d)) == "127."@ + text::decimal(b as nat)
            + seq!['.'] + text::decimal(c as nat) + seq!['.'] + text::decimal(d as nat),
        address::address_name(LoopbackAddress::V6) == seq![':', ':', '1'],
        address::authority_text(LoopbackAddress::V4(b, c, d), port) == address::address_name(
            LoopbackAddress::V4(b, c, d),
        ) + seq![':'] + text::decimal(port as nat),
        address::authority_text(LoopbackAddress::V6, port) == seq!['['] + address::address_name(
            LoopbackAddress::V6,
        ) + seq![']', ':'] + text::decimal(port as nat),
{
    reveal_strlit(".");
    reveal_strlit("::1");
    reveal_strlit("[::1]");
    reveal_strlit(":");
    assert("."@ =~= seq!['.']);
    assert(":"@ =~= seq![':']);
    assert("::1"@ =~= seq![':', ':', '1']);
    let n = text::decimal(port as nat);
    assert(address::authority_text(LoopbackAddress::V6, port) =~= seq!['[']
        + address::address_name(LoopbackAddress::V6) + seq![']', ':'] + n);
}

/// A place that was found has the port that was named. A host that is an address is that
/// address; any other is one that its name stands for on this machine, and a long one only
/// where the name stands for no short one.
pub proof fn law_places_are_where_they_were_named(
    host: Seq<char>,
    port: u16,
    resolved: Seq<Vec<u16>>,
    e: LocalHttpEndpoint,
    i: int,
)
    requires
        http::resolves_to(host, port, resolved, e),
    ensures
        e.port == port,
        address::ip_parts(text::trim(host)) matches Some(parts) ==> address::loopback(parts)
            == Some(e.address),
        address::ip_parts(text::trim(host)) is None ==> {
            &&& text::lower(text::trim(host)) == "localhost"@
            &&& exists|k: int|
                0 <= k < resolved.len() && address::loopback((#[trigger] resolved[k])@) == Some(
                    e.address,
                )
            &&& 0 <= i < resolved.len() && (address::loopback(resolved[i]@) matches Some(a)
                && a is V4) ==> e.address is V4
        },
{
    http_laws::law_only_loopback_addresses_count(resolved, e.address);
    if address::ip_parts(text::trim(host)) is None && 0 <= i < resolved.len() {
        if let Some(a) = address::loopback(resolved[i]@) {
            http_laws::law_only_loopback_addresses_count(resolved, a);
            let all = http::loopbacks(resolved);
            assert(all.contains(a));
            let k = choose|k: int| 0 <= k < all.len() && all[k] == a;
            assert(!http::preferred(all[k], e.address, port));
        }
    }
}

/// An address text is read to its port on this machine, or refused as the wrong runtime's.
pub proof fn law_address_texts_are_read(
    value: &str,
    resolved: &Vec<Vec<u16>>,
    r: Result<LocalHttpEndpoint, RuntimeError>,
)
    requires
        call_ensures(LocalHttpEndpoint::parse, (value, resolved), r),
    ensures
        r matches Ok(e) ==> (http::base_host_port(value@) matches Some((_, port)) && e.port == port
            && port > 0),
        r matches Err(e) ==> e@ == error::ErrorView::Protocol("kun_runtime_identity_mismatch"@),
        http::base_host_port(value@) is None ==> r is Err,
        http::base_host_port(value@) matches Some((host, _)) ==> {
            &&& http::host_rule(host) is Address ==> r is Ok
            &&& http::host_rule(host) is Refused ==> r is Err
        },
{
}

/// A runtime listens where its record's address and its record's host and port agree.
pub proof fn law_address_and_port_of_a_record_agree(
    record: kun_record::KunRecordView,
    resolved: Seq<Vec<u16>>,
    e: LocalHttpEndpoint,
)
    ensures
        kun_resolve::listens_at(record, resolved, e) ==> {
            &&& e.port == record.port
            &&& http::base_host_port(record.base_url) matches Some((host, port)) && port
                == record.port && http::resolves_to(host, record.port, resolved, e)
            &&& http::resolves_to(record.host, record.port, resolved, e)
        },
        http::base_host_port(record.base_url) matches Some((_, port)) && port != record.port
            ==> !kun_resolve::listens_at(record, resolved, e),
        http::base_host_port(record.base_url) is None ==> !kun_resolve::listens_at(
            record,
            resolved,
            e,
        ) && !kun_resolve::base_is_resolvable(record, resolved),
        http::host_rule(record.host) is Refused ==> !kun_resolve::listens_at(record, resolved, e),
{
}

/// A runtime that told of itself is connected to as it was recorded, under the directory
/// that was asked for; one that is not the recorded one is refused.
pub proof fn law_connection_keeps_what_was_recorded(
    checked: KunBuildChecked,
    data_dir: String,
    info: &Json,
    reported_dir: &str,
    windows: bool,
    r: Result<KunConnection, RuntimeError>,
)
    requires
        checked.valid(),
        call_ensures(KunBuildChecked::on_info, (checked, data_dir, info, reported_dir, windows), r),
    ensures
        r matches Ok(c) ==> {
            &&& c@ == checked@
            &&& c.place() == checked.place()
            &&& c.home() == data_dir@
        },
        r matches Err(e) ==> e@ == error::ErrorView::Protocol("kun_runtime_identity_mismatch"@),
{
}

/// Build files that are taken are of the build and version that were asked for.
pub proof fn law_build_is_the_one_asked_for(
    reads: &Vec<(MetadataRead, bool)>,
    build_id: &str,
    service_version: &str,
    expected: &Option<String>,
    r: Result<KunRuntimeBuildMetadata, RuntimeError>,
)
    requires
        call_ensures(
            kun_record::runtime_build_metadata,
            (reads, build_id, service_version, expected),
            r,
        ),
    ensures
        r matches Ok(m) ==> m.build_id@ == build_id@ && m.service_version@ == service_version@
            && reads@.len() > 0,
        r matches Err(e) ==> e@ == error::ErrorView::Protocol("kun_runtime_identity_mismatch"@),
        reads@.len() == 0 ==> r is Err,
{
}

/// An interrupt went well exactly where its answer's status says so; a refused sign-in is
/// told as one, and any other status as a runtime that cannot be had.
pub proof fn law_interrupts_go_by_their_status(status: u16, r: Result<(), RuntimeError>)
    requires
        call_ensures(kun_frames::interrupt_result, (status,), r),
    ensures
        r is Ok <==> 200 <= status <= 299,
        status == 401 || status == 403 ==> (r matches Err(e) && e@
            == error::ErrorView::Authentication),
        !(200 <= status <= 299) && status != 401 && status != 403 ==> (r matches Err(e) && e@
            == error::ErrorView::Transport("kun_shared_runtime_unavailable"@)),
{
}

/// A runtime that was found is asked as it was found: under its directory, with the version
/// that it told or else the one that is expected, and for no longer than five seconds.
pub proof fn law_found_runtimes_are_asked_as_found(
    record: &LocalKunRecord,
    install_dir: &Option<String>,
    expected: &str,
    request_timeout_ns: u128,
    r: KunSharedRuntimeConfig,
)
    requires
        call_ensures(
            kun_discovery::kun_verification_config,
            (record, install_dir, expected, request_timeout_ns),
            r,
        ),
    ensures
        text::opt_text(r.data_dir) == record@.directory,
        text::opt_text(r.install_dir) == text::opt_text(*install_dir),
        record@.service_version matches Some(v) ==> r.expected_service_version@ == v,
        record@.service_version is None ==> r.expected_service_version@ == expected@,
        r.default_model is None,
        r.expected_build_id is None,
        r.request_timeout_ns <= request_timeout_ns,
        r.request_timeout_ns <= 5_000_000_000,
        request_timeout_ns <= 5_000_000_000 ==> r.request_timeout_ns == request_timeout_ns,
        request_timeout_ns >= 5_000_000_000 ==> r.request_timeout_ns == 5_000_000_000,
{
}

/// A stopped run is told as stopped by the user, at no time of its own.
pub proof fn law_stopped_runs_say_who_stopped_them(
    runtime_id: Seq<char>,
    request: &RuntimeRequest,
    thread_id: Option<Seq<char>>,
    turn_id: Option<Seq<char>>,
)
    ensures
        ({
            let e = event::cancelled(runtime_id, request, thread_id, turn_id);
            &&& json::text_field(e.payload, "reason"@) == Some("user_cancelled"@)
            &&& e.event_type == "execution.cancelled"@
            &&& e.timestamp_ms == 0
            &&& e.sequence == 0
        }),
{
    event_laws::law_end_is_of_its_run(
        runtime_id,
        "execution.cancelled"@,
        request,
        thread_id,
        turn_id,
        0,
        Some("user_cancelled"@),
    );
}

/// A cancellation that was taken is told as the run's own end, with the ticket of the run
/// where it is under way; one that was refused is told as it was refused.
pub proof fn law_cancellations_are_told_as_answered<T>(
    runtime: &TransportBackedRuntime<T>,
    request: &RuntimeRequest,
    answer: Result<(), RuntimeError>,
    r: Result<(RuntimeEvent, Option<u64>), RuntimeError>,
)
    requires
        call_ensures(TransportBackedRuntime::<T>::cancel_answered, (runtime, request, answer), r),
    ensures
        answer is Ok <==> r is Ok,
        answer matches Err(e) ==> (r matches Err(x) && x@ == e@),
        r matches Ok(got) ==> {
            &&& got.0@.event_type == "execution.cancelled"@
            &&& got.0@.execution_run_id == request.execution_run_id@
            &&& got.0@.runtime_id == runtime.id_text()
            &&& json::text_field(got.0@.payload, "reason"@) == Some("user_cancelled"@)
            &&& got.1 is Some <==> runtime@.active.dom().contains(request.execution_run_id@)
            &&& got.1 matches Some(t) ==> t == runtime@.active[request.execution_run_id@]
        },
{
    law_stopped_runs_say_who_stopped_them(runtime.id_text(), request, None, None);
}

/// No two failures say the same, and each says what it is of: the provider, the shared
/// runtime, or the connector's runtime.
pub proof fn law_failures_say_what_failed(a: ConnectorRuntimeFailure, b: ConnectorRuntimeFailure)
    ensures
        a.message_text() == b.message_text() ==> a == b,
        a.message_text() == match a {
            ConnectorRuntimeFailure::ProviderAuthenticationFailed => "provider"@
                + " authentication failed"@,
            ConnectorRuntimeFailure::SharedRuntimeUnavailable => "shared Runtime"@
                + " is unavailable"@,
            ConnectorRuntimeFailure::RuntimeUnavailable => "connector Runtime"@
                + " is unavailable"@,
            ConnectorRuntimeFailure::CatalogUnavailable => "connector Runtime catalog"@
                + " is unavailable"@,
            ConnectorRuntimeFailure::RuntimeAuthenticationFailed => "connector Runtime"@
                + " authentication failed"@,
            ConnectorRuntimeFailure::RuntimeIdentityMismatch => "connector Runtime identity"@
                + " does not match"@,
        },
{
    reveal_strlit("connector Runtime is unavailable");
    reveal_strlit("shared Runtime is unavailable");
    reveal_strlit("connector Runtime authentication failed");
    reveal_strlit("connector Runtime identity does not match");
    reveal_strlit("connector Runtime catalog is unavailable");
    reveal_strlit("provider authentication failed");
    reveal_strlit("provider");
    reveal_strlit(" authentication failed");
    reveal_strlit("shared Runtime");
    reveal_strlit(" is unavailable");
    reveal_strlit("connector Runtime");
    reveal_strlit("connector Runtime catalog");
    reveal_strlit("connector Runtime identity");
    reveal_strlit(" does not match");
    assert("provider authentication failed"@ =~= "provider"@ + " authentication failed"@);
    assert("shared Runtime is unavailable"@ =~= "shared Runtime"@ + " is unavailable"@);
    assert("connector Runtime is unavailable"@ =~= "connector Runtime"@ + " is unavailable"@);
    assert("connector Runtime catalog is unavailable"@ =~= "connector Runtime catalog"@
        + " is unavailable"@);
    assert("connector Runtime authentication failed"@ =~= "connector Runtime"@
        + " authentication failed"@);
    assert("connector Runtime identity does not match"@ =~= "connector Runtime identity"@
        + " does not match"@);
}

} // verus!
