//! What holds of whatever the functions answer that decide one thing: each law takes what a
//! function was given and what it answered.

use vstd::prelude::*;
use vstd::string::*;

use crate::adapters;
use crate::adapters::{
    AcpMockRuntime, ConfiguredAdapter, HttpCustomRuntime, MockRuntime, OpenAiCompatibleRuntime,
    RuntimeAdapter, UnconfiguredRuntime,
};
use crate::codex_launch;
use crate::deadline::TransportDeadline;
use crate::discovery;
use crate::discovery::{
    DiscoveryEnvironment, DiscoveryPolicy, FileProbe, LocalConnectorDiscoveryConfig,
    ManagedProviderWorkerKind, WindowsPassiveDiscoveryConfig,
};
use crate::error;
use crate::error::RuntimeError;
use crate::event::{RuntimeCapabilities, RuntimeEvent, RuntimeRequest, WorkspaceAccess};
use crate::http;
use crate::json;
use crate::json::Json;
use crate::kun_cancel;
use crate::kun_discovery;
use crate::kun_discovery::PassiveKunRuntimeRecord;
use crate::kun_record;
use crate::kun_record::KunRecord;
use crate::kun_resolve;
use crate::observation::DiscoveryDiagnosticCode;
use crate::passive;
use crate::passive::ListenerRow;
use crate::rpc;
use crate::rpc::{RpcStep, StdioLine};
use crate::runner;
use crate::runner::{RunnerStep, RunnerWait};
use crate::tables;
use crate::tables::{AccessStatus, TableStatus, TableStep};
use crate::text;

verus! {

/// The answers from 200 to 299 are successes.
pub proof fn law_successes(status: u16, r: bool)
    requires
        call_ensures(http::is_success, (status,), r),
    ensures
        r <==> 200 <= status <= 299,
{
}

/// A runner that was stopped is ended as out of time, whatever it does. One that runs is
/// waited for; what it has written is taken only if it ended with success.
pub proof fn law_runners_are_waited_for(stopped: bool, wait: RunnerWait, r: RunnerStep)
    requires
        call_ensures(runner::runner_step, (stopped, wait), r),
    ensures
        stopped ==> r == RunnerStep::End(DiscoveryDiagnosticCode::ProviderTimeout),
        r is Take <==> !stopped && wait == RunnerWait::Exited(true),
        r is Wait <==> !stopped && wait is Running,
        r is Fail <==> !stopped && wait == RunnerWait::Exited(false),
        !stopped && wait is Lost ==> r == RunnerStep::End(DiscoveryDiagnosticCode::ProviderFailed),
{
}

/// What a runner has written is taken whole if it is not too long, and not at all if it is.
pub proof fn law_output_is_bounded(
    bytes: Vec<u8>,
    max: usize,
    r: Result<Vec<u8>, DiscoveryDiagnosticCode>,
)
    requires
        call_ensures(runner::bounded_output, (bytes, max), r),
    ensures
        bytes@.len() <= max ==> (r matches Ok(b) && b@ == bytes@),
        bytes@.len() > max ==> r == Err::<Vec<u8>, DiscoveryDiagnosticCode>(
            DiscoveryDiagnosticCode::OversizedInput,
        ),
{
}

/// A message with the id of a request and a result or an error is its answer; a request of
/// the server is replied to, with its own id; anything else is kept.
pub proof fn law_messages_are_sorted(id: u64, m: &Json, r: RpcStep)
    requires
        call_ensures(rpc::rpc_message, (id, m), r),
        json::field(m.tree(), "id"@) is Some,
    ensures
        json::field(m.tree(), "id"@) == Some(json::JsonTree::Unsigned(id)) && json::field(
            m.tree(),
            "result"@,
        ) is Some ==> r is Answer,
        json::field(m.tree(), "id"@) == Some(json::JsonTree::Unsigned(id)) && json::field(
            m.tree(),
            "error"@,
        ) is Some ==> (r matches RpcStep::Answer(a) && a is Err),
        r matches RpcStep::Answer(Ok(result)) ==> json::field(m.tree(), "result"@) == Some(
            result.tree(),
        ) && json::field(m.tree(), "error"@) is None,
        json::field(m.tree(), "result"@) is None && json::field(m.tree(), "error"@) is None
            && json::text_field(m.tree(), "method"@) is Some ==> (r matches RpcStep::Reply(reply)
            && json::field(reply.tree(), "id"@) == json::field(m.tree(), "id"@)),
        json::field(m.tree(), "result"@) is None && json::field(m.tree(), "error"@) is None
            && json::text_field(m.tree(), "method"@) is None ==> r is Keep,
{
    if let Some(method) = json::text_field(m.tree(), "method"@) {
        crate::rpc_laws::law_reply_goes_to_its_request(m.tree(), method);
    }
}

/// A line of at most 131072 bytes that is not blank is read as JSON; a blank one is passed
/// over, and a longer one or one that is no JSON is broken.
pub proof fn law_lines_are_read_as_json(line: &str, r: StdioLine)
    requires
        call_ensures(rpc::read_stdio_line, (line,), r),
    ensures
        text::byte_len(line@) > 131_072 ==> r is Broken,
        text::byte_len(line@) <= 131_072 && text::trim(line@).len() == 0 ==> r is Blank,
        text::byte_len(line@) <= 131_072 && text::trim(line@).len() > 0 ==> match json::json_text(
            text::trim(line@),
        ) {
            Ok(t) => r matches StdioLine::Value(v) && v.tree() == t,
            Err(_) => r is Broken,
        },
{
}

/// A notification names its method and parameters and has no id: nothing answers it.
pub proof fn law_notifications_have_no_id(method: &str, params: Json, r: Json)
    requires
        call_ensures(rpc::notification_json, (method, params), r),
    ensures
        json::text_field(r.tree(), "method"@) == Some(method@),
        json::field(r.tree(), "params"@) == Some(params.tree()),
        json::text_field(r.tree(), "jsonrpc"@) == Some("2.0"@),
        json::field(r.tree(), "id"@) is None,
{
    reveal_strlit("method");
    reveal_strlit("params");
    reveal_strlit("jsonrpc");
    reveal_strlit("id");
    assert("method"@.len() == 6 && "params"@.len() == 6 && "jsonrpc"@.len() == 7 && "id"@.len()
        == 2);
    assert("method"@[0] != "params"@[0]);
    reveal_with_fuel(json::member, 4);
}

/// Only a runtime that is not there may still be starting.
pub proof fn law_only_absence_is_a_race(e: &RuntimeError, r: bool)
    requires
        call_ensures(kun_record::is_startup_race, (e,), r),
    ensures
        r <==> e@ == error::ErrorView::Transport("kun_shared_runtime_unavailable"@),
{
}

/// A runtime that may still be starting is asked again after 25 milliseconds, or when the
/// time is over; any other failure stands.
pub proof fn law_starting_runtimes_are_asked_again(
    e: &RuntimeError,
    left: Option<u128>,
    r: Option<u128>,
)
    requires
        call_ensures(kun_resolve::retry_pause, (e, left), r),
    ensures
        e@ != error::ErrorView::Transport("kun_shared_runtime_unavailable"@) ==> r is None,
        left is None ==> r is None,
        e@ == error::ErrorView::Transport("kun_shared_runtime_unavailable"@) ==> (
        left matches Some(n) ==> (r matches Some(p) && p <= n && p <= 25_000_000 && (p == n || p
            == 25_000_000))),
{
}

/// The data of Kun are where they are configured to be, or else named to be, or else below
/// the home directory.
pub proof fn law_data_are_where_they_are_configured(
    configured: &Option<String>,
    named: &Option<String>,
    home: &Option<String>,
    local: &str,
    r: String,
)
    requires
        call_ensures(kun_resolve::kun_data_dir, (configured, named, home, local), r),
    ensures
        *configured matches Some(d) ==> r@ == d@,
        *configured is None ==> (*named matches Some(d) ==> r@ == d@),
        *configured is None && *named is None ==> (*home matches Some(d) ==> r@ == d@),
        *configured is None && *named is None && *home is None ==> r@ == local@,
{
}

/// The version of a runtime is told with its build.
pub proof fn law_version_is_told_with_the_build(record: &KunRecord, r: String)
    requires
        call_ensures(kun_record::runtime_version, (record,), r),
    ensures
        r@ == record.service_version@ + ":"@ + record.build_id@,
{
}

/// Neither way of looking around asks anything of what it finds, or leaves this machine.
pub proof fn law_looking_around_stays_passive(
    local: &LocalConnectorDiscoveryConfig,
    a: DiscoveryPolicy,
    windows: &WindowsPassiveDiscoveryConfig,
    b: DiscoveryPolicy,
)
    requires
        call_ensures(discovery::local_policy, (local,), a),
        call_ensures(discovery::passive_policy, (windows,), b),
    ensures
        !a.allow_active_verification,
        !a.allow_lan,
        a.max_results == 32,
        a.timeout_ms == discovery::whole_ms(local.request_timeout_ns),
        !b.allow_active_verification,
        !b.allow_lan,
        b.max_results == windows.max_results,
        b.timeout_ms == discovery::whole_ms(windows.request_timeout_ns),
{
}

/// What is looked for by default: 32 results, 256 directories with 64 programs each, two
/// seconds; the tables of Windows are read on Windows only, and nothing is made up.
pub proof fn law_default_scan(path: Option<String>, on_windows: bool, r: WindowsPassiveDiscoveryConfig)
    requires
        call_ensures(WindowsPassiveDiscoveryConfig::for_path, (path, on_windows), r),
    ensures
        r.path_env == path,
        r.max_results == 32,
        r.max_path_entries == 256,
        r.max_candidates_per_path_entry == 64,
        r.request_timeout_ns == 2_000_000_000,
        r.use_real_app_paths == on_windows,
        r.use_real_packages == on_windows,
        r.use_real_loopback == on_windows,
        r.app_path_records@.len() == 0,
        r.package_records@.len() == 0,
        r.loopback_records@.len() == 0,
        r.explicit_sources@.len() == 0,
{
}

/// What is looked for on this machine comes from its environment.
pub proof fn law_environment_says_where_to_look(
    env: DiscoveryEnvironment,
    on_windows: bool,
    r: LocalConnectorDiscoveryConfig,
)
    requires
        call_ensures(LocalConnectorDiscoveryConfig::from_environment, (env, on_windows), r),
    ensures
        r@.codex_binary_paths == discovery::codex_paths(env, on_windows),
        r@.kun_data_dirs.len() == 1,
        env.kun_data_dir matches Some(d) ==> r@.kun_data_dirs[0] == d@,
        env.kun_data_dir is None ==> (env.home_data_dir matches Some(d) ==> r@.kun_data_dirs[0]
            == d@),
        env.kun_data_dir is None && env.home_data_dir is None ==> r@.kun_data_dirs[0]
            == env.local_data_dir@,
        env.kun_install_dir matches Some(d) ==> r@.kun_install_dirs == seq![d@],
        env.kun_install_dir is None ==> r@.kun_install_dirs.len() == 0,
        r@.kun_expected_service_version == "0.2.34"@,
        r@.request_timeout_ns == 2_000_000_000,
{
}

/// A worker that succeeded exits with zero, and one that did not with two.
pub proof fn law_workers_exit_as_they_ended(result: &Result<(), DiscoveryDiagnosticCode>, r: i32)
    requires
        call_ensures(discovery::worker_exit_code, (result,), r),
    ensures
        *result is Ok <==> r == 0,
        *result is Err <==> r == 2,
{
}

/// The first Codex binary that is a file is looked at, unless nothing is wanted or the scan
/// was stopped.
pub proof fn law_first_codex_file_is_looked_at(
    max: usize,
    stopped: bool,
    files: &Vec<bool>,
    r: Option<usize>,
)
    requires
        call_ensures(discovery::codex_to_observe, (max, stopped, files), r),
    ensures
        max == 0 || stopped ==> r is None,
        r matches Some(i) ==> i < files@.len() && files@[i as int] && forall|k: int|
            0 <= k < i ==> !#[trigger] files@[k],
{
}

/// The workers for what is known, and for what Windows knows.
pub proof fn law_workers(a: Vec<ManagedProviderWorkerKind>, b: Vec<ManagedProviderWorkerKind>)
    requires
        call_ensures(discovery::known_workers, (), a),
        call_ensures(discovery::passive_workers, (), b),
    ensures
        a@.len() == 2,
        a@[0] is Codex,
        a@[1] is Kun,
        b@.len() == 6,
        b@[0] is WindowsPath,
        b@[1] is WindowsAppPaths,
        b@[2] is WindowsPackages,
        b@[3] is WindowsRunnerInstallations,
        b@[4] is WindowsLoopbackListeners,
        b@[5] is ExplicitSources,
{
}

/// A worker for tests is taken if it is a regular file and no link; without one the real
/// worker is taken.
pub proof fn law_test_workers_are_checked(
    probe: Option<&FileProbe>,
    given: Option<String>,
    r: Option<String>,
)
    requires
        call_ensures(discovery::local_discovery_worker_executable, (probe, given), r),
    ensures
        probe is None ==> text::opt_text(r) == text::opt_text(given),
        probe matches Some(p) ==> (p.absolute && !p.reparse && p.regular ==> text::opt_text(r)
            == text::opt_text(p.canonical)) && (!p.absolute || p.reparse || !p.regular ==> r
            is None),
{
}

/// What could not be reached has gone, or was denied, or is not in order.
pub proof fn law_failed_access_is_told(status: AccessStatus, r: DiscoveryDiagnosticCode)
    requires
        call_ensures(tables::io_diagnostic_code, (status,), r),
    ensures
        status is NotFound <==> r == DiscoveryDiagnosticCode::SourceDisappeared,
        status is Denied <==> r == DiscoveryDiagnosticCode::AccessDenied,
        status is Done || status is Failed <==> r == DiscoveryDiagnosticCode::InvalidSourceRecord,
{
}

/// A table is read once its size is known; where there is none, nothing is.
pub proof fn law_tables_are_read_by_their_size(status: TableStatus, size: u32, r: TableStep)
    requires
        call_ensures(tables::table_step, (status, size), r),
    ensures
        r is Read <==> status is TooSmall && size > 0,
        r is Skip <==> status is Done,
        r is Failed <==> status is Failed || (status is TooSmall && size == 0),
{
}

/// The port in a table stands with its two bytes exchanged.
pub proof fn law_ports_stand_exchanged(raw: u32, r: u16)
    requires
        call_ensures(tables::port_of_field, (raw,), r),
    ensures
        r / 256 == raw % 256,
        r % 256 == (raw / 256) % 256,
{
}

/// A file is a program, on Windows, by its extension alone, in whatever letters.
pub proof fn law_programs_on_windows(extension: Option<&str>, on_windows: bool, r: bool)
    requires
        call_ensures(passive::is_windows_executable_file, (extension, on_windows), r),
    ensures
        !on_windows ==> r,
        on_windows && extension is None ==> !r,
        on_windows ==> (extension matches Some(e) ==> (r <==> text::lower(e@) == "exe"@)),
{
    reveal_strlit("exe");
    let x = "exe"@;
    assert forall|i: int| 0 <= i < x.len() implies text::lower_char(#[trigger] x[i]) == x[i] by {}
    assert(text::lower(x) =~= x);
}

/// A row of the table of listeners counts if it listens, and on this machine alone.
pub proof fn law_loopback_rows(row: &ListenerRow, r: bool)
    requires
        call_ensures(passive::is_loopback_row, (row,), r),
    ensures
        !row.listening ==> !r,
        row.listening && row.address@.len() == 4 ==> (r <==> row.address@[0] == 127),
{
    crate::http_laws::law_only_this_machine_is_spoken_to(seq![], row.address@);
}

/// Of several installed versions the newest is taken.
pub proof fn law_newest_version_is_taken(names: &Vec<String>, r: Option<usize>)
    requires
        call_ensures(codex_launch::newest_version, (names,), r),
    ensures
        names@.len() > 0 ==> r is Some,
        r matches Some(i) ==> i < names@.len() && forall|j: int|
            0 <= j < names@.len() ==> !codex_launch::version_less(
                names@[i as int]@,
                (#[trigger] names@[j])@,
            ),
{
}

/// The Codex binary that is taken is the first that is a file; where none is taken, Codex is
/// not there.
pub proof fn law_first_codex_binary_is_taken(files: &Vec<bool>, r: Result<usize, RuntimeError>)
    requires
        call_ensures(codex_launch::choose_binary, (files,), r),
    ensures
        files@.len() == 0 ==> r is Err,
        r matches Ok(i) ==> i < files@.len() && files@[i as int] && forall|j: int|
            0 <= j < i ==> !#[trigger] files@[j],
        r matches Err(e) ==> e@ == error::ErrorView::Transport("codex_runtime_unavailable"@),
{
}

/// Codex is started as a server on its standard streams, with the arguments that were
/// configured first.
pub proof fn law_codex_is_started_as_a_server(configured: &Vec<String>, r: Vec<String>)
    requires
        call_ensures(codex_launch::codex_arguments, (configured,), r),
    ensures
        r@.len() == configured@.len() + 3,
        forall|i: int| 0 <= i < configured@.len() ==> (#[trigger] r@[i])@ == configured@[i]@,
        r@[configured@.len() as int]@ == "app-server"@,
        r@[configured@.len() as int + 1]@ == "--listen"@,
        r@[configured@.len() as int + 2]@ == "stdio://"@,
{
    let n = configured@.len() as int;
    let t = text::texts(r@);
    let all = text::texts(configured@) + seq!["app-server"@, "--listen"@, "stdio://"@];
    assert(t.len() == r@.len());
    assert(all.len() == n + 3);
    assert(t[n] == all[n]);
    assert(t[n + 1] == all[n + 1]);
    assert(t[n + 2] == all[n + 2]);
    assert forall|i: int| 0 <= i < n implies (#[trigger] r@[i])@ == configured@[i]@ by {
        assert(t[i] == all[i]);
    }
}

/// A record that is too long or cannot be read is not taken, and it is told why.
pub proof fn law_passive_records(
    oversized: bool,
    parsed: Option<PassiveKunRuntimeRecord>,
    r: Result<PassiveKunRuntimeRecord, DiscoveryDiagnosticCode>,
    len: Option<u64>,
    too_long: bool,
)
    requires
        call_ensures(kun_discovery::passive_record_result, (oversized, parsed), r),
        call_ensures(kun_discovery::record_is_oversized, (len,), too_long),
    ensures
        oversized ==> r == Err::<PassiveKunRuntimeRecord, DiscoveryDiagnosticCode>(
            DiscoveryDiagnosticCode::OversizedInput,
        ),
        !oversized && parsed is None ==> r == Err::<PassiveKunRuntimeRecord, DiscoveryDiagnosticCode>(
            DiscoveryDiagnosticCode::ProviderFailed,
        ),
        !oversized ==> (parsed matches Some(p) ==> r == Ok::<
            PassiveKunRuntimeRecord,
            DiscoveryDiagnosticCode,
        >(p)),
        too_long <==> (len matches Some(n) && n > 524_288),
{
}

/// To leave a runtime succeeds only if every interrupt did and none was waited for too
/// long.
pub proof fn law_leaving_succeeds_if_all_did(
    results: &Vec<Result<(), RuntimeError>>,
    timed_out: bool,
    r: Result<(), RuntimeError>,
)
    requires
        call_ensures(kun_cancel::shutdown_result, (results, timed_out), r),
    ensures
        r is Ok <==> !timed_out && forall|i: int|
            0 <= i < results@.len() ==> (#[trigger] results@[i]) is Ok,
        timed_out && (forall|i: int| 0 <= i < results@.len() ==> (#[trigger] results@[i]) is Ok)
            ==> (r matches Err(e) && e@ == error::ErrorView::Timeout),
{
    crate::kun_record_laws::law_first_failed_interrupt_is_told(results@);
}

/// A deadline is a point in time: what is left of it is what lies before it, and none of it
/// is left behind it. It never moves back when it is capped.
pub proof fn law_deadlines_pass(
    d: TransportDeadline,
    now: u128,
    cap: u128,
    left: Result<u128, RuntimeError>,
    capped: TransportDeadline,
)
    requires
        call_ensures(TransportDeadline::remaining, (d, now), left),
        call_ensures(TransportDeadline::capped, (d, now, cap), capped),
        now + cap <= u128::MAX,
    ensures
        left is Ok <==> now < d.ends_at,
        left matches Ok(n) ==> n > 0 && now + n == d.ends_at,
        left matches Err(e) ==> e@ == error::ErrorView::Timeout,
        capped.ends_at <= d.ends_at,
        capped.ends_at <= now + cap,
        capped.ends_at == d.ends_at || capped.ends_at == now + cap,
{
}

/// Where nothing is configured nothing runs: every request is refused as such, and nothing
/// can be done.
pub proof fn law_nothing_configured_nothing_runs(
    a: &UnconfiguredRuntime,
    request: &RuntimeRequest,
    run: Result<Vec<RuntimeEvent>, RuntimeError>,
    cancel: Result<RuntimeEvent, RuntimeError>,
    can: RuntimeCapabilities,
)
    requires
        call_ensures(UnconfiguredRuntime::execute, (a, request), run),
        call_ensures(UnconfiguredRuntime::cancel, (a, request), cancel),
        call_ensures(UnconfiguredRuntime::capabilities, (a,), can),
    ensures
        run matches Err(e) && e@ == error::ErrorView::NotConfigured,
        cancel matches Err(e) && e@ == error::ErrorView::NotConfigured,
        !can.streaming && !can.cancel && !can.filesystem && !can.shell,
{
}

/// None of the runtimes without a process of its own may touch files or run commands.
pub proof fn law_mocks_touch_no_files(
    mock: &MockRuntime,
    a: RuntimeCapabilities,
    open: &OpenAiCompatibleRuntime,
    b: RuntimeCapabilities,
    custom: &HttpCustomRuntime,
    c: RuntimeCapabilities,
    acp: &AcpMockRuntime,
    d: RuntimeCapabilities,
)
    requires
        call_ensures(MockRuntime::capabilities, (mock,), a),
        call_ensures(OpenAiCompatibleRuntime::capabilities, (open,), b),
        call_ensures(HttpCustomRuntime::capabilities, (custom,), c),
        call_ensures(AcpMockRuntime::capabilities, (acp,), d),
    ensures
        !a.filesystem && !a.shell && a.streaming && a.cancel,
        !b.filesystem && !b.shell && b.streaming && b.cancel,
        !c.filesystem && !c.shell && c.streaming && !c.cancel,
        !d.filesystem && !d.shell && d.streaming && d.cancel,
{
}

/// A reserved adapter runs nothing: write access that it cannot give is refused as such,
/// and everything else as not supported.
pub proof fn law_reserved_adapters_run_nothing(
    a: &ConfiguredAdapter,
    request: &RuntimeRequest,
    run: Result<Vec<RuntimeEvent>, RuntimeError>,
    cancel: Result<RuntimeEvent, RuntimeError>,
)
    requires
        call_ensures(ConfiguredAdapter::execute, (a, request), run),
        call_ensures(ConfiguredAdapter::cancel, (a, request), cancel),
    ensures
        run is Err,
        request.workspace_access == WorkspaceAccess::WorkspaceWrite
            && !a.adapter_capabilities.filesystem ==> (run matches Err(e) && e@
            == error::ErrorView::Permission),
        request.workspace_access != WorkspaceAccess::WorkspaceWrite
            || a.adapter_capabilities.filesystem ==> (run matches Err(e) && e@
            == error::ErrorView::Unsupported),
        cancel matches Err(e) && e@ == error::ErrorView::Unsupported,
{
}

/// A runtime that does not say that it can be used cannot be used.
pub proof fn law_unknown_status_is_unavailable(status: &str, r: Result<(), RuntimeError>)
    requires
        call_ensures(adapters::availability_of, (status,), r),
    ensures
        r is Ok <==> status@ == "available"@ || status@ == "ready"@ || status@ == "healthy"@,
        r matches Err(e) ==> e@ == error::ErrorView::Transport("runtime_unavailable"@),
{
}

} // verus!
