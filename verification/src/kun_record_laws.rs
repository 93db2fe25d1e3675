//! What holds of every record of a shared Kun runtime, and of every run that is
//! cancelled in one.

use vstd::prelude::*;
use vstd::string::*;
use vstd::utf8::*;

use crate::error;
use crate::json;
use crate::kun_cancel;
use crate::kun_record;
use crate::kun_record::MetadataRead;
use crate::text;

verus! {

/// A value holds a text under a key that stands for an identifier.
pub open spec fn gives(t: json::JsonTree, key: Seq<char>, id: Seq<char>) -> bool {
    json::field(t, key) matches Some(json::JsonTree::Text(s)) && text::safe_identifier(s) == Some(
        id,
    )
}

/// A value holds a number under a key.
pub open spec fn counts(t: json::JsonTree, key: Seq<char>, n: u64) -> bool {
    json::field(t, key) == Some(json::JsonTree::Unsigned(n))
}

/// The token of a record: a text that is not blank, of at most 16384 bytes, without
/// control characters.
pub open spec fn gives_token(t: json::JsonTree, token: Seq<char>) -> bool {
    &&& json::field(t, "runtimeToken"@) matches Some(json::JsonTree::Text(s)) && text::trim(s)
        == token
    &&& token.len() > 0
    &&& text::byte_len(token) <= 16_384
    &&& forall|i: int| 0 <= i < token.len() ==> !text::is_control_char(#[trigger] token[i])
}

/// Where a record says that its runtime is.
pub open spec fn gives_place(t: json::JsonTree, r: kun_record::KunRecordView) -> bool {
    &&& counts(t, "version"@, 2)
    &&& json::field(t, "insecure"@) == Some(json::JsonTree::Bool(false))
    &&& gives(t, "instanceId"@, r.instance_id)
    &&& counts(t, "pid"@, r.pid)
    &&& r.pid > 0
    &&& gives(t, "startedAt"@, r.started_at)
    &&& gives(t, "host"@, r.host)
    &&& counts(t, "port"@, r.port as u64)
    &&& r.port > 0
    &&& gives(t, "baseUrl"@, r.base_url)
}

/// Which runtime a record says that it is of.
pub open spec fn gives_build(t: json::JsonTree, r: kun_record::KunRecordView) -> bool {
    &&& gives(t, "serviceVersion"@, r.service_version)
    &&& gives(t, "buildId"@, r.build_id)
    &&& gives(t, "launchMode"@, r.launch_mode)
}

/// A record is read exactly if it is of the second version, is not insecure, and gives
/// all that a runtime is known by; what is read is what it gives.
pub proof fn law_record_is_read_as_it_stands(t: json::JsonTree, r: kun_record::KunRecordView)
    ensures
        kun_record::record_of(t) == Ok::<kun_record::KunRecordView, error::ErrorView>(r)
            <==> gives_place(t, r) && gives_token(t, r.runtime_token) && gives_build(t, r),
{
}

/// A record that says where its runtime is, but gives no token, is a refused sign-in; any
/// other record that is not read is one of another runtime.
pub proof fn law_record_without_token_is_refused(t: json::JsonTree, r: kun_record::KunRecordView)
    ensures
        gives_place(t, r) && (forall|token: Seq<char>| !#[trigger] gives_token(t, token))
            ==> kun_record::record_of(t) == Err::<kun_record::KunRecordView, error::ErrorView>(
            error::ErrorView::Authentication,
        ),
        !counts(t, "version"@, 2) ==> kun_record::record_of(t) == Err::<
            kun_record::KunRecordView,
            error::ErrorView,
        >(error::ErrorView::Protocol("kun_runtime_identity_mismatch"@)),
        json::field(t, "insecure"@) != Some(json::JsonTree::Bool(false)) ==> kun_record::record_of(
            t,
        ) == Err::<kun_record::KunRecordView, error::ErrorView>(
            error::ErrorView::Protocol("kun_runtime_identity_mismatch"@),
        ),
        kun_record::record_of(t) matches Err(e) ==> e == error::ErrorView::Authentication || e
            == error::ErrorView::Protocol("kun_runtime_identity_mismatch"@),
        gives_token(t, r.runtime_token) && kun_record::record_of(t) is Err ==> kun_record::record_of(
            t,
        ) == Err::<kun_record::KunRecordView, error::ErrorView>(
            error::ErrorView::Protocol("kun_runtime_identity_mismatch"@),
        ),
{
    if forall|token: Seq<char>| !#[trigger] gives_token(t, token) {
        if let Some(x) = kun_record::token(json::text_field(t, "runtimeToken"@)) {
            assert(gives_token(t, x));
        }
    }
}

/// No record is a runtime that is not there; one that is too long or no JSON is one of
/// another runtime.
pub proof fn law_record_files(content: Seq<char>)
    ensures
        kun_record::record_text(None) == Err::<kun_record::KunRecordView, error::ErrorView>(
            error::ErrorView::Transport("kun_shared_runtime_unavailable"@),
        ),
        text::byte_len(content) > 524_288 ==> kun_record::record_text(Some(content)) == Err::<
            kun_record::KunRecordView,
            error::ErrorView,
        >(error::ErrorView::Protocol("kun_runtime_identity_mismatch"@)),
        text::byte_len(content) <= 524_288 ==> match json::json_text(content) {
            Ok(t) => kun_record::record_text(Some(content)) == kun_record::record_of(t),
            Err(_) => kun_record::record_text(Some(content)) == Err::<
                kun_record::KunRecordView,
                error::ErrorView,
            >(error::ErrorView::Protocol("kun_runtime_identity_mismatch"@)),
        },
{
}

/// One to 128 ASCII letters, digits, dots, underscores and hyphens are a build id, and
/// nothing else is.
pub proof fn law_build_ids(s: Seq<char>)
    ensures
        kun_record::is_build_id(s) <==> crate::runner_laws::is_plain_name(s),
{
    if kun_record::is_build_id(s) {
        assert forall|i: int| 0 <= i < s.len() implies '\0' <= #[trigger] s[i] <= '\u{7f}' by {
            assert(text::is_alphanumeric(s[i]) || s[i] == '.' || s[i] == '_' || s[i] == '-');
        }
        is_ascii_chars_encode_utf8(s);
        assert forall|i: int| 0 <= i < s.len() implies crate::runner_laws::is_letter_or_digit(
            #[trigger] s[i],
        ) || s[i] == '.' || s[i] == '_' || s[i] == '-' by {
            assert(text::is_alphanumeric(s[i]) || s[i] == '.' || s[i] == '_' || s[i] == '-');
        }
    }
    if crate::runner_laws::is_plain_name(s) {
        assert forall|i: int| 0 <= i < s.len() implies '\0' <= #[trigger] s[i] <= '\u{7f}' by {
            assert(crate::runner_laws::is_letter_or_digit(s[i]) || s[i] == '.' || s[i] == '_'
                || s[i] == '-');
        }
        is_ascii_chars_encode_utf8(s);
        assert forall|i: int| 0 <= i < s.len() implies text::is_alphanumeric(#[trigger] s[i])
            || s[i] == '.' || s[i] == '_' || s[i] == '-' by {
            assert(crate::runner_laws::is_letter_or_digit(s[i]) || s[i] == '.' || s[i] == '_'
                || s[i] == '-');
        }
    }
}

/// A runtime is taken exactly if its process lives, it is shared, it is of the version
/// that is expected, and its build id is in order.
pub proof fn law_only_the_expected_runtime_is_taken(
    r: kun_record::KunRecordView,
    alive: bool,
    expected: Seq<char>,
)
    ensures
        kun_record::is_expected(r, alive, expected) <==> alive && r.launch_mode == "shared"@
            && r.service_version == expected && crate::runner_laws::is_plain_name(r.build_id),
{
    law_build_ids(r.build_id);
}

/// A runtime is the one of a record exactly if all that it says of itself is what the
/// record and the installed build say, and it keeps its data where it is expected to.
pub proof fn law_only_the_recorded_runtime_is_taken(
    r: kun_record::KunRecordView,
    data_dir: Seq<char>,
    build_id: Seq<char>,
    service_version: Seq<char>,
    info: json::JsonTree,
    reported_dir: Seq<char>,
    windows: bool,
)
    ensures
        kun_record::is_runtime_of(
            r,
            data_dir,
            build_id,
            service_version,
            info,
            reported_dir,
            windows,
        ) <==> gives(info, "instanceId"@, r.instance_id) && counts(info, "pid"@, r.pid) && gives(
            info,
            "startedAt"@,
            r.started_at,
        ) && gives(info, "serviceVersion"@, r.service_version) && gives(
            info,
            "buildId"@,
            r.build_id,
        ) && gives(info, "launchMode"@, r.launch_mode) && build_id == r.build_id && service_version
            == r.service_version && kun_record::same_path(reported_dir, data_dir, windows),
{
}

/// Two paths are the same on Windows exactly if they differ in no more than the case of
/// their letters; a path is always the same as itself.
pub proof fn law_same_paths(a: Seq<char>, b: Seq<char>, windows: bool)
    ensures
        kun_record::same_path(a, b, true) <==> text::lower(a) == text::lower(b),
        kun_record::same_path(a, a, windows),
        kun_record::same_path(a, b, windows) <==> kun_record::same_path(b, a, windows),
{
}

/// An installed build is the one of a runtime exactly if its own file gives the same
/// build id and version, and no other build is expected.
pub proof fn law_build_files(
    content: Seq<char>,
    value: json::JsonTree,
    build_id: Seq<char>,
    version: Seq<char>,
    expected: Option<Seq<char>>,
)
    ensures
        kun_record::value_fits(value, build_id, version, expected) <==> gives(
            value,
            "buildId"@,
            build_id,
        ) && gives(value, "serviceVersion"@, version) && crate::runner_laws::is_plain_name(build_id)
            && (expected matches Some(x) ==> x == build_id),
        text::byte_len(content) > 524_288 ==> !kun_record::metadata_fits(
            content,
            build_id,
            version,
            expected,
        ),
        json::json_text(content) is Err ==> !kun_record::metadata_fits(
            content,
            build_id,
            version,
            expected,
        ),
        text::byte_len(content) <= 524_288 && json::json_text(content) == Ok::<
            json::JsonTree,
            Seq<char>,
        >(value) ==> kun_record::metadata_fits(content, build_id, version, expected)
            == kun_record::value_fits(value, build_id, version, expected),
{
    law_build_ids(build_id);
}

/// Of the places where a build may be installed, the first decides at which there is a
/// file or which was named; a place that was found by looking and holds no file is passed
/// over, and no other is.
pub proof fn law_first_place_decides(reads: Seq<(MetadataRead, bool)>)
    ensures
        ({
            let i = kun_record::deciding(reads);
            &&& 0 <= i <= reads.len()
            &&& i < reads.len() ==> !(reads[i].0 is NotFound) || reads[i].1
            &&& forall|j: int| 0 <= j < i ==> (#[trigger] reads[j]).0 is NotFound && !reads[j].1
        }),
    decreases reads.len(),
{
    if reads.len() > 0 && reads[0].0 is NotFound && !reads[0].1 {
        let rest = reads.drop_first();
        law_first_place_decides(rest);
        let i = kun_record::deciding(reads);
        assert forall|j: int| 0 <= j < i implies (#[trigger] reads[j]).0 is NotFound
            && !reads[j].1 by {
            if j > 0 {
                assert(rest[j - 1] == reads[j]);
            }
        }
        if i < reads.len() {
            assert(rest[i - 1] == reads[i]);
        }
    }
}

/// The places where a build may be installed: those that were named, then up to four
/// directories above the program, then the usual ones; only the first were named.
pub proof fn law_places_are_looked_at_in_order(
    named: Seq<Seq<char>>,
    parents: Seq<Seq<char>>,
    usual: Seq<Seq<char>>,
    i: int,
)
    ensures
        ({
            let all = kun_record::all_install_dirs(named, parents, usual);
            let near = if parents.len() <= 4 {
                parents.len() as int
            } else {
                4
            };
            &&& all.len() == named.len() + near + usual.len()
            &&& 0 <= i < named.len() ==> all[i] == (named[i], true)
            &&& 0 <= i < near ==> all[named.len() + i] == (parents[i], false)
            &&& 0 <= i < usual.len() ==> all[named.len() + near + i] == (usual[i], false)
        }),
{
}

/// A place is among some places, under this or another spelling.
pub open spec fn is_among(dirs: Seq<(Seq<char>, bool)>, path: Seq<char>, windows: bool) -> bool {
    exists|i: int| 0 <= i < dirs.len() && kun_record::same_path((#[trigger] dirs[i]).0, path, windows)
}

/// No place is looked at twice.
pub proof fn law_places_are_distinct(
    dirs: Seq<(Seq<char>, bool)>,
    windows: bool,
    i: int,
    j: int,
)
    requires
        0 <= i < j < kun_record::distinct_dirs(dirs, windows).len(),
    ensures
        !kun_record::same_path(
            kun_record::distinct_dirs(dirs, windows)[i].0,
            kun_record::distinct_dirs(dirs, windows)[j].0,
            windows,
        ),
    decreases dirs.len(),
{
    let kept = kun_record::distinct_dirs(dirs, windows);
    let before = kun_record::distinct_dirs(dirs.drop_last(), windows);
    if j < before.len() {
        law_places_are_distinct(dirs.drop_last(), windows, i, j);
    } else {
        assert(kept[i] == before[i]);
    }
}

/// No place is left out.
pub proof fn law_no_place_is_left_out(dirs: Seq<(Seq<char>, bool)>, windows: bool, k: int)
    requires
        0 <= k < dirs.len(),
    ensures
        is_among(kun_record::distinct_dirs(dirs, windows), dirs[k].0, windows),
    decreases dirs.len(),
{
    let kept = kun_record::distinct_dirs(dirs, windows);
    let shorter = dirs.drop_last();
    let before = kun_record::distinct_dirs(shorter, windows);
    if k < shorter.len() {
        law_no_place_is_left_out(shorter, windows, k);
        let i = choose|i: int|
            0 <= i < before.len() && kun_record::same_path(
                (#[trigger] before[i]).0,
                dirs[k].0,
                windows,
            );
        assert(kept[i] == before[i]);
    } else if !is_among(before, dirs[k].0, windows) {
        assert(kept[before.len() as int] == dirs[k]);
    }
}

/// What is looked at was asked for, and what was asked for first is looked at first.
pub proof fn law_first_place_stays_first(dirs: Seq<(Seq<char>, bool)>, windows: bool, i: int)
    requires
        0 <= i < kun_record::distinct_dirs(dirs, windows).len(),
    ensures
        dirs.contains(kun_record::distinct_dirs(dirs, windows)[i]),
        kun_record::distinct_dirs(dirs, windows)[0] == dirs[0],
    decreases dirs.len(),
{
    let kept = kun_record::distinct_dirs(dirs, windows);
    let shorter = dirs.drop_last();
    let before = kun_record::distinct_dirs(shorter, windows);
    assert(dirs[dirs.len() - 1] == dirs.last());
    if i < before.len() {
        law_first_place_stays_first(shorter, windows, i);
        let k = choose|k: int| 0 <= k < shorter.len() && shorter[k] == before[i];
        assert(dirs[k] == kept[i]);
    } else if before.len() > 0 {
        law_first_place_stays_first(shorter, windows, 0);
    } else if shorter.len() > 0 {
        law_no_place_is_left_out(shorter, windows, 0);
    }
}

/// A turn that is asked to be cancelled is interrupted once: by the first who asks, while
/// the others wait for the outcome.
pub proof fn law_turn_is_interrupted_once(f: kun_cancel::RunFacts)
    ensures
        f.cancellation is None || f.cancellation == Some(kun_cancel::CancelView::PendingSetup) ==> {
            &&& f.poll_interrupt().1 is Invoke
            &&& f.poll_interrupt().0.poll_interrupt().1 is Wait
            &&& f.poll_interrupt().0.requested()
            &&& f.poll_interrupt().0.turn == f.turn
        },
        f.cancellation == Some(kun_cancel::CancelView::InterruptInFlight) ==> f.poll_interrupt() == (
            f,
            kun_cancel::InterruptStepView::Wait,
        ),
{
}

/// What became of an interrupt is what everyone is told who asks: success only if the
/// runtime accepted it, and otherwise the error.
pub proof fn law_interrupt_is_told_as_it_ended(f: kun_cancel::RunFacts, e: error::ErrorView)
    ensures
        f.interrupted(Ok(())).poll_interrupt().1 == kun_cancel::InterruptStepView::Outcome(Ok(())),
        f.interrupted(Ok(())).poll_cancel().1 == kun_cancel::CancelStepView::Outcome(Ok(())),
        f.interrupted(Ok(())).requested(),
        f.interrupted(Ok(())).failure() is None,
        f.interrupted(Err(e)).poll_interrupt().1 == kun_cancel::InterruptStepView::Outcome(Err(e)),
        f.interrupted(Err(e)).poll_cancel().1 == kun_cancel::CancelStepView::Outcome(Err(e)),
        !f.interrupted(Err(e)).requested(),
        f.interrupted(Err(e)).failure() == Some(e),
        f.interrupted(Err(e)).turn == f.turn,
        f.poll_interrupt().1 matches kun_cancel::InterruptStepView::Outcome(r) ==> f.cancellation
            == Some(
            match r {
                Ok(_) => kun_cancel::CancelView::RemoteInterruptAccepted,
                Err(x) => kun_cancel::CancelView::Failed(x),
            },
        ),
{
}

/// To cancel a run whose turn is known is to interrupt that turn. Where there is none, the
/// wish is kept: no turn is started after it, and where one is just being started it is
/// waited for.
pub proof fn law_cancelling_reaches_the_turn(
    f: kun_cancel::RunFacts,
    turn: kun_cancel::TurnView,
    cancelled: bool,
)
    requires
        f.outcome() is None,
    ensures
        f.turn == Some(turn) ==> f.poll_cancel() == (f, kun_cancel::CancelStepView::Interrupt(turn)),
        f.turn is None && f.starting ==> f.poll_cancel().1 is Wait,
        f.turn is None && !f.starting ==> f.poll_cancel().1 is BeforeTurn,
        f.turn is None ==> f.poll_cancel().0.requested() && f.poll_cancel().0.before_turn(
            cancelled,
        ).1 == kun_cancel::BeforeTurnView::Cancelled,
        f.turn is None && f.starting ==> f.poll_cancel().0.started(turn).poll_cancel().1
            == kun_cancel::CancelStepView::Interrupt(turn),
{
}

/// A turn is started exactly if nobody has asked for its run to be cancelled.
pub proof fn law_turn_starts_unless_cancelled(
    f: kun_cancel::RunFacts,
    cancelled: bool,
    turn: kun_cancel::TurnView,
)
    ensures
        f.before_turn(cancelled).1 is Start <==> f.cancellation is None && !cancelled,
        f.before_turn(cancelled).1 is Start ==> f.before_turn(cancelled).0.starting,
        f.cancellation matches Some(kun_cancel::CancelView::Failed(e)) ==> f.before_turn(
            cancelled,
        ).1 == kun_cancel::BeforeTurnView::Failed(e),
        f.cancellation is Some && f.failure() is None ==> f.before_turn(cancelled).1
            == kun_cancel::BeforeTurnView::Cancelled,
        f.cancellation is None && cancelled ==> f.before_turn(cancelled).1
            == kun_cancel::BeforeTurnView::Cancelled,
        f.started(turn).turn == Some(turn),
        !f.started(turn).starting,
        f.started(turn).cancellation == f.cancellation,
{
}

/// A run that is over has no turn; what became of its cancellation is kept, and nothing
/// else is.
pub proof fn law_ended_run_keeps_its_outcome(f: kun_cancel::RunFacts)
    ensures
        f.cleared().turn is None,
        !f.cleared().starting,
        f.cleared().outcome() == f.outcome(),
        f.outcome() is None ==> f.cleared() == kun_cancel::no_facts(),
        kun_cancel::no_facts().turn is None,
        kun_cancel::no_facts().cancellation is None,
        !kun_cancel::no_facts().starting,
        !kun_cancel::no_facts().requested(),
{
}

/// What is said of one run changes nothing of another.
pub proof fn law_runs_do_not_touch_each_other(
    facts: kun_cancel::Facts,
    run: Seq<char>,
    new: kun_cancel::RunFacts,
    other: Seq<char>,
)
    ensures
        kun_cancel::with_run(facts, run, new)(run) == new,
        other != run ==> kun_cancel::with_run(facts, run, new)(other) == facts(other),
{
}

/// When a runtime is left, the first interrupt that failed says how that went.
pub proof fn law_first_failed_interrupt_is_told(results: Seq<Result<(), error::RuntimeError>>)
    ensures
        match kun_cancel::first_error(results) {
            Some(e) => exists|i: int|
                0 <= i < results.len() && (#[trigger] results[i] matches Err(x) && x@ == e) && (
                forall|j: int| 0 <= j < i ==> (#[trigger] results[j]) is Ok),
            None => forall|j: int| 0 <= j < results.len() ==> (#[trigger] results[j]) is Ok,
        },
    decreases results.len(),
{
    if results.len() > 0 && results[0] is Ok {
        let rest = results.drop_first();
        law_first_failed_interrupt_is_told(rest);
        assert(forall|j: int| 0 <= j < rest.len() ==> #[trigger] rest[j] == results[j + 1]);
        if let Some(e) = kun_cancel::first_error(rest) {
            let i = choose|i: int|
                0 <= i < rest.len() && (#[trigger] rest[i] matches Err(x) && x@ == e) && (forall|
                    j: int,
                |
                    0 <= j < i ==> (#[trigger] rest[j]) is Ok);
            assert(results[i + 1] == rest[i]);
            assert forall|j: int| 0 <= j < i + 1 implies (#[trigger] results[j]) is Ok by {
                if j > 0 {
                    assert(rest[j - 1] == results[j]);
                }
            }
        } else {
            assert forall|j: int| 0 <= j < results.len() implies (#[trigger] results[j]) is Ok by {
                if j > 0 {
                    assert(rest[j - 1] == results[j]);
                }
            }
        }
    } else if results.len() > 0 {
        assert(results[0] is Err);
    }
}

} // verus!
