//! What holds of every JSON value that is looked into, of every text that is written as one,
//! and of the runtimes that replay what was recorded.

use vstd::prelude::*;
use vstd::string::*;

use crate::event::RuntimeDiscovery;
use crate::connector::FixtureConnectorRuntime;
use crate::error;
use crate::error::RuntimeError;
use crate::event;
use crate::event::RuntimeRequest;
use crate::json;
use crate::route;
use crate::runtimes;
use crate::text;

verus! {

/// The member of an object under a key is the first with that key; only objects have
/// members.
pub proof fn law_members(
    before: Seq<(Seq<char>, json::JsonTree)>,
    key: Seq<char>,
    value: json::JsonTree,
    after: Seq<(Seq<char>, json::JsonTree)>,
    t: json::JsonTree,
)
    requires
        forall|i: int| 0 <= i < before.len() ==> (#[trigger] before[i]).0 != key,
    ensures
        json::field(json::JsonTree::Object(before + seq![(key, value)] + after), key) == Some(value),
        json::field(json::JsonTree::Object(before), key) is None,
        !(t is Object) ==> json::field(t, key) is None,
    decreases before.len(),
{
    let all = before + seq![(key, value)] + after;
    if before.len() == 0 {
        assert(all[0] == (key, value));
    } else {
        let rest = before.drop_first();
        assert(forall|i: int| 0 <= i < rest.len() ==> #[trigger] rest[i] == before[i + 1]);
        law_members(rest, key, value, after, t);
        assert(all.drop_first() =~= rest + seq![(key, value)] + after);
        assert(all[0] == before[0]);
    }
}

/// What is taken out of a value is of the kind that is asked for, or nothing.
pub proof fn law_kinds_of_values(t: json::JsonTree, i: nat)
    ensures
        json::text_value(Some(t)) == match t {
            json::JsonTree::Text(s) => Some(s),
            _ => None,
        },
        json::bool_value(Some(t)) == match t {
            json::JsonTree::Bool(b) => Some(b),
            _ => None,
        },
        json::u64_value(Some(t)) == match t {
            json::JsonTree::Unsigned(n) => Some(n),
            _ => None,
        },
        json::list_value(Some(t)) == match t {
            json::JsonTree::List(l) => Some(l),
            _ => None,
        },
        t matches json::JsonTree::List(l) ==> json::element(t, i) == if i < l.len() {
            Some(l[i as int])
        } else {
            None
        },
        json::text_value(None) is None,
        json::bool_value(None) is None,
        json::list_value(None) is None,
{
}

/// In a JSON text no character below the space and no quote stands unescaped, and every
/// other character stands for itself.
pub proof fn law_escaped_characters(c: char)
    ensures
        ({
            let e = json::escaped_char(c);
            &&& c == '"' ==> e == seq!['\\', '"']
            &&& c == '\\' ==> e == seq!['\\', '\\']
            &&& c == '\n' ==> e == seq!['\\', 'n']
            &&& c == '\r' ==> e == seq!['\\', 'r']
            &&& c == '\t' ==> e == seq!['\\', 't']
            &&& c > '\u{1f}' && c != '"' && c != '\\' ==> e == seq![c]
            &&& c <= '\u{1f}' ==> e.len() >= 2 && e[0] == '\\' && forall|i: int|
                0 <= i < e.len() ==> #[trigger] e[i] > '\u{1f}'
        }),
{
}

/// A text is written character by character between quotes.
pub proof fn law_texts_are_written_in_quotes(s: Seq<char>, c: char)
    ensures
        json::escaped_text(seq![]) == Seq::<char>::empty(),
        json::escaped_text(s.push(c)) == json::escaped_text(s) + json::escaped_char(c),
        json::json_literal(s) == seq!['"'] + json::escaped_text(s) + seq!['"'],
{
    assert(s.push(c).drop_last() =~= s);
}

/// A runtime that answered is available, and one that did not is reported with its error;
/// nothing else that is known of it changes.
pub proof fn law_probing_changes_only_the_health(
    before: route::AdapterView,
    answer: Result<RuntimeDiscovery, RuntimeError>,
)
    ensures
        ({
            let after = runtimes::probed(before, answer);
            &&& answer is Ok ==> after.health.status == "available"@ && after.health.detail is None
            &&& answer matches Err(e) ==> after.health.status == "unavailable"@
                && after.health.detail == Some(error::safe_error_code(e@))
            &&& after.models == before.models
            &&& after.metadata == before.metadata
            &&& after.default_model_id == before.default_model_id
            &&& after.revision == before.revision
            &&& after.runtime_id == before.runtime_id
        }),
{
}

/// The catalog of a recording lists its models in their order, all of them usable, with the
/// first as the default.
pub proof fn law_recordings_list_their_models(r: FixtureConnectorRuntime)
    ensures
        ({
            let c = runtimes::fixture_catalog(r);
            &&& c.models == r.models()
            &&& c.revision == Some("fixture"@)
            &&& r.models().len() > 0 ==> c.default_model_id == Some(r.models()[0])
            &&& r.models().len() == 0 ==> c.default_model_id is None
            &&& c.model_metadata.len() == r.models().len()
            &&& forall|i: int|
                0 <= i < r.models().len() ==> (#[trigger] c.model_metadata[i]).model_id
                    == r.models()[i] && c.model_metadata[i].available && c.model_metadata[i].enabled
                    && c.model_metadata[i].capabilities == r.capabilities
                    && c.model_metadata[i].status == Some("available"@)
        }),
{
}

/// A runtime replays what was recorded, and one without a recording replays nothing.
pub proof fn law_only_recordings_are_replayed(r: FixtureConnectorRuntime, request: &RuntimeRequest)
    ensures
        r.fixture is None ==> runtimes::replayed(r, request) == Err::<
            Seq<event::EventView>,
            error::ErrorView,
        >(error::ErrorView::Unsupported),
        r.fixture matches Some(f) ==> runtimes::replayed(r, request) == r.fixture_events(
            request,
            f@,
        ),
{
}

/// A recording without names has one model of its own, and a request without a model asks
/// for that one.
pub proof fn law_recordings_have_a_model(ids: Seq<Seq<char>>, request: &RuntimeRequest)
    ensures
        (forall|i: int| 0 <= i < ids.len() ==> text::trim(#[trigger] ids[i]).len() == 0)
            ==> runtimes::recorded_models(ids) == seq!["fixture-default"@],
        request.model_id is None ==> runtimes::asked_model(request) == "fixture-default"@,
        request.model_id matches Some(m) ==> runtimes::asked_model(request) == m@,
        runtimes::every_ability().streaming,
        runtimes::every_ability().cancel,
        runtimes::every_ability().filesystem,
        runtimes::every_ability().shell,
{
    let all = crate::connector::trimmed_ids(ids);
    if all.len() > 0 {
        crate::connector_laws::law_names_are_trimmed(ids, all[0]);
        assert(all.contains(all[0]));
    }
}

} // verus!
