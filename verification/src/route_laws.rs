//! What holds of what is known of a connector, whatever is asked of it and whatever it
//! answers.

use vstd::prelude::*;
use vstd::string::*;

use crate::catalog;
use crate::catalog_laws;
use crate::error;
use crate::event::{RuntimeRequest, WorkspaceAccess};
use crate::order;
use crate::route;
use crate::text;

verus! {

/// The names of runtimes are different.
proof fn lemma_names_differ()
    ensures
        "codex"@.len() == 5,
        "kun"@.len() == 3,
{
    reveal_strlit("codex");
    reveal_strlit("kun");
}

/// Nothing is known of a connector that was not asked yet: it has no models and is not
/// available.
pub proof fn law_nothing_is_known_before_asking(runtime_id: Seq<char>)
    ensures
        ({
            let s = route::unprobed(runtime_id);
            &&& s.runtime_id == runtime_id
            &&& s.models.len() == 0
            &&& s.metadata.len() == 0
            &&& s.default_model_id is None
            &&& s.revision is None
            &&& s.health.status == "unavailable"@
            &&& s.health.detail == Some("not yet probed"@)
            &&& s.health.runtime_id == runtime_id
        }),
{
}

/// A connector whose models could not be asked for is unavailable, with the code of the
/// error, and nothing that was known of its models stands any more.
pub proof fn law_failed_refresh_forgets_the_models(s: route::AdapterView, e: error::ErrorView)
    ensures
        ({
            let (after, r) = s.refreshed(Err(e));
            &&& r == Err::<Seq<Seq<char>>, error::ErrorView>(e)
            &&& after.models.len() == 0
            &&& after.metadata.len() == 0
            &&& after.default_model_id is None
            &&& after.revision is None
            &&& after.health.status == "unavailable"@
            &&& after.health.detail == Some(error::safe_error_code(e))
            &&& after.runtime_id == s.runtime_id
        }),
        ({
            let after = s.reported(e);
            &&& after.health.status == "unavailable"@
            &&& after.health.detail == Some(error::safe_error_code(e))
            &&& after.health.runtime_id == s.runtime_id
            &&& after.models == s.models
            &&& after.metadata == s.metadata
            &&& after.default_model_id == s.default_model_id
            &&& after.revision == s.revision
            &&& after.runtime_id == s.runtime_id
        }),
        ({
            let after = s.available();
            &&& after.health.status == "available"@
            &&& after.health.detail is None
            &&& after.health.runtime_id == s.runtime_id
            &&& after.models == s.models
            &&& after.metadata == s.metadata
            &&& after.default_model_id == s.default_model_id
            &&& after.revision == s.revision
            &&& after.runtime_id == s.runtime_id
        }),
{
}

/// A catalog without a single safe model id is a failure, with the code of its runtime.
pub proof fn law_catalog_without_models_fails(s: route::AdapterView, c: catalog::CatalogView)
    requires
        forall|i: int|
            0 <= i < c.models.len() ==> text::safe_identifier(#[trigger] c.models[i]) is None,
    ensures
        ({
            let (after, r) = s.refreshed(Ok(c));
            let code = if s.runtime_id == "codex"@ {
                "codex_catalog_unavailable"@
            } else if s.runtime_id == "kun"@ {
                "kun_catalog_unavailable"@
            } else {
                "runtime_catalog_unavailable"@
            };
            &&& r == Err::<Seq<Seq<char>>, error::ErrorView>(error::ErrorView::Transport(code))
            &&& after.models.len() == 0
            &&& after.health.status == "unavailable"@
        }),
{
    lemma_names_differ();
    let models = route::safe_models(c.models);
    if models.len() > 0 {
        route::law_models_are_the_safe_ones(c.models, models[0]);
        assert(models.contains(models[0]));
    }
}

/// What is kept of the metadata of models.
proof fn lemma_known(models: Seq<Seq<char>>, metadata: Seq<catalog::MetaView>, id: Seq<char>)
    ensures
        ({
            let known = route::known_metadata(models, metadata);
            &&& order::is_sorted(catalog::table_ids(known))
            &&& catalog::table_get(known, id) matches Some(m) ==> models.contains(id) && exists|
                k: int,
            |
                0 <= k < metadata.len() && text::safe_identifier((#[trigger] metadata[k]).model_id)
                    == Some(id) && m.available == metadata[k].available && m.enabled
                    == metadata[k].enabled && m.capabilities == metadata[k].capabilities && (forall|
                    j: int,
                |
                    k < j < metadata.len() ==> text::safe_identifier(
                        (#[trigger] metadata[j]).model_id,
                    ) != Some(id))
            &&& catalog::table_get(known, id) is None && models.contains(id) ==> forall|k: int|
                0 <= k < metadata.len() ==> text::safe_identifier((#[trigger] metadata[k]).model_id)
                    != Some(id)
        }),
    decreases metadata.len(),
{
    let known = route::known_metadata(models, metadata);
    if metadata.len() > 0 {
        let shorter = metadata.drop_last();
        let last = metadata.last();
        let before = route::known_metadata(models, shorter);
        lemma_known(models, shorter, id);
        assert(metadata[metadata.len() - 1] == last);
        assert(forall|k: int| 0 <= k < shorter.len() ==> #[trigger] shorter[k] == metadata[k]);
        if let Some(x) = text::safe_identifier(last.model_id) {
            if models.contains(x) {
                let m = catalog::MetaView {
                    model_id: x,
                    status: catalog::safe(last.status),
                    ..last
                };
                catalog_laws::law_put_model_is_found(before, m, true, id);
            }
        }
        if text::safe_identifier(last.model_id) == Some(id) && models.contains(id) {
            assert(metadata[metadata.len() - 1].model_id == last.model_id);
        } else if let Some(m) = catalog::table_get(before, id) {
            let k = choose|k: int|
                0 <= k < shorter.len() && text::safe_identifier((#[trigger] shorter[k]).model_id)
                    == Some(id) && m.available == shorter[k].available && m.enabled
                    == shorter[k].enabled && m.capabilities == shorter[k].capabilities && (forall|
                    j: int,
                |
                    k < j < shorter.len() ==> text::safe_identifier(
                        (#[trigger] shorter[j]).model_id,
                    ) != Some(id));
            assert(metadata[k] == shorter[k]);
            assert forall|j: int| k < j < metadata.len() implies text::safe_identifier(
                (#[trigger] metadata[j]).model_id,
            ) != Some(id) by {
                if j < shorter.len() {
                    assert(shorter[j] == metadata[j]);
                }
            }
        } else if models.contains(id) {
            assert forall|k: int| 0 <= k < metadata.len() implies text::safe_identifier(
                (#[trigger] metadata[k]).model_id,
            ) != Some(id) by {
                if k < shorter.len() {
                    assert(shorter[k] == metadata[k]);
                }
            }
        }
    }
}

/// After a catalog was read its models are known, each by what the catalog says last of
/// it: one that the catalog switches off or calls unavailable stays so, and is not the
/// default. The default is the model that the catalog declares, if that can be used, and
/// no other.
pub proof fn law_catalog_is_taken_as_it_is(
    s: route::AdapterView,
    c: catalog::CatalogView,
    id: Seq<char>,
)
    requires
        exists|i: int|
            0 <= i < c.models.len() && text::safe_identifier(#[trigger] c.models[i]) is Some,
    ensures
        ({
            let (after, r) = s.refreshed(Ok(c));
            &&& r == Ok::<Seq<Seq<char>>, error::ErrorView>(after.models)
            &&& after.models.contains(id) <==> exists|i: int|
                0 <= i < c.models.len() && text::safe_identifier(#[trigger] c.models[i]) == Some(id)
            &&& after.revision == c.revision
            &&& after.health == s.health
            &&& after.runtime_id == s.runtime_id
            &&& catalog::table_get(after.metadata, id) matches Some(m) ==> exists|k: int|
                0 <= k < c.model_metadata.len() && text::safe_identifier(
                    (#[trigger] c.model_metadata[k]).model_id,
                ) == Some(id) && m.available == c.model_metadata[k].available && m.enabled
                    == c.model_metadata[k].enabled && m.capabilities
                    == c.model_metadata[k].capabilities
            &&& (forall|k: int|
                0 <= k < c.model_metadata.len() && text::safe_identifier(
                    (#[trigger] c.model_metadata[k]).model_id,
                ) == Some(id) ==> !c.model_metadata[k].available || !c.model_metadata[k].enabled)
                && (exists|k: int|
                0 <= k < c.model_metadata.len() && text::safe_identifier(
                    (#[trigger] c.model_metadata[k]).model_id,
                ) == Some(id)) ==> after.default_model_id != Some(id)
            &&& after.default_model_id matches Some(d) ==> (c.default_model_id matches Some(x)
                && text::safe_identifier(x) == Some(d))
            &&& c.default_model_id matches Some(x) ==> (text::safe_identifier(x) == Some(id)
                && after.models.contains(id) && (forall|k: int|
                0 <= k < c.model_metadata.len() && text::safe_identifier(
                    (#[trigger] c.model_metadata[k]).model_id,
                ) == Some(id) ==> c.model_metadata[k].available && c.model_metadata[k].enabled)
                ==> after.default_model_id == Some(id))
        }),
{
    let models = route::safe_models(c.models);
    let i = choose|i: int|
        0 <= i < c.models.len() && text::safe_identifier(#[trigger] c.models[i]) is Some;
    let x = text::safe_identifier(c.models[i])->0;
    route::law_models_are_the_safe_ones(c.models, x);
    route::law_models_are_the_safe_ones(c.models, id);
    assert(text::safe_identifier(c.models[i]) == Some(x));
    assert(models.contains(x));
    assert(models.len() > 0);
    lemma_known(models, c.model_metadata, id);
}

/// A request that names no connector, or has a directory without access to it, is sent
/// nowhere; every other one is sent on.
pub proof fn law_requests_are_routed(request: &RuntimeRequest)
    ensures
        text::trim(request.connector_id@).len() == 0 ==> route::route_error(request) == Some(
            error::ErrorView::Protocol("connector_id_required"@),
        ),
        text::trim(request.connector_id@).len() > 0 && request.workspace_access
            == WorkspaceAccess::NoAccess && request.canonical_cwd is Some ==> route::route_error(
            request,
        ) == Some(error::ErrorView::InvalidWorkspace),
        text::trim(request.connector_id@).len() > 0 && (request.workspace_access
            != WorkspaceAccess::NoAccess || request.canonical_cwd is None) ==> route::route_error(
            request,
        ) is None,
{
}

/// The number of a catalog's revision is the revision itself where it is a number above
/// zero, and there is none otherwise.
pub proof fn law_revision_numbers_are_positive(s: route::AdapterView, n: u64)
    ensures
        s.revision == Some(text::decimal(n as nat)) && n > 0 ==> route::revision_number(s) == Some(
            n,
        ),
        s.revision == Some(text::decimal(0)) ==> route::revision_number(s) is None,
        s.revision is None ==> route::revision_number(s) is None,
        route::revision_number(s) matches Some(m) ==> m > 0 && (s.revision matches Some(t)
            && text::unsigned_value(t) == Some(m)),
{
    crate::text_laws::law_numbers_are_read_from_digits(n, seq![]);
    crate::text_laws::law_numbers_are_read_from_digits(0, seq![]);
}

} // verus!
