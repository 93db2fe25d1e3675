//! The model catalog of a shared Kun runtime.

use vstd::prelude::*;

use crate::catalog;
use crate::catalog::{
    flag, flag_of_keys, ids_of, is_selectable, is_text, list_field, put_metadata, revision_from,
    runtime_capabilities_from_value, safe_opt, text_of_keys, RuntimeModelCatalog,
    RuntimeModelMetadata,
};
use crate::error;
use crate::error::{RuntimeError, KUN_CATALOG_UNAVAILABLE};
use crate::event::{copy_text, RuntimeCapabilities};
use crate::json;
use crate::json::Json;
use crate::text;
use crate::text::safe_model_identifier;

verus! {

/// The models that a provider lists.
pub open spec fn provider_models(provider: json::JsonTree) -> Seq<json::JsonTree> {
    match json::first_of(
        json::list_value(json::field(provider, "models"@)),
        json::first_of(
            json::list_value(json::field(provider, "availableModels"@)),
            json::first_of(
                json::list_value(json::field(provider, "available_models"@)),
                json::list_value(json::field(provider, "items"@)),
            ),
        ),
    ) {
        Some(models) => models,
        None => seq![],
    }
}

/// The id of a model that a provider lists.
pub open spec fn listed_id(model: json::JsonTree) -> Option<Seq<char>> {
    catalog::safe(
        json::first_of(
            json::text_value(Some(model)),
            json::first_of(
                json::text_field(model, "id"@),
                json::first_of(
                    json::text_field(model, "modelId"@),
                    json::first_of(
                        json::text_field(model, "model_id"@),
                        json::text_field(model, "name"@),
                    ),
                ),
            ),
        ),
    )
}

/// What a provider says of a model that it lists.
pub open spec fn listed_model(
    provider: json::JsonTree,
    model: json::JsonTree,
) -> Option<catalog::MetaView> {
    match listed_id(model) {
        None => None,
        Some(id) => {
            let status = json::first_of(
                catalog::safe(json::text_field(model, "status"@)),
                catalog::safe(json::text_field(provider, "status"@)),
            );
            let configured = json::bool_value(json::field(provider, "configured"@)) != Some(false);
            Some(
                catalog::MetaView {
                    model_id: id,
                    available: catalog::flag_or(
                        model,
                        "available"@,
                        configured && status != Some("unavailable"@),
                    ),
                    enabled: json::bool_value(json::field(provider, "enabled"@)) != Some(false)
                        && json::bool_value(json::field(model, "enabled"@)) != Some(false),
                    status,
                    capabilities: catalog::capabilities_of(
                        json::first_of(
                            json::field(model, "capabilities"@),
                            json::first_of(
                                json::then_field(json::field(provider, "modelCapabilities"@), id),
                                json::field(provider, "capabilities"@),
                            ),
                        ),
                        catalog::all_capabilities(),
                    ),
                },
            )
        },
    }
}

/// Whether a listed model is declared to be the default of its provider.
pub open spec fn listed_is_default(model: json::JsonTree) -> bool {
    json::first_of(
        json::bool_value(json::field(model, "isDefault"@)),
        json::first_of(
            json::bool_value(json::field(model, "default"@)),
            json::bool_value(json::field(model, "selected"@)),
        ),
    ) == Some(true)
}

/// The first listed model that is declared to be the default.
pub open spec fn first_listed_default(models: Seq<json::JsonTree>) -> Option<Seq<char>>
    decreases models.len(),
{
    if models.len() == 0 {
        None
    } else {
        json::first_of(
            first_listed_default(models.drop_last()),
            if listed_is_default(models.last()) {
                listed_id(models.last())
            } else {
                None
            },
        )
    }
}

/// The model that a provider names as its default.
pub open spec fn named_default(provider: json::JsonTree) -> Option<Seq<char>> {
    catalog::safe(
        json::first_of(
            json::text_field(provider, "selectedModel"@),
            json::first_of(
                json::text_field(provider, "defaultModelId"@),
                json::text_field(provider, "defaultModel"@),
            ),
        ),
    )
}

/// The default model of a provider: the one it names, or the first listed one
/// that is declared to be it.
pub open spec fn provider_default(provider: json::JsonTree) -> Option<Seq<char>> {
    json::first_of(named_default(provider), first_listed_default(provider_models(provider)))
}

pub open spec fn provider_id(provider: json::JsonTree) -> Option<Seq<char>> {
    catalog::safe(json::text_field(provider, "id"@))
}

/// A table after the models of a provider. The first mention of a model counts.
pub open spec fn table_with_models(
    table: Seq<catalog::MetaView>,
    provider: json::JsonTree,
    models: Seq<json::JsonTree>,
) -> Seq<catalog::MetaView>
    decreases models.len(),
{
    if models.len() == 0 {
        table
    } else {
        let before = table_with_models(table, provider, models.drop_last());
        match listed_model(provider, models.last()) {
            Some(m) => catalog::table_put(before, m, false),
            None => before,
        }
    }
}

/// The models of some providers. What is no object is no provider.
pub open spec fn providers_table(providers: Seq<json::JsonTree>) -> Seq<catalog::MetaView>
    decreases providers.len(),
{
    if providers.len() == 0 {
        seq![]
    } else {
        let before = providers_table(providers.drop_last());
        let p = providers.last();
        if p is Object {
            table_with_models(before, p, provider_models(p))
        } else {
            before
        }
    }
}

/// The ids of some providers, with the default model of each.
pub open spec fn providers_defaults(providers: Seq<json::JsonTree>) -> Seq<
    (Option<Seq<char>>, Option<Seq<char>>),
>
    decreases providers.len(),
{
    if providers.len() == 0 {
        seq![]
    } else {
        let before = providers_defaults(providers.drop_last());
        let p = providers.last();
        if p is Object {
            before.push((provider_id(p), provider_default(p)))
        } else {
            before
        }
    }
}

/// The default model of the first provider with the given id.
pub open spec fn default_of_provider(
    defaults: Seq<(Option<Seq<char>>, Option<Seq<char>>)>,
    id: Seq<char>,
) -> Option<Seq<char>>
    decreases defaults.len(),
{
    if defaults.len() == 0 {
        None
    } else if defaults[0].0 == Some(id) {
        defaults[0].1
    } else {
        default_of_provider(defaults.drop_first(), id)
    }
}

/// The first default model of a provider that can be chosen.
pub open spec fn first_selectable_default(
    table: Seq<catalog::MetaView>,
    defaults: Seq<(Option<Seq<char>>, Option<Seq<char>>)>,
) -> Option<Seq<char>>
    decreases defaults.len(),
{
    if defaults.len() == 0 {
        None
    } else {
        match if_selectable(table, defaults[0].1) {
            Some(id) => Some(id),
            None => first_selectable_default(table, defaults.drop_first()),
        }
    }
}

pub open spec fn if_selectable(
    table: Seq<catalog::MetaView>,
    id: Option<Seq<char>>,
) -> Option<Seq<char>> {
    match id {
        Some(x) => if catalog::selectable(table, x) {
            Some(x)
        } else {
            None
        },
        None => None,
    }
}

/// The default model of a catalog: the one the catalog names; or that of the
/// default provider; or, where no provider is the default one, the first default
/// of any provider; or the configured one; in each case only if it can be chosen.
pub open spec fn chosen_default(
    table: Seq<catalog::MetaView>,
    defaults: Seq<(Option<Seq<char>>, Option<Seq<char>>)>,
    root: Option<Seq<char>>,
    default_provider: Option<Seq<char>>,
    configured: Option<Seq<char>>,
) -> Option<Seq<char>> {
    json::first_of(
        if_selectable(table, root),
        json::first_of(
            match default_provider {
                Some(id) => if_selectable(table, default_of_provider(defaults, id)),
                None => first_selectable_default(table, defaults),
            },
            if_selectable(table, configured),
        ),
    )
}

/// The catalog that a response stands for. A response without any model is no
/// catalog.
pub open spec fn kun_catalog(
    response: json::JsonTree,
    configured: Option<Seq<char>>,
) -> Result<catalog::CatalogView, error::ErrorView> {
    match json::list_value(json::field(response, "providers"@)) {
        None => Err(error::ErrorView::Transport(KUN_CATALOG_UNAVAILABLE@)),
        Some(providers) => {
            let table = providers_table(providers);
            if table.len() == 0 {
                Err(error::ErrorView::Transport(KUN_CATALOG_UNAVAILABLE@))
            } else {
                Ok(
                    catalog::CatalogView {
                        models: catalog::table_ids(table),
                        revision: json::first_of(
                            catalog::revision_of(json::field(response, "revision"@)),
                            catalog::safe(json::text_field(response, "catalogRevision"@)),
                        ),
                        default_model_id: chosen_default(
                            table,
                            providers_defaults(providers),
                            catalog::safe(
                                json::first_of(
                                    json::text_field(response, "defaultModelId"@),
                                    json::text_field(response, "defaultModel"@),
                                ),
                            ),
                            catalog::safe(json::text_field(response, "defaultProviderId"@)),
                            configured,
                        ),
                        model_metadata: table,
                    },
                )
            }
        },
    }
}

fn listed_id_of(model: &Json) -> (r: Option<String>)
    ensures
        text::opt_text(r) == listed_id(model.tree()),
{
    match model.as_str() {
        Some(s) => safe_model_identifier(s),
        None => match text_of_keys(model, "id", "modelId", "model_id") {
            Some(s) => safe_model_identifier(s),
            None => safe_opt(model.get_str("name")),
        },
    }
}

fn listed_model_of(provider: &Json, model: &Json) -> (r: Option<RuntimeModelMetadata>)
    ensures
        match r {
            Some(m) => listed_model(provider.tree(), model.tree()) == Some(m@),
            None => listed_model(provider.tree(), model.tree()) is None,
        },
{
    match listed_id_of(model) {
        None => None,
        Some(id) => {
            let status = match safe_opt(model.get_str("status")) {
                Some(s) => Some(s),
                None => safe_opt(provider.get_str("status")),
            };
            let configured = flag(provider, "configured") != Some(false);
            let available = match flag(model, "available") {
                Some(b) => b,
                None => configured && !is_text(&status, "unavailable"),
            };
            let enabled = flag(provider, "enabled") != Some(false) && flag(model, "enabled")
                != Some(false);
            let listed = match model.get("capabilities") {
                Some(v) => Some(v),
                None => {
                    let by_model = match provider.get("modelCapabilities") {
                        Some(all) => all.get(id.as_str()),
                        None => None,
                    };
                    match by_model {
                        Some(v) => Some(v),
                        None => provider.get("capabilities"),
                    }
                },
            };
            Some(
                RuntimeModelMetadata {
                    model_id: id,
                    available,
                    enabled,
                    status,
                    capabilities: runtime_capabilities_from_value(
                        listed,
                        RuntimeCapabilities {
                            streaming: true,
                            cancel: true,
                            filesystem: true,
                            shell: true,
                        },
                    ),
                },
            )
        },
    }
}

/// Takes a provider's models into a table, and gives its default model.
fn take_provider(table: &mut Vec<RuntimeModelMetadata>, provider: &Json) -> (r: Option<String>)
    ensures
        catalog::meta_views(final(table)@) == table_with_models(
            catalog::meta_views(old(table)@),
            provider.tree(),
            provider_models(provider.tree()),
        ),
        text::opt_text(r) == provider_default(provider.tree()),
{
    let found = match list_field(provider, "models") {
        Some(models) => Some(models),
        None => match list_field(provider, "availableModels") {
            Some(models) => Some(models),
            None => match list_field(provider, "available_models") {
                Some(models) => Some(models),
                None => list_field(provider, "items"),
            },
        },
    };
    let named = safe_opt(
        text_of_keys(provider, "selectedModel", "defaultModelId", "defaultModel"),
    );
    let ghost all = provider_models(provider.tree());
    let ghost before = catalog::meta_views(table@);
    let mut listed: Option<String> = None;
    match found {
        Some(models) => {
            let mut i: usize = 0;
            assert(all.take(0) =~= seq![]);
            while i < models.len()
                invariant
                    i <= models@.len(),
                    all == json::trees(models@),
                    catalog::meta_views(table@) == table_with_models(
                        before,
                        provider.tree(),
                        all.take(i as int),
                    ),
                    text::opt_text(listed) == first_listed_default(all.take(i as int)),
                decreases models@.len() - i,
            {
                proof {
                    assert(all.take(i + 1).drop_last() =~= all.take(i as int));
                    assert(all.take(i + 1).last() == models@[i as int].tree());
                }
                match listed_model_of(provider, &models[i]) {
                    Some(m) => {
                        if listed.is_none() && flag_of_keys(
                            &models[i],
                            "isDefault",
                            "default",
                            "selected",
                        ) {
                            listed = Some(m.model_id.clone());
                        }
                        put_metadata(table, m, false);
                    },
                    None => {},
                }
                i += 1;
            }
            assert(all.take(i as int) =~= all);
        },
        None => {},
    }
    match named {
        Some(id) => Some(id),
        None => listed,
    }
}

pub open spec fn default_views(defaults: Seq<(Option<String>, Option<String>)>) -> Seq<
    (Option<Seq<char>>, Option<Seq<char>>),
> {
    Seq::new(
        defaults.len(),
        |i: int| (text::opt_text(defaults[i].0), text::opt_text(defaults[i].1)),
    )
}

fn choose_if_selectable(table: &Vec<RuntimeModelMetadata>, id: &Option<String>) -> (r: Option<
    String,
>)
    ensures
        text::opt_text(r) == if_selectable(catalog::meta_views(table@), text::opt_text(*id)),
{
    match id {
        Some(x) => if is_selectable(table, x.as_str()) {
            Some(x.clone())
        } else {
            None
        },
        None => None,
    }
}

fn find_provider_default(defaults: &Vec<(Option<String>, Option<String>)>, id: &str) -> (r: Option<
    String,
>)
    ensures
        text::opt_text(r) == default_of_provider(default_views(defaults@), id@),
{
    let ghost all = default_views(defaults@);
    let mut i: usize = 0;
    assert(all.skip(0) =~= all);
    while i < defaults.len()
        invariant
            i <= defaults@.len(),
            all == default_views(defaults@),
            default_of_provider(all, id@) == default_of_provider(all.skip(i as int), id@),
        decreases defaults@.len() - i,
    {
        assert(all.skip(i as int)[0] == all[i as int]);
        assert(all.skip(i as int).drop_first() =~= all.skip(i + 1));
        if is_text(&defaults[i].0, id) {
            return copy_text(&defaults[i].1);
        }
        i += 1;
    }
    None
}

fn find_selectable_default(
    table: &Vec<RuntimeModelMetadata>,
    defaults: &Vec<(Option<String>, Option<String>)>,
) -> (r: Option<String>)
    ensures
        text::opt_text(r) == first_selectable_default(
            catalog::meta_views(table@),
            default_views(defaults@),
        ),
{
    let ghost all = default_views(defaults@);
    let ghost t = catalog::meta_views(table@);
    let mut i: usize = 0;
    assert(all.skip(0) =~= all);
    while i < defaults.len()
        invariant
            i <= defaults@.len(),
            all == default_views(defaults@),
            t == catalog::meta_views(table@),
            first_selectable_default(t, all) == first_selectable_default(t, all.skip(i as int)),
        decreases defaults@.len() - i,
    {
        assert(all.skip(i as int)[0] == all[i as int]);
        assert(all.skip(i as int).drop_first() =~= all.skip(i + 1));
        match choose_if_selectable(table, &defaults[i].1) {
            Some(id) => {
                return Some(id);
            },
            None => {},
        }
        i += 1;
    }
    None
}

/// Reads the catalog of a shared runtime.
pub fn catalog_from_response(response: &Json, configured: &Option<String>) -> (r: Result<
    RuntimeModelCatalog,
    RuntimeError,
>)
    ensures
        match r {
            Ok(c) => kun_catalog(response.tree(), text::opt_text(*configured)) == Ok::<
                catalog::CatalogView,
                error::ErrorView,
            >(c@),
            Err(e) => kun_catalog(response.tree(), text::opt_text(*configured)) == Err::<
                catalog::CatalogView,
                error::ErrorView,
            >(e@),
        },
{
    let providers = match list_field(response, "providers") {
        Some(providers) => providers,
        None => {
            return Err(RuntimeError::transport(KUN_CATALOG_UNAVAILABLE));
        },
    };
    let ghost all = json::trees(providers@);
    let mut table: Vec<RuntimeModelMetadata> = Vec::new();
    let mut defaults: Vec<(Option<String>, Option<String>)> = Vec::new();
    let mut i: usize = 0;
    assert(all.take(0) =~= seq![]);
    assert(catalog::meta_views(table@) =~= seq![]);
    assert(default_views(defaults@) =~= seq![]);
    while i < providers.len()
        invariant
            i <= providers@.len(),
            all == json::trees(providers@),
            catalog::meta_views(table@) == providers_table(all.take(i as int)),
            default_views(defaults@) == providers_defaults(all.take(i as int)),
        decreases providers@.len() - i,
    {
        proof {
            assert(all.take(i + 1).drop_last() =~= all.take(i as int));
            assert(all.take(i + 1).last() == providers@[i as int].tree());
        }
        match &providers[i] {
            Json::Object(_) => {
                let id = safe_opt(providers[i].get_str("id"));
                let model = take_provider(&mut table, &providers[i]);
                proof {
                    assert(default_views(defaults@.push((id, model))) =~= default_views(
                        defaults@,
                    ).push((text::opt_text(id), text::opt_text(model))));
                }
                defaults.push((id, model));
            },
            _ => {},
        }
        i += 1;
    }
    assert(all.take(i as int) =~= all);
    if table.len() == 0 {
        return Err(RuntimeError::transport(KUN_CATALOG_UNAVAILABLE));
    }
    let revision = match revision_from(response.get("revision")) {
        Some(s) => Some(s),
        None => safe_opt(response.get_str("catalogRevision")),
    };
    let root = match response.get_str("defaultModelId") {
        Some(s) => safe_model_identifier(s),
        None => safe_opt(response.get_str("defaultModel")),
    };
    let default_provider = safe_opt(response.get_str("defaultProviderId"));
    let default_model_id = match choose_if_selectable(&table, &root) {
        Some(id) => Some(id),
        None => {
            let by_provider = match &default_provider {
                Some(id) => {
                    let model = find_provider_default(&defaults, id.as_str());
                    choose_if_selectable(&table, &model)
                },
                None => find_selectable_default(&table, &defaults),
            };
            match by_provider {
                Some(id) => Some(id),
                None => choose_if_selectable(&table, configured),
            }
        },
    };
    let models = ids_of(&table);
    Ok(RuntimeModelCatalog { models, revision, default_model_id, model_metadata: table })
}

proof fn lemma_first_selectable_default(
    table: Seq<catalog::MetaView>,
    defaults: Seq<(Option<Seq<char>>, Option<Seq<char>>)>,
)
    ensures
        first_selectable_default(table, defaults) matches Some(id) ==> catalog::selectable(
            table,
            id,
        ),
    decreases defaults.len(),
{
    if defaults.len() > 0 {
        lemma_first_selectable_default(table, defaults.drop_first());
    }
}

proof fn lemma_table_get_listed(table: Seq<catalog::MetaView>, id: Seq<char>)
    ensures
        catalog::table_get(table, id) is Some ==> catalog::table_ids(table).contains(id),
    decreases table.len(),
{
    if table.len() > 0 {
        if table[0].model_id == id {
            assert(catalog::table_ids(table)[0] == id);
        } else {
            lemma_table_get_listed(table.drop_first(), id);
            if catalog::table_get(table, id) is Some {
                let rest = catalog::table_ids(table.drop_first());
                let k = choose|k: int| 0 <= k < rest.len() && rest[k] == id;
                assert(catalog::table_ids(table)[k + 1] == id);
            }
        }
    }
}

/// The default model of a catalog is one of its models, and can be chosen. It is
/// never a model that is only the first of the list.
pub proof fn law_default_can_be_chosen(response: json::JsonTree, configured: Option<Seq<char>>)
    ensures
        match kun_catalog(response, configured) {
            Ok(c) => c.default_model_id matches Some(id) ==> c.models.contains(id)
                && catalog::selectable(c.model_metadata, id),
            Err(_) => true,
        },
{
    match kun_catalog(response, configured) {
        Ok(c) => {
            let providers = json::list_value(json::field(response, "providers"@))->0;
            lemma_first_selectable_default(c.model_metadata, providers_defaults(providers));
            match c.default_model_id {
                Some(id) => {
                    lemma_table_get_listed(c.model_metadata, id);
                },
                None => {},
            }
        },
        Err(_) => {},
    }
}

proof fn lemma_table_with_models_sorted(
    table: Seq<catalog::MetaView>,
    provider: json::JsonTree,
    models: Seq<json::JsonTree>,
)
    requires
        crate::order::is_sorted(catalog::table_ids(table)),
    ensures
        crate::order::is_sorted(
            catalog::table_ids(table_with_models(table, provider, models)),
        ),
    decreases models.len(),
{
    if models.len() > 0 {
        lemma_table_with_models_sorted(table, provider, models.drop_last());
        let before = table_with_models(table, provider, models.drop_last());
        match listed_model(provider, models.last()) {
            Some(m) => {
                catalog::lemma_table_put_ids(before, m, false);
                crate::order::law_put_keeps_order(catalog::table_ids(before), m.model_id);
            },
            None => {},
        }
    }
}

/// The models of a catalog are sorted by their ids, and none is listed twice.
pub proof fn law_models_are_sorted(providers: Seq<json::JsonTree>)
    ensures
        crate::order::is_sorted(catalog::table_ids(providers_table(providers))),
    decreases providers.len(),
{
    if providers.len() > 0 {
        law_models_are_sorted(providers.drop_last());
        let p = providers.last();
        lemma_table_with_models_sorted(
            providers_table(providers.drop_last()),
            p,
            provider_models(p),
        );
    }
}

} // verus!
