//! What holds of every catalog of models, in terms of what the providers and pages
//! say of each model.

use vstd::prelude::*;
use vstd::string::*;
use vstd::utf8::*;

use crate::catalog;
use crate::error;
use crate::json;
use crate::kun_catalog;
use crate::kun_frames;
use crate::order;
use crate::text;

verus! {

/// A value says yes or no under a key.
pub open spec fn says(t: json::JsonTree, key: Seq<char>, b: bool) -> bool {
    json::field(t, key) == Some(json::JsonTree::Bool(b))
}

/// A value says neither yes nor no under a key.
pub open spec fn says_nothing(t: json::JsonTree, key: Seq<char>) -> bool {
    !says(t, key, true) && !says(t, key, false)
}

/// A value holds a text under a key.
pub open spec fn holds(t: json::JsonTree, key: Seq<char>, s: Seq<char>) -> bool {
    json::field(t, key) == Some(json::JsonTree::Text(s))
}

/// A value holds no text under a key.
pub open spec fn holds_no(t: json::JsonTree, key: Seq<char>) -> bool {
    !(json::field(t, key) matches Some(json::JsonTree::Text(_)))
}

/// A value holds a list under a key.
pub open spec fn has_list(t: json::JsonTree, key: Seq<char>, l: Seq<json::JsonTree>) -> bool {
    json::field(t, key) == Some(json::JsonTree::List(l))
}

/// A value holds no list under a key.
pub open spec fn has_no_list(t: json::JsonTree, key: Seq<char>) -> bool {
    !(json::field(t, key) matches Some(json::JsonTree::List(_)))
}

/// The name that a provider's entry for a model gives: the entry itself, or what it
/// holds as its id or name.
pub open spec fn goes_by(model: json::JsonTree, name: Seq<char>) -> bool {
    ||| model == json::JsonTree::Text(name)
    ||| holds(model, "id"@, name)
    ||| holds_no(model, "id"@) && holds(model, "modelId"@, name)
    ||| holds_no(model, "id"@) && holds_no(model, "modelId"@) && holds(model, "model_id"@, name)
    ||| holds_no(model, "id"@) && holds_no(model, "modelId"@) && holds_no(model, "model_id"@)
        && holds(model, "name"@, name)
}

/// The list of a provider's models.
pub open spec fn gives_list(provider: json::JsonTree, l: Seq<json::JsonTree>) -> bool {
    ||| has_list(provider, "models"@, l)
    ||| has_no_list(provider, "models"@) && has_list(provider, "availableModels"@, l)
    ||| has_no_list(provider, "models"@) && has_no_list(provider, "availableModels"@) && has_list(
        provider,
        "available_models"@,
        l,
    )
    ||| has_no_list(provider, "models"@) && has_no_list(provider, "availableModels"@)
        && has_no_list(provider, "available_models"@) && has_list(provider, "items"@, l)
}

/// A provider switches a model off.
pub open spec fn switched_off(provider: json::JsonTree, model: json::JsonTree) -> bool {
    says(provider, "enabled"@, false) || says(model, "enabled"@, false)
}

/// A provider lists a model, at an index of its list, under a name that stands for an
/// id.
pub open spec fn lists_as(
    provider: json::JsonTree,
    l: Seq<json::JsonTree>,
    i: int,
    name: Seq<char>,
    id: Seq<char>,
) -> bool {
    &&& provider is Object
    &&& gives_list(provider, l)
    &&& 0 <= i < l.len()
    &&& goes_by(l[i], name)
    &&& text::safe_identifier(name) == Some(id)
}

/// What a model can do, as its catalog entry says: everything that it does not deny.
pub open spec fn can_do_what_is_not_denied(t: json::JsonTree, m: catalog::MetaView) -> bool {
    &&& m.capabilities.streaming <==> !says(t, "streaming"@, false)
    &&& m.capabilities.cancel <==> !says(t, "cancel"@, false)
    &&& m.capabilities.filesystem <==> !says(t, "filesystem"@, false)
    &&& m.capabilities.shell <==> !says(t, "shell"@, false)
}

/// The status "unavailable" is kept as it is.
proof fn lemma_unavailable_is_safe()
    ensures
        text::safe_identifier("unavailable"@) == Some("unavailable"@),
{
    reveal_strlit("unavailable");
    let u = "unavailable"@;
    is_ascii_chars_encode_utf8(u);
    assert(text::trim_start(u) == u);
    assert(text::trim_end(u) == u);
    assert forall|i: int| 0 <= i < u.len() implies !text::is_control_char(#[trigger] u[i]) by {}
}

/// A model is switched off exactly if it or its provider says so. It is unavailable if
/// it says so itself; where it does not say, if its provider is not configured or its
/// status is "unavailable". It can do all that its own entry does not deny.
pub proof fn law_listed_model_is_told_as_listed(
    provider: json::JsonTree,
    model: json::JsonTree,
    name: Seq<char>,
)
    requires
        goes_by(model, name),
    ensures
        match kun_catalog::listed_model(provider, model) {
            None => text::safe_identifier(name) is None,
            Some(m) => {
                &&& text::safe_identifier(name) == Some(m.model_id)
                &&& m.enabled <==> !switched_off(provider, model)
                &&& says(model, "available"@, false) ==> !m.available
                &&& says(model, "available"@, true) ==> m.available
                &&& says_nothing(model, "available"@) && says(provider, "configured"@, false)
                    ==> !m.available
                &&& says_nothing(model, "available"@) && holds(model, "status"@, "unavailable"@) ==> !m.available
                &&& says_nothing(model, "available"@) && holds_no(model, "status"@) && holds(
                    provider,
                    "status"@,
                    "unavailable"@,
                ) ==> !m.available
                &&& says_nothing(model, "available"@) && holds_no(model, "status"@) && holds_no(
                    provider,
                    "status"@,
                ) && !says(provider, "configured"@, false) ==> m.available
                &&& forall|s: Seq<char>|
                    holds(model, "status"@, s) && text::safe_identifier(s) is Some
                        ==> m.status == #[trigger] text::safe_identifier(s)
                &&& json::field(model, "capabilities"@) matches Some(t) ==> (t is Object
                    ==> can_do_what_is_not_denied(t, m)) && (!(t is Object)
                    ==> m.capabilities.streaming && m.capabilities.cancel
                    && m.capabilities.filesystem && m.capabilities.shell)
                &&& json::field(model, "capabilities"@) is None && json::then_field(
                    json::field(provider, "modelCapabilities"@),
                    m.model_id,
                ) is None ==> (json::field(provider, "capabilities"@) matches Some(t) ==> (t is Object
                    ==> can_do_what_is_not_denied(t, m)))
            },
        },
{
    lemma_unavailable_is_safe();
}

/// An entry of a table is found by its id.
proof fn lemma_found(table: Seq<catalog::MetaView>, id: Seq<char>)
    ensures
        match catalog::table_get(table, id) {
            Some(m) => exists|i: int|
                0 <= i < table.len() && #[trigger] table[i] == m && m.model_id == id,
            None => forall|i: int| 0 <= i < table.len() ==> (#[trigger] table[i]).model_id != id,
        },
    decreases table.len(),
{
    if table.len() > 0 && table[0].model_id != id {
        let rest = table.drop_first();
        lemma_found(rest, id);
        assert(forall|i: int| 0 <= i < rest.len() ==> #[trigger] rest[i] == table[i + 1]);
        if let Some(m) = catalog::table_get(rest, id) {
            let i = choose|i: int| 0 <= i < rest.len() && #[trigger] rest[i] == m;
            assert(table[i + 1] == m);
        } else {
            assert forall|i: int| 0 <= i < table.len() implies (#[trigger] table[i]).model_id
                != id by {
                if i > 0 {
                    assert(rest[i - 1] == table[i]);
                }
            }
        }
    }
}

/// In a sorted table the entry at an index is the one that is found by its id.
proof fn lemma_only_one(table: Seq<catalog::MetaView>, i: int)
    requires
        order::is_sorted(catalog::table_ids(table)),
        0 <= i < table.len(),
    ensures
        catalog::table_get(table, table[i].model_id) == Some(table[i]),
{
    let id = table[i].model_id;
    lemma_found(table, id);
    let ids = catalog::table_ids(table);
    assert(ids[i] == id);
    if let Some(m) = catalog::table_get(table, id) {
        let j = choose|j: int| 0 <= j < table.len() && #[trigger] table[j] == m && m.model_id == id;
        assert(ids[j] == id);
        order::lemma_less_irreflexive(id);
        if i < j {
            assert(order::text_less(ids[i], ids[j]));
        } else if j < i {
            assert(order::text_less(ids[j], ids[i]));
        }
    }
}

/// A model that is put into a table is found there, unless there was one of its id that
/// is not to be replaced; every other model is found as before.
pub proof fn law_put_model_is_found(
    table: Seq<catalog::MetaView>,
    m: catalog::MetaView,
    replace: bool,
    id: Seq<char>,
)
    requires
        order::is_sorted(catalog::table_ids(table)),
    ensures
        order::is_sorted(catalog::table_ids(catalog::table_put(table, m, replace))),
        catalog::table_get(table, m.model_id) is None || replace ==> catalog::table_get(
            catalog::table_put(table, m, replace),
            m.model_id,
        ) == Some(m),
        catalog::table_get(table, m.model_id) is Some && !replace ==> catalog::table_put(
            table,
            m,
            replace,
        ) == table,
        id != m.model_id ==> catalog::table_get(catalog::table_put(table, m, replace), id)
            == catalog::table_get(table, id),
{
    let ids = catalog::table_ids(table);
    let after = catalog::table_put(table, m, replace);
    let p = order::place(ids, m.model_id);
    catalog::lemma_table_put_ids(table, m, replace);
    order::law_put_keeps_order(ids, m.model_id);
    order::lemma_place_sorted(ids, m.model_id);
    lemma_found(table, m.model_id);
    lemma_found(table, id);
    lemma_found(after, id);
    if let Some(e) = catalog::table_get(table, m.model_id) {
        let k = choose|k: int|
            0 <= k < table.len() && #[trigger] table[k] == e && e.model_id == m.model_id;
        assert(ids[k] == m.model_id);
        assert(order::placed(ids, m.model_id));
    } else {
        assert(!order::placed(ids, m.model_id)) by {
            if ids.contains(m.model_id) {
                let k = choose|k: int| 0 <= k < ids.len() && ids[k] == m.model_id;
                assert(table[k].model_id == m.model_id);
            }
        }
    }
    if !order::placed(ids, m.model_id) || replace {
        assert(after[p] == m);
        lemma_only_one(after, p);
    }
    if id != m.model_id {
        if let Some(e) = catalog::table_get(table, id) {
            let k = choose|k: int|
                0 <= k < table.len() && #[trigger] table[k] == e && e.model_id == id;
            let j = if order::placed(ids, m.model_id) || k < p {
                k
            } else {
                k + 1
            };
            assert(ids[k] == id);
            assert(after[j] == e);
            lemma_only_one(after, j);
        } else if let Some(e) = catalog::table_get(after, id) {
            let j = choose|j: int|
                0 <= j < after.len() && #[trigger] after[j] == e && e.model_id == id;
            let k = if order::placed(ids, m.model_id) || j < p {
                j
            } else {
                j - 1
            };
            assert(j != p || !(replace || !order::placed(ids, m.model_id)));
            assert(table[k] == e);
        }
    }
}

/// An entry without a name is no model.
proof fn lemma_nameless(provider: json::JsonTree, model: json::JsonTree)
    ensures
        match kun_catalog::listed_model(provider, model) {
            Some(m) => exists|name: Seq<char>| #[trigger]
                goes_by(model, name) && text::safe_identifier(name) == Some(m.model_id),
            None => true,
        },
{
    if let Some(m) = kun_catalog::listed_model(provider, model) {
        let name = match model {
            json::JsonTree::Text(s) => s,
            _ => match json::text_field(model, "id"@) {
                Some(s) => s,
                None => match json::text_field(model, "modelId"@) {
                    Some(s) => s,
                    None => match json::text_field(model, "model_id"@) {
                        Some(s) => s,
                        None => json::text_field(model, "name"@)->0,
                    },
                },
            },
        };
        assert(goes_by(model, name));
    }
}

/// What a provider's models add to a table.
proof fn lemma_models_added(
    table: Seq<catalog::MetaView>,
    provider: json::JsonTree,
    models: Seq<json::JsonTree>,
    id: Seq<char>,
)
    requires
        order::is_sorted(catalog::table_ids(table)),
    ensures
        ({
            let after = kun_catalog::table_with_models(table, provider, models);
            &&& order::is_sorted(catalog::table_ids(after))
            &&& catalog::table_get(table, id) is Some ==> catalog::table_get(after, id)
                == catalog::table_get(table, id)
            &&& catalog::table_get(table, id) is None ==> match catalog::table_get(after, id) {
                Some(m) => exists|i: int|
                    0 <= i < models.len() && kun_catalog::listed_model(
                        provider,
                        #[trigger] models[i],
                    ) == Some(m) && m.model_id == id && (forall|j: int|
                        0 <= j < i ==> !(kun_catalog::listed_model(
                            provider,
                            #[trigger] models[j],
                        ) matches Some(n) && n.model_id == id)),
                None => forall|i: int|
                    0 <= i < models.len() ==> !(kun_catalog::listed_model(
                        provider,
                        #[trigger] models[i],
                    ) matches Some(n) && n.model_id == id),
            }
        }),
    decreases models.len(),
{
    if models.len() > 0 {
        let shorter = models.drop_last();
        lemma_models_added(table, provider, shorter, id);
        let before = kun_catalog::table_with_models(table, provider, shorter);
        let after = kun_catalog::table_with_models(table, provider, models);
        assert(forall|i: int| 0 <= i < shorter.len() ==> #[trigger] shorter[i] == models[i]);
        if let Some(m) = kun_catalog::listed_model(provider, models.last()) {
            law_put_model_is_found(before, m, false, id);
            if m.model_id == id {
                lemma_found(after, id);
            }
        }
        if catalog::table_get(table, id) is None {
            if let Some(e) = catalog::table_get(before, id) {
                let i = choose|i: int|
                    0 <= i < shorter.len() && kun_catalog::listed_model(
                        provider,
                        #[trigger] shorter[i],
                    ) == Some(e) && e.model_id == id && (forall|j: int|
                        0 <= j < i ==> !(kun_catalog::listed_model(
                            provider,
                            #[trigger] shorter[j],
                        ) matches Some(n) && n.model_id == id));
                assert(models[i] == shorter[i]);
                assert forall|j: int| 0 <= j < i implies !(kun_catalog::listed_model(
                    provider,
                    #[trigger] models[j],
                ) matches Some(n) && n.model_id == id) by {
                    assert(shorter[j] == models[j]);
                }
            } else {
                assert forall|j: int| 0 <= j < shorter.len() implies !(kun_catalog::listed_model(
                    provider,
                    #[trigger] models[j],
                ) matches Some(n) && n.model_id == id) by {
                    assert(shorter[j] == models[j]);
                }
                assert(models[models.len() - 1] == models.last());
            }
        }
    }
}

/// The table of some providers, seen from one id.
proof fn lemma_providers_added(providers: Seq<json::JsonTree>, id: Seq<char>)
    ensures
        ({
            let table = kun_catalog::providers_table(providers);
            &&& order::is_sorted(catalog::table_ids(table))
            &&& match catalog::table_get(table, id) {
                Some(m) => exists|p: int, i: int|
                    0 <= p < providers.len() && providers[p] is Object && 0 <= i
                        < kun_catalog::provider_models(providers[p]).len()
                        && kun_catalog::listed_model(
                        providers[p],
                        #[trigger] kun_catalog::provider_models(providers[p])[i],
                    ) == Some(m) && m.model_id == id,
                None => forall|p: int, i: int|
                    0 <= p < providers.len() && providers[p] is Object && 0 <= i
                        < kun_catalog::provider_models(providers[p]).len()
                        ==> !(kun_catalog::listed_model(
                        providers[p],
                        #[trigger] kun_catalog::provider_models(providers[p])[i],
                    ) matches Some(n) && n.model_id == id),
            }
        }),
    decreases providers.len(),
{
    if providers.len() > 0 {
        let shorter = providers.drop_last();
        let last = providers.last();
        let before = kun_catalog::providers_table(shorter);
        let table = kun_catalog::providers_table(providers);
        lemma_providers_added(shorter, id);
        assert(forall|p: int| 0 <= p < shorter.len() ==> #[trigger] shorter[p] == providers[p]);
        assert(providers[providers.len() - 1] == last);
        if last is Object {
            let models = kun_catalog::provider_models(last);
            lemma_models_added(before, last, models, id);
            if let Some(m) = catalog::table_get(before, id) {
                let (p, i) = choose|p: int, i: int|
                    0 <= p < shorter.len() && shorter[p] is Object && 0 <= i
                        < kun_catalog::provider_models(shorter[p]).len()
                        && kun_catalog::listed_model(
                        shorter[p],
                        #[trigger] kun_catalog::provider_models(shorter[p])[i],
                    ) == Some(m) && m.model_id == id;
                assert(kun_catalog::listed_model(
                    providers[p],
                    kun_catalog::provider_models(providers[p])[i],
                ) == Some(m));
            } else if let Some(m) = catalog::table_get(table, id) {
                let i = choose|i: int|
                    0 <= i < models.len() && kun_catalog::listed_model(last, #[trigger] models[i])
                        == Some(m);
                assert(kun_catalog::listed_model(
                    providers[providers.len() - 1],
                    kun_catalog::provider_models(providers[providers.len() - 1])[i],
                ) == Some(m));
            } else {
                assert forall|p: int, i: int|
                    0 <= p < providers.len() && providers[p] is Object && 0 <= i
                        < kun_catalog::provider_models(
                        providers[p],
                    ).len() implies !(kun_catalog::listed_model(
                    providers[p],
                    #[trigger] kun_catalog::provider_models(providers[p])[i],
                ) matches Some(n) && n.model_id == id) by {
                    if p < shorter.len() {
                        assert(shorter[p] == providers[p]);
                        let w = kun_catalog::provider_models(shorter[p])[i];
                    } else {
                        assert(models[i] == kun_catalog::provider_models(providers[p])[i]);
                    }
                }
            }
        } else {
            if let Some(m) = catalog::table_get(before, id) {
                let (p, i) = choose|p: int, i: int|
                    0 <= p < shorter.len() && shorter[p] is Object && 0 <= i
                        < kun_catalog::provider_models(shorter[p]).len()
                        && kun_catalog::listed_model(
                        shorter[p],
                        #[trigger] kun_catalog::provider_models(shorter[p])[i],
                    ) == Some(m) && m.model_id == id;
                assert(kun_catalog::listed_model(
                    providers[p],
                    kun_catalog::provider_models(providers[p])[i],
                ) == Some(m));
            } else {
                assert forall|p: int, i: int|
                    0 <= p < providers.len() && providers[p] is Object && 0 <= i
                        < kun_catalog::provider_models(
                        providers[p],
                    ).len() implies !(kun_catalog::listed_model(
                    providers[p],
                    #[trigger] kun_catalog::provider_models(providers[p])[i],
                ) matches Some(n) && n.model_id == id) by {
                    assert(shorter[p] == providers[p]);
                    let w = kun_catalog::provider_models(shorter[p])[i];
                }
            }
        }
    }
}

/// The list of a provider's models is the one that it gives.
proof fn lemma_given_list(provider: json::JsonTree)
    ensures
        forall|l: Seq<json::JsonTree>| #[trigger]
            gives_list(provider, l) ==> kun_catalog::provider_models(provider) == l,
        kun_catalog::provider_models(provider).len() > 0 ==> gives_list(
            provider,
            kun_catalog::provider_models(provider),
        ),
{
}

/// A model that each provider that lists it switches off can never be chosen: it is not
/// offered for a run, and it is not the default.
pub proof fn law_switched_off_models_are_never_chosen(
    response: json::JsonTree,
    configured: Option<Seq<char>>,
    providers: Seq<json::JsonTree>,
    id: Seq<char>,
)
    requires
        has_list(response, "providers"@, providers),
        forall|p: int, l: Seq<json::JsonTree>, i: int, name: Seq<char>|
            0 <= p < providers.len() && #[trigger] lists_as(providers[p], l, i, name, id)
                ==> switched_off(providers[p], l[i]),
    ensures
        match kun_catalog::kun_catalog(response, configured) {
            Ok(c) => {
                &&& !catalog::selectable(c.model_metadata, id)
                &&& !kun_frames::offers(c, id)
                &&& c.default_model_id != Some(id)
                &&& forall|k: int|
                    0 <= k < c.model_metadata.len() && (#[trigger] c.model_metadata[k]).model_id
                        == id ==> !c.model_metadata[k].enabled
            },
            Err(_) => true,
        },
{
    let table = kun_catalog::providers_table(providers);
    lemma_providers_added(providers, id);
    if let Some(m) = catalog::table_get(table, id) {
        let (p, i) = choose|p: int, i: int|
            0 <= p < providers.len() && providers[p] is Object && 0 <= i
                < kun_catalog::provider_models(providers[p]).len() && kun_catalog::listed_model(
                providers[p],
                #[trigger] kun_catalog::provider_models(providers[p])[i],
            ) == Some(m) && m.model_id == id;
        let l = kun_catalog::provider_models(providers[p]);
        lemma_given_list(providers[p]);
        lemma_nameless(providers[p], l[i]);
        let name = choose|name: Seq<char>| #[trigger]
            goes_by(l[i], name) && text::safe_identifier(name) == Some(m.model_id);
        assert(lists_as(providers[p], l, i, name, id));
        law_listed_model_is_told_as_listed(providers[p], l[i], name);
        assert(!m.enabled);
    }
    if let Ok(c) = kun_catalog::kun_catalog(response, configured) {
        lemma_found(table, id);
        assert forall|k: int|
            0 <= k < c.model_metadata.len() && (#[trigger] c.model_metadata[k]).model_id
                == id implies !c.model_metadata[k].enabled by {
            lemma_only_one(table, k);
        }
        assert(c.models.contains(id) ==> catalog::table_get(table, id) is Some) by {
            if c.models.contains(id) {
                let k = choose|k: int| 0 <= k < c.models.len() && c.models[k] == id;
                assert(table[k].model_id == id);
            }
        }
        kun_catalog::law_default_can_be_chosen(response, configured);
    }
}

/// Every model that a provider lists under a safe name is in the catalog. Where one
/// provider alone lists it, and only once, it can be chosen exactly if it is neither
/// unavailable nor switched off.
pub proof fn law_listed_models_are_in_the_catalog(
    response: json::JsonTree,
    configured: Option<Seq<char>>,
    providers: Seq<json::JsonTree>,
    p: int,
    l: Seq<json::JsonTree>,
    i: int,
    name: Seq<char>,
    id: Seq<char>,
)
    requires
        has_list(response, "providers"@, providers),
        0 <= p < providers.len(),
        lists_as(providers[p], l, i, name, id),
    ensures
        kun_catalog::kun_catalog(response, configured) matches Ok(c) && {
            &&& c.models.contains(id)
            &&& (forall|q: int, k: Seq<json::JsonTree>, j: int, other: Seq<char>|
                0 <= q < providers.len() && #[trigger] lists_as(providers[q], k, j, other, id)
                    ==> q == p && j == i) ==> {
                &&& switched_off(providers[p], l[i]) ==> !catalog::selectable(c.model_metadata, id)
                &&& says(l[i], "available"@, false) ==> !catalog::selectable(c.model_metadata, id)
                &&& !switched_off(providers[p], l[i]) && says(l[i], "available"@, true)
                    ==> catalog::selectable(c.model_metadata, id) && kun_frames::offers(c, id)
                &&& !switched_off(providers[p], l[i]) && says_nothing(l[i], "available"@)
                    && !says(providers[p], "configured"@, false) && holds_no(l[i], "status"@)
                    && holds_no(providers[p], "status"@) ==> catalog::selectable(
                    c.model_metadata,
                    id,
                ) && kun_frames::offers(c, id)
            }
        },
{
    let table = kun_catalog::providers_table(providers);
    lemma_providers_added(providers, id);
    lemma_given_list(providers[p]);
    law_listed_model_is_told_as_listed(providers[p], l[i], name);
    assert(kun_catalog::provider_models(providers[p])[i] == l[i]);
    lemma_found(table, id);
    assert(catalog::table_get(table, id) is Some);
    let m = catalog::table_get(table, id)->0;
    let k = choose|k: int| 0 <= k < table.len() && #[trigger] table[k] == m && m.model_id == id;
    assert(catalog::table_ids(table)[k] == id);
    let (q, j) = choose|q: int, j: int|
        0 <= q < providers.len() && providers[q] is Object && 0 <= j
            < kun_catalog::provider_models(providers[q]).len() && kun_catalog::listed_model(
            providers[q],
            #[trigger] kun_catalog::provider_models(providers[q])[j],
        ) == Some(m) && m.model_id == id;
    lemma_given_list(providers[q]);
    let w = kun_catalog::provider_models(providers[q]);
    lemma_nameless(providers[q], w[j]);
    let other = choose|other: Seq<char>| #[trigger]
        goes_by(w[j], other) && text::safe_identifier(other) == Some(m.model_id);
    assert(lists_as(providers[q], w, j, other, id));
}

/// A provider names no default model, and marks none of those it lists as one.
pub open spec fn names_no_default(provider: json::JsonTree) -> bool {
    &&& holds_no(provider, "selectedModel"@)
    &&& holds_no(provider, "defaultModelId"@)
    &&& holds_no(provider, "defaultModel"@)
    &&& forall|l: Seq<json::JsonTree>, i: int|
        gives_list(provider, l) && 0 <= i < l.len() ==> !says(
            #[trigger] l[i],
            "isDefault"@,
            true,
        ) && !says(l[i], "default"@, true) && !says(l[i], "selected"@, true)
}

proof fn lemma_none_marked(models: Seq<json::JsonTree>)
    requires
        forall|i: int|
            0 <= i < models.len() ==> !says(#[trigger] models[i], "isDefault"@, true) && !says(
                models[i],
                "default"@,
                true,
            ) && !says(models[i], "selected"@, true),
    ensures
        kun_catalog::first_listed_default(models) is None,
    decreases models.len(),
{
    if models.len() > 0 {
        let shorter = models.drop_last();
        assert(forall|i: int| 0 <= i < shorter.len() ==> #[trigger] shorter[i] == models[i]);
        assert(models[models.len() - 1] == models.last());
        lemma_none_marked(shorter);
    }
}

proof fn lemma_no_default(provider: json::JsonTree)
    requires
        names_no_default(provider),
    ensures
        kun_catalog::provider_default(provider) is None,
{
    lemma_given_list(provider);
    let l = kun_catalog::provider_models(provider);
    assert forall|i: int| 0 <= i < l.len() implies !says(#[trigger] l[i], "isDefault"@, true)
        && !says(l[i], "default"@, true) && !says(l[i], "selected"@, true) by {
        assert(gives_list(provider, l));
    }
    lemma_none_marked(l);
}

/// The defaults of some providers, one for each that is one.
proof fn lemma_defaults(providers: Seq<json::JsonTree>)
    requires
        forall|p: int| 0 <= p < providers.len() ==> names_no_default(#[trigger] providers[p]),
    ensures
        forall|k: int|
            0 <= k < kun_catalog::providers_defaults(providers).len() ==> (
            #[trigger] kun_catalog::providers_defaults(providers)[k]).1 is None,
    decreases providers.len(),
{
    if providers.len() > 0 {
        let shorter = providers.drop_last();
        assert(forall|p: int| 0 <= p < shorter.len() ==> #[trigger] shorter[p] == providers[p]);
        lemma_defaults(shorter);
        assert(providers[providers.len() - 1] == providers.last());
        lemma_no_default(providers.last());
    }
}

proof fn lemma_nothing_to_choose(
    table: Seq<catalog::MetaView>,
    defaults: Seq<(Option<Seq<char>>, Option<Seq<char>>)>,
    id: Seq<char>,
)
    requires
        forall|k: int| 0 <= k < defaults.len() ==> (#[trigger] defaults[k]).1 is None,
    ensures
        kun_catalog::default_of_provider(defaults, id) is None,
        kun_catalog::first_selectable_default(table, defaults) is None,
    decreases defaults.len(),
{
    if defaults.len() > 0 {
        let rest = defaults.drop_first();
        assert(forall|k: int| 0 <= k < rest.len() ==> #[trigger] rest[k] == defaults[k + 1]);
        lemma_nothing_to_choose(table, rest, id);
    }
}

/// The model that a catalog names as its default is the default if it can be chosen.
pub proof fn law_named_default_is_the_default(
    response: json::JsonTree,
    configured: Option<Seq<char>>,
    name: Seq<char>,
    id: Seq<char>,
)
    requires
        holds(response, "defaultModelId"@, name) || holds_no(response, "defaultModelId"@) && holds(
            response,
            "defaultModel"@,
            name,
        ),
        text::safe_identifier(name) == Some(id),
    ensures
        match kun_catalog::kun_catalog(response, configured) {
            Ok(c) => catalog::selectable(c.model_metadata, id) ==> c.default_model_id == Some(id),
            Err(_) => true,
        },
{
}

/// Where neither the catalog nor any of its providers names a default model, the
/// configured one is the default if it can be chosen, and otherwise there is none: the
/// order of the models never stands in for it.
pub proof fn law_no_model_is_the_default_by_its_place(
    response: json::JsonTree,
    configured: Option<Seq<char>>,
    providers: Seq<json::JsonTree>,
)
    requires
        has_list(response, "providers"@, providers),
        holds_no(response, "defaultModelId"@),
        holds_no(response, "defaultModel"@),
        forall|p: int| 0 <= p < providers.len() ==> names_no_default(#[trigger] providers[p]),
    ensures
        match kun_catalog::kun_catalog(response, configured) {
            Ok(c) => match configured {
                Some(id) => c.default_model_id == if catalog::selectable(c.model_metadata, id) {
                    Some(id)
                } else {
                    None
                },
                None => c.default_model_id is None,
            },
            Err(_) => true,
        },
{
    let defaults = kun_catalog::providers_defaults(providers);
    lemma_defaults(providers);
    let pid = catalog::safe(json::text_field(response, "defaultProviderId"@));
    lemma_nothing_to_choose(
        kun_catalog::providers_table(providers),
        defaults,
        match pid {
            Some(x) => x,
            None => seq![],
        },
    );
}

proof fn lemma_first_provider(
    providers: Seq<json::JsonTree>,
    p: int,
    name: Seq<char>,
    pid: Seq<char>,
)
    requires
        0 <= p < providers.len(),
        providers[p] is Object,
        holds(providers[p], "id"@, name),
        text::safe_identifier(name) == Some(pid),
        forall|q: int, other: Seq<char>|
            0 <= q < p && #[trigger] holds(providers[q], "id"@, other) ==> text::safe_identifier(
                other,
            ) != Some(pid),
    ensures
        ({
            let d = kun_catalog::providers_defaults(providers);
            exists|k: int|
                0 <= k < d.len() && (#[trigger] d[k]).0 == Some(pid) && d[k].1
                    == kun_catalog::provider_default(providers[p]) && (forall|j: int|
                    0 <= j < k ==> (#[trigger] d[j]).0 != Some(pid))
        }),
    decreases providers.len(),
{
    let shorter = providers.drop_last();
    let d = kun_catalog::providers_defaults(providers);
    let before = kun_catalog::providers_defaults(shorter);
    assert(forall|q: int| 0 <= q < shorter.len() ==> #[trigger] shorter[q] == providers[q]);
    if p < shorter.len() {
        assert forall|q: int, other: Seq<char>|
            0 <= q < p && #[trigger] holds(
                shorter[q],
                "id"@,
                other,
            ) implies text::safe_identifier(other) != Some(pid) by {
            assert(holds(providers[q], "id"@, other));
        }
        lemma_first_provider(shorter, p, name, pid);
        let k = choose|k: int|
            0 <= k < before.len() && (#[trigger] before[k]).0 == Some(pid) && before[k].1
                == kun_catalog::provider_default(shorter[p]) && (forall|j: int|
                0 <= j < k ==> (#[trigger] before[j]).0 != Some(pid));
        assert(d[k] == before[k]);
        assert forall|j: int| 0 <= j < k implies (#[trigger] d[j]).0 != Some(pid) by {
            assert(before[j] == d[j]);
        }
    } else {
        lemma_no_such_provider(shorter, pid);
        let k = before.len() as int;
        assert(d[k].0 == Some(pid));
        assert forall|j: int| 0 <= j < k implies (#[trigger] d[j]).0 != Some(pid) by {
            assert(before[j] == d[j]);
        }
    }
}

proof fn lemma_no_such_provider(providers: Seq<json::JsonTree>, pid: Seq<char>)
    requires
        forall|q: int, other: Seq<char>|
            0 <= q < providers.len() && #[trigger] holds(providers[q], "id"@, other)
                ==> text::safe_identifier(other) != Some(pid),
    ensures
        forall|j: int|
            0 <= j < kun_catalog::providers_defaults(providers).len() ==> (
            #[trigger] kun_catalog::providers_defaults(providers)[j]).0 != Some(pid),
    decreases providers.len(),
{
    if providers.len() > 0 {
        let shorter = providers.drop_last();
        assert(forall|q: int| 0 <= q < shorter.len() ==> #[trigger] shorter[q] == providers[q]);
        assert forall|q: int, other: Seq<char>|
            0 <= q < shorter.len() && #[trigger] holds(
                shorter[q],
                "id"@,
                other,
            ) implies text::safe_identifier(other) != Some(pid) by {
            assert(holds(providers[q], "id"@, other));
        }
        lemma_no_such_provider(shorter, pid);
        let last = providers.last();
        assert(providers[providers.len() - 1] == last);
        if let Some(s) = json::text_field(last, "id"@) {
            assert(holds(providers[providers.len() - 1], "id"@, s));
        }
    }
}

proof fn lemma_default_found(
    d: Seq<(Option<Seq<char>>, Option<Seq<char>>)>,
    pid: Seq<char>,
    k: int,
)
    requires
        0 <= k < d.len(),
        d[k].0 == Some(pid),
        forall|j: int| 0 <= j < k ==> (#[trigger] d[j]).0 != Some(pid),
    ensures
        kun_catalog::default_of_provider(d, pid) == d[k].1,
    decreases d.len(),
{
    if k > 0 {
        let rest = d.drop_first();
        assert(forall|j: int| 0 <= j < rest.len() ==> #[trigger] rest[j] == d[j + 1]);
        lemma_default_found(rest, pid, k - 1);
    }
}

/// Where the catalog names no model but a provider as its default, the model that this
/// provider has selected is the default if it can be chosen, whatever the other
/// providers name.
pub proof fn law_default_provider_names_the_default(
    response: json::JsonTree,
    configured: Option<Seq<char>>,
    providers: Seq<json::JsonTree>,
    wanted: Seq<char>,
    p: int,
    pname: Seq<char>,
    pid: Seq<char>,
    name: Seq<char>,
    id: Seq<char>,
)
    requires
        has_list(response, "providers"@, providers),
        holds_no(response, "defaultModelId"@),
        holds_no(response, "defaultModel"@),
        holds(response, "defaultProviderId"@, wanted),
        text::safe_identifier(wanted) == Some(pid),
        0 <= p < providers.len(),
        holds(providers[p], "id"@, pname),
        text::safe_identifier(pname) == Some(pid),
        forall|q: int, other: Seq<char>|
            0 <= q < p && #[trigger] holds(providers[q], "id"@, other) ==> text::safe_identifier(
                other,
            ) != Some(pid),
        holds(providers[p], "selectedModel"@, name) || holds_no(providers[p], "selectedModel"@)
            && holds(providers[p], "defaultModelId"@, name) || holds_no(
            providers[p],
            "selectedModel"@,
        ) && holds_no(providers[p], "defaultModelId"@) && holds(
            providers[p],
            "defaultModel"@,
            name,
        ),
        text::safe_identifier(name) == Some(id),
    ensures
        match kun_catalog::kun_catalog(response, configured) {
            Ok(c) => catalog::selectable(c.model_metadata, id) ==> c.default_model_id == Some(id),
            Err(_) => true,
        },
{
    lemma_first_provider(providers, p, pname, pid);
    let d = kun_catalog::providers_defaults(providers);
    let k = choose|k: int|
        0 <= k < d.len() && (#[trigger] d[k]).0 == Some(pid) && d[k].1
            == kun_catalog::provider_default(providers[p]) && (forall|j: int|
            0 <= j < k ==> (#[trigger] d[j]).0 != Some(pid));
    lemma_default_found(d, pid, k);
}

/// A response without a list of providers, or whose providers list no model under a
/// safe name, is no catalog.
pub proof fn law_response_without_models_is_no_catalog(
    response: json::JsonTree,
    configured: Option<Seq<char>>,
    providers: Seq<json::JsonTree>,
)
    requires
        has_no_list(response, "providers"@) || has_list(response, "providers"@, providers) && (
        forall|p: int, l: Seq<json::JsonTree>, i: int, name: Seq<char>, id: Seq<char>|
            0 <= p < providers.len() ==> !#[trigger] lists_as(providers[p], l, i, name, id)),
    ensures
        kun_catalog::kun_catalog(response, configured) == Err::<
            catalog::CatalogView,
            error::ErrorView,
        >(error::ErrorView::Transport("kun_catalog_unavailable"@)),
{
    if has_list(response, "providers"@, providers) {
        let table = kun_catalog::providers_table(providers);
        if table.len() > 0 {
            let id = table[0].model_id;
            lemma_providers_added(providers, id);
            lemma_found(table, id);
            let m = catalog::table_get(table, id)->0;
            let (q, j) = choose|q: int, j: int|
                0 <= q < providers.len() && providers[q] is Object && 0 <= j
                    < kun_catalog::provider_models(providers[q]).len() && kun_catalog::listed_model(
                    providers[q],
                    #[trigger] kun_catalog::provider_models(providers[q])[j],
                ) == Some(m) && m.model_id == id;
            lemma_given_list(providers[q]);
            let w = kun_catalog::provider_models(providers[q]);
            lemma_nameless(providers[q], w[j]);
            let other = choose|other: Seq<char>| #[trigger]
                goes_by(w[j], other) && text::safe_identifier(other) == Some(m.model_id);
            assert(lists_as(providers[q], w, j, other, id));
        }
    }
}

/// The name that a row of a page gives for its model.
pub open spec fn row_goes_by(row: json::JsonTree, name: Seq<char>) -> bool {
    ||| row == json::JsonTree::Text(name)
    ||| holds(row, "id"@, name)
    ||| holds_no(row, "id"@) && holds(row, "model"@, name)
    ||| holds_no(row, "id"@) && holds_no(row, "model"@) && holds(row, "name"@, name)
}

/// The rows of a page.
pub open spec fn gives_rows(page: json::JsonTree, rows: Seq<json::JsonTree>) -> bool {
    ||| has_list(page, "models"@, rows)
    ||| has_no_list(page, "models"@) && has_list(page, "items"@, rows)
    ||| has_no_list(page, "models"@) && has_no_list(page, "items"@) && has_list(
        page,
        "data"@,
        rows,
    )
    ||| has_no_list(page, "models"@) && has_no_list(page, "items"@) && has_no_list(page, "data"@)
        && has_list(page, "results"@, rows)
}

/// A row names a model that stands for an id.
pub open spec fn row_names(row: json::JsonTree, name: Seq<char>, id: Seq<char>) -> bool {
    row_goes_by(row, name) && text::safe_identifier(name) == Some(id)
}

/// What an entry of a table must say of the model of a row: it is switched off exactly
/// if the row says so, and unavailable if the row says so, or does not say but gives it
/// the status "unavailable".
pub open spec fn told_by(m: catalog::MetaView, row: json::JsonTree, id: Seq<char>) -> bool {
    &&& m.model_id == id
    &&& m.enabled <==> !says(row, "enabled"@, false)
    &&& says(row, "available"@, false) ==> !m.available
    &&& says(row, "available"@, true) ==> m.available
    &&& says_nothing(row, "available"@) && holds(row, "status"@, "unavailable"@) ==> !m.available
    &&& says_nothing(row, "available"@) && holds_no(row, "status"@) ==> m.available
    &&& forall|s: Seq<char>|
        holds(row, "status"@, s) ==> m.status == #[trigger] text::safe_identifier(s)
    &&& json::field(row, "capabilities"@) matches Some(t) ==> (t is Object
        ==> can_do_what_is_not_denied(t, m))
    &&& json::field(row, "capabilities"@) is None ==> m.capabilities.streaming
        && m.capabilities.cancel && m.capabilities.filesystem && m.capabilities.shell
}

/// A row that gives a safe name is a model, told as the row tells it; one that does not
/// is none.
pub proof fn law_row_is_told_as_given(row: json::JsonTree, name: Seq<char>)
    requires
        row_goes_by(row, name),
    ensures
        match text::safe_identifier(name) {
            Some(id) => catalog::row_model(row) matches Some(m) && told_by(m, row, id),
            None => catalog::row_model(row) is None,
        },
{
    lemma_unavailable_is_safe();
}

proof fn lemma_row_nameless(row: json::JsonTree)
    ensures
        match catalog::row_model(row) {
            Some(m) => exists|name: Seq<char>| #[trigger] row_names(row, name, m.model_id),
            None => true,
        },
{
    if let Some(m) = catalog::row_model(row) {
        let name = match row {
            json::JsonTree::Text(s) => s,
            _ => match json::text_field(row, "id"@) {
                Some(s) => s,
                None => match json::text_field(row, "model"@) {
                    Some(s) => s,
                    None => json::text_field(row, "name"@)->0,
                },
            },
        };
        assert(row_names(row, name, m.model_id));
    }
}

proof fn lemma_rows_added(
    table: Seq<catalog::MetaView>,
    rows: Seq<json::JsonTree>,
    id: Seq<char>,
)
    requires
        order::is_sorted(catalog::table_ids(table)),
    ensures
        ({
            let after = catalog::table_put_all(table, catalog::row_models(rows));
            &&& order::is_sorted(catalog::table_ids(after))
            &&& (forall|j: int, other: Seq<char>|
                0 <= j < rows.len() ==> !#[trigger] row_names(rows[j], other, id))
                ==> catalog::table_get(after, id) == catalog::table_get(table, id)
            &&& forall|k: int, name: Seq<char>|
                0 <= k < rows.len() && #[trigger] row_names(rows[k], name, id) && (forall|
                    j: int,
                    other: Seq<char>,
                |
                    k < j < rows.len() ==> !#[trigger] row_names(rows[j], other, id))
                    ==> catalog::table_get(after, id) == catalog::row_model(rows[k])
        }),
    decreases rows.len(),
{
    let after = catalog::table_put_all(table, catalog::row_models(rows));
    if rows.len() > 0 {
        let shorter = rows.drop_last();
        let last = rows.last();
        lemma_rows_added(table, shorter, id);
        assert(forall|j: int| 0 <= j < shorter.len() ==> #[trigger] shorter[j] == rows[j]);
        assert(rows[rows.len() - 1] == last);
        let before = catalog::table_put_all(table, catalog::row_models(shorter));
        lemma_row_nameless(last);
        if let Some(m) = catalog::row_model(last) {
            let all = catalog::row_models(rows);
            assert(all.drop_last() =~= catalog::row_models(shorter));
            assert(all.last() == m);
            law_put_model_is_found(before, m, true, id);
            let own = choose|own: Seq<char>| #[trigger] row_names(last, own, m.model_id);
            assert(row_names(rows[rows.len() - 1], own, m.model_id));
        }
        if forall|j: int, other: Seq<char>|
            0 <= j < rows.len() ==> !#[trigger] row_names(rows[j], other, id) {
            assert forall|j: int, other: Seq<char>|
                0 <= j < shorter.len() implies !#[trigger] row_names(shorter[j], other, id) by {
                assert(!row_names(rows[j], other, id));
            }
        }
        assert forall|k: int, name: Seq<char>|
            0 <= k < rows.len() && #[trigger] row_names(rows[k], name, id) && (forall|
                j: int,
                other: Seq<char>,
            |
                k < j < rows.len() ==> !#[trigger] row_names(
                    rows[j],
                    other,
                    id,
                )) implies catalog::table_get(after, id) == catalog::row_model(rows[k]) by {
            law_row_is_told_as_given(rows[k], name);
            if k < shorter.len() {
                assert(row_names(shorter[k], name, id));
                assert forall|j: int, other: Seq<char>|
                    k < j < shorter.len() implies !#[trigger] row_names(
                    shorter[j],
                    other,
                    id,
                ) by {
                    assert(!row_names(rows[j], other, id));
                }
                if let Some(m) = catalog::row_model(last) {
                    if m.model_id == id {
                        let own = choose|own: Seq<char>| #[trigger]
                            row_names(last, own, m.model_id);
                        assert(!row_names(rows[rows.len() - 1], own, id));
                    }
                }
            }
        }
    }
}

/// The rows of a page are the ones that it gives.
proof fn lemma_given_rows(page: json::JsonTree)
    ensures
        forall|rows: Seq<json::JsonTree>| #[trigger]
            gives_rows(page, rows) ==> catalog::page_rows(page) == rows,
{
}

/// After a page, a model that it names is known as the last row that names it tells it;
/// a model that no row names is known as before.
pub proof fn law_page_tells_its_models(
    s: catalog::PagerView,
    page: json::JsonTree,
    rows: Seq<json::JsonTree>,
    id: Seq<char>,
)
    requires
        order::is_sorted(catalog::table_ids(s.table)),
        gives_rows(page, rows),
    ensures
        ({
            let after = s.step(catalog::page_of(page));
            &&& order::is_sorted(catalog::table_ids(after.table))
            &&& (forall|j: int, other: Seq<char>|
                0 <= j < rows.len() ==> !#[trigger] row_names(rows[j], other, id))
                ==> catalog::table_get(after.table, id) == catalog::table_get(s.table, id)
            &&& forall|k: int, name: Seq<char>|
                0 <= k < rows.len() && #[trigger] row_names(rows[k], name, id) && (forall|
                    j: int,
                    other: Seq<char>,
                |
                    k < j < rows.len() ==> !#[trigger] row_names(rows[j], other, id)) ==> (
                catalog::table_get(after.table, id) matches Some(m) && told_by(m, rows[k], id))
        }),
{
    lemma_given_rows(page);
    lemma_rows_added(s.table, rows, id);
    let after = s.step(catalog::page_of(page));
    assert forall|k: int, name: Seq<char>|
        0 <= k < rows.len() && #[trigger] row_names(rows[k], name, id) && (forall|
            j: int,
            other: Seq<char>,
        |
            k < j < rows.len() ==> !#[trigger] row_names(rows[j], other, id)) implies (
    catalog::table_get(after.table, id) matches Some(m) && told_by(m, rows[k], id)) by {
        law_row_is_told_as_given(rows[k], name);
    }
}

/// The cursor that a page gives for the next one.
pub open spec fn gives_cursor(page: json::JsonTree, name: Seq<char>) -> bool {
    ||| holds(page, "nextCursor"@, name)
    ||| holds_no(page, "nextCursor"@) && holds(page, "next_cursor"@, name)
    ||| holds_no(page, "nextCursor"@) && holds_no(page, "next_cursor"@) && holds(
        page,
        "cursor"@,
        name,
    )
}

/// Pages are read on exactly while each gives a cursor that none before it gave, up to
/// the 25th; the next page is asked for with that cursor.
pub proof fn law_pages_are_read_to_the_end(
    s: catalog::PagerView,
    page: json::JsonTree,
    name: Seq<char>,
)
    requires
        order::is_sorted(s.cursors),
    ensures
        ({
            let after = s.step(catalog::page_of(page));
            &&& after.pages == s.pages + 1
            &&& holds_no(page, "nextCursor"@) && holds_no(page, "next_cursor"@) && holds_no(
                page,
                "cursor"@,
            ) ==> after.done
            &&& s.pages >= 24 ==> after.done
            &&& gives_cursor(page, name) ==> match text::safe_identifier(name) {
                None => after.done,
                Some(c) => {
                    &&& s.cursors.contains(c) ==> after.done
                    &&& !s.cursors.contains(c) ==> after.cursor == Some(c)
                    &&& !s.cursors.contains(c) && s.pages < 24 ==> !after.done
                    &&& after.cursors.contains(c)
                    &&& order::is_sorted(after.cursors)
                    &&& forall|x: Seq<char>| #[trigger]
                        s.cursors.contains(x) ==> after.cursors.contains(x)
                },
            }
        }),
{
    if gives_cursor(page, name) {
        if let Some(c) = text::safe_identifier(name) {
            order::lemma_place_sorted(s.cursors, c);
            order::law_put_keeps_order(s.cursors, c);
            assert(order::put_text(s.cursors, c).contains(c));
        }
    }
}

/// The first page that names a default model decides: later pages do not change it. It
/// is the default of the catalog if it is listed, and no other model is. The configured
/// model is the default only where no page names one.
pub proof fn law_first_named_default_stands(
    s: catalog::PagerView,
    page: json::JsonTree,
    name: Seq<char>,
    configured: Option<Seq<char>>,
)
    ensures
        ({
            let after = s.step(catalog::page_of(page));
            &&& s.default_model_id is Some ==> after.default_model_id == s.default_model_id
            &&& s.default_model_id is None && (holds(page, "defaultModelId"@, name) || holds_no(
                page,
                "defaultModelId"@,
            ) && holds(page, "defaultModel"@, name) || holds_no(page, "defaultModelId"@)
                && holds_no(page, "defaultModel"@) && holds(page, "configuredDefault"@, name))
                && text::safe_identifier(name) is Some ==> after.default_model_id
                == text::safe_identifier(name)
            &&& s.revision is Some ==> after.revision == s.revision
        }),
        match s.catalog(configured) {
            Ok(c) => {
                &&& c.model_metadata == s.table
                &&& c.default_model_id is None || c.default_model_id == s.default_model_id
                    || s.default_model_id is None && c.default_model_id == configured
                &&& s.default_model_id matches Some(id) ==> (c.models.contains(id)
                    ==> c.default_model_id == Some(id)) && (!c.models.contains(id)
                    ==> c.default_model_id is None)
                &&& s.default_model_id is None ==> (configured matches Some(id) ==> (
                c.models.contains(id) ==> c.default_model_id == Some(id)))
                &&& s.default_model_id is None && configured is None ==> c.default_model_id is None
                &&& c.revision == s.revision
            },
            Err(e) => s.table.len() == 0 && e == error::ErrorView::Transport(
                "codex_catalog_unavailable"@,
            ),
        },
{
    if let Ok(c) = s.catalog(configured) {
        let wanted = json::first_of(s.default_model_id, configured);
        if let Some(id) = wanted {
            lemma_found(s.table, id);
            if catalog::table_get(s.table, id) is Some {
                let m = catalog::table_get(s.table, id)->0;
                let k = choose|k: int|
                    0 <= k < s.table.len() && #[trigger] s.table[k] == m && m.model_id == id;
                assert(c.models[k] == id);
            } else if c.models.contains(id) {
                let k = choose|k: int| 0 <= k < c.models.len() && c.models[k] == id;
                assert(s.table[k].model_id == id);
            }
        }
    }
}

/// Where no text names a default, the first row that says it is one gives it, and rows
/// that do not say so never do.
pub proof fn law_marked_row_is_the_default(
    page: json::JsonTree,
    rows: Seq<json::JsonTree>,
    k: int,
    name: Seq<char>,
)
    requires
        gives_rows(page, rows),
        holds_no(page, "defaultModelId"@),
        holds_no(page, "defaultModel"@),
        holds_no(page, "configuredDefault"@),
    ensures
        (forall|j: int| 0 <= j < rows.len() ==> !marked(#[trigger] rows[j])) ==> catalog::page_of(
            page,
        ).default_model_id is None,
        0 <= k < rows.len() && marked(rows[k]) && row_goes_by(rows[k], name)
            && text::safe_identifier(name) is Some && (forall|j: int|
            0 <= j < k ==> !marked(#[trigger] rows[j])) ==> catalog::page_of(page).default_model_id
            == text::safe_identifier(name),
{
    lemma_given_rows(page);
    lemma_marked_rows(rows, k, name);
}

/// A row says that its model is the default.
pub open spec fn marked(row: json::JsonTree) -> bool {
    ||| says(row, "isDefault"@, true)
    ||| says_nothing(row, "isDefault"@) && says(row, "default"@, true)
    ||| says_nothing(row, "isDefault"@) && says_nothing(row, "default"@) && says(
        row,
        "configuredDefault"@,
        true,
    )
}

proof fn lemma_marked_rows(rows: Seq<json::JsonTree>, k: int, name: Seq<char>)
    ensures
        (forall|j: int| 0 <= j < rows.len() ==> !marked(#[trigger] rows[j]))
            ==> catalog::rows_default(rows) is None,
        0 <= k < rows.len() && marked(rows[k]) && row_goes_by(rows[k], name)
            && text::safe_identifier(name) is Some && (forall|j: int|
            0 <= j < k ==> !marked(#[trigger] rows[j])) ==> catalog::rows_default(rows)
            == text::safe_identifier(name),
    decreases rows.len(),
{
    if rows.len() > 0 {
        let shorter = rows.drop_last();
        assert(forall|j: int| 0 <= j < shorter.len() ==> #[trigger] shorter[j] == rows[j]);
        assert(rows[rows.len() - 1] == rows.last());
        lemma_marked_rows(shorter, k, name);
        if forall|j: int| 0 <= j < rows.len() ==> !marked(#[trigger] rows[j]) {
            assert forall|j: int| 0 <= j < shorter.len() implies !marked(#[trigger] shorter[j]) by {
                assert(!marked(rows[j]));
            }
        }
        if 0 <= k < rows.len() && (forall|j: int| 0 <= j < k ==> !marked(#[trigger] rows[j])) {
            assert forall|j: int| 0 <= j < k && j < shorter.len() implies !marked(
                #[trigger] shorter[j],
            ) by {
                assert(!marked(rows[j]));
            }
        }
    }
}

} // verus!
