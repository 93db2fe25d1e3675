//! The state of a connector that works over a transport: its catalog, its health,
//! and which requests it takes.
//!
//! The transport is asked outside; what it answered is handed in here.

use vstd::prelude::*;

use crate::catalog;
use crate::catalog::{
    find_metadata, put_metadata, RuntimeModelCatalog, RuntimeModelMetadata,
};
use crate::error;
use crate::error::{
    safe_runtime_error_code, RuntimeError, CODEX_CATALOG_UNAVAILABLE, KUN_CATALOG_UNAVAILABLE,
};
use crate::event::{copy_text, RuntimeDiscovery, RuntimeHealth, RuntimeRequest};
use crate::order;
use crate::order::insert_text;
use crate::text;
use crate::text::{parse_u64, safe_model_identifier, same_text, trimmed};

verus! {

/// The state of a connector.
#[derive(Debug)]
pub struct ConnectorAdapterState {
    runtime_id: String,
    models: Vec<String>,
    catalog_revision: Option<String>,
    catalog_default_model_id: Option<String>,
    catalog_model_metadata: Vec<RuntimeModelMetadata>,
    last_health: RuntimeHealth,
}

#[verifier::ext_equal]
pub struct HealthView {
    pub runtime_id: Seq<char>,
    pub status: Seq<char>,
    pub detail: Option<Seq<char>>,
}

#[verifier::ext_equal]
pub struct AdapterView {
    pub runtime_id: Seq<char>,
    pub models: Seq<Seq<char>>,
    pub revision: Option<Seq<char>>,
    pub default_model_id: Option<Seq<char>>,
    pub metadata: Seq<catalog::MetaView>,
    pub health: HealthView,
}

/// The safe ids among some ids, sorted and each once.
pub open spec fn safe_models(ids: Seq<Seq<char>>) -> Seq<Seq<char>>
    decreases ids.len(),
{
    if ids.len() == 0 {
        seq![]
    } else {
        let before = safe_models(ids.drop_last());
        match text::safe_identifier(ids.last()) {
            Some(id) => order::put_text(before, id),
            None => before,
        }
    }
}

/// What is kept of the metadata of a catalog: that of known models, with a safe
/// status. What is said last of a model counts.
pub open spec fn known_metadata(
    models: Seq<Seq<char>>,
    metadata: Seq<catalog::MetaView>,
) -> Seq<catalog::MetaView>
    decreases metadata.len(),
{
    if metadata.len() == 0 {
        seq![]
    } else {
        let before = known_metadata(models, metadata.drop_last());
        let m = metadata.last();
        match text::safe_identifier(m.model_id) {
            Some(id) => if models.contains(id) {
                catalog::table_put(
                    before,
                    catalog::MetaView { model_id: id, status: catalog::safe(m.status), ..m },
                    true,
                )
            } else {
                before
            },
            None => before,
        }
    }
}

/// The default of a catalog, if it is a known model that nothing says cannot be
/// chosen.
pub open spec fn kept_default(
    models: Seq<Seq<char>>,
    metadata: Seq<catalog::MetaView>,
    declared: Option<Seq<char>>,
) -> Option<Seq<char>> {
    match catalog::safe(declared) {
        Some(id) => if models.contains(id) && match catalog::table_get(metadata, id) {
            Some(m) => m.available && m.enabled,
            None => true,
        } {
            Some(id)
        } else {
            None
        },
        None => None,
    }
}

/// The error of a catalog without any usable model.
pub open spec fn empty_catalog_code(runtime_id: Seq<char>) -> Seq<char> {
    if runtime_id == "codex"@ {
        CODEX_CATALOG_UNAVAILABLE@
    } else if runtime_id == "kun"@ {
        KUN_CATALOG_UNAVAILABLE@
    } else {
        "runtime_catalog_unavailable"@
    }
}

impl AdapterView {
    /// The state after an error: it is the health, and there is no catalog.
    pub open spec fn failed(self, e: error::ErrorView) -> AdapterView {
        AdapterView {
            models: seq![],
            revision: None,
            default_model_id: None,
            metadata: seq![],
            ..self.reported(e)
        }
    }

    /// The state with an error as its health.
    pub open spec fn reported(self, e: error::ErrorView) -> AdapterView {
        AdapterView {
            health: HealthView {
                runtime_id: self.runtime_id,
                status: "unavailable"@,
                detail: Some(error::safe_error_code(e)),
            },
            ..self
        }
    }

    pub open spec fn available(self) -> AdapterView {
        AdapterView {
            health: HealthView {
                runtime_id: self.runtime_id,
                status: "available"@,
                detail: None,
            },
            ..self
        }
    }

    /// The state and the answer after the transport has reported a catalog or an
    /// error. Only a catalog with a usable model counts.
    pub open spec fn refreshed(self, answer: Result<catalog::CatalogView, error::ErrorView>) -> (
        AdapterView,
        Result<Seq<Seq<char>>, error::ErrorView>,
    ) {
        match answer {
            Err(e) => (self.failed(e), Err(e)),
            Ok(c) => {
                let models = safe_models(c.models);
                if models.len() == 0 {
                    let e = error::ErrorView::Transport(empty_catalog_code(self.runtime_id));
                    (self.failed(e), Err(e))
                } else {
                    let metadata = known_metadata(models, c.model_metadata);
                    (
                        AdapterView {
                            models,
                            revision: c.revision,
                            default_model_id: kept_default(models, metadata, c.default_model_id),
                            metadata,
                            ..self
                        },
                        Ok(models),
                    )
                }
            },
        }
    }

    /// What holds of every state: the default is a known model that nothing says
    /// cannot be chosen, and metadata is kept of known models only.
    pub open spec fn valid(self) -> bool {
        &&& order::is_sorted(self.models)
        &&& order::is_sorted(catalog::table_ids(self.metadata))
        &&& self.default_model_id matches Some(id) ==> self.models.contains(id)
            && match catalog::table_get(self.metadata, id) {
            Some(m) => m.available && m.enabled,
            None => true,
        }
        &&& forall|i: int|
            0 <= i < self.metadata.len() ==> self.models.contains(
                (#[trigger] self.metadata[i]).model_id,
            )
    }
}

/// The state of a connector that has not been asked anything yet.
pub open spec fn unprobed(runtime_id: Seq<char>) -> AdapterView {
    AdapterView {
        runtime_id,
        models: seq![],
        revision: None,
        default_model_id: None,
        metadata: seq![],
        health: HealthView {
            runtime_id,
            status: "unavailable"@,
            detail: Some("not yet probed"@),
        },
    }
}

/// Which requests a connector takes: they name a connector, and name a working
/// directory only with some access to it.
pub open spec fn route_error(request: &RuntimeRequest) -> Option<error::ErrorView> {
    if text::trim(request.connector_id@).len() == 0 {
        Some(error::ErrorView::Protocol("connector_id_required"@))
    } else if request.cwd_without_access() {
        Some(error::ErrorView::InvalidWorkspace)
    } else {
        None
    }
}

/// Whether a connector takes a request.
pub fn ensure_route(request: &RuntimeRequest) -> (r: Result<(), RuntimeError>)
    ensures
        match r {
            Ok(_) => route_error(request) is None,
            Err(e) => route_error(request) == Some(e@),
        },
{
    if trimmed(request.connector_id.as_str()).as_str().is_empty() {
        return Err(RuntimeError::protocol("connector_id_required"));
    }
    if request.has_cwd_without_access() {
        return Err(RuntimeError::InvalidWorkspace);
    }
    Ok(())
}

fn contains_id(ids: &Vec<String>, id: &str) -> (r: bool)
    ensures
        r == text::texts(ids@).contains(id@),
{
    let mut i: usize = 0;
    while i < ids.len()
        invariant
            i <= ids@.len(),
            forall|k: int| 0 <= k < i ==> text::texts(ids@)[k] != id@,
        decreases ids@.len() - i,
    {
        if same_text(ids[i].as_str(), id) {
            assert(text::texts(ids@)[i as int] == id@);
            return true;
        }
        i += 1;
    }
    false
}

fn copy_ids(ids: &Vec<String>) -> (r: Vec<String>)
    ensures
        text::texts(r@) == text::texts(ids@),
{
    let ghost all = text::texts(ids@);
    let mut r: Vec<String> = Vec::new();
    let mut i: usize = 0;
    assert(text::texts(r@) =~= all.take(0));
    while i < ids.len()
        invariant
            i <= ids@.len(),
            all == text::texts(ids@),
            text::texts(r@) == all.take(i as int),
        decreases ids@.len() - i,
    {
        let id = ids[i].clone();
        proof {
            assert(text::texts(r@.push(id)) =~= text::texts(r@).push(id@));
            assert(all.take(i + 1) =~= all.take(i as int).push(id@));
        }
        r.push(id);
        i += 1;
    }
    assert(all.take(i as int) =~= all);
    r
}

fn safe_models_of(ids: &Vec<String>) -> (r: Vec<String>)
    ensures
        text::texts(r@) == safe_models(text::texts(ids@)),
{
    let ghost all = text::texts(ids@);
    let mut r: Vec<String> = Vec::new();
    let mut i: usize = 0;
    assert(all.take(0) =~= seq![]);
    assert(text::texts(r@) =~= seq![]);
    while i < ids.len()
        invariant
            i <= ids@.len(),
            all == text::texts(ids@),
            text::texts(r@) == safe_models(all.take(i as int)),
        decreases ids@.len() - i,
    {
        proof {
            assert(all.take(i + 1).drop_last() =~= all.take(i as int));
            assert(all.take(i + 1).last() == ids@[i as int]@);
        }
        match safe_model_identifier(ids[i].as_str()) {
            Some(id) => {
                insert_text(&mut r, id);
            },
            None => {},
        }
        i += 1;
    }
    assert(all.take(i as int) =~= all);
    r
}

fn known_metadata_of(models: &Vec<String>, metadata: &Vec<RuntimeModelMetadata>) -> (r: Vec<
    RuntimeModelMetadata,
>)
    ensures
        catalog::meta_views(r@) == known_metadata(
            text::texts(models@),
            catalog::meta_views(metadata@),
        ),
{
    let ghost all = catalog::meta_views(metadata@);
    let mut r: Vec<RuntimeModelMetadata> = Vec::new();
    let mut i: usize = 0;
    assert(all.take(0) =~= seq![]);
    assert(catalog::meta_views(r@) =~= seq![]);
    while i < metadata.len()
        invariant
            i <= metadata@.len(),
            all == catalog::meta_views(metadata@),
            catalog::meta_views(r@) == known_metadata(text::texts(models@), all.take(i as int)),
        decreases metadata@.len() - i,
    {
        proof {
            assert(all.take(i + 1).drop_last() =~= all.take(i as int));
            assert(all.take(i + 1).last() == metadata@[i as int]@);
        }
        let m = &metadata[i];
        match safe_model_identifier(m.model_id.as_str()) {
            Some(id) => {
                if contains_id(models, id.as_str()) {
                    let status = match &m.status {
                        Some(s) => safe_model_identifier(s.as_str()),
                        None => None,
                    };
                    let kept = RuntimeModelMetadata {
                        model_id: id,
                        available: m.available,
                        enabled: m.enabled,
                        status,
                        capabilities: m.capabilities,
                    };
                    assert(kept@ =~= catalog::MetaView {
                        model_id: id@,
                        status: catalog::safe(m@.status),
                        ..m@
                    });
                    put_metadata(&mut r, kept, true);
                }
            },
            None => {},
        }
        i += 1;
    }
    assert(all.take(i as int) =~= all);
    r
}

/// What a catalog or an error stands for.
pub open spec fn answer_view(answer: Result<RuntimeModelCatalog, RuntimeError>) -> Result<
    catalog::CatalogView,
    error::ErrorView,
> {
    match answer {
        Ok(c) => Ok(c@),
        Err(e) => Err(e@),
    }
}

/// The revision of a catalog, where it is a positive number.
pub open spec fn revision_number(state: AdapterView) -> Option<u64> {
    match state.revision {
        Some(s) => match text::unsigned_value(s) {
            Some(n) => if n > 0 {
                Some(n)
            } else {
                None
            },
            None => None,
        },
        None => None,
    }
}

impl ConnectorAdapterState {
    pub closed spec fn view(&self) -> AdapterView {
        AdapterView {
            runtime_id: self.runtime_id@,
            models: text::texts(self.models@),
            revision: text::opt_text(self.catalog_revision),
            default_model_id: text::opt_text(self.catalog_default_model_id),
            metadata: catalog::meta_views(self.catalog_model_metadata@),
            health: HealthView {
                runtime_id: self.last_health.runtime_id@,
                status: self.last_health.status@,
                detail: text::opt_text(self.last_health.detail),
            },
        }
    }

    /// The state of a connector before its transport is asked anything.
    pub fn new(runtime_id: &str) -> (r: Self)
        ensures
            r@ == unprobed(runtime_id@),
            r@.valid(),
    {
        let r = ConnectorAdapterState {
            runtime_id: runtime_id.to_owned(),
            models: Vec::new(),
            catalog_revision: None,
            catalog_default_model_id: None,
            catalog_model_metadata: Vec::new(),
            last_health: RuntimeHealth::new(runtime_id, "unavailable", Some("not yet probed")),
        };
        assert(r@ =~= unprobed(runtime_id@));
        r
    }

    /// Takes an error as the state of health.
    pub fn record_error(&mut self, e: &RuntimeError)
        ensures
            final(self)@ == old(self)@.reported(e@),
    {
        let health = RuntimeHealth::new(
            self.runtime_id.as_str(),
            "unavailable",
            Some(safe_runtime_error_code(e)),
        );
        self.last_health = health;
        assert(self@ =~= old(self)@.reported(e@));
    }

    /// Takes the runtime as available.
    pub fn record_available(&mut self)
        ensures
            final(self)@ == old(self)@.available(),
    {
        let health = RuntimeHealth::new(self.runtime_id.as_str(), "available", None);
        self.last_health = health;
        assert(self@ =~= old(self)@.available());
    }

    fn fail(&mut self, e: &RuntimeError)
        ensures
            final(self)@ == old(self)@.failed(e@),
    {
        self.record_error(e);
        self.models = Vec::new();
        self.catalog_revision = None;
        self.catalog_default_model_id = None;
        self.catalog_model_metadata = Vec::new();
        assert(self@ =~= old(self)@.failed(e@));
    }

    /// Takes what the transport answered when it was asked for its catalog.
    pub fn refresh_models(&mut self, answer: Result<RuntimeModelCatalog, RuntimeError>) -> (r:
        Result<Vec<String>, RuntimeError>)
        ensures
            final(self)@ == old(self)@.refreshed(answer_view(answer)).0,
            match r {
                Ok(models) => old(self)@.refreshed(answer_view(answer)).1 == Ok::<
                    Seq<Seq<char>>,
                    error::ErrorView,
                >(text::texts(models@)),
                Err(e) => old(self)@.refreshed(answer_view(answer)).1 == Err::<
                    Seq<Seq<char>>,
                    error::ErrorView,
                >(e@),
            },
    {
        match answer {
            Err(e) => {
                self.fail(&e);
                Err(e)
            },
            Ok(c) => {
                let models = safe_models_of(&c.models);
                if models.len() == 0 {
                    let code = if same_text(self.runtime_id.as_str(), "codex") {
                        CODEX_CATALOG_UNAVAILABLE
                    } else if same_text(self.runtime_id.as_str(), "kun") {
                        KUN_CATALOG_UNAVAILABLE
                    } else {
                        "runtime_catalog_unavailable"
                    };
                    let e = RuntimeError::transport(code);
                    self.fail(&e);
                    return Err(e);
                }
                let metadata = known_metadata_of(&models, &c.model_metadata);
                let declared = match &c.default_model_id {
                    Some(id) => safe_model_identifier(id.as_str()),
                    None => None,
                };
                let default_model_id = match declared {
                    Some(id) => {
                        let usable = match find_metadata(&metadata, id.as_str()) {
                            Some(m) => m.available && m.enabled,
                            None => true,
                        };
                        if usable && contains_id(&models, id.as_str()) {
                            Some(id)
                        } else {
                            None
                        }
                    },
                    None => None,
                };
                self.models = copy_ids(&models);
                self.catalog_revision = c.revision;
                self.catalog_default_model_id = default_model_id;
                self.catalog_model_metadata = metadata;
                assert(self@ =~= old(self)@.refreshed(answer_view(answer)).0);
                Ok(models)
            },
        }
    }

    /// Takes what the transport answered when it was probed, and gives what is
    /// reported of the runtime.
    pub fn discovered(&mut self, answer: Result<RuntimeDiscovery, RuntimeError>, owned: bool) -> (r:
        RuntimeDiscovery)
        ensures
            match answer {
                Ok(d) => r == d && final(self)@ == old(self)@.available(),
                Err(e) => r.is(old(self)@.runtime_id, None, owned) && final(self)@
                    == old(self)@.reported(e@),
            },
    {
        match answer {
            Ok(d) => {
                self.record_available();
                d
            },
            Err(e) => {
                self.record_error(&e);
                RuntimeDiscovery::new(self.runtime_id.as_str(), None, owned)
            },
        }
    }

    /// Takes what the transport answered when it was probed, and gives the state
    /// of health.
    pub fn health_after(&mut self, answer: &Result<RuntimeDiscovery, RuntimeError>) -> (r:
        RuntimeHealth)
        ensures
            final(self)@ == match answer {
                Ok(_) => old(self)@.available(),
                Err(e) => old(self)@.reported(e@),
            },
            r.is(
                old(self)@.runtime_id,
                final(self)@.health.status,
                final(self)@.health.detail,
            ),
    {
        match answer {
            Ok(_) => {
                self.record_available();
            },
            Err(e) => {
                self.record_error(e);
            },
        }
        self.last_health.clone()
    }

    /// Takes what the transport answered when it was probed, and says whether the
    /// runtime can be used.
    pub fn available_after(&mut self, answer: &Result<RuntimeDiscovery, RuntimeError>) -> (r:
        Result<(), RuntimeError>)
        ensures
            match answer {
                Ok(_) => r is Ok && final(self)@ == old(self)@.available(),
                Err(e) => (r matches Err(x) && x@ == e@) && final(self)@ == old(self)@.reported(
                    e@,
                ),
            },
    {
        match answer {
            Ok(_) => {
                self.record_available();
                Ok(())
            },
            Err(e) => {
                self.record_error(e);
                Err(e.clone())
            },
        }
    }

    /// The revision of the catalog, where it is a positive number.
    pub fn catalog_revision(&self) -> (r: Option<u64>)
        ensures
            r == revision_number(self@),
    {
        match &self.catalog_revision {
            Some(s) => match parse_u64(s.as_str()) {
                Some(n) => if n > 0 {
                    Some(n)
                } else {
                    None
                },
                None => None,
            },
            None => None,
        }
    }

    /// The revision of the catalog as the runtime reported it.
    pub fn cached_catalog_revision(&self) -> (r: Option<String>)
        ensures
            text::opt_text(r) == self@.revision,
    {
        copy_text(&self.catalog_revision)
    }

    pub fn cached_catalog_default_model_id(&self) -> (r: Option<String>)
        ensures
            text::opt_text(r) == self@.default_model_id,
    {
        copy_text(&self.catalog_default_model_id)
    }

    pub fn cached_catalog_model_metadata(&self, model_id: &str) -> (r: Option<
        RuntimeModelMetadata,
    >)
        ensures
            match r {
                Some(m) => catalog::table_get(self@.metadata, model_id@) == Some(m@),
                None => catalog::table_get(self@.metadata, model_id@) is None,
            },
    {
        match find_metadata(&self.catalog_model_metadata, model_id) {
            Some(m) => Some(m.clone()),
            None => None,
        }
    }
}

proof fn lemma_safe_models_sorted(ids: Seq<Seq<char>>)
    ensures
        order::is_sorted(safe_models(ids)),
        forall|x: Seq<char>| #[trigger]
            safe_models(ids).contains(x) <==> exists|i: int|
                0 <= i < ids.len() && text::safe_identifier(#[trigger] ids[i]) == Some(x),
    decreases ids.len(),
{
    if ids.len() > 0 {
        let front = ids.drop_last();
        lemma_safe_models_sorted(front);
        match text::safe_identifier(ids.last()) {
            Some(id) => {
                order::law_put_keeps_order(safe_models(front), id);
            },
            None => {},
        }
        assert forall|x: Seq<char>| #[trigger]
            safe_models(ids).contains(x) <==> exists|i: int|
                0 <= i < ids.len() && text::safe_identifier(#[trigger] ids[i]) == Some(x) by {
            if exists|i: int|
                0 <= i < ids.len() && text::safe_identifier(#[trigger] ids[i]) == Some(x) {
                let i = choose|i: int|
                    0 <= i < ids.len() && text::safe_identifier(#[trigger] ids[i]) == Some(x);
                if i < front.len() {
                    assert(front[i] == ids[i]);
                }
            }
            if safe_models(front).contains(x) {
                let i = choose|i: int|
                    0 <= i < front.len() && text::safe_identifier(#[trigger] front[i]) == Some(x);
                assert(ids[i] == front[i]);
            }
            assert(ids[ids.len() - 1] == ids.last());
        }
    }
}

proof fn lemma_known_metadata(models: Seq<Seq<char>>, metadata: Seq<catalog::MetaView>)
    ensures
        order::is_sorted(catalog::table_ids(known_metadata(models, metadata))),
        forall|i: int|
            0 <= i < known_metadata(models, metadata).len() ==> models.contains(
                (#[trigger] known_metadata(models, metadata)[i]).model_id,
            ),
    decreases metadata.len(),
{
    if metadata.len() > 0 {
        let front = metadata.drop_last();
        lemma_known_metadata(models, front);
        let before = known_metadata(models, front);
        let m = metadata.last();
        match text::safe_identifier(m.model_id) {
            Some(id) => {
                if models.contains(id) {
                    let kept = catalog::MetaView {
                        model_id: id,
                        status: catalog::safe(m.status),
                        ..m
                    };
                    let after = known_metadata(models, metadata);
                    let old_ids = catalog::table_ids(before);
                    let ids = catalog::table_ids(after);
                    catalog::lemma_table_put_ids(before, kept, true);
                    order::law_put_keeps_order(old_ids, id);
                    assert forall|i: int| 0 <= i < after.len() implies models.contains(
                        (#[trigger] after[i]).model_id,
                    ) by {
                        assert(ids[i] == after[i].model_id);
                        assert(ids.contains(ids[i]));
                        if ids[i] != id {
                            let k = choose|k: int| 0 <= k < old_ids.len() && old_ids[k] == ids[i];
                            assert(before[k].model_id == ids[i]);
                        }
                    }
                }
            },
            None => {},
        }
    }
}

/// Whatever a transport answers, the state of its connector is valid: a default
/// model is a known one that nothing says cannot be chosen, and there is metadata
/// of known models only. After an error there is no catalog.
pub proof fn law_refresh_keeps_state_valid(
    state: AdapterView,
    answer: Result<catalog::CatalogView, error::ErrorView>,
)
    ensures
        state.refreshed(answer).0.valid(),
        state.refreshed(answer).1 is Err ==> state.refreshed(answer).0.models.len() == 0
            && state.refreshed(answer).0.default_model_id is None
            && state.refreshed(answer).0.metadata.len() == 0,
        state.refreshed(answer).1 is Ok ==> state.refreshed(answer).1->Ok_0
            == state.refreshed(answer).0.models && state.refreshed(answer).0.models.len() > 0,
{
    match answer {
        Ok(c) => {
            let models = safe_models(c.models);
            lemma_safe_models_sorted(c.models);
            lemma_known_metadata(models, c.model_metadata);
        },
        Err(_) => {},
    }
}

/// The models of a connector are those that the transport has reported under a
/// safe id, sorted and each once.
pub proof fn law_models_are_the_safe_ones(ids: Seq<Seq<char>>, x: Seq<char>)
    ensures
        order::is_sorted(safe_models(ids)),
        safe_models(ids).contains(x) <==> exists|i: int|
            0 <= i < ids.len() && text::safe_identifier(#[trigger] ids[i]) == Some(x),
{
    lemma_safe_models_sorted(ids);
}

} // verus!
