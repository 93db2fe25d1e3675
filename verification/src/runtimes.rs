//! The connectors whose work is done by a transport: what they remember of it, and
//! the transport that replays a recording.

use std::collections::VecDeque;

use vstd::prelude::*;
use vstd::string::*;

use crate::catalog;
use crate::catalog::{RuntimeModelCatalog, RuntimeModelMetadata};
use crate::connector;
use crate::connector::FixtureConnectorRuntime;
use crate::error;
use crate::error::RuntimeError;
use crate::event;
use crate::event::{
    cancelled_event, copy_text, RuntimeCapabilities, RuntimeDiscovery, RuntimeEvent, RuntimeHealth,
    RuntimeRequest, DEFAULT_RUNTIME_TIMEOUT_MS,
};
use crate::observation::copy_texts;
use crate::route;
use crate::route::{ensure_route, ConnectorAdapterState};
use crate::stream;
use crate::stream::RuntimeEventStreamState;
use crate::text;
use crate::text::{safe_model_identifier, same_text};
use crate::textmap;
use crate::textmap::TextMap;

verus! {

/// What the work of a connector is done by. Its errors are told by stable codes:
/// no answer of a provider and no credential passes through it.
pub trait ConnectorRuntimeTransport {
    fn runtime_id(&self) -> &'static str;

    /// Whether what it works with was made by it.
    fn owned(&self) -> bool;

    fn discover(&self) -> Result<RuntimeDiscovery, RuntimeError>;

    fn list_models(&self) -> Result<RuntimeModelCatalog, RuntimeError>;

    fn cancel(&self, request: &RuntimeRequest) -> Result<(), RuntimeError>;

    /// Releases what it has made, and nothing else.
    fn shutdown_owned(&self) -> Result<(), RuntimeError>;
}

/// What a connector remembers: what its transport answered last, and its runs, each
/// with the number by which its worker is told.
#[verifier::ext_equal]
pub struct ConnectorView {
    pub adapter: route::AdapterView,
    pub active: Map<Seq<char>, u64>,
}

pub struct TransportBackedRuntime<T> {
    runtime_id: &'static str,
    capabilities: RuntimeCapabilities,
    transport: T,
    state: ConnectorAdapterState,
    active: TextMap<u64>,
}

impl<T> TransportBackedRuntime<T> {
    pub closed spec fn view(&self) -> ConnectorView {
        ConnectorView { adapter: self.state@, active: self.active@ }
    }

    pub closed spec fn id_text(&self) -> Seq<char> {
        self.runtime_id@
    }

    pub closed spec fn abilities(&self) -> RuntimeCapabilities {
        self.capabilities
    }

    pub closed spec fn carrier(&self) -> T {
        self.transport
    }

    /// The same connector, in another state.
    pub open spec fn follows(&self, before: &Self) -> bool {
        &&& self.id_text() == before.id_text()
        &&& self.abilities() == before.abilities()
        &&& self.carrier() == before.carrier()
    }

    /// A connector that has asked its transport nothing yet.
    pub fn new(runtime_id: &'static str, capabilities: RuntimeCapabilities, transport: T) -> (r:
        Self)
        ensures
            r@.adapter == route::unprobed(runtime_id@),
            r@.active == Map::<Seq<char>, u64>::empty(),
            r.id_text() == runtime_id@,
            r.abilities() == capabilities,
            r.carrier() == transport,
    {
        TransportBackedRuntime {
            runtime_id,
            capabilities,
            transport,
            state: ConnectorAdapterState::new(runtime_id),
            active: TextMap::new(),
        }
    }

    pub fn id(&self) -> (r: &'static str)
        ensures
            r@ == self.id_text(),
    {
        self.runtime_id
    }

    pub fn capabilities(&self) -> (r: RuntimeCapabilities)
        ensures
            r == self.abilities(),
    {
        self.capabilities
    }

    pub fn transport(&self) -> (r: &T)
        ensures
            *r == self.carrier(),
    {
        &self.transport
    }

    /// The revision of the catalog, where it is a positive number.
    pub fn catalog_revision(&self) -> (r: Option<u64>)
        ensures
            r == route::revision_number(self@.adapter),
    {
        self.state.catalog_revision()
    }

    pub fn cached_catalog_revision(&self) -> (r: Option<String>)
        ensures
            text::opt_text(r) == self@.adapter.revision,
    {
        self.state.cached_catalog_revision()
    }

    pub fn catalog_default_model_id(&self) -> (r: Option<String>)
        ensures
            text::opt_text(r) == self@.adapter.default_model_id,
    {
        self.state.cached_catalog_default_model_id()
    }

    pub fn catalog_model_metadata(&self, model_id: &str) -> (r: Option<RuntimeModelMetadata>)
        ensures
            match r {
                Some(m) => catalog::table_get(self@.adapter.metadata, model_id@) == Some(m@),
                None => catalog::table_get(self@.adapter.metadata, model_id@) is None,
            },
    {
        self.state.cached_catalog_model_metadata(model_id)
    }

    /// Begins a run whose worker is told by `ticket`.
    pub fn begin_stream(&mut self, request: &RuntimeRequest, capacity: usize, ticket: u64) -> (r:
        Result<RuntimeEventStreamState, RuntimeError>)
        ensures
            match (route::route_error(request), r) {
                (Some(e), Err(x)) => x@ == e && final(self)@ == old(self)@,
                (None, Err(x)) => capacity == 0 && x@ == error::ErrorView::InvalidStreamCapacity
                    && final(self)@ == old(self)@,
                (None, Ok(s)) => capacity > 0 && s@ == stream::fresh_stream(capacity as nat)
                    && s@.valid() && final(self)@ == (ConnectorView {
                    active: old(self)@.active.insert(request.execution_run_id@, ticket),
                    ..old(self)@
                }),
                (Some(_), Ok(_)) => false,
            },
            final(self).follows(old(self)),
    {
        match ensure_route(request) {
            Ok(_) => {},
            Err(e) => {
                return Err(e);
            },
        }
        match RuntimeEventStreamState::with_capacity(capacity) {
            Ok(s) => {
                self.active.insert(request.execution_run_id.clone(), ticket);
                Ok(s)
            },
            Err(e) => Err(e),
        }
    }

    /// Takes note that the worker of a run is done.
    pub fn stream_over(&mut self, run_id: &str)
        ensures
            final(self)@ == (ConnectorView {
                active: old(self)@.active.remove(run_id@),
                ..old(self)@
            }),
            final(self).follows(old(self)),
    {
        self.active.remove(run_id);
    }

    /// The workers of all runs that are under way.
    pub fn active_tickets(&self) -> (r: Vec<u64>)
        ensures
            textmap::are_values(r@, self@.active),
    {
        self.active.values()
    }

    /// Takes what the transport answered when it was probed, and gives what is
    /// reported of the runtime.
    pub fn discovered(&mut self, answer: Result<RuntimeDiscovery, RuntimeError>, owned: bool) -> (r:
        RuntimeDiscovery)
        ensures
            final(self)@ == (ConnectorView {
                adapter: probed(old(self)@.adapter, answer),
                ..old(self)@
            }),
            match answer {
                Ok(d) => r == d,
                Err(_) => r.is(old(self)@.adapter.runtime_id, None, owned),
            },
            final(self).follows(old(self)),
    {
        self.state.discovered(answer, owned)
    }

    /// Takes what the transport answered when it was probed, and gives the state of
    /// health.
    pub fn health_after(&mut self, answer: &Result<RuntimeDiscovery, RuntimeError>) -> (r:
        RuntimeHealth)
        ensures
            final(self)@ == (ConnectorView {
                adapter: probed(old(self)@.adapter, *answer),
                ..old(self)@
            }),
            r.is(
                old(self)@.adapter.runtime_id,
                final(self)@.adapter.health.status,
                final(self)@.adapter.health.detail,
            ),
            final(self).follows(old(self)),
    {
        self.state.health_after(answer)
    }

    /// Takes what the transport answered when it was probed, and says whether the
    /// runtime can be used.
    pub fn available_after(&mut self, answer: &Result<RuntimeDiscovery, RuntimeError>) -> (r:
        Result<(), RuntimeError>)
        ensures
            final(self)@ == (ConnectorView {
                adapter: probed(old(self)@.adapter, *answer),
                ..old(self)@
            }),
            match answer {
                Ok(_) => r is Ok,
                Err(e) => r matches Err(x) && x@ == e@,
            },
            final(self).follows(old(self)),
    {
        self.state.available_after(answer)
    }

    /// Takes what the transport answered when it was asked for its models.
    pub fn refresh_models(&mut self, answer: Result<RuntimeModelCatalog, RuntimeError>) -> (r:
        Result<Vec<String>, RuntimeError>)
        ensures
            ({
                let after = old(self)@.adapter.refreshed(route::answer_view(answer));
                &&& final(self)@ == (ConnectorView { adapter: after.0, ..old(self)@ })
                &&& models_view(r) == after.1
            }),
            final(self).follows(old(self)),
    {
        self.state.refresh_models(answer)
    }

    /// Takes what the transport answered when it was asked to cancel a run. The
    /// result is the event by which the run ends here, and the worker that is to stop.
    pub fn cancel_answered(&self, request: &RuntimeRequest, answer: Result<(), RuntimeError>) -> (r:
        Result<(RuntimeEvent, Option<u64>), RuntimeError>)
        ensures
            match answer {
                Ok(_) => r matches Ok(got) && got.0@ == event::cancelled(
                    self.id_text(),
                    request,
                    None,
                    None,
                ) && got.1 == if self@.active.dom().contains(request.execution_run_id@) {
                    Some(self@.active[request.execution_run_id@])
                } else {
                    None
                },
                Err(e) => r matches Err(x) && x@ == e@,
            },
    {
        match answer {
            Ok(_) => {
                let ticket = self.ticket_of(request.execution_run_id.as_str());
                Ok((cancelled_event(self.runtime_id, request, None, None), ticket))
            },
            Err(e) => Err(e),
        }
    }

    /// The worker of a run that is under way.
    pub fn ticket_of(&self, run_id: &str) -> (r: Option<u64>)
        ensures
            r == if self@.active.dom().contains(run_id@) {
                Some(self@.active[run_id@])
            } else {
                None
            },
    {
        match self.active.get(run_id) {
            Some(t) => Some(*t),
            None => None,
        }
    }
}

/// What a transport may answer when it is probed.
pub open spec fn may_discover<T: ConnectorRuntimeTransport>(
    t: T,
    answer: Result<RuntimeDiscovery, RuntimeError>,
) -> bool {
    call_ensures(T::discover, (&t,), answer)
}

/// What a transport may say of its ownership.
pub open spec fn may_own<T: ConnectorRuntimeTransport>(t: T, owned: bool) -> bool {
    call_ensures(T::owned, (&t,), owned)
}

/// What a transport may answer when it is asked for its models.
pub open spec fn may_list<T: ConnectorRuntimeTransport>(
    t: T,
    answer: Result<RuntimeModelCatalog, RuntimeError>,
) -> bool {
    call_ensures(T::list_models, (&t,), answer)
}

/// What a transport may answer when it is asked to cancel a run.
pub open spec fn may_cancel<T: ConnectorRuntimeTransport>(
    t: T,
    request: RuntimeRequest,
    answer: Result<(), RuntimeError>,
) -> bool {
    call_ensures(T::cancel, (&t, &request), answer)
}

pub open spec fn models_view(r: Result<Vec<String>, RuntimeError>) -> Result<
    Seq<Seq<char>>,
    error::ErrorView,
> {
    match r {
        Ok(models) => Ok(text::texts(models@)),
        Err(e) => Err(e@),
    }
}

/// The state of health after a probe.
pub open spec fn probed(
    before: route::AdapterView,
    answer: Result<RuntimeDiscovery, RuntimeError>,
) -> route::AdapterView {
    match answer {
        Ok(_) => before.available(),
        Err(e) => before.reported(e@),
    }
}

impl<T: ConnectorRuntimeTransport> TransportBackedRuntime<T> {
    /// Probes the transport, and gives what is reported of the runtime.
    pub fn discover(&mut self) -> (r: RuntimeDiscovery)
        ensures
            exists|answer: Result<RuntimeDiscovery, RuntimeError>|
                #![trigger may_discover(old(self).carrier(), answer)]
                may_discover(old(self).carrier(), answer) && final(self)@ == (ConnectorView {
                    adapter: probed(old(self)@.adapter, answer),
                    ..old(self)@
                }) && match answer {
                    Ok(d) => r == d,
                    Err(_) => exists|owned: bool| #[trigger]
                        may_own(old(self).carrier(), owned) && r.is(
                            old(self)@.adapter.runtime_id,
                            None,
                            owned,
                        ),
                },
            final(self).follows(old(self)),
    {
        let answer = self.transport.discover();
        let ghost given = answer;
        assert(may_discover(old(self).carrier(), given));
        match answer {
            Ok(d) => self.discovered(Ok(d), false),
            Err(e) => {
                let owned = self.transport.owned();
                assert(may_own(old(self).carrier(), owned));
                self.discovered(Err(e), owned)
            },
        }
    }

    /// Probes the transport, and gives the state of health.
    pub fn health(&mut self) -> (r: RuntimeHealth)
        ensures
            exists|answer: Result<RuntimeDiscovery, RuntimeError>| #[trigger]
                may_discover(old(self).carrier(), answer) && final(self)@ == (ConnectorView {
                    adapter: probed(old(self)@.adapter, answer),
                    ..old(self)@
                }),
            r.is(
                old(self)@.adapter.runtime_id,
                final(self)@.adapter.health.status,
                final(self)@.adapter.health.detail,
            ),
            final(self).follows(old(self)),
    {
        let answer = self.transport.discover();
        assert(may_discover(old(self).carrier(), answer));
        self.health_after(&answer)
    }

    /// Probes the transport, and says whether the runtime can be used.
    pub fn ensure_available(&mut self) -> (r: Result<(), RuntimeError>)
        ensures
            exists|answer: Result<RuntimeDiscovery, RuntimeError>| #[trigger]
                may_discover(old(self).carrier(), answer) && final(self)@ == (ConnectorView {
                    adapter: probed(old(self)@.adapter, answer),
                    ..old(self)@
                }) && match answer {
                    Ok(_) => r is Ok,
                    Err(e) => r matches Err(x) && x@ == e@,
                },
            final(self).follows(old(self)),
    {
        let answer = self.transport.discover();
        assert(may_discover(old(self).carrier(), answer));
        self.available_after(&answer)
    }

    /// Asks the transport for its models.
    pub fn list_models_checked(&mut self) -> (r: Result<Vec<String>, RuntimeError>)
        ensures
            exists|answer: Result<RuntimeModelCatalog, RuntimeError>| #[trigger]
                may_list(old(self).carrier(), answer) && ({
                    let after = old(self)@.adapter.refreshed(route::answer_view(answer));
                    &&& final(self)@ == (ConnectorView { adapter: after.0, ..old(self)@ })
                    &&& models_view(r) == after.1
                }),
            final(self).follows(old(self)),
    {
        let answer = self.transport.list_models();
        let ghost given = answer;
        assert(may_list(old(self).carrier(), given));
        self.refresh_models(answer)
    }

    /// The models of the transport, or none where it fails.
    pub fn list_models(&mut self) -> (r: Vec<String>)
        ensures
            exists|answer: Result<RuntimeModelCatalog, RuntimeError>| #[trigger]
                may_list(old(self).carrier(), answer) && ({
                    let after = old(self)@.adapter.refreshed(route::answer_view(answer));
                    &&& final(self)@ == (ConnectorView { adapter: after.0, ..old(self)@ })
                    &&& text::texts(r@) == match after.1 {
                        Ok(models) => models,
                        Err(_) => seq![],
                    }
                }),
            final(self).follows(old(self)),
    {
        match self.list_models_checked() {
            Ok(models) => models,
            Err(_) => {
                let none: Vec<String> = Vec::new();
                assert(text::texts(none@) =~= seq![]);
                none
            },
        }
    }

    /// Cancels a run. The answer is the event by which the run ends here, and the
    /// worker that is to stop.
    pub fn cancel(&self, request: &RuntimeRequest) -> (r: Result<
        (RuntimeEvent, Option<u64>),
        RuntimeError,
    >)
        ensures
            match route::route_error(request) {
                Some(e) => r matches Err(x) && x@ == e,
                None => exists|answer: Result<(), RuntimeError>| #[trigger]
                    may_cancel(self.carrier(), *request, answer) && match answer {
                        Ok(_) => r matches Ok(got) && got.0@ == event::cancelled(
                            self.id_text(),
                            request,
                            None,
                            None,
                        ) && got.1 == if self@.active.dom().contains(request.execution_run_id@) {
                            Some(self@.active[request.execution_run_id@])
                        } else {
                            None
                        },
                        Err(e) => r matches Err(x) && x@ == e@,
                    },
            },
    {
        match ensure_route(request) {
            Ok(_) => {},
            Err(e) => {
                return Err(e);
            },
        }
        let answer = self.transport.cancel(request);
        let ghost given = answer;
        assert(may_cancel(self.carrier(), *request, given));
        self.cancel_answered(request, answer)
    }

    /// Releases what the transport has made. All workers are to stop: they are handed
    /// out with the answer.
    pub fn shutdown_owned(&self) -> (r: (Vec<u64>, Result<(), RuntimeError>))
        ensures
            textmap::are_values(r.0@, self@.active),
            call_ensures(T::shutdown_owned, (&self.carrier(),), r.1),
    {
        let tickets = self.active_tickets();
        (tickets, self.transport.shutdown_owned())
    }
}

// ---------------------------------------------------------------------------
// Recordings.

/// A transport that replays a recording.
#[derive(Debug)]
pub struct FixtureConnectorTransport {
    pub inner: FixtureConnectorRuntime,
}

pub open spec fn fixture_metadata(id: Seq<char>, capabilities: RuntimeCapabilities) ->
    catalog::MetaView {
    catalog::MetaView {
        model_id: id,
        available: true,
        enabled: true,
        status: Some("available"@),
        capabilities,
    }
}

/// The catalog of a recording: its models, of which the first is the default.
pub open spec fn fixture_catalog(inner: FixtureConnectorRuntime) -> catalog::CatalogView {
    catalog::CatalogView {
        models: inner.models(),
        revision: Some("fixture"@),
        default_model_id: if inner.models().len() > 0 {
            Some(inner.models()[0])
        } else {
            None
        },
        model_metadata: Seq::new(
            inner.models().len(),
            |i: int| fixture_metadata(inner.models()[i], inner.capabilities),
        ),
    }
}

impl ConnectorRuntimeTransport for FixtureConnectorTransport {
    fn runtime_id(&self) -> (r: &'static str)
        ensures
            r@ == if self.inner.runtime_id@ == "codex"@ {
                "codex"@
            } else {
                "kun"@
            },
    {
        if same_text(self.inner.runtime_id.as_str(), "codex") {
            "codex"
        } else {
            "kun"
        }
    }

    fn owned(&self) -> (r: bool)
        ensures
            r,
    {
        true
    }

    fn discover(&self) -> (r: Result<RuntimeDiscovery, RuntimeError>)
        ensures
            r matches Ok(d) && d.is(
                self.inner.runtime_id@,
                Some(self.inner.runtime_version@),
                true,
            ),
    {
        Ok(
            RuntimeDiscovery::new(
                self.inner.runtime_id.as_str(),
                Some(self.inner.runtime_version.clone()),
                true,
            ),
        )
    }

    fn list_models(&self) -> (r: Result<RuntimeModelCatalog, RuntimeError>)
        ensures
            r matches Ok(c) && c@ == fixture_catalog(self.inner),
    {
        let models = copy_texts(&self.inner.model_ids);
        let default_model_id = if self.inner.model_ids.len() > 0 {
            Some(self.inner.model_ids[0].clone())
        } else {
            None
        };
        let ghost ids = self.inner.models();
        let ghost want = fixture_catalog(self.inner).model_metadata;
        let mut model_metadata: Vec<RuntimeModelMetadata> = Vec::new();
        let mut i: usize = 0;
        assert(catalog::meta_views(model_metadata@) =~= want.take(0));
        while i < self.inner.model_ids.len()
            invariant
                i <= self.inner.model_ids@.len(),
                ids == self.inner.models(),
                want == fixture_catalog(self.inner).model_metadata,
                catalog::meta_views(model_metadata@) == want.take(i as int),
            decreases self.inner.model_ids@.len() - i,
        {
            let m = RuntimeModelMetadata {
                model_id: self.inner.model_ids[i].clone(),
                available: true,
                enabled: true,
                status: Some("available".to_owned()),
                capabilities: self.inner.capabilities,
            };
            proof {
                catalog::lemma_meta_views_push(model_metadata@, m);
                assert(m@ =~= want[i as int]);
                assert(want.take(i + 1) =~= want.take(i as int).push(want[i as int]));
            }
            model_metadata.push(m);
            i += 1;
        }
        let c = RuntimeModelCatalog {
            models,
            revision: Some("fixture".to_owned()),
            default_model_id,
            model_metadata,
        };
        proof {
            assert(want.take(i as int) =~= want);
            assert(c@ =~= fixture_catalog(self.inner));
        }
        Ok(c)
    }

    fn cancel(&self, request: &RuntimeRequest) -> (r: Result<(), RuntimeError>)
        ensures
            match r {
                Ok(_) => self.inner.fixture is Some,
                Err(e) => self.inner.fixture is None && e@ == error::ErrorView::Unsupported,
            },
    {
        if self.inner.fixture.is_some() {
            Ok(())
        } else {
            Err(RuntimeError::Unsupported)
        }
    }

    fn shutdown_owned(&self) -> (r: Result<(), RuntimeError>)
        ensures
            r is Ok,
    {
        Ok(())
    }
}

/// A transport that replays a recording is always found, and lists the models of
/// the recording.
pub proof fn law_recording_answers(
    t: FixtureConnectorTransport,
    found: Result<RuntimeDiscovery, RuntimeError>,
    listed: Result<RuntimeModelCatalog, RuntimeError>,
)
    requires
        may_discover(t, found),
        may_list(t, listed),
    ensures
        found matches Ok(d) && d.is(t.inner.runtime_id@, Some(t.inner.runtime_version@), true),
        listed matches Ok(c) && c@ == fixture_catalog(t.inner),
{
}

/// What a recording answers to a request.
pub open spec fn replayed(inner: FixtureConnectorRuntime, request: &RuntimeRequest) -> Result<
    Seq<event::EventView>,
    error::ErrorView,
> {
    match inner.fixture {
        Some(fixture) => inner.fixture_events(request, fixture@),
        None => Err(error::ErrorView::Unsupported),
    }
}

pub open spec fn events_view(r: Result<Vec<RuntimeEvent>, RuntimeError>) -> Result<
    Seq<event::EventView>,
    error::ErrorView,
> {
    match r {
        Ok(events) => Ok(event::event_views(events@)),
        Err(e) => Err(e@),
    }
}

/// What the worker of a recording does next.
#[derive(Debug)]
pub enum ReplayStep {
    /// Hand out an event, and then pause.
    Push(RuntimeEvent),
    /// End the run as a cancelled one.
    Cancelled,
    Done,
}

/// The replay of a recording to a stream.
pub struct FixtureReplay {
    events: VecDeque<RuntimeEvent>,
    pause_ns: u128,
}

impl FixtureReplay {
    /// The events that are still to be handed out.
    pub closed spec fn view(&self) -> Seq<event::EventView> {
        event::event_views(self.events@)
    }

    pub closed spec fn pause(&self) -> u128 {
        self.pause_ns
    }

    /// How long the worker pauses after an event.
    pub fn pause_ns(&self) -> (r: u128)
        ensures
            r == self.pause(),
    {
        self.pause_ns
    }

    /// What the worker does next, when it sees whether its run was cancelled.
    pub fn advance(&mut self, cancelled: bool) -> (r: ReplayStep)
        ensures
            final(self).pause() == old(self).pause(),
            if old(self)@.len() == 0 {
                r is Done && final(self)@ == old(self)@
            } else if cancelled {
                r is Cancelled && final(self)@ == old(self)@
            } else {
                &&& r matches ReplayStep::Push(e) && e@ == old(self)@[0]
                &&& final(self)@ == old(self)@.drop_first()
            },
    {
        if self.events.len() == 0 {
            return ReplayStep::Done;
        }
        if cancelled {
            return ReplayStep::Cancelled;
        }
        let ghost before = self.events@;
        match self.events.pop_front() {
            Some(e) => {
                assert(event::event_views(self.events@) =~= event::event_views(
                    before,
                ).drop_first());
                ReplayStep::Push(e)
            },
            None => ReplayStep::Done,
        }
    }
}

impl FixtureConnectorTransport {
    /// Begins to replay the answer to a request.
    pub fn replay(&self, request: &RuntimeRequest) -> (r: Result<FixtureReplay, RuntimeError>)
        ensures
            match r {
                Ok(p) => replayed(self.inner, request) == Ok::<
                    Seq<event::EventView>,
                    error::ErrorView,
                >(p@) && p.pause() == self.inner.inter_event_delay_ns,
                Err(e) => replayed(self.inner, request) == Err::<
                    Seq<event::EventView>,
                    error::ErrorView,
                >(e@),
            },
    {
        let events = match self.inner.execute_configured(request) {
            Ok(events) => events,
            Err(e) => {
                return Err(e);
            },
        };
        let ghost all = event::event_views(events@);
        let ghost given = events@;
        let mut queue: VecDeque<RuntimeEvent> = VecDeque::new();
        for x in it: events
            invariant
                it.seq() == given,
                queue@ == given.take(it.index() as int),
        {
            proof {
                assert(given.take(it.index() + 1) =~= given.take(it.index() as int).push(x));
            }
            queue.push_back(x);
        }
        assert(given.take(given.len() as int) =~= given);
        Ok(FixtureReplay { events: queue, pause_ns: self.inner.inter_event_delay_ns })
    }
}

impl TransportBackedRuntime<FixtureConnectorTransport> {
    /// All events of the answer to a request.
    pub fn execute(&self, request: &RuntimeRequest) -> (r: Result<Vec<RuntimeEvent>, RuntimeError>)
        ensures
            events_view(r) == match route::route_error(request) {
                Some(e) => Err(e),
                None => replayed(self.carrier().inner, request),
            },
    {
        match ensure_route(request) {
            Ok(_) => {},
            Err(e) => {
                return Err(e);
            },
        }
        self.transport.inner.execute_configured(request)
    }
}

// ---------------------------------------------------------------------------
// Codex.

pub open spec fn every_ability() -> RuntimeCapabilities {
    RuntimeCapabilities { streaming: true, cancel: true, filesystem: true, shell: true }
}

fn all_abilities() -> (r: RuntimeCapabilities)
    ensures
        r == every_ability(),
{
    RuntimeCapabilities { streaming: true, cancel: true, filesystem: true, shell: true }
}

pub const DEFAULT_REQUEST_TIMEOUT_NS: u128 = 120_000_000_000;

/// How a Codex process is found and asked.
#[derive(Clone, Debug)]
pub struct CodexAppServerConfig {
    /// A binary that is named wins over the environment. It is not opened before
    /// something is asked.
    pub binary_path: Option<String>,
    /// What stands before the arguments of the process.
    pub command_args: Vec<String>,
    pub default_model: Option<String>,
    pub request_timeout_ns: u128,
}

impl Default for CodexAppServerConfig {
    fn default() -> (r: Self)
        ensures
            r.binary_path is None,
            r.command_args@.len() == 0,
            r.default_model is None,
            r.request_timeout_ns == DEFAULT_RUNTIME_TIMEOUT_MS * 1_000_000,
    {
        CodexAppServerConfig {
            binary_path: None,
            command_args: Vec::new(),
            default_model: None,
            request_timeout_ns: DEFAULT_REQUEST_TIMEOUT_NS,
        }
    }
}

pub struct CodexAppServerRuntime<T> {
    pub inner: TransportBackedRuntime<T>,
}

/// What a recording connector is made of.
pub open spec fn is_recording(
    inner: FixtureConnectorRuntime,
    runtime_id: Seq<char>,
    version: Seq<char>,
    provider: Seq<char>,
    models: Seq<Seq<char>>,
    fixture: Seq<char>,
    delay_ns: u128,
) -> bool {
    &&& inner.runtime_id@ == runtime_id
    &&& inner.runtime_version@ == version
    &&& inner.provider_type@ == provider
    &&& inner.models() == models
    &&& text::opt_text(inner.fixture) == Some(fixture)
    &&& inner.capabilities == every_ability()
    &&& inner.inter_event_delay_ns == delay_ns
}

/// The models that a recording serves.
pub open spec fn recorded_models(ids: Seq<Seq<char>>) -> Seq<Seq<char>> {
    if connector::trimmed_ids(ids).len() == 0 {
        seq!["fixture-default"@]
    } else {
        connector::trimmed_ids(ids)
    }
}

/// The model that a recording is asked for.
pub open spec fn asked_model(request: &RuntimeRequest) -> Seq<char> {
    match request.model_id {
        Some(id) => id@,
        None => "fixture-default"@,
    }
}

fn recording(
    runtime_id: &str,
    version: &str,
    provider: &str,
    model_ids: Vec<String>,
    fixture: String,
    delay_ns: u128,
) -> (r: FixtureConnectorRuntime)
    ensures
        is_recording(
            r,
            runtime_id@,
            version@,
            provider@,
            recorded_models(text::texts(model_ids@)),
            fixture@,
            delay_ns,
        ),
{
    FixtureConnectorRuntime::new(
        runtime_id,
        version,
        provider,
        "fixture-default".to_owned(),
        all_abilities(),
    ).with_models(model_ids).with_fixture(fixture).with_inter_event_delay(delay_ns)
}

fn one_off_recording(
    runtime_id: &str,
    version: &str,
    provider: &str,
    request: &RuntimeRequest,
    fixture: &str,
) -> (r: FixtureConnectorRuntime)
    ensures
        is_recording(
            r,
            runtime_id@,
            version@,
            provider@,
            seq![asked_model(request)],
            fixture@,
            0,
        ),
{
    let model_id = match copy_text(&request.model_id) {
        Some(id) => id,
        None => "fixture-default".to_owned(),
    };
    FixtureConnectorRuntime::new(
        runtime_id,
        version,
        provider,
        model_id,
        all_abilities(),
    ).with_fixture(fixture.to_owned())
}

fn one_model(model_id: String) -> (r: Vec<String>)
    ensures
        text::texts(r@) == seq![model_id@],
{
    let mut r: Vec<String> = Vec::new();
    r.push(model_id);
    assert(text::texts(r@) =~= seq![model_id@]);
    r
}

impl<T> CodexAppServerRuntime<T> {
    /// A connector on a transport. Nothing is asked of the transport.
    pub fn with_transport(transport: T) -> (r: Self)
        ensures
            r.inner@.adapter == route::unprobed("codex"@),
            r.inner@.active == Map::<Seq<char>, u64>::empty(),
            r.inner.id_text() == "codex"@,
            r.inner.abilities() == every_ability(),
            r.inner.carrier() == transport,
    {
        CodexAppServerRuntime {
            inner: TransportBackedRuntime::new("codex", all_abilities(), transport),
        }
    }

    pub fn catalog_revision(&self) -> (r: Option<String>)
        ensures
            text::opt_text(r) == self.inner@.adapter.revision,
    {
        self.inner.cached_catalog_revision()
    }

    /// Answers a request from a recording that is handed in.
    pub fn execute_from_fixture(&self, request: &RuntimeRequest, fixture: &str) -> (r: Result<
        Vec<RuntimeEvent>,
        RuntimeError,
    >)
        ensures
            exists|inner: FixtureConnectorRuntime|
                #![trigger inner.fixture_events(request, fixture@)]
                is_recording(
                    inner,
                    "codex"@,
                    "app-server-fixture-v1"@,
                    "codex-fixture"@,
                    seq![asked_model(request)],
                    fixture@,
                    0,
                ) && events_view(r) == inner.fixture_events(request, fixture@),
    {
        let inner = one_off_recording(
            "codex",
            "app-server-fixture-v1",
            "codex-fixture",
            request,
            fixture,
        );
        inner.execute_fixture(request, fixture)
    }
}

impl CodexAppServerRuntime<CodexAppServerConfig> {
    /// A connector that has its configuration only: no process is started.
    pub fn new(model_id: &str) -> (r: Self)
        ensures
            r.inner@.adapter == route::unprobed("codex"@),
            r.inner.id_text() == "codex"@,
            r.inner.carrier().binary_path is None,
            r.inner.carrier().command_args@.len() == 0,
            text::opt_text(r.inner.carrier().default_model) == text::safe_identifier(model_id@),
            r.inner.carrier().request_timeout_ns == DEFAULT_RUNTIME_TIMEOUT_MS * 1_000_000,
    {
        let mut config = CodexAppServerConfig::default();
        config.default_model = safe_model_identifier(model_id);
        Self::with_config(config)
    }

    pub fn with_config(config: CodexAppServerConfig) -> (r: Self)
        ensures
            r.inner@.adapter == route::unprobed("codex"@),
            r.inner@.active == Map::<Seq<char>, u64>::empty(),
            r.inner.id_text() == "codex"@,
            r.inner.abilities() == every_ability(),
            r.inner.carrier() == config,
    {
        Self::with_transport(config)
    }
}

impl CodexAppServerRuntime<FixtureConnectorTransport> {
    pub fn from_fixture(model_id: String, fixture: String) -> (r: Self)
        ensures
            r.inner@.adapter == route::unprobed("codex"@),
            r.inner.id_text() == "codex"@,
            is_recording(
                r.inner.carrier().inner,
                "codex"@,
                "app-server-fixture-v1"@,
                "codex-fixture"@,
                recorded_models(seq![model_id@]),
                fixture@,
                0,
            ),
    {
        Self::from_fixture_models(one_model(model_id), fixture)
    }

    pub fn from_fixture_models(model_ids: Vec<String>, fixture: String) -> (r: Self)
        ensures
            r.inner@.adapter == route::unprobed("codex"@),
            r.inner.id_text() == "codex"@,
            is_recording(
                r.inner.carrier().inner,
                "codex"@,
                "app-server-fixture-v1"@,
                "codex-fixture"@,
                recorded_models(text::texts(model_ids@)),
                fixture@,
                0,
            ),
    {
        Self::from_fixture_models_with_delay(model_ids, fixture, 0)
    }

    pub fn from_fixture_models_with_delay(
        model_ids: Vec<String>,
        fixture: String,
        inter_event_delay_ns: u128,
    ) -> (r: Self)
        ensures
            r.inner@.adapter == route::unprobed("codex"@),
            r.inner.id_text() == "codex"@,
            is_recording(
                r.inner.carrier().inner,
                "codex"@,
                "app-server-fixture-v1"@,
                "codex-fixture"@,
                recorded_models(text::texts(model_ids@)),
                fixture@,
                inter_event_delay_ns,
            ),
    {
        let inner = recording(
            "codex",
            "app-server-fixture-v1",
            "codex-fixture",
            model_ids,
            fixture,
            inter_event_delay_ns,
        );
        Self::with_transport(FixtureConnectorTransport { inner })
    }
}

// ---------------------------------------------------------------------------
// Kun.

/// How a shared Kun runtime is found and asked.
#[derive(Clone, Debug)]
pub struct KunSharedRuntimeConfig {
    /// The directory that holds the record of the runtime. It is read when
    /// something is asked, and not before.
    pub data_dir: Option<String>,
    /// The directory below which the metadata of the build stands.
    pub install_dir: Option<String>,
    pub default_model: Option<String>,
    pub expected_service_version: String,
    pub expected_build_id: Option<String>,
    pub request_timeout_ns: u128,
}

pub const KUN_SERVICE_VERSION: &'static str = "0.2.34";

impl Default for KunSharedRuntimeConfig {
    fn default() -> (r: Self)
        ensures
            r.data_dir is None,
            r.install_dir is None,
            r.default_model is None,
            r.expected_service_version@ == KUN_SERVICE_VERSION@,
            r.expected_build_id is None,
            r.request_timeout_ns == DEFAULT_RUNTIME_TIMEOUT_MS * 1_000_000,
    {
        KunSharedRuntimeConfig {
            data_dir: None,
            install_dir: None,
            default_model: None,
            expected_service_version: KUN_SERVICE_VERSION.to_owned(),
            expected_build_id: None,
            request_timeout_ns: DEFAULT_REQUEST_TIMEOUT_NS,
        }
    }
}

pub struct KunSharedRuntime<T> {
    pub inner: TransportBackedRuntime<T>,
}

impl<T> KunSharedRuntime<T> {
    /// A connector on a transport. Nothing is asked of the transport.
    pub fn with_transport(transport: T) -> (r: Self)
        ensures
            r.inner@.adapter == route::unprobed("kun"@),
            r.inner@.active == Map::<Seq<char>, u64>::empty(),
            r.inner.id_text() == "kun"@,
            r.inner.abilities() == every_ability(),
            r.inner.carrier() == transport,
    {
        KunSharedRuntime { inner: TransportBackedRuntime::new("kun", all_abilities(), transport) }
    }

    pub fn catalog_revision(&self) -> (r: Option<String>)
        ensures
            text::opt_text(r) == self.inner@.adapter.revision,
    {
        self.inner.cached_catalog_revision()
    }

    /// Answers a request from a recording that is handed in.
    pub fn execute_from_fixture(&self, request: &RuntimeRequest, fixture: &str) -> (r: Result<
        Vec<RuntimeEvent>,
        RuntimeError,
    >)
        ensures
            exists|inner: FixtureConnectorRuntime|
                #![trigger inner.fixture_events(request, fixture@)]
                is_recording(
                    inner,
                    "kun"@,
                    "shared-runtime-fixture-v0.2.34"@,
                    "kun-fixture"@,
                    seq![asked_model(request)],
                    fixture@,
                    0,
                ) && events_view(r) == inner.fixture_events(request, fixture@),
    {
        let inner = one_off_recording(
            "kun",
            "shared-runtime-fixture-v0.2.34",
            "kun-fixture",
            request,
            fixture,
        );
        inner.execute_fixture(request, fixture)
    }
}

impl KunSharedRuntime<KunSharedRuntimeConfig> {
    /// A connector that has its configuration only: the shared runtime is neither
    /// started nor probed.
    pub fn new(model_id: &str) -> (r: Self)
        ensures
            r.inner@.adapter == route::unprobed("kun"@),
            r.inner.id_text() == "kun"@,
            r.inner.carrier().data_dir is None,
            r.inner.carrier().install_dir is None,
            text::opt_text(r.inner.carrier().default_model) == text::safe_identifier(model_id@),
            r.inner.carrier().expected_service_version@ == KUN_SERVICE_VERSION@,
            r.inner.carrier().expected_build_id is None,
            r.inner.carrier().request_timeout_ns == DEFAULT_RUNTIME_TIMEOUT_MS * 1_000_000,
    {
        let mut config = KunSharedRuntimeConfig::default();
        config.default_model = safe_model_identifier(model_id);
        Self::with_config(config)
    }

    pub fn with_config(config: KunSharedRuntimeConfig) -> (r: Self)
        ensures
            r.inner@.adapter == route::unprobed("kun"@),
            r.inner@.active == Map::<Seq<char>, u64>::empty(),
            r.inner.id_text() == "kun"@,
            r.inner.abilities() == every_ability(),
            r.inner.carrier() == config,
    {
        Self::with_transport(config)
    }
}

impl KunSharedRuntime<FixtureConnectorTransport> {
    pub fn from_fixture(model_id: String, fixture: String) -> (r: Self)
        ensures
            r.inner@.adapter == route::unprobed("kun"@),
            r.inner.id_text() == "kun"@,
            is_recording(
                r.inner.carrier().inner,
                "kun"@,
                "shared-runtime-fixture-v0.2.34"@,
                "kun-fixture"@,
                recorded_models(seq![model_id@]),
                fixture@,
                0,
            ),
    {
        Self::from_fixture_models(one_model(model_id), fixture)
    }

    pub fn from_fixture_models(model_ids: Vec<String>, fixture: String) -> (r: Self)
        ensures
            r.inner@.adapter == route::unprobed("kun"@),
            r.inner.id_text() == "kun"@,
            is_recording(
                r.inner.carrier().inner,
                "kun"@,
                "shared-runtime-fixture-v0.2.34"@,
                "kun-fixture"@,
                recorded_models(text::texts(model_ids@)),
                fixture@,
                0,
            ),
    {
        Self::from_fixture_models_with_delay(model_ids, fixture, 0)
    }

    pub fn from_fixture_models_with_delay(
        model_ids: Vec<String>,
        fixture: String,
        inter_event_delay_ns: u128,
    ) -> (r: Self)
        ensures
            r.inner@.adapter == route::unprobed("kun"@),
            r.inner.id_text() == "kun"@,
            is_recording(
                r.inner.carrier().inner,
                "kun"@,
                "shared-runtime-fixture-v0.2.34"@,
                "kun-fixture"@,
                recorded_models(text::texts(model_ids@)),
                fixture@,
                inter_event_delay_ns,
            ),
    {
        let inner = recording(
            "kun",
            "shared-runtime-fixture-v0.2.34",
            "kun-fixture",
            model_ids,
            fixture,
            inter_event_delay_ns,
        );
        Self::with_transport(FixtureConnectorTransport { inner })
    }
}

} // verus!
