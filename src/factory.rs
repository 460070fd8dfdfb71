use vstd::prelude::*;

use crate::error::PipelineError;
use crate::mailbox::{offer_spec, Admission, Mailbox, MailboxView, WorkerState};
use crate::plugin_chain::PluginChain;
use crate::registry::BackendRegistry;

verus! {

/// Room of the bounded queue in front of every pipeline handle.
pub const QUEUE_CAPACITY: usize = 20000;

/// One backend declared by the configuration: its subgraph name and the
/// address its calls are routed to.
#[derive(Debug, Clone)]
pub struct SubgraphConfig {
    pub name: String,
    pub routing_url: String,
}

/// The part of a configuration snapshot that pipeline construction reads.
#[derive(Debug, Clone)]
pub struct Configuration {
    pub subgraphs: Vec<SubgraphConfig>,
}

/// Where the unit of one backend comes from.
#[derive(Debug, Clone)]
pub enum BackendSource {
    /// Built anew from this routing address.
    Address(String),
    /// The override at this position of the factory's overrides.
    Override(usize),
}

/// One backend that a new generation needs.
#[derive(Debug, Clone)]
pub struct BackendPlan {
    pub name: String,
    pub source: BackendSource,
}

/// What building the backends of a plan gave, entry by entry, makes of the
/// registry: the first entry that could not be built or repeats a name
/// decides the error.
pub open spec fn assemble_spec<S>(entries: Seq<(Seq<char>, Option<S>)>) -> Result<
    Map<Seq<char>, S>,
    PipelineError,
>
    decreases entries.len(),
{
    if entries.len() == 0 {
        Ok(Map::empty())
    } else {
        let last = entries.last();
        match assemble_spec(entries.drop_last()) {
            Err(e) => Err(e),
            Ok(m) => match last.1 {
                None => Err(PipelineError::BackendInitFailure),
                Some(unit) => if m.contains_key(last.0) {
                    Err(PipelineError::DuplicateBackend)
                } else {
                    Ok(m.insert(last.0, unit))
                },
            },
        }
    }
}

pub open spec fn entries_view<S>(entries: Seq<(String, Option<S>)>) -> Seq<(Seq<char>, Option<S>)> {
    entries.map_values(|e: (String, Option<S>)| (e.0@, e.1))
}

proof fn lemma_error_persists<S>(entries: Seq<(Seq<char>, Option<S>)>, k: int)
    requires
        0 <= k <= entries.len(),
        assemble_spec(entries.take(k)) is Err,
    ensures
        assemble_spec(entries) == assemble_spec(entries.take(k)),
    decreases entries.len() - k,
{
    if k < entries.len() {
        assert(entries.take(k + 1).drop_last() =~= entries.take(k));
        lemma_error_persists(entries, k + 1);
    } else {
        assert(entries.take(k) =~= entries);
    }
}

/// Registers the built backends in order; all or nothing: the first entry
/// whose unit could not be built fails the whole with `BackendInitFailure`,
/// the first repeated name with `DuplicateBackend`.
pub fn assemble_backends<S>(entries: Vec<(String, Option<S>)>) -> (r: Result<
    BackendRegistry<S>,
    PipelineError,
>)
    ensures
        r is Ok <==> assemble_spec(entries_view(entries@)) is Ok,
        r is Ok ==> r->Ok_0.wf() && r->Ok_0@ == assemble_spec(entries_view(entries@))->Ok_0,
        r is Err ==> r->Err_0 == assemble_spec(entries_view(entries@))->Err_0,
{
    let ghost all = entries_view(entries@);
    let n: usize = entries.len();
    let ghost total = entries@.len();
    let mut rest = entries;
    let mut registry: BackendRegistry<S> = BackendRegistry::new();
    while rest.len() > 0
        invariant
            all == entries_view(entries@),
            total == n,
            all.len() == total,
            rest@.len() <= total,
            entries_view(rest@) == all.skip(total - rest@.len()),
            registry.wf(),
            registry.len() <= total - rest@.len(),
            assemble_spec(all.take(total - rest@.len())) == Ok::<
                Map<Seq<char>, S>,
                PipelineError,
            >(registry@),
        decreases rest@.len(),
    {
        let ghost k = total - rest@.len();
        let ghost before = rest@;
        let (name, unit) = rest.remove(0);
        proof {
            assert(entries_view(before)[0] == all[k]);
            assert(all.skip(k)[0] == all[k]);
            assert forall|i: int| 0 <= i < rest@.len() implies entries_view(rest@)[i] == all.skip(
                k + 1,
            )[i] by {
                assert(rest@[i] == before[i + 1]);
                assert(entries_view(before)[i + 1] == all.skip(k)[i + 1]);
            }
            assert(entries_view(rest@) =~= all.skip(k + 1));
            assert(all[k] == (name@, unit));
            assert(all.take(k + 1).drop_last() =~= all.take(k));
            assert(all.take(k + 1).last() == all[k]);
        }
        match unit {
            None => {
                proof {
                    let pre = all.take(k + 1);
                    assert(pre.len() == k + 1);
                    assert(pre.last().1 is None);
                    assert(assemble_spec(pre.drop_last()) is Ok);
                    assert(assemble_spec(pre) == Err::<Map<Seq<char>, S>, PipelineError>(
                        PipelineError::BackendInitFailure,
                    ));
                    lemma_error_persists(all, k + 1);
                }
                return Err(PipelineError::BackendInitFailure);
            },
            Some(u) => {
                let res = registry.register(name, u);
                if res.is_err() {
                    proof {
                        lemma_error_persists(all, k + 1);
                    }
                    return Err(PipelineError::DuplicateBackend);
                }
            },
        }
    }
    proof {
        assert(all.take(total as int) =~= all);
    }
    Ok(registry)
}

/// The abstract state of a generation: its number and its backends.
pub struct GenerationView<S> {
    pub generation: nat,
    pub backends: Map<Seq<char>, S>,
}

/// The generation that a successful `create` makes after `previous`.
pub open spec fn next_generation(previous: Option<nat>) -> nat {
    match previous {
        None => 0,
        Some(g) => g + 1,
    }
}

/// What `create` gives: the outcome of building the backends and starting
/// the plugins decides; a success is the next generation over exactly the
/// backends built for it.
pub open spec fn create_spec<S>(
    previous: Option<nat>,
    backends: Result<Map<Seq<char>, S>, PipelineError>,
    plugins_started: bool,
) -> Result<GenerationView<S>, PipelineError> {
    match backends {
        Err(e) => Err(e),
        Ok(m) => if !plugins_started {
            Err(PipelineError::PluginInitFailure)
        } else {
            Ok(GenerationView { generation: next_generation(previous), backends: m })
        },
    }
}

/// One immutable pipeline generation: its backends, its plugin chain and
/// the admission state of the queue in front of its handle.
pub struct Pipeline<P, S> {
    generation: u64,
    backends: BackendRegistry<S>,
    plugins: PluginChain<P>,
    mailbox: Mailbox,
}

impl<P, S> Pipeline<P, S> {
    pub closed spec fn view(&self) -> GenerationView<S> {
        GenerationView { generation: self.generation as nat, backends: self.backends@ }
    }

    pub closed spec fn wf(&self) -> bool {
        self.backends.wf() && self.mailbox.wf()
    }

    pub closed spec fn plugins_view(&self) -> Seq<P> {
        self.plugins@
    }

    pub closed spec fn mailbox_view(&self) -> MailboxView {
        self.mailbox@
    }

    /// The generation number.
    pub fn generation(&self) -> (r: u64)
        ensures
            r == self@.generation,
    {
        self.generation
    }

    /// The backends of this generation.
    pub fn backends(&self) -> (r: &BackendRegistry<S>)
        requires
            self.wf(),
        ensures
            r.wf(),
            r@ == self@.backends,
    {
        &self.backends
    }

    /// The plugin chain of this generation.
    pub fn plugins(&self) -> (r: &PluginChain<P>)
        ensures
            r@ == self.plugins_view(),
    {
        &self.plugins
    }

    /// The admission state of the queue in front of this generation's handle.
    pub fn mailbox(&self) -> (r: &Mailbox)
        requires
            self.wf(),
        ensures
            r.wf(),
            r@ == self.mailbox_view(),
    {
        &self.mailbox
    }

    /// Offers request `id` to the queue in front of this generation's handle;
    /// the generation's backends and plugins stay as they are.
    pub fn offer(&mut self, id: u64) -> (r: Result<Admission, PipelineError>)
        requires
            old(self).wf(),
        ensures
            final(self).wf(),
            (final(self).mailbox_view(), r) == offer_spec(old(self).mailbox_view(), id),
            final(self)@ == old(self)@,
            final(self).plugins_view() == old(self).plugins_view(),
    {
        self.mailbox.offer(id)
    }
}

/// The factory of pipeline generations: plugins for the next generation,
/// and backend units that, when any are given, replace those the
/// configuration declares.
pub struct ApolloRouterFactory<P, S> {
    plugins: Vec<P>,
    services: Vec<(String, S)>,
}

impl<P, S> ApolloRouterFactory<P, S> {
    pub closed spec fn plugins_view(&self) -> Seq<P> {
        self.plugins@
    }

    /// The names of the backend overrides, in order.
    pub closed spec fn override_names(&self) -> Seq<Seq<char>> {
        self.services@.map_values(|e: (String, S)| e.0@)
    }

    /// The backend overrides' units, in order.
    pub closed spec fn override_units(&self) -> Seq<S> {
        self.services@.map_values(|e: (String, S)| e.1)
    }

    /// A factory with `plugins` and the backend overrides `services`.
    pub fn new(plugins: Vec<P>, services: Vec<(String, S)>) -> (r: Self)
        ensures
            r.plugins_view() == plugins@,
            r.override_names() == services@.map_values(|e: (String, S)| e.0@),
            r.override_units() == services@.map_values(|e: (String, S)| e.1),
    {
        ApolloRouterFactory { plugins, services }
    }

    /// A factory with no plugins and no overrides.
    pub fn empty() -> (r: Self)
        ensures
            r.plugins_view().len() == 0,
            r.override_names().len() == 0,
    {
        ApolloRouterFactory { plugins: Vec::new(), services: Vec::new() }
    }

    /// The plugins of the next generation, in declaration order.
    pub fn plugins(&self) -> (r: &Vec<P>)
        ensures
            r@ == self.plugins_view(),
    {
        &self.plugins
    }

    /// The backend override at position `i`.
    pub fn override_unit(&self, i: usize) -> (r: &S)
        requires
            i < self.override_units().len(),
        ensures
            *r == self.override_units()[i as int],
    {
        &self.services[i].1
    }

    /// The backends the next generation needs: with no overrides, one built
    /// from each backend the configuration declares, in its order; with
    /// overrides, the overrides alone, in their order, and the configuration's
    /// backends not at all.
    pub fn backend_plan(&self, configuration: &Configuration) -> (r: Vec<BackendPlan>)
        ensures
            self.override_names().len() == 0 ==> {
                &&& r@.len() == configuration.subgraphs@.len()
                &&& forall|i: int|
                    0 <= i < r@.len() ==> {
                        &&& (#[trigger] r@[i]).name@ == configuration.subgraphs@[i].name@
                        &&& r@[i].source == BackendSource::Address(
                            configuration.subgraphs@[i].routing_url,
                        )
                    }
            },
            self.override_names().len() > 0 ==> {
                &&& r@.len() == self.override_names().len()
                &&& forall|i: int|
                    0 <= i < r@.len() ==> {
                        &&& (#[trigger] r@[i]).name@ == self.override_names()[i]
                        &&& r@[i].source == BackendSource::Override(i as usize)
                    }
            },
    {
        let mut r: Vec<BackendPlan> = Vec::new();
        if self.services.len() == 0 {
            let mut i: usize = 0;
            while i < configuration.subgraphs.len()
                invariant
                    i <= configuration.subgraphs@.len(),
                    r@.len() == i,
                    forall|k: int|
                        0 <= k < i ==> {
                            &&& (#[trigger] r@[k]).name@ == configuration.subgraphs@[k].name@
                            &&& r@[k].source == BackendSource::Address(
                                configuration.subgraphs@[k].routing_url,
                            )
                        },
                decreases configuration.subgraphs@.len() - i,
            {
                let sub = &configuration.subgraphs[i];
                r.push(
                    BackendPlan {
                        name: sub.name.clone(),
                        source: BackendSource::Address(sub.routing_url.clone()),
                    },
                );
                i = i + 1;
            }
        } else {
            let mut i: usize = 0;
            while i < self.services.len()
                invariant
                    i <= self.services@.len(),
                    r@.len() == i,
                    forall|k: int|
                        0 <= k < i ==> {
                            &&& (#[trigger] r@[k]).name@ == self.override_names()[k]
                            &&& r@[k].source == BackendSource::Override(k as usize)
                        },
                decreases self.services@.len() - i,
            {
                r.push(
                    BackendPlan {
                        name: self.services[i].0.clone(),
                        source: BackendSource::Override(i),
                    },
                );
                i = i + 1;
            }
        }
        r
    }

    /// Builds the next generation after `previous` from the backends built
    /// for it and from whether its plugins started; all or nothing: any
    /// failure returns the error and leaves `previous` as it was, still
    /// serving its own requests.
    pub fn create(
        &self,
        previous: Option<&Pipeline<P, S>>,
        backends: Vec<(String, Option<S>)>,
        plugins_started: bool,
    ) -> (r: Result<Pipeline<P, S>, PipelineError>)
        where P: Clone,
        requires
            previous is Some ==> previous->0@.generation < u64::MAX,
        ensures
            r is Ok <==> create_spec(
                match previous {
                    Some(p) => Some(p@.generation),
                    None => None,
                },
                assemble_spec(entries_view(backends@)),
                plugins_started,
            ) is Ok,
            r is Ok ==> r->Ok_0.wf() && r->Ok_0@ == create_spec(
                match previous {
                    Some(p) => Some(p@.generation),
                    None => None,
                },
                assemble_spec(entries_view(backends@)),
                plugins_started,
            )->Ok_0,
            r is Ok ==> r->Ok_0.plugins_view().len() == self.plugins_view().len(),
            r is Ok ==> r->Ok_0.mailbox_view() == (MailboxView {
                capacity: QUEUE_CAPACITY as nat,
                queue: Seq::empty(),
                in_flight: None,
                handles: 1,
                worker: WorkerState::Running,
            }),
            r is Err ==> r->Err_0 == create_spec(
                match previous {
                    Some(p) => Some(p@.generation),
                    None => None,
                },
                assemble_spec(entries_view(backends@)),
                plugins_started,
            )->Err_0,
    {
        let registry = match assemble_backends(backends) {
            Ok(reg) => reg,
            Err(e) => return Err(e),
        };
        if !plugins_started {
            return Err(PipelineError::PluginInitFailure);
        }
        let generation: u64 = match previous {
            Some(p) => p.generation + 1,
            None => 0,
        };
        Ok(
            Pipeline {
                generation,
                backends: registry,
                plugins: PluginChain::new(self.plugins.clone()),
                mailbox: Mailbox::new(QUEUE_CAPACITY),
            },
        )
    }
}

/// A backend that could not be built fails the whole build, wherever it
/// stands in the plan, so no partial generation is ever made; the previous
/// generation is not an input of the build and stays as it was.
pub proof fn lemma_build_failure_isolated<S>(
    previous: Option<nat>,
    entries: Seq<(Seq<char>, Option<S>)>,
    i: int,
    plugins_started: bool,
)
    requires
        0 <= i < entries.len(),
        entries[i].1 is None,
    ensures
        assemble_spec(entries) is Err,
        create_spec(previous, assemble_spec(entries), plugins_started) is Err,
    decreases entries.len(),
{
    if i < entries.len() - 1 {
        lemma_build_failure_isolated(previous, entries.drop_last(), i, plugins_started);
    }
}

/// A successful build makes a new generation numbered one past the previous
/// one and holding exactly the backends built for it; a failed one makes
/// none.
pub proof fn lemma_new_generation<S>(
    previous: Option<nat>,
    backends: Result<Map<Seq<char>, S>, PipelineError>,
    plugins_started: bool,
)
    ensures
        create_spec(previous, backends, plugins_started) is Ok <==> (backends is Ok
            && plugins_started),
        create_spec(previous, backends, plugins_started) is Ok ==> create_spec(
            previous,
            backends,
            plugins_started,
        )->Ok_0 == (GenerationView { generation: next_generation(previous), backends: backends->Ok_0 }),
        previous is Some ==> next_generation(previous) == previous->0 + 1,
        previous is None ==> next_generation(previous) == 0,
{
}

} // verus!
