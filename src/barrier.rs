use vstd::prelude::*;

use crate::client_status::{ClientStatus, ClientStatusView};
use crate::deps::{apply_graph, deps_lookup, graph_view, DependencyMap, DependencyStore};
use crate::phase::{phase_named, Phase, ACTION_ADD_DEPENDENCIES};
use crate::protocol::{Dependencies, ErrorReason, Request, Response};
use crate::registry::{SessionMap, SessionRegistry};
use crate::text::{fields, split_fields, str_eq, views, Separator};

verus! {

/// The coordinator's shared state as plain values.
pub struct CoordinatorView {
    pub deps: DependencyMap,
    pub sessions: SessionMap,
    pub max_retries: nat,
}

/// The peers that `id` must rendezvous with: its entry in the dependency
/// graph, or none where it has no entry.
pub open spec fn effective_deps(deps: DependencyMap, id: Seq<char>) -> Seq<Seq<char>> {
    match deps_lookup(deps, id) {
        Some(d) => d,
        None => Seq::empty(),
    }
}

/// `j` has a live session that has reached the barrier of `p`.
pub open spec fn peer_ready(sessions: SessionMap, j: Seq<char>, p: Phase) -> bool {
    &&& sessions.contains_key(j)
    &&& sessions[j].connected
    &&& sessions[j].ready_for(p.spec_name())
}

/// The release rule: every dependency of `id` has reached the barrier of `p`.
pub open spec fn release_condition(v: CoordinatorView, id: Seq<char>, p: Phase) -> bool {
    forall|k: int| 0 <= k < effective_deps(v.deps, id).len()
        ==> peer_ready(v.sessions, #[trigger] effective_deps(v.deps, id)[k], p)
}

/// What a waiting handler does after sampling the release rule.
#[derive(Clone, Copy, Debug, PartialEq, Eq, Structural)]
pub enum PollDecision {
    /// Reply with success.
    Release,
    /// Sleep one poll interval and sample again.
    Wait,
    /// The retry budget is spent: reply with a timeout error.
    Timeout,
}

/// The decision at sample number `attempt` (counted from 0).
pub open spec fn poll_decision(v: CoordinatorView, id: Seq<char>, p: Phase, attempt: nat) -> PollDecision {
    if release_condition(v, id, p) {
        PollDecision::Release
    } else if attempt + 1 >= v.max_retries {
        PollDecision::Timeout
    } else {
        PollDecision::Wait
    }
}

/// The session of `id` after it announces phase `p`: live and ready, with the
/// local-checkpoint flag of its previous session kept.
pub open spec fn entered_session(sessions: SessionMap, id: Seq<char>, p: Phase) -> ClientStatusView {
    ClientStatusView {
        connected: true,
        ready: true,
        local_checkpoint: sessions.contains_key(id) && sessions[id].local_checkpoint,
        action: p.spec_name(),
    }
}

/// The dependency graph after `id` declares the colon-separated list
/// `declared`; an empty list keeps what the graph holds.
pub open spec fn declare(deps: DependencyMap, id: Seq<char>, declared: Seq<char>) -> DependencyMap {
    if fields(declared, Separator::Colon).len() > 0 {
        deps.insert(id, fields(declared, Separator::Colon))
    } else {
        deps
    }
}

/// What the connection handler does once a request has been dispatched.
#[derive(Clone, Copy, Debug, PartialEq, Eq, Structural)]
pub enum Dispatch {
    /// Write this response and close.
    Reply(Response),
    /// Enter the barrier wait loop for this phase.
    Await(Phase),
}

/// The coordinator's shared state: the dependency store, the session
/// registry, and the retry budget of each barrier wait.
pub struct Coordinator {
    deps: DependencyStore,
    sessions: SessionRegistry,
    max_retries: u32,
}

impl View for Coordinator {
    type V = CoordinatorView;

    closed spec fn view(&self) -> CoordinatorView {
        CoordinatorView {
            deps: self.deps.view(),
            sessions: self.sessions.view(),
            max_retries: self.max_retries as nat,
        }
    }
}

impl Coordinator {
    pub closed spec fn wf(&self) -> bool {
        self.deps.wf() && self.sessions.wf()
    }

    /// A coordinator with no dependencies and no sessions.
    pub fn new(max_retries: u32) -> (r: Self)
        ensures
            r.wf(),
            r@.deps == DependencyMap::empty(),
            r@.sessions == SessionMap::empty(),
            r@.max_retries == max_retries,
    {
        Coordinator { deps: DependencyStore::new(), sessions: SessionRegistry::new(), max_retries }
    }

    /// Merges an uploaded dependency graph.
    pub fn add_dependencies(&mut self, graph: &Vec<(String, Vec<String>)>)
        requires
            old(self).wf(),
        ensures
            final(self).wf(),
            final(self)@ == (CoordinatorView {
                deps: apply_graph(old(self)@.deps, graph_view(graph@)),
                ..old(self)@
            }),
    {
        self.deps.add_graph(graph);
    }

    /// The dependencies of `id`, by longest matching prefix; empty where the
    /// graph has no entry for it.
    pub fn dependencies_of(&self, id: &str) -> (r: Vec<String>)
        requires
            self.wf(),
        ensures
            views(r@) == effective_deps(self@.deps, id@),
    {
        match self.deps.deps_of(id) {
            Some(v) => v,
            None => {
                let v: Vec<String> = Vec::new();
                assert(views(v@) =~= Seq::<Seq<char>>::empty());
                v
            },
        }
    }

    /// Records that `id` has reached the barrier of `p`, declaring the
    /// colon-separated dependencies `declared`.
    pub fn enter_phase(&mut self, id: &str, p: Phase, declared: &str)
        requires
            old(self).wf(),
        ensures
            final(self).wf(),
            final(self)@ == (CoordinatorView {
                deps: declare(old(self)@.deps, id@, declared@),
                sessions: old(self)@.sessions.insert(id@, entered_session(old(self)@.sessions, id@, p)),
                ..old(self)@
            }),
    {
        let list = split_fields(declared, Separator::Colon);
        if list.len() > 0 {
            self.deps.put(id, list);
        }
        let prior = match self.sessions.get(id) {
            Some(s) => s.has_local_checkpoint(),
            None => false,
        };
        let mut status = ClientStatus::new();
        status.set_action(p.name());
        status.set_ready(true);
        if prior {
            status.set_local_checkpoint();
        }
        self.sessions.insert(id, status);
    }

    /// Whether `j` has a live session that has reached the barrier of `p`.
    pub fn is_peer_ready(&self, j: &str, p: Phase) -> (r: bool)
        requires
            self.wf(),
        ensures
            r == peer_ready(self@.sessions, j@, p),
    {
        match self.sessions.get(j) {
            Some(s) => s.is_connected() && s.is_ready_for_action(p.name()),
            None => false,
        }
    }

    /// Samples the release rule for `id` in phase `p`.
    pub fn can_release(&self, id: &str, p: Phase) -> (r: bool)
        requires
            self.wf(),
        ensures
            r == release_condition(self@, id@, p),
    {
        let deps = self.dependencies_of(id);
        let ghost ed = effective_deps(self@.deps, id@);
        let mut i: usize = 0;
        while i < deps.len()
            invariant
                self.wf(),
                i <= deps@.len(),
                views(deps@) == ed,
                ed == effective_deps(self@.deps, id@),
                forall|k: int| 0 <= k < i ==> peer_ready(self@.sessions, #[trigger] ed[k], p),
            decreases deps.len() - i,
        {
            assert(ed[i as int] == deps@[i as int]@);
            if !self.is_peer_ready(deps[i].as_str(), p) {
                return false;
            }
            i = i + 1;
        }
        true
    }

    /// The decision at sample number `attempt` of the wait of `id` in `p`.
    pub fn poll(&self, id: &str, p: Phase, attempt: u32) -> (r: PollDecision)
        requires
            self.wf(),
        ensures
            r == poll_decision(self@, id@, p, attempt as nat),
    {
        if self.can_release(id, p) {
            PollDecision::Release
        } else if attempt as u64 + 1 >= self.max_retries as u64 {
            PollDecision::Timeout
        } else {
            PollDecision::Wait
        }
    }

    /// Records that `id` was released from `p`: a release from post-dump
    /// means that its local checkpoint is done.
    pub fn complete(&mut self, id: &str, p: Phase)
        requires
            old(self).wf(),
        ensures
            final(self).wf(),
            final(self)@ == (if p == Phase::PostDump && old(self)@.sessions.contains_key(id@) {
                CoordinatorView {
                    sessions: old(self)@.sessions.insert(
                        id@,
                        ClientStatusView { local_checkpoint: true, ..old(self)@.sessions[id@] },
                    ),
                    ..old(self)@
                }
            } else {
                old(self)@
            }),
    {
        if p == Phase::PostDump {
            let updated = match self.sessions.get(id) {
                Some(s) => {
                    let mut c = s.duplicate();
                    c.set_local_checkpoint();
                    Some(c)
                },
                None => None,
            };
            if let Some(c) = updated {
                self.sessions.insert(id, c);
            }
        }
    }

    /// Records that the connection of `id` failed: its session no longer
    /// counts as present.
    pub fn disconnect(&mut self, id: &str)
        requires
            old(self).wf(),
        ensures
            final(self).wf(),
            final(self)@ == (if old(self)@.sessions.contains_key(id@) {
                CoordinatorView {
                    sessions: old(self)@.sessions.insert(
                        id@,
                        ClientStatusView { connected: false, ..old(self)@.sessions[id@] },
                    ),
                    ..old(self)@
                }
            } else {
                old(self)@
            }),
    {
        let updated = match self.sessions.get(id) {
            Some(s) => {
                let mut c = s.duplicate();
                c.set_disconnected();
                Some(c)
            },
            None => None,
        };
        if let Some(c) = updated {
            self.sessions.insert(id, c);
        }
    }

    /// Whether the session of `id` has completed its local checkpoint.
    pub fn has_local_checkpoint(&self, id: &str) -> (r: bool)
        requires
            self.wf(),
        ensures
            r == (self@.sessions.contains_key(id@) && self@.sessions[id@].local_checkpoint),
    {
        match self.sessions.get(id) {
            Some(s) => s.has_local_checkpoint(),
            None => false,
        }
    }

    /// Dispatches one request: a dependency upload is merged and answered at
    /// once; a phase announcement enters the barrier; anything else is
    /// refused.
    pub fn handle_request(&mut self, req: &Request) -> (r: Dispatch)
        requires
            old(self).wf(),
        ensures
            final(self).wf(),
            req.action@ == ACTION_ADD_DEPENDENCIES@ ==> match req.dependencies {
                Dependencies::Graph(g) => {
                    &&& r == Dispatch::Reply(Response::Success)
                    &&& final(self)@ == (CoordinatorView {
                        deps: apply_graph(old(self)@.deps, graph_view(g@)),
                        ..old(self)@
                    })
                },
                Dependencies::Declared(_) => {
                    &&& r == Dispatch::Reply(Response::Failure(ErrorReason::MalformedRequest))
                    &&& final(self)@ == old(self)@
                },
            },
            req.action@ != ACTION_ADD_DEPENDENCIES@ ==> match phase_named(req.action@) {
                Some(p) => match req.dependencies {
                    Dependencies::Declared(d) => {
                        &&& r == Dispatch::Await(p)
                        &&& final(self)@ == (CoordinatorView {
                            deps: declare(old(self)@.deps, req.id@, d@),
                            sessions: old(self)@.sessions.insert(
                                req.id@,
                                entered_session(old(self)@.sessions, req.id@, p),
                            ),
                            ..old(self)@
                        })
                    },
                    Dependencies::Graph(_) => {
                        &&& r == Dispatch::Reply(Response::Failure(ErrorReason::MalformedRequest))
                        &&& final(self)@ == old(self)@
                    },
                },
                None => {
                    &&& r == Dispatch::Reply(Response::Failure(ErrorReason::UnknownAction))
                    &&& final(self)@ == old(self)@
                },
            },
    {
        if str_eq(req.action.as_str(), ACTION_ADD_DEPENDENCIES) {
            match &req.dependencies {
                Dependencies::Graph(g) => {
                    self.add_dependencies(g);
                    Dispatch::Reply(Response::Success)
                },
                Dependencies::Declared(_) => Dispatch::Reply(Response::Failure(ErrorReason::MalformedRequest)),
            }
        } else {
            match Phase::from_name(req.action.as_str()) {
                Some(p) => match &req.dependencies {
                    Dependencies::Declared(d) => {
                        self.enter_phase(req.id.as_str(), p, d.as_str());
                        Dispatch::Await(p)
                    },
                    Dependencies::Graph(_) => Dispatch::Reply(Response::Failure(ErrorReason::MalformedRequest)),
                },
                None => Dispatch::Reply(Response::Failure(ErrorReason::UnknownAction)),
            }
        }
    }
}


/// Rendezvous: when `i` is released from `p` while its own session is at the
/// barrier of `p`, every dependency `j` of `i` is at that barrier too, so
/// both sessions are ready for `p` at the instant of release.
pub proof fn lemma_rendezvous(v: CoordinatorView, i: Seq<char>, j: Seq<char>, p: Phase)
    requires
        release_condition(v, i, p),
        peer_ready(v.sessions, i, p),
        effective_deps(v.deps, i).contains(j),
    ensures
        peer_ready(v.sessions, j, p),
        peer_ready(v.sessions, i, p),
{
    let k = choose|k: int| 0 <= k < effective_deps(v.deps, i).len() && effective_deps(v.deps, i)[k] == j;
    assert(peer_ready(v.sessions, effective_deps(v.deps, i)[k], p));
}

/// A session at the barrier of `p` stays there through every change of the
/// registry but a change of that same session that leaves the barrier: the
/// entries of other participants, and its own release, keep it ready.
pub proof fn lemma_ready_persists(s: SessionMap, k: Seq<char>, p: Phase, other: Seq<char>, x: ClientStatusView)
    requires
        peer_ready(s, k, p),
        other != k || (x.connected && x.ready_for(p.spec_name())),
    ensures
        peer_ready(s.insert(other, x), k, p),
{
}

/// No spurious release: a released participant's every dependency has a
/// live session that announced the same phase and is ready.
pub proof fn lemma_no_spurious_release(v: CoordinatorView, i: Seq<char>, p: Phase, attempt: nat)
    requires
        poll_decision(v, i, p, attempt) == PollDecision::Release,
    ensures
        forall|k: int| 0 <= k < effective_deps(v.deps, i).len() ==> {
            let j = #[trigger] effective_deps(v.deps, i)[k];
            &&& v.sessions.contains_key(j)
            &&& v.sessions[j].connected
            &&& v.sessions[j].ready
            &&& v.sessions[j].action == p.spec_name()
        },
{
    assert forall|k: int| 0 <= k < effective_deps(v.deps, i).len() implies {
        let j = #[trigger] effective_deps(v.deps, i)[k];
        &&& v.sessions.contains_key(j)
        &&& v.sessions[j].connected
        &&& v.sessions[j].ready
        &&& v.sessions[j].action == p.spec_name()
    } by {
        assert(peer_ready(v.sessions, effective_deps(v.deps, i)[k], p));
    }
}

/// Progress: a wait ends with a response by its last permitted sample, and
/// at once on any sample where every dependency is at the barrier.
pub proof fn lemma_progress(v: CoordinatorView, i: Seq<char>, p: Phase, attempt: nat)
    ensures
        attempt + 1 >= v.max_retries ==> poll_decision(v, i, p, attempt) != PollDecision::Wait,
        release_condition(v, i, p) ==> poll_decision(v, i, p, attempt) == PollDecision::Release,
        (forall|k: int| 0 <= k < effective_deps(v.deps, i).len()
            ==> peer_ready(v.sessions, #[trigger] effective_deps(v.deps, i)[k], p))
            ==> poll_decision(v, i, p, attempt) == PollDecision::Release,
{
}

} // verus!
