//! Reclaiming what is disposed.
#[allow(unused_imports)]
use super::invariants::{lemma_coherence_shrunk, lemma_owned_shrunk, shows_no_more, shrinks_tree};
#[allow(unused_imports)]
use super::{fiber_fits, is_issued};
use super::{GcState, Runtime};
#[allow(unused_imports)]
use crate::arena::{id_version, law_retired_ids_stay_retired};
#[allow(unused_imports)]
use crate::dependency_graph::Edge;
#[allow(unused_imports)]
use crate::fiber_registry::Fibers;
#[allow(unused_imports)]
use crate::gate::CapabilityGate;
#[allow(unused_imports)]
use crate::ids::{GenerationId, ScopeId};
#[allow(unused_imports)]
use crate::plugin_registry::PluginRegistry;
#[allow(unused_imports)]
use crate::scope_registry::{is_spent, spent, without_fibers, Scopes};
#[allow(unused_imports)]
use crate::service_registry::slot_scope;
#[allow(unused_imports)]
use crate::health::counted;
use crate::state::FiberState;
use crate::task::RuntimeWorkerKind;
#[allow(unused_imports)]
use crate::task::{RuntimeWorker, RuntimeWorkerSupervisor};
use vstd::prelude::*;

verus! {

/// Number of generation-arena slots reclaimed by a garbage collection pass.
#[derive(Clone, Copy, Debug, PartialEq, Eq, Structural)]
#[non_exhaustive]
pub struct GarbageReport {
    /// Reclaimed fibers.
    pub fibers: usize,
    /// Reclaimed scopes.
    pub scopes: usize,
}

/// Whether a fiber is disposed and its slot can be used again.
pub open spec fn is_dead(fibers: Fibers, id: u64) -> bool {
    fibers[id].state is Disposed && id_version(id) < u32::MAX
}

/// Accepts the fibers that are dead.
pub open spec fn dead(fibers: Fibers) -> spec_fn(u64) -> bool {
    |id: u64| is_dead(fibers, id)
}

/// The plugins after the fibers `gone` went.
pub open spec fn detached_all(
    plugins: Map<u64, usize>,
    fibers: Fibers,
    gone: Seq<u64>,
) -> Map<u64, usize>
    decreases gone.len(),
{
    if gone.len() == 0 {
        plugins
    } else {
        PluginRegistry::after_detach(
            detached_all(plugins, fibers, gone.drop_last()),
            fibers[gone.last()].plugin_id,
        )
    }
}

/// The gates after the fibers `gone` went: those of drained generations are
/// forgotten.
pub open spec fn retired_all(
    gates: Map<u64, CapabilityGate>,
    fibers: Fibers,
    gone: Seq<u64>,
) -> Map<u64, CapabilityGate>
    decreases gone.len(),
{
    if gone.len() == 0 {
        gates
    } else {
        let rest = retired_all(gates, fibers, gone.drop_last());
        let generation = fibers[gone.last()].generation.raw;
        if rest.dom().contains(generation) && rest[generation].inflight == 0 {
            rest.remove(generation)
        } else {
            rest
        }
    }
}

/// What a collection of garbage does.
pub open spec fn collects(before: Runtime, after: Runtime, report: GarbageReport) -> bool {
    let gone = before.fibers.order().filter(dead(before.fibers@));
    &&& after == (Runtime {
        fibers: after.fibers,
        gates: after.gates,
        dependencies: after.dependencies,
        plugins: after.plugins,
        scopes: after.scopes,
        ..before
    })
    &&& report.fibers == gone.len()
    &&& forall|id: u64| #[trigger]
        after.fibers@.dom().contains(id) <==> before.fibers@.dom().contains(id) && !is_dead(
            before.fibers@,
            id,
        )
    &&& forall|id: u64| #[trigger]
        after.fibers@.dom().contains(id) ==> after.fibers@[id] == before.fibers@[id]
    &&& after.gates@ == retired_all(before.gates@, before.fibers@, gone)
    &&& after.plugins@ == detached_all(before.plugins@, before.fibers@, gone)
    &&& after.plugins.next_plugin == before.plugins.next_plugin
    &&& after.plugins.next_generation == before.plugins.next_generation
    &&& forall|edge: Edge| #[trigger]
        after.dependencies.providers@.contains(edge) <==> before.dependencies.providers@.contains(
            edge,
        ) && !gone.contains(edge.fiber.raw)
    &&& forall|edge: Edge| #[trigger]
        after.dependencies.dependents@.contains(edge)
            <==> before.dependencies.dependents@.contains(edge) && !gone.contains(edge.fiber.raw)
    &&& after.scopes.root == before.scopes.root
    &&& exists|emptied: Scopes|
        {
            &&& without_fibers(before.scopes@, emptied, gone)
            &&& report.scopes == before.scopes.scopes.order().filter(
                spent(emptied, before.scopes.root),
            ).len()
            &&& collects_scopes(emptied, after.scopes@, before.scopes.root)
        }
    &&& forall|scope: ScopeId| #[trigger]
        is_issued(before.scopes, scope) ==> is_issued(after.scopes, scope)
    &&& forall|id: u64| #[trigger]
        before.scopes.scopes.retired(id) ==> after.scopes.scopes.retired(id)
    &&& forall|id: u64| #[trigger]
        before.scopes@.dom().contains(id) && !after.scopes@.dom().contains(id)
            ==> after.scopes.scopes.retired(id)
    &&& forall|id: u64| #[trigger]
        before.fibers.retired(id) ==> after.fibers.retired(id)
    &&& forall|id: u64| #[trigger]
        before.fibers@.dom().contains(id) && !after.fibers@.dom().contains(id)
            ==> after.fibers.retired(id)
}

/// The scopes that are done with are gone; the others are as they were.
pub open spec fn collects_scopes(before: Scopes, after: Scopes, root: ScopeId) -> bool {
    &&& forall|id: u64| #[trigger]
        after.dom().contains(id) <==> before.dom().contains(id) && !is_spent(before, root, id)
    &&& forall|id: u64| #[trigger] after.dom().contains(id) ==> after[id] == before[id]
}

/// One round of a collection of garbage.
pub open spec fn runs_gc_round(
    before: Runtime,
    after: Runtime,
    again: bool,
) -> bool {
    &&& again == (before.gc_state is Rescheduled)
    &&& exists|swept: Runtime, report: GarbageReport| #[trigger]
        collects(before, swept, report) && after == (Runtime {
            gc_state: if again {
                GcState::Scheduled
            } else {
                GcState::Idle
            },
            ..swept
        })
}

impl Runtime {
    /// The fibers that are dead, in slot order.
    fn dead_fibers(&self) -> (gone: Vec<u64>)
        requires
            self.wf(),
        ensures
            gone@ == self.fibers.order().filter(dead(self.fibers@)),
            forall|id: u64| #[trigger]
                gone@.contains(id) <==> self.fibers@.dom().contains(id) && is_dead(
                    self.fibers@,
                    id,
                ),
            gone@.no_duplicates(),
    {
        let ids = self.fibers.ids();
        let mut gone: Vec<u64> = Vec::new();
        let mut i: usize = 0;
        while i < ids.len()
            invariant
                self.wf(),
                i <= ids@.len(),
                ids@ == self.fibers.order(),
                ids@.no_duplicates(),
                forall|id: u64| #[trigger] self.fibers@.dom().contains(id) <==> ids@.contains(id),
                gone@ == ids@.take(i as int).filter(dead(self.fibers@)),
                gone@.no_duplicates(),
                forall|id: u64| #[trigger]
                    gone@.contains(id) <==> ids@.take(i as int).contains(id) && is_dead(
                        self.fibers@,
                        id,
                    ),
            decreases ids@.len() - i,
        {
            let id = ids[i];
            proof {
                assert(ids@.contains(ids@[i as int]));
                assert(self.fibers@.dom().contains(id));
                assert(ids@.take(i + 1) =~= ids@.take(i as int).push(id));
                assert(ids@.take(i + 1).drop_last() =~= ids@.take(i as int));
                assert(!ids@.take(i as int).contains(id));
                reveal(Seq::filter);
            }
            let done: bool = match self.fibers.get(id) {
                Some(record) => record.state == FiberState::Disposed && self.fibers.is_removable(
                    id,
                ),
                None => false,
            };
            let ghost listed = gone@;
            assert(!listed.contains(id));
            if done {
                gone.push(id);
            }
            proof {
                assert forall|other: u64| #[trigger]
                    gone@.contains(other) <==> ids@.take(i + 1).contains(other) && is_dead(
                        self.fibers@,
                        other,
                    ) by {
                    vstd::seq_lib::lemma_seq_contains_after_push(listed, id, other);
                    vstd::seq_lib::lemma_seq_contains_after_push(ids@.take(i as int), id, other);
                }
            }
            i += 1;
        }
        proof {
            assert(ids@.take(i as int) =~= ids@);
        }
        gone
    }

    /// Reclaims disposed arena slots while preserving generation safety.
    pub fn collect_garbage(&mut self) -> (report: GarbageReport)
        requires
            old(self).wf(),
        ensures
            final(self).wf(),
            collects(*old(self), *final(self), report),
    {
        let gone = self.dead_fibers();
        let ghost before = *self;
        let mut i: usize = 0;
        while i < gone.len()
            invariant
                before == *old(self),
                before.wf(),
                *self == (Runtime {
                    fibers: self.fibers,
                    gates: self.gates,
                    plugins: self.plugins,
                    ..before
                }),
                self.fibers.wf(),
                self.plugins.wf(),
                self.plugins.next_plugin == before.plugins.next_plugin,
                self.plugins.next_generation == before.plugins.next_generation,
                i <= gone@.len(),
                gone@.no_duplicates(),
                forall|id: u64| #[trigger]
                    gone@.contains(id) ==> before.fibers@.dom().contains(id) && is_dead(
                        before.fibers@,
                        id,
                    ),
                forall|id: u64| #[trigger]
                    before.fibers.retired(id) ==> self.fibers.retired(id),
                forall|id: u64| #[trigger]
                    gone@.take(i as int).contains(id) ==> self.fibers.retired(id),
                forall|id: u64| #[trigger]
                    self.fibers@.dom().contains(id) <==> before.fibers@.dom().contains(id)
                        && !gone@.take(i as int).contains(id),
                forall|id: u64| #[trigger]
                    self.fibers@.dom().contains(id) ==> self.fibers@[id] == before.fibers@[id],
                self.gates@ == retired_all(before.gates@, before.fibers@, gone@.take(i as int)),
                forall|generation: u64| #[trigger]
                    self.gates@.dom().contains(generation) ==> before.gates@.dom().contains(
                        generation,
                    ) && self.gates@[generation] == before.gates@[generation],
                self.plugins@ == detached_all(
                    before.plugins@,
                    before.fibers@,
                    gone@.take(i as int),
                ),
            decreases gone@.len() - i,
        {
            let id = gone[i];
            proof {
                assert(gone@.contains(gone@[i as int]));
                assert(gone@.take(i + 1) =~= gone@.take(i as int).push(id));
                assert(gone@.take(i + 1).drop_last() =~= gone@.take(i as int));
                assert(!gone@.take(i as int).contains(id));
                assert forall|other: u64| #[trigger]
                    gone@.take(i + 1).contains(other) <==> gone@.take(i as int).contains(other)
                        || other == id by {
                    vstd::seq_lib::lemma_seq_contains_after_push(gone@.take(i as int), id, other);
                }
            }
            let ghost prior = self.fibers;
            if let Some(record) = self.fibers.remove(id) {
                let gate = self.gates.get(record.generation);
                if gate.inflight == 0 {
                    self.gates.retire(record.generation);
                }
                self.plugins.detach(record.plugin_id);
            }
            proof {
                assert forall|other: u64| #[trigger] prior.retired(other) implies
                    self.fibers.retired(other) by {
                    law_retired_ids_stay_retired(prior, self.fibers, other, id);
                }
                assert(self.gates@ =~= retired_all(
                    before.gates@,
                    before.fibers@,
                    gone@.take(i + 1),
                ));
            }
            i += 1;
        }
        proof {
            assert(gone@.take(i as int) =~= gone@);
        }
        self.dependencies.discard_fibers(&gone);
        self.scopes.discard_fibers(&gone);
        let ghost emptied = self.scopes;
        let scopes = self.scopes.collect();
        proof {
            assert(without_fibers(before.scopes@, emptied@, gone@));
            assert(collects_scopes(emptied@, self.scopes@, before.scopes.root));
            assert forall|scope: ScopeId| #[trigger] is_issued(before.scopes, scope) implies
                is_issued(self.scopes, scope) by {
                if before.scopes@.dom().contains(scope.raw) {
                    assert(emptied@.dom().contains(scope.raw));
                } else {
                    assert(emptied.scopes.retired(scope.raw));
                }
            }
            assert forall|id: u64| #[trigger] before.scopes.scopes.retired(id) implies
                self.scopes.scopes.retired(id) by {
                assert(emptied.scopes.retired(id));
            }
            assert forall|id: u64| #[trigger]
                self.fibers@.dom().contains(id) implies fiber_fits(
                self.scopes,
                self.services,
                self.plugins.next_generation,
                self.fibers@[id],
            ) by {
                assert(before.fibers@.dom().contains(id));
                assert(is_issued(before.scopes, before.fibers@[id].scope));
            }
            assert forall|slot: u128| #[trigger]
                self.services.cache@.dom().contains(slot) implies is_issued(
                self.scopes,
                slot_scope(slot),
            ) by {
                assert(is_issued(before.scopes, slot_scope(slot)));
            }
            assert(shrinks_tree(before.scopes, self.scopes)) by {
                assert forall|id: u64| #[trigger] self.scopes@.dom().contains(id) implies
                    before.scopes@.dom().contains(id) && self.scopes@[id].parent
                    == before.scopes@[id].parent by {
                    assert(emptied@.dom().contains(id));
                    assert(before.scopes@.dom().contains(id));
                }
            }
            lemma_owned_shrunk(before, *self);
            before.scopes.scopes.lemma_order();
            assert forall|id: u64| #[trigger] self.scopes@.dom().contains(id) implies
                before.scopes@.dom().contains(id) by {
                assert(emptied@.dom().contains(id));
            }
            vstd::set_lib::lemma_len_subset(self.scopes@.dom(), before.scopes@.dom());
            assert(shows_no_more(before.gates, self.gates)) by {
                assert forall|generation: GenerationId| #[trigger]
                    self.gates.visible(generation) implies before.gates.visible(generation) by {
                    assert(self.gates@.dom().contains(generation.raw));
                }
            }
            lemma_coherence_shrunk(
                self.services,
                before.scopes,
                self.scopes,
                before.gates,
                self.gates,
            );
        }
        GarbageReport { fibers: gone.len(), scopes }
    }
}

/// What a request for a collection does: one that runs is asked to run once
/// more, none is started during shutdown, and otherwise one is entered.
pub open spec fn requests_gc(before: Runtime, after: Runtime, worker: Option<u64>) -> bool {
    if before.admission.closed {
        after == before && worker is None
    } else {
        match before.gc_state {
            GcState::Idle => {
                &&& worker == Some(before.workers.next)
                &&& after == (Runtime {
                    gc_state: GcState::Scheduled,
                    workers: after.workers,
                    ..before
                })
                &&& enters_worker(
                    before.workers,
                    after.workers,
                    RuntimeWorkerKind::GcReconcile,
                    true,
                )
            },
            GcState::Scheduled => {
                &&& worker is None
                &&& after == (Runtime { gc_state: GcState::Rescheduled, ..before })
            },
            GcState::Rescheduled => worker is None && after == before,
        }
    }
}

/// One more worker runs.
pub open spec fn enters_worker(
    before: RuntimeWorkerSupervisor,
    after: RuntimeWorkerSupervisor,
    kind: RuntimeWorkerKind,
    cleanup: bool,
) -> bool {
    &&& after == (RuntimeWorkerSupervisor {
        workers: after.workers,
        next: counted(before.next),
        ..before
    })
    &&& after.workers@ == before.workers@.insert(before.next, RuntimeWorker { kind, cleanup })
}

impl Runtime {
    /// Asks for a collection of garbage; the worker to run it, where a new one is
    /// needed.
    pub fn request_gc(&mut self) -> (worker: Option<u64>)
        requires
            old(self).wf(),
        ensures
            final(self).wf(),
            requests_gc(*old(self), *final(self), worker),
    {
        if self.admission.enter().is_err() {
            return None;
        }
        match self.gc_state {
            GcState::Idle => {
                self.gc_state = GcState::Scheduled;
                Some(self.workers.spawn(RuntimeWorkerKind::GcReconcile, true))
            },
            GcState::Scheduled => {
                self.gc_state = GcState::Rescheduled;
                None
            },
            GcState::Rescheduled => None,
        }
    }

    /// One round of the collection worker: collects, and tells whether to run
    /// another round because one was asked for meanwhile.
    pub fn run_gc_round(&mut self) -> (again: bool)
        requires
            old(self).wf(),
        ensures
            final(self).wf(),
            runs_gc_round(*old(self), *final(self), again),
    {
        let report = self.collect_garbage();
        let ghost swept = *self;
        assert(collects(*old(self), swept, report));
        match self.gc_state {
            GcState::Rescheduled => {
                self.gc_state = GcState::Scheduled;
                true
            },
            _ => {
                self.gc_state = GcState::Idle;
                false
            },
        }
    }
}

/// A collection removes exactly the dead: an id that stays names what it named,
/// and the id of a removed scope is never valid again.
pub proof fn law_garbage_keeps_the_living(before: Runtime, after: Runtime, report: GarbageReport)
    requires
        before.wf(),
        after.wf(),
        collects(before, after, report),
    ensures
        forall|id: u64| #[trigger]
            before.fibers@.dom().contains(id) && !(before.fibers@[id].state is Disposed)
                ==> after.fibers@.dom().contains(id) && after.fibers@[id] == before.fibers@[id],
        forall|id: u64| #[trigger]
            before.scopes@.dom().contains(id) && !(before.scopes@[id].state is Disposed)
                ==> after.scopes@.dom().contains(id),
        after.scopes@.dom().contains(before.scopes.root.raw),
{
    let gone = before.fibers.order().filter(dead(before.fibers@));
    let emptied = choose|emptied: Scopes|
        {
            &&& without_fibers(before.scopes@, emptied, gone)
            &&& report.scopes == before.scopes.scopes.order().filter(
                spent(emptied, before.scopes.root),
            ).len()
            &&& collects_scopes(emptied, after.scopes@, before.scopes.root)
        };
    assert forall|id: u64| #[trigger]
        before.scopes@.dom().contains(id) && !(before.scopes@[id].state is Disposed) implies
        after.scopes@.dom().contains(id) by {
        assert(emptied.dom().contains(id));
    }
}

} // verus!
