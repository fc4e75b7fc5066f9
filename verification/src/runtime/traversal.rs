//! The disposals of scopes, beside everything else that happens to a runtime.
#[allow(unused_imports)]
use super::disposal::asks_to_go;
#[allow(unused_imports)]
use super::laws::{
    covers, ends_scope_disposal, fiber_sound, is_sound, is_told, keeps_disposing,
    law_children_hide_nobody, law_new_runtimes_are_sound,
    law_scope_disposal_begins_with_everybody, law_scope_disposal_deals_with_one_by_one,
    lemma_asks_soundly, lemma_moves_soundly, lemma_scope_ends_soundly, lies_in_disposed, moves_on,
    steps_soundly, went_through,
};
#[allow(unused_imports)]
use super::lifecycle::is_new;
#[allow(unused_imports)]
use super::scope::{
    goes_on, hears_of_child, hears_of_fiber, scope_settles, DisposalStart, ScopeDisposalJob,
    ScopeStep,
};
#[allow(unused_imports)]
use super::Runtime;
#[allow(unused_imports)]
use crate::config::RuntimeConfig;
#[allow(unused_imports)]
use crate::error::CordisError;
#[allow(unused_imports)]
use crate::ids::{FiberId, ScopeId};
use vstd::prelude::*;

verus! {

/// How far the disposal of a scope came.
pub struct Stage {
    pub job: ScopeDisposalJob,
    /// The fiber that it deals with.
    pub dealt_with: Option<FiberId>,
    /// Whether that fiber was asked to go for good.
    pub asked: bool,
    /// Whether it could be read since that the disposal of that fiber succeeded.
    pub answered: bool,
    /// Whether nothing is left to dispose.
    pub finished: bool,
}

/// The disposals of scopes that are on their way, by scope.
pub type Stages = Map<u64, Stage>;

/// The traversal of a scope begins, once its disposal did.
pub open spec fn sets_out(
    runtime: Runtime,
    before: Stages,
    after: Stages,
    scope: ScopeId,
    job: ScopeDisposalJob,
) -> bool {
    &&& runtime.scopes@.dom().contains(scope.raw)
    &&& runtime.scopes@[scope.raw].state is Disposing
    &&& job.begins(scope, runtime.scopes@[scope.raw])
    &&& after == before.insert(
        scope.raw,
        Stage { job, dealt_with: None, asked: false, answered: false, finished: false },
    )
}

/// The traversal of a scope takes its next step.
pub open spec fn takes_step(
    runtime: Runtime,
    before: Stages,
    after: Stages,
    scope: ScopeId,
    job: ScopeDisposalJob,
    step: ScopeStep,
) -> bool {
    let stage = before[scope.raw];
    &&& before.dom().contains(scope.raw)
    &&& stage.dealt_with is None
    &&& !stage.finished
    &&& goes_on(stage.job, job, runtime, step)
    &&& after == before.insert(
        scope.raw,
        match step {
            ScopeStep::DisposeChild { child, persistent } => Stage { job, ..stage },
            ScopeStep::DisposeFiber { fiber, persistent } => Stage {
                job,
                dealt_with: Some(fiber),
                asked: false,
                answered: false,
                finished: false,
            },
            ScopeStep::Finish => Stage { job, finished: true, ..stage },
        },
    )
}

/// The fiber that a traversal deals with is asked to go for good, whoever owns it.
pub open spec fn sends_away(
    before: Runtime,
    after: Runtime,
    stages: Stages,
    later: Stages,
    scope: ScopeId,
    fiber: FiberId,
    start: Result<DisposalStart, CordisError>,
) -> bool {
    let stage = stages[scope.raw];
    &&& stages.dom().contains(scope.raw)
    &&& stage.dealt_with == Some(fiber)
    &&& asks_to_go(before, after, fiber, false, stage.job.persistent, true, start)
    &&& later == stages.insert(scope.raw, Stage { asked: true, answered: false, ..stage })
}

/// A traversal reads that the disposal of the fiber it deals with succeeded.
pub open spec fn reads_answer(
    runtime: Runtime,
    before: Stages,
    after: Stages,
    scope: ScopeId,
    fiber: FiberId,
) -> bool {
    let stage = before[scope.raw];
    &&& before.dom().contains(scope.raw)
    &&& stage.dealt_with == Some(fiber)
    &&& stage.asked
    &&& runtime.fibers@.dom().contains(fiber.raw)
    &&& is_told(runtime.fibers@[fiber.raw])
    &&& after == before.insert(scope.raw, Stage { answered: true, ..stage })
}

/// A traversal is told how the disposal of the fiber it deals with went. It is told of
/// success only where it could read of it.
pub open spec fn learns_of_fiber(
    runtime: Runtime,
    before: Stages,
    after: Stages,
    scope: ScopeId,
    fiber: FiberId,
    job: ScopeDisposalJob,
    result: Result<(), CordisError>,
) -> bool {
    let stage = before[scope.raw];
    &&& before.dom().contains(scope.raw)
    &&& stage.dealt_with == Some(fiber)
    &&& stage.asked
    &&& result is Ok ==> stage.answered
    &&& hears_of_fiber(stage.job, job, runtime, fiber, result)
    &&& after == before.insert(
        scope.raw,
        Stage { job, dealt_with: None, asked: false, answered: false, ..stage },
    )
}

/// A traversal is told how the disposal of a child scope went.
pub open spec fn learns_of_child(
    runtime: Runtime,
    before: Stages,
    after: Stages,
    scope: ScopeId,
    child: ScopeId,
    job: ScopeDisposalJob,
    result: Result<(), CordisError>,
) -> bool {
    let stage = before[scope.raw];
    &&& before.dom().contains(scope.raw)
    &&& stage.dealt_with is None
    &&& hears_of_child(stage.job, job, runtime, child, result)
    &&& after == before.insert(scope.raw, Stage { job, ..stage })
}

/// The disposal of a scope ends: as its traversal came out once nothing is left, or early,
/// where the worker was cancelled or panicked.
pub open spec fn arrives(
    before: Runtime,
    after: Runtime,
    stages: Stages,
    later: Stages,
    scope: ScopeId,
    result: Result<(), CordisError>,
    terminated: bool,
) -> bool {
    let stage = stages[scope.raw];
    &&& stages.dom().contains(scope.raw)
    &&& terminated || (stage.finished && !stage.job.terminated)
    &&& before.scopes@.dom().contains(scope.raw)
    &&& scope_settles(before.scopes, after.scopes, scope, result, terminated)
    &&& after == (Runtime { scopes: after.scopes, ..before })
    &&& later == stages.remove(scope.raw)
}

/// One step of a traversal that leaves the runtime alone.
pub open spec fn traverses(runtime: Runtime, before: Stages, after: Stages) -> bool {
    ||| exists|scope: ScopeId, job: ScopeDisposalJob| #[trigger]
        sets_out(runtime, before, after, scope, job)
    ||| exists|scope: ScopeId, job: ScopeDisposalJob, step: ScopeStep| #[trigger]
        takes_step(runtime, before, after, scope, job, step)
    ||| exists|scope: ScopeId, fiber: FiberId| #[trigger]
        reads_answer(runtime, before, after, scope, fiber)
    ||| exists|
        scope: ScopeId,
        fiber: FiberId,
        job: ScopeDisposalJob,
        result: Result<(), CordisError>,
    | #[trigger]
        learns_of_fiber(runtime, before, after, scope, fiber, job, result)
    ||| exists|
        scope: ScopeId,
        child: ScopeId,
        job: ScopeDisposalJob,
        result: Result<(), CordisError>,
    | #[trigger]
        learns_of_child(runtime, before, after, scope, child, job, result)
}

/// One step of a runtime and of the disposals of its scopes, in any order: something else
/// happens, a traversal goes on, sends a fiber away, or arrives.
pub open spec fn goes_its_way(
    before: Runtime,
    after: Runtime,
    stages: Stages,
    later: Stages,
) -> bool {
    ||| moves_on(before, after) && later == stages
    ||| after == before && traverses(before, stages, later)
    ||| exists|scope: ScopeId, fiber: FiberId, start: Result<DisposalStart, CordisError>| #[trigger]
        sends_away(before, after, stages, later, scope, fiber, start)
    ||| exists|scope: ScopeId, result: Result<(), CordisError>, terminated: bool| #[trigger]
        arrives(before, after, stages, later, scope, result, terminated)
}

/// Whether the fiber is in the scope and not disposed.
pub open spec fn is_left_in(runtime: Runtime, scope: ScopeId, fiber: FiberId) -> bool {
    &&& runtime.fibers@.dom().contains(fiber.raw)
    &&& runtime.fibers@[fiber.raw].scope == scope
    &&& !(runtime.fibers@[fiber.raw].state is Disposed)
}

/// Whether a disposal of a scope is where it says: its scope is being disposed, it misses
/// nobody, and the fiber that it deals with was asked to go for good, and went where that
/// could be read.
pub open spec fn is_on_its_way(runtime: Runtime, stage: Stage) -> bool {
    let scope = stage.job.scope;
    &&& runtime.scopes@.dom().contains(scope.raw)
    &&& runtime.scopes@[scope.raw].state is Disposing
    &&& covers(runtime, stage.job, stage.dealt_with)
    &&& stage.finished ==> stage.dealt_with is None && stage.job.fibers@.len() == 0
    &&& stage.answered ==> stage.asked
    &&& stage.dealt_with matches Some(fiber) ==> {
        &&& stage.asked && is_left_in(runtime, scope, fiber)
            ==> !runtime.fibers@[fiber.raw].disposal.wait_for_dependencies
        &&& stage.answered ==> !is_left_in(runtime, scope, fiber)
    }
}

/// Whether all disposals of scopes are where they say.
pub open spec fn all_on_their_way(runtime: Runtime, stages: Stages) -> bool {
    forall|scope: u64| #[trigger]
        stages.dom().contains(scope) ==> stages[scope].job.scope.raw == scope && is_on_its_way(
            runtime,
            stages[scope],
        )
}

/// Other steps leave a disposal of a scope on its way.
proof fn lemma_stays_on_its_way(before: Runtime, after: Runtime, stage: Stage)
    requires
        is_sound(after),
        steps_soundly(before, after),
        keeps_disposing(before, after),
        is_on_its_way(before, stage),
    ensures
        is_on_its_way(after, stage),
{
    let scope = stage.job.scope;
    assert(before.scopes@.dom().contains(scope.raw));
    assert forall|fiber: u64| #[trigger]
        after.fibers@.dom().contains(fiber) && after.fibers@[fiber].scope == scope && !(
        after.fibers@[fiber].state is Disposed) implies is_left_in(
        before,
        scope,
        FiberId { raw: fiber },
    ) && (after.fibers@[fiber].disposal.wait_for_dependencies
        ==> before.fibers@[fiber].disposal.wait_for_dependencies) by {
        assert(before.fibers@.dom().contains(fiber));
    }
    if let Some(fiber) = stage.dealt_with {
        if is_left_in(after, scope, fiber) {
            assert(after.fibers@.dom().contains(fiber.raw));
            assert(FiberId { raw: fiber.raw } == fiber);
        }
    }
}

/// A step that changes one disposal of a scope, beside a step of the runtime that disturbs
/// no disposal.
proof fn lemma_one_goes_its_way(
    before: Runtime,
    after: Runtime,
    stages: Stages,
    scope: ScopeId,
    stage: Stage,
)
    requires
        is_sound(after),
        steps_soundly(before, after),
        keeps_disposing(before, after),
        all_on_their_way(before, stages),
        stage.job.scope == scope,
        is_on_its_way(after, stage),
    ensures
        all_on_their_way(after, stages.insert(scope.raw, stage)),
{
    let later = stages.insert(scope.raw, stage);
    assert forall|id: u64| #[trigger] later.dom().contains(id) implies later[id].job.scope.raw == id
        && is_on_its_way(after, later[id]) by {
        if id != scope.raw {
            assert(stages.dom().contains(id));
            lemma_stays_on_its_way(before, after, stages[id]);
        }
    }
}

/// Nothing steps soundly.
proof fn lemma_standstill(runtime: Runtime)
    requires
        is_sound(runtime),
    ensures
        steps_soundly(runtime, runtime),
        keeps_disposing(runtime, runtime),
{
}

proof fn lemma_arrives(
    before: Runtime,
    after: Runtime,
    stages: Stages,
    later: Stages,
    scope: ScopeId,
    result: Result<(), CordisError>,
    terminated: bool,
)
    requires
        is_sound(before),
        all_on_their_way(before, stages),
        arrives(before, after, stages, later, scope, result, terminated),
    ensures
        is_sound(after),
        all_on_their_way(after, later),
        !terminated ==> went_through(before, stages[scope.raw].job, scope),
{
    let job = stages[scope.raw].job;
    assert(is_on_its_way(before, stages[scope.raw]));
    assert(ends_scope_disposal(before, after, scope, result, terminated, job));
    lemma_scope_ends_soundly(before, after, scope, result, terminated, job);
    assert forall|id: u64| #[trigger] later.dom().contains(id) implies later[id].job.scope.raw == id
        && is_on_its_way(after, later[id]) by {
        assert(stages.dom().contains(id));
        assert(before.scopes@.dom().contains(id));
        assert(after.scopes@[id].state == before.scopes@[id].state);
    }
}

/// The steps of one traversal that leave the runtime alone.
proof fn lemma_traverses(runtime: Runtime, stages: Stages, later: Stages)
    requires
        is_sound(runtime),
        all_on_their_way(runtime, stages),
        traverses(runtime, stages, later),
    ensures
        all_on_their_way(runtime, later),
{
    lemma_standstill(runtime);
    if exists|scope: ScopeId, job: ScopeDisposalJob| #[trigger]
        sets_out(runtime, stages, later, scope, job) {
        let (scope, job) = choose|scope: ScopeId, job: ScopeDisposalJob| #[trigger]
            sets_out(runtime, stages, later, scope, job);
        law_scope_disposal_begins_with_everybody(runtime, job, scope);
        lemma_one_goes_its_way(runtime, runtime, stages, scope, later[scope.raw]);
    } else if exists|scope: ScopeId, job: ScopeDisposalJob, step: ScopeStep| #[trigger]
        takes_step(runtime, stages, later, scope, job, step) {
        let (scope, job, step) = choose|scope: ScopeId, job: ScopeDisposalJob, step: ScopeStep|
            #[trigger]
            takes_step(runtime, stages, later, scope, job, step);
        assert(is_on_its_way(runtime, stages[scope.raw]));
        law_scope_disposal_deals_with_one_by_one(runtime, stages[scope.raw].job, job, step);
        lemma_one_goes_its_way(runtime, runtime, stages, scope, later[scope.raw]);
    } else if exists|scope: ScopeId, fiber: FiberId| #[trigger]
        reads_answer(runtime, stages, later, scope, fiber) {
        let (scope, fiber) = choose|scope: ScopeId, fiber: FiberId| #[trigger]
            reads_answer(runtime, stages, later, scope, fiber);
        assert(is_on_its_way(runtime, stages[scope.raw]));
        assert(fiber_sound(runtime, fiber.raw));
        lemma_one_goes_its_way(runtime, runtime, stages, scope, later[scope.raw]);
    } else if exists|
        scope: ScopeId,
        fiber: FiberId,
        job: ScopeDisposalJob,
        result: Result<(), CordisError>,
    | #[trigger]
        learns_of_fiber(runtime, stages, later, scope, fiber, job, result) {
        let (scope, fiber, job, result) = choose|
            scope: ScopeId,
            fiber: FiberId,
            job: ScopeDisposalJob,
            result: Result<(), CordisError>,
        | #[trigger]
            learns_of_fiber(runtime, stages, later, scope, fiber, job, result);
        assert(is_on_its_way(runtime, stages[scope.raw]));
        if runtime.fibers@.dom().contains(fiber.raw) {
            assert(fiber_sound(runtime, fiber.raw));
        }
        lemma_one_goes_its_way(runtime, runtime, stages, scope, later[scope.raw]);
    } else {
        let (scope, child, job, result) = choose|
            scope: ScopeId,
            child: ScopeId,
            job: ScopeDisposalJob,
            result: Result<(), CordisError>,
        | #[trigger]
            learns_of_child(runtime, stages, later, scope, child, job, result);
        assert(is_on_its_way(runtime, stages[scope.raw]));
        law_children_hide_nobody(runtime, stages[scope.raw].job, job, child, result);
        lemma_one_goes_its_way(runtime, runtime, stages, scope, later[scope.raw]);
    }
}

/// Scopes are disposed as they say, whatever else happens, and in whatever order: a runtime
/// stays sound, so that no fiber of a disposed scope is there that is not disposed; no
/// disposal of a scope that is on its way misses a fiber; and one that ends with its scope
/// disposed went through the scope to the end.
pub proof fn law_disposed_scopes_were_gone_through(
    before: Runtime,
    after: Runtime,
    stages: Stages,
    later: Stages,
)
    requires
        before.wf(),
        is_sound(before),
        all_on_their_way(before, stages),
        goes_its_way(before, after, stages, later),
    ensures
        is_sound(after),
        all_on_their_way(after, later),
        forall|fiber: u64| #[trigger]
            after.fibers@.dom().contains(fiber) && lies_in_disposed(after, fiber)
                ==> after.fibers@[fiber].state is Disposed,
        forall|scope: ScopeId, result: Result<(), CordisError>| #[trigger]
            arrives(before, after, stages, later, scope, result, false) ==> went_through(
                before,
                stages[scope.raw].job,
                scope,
            ),
{
    assert forall|scope: ScopeId, result: Result<(), CordisError>| #[trigger]
        arrives(before, after, stages, later, scope, result, false) implies went_through(
        before,
        stages[scope.raw].job,
        scope,
    ) by {
        lemma_arrives(before, after, stages, later, scope, result, false);
    }
    if moves_on(before, after) && later == stages {
        lemma_moves_soundly(before, after);
        assert forall|id: u64| #[trigger] later.dom().contains(id) implies is_on_its_way(
            after,
            later[id],
        ) by {
            lemma_stays_on_its_way(before, after, stages[id]);
        }
    } else if after == before && traverses(before, stages, later) {
        lemma_traverses(before, stages, later);
    } else if exists|scope: ScopeId, fiber: FiberId, start: Result<DisposalStart, CordisError>|
        #[trigger]
        sends_away(before, after, stages, later, scope, fiber, start) {
        let (scope, fiber, start) = choose|
            scope: ScopeId,
            fiber: FiberId,
            start: Result<DisposalStart, CordisError>,
        | #[trigger]
            sends_away(before, after, stages, later, scope, fiber, start);
        let stage = stages[scope.raw];
        lemma_asks_soundly(
            before,
            after,
            fiber,
            false,
            stage.job.persistent,
            true,
            start,
        );
        lemma_stays_on_its_way(before, after, stage);
        lemma_one_goes_its_way(before, after, stages, scope, later[scope.raw]);
    } else {
        let (scope, result, terminated) = choose|
            scope: ScopeId,
            result: Result<(), CordisError>,
            terminated: bool,
        | #[trigger]
            arrives(before, after, stages, later, scope, result, terminated);
        lemma_arrives(before, after, stages, later, scope, result, terminated);
    }
    assert forall|fiber: u64| #[trigger]
        after.fibers@.dom().contains(fiber) && lies_in_disposed(after, fiber) implies
        after.fibers@[fiber].state is Disposed by {
        assert(fiber_sound(after, fiber));
    }
}

/// A new runtime is sound, and no disposal is on its way in it.
pub proof fn law_new_runtimes_dispose_nothing(runtime: Runtime, config: RuntimeConfig)
    requires
        is_new(runtime, config),
    ensures
        is_sound(runtime),
        all_on_their_way(runtime, Map::empty()),
{
    law_new_runtimes_are_sound(runtime, config);
}

} // verus!
