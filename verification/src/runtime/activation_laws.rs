//! What an installation and an activation promise, and who acts when services change.
#[allow(unused_imports)]
use super::activation::{
    begins_activation, commits_activation, completes_start, fails_with, gives_up, holds_all,
    tells_cleanup, ActivationStep, ActivationTicket, StartEnd,
};
#[allow(unused_imports)]
use super::context::{may_add, standing, Context};
#[allow(unused_imports)]
use super::dependency::{
    goes_through, needs_of, providers_above, providers_for, symbols_of, takes_up_change,
    ReconcileJob, ReconcileStep,
};
#[allow(unused_imports)]
use super::disposal::{hears_of_effect, DisposalAction, EffectEnd, FiberDisposalJob};
#[allow(unused_imports)]
use super::install::{
    admits, enrolls, installs, interned_with, interns_keys, settles_install, InstallStep,
};
#[allow(unused_imports)]
use super::laws::{is_provided, is_sound};
#[allow(unused_imports)]
use super::{line_of, Runtime};
#[allow(unused_imports)]
use crate::dependency_graph::{
    fibers_of, is_circle, law_circles_cannot_be_ordered, lemma_fibers_of, Edge, NeedView,
};
#[allow(unused_imports)]
use crate::disposal::DisposalObservation;
#[allow(unused_imports)]
use crate::error::CordisError;
#[allow(unused_imports)]
use crate::fiber_registry::PluginDescriptor;
#[allow(unused_imports)]
use crate::ids::{FiberId, PluginId, ScopeId, ServiceSymbol};
#[allow(unused_imports)]
use crate::key::{key_views, KeyView, ServiceKey};
#[allow(unused_imports)]
use crate::service_registry::{lemma_slot, nearest, owned_in, slot_of, slot_symbol, visible_at};
#[allow(unused_imports)]
use crate::state::FiberState;
use std::sync::Arc;
use vstd::prelude::*;

verus! {

/// An activation that commits tells the symbol of every service that it makes visible, and of
/// no other: of each key that the fiber provides, and of each registered service of the fiber
/// that its generation was hiding. So every fiber that depends on one of them is asked to act.
pub proof fn law_published_services_are_announced(
    before: Runtime,
    after: Runtime,
    fiber: FiberId,
    invocations: Result<(), CordisError>,
    published: Vec<ServiceSymbol>,
)
    requires
        is_sound(before),
        commits_activation(before, after, fiber, invocations, Ok(published)),
    ensures
        forall|k: int|
            0 <= k < before.fibers@[fiber.raw].provided@.len() ==> published@.contains(
                before.services.symbol_of(
                    (#[trigger] before.fibers@[fiber.raw].provided@[k])@,
                )->0,
            ),
        forall|slot: u128| #[trigger]
            after.services@.dom().contains(slot) && after.services@[slot].owner == fiber
                && after.gates.visible(after.services@[slot].gate) && !before.gates.visible(
                after.services@[slot].gate,
            ) ==> published@.contains(slot_symbol(slot)),
        forall|symbol: ServiceSymbol| #[trigger]
            published@.contains(symbol) ==> exists|k: int|
                0 <= k < before.fibers@[fiber.raw].provided@.len() && symbol
                    == before.services.symbol_of(
                    (#[trigger] before.fibers@[fiber.raw].provided@[k])@,
                )->0,
        forall|k: int, dependent: u64|
            0 <= k < before.fibers@[fiber.raw].provided@.len() && after.dependencies.depends(
                before.services.symbol_of(
                    (#[trigger] before.fibers@[fiber.raw].provided@[k])@,
                )->0,
                FiberId { raw: dependent },
            ) ==> #[trigger] after.depends_on_any(published@, dependent),
{
    let record = before.fibers@[fiber.raw];
    let symbols = symbols_of(before.services, record.provided@);
    assert forall|k: int| 0 <= k < record.provided@.len() implies published@.contains(
        before.services.symbol_of((#[trigger] record.provided@[k])@)->0,
    ) by {
        assert(published@[k] == symbols[k]);
    }
    assert forall|slot: u128| #[trigger]
        after.services@.dom().contains(slot) && after.services@[slot].owner == fiber
            && after.gates.visible(after.services@[slot].gate) && !before.gates.visible(
            after.services@[slot].gate,
        ) implies published@.contains(slot_symbol(slot)) by {
        assert(is_provided(before, slot));
        let k = choose|k: int|
            #![trigger record.provided@[k]]
            0 <= k < record.provided@.len() && before.services.symbol_of(record.provided@[k]@)
                is Some && slot == slot_of(
                record.scope,
                before.services.symbol_of(record.provided@[k]@)->0,
            );
        lemma_slot(record.scope, before.services.symbol_of(record.provided@[k]@)->0);
    }
    assert forall|symbol: ServiceSymbol| #[trigger] published@.contains(symbol) implies exists|
        k: int,
    |
        0 <= k < record.provided@.len() && symbol == before.services.symbol_of(
            (#[trigger] record.provided@[k])@,
        )->0 by {
        let k = published@.index_of(symbol);
        assert(symbols[k] == before.services.symbol_of(record.provided@[k]@)->0);
    }
    assert forall|k: int, dependent: u64|
        0 <= k < record.provided@.len() && after.dependencies.depends(
            before.services.symbol_of((#[trigger] record.provided@[k])@)->0,
            FiberId { raw: dependent },
        ) implies #[trigger] after.depends_on_any(published@, dependent) by {
        assert(published@[k] == symbols[k]);
    }
}

/// A start that is done published the fiber with all that it provides, unless a reload still
/// hides it: then nothing is published, and nobody is asked to act. A start that is not done
/// makes nothing visible. Only a plugin that started, and that provides just what it declared,
/// gets there.
pub proof fn law_done_starts_announce_what_they_publish(
    before: Runtime,
    after: Runtime,
    fiber: FiberId,
    end: StartEnd,
    invocations: Result<(), CordisError>,
    step: ActivationStep,
    key: KeyView,
)
    requires
        completes_start(before, after, fiber, end, invocations, step),
    ensures
        step is Converge ==> after.gates == before.gates && after.services@ == before.services@,
        step is Converge && end is Started && before.fibers@.dom().contains(fiber.raw)
            && before.fibers@[fiber.raw].state is Starting && !before.admission.closed
            ==> after.fibers@[fiber.raw].activation_sealed,
        step is Converge && before.fibers@.dom().contains(fiber.raw)
            ==> after.fibers@[fiber.raw].state == before.fibers@[fiber.raw].state,
        step matches ActivationStep::Done(symbols) ==> {
            let was = before.fibers@[fiber.raw];
            let now = after.fibers@[fiber.raw];
            &&& end is Started
            &&& !before.admission.closed
            &&& was.state is Starting
            &&& now.state is Active
            &&& now.provided == was.provided
            &&& now.generation == was.generation
            &&& key_views(was.descriptor.provisions@).contains(key) <==> key_views(
                was.provided@,
            ).contains(key)
            &&& was.staged ==> symbols@.len() == 0 && after.gates == before.gates && now.staged
                && now.activation == was.activation && now.activation_sealed
            &&& !was.staged ==> {
                &&& invocations is Ok
                &&& !now.staged
                &&& !now.activation
                &&& !now.activation_sealed
                &&& after.gates.visible(was.generation)
                &&& key_views(was.descriptor.provisions@).contains(key) ==> symbols@.contains(
                    before.services.symbol_of(key)->0,
                )
                &&& symbols@.len() == was.provided@.len()
            }
        },
{
    if step is Done {
        let was = before.fibers@[fiber.raw];
        let declared = key_views(was.descriptor.provisions@);
        let given = key_views(was.provided@);
        assert(declared.to_set().contains(key) <==> given.to_set().contains(key));
        if !was.staged && given.contains(key) {
            let k = given.index_of(key);
            let symbols = step->Done_0;
            assert(was.provided@[k]@ == key);
            assert(symbols@[k] == before.services.symbol_of(key)->0);
        }
    }
}

/// A plugin that does not start fails for its own reason: an error of a host is kept as it is,
/// and of any other the words are kept. Nothing changes until the fiber is disposed.
pub proof fn law_failed_starts_keep_the_reason(
    before: Runtime,
    after: Runtime,
    fiber: FiberId,
    end: StartEnd,
    invocations: Result<(), CordisError>,
    step: ActivationStep,
)
    requires
        completes_start(before, after, fiber, end, invocations, step),
        !(end is Started),
    ensures
        after == before,
        step matches ActivationStep::Converge(primary) && match end {
            StartEnd::Failed(error) => primary == error || (
            primary matches CordisError::PluginStartFailed(words) && words@ == error.text()),
            StartEnd::Panicked(payload) => primary is PluginStartFailed,
            StartEnd::Cancelled => primary is PluginStartFailed,
            StartEnd::Started => false,
        },
        end matches StartEnd::Failed(error) ==> error.is_hosted() ==> step
            == ActivationStep::Converge(error),
{
}

/// An activation begins of a fiber that did not start or waits for its dependencies, while
/// the runtime and the scope of the fiber take new work: then the fiber is starting, and the
/// ticket tells where and for which generation. A fiber that was disposed before starts over
/// with a generation that nobody had, that is hidden, and what was made for the earlier one
/// is stale.
pub proof fn law_begun_activations_start(
    before: Runtime,
    after: Runtime,
    fiber: FiberId,
    result: Result<ActivationTicket, CordisError>,
    context: Context,
)
    requires
        before.wf(),
        begins_activation(before, after, fiber, result),
        context.fiber == fiber,
        before.fibers@.dom().contains(fiber.raw) ==> context.generation
            == before.fibers@[fiber.raw].generation,
    ensures
        result is Ok ==> {
            let was = before.fibers@[fiber.raw];
            &&& before.fibers@.dom().contains(fiber.raw)
            &&& !before.admission.closed
            &&& was.state is Created || was.state is WaitingDependencies
            &&& before.scopes@.dom().contains(was.scope.raw) ==> before.scopes@[was.scope.raw].state
                is Active
        },
        before.fibers@.dom().contains(fiber.raw) && !before.admission.closed && (
        before.fibers@[fiber.raw].state is Created || (before.fibers@[fiber.raw].state
            is WaitingDependencies && !(before.fibers@[fiber.raw].disposal.phase is Complete)))
            && before.scopes@.dom().contains(before.fibers@[fiber.raw].scope.raw)
            && before.scopes@[before.fibers@[fiber.raw].scope.raw].state is Active ==> result is Ok,
        result matches Ok(ticket) ==> {
            let was = before.fibers@[fiber.raw];
            let now = after.fibers@[fiber.raw];
            let again = was.state is WaitingDependencies && was.disposal.phase is Complete;
            &&& now.state is Starting
            &&& now.activation
            &&& !now.activation_sealed
            &&& now.scope == was.scope
            &&& now.plugin_id == was.plugin_id
            &&& now.descriptor == was.descriptor
            &&& now.staged == was.staged
            &&& now.reload_owned == was.reload_owned
            &&& ticket.fiber == fiber
            &&& ticket.scope == was.scope
            &&& ticket.generation == now.generation
            &&& ticket.name == was.descriptor.name
            &&& !(after.gates.at(now.generation).state is Closed) ==> standing(
                after,
                Context {
                    scope: ticket.scope,
                    fiber: ticket.fiber,
                    generation: ticket.generation,
                },
            ) is Ok
            &&& !again ==> now.generation == was.generation && after.gates == before.gates
                && now.cancelled == was.cancelled
            &&& again ==> {
                &&& now.generation.raw == before.plugins.next_generation
                &&& forall|other: u64| #[trigger]
                    before.fibers@.dom().contains(other) ==> before.fibers@[other].generation
                        != now.generation
                &&& after.gates.staged(now.generation)
                &&& !after.gates.visible(now.generation)
                &&& after.gates.at(now.generation).inflight == 0
                &&& !now.cancelled
                &&& now.disposal.phase is Idle
                &&& now.disposal.errors@.len() == 0
                &&& now.disposal.observation is None
                &&& standing(after, context) is Err
            }
        },
        result matches Err(error) ==> {
            &&& error is FiberNotFound <==> !before.fibers@.dom().contains(fiber.raw)
            &&& error is RuntimeShuttingDown ==> before.admission.closed
            &&& error matches CordisError::ScopeDisposed(scope) ==> scope
                == before.fibers@[fiber.raw].scope && !(before.scopes@[scope.raw].state is Active)
            &&& error matches CordisError::InvalidFiberState { fiber: told, from, to } ==> told
                == fiber && from == before.fibers@[fiber.raw].state && to is Starting && !(from
                is Created) && !(from is WaitingDependencies)
        },
        result is Err ==> after.fibers@.dom() == before.fibers@.dom() && after.gates
            == before.gates && after.services == before.services,
        result is Err && before.fibers@.dom().contains(fiber.raw) ==> after.fibers@[fiber.raw].state
            == before.fibers@[fiber.raw].state,
        forall|other: u64| #[trigger]
            before.fibers@.dom().contains(other) && other != fiber.raw
                ==> after.fibers@.dom().contains(other) && after.fibers@[other]
                == before.fibers@[other],
{
    assert(before.fibers@.dom().contains(fiber.raw) ==> after.fibers@.dom()
        =~= before.fibers@.dom());
}

/// An activation that is given up takes no more: its work is told to stop, no context of the
/// fiber adds anything to it, and what waits for it to commit waits no longer. One that was
/// starting has failed.
pub proof fn law_given_up_activations_take_no_more(
    before: Runtime,
    after: Runtime,
    fiber: FiberId,
    context: Context,
)
    requires
        before.fibers@.dom().contains(fiber.raw),
        gives_up(before, after, fiber),
        context.fiber == fiber,
    ensures
        may_add(after, context) is Err,
        after.fibers@[fiber.raw].cancelled,
        !after.fibers@[fiber.raw].activation,
        before.fibers@[fiber.raw].state is Starting ==> after.fibers@[fiber.raw].state is Failed,
        !(before.fibers@[fiber.raw].state is Starting) ==> after.fibers@[fiber.raw].state
            == before.fibers@[fiber.raw].state,
        after.gates == before.gates,
        after.services == before.services,
        after.fibers@[fiber.raw].tasks == before.fibers@[fiber.raw].tasks,
        after.fibers@[fiber.raw].effects == before.fibers@[fiber.raw].effects,
        after.fibers@[fiber.raw].provided == before.fibers@[fiber.raw].provided,
{
}

/// A failed activation tells why it failed and everything that its cleanup left behind: the
/// cause of every issue of the disposal, or that there was no disposal to observe, or that it
/// was cut off.
pub proof fn law_failed_activations_tell_everything(
    observed: Result<Arc<DisposalObservation>, CordisError>,
    primary: CordisError,
    cleanup: Vec<CordisError>,
    error: CordisError,
)
    requires
        tells_cleanup(cleanup@, observed),
        fails_with(primary, cleanup, error),
    ensures
        error == primary || (error matches CordisError::ActivationFailed {
            primary: told,
            cleanup: rest,
        } && *told == primary && *rest == cleanup),
        cleanup@.len() == 0 <==> (observed matches Ok(observation)
            && observation.issues@.len() == 0 && observation.legacy_result is Ok),
        observed matches Err(reason) ==> cleanup@.contains(reason),
        observed matches Ok(observation) ==> {
            &&& forall|k: int|
                0 <= k < observation.issues@.len() && (#[trigger] observation.issues@[k]).cause
                    is Some ==> cleanup@.contains(observation.issues@[k].cause->0)
            &&& observation.legacy_result is Err && (observation.terminal is Incomplete
                || observation.issues@.len() == 0) ==> cleanup@.contains(
                observation.legacy_result->Err_0,
            )
            &&& cleanup@.len() >= observation.issues@.len()
        },
{
    match observed {
        Err(reason) => {
            assert(cleanup@[0] == reason);
        },
        Ok(observation) => {
            let count = observation.issues@.len();
            assert forall|k: int|
                0 <= k < count && (#[trigger] observation.issues@[k]).cause
                    is Some implies cleanup@.contains(observation.issues@[k].cause->0) by {
                assert(cleanup@.take(count as int)[k] == cleanup@[k]);
            }
            let rest = cleanup@.skip(count as int);
            assert(rest.len() == cleanup@.len() - count);
            if rest.len() > 0 {
                assert(rest[0] == cleanup@[count as int]);
            }
        },
    }
}

/// An installed fiber is new: nobody had its id or its generation, it owns nothing, it lies in
/// the scope that was asked for, is listed there, and is of the plugin that was asked for. Its
/// generation is hidden. It is known for what it depends on and what it provides, and nobody
/// else is touched.
pub proof fn law_installed_fibers_are_new(
    before: Runtime,
    after: Runtime,
    scope: ScopeId,
    descriptor: PluginDescriptor,
    staged: bool,
    logical: Option<PluginId>,
    step: InstallStep,
    k: int,
)
    requires
        before.wf(),
        installs(before, after, scope, descriptor, staged, logical, Ok(step)),
    ensures
        ({
            let now = after.fibers@[step.fiber.raw];
            &&& !before.admission.closed
            &&& !before.fibers@.dom().contains(step.fiber.raw)
            &&& after.fibers@.dom().contains(step.fiber.raw)
            &&& now.scope == scope
            &&& now.descriptor == descriptor
            &&& now.staged == staged
            &&& now.reload_owned == staged
            &&& logical matches Some(plugin) ==> now.plugin_id == plugin
            &&& logical is None ==> now.plugin_id.raw == before.plugins.next_plugin
            &&& now.state == if step.activate {
                FiberState::Created
            } else {
                FiberState::WaitingDependencies
            }
            &&& now.tasks@.len() == 0
            &&& now.effects@.len() == 0
            &&& now.handlers@.len() == 0
            &&& now.invocation_handlers@.len() == 0
            &&& now.invocation_middleware@.len() == 0
            &&& now.provided@.len() == 0
            &&& now.child_scopes@.len() == 0
            &&& now.hosted_live == 0
            &&& !now.activation
            &&& !now.activation_sealed
            &&& now.disposal.wait_for_dependencies
            &&& !now.disposal.persistent_drain
            &&& now.disposal.errors@.len() == 0
            &&& now.disposal.observation is None
            &&& !now.cancelled
            &&& now.disposal.phase is Idle
            &&& now.generation.raw == before.plugins.next_generation
            &&& forall|other: u64| #[trigger]
                before.fibers@.dom().contains(other) ==> before.fibers@[other].generation
                    != now.generation
            &&& after.gates.staged(now.generation)
            &&& !after.gates.visible(now.generation)
            &&& before.scopes@.dom().contains(scope.raw)
            &&& before.scopes@[scope.raw].state is Active
            &&& after.scopes@[scope.raw].fibers@ == before.scopes@[scope.raw].fibers@.push(
                step.fiber.raw,
            )
            &&& after.plugins@.dom().contains(now.plugin_id.raw)
            &&& logical is Some ==> after.plugins@[now.plugin_id.raw]
                == before.plugins@[now.plugin_id.raw] + 1
            &&& logical is None ==> after.plugins@[now.plugin_id.raw] == 1
            &&& after.plugins.next_generation == before.plugins.next_generation + 1
            &&& 0 <= k < descriptor.dependencies@.len() ==> after.dependencies.depends(
                after.services.symbol_of(descriptor.dependencies@[k]@)->0,
                step.fiber,
            )
            &&& 0 <= k < descriptor.provisions@.len() ==> after.dependencies.provides(
                scope,
                after.services.symbol_of(descriptor.provisions@[k]@)->0,
                step.fiber,
            )
        }),
        forall|other: u64| #[trigger]
            before.fibers@.dom().contains(other) ==> after.fibers@.dom().contains(other)
                && after.fibers@[other] == before.fibers@[other],
        after.services@ == before.services@,
        after.tasks == before.tasks,
        forall|key: KeyView| #[trigger]
            before.services.symbol_of(key) is Some ==> after.services.symbol_of(key)
                == before.services.symbol_of(key),
{
    let (named, interned) = choose|named: Runtime, interned: Result<(), CordisError>|
        {
            &&& #[trigger] interns_keys(
                before,
                named,
                descriptor.dependencies@ + descriptor.provisions@,
                interned,
            )
            &&& named.wf()
            &&& match interned {
                Err(error) => false,
                Ok(()) => admits(named, after, scope, descriptor, staged, logical, Ok(step)),
            }
        };
    let (enrolled, fiber) = choose|enrolled: Runtime, fiber: FiberId|
        {
            &&& #[trigger] enrolls(named, enrolled, scope, descriptor, staged, logical, fiber)
            &&& enrolled.wf()
            &&& settles_install(enrolled, after, scope, descriptor, fiber, Ok(step))
        };
    assert(fiber == step.fiber);
    let needed = symbols_of(named.services, descriptor.dependencies@);
    let given = symbols_of(named.services, descriptor.provisions@);
    if 0 <= k < needed.len() {
        assert(needed.contains(needed[k]));
    }
    if 0 <= k < given.len() {
        assert(given.contains(given[k]));
    }
}

/// A fiber is activated at once exactly where each service it depends on is found from its
/// scope; otherwise it waits for them.
pub proof fn law_installs_activate_where_all_is_met(
    before: Runtime,
    after: Runtime,
    scope: ScopeId,
    descriptor: PluginDescriptor,
    staged: bool,
    logical: Option<PluginId>,
    step: InstallStep,
)
    requires
        before.wf(),
        installs(before, after, scope, descriptor, staged, logical, Ok(step)),
        after.scopes.rooted(scope),
    ensures
        step.activate <==> forall|k: int|
            0 <= k < descriptor.dependencies@.len() ==> nearest(
                after.services@,
                after.gates,
                line_of(after.scopes, scope),
                after.services.symbol_of((#[trigger] descriptor.dependencies@[k])@)->0,
            ) is Some,
{
}

/// Nothing is installed in a runtime that shuts down, in a scope that is gone or going, of a
/// plugin that nobody knows, or where there is no room; all that may change then are the
/// symbols, the plugins and the notes, and no fiber comes or goes.
pub proof fn law_refused_installs(
    before: Runtime,
    after: Runtime,
    scope: ScopeId,
    descriptor: PluginDescriptor,
    staged: bool,
    logical: Option<PluginId>,
    result: Result<InstallStep, CordisError>,
)
    requires
        installs(before, after, scope, descriptor, staged, logical, result),
        ({
            ||| before.admission.closed
            ||| !before.scopes@.dom().contains(scope.raw)
            ||| !(before.scopes@[scope.raw].state is Active)
            ||| (logical matches Some(plugin) && !before.plugins@.dom().contains(plugin.raw))
            ||| before.fibers@.dom().len() >= before.config.max_fibers
        }),
    ensures
        result is Err,
        after.fibers == before.fibers,
        after.scopes == before.scopes,
        after.gates == before.gates,
        after.dependencies == before.dependencies,
        after.services@ == before.services@,
        after.tasks == before.tasks,
        before.admission.closed ==> after == before && result == Err::<InstallStep, CordisError>(
            CordisError::RuntimeShuttingDown,
        ),
{
}

/// A change of services is brought to every fiber in turn, and nobody is passed over who has
/// to act: at the end no fiber works without its dependencies, and none waits for
/// dependencies that are there, as far as its scope takes new work. A fiber is disposed only
/// where it works without its dependencies, to wait for them where its plugin restarts, and
/// activated only where it waits and they are there. A failure ends it and is told.
pub proof fn law_reconciliation_passes_nobody_over(
    before: Runtime,
    after: Runtime,
    job: ReconcileJob,
    later: ReconcileJob,
    last: Result<(), CordisError>,
    step: ReconcileStep,
)
    requires
        goes_through(before, after, job, later, last, step),
    ensures
        last matches Err(error) ==> step == ReconcileStep::Done(Err(error)),
        last is Ok ==> match step {
            ReconcileStep::Done(result) => {
                &&& result is Ok
                &&& later.pending@.len() == 0
                &&& forall|k: int|
                    #![trigger job.pending@[k]]
                    0 <= k < job.pending@.len() && before.fibers@.dom().contains(job.pending@[k])
                        && before.scopes.rooted(before.fibers@[job.pending@[k]].scope) ==> {
                        let record = before.fibers@[job.pending@[k]];
                        let met = forall|i: int|
                            0 <= i < record.descriptor.dependencies@.len() ==> nearest(
                                before.services@,
                                before.gates,
                                line_of(before.scopes, record.scope),
                                before.services.symbol_of(
                                    (#[trigger] record.descriptor.dependencies@[i])@,
                                )->0,
                            ) is Some;
                        &&& !(record.state is Active && !met)
                        &&& !(record.state is WaitingDependencies && met
                            && before.scopes@.dom().contains(record.scope.raw)
                            && before.scopes@[record.scope.raw].state is Active)
                    }
            },
            ReconcileStep::Dispose { fiber, restart } => {
                let record = before.fibers@[fiber.raw];
                &&& job.pending@.contains(fiber.raw)
                &&& before.fibers@.dom().contains(fiber.raw)
                &&& record.state is Active
                &&& restart <==> record.descriptor.dependency_policy is Restart
                &&& before.scopes.rooted(record.scope) ==> exists|i: int|
                    0 <= i < record.descriptor.dependencies@.len() && nearest(
                        before.services@,
                        before.gates,
                        line_of(before.scopes, record.scope),
                        before.services.symbol_of(
                            (#[trigger] record.descriptor.dependencies@[i])@,
                        )->0,
                    ) is None
                &&& later.pending@.len() < job.pending@.len()
            },
            ReconcileStep::Activate(fiber) => {
                let record = before.fibers@[fiber.raw];
                &&& job.pending@.contains(fiber.raw)
                &&& before.fibers@.dom().contains(fiber.raw)
                &&& record.state is WaitingDependencies
                &&& before.scopes@.dom().contains(record.scope.raw)
                    ==> before.scopes@[record.scope.raw].state is Active
                &&& before.scopes.rooted(record.scope) ==> forall|i: int|
                    0 <= i < record.descriptor.dependencies@.len() ==> nearest(
                        before.services@,
                        before.gates,
                        line_of(before.scopes, record.scope),
                        before.services.symbol_of(
                            (#[trigger] record.descriptor.dependencies@[i])@,
                        )->0,
                    ) is Some
                &&& later.pending@.len() < job.pending@.len()
            },
        },
        forall|k: int|
            0 <= k < later.pending@.len() ==> #[trigger] later.pending@[k]
                == job.pending@[job.pending@.len() - later.pending@.len() + k],
        after.fibers == before.fibers,
        after.scopes == before.scopes,
        after.gates == before.gates,
        after.services@ == before.services@,
{
}

/// A change of symbols concerns exactly the fibers that depend on one of them.
pub proof fn law_changes_concern_dependents(
    runtime: Runtime,
    symbols: Seq<ServiceSymbol>,
    fiber: u64,
)
    ensures
        runtime.depends_on_any(symbols, fiber) <==> exists|symbol: ServiceSymbol| #[trigger]
            symbols.contains(symbol) && runtime.dependencies.depends(symbol, FiberId { raw: fiber }),
{
    if exists|symbol: ServiceSymbol| #[trigger]
        symbols.contains(symbol) && runtime.dependencies.depends(symbol, FiberId { raw: fiber }) {
        let symbol = choose|symbol: ServiceSymbol| #[trigger]
            symbols.contains(symbol) && runtime.dependencies.depends(
                symbol,
                FiberId { raw: fiber },
            );
        let k = symbols.index_of(symbol);
        assert(symbols[k] == symbol);
    }
    if runtime.depends_on_any(symbols, fiber) {
        let k = choose|k: int|
            0 <= k < symbols.len() && runtime.dependencies.depends(
                #[trigger] symbols[k],
                FiberId { raw: fiber },
            );
        assert(symbols.contains(symbols[k]));
    }
}

/// What a fiber needs is among its needs, where it has any.
proof fn lemma_needed(runtime: Runtime, order: Seq<u64>, k: int)
    requires
        0 <= k < order.len(),
        !(runtime.fibers@[order[k]].state is Disposed),
        runtime.fibers@[order[k]].descriptor.dependencies@.len() > 0,
    ensures
        exists|i: int|
            0 <= i < needs_of(runtime, order).len() && #[trigger] needs_of(runtime, order)[i] == (
            NeedView {
                fiber: order[k],
                providers: providers_for(
                    runtime,
                    runtime.fibers@[order[k]].scope,
                    runtime.fibers@[order[k]].descriptor.dependencies@,
                ),
            }),
    decreases order.len(),
{
    let all = needs_of(runtime, order);
    let rest = needs_of(runtime, order.drop_last());
    if k == order.len() - 1 {
        assert(all[rest.len() as int] == all.last());
    } else {
        lemma_needed(runtime, order.drop_last(), k);
        let i = choose|i: int|
            0 <= i < rest.len() && #[trigger] rest[i] == (NeedView {
                fiber: order[k],
                providers: providers_for(
                    runtime,
                    runtime.fibers@[order[k]].scope,
                    runtime.fibers@[order[k]].descriptor.dependencies@,
                ),
            });
        assert(all[i] == rest[i]);
    }
}

/// Whoever provides one of the keys is among the providers for all of them.
proof fn lemma_provider(runtime: Runtime, scope: ScopeId, keys: Seq<ServiceKey>, k: int, fiber: u64)
    requires
        0 <= k < keys.len(),
        providers_above(runtime, scope, runtime.services.symbol_of(keys[k]@)->0).contains(fiber),
    ensures
        providers_for(runtime, scope, keys).contains(fiber),
    decreases keys.len(),
{
    let rest = providers_for(runtime, scope, keys.drop_last());
    let last = providers_above(runtime, scope, runtime.services.symbol_of(keys.last()@)->0);
    let all = providers_for(runtime, scope, keys);
    assert(all == rest + last);
    if k == keys.len() - 1 {
        let at = last.index_of(fiber);
        assert(all[rest.len() + at] == fiber);
    } else {
        lemma_provider(runtime, scope, keys.drop_last(), k, fiber);
        let at = rest.index_of(fiber);
        assert(all[at] == fiber);
    }
}

/// Whether the fiber `one` depends on something that only the fiber `other` is to provide in
/// its scope, as nobody shows it there yet.
pub open spec fn leans_on(runtime: Runtime, one: u64, other: u64) -> bool {
    let record = runtime.fibers@[one];
    &&& runtime.fibers@.dom().contains(one)
    &&& !(record.state is Disposed)
    &&& exists|k: int|
        #![trigger record.descriptor.dependencies@[k]]
        {
            let symbol = runtime.services.symbol_of(record.descriptor.dependencies@[k]@)->0;
            &&& 0 <= k < record.descriptor.dependencies@.len()
            &&& !visible_at(runtime.services@, runtime.gates, record.scope, symbol)
            &&& runtime.dependencies.provides(record.scope, symbol, FiberId { raw: other })
        }
}

/// Who leans on a fiber needs it.
proof fn lemma_leans(runtime: Runtime, one: u64, other: u64) -> (at: int)
    requires
        runtime.wf(),
        leans_on(runtime, one, other),
    ensures
        0 <= at < needs_of(runtime, runtime.fibers.order()).len(),
        needs_of(runtime, runtime.fibers.order())[at].fiber == one,
        needs_of(runtime, runtime.fibers.order())[at].providers.contains(other),
{
    let record = runtime.fibers@[one];
    let order = runtime.fibers.order();
    let keys = record.descriptor.dependencies@;
    let k = choose|k: int|
        #![trigger record.descriptor.dependencies@[k]]
        {
            let symbol = runtime.services.symbol_of(record.descriptor.dependencies@[k]@)->0;
            &&& 0 <= k < record.descriptor.dependencies@.len()
            &&& !visible_at(runtime.services@, runtime.gates, record.scope, symbol)
            &&& runtime.dependencies.provides(record.scope, symbol, FiberId { raw: other })
        };
    let symbol = runtime.services.symbol_of(keys[k]@)->0;
    let edges = runtime.dependencies.providers.edges@;
    lemma_fibers_of(edges, Some(record.scope), symbol, FiberId { raw: other });
    assert(runtime.dependencies.providers@.contains(
        Edge { scope: Some(record.scope), symbol, fiber: FiberId { raw: other } },
    ));
    assert(fibers_of(edges, Some(record.scope), symbol).contains(other));
    lemma_provider(runtime, record.scope, keys, k, other);
    runtime.fibers.lemma_order();
    let at = order.index_of(one);
    lemma_needed(runtime, order, at);
    choose|i: int|
        0 <= i < needs_of(runtime, order).len() && #[trigger] needs_of(runtime, order)[i] == (
        NeedView { fiber: one, providers: providers_for(runtime, record.scope, keys) })
}

/// A fiber that would depend on itself, or on one that depends on it, is not installed: the
/// installation fails with a dependency cycle.
pub proof fn law_fibers_do_not_lean_on_each_other(
    enrolled: Runtime,
    after: Runtime,
    scope: ScopeId,
    descriptor: PluginDescriptor,
    fiber: FiberId,
    result: Result<InstallStep, CordisError>,
    other: u64,
)
    requires
        enrolled.wf(),
        settles_install(enrolled, after, scope, descriptor, fiber, result),
        leans_on(enrolled, fiber.raw, other),
        other == fiber.raw || leans_on(enrolled, other, fiber.raw),
    ensures
        result == Err::<InstallStep, CordisError>(CordisError::DependencyCycle),
        !after.fibers@.dom().contains(fiber.raw),
{
    let needs = needs_of(enrolled, enrolled.fibers.order());
    let one = lemma_leans(enrolled, fiber.raw, other);
    if other == fiber.raw {
        let circle = seq![one];
        assert(is_circle(needs, circle));
        law_circles_cannot_be_ordered(needs, circle);
    } else {
        let two = lemma_leans(enrolled, other, fiber.raw);
        let circle = seq![one, two];
        assert(is_circle(needs, circle));
        law_circles_cannot_be_ordered(needs, circle);
    }
}


/// Each error of an installation is true: a scope that is said to be missing or disposed is, a
/// plugin that is said to be unknown is, a limit that is said to be reached is, and a cycle is
/// told only where the fibers cannot be put in order.
pub proof fn law_install_errors_are_true(
    before: Runtime,
    after: Runtime,
    scope: ScopeId,
    descriptor: PluginDescriptor,
    staged: bool,
    logical: Option<PluginId>,
    error: CordisError,
)
    requires
        installs(before, after, scope, descriptor, staged, logical, Err(error)),
    ensures
        error is RuntimeShuttingDown <==> before.admission.closed,
        error is ScopeNotFound ==> !before.scopes@.dom().contains(scope.raw),
        error matches CordisError::ScopeDisposed(told) ==> told == scope && !(
        before.scopes@[scope.raw].state is Active),
        error is PluginNotFound ==> logical is Some && !before.plugins@.dom().contains(
            logical->0.raw,
        ),
        error matches CordisError::ResourceLimitExceeded { resource, limit } ==> (resource is Fibers
            && limit == before.config.max_fibers && before.fibers@.dom().len()
            >= before.config.max_fibers) || (resource is ServiceSymbols && limit
            == before.config.max_interned_symbols),
        error is DependencyCycle ==> before.scopes@.dom().contains(scope.raw) && (
        descriptor.dependencies@.len() > 0 || exists|id: u64| #[trigger]
            before.fibers@.dom().contains(id)),
{
    if error is DependencyCycle && descriptor.dependencies@.len() == 0 && !(exists|id: u64|
        #[trigger] before.fibers@.dom().contains(id)) {
        let (named, interned) = choose|named: Runtime, interned: Result<(), CordisError>|
            {
                &&& #[trigger] interns_keys(
                    before,
                    named,
                    descriptor.dependencies@ + descriptor.provisions@,
                    interned,
                )
                &&& named.wf()
                &&& match interned {
                    Err(reason) => false,
                    Ok(()) => admits(
                        named,
                        after,
                        scope,
                        descriptor,
                        staged,
                        logical,
                        Err(error),
                    ),
                }
            };
        let (enrolled, fiber) = choose|enrolled: Runtime, fiber: FiberId|
            {
                &&& #[trigger] enrolls(named, enrolled, scope, descriptor, staged, logical, fiber)
                &&& enrolled.wf()
                &&& settles_install(enrolled, after, scope, descriptor, fiber, Err(error))
            };
        let order = enrolled.fibers.order();
        enrolled.fibers.lemma_order();
        assert forall|k: int| 0 <= k < order.len() implies enrolled.fibers@[
            #[trigger] order[k]
        ].descriptor.dependencies@.len() == 0 by {
            assert(order.contains(order[k]));
            assert(enrolled.fibers@.dom().contains(order[k]));
        }
        lemma_no_needs(enrolled, order);
        law_circles_cannot_be_ordered(needs_of(enrolled, order), Seq::empty());
    }
}

/// Where nobody depends on anything there are no needs.
proof fn lemma_no_needs(runtime: Runtime, order: Seq<u64>)
    requires
        forall|k: int|
            0 <= k < order.len() ==> runtime.fibers@[
                #[trigger] order[k]
            ].descriptor.dependencies@.len() == 0,
    ensures
        needs_of(runtime, order).len() == 0,
    decreases order.len(),
{
    if order.len() > 0 {
        assert forall|k: int| 0 <= k < order.drop_last().len() implies runtime.fibers@[
            #[trigger] order.drop_last()[k]
        ].descriptor.dependencies@.len() == 0 by {
            assert(order.drop_last()[k] == order[k]);
        }
        lemma_no_needs(runtime, order.drop_last());
        assert(order.last() == order[order.len() - 1]);
    }
}

/// Who is to provide a service as seen from a scope: where somebody shows it there, that fiber;
/// otherwise all who declared it there; and where nobody did, whoever is to provide it as seen
/// from the scope above.
pub proof fn law_providers_are_sought_upwards(
    runtime: Runtime,
    scope: ScopeId,
    symbol: ServiceSymbol,
    fiber: u64,
)
    requires
        runtime.wf(),
    ensures
        ({
            let found = providers_above(runtime, scope, symbol);
            let slot = slot_of(scope, symbol);
            let shown = runtime.services@.dom().contains(slot) && runtime.gates.visible(
                runtime.services@[slot].gate,
            );
            let declared = exists|other: FiberId| #[trigger]
                runtime.dependencies.provides(scope, symbol, other);
            let record = runtime.scopes@[scope.raw];
            &&& shown ==> (found.contains(fiber) <==> fiber == runtime.services@[slot].owner.raw)
            &&& !shown && declared ==> (found.contains(fiber) <==> runtime.dependencies.provides(
                scope,
                symbol,
                FiberId { raw: fiber },
            ))
            &&& !shown && !declared && runtime.scopes@.dom().contains(scope.raw) && record.parent
                is Some ==> found == providers_above(runtime, record.parent->0, symbol)
            &&& !shown && !declared && !(runtime.scopes@.dom().contains(scope.raw) && record.parent
                is Some) ==> found.len() == 0
        }),
{
    let edges = runtime.dependencies.providers.edges@;
    let listed = fibers_of(edges, Some(scope), symbol);
    let slot = slot_of(scope, symbol);
    lemma_fibers_of(edges, Some(scope), symbol, FiberId { raw: fiber });
    assert(listed.contains(fiber) <==> runtime.dependencies.provides(
        scope,
        symbol,
        FiberId { raw: fiber },
    ));
    if listed.len() > 0 {
        let first = FiberId { raw: listed[0] };
        lemma_fibers_of(edges, Some(scope), symbol, first);
        assert(listed.contains(first.raw));
        assert(runtime.dependencies.provides(scope, symbol, first));
    }
    if exists|other: FiberId| #[trigger] runtime.dependencies.provides(scope, symbol, other) {
        let other = choose|other: FiberId| #[trigger]
            runtime.dependencies.provides(scope, symbol, other);
        lemma_fibers_of(edges, Some(scope), symbol, other);
        assert(listed.contains(other.raw));
    }
    let owner = runtime.services@[slot].owner.raw;
    assert(seq![owner].contains(fiber) <==> fiber == owner) by {
        assert(seq![owner][0] == owner);
    }
}

/// The symbols that an installation needs are found, or added as long as there is room: what was
/// known stays, in its place; all that is wanted is known where it succeeds; and it fails only
/// where something is not known and no room is left.
pub proof fn law_wanted_keys_become_known(known: Seq<KeyView>, wanted: Seq<KeyView>, limit: nat)
    ensures
        ({
            let (after, done) = interned_with(known, wanted, limit);
            &&& known.len() <= after.len()
            &&& forall|k: int| 0 <= k < known.len() ==> #[trigger] after[k] == known[k]
            &&& after.len() <= known.len() || after.len() <= limit
            &&& done ==> forall|k: int|
                0 <= k < wanted.len() ==> after.contains(#[trigger] wanted[k])
            &&& !done ==> after.len() >= limit && exists|k: int|
                0 <= k < wanted.len() && !after.contains(#[trigger] wanted[k])
        }),
    decreases wanted.len(),
{
    if wanted.len() > 0 {
        let rest = wanted.drop_first();
        let (after, done) = interned_with(known, wanted, limit);
        let next = if known.contains(wanted[0]) {
            known
        } else {
            known.push(wanted[0])
        };
        if known.contains(wanted[0]) || known.len() < limit {
            law_wanted_keys_become_known(next, rest, limit);
            assert((after, done) == interned_with(next, rest, limit));
            if known.contains(wanted[0]) {
                let at = known.index_of(wanted[0]);
                assert(after[at] == known[at]);
            } else {
                assert(next[known.len() as int] == wanted[0]);
                assert(after[known.len() as int] == wanted[0]);
                assert forall|k: int| 0 <= k < known.len() implies #[trigger] after[k]
                    == known[k] by {
                    assert(next[k] == known[k]);
                }
            }
            if done {
                assert forall|k: int| 0 <= k < wanted.len() implies after.contains(
                    #[trigger] wanted[k],
                ) by {
                    if k > 0 {
                        assert(rest[k - 1] == wanted[k]);
                    }
                }
            } else {
                let k = choose|k: int| 0 <= k < rest.len() && !after.contains(#[trigger] rest[k]);
                assert(wanted[k + 1] == rest[k]);
            }
        }
    }
}

/// A change of services is brought to everybody it concerns: when an activation has committed,
/// or a disposal has withdrawn what a fiber provided, every fiber that depends on a service that
/// came or went is taken up, once, and nobody else is.
pub proof fn law_changes_are_brought_to_dependents(
    before: Runtime,
    after: Runtime,
    fiber: FiberId,
    invocations: Result<(), CordisError>,
    published: Vec<ServiceSymbol>,
    pending: Seq<u64>,
    withdrawn: (Runtime, Runtime, FiberDisposalJob, FiberDisposalJob, EffectEnd),
    symbols: Vec<ServiceSymbol>,
    left: Seq<u64>,
    k: int,
    dependent: u64,
)
    requires
        commits_activation(before, after, fiber, invocations, Ok(published)),
        takes_up_change(after, published@, pending),
        withdrawn.0.fibers@.dom().contains(withdrawn.2.fiber.raw),
        hears_of_effect(
            withdrawn.0,
            withdrawn.1,
            withdrawn.2,
            withdrawn.3,
            withdrawn.4,
            DisposalAction::Reconcile(symbols),
        ),
        takes_up_change(withdrawn.1, symbols@, left),
    ensures
        0 <= k < before.fibers@[fiber.raw].provided@.len() && after.dependencies.depends(
            before.services.symbol_of(before.fibers@[fiber.raw].provided@[k]@)->0,
            FiberId { raw: dependent },
        ) ==> pending.contains(dependent),
        pending.contains(dependent) ==> exists|symbol: ServiceSymbol| #[trigger]
            published@.contains(symbol) && after.dependencies.depends(
                symbol,
                FiberId { raw: dependent },
            ),
        pending.no_duplicates(),
        0 <= k < withdrawn.2.removed@.len() && withdrawn.1.dependencies.depends(
            withdrawn.2.removed@[k],
            FiberId { raw: dependent },
        ) ==> left.contains(dependent),
        left.contains(dependent) ==> exists|symbol: ServiceSymbol| #[trigger]
            withdrawn.2.removed@.contains(symbol) && withdrawn.1.dependencies.depends(
                symbol,
                FiberId { raw: dependent },
            ),
        left.no_duplicates(),
{
    let record = before.fibers@[fiber.raw];
    let told = symbols_of(before.services, record.provided@);
    if 0 <= k < told.len() && after.dependencies.depends(told[k], FiberId { raw: dependent }) {
        assert(published@[k] == told[k]);
        assert(after.depends_on_any(published@, dependent));
    }
    if 0 <= k < withdrawn.2.removed@.len() && withdrawn.1.dependencies.depends(
        withdrawn.2.removed@[k],
        FiberId { raw: dependent },
    ) {
        assert(symbols@[k] == withdrawn.2.removed@[k]);
        assert(withdrawn.1.depends_on_any(symbols@, dependent));
    }
    law_changes_concern_dependents(after, published@, dependent);
    law_changes_concern_dependents(withdrawn.1, symbols@, dependent);
}

/// An activation commits exactly where it can: while the runtime takes new work, of a fiber that
/// starts and is sealed, with its invocations accepted, whose generation is hidden, and whose
/// services are all still registered as its own. Where it does not, nothing changes, and the
/// reason that is told is true.
pub proof fn law_activations_commit_only_where_they_can(
    before: Runtime,
    after: Runtime,
    fiber: FiberId,
    invocations: Result<(), CordisError>,
    result: Result<Vec<ServiceSymbol>, CordisError>,
)
    requires
        commits_activation(before, after, fiber, invocations, result),
    ensures
        ({
            let record = before.fibers@[fiber.raw];
            let owned = forall|k: int|
                #![trigger record.provided@[k]]
                0 <= k < record.provided@.len() ==> {
                    let slot = slot_of(
                        record.scope,
                        before.services.symbol_of(record.provided@[k]@)->0,
                    );
                    before.services@.dom().contains(slot) && before.services@[slot].owner == fiber
                };
            &&& result is Ok <==> {
                &&& before.fibers@.dom().contains(fiber.raw)
                &&& !before.admission.closed
                &&& record.state is Starting
                &&& record.activation_sealed
                &&& invocations is Ok
                &&& before.gates.at(record.generation).state is Staged
                &&& owned
            }
            &&& result is Err ==> after == before
            &&& result matches Err(error) ==> {
                ||| error is FiberNotFound && !before.fibers@.dom().contains(fiber.raw)
                ||| error is RuntimeShuttingDown && before.admission.closed
                ||| error is Invariant && !owned
                ||| invocations == Err::<(), CordisError>(error)
                ||| error is InvalidFiberState && !(record.state is Starting
                    && record.activation_sealed)
                ||| error is CapabilityPublicationFailed && !(before.gates.at(
                    record.generation,
                ).state is Staged)
            }
        }),
{
    let record = before.fibers@[fiber.raw];
    let symbols = symbols_of(before.services, record.provided@);
    assert forall|k: int|
        #![trigger record.provided@[k]]
        0 <= k < record.provided@.len() implies symbols[k] == before.services.symbol_of(
        record.provided@[k]@,
    )->0 by {}
    if holds_all(before.services@, record.scope, symbols, fiber) {
        assert forall|k: int|
            #![trigger record.provided@[k]]
            0 <= k < record.provided@.len() implies before.services@.dom().contains(
            slot_of(record.scope, before.services.symbol_of(record.provided@[k]@)->0),
        ) && before.services@[slot_of(
            record.scope,
            before.services.symbol_of(record.provided@[k]@)->0,
        )].owner == fiber by {
            assert(owned_in(before.services@, record.scope, symbols[k], fiber));
        }
    } else {
        let k = choose|k: int|
            0 <= k < symbols.len() && !owned_in(
                before.services@,
                record.scope,
                #[trigger] symbols[k],
                fiber,
            );
        assert(record.provided@[k] == record.provided@[k]);
    }
}

} // verus!
