//! What the services and the contexts of a runtime promise.
#[allow(unused_imports)]
use super::activation::commits_activation;
#[allow(unused_imports)]
use super::context::{
    ends_task, enters_effect, enters_handler, enters_service, enters_task, makes_child, may_add,
    other_task, standing, Context, Registration, TaskTicket,
};
#[allow(unused_imports)]
use super::disposal::{next_after_children, next_after_services, DisposalAction};
#[allow(unused_imports)]
use super::service::{interns_service, leases, resolves, resolves_owned, takes_handle_back};
#[allow(unused_imports)]
use super::{line_of, Runtime};
#[allow(unused_imports)]
use crate::error::CordisError;
#[allow(unused_imports)]
use crate::fiber_registry::FiberRecord;
#[allow(unused_imports)]
use crate::gate::GateTable;
#[allow(unused_imports)]
use crate::ids::{EffectId, FiberId, ScopeId, ServiceSymbol, TaskId};
#[allow(unused_imports)]
use crate::key::{key_views, KeyView, ServiceKey};
#[allow(unused_imports)]
use crate::scope_registry::ScopeRegistry;
#[allow(unused_imports)]
use crate::service_handle::ServiceHandle;
#[allow(unused_imports)]
use crate::service_registry::{
    law_resolution_is_nearest, lemma_slot, nearest, nearest_owned, slot_of, visible_at, Entries,
    ServiceEntry,
};
#[allow(unused_imports)]
use crate::task::TaskOutcome;
use vstd::prelude::*;

verus! {

/// The line of a scope begins with the scope.
proof fn lemma_line_begins(scopes: ScopeRegistry, scope: ScopeId)
    requires
        scopes.wf(),
        scopes.rooted(scope),
    ensures
        line_of(scopes, scope).len() > 0,
        line_of(scopes, scope)[0] == scope,
{
    scopes.lemma_line(scope);
    assert(scopes.above(scope)[0] == scope.raw);
}

/// Where a lookup along `line` stops.
proof fn lemma_found(entries: Entries, gates: GateTable, line: Seq<ScopeId>, symbol: ServiceSymbol)
    ensures
        match nearest(entries, gates, line, symbol) {
            None => forall|k: int|
                0 <= k < line.len() ==> !visible_at(entries, gates, #[trigger] line[k], symbol),
            Some(entry) => exists|k: int|
                #![trigger line[k]]
                {
                    &&& 0 <= k < line.len()
                    &&& entries.dom().contains(slot_of(line[k], symbol))
                    &&& entry == entries[slot_of(line[k], symbol)]
                    &&& gates.visible(entry.gate)
                    &&& forall|j: int|
                        0 <= j < k ==> !visible_at(entries, gates, #[trigger] line[j], symbol)
                },
        },
    decreases line.len(),
{
    if line.len() > 0 {
        let rest = line.drop_first();
        lemma_found(entries, gates, rest, symbol);
        if visible_at(entries, gates, line[0], symbol) {
            assert(entries.dom().contains(slot_of(line[0], symbol)));
        } else {
            match nearest(entries, gates, rest, symbol) {
                None => {
                    assert forall|k: int| 0 <= k < line.len() implies !visible_at(
                        entries,
                        gates,
                        #[trigger] line[k],
                        symbol,
                    ) by {
                        if k > 0 {
                            assert(rest[k - 1] == line[k]);
                        }
                    }
                },
                Some(entry) => {
                    let k = choose|k: int|
                        #![trigger rest[k]]
                        {
                            &&& 0 <= k < rest.len()
                            &&& entries.dom().contains(slot_of(rest[k], symbol))
                            &&& entry == entries[slot_of(rest[k], symbol)]
                            &&& gates.visible(entry.gate)
                            &&& forall|j: int|
                                0 <= j < k ==> !visible_at(
                                    entries,
                                    gates,
                                    #[trigger] rest[j],
                                    symbol,
                                )
                        };
                    assert(line[k + 1] == rest[k]);
                    assert forall|j: int| 0 <= j < k + 1 implies !visible_at(
                        entries,
                        gates,
                        #[trigger] line[j],
                        symbol,
                    ) by {
                        if j > 0 {
                            assert(rest[j - 1] == line[j]);
                        }
                    }
                },
            }
        }
    }
}

/// A lookup from a scope finds the visible service of the nearest scope on the way to the
/// root, and nothing only where there is no visible one on the way. It changes no service.
pub proof fn law_lookups_find_the_nearest(
    before: Runtime,
    after: Runtime,
    scope: ScopeId,
    symbol: ServiceSymbol,
    entry: Option<ServiceEntry>,
)
    requires
        before.wf(),
        before.scopes.rooted(scope),
        resolves(before, after, scope, symbol, entry),
    ensures
        ({
            let line = line_of(before.scopes, scope);
            match entry {
                None => forall|k: int|
                    0 <= k < line.len() ==> !visible_at(
                        before.services@,
                        before.gates,
                        #[trigger] line[k],
                        symbol,
                    ),
                Some(entry) => exists|k: int|
                    #![trigger line[k]]
                    {
                        &&& 0 <= k < line.len()
                        &&& before.services@.dom().contains(slot_of(line[k], symbol))
                        &&& entry == before.services@[slot_of(line[k], symbol)]
                        &&& before.gates.visible(entry.gate)
                        &&& forall|j: int|
                            0 <= j < k ==> !visible_at(
                                before.services@,
                                before.gates,
                                #[trigger] line[j],
                                symbol,
                            )
                    },
            }
        }),
        after.services@ == before.services@,
        after.gates == before.gates,
        after.fibers == before.fibers,
        after.scopes == before.scopes,
{
    lemma_found(before.services@, before.gates, line_of(before.scopes, scope), symbol);
}

/// A lookup that skips what is hidden does not see a service that is added hidden.
proof fn lemma_hidden(
    before: Entries,
    after: Entries,
    gates: GateTable,
    line: Seq<ScopeId>,
    symbol: ServiceSymbol,
    slot: u128,
    entry: ServiceEntry,
)
    requires
        !before.dom().contains(slot),
        after == before.insert(slot, entry),
        !gates.visible(entry.gate),
    ensures
        nearest(after, gates, line, symbol) == nearest(before, gates, line, symbol),
    decreases line.len(),
{
    if line.len() > 0 {
        lemma_hidden(before, after, gates, line.drop_first(), symbol, slot, entry);
    }
}

/// A service that is provided is entered with its value for its owner, in the scope of the
/// owner. As long as its generation is hidden, the owner finds it from its scope and nobody
/// else finds anything new. It is provided exactly by a context that may add, of a key that was
/// declared, once, where the scope has no service of that name.
pub proof fn law_provided_services_stay_hidden(
    before: Runtime,
    after: Runtime,
    context: Context,
    key: ServiceKey,
    value: u64,
    result: Result<ServiceSymbol, CordisError>,
    other: ServiceSymbol,
    line: Seq<ScopeId>,
    found: (Runtime, Option<ServiceEntry>),
)
    requires
        after.wf(),
        enters_service(before, after, context, key, value, result),
        result is Ok,
        !before.gates.visible(context.generation),
        after.scopes.rooted(before.fibers@[context.fiber.raw].scope),
        resolves_owned(
            after,
            found.0,
            before.fibers@[context.fiber.raw].scope,
            result->Ok_0,
            context.fiber,
            found.1,
        ),
    ensures
        nearest(after.services@, after.gates, line, other) == nearest(
            before.services@,
            before.gates,
            line,
            other,
        ),
        found.1 matches Some(entry) && entry.value == value && entry.owner == context.fiber
            && entry.gate == context.generation && entry.scope
            == before.fibers@[context.fiber.raw].scope,
{
    let scope = before.fibers@[context.fiber.raw].scope;
    let symbol = result->Ok_0;
    let slot = slot_of(scope, symbol);
    lemma_hidden(
        before.services@,
        after.services@,
        before.gates,
        line,
        other,
        slot,
        after.services@[slot],
    );
    lemma_line_begins(after.scopes, scope);
}

/// When services are provided, and what changes with them.
pub proof fn law_services_are_provided_as_declared(
    before: Runtime,
    after: Runtime,
    context: Context,
    key: ServiceKey,
    value: u64,
    result: Result<ServiceSymbol, CordisError>,
)
    requires
        enters_service(before, after, context, key, value, result),
    ensures
        ({
            let record = before.fibers@[context.fiber.raw];
            let symbol = before.services.symbol_of(key@)->0;
            &&& result is Ok <==> {
                &&& may_add(before, context) is Ok
                &&& key_views(record.descriptor.provisions@).contains(key@)
                &&& !key_views(record.provided@).contains(key@)
                &&& !before.services@.dom().contains(slot_of(record.scope, symbol))
            }
            &&& result matches Ok(told) ==> told == symbol
            &&& result is Err ==> after == before
            &&& result matches Err(CordisError::DuplicateService(told)) ==> told == key
            &&& result is Ok ==> {
                &&& after.fibers@[context.fiber.raw].provided@ == record.provided@.push(key)
                &&& forall|slot: u128| #[trigger]
                    before.services@.dom().contains(slot) ==> after.services@.dom().contains(slot)
                        && after.services@[slot] == before.services@[slot]
                &&& after.services@.dom().contains(slot_of(record.scope, symbol))
                &&& after.services@[slot_of(record.scope, symbol)].owner == context.fiber
                &&& after.services@[slot_of(record.scope, symbol)].value == value
                &&& after.services@[slot_of(record.scope, symbol)].gate == context.generation
                &&& after.services@[slot_of(record.scope, symbol)].scope == record.scope
                &&& after.gates == before.gates
                &&& after.scopes == before.scopes
                &&& after.tasks == before.tasks
            }
        }),
{
}

/// What is provided is served: once the activation has committed, whoever looks the service up
/// from the scope of its provider finds it, with the value that it was provided with.
pub proof fn law_published_services_are_served(
    before: Runtime,
    provided: Runtime,
    published: Runtime,
    after: Runtime,
    context: Context,
    key: ServiceKey,
    value: u64,
    symbol: ServiceSymbol,
    invocations: Result<(), CordisError>,
    symbols: Vec<ServiceSymbol>,
    entry: Option<ServiceEntry>,
)
    requires
        enters_service(before, provided, context, key, value, Ok(symbol)),
        commits_activation(provided, published, context.fiber, invocations, Ok(symbols)),
        published.wf(),
        published.scopes.rooted(before.fibers@[context.fiber.raw].scope),
        resolves(
            published,
            after,
            before.fibers@[context.fiber.raw].scope,
            symbol,
            entry,
        ),
    ensures
        entry matches Some(entry) && entry.value == value && entry.owner == context.fiber
            && entry.gate == context.generation,
{
    lemma_line_begins(published.scopes, before.fibers@[context.fiber.raw].scope);
}

/// A handle is lent of what a lookup finds, where its generation takes work: it names the
/// value, the provider, the generation, the scope and the symbol of that service, and counts
/// as a use until it is given back; then everything counts as before. A fiber finds what it
/// hides itself before what others show.
pub proof fn law_handles_count_until_given_back(
    before: Runtime,
    middle: Runtime,
    after: Runtime,
    scope: ScopeId,
    symbol: ServiceSymbol,
    owner: FiberId,
    handle: Option<ServiceHandle>,
)
    requires
        before.wf(),
        before.scopes.rooted(scope),
        leases(before, middle, scope, symbol, owner, handle),
        handle is Some ==> takes_handle_back(middle, after, handle->0),
    ensures
        ({
            let line = line_of(before.scopes, scope);
            let own = nearest_owned(before.services@, before.gates, line, symbol, owner);
            let found = if own is Some {
                own
            } else {
                nearest(before.services@, before.gates, line, symbol)
            };
            &&& found is None ==> handle is None
            &&& found matches Some(entry) ==> (handle is Some <==> !(before.gates.at(
                entry.gate,
            ).state is Closed) && before.gates.at(entry.gate).inflight < usize::MAX
                && before.gates.at(entry.gate).service_handles < usize::MAX)
            &&& handle matches Some(lent) ==> {
                &&& found matches Some(entry)
                &&& lent.service_of() == entry.value
                &&& lent.provider_of() == entry.owner
                &&& lent.generation_of() == entry.gate.raw
                &&& lent.scope_of() == entry.scope
                &&& lent.symbol_of() == symbol
                &&& middle.gates.at(entry.gate).inflight == before.gates.at(entry.gate).inflight + 1
                &&& middle.gates.at(entry.gate).service_handles == before.gates.at(
                    entry.gate,
                ).service_handles + 1
                &&& middle.gates.at(entry.gate).state == before.gates.at(entry.gate).state
            }
        }),
        handle is None ==> middle.gates@ == before.gates@,
        handle is Some ==> after.gates@ == before.gates@,
        middle.services@ == before.services@,
        middle.fibers == before.fibers,
        middle.scopes == before.scopes,
{
    let line = line_of(before.scopes, scope);
    let own = nearest_owned(before.services@, before.gates, line, symbol, owner);
    if own is None {
        assert(before.services.sound_at(scope, symbol, line, before.gates));
        law_resolution_is_nearest(
            before.services,
            middle.services,
            before.gates,
            scope,
            line,
            symbol,
        );
    }
    if handle is Some {
        assert(after.gates@ =~= before.gates@);
    }
}

/// A key keeps its symbol, and no two keys share one: asking again gives the same answer, and
/// what was named before is named the same. Only where all symbols are in use is a new key
/// refused.
pub proof fn law_keys_keep_their_symbols(
    before: Runtime,
    middle: Runtime,
    after: Runtime,
    key: ServiceKey,
    first: Result<ServiceSymbol, CordisError>,
    second: Result<ServiceSymbol, CordisError>,
    other: KeyView,
)
    requires
        interns_service(before, middle, key, first),
        interns_service(middle, after, key, second),
    ensures
        first is Ok ==> second == first && after == middle,
        first matches Ok(symbol) ==> middle.services.symbol_of(key@) == Some(symbol),
        first is Err <==> before.services.symbol_of(key@) is None && before.services.keys@.len()
            >= before.config.max_interned_symbols,
        before.services.symbol_of(other) is Some ==> middle.services.symbol_of(other)
            == before.services.symbol_of(other),
        middle.services@ == before.services@,
        middle.fibers == before.fibers,
{
}

/// When a context stands, and when it may add: its fiber is there, still with the generation
/// the context was made for, and that generation takes work; and to add, the runtime takes
/// new work too and the activation of the fiber is not sealed.
pub proof fn law_contexts_stand_with_their_generation(runtime: Runtime, context: Context)
    ensures
        standing(runtime, context) is Ok <==> {
            &&& runtime.fibers@.dom().contains(context.fiber.raw)
            &&& runtime.fibers@[context.fiber.raw].generation == context.generation
            &&& !(runtime.gates.at(context.generation).state is Closed)
        },
        may_add(runtime, context) is Ok <==> {
            &&& standing(runtime, context) is Ok
            &&& !runtime.admission.closed
            &&& !runtime.fibers@[context.fiber.raw].activation_sealed
        },
        runtime.admission.closed ==> may_add(runtime, context) == Err::<(), CordisError>(
            CordisError::RuntimeShuttingDown,
        ),
        standing(runtime, context) matches Err(error) ==> error is FiberNotFound || (
        error matches CordisError::StaleContextGeneration { fiber, expected, actual } && fiber
            == context.fiber && expected == context.generation && actual
            == runtime.fibers@[context.fiber.raw].generation),
{
}

/// A task that is entered is listed by its fiber and known with its owner until it ends, and
/// waits exactly where the activation is not committed; when it has ended, the fiber lists the
/// tasks that it did before, and so does the runtime.
pub proof fn law_ended_tasks_leave_no_trace(
    before: Runtime,
    middle: Runtime,
    after: Runtime,
    context: Context,
    ticket: TaskTicket,
    outcome: TaskOutcome,
)
    requires
        before.wf(),
        enters_task(before, middle, context, Ok(ticket)),
        ends_task(middle, after, ticket.id, outcome),
    ensures
        ({
            let record = before.fibers@[context.fiber.raw];
            &&& ticket.waits == record.activation
            &&& record.tasks@.len() < before.config.max_tasks_per_fiber
            &&& !before.tasks.arena@.dom().contains(ticket.id.raw)
            &&& middle.fibers@[context.fiber.raw].tasks@ == record.tasks@.push(ticket.id)
            &&& middle.tasks.arena@[ticket.id.raw].owner == context.fiber
            &&& middle.tasks.arena@[ticket.id.raw].scope == record.scope
            &&& after.fibers@[context.fiber.raw].tasks@ == record.tasks@
        }),
        after.tasks.arena@ == before.tasks.arena@,
        after.tasks.reaped == if before.tasks.reaped == u64::MAX {
            0
        } else {
            (before.tasks.reaped + 1) as u64
        },
        forall|other: u64| #[trigger]
            before.fibers@.dom().contains(other) && other != context.fiber.raw
                ==> after.fibers@[other] == before.fibers@[other],
        after.services == before.services,
        after.gates == before.gates,
{
    let record = before.fibers@[context.fiber.raw];
    let id = ticket.id;
    assert(after.tasks.arena@ =~= before.tasks.arena@);
    assert(!record.tasks@.contains(id));
    lemma_pushed_out(record.tasks@, id);
}

/// What was pushed last and was not there before is filtered out again.
proof fn lemma_pushed_out(tasks: Seq<TaskId>, id: TaskId)
    requires
        !tasks.contains(id),
    ensures
        tasks.push(id).filter(other_task(id)) == tasks,
{
    reveal(Seq::filter);
    assert(tasks.push(id).drop_last() =~= tasks);
    lemma_untouched(tasks, id);
}

proof fn lemma_untouched(tasks: Seq<TaskId>, id: TaskId)
    requires
        !tasks.contains(id),
    ensures
        tasks.filter(other_task(id)) == tasks,
    decreases tasks.len(),
{
    reveal(Seq::filter);
    if tasks.len() > 0 {
        assert(tasks.contains(tasks.last()));
        assert forall|k: int| 0 <= k < tasks.drop_last().len() implies tasks.drop_last()[k]
            != id by {
            assert(tasks.contains(tasks[k]));
        }
        lemma_untouched(tasks.drop_last(), id);
        assert(tasks =~= tasks.drop_last().push(tasks.last()));
    }
}

/// What a fiber registers, it takes back when it is disposed: what was registered is handed
/// out first, before what was registered earlier.
pub proof fn law_registrations_are_taken_back(
    before: Runtime,
    after: Runtime,
    context: Context,
    registration: Registration,
    next: FiberRecord,
    action: DisposalAction,
)
    requires
        enters_handler(before, after, context, registration, Ok(())),
        after.fibers@[context.fiber.raw].child_scopes@.len() == 0,
        next_after_children(after.fibers@[context.fiber.raw], next, action),
    ensures
        action matches DisposalAction::Unregister(out) && match registration {
            Registration::Handler(id) => out.handlers@.len() > 0 && out.handlers@[0] == id,
            Registration::InvocationHandler(id) => out.invocation_handlers@.len() > 0
                && out.invocation_handlers@[0] == id,
            Registration::InvocationMiddleware(id) => out.invocation_middleware@.len() > 0
                && out.invocation_middleware@[0] == id,
        },
        ({
            let was = before.fibers@[context.fiber.raw];
            let now = after.fibers@[context.fiber.raw];
            match registration {
                Registration::Handler(id) => now.handlers@ == was.handlers@.push(id)
                    && now.invocation_handlers == was.invocation_handlers
                    && now.invocation_middleware == was.invocation_middleware,
                Registration::InvocationHandler(id) => now.invocation_handlers@
                    == was.invocation_handlers@.push(id) && now.handlers == was.handlers
                    && now.invocation_middleware == was.invocation_middleware,
                Registration::InvocationMiddleware(id) => now.invocation_middleware@
                    == was.invocation_middleware@.push(id) && now.handlers == was.handlers
                    && now.invocation_handlers == was.invocation_handlers,
            }
        }),
        may_add(before, context) is Ok,
{
}

/// What has an effect, undoes it when it is disposed: the effect that was entered last is the
/// first one to be handed out, and nobody else had its id.
pub proof fn law_effects_are_undone(
    before: Runtime,
    after: Runtime,
    context: Context,
    effect: EffectId,
    next: FiberRecord,
    removed: Seq<ServiceSymbol>,
    closed: bool,
    target: crate::state::FiberState,
    action: DisposalAction,
)
    requires
        before.wf(),
        enters_effect(before, after, context, Ok(effect)),
        next_after_services(
            after.fibers@[context.fiber.raw],
            next,
            removed,
            closed,
            target,
            action,
        ),
    ensures
        action == DisposalAction::DisposeEffect(effect),
        next.effects@ == before.fibers@[context.fiber.raw].effects@,
        forall|other: u64| #[trigger]
            before.fibers@.dom().contains(other) ==> !before.fibers@[other].effects@.contains(
                effect,
            ),
        may_add(before, context) is Ok,
        after.next_effect == before.next_effect + 1,
{
    let was = before.fibers@[context.fiber.raw].effects@;
    assert(after.fibers@[context.fiber.raw].effects@ == was.push(effect));
    assert(was.push(effect).drop_last() =~= was);
    assert(was.push(effect).last() == effect);
}

/// A child scope that a fiber makes is its own to dispose of: the fiber lists it, last, and it
/// is a new, visible scope below that of the fiber.
pub proof fn law_child_scopes_belong_to_their_fiber(
    before: Runtime,
    after: Runtime,
    context: Context,
    name: Seq<char>,
    child: ScopeId,
)
    requires
        makes_child(before, after, context, name, Ok(child)),
        before.scopes@.dom().len() < before.config.max_scopes,
    ensures
        may_add(before, context) is Ok,
        after.fibers@[context.fiber.raw].child_scopes@
            == before.fibers@[context.fiber.raw].child_scopes@.push(child),
        !before.scopes@.dom().contains(child.raw),
        after.scopes@.dom().contains(child.raw),
        after.scopes@[child.raw].parent == Some(before.fibers@[context.fiber.raw].scope),
        after.scopes@[child.raw].name@ == name,
        !after.scopes@[child.raw].hidden,
        after.scopes@[child.raw].state is Active,
        after.fibers@[context.fiber.raw].tasks == before.fibers@[context.fiber.raw].tasks,
        after.fibers@[context.fiber.raw].effects == before.fibers@[context.fiber.raw].effects,
{
}

/// Asking twice gives the same answer, and the second time it is remembered: where anything is
/// remembered at all, the second lookup changes nothing.
pub proof fn law_lookups_are_remembered(
    before: Runtime,
    middle: Runtime,
    after: Runtime,
    scope: ScopeId,
    symbol: ServiceSymbol,
    first: Option<ServiceEntry>,
    second: Option<ServiceEntry>,
)
    requires
        before.wf(),
        middle.wf(),
        before.scopes.rooted(scope),
        resolves(before, middle, scope, symbol, first),
        resolves(middle, after, scope, symbol, second),
    ensures
        second == first,
        before.config.max_resolution_cache_entries > 0 ==> after == middle,
{
    let line = line_of(before.scopes, scope);
    lemma_found(before.services@, before.gates, line, symbol);
    if let Some(entry) = first {
        let k = choose|k: int|
            #![trigger line[k]]
            {
                &&& 0 <= k < line.len()
                &&& before.services@.dom().contains(slot_of(line[k], symbol))
                &&& entry == before.services@[slot_of(line[k], symbol)]
                &&& before.gates.visible(entry.gate)
                &&& forall|j: int|
                    0 <= j < k ==> !visible_at(
                        before.services@,
                        before.gates,
                        #[trigger] line[j],
                        symbol,
                    )
            };
        lemma_slot(line[k], symbol);
        assert(entry.scope == line[k]);
    }
}

/// Where a fiber that looks for what it hides itself stops.
proof fn lemma_found_own(
    entries: Entries,
    gates: GateTable,
    line: Seq<ScopeId>,
    symbol: ServiceSymbol,
    owner: FiberId,
)
    ensures
        match nearest_owned(entries, gates, line, symbol, owner) {
            None => forall|k: int|
                0 <= k < line.len() ==> !hides_at(
                    entries,
                    gates,
                    #[trigger] line[k],
                    symbol,
                    owner,
                ),
            Some(entry) => exists|k: int|
                #![trigger line[k]]
                {
                    &&& 0 <= k < line.len()
                    &&& hides_at(entries, gates, line[k], symbol, owner)
                    &&& entry == entries[slot_of(line[k], symbol)]
                    &&& forall|j: int|
                        0 <= j < k ==> !hides_at(entries, gates, #[trigger] line[j], symbol, owner)
                },
        },
    decreases line.len(),
{
    if line.len() > 0 {
        let rest = line.drop_first();
        lemma_found_own(entries, gates, rest, symbol, owner);
        if hides_at(entries, gates, line[0], symbol, owner) {
            assert(entries.dom().contains(slot_of(line[0], symbol)));
        } else {
            match nearest_owned(entries, gates, rest, symbol, owner) {
                None => {
                    assert forall|k: int| 0 <= k < line.len() implies !hides_at(
                        entries,
                        gates,
                        #[trigger] line[k],
                        symbol,
                        owner,
                    ) by {
                        if k > 0 {
                            assert(rest[k - 1] == line[k]);
                        }
                    }
                },
                Some(entry) => {
                    let k = choose|k: int|
                        #![trigger rest[k]]
                        {
                            &&& 0 <= k < rest.len()
                            &&& hides_at(entries, gates, rest[k], symbol, owner)
                            &&& entry == entries[slot_of(rest[k], symbol)]
                            &&& forall|j: int|
                                0 <= j < k ==> !hides_at(
                                    entries,
                                    gates,
                                    #[trigger] rest[j],
                                    symbol,
                                    owner,
                                )
                        };
                    assert(line[k + 1] == rest[k]);
                    assert forall|j: int| 0 <= j < k + 1 implies !hides_at(
                        entries,
                        gates,
                        #[trigger] line[j],
                        symbol,
                        owner,
                    ) by {
                        if j > 0 {
                            assert(rest[j - 1] == line[j]);
                        }
                    }
                },
            }
        }
    }
}

/// Whether the owner hides a service at the scope.
pub open spec fn hides_at(
    entries: Entries,
    gates: GateTable,
    scope: ScopeId,
    symbol: ServiceSymbol,
    owner: FiberId,
) -> bool {
    &&& entries.dom().contains(slot_of(scope, symbol))
    &&& entries[slot_of(scope, symbol)].owner == owner
    &&& !gates.visible(entries[slot_of(scope, symbol)].gate)
}

/// A fiber that looks a service up sees what it hides itself, the nearest first; where it hides
/// nothing of that name on the way, it sees what everybody sees, and nothing that others hide.
pub proof fn law_fibers_see_what_they_hide(
    before: Runtime,
    after: Runtime,
    scope: ScopeId,
    symbol: ServiceSymbol,
    owner: FiberId,
    entry: Option<ServiceEntry>,
)
    requires
        before.wf(),
        before.scopes.rooted(scope),
        resolves_owned(before, after, scope, symbol, owner, entry),
    ensures
        ({
            let line = line_of(before.scopes, scope);
            let hidden = exists|k: int|
                0 <= k < line.len() && hides_at(
                    before.services@,
                    before.gates,
                    #[trigger] line[k],
                    symbol,
                    owner,
                );
            &&& !hidden ==> entry == nearest(before.services@, before.gates, line, symbol)
            &&& hidden ==> exists|k: int|
                #![trigger line[k]]
                {
                    &&& 0 <= k < line.len()
                    &&& hides_at(before.services@, before.gates, line[k], symbol, owner)
                    &&& entry == Some(before.services@[slot_of(line[k], symbol)])
                    &&& forall|j: int|
                        0 <= j < k ==> !hides_at(
                            before.services@,
                            before.gates,
                            #[trigger] line[j],
                            symbol,
                            owner,
                        )
                }
        }),
        entry matches Some(found) ==> before.gates.visible(found.gate) || found.owner == owner,
        after.services@ == before.services@,
        after.gates == before.gates,
{
    let line = line_of(before.scopes, scope);
    lemma_found_own(before.services@, before.gates, line, symbol, owner);
    lemma_found(before.services@, before.gates, line, symbol);
}

/// A fiber that has as many tasks as it may have gets no more, and the refusal is counted and
/// noted for it.
pub proof fn law_fibers_have_no_more_tasks_than_they_may(
    before: Runtime,
    after: Runtime,
    context: Context,
    result: Result<TaskTicket, CordisError>,
)
    requires
        enters_task(before, after, context, result),
        may_add(before, context) is Ok,
        before.diagnostics.quota_rejections < u64::MAX,
    ensures
        result is Ok ==> before.fibers@[context.fiber.raw].tasks@.len()
            < before.config.max_tasks_per_fiber,
        before.fibers@[context.fiber.raw].tasks@.len() < before.config.max_tasks_per_fiber
            && before.tasks.arena.has_room() ==> result is Ok,
        result matches Err(error) ==> {
            &&& error matches CordisError::ResourceLimitExceeded { resource, limit }
            &&& resource is TasksPerFiber
            &&& limit == before.config.max_tasks_per_fiber
            &&& after.diagnostics.quota_rejections == before.diagnostics.quota_rejections + 1
            &&& after.diagnostics.recent@.len() > 0
            &&& after.diagnostics.recent@.last().fiber == Some(context.fiber)
            &&& after.fibers == before.fibers
            &&& after.tasks == before.tasks
        },
{
}

} // verus!
