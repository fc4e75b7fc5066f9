//! Admission: which generations take work, and whether the runtime does.
use crate::error::CordisError;
use crate::ids::GenerationId;
use std::collections::HashMap;
use vstd::prelude::*;

verus! {

broadcast use vstd::std_specs::hash::group_hash_axioms;

/// Where a generation stands.
#[derive(Clone, Copy, Debug, PartialEq, Eq, Structural)]
pub enum GateState {
    /// Prepared, and visible to nobody else.
    Staged,
    /// Visible.
    Published,
    /// Takes no more work.
    Closed,
}

/// Whether a generation takes work or waits for the work it took.
#[derive(Clone, Copy, Debug, PartialEq, Eq, Structural)]
pub enum GenerationExecutionState {
    Accepting,
    Draining,
    Drained,
}

/// What one generation admits.
#[derive(Clone, Copy, Debug, PartialEq, Eq, Structural)]
pub struct CapabilityGate {
    pub state: GateState,
    /// Uses that were admitted and did not end yet.
    pub inflight: usize,
    /// Those of the uses that service handles stand for.
    pub service_handles: usize,
}

impl CapabilityGate {
    /// A gate that nobody passed.
    pub open spec fn untouched(state: GateState) -> CapabilityGate {
        CapabilityGate { state, inflight: 0, service_handles: 0 }
    }

    /// Whether one more use can be admitted.
    pub open spec fn admits(self) -> bool {
        !(self.state is Closed) && self.inflight < usize::MAX
    }

    /// Whether one more service handle can be admitted.
    pub open spec fn admits_handle(self) -> bool {
        self.admits() && self.service_handles < usize::MAX
    }

    pub open spec fn execution(self) -> GenerationExecutionState {
        if !(self.state is Closed) {
            GenerationExecutionState::Accepting
        } else if self.inflight != 0 {
            GenerationExecutionState::Draining
        } else {
            GenerationExecutionState::Drained
        }
    }

    /// Whether the generation takes work, and how many uses did not end yet.
    pub fn execution_snapshot(&self) -> (snapshot: (GenerationExecutionState, usize))
        ensures
            snapshot.0 == self.execution(),
            snapshot.1 == self.inflight,
    {
        let state = if self.state != GateState::Closed {
            GenerationExecutionState::Accepting
        } else if self.inflight != 0 {
            GenerationExecutionState::Draining
        } else {
            GenerationExecutionState::Drained
        };
        (state, self.inflight)
    }
}

/// The gates of the generations that still matter.
pub struct GateTable {
    pub gates: HashMap<u64, CapabilityGate>,
}

impl View for GateTable {
    type V = Map<u64, CapabilityGate>;

    open spec fn view(&self) -> Map<u64, CapabilityGate> {
        self.gates@
    }
}

/// A generation is added, hidden.
pub open spec fn stages(
    before: GateTable,
    after: GateTable,
    generation: GenerationId,
) -> bool {
    after@ == before@.insert(
        generation.raw,
        CapabilityGate::untouched(GateState::Staged),
    )
}

/// A generation is forgotten.
pub open spec fn retires(
    before: GateTable,
    after: GateTable,
    generation: GenerationId,
) -> bool {
    after@ == before@.remove(generation.raw)
}

/// A hidden generation becomes visible.
pub open spec fn publishes(
    before: GateTable,
    after: GateTable,
    generation: GenerationId,
    published: bool,
) -> bool {
    &&& published == before.staged(generation)
    &&& after@ == if published {
        before@.insert(
            generation.raw,
            CapabilityGate { state: GateState::Published, ..before.at(generation) },
        )
    } else {
        before@
    }
}

/// A generation takes no more work.
pub open spec fn closes(
    before: GateTable,
    after: GateTable,
    generation: GenerationId,
) -> bool {
    after@ == closed_in(before@, generation)
}

/// One generation takes the place of another.
pub open spec fn switches_over(
    before: GateTable,
    after: GateTable,
    staged: GenerationId,
    old_generation: GenerationId,
    done: bool,
) -> bool {
    &&& done == (before.staged(staged) && before.visible(old_generation))
    &&& after@ == if done {
        cut_over(before@, staged, old_generation)
    } else {
        before@
    }
}

/// A use of a generation is asked for.
pub open spec fn admits_use(
    before: GateTable,
    after: GateTable,
    generation: GenerationId,
    admitted: bool,
) -> bool {
    &&& admitted == before.at(generation).admits()
    &&& after@ == if admitted {
        let gate = before.at(generation);
        before@.insert(
            generation.raw,
            CapabilityGate { inflight: (gate.inflight + 1) as usize, ..gate },
        )
    } else {
        before@
    }
}

/// A use that a service handle stands for is asked for.
pub open spec fn admits_lease(
    before: GateTable,
    after: GateTable,
    generation: GenerationId,
    admitted: bool,
) -> bool {
    &&& admitted == before.at(generation).admits_handle()
    &&& after@ == if admitted {
        let gate = before.at(generation);
        before@.insert(
            generation.raw,
            CapabilityGate {
                inflight: (gate.inflight + 1) as usize,
                service_handles: (gate.service_handles + 1) as usize,
                ..gate
            },
        )
    } else {
        before@
    }
}

/// A use of a generation ends.
pub open spec fn ends_use(
    before: GateTable,
    after: GateTable,
    generation: GenerationId,
) -> bool {
    after@ == before@.insert(
        generation.raw,
        CapabilityGate {
            inflight: (before.at(generation).inflight - 1) as usize,
            ..before.at(generation)
        },
    )
}

/// A use that a service handle stood for ends.
pub open spec fn ends_lease(
    before: GateTable,
    after: GateTable,
    generation: GenerationId,
) -> bool {
    after@ == before@.insert(
        generation.raw,
        CapabilityGate {
            inflight: (before.at(generation).inflight - 1) as usize,
            service_handles: (before.at(generation).service_handles - 1) as usize,
            ..before.at(generation)
        },
    )
}

impl GateTable {
    /// What `generation` admits; one that is gone was closed and drained.
    pub open spec fn at(&self, generation: GenerationId) -> CapabilityGate {
        if self@.dom().contains(generation.raw) {
            self@[generation.raw]
        } else {
            CapabilityGate::untouched(GateState::Closed)
        }
    }

    /// Whether others may use what `generation` provides.
    pub open spec fn visible(&self, generation: GenerationId) -> bool {
        self.at(generation).state is Published
    }

    /// Whether `generation` can still be published.
    pub open spec fn staged(&self, generation: GenerationId) -> bool {
        self.at(generation).state is Staged
    }

    pub fn new() -> (table: Self)
        ensures
            table@ == Map::<u64, CapabilityGate>::empty(),
    {
        GateTable { gates: HashMap::new() }
    }

    pub fn get(&self, generation: GenerationId) -> (gate: CapabilityGate)
        ensures
            gate == self.at(generation),
    {
        match self.gates.get(&generation.raw) {
            Some(gate) => *gate,
            None => CapabilityGate { state: GateState::Closed, inflight: 0, service_handles: 0 },
        }
    }

    pub fn is_visible(&self, generation: GenerationId) -> (visible: bool)
        ensures
            visible == self.visible(generation),
    {
        self.get(generation).state == GateState::Published
    }

    pub fn is_staged(&self, generation: GenerationId) -> (staged: bool)
        ensures
            staged == self.staged(generation),
    {
        self.get(generation).state == GateState::Staged
    }

    /// Adds a staged generation.
    pub fn stage(&mut self, generation: GenerationId)
        ensures
            stages(*old(self), *final(self), generation),
    {
        let gate = CapabilityGate { state: GateState::Staged, inflight: 0, service_handles: 0 };
        self.gates.insert(generation.raw, gate);
    }

    /// Forgets a generation.
    pub fn retire(&mut self, generation: GenerationId)
        ensures
            retires(*old(self), *final(self), generation),
    {
        self.gates.remove(&generation.raw);
        assert(self@ =~= old(self)@.remove(generation.raw));
    }

    /// Makes a staged generation visible.
    pub fn publish(&mut self, generation: GenerationId) -> (published: bool)
        ensures
            publishes(*old(self), *final(self), generation, published),
    {
        let gate = self.get(generation);
        if gate.state != GateState::Staged {
            return false;
        }
        self.gates.insert(generation.raw, CapabilityGate { state: GateState::Published, ..gate });
        true
    }

    /// Stops a generation from taking work; what it took goes on.
    pub fn close(&mut self, generation: GenerationId)
        ensures
            closes(*old(self), *final(self), generation),
    {
        if self.gates.contains_key(&generation.raw) {
            let gate = self.get(generation);
            self.gates.insert(generation.raw, CapabilityGate { state: GateState::Closed, ..gate });
        }
    }

    /// Switches from the published generation `old` to the staged generation
    /// `staged` at once; where one of the two stands otherwise, nothing changes.
    pub fn cutover(&mut self, staged: GenerationId, old_generation: GenerationId) -> (done: bool)
        ensures
            switches_over(*old(self), *final(self), staged, old_generation, done),
    {
        let from = self.get(old_generation);
        let to = self.get(staged);
        if to.state != GateState::Staged || from.state != GateState::Published {
            return false;
        }
        self.gates.insert(
            old_generation.raw,
            CapabilityGate { state: GateState::Closed, ..from },
        );
        self.gates.insert(staged.raw, CapabilityGate { state: GateState::Published, ..to });
        true
    }

    /// Admits one use of a generation that is not closed.
    pub fn try_acquire(&mut self, generation: GenerationId) -> (admitted: bool)
        ensures
            admits_use(*old(self), *final(self), generation, admitted),
    {
        let gate = self.get(generation);
        if gate.state == GateState::Closed || gate.inflight == usize::MAX {
            return false;
        }
        self.gates.insert(
            generation.raw,
            CapabilityGate { inflight: gate.inflight + 1, ..gate },
        );
        true
    }

    /// Admits one use that a service handle stands for.
    pub fn try_acquire_service(&mut self, generation: GenerationId) -> (admitted: bool)
        ensures
            admits_lease(*old(self), *final(self), generation, admitted),
    {
        let gate = self.get(generation);
        if gate.state == GateState::Closed || gate.inflight == usize::MAX || gate.service_handles
            == usize::MAX {
            return false;
        }
        self.gates.insert(
            generation.raw,
            CapabilityGate {
                inflight: gate.inflight + 1,
                service_handles: gate.service_handles + 1,
                ..gate
            },
        );
        true
    }

    /// Ends one use.
    pub fn release(&mut self, generation: GenerationId)
        requires
            old(self)@.dom().contains(generation.raw),
            old(self).at(generation).inflight > 0,
        ensures
            ends_use(*old(self), *final(self), generation),
    {
        let gate = self.get(generation);
        self.gates.insert(
            generation.raw,
            CapabilityGate { inflight: gate.inflight - 1, ..gate },
        );
    }

    /// Ends one use that a service handle stood for.
    pub fn release_service(&mut self, generation: GenerationId)
        requires
            old(self)@.dom().contains(generation.raw),
            old(self).at(generation).inflight > 0,
            old(self).at(generation).service_handles > 0,
        ensures
            ends_lease(*old(self), *final(self), generation),
    {
        let gate = self.get(generation);
        self.gates.insert(
            generation.raw,
            CapabilityGate {
                inflight: gate.inflight - 1,
                service_handles: gate.service_handles - 1,
                ..gate
            },
        );
    }
}

/// `gates` with `generation` closed.
pub open spec fn closed_in(
    gates: Map<u64, CapabilityGate>,
    generation: GenerationId,
) -> Map<u64, CapabilityGate> {
    if gates.dom().contains(generation.raw) {
        gates.insert(
            generation.raw,
            CapabilityGate { state: GateState::Closed, ..gates[generation.raw] },
        )
    } else {
        gates
    }
}

/// `gates` switched from `old_generation` to `staged`.
pub open spec fn cut_over(
    gates: Map<u64, CapabilityGate>,
    staged: GenerationId,
    old_generation: GenerationId,
) -> Map<u64, CapabilityGate> {
    gates.insert(
        old_generation.raw,
        CapabilityGate { state: GateState::Closed, ..gates[old_generation.raw] },
    ).insert(staged.raw, CapabilityGate { state: GateState::Published, ..gates[staged.raw] })
}

/// A cutover replaces the visible generation: exactly the staged one becomes
/// visible, exactly the old one stops being so, and work that was admitted stays
/// counted.
pub proof fn law_cutover_switches_at_one_point(
    before: GateTable,
    after: GateTable,
    staged: GenerationId,
    old_generation: GenerationId,
    other: GenerationId,
)
    requires
        before.staged(staged),
        before.visible(old_generation),
        after@ == cut_over(before@, staged, old_generation),
    ensures
        after.visible(staged),
        !after.visible(old_generation),
        other != staged && other != old_generation ==> after.at(other) == before.at(other),
        after.at(other).inflight == before.at(other).inflight,
        after.at(other).service_handles == before.at(other).service_handles,
{
}

/// A use that ends leaves no trace: after one was admitted and ended, all counts are as
/// before, for plain uses and for those of service handles. Exactly a generation that is not
/// closed admits one, as far as they can be counted, and no other generation is touched.
pub proof fn law_ended_uses_leave_no_trace(
    before: GateTable,
    middle: GateTable,
    after: GateTable,
    generation: GenerationId,
    other: GenerationId,
    lease: bool,
    admitted: bool,
)
    requires
        !lease ==> admits_use(before, middle, generation, admitted),
        lease ==> admits_lease(before, middle, generation, admitted),
        admitted && !lease ==> ends_use(middle, after, generation),
        admitted && lease ==> ends_lease(middle, after, generation),
    ensures
        before.at(generation).inflight < usize::MAX && before.at(generation).service_handles
            < usize::MAX ==> (admitted <==> !(before.at(generation).state is Closed)),
        before.at(generation).state is Closed ==> !admitted,
        !admitted ==> middle@ == before@,
        admitted ==> middle.at(generation).inflight == before.at(generation).inflight + 1,
        admitted ==> middle.at(generation).service_handles == before.at(
            generation,
        ).service_handles + (if lease {
            1int
        } else {
            0int
        }),
        admitted ==> middle.at(generation).state == before.at(generation).state,
        other != generation ==> middle.at(other) == before.at(other),
        admitted ==> after@ == before@,
{
    if admitted {
        assert(after@ =~= before@);
    }
}

/// A generation is hidden when it is added, visible once it is published, and never again
/// admits a use after it was closed or forgotten; what was admitted before goes on.
pub proof fn law_generations_are_hidden_shown_and_closed(
    before: GateTable,
    staged: GateTable,
    shown: GateTable,
    closed: GateTable,
    generation: GenerationId,
    published: bool,
    admitted: bool,
    later: GateTable,
    other: GenerationId,
)
    requires
        stages(before, staged, generation),
        publishes(staged, shown, generation, published),
        closes(shown, closed, generation),
        admits_use(closed, later, generation, admitted),
    ensures
        staged.staged(generation),
        !staged.visible(generation),
        staged.at(generation).inflight == 0,
        staged.at(generation).service_handles == 0,
        published,
        shown.visible(generation),
        !closed.visible(generation),
        closed.at(generation).state is Closed,
        closed.at(generation).inflight == shown.at(generation).inflight,
        closed.at(generation).service_handles == shown.at(generation).service_handles,
        !admitted,
        later@ == closed@,
        other != generation ==> closed.at(other) == before.at(other),
{
}

/// Only a hidden generation can be published, and only a hidden one takes the place of a
/// visible one; otherwise nothing changes. A generation that is forgotten is closed and
/// drained.
pub proof fn law_generations_are_shown_once(
    before: GateTable,
    after: GateTable,
    generation: GenerationId,
    published: bool,
    switched: GateTable,
    old_generation: GenerationId,
    done: bool,
    retired: GateTable,
)
    requires
        publishes(before, after, generation, published),
        switches_over(before, switched, generation, old_generation, done),
        retires(before, retired, generation),
    ensures
        published <==> before.at(generation).state is Staged,
        !published ==> after@ == before@,
        done <==> before.at(generation).state is Staged && before.at(old_generation).state
            is Published,
        !done ==> switched@ == before@,
        done ==> switched.visible(generation) && !switched.visible(old_generation)
            && switched.at(old_generation).inflight == before.at(old_generation).inflight,
        retired.at(generation).state is Closed,
        retired.at(generation).inflight == 0,
        retired.at(generation).execution() is Drained,
        forall|other: GenerationId|
            other != generation ==> #[trigger] retired.at(other) == before.at(other),
{
}

/// A generation accepts work until it is closed, then drains as long as it is in use, and is
/// drained when the last use ends.
pub proof fn law_generations_drain(gate: CapabilityGate)
    ensures
        gate.execution() is Accepting <==> !(gate.state is Closed),
        gate.execution() is Draining <==> gate.state is Closed && gate.inflight > 0,
        gate.execution() is Drained <==> gate.state is Closed && gate.inflight == 0,
        gate.admits_handle() ==> gate.admits(),
        gate.admits() ==> gate.execution() is Accepting,
{
}

/// Whether the runtime takes new work.
#[derive(Clone, Copy, Debug, PartialEq, Eq, Structural)]
pub struct AdmissionGate {
    pub closed: bool,
    pub complete: bool,
}

impl AdmissionGate {
    pub fn new() -> (gate: Self)
        ensures
            gate == (AdmissionGate { closed: false, complete: false }),
    {
        AdmissionGate { closed: false, complete: false }
    }

    /// Asks for admission of new work.
    pub fn enter(&self) -> (result: Result<(), CordisError>)
        ensures
            match result {
                Ok(()) => !self.closed,
                Err(error) => self.closed && error is RuntimeShuttingDown,
            },
    {
        if self.closed {
            Err(CordisError::RuntimeShuttingDown)
        } else {
            Ok(())
        }
    }

    /// Refuses new work from here on.
    pub fn begin_shutdown(&mut self)
        ensures
            *final(self) == (AdmissionGate { closed: true, ..*old(self) }),
    {
        self.closed = true;
    }

    /// Notes that everything converged; new work stays refused.
    pub fn complete_shutdown(&mut self)
        ensures
            *final(self) == (AdmissionGate { closed: true, complete: true }),
    {
        self.closed = true;
        self.complete = true;
    }
}

} // verus!
