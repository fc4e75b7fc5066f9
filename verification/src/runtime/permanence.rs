//! Disposals for good.
#[allow(unused_imports)]
use super::disposal::{asks_to_go, is_worker_terminal};
#[allow(unused_imports)]
use super::laws::{
    ends_disposal, fiber_sound, has_gone, is_over, is_sound, is_told, is_unlisted, keeps_faith,
    lemma_steps_soundly, lifecycle_step,
};
#[allow(unused_imports)]
use super::scope::DisposalStart;
#[allow(unused_imports)]
use super::Runtime;
#[allow(unused_imports)]
use crate::error::CordisError;
#[allow(unused_imports)]
use crate::ids::FiberId;
#[allow(unused_imports)]
use crate::state::FiberState;
use vstd::prelude::*;

verus! {

/// Whether every runtime of `course` comes from the one before it by one step of a lifecycle.
pub open spec fn is_lifecycle(course: Seq<Runtime>) -> bool {
    &&& forall|k: int| 0 <= k < course.len() ==> (#[trigger] course[k]).wf()
    &&& forall|k: int|
        #![trigger course[k]]
        0 < k < course.len() ==> lifecycle_step(course[k - 1], course[k])
}

/// Whether the fiber is there from the second runtime of `course` up to the one at `n`.
pub open spec fn stays_there(course: Seq<Runtime>, fiber: FiberId, n: int) -> bool {
    forall|k: int| 1 <= k <= n ==> (#[trigger] course[k]).fibers@.dom().contains(fiber.raw)
}

proof fn lemma_courses_stay_sound(course: Seq<Runtime>, n: int)
    requires
        is_lifecycle(course),
        0 <= n < course.len(),
        is_sound(course[0]),
    ensures
        is_sound(course[n]),
    decreases n,
{
    if n > 0 {
        lemma_courses_stay_sound(course, n - 1);
        assert(course[n - 1].wf());
        assert(lifecycle_step(course[n - 1], course[n]));
        lemma_steps_soundly(course[n - 1], course[n]);
    }
}

proof fn lemma_never_waits_again(
    course: Seq<Runtime>,
    fiber: FiberId,
    persistent: bool,
    allow: bool,
    start: DisposalStart,
    n: int,
)
    requires
        is_lifecycle(course),
        1 <= n < course.len(),
        is_sound(course[0]),
        asks_to_go(course[0], course[1], fiber, false, persistent, allow, Ok(start)),
        stays_there(course, fiber, n),
    ensures
        !course[n].fibers@[fiber.raw].disposal.wait_for_dependencies,
    decreases n,
{
    assert(course[n].fibers@.dom().contains(fiber.raw));
    if n > 1 {
        lemma_never_waits_again(course, fiber, persistent, allow, start, n - 1);
        lemma_courses_stay_sound(course, n - 1);
        assert(course[n - 1].wf());
        assert(course[n - 1].fibers@.dom().contains(fiber.raw));
        assert(lifecycle_step(course[n - 1], course[n]));
        lemma_steps_soundly(course[n - 1], course[n]);
        assert(keeps_faith(course[n - 1], course[n]));
    }
}

/// A permanent disposal dominates one that waits for dependencies. Once a fiber was asked to
/// go for good, it does not wait for its dependencies again, whatever steps are taken, and
/// whether a disposal that was to leave it waiting was on its way or over. If it can be read
/// that its disposal was not cut off, the fiber is disposed, and out of its scope unless a
/// worker broke off; so it is where the disposal is said to have succeeded. The fiber may be
/// reclaimed meanwhile; nothing is said of it then.
pub proof fn law_permanent_disposal_dominates(
    course: Seq<Runtime>,
    fiber: FiberId,
    persistent: bool,
    allow: bool,
    start: DisposalStart,
    n: int,
)
    requires
        is_lifecycle(course),
        1 <= n < course.len(),
        is_sound(course[0]),
        asks_to_go(course[0], course[1], fiber, false, persistent, allow, Ok(start)),
        stays_there(course, fiber, n),
    ensures
        ({
            let record = course[n].fibers@[fiber.raw];
            &&& !record.disposal.wait_for_dependencies
            &&& !(record.state is WaitingDependencies)
            &&& is_over(record) ==> record.state is Disposed
            &&& has_gone(record) ==> is_unlisted(course[n], fiber.raw)
            &&& is_told(record) ==> record.state is Disposed && is_unlisted(course[n], fiber.raw)
        }),
        forall|result: Result<(), CordisError>, target: Option<FiberState>|
            n >= 2 && !is_worker_terminal(result) && #[trigger] ends_disposal(
                course[n - 1],
                course[n],
                fiber,
                result,
                target,
                false,
            ) ==> course[n].fibers@[fiber.raw].state is Disposed && is_unlisted(
                course[n],
                fiber.raw,
            ),
{
    lemma_never_waits_again(course, fiber, persistent, allow, start, n);
    lemma_courses_stay_sound(course, n);
    assert(course[n].fibers@.dom().contains(fiber.raw));
    assert(fiber_sound(course[n], fiber.raw));
}

} // verus!
