//! Logical plugins and the generations of their activations.
use crate::error::CordisError;
use crate::ids::{GenerationId, PluginId};
use std::collections::HashMap;
use vstd::prelude::*;

verus! {

broadcast use vstd::std_specs::hash::group_hash_axioms;

/// The logical plugins, each with the number of its fibers.
pub struct PluginRegistry {
    pub plugins: HashMap<u64, usize>,
    pub next_plugin: u64,
    pub next_generation: u64,
}

impl View for PluginRegistry {
    type V = Map<u64, usize>;

    open spec fn view(&self) -> Map<u64, usize> {
        self.plugins@
    }
}

/// A logical plugin is added.
pub open spec fn creates_plugin(
    before: PluginRegistry,
    after: PluginRegistry,
    plugin: Result<PluginId, CordisError>,
) -> bool {
    &&& after.next_generation == before.next_generation
    &&& match plugin {
        Ok(plugin) => {
            &&& plugin.raw == before.next_plugin
            &&& !before@.dom().contains(plugin.raw)
            &&& after@ == before@.insert(plugin.raw, 0)
            &&& after.next_plugin == before.next_plugin + 1
        },
        Err(error) => {
            &&& before.next_plugin == u64::MAX
            &&& error matches CordisError::Invariant(message)
            &&& message@ == "plugin handles are used up"@
            &&& after == before
        },
    }
}

/// One more fiber of a plugin is counted.
pub open spec fn attaches(
    before: PluginRegistry,
    after: PluginRegistry,
    plugin: PluginId,
    result: Result<(), CordisError>,
) -> bool {
    &&& after.next_plugin == before.next_plugin
    &&& after.next_generation == before.next_generation
    &&& match result {
        Ok(()) => {
            &&& before@.dom().contains(plugin.raw)
            &&& after@ == before@.insert(
                plugin.raw,
                (before@[plugin.raw] + 1) as usize,
            )
            &&& before@[plugin.raw] < usize::MAX
        },
        Err(error) => {
            &&& after == before
            &&& if before@.dom().contains(plugin.raw) {
                &&& before@[plugin.raw] == usize::MAX
                &&& error matches CordisError::Invariant(message)
                &&& message@ == "too many fibers of one plugin"@
            } else {
                error is PluginNotFound
            }
        },
    }
}

/// One fiber of a plugin less is counted.
pub open spec fn detaches(
    before: PluginRegistry,
    after: PluginRegistry,
    plugin: PluginId,
    result: Result<(), CordisError>,
) -> bool {
    &&& after.next_plugin == before.next_plugin
    &&& after.next_generation == before.next_generation
    &&& match result {
        Ok(()) => {
            &&& before@.dom().contains(plugin.raw)
            &&& before@[plugin.raw] > 0
            &&& after@ == before@.insert(
                plugin.raw,
                (before@[plugin.raw] - 1) as usize,
            )
        },
        Err(error) => {
            &&& after == before
            &&& if before@.dom().contains(plugin.raw) {
                &&& before@[plugin.raw] == 0
                &&& error matches CordisError::Invariant(message)
                &&& message@ == "plugin has no fiber to detach"@
            } else {
                error is PluginNotFound
            }
        },
    }
}

/// A plugin without fibers is forgotten.
pub open spec fn reclaims(
    before: PluginRegistry,
    after: PluginRegistry,
    plugin: PluginId,
) -> bool {
    &&& after.next_plugin == before.next_plugin
    &&& after.next_generation == before.next_generation
    &&& after@ == if before@.dom().contains(plugin.raw) && before@[plugin.raw]
        == 0 {
        before@.remove(plugin.raw)
    } else {
        before@
    }
}

impl PluginRegistry {
    /// Handles are handed out in order.
    pub open spec fn wf(&self) -> bool {
        forall|plugin: u64| #[trigger] self@.dom().contains(plugin) ==> plugin < self.next_plugin
    }

    pub fn new() -> (registry: Self)
        ensures
            registry.wf(),
            registry@ == Map::<u64, usize>::empty(),
            registry.next_plugin == 1,
            registry.next_generation == 1,
    {
        PluginRegistry { plugins: HashMap::new(), next_plugin: 1, next_generation: 1 }
    }

    /// Adds a logical plugin without fibers.
    pub fn create(&mut self) -> (plugin: Result<PluginId, CordisError>)
        requires
            old(self).wf(),
        ensures
            final(self).wf(),
            creates_plugin(*old(self), *final(self), plugin),
    {
        if self.next_plugin == u64::MAX {
            return Err(CordisError::Invariant("plugin handles are used up".to_owned()));
        }
        let raw = self.next_plugin;
        self.next_plugin = raw + 1;
        self.plugins.insert(raw, 0);
        proof {
            assert forall|other: u64| #[trigger] self@.dom().contains(other) implies other
                < self.next_plugin by {
                if other != raw {
                    assert(old(self)@.dom().contains(other));
                }
            }
        }
        Ok(PluginId { raw })
    }

    /// Hands out a generation that no activation had before.
    pub fn allocate_generation(&mut self, plugin: PluginId) -> (generation: Result<
        GenerationId,
        CordisError,
    >)
        requires
            old(self).wf(),
        ensures
            final(self).wf(),
            allocates_generation(*old(self), *final(self), plugin, generation),
    {
        if !self.plugins.contains_key(&plugin.raw) {
            return Err(CordisError::PluginNotFound);
        }
        if self.next_generation == u64::MAX {
            return Err(CordisError::Invariant("generations are used up".to_owned()));
        }
        let raw = self.next_generation;
        self.next_generation = raw + 1;
        Ok(GenerationId { raw })
    }

    /// Counts one more fiber of `plugin`.
    pub fn attach_fiber(&mut self, plugin: PluginId) -> (result: Result<(), CordisError>)
        requires
            old(self).wf(),
        ensures
            final(self).wf(),
            attaches(*old(self), *final(self), plugin, result),
    {
        match self.plugins.get(&plugin.raw) {
            Some(count) => {
                let count: usize = *count;
                if count == usize::MAX {
                    return Err(
                        CordisError::Invariant("too many fibers of one plugin".to_owned()),
                    );
                }
                self.plugins.insert(plugin.raw, count + 1);
                proof {
                    assert forall|other: u64| #[trigger] self@.dom().contains(other) implies other
                        < self.next_plugin by {
                        assert(old(self)@.dom().contains(other));
                    }
                }
                Ok(())
            },
            None => Err(CordisError::PluginNotFound),
        }
    }

    /// Counts one fiber of `plugin` less.
    pub fn detach_fiber(&mut self, plugin: PluginId) -> (result: Result<(), CordisError>)
        requires
            old(self).wf(),
        ensures
            final(self).wf(),
            detaches(*old(self), *final(self), plugin, result),
    {
        match self.plugins.get(&plugin.raw) {
            Some(count) => {
                let count: usize = *count;
                if count == 0 {
                    return Err(
                        CordisError::Invariant("plugin has no fiber to detach".to_owned()),
                    );
                }
                self.plugins.insert(plugin.raw, count - 1);
                proof {
                    assert forall|other: u64| #[trigger] self@.dom().contains(other) implies other
                        < self.next_plugin by {
                        assert(old(self)@.dom().contains(other));
                    }
                }
                Ok(())
            },
            None => Err(CordisError::PluginNotFound),
        }
    }

    /// Forgets `plugin` where it has no fibers.
    pub fn reclaim_if_dead(&mut self, plugin: PluginId)
        requires
            old(self).wf(),
        ensures
            final(self).wf(),
            reclaims(*old(self), *final(self), plugin),
    {
        let dead: bool = match self.plugins.get(&plugin.raw) {
            Some(count) => *count == 0,
            None => false,
        };
        if dead {
            self.plugins.remove(&plugin.raw);
            assert(self@ =~= old(self)@.remove(plugin.raw));
        }
    }

    /// The plugins after one of their fibers went: one fiber less, and gone with
    /// the last.
    pub open spec fn after_detach(plugins: Map<u64, usize>, plugin: PluginId) -> Map<u64, usize> {
        if !plugins.dom().contains(plugin.raw) {
            plugins
        } else if plugins[plugin.raw] <= 1 {
            plugins.remove(plugin.raw)
        } else {
            plugins.insert(plugin.raw, (plugins[plugin.raw] - 1) as usize)
        }
    }

    /// Lets go of one fiber of `plugin`, and of the plugin with its last fiber.
    pub fn detach(&mut self, plugin: PluginId)
        requires
            old(self).wf(),
        ensures
            final(self).wf(),
            final(self).next_plugin == old(self).next_plugin,
            final(self).next_generation == old(self).next_generation,
            final(self)@ == Self::after_detach(old(self)@, plugin),
    {
        let _detached = self.detach_fiber(plugin);
        self.reclaim_if_dead(plugin);
        assert(self@ =~= Self::after_detach(old(self)@, plugin));
    }
}

/// What a request for a generation comes to.
pub open spec fn allocates_generation(
    before: PluginRegistry,
    after: PluginRegistry,
    plugin: PluginId,
    generation: Result<GenerationId, CordisError>,
) -> bool {
    &&& after@ == before@
    &&& after.next_plugin == before.next_plugin
    &&& match generation {
        Ok(generation) => {
            &&& before@.dom().contains(plugin.raw)
            &&& generation.raw == before.next_generation
            &&& after.next_generation == before.next_generation + 1
        },
        Err(error) => {
            &&& after == before
            &&& if before@.dom().contains(plugin.raw) {
                &&& before.next_generation == u64::MAX
                &&& error matches CordisError::Invariant(message)
                &&& message@ == "generations are used up"@
            } else {
                error is PluginNotFound
            }
        },
    }
}

/// One call on a registry: a plugin gets a generation, or a call that hands out none.
pub open spec fn one_call(before: PluginRegistry, after: PluginRegistry) -> bool {
    ||| after.next_generation == before.next_generation
    ||| exists|plugin: PluginId, generation: Result<GenerationId, CordisError>| #[trigger]
        allocates_generation(before, after, plugin, generation)
}

/// Every registry of `course` comes from the one before it by one call.
pub open spec fn is_course(course: Seq<PluginRegistry>) -> bool {
    forall|k: int|
        #![trigger course[k]]
        0 < k < course.len() ==> one_call(course[k - 1], course[k])
}

proof fn lemma_generations_grow(course: Seq<PluginRegistry>, i: int, j: int)
    requires
        is_course(course),
        0 <= i <= j < course.len(),
    ensures
        course[i].next_generation <= course[j].next_generation,
    decreases j - i,
{
    if i < j {
        lemma_generations_grow(course, i, j - 1);
        assert(one_call(course[j - 1], course[j]));
    }
}

/// Generations are never reused: of two that were handed out in a course of calls, the
/// later is the greater, whatever plugins they are for.
pub proof fn law_generations_grow(
    course: Seq<PluginRegistry>,
    i: int,
    first: PluginId,
    earlier: GenerationId,
    j: int,
    second: PluginId,
    later: GenerationId,
)
    requires
        is_course(course),
        0 <= i < j < course.len() - 1,
        allocates_generation(course[i], course[i + 1], first, Ok(earlier)),
        allocates_generation(course[j], course[j + 1], second, Ok(later)),
    ensures
        later.raw > earlier.raw,
{
    lemma_generations_grow(course, i + 1, j);
}

/// A plugin is counted by its fibers: it is new and has none when it is added, one that comes
/// and goes leaves the count as it was, and it is forgotten exactly where none is left.
pub proof fn law_plugins_count_their_fibers(
    before: PluginRegistry,
    attached: PluginRegistry,
    detached: PluginRegistry,
    after: PluginRegistry,
    plugin: PluginId,
    result: Result<(), CordisError>,
    other: Result<(), CordisError>,
)
    requires
        attaches(before, attached, plugin, result),
        result is Ok,
        detaches(attached, detached, plugin, other),
        reclaims(detached, after, plugin),
    ensures
        attached@[plugin.raw] == before@[plugin.raw] + 1,
        other is Ok,
        detached@ == before@,
        before@[plugin.raw] > 0 ==> after@ == before@,
        before@[plugin.raw] == 0 ==> after@ == before@.remove(plugin.raw),
        after@ == PluginRegistry::after_detach(attached@, plugin),
        after.next_plugin == before.next_plugin,
        after.next_generation == before.next_generation,
{
    assert(detached@ =~= before@);
    assert(after@ =~= PluginRegistry::after_detach(attached@, plugin));
}

/// Plugins get handles that no plugin had.
pub proof fn law_plugins_are_new(
    before: PluginRegistry,
    after: PluginRegistry,
    plugin: PluginId,
    other: u64,
)
    requires
        before.wf(),
        creates_plugin(before, after, Ok(plugin)),
    ensures
        !before@.dom().contains(plugin.raw),
        after@.dom().contains(plugin.raw),
        after@[plugin.raw] == 0,
        before@.dom().contains(other) ==> after@.dom().contains(other) && after@[other]
            == before@[other] && other < plugin.raw,
        after.next_plugin > plugin.raw,
{
}

} // verus!
