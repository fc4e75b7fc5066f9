//! Handles of the things a runtime owns.
use crate::arena::INDEX_SPAN;
#[allow(unused_imports)]
use crate::arena::{id_index, id_version};
use crate::text::{concat, decimal_text};
#[allow(unused_imports)]
use crate::text::decimal;
use vstd::prelude::*;

verus! {

/// Scope handle.
#[derive(Clone, Copy, Debug, PartialEq, Eq, Structural, Hash)]
pub struct ScopeId {
    pub raw: u64,
}

/// Fiber handle.
#[derive(Clone, Copy, Debug, PartialEq, Eq, Structural, Hash)]
pub struct FiberId {
    pub raw: u64,
}

/// Logical plugin handle.
#[derive(Clone, Copy, Debug, PartialEq, Eq, Structural, Hash)]
pub struct PluginId {
    pub raw: u64,
}

/// Owned task handle.
#[derive(Clone, Copy, Debug, PartialEq, Eq, Structural, Hash)]
pub struct TaskId {
    pub raw: u64,
}

/// Event handler handle.
#[derive(Clone, Copy, Debug, PartialEq, Eq, Structural, Hash)]
pub struct HandlerId {
    pub raw: u64,
}

/// Invocation handler handle.
#[derive(Clone, Copy, Debug, PartialEq, Eq, Structural, Hash)]
pub struct InvocationHandlerId {
    pub raw: u64,
}

/// Invocation middleware handle.
#[derive(Clone, Copy, Debug, PartialEq, Eq, Structural, Hash)]
pub struct InvocationMiddlewareId {
    pub raw: u64,
}

/// Effect handle.
#[derive(Clone, Copy, Debug, PartialEq, Eq, Structural, Hash)]
pub struct EffectId {
    pub raw: u64,
}

/// Identity of one activation of a plugin.
#[derive(Clone, Copy, Debug, PartialEq, Eq, Structural, Hash)]
pub struct GenerationId {
    pub raw: u64,
}

/// Interned service identity.
#[derive(Clone, Copy, Debug, PartialEq, Eq, Structural, Hash)]
pub struct ServiceSymbol {
    pub index: u32,
}

impl GenerationId {
    /// The generation as a number.
    pub fn get(&self) -> (raw: u64)
        ensures
            raw == self.raw,
    {
        self.raw
    }
}

/// How the arena handle `raw` of the kind `name` reads: its slot and version.
pub open spec fn handle_text(name: Seq<char>, raw: u64) -> Seq<char> {
    name + "("@ + decimal(id_index(raw) as nat) + "v"@ + decimal(id_version(raw) as nat) + ")"@
}

fn handle_string(name: &str, raw: u64) -> (text: String)
    ensures
        text@ == handle_text(name@, raw),
{
    let mut text = concat(name, "(");
    text.append(decimal_text(raw % INDEX_SPAN).as_str());
    text.append("v");
    text.append(decimal_text(raw / INDEX_SPAN).as_str());
    text.append(")");
    text
}

impl ScopeId {
    pub open spec fn text(self) -> Seq<char> {
        handle_text("ScopeId"@, self.raw)
    }

    /// How the handle reads in messages.
    pub fn debug_text(&self) -> (text: String)
        ensures
            text@ == self.text(),
    {
        handle_string("ScopeId", self.raw)
    }
}

impl FiberId {
    pub open spec fn text(self) -> Seq<char> {
        handle_text("FiberId"@, self.raw)
    }

    /// How the handle reads in messages.
    pub fn debug_text(&self) -> (text: String)
        ensures
            text@ == self.text(),
    {
        handle_string("FiberId", self.raw)
    }
}

} // verus!
