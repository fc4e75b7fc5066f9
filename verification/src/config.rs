//! Limits of a runtime.
use crate::error::CordisError;
use vstd::prelude::*;

verus! {

/// Limits and grace periods. Periods are in milliseconds.
#[derive(Clone, Copy, Debug, PartialEq, Eq, Structural)]
pub struct RuntimeConfig {
    pub max_scopes: usize,
    pub max_scope_depth: usize,
    pub max_fibers: usize,
    pub max_tasks_per_fiber: usize,
    pub max_interned_symbols: usize,
    pub max_resolution_cache_entries: usize,
    pub max_concurrent_invocations: usize,
    pub task_grace_ms: u64,
    pub shutdown_grace_ms: u64,
}

/// One more than the largest symbol.
pub const SYMBOL_SPACE: u64 = 0x1_0000_0000;

/// The number of values an arena has ids for.
pub const HANDLE_SPACE: u64 = 0xFFFF_FFFE;

impl RuntimeConfig {
    /// The limits of a runtime that is made without any.
    pub open spec fn standard() -> RuntimeConfig {
        RuntimeConfig {
            max_scopes: 4096,
            max_scope_depth: 64,
            max_fibers: 4096,
            max_tasks_per_fiber: 256,
            max_interned_symbols: 4096,
            max_resolution_cache_entries: 4096,
            max_concurrent_invocations: 256,
            task_grace_ms: 5000,
            shutdown_grace_ms: 30000,
        }
    }

    /// Whether every limit fits the ids it limits, and the root scope fits.
    pub open spec fn is_valid(&self) -> bool {
        &&& 1 <= self.max_scopes <= HANDLE_SPACE
        &&& self.max_fibers <= HANDLE_SPACE
        &&& self.max_interned_symbols < SYMBOL_SPACE
    }

    /// What is wrong with the first limit that does not fit.
    pub open spec fn problem(&self) -> Seq<char> {
        if self.max_scopes == 0 {
            "max_scopes leaves no root scope"@
        } else if self.max_scopes > HANDLE_SPACE {
            "max_scopes exceeds the ScopeId space"@
        } else if self.max_fibers > HANDLE_SPACE {
            "max_fibers exceeds the FiberId space"@
        } else {
            "max_interned_symbols exceeds the ServiceSymbol ID space"@
        }
    }

    /// Refuses limits that do not fit.
    pub fn validate(&self) -> (result: Result<(), CordisError>)
        ensures
            match result {
                Ok(()) => self.is_valid(),
                Err(error) => {
                    &&& !self.is_valid()
                    &&& error matches CordisError::InvalidRuntimeConfig(message)
                    &&& message@ == self.problem()
                },
            },
    {
        if self.max_scopes == 0 {
            return Err(
                CordisError::InvalidRuntimeConfig("max_scopes leaves no root scope".to_owned()),
            );
        }
        if self.max_scopes as u64 > HANDLE_SPACE {
            return Err(
                CordisError::InvalidRuntimeConfig(
                    "max_scopes exceeds the ScopeId space".to_owned(),
                ),
            );
        }
        if self.max_fibers as u64 > HANDLE_SPACE {
            return Err(
                CordisError::InvalidRuntimeConfig(
                    "max_fibers exceeds the FiberId space".to_owned(),
                ),
            );
        }
        if self.max_interned_symbols as u64 >= SYMBOL_SPACE {
            return Err(
                CordisError::InvalidRuntimeConfig(
                    "max_interned_symbols exceeds the ServiceSymbol ID space".to_owned(),
                ),
            );
        }
        Ok(())
    }
}

impl Default for RuntimeConfig {
    fn default() -> (config: Self)
        ensures
            config == Self::standard(),
    {
        RuntimeConfig {
            max_scopes: 4096,
            max_scope_depth: 64,
            max_fibers: 4096,
            max_tasks_per_fiber: 256,
            max_interned_symbols: 4096,
            max_resolution_cache_entries: 4096,
            max_concurrent_invocations: 256,
            task_grace_ms: 5000,
            shutdown_grace_ms: 30000,
        }
    }
}

/// Limits are refused only where ids would run out before them, or where not even the root
/// scope fits; what a runtime is made with without any is not refused.
pub proof fn law_valid_limits_fit_their_ids(config: RuntimeConfig)
    ensures
        config.is_valid() <==> config.max_scopes > 0 && config.max_scopes < u32::MAX
            && config.max_fibers < u32::MAX && config.max_interned_symbols <= u32::MAX,
        RuntimeConfig::standard().is_valid(),
{
}

} // verus!
