//! Logging and diagnostics configuration. These are plain option bundles: a
//! write-only side channel that never influences control flow in the core.

use vstd::prelude::*;

verus! {

/// Which validation-layer messages the embedder wants reported.
#[derive(Debug, Clone, Copy, PartialEq, Eq, Structural)]
pub struct ValidationLayerLogConfig {
    pub log_errors: bool,
    pub log_warnings: bool,
    pub log_verbose_info: bool,
}

/// What the allocator should log about its own bookkeeping.
#[derive(Debug, Clone, Copy, PartialEq, Eq, Structural)]
pub struct AllocatorLogConfig {
    pub log_memory_information: bool,
    pub log_leaks_on_shutdown: bool,
    pub store_stack_traces: bool,
    pub log_allocations: bool,
    pub log_frees: bool,
    pub log_stack_traces: bool,
}

/// Top-level logging configuration handed to `compute_init`.
#[derive(Debug, Clone, Copy, PartialEq, Eq, Structural)]
pub struct LogConfig {
    pub validation_config: Option<ValidationLayerLogConfig>,
    pub allocator_config: Option<AllocatorLogConfig>,
}

/// The set of validation-message severities that a configuration enables.
#[derive(Debug, Clone, Copy, PartialEq, Eq, Structural)]
pub struct DebugMessageSeverity {
    pub errors: bool,
    pub warnings: bool,
    pub info: bool,
    pub verbose: bool,
}

/// Computes which message severities a validation-layer configuration asks
/// for: errors and warnings each follow their own flag, and the verbose flag
/// enables both informational and verbose messages. `None` enables nothing.
pub fn debug_message_severity(config: Option<ValidationLayerLogConfig>) -> (r: DebugMessageSeverity)
    ensures
        r.errors == (config matches Some(c) && c.log_errors),
        r.warnings == (config matches Some(c) && c.log_warnings),
        r.info == (config matches Some(c) && c.log_verbose_info),
        r.verbose == (config matches Some(c) && c.log_verbose_info),
{
    match config {
        Some(c) => DebugMessageSeverity {
            errors: c.log_errors,
            warnings: c.log_warnings,
            info: c.log_verbose_info,
            verbose: c.log_verbose_info,
        },
        None => DebugMessageSeverity { errors: false, warnings: false, info: false, verbose: false },
    }
}

} // verus!
