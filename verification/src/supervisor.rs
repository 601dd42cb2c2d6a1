//! Startup planning: which background tasks to launch and how the dispatcher
//! should treat new containers, decided from the two optional limits.

use vstd::prelude::*;

verus! {

/// What the process should launch and warn about, given its configuration.
///
/// The flags are decided once at startup; the supervisor wires tasks
/// accordingly and never revisits the choice.
pub struct StartupPlan {
    /// Launch the scheduler loop (a quota is set and positive).
    pub run_scheduler: bool,
    /// Launch the cleaner loop (a retention age is set).
    pub run_cleaner: bool,
    /// The dispatcher starts containers inline right after creating them
    /// (no quota is set).
    pub inline_start: bool,
    /// Warn that containers will never be started (quota set to zero).
    pub warn_never_start: bool,
    /// Warn that exited containers are kept indefinitely (no retention age).
    pub warn_keep_forever: bool,
}

/// Where the filter source text comes from at startup.
pub enum FilterSource {
    /// Read it from the named file; the carried flag warns that a positional
    /// argument was also given and is ignored.
    File(bool),
    /// Use the positional argument.
    Argument,
    /// No source was given: fall back to the bundled default, with a warning.
    Default,
}

/// Decide where the filter source comes from: a file takes precedence over a
/// positional argument (with a warning when both were given), and without
/// either the bundled default is used.
pub fn choose_filter_source(has_file: bool, has_argument: bool) -> (c: FilterSource)
    ensures
        has_file ==> (c matches FilterSource::File(warn) && warn == has_argument),
        !has_file && has_argument ==> c is Argument,
        !has_file && !has_argument ==> c is Default,
{
    if has_file {
        FilterSource::File(has_argument)
    } else if has_argument {
        FilterSource::Argument
    } else {
        FilterSource::Default
    }
}

/// Decide the startup plan from the optional concurrency quota and the
/// optional retention age for exited containers.
pub fn startup_plan(max_concurrent: Option<u16>, keep_exited_for: Option<u32>) -> (p: StartupPlan)
    ensures
        p.run_scheduler == (max_concurrent is Some && max_concurrent->0 > 0),
        p.run_cleaner == keep_exited_for is Some,
        p.inline_start == max_concurrent is None,
        p.warn_never_start == (max_concurrent is Some && max_concurrent->0 == 0),
        p.warn_keep_forever == keep_exited_for is None,
{
    StartupPlan {
        run_scheduler: match max_concurrent {
            Some(m) => m > 0,
            None => false,
        },
        run_cleaner: keep_exited_for.is_some(),
        inline_start: max_concurrent.is_none(),
        warn_never_start: match max_concurrent {
            Some(m) => m == 0,
            None => false,
        },
        warn_keep_forever: keep_exited_for.is_none(),
    }
}

} // verus!
