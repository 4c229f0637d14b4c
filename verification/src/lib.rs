//! A fixed-interval repeater over a set of registered components.
//!
//! The library holds the verified core of a periodic scheduler: parsing and
//! validation of per-component intervals and the process-wide speedup factor,
//! construction of the read-only trigger registry, the per-component timer
//! loop as a state machine, and the shutdown coordinator. The surrounding
//! process (argument handling, the sandbox engine, the async runtime) drives
//! these state machines and performs the actions they emit.

pub mod config;
pub mod errors;
pub mod parse;
pub mod process;
pub mod scheduler;

use vstd::prelude::*;

verus! {

use crate::config::{
    first_issue, opt_string_view, spec_effective_interval_ms, spec_interval_secs,
    spec_speedup_value, speedup_valid, views_of, BuildIssue, TimerTriggerConfig, TriggerRegistry,
};
use crate::errors::ConfigurationError;
use crate::scheduler::{Scheduler, UnitPhase};

/// Builds the ready-to-run scheduler straight from the configuration
/// records and the optional speedup value, validating everything on the
/// way: the speedup first, then every record, left to right. Exactly one
/// loop per record comes back, each owing its first tick and waiting its
/// own effective interval — the record's seconds scaled to milliseconds and
/// divided by the speedup — between ticks. Any problem aborts startup with
/// the matching `ConfigurationError` before any loop exists.
pub fn build_scheduler(configs: &Vec<TimerTriggerConfig>, speedup: &Option<String>) -> (r: Result<
    Scheduler,
    ConfigurationError,
>)
    ensures
        ({
            let sv = opt_string_view(*speedup);
            let views = views_of(configs@);
            if !speedup_valid(sv) {
                r == Err::<Scheduler, _>(ConfigurationError::InvalidSpeedup)
            } else {
                match first_issue(views, spec_speedup_value(sv)) {
                    None => r matches Ok(s) && s@.len() == configs@.len() && forall|i: int|
                        0 <= i < configs@.len() ==> (#[trigger] s@[i]).component
                            == views[i].component && s@[i].interval_ms
                            == spec_effective_interval_ms(
                            spec_interval_secs(views[i]),
                            spec_speedup_value(sv),
                        ) && s@[i].phase == UnitPhase::Invoking,
                    Some(BuildIssue::Empty) => r == Err::<Scheduler, _>(
                        ConfigurationError::EmptyRegistry,
                    ),
                    Some(BuildIssue::BadInterval { index }) => r matches Err(
                        ConfigurationError::InvalidInterval { component },
                    ) && component@ == views[index].component,
                    Some(BuildIssue::ZeroEffective { index }) => r matches Err(
                        ConfigurationError::ZeroEffectiveInterval { component },
                    ) && component@ == views[index].component,
                    Some(BuildIssue::Duplicate { index }) => r matches Err(
                        ConfigurationError::DuplicateComponent { component },
                    ) && component@ == views[index].component,
                }
            }
        }),
{
    let speedup_factor = match crate::config::parse_speedup(speedup) {
        Ok(v) => v,
        Err(e) => {
            return Err(e);
        },
    };
    let registry = match TriggerRegistry::build(configs, speedup_factor) {
        Ok(reg) => reg,
        Err(e) => {
            return Err(e);
        },
    };
    match Scheduler::new(&registry) {
        Ok(s) => Ok(s),
        Err(e) => Err(e),
    }
}

} // verus!
