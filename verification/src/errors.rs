use vstd::prelude::*;

verus! {

/// Why scheduler construction was refused. All of these are startup
/// failures: no timer loop has been started when one is returned.
#[derive(Clone, Debug, PartialEq, Eq)]
pub enum ConfigurationError {
    /// The trigger configuration named no component at all.
    EmptyRegistry,
    /// The process-wide speedup value was not a positive decimal integer.
    InvalidSpeedup,
    /// A component's interval was not a decimal integer number of seconds,
    /// was zero, or was too large for the millisecond arithmetic.
    InvalidInterval { component: String },
    /// A component's interval divided by the speedup left no whole
    /// millisecond to wait between ticks.
    ZeroEffectiveInterval { component: String },
    /// Two configuration records named the same component.
    DuplicateComponent { component: String },
}

} // verus!
