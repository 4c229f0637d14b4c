use vstd::prelude::*;

verus! {

use crate::errors::ConfigurationError;
use crate::parse::{dec_value, is_u64_numeral, numeral_digits, parse_u64};

/// One record of the trigger configuration: which component to invoke and,
/// as written in the configuration, how many seconds to wait between
/// invocations.
#[derive(Clone, Debug)]
pub struct TimerTriggerConfig {
    pub component: String,
    pub interval_secs: String,
}

/// The mathematical content of one configuration record.
pub ghost struct ConfigView {
    pub component: Seq<char>,
    pub interval_secs: Seq<char>,
}

impl View for TimerTriggerConfig {
    type V = ConfigView;

    open spec fn view(&self) -> ConfigView {
        ConfigView { component: self.component@, interval_secs: self.interval_secs@ }
    }
}

/// The records of a configuration, by their mathematical content.
pub open spec fn views_of(configs: Seq<TimerTriggerConfig>) -> Seq<ConfigView> {
    configs.map_values(|c: TimerTriggerConfig| c@)
}

/// The speedup named by the optional metadata value: absent means the
/// default of one.
pub open spec fn spec_speedup_value(s: Option<Seq<char>>) -> int {
    match s {
        None => 1,
        Some(t) => dec_value(numeral_digits(t)),
    }
}

/// The optional metadata value names a positive integer (or is absent).
pub open spec fn speedup_valid(s: Option<Seq<char>>) -> bool {
    match s {
        None => true,
        Some(t) => is_u64_numeral(t) && dec_value(numeral_digits(t)) >= 1,
    }
}

/// The view of an optional owned string.
pub open spec fn opt_string_view(s: Option<String>) -> Option<Seq<char>> {
    match s {
        None => None,
        Some(t) => Some(t@),
    }
}

/// Parses the process-wide speedup factor. An absent value is the default
/// of one; a present value must spell a positive integer.
pub fn parse_speedup(speedup: &Option<String>) -> (r: Result<u64, ConfigurationError>)
    ensures
        speedup_valid(opt_string_view(*speedup)) ==> (r matches Ok(v) && v
            == spec_speedup_value(opt_string_view(*speedup))),
        !speedup_valid(opt_string_view(*speedup)) ==> r == Err::<u64, _>(
            ConfigurationError::InvalidSpeedup,
        ),
{
    match speedup {
        None => Ok(1),
        Some(s) => match parse_u64(s.as_str()) {
            Some(v) => if v >= 1 {
                Ok(v)
            } else {
                Err(ConfigurationError::InvalidSpeedup)
            },
            None => Err(ConfigurationError::InvalidSpeedup),
        },
    }
}

/// The real wait between two ticks of one component, in whole milliseconds:
/// the configured seconds scaled to milliseconds and divided by the
/// process-wide speedup factor, rounded toward zero.
pub open spec fn spec_effective_interval_ms(interval_secs: int, speedup: int) -> int {
    interval_secs * 1000 / speedup
}

/// Decides whether an interval's millisecond count fits a `u64`.
pub fn interval_millis_fit(interval_secs: u64) -> (b: bool)
    ensures
        b <==> interval_secs * 1000 <= u64::MAX,
{
    proof {
        vstd::arithmetic::div_mod::lemma_fundamental_div_mod(u64::MAX as int, 1000);
        assert(interval_secs <= u64::MAX / 1000 ==> interval_secs * 1000 <= u64::MAX)
            by (nonlinear_arith)
            requires
                u64::MAX == 1000 * (u64::MAX / 1000) + u64::MAX % 1000,
                u64::MAX % 1000 >= 0,
        ;
        assert(interval_secs > u64::MAX / 1000 ==> interval_secs * 1000 > u64::MAX)
            by (nonlinear_arith)
            requires
                u64::MAX == 1000 * (u64::MAX / 1000) + u64::MAX % 1000,
                u64::MAX % 1000 < 1000,
        ;
    }
    interval_secs <= u64::MAX / 1000
}

/// Computes the effective interval in milliseconds, exactly
/// `interval_secs * 1000 / speedup`.
pub fn effective_interval_ms(interval_secs: u64, speedup: u64) -> (ms: u64)
    requires
        speedup >= 1,
        interval_secs * 1000 <= u64::MAX,
    ensures
        ms == spec_effective_interval_ms(interval_secs as int, speedup as int),
{
    interval_secs * 1000 / speedup
}

/// One row of the read-only trigger registry: a component and the effective
/// wait between its ticks, in milliseconds.
#[derive(Clone, Debug, PartialEq, Eq)]
pub struct RegistryEntry {
    pub component: String,
    pub interval_ms: u64,
}

/// The mathematical content of one registry row.
pub ghost struct RegistryEntryView {
    pub component: Seq<char>,
    pub interval_ms: u64,
}

impl View for RegistryEntry {
    type V = RegistryEntryView;

    open spec fn view(&self) -> RegistryEntryView {
        RegistryEntryView { component: self.component@, interval_ms: self.interval_ms }
    }
}

/// The mapping from component to effective interval, built once before any
/// timer loop starts and read-only thereafter.
#[derive(Clone, Debug, PartialEq, Eq)]
pub struct TriggerRegistry {
    pub entries: Vec<RegistryEntry>,
}

impl View for TriggerRegistry {
    type V = Seq<RegistryEntryView>;

    open spec fn view(&self) -> Seq<RegistryEntryView> {
        self.entries@.map_values(|e: RegistryEntry| e@)
    }
}

impl TriggerRegistry {
    /// A well-formed registry names at least one component, waits at least
    /// one millisecond between any component's ticks, and names no
    /// component twice.
    pub open spec fn wf(self) -> bool {
        &&& self@.len() > 0
        &&& forall|i: int| 0 <= i < self@.len() ==> #[trigger] self@[i].interval_ms >= 1
        &&& forall|i: int, j: int|
            0 <= i < j < self@.len() ==> self@[i].component != self@[j].component
    }

    /// How many components are registered.
    pub fn len(&self) -> (n: usize)
        ensures
            n == self@.len(),
    {
        self.entries.len()
    }
}

/// The configured seconds a record names.
pub open spec fn spec_interval_secs(c: ConfigView) -> int {
    dec_value(numeral_digits(c.interval_secs))
}

/// The record's interval is a decimal numeral naming a positive number of
/// seconds whose millisecond count fits a `u64`.
pub open spec fn interval_valid(c: ConfigView) -> bool {
    &&& is_u64_numeral(c.interval_secs)
    &&& spec_interval_secs(c) >= 1
    &&& spec_interval_secs(c) * 1000 <= u64::MAX
}

/// No earlier record names the same component as record `k`.
pub open spec fn component_fresh(views: Seq<ConfigView>, k: int) -> bool {
    forall|j: int| 0 <= j < k ==> (#[trigger] views[j].component) != views[k].component
}

/// What a left-to-right scan of the configuration finds wrong, if anything.
pub ghost enum BuildIssue {
    Empty,
    BadInterval { index: int },
    ZeroEffective { index: int },
    Duplicate { index: int },
}

/// The problem with record `k` alone, checked in the order the scan checks:
/// interval first, then the effective interval, then freshness.
pub open spec fn issue_at(views: Seq<ConfigView>, speedup: int, k: int) -> Option<BuildIssue> {
    if !interval_valid(views[k]) {
        Some(BuildIssue::BadInterval { index: k })
    } else if spec_effective_interval_ms(spec_interval_secs(views[k]), speedup) < 1 {
        Some(BuildIssue::ZeroEffective { index: k })
    } else if !component_fresh(views, k) {
        Some(BuildIssue::Duplicate { index: k })
    } else {
        None
    }
}

/// The first problem at or after record `k`.
pub open spec fn first_issue_from(views: Seq<ConfigView>, speedup: int, k: int) -> Option<
    BuildIssue,
>
    decreases views.len() - k,
{
    if k < 0 || k >= views.len() {
        None
    } else if issue_at(views, speedup, k) is Some {
        issue_at(views, speedup, k)
    } else {
        first_issue_from(views, speedup, k + 1)
    }
}

/// The first problem a scan of the whole configuration finds: an empty
/// configuration, or the first offending record.
pub open spec fn first_issue(views: Seq<ConfigView>, speedup: int) -> Option<BuildIssue> {
    if views.len() == 0 {
        Some(BuildIssue::Empty)
    } else {
        first_issue_from(views, speedup, 0)
    }
}

/// Skipping records without a problem does not change the first problem.
proof fn lemma_first_issue_skip(views: Seq<ConfigView>, speedup: int, k: int)
    requires
        0 <= k <= views.len(),
        forall|j: int| 0 <= j < k ==> #[trigger] issue_at(views, speedup, j) is None,
    ensures
        first_issue_from(views, speedup, 0) == first_issue_from(views, speedup, k),
    decreases k,
{
    if k > 0 {
        lemma_first_issue_skip(views, speedup, k - 1);
    }
}

impl TriggerRegistry {
    /// Builds the registry from the configuration records and the already
    /// validated speedup factor. Succeeds exactly when a scan of the
    /// records finds no problem; otherwise reports the first problem found,
    /// naming the offending component. On success every record becomes one
    /// row whose interval is exactly the record's seconds scaled to
    /// milliseconds and divided by the speedup.
    pub fn build(configs: &Vec<TimerTriggerConfig>, speedup: u64) -> (r: Result<
        TriggerRegistry,
        ConfigurationError,
    >)
        requires
            speedup >= 1,
        ensures
            ({
                let views = views_of(configs@);
                match first_issue(views, speedup as int) {
                    None => r matches Ok(reg) && reg.wf() && reg@.len() == views.len() && (forall|
                        i: int,
                    |
                        0 <= i < views.len() ==> (#[trigger] reg@[i]).component
                            == views[i].component && reg@[i].interval_ms
                            == spec_effective_interval_ms(
                            spec_interval_secs(views[i]),
                            speedup as int,
                        )),
                    Some(BuildIssue::Empty) => r == Err::<TriggerRegistry, _>(
                        ConfigurationError::EmptyRegistry,
                    ),
                    Some(BuildIssue::BadInterval { index }) => r matches Err(
                        ConfigurationError::InvalidInterval { component },
                    ) && component@ == views[index].component,
                    Some(BuildIssue::ZeroEffective { index }) => r matches Err(
                        ConfigurationError::ZeroEffectiveInterval { component },
                    ) && component@ == views[index].component,
                    Some(BuildIssue::Duplicate { index }) => r matches Err(
                        ConfigurationError::DuplicateComponent { component },
                    ) && component@ == views[index].component,
                }
            }),
    {
        let ghost views = views_of(configs@);
        if configs.len() == 0 {
            return Err(ConfigurationError::EmptyRegistry);
        }
        let mut entries: Vec<RegistryEntry> = Vec::new();
        let mut k: usize = 0;
        while k < configs.len()
            invariant
                speedup >= 1,
                k <= configs.len(),
                views == views_of(configs@),
                views.len() == configs@.len(),
                entries@.len() == k,
                forall|j: int| 0 <= j < k ==> #[trigger] issue_at(views, speedup as int, j) is None,
                forall|i: int|
                    0 <= i < k ==> (#[trigger] entries@[i])@.component == views[i].component
                        && entries@[i]@.interval_ms == spec_effective_interval_ms(
                        spec_interval_secs(views[i]),
                        speedup as int,
                    ) && entries@[i]@.interval_ms >= 1,
            decreases configs.len() - k,
        {
            let c = &configs[k];
            proof {
                assert(views[k as int] == c@);
            }
            let secs = match parse_u64(c.interval_secs.as_str()) {
                Some(secs) => secs,
                None => {
                    proof {
                        lemma_first_issue_skip(views, speedup as int, k as int);
                    }
                    return Err(ConfigurationError::InvalidInterval {
                        component: c.component.clone(),
                    });
                },
            };
            if secs == 0 || !interval_millis_fit(secs) {
                proof {
                    lemma_first_issue_skip(views, speedup as int, k as int);
                }
                return Err(ConfigurationError::InvalidInterval { component: c.component.clone() });
            }
            let ms = effective_interval_ms(secs, speedup);
            if ms == 0 {
                proof {
                    lemma_first_issue_skip(views, speedup as int, k as int);
                }
                return Err(ConfigurationError::ZeroEffectiveInterval {
                    component: c.component.clone(),
                });
            }
            let mut j: usize = 0;
            while j < entries.len()
                invariant
                    j <= entries.len(),
                    entries@.len() == k <= views.len(),
                    speedup >= 1,
                    views == views_of(configs@),
                    views.len() == configs@.len(),
                    k < configs@.len(),
                    views[k as int] == configs@[k as int]@,
                    c == &configs@[k as int],
                    interval_valid(views[k as int]),
                    spec_effective_interval_ms(spec_interval_secs(views[k as int]), speedup as int)
                        >= 1,
                    forall|i: int|
                        0 <= i < k ==> #[trigger] issue_at(views, speedup as int, i) is None,
                    forall|i: int|
                        0 <= i < k ==> (#[trigger] entries@[i])@.component == views[i].component,
                    forall|i: int| 0 <= i < j ==> (#[trigger] views[i].component) != c@.component,
                decreases entries.len() - j,
            {
                if entries[j].component == c.component {
                    proof {
                        assert(views[j as int].component == views[k as int].component);
                        assert(!component_fresh(views, k as int));
                        lemma_first_issue_skip(views, speedup as int, k as int);
                    }
                    return Err(ConfigurationError::DuplicateComponent {
                        component: c.component.clone(),
                    });
                }
                j = j + 1;
            }
            proof {
                assert(issue_at(views, speedup as int, k as int) is None);
            }
            entries.push(RegistryEntry { component: c.component.clone(), interval_ms: ms });
            k = k + 1;
        }
        proof {
            lemma_first_issue_skip(views, speedup as int, configs@.len() as int);
            assert(first_issue_from(views, speedup as int, 0) is None);
        }
        let reg = TriggerRegistry { entries };
        proof {
            assert forall|i: int, j: int| 0 <= i < j < reg@.len() implies reg@[i].component
                != reg@[j].component by {
                assert(issue_at(views, speedup as int, j) is None);
                assert(component_fresh(views, j));
            }
        }
        Ok(reg)
    }
}

} // verus!
