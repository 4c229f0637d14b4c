use timer_trigger::config::{
    effective_interval_ms, interval_millis_fit, parse_speedup, TimerTriggerConfig, TriggerRegistry,
};
use timer_trigger::errors::ConfigurationError;
use timer_trigger::parse::parse_u64;

fn cfg(component: &str, interval_secs: &str) -> TimerTriggerConfig {
    TimerTriggerConfig {
        component: component.to_string(),
        interval_secs: interval_secs.to_string(),
    }
}

#[test]
fn parse_u64_plain_numerals() {
    assert_eq!(parse_u64("0"), Some(0));
    assert_eq!(parse_u64("10"), Some(10));
    assert_eq!(parse_u64("007"), Some(7));
    assert_eq!(parse_u64("+42"), Some(42));
    assert_eq!(parse_u64("18446744073709551615"), Some(u64::MAX));
}

#[test]
fn parse_u64_rejects_non_numerals() {
    assert_eq!(parse_u64(""), None);
    assert_eq!(parse_u64("+"), None);
    assert_eq!(parse_u64("-1"), None);
    assert_eq!(parse_u64("12a"), None);
    assert_eq!(parse_u64("1.5"), None);
    assert_eq!(parse_u64(" 3"), None);
}

#[test]
fn parse_u64_rejects_overflow() {
    assert_eq!(parse_u64("18446744073709551616"), None);
    assert_eq!(parse_u64("99999999999999999999999"), None);
}

#[test]
fn speedup_defaults_to_one() {
    assert_eq!(parse_speedup(&None), Ok(1));
}

#[test]
fn speedup_parses_positive_value() {
    assert_eq!(parse_speedup(&Some("2".to_string())), Ok(2));
    assert_eq!(parse_speedup(&Some("+3".to_string())), Ok(3));
}

#[test]
fn speedup_rejects_zero_and_garbage() {
    assert_eq!(
        parse_speedup(&Some("0".to_string())),
        Err(ConfigurationError::InvalidSpeedup)
    );
    assert_eq!(
        parse_speedup(&Some("fast".to_string())),
        Err(ConfigurationError::InvalidSpeedup)
    );
    assert_eq!(
        parse_speedup(&Some("".to_string())),
        Err(ConfigurationError::InvalidSpeedup)
    );
}

#[test]
fn effective_interval_is_exactly_the_ratio() {
    assert_eq!(effective_interval_ms(10, 2), 5000);
    assert_eq!(effective_interval_ms(10, 1), 10000);
    assert_eq!(effective_interval_ms(1, 3), 333);
    assert_eq!(effective_interval_ms(7, 2), 3500);
}

#[test]
fn interval_millis_fit_draws_the_line_at_the_largest_scalable_value() {
    assert!(interval_millis_fit(18446744073709551));
    assert!(!interval_millis_fit(18446744073709552));
    assert!(!interval_millis_fit(u64::MAX));
}

#[test]
fn registry_scales_and_divides_each_interval() {
    let configs = vec![cfg("fast", "10"), cfg("slow", "10")];
    let reg = TriggerRegistry::build(&configs, 2).unwrap();
    assert_eq!(reg.entries.len(), 2);
    assert_eq!(reg.entries[0].component, "fast");
    assert_eq!(reg.entries[0].interval_ms, 5000);
    assert_eq!(reg.entries[1].component, "slow");
    assert_eq!(reg.entries[1].interval_ms, 5000);
}

#[test]
fn registry_rejects_empty_configuration() {
    let configs: Vec<TimerTriggerConfig> = Vec::new();
    assert_eq!(
        TriggerRegistry::build(&configs, 1),
        Err(ConfigurationError::EmptyRegistry)
    );
}

#[test]
fn registry_rejects_zero_interval() {
    let configs = vec![cfg("a", "0")];
    assert_eq!(
        TriggerRegistry::build(&configs, 1),
        Err(ConfigurationError::InvalidInterval {
            component: "a".to_string()
        })
    );
}

#[test]
fn registry_rejects_unparseable_interval() {
    let configs = vec![cfg("a", "ten")];
    assert_eq!(
        TriggerRegistry::build(&configs, 1),
        Err(ConfigurationError::InvalidInterval {
            component: "a".to_string()
        })
    );
}

#[test]
fn registry_rejects_oversized_interval() {
    let configs = vec![cfg("a", "18446744073709552")];
    assert_eq!(
        TriggerRegistry::build(&configs, 1),
        Err(ConfigurationError::InvalidInterval {
            component: "a".to_string()
        })
    );
}

#[test]
fn registry_rejects_interval_rounded_down_to_nothing() {
    let configs = vec![cfg("a", "1")];
    assert_eq!(
        TriggerRegistry::build(&configs, 2000),
        Err(ConfigurationError::ZeroEffectiveInterval {
            component: "a".to_string()
        })
    );
}

#[test]
fn registry_rejects_duplicate_component() {
    let configs = vec![cfg("a", "10"), cfg("b", "20"), cfg("a", "30")];
    assert_eq!(
        TriggerRegistry::build(&configs, 1),
        Err(ConfigurationError::DuplicateComponent {
            component: "a".to_string()
        })
    );
}

#[test]
fn registry_reports_the_first_problem() {
    let configs = vec![cfg("a", "bad"), cfg("b", "0")];
    assert_eq!(
        TriggerRegistry::build(&configs, 1),
        Err(ConfigurationError::InvalidInterval {
            component: "a".to_string()
        })
    );
}
