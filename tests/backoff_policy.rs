use ic_asset::backoff::{BackoffConfig, ExponentialBackoff};

fn drain(config: BackoffConfig, limit: usize) -> Vec<u64> {
    let mut policy = ExponentialBackoff::new(config);
    let mut out = Vec::new();
    while out.len() < limit {
        match policy.next_backoff() {
            Some(d) => out.push(d),
            None => break,
        }
    }
    out
}

#[test]
fn standard_config_values() {
    let c = BackoffConfig::standard();
    assert_eq!(c.initial_interval_ms, 1000);
    assert_eq!(c.multiplier_num, 2);
    assert_eq!(c.multiplier_den, 1);
    assert_eq!(c.max_interval_ms, 16000);
    assert_eq!(c.max_elapsed_ms, Some(300000));
}

#[test]
fn intervals_double_then_cap() {
    let got = drain(BackoffConfig::standard(), 7);
    assert_eq!(got, vec![1000, 2000, 4000, 8000, 16000, 16000, 16000]);
}

#[test]
fn stops_before_passing_elapsed_limit() {
    let got = drain(BackoffConfig::standard(), 1000);
    assert_eq!(got.len(), 21);
    let total: u64 = got.iter().sum();
    assert_eq!(total, 287000);
    assert!(total <= 300000);
    assert!(total + 16000 > 300000);
}

#[test]
fn exhausted_policy_stays_exhausted() {
    let mut policy = ExponentialBackoff::new(BackoffConfig::standard());
    let mut n = 0;
    while policy.next_backoff().is_some() {
        n += 1;
    }
    assert_eq!(n, 21);
    assert_eq!(policy.next_backoff(), None);
    assert_eq!(policy.next_backoff(), None);
}

#[test]
fn no_elapsed_limit_never_runs_out() {
    let config = BackoffConfig { max_elapsed_ms: None, ..BackoffConfig::standard() };
    let got = drain(config, 100);
    assert_eq!(got.len(), 100);
    assert_eq!(got[99], 16000);
}

#[test]
fn fractional_multiplier_rounds_down() {
    let config = BackoffConfig {
        initial_interval_ms: 100,
        multiplier_num: 3,
        multiplier_den: 2,
        max_interval_ms: 1000,
        max_elapsed_ms: None,
    };
    assert_eq!(drain(config, 7), vec![100, 150, 225, 337, 505, 757, 1000]);
}

#[test]
fn limit_exactly_reached_is_allowed() {
    let config = BackoffConfig { max_elapsed_ms: Some(3000), ..BackoffConfig::standard() };
    assert_eq!(drain(config, 10), vec![1000, 2000]);
    let config = BackoffConfig { max_elapsed_ms: Some(2999), ..BackoffConfig::standard() };
    assert_eq!(drain(config, 10), vec![1000]);
    let config = BackoffConfig { max_elapsed_ms: Some(0), ..BackoffConfig::standard() };
    assert_eq!(drain(config, 10), Vec::<u64>::new());
}

#[test]
fn huge_values_do_not_overflow() {
    let config = BackoffConfig {
        initial_interval_ms: u64::MAX / 2,
        multiplier_num: u64::MAX,
        multiplier_den: 1,
        max_interval_ms: u64::MAX,
        max_elapsed_ms: None,
    };
    assert_eq!(drain(config, 3), vec![u64::MAX / 2, u64::MAX, u64::MAX]);
}
