use lunasched::backoff::calculate_backoff_delay;
use lunasched::BackoffStrategy;

#[test]
fn test_exponential_backoff() {
    let delay = calculate_backoff_delay(0, &BackoffStrategy::Exponential, 60, 3600);
    assert_eq!(delay, 60);

    let delay = calculate_backoff_delay(1, &BackoffStrategy::Exponential, 60, 3600);
    assert_eq!(delay, 120);

    let delay = calculate_backoff_delay(2, &BackoffStrategy::Exponential, 60, 3600);
    assert_eq!(delay, 240);

    let delay = calculate_backoff_delay(10, &BackoffStrategy::Exponential, 60, 3600);
    assert_eq!(delay, 3600);
}

#[test]
fn test_linear_backoff() {
    let delay = calculate_backoff_delay(0, &BackoffStrategy::Linear, 60, 3600);
    assert_eq!(delay, 60);

    let delay = calculate_backoff_delay(1, &BackoffStrategy::Linear, 60, 3600);
    assert_eq!(delay, 120);

    let delay = calculate_backoff_delay(2, &BackoffStrategy::Linear, 60, 3600);
    assert_eq!(delay, 180);
}

#[test]
fn test_fixed_backoff() {
    let delay = calculate_backoff_delay(0, &BackoffStrategy::Fixed, 60, 3600);
    assert_eq!(delay, 60);

    let delay = calculate_backoff_delay(5, &BackoffStrategy::Fixed, 60, 3600);
    assert_eq!(delay, 60);
}

#[test]
fn fixed_delay_is_clamped_to_the_maximum() {
    assert_eq!(calculate_backoff_delay(0, &BackoffStrategy::Fixed, 100, 30), 30);
}

#[test]
fn linear_delay_is_clamped_to_the_maximum() {
    assert_eq!(calculate_backoff_delay(9, &BackoffStrategy::Linear, 60, 500), 500);
    assert_eq!(calculate_backoff_delay(u32::MAX, &BackoffStrategy::Linear, u64::MAX, 7), 7);
}

#[test]
fn exponential_delay_never_overflows() {
    assert_eq!(calculate_backoff_delay(200, &BackoffStrategy::Exponential, 3, u64::MAX), u64::MAX);
    assert_eq!(calculate_backoff_delay(63, &BackoffStrategy::Exponential, 1, u64::MAX), 1u64 << 63);
    assert_eq!(calculate_backoff_delay(u32::MAX, &BackoffStrategy::Exponential, 0, 10), 0);
}

#[test]
fn exponential_delays_of_the_retry_scenario() {
    assert_eq!(calculate_backoff_delay(0, &BackoffStrategy::Exponential, 10, 3600), 10);
    assert_eq!(calculate_backoff_delay(1, &BackoffStrategy::Exponential, 10, 3600), 20);
    assert_eq!(calculate_backoff_delay(2, &BackoffStrategy::Exponential, 10, 3600), 40);
}
