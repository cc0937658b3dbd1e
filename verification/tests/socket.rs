use panamint::socket::{IrcSocketConfig, Retry};

fn config(max_retries: Option<usize>) -> IrcSocketConfig {
    IrcSocketConfig { addr: "irc.example.org:6667".to_string(), max_retries }
}

#[test]
fn without_a_limit_no_failure_is_final() {
    let config = config(None);
    assert_eq!(config.after_failure(0), Retry::Again(1));
    assert_eq!(config.after_failure(1_000_000), Retry::Again(1_000_001));
    assert_eq!(config.after_failure(usize::MAX), Retry::Again(usize::MAX));
}

#[test]
fn with_a_limit_the_failure_past_it_is_final() {
    let config = config(Some(2));
    assert_eq!(config.after_failure(0), Retry::Again(1));
    assert_eq!(config.after_failure(1), Retry::Again(2));
    assert_eq!(config.after_failure(2), Retry::Again(3));
    assert_eq!(config.after_failure(3), Retry::GiveUp);
    assert_eq!(config.after_failure(usize::MAX), Retry::GiveUp);
}

#[test]
fn limit_of_zero_allows_one_retry() {
    let config = config(Some(0));
    assert_eq!(config.after_failure(0), Retry::Again(1));
    assert_eq!(config.after_failure(1), Retry::GiveUp);
}

#[test]
fn the_largest_limit_is_never_passed() {
    let config = config(Some(usize::MAX));
    assert_eq!(config.after_failure(usize::MAX - 1), Retry::Again(usize::MAX));
    assert_eq!(config.after_failure(usize::MAX), Retry::Again(usize::MAX));
}
