use marbles::{AppParams, ConfigError};

fn check(
    history_size: usize,
    threshold: usize,
    login: &str,
    oauth: &str,
) -> Result<AppParams, ConfigError> {
    AppParams::new(
        history_size,
        threshold,
        120,
        5,
        String::from("!play >:("),
        String::from(login),
        String::from(oauth),
    )
}

#[test]
fn usual_settings_are_kept_as_given() {
    let params = check(10, 5, "someone", "token").unwrap();
    assert_eq!(params.history_size(), 10);
    assert_eq!(params.threshold(), 5);
    assert_eq!(params.cooldown(), 120);
    assert_eq!(params.grace_delay(), 5);
    assert_eq!(params.trigger_text(), "!play >:(");
    assert_eq!(params.login(), "someone");
    assert_eq!(params.oauth(), "token");
}

#[test]
fn zero_threshold_is_accepted() {
    assert!(check(10, 0, "someone", "token").is_ok());
    assert!(check(1, 0, "someone", "token").is_ok());
}

#[test]
fn threshold_may_equal_the_history_size() {
    assert!(check(10, 10, "someone", "token").is_ok());
    assert!(check(1, 1, "someone", "token").is_ok());
}

#[test]
fn empty_history_is_refused() {
    assert_eq!(check(0, 0, "someone", "token").unwrap_err(), ConfigError::EmptyHistory);
    assert_eq!(check(0, 3, "", "").unwrap_err(), ConfigError::EmptyHistory);
}

#[test]
fn threshold_above_the_history_is_refused() {
    assert_eq!(check(10, 11, "someone", "token").unwrap_err(), ConfigError::ThresholdOutOfRange);
    assert_eq!(check(1, usize::MAX, "", "token").unwrap_err(), ConfigError::ThresholdOutOfRange);
}

#[test]
fn empty_login_is_refused() {
    assert_eq!(check(10, 5, "", "token").unwrap_err(), ConfigError::EmptyLogin);
    assert_eq!(check(10, 5, "", "").unwrap_err(), ConfigError::EmptyLogin);
}

#[test]
fn empty_token_is_refused() {
    assert_eq!(check(10, 5, "someone", "").unwrap_err(), ConfigError::EmptyToken);
}

#[test]
fn zero_times_are_accepted() {
    let params = AppParams::new(
        3,
        2,
        0,
        0,
        String::new(),
        String::from("someone"),
        String::from("token"),
    )
    .unwrap();
    assert_eq!(params.cooldown(), 0);
    assert_eq!(params.grace_delay(), 0);
    assert_eq!(params.trigger_text(), "");
}
