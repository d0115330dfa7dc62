use guardian::error::RateLimitError;

#[test]
fn message_puts_the_prefix_before_the_payload() {
    assert_eq!(
        RateLimitError::LimitExceeded("user1".to_string()).message(),
        "Rate limit exceeded for key: user1"
    );
    assert_eq!(
        RateLimitError::StorageError("down".to_string()).message(),
        "Storage backend error: down"
    );
    assert_eq!(
        RateLimitError::ConfigError("capacity".to_string()).message(),
        "Invalid configuration: capacity"
    );
    assert_eq!(RateLimitError::ConfigError(String::new()).message(), "Invalid configuration: ");
}
