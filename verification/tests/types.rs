use evervault_rs::types::{missing_env_message, RoundTrip};

#[test]
fn round_trip_summary_lists_each_value() {
    let value = RoundTrip {
        field: "card_number".into(),
        original: "4242424242424242".into(),
        encrypted: "ev:debug:abc".into(),
        decrypted: "4242424242424242".into(),
    };
    assert_eq!(
        value.summary(),
        "Field:      card_number\nOriginal:   4242424242424242\nEncrypted:  ev:debug:abc\nDecrypted:  4242424242424242"
    );
}

#[test]
fn missing_env_message_names_the_variable() {
    assert_eq!(
        missing_env_message("EV_APP_ID"),
        "missing required environment variable `EV_APP_ID`. Set it in your shell or add it to a .env file. See .env.example for the expected format."
    );
}
