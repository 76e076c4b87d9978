use case_scraper::config::connection_string;

#[test]
fn connection_string_is_read() {
    let text = "[connection]\nconnectionstring = \"mongodb://localhost:27017\"\n";
    assert_eq!(connection_string(text), Some("mongodb://localhost:27017".to_string()));
}

#[test]
fn connection_string_missing_entry_is_empty() {
    assert_eq!(connection_string("[other]\nkey = 1\n"), Some(String::new()));
    assert_eq!(connection_string("[connection]\nhost = \"x\"\n"), Some(String::new()));
    assert_eq!(connection_string(""), Some(String::new()));
}

#[test]
fn connection_string_connection_not_a_table_is_empty() {
    assert_eq!(connection_string("connection = 5\n"), Some(String::new()));
}

#[test]
fn connection_string_rejects_bad_toml() {
    assert_eq!(connection_string("[connection\nconnectionstring = "), None);
}

#[test]
fn connection_string_rejects_non_string_entry() {
    assert_eq!(connection_string("[connection]\nconnectionstring = 42\n"), None);
}
