use reminder_bot::registry::{CommandRegistry, RegistrationError};

fn registry_with(names: &[&str]) -> CommandRegistry {
    let mut reg = CommandRegistry::new();
    for n in names {
        reg.register(String::from(*n), false).unwrap();
    }
    reg
}

#[test]
fn register_rejects_duplicate_name() {
    let mut reg = CommandRegistry::new();
    assert!(reg.register(String::from("help"), true).is_ok());
    assert_eq!(
        reg.register(String::from("help"), false),
        Err(RegistrationError::DuplicateName)
    );
}

#[test]
fn register_rejects_invalid_names() {
    let mut reg = CommandRegistry::new();
    assert_eq!(
        reg.register(String::from(""), false),
        Err(RegistrationError::InvalidName)
    );
    assert_eq!(
        reg.register(String::from("Help"), false),
        Err(RegistrationError::InvalidName)
    );
    assert_eq!(
        reg.register(String::from("a b"), false),
        Err(RegistrationError::InvalidName)
    );
}

#[test]
fn matches_command_with_empty_tail() {
    let reg = registry_with(&["help", "info", "clock"]);
    let m = reg.match_message("$", "$info").expect("should match");
    assert_eq!(reg.name_of(m.0).as_str(), "info");
    assert_eq!(m.1, "");
}

#[test]
fn matching_is_case_insensitive() {
    let reg = registry_with(&["info"]);
    let m = reg.match_message("$", "$InFo").expect("should match");
    assert_eq!(reg.name_of(m.0).as_str(), "info");
}

#[test]
fn captures_raw_argument_tail() {
    let reg = registry_with(&["clock"]);
    let m = reg.match_message("$", "$clock 12").expect("should match");
    assert_eq!(m.1, "12");
    let m2 = reg.match_message("$", "$clock   a b  c").expect("should match");
    assert_eq!(m2.1, "a b  c");
}

#[test]
fn wrong_prefix_does_not_match() {
    let reg = registry_with(&["info"]);
    assert!(reg.match_message("$", "!info").is_none());
    assert!(reg.match_message("$", "info").is_none());
}

#[test]
fn unknown_word_does_not_match() {
    let reg = registry_with(&["info"]);
    assert!(reg.match_message("$", "$infoo").is_none());
    assert!(reg.match_message("$", "$inf").is_none());
    assert!(reg.match_message("$", "$").is_none());
}

#[test]
fn longer_prefix_matches_whole_token() {
    let reg = registry_with(&["info"]);
    let m = reg.match_message("bot!", "bot!info tail").expect("should match");
    assert_eq!(reg.name_of(m.0).as_str(), "info");
    assert_eq!(m.1, "tail");
}
