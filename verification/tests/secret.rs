use nixlock::secret::Secret;

#[test]
fn a_secret_holds_what_was_typed() {
    let mut secret = Secret::new();
    assert!(secret.is_empty());
    secret.push_str("pä");
    secret.push_str("ss");
    assert_eq!(secret.as_str(), "päss");
    assert_eq!(secret.char_count(), 4);
    assert!(secret.contains('ä'));
    assert!(!secret.contains('a'));
    assert!(!secret.is_empty());
}

#[test]
fn backspace_takes_one_character_and_stops_at_the_start() {
    let mut secret = Secret::from_text("aü".into());
    secret.pop();
    assert_eq!(secret.as_str(), "a");
    secret.pop();
    assert_eq!(secret.as_str(), "");
    secret.pop();
    assert_eq!(secret.as_str(), "");
}

#[test]
fn clearing_and_taking_leave_nothing_behind() {
    let mut secret = Secret::from_text("hunter2".into());
    let taken = secret.take();
    assert_eq!(taken.as_str(), "hunter2");
    assert!(secret.is_empty());
    let mut secret = taken;
    secret.clear();
    assert_eq!(secret.char_count(), 0);
}

#[test]
fn only_line_ends_are_trimmed() {
    let trimmed = |text: &str| {
        let mut secret = Secret::from_text(text.into());
        secret.trim_line_end();
        secret.as_str().to_string()
    };
    assert_eq!(trimmed("hunter2\n"), "hunter2");
    assert_eq!(trimmed("hunter2\r\n\r\n"), "hunter2");
    assert_eq!(trimmed(" hunter2 \n"), " hunter2 ");
    assert_eq!(trimmed("a\nb"), "a\nb");
    assert_eq!(trimmed("\n\r"), "");
    assert_eq!(trimmed(""), "");
}
