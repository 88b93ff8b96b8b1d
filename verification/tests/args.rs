use mailbox::args::{parse_key_val, password, reads_password};

#[test]
fn splits_a_criterion_at_its_colon() {
    assert_eq!(
        parse_key_val("from:foo@bar.com"),
        Ok(("from".to_string(), "foo@bar.com".to_string()))
    );
}

#[test]
fn splits_a_criterion_at_its_first_colon_only() {
    assert_eq!(
        parse_key_val("subject:re: hello"),
        Ok(("subject".to_string(), "re: hello".to_string()))
    );
}

#[test]
fn accepts_an_empty_key_and_an_empty_value() {
    assert_eq!(parse_key_val(":"), Ok((String::new(), String::new())));
    assert_eq!(parse_key_val("unseen:"), Ok(("unseen".to_string(), String::new())));
    assert_eq!(parse_key_val(":x"), Ok((String::new(), "x".to_string())));
}

#[test]
fn splits_text_of_several_bytes_a_character() {
    assert_eq!(
        parse_key_val("betreff:gr\u{fc}\u{df}e \u{20ac}"),
        Ok(("betreff".to_string(), "gr\u{fc}\u{df}e \u{20ac}".to_string()))
    );
    assert_eq!(
        parse_key_val("\u{20ac}\u{20ac}:1"),
        Ok(("\u{20ac}\u{20ac}".to_string(), "1".to_string()))
    );
}

#[test]
fn rejects_a_criterion_without_a_colon() {
    assert_eq!(
        parse_key_val("subject"),
        Err("invalid KEY:value: no `:` found in `subject`".to_string())
    );
    assert_eq!(parse_key_val(""), Err("invalid KEY:value: no `:` found in ``".to_string()));
}

#[test]
fn takes_a_given_password_as_it_is() {
    assert!(!reads_password("secret"));
    assert_eq!(password("secret", "from the input\n"), "secret");
    assert_eq!(password("", "from the input\n"), "");
    assert_eq!(password("--", "from the input\n"), "--");
}

#[test]
fn takes_the_piped_line_for_a_dash() {
    assert!(reads_password("-"));
    assert_eq!(password("-", "from the input\n"), "from the input\n");
    assert_eq!(password("-", ""), "");
}
