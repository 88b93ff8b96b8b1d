use mailbox::Client;

fn pair(key: &str, value: &str) -> (String, String) {
    (key.to_string(), value.to_string())
}

#[test]
fn formats_query() {
    assert_eq!(
        Client::fmt_query(&[("foo".into(), "bar".into()), ("baz".into(), "".into())]),
        "foo bar baz"
    )
}

#[test]
fn trims_the_space_left_by_an_empty_value() {
    assert_eq!(
        Client::fmt_query(&[pair("from", "a@b.com"), pair("subject", "")]),
        "from a@b.com subject"
    );
}

#[test]
fn keeps_the_order_of_the_criteria() {
    let forth = Client::fmt_query(&[pair("from", "a@b.com"), pair("subject", "hello")]);
    let back = Client::fmt_query(&[pair("subject", "hello"), pair("from", "a@b.com")]);
    assert_eq!(forth, "from a@b.com subject hello");
    assert_eq!(back, "subject hello from a@b.com");
    assert_ne!(forth, back);
}

#[test]
fn formats_no_criteria_as_the_empty_string() {
    assert_eq!(Client::fmt_query(&[]), "");
}

#[test]
fn formats_one_criterion_without_a_separator() {
    assert_eq!(Client::fmt_query(&[pair("unseen", "")]), "unseen");
}

#[test]
fn keeps_repeated_criteria() {
    assert_eq!(
        Client::fmt_query(&[pair("to", "a"), pair("to", "a"), pair("to", "b")]),
        "to a to a to b"
    );
}

#[test]
fn trims_each_term_at_both_ends() {
    assert_eq!(
        Client::fmt_query(&[pair("  from", "x \t"), pair("\u{a0}subject\u{3000}", "\n")]),
        "from x subject"
    );
}

#[test]
fn trims_every_character_that_is_whitespace() {
    let spaces = "\u{9}\u{a}\u{b}\u{c}\u{d}\u{20}\u{85}\u{a0}\u{1680}\u{2000}\u{2001}\u{2002}\
\u{2003}\u{2004}\u{2005}\u{2006}\u{2007}\u{2008}\u{2009}\u{200a}\u{2028}\u{2029}\u{202f}\
\u{205f}\u{3000}";
    assert_eq!(spaces.chars().count(), 25);
    assert_eq!(Client::fmt_query(&[pair(spaces, "")]), "");
    assert_eq!(Client::fmt_query(&[pair(spaces, "x"), pair("y", spaces)]), "x y");
}

#[test]
fn keeps_the_neighbours_of_whitespace() {
    for c in ["\u{8}", "\u{e}", "\u{1f}", "\u{21}", "\u{84}", "\u{86}", "\u{9f}", "\u{a1}"] {
        assert_eq!(Client::fmt_query(&[pair(c, c)]), format!("{} {}", c, c));
    }
    for c in ["\u{167f}", "\u{1681}", "\u{180e}", "\u{1fff}", "\u{200b}", "\u{2027}"] {
        assert_eq!(Client::fmt_query(&[pair(c, c)]), format!("{} {}", c, c));
    }
    for c in ["\u{202a}", "\u{202e}", "\u{2030}", "\u{205e}", "\u{2060}", "\u{2fff}"] {
        assert_eq!(Client::fmt_query(&[pair(c, c)]), format!("{} {}", c, c));
    }
    for c in ["\u{3001}", "\u{feff}"] {
        assert_eq!(Client::fmt_query(&[pair(c, c)]), format!("{} {}", c, c));
    }
}

#[test]
fn keeps_whitespace_inside_a_term() {
    assert_eq!(Client::fmt_query(&[pair("subject", "hello  world")]), "subject hello  world");
}

#[test]
fn leaves_an_empty_term_between_two_spaces() {
    assert_eq!(Client::fmt_query(&[pair("a", "b"), pair("", ""), pair("c", "")]), "a b  c");
}

#[test]
fn does_not_trim_what_is_no_whitespace() {
    assert_eq!(Client::fmt_query(&[pair("\u{200b}k", "v\u{feff}")]), "\u{200b}k v\u{feff}");
}
