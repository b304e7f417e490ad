use rinch::suggestions::{find_closest_prop, format_missing_prop_error, format_unknown_prop_error, levenshtein_distance};

#[test]
fn test_levenshtein_empty() {
    assert_eq!(levenshtein_distance("", ""), 0);
    assert_eq!(levenshtein_distance("abc", ""), 3);
    assert_eq!(levenshtein_distance("", "abc"), 3);
}

#[test]
fn test_levenshtein_same() {
    assert_eq!(levenshtein_distance("hello", "hello"), 0);
}

#[test]
fn test_levenshtein_one_char() {
    assert_eq!(levenshtein_distance("hello", "hallo"), 1);
    assert_eq!(levenshtein_distance("hello", "hell"), 1);
    assert_eq!(levenshtein_distance("hello", "helloo"), 1);
}

#[test]
fn test_find_closest() {
    let valid = vec!["title", "width", "height", "visible"];
    assert_eq!(find_closest_prop("titl", &valid), Some("title".into()));
    assert_eq!(find_closest_prop("widht", &valid), Some("width".into()));
    assert_eq!(find_closest_prop("xyz", &valid), None);
}

#[test]
fn levenshtein_classic_pair() {
    assert_eq!(levenshtein_distance("kitten", "sitting"), 3);
    assert_eq!(levenshtein_distance("héllo", "hello"), 1);
}

#[test]
fn closest_prefers_the_first_of_equals() {
    let valid = vec!["ab", "ac"];
    assert_eq!(find_closest_prop("aa", &valid), Some("ab".to_string()));
    assert_eq!(find_closest_prop("x", &[]), None);
}

#[test]
fn unknown_prop_error_offers_suggestion_and_list() {
    let valid = vec!["title", "width"];
    assert_eq!(
        format_unknown_prop_error("Window", "titel", &valid),
        "unknown property `titel` for `Window` component\n\nDid you mean `title`?\n\nValid properties are: title, width"
    );
    assert_eq!(
        format_unknown_prop_error("Window", "zzzzzzzz", &valid),
        "unknown property `zzzzzzzz` for `Window` component\n\nValid properties are: title, width"
    );
    assert_eq!(format_unknown_prop_error("X", "y", &[]), "unknown property `y` for `X` component");
}

#[test]
fn missing_prop_error_text() {
    assert_eq!(
        format_missing_prop_error("Menu", "label"),
        "missing required property `label` for `Menu` component"
    );
}
