use std::collections::BTreeSet;

use diskette::catalogs::ENTRY_COUNT;
use diskette::i18n::{
    catalog, contains_russian_locale, detect_locale, lookup, parse_entry, text, Locale,
};

fn tokens(catalog: &str) -> BTreeSet<String> {
    catalog
        .lines()
        .filter_map(parse_entry)
        .map(|(token, _translation)| token)
        .collect()
}

#[test]
fn catalogs_have_the_same_tokens() {
    let english = tokens(&catalog(Locale::English));
    let russian = tokens(&catalog(Locale::Russian));

    assert_eq!(english, russian);
    assert_eq!(english.len(), ENTRY_COUNT);
}

#[test]
fn catalogs_open_with_a_comment() {
    for locale in [Locale::English, Locale::Russian] {
        let text = catalog(locale);
        assert!(text.starts_with("# Diskette messages: "));
        assert!(text.ends_with('\n'));
        assert_eq!(text.lines().count(), ENTRY_COUNT + 1);
    }
}

#[test]
fn missing_token_falls_back_to_token() {
    assert_eq!(lookup(&catalog(Locale::English), "unknown_token"), None);
}

#[test]
fn text_falls_back_to_the_token_itself() {
    assert_eq!(text(Locale::English, "unknown_token"), "unknown_token");
    assert_eq!(text(Locale::Russian, "unknown_token"), "unknown_token");
}

#[test]
fn text_translates_known_tokens() {
    assert_eq!(text(Locale::English, "back"), "Back");
    assert_eq!(text(Locale::Russian, "back"), "Назад");
    assert_eq!(text(Locale::English, "success"), "success");
}

#[test]
fn lookup_takes_the_first_entry_and_skips_comments() {
    let catalog = "# token\tcomment\n\nkey\tfirst\nkey\tsecond\nbroken line\nother\tx\ty\n";
    assert_eq!(lookup(catalog, "key").as_deref(), Some("first"));
    assert_eq!(lookup(catalog, "# token"), None);
    assert_eq!(lookup(catalog, "broken line"), None);
    assert_eq!(lookup(catalog, "other").as_deref(), Some("x\ty"));
    assert_eq!(lookup("key\tvalue\r\n", "key").as_deref(), Some("value"));
}

#[test]
fn parse_entry_reads_token_and_translation() {
    assert_eq!(parse_entry(""), None);
    assert_eq!(parse_entry("# a\tb"), None);
    assert_eq!(parse_entry("no tab"), None);
    assert_eq!(
        parse_entry("a\tb\tc"),
        Some(("a".to_owned(), "b\tc".to_owned()))
    );
}

#[test]
fn russian_locale_names_are_recognised() {
    assert!(contains_russian_locale("ru"));
    assert!(contains_russian_locale("ru_RU.UTF-8"));
    assert!(contains_russian_locale("en_US:RU.utf8"));
    assert!(contains_russian_locale(" Ru "));
    assert!(!contains_russian_locale("en_US.UTF-8"));
    assert!(!contains_russian_locale("rus"));
    assert!(!contains_russian_locale(""));
}

#[test]
fn locale_is_russian_when_any_variable_names_it() {
    assert_eq!(detect_locale(&vec![None, None, None, None]), Locale::English);
    assert_eq!(
        detect_locale(&vec![Some("en_US".to_owned()), None, None, Some("ru_RU.UTF-8".to_owned())]),
        Locale::Russian
    );
    assert_eq!(
        detect_locale(&vec![Some("de_DE".to_owned()), Some("C".to_owned())]),
        Locale::English
    );
}
