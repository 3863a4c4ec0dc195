use iuliia_rust::{parse_by_schema, parse_ending, parse_letter, propagate_case_from_source, Schema};

fn pairs(items: &[(&str, &str)]) -> Option<Vec<(String, String)>> {
    Some(
        items
            .iter()
            .map(|(key, value)| (key.to_string(), value.to_string()))
            .collect(),
    )
}

/// A Cyrillic-to-Latin romanization rule set in the style of the Wikipedia
/// transliteration table: per-letter defaults, a word-initial / after-sign
/// rule for the letter "е", a soft-sign-before-"о" rule, and adjective
/// endings.
fn wikipedia_schema() -> Schema {
    Schema::new(
        "wikipedia".to_string(),
        "Wikipedia transliteration table".to_string(),
        "https://en.wikipedia.org/wiki/Romanization_of_Russian".to_string(),
        pairs(&[
            ("а", "a"),
            ("б", "b"),
            ("в", "v"),
            ("г", "g"),
            ("д", "d"),
            ("е", "e"),
            ("ё", "yo"),
            ("ж", "zh"),
            ("з", "z"),
            ("и", "i"),
            ("й", "y"),
            ("к", "k"),
            ("л", "l"),
            ("м", "m"),
            ("н", "n"),
            ("о", "o"),
            ("п", "p"),
            ("р", "r"),
            ("с", "s"),
            ("т", "t"),
            ("у", "u"),
            ("ф", "f"),
            ("х", "kh"),
            ("ц", "ts"),
            ("ч", "ch"),
            ("ш", "sh"),
            ("щ", "shch"),
            ("ъ", ""),
            ("ы", "y"),
            ("ь", ""),
            ("э", "e"),
            ("ю", "yu"),
            ("я", "ya"),
        ]),
        pairs(&[("е", "ye"), ("ье", "ye"), ("ъе", "ye")]),
        pairs(&[("ьо", "y")]),
        pairs(&[("ий", "y"), ("ый", "y")]),
        None,
    )
}

#[test]
fn schema_test() {
    let schema = Schema::new(
        "ala_lc".to_string(),
        String::new(),
        String::new(),
        None,
        None,
        None,
        None,
        None,
    );
    assert_eq!(schema.name().as_str(), "ala_lc")
}

#[test]
fn simple_word_test() {
    //Given
    let test_words = vec!["б", "пол"];
    let expected_words = vec!["b", "pol"];
    let schema = wikipedia_schema();

    //When
    let transliterated_words: Vec<String> = test_words
        .iter()
        .map(|word| parse_by_schema(&word, &schema))
        .collect();

    //Then
    assert_eq!(transliterated_words, expected_words)
}

#[test]
fn prefix_word_test() {
    //Given
    let test_words = vec!["ель"];
    let expected_words = vec!["yel"];
    let schema = wikipedia_schema();

    //When
    let transliterated_words: Vec<String> = test_words
        .iter()
        .map(|word| parse_by_schema(&word, &schema))
        .collect();

    //Then
    assert_eq!(transliterated_words, expected_words)
}

#[test]
fn postfix_word_test() {
    //Given
    let test_words = vec!["бульон"];
    let expected_words = vec!["bulyon"];
    let schema = wikipedia_schema();

    //When
    let transliterated_words: Vec<String> = test_words
        .iter()
        .map(|word| parse_by_schema(&word, &schema))
        .collect();

    //Then
    assert_eq!(transliterated_words, expected_words)
}

#[test]
fn test_letter_case() {
    //Given
    let test_words = vec!["ноГа", "Рука"];
    let expected_words = vec!["noGa", "Ruka"];
    let schema = wikipedia_schema();

    //When
    let transliterated_words: Vec<String> = test_words
        .iter()
        .map(|word| parse_by_schema(&word, &schema))
        .collect();

    //Then
    assert_eq!(transliterated_words, expected_words)
}

#[test]
fn test_ending() {
    //Given
    let test_words = vec!["хороший"];
    let expected_words = vec!["khoroshy"];
    let schema = wikipedia_schema();

    //When
    let transliterated_words: Vec<String> = test_words
        .iter()
        .map(|word| parse_by_schema(&word, &schema))
        .collect();

    //Then
    assert_eq!(transliterated_words, expected_words)
}

#[test]
fn test_sentence() {
    //Given
    let test_words = vec![
        "Юлия, съешь ещё этих мягких французских булок из Йошкар-Олы, да выпей алтайского чаю",
        "ВЕЛИКИЙ",
    ];
    let expected_words = vec![
        "Yuliya, syesh yeshchyo etikh myagkikh frantsuzskikh bulok iz Yoshkar-Oly, da vypey altayskogo chayu",
        "VELIKY",
    ];
    let schema = wikipedia_schema();

    //When
    let transliterated_words: Vec<String> = test_words
        .iter()
        .map(|word| parse_by_schema(&word, &schema))
        .collect();

    //Then
    assert_eq!(transliterated_words, expected_words)
}

#[test]
fn prefix_beats_postfix_and_letter() {
    // "b" has an entry in the letter, postfix and prefix tables at once;
    // the prefix rule's replacement must win.
    let schema = Schema::new(
        "priority".to_string(),
        String::new(),
        String::new(),
        pairs(&[("b", "L")]),
        pairs(&[("ab", "P")]),
        pairs(&[("bc", "N")]),
        None,
        None,
    );
    assert_eq!(parse_by_schema("abc", &schema), "aPc");
}

#[test]
fn postfix_beats_letter() {
    let schema = Schema::new(
        "priority".to_string(),
        String::new(),
        String::new(),
        pairs(&[("b", "L")]),
        None,
        pairs(&[("bc", "N")]),
        None,
        None,
    );
    assert_eq!(parse_by_schema("abc", &schema), "aNc");
}

#[test]
fn shorter_ending_beats_longer() {
    // Both a 1-character and a 2-character ending rule match; the
    // 1-character rule's result must be chosen.
    let schema = Schema::new(
        "endings".to_string(),
        String::new(),
        String::new(),
        None,
        None,
        None,
        pairs(&[("c", "ONE"), ("bc", "TWO")]),
        None,
    );
    assert_eq!(parse_by_schema("abc", &schema), "abONE");
}

#[test]
fn unmapped_characters_pass_through() {
    let schema = wikipedia_schema();
    assert_eq!(parse_by_schema("q", &schema), "q");
    assert_eq!(parse_by_schema("plain latin, 123!", &schema), "plain latin, 123!");
}

#[test]
fn empty_input() {
    let schema = wikipedia_schema();
    assert_eq!(parse_by_schema("", &schema), "");
}

#[test]
fn absent_tables_never_match() {
    let schema = Schema::new(
        "empty".to_string(),
        String::new(),
        String::new(),
        None,
        None,
        None,
        None,
        None,
    );
    assert_eq!(schema.get_letter("б"), None);
    assert_eq!(schema.get_pref("$б"), None);
    assert_eq!(schema.get_next("б$"), None);
    assert_eq!(schema.get_ending("ий"), None);
    assert_eq!(parse_by_schema("пол", &schema), "пол");
}

#[test]
fn lookups_are_case_insensitive() {
    let schema = wikipedia_schema();
    assert_eq!(schema.get_letter("Х"), Some("kh".to_string()));
    assert_eq!(schema.get_ending("ИЙ"), Some("y".to_string()));
    assert_eq!(schema.get_pref("Е"), Some("ye".to_string()));
}

#[test]
fn prefix_lookup_strips_boundary_marker() {
    let schema = wikipedia_schema();
    assert_eq!(schema.get_pref("$е"), Some("ye".to_string()));
    assert_eq!(schema.get_pref("е"), Some("ye".to_string()));
    assert_eq!(schema.get_pref("ве"), None);
    assert_eq!(schema.get_next("ьо"), Some("y".to_string()));
    assert_eq!(schema.get_next("ь$"), None);
}

#[test]
fn uppercase_letter_capitalizes_first_symbol_only() {
    let schema = wikipedia_schema();
    assert_eq!(parse_by_schema("Х", &schema), "Kh");
    assert_eq!(parse_letter('$', 'Х', '$', &schema), "Kh");
}

#[test]
fn ending_uppercases_whole_replacement() {
    let schema = wikipedia_schema();
    let ending = parse_ending("ВЕЛИКИЙ", &schema).expect("the adjective ending must match");
    assert_eq!(ending.translate, "Y");
    assert_eq!(ending.ending_start, 5);
}

#[test]
fn short_words_have_no_ending() {
    let schema = wikipedia_schema();
    assert!(parse_ending("ий", &schema).is_none());
}

#[test]
fn case_propagation_modes() {
    assert_eq!(
        propagate_case_from_source("kh".to_string(), "х", true),
        "kh"
    );
    assert_eq!(
        propagate_case_from_source("kh".to_string(), "Х", true),
        "Kh"
    );
    assert_eq!(propagate_case_from_source("y".to_string(), "ИЙ", false), "Y");
    assert_eq!(propagate_case_from_source("y".to_string(), "иЙ", false), "Y");
    assert_eq!(propagate_case_from_source(String::new(), "Х", true), "");
}
