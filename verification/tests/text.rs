use chapterverse::bibles::{avaialble_bibles, find_bible};
use chapterverse::commands::{default_command_prefix, evangelio, evangelium, gospel, help};
use chapterverse::strutil::{to_lowercase, trim, u64_to_string};

#[test]
fn gospel_texts_are_fixed() {
    let english = gospel("anyone").unwrap();
    assert!(english.starts_with("Gospel means good news!"));
    assert!(english.ends_with("repent and believe in the gospel.\""));
    let spanish = evangelio("anyone").unwrap();
    assert!(spanish.starts_with("El evangelio significa buenas nuevas!"));
    let german = evangelium("anyone").unwrap();
    assert!(german.starts_with("Evangelium bedeutet Gute Nachricht!"));
}

#[test]
fn help_substitutes_the_prefix() {
    let bibles = || String::from("KJV, WEB");
    let with_bang = help(bibles, &'!').unwrap();
    assert!(with_bang.starts_with("Help: Lookup scripture"));
    assert!(with_bang.contains("!joinchannel"));
    assert!(with_bang.ends_with("Available translations: KJV, WEB"));

    let with_tilde = help(bibles, &'~').unwrap();
    assert!(with_tilde.contains("~joinchannel"));
    assert!(with_tilde.contains("~gospel"));
    assert!(!with_tilde.contains('!'));
}

#[test]
fn the_default_prefix_is_a_bang() {
    assert_eq!(default_command_prefix(), Some('!'));
}

#[test]
fn find_bible_matches_whole_words_without_case() {
    let names = vec![String::from("KJV"), String::from("WEB")];
    let default = String::from("ASV");
    assert_eq!(find_bible(String::from("john 3:16 kjv"), &default, &names), "KJV");
    assert_eq!(find_bible(String::from("WEB please"), &default, &names), "WEB");
    // the earliest occurrence wins
    assert_eq!(find_bible(String::from("web or kjv"), &default, &names), "WEB");
    // a name inside a word does not count
    assert_eq!(find_bible(String::from("cobweb"), &default, &names), "ASV");
    assert_eq!(find_bible(String::from("nothing here"), &default, &names), "ASV");
}

#[test]
fn available_bibles_joins_the_names() {
    assert_eq!(
        avaialble_bibles(&vec![String::from("KJV"), String::from("WEB"), String::from("ASV")]),
        "KJV, WEB, ASV"
    );
    assert_eq!(avaialble_bibles(&vec![String::from("KJV")]), "KJV");
    assert_eq!(avaialble_bibles(&Vec::new()), "");
}

#[test]
fn string_helpers_behave_like_std() {
    assert_eq!(trim("  padded \r\n"), "padded");
    assert_eq!(to_lowercase("MiXeD Case_42!"), "mixed case_42!");
    assert_eq!(u64_to_string(0), "0");
    assert_eq!(u64_to_string(90210), "90210");
    assert_eq!(u64_to_string(u64::MAX), u64::MAX.to_string());
}
