use chapterverse::bibles::Verse;
use chapterverse::response_builder::ResponseBuilder;

fn verse(reference: &str, abbreviation: &str, number: u8, scripture: &str) -> Verse {
    Verse {
        reference: String::from(reference),
        abbreviation: String::from(abbreviation),
        book: 1,
        chapter: 1,
        verse: number,
        scripture: String::from(scripture),
    }
}

#[test]
fn short_response_is_sent_whole() {
    let verses = vec![
        verse("Genesis 1:1", "Gen 1:1", 1, "In the beginning God created the heaven and the earth."),
        verse("Genesis 1:2", "Gen 1:2", 2, "And the earth was without form, and void."),
    ];
    let out = ResponseBuilder::build(&verses, 500, "KJV");
    assert_eq!(
        out.truncated,
        "In the beginning God created the heaven and the earth. \
         And the earth was without form, and void. - Genesis 1:1-2 KJV"
    );
    assert_eq!(out.remainder, "");
    assert_eq!(out.last_verse, "Genesis 1:2");
}

#[test]
fn single_verse_reference_has_no_range() {
    let verses = vec![verse("John 11:35", "Jhn 11:35", 35, "Jesus wept.")];
    let out = ResponseBuilder::build(&verses, 500, "WEB");
    assert_eq!(out.truncated, "Jesus wept. - John 11:35 WEB");
    assert_eq!(out.last_verse, "John 11:35");
}

#[test]
fn long_response_keeps_whole_verses_and_a_remainder() {
    let first = "a".repeat(30);
    let second = "b".repeat(40);
    let verses = vec![
        verse("Genesis 1:1", "Gen 1:1", 1, &first),
        verse("Genesis 1:2", "Gen 1:2", 2, &second),
    ];
    let out = ResponseBuilder::build(&verses, 80, "KJV");
    assert_eq!(out.truncated, format!(" {} - Gen 1:1 KJV !next to continue", first));
    assert_eq!(out.remainder, second);
    assert_eq!(out.last_verse, "Genesis 1:1");
}

#[test]
fn overlong_first_verse_leaves_everything_in_the_remainder() {
    let verses = vec![
        verse("Genesis 1:1", "Gen 1:1", 1, "aaa bbb"),
        verse("Genesis 1:2", "Gen 1:2", 2, "ccc ddd"),
    ];
    let out = ResponseBuilder::build(&verses, 34, "KJV");
    assert_eq!(out.truncated, " - Gen 1:1-2 KJV !next to continue");
    assert_eq!(out.remainder, "bbb ccc ddd");
    assert_eq!(out.last_verse, "Genesis 1:2");
}
