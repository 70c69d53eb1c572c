use sitegen::datetime::{Date, Datetime, Time, UtcOffset};
use sitegen::meta::parse_meta_block;

#[test]
fn parses_title_tags_and_date() {
    let text = "title = \"T\"\ntags = [\"x\", \"y\"]\ndate = 2024-05-01T10:30:00Z\n";
    let fields = parse_meta_block(text).unwrap();
    assert_eq!(fields.title.as_deref(), Some("T"));
    assert_eq!(fields.tags, Some(vec!["x".to_string(), "y".to_string()]));
    assert_eq!(
        fields.date,
        Some(Datetime {
            date: Some(Date { year: 2024, month: 5, day: 1 }),
            time: Some(Time { hour: 10, minute: 30, second: 0, nanosecond: 0 }),
            offset: Some(UtcOffset::Zulu),
        })
    );
    assert_eq!(fields.ghcommentid, None);
    assert_eq!(fields.ghcommentauthors, None);
}

#[test]
fn parses_comment_reference_and_ignores_unknown_keys() {
    let text = "# a comment line\nghcommentid = 17\nghcommentauthors = [\"ann\"]\nsomething_else = 5\n";
    let fields = parse_meta_block(text).unwrap();
    assert_eq!(fields.ghcommentid, Some(17));
    assert_eq!(fields.ghcommentauthors, Some(vec!["ann".to_string()]));
    assert_eq!(fields.title, None);
}

#[test]
fn parses_date_only_and_custom_offset() {
    let fields = parse_meta_block("date = 1999-12-31\n").unwrap();
    assert_eq!(
        fields.date,
        Some(Datetime {
            date: Some(Date { year: 1999, month: 12, day: 31 }),
            time: None,
            offset: None,
        })
    );
    let fields = parse_meta_block("date = 2020-02-29 23:59:59-05:30").unwrap();
    assert_eq!(
        fields.date,
        Some(Datetime {
            date: Some(Date { year: 2020, month: 2, day: 29 }),
            time: Some(Time { hour: 23, minute: 59, second: 59, nanosecond: 0 }),
            offset: Some(UtcOffset::Minutes(-330)),
        })
    );
}

#[test]
fn parses_fractional_seconds_as_nanoseconds() {
    let fields = parse_meta_block("date = 2024-01-02T03:04:05.25Z").unwrap();
    let time = fields.date.unwrap().time.unwrap();
    assert_eq!(time.nanosecond, 250_000_000);
}

#[test]
fn string_escapes_are_decoded() {
    let fields = parse_meta_block("title = \"a\\\"b\\\\c\\n\"").unwrap();
    assert_eq!(fields.title.as_deref(), Some("a\"b\\c\n"));
}

#[test]
fn duplicate_key_is_rejected() {
    assert!(parse_meta_block("title = \"a\"\ntitle = \"b\"\n").is_none());
}

#[test]
fn wrongly_typed_known_key_is_rejected() {
    assert!(parse_meta_block("title = 5\n").is_none());
    assert!(parse_meta_block("tags = \"x\"\n").is_none());
    assert!(parse_meta_block("ghcommentid = \"x\"\n").is_none());
}

#[test]
fn malformed_values_are_rejected() {
    assert!(parse_meta_block("title = \"unterminated\n").is_none());
    assert!(parse_meta_block("tags = [\"a\",\n").is_none());
    assert!(parse_meta_block("date = 2024-13-01\n").is_none());
    assert!(parse_meta_block("date = 2023-02-29\n").is_none());
    assert!(parse_meta_block("ghcommentid = 99999999999\n").is_none());
    assert!(parse_meta_block("no_equals_sign\n").is_none());
}

#[test]
fn blank_lines_comments_and_crlf_are_accepted() {
    let fields = parse_meta_block("\r\n  # note\r\ntitle = \"T\"  # trailing\r\n\r\n").unwrap();
    assert_eq!(fields.title.as_deref(), Some("T"));
}

#[test]
fn empty_block_has_no_fields() {
    let fields = parse_meta_block("").unwrap();
    assert!(fields.title.is_none() && fields.date.is_none() && fields.tags.is_none());
}
