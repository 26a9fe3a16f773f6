use freeswitch_esl_rs::originate::{originate_quote, originate_split, originate_unquote, parse_application_list, DialplanType};

#[test]
fn split_with_quotes_ignores_spaces_inside() {
    let result =
        originate_split("originate {test='variable with quote'}sofia/test 123", ' ').unwrap();
    assert_eq!(result[0], "originate");
    assert_eq!(result[1], "{test='variable with quote'}sofia/test");
    assert_eq!(result[2], "123");
}
#[test]
fn split_missing_quote_returns_error() {
    let result = originate_split(
        "originate {test='variable with missing quote}sofia/test 123",
        ' ',
    );
    assert!(result.is_err());
}
#[test]
fn split_string_starting_ending_with_quote() {
    let result = originate_split("'this is test'", ' ').unwrap();
    assert_eq!(result[0], "'this is test'");
}
#[test]
fn split_comma_separated() {
    let result = originate_split("item1,item2", ',').unwrap();
    assert_eq!(result[0], "item1");
    assert_eq!(result[1], "item2");
}
#[test]
fn split_with_escaped_quotes() {
    let result = originate_split(
        "originate {test='variable with quote'}sofia/test let\\'s add a quote",
        ' ',
    )
    .unwrap();
    assert_eq!(result[0], "originate");
    assert_eq!(result[1], "{test='variable with quote'}sofia/test");
    assert_eq!(result[2], "let\\'s");
    assert_eq!(result[3], "add");
    assert_eq!(result[4], "a");
    assert_eq!(result[5], "quote");
}
#[test]
fn quote_without_spaces_returns_as_is() {
    assert_eq!(originate_quote("&park()"), "&park()");
}
#[test]
fn quote_with_spaces_wraps_in_single_quotes() {
    assert_eq!(
        originate_quote("&socket(127.0.0.1:8040 async full)"),
        "'&socket(127.0.0.1:8040 async full)'"
    );
}
#[test]
fn quote_with_single_quote_and_spaces_escapes_quote() {
    assert_eq!(
        originate_quote("&playback(it's a test file)"),
        "'&playback(it\\'s a test file)'"
    );
}
#[test]
fn unquote_non_quoted_returns_as_is() {
    assert_eq!(originate_unquote("&park()"), "&park()");
}
#[test]
fn unquote_strips_outer_quotes() {
    assert_eq!(
        originate_unquote("'&socket(127.0.0.1:8040 async full)'"),
        "&socket(127.0.0.1:8040 async full)"
    );
}
#[test]
fn unquote_unescapes_inner_quotes() {
    assert_eq!(
        originate_unquote("'&playback(it\\'s a test file)'"),
        "&playback(it's a test file)"
    );
}
#[test]
fn quote_unquote_round_trip() {
    let source = "&socket(127.0.0.1:8040 async full)";
    assert_eq!(originate_unquote(&originate_quote(source)), source);
}
#[test]
fn quote_unquote_round_trip_with_inner_quote() {
    let source = "&playback(it's a test file)";
    assert_eq!(originate_unquote(&originate_quote(source)), source);
}
#[test]
fn parse_application_list_bare_extension() {
    let list = parse_application_list("123", None).unwrap();
    assert_eq!(list.0[0].name, "123");
    assert!(list.0[0]
        .args
        .is_none());
}
#[test]
fn parse_application_list_xml_no_args() {
    let list = parse_application_list("&conference()", None).unwrap();
    assert_eq!(list.0[0].name, "conference");
    assert!(list.0[0]
        .args
        .is_none());
}
#[test]
fn parse_application_list_xml_with_args() {
    let list = parse_application_list("&conference(1)", None).unwrap();
    assert_eq!(
        list.0
            .len(),
        1
    );
    assert_eq!(list.0[0].name, "conference");
    assert_eq!(
        list.0[0]
            .args
            .as_deref(),
        Some("1")
    );
}
#[test]
fn parse_application_list_two_inline_apps() {
    let list = parse_application_list(
        "conference:1,hangup:NORMAL_CLEARING",
        Some(&DialplanType::Inline),
    )
    .unwrap();
    assert_eq!(
        list.0
            .len(),
        2
    );
    assert_eq!(list.0[0].name, "conference");
    assert_eq!(
        list.0[0]
            .args
            .as_deref(),
        Some("1")
    );
    assert_eq!(list.0[1].name, "hangup");
    assert_eq!(
        list.0[1]
            .args
            .as_deref(),
        Some("NORMAL_CLEARING")
    );
}