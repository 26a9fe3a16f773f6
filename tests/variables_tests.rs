use freeswitch_esl_rs::variables::{EslArray, MultipartBody};

#[test]
fn parse_single_item() {
    let arr = EslArray::parse("ARRAY::hello").unwrap();
    assert_eq!(arr.items(), &["hello"]);
    assert_eq!(arr.len(), 1);
}
#[test]
fn parse_multiple_items() {
    let arr = EslArray::parse("ARRAY::one|:two|:three").unwrap();
    assert_eq!(arr.items(), &["one", "two", "three"]);
    assert_eq!(arr.len(), 3);
}
#[test]
fn parse_non_array_returns_none() {
    assert!(EslArray::parse("not an array").is_none());
    assert!(EslArray::parse("").is_none());
    assert!(EslArray::parse("ARRAY:").is_none());
}
#[test]
fn display_round_trip() {
    let input = "ARRAY::one|:two|:three";
    let arr = EslArray::parse(input).unwrap();
    assert_eq!(arr.to_string(), input);
}
#[test]
fn display_single_item() {
    let arr = EslArray::parse("ARRAY::only").unwrap();
    assert_eq!(arr.to_string(), "ARRAY::only");
}
#[test]
fn empty_items_in_array() {
    let arr = EslArray::parse("ARRAY::|:|:stuff").unwrap();
    assert_eq!(arr.items(), &["", "", "stuff"]);
}
#[test]
fn test_new() {
    let arr = EslArray::new(vec!["a".into(), "b".into(), "c".into()]);
    assert_eq!(arr.items(), &["a", "b", "c"]);
    assert_eq!(arr.len(), 3);
}
#[test]
fn test_push() {
    let mut arr = EslArray::new(vec!["first".into()]);
    arr.push("second".into());
    arr.push("third".into());
    assert_eq!(arr.items(), &["first", "second", "third"]);
    assert_eq!(arr.to_string(), "ARRAY::first|:second|:third");
}
#[test]
fn test_unshift() {
    let mut arr = EslArray::new(vec!["last".into()]);
    arr.unshift("middle".into());
    arr.unshift("first".into());
    assert_eq!(arr.items(), &["first", "middle", "last"]);
    assert_eq!(arr.to_string(), "ARRAY::first|:middle|:last");
}
#[test]
fn parse_multipart_body() {
    let input =
        "ARRAY::application/sdp:v=0\r\no=...|:application/pidf+xml:<presence>...</presence>";
    let body = MultipartBody::parse(input).unwrap();
    assert_eq!(
        body.items()
            .len(),
        2
    );
    assert_eq!(body.items()[0].mime_type, "application/sdp");
    assert_eq!(body.items()[0].data, "v=0\r\no=...");
    assert_eq!(body.items()[1].mime_type, "application/pidf+xml");
    assert_eq!(body.items()[1].data, "<presence>...</presence>");
}
#[test]
fn by_mime_type_filtering() {
    let input = "ARRAY::text/plain:hello|:application/pidf+xml:<pidf/>|:text/plain:world";
    let body = MultipartBody::parse(input).unwrap();

    let pidf = body.by_mime_type("application/pidf+xml");
    assert_eq!(pidf, vec!["<pidf/>"]);

    let texts = body.by_mime_type("text/plain");
    assert_eq!(texts, vec!["hello", "world"]);

    let none = body.by_mime_type("application/json");
    assert!(none.is_empty());
}
#[test]
fn non_array_returns_none() {
    assert!(MultipartBody::parse("not an array").is_none());
}
#[test]
fn malformed_entries_skipped() {
    let input = "ARRAY::application/sdp:v=0|:no-colon-here|:text/plain:ok";
    let body = MultipartBody::parse(input).unwrap();
    assert_eq!(
        body.items()
            .len(),
        2
    );
    assert_eq!(body.items()[0].mime_type, "application/sdp");
    assert_eq!(body.items()[1].mime_type, "text/plain");
}