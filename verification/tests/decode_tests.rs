use video_dispatch::decode::{decode, jobs_from_event, DecodeError};

#[test]
fn single_record_yields_one_job() {
    let body = r#"{"records":[{"s3":{"bucket":{"name":"b"},"object":{"key":"movie.mp4"}}}]}"#;
    let recs = decode(body).unwrap();
    assert_eq!(recs.len(), 1);
    assert_eq!(recs[0].bucket, "b");
    assert_eq!(recs[0].key, "movie.mp4");
}

#[test]
fn malformed_body_is_syntax_error() {
    let r = decode("{not json");
    assert_eq!(r.unwrap_err(), DecodeError::Syntax);
}

#[test]
fn two_records_yield_two_jobs() {
    let body = r#"{"records":[{"s3":{"bucket":{"name":"b1"},"object":{"key":"k1.mp4"}}},{"s3":{"bucket":{"name":"b2"},"object":{"key":"k2.mp4"}}}]}"#;
    let recs = decode(body).unwrap();
    assert_eq!(recs.len(), 2);
    assert_eq!(recs[0].bucket, "b1");
    assert_eq!(recs[0].key, "k1.mp4");
    assert_eq!(recs[1].bucket, "b2");
    assert_eq!(recs[1].key, "k2.mp4");
}

#[test]
fn unknown_fields_are_ignored() {
    let body = r#"{"eventVersion":"2.1","records":[{"eventTime":"2024-01-01T00:00:00Z","s3":{"configurationId":null,"bucket":{"name":"b","arn":"x"},"object":{"key":"k.mp4","size":1048576,"etag":"abc"},"extra":[1,2.5,-3e2,true,false]}}]}"#;
    let recs = decode(body).unwrap();
    assert_eq!(recs.len(), 1);
    assert_eq!(recs[0].bucket, "b");
    assert_eq!(recs[0].key, "k.mp4");
}

#[test]
fn empty_records_array_yields_no_job() {
    let recs = decode(r#"{"records":[]}"#).unwrap();
    assert_eq!(recs.len(), 0);
}

#[test]
fn missing_records_field_is_schema_error() {
    assert_eq!(decode(r#"{"Records":[]}"#).unwrap_err(), DecodeError::Schema);
}

#[test]
fn records_not_an_array_is_schema_error() {
    assert_eq!(decode(r#"{"records":{}}"#).unwrap_err(), DecodeError::Schema);
}

#[test]
fn record_without_key_is_schema_error() {
    let body = r#"{"records":[{"s3":{"bucket":{"name":"b"},"object":{}}}]}"#;
    assert_eq!(decode(body).unwrap_err(), DecodeError::Schema);
}

#[test]
fn top_level_array_is_schema_error() {
    assert_eq!(decode("[]").unwrap_err(), DecodeError::Schema);
}

#[test]
fn trailing_garbage_is_syntax_error() {
    assert_eq!(decode(r#"{"records":[]} x"#).unwrap_err(), DecodeError::Syntax);
}

#[test]
fn simple_escapes_are_decoded() {
    let body = r#"{"records":[{"s3":{"bucket":{"name":"b"},"object":{"key":"a\"b\\c\n\t\/d"}}}]}"#;
    let recs = decode(body).unwrap();
    assert_eq!(recs[0].key, "a\"b\\c\n\t/d");
}

#[test]
fn unicode_escapes_are_decoded() {
    let body =
        r#"{"records":[{"s3":{"bucket":{"name":"A\u00e9"},"object":{"key":"\uD83D\uDE00.mp4"}}}]}"#;
    let recs = decode(body).unwrap();
    assert_eq!(recs[0].bucket, "A\u{e9}");
    assert_eq!(recs[0].key, "\u{1F600}.mp4");
}

#[test]
fn lone_surrogate_is_syntax_error() {
    let body = r#"{"records":[{"s3":{"bucket":{"name":"\uD83D"},"object":{"key":"k"}}}]}"#;
    assert_eq!(decode(body).unwrap_err(), DecodeError::Syntax);
}

#[test]
fn unterminated_string_is_syntax_error() {
    assert_eq!(decode(r#"{"records":["#).unwrap_err(), DecodeError::Syntax);
}

#[test]
fn surrounding_whitespace_is_accepted() {
    let recs = decode("  \r\n\t {\"records\" : [ ] } \n").unwrap();
    assert_eq!(recs.len(), 0);
}

#[test]
fn jobs_carry_the_ack_token() {
    let body = r#"{"records":[{"s3":{"bucket":{"name":"b"},"object":{"key":"k.mp4"}}}]}"#;
    let jobs = jobs_from_event(body, "receipt-1").unwrap();
    assert_eq!(jobs.len(), 1);
    assert_eq!(jobs[0].bucket, "b");
    assert_eq!(jobs[0].key, "k.mp4");
    assert_eq!(jobs[0].receipt_handle, "receipt-1");
}

#[test]
fn rejected_body_yields_no_job() {
    assert_eq!(jobs_from_event("{not json", "r").unwrap_err(), DecodeError::Syntax);
}
