use snip::error::SnipError;
use snip::ident::Identifier;
use snip::records::{attachment_from_db, one_row_outcome, snip_from_db, Attachment, Timestamp};

const ID: &str = "9cfc5a2d-2946-48ee-82e0-227ba4bcdbd5";
const OWNER: &str = "11111111-2222-4333-8444-555555555555";
const TS: &str = "2023-01-02T03:04:05+01:00";

#[test]
fn timestamp_parses_rfc3339() {
    let t = Timestamp::parse_rfc3339(TS).unwrap();
    assert_eq!(t, Timestamp::new(1672625045, 0, 3600));
    let t = Timestamp::parse_rfc3339("1970-01-01T00:00:01.5Z").unwrap();
    assert_eq!(t, Timestamp::new(1, 500_000_000, 0));
    assert_eq!(Timestamp::parse_rfc3339("yesterday"), None);
    assert_eq!(Timestamp::parse_rfc3339(""), None);
}

#[test]
fn attachment_keeps_bytes_and_size() {
    let data: Vec<u8> = vec![0, 1, 2, 255, 37, 0];
    let a = attachment_from_db(
        ID.to_string(),
        OWNER.to_string(),
        TS.to_string(),
        "udhr.pdf".to_string(),
        6,
        data.clone(),
    )
    .unwrap();
    assert_eq!(a.data, data);
    assert_eq!(a.size, data.len());
    assert_eq!(a.name, "udhr.pdf");
    assert_eq!(a.uuid.format(), ID);
    assert_eq!(a.snip_uuid.format(), OWNER);
    assert_eq!(a.timestamp, Timestamp::new(1672625045, 0, 3600));
}

#[test]
fn attachment_of_empty_payload() {
    let a = attachment_from_db(
        ID.to_string(),
        OWNER.to_string(),
        TS.to_string(),
        "empty".to_string(),
        0,
        Vec::new(),
    )
    .unwrap();
    assert_eq!(a.size, 0);
    assert!(a.data.is_empty());
}

#[test]
fn attachment_errors() {
    let bad_id = attachment_from_db(
        "not-an-id".to_string(),
        OWNER.to_string(),
        TS.to_string(),
        "n".to_string(),
        1,
        vec![1],
    );
    assert!(matches!(bad_id, Err(SnipError::MalformedIdentifier(_))));
    let bad_owner = attachment_from_db(
        ID.to_string(),
        "x".to_string(),
        TS.to_string(),
        "n".to_string(),
        1,
        vec![1],
    );
    assert!(matches!(bad_owner, Err(SnipError::MalformedIdentifier(_))));
    let bad_ts = attachment_from_db(
        ID.to_string(),
        OWNER.to_string(),
        "noon".to_string(),
        "n".to_string(),
        1,
        vec![1],
    );
    assert!(matches!(bad_ts, Err(SnipError::StorageError(_))));
    let bad_size = attachment_from_db(
        ID.to_string(),
        OWNER.to_string(),
        TS.to_string(),
        "n".to_string(),
        2,
        vec![1],
    );
    assert!(matches!(bad_size, Err(SnipError::StorageError(_))));
}

#[test]
fn new_attachment_takes_size_from_data() {
    let data = b"%PDF-1.4 test payload".to_vec();
    let a = Attachment::new(
        Identifier::parse(ID).unwrap(),
        Identifier::parse(OWNER).unwrap(),
        Timestamp::new(0, 0, 0),
        "file.pdf".to_string(),
        data.clone(),
    );
    assert_eq!(a.size, data.len());
    assert_eq!(a.data, data);
}

#[test]
fn writes_need_exactly_one_row() {
    assert_eq!(one_row_outcome(1), Ok(()));
    assert!(matches!(one_row_outcome(0), Err(SnipError::StorageError(_))));
    assert!(matches!(one_row_outcome(2), Err(SnipError::StorageError(_))));
}

#[test]
fn snip_from_columns() {
    let s = snip_from_db(ID.to_string(), "name".to_string(), TS.to_string(), "body".to_string())
        .unwrap();
    assert_eq!(s.uuid.format(), ID);
    assert_eq!(s.name, "name");
    assert_eq!(s.text, "body");
    assert_eq!(s.timestamp, Timestamp::new(1672625045, 0, 3600));
    let e = snip_from_db("bad".to_string(), "n".to_string(), TS.to_string(), String::new());
    assert_eq!(e.err(), Some(SnipError::MalformedIdentifier("bad".to_string())));
    let e = snip_from_db(ID.to_string(), "n".to_string(), "bad".to_string(), String::new());
    assert!(matches!(e, Err(SnipError::StorageError(_))));
}
