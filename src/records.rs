use vstd::prelude::*;
use crate::error::SnipError;
use crate::ident::{Identifier, is_canonical, value_of};
use vstd::string::*;

verus! {

broadcast use vstd::string::group_string_axioms;

/// What an RFC 3339 date-time text denotes: seconds since the Unix epoch, the
/// nanoseconds within that second, and the offset from UTC in seconds; none
/// where the text is not RFC 3339.
pub uninterp spec fn rfc3339_fields_of(s: Seq<char>) -> Option<(i64, u32, i32)>;

/// A point in time, with the UTC offset that it is shown in.
#[derive(Debug, Clone, Copy, PartialEq, Eq)]
pub struct Timestamp {
    pub secs: i64,
    pub nanos: u32,
    pub offset_secs: i32,
}

impl Timestamp {
    pub open spec fn fields(self) -> (i64, u32, i32) {
        (self.secs, self.nanos, self.offset_secs)
    }

    pub fn new(secs: i64, nanos: u32, offset_secs: i32) -> (r: Timestamp)
        ensures
            r.fields() == (secs, nanos, offset_secs),
    {
        Timestamp { secs, nanos, offset_secs }
    }

    /// Reads an RFC 3339 date-time with offset; none where the text is not one.
    pub fn parse_rfc3339(s: &str) -> (r: Option<Timestamp>)
        ensures
            r is Some <==> rfc3339_fields_of(s@) is Some,
            r matches Some(t) ==> rfc3339_fields_of(s@) == Some(t.fields()),
    {
        match rfc3339_fields(s) {
            Some(f) => Some(Timestamp { secs: f.0, nanos: f.1, offset_secs: f.2 }),
            None => None,
        }
    }
}

/// Relies on chrono::DateTime::parse_from_rfc3339, and on the instant's
/// timestamp, sub-second nanoseconds and offset: the outcome depends on the
/// text alone.
#[verifier::external_body]
fn rfc3339_fields(s: &str) -> (r: Option<(i64, u32, i32)>)
    ensures
        r == rfc3339_fields_of(s@),
{
    chrono::DateTime::parse_from_rfc3339(s).ok().map(
        |d| (d.timestamp(), d.timestamp_subsec_nanos(), d.offset().local_minus_utc()),
    )
}

/// A named, timestamped free-text record.
#[derive(Debug, Clone)]
pub struct Snip {
    pub uuid: Identifier,
    pub name: String,
    pub text: String,
    pub timestamp: Timestamp,
}

/// Builds a snippet from its stored columns: a canonical identifier, the name,
/// an RFC 3339 timestamp and the text. A malformed identifier is reported as
/// such; a timestamp that does not parse as a storage error.
pub fn snip_from_db(uuid: String, name: String, timestamp: String, text: String) -> (r: Result<
    Snip,
    SnipError,
>)
    ensures
        r is Ok <==> is_canonical(uuid@) && rfc3339_fields_of(timestamp@) is Some,
        !is_canonical(uuid@) ==> r matches Err(SnipError::MalformedIdentifier(_)),
        is_canonical(uuid@) && rfc3339_fields_of(timestamp@) is None ==> r matches Err(
            SnipError::StorageError(_),
        ),
        r matches Ok(s) ==> {
            &&& s.uuid.bytes@ == value_of(uuid@)
            &&& s.uuid.text() == uuid@
            &&& s.name@ == name@
            &&& s.text@ == text@
            &&& rfc3339_fields_of(timestamp@) == Some(s.timestamp.fields())
        },
{
    let id = match Identifier::parse(uuid.as_str()) {
        Ok(id) => id,
        Err(e) => return Err(e),
    };
    match Timestamp::parse_rfc3339(timestamp.as_str()) {
        Some(ts) => Ok(Snip { uuid: id, name, text, timestamp: ts }),
        None => Err(SnipError::StorageError(timestamp)),
    }
}

/// A named, timestamped binary payload attached to a snippet.
#[derive(Debug, Clone)]
pub struct Attachment {
    pub uuid: Identifier,
    pub snip_uuid: Identifier,
    pub timestamp: Timestamp,
    pub name: String,
    pub data: Vec<u8>,
    pub size: usize,
}

impl Attachment {
    /// The recorded size is the payload's length.
    pub open spec fn wf(&self) -> bool {
        self.size == self.data@.len()
    }

    /// A new attachment of `data` to the snippet `snip_uuid`, its size taken
    /// from the payload.
    pub fn new(
        uuid: Identifier,
        snip_uuid: Identifier,
        timestamp: Timestamp,
        name: String,
        data: Vec<u8>,
    ) -> (r: Attachment)
        ensures
            r.wf(),
            r.uuid == uuid,
            r.snip_uuid == snip_uuid,
            r.timestamp == timestamp,
            r.name@ == name@,
            r.data@ == data@,
    {
        let size = data.len();
        Attachment { uuid, snip_uuid, timestamp, name, data, size }
    }
}

/// Builds an attachment from its stored columns and payload. Identifiers that
/// are not canonical are malformed; a timestamp that does not parse, or a
/// recorded size other than the payload's length, is a storage error.
pub fn attachment_from_db(
    uuid: String,
    snip_uuid: String,
    timestamp: String,
    name: String,
    size: usize,
    data: Vec<u8>,
) -> (r: Result<Attachment, SnipError>)
    ensures
        r is Ok <==> is_canonical(uuid@) && is_canonical(snip_uuid@) && rfc3339_fields_of(
            timestamp@,
        ) is Some && size == data@.len(),
        !is_canonical(uuid@) || !is_canonical(snip_uuid@) ==> r matches Err(
            SnipError::MalformedIdentifier(_),
        ),
        is_canonical(uuid@) && is_canonical(snip_uuid@) && (rfc3339_fields_of(timestamp@) is None
            || size != data@.len()) ==> r matches Err(SnipError::StorageError(_)),
        r matches Ok(a) ==> {
            &&& a.wf()
            &&& a.uuid.text() == uuid@
            &&& a.snip_uuid.text() == snip_uuid@
            &&& rfc3339_fields_of(timestamp@) == Some(a.timestamp.fields())
            &&& a.name@ == name@
            &&& a.data@ == data@
            &&& a.size == size
        },
{
    let id = match Identifier::parse(uuid.as_str()) {
        Ok(id) => id,
        Err(e) => return Err(e),
    };
    let owner = match Identifier::parse(snip_uuid.as_str()) {
        Ok(id) => id,
        Err(e) => return Err(e),
    };
    let ts = match Timestamp::parse_rfc3339(timestamp.as_str()) {
        Some(ts) => ts,
        None => return Err(SnipError::StorageError(timestamp)),
    };
    if size != data.len() {
        return Err(SnipError::StorageError(name));
    }
    Ok(Attachment { uuid: id, snip_uuid: owner, timestamp: ts, name, data, size })
}

/// The outcome of a write that must touch exactly one row (inserting or
/// deleting one attachment), given how many rows it affected: anything but
/// exactly one is a storage error.
pub fn one_row_outcome(rows_affected: usize) -> (r: Result<(), SnipError>)
    ensures
        r is Ok <==> rows_affected == 1,
        r matches Err(e) ==> e matches SnipError::StorageError(_),
{
    if rows_affected != 1 {
        return Err(SnipError::StorageError(String::from_str("expected exactly one row affected")));
    }
    Ok(())
}

} // verus!
