//! Reading snapshots from text: the body of a poll, or one line of a
//! recording, which holds one JSON object per line.

use crate::json::{members, parse_object, parsed};
use crate::path::Object;
use vstd::prelude::*;

verus! {

/// Why a text could not be read as a snapshot.
pub enum ReplayError {
    /// The text is no JSON object; the parser's own report is enclosed.
    Malformed(serde_json::Error),
}

/// Reads `text` as a snapshot.
pub fn read_snapshot(text: &str) -> (snapshot: Result<Object, ReplayError>)
    ensures
        match snapshot {
            Ok(object) => parsed(text@) == Some(members(object)),
            Err(ReplayError::Malformed(_)) => parsed(text@).is_none(),
        },
{
    match parse_object(text) {
        Ok(object) => Ok(object),
        Err(cause) => Err(ReplayError::Malformed(cause)),
    }
}

/// What one line of a recording holds.
pub enum Record {
    /// Nothing: the line is empty and is passed over.
    Blank,
    /// A snapshot.
    Snapshot(Object),
    /// Something that is no snapshot, which ends the replay.
    Broken(ReplayError),
}

/// Reads one line of a recording.
pub fn read_record(point: &str) -> (record: Record)
    ensures
        match record {
            Record::Blank => point@.len() == 0,
            Record::Snapshot(object) => point@.len() > 0 && parsed(point@) == Some(
                members(object),
            ),
            Record::Broken(_) => point@.len() > 0 && parsed(point@).is_none(),
        },
{
    if point.is_empty() {
        Record::Blank
    } else {
        match read_snapshot(point) {
            Ok(object) => Record::Snapshot(object),
            Err(error) => Record::Broken(error),
        }
    }
}

} // verus!
