use vstd::prelude::*;
use vstd::string::*;

use crate::text::join_text;

verus! {

/// A recorded meeting as the history page lists it.
#[derive(Clone, Debug, PartialEq, Eq)]
pub struct MeetingSummary {
    pub id: String,
    pub title: String,
    pub status: String,
    pub started_at: i64,
    pub ended_at: Option<i64>,
    pub duration_ms: Option<i64>,
}

/// One transcript segment of a meeting.
#[derive(Clone, Debug, PartialEq, Eq)]
pub struct MeetingSegment {
    pub segment_id: String,
    pub meeting_id: String,
    pub channel: String,
    pub speaker: Option<String>,
    pub start_ms: i64,
    pub end_ms: i64,
    pub transcript: String,
    pub is_partial: bool,
}

/// Whether the meetings database can be read yet.
#[derive(Clone, Copy, Debug, PartialEq, Eq, Structural)]
pub struct MeetingsStateStatus {
    pub available: bool,
}

/// How many meetings a listing asks for when the caller names no limit.
pub const DEFAULT_MEETINGS_LIMIT: i64 = 50;

/// The fewest meetings a listing returns at most.
pub const MIN_MEETINGS_LIMIT: i64 = 1;

/// The most meetings one listing returns.
pub const MAX_MEETINGS_LIMIT: i64 = 500;

/// The limit a listing runs with: the requested one, or 50 when none is
/// named, held between 1 and 500.
pub open spec fn effective_limit(requested: Option<i64>) -> i64 {
    let limit = match requested {
        Some(l) => l,
        None => DEFAULT_MEETINGS_LIMIT,
    };
    if limit < MIN_MEETINGS_LIMIT {
        MIN_MEETINGS_LIMIT
    } else if limit > MAX_MEETINGS_LIMIT {
        MAX_MEETINGS_LIMIT
    } else {
        limit
    }
}

/// The limit a listing runs with: the requested one, or 50 when none is
/// named, held between 1 and 500.
pub fn meetings_limit(requested: Option<i64>) -> (res: i64)
    ensures
        res == effective_limit(requested),
        MIN_MEETINGS_LIMIT <= res <= MAX_MEETINGS_LIMIT,
{
    let limit = match requested {
        Some(l) => l,
        None => DEFAULT_MEETINGS_LIMIT,
    };
    if limit < MIN_MEETINGS_LIMIT {
        MIN_MEETINGS_LIMIT
    } else if limit > MAX_MEETINGS_LIMIT {
        MAX_MEETINGS_LIMIT
    } else {
        limit
    }
}

/// Reads the stored partial-transcript flag: any value but zero is set.
pub fn partial_flag(stored: i64) -> (res: bool)
    ensures
        res == (stored != 0),
{
    stored != 0
}

/// A requested limit from 1 to 500 is used as it is; a smaller one gives 1,
/// a larger one 500, and none gives 50.
pub proof fn a_limit_in_range_is_kept(l: i64)
    ensures
        1 <= l <= 500 ==> effective_limit(Some(l)) == l,
        l < 1 ==> effective_limit(Some(l)) == 1,
        l > 500 ==> effective_limit(Some(l)) == 500,
        effective_limit(None) == 50,
        1 <= effective_limit(Some(l)) <= 500,
{
}

/// The error while no meetings database exists yet.
pub open spec fn meetings_unavailable_error() -> Seq<char> {
    "meetings database not yet available; start a meeting first"@
}

/// The error while no meetings database exists yet.
pub fn meetings_unavailable() -> (res: String)
    ensures
        res@ == meetings_unavailable_error(),
{
    String::from_str("meetings database not yet available; start a meeting first")
}

/// The message for a database file that is missing at `path`.
pub open spec fn database_missing_message(path: Seq<char>) -> Seq<char> {
    "meetings database not found at "@ + path + "; start a meeting first to create it"@
}

/// The message for a database file that is missing at `path`.
pub fn database_missing(path: &str) -> (res: String)
    ensures
        res@ == database_missing_message(path@),
{
    let head = join_text("meetings database not found at ", path);
    join_text(head.as_str(), "; start a meeting first to create it")
}

} // verus!
