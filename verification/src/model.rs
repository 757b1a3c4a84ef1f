//! Plain rows of the stored retrospective data, as the service reads them.
use vstd::prelude::*;
use crate::method::RetrospectMethod;

verus! {

/// Progress of one participant's answers.
#[derive(Debug, Clone, Copy, PartialEq, Eq, Structural)]
pub enum RetrospectStatus {
    Draft,
    Submitted,
    Analyzed,
}

/// Whether a participant has submitted (or had analysed) their answers.
pub open spec fn is_submitted(s: RetrospectStatus) -> bool {
    s == RetrospectStatus::Submitted || s == RetrospectStatus::Analyzed
}

/// A retrospective session. Times are seconds since 1970-01-01T00:00:00 (naive).
pub struct RetrospectRow {
    pub retrospect_id: i64,
    pub retrospect_room_id: i64,
    pub title: String,
    pub insight: Option<String>,
    pub retrospect_method: RetrospectMethod,
    pub start_time: i64,
    pub created_at: i64,
    pub updated_at: i64,
}

/// A participant of a retrospective (`member_retro`); `member_id` is `None` once the member left.
pub struct MemberRetroRow {
    pub member_retro_id: i64,
    pub member_id: Option<i64>,
    pub retrospect_id: i64,
    pub status: RetrospectStatus,
    pub personal_insight: Option<String>,
    pub submitted_at: Option<i64>,
}

/// Room roles.
#[derive(Debug, Clone, Copy, PartialEq, Eq, Structural)]
pub enum RoomRole {
    Owner,
    Member,
}

/// A membership of a room (`member_retro_room`).
#[derive(Debug, Clone, Copy)]
pub struct MemberRoomRow {
    pub member_retro_room_id: i64,
    pub member_id: Option<i64>,
    pub retrospect_room_id: i64,
    pub role: RoomRole,
    pub order_index: i32,
    pub created_at: i64,
}

} // verus!
