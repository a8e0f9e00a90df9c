use vstd::prelude::*;

use crate::ids::{hyphenated, identifier_text};

verus! {

/// A review as the table holds it; the nullable columns are options.
pub struct ReviewRow {
    pub id: u128,
    pub tenant_id: String,
    pub app_id: String,
    pub user_id: String,
    pub score: u32,
    pub comment: Option<String>,
    /// Microseconds since the Unix epoch, UTC.
    pub created_at: Option<i64>,
    pub is_moderated: Option<bool>,
    pub moderation_status: Option<i32>,
    pub moderator_id: Option<String>,
    pub moderation_note: Option<String>,
}

/// A review as callers see it.
pub struct Review {
    pub id: String,
    pub tenant_id: String,
    pub app_id: String,
    pub user_id: String,
    pub score: u32,
    pub comment: String,
    /// Microseconds since the Unix epoch, UTC.
    pub created_at: i64,
    pub is_moderated: bool,
    pub moderation_status: i32,
}

/// A moderator's decision on one review.
pub struct Moderation {
    pub status: i32,
    pub moderator_id: String,
    pub note: String,
}

/// The text of an optional column, empty where it is absent.
pub open spec fn text_or_empty(o: Option<String>) -> Seq<char> {
    match o {
        Some(s) => s@,
        None => Seq::empty(),
    }
}

/// `r` is the caller's view of `row`, with `now` standing in for a missing
/// creation time.
pub open spec fn presents(r: Review, row: ReviewRow, now: i64) -> bool {
    &&& r.id@ == hyphenated(row.id)
    &&& r.tenant_id == row.tenant_id
    &&& r.app_id == row.app_id
    &&& r.user_id == row.user_id
    &&& r.score == row.score
    &&& r.comment@ == text_or_empty(row.comment)
    &&& r.created_at == match row.created_at {
        Some(t) => t,
        None => now,
    }
    &&& r.is_moderated == match row.is_moderated {
        Some(b) => b,
        None => false,
    }
    &&& r.moderation_status == match row.moderation_status {
        Some(s) => s,
        None => 0,
    }
}

/// The row after a moderation: the four moderation columns are overwritten,
/// the rest is kept.
pub open spec fn moderated(row: ReviewRow, m: Moderation) -> ReviewRow {
    ReviewRow {
        is_moderated: Some(true),
        moderation_status: Some(m.status),
        moderator_id: Some(m.moderator_id),
        moderation_note: Some(m.note),
        ..row
    }
}

fn copy_text(o: &Option<String>) -> (r: Option<String>)
    ensures
        r == *o,
{
    match o {
        Some(s) => Some(s.clone()),
        None => None,
    }
}

impl ReviewRow {
    pub fn copy(&self) -> (r: ReviewRow)
        ensures
            r == *self,
    {
        ReviewRow {
            id: self.id,
            tenant_id: self.tenant_id.clone(),
            app_id: self.app_id.clone(),
            user_id: self.user_id.clone(),
            score: self.score,
            comment: copy_text(&self.comment),
            created_at: self.created_at,
            is_moderated: self.is_moderated,
            moderation_status: self.moderation_status,
            moderator_id: copy_text(&self.moderator_id),
            moderation_note: copy_text(&self.moderation_note),
        }
    }

    pub fn with_moderation(&self, m: &Moderation) -> (r: ReviewRow)
        ensures
            r == moderated(*self, *m),
    {
        ReviewRow {
            id: self.id,
            tenant_id: self.tenant_id.clone(),
            app_id: self.app_id.clone(),
            user_id: self.user_id.clone(),
            score: self.score,
            comment: copy_text(&self.comment),
            created_at: self.created_at,
            is_moderated: Some(true),
            moderation_status: Some(m.status),
            moderator_id: Some(m.moderator_id.clone()),
            moderation_note: Some(m.note.clone()),
        }
    }
}

impl Review {
    /// Maps a stored row to a review: a missing comment becomes empty, a
    /// missing creation time becomes `now`, a missing moderation flag false
    /// and a missing status 0.
    pub fn from_row(row: &ReviewRow, now: i64) -> (r: Review)
        ensures
            presents(r, *row, now),
    {
        let comment = match &row.comment {
            Some(c) => c.clone(),
            None => String::new(),
        };
        let created_at = match row.created_at {
            Some(t) => t,
            None => now,
        };
        let is_moderated = match row.is_moderated {
            Some(b) => b,
            None => false,
        };
        let moderation_status = match row.moderation_status {
            Some(s) => s,
            None => 0,
        };
        Review {
            id: identifier_text(row.id),
            tenant_id: row.tenant_id.clone(),
            app_id: row.app_id.clone(),
            user_id: row.user_id.clone(),
            score: row.score,
            comment,
            created_at,
            is_moderated,
            moderation_status,
        }
    }
}

} // verus!
