use vstd::prelude::*;

use crate::review::{moderated, Moderation, ReviewRow};

verus! {

/// The tenant and application that every read and write is confined to.
pub struct Scope {
    pub tenant_id: String,
    pub app_id: String,
}

/// What a listing selects: one scope, and optionally moderated reviews only.
pub struct ListFilter {
    pub scope: Scope,
    pub moderated_only: bool,
}

#[derive(PartialEq, Eq, Structural, Clone, Copy, Debug)]
pub enum StoreError {
    /// A row with that identifier is already stored.
    DuplicateId,
    /// No row has that identifier under that tenant.
    NotFound,
}

/// One page of a listing, with the count and the score total of everything
/// that the filter selects.
pub struct Listing {
    pub rows: Vec<ReviewRow>,
    pub total_count: usize,
    pub score_sum: u128,
}

pub open spec fn selects(f: ListFilter, row: ReviewRow) -> bool {
    &&& row.tenant_id@ == f.scope.tenant_id@
    &&& row.app_id@ == f.scope.app_id@
    &&& (f.moderated_only ==> row.is_moderated == Some(true))
}

/// The rows that `f` selects, newest first: the table keeps rows in order of
/// insertion, so the last selected row comes first.
pub open spec fn newest_first(rows: Seq<ReviewRow>, f: ListFilter) -> Seq<ReviewRow>
    decreases rows.len(),
{
    if rows.len() == 0 {
        Seq::empty()
    } else {
        let rest = newest_first(rows.drop_first(), f);
        if selects(f, rows[0]) {
            rest.push(rows[0])
        } else {
            rest
        }
    }
}

/// At most `size` items of `s` from position `offset` on.
pub open spec fn window(s: Seq<ReviewRow>, offset: int, size: int) -> Seq<ReviewRow> {
    let lo = if offset < s.len() { offset } else { s.len() as int };
    let hi = if offset + size < s.len() { offset + size } else { s.len() as int };
    s.subrange(lo, hi)
}

pub open spec fn score_total(s: Seq<ReviewRow>) -> int
    decreases s.len(),
{
    if s.len() == 0 {
        0
    } else {
        score_total(s.drop_last()) + s.last().score
    }
}

pub open spec fn created(row: ReviewRow) -> int {
    match row.created_at {
        Some(t) => t as int,
        None => 0,
    }
}

/// The creation time that the table gives a row inserted at `now`: never
/// earlier than that of the last row, so insertion order is time order.
pub open spec fn stamp(rows: Seq<ReviewRow>, now: i64) -> i64 {
    if rows.len() == 0 || now as int >= created(rows.last()) {
        now
    } else {
        rows.last().created_at.unwrap()
    }
}

pub open spec fn has_id(rows: Seq<ReviewRow>, id: u128) -> bool {
    exists|i: int| 0 <= i < rows.len() && rows[i].id == id
}

pub open spec fn targets(row: ReviewRow, tenant_id: Seq<char>, id: u128) -> bool {
    row.id == id && row.tenant_id@ == tenant_id
}

/// The table after moderating review `id` under `tenant_id`; rows of other
/// tenants are untouched.
pub open spec fn moderate_rows(rows: Seq<ReviewRow>, tenant_id: Seq<char>, id: u128, m: Moderation) -> Seq<ReviewRow> {
    Seq::new(
        rows.len(),
        |i: int|
            if targets(rows[i], tenant_id, id) {
                moderated(rows[i], m)
            } else {
                rows[i]
            },
    )
}

/// A fresh row as `create` inserts it.
pub open spec fn fresh_row(
    row: ReviewRow,
    scope: Scope,
    user_id: String,
    score: u32,
    comment: String,
    id: u128,
    created_at: i64,
) -> bool {
    &&& row.id == id
    &&& row.tenant_id == scope.tenant_id
    &&& row.app_id == scope.app_id
    &&& row.user_id == user_id
    &&& row.score == score
    &&& row.comment == Some(comment)
    &&& row.created_at == Some(created_at)
    &&& row.is_moderated == Some(false)
    &&& row.moderation_status == Some(0i32)
    &&& row.moderator_id.is_none()
    &&& row.moderation_note.is_none()
}

/// Identifiers are unique, every row has a creation time, and rows stand in
/// order of creation time.
pub open spec fn well_formed_rows(rows: Seq<ReviewRow>) -> bool {
    &&& forall|i: int, j: int| 0 <= i < j < rows.len() ==> rows[i].id != rows[j].id
    &&& forall|i: int| 0 <= i < rows.len() ==> (#[trigger] rows[i]).created_at.is_some()
    &&& forall|i: int, j: int| 0 <= i <= j < rows.len() ==> created(rows[i]) <= created(rows[j])
}

pub proof fn lemma_window_push(s: Seq<ReviewRow>, x: ReviewRow, offset: int, size: int)
    requires
        0 <= offset,
        0 <= size,
    ensures
        window(s.push(x), offset, size) == if offset <= s.len() < offset + size {
            window(s, offset, size).push(x)
        } else {
            window(s, offset, size)
        },
{
    if offset <= s.len() < offset + size {
        assert(window(s.push(x), offset, size) =~= window(s, offset, size).push(x));
    } else {
        assert(window(s.push(x), offset, size) =~= window(s, offset, size));
    }
}

pub proof fn lemma_score_push(s: Seq<ReviewRow>, x: ReviewRow)
    ensures
        score_total(s.push(x)) == score_total(s) + x.score,
{
    assert(s.push(x).drop_last() =~= s);
}

pub proof fn lemma_score_bound(s: Seq<ReviewRow>)
    ensures
        0 <= score_total(s) <= s.len() * 0xffff_ffff,
    decreases s.len(),
{
    if s.len() > 0 {
        lemma_score_bound(s.drop_last());
    }
}

pub fn selects_row(f: &ListFilter, row: &ReviewRow) -> (r: bool)
    ensures
        r == selects(*f, *row),
{
    let moderated_ok = if f.moderated_only {
        match row.is_moderated {
            Some(b) => b,
            None => false,
        }
    } else {
        true
    };
    row.tenant_id == f.scope.tenant_id && row.app_id == f.scope.app_id && moderated_ok
}

/// The review table: rows in order of insertion.
pub struct ReviewStore {
    rows: Vec<ReviewRow>,
}

impl View for ReviewStore {
    type V = Seq<ReviewRow>;

    closed spec fn view(&self) -> Seq<ReviewRow> {
        self.rows@
    }
}

impl ReviewStore {
    pub open spec fn wf(&self) -> bool {
        well_formed_rows(self@)
    }

    pub fn new() -> (r: ReviewStore)
        ensures
            r.wf(),
            r@ == Seq::<ReviewRow>::empty(),
    {
        ReviewStore { rows: Vec::new() }
    }

    pub fn len(&self) -> (r: usize)
        ensures
            r == self@.len(),
    {
        self.rows.len()
    }

    /// The page `page` of `page_size` rows that `f` selects, newest first,
    /// with the count and the score total of all rows that it selects.
    pub fn list(&self, f: &ListFilter, page: u32, page_size: u32) -> (r: Listing)
        requires
            self.wf(),
        ensures
            r.rows@ == window(newest_first(self@, *f), page * page_size, page_size as int),
            r.total_count == newest_first(self@, *f).len(),
            r.score_sum == score_total(newest_first(self@, *f)),
    {
        proof {
            assert(page * page_size <= 0xffff_ffff * 0xffff_ffff) by (nonlinear_arith)
                requires
                    page <= 0xffff_ffff,
                    page_size <= 0xffff_ffff,
            ;
        }
        let offset: u64 = page as u64 * page_size as u64;
        let end: u64 = offset + page_size as u64;
        let mut out: Vec<ReviewRow> = Vec::new();
        let mut count: usize = 0;
        let mut sum: u128 = 0;
        let mut i: usize = self.rows.len();
        while i > 0
            invariant
                i <= self.rows.len(),
                offset == page * page_size,
                end == offset + page_size,
                count == newest_first(self@.subrange(i as int, self@.len() as int), *f).len(),
                count <= self@.len() - i,
                sum == score_total(newest_first(self@.subrange(i as int, self@.len() as int), *f)),
                out@ == window(
                    newest_first(self@.subrange(i as int, self@.len() as int), *f),
                    offset as int,
                    page_size as int,
                ),
            decreases i,
        {
            let ghost before = newest_first(self@.subrange(i as int, self@.len() as int), *f);
            i = i - 1;
            let row = &self.rows[i];
            proof {
                let sub = self@.subrange(i as int, self@.len() as int);
                assert(sub.drop_first() =~= self@.subrange(i + 1, self@.len() as int));
                assert(sub[0] == self@[i as int]);
                lemma_window_push(before, *row, offset as int, page_size as int);
                lemma_score_push(before, *row);
                lemma_score_bound(before);
            }
            if selects_row(f, row) {
                if offset <= count as u64 && (count as u64) < end {
                    out.push(row.copy());
                }
                proof {
                    assert(count * 0xffff_ffff + 0xffff_ffff < 0x1_0000_0000_0000_0000_0000_0000_0000_0000)
                        by (nonlinear_arith)
                        requires
                            count < 0x1_0000_0000_0000_0000,
                    ;
                }
                sum = sum + row.score as u128;
                count = count + 1;
            }
        }
        proof {
            assert(self@.subrange(0, self@.len() as int) =~= self@);
        }
        Listing { rows: out, total_count: count, score_sum: sum }
    }

    /// Inserts a new, unmoderated review with identifier `id`. Its creation
    /// time is `now`, or that of the newest row where the clock went back.
    pub fn create(
        &mut self,
        scope: &Scope,
        user_id: String,
        score: u32,
        comment: String,
        id: u128,
        now: i64,
    ) -> (r: Result<ReviewRow, StoreError>)
        requires
            old(self).wf(),
        ensures
            final(self).wf(),
            r is Err <==> has_id(old(self)@, id),
            r matches Err(e) ==> e == StoreError::DuplicateId && final(self)@ == old(self)@,
            r matches Ok(row) ==> fresh_row(row, *scope, user_id, score, comment, id, stamp(old(self)@, now))
                && final(self)@ == old(self)@.push(row),
    {
        let n = self.rows.len();
        let mut i: usize = 0;
        while i < n
            invariant
                n == self@.len(),
                i <= n,
                self.wf(),
                self@ == old(self)@,
                forall|k: int| 0 <= k < i ==> self@[k].id != id,
            decreases n - i,
        {
            if self.rows[i].id == id {
                return Err(StoreError::DuplicateId);
            }
            i = i + 1;
        }
        let created_at: i64 = if n == 0 {
            now
        } else {
            let last = self.rows[n - 1].created_at.unwrap();
            if now >= last {
                now
            } else {
                last
            }
        };
        let row = ReviewRow {
            id,
            tenant_id: scope.tenant_id.clone(),
            app_id: scope.app_id.clone(),
            user_id,
            score,
            comment: Some(comment),
            created_at: Some(created_at),
            is_moderated: Some(false),
            moderation_status: Some(0),
            moderator_id: None,
            moderation_note: None,
        };
        let ghost before = self@;
        self.rows.push(row.copy());
        proof {
            assert(self@ == before.push(row));
            assert forall|a: int, b: int| 0 <= a <= b < self@.len() implies created(self@[a]) <= created(
                self@[b],
            ) by {
                if b == before.len() && a < b {
                    assert(created(before[a]) <= created(before.last()));
                }
            }
        }
        Ok(row)
    }

    /// Records moderation `m` on review `id` of tenant `tenant_id`,
    /// overwriting any earlier moderation, and returns the updated row.
    pub fn moderate(&mut self, tenant_id: &String, id: u128, m: &Moderation) -> (r: Result<ReviewRow, StoreError>)
        requires
            old(self).wf(),
        ensures
            final(self).wf(),
            final(self)@ == moderate_rows(old(self)@, tenant_id@, id, *m),
            r is Err <==> !(exists|i: int| 0 <= i < old(self)@.len() && targets(old(self)@[i], tenant_id@, id)),
            r matches Err(e) ==> e == StoreError::NotFound,
            r matches Ok(row) ==> exists|i: int|
                0 <= i < old(self)@.len() && targets(old(self)@[i], tenant_id@, id) && row == moderated(old(self)@[i], *m),
    {
        let ghost before = self@;
        let n = self.rows.len();
        let mut found: Option<ReviewRow> = None;
        let mut i: usize = 0;
        while i < n
            invariant
                n == before.len(),
                self@.len() == n,
                i <= n,
                forall|k: int| 0 <= k < i ==> #[trigger] self@[k] == moderate_rows(before, tenant_id@, id, *m)[k],
                forall|k: int| i <= k < n ==> #[trigger] self@[k] == before[k],
                found is None <==> !(exists|k: int| 0 <= k < i && targets(before[k], tenant_id@, id)),
                found matches Some(row) ==> exists|k: int|
                    0 <= k < i && targets(before[k], tenant_id@, id) && row == moderated(before[k], *m),
            decreases n - i,
        {
            if self.rows[i].id == id && self.rows[i].tenant_id == *tenant_id {
                let updated = self.rows[i].with_moderation(m);
                found = Some(updated.copy());
                self.rows[i] = updated;
            }
            i = i + 1;
        }
        proof {
            assert(self@ =~= moderate_rows(before, tenant_id@, id, *m));
        }
        match found {
            Some(row) => Ok(row),
            None => Err(StoreError::NotFound),
        }
    }
}

} // verus!
