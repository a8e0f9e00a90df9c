use vstd::prelude::*;

use crate::ids::{identifier_of, parse_identifier};
use crate::review::{moderated, presents, Moderation, Review, ReviewRow};
use crate::store::{
    fresh_row, has_id, moderate_rows, newest_first, score_total, stamp, targets, window,
    ListFilter, ReviewStore, Scope, StoreError,
};

verus! {

/// The highest score a review may give.
pub const MAX_SCORE: u32 = 100;

pub struct AddReviewRequest {
    pub tenant_id: String,
    pub app_id: String,
    pub user_id: String,
    pub score: u32,
    pub comment: String,
}

pub struct AddReviewResponse {
    pub review: Review,
    pub success: bool,
    pub message: String,
}

pub struct GetReviewsRequest {
    pub tenant_id: String,
    pub app_id: String,
    pub include_moderated_only: bool,
    pub page: u32,
    pub page_size: u32,
}

/// One page of reviews; the mean score of all matching reviews is
/// `score_sum / total_count`, or 0 where `total_count` is 0.
pub struct GetReviewsResponse {
    pub reviews: Vec<Review>,
    pub total_count: usize,
    pub score_sum: u128,
}

pub struct ModerateCommentRequest {
    pub tenant_id: String,
    pub review_id: String,
    pub moderation_status: i32,
    pub moderator_id: String,
    pub moderation_note: String,
}

pub struct ModerateCommentResponse {
    pub success: bool,
    pub message: String,
    pub updated_review: Review,
}

#[derive(PartialEq, Eq, Structural, Clone, Copy, Debug)]
pub enum ServiceError {
    /// The request is malformed: a score above the bound, or a review
    /// identifier that does not parse.
    InvalidArgument,
    /// No review has that identifier under that tenant.
    NotFound,
    /// The storage refused the operation.
    Internal,
}

pub open spec fn request_scope(tenant_id: String, app_id: String) -> Scope {
    Scope { tenant_id, app_id }
}

pub open spec fn request_filter(req: GetReviewsRequest) -> ListFilter {
    ListFilter { scope: request_scope(req.tenant_id, req.app_id), moderated_only: req.include_moderated_only }
}

pub open spec fn request_moderation(req: ModerateCommentRequest) -> Moderation {
    Moderation { status: req.moderation_status, moderator_id: req.moderator_id, note: req.moderation_note }
}

/// The reviews of one page, in the order of the rows they present.
pub open spec fn presents_all(reviews: Seq<Review>, rows: Seq<ReviewRow>, now: i64) -> bool {
    &&& reviews.len() == rows.len()
    &&& forall|k: int| 0 <= k < rows.len() ==> presents(#[trigger] reviews[k], rows[k], now)
}

pub struct ReviewServiceImpl {
    store: ReviewStore,
}

impl View for ReviewServiceImpl {
    type V = Seq<ReviewRow>;

    closed spec fn view(&self) -> Seq<ReviewRow> {
        self.store@
    }
}

impl ReviewServiceImpl {
    pub closed spec fn wf(&self) -> bool {
        self.store.wf()
    }

    pub fn new() -> (r: ReviewServiceImpl)
        ensures
            r.wf(),
            r@ == Seq::<ReviewRow>::empty(),
    {
        ReviewServiceImpl { store: ReviewStore::new() }
    }

    /// Stores a new review with identifier `id` created at `now`.
    pub fn add_review(&mut self, req: AddReviewRequest, id: u128, now: i64) -> (r: Result<AddReviewResponse, ServiceError>)
        requires
            old(self).wf(),
        ensures
            final(self).wf(),
            r is Err <==> (req.score > MAX_SCORE || has_id(old(self)@, id)),
            req.score > MAX_SCORE ==> r == Err::<AddReviewResponse, ServiceError>(ServiceError::InvalidArgument),
            req.score <= MAX_SCORE && has_id(old(self)@, id) ==> r == Err::<AddReviewResponse, ServiceError>(ServiceError::Internal),
            r is Err ==> final(self)@ == old(self)@,
            r matches Ok(resp) ==> {
                &&& resp.success
                &&& resp.message@ == "Review added successfully"@
                &&& final(self)@ == old(self)@.push(final(self)@.last())
                &&& fresh_row(
                    final(self)@.last(),
                    request_scope(req.tenant_id, req.app_id),
                    req.user_id,
                    req.score,
                    req.comment,
                    id,
                    stamp(old(self)@, now),
                )
                &&& presents(resp.review, final(self)@.last(), now)
            },
    {
        if req.score > MAX_SCORE {
            return Err(ServiceError::InvalidArgument);
        }
        let scope = Scope { tenant_id: req.tenant_id, app_id: req.app_id };
        match self.store.create(&scope, req.user_id, req.score, req.comment, id, now) {
            Ok(row) => {
                let review = Review::from_row(&row, now);
                let message = "Review added successfully".to_owned();
                proof {
                    reveal_strlit("Review added successfully");
                }
                Ok(AddReviewResponse { review, success: true, message })
            },
            Err(_) => Err(ServiceError::Internal),
        }
    }

    /// One page of the reviews that the request selects, newest first, with
    /// the count and score total of all of them; `now` stands in for a
    /// missing creation time.
    pub fn get_reviews(&self, req: &GetReviewsRequest, now: i64) -> (r: GetReviewsResponse)
        requires
            self.wf(),
        ensures
            presents_all(
                r.reviews@,
                window(newest_first(self@, request_filter(*req)), req.page * req.page_size, req.page_size as int),
                now,
            ),
            r.total_count == newest_first(self@, request_filter(*req)).len(),
            r.score_sum == score_total(newest_first(self@, request_filter(*req))),
    {
        let filter = ListFilter {
            scope: Scope { tenant_id: req.tenant_id.clone(), app_id: req.app_id.clone() },
            moderated_only: req.include_moderated_only,
        };
        let listing = self.store.list(&filter, req.page, req.page_size);
        let mut reviews: Vec<Review> = Vec::new();
        let mut k: usize = 0;
        while k < listing.rows.len()
            invariant
                k <= listing.rows@.len(),
                presents_all(reviews@, listing.rows@.subrange(0, k as int), now),
            decreases listing.rows@.len() - k,
        {
            reviews.push(Review::from_row(&listing.rows[k], now));
            k = k + 1;
            proof {
                assert(listing.rows@.subrange(0, k as int).drop_last() =~= listing.rows@.subrange(0, k - 1));
            }
        }
        proof {
            assert(listing.rows@.subrange(0, k as int) =~= listing.rows@);
            assert(filter == request_filter(*req));
        }
        GetReviewsResponse { reviews, total_count: listing.total_count, score_sum: listing.score_sum }
    }

    /// Records a moderation decision on the review that the request names;
    /// `now` stands in for a missing creation time.
    pub fn moderate_comment(&mut self, req: &ModerateCommentRequest, now: i64) -> (r: Result<ModerateCommentResponse, ServiceError>)
        requires
            old(self).wf(),
        ensures
            final(self).wf(),
            identifier_of(req.review_id@) is None ==> r == Err::<ModerateCommentResponse, ServiceError>(ServiceError::InvalidArgument)
                && final(self)@ == old(self)@,
            identifier_of(req.review_id@) matches Some(id) ==> final(self)@ == moderate_rows(
                old(self)@,
                req.tenant_id@,
                id,
                request_moderation(*req),
            ),
            identifier_of(req.review_id@) matches Some(id) ==> (r is Err <==> !(exists|i: int|
                0 <= i < old(self)@.len() && targets(old(self)@[i], req.tenant_id@, id))),
            identifier_of(req.review_id@) is Some && r is Err ==> r == Err::<ModerateCommentResponse, ServiceError>(
                ServiceError::NotFound,
            ),
            r matches Ok(resp) ==> resp.success && resp.message@ == "Comment moderated successfully"@,
            r matches Ok(resp) ==> exists|i: int|
                0 <= i < old(self)@.len() && targets(old(self)@[i], req.tenant_id@, identifier_of(req.review_id@)->0)
                    && presents(resp.updated_review, moderated(old(self)@[i], request_moderation(*req)), now),
    {
        let id = match parse_identifier(req.review_id.as_str()) {
            Some(id) => id,
            None => {
                return Err(ServiceError::InvalidArgument);
            },
        };
        let m = Moderation {
            status: req.moderation_status,
            moderator_id: req.moderator_id.clone(),
            note: req.moderation_note.clone(),
        };
        assert(m == request_moderation(*req));
        assert(identifier_of(req.review_id@) == Some(id));
        match self.store.moderate(&req.tenant_id, id, &m) {
            Ok(row) => {
                let updated_review = Review::from_row(&row, now);
                let message = "Comment moderated successfully".to_owned();
                proof {
                    reveal_strlit("Comment moderated successfully");
                }
                Ok(ModerateCommentResponse { success: true, message, updated_review })
            },
            Err(e) => {
                assert(e == StoreError::NotFound);
                Err(ServiceError::NotFound)
            },
        }
    }
}

} // verus!
