use reviews::review::{Review, ReviewRow};
use reviews::service::{
    AddReviewRequest, GetReviewsRequest, ModerateCommentRequest, ReviewServiceImpl, ServiceError,
    MAX_SCORE,
};

const T0: i64 = 1_700_000_000_000_000;
const ID_A: u128 = 0x67e5_5044_10b1_426f_9247_bb68_0e5f_e0c8;

fn add(svc: &mut ReviewServiceImpl, tenant: &str, app: &str, user: &str, score: u32, comment: &str, id: u128, now: i64) -> Review {
    let req = AddReviewRequest {
        tenant_id: tenant.to_string(),
        app_id: app.to_string(),
        user_id: user.to_string(),
        score,
        comment: comment.to_string(),
    };
    svc.add_review(req, id, now).expect("add_review").review
}

fn get(svc: &ReviewServiceImpl, tenant: &str, app: &str, moderated_only: bool, page: u32, page_size: u32) -> reviews::service::GetReviewsResponse {
    let req = GetReviewsRequest {
        tenant_id: tenant.to_string(),
        app_id: app.to_string(),
        include_moderated_only: moderated_only,
        page,
        page_size,
    };
    svc.get_reviews(&req, T0)
}

fn moderate(svc: &mut ReviewServiceImpl, tenant: &str, review_id: &str, status: i32, moderator: &str, note: &str) -> Result<Review, ServiceError> {
    let req = ModerateCommentRequest {
        tenant_id: tenant.to_string(),
        review_id: review_id.to_string(),
        moderation_status: status,
        moderator_id: moderator.to_string(),
        moderation_note: note.to_string(),
    };
    svc.moderate_comment(&req, T0).map(|r| {
        assert!(r.success);
        assert_eq!(r.message, "Comment moderated successfully");
        r.updated_review
    })
}

fn average(resp: &reviews::service::GetReviewsResponse) -> f64 {
    if resp.total_count == 0 {
        0.0
    } else {
        resp.score_sum as f64 / resp.total_count as f64
    }
}

#[test]
fn scenario_a_add_review() {
    let mut svc = ReviewServiceImpl::new();
    let req = AddReviewRequest {
        tenant_id: "t1".to_string(),
        app_id: "a1".to_string(),
        user_id: "u1".to_string(),
        score: 5,
        comment: "great".to_string(),
    };
    let resp = svc.add_review(req, ID_A, T0).expect("added");
    assert!(resp.success);
    assert_eq!(resp.message, "Review added successfully");
    let r = resp.review;
    assert_eq!(r.id, "67e55044-10b1-426f-9247-bb680e5fe0c8");
    assert_eq!(r.tenant_id, "t1");
    assert_eq!(r.app_id, "a1");
    assert_eq!(r.user_id, "u1");
    assert_eq!(r.score, 5);
    assert_eq!(r.comment, "great");
    assert_eq!(r.created_at, T0);
    assert!(!r.is_moderated);
    assert_eq!(r.moderation_status, 0);
}

#[test]
fn scenario_b_page_and_aggregate() {
    let mut svc = ReviewServiceImpl::new();
    add(&mut svc, "t1", "a1", "u1", 1, "one", 1, T0);
    add(&mut svc, "t1", "a1", "u2", 3, "three", 2, T0 + 1);
    add(&mut svc, "t1", "a1", "u3", 5, "five", 3, T0 + 2);
    let resp = get(&svc, "t1", "a1", false, 0, 2);
    assert_eq!(resp.reviews.len(), 2);
    assert_eq!(resp.reviews[0].score, 5);
    assert_eq!(resp.reviews[1].score, 3);
    assert_eq!(resp.total_count, 3);
    assert_eq!(resp.score_sum, 9);
    assert_eq!(average(&resp), 3.0);
}

#[test]
fn scenario_c_moderate() {
    let mut svc = ReviewServiceImpl::new();
    let a = add(&mut svc, "t1", "a1", "u1", 5, "great", ID_A, T0);
    let r = moderate(&mut svc, "t1", &a.id, 2, "mod1", "ok").expect("moderated");
    assert!(r.is_moderated);
    assert_eq!(r.moderation_status, 2);
    assert_eq!(r.id, a.id);
    assert_eq!(r.comment, "great");
    assert_eq!(r.created_at, T0);
}

#[test]
fn scenario_d_malformed_id() {
    let mut svc = ReviewServiceImpl::new();
    add(&mut svc, "t1", "a1", "u1", 5, "great", ID_A, T0);
    let r = moderate(&mut svc, "t1", "not-an-identifier", 2, "mod1", "ok");
    assert_eq!(r.err(), Some(ServiceError::InvalidArgument));
    assert!(!get(&svc, "t1", "a1", false, 0, 10).reviews[0].is_moderated);
}

#[test]
fn scenario_e_unknown_id() {
    let mut svc = ReviewServiceImpl::new();
    add(&mut svc, "t1", "a1", "u1", 5, "great", ID_A, T0);
    let r = moderate(&mut svc, "t1", "00000000-0000-0000-0000-000000000001", 2, "mod1", "ok");
    assert_eq!(r.err(), Some(ServiceError::NotFound));
}

#[test]
fn simple_form_identifier_is_accepted() {
    let mut svc = ReviewServiceImpl::new();
    add(&mut svc, "t1", "a1", "u1", 5, "great", ID_A, T0);
    let r = moderate(&mut svc, "t1", "67e5504410b1426f9247bb680e5fe0c8", 1, "mod1", "fine").expect("moderated");
    assert_eq!(r.moderation_status, 1);
}

#[test]
fn tenants_are_isolated() {
    let mut svc = ReviewServiceImpl::new();
    let a = add(&mut svc, "t1", "a1", "u1", 4, "mine", ID_A, T0);
    let other = get(&svc, "t2", "a1", false, 0, 10);
    assert!(other.reviews.is_empty());
    assert_eq!(other.total_count, 0);
    assert_eq!(moderate(&mut svc, "t2", &a.id, 3, "mod2", "no").err(), Some(ServiceError::NotFound));
    let own = get(&svc, "t1", "a1", false, 0, 10);
    assert_eq!(own.reviews.len(), 1);
    assert!(!own.reviews[0].is_moderated);
}

#[test]
fn pages_cover_every_review_once() {
    let mut svc = ReviewServiceImpl::new();
    for k in 0..5u32 {
        add(&mut svc, "t1", "a1", "u", k, "c", 100 + k as u128, T0 + k as i64);
    }
    add(&mut svc, "t1", "other", "u", 1, "c", 999, T0 + 10);
    let mut seen = Vec::new();
    for page in 0..4u32 {
        let resp = get(&svc, "t1", "a1", false, page, 2);
        assert_eq!(resp.total_count, 5);
        seen.extend(resp.reviews.into_iter().map(|r| r.score));
    }
    assert_eq!(seen, vec![4, 3, 2, 1, 0]);
}

#[test]
fn zero_page_size_and_far_page_are_empty() {
    let mut svc = ReviewServiceImpl::new();
    add(&mut svc, "t1", "a1", "u", 2, "c", 1, T0);
    add(&mut svc, "t1", "a1", "u", 4, "c", 2, T0 + 1);
    let none = get(&svc, "t1", "a1", false, 0, 0);
    assert!(none.reviews.is_empty());
    assert_eq!(none.total_count, 2);
    assert_eq!(average(&none), 3.0);
    let far = get(&svc, "t1", "a1", false, u32::MAX, u32::MAX);
    assert!(far.reviews.is_empty());
    assert_eq!(far.total_count, 2);
}

#[test]
fn average_is_zero_without_reviews() {
    let svc = ReviewServiceImpl::new();
    let resp = get(&svc, "t1", "a1", false, 0, 10);
    assert_eq!(resp.total_count, 0);
    assert_eq!(resp.score_sum, 0);
    assert_eq!(average(&resp), 0.0);
}

#[test]
fn second_moderation_overwrites_first() {
    let mut svc = ReviewServiceImpl::new();
    let a = add(&mut svc, "t1", "a1", "u1", 5, "great", ID_A, T0);
    moderate(&mut svc, "t1", &a.id, 1, "mod1", "first").expect("first");
    let r = moderate(&mut svc, "t1", &a.id, 3, "mod2", "second").expect("second");
    assert_eq!(r.moderation_status, 3);
    let listed = get(&svc, "t1", "a1", true, 0, 10);
    assert_eq!(listed.reviews.len(), 1);
    assert_eq!(listed.reviews[0].moderation_status, 3);
}

#[test]
fn moderated_only_filter() {
    let mut svc = ReviewServiceImpl::new();
    add(&mut svc, "t1", "a1", "u1", 1, "x", 1, T0);
    let b = add(&mut svc, "t1", "a1", "u2", 4, "y", 2, T0 + 1);
    add(&mut svc, "t1", "a1", "u3", 5, "z", 3, T0 + 2);
    moderate(&mut svc, "t1", &b.id, 2, "mod", "ok").expect("moderated");
    let resp = get(&svc, "t1", "a1", true, 0, 10);
    assert_eq!(resp.reviews.len(), 1);
    assert!(resp.reviews.iter().all(|r| r.is_moderated));
    assert_eq!(resp.reviews[0].id, b.id);
    assert_eq!(resp.total_count, 1);
    assert_eq!(average(&resp), 4.0);
    assert_eq!(get(&svc, "t1", "a1", false, 0, 10).total_count, 3);
}

#[test]
fn duplicate_identifier_is_a_storage_error() {
    let mut svc = ReviewServiceImpl::new();
    add(&mut svc, "t1", "a1", "u1", 5, "great", ID_A, T0);
    let req = AddReviewRequest {
        tenant_id: "t1".to_string(),
        app_id: "a1".to_string(),
        user_id: "u2".to_string(),
        score: 1,
        comment: String::new(),
    };
    assert_eq!(svc.add_review(req, ID_A, T0 + 1).err(), Some(ServiceError::Internal));
    assert_eq!(get(&svc, "t1", "a1", false, 0, 10).total_count, 1);
}

#[test]
fn score_bound_is_enforced() {
    let mut svc = ReviewServiceImpl::new();
    let req = AddReviewRequest {
        tenant_id: "t1".to_string(),
        app_id: "a1".to_string(),
        user_id: "u1".to_string(),
        score: MAX_SCORE + 1,
        comment: String::new(),
    };
    assert_eq!(svc.add_review(req, 1, T0).err(), Some(ServiceError::InvalidArgument));
    let r = add(&mut svc, "t1", "a1", "u1", MAX_SCORE, "", 2, T0);
    assert_eq!(r.score, 100);
    assert_eq!(r.comment, "");
}

#[test]
fn creation_time_never_goes_back() {
    let mut svc = ReviewServiceImpl::new();
    add(&mut svc, "t1", "a1", "u1", 1, "first", 1, T0);
    let b = add(&mut svc, "t1", "a1", "u2", 2, "second", 2, T0 - 50);
    assert_eq!(b.created_at, T0);
    let resp = get(&svc, "t1", "a1", false, 0, 10);
    assert_eq!(resp.reviews[0].score, 2);
    assert_eq!(resp.reviews[1].score, 1);
}

#[test]
fn from_row_fills_missing_columns() {
    let row = ReviewRow {
        id: 0xff,
        tenant_id: "t9".to_string(),
        app_id: "a9".to_string(),
        user_id: "u9".to_string(),
        score: 7,
        comment: None,
        created_at: None,
        is_moderated: None,
        moderation_status: None,
        moderator_id: None,
        moderation_note: None,
    };
    let r = Review::from_row(&row, 42);
    assert_eq!(r.id, "00000000-0000-0000-0000-0000000000ff");
    assert_eq!(r.comment, "");
    assert_eq!(r.created_at, 42);
    assert!(!r.is_moderated);
    assert_eq!(r.moderation_status, 0);
    assert_eq!(r.score, 7);
    assert_eq!(r.tenant_id, "t9");
}

#[test]
fn from_row_keeps_present_columns() {
    let row = ReviewRow {
        id: ID_A,
        tenant_id: "t1".to_string(),
        app_id: "a1".to_string(),
        user_id: "u1".to_string(),
        score: 3,
        comment: Some("hello".to_string()),
        created_at: Some(T0),
        is_moderated: Some(true),
        moderation_status: Some(-1),
        moderator_id: Some("m".to_string()),
        moderation_note: Some("n".to_string()),
    };
    let r = Review::from_row(&row, 0);
    assert_eq!(r.id, "67e55044-10b1-426f-9247-bb680e5fe0c8");
    assert_eq!(r.comment, "hello");
    assert_eq!(r.created_at, T0);
    assert!(r.is_moderated);
    assert_eq!(r.moderation_status, -1);
}
