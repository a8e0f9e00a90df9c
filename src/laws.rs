use vstd::prelude::*;

use crate::review::{Moderation, ReviewRow};
use crate::store::{
    created, moderate_rows, newest_first, selects, targets, well_formed_rows, window, ListFilter,
};

verus! {

/// The pages `0 .. n` of `size` items each, joined in increasing page order.
pub open spec fn pages_joined(s: Seq<ReviewRow>, size: int, n: nat) -> Seq<ReviewRow>
    decreases n,
{
    if n == 0 {
        Seq::empty()
    } else {
        pages_joined(s, size, (n - 1) as nat) + window(s, (n - 1) * size, size)
    }
}

/// Each row of a listing is a selected row of the table; on a well-formed
/// table a listing runs from newest to oldest with no identifier twice, and
/// holds every row that the filter selects.
pub proof fn lemma_newest_first(rows: Seq<ReviewRow>, f: ListFilter)
    ensures
        forall|k: int|
            0 <= k < newest_first(rows, f).len() ==> selects(f, #[trigger] newest_first(rows, f)[k])
                && exists|j: int| 0 <= j < rows.len() && newest_first(rows, f)[k] == rows[j],
        forall|j: int| 0 <= j < rows.len() && selects(f, #[trigger] rows[j]) ==> newest_first(rows, f).contains(rows[j]),
        well_formed_rows(rows) ==> forall|a: int, b: int|
            0 <= a < b < newest_first(rows, f).len() ==> created(newest_first(rows, f)[a]) >= created(
                newest_first(rows, f)[b],
            ) && newest_first(rows, f)[a].id != newest_first(rows, f)[b].id,
    decreases rows.len(),
{
    if rows.len() > 0 {
        let rest = rows.drop_first();
        lemma_newest_first(rest, f);
        let nr = newest_first(rest, f);
        let s = newest_first(rows, f);
        assert forall|k: int| 0 <= k < s.len() implies selects(f, #[trigger] s[k]) && exists|j: int|
            0 <= j < rows.len() && s[k] == rows[j] by {
            if k < nr.len() {
                let j = choose|j: int| 0 <= j < rest.len() && nr[k] == rest[j];
                assert(s[k] == rows[j + 1]);
            } else {
                assert(s[k] == rows[0]);
            }
        }
        assert forall|j: int| 0 <= j < rows.len() && selects(f, #[trigger] rows[j]) implies s.contains(rows[j]) by {
            if j == 0 {
                assert(s[s.len() - 1] == rows[0]);
            } else {
                assert(rows[j] == rest[j - 1]);
                let k = choose|k: int| 0 <= k < nr.len() && nr[k] == rest[j - 1];
                assert(s[k] == rows[j]);
            }
        }
        if well_formed_rows(rows) {
            assert(well_formed_rows(rest)) by {
                assert forall|i: int| 0 <= i < rest.len() implies (#[trigger] rest[i]).created_at.is_some() by {
                    assert(rest[i] == rows[i + 1]);
                }
                assert forall|a: int, b: int| 0 <= a <= b < rest.len() implies created(rest[a]) <= created(rest[b]) by {
                    assert(rest[a] == rows[a + 1] && rest[b] == rows[b + 1]);
                }
                assert forall|a: int, b: int| 0 <= a < b < rest.len() implies rest[a].id != rest[b].id by {
                    assert(rest[a] == rows[a + 1] && rest[b] == rows[b + 1]);
                }
            }
            assert forall|a: int, b: int| 0 <= a < b < s.len() implies created(s[a]) >= created(s[b]) && s[a].id
                != s[b].id by {
                if b >= nr.len() {
                    assert(s[b] == rows[0]);
                    assert(s[a] == nr[a]);
                    let j = choose|j: int| 0 <= j < rest.len() && nr[a] == rest[j];
                    assert(nr[a] == rows[j + 1]);
                } else {
                    assert(s[a] == nr[a] && s[b] == nr[b]);
                }
            }
        }
    }
}

/// Joining the first `n` pages gives the first `n * size` items.
pub proof fn lemma_pages_joined(s: Seq<ReviewRow>, size: int, n: nat)
    requires
        size > 0,
    ensures
        pages_joined(s, size, n) == s.subrange(0, if n * size < s.len() { n * size } else { s.len() as int }),
    decreases n,
{
    if n > 0 {
        lemma_pages_joined(s, size, (n - 1) as nat);
        assert((n - 1) * size + size == n * size) by (nonlinear_arith);
        assert((n - 1) * size >= 0) by (nonlinear_arith)
            requires
                n >= 1,
                size > 0,
        ;
        assert(pages_joined(s, size, n) =~= s.subrange(
            0,
            if n * size < s.len() { n * size } else { s.len() as int },
        ));
    } else {
        assert(n * size == 0) by (nonlinear_arith)
            requires
                n == 0,
        ;
        assert(s.subrange(0, 0) =~= Seq::<ReviewRow>::empty());
    }
}

/// A review listed under a tenant belongs to that tenant; a review of
/// another tenant is never the target of a moderation under a tenant, and
/// such a moderation leaves it as it was.
pub proof fn tenant_isolation(
    rows: Seq<ReviewRow>,
    f: ListFilter,
    offset: int,
    size: int,
    tenant_id: Seq<char>,
    id: u128,
    m: Moderation,
)
    requires
        0 <= offset,
        0 <= size,
    ensures
        forall|k: int|
            0 <= k < window(newest_first(rows, f), offset, size).len() ==> (#[trigger] window(
                newest_first(rows, f),
                offset,
                size,
            )[k]).tenant_id@ == f.scope.tenant_id@,
        forall|j: int|
            0 <= j < rows.len() && (#[trigger] rows[j]).tenant_id@ != tenant_id ==> !targets(rows[j], tenant_id, id)
                && moderate_rows(rows, tenant_id, id, m)[j] == rows[j],
{
    lemma_newest_first(rows, f);
    let s = newest_first(rows, f);
    let w = window(s, offset, size);
    assert forall|k: int| 0 <= k < w.len() implies (#[trigger] w[k]).tenant_id@ == f.scope.tenant_id@ by {
        let lo = if offset < s.len() { offset } else { s.len() as int };
        assert(w[k] == s[lo + k]);
    }
}

/// Reading all pages of one size in increasing order yields every selected
/// review exactly once, newest first.
pub proof fn pagination_consistency(rows: Seq<ReviewRow>, f: ListFilter, size: int, n: nat)
    requires
        well_formed_rows(rows),
        size > 0,
        n * size >= newest_first(rows, f).len(),
    ensures
        pages_joined(newest_first(rows, f), size, n) == newest_first(rows, f),
        forall|a: int, b: int|
            0 <= a < b < newest_first(rows, f).len() ==> created(newest_first(rows, f)[a]) >= created(
                newest_first(rows, f)[b],
            ) && newest_first(rows, f)[a].id != newest_first(rows, f)[b].id,
        forall|j: int| 0 <= j < rows.len() && selects(f, #[trigger] rows[j]) ==> newest_first(rows, f).contains(rows[j]),
        forall|k: int| 0 <= k < newest_first(rows, f).len() ==> selects(f, #[trigger] newest_first(rows, f)[k]),
{
    let s = newest_first(rows, f);
    lemma_newest_first(rows, f);
    lemma_pages_joined(s, size, n);
    assert(s.subrange(0, s.len() as int) =~= s);
}

/// A second moderation of the same review replaces the first one whole.
pub proof fn moderation_overwrites(rows: Seq<ReviewRow>, tenant_id: Seq<char>, id: u128, first: Moderation, second: Moderation)
    ensures
        moderate_rows(moderate_rows(rows, tenant_id, id, first), tenant_id, id, second) == moderate_rows(
            rows,
            tenant_id,
            id,
            second,
        ),
{
    assert(moderate_rows(moderate_rows(rows, tenant_id, id, first), tenant_id, id, second) =~= moderate_rows(
        rows,
        tenant_id,
        id,
        second,
    ));
}

/// A listing of moderated reviews only holds no unmoderated review.
pub proof fn moderated_only_listing(rows: Seq<ReviewRow>, f: ListFilter, offset: int, size: int)
    requires
        f.moderated_only,
        0 <= offset,
        0 <= size,
    ensures
        forall|k: int|
            0 <= k < window(newest_first(rows, f), offset, size).len() ==> (#[trigger] window(
                newest_first(rows, f),
                offset,
                size,
            )[k]).is_moderated == Some(true),
{
    lemma_newest_first(rows, f);
    let s = newest_first(rows, f);
    let w = window(s, offset, size);
    assert forall|k: int| 0 <= k < w.len() implies (#[trigger] w[k]).is_moderated == Some(true) by {
        let lo = if offset < s.len() { offset } else { s.len() as int };
        assert(w[k] == s[lo + k]);
    }
}

} // verus!
