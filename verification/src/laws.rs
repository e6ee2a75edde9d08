//! The library's general laws, each proved once and for all inputs:
//! soundness of the result set, completeness of pagination, stability
//! of the result order, and the equivalence of blank and absent
//! filters.

use vstd::math::min;
use vstd::prelude::*;

use crate::movie::{project, project_all, MovieModel};
use crate::query::{text_active, QueryModel};
use crate::search::{matching, page_slice, response_items};

verus! {

/// The item at position `i` of the response is the projection of one
/// of the query's matches.
pub open spec fn item_is_projected_match(cat: Seq<MovieModel>, q: QueryModel, i: int) -> bool {
    exists|j: int|
        0 <= j < matching(cat, q).len() && response_items(cat, q)[i] == project(
            #[trigger] matching(cat, q)[j],
        )
}

/// Every response item is the projection of some match, and a page
/// never exceeds the page size.
pub proof fn lemma_response_sound(cat: Seq<MovieModel>, q: QueryModel)
    requires
        q.page >= 0,
        q.page_size >= 0,
    ensures
        response_items(cat, q).len() <= q.page_size,
        forall|i: int|
            0 <= i < response_items(cat, q).len() ==> #[trigger] item_is_projected_match(
                cat,
                q,
                i,
            ),
{
    let m = matching(cat, q);
    let lo = min(q.page * q.page_size, m.len() as int);
    let hi = min(q.page * q.page_size + q.page_size, m.len() as int);
    assert(q.page * q.page_size >= 0) by (nonlinear_arith)
        requires
            q.page >= 0,
            q.page_size >= 0,
    ;
    assert(response_items(cat, q).len() == hi - lo);
    assert forall|i: int| 0 <= i < response_items(cat, q).len() implies item_is_projected_match(
        cat,
        q,
        i,
    ) by {
        assert(0 <= lo + i < matching(cat, q).len());
        assert(response_items(cat, q)[i] == project(matching(cat, q)[lo + i]));
    }
}

/// The query with its page index replaced.
pub open spec fn with_page(q: QueryModel, page: int) -> QueryModel {
    QueryModel {
        title_contains: q.title_contains,
        year: q.year,
        cast: q.cast,
        genre: q.genre,
        page: page,
        page_size: q.page_size,
    }
}

proof fn lemma_matching_ignores_page(cat: Seq<MovieModel>, q: QueryModel, page: int)
    ensures
        matching(cat, with_page(q, page)) == matching(cat, q),
    decreases cat.len(),
{
    if cat.len() > 0 {
        lemma_matching_ignores_page(cat.drop_last(), q, page);
    }
}

/// The concatenation of the response items of pages `0 .. upto`, with
/// the filters and page size held fixed.
pub open spec fn response_concat(cat: Seq<MovieModel>, q: QueryModel, upto: int) -> Seq<
    MovieModel,
>
    decreases upto,
{
    if upto <= 0 {
        Seq::empty()
    } else {
        response_concat(cat, q, upto - 1) + response_items(cat, with_page(q, upto - 1))
    }
}

proof fn lemma_response_concat_take(cat: Seq<MovieModel>, q: QueryModel, upto: int)
    requires
        q.page_size > 0,
        upto >= 0,
    ensures
        response_concat(cat, q, upto) == project_all(matching(cat, q)).take(
            min(upto * q.page_size, matching(cat, q).len() as int),
        ),
    decreases upto,
{
    let m = matching(cat, q);
    let z = q.page_size;
    if upto == 0 {
        assert(project_all(m).take(min(0 * z, m.len() as int)) =~= Seq::<MovieModel>::empty());
    } else {
        lemma_response_concat_take(cat, q, upto - 1);
        lemma_matching_ignores_page(cat, q, upto - 1);
        assert((upto - 1) * z >= 0 && (upto - 1) * z + z == upto * z && (upto - 1) * z <= upto * z)
            by (nonlinear_arith)
            requires
                upto >= 1,
                z > 0,
        ;
        let a = min((upto - 1) * z, m.len() as int);
        let b = min(upto * z, m.len() as int);
        assert(response_items(cat, with_page(q, upto - 1)) == project_all(m.subrange(a, b)));
        assert(project_all(m).take(a) + project_all(m.subrange(a, b)) =~= project_all(m).take(b));
    }
}

/// With a positive page size and fixed filters, the pages cover the
/// whole (projected) match set exactly once, in catalog order: the
/// concatenation of enough pages is the projected match set itself,
/// with no duplicates and no omissions.
pub proof fn lemma_pagination_complete(cat: Seq<MovieModel>, q: QueryModel, pages: int)
    requires
        q.page_size > 0,
        pages >= 0,
        matching(cat, q).len() <= pages * q.page_size,
    ensures
        response_concat(cat, q, pages) == project_all(matching(cat, q)),
{
    let m = matching(cat, q);
    lemma_response_concat_take(cat, q, pages);
    assert(min(pages * q.page_size, m.len() as int) == m.len());
    assert(project_all(m).take(m.len() as int) =~= project_all(m));
}

/// `ix` lists, strictly increasing, positions of `b` at which the
/// elements of `a` appear in order.
pub open spec fn maps_into(a: Seq<MovieModel>, b: Seq<MovieModel>, ix: Seq<int>) -> bool {
    &&& ix.len() == a.len()
    &&& forall|i: int| 0 <= i < ix.len() ==> 0 <= #[trigger] ix[i] < b.len() && a[i] == b[ix[i]]
    &&& forall|i: int, j: int| 0 <= i < j < ix.len() ==> #[trigger] ix[i] < #[trigger] ix[j]
}

/// `a` is a subsequence of `b` in `b`'s own order.
pub open spec fn stable_subsequence_of(a: Seq<MovieModel>, b: Seq<MovieModel>) -> bool {
    exists|ix: Seq<int>| maps_into(a, b, ix)
}

proof fn lemma_matching_stable(cat: Seq<MovieModel>, q: QueryModel)
    ensures
        stable_subsequence_of(matching(cat, q), cat),
    decreases cat.len(),
{
    if cat.len() == 0 {
        let ix = Seq::<int>::empty();
        assert(maps_into(matching(cat, q), cat, ix));
    } else {
        let prev = cat.drop_last();
        lemma_matching_stable(prev, q);
        let ix0 = choose|ix: Seq<int>| maps_into(matching(prev, q), prev, ix);
        if crate::query::movie_matches(cat.last(), q) {
            let ix1 = ix0.push(cat.len() - 1);
            assert(maps_into(matching(cat, q), cat, ix1)) by {
                assert forall|i: int| 0 <= i < ix1.len() implies 0 <= #[trigger] ix1[i] < cat.len()
                    && matching(cat, q)[i] == cat[ix1[i]] by {
                    if i < ix0.len() {
                        assert(ix1[i] == ix0[i]);
                        assert(matching(prev, q)[i] == prev[ix0[i]]);
                        assert(prev[ix0[i]] == cat[ix0[i]]);
                    } else {
                        assert(ix1[i] == cat.len() - 1);
                        assert(matching(cat, q)[i] == cat.last());
                    }
                }
                assert forall|i: int, j: int| 0 <= i < j < ix1.len() implies #[trigger] ix1[i]
                    < #[trigger] ix1[j] by {
                    if j < ix0.len() {
                    } else {
                        assert(ix1[i] == ix0[i] && 0 <= ix0[i] < prev.len());
                        assert(ix1[j] == cat.len() - 1);
                    }
                }
            }
        } else {
            assert(maps_into(matching(cat, q), cat, ix0)) by {
                assert forall|i: int| 0 <= i < ix0.len() implies 0 <= #[trigger] ix0[i] < cat.len()
                    && matching(cat, q)[i] == cat[ix0[i]] by {
                    assert(matching(prev, q)[i] == prev[ix0[i]]);
                    assert(prev[ix0[i]] == cat[ix0[i]]);
                }
            }
        }
    }
}

/// The page window (the response items before their projection) is a
/// stable subsequence of the catalog: result order preserves catalog
/// order.
pub proof fn lemma_response_order_stable(cat: Seq<MovieModel>, q: QueryModel)
    requires
        q.page >= 0,
        q.page_size >= 0,
    ensures
        stable_subsequence_of(page_slice(matching(cat, q), q.page, q.page_size), cat),
{
    lemma_matching_stable(cat, q);
    let m = matching(cat, q);
    let ix = choose|ix: Seq<int>| maps_into(m, cat, ix);
    assert(q.page * q.page_size >= 0) by (nonlinear_arith)
        requires
            q.page >= 0,
            q.page_size >= 0,
    ;
    let lo = min(q.page * q.page_size, m.len() as int);
    let hi = min(q.page * q.page_size + q.page_size, m.len() as int);
    let ixw = ix.subrange(lo, hi);
    assert(maps_into(page_slice(m, q.page, q.page_size), cat, ixw)) by {
        assert forall|i: int| 0 <= i < ixw.len() implies 0 <= #[trigger] ixw[i] < cat.len()
            && page_slice(m, q.page, q.page_size)[i] == cat[ixw[i]] by {
            assert(ixw[i] == ix[lo + i]);
            assert(m[lo + i] == cat[ix[lo + i]]);
        }
        assert forall|i: int, j: int| 0 <= i < j < ixw.len() implies #[trigger] ixw[i]
            < #[trigger] ixw[j] by {
            assert(ixw[i] == ix[lo + i] && ixw[j] == ix[lo + j]);
        }
    }
}

/// Two optional text filters constrain results identically: both
/// inactive (absent or empty), or both the same non-empty value.
pub open spec fn text_equiv(a: Option<Seq<char>>, b: Option<Seq<char>>) -> bool {
    text_active(a) == text_active(b) && (text_active(a) ==> a->0 == b->0)
}

/// The queries' filters agree: each pair of text filters is
/// equivalent, and the year filters are equal.
pub open spec fn filters_equiv(q1: QueryModel, q2: QueryModel) -> bool {
    &&& text_equiv(q1.title_contains, q2.title_contains)
    &&& text_equiv(q1.cast, q2.cast)
    &&& text_equiv(q1.genre, q2.genre)
    &&& q1.year == q2.year
}

/// An absent text filter and one supplied with the empty value select
/// the same movies: queries with equivalent filters have the same
/// match set.
pub proof fn lemma_blank_filter_is_no_filter(cat: Seq<MovieModel>, q1: QueryModel, q2: QueryModel)
    requires
        filters_equiv(q1, q2),
    ensures
        matching(cat, q1) == matching(cat, q2),
    decreases cat.len(),
{
    if cat.len() > 0 {
        lemma_blank_filter_is_no_filter(cat.drop_last(), q1, q2);
        assert(crate::query::movie_matches(cat.last(), q1) == crate::query::movie_matches(
            cat.last(),
            q2,
        ));
    }
}

} // verus!
