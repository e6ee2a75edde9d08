//! The query engine: conjunctive filtering, pagination with the
//! has-more probe, and the response projection, over an immutable
//! catalog.

use vstd::math::min;
use vstd::prelude::*;

use crate::movie::{models_of, project, project_all, Movie, MovieModel};
use crate::parse::{page_of, page_size_of, parse_query, year_of};
use crate::query::{movie_matches, opt_seq, QueryModel, SearchQuery};
use crate::snapshot::Snapshot;

verus! {

/// The subsequence of the catalog that matches a query, in catalog
/// order.
pub open spec fn matching(cat: Seq<MovieModel>, q: QueryModel) -> Seq<MovieModel>
    decreases cat.len(),
{
    if cat.len() == 0 {
        Seq::empty()
    } else if movie_matches(cat.last(), q) {
        matching(cat.drop_last(), q).push(cat.last())
    } else {
        matching(cat.drop_last(), q)
    }
}

proof fn lemma_matching_len(cat: Seq<MovieModel>, q: QueryModel)
    ensures
        matching(cat, q).len() <= cat.len(),
    decreases cat.len(),
{
    if cat.len() > 0 {
        lemma_matching_len(cat.drop_last(), q);
    }
}

/// The window of matches shown on one page: skip `page * size`
/// matches, take at most `size`.
pub open spec fn page_slice(m: Seq<MovieModel>, page: int, size: int) -> Seq<MovieModel> {
    m.subrange(min(page * size, m.len() as int), min(page * size + size, m.len() as int))
}

/// At least one further match exists beyond this page.
pub open spec fn spec_has_more(m: Seq<MovieModel>, page: int, size: int) -> bool {
    m.len() > (page + 1) * size
}

/// The items of a response: the page window over the matches, each
/// projected (cast and genres emptied).
pub open spec fn response_items(cat: Seq<MovieModel>, q: QueryModel) -> Seq<MovieModel> {
    project_all(page_slice(matching(cat, q), q.page, q.page_size))
}

/// A search response: the page of projected items, the echoed
/// pagination settings, and the has-more flag.
#[derive(Debug, Clone, PartialEq, Eq)]
pub struct SearchResponse {
    pub items: Vec<Movie>,
    pub page: usize,
    pub page_size: usize,
    pub has_more: bool,
}

/// The mathematical model of a response.
#[verifier::ext_equal]
pub ghost struct ResponseModel {
    pub items: Seq<MovieModel>,
    pub page: int,
    pub page_size: int,
    pub has_more: bool,
}

impl View for SearchResponse {
    type V = ResponseModel;

    open spec fn view(&self) -> ResponseModel {
        ResponseModel {
            items: models_of(self.items@),
            page: self.page as int,
            page_size: self.page_size as int,
            has_more: self.has_more,
        }
    }
}

/// Answers a query against a catalog: filters conjunctively, skips
/// `page * page_size` matches, returns at most `page_size` projected
/// items in catalog order, and reports whether more matches follow.
pub fn search(catalog: &Vec<Movie>, q: &SearchQuery) -> (r: SearchResponse)
    ensures
        r@.items == response_items(models_of(catalog@), q@),
        r@.page == q@.page,
        r@.page_size == q@.page_size,
        r@.has_more == spec_has_more(matching(models_of(catalog@), q@), q@.page, q@.page_size),
{
    let ghost cat = models_of(catalog@);
    let ghost qm = q@;
    let n = catalog.len();
    let start = match q.page.checked_mul(q.page_size) {
        Some(v) => v,
        None => {
            // The first page offset lies past any catalog that fits in
            // memory, so the page is empty and nothing follows it.
            proof {
                lemma_matching_len(cat, qm);
                let m = matching(cat, qm);
                assert(qm.page * qm.page_size + qm.page_size == (qm.page + 1) * qm.page_size)
                    by (nonlinear_arith);
                assert(page_slice(m, qm.page, qm.page_size) =~= Seq::<MovieModel>::empty());
                assert(response_items(cat, qm) =~= Seq::<MovieModel>::empty());
                assert(models_of(Seq::<Movie>::empty()) =~= Seq::<MovieModel>::empty());
            }
            return SearchResponse {
                items: Vec::new(),
                page: q.page,
                page_size: q.page_size,
                has_more: false,
            };
        },
    };
    let mut items: Vec<Movie> = Vec::new();
    let mut matched: usize = 0;
    let mut has_more = false;
    let mut i: usize = 0;
    proof {
        assert(cat.take(0) =~= Seq::<MovieModel>::empty());
        assert(qm.page * qm.page_size >= 0) by (nonlinear_arith)
            requires
                qm.page >= 0,
                qm.page_size >= 0,
        ;
        assert(page_slice(matching(cat.take(0), qm), qm.page, qm.page_size)
            =~= Seq::<MovieModel>::empty());
        assert(models_of(items@) =~= Seq::<MovieModel>::empty());
    }
    while i < n
        invariant
            cat == models_of(catalog@),
            qm == q@,
            cat.len() == n,
            n == catalog@.len(),
            i <= n,
            start == qm.page * qm.page_size,
            matched <= i,
            matched == matching(cat.take(i as int), qm).len(),
            items@.len() <= q.page_size,
            q.page_size == qm.page_size,
            items@.len() == min(start as int + qm.page_size, matched as int) - min(
                start as int,
                matched as int,
            ),
            models_of(items@) == project_all(page_slice(matching(cat.take(i as int), qm), qm.page,
                qm.page_size)),
            has_more == (matching(cat.take(i as int), qm).len() > start + qm.page_size),
        decreases n - i,
    {
        let ghost m_pre = matching(cat.take(i as int), qm);
        let is_match = crate::query::movie_passes(&catalog[i], q);
        proof {
            assert(cat.take(i + 1).drop_last() =~= cat.take(i as int));
            assert(cat.take(i + 1).last() == cat[i as int]);
            assert(cat[i as int] == catalog@[i as int]@);
        }
        let ghost m_post = matching(cat.take(i + 1), qm);
        if is_match {
            proof {
                assert(m_post == m_pre.push(cat[i as int]));
            }
            if matched >= start {
                if items.len() < q.page_size {
                    let ghost items_pre = items@;
                    items.push(crate::movie::project_movie(&catalog[i]));
                    proof {
                        let z = qm.page_size;
                        let s0 = start as int;
                        // The page window was not yet full, so the new
                        // match extends it by one projected item.
                        assert(min(s0, m_pre.len() as int) == s0);
                        assert(min(s0 + z, m_pre.len() as int) == matched);
                        assert(min(s0, m_post.len() as int) == s0);
                        assert(min(s0 + z, m_post.len() as int) == matched + 1);
                        assert(m_post.subrange(s0, matched + 1) =~= m_pre.subrange(
                            s0,
                            matched as int,
                        ).push(cat[i as int]));
                        assert(models_of(items@) =~= models_of(items_pre).push(
                            project(cat[i as int]),
                        ));
                        assert(models_of(items@) =~= project_all(page_slice(m_post, qm.page,
                            qm.page_size)));
                    }
                } else {
                    has_more = true;
                    proof {
                        let z = qm.page_size;
                        let s0 = start as int;
                        // The window is full: this match lies beyond it.
                        assert(min(s0, m_pre.len() as int) == s0);
                        assert(min(s0 + z, m_pre.len() as int) == s0 + z);
                        assert(min(s0, m_post.len() as int) == s0);
                        assert(min(s0 + z, m_post.len() as int) == s0 + z);
                        assert(m_post.subrange(s0, s0 + z) =~= m_pre.subrange(s0, s0 + z));
                        assert(models_of(items@) =~= project_all(page_slice(m_post, qm.page,
                            qm.page_size)));
                    }
                }
                matched += 1;
            } else {
                matched += 1;
                proof {
                    let z = qm.page_size;
                    let s0 = start as int;
                    // Still skipping: the window over both prefixes is empty.
                    assert(min(s0, m_pre.len() as int) == m_pre.len() as int);
                    assert(min(s0 + z, m_pre.len() as int) == m_pre.len() as int);
                    assert(min(s0, m_post.len() as int) == m_post.len() as int);
                    assert(min(s0 + z, m_post.len() as int) == m_post.len() as int);
                    assert(page_slice(m_post, qm.page, qm.page_size)
                        =~= Seq::<MovieModel>::empty());
                    assert(page_slice(m_pre, qm.page, qm.page_size)
                        =~= Seq::<MovieModel>::empty());
                    assert(models_of(items@) =~= Seq::<MovieModel>::empty());
                }
            }
        } else {
            proof {
                assert(m_post == m_pre);
            }
        }
        i += 1;
    }
    proof {
        assert(cat.take(n as int) =~= cat);
        assert((qm.page + 1) * qm.page_size == qm.page * qm.page_size + qm.page_size)
            by (nonlinear_arith);
    }
    SearchResponse { items, page: q.page, page_size: q.page_size, has_more }
}

/// The query denoted by the raw request parameters.
pub open spec fn query_of(
    title_contains: Option<Seq<char>>,
    year: Option<Seq<char>>,
    cast: Option<Seq<char>>,
    genre: Option<Seq<char>>,
    page: Option<Seq<char>>,
    page_size: Option<Seq<char>>,
) -> QueryModel {
    QueryModel {
        title_contains: title_contains,
        year: year_of(year),
        cast: cast,
        genre: genre,
        page: page_of(page),
        page_size: page_size_of(page_size),
    }
}

/// The request handler's core: parses the raw parameters with their
/// silent defaults and answers the query against the snapshot.
pub fn index(
    snapshot: &Snapshot,
    title_contains: Option<String>,
    year: Option<String>,
    cast: Option<String>,
    genre: Option<String>,
    page: Option<String>,
    page_size: Option<String>,
) -> (r: SearchResponse)
    ensures
        ({
            let q = query_of(
                opt_seq(title_contains),
                opt_seq(year),
                opt_seq(cast),
                opt_seq(genre),
                opt_seq(page),
                opt_seq(page_size),
            );
            &&& r@.items == response_items(snapshot@, q)
            &&& r@.page == q.page
            &&& r@.page_size == q.page_size
            &&& r@.has_more == spec_has_more(matching(snapshot@, q), q.page, q.page_size)
        }),
{
    let ghost qspec = query_of(
        opt_seq(title_contains),
        opt_seq(year),
        opt_seq(cast),
        opt_seq(genre),
        opt_seq(page),
        opt_seq(page_size),
    );
    let q = parse_query(title_contains, year, cast, genre, page, page_size);
    proof {
        assert(q@ =~= qspec);
    }
    search(snapshot.catalog(), &q)
}

} // verus!
