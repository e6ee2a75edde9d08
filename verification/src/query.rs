//! The query record and the conjunctive filter predicate.

use vstd::prelude::*;

use crate::movie::{Movie, MovieModel};

verus! {

/// A parsed search query: the optional text filters as they arrived,
/// the year filter (`0` means "no year filter"), and the pagination
/// settings.
#[derive(Debug, Clone, PartialEq, Eq)]
pub struct SearchQuery {
    pub title_contains: Option<String>,
    pub year: i32,
    pub cast: Option<String>,
    pub genre: Option<String>,
    pub page: usize,
    pub page_size: usize,
}

/// The mathematical model of a query.
#[verifier::ext_equal]
pub ghost struct QueryModel {
    pub title_contains: Option<Seq<char>>,
    pub year: int,
    pub cast: Option<Seq<char>>,
    pub genre: Option<Seq<char>>,
    pub page: int,
    pub page_size: int,
}

/// The view of an optional string.
pub open spec fn opt_seq(o: Option<String>) -> Option<Seq<char>> {
    match o {
        Some(s) => Some(s@),
        None => None,
    }
}

impl View for SearchQuery {
    type V = QueryModel;

    open spec fn view(&self) -> QueryModel {
        QueryModel {
            title_contains: opt_seq(self.title_contains),
            year: self.year as int,
            cast: opt_seq(self.cast),
            genre: opt_seq(self.genre),
            page: self.page as int,
            page_size: self.page_size as int,
        }
    }
}

/// A text filter constrains the result only when it is present and
/// non-empty: an absent filter and an empty value both mean "no
/// filter".
pub open spec fn text_active(f: Option<Seq<char>>) -> bool {
    f is Some && f->0.len() > 0
}

/// `needle` occurs contiguously in `hay` (the empty needle occurs in
/// every string).
pub open spec fn contains_substring(hay: Seq<char>, needle: Seq<char>) -> bool {
    exists|i: int|
        0 <= i <= hay.len() - needle.len() && #[trigger] hay.subrange(i, i + needle.len())
            == needle
}

/// The conjunctive match rule: a movie matches iff every supplied
/// filter matches.  `title_contains` is a case-sensitive substring
/// test, `year` is exact equality unless it is the sentinel `0`,
/// `cast` and `genre` are exact membership.
pub open spec fn movie_matches(m: MovieModel, q: QueryModel) -> bool {
    &&& (text_active(q.title_contains) ==> contains_substring(m.title, q.title_contains->0))
    &&& (q.year != 0 ==> m.year == q.year)
    &&& (text_active(q.cast) ==> m.cast.contains(q.cast->0))
    &&& (text_active(q.genre) ==> m.genres.contains(q.genre->0))
}

/// Whether `needle` occurs in `hay` starting at character `start`.
fn matches_at(hay: &str, needle: &str, start: usize, hay_len: usize, needle_len: usize) -> (r:
    bool)
    requires
        hay_len == hay@.len(),
        needle_len == needle@.len(),
        start + needle_len <= hay_len,
    ensures
        r == (hay@.subrange(start as int, start + needle@.len()) == needle@),
{
    let mut k: usize = 0;
    while k < needle_len
        invariant
            hay_len == hay@.len(),
            needle_len == needle@.len(),
            start + needle_len <= hay_len,
            k <= needle_len,
            forall|j: int| 0 <= j < k ==> hay@[start + j] == needle@[j],
        decreases needle_len - k,
    {
        if hay.get_char(start + k) != needle.get_char(k) {
            proof {
                let ki = k as int;
                assert(hay@.subrange(start as int, start + needle@.len())[ki] != needle@[ki]);
            }
            return false;
        }
        k += 1;
    }
    proof {
        assert(hay@.subrange(start as int, start + needle@.len()) =~= needle@);
    }
    true
}

/// Case-sensitive substring search over characters.
pub fn str_contains(hay: &str, needle: &str) -> (r: bool)
    ensures
        r == contains_substring(hay@, needle@),
{
    let n = hay.unicode_len();
    let m = needle.unicode_len();
    if m > n {
        return false;
    }
    if m == 0 {
        proof {
            assert(hay@.subrange(0, 0 + needle@.len() as int) =~= needle@);
        }
        return true;
    }
    let mut i: usize = 0;
    loop
        invariant
            n == hay@.len(),
            m == needle@.len(),
            1 <= m <= n,
            i <= n - m + 1,
            forall|j: int|
                0 <= j < i ==> #[trigger] hay@.subrange(j, j + needle@.len()) != needle@,
        decreases n - m - i + 1,
    {
        if i > n - m {
            return false;
        }
        if matches_at(hay, needle, i, n, m) {
            return true;
        }
        i += 1;
    }
}

/// Whether `name` is a member of the name list (exact, case-sensitive).
pub fn names_contain(names: &Vec<String>, name: &String) -> (r: bool)
    ensures
        r == crate::movie::name_set(names@).contains(name@),
{
    let mut i: usize = 0;
    while i < names.len()
        invariant
            i <= names@.len(),
            forall|j: int| 0 <= j < i ==> names@[j]@ != name@,
        decreases names@.len() - i,
    {
        if names[i].eq(name) {
            proof {
                assert(names@[i as int]@ == name@);
            }
            return true;
        }
        i += 1;
    }
    false
}

/// Evaluates the conjunctive match rule on one movie.
pub fn movie_passes(m: &Movie, q: &SearchQuery) -> (r: bool)
    ensures
        r == movie_matches(m@, q@),
{
    let title_ok = match &q.title_contains {
        Some(t) => {
            if t.as_str().is_empty() {
                true
            } else {
                str_contains(m.title.as_str(), t.as_str())
            }
        },
        None => true,
    };
    let year_ok = q.year == 0 || m.year == q.year;
    let cast_ok = match &q.cast {
        Some(t) => {
            if t.as_str().is_empty() {
                true
            } else {
                names_contain(&m.cast, t)
            }
        },
        None => true,
    };
    let genre_ok = match &q.genre {
        Some(t) => {
            if t.as_str().is_empty() {
                true
            } else {
                names_contain(&m.genres, t)
            }
        },
        None => true,
    };
    title_ok && year_ok && cast_ok && genre_ok
}

} // verus!
