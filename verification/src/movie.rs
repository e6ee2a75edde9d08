//! The catalog's record type and its mathematical model.

use vstd::prelude::*;

verus! {

/// One catalog record.
///
/// `cast` and `genres` carry set semantics: only membership matters,
/// order is irrelevant and duplicates collapse.  The model below
/// therefore views them as sets of character sequences.
#[derive(Debug, Clone, PartialEq, Eq)]
pub struct Movie {
    pub title: String,
    pub year: i32,
    pub cast: Vec<String>,
    pub genres: Vec<String>,
}

/// The mathematical model of a movie: the title as a character
/// sequence, the year as an unbounded integer, cast and genres as
/// sets of character sequences.
#[verifier::ext_equal]
pub ghost struct MovieModel {
    pub title: Seq<char>,
    pub year: int,
    pub cast: Set<Seq<char>>,
    pub genres: Set<Seq<char>>,
}

/// The set of names denoted by a list of strings: membership only,
/// duplicates collapse.
pub open spec fn name_set(names: Seq<String>) -> Set<Seq<char>> {
    Set::new(|t: Seq<char>| exists|i: int| 0 <= i < names.len() && names[i]@ == t)
}

impl View for Movie {
    type V = MovieModel;

    open spec fn view(&self) -> MovieModel {
        MovieModel {
            title: self.title@,
            year: self.year as int,
            cast: name_set(self.cast@),
            genres: name_set(self.genres@),
        }
    }
}

/// The models of a sequence of movies, in order.
pub open spec fn models_of(movies: Seq<Movie>) -> Seq<MovieModel> {
    Seq::new(movies.len(), |i: int| movies[i]@)
}

/// The response-time projection: title and year are kept verbatim,
/// cast and genres are emptied.
pub open spec fn project(m: MovieModel) -> MovieModel {
    MovieModel { title: m.title, year: m.year, cast: Set::empty(), genres: Set::empty() }
}

/// The projection of a whole sequence of movies, in order.
pub open spec fn project_all(s: Seq<MovieModel>) -> Seq<MovieModel> {
    s.map_values(|mm: MovieModel| project(mm))
}

/// Builds the projected copy of a movie for a response.
pub fn project_movie(m: &Movie) -> (r: Movie)
    ensures
        r@ == project(m@),
{
    let r = Movie { title: m.title.clone(), year: m.year, cast: Vec::new(), genres: Vec::new() };
    proof {
        assert(name_set(Seq::<String>::empty()) =~= Set::<Seq<char>>::empty());
        assert(r@ =~= project(m@));
    }
    r
}

} // verus!
