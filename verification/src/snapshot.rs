//! The process-wide snapshot: a read-only handle to the loaded
//! catalog.  The library never mutates it; sharing it between request
//! handlers is the embedding program's concern.

use vstd::prelude::*;

use crate::movie::{models_of, Movie, MovieModel};

verus! {

/// An immutable catalog snapshot, created once at startup.
#[derive(Debug)]
pub struct Snapshot {
    catalog: Vec<Movie>,
}

impl View for Snapshot {
    type V = Seq<MovieModel>;

    closed spec fn view(&self) -> Seq<MovieModel> {
        models_of(self.catalog@)
    }
}

impl Snapshot {
    /// Adopts a loaded catalog as the snapshot.
    pub fn new(catalog: Vec<Movie>) -> (s: Self)
        ensures
            s@ == models_of(catalog@),
    {
        Snapshot { catalog }
    }

    /// Borrows the catalog.
    pub fn catalog(&self) -> (r: &Vec<Movie>)
        ensures
            models_of(r@) == self@,
    {
        &self.catalog
    }
}

} // verus!
