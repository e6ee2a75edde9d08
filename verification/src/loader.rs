//! The catalog loader's decision logic.  The embedding program lists
//! the bucket and fetches objects; the library decides, outcome by
//! outcome, what the snapshot becomes.  Every failure is recoverable:
//! a failed fetch, read, decode or parse skips to the next object
//! (parse failures are deliberately downgraded to the same
//! log-and-continue policy as the other per-object failures, so that
//! startup never aborts), and the first successfully parsed object
//! becomes the catalog.  If nothing parses, the catalog is empty.

use vstd::prelude::*;
use vstd::string::StringExecFns;

use crate::movie::{models_of, Movie, MovieModel};

verus! {

/// What happened to one listed object.
pub enum ObjectOutcome {
    /// The get-object request failed.
    GetFailed,
    /// The response body could not be read.
    ReadFailed,
    /// The body was not valid UTF-8.
    DecodeFailed,
    /// The text was not a valid movie list.
    ParseFailed,
    /// The object parsed as a movie list.
    Parsed(Vec<Movie>),
}

/// The model of an outcome.
pub ghost enum OutcomeModel {
    GetFailed,
    ReadFailed,
    DecodeFailed,
    ParseFailed,
    Parsed(Seq<MovieModel>),
}

impl View for ObjectOutcome {
    type V = OutcomeModel;

    open spec fn view(&self) -> OutcomeModel {
        match self {
            ObjectOutcome::GetFailed => OutcomeModel::GetFailed,
            ObjectOutcome::ReadFailed => OutcomeModel::ReadFailed,
            ObjectOutcome::DecodeFailed => OutcomeModel::DecodeFailed,
            ObjectOutcome::ParseFailed => OutcomeModel::ParseFailed,
            ObjectOutcome::Parsed(movies) => OutcomeModel::Parsed(models_of(movies@)),
        }
    }
}

/// How one outcome changes the loader: the first parsed object is
/// adopted, every other outcome leaves the loader unchanged.
pub open spec fn absorb_outcome(
    loaded: Option<Seq<MovieModel>>,
    o: OutcomeModel,
) -> Option<Seq<MovieModel>> {
    if loaded is Some {
        loaded
    } else {
        match o {
            OutcomeModel::Parsed(movies) => Some(movies),
            _ => None,
        }
    }
}

/// The catalog a finished loader hands over: the adopted movie list,
/// or the empty catalog when nothing was adopted (bucket list failed,
/// bucket empty, or no object parsed).
pub open spec fn loaded_catalog(loaded: Option<Seq<MovieModel>>) -> Seq<MovieModel> {
    match loaded {
        Some(movies) => movies,
        None => Seq::empty(),
    }
}

/// The loader: folds object outcomes until one parses.
pub struct Loader {
    loaded: Option<Vec<Movie>>,
}

impl View for Loader {
    type V = Option<Seq<MovieModel>>;

    closed spec fn view(&self) -> Option<Seq<MovieModel>> {
        match self.loaded {
            Some(movies) => Some(models_of(movies@)),
            None => None,
        }
    }
}

impl Loader {
    /// A loader that has seen nothing yet.
    pub fn begin() -> (s: Self)
        ensures
            s@ is None,
    {
        Loader { loaded: None }
    }

    /// Folds in the outcome of one object fetch.
    pub fn absorb(&mut self, outcome: ObjectOutcome)
        ensures
            final(self)@ == absorb_outcome(old(self)@, outcome@),
    {
        if self.loaded.is_none() {
            match outcome {
                ObjectOutcome::Parsed(movies) => {
                    self.loaded = Some(movies);
                },
                _ => {},
            }
        }
    }

    /// A catalog has been adopted: no further object need be fetched.
    pub fn finished(&self) -> (r: bool)
        ensures
            r == (self@ is Some),
    {
        self.loaded.is_some()
    }

    /// Hands over the snapshot's catalog.
    pub fn into_catalog(self) -> (r: Vec<Movie>)
        ensures
            models_of(r@) == loaded_catalog(self@),
    {
        match self.loaded {
            Some(movies) => movies,
            None => {
                proof {
                    assert(models_of(Seq::<Movie>::empty()) =~= Seq::<MovieModel>::empty());
                }
                Vec::new()
            },
        }
    }
}

/// The operational log line for one outcome; the adopted object needs
/// none.
pub fn outcome_message(outcome: &ObjectOutcome) -> (r: Option<String>)
    ensures
        match outcome@ {
            OutcomeModel::GetFailed => r is Some && r->0@ == "Error reading data"@,
            OutcomeModel::ReadFailed => r is Some && r->0@ == "Error reading contents"@,
            OutcomeModel::DecodeFailed => r is Some && r->0@ == "Error decoding data"@,
            OutcomeModel::ParseFailed => r is Some && r->0@ == "Error parsing data"@,
            OutcomeModel::Parsed(_) => r is None,
        },
{
    match outcome {
        ObjectOutcome::GetFailed => Some(String::from_str("Error reading data")),
        ObjectOutcome::ReadFailed => Some(String::from_str("Error reading contents")),
        ObjectOutcome::DecodeFailed => Some(String::from_str("Error decoding data")),
        ObjectOutcome::ParseFailed => Some(String::from_str("Error parsing data")),
        ObjectOutcome::Parsed(_) => None,
    }
}

/// Folding a whole sequence of outcomes from a given loader state.
pub open spec fn run_outcomes(
    loaded: Option<Seq<MovieModel>>,
    os: Seq<OutcomeModel>,
) -> Option<Seq<MovieModel>>
    decreases os.len(),
{
    if os.len() == 0 {
        loaded
    } else {
        run_outcomes(absorb_outcome(loaded, os[0]), os.drop_first())
    }
}

/// The movie list of the first parsed outcome, if any.
pub open spec fn first_parsed(os: Seq<OutcomeModel>) -> Option<Seq<MovieModel>>
    decreases os.len(),
{
    if os.len() == 0 {
        None
    } else {
        match os[0] {
            OutcomeModel::Parsed(movies) => Some(movies),
            _ => first_parsed(os.drop_first()),
        }
    }
}

/// Once a catalog is adopted, every later outcome is ignored: the
/// first successfully parsed object wins.
pub proof fn lemma_loader_keeps_first(movies: Seq<MovieModel>, os: Seq<OutcomeModel>)
    ensures
        run_outcomes(Some(movies), os) == Some(movies),
    decreases os.len(),
{
    if os.len() > 0 {
        lemma_loader_keeps_first(movies, os.drop_first());
    }
}

/// A fresh loader run over any sequence of outcomes adopts exactly
/// the first parsed object, and nothing when no object parses.
pub proof fn lemma_loader_takes_first_parsed(os: Seq<OutcomeModel>)
    ensures
        run_outcomes(None, os) == first_parsed(os),
    decreases os.len(),
{
    if os.len() > 0 {
        match os[0] {
            OutcomeModel::Parsed(movies) => {
                lemma_loader_keeps_first(movies, os.drop_first());
            },
            _ => {
                lemma_loader_takes_first_parsed(os.drop_first());
            },
        }
    }
}

} // verus!
