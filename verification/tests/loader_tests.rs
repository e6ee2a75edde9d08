use rs_movie_db::loader::{outcome_message, Loader, ObjectOutcome};
use rs_movie_db::movie::Movie;

fn movie(title: &str, year: i32) -> Movie {
    Movie { title: title.to_string(), year, cast: Vec::new(), genres: Vec::new() }
}

#[test]
fn unreachable_bucket_yields_empty_catalog() {
    // A failed bucket list means no outcome is ever absorbed.
    let loader = Loader::begin();
    assert!(!loader.finished());
    assert!(loader.into_catalog().is_empty());
}

#[test]
fn first_parsed_object_wins() {
    let a = vec![movie("A", 2000)];
    let b = vec![movie("B", 2001)];
    let mut loader = Loader::begin();
    loader.absorb(ObjectOutcome::Parsed(a.clone()));
    assert!(loader.finished());
    loader.absorb(ObjectOutcome::Parsed(b));
    assert_eq!(loader.into_catalog(), a);
}

#[test]
fn invalid_first_object_falls_through_to_next() {
    let b = vec![movie("B", 2001)];
    let mut loader = Loader::begin();
    loader.absorb(ObjectOutcome::ParseFailed);
    assert!(!loader.finished());
    loader.absorb(ObjectOutcome::Parsed(b.clone()));
    assert!(loader.finished());
    assert_eq!(loader.into_catalog(), b);
}

#[test]
fn every_failure_kind_is_skipped() {
    let movies = vec![movie("C", 1990)];
    let mut loader = Loader::begin();
    loader.absorb(ObjectOutcome::GetFailed);
    loader.absorb(ObjectOutcome::ReadFailed);
    loader.absorb(ObjectOutcome::DecodeFailed);
    loader.absorb(ObjectOutcome::ParseFailed);
    assert!(!loader.finished());
    loader.absorb(ObjectOutcome::Parsed(movies.clone()));
    assert_eq!(loader.into_catalog(), movies);
}

#[test]
fn nothing_parses_yields_empty_catalog() {
    let mut loader = Loader::begin();
    loader.absorb(ObjectOutcome::GetFailed);
    loader.absorb(ObjectOutcome::DecodeFailed);
    assert!(!loader.finished());
    assert!(loader.into_catalog().is_empty());
}

#[test]
fn outcome_messages_match_the_log_contract() {
    assert_eq!(outcome_message(&ObjectOutcome::GetFailed).as_deref(), Some("Error reading data"));
    assert_eq!(
        outcome_message(&ObjectOutcome::ReadFailed).as_deref(),
        Some("Error reading contents")
    );
    assert_eq!(
        outcome_message(&ObjectOutcome::DecodeFailed).as_deref(),
        Some("Error decoding data")
    );
    assert_eq!(outcome_message(&ObjectOutcome::ParseFailed).as_deref(), Some("Error parsing data"));
    assert_eq!(outcome_message(&ObjectOutcome::Parsed(Vec::new())), None);
}
