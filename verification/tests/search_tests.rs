use rs_movie_db::movie::Movie;
use rs_movie_db::search::{index, search, SearchResponse};
use rs_movie_db::query::SearchQuery;
use rs_movie_db::snapshot::Snapshot;

fn movie(title: &str, year: i32, cast: &[&str], genres: &[&str]) -> Movie {
    Movie {
        title: title.to_string(),
        year,
        cast: cast.iter().map(|s| s.to_string()).collect(),
        genres: genres.iter().map(|s| s.to_string()).collect(),
    }
}

fn projected(title: &str, year: i32) -> Movie {
    Movie { title: title.to_string(), year, cast: Vec::new(), genres: Vec::new() }
}

fn catalog() -> Vec<Movie> {
    vec![
        movie("The Matrix", 1999, &["Keanu"], &["Sci-Fi", "Action"]),
        movie("Matrix Reloaded", 2003, &["Keanu"], &["Sci-Fi", "Action"]),
        movie("Amélie", 2001, &["Audrey"], &["Romance"]),
        movie("Interstellar", 2014, &["Matthew"], &["Sci-Fi", "Drama"]),
        movie("The Godfather", 1972, &["Al", "Marlon"], &["Crime", "Drama"]),
    ]
}

fn snapshot() -> Snapshot {
    Snapshot::new(catalog())
}

fn ask(
    snap: &Snapshot,
    title_contains: Option<&str>,
    year: Option<&str>,
    cast: Option<&str>,
    genre: Option<&str>,
    page: Option<&str>,
    page_size: Option<&str>,
) -> SearchResponse {
    index(
        snap,
        title_contains.map(|s| s.to_string()),
        year.map(|s| s.to_string()),
        cast.map(|s| s.to_string()),
        genre.map(|s| s.to_string()),
        page.map(|s| s.to_string()),
        page_size.map(|s| s.to_string()),
    )
}

#[test]
fn no_filters_returns_all_projected() {
    let r = ask(&snapshot(), None, None, None, None, None, None);
    let expected = vec![
        projected("The Matrix", 1999),
        projected("Matrix Reloaded", 2003),
        projected("Amélie", 2001),
        projected("Interstellar", 2014),
        projected("The Godfather", 1972),
    ];
    assert_eq!(r.items, expected);
    assert_eq!(r.page, 0);
    assert_eq!(r.page_size, 10);
    assert!(!r.has_more);
}

#[test]
fn title_contains_matrix() {
    let r = ask(&snapshot(), Some("Matrix"), None, None, None, None, None);
    assert_eq!(r.items, vec![projected("The Matrix", 1999), projected("Matrix Reloaded", 2003)]);
    assert!(!r.has_more);
}

#[test]
fn genre_scifi_first_page_of_two() {
    let r = ask(&snapshot(), None, None, None, Some("Sci-Fi"), Some("0"), Some("2"));
    assert_eq!(r.items, vec![projected("The Matrix", 1999), projected("Matrix Reloaded", 2003)]);
    assert_eq!(r.page, 0);
    assert_eq!(r.page_size, 2);
    assert!(r.has_more);
}

#[test]
fn genre_scifi_second_page_of_two() {
    let r = ask(&snapshot(), None, None, None, Some("Sci-Fi"), Some("1"), Some("2"));
    assert_eq!(r.items, vec![projected("Interstellar", 2014)]);
    assert_eq!(r.page, 1);
    assert_eq!(r.page_size, 2);
    assert!(!r.has_more);
}

#[test]
fn year_and_cast_conjunction() {
    let r = ask(&snapshot(), None, Some("2001"), Some("Audrey"), None, None, None);
    assert_eq!(r.items, vec![projected("Amélie", 2001)]);
    assert!(!r.has_more);
}

#[test]
fn unparseable_numbers_fall_back_to_defaults() {
    let with_garbage = ask(&snapshot(), None, Some("abc"), None, None, Some("xyz"), None);
    let plain = ask(&snapshot(), None, None, None, None, None, None);
    assert_eq!(with_garbage, plain);
}

#[test]
fn blank_text_filters_equal_absent_ones() {
    let blank = ask(&snapshot(), Some(""), None, Some(""), Some(""), None, None);
    let absent = ask(&snapshot(), None, None, None, None, None, None);
    assert_eq!(blank, absent);
}

#[test]
fn year_zero_equals_absent_year() {
    let zero = ask(&snapshot(), None, Some("0"), None, None, None, None);
    let absent = ask(&snapshot(), None, None, None, None, None, None);
    assert_eq!(zero, absent);
}

#[test]
fn page_size_zero_is_empty_with_has_more() {
    let r = ask(&snapshot(), None, None, None, None, None, Some("0"));
    assert!(r.items.is_empty());
    assert!(r.has_more);
    let none_match = ask(&snapshot(), Some("Zardoz"), None, None, None, None, Some("0"));
    assert!(none_match.items.is_empty());
    assert!(!none_match.has_more);
}

#[test]
fn page_past_the_end_is_empty() {
    let r = ask(&snapshot(), None, None, None, None, Some("7"), Some("10"));
    assert!(r.items.is_empty());
    assert!(!r.has_more);
    assert_eq!(r.page, 7);
}

#[test]
fn empty_catalog_always_empty() {
    let snap = Snapshot::new(Vec::new());
    let r = ask(&snap, None, None, None, None, None, None);
    assert!(r.items.is_empty());
    assert!(!r.has_more);
    let filtered = ask(&snap, Some("Matrix"), None, None, None, Some("3"), Some("2"));
    assert!(filtered.items.is_empty());
    assert!(!filtered.has_more);
}

#[test]
fn cast_filter_is_whole_name_membership() {
    let hit = ask(&snapshot(), None, None, Some("Marlon"), None, None, None);
    assert_eq!(hit.items, vec![projected("The Godfather", 1972)]);
    let partial = ask(&snapshot(), None, None, Some("Marl"), None, None, None);
    assert!(partial.items.is_empty());
}

#[test]
fn title_filter_is_case_sensitive() {
    let r = ask(&snapshot(), Some("matrix"), None, None, None, None, None);
    assert!(r.items.is_empty());
    assert!(!r.has_more);
}

#[test]
fn pagination_covers_all_matches_without_duplicates() {
    let snap = snapshot();
    let mut collected: Vec<Movie> = Vec::new();
    for page in 0..3 {
        let r = ask(&snap, None, None, None, None, Some(&page.to_string()), Some("2"));
        assert_eq!(r.has_more, page < 2);
        collected.extend(r.items);
    }
    let all = ask(&snap, None, None, None, None, None, None);
    assert_eq!(collected, all.items);
}

#[test]
fn title_filter_handles_multibyte_characters() {
    let r = ask(&snapshot(), Some("mél"), None, None, None, None, None);
    assert_eq!(r.items, vec![projected("Amélie", 2001)]);
    let miss = ask(&snapshot(), Some("mél!"), None, None, None, None, None);
    assert!(miss.items.is_empty());
}

#[test]
fn page_offset_beyond_addressable_range_is_empty() {
    let huge = usize::MAX.to_string();
    let r = ask(&snapshot(), None, None, None, None, Some(&huge), Some("2"));
    assert!(r.items.is_empty());
    assert!(!r.has_more);
    assert_eq!(r.page, usize::MAX);
}

#[test]
fn search_accepts_a_prebuilt_query() {
    let q = SearchQuery {
        title_contains: None,
        year: 0,
        cast: None,
        genre: Some("Drama".to_string()),
        page: 0,
        page_size: 1,
    };
    let r = search(&catalog(), &q);
    assert_eq!(r.items, vec![projected("Interstellar", 2014)]);
    assert!(r.has_more);
}
