use rs_movie_db::endpoint::{env_line, resolve_endpoint};

#[test]
fn emulator_host_takes_precedence() {
    let url = resolve_endpoint("localhost", "4566", "https://example.test");
    assert_eq!(url, "http://localhost:4566");
}

#[test]
fn empty_port_keeps_trailing_colon() {
    let url = resolve_endpoint("localhost", "", "");
    assert_eq!(url, "http://localhost:");
}

#[test]
fn explicit_url_used_without_emulator_host() {
    let url = resolve_endpoint("", "4566", "https://example.test");
    assert_eq!(url, "https://example.test");
}

#[test]
fn all_empty_means_no_override() {
    assert_eq!(resolve_endpoint("", "", ""), "");
}

#[test]
fn env_lines_echo_name_and_value() {
    assert_eq!(env_line("AWS_STORAGE_BUCKET_NAME", "movies"), "AWS_STORAGE_BUCKET_NAME: movies");
    assert_eq!(env_line("LOCALSTACK_SERVICE_PORT", ""), "LOCALSTACK_SERVICE_PORT: ");
}
