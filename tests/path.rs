use iron_pipeline::path::{parse_path, slice_starts_with, ParsePathError};

fn strings(items: &[&str]) -> Vec<String> {
    items.iter().map(|s| s.to_string()).collect()
}

#[test]
fn parse_path_ok() {
    let path = parse_path("/this/is/the/path").unwrap();
    assert_eq!(path, vec!["this", "is", "the", "path"]);
}

#[test]
fn parse_path_strips_empty_segments() {
    let path = parse_path("/hello//world").unwrap();
    assert_eq!(path, vec!["hello", "world"]);
}

#[test]
fn parse_path_require_leading_slash() {
    let path = parse_path("this/is/the/path");
    assert_eq!(path, Err(ParsePathError::NoLeadingSlash));
}

#[test]
fn parse_path_require_non_empty() {
    let path = parse_path("/");
    assert_eq!(path, Err(ParsePathError::PathEmpty));
}

#[test]
fn parse_path_tolerates_trailing_and_repeated_slashes() {
    assert_eq!(parse_path("/api/v2/").unwrap(), vec!["api", "v2"]);
    assert_eq!(parse_path("///a///b///").unwrap(), vec!["a", "b"]);
    assert_eq!(parse_path("//"), Err(ParsePathError::PathEmpty));
    assert_eq!(parse_path(""), Err(ParsePathError::NoLeadingSlash));
}

#[test]
fn parse_path_error_descriptions() {
    assert_eq!(ParsePathError::NoLeadingSlash.description(), "Path must start with /");
    assert_eq!(ParsePathError::PathEmpty.description(), "Path cannot be empty");
}

#[test]
fn slice_starts_with_detects_invalid_prefix() {
    let input = strings(&["1", "2", "3"]);
    let prefix = strings(&["9", "9", "9"]);
    assert_eq!(false, slice_starts_with(&input, &prefix));
}

#[test]
fn slice_starts_with_prefix_and_input_same_length() {
    let input = strings(&["1", "2", "3"]);
    let prefix = strings(&["1", "2", "3"]);
    assert_eq!(true, slice_starts_with(&input, &prefix));
}

#[test]
fn slice_starts_with_longer_input() {
    let input = strings(&["1", "2", "3", "4"]);
    let prefix = strings(&["1", "2", "3"]);
    assert_eq!(true, slice_starts_with(&input, &prefix));
}

#[test]
fn slice_starts_with_longer_prefix() {
    let input = strings(&["1", "2", "3"]);
    let prefix = strings(&["1", "2", "3", "4"]);
    assert_eq!(false, slice_starts_with(&input, &prefix));
}

#[test]
fn prefix_matching_on_segments() {
    let prefix = strings(&["api", "v2"]);
    assert!(slice_starts_with(&strings(&["api", "v2", "example", "path"]), &prefix));
    assert!(slice_starts_with(&strings(&["api", "v2"]), &prefix));
    assert!(!slice_starts_with(&strings(&["api", "v1", "example"]), &prefix));
    assert!(!slice_starts_with(&strings(&["api"]), &prefix));
    assert!(!slice_starts_with(&strings(&["API", "v2"]), &prefix));
    assert!(slice_starts_with(&strings(&["api"]), &[]));
}
