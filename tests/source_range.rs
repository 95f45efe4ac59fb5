use rustcc::source_file::SourceFile;
use rustcc::source_location::SourceLocation;
use rustcc::source_range::SourceRange;

#[test]
fn test_new_same_file_valid_range() {
    let source_file = SourceFile::new("path/to/file", "content");
    let begin = SourceLocation::new(&source_file, 0, 1, 1);
    let end = SourceLocation::new(&source_file, 2, 1, 3);
    let range = SourceRange::new(begin, end);

    assert!(range.is_valid());
    assert_eq!(range.begin, begin);
    assert_eq!(range.end, end);
}

#[test]
fn test_new_begin_and_end_at_same_location() {
    let source_file = SourceFile::new("path/to/file", "content");
    let location = SourceLocation::new(&source_file, 0, 1, 1);
    let range = SourceRange::new(location, location);

    assert_eq!(range.begin, location);
    assert_eq!(range.end, location);
}

#[test]
fn test_new_from_location_valid_location() {
    let source_file = SourceFile::new("path/to/file", "content");
    let location = SourceLocation::new(&source_file, 1, 1, 2);
    let range = SourceRange::from_location(location);

    assert_eq!(range.begin, location);
    assert_eq!(range.end, location);
}

#[test]
fn test_new_from_location_invalid_location() {
    let location = SourceLocation::invalid();
    let range = SourceRange::from_location(location);

    assert_eq!(range.begin, location);
    assert_eq!(range.end, location);
}

#[test]
fn test_from_location_to_range() {
    let source_file = SourceFile::new("path/to/file", "content");
    let location = SourceLocation::new(&source_file, 0, 1, 2);
    let range = SourceRange::from(location);

    assert_eq!(range.begin, location);
    assert_eq!(range.end, location);
}

#[test]
fn test_from_invalid_location_to_range() {
    let location = SourceLocation::invalid();
    let range = SourceRange::from(location);

    assert_eq!(range.begin, location);
    assert_eq!(range.end, location);
}

#[test]
fn test_invalid_returns_invalid_source_location() {
    let result = SourceRange::invalid();

    assert_eq!(result.begin, SourceLocation::invalid());
    assert_eq!(result.end, SourceLocation::invalid());
}

#[test]
fn test_is_valid() {
    let source_file = SourceFile::new("path/to/file", "content");
    let begin = SourceLocation::new(&source_file, 0, 1, 1);
    let end = SourceLocation::new(&source_file, 1, 1, 2);
    let range = SourceRange::new(begin, end);

    assert!(range.is_valid());
    assert!(range.begin.is_valid());
    assert!(range.end.is_valid());
}

#[test]
fn test_is_valid_invalid() {
    let begin = SourceLocation::invalid();
    let end = SourceLocation::invalid();
    let range = SourceRange::new(begin, end);

    assert!(!range.is_valid());
}

#[test]
fn test_source_text_valid_range() {
    let content = "Hello, world!";
    let source_file = SourceFile::new("path/to/file", content);
    let begin = SourceLocation::new(&source_file, 0, 1, 1);
    let end = SourceLocation::new(&source_file, 4, 1, 5);
    let range = SourceRange::new(begin, end);

    assert_eq!(range.source_text(), Some("Hello"));
}

#[test]
fn test_source_text_empty_range() {
    let content = "Hello, world!";
    let source_file = SourceFile::new("path/to/file", content);
    let location = SourceLocation::new(&source_file, 0, 1, 1);
    let range = SourceRange::new(location, location);

    assert_eq!(range.source_text(), Some("H"));

    let location = SourceLocation::new(&source_file, 1, 1, 2);
    let range = SourceRange::from_location(location);

    assert_eq!(range.source_text(), Some("e"));
}

#[test]
fn test_source_text_utf8() {
    let content = "aこbѤc";
    let source_file = SourceFile::new("path/to/file", content);

    let location = SourceLocation::new(&source_file, 0, 1, 1);
    let range = SourceRange::from_location(location);

    assert_eq!(range.source_text(), Some("a"));

    let location = SourceLocation::new(&source_file, 1, 1, 2);
    let range = SourceRange::from_location(location);

    assert_eq!(range.source_text(), Some("こ"));

    let begin = SourceLocation::new(&source_file, 0, 1, 1);
    let end = SourceLocation::new(&source_file, 1, 1, 2);
    let range = SourceRange::new(begin, end);

    assert_eq!(range.source_text(), Some("aこ"));

    let begin = SourceLocation::new(&source_file, 0, 1, 1);
    let end = SourceLocation::new(&source_file, 4, 1, 3);
    let range = SourceRange::new(begin, end);

    assert_eq!(range.source_text(), Some("aこb"));

    let location = SourceLocation::new(&source_file, 5, 1, 4);
    let range = SourceRange::from_location(location);

    assert_eq!(range.source_text(), Some("Ѥ"));
}

#[test]
fn test_source_text_none_source_file() {
    let begin = SourceLocation::invalid();
    let end = SourceLocation::invalid();
    let range = SourceRange::new(begin, end);

    assert_eq!(range.source_text(), None);
}

#[test]
fn source_text_off_a_character_boundary_is_none() {
    let source_file = SourceFile::new("path/to/file", "aこb");
    // Byte 2 lies inside the three bytes of the second character.
    let location = SourceLocation::new(&source_file, 2, 1, 2);
    assert_eq!(SourceRange::from_location(location).source_text(), None);

    let begin = SourceLocation::new(&source_file, 0, 1, 1);
    let end = SourceLocation::new(&source_file, 2, 1, 2);
    assert_eq!(SourceRange::new(begin, end).source_text(), None);
}

#[test]
fn source_text_ends_with_the_whole_last_character() {
    let source_file = SourceFile::new("path/to/file", "aこbѤ");
    let begin = SourceLocation::new(&source_file, 4, 1, 3);
    let end = SourceLocation::new(&source_file, 5, 1, 4);
    assert_eq!(SourceRange::new(begin, end).source_text(), Some("bѤ"));
    let begin = SourceLocation::new(&source_file, 1, 1, 2);
    assert_eq!(SourceRange::new(begin, end).source_text(), Some("こbѤ"));
}

#[test]
fn range_whose_byte_indices_run_backwards_has_no_text() {
    let source_file = SourceFile::new("path/to/file", "abcdef
xy");
    let begin = SourceLocation::new(&source_file, 5, 1, 6);
    let end = SourceLocation::new(&source_file, 3, 2, 1);
    let range = SourceRange::new(begin, end);
    assert_eq!(range.source_text(), None);
}

#[test]
fn source_text_across_lines() {
    let source_file = SourceFile::new("path/to/file", "ab\ncd");
    let begin = SourceLocation::new(&source_file, 1, 1, 2);
    let end = SourceLocation::new(&source_file, 3, 2, 1);
    assert_eq!(SourceRange::new(begin, end).source_text(), Some("b\nc"));
}

#[test]
fn default_range_is_invalid() {
    let range = SourceRange::default();
    assert!(!range.is_valid());
    assert_eq!(range.begin, SourceLocation::invalid());
}
