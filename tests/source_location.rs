use rustcc::source_file::SourceFile;
use rustcc::source_location::SourceLocation;

#[test]
fn test_valid_source_location() {
    let source_file = SourceFile::new("path/to/file", "content");
    let location = SourceLocation::new(&source_file, 1, 1, 2);

    assert_eq!(location.source_file, Some(&source_file));
    assert_eq!(location.index, 1);
    assert_eq!(location.line, 1);
    assert_eq!(location.column, 2);
}

#[test]
fn test_new_scratch_valid() {
    let location = SourceLocation::new_scratch(3, 2);

    assert!(location.source_file.is_none());
    assert_eq!(location.index, 0);
    assert_eq!(location.line, 3);
    assert_eq!(location.column, 2);
}

#[test]
fn test_invalid_source_location() {
    let location = SourceLocation::invalid();

    assert!(location.source_file.is_none());
    assert_eq!(location.index, 0);
    assert_eq!(location.line, 0);
    assert_eq!(location.column, 0);
}

#[test]
fn test_is_valid_valid_location() {
    let source_file = SourceFile::new("path/to/file", "content");
    let location = SourceLocation::new(&source_file, 1, 1, 2);

    assert!(location.is_valid());
}

#[test]
fn test_is_valid_invalid_location() {
    let location = SourceLocation::invalid();

    assert!(!location.is_valid());
}

#[test]
fn test_default() {
    let default_location = SourceLocation::default();

    assert!(!default_location.is_valid());
}

#[test]
fn test_fmt_valid_source_location() {
    let source_file = SourceFile::new("path/to/file", "content");
    let location = SourceLocation::new(&source_file, 0, 1, 2);
    let expected_output = format!("{}:{}:{}", source_file.path, location.line, location.column);

    assert_eq!(expected_output, location.to_string());
}

#[test]
fn test_fmt_invalid_source_location() {
    let location = SourceLocation::invalid();
    let expected_output = "<invalid>";

    assert_eq!(expected_output, location.to_string());
}

#[test]
fn fmt_scratch_location_and_large_numbers() {
    let location = SourceLocation::new_scratch(3, 2);
    assert_eq!(location.to_string(), "<scratch>:3:2");

    let location = SourceLocation::new_scratch(4294967295, 1090);
    assert_eq!(location.to_string(), "<scratch>:4294967295:1090");
}

#[test]
fn test_to_range_valid_location() {
    let source_file = SourceFile::new("path/to/file", "content");
    let location = SourceLocation::new(&source_file, 1, 1, 2);
    let range = location.to_range();

    assert!(range.is_valid());
    assert_eq!(range.begin, location);
    assert_eq!(range.end, location);
}

#[test]
fn test_to_range_invalid_location() {
    let location = SourceLocation::invalid();
    let range = location.to_range();

    assert!(!range.is_valid());
    assert_eq!(range.begin, location);
    assert_eq!(range.end, location);
}

#[test]
fn test_to_range_scratch_location() {
    let location = SourceLocation::new_scratch(3, 2);
    let range = location.to_range();

    assert!(range.is_valid());
    assert_eq!(range.begin, location);
    assert_eq!(range.end, location);
}

#[test]
fn test_as_range_valid_location() {
    let source_file = SourceFile::new("path/to/file", "content");
    let location = SourceLocation::new(&source_file, 1, 1, 2);
    let range = location.as_range();

    assert!(range.is_valid());
    assert_eq!(range.begin, location);
    assert_eq!(range.end, location);
}

#[test]
fn test_as_range_invalid_location() {
    let location = SourceLocation::invalid();
    let range = location.as_range();

    assert!(!range.is_valid());
    assert_eq!(range.begin, location);
    assert_eq!(range.end, location);
}

#[test]
fn test_as_range_scratch_location() {
    let location = SourceLocation::new_scratch(3, 2);
    let range = location.as_range();

    assert!(range.is_valid());
    assert_eq!(range.begin, location);
    assert_eq!(range.end, location);
}
