use rustcc::source_file::{path_is_acceptable, SourceFile};
use std::collections::hash_map::DefaultHasher;
use std::hash::{Hash, Hasher};

#[test]
fn test_source_file_creation() {
    let path = "test_path.c";
    let content = "int main() { return 0; }";
    let source_file = SourceFile::new(path, content);

    assert_eq!(source_file.path, path);
    assert_eq!(source_file.content, content);
}

#[test]
fn test_source_file_equality() {
    let path = "test_path.c";
    let content = "int main() { return 0; }";
    let source_file1 = SourceFile::new(path, content);
    let source_file2 = SourceFile::new(path, content);

    assert_eq!(source_file1, source_file2);
}

#[test]
fn test_source_file_inequality() {
    let source_file1 = SourceFile::new("path1.c", "int main() { return 0; }");
    let source_file2 = SourceFile::new("path2.c", "int main() { return 0; }");

    assert_ne!(source_file1, source_file2);
}

#[test]
fn test_source_file_clone() {
    let source_file = SourceFile::new("test_path.c", "int main() { return 0; }");
    let cloned_source_file = source_file.clone();

    assert_eq!(source_file, cloned_source_file);
}

#[test]
fn test_source_file_hash() {
    let source_file = SourceFile::new("test_path.c", "int main() { return 0; }");

    let mut hasher = DefaultHasher::new();
    source_file.hash(&mut hasher);
    let hash1 = hasher.finish();

    let mut hasher = DefaultHasher::new();
    source_file.hash(&mut hasher);
    let hash2 = hasher.finish();

    assert_eq!(hash1, hash2);
}

#[test]
fn acceptable_paths() {
    assert!(path_is_acceptable("src/main.c"));
    assert!(path_is_acceptable("a.b/c.d"));
    assert!(path_is_acceptable(""));
    assert!(!path_is_acceptable("a\0b"));
    assert!(!path_is_acceptable("a\nb"));
    assert!(!path_is_acceptable("../x.c"));
    assert!(!path_is_acceptable("a//b"));
    assert!(!path_is_acceptable("a\\\\b"));
    assert!(path_is_acceptable("a\\b"));
    assert!(!path_is_acceptable("a/*b"));
    assert!(!path_is_acceptable("a*/b"));
}
