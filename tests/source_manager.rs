use rustcc::source_manager::{EmptySourceManager, SourceManager, VirtualSourceManager};

#[test]
fn test_virtual_source_manager() {
    let mut source_manager = VirtualSourceManager::new();

    source_manager.add_file("test", "content");

    // Load the file
    let source_file = source_manager.load_file("test").unwrap();

    assert_eq!(source_file.content, "content");
}

#[test]
fn test_empty_source_manager() {
    let source_manager = EmptySourceManager;

    assert!(source_manager.load_file("any_path").is_none());
}

#[test]
fn virtual_source_manager_replaces_and_misses() {
    let mut source_manager = VirtualSourceManager::new();
    source_manager.add_file("a.c", "one");
    source_manager.add_file("b.c", "two");
    source_manager.add_file("a.c", "three");

    assert_eq!(source_manager.load_file("a.c").unwrap().content, "three");
    assert_eq!(source_manager.load_file("b.c").unwrap().content, "two");
    assert_eq!(source_manager.load_file("b.c").unwrap().path, "b.c");
    assert!(source_manager.load_file("c.c").is_none());
}

#[test]
fn source_managers_through_the_trait() {
    let mut virtual_manager = VirtualSourceManager::new();
    virtual_manager.add_file("x.c", "int");
    let managers: Vec<&dyn SourceManager> = vec![&virtual_manager, &EmptySourceManager];

    assert_eq!(SourceManager::load_file(managers[0], "x.c").unwrap().content, "int");
    assert!(SourceManager::load_file(managers[1], "x.c").is_none());
    assert!(EmptySourceManager::new().load_file("x.c").is_none());
}
