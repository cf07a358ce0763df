use msi_extract::Error;
use msi_extract::traverse::ComponentRow;
use msi_extract::traverse::DirectoryRow;
use msi_extract::traverse::FileRow;
use msi_extract::traverse::MsiTrav;
use msi_extract::traverse::MsiTraverser;

fn s(v: &str) -> Option<String> {
    Some(v.to_string())
}

fn file_row(file: &str, filename: &str, component: &str) -> FileRow {
    FileRow { file: s(file), filename: s(filename), component: s(component) }
}

fn component_row(component: &str, directory: &str) -> ComponentRow {
    ComponentRow { component: s(component), directory: s(directory) }
}

fn dir_row(directory: &str, parent: Option<&str>, default_dir: Option<&str>) -> DirectoryRow {
    DirectoryRow {
        directory: s(directory),
        parent: parent.map(|p| p.to_string()),
        default_dir: default_dir.map(|d| d.to_string()),
    }
}

/// root (no parent) <- A <- B, with a file owned through c1 by B.
fn sample_index() -> MsiTraverser {
    let files = vec![file_row("f1", "F1.TXT|hello.txt", "c1")];
    let components = vec![component_row("c1", "B")];
    let directories = vec![
        dir_row("TARGETDIR", None, Some("SourceDir")),
        dir_row("A", Some("TARGETDIR"), Some("a|Alpha")),
        dir_row("B", Some("A"), Some("b|Beta")),
    ];
    MsiTraverser::from_rows(&files, &components, &directories)
}

#[test]
fn root_elision() {
    let t = sample_index();
    let path = t.dir_path("B").unwrap();
    assert_eq!(path, vec!["Alpha".to_string(), "Beta".to_string()]);
}

#[test]
fn dir_path_of_child_of_root() {
    let t = sample_index();
    let path = t.dir_path("A").unwrap();
    assert_eq!(path, vec!["Alpha".to_string()]);
}

#[test]
fn dir_path_of_root_is_empty() {
    let t = sample_index();
    let path = t.dir_path("TARGETDIR").unwrap();
    assert_eq!(path, Vec::<String>::new());
}

#[test]
fn full_file_path() {
    let t = sample_index();
    let path = t.resolve("f1").unwrap();
    assert_eq!(
        path,
        vec!["Alpha".to_string(), "Beta".to_string(), "hello.txt".to_string()]
    );
}

#[test]
fn file_full_path_matches_resolve() {
    let files = vec![file_row("f1", "F1.TXT|hello.txt", "c1")];
    let components = vec![component_row("c1", "B")];
    let directories = vec![
        dir_row("TARGETDIR", None, Some("SourceDir")),
        dir_row("A", Some("TARGETDIR"), Some("a|Alpha")),
        dir_row("B", Some("A"), Some("b|Beta")),
    ];
    let t = MsiTrav::from_rows(&files, &components, &directories);
    let path = t.file_full_path("f1").unwrap();
    assert_eq!(
        path,
        vec!["Alpha".to_string(), "Beta".to_string(), "hello.txt".to_string()]
    );
}

#[test]
fn unknown_file_fails() {
    let t = sample_index();
    assert!(matches!(t.resolve("nope"), Err(Error::Other)));
}

#[test]
fn missing_component_mapping_fails() {
    let files = vec![file_row("f1", "F1.TXT|hello.txt", "ghost")];
    let components = vec![component_row("c1", "B")];
    let directories = vec![
        dir_row("TARGETDIR", None, Some("SourceDir")),
        dir_row("B", Some("TARGETDIR"), Some("b|Beta")),
    ];
    let t = MsiTraverser::from_rows(&files, &components, &directories);
    assert!(matches!(t.resolve("f1"), Err(Error::Other)));
}

#[test]
fn missing_directory_name_fails_resolution_start() {
    let t = sample_index();
    assert!(matches!(t.dir_path("unknown"), Err(Error::Other)));
}

#[test]
fn missing_ancestor_name_becomes_empty_segment() {
    let files = vec![file_row("f1", "hello.txt", "c1")];
    let components = vec![component_row("c1", "B")];
    let directories = vec![
        dir_row("TARGETDIR", None, Some("SourceDir")),
        dir_row("A", Some("TARGETDIR"), None),
        dir_row("B", Some("A"), Some("b|Beta")),
    ];
    let t = MsiTraverser::from_rows(&files, &components, &directories);
    let path = t.resolve("f1").unwrap();
    assert_eq!(
        path,
        vec!["".to_string(), "Beta".to_string(), "hello.txt".to_string()]
    );
}

#[test]
fn missing_ancestor_is_reported() {
    let directories = vec![
        dir_row("TARGETDIR", None, Some("SourceDir")),
        dir_row("A", Some("TARGETDIR"), None),
        dir_row("B", Some("A"), Some("b|Beta")),
    ];
    let t = MsiTraverser::from_rows(&Vec::new(), &Vec::new(), &directories);
    assert_eq!(t.missing_ancestors("B").unwrap(), vec!["A".to_string()]);
}

#[test]
fn complete_chain_reports_no_missing_ancestors() {
    let t = sample_index();
    assert_eq!(t.missing_ancestors("B").unwrap(), Vec::<String>::new());
    assert!(matches!(t.missing_ancestors("unknown"), Err(Error::Other)));
}

#[test]
fn missing_for_file_names_the_silent_ancestors() {
    let files = vec![file_row("f1", "hello.txt", "c1")];
    let components = vec![component_row("c1", "B")];
    let directories = vec![
        dir_row("TARGETDIR", None, Some("SourceDir")),
        dir_row("A", Some("TARGETDIR"), None),
        dir_row("B", Some("A"), Some("b|Beta")),
    ];
    let t = MsiTraverser::from_rows(&files, &components, &directories);
    assert_eq!(t.missing_for_file("f1").unwrap(), vec!["A".to_string()]);
    assert!(matches!(t.missing_for_file("nope"), Err(Error::Other)));
}

#[test]
fn missing_for_file_is_empty_on_named_chains() {
    let t = sample_index();
    assert_eq!(t.missing_for_file("f1").unwrap(), Vec::<String>::new());
}

#[test]
fn cyclic_parent_links_fail() {
    let files = vec![file_row("f1", "hello.txt", "c1")];
    let components = vec![component_row("c1", "B")];
    let directories = vec![
        dir_row("A", Some("B"), Some("a|Alpha")),
        dir_row("B", Some("A"), Some("b|Beta")),
    ];
    let t = MsiTraverser::from_rows(&files, &components, &directories);
    assert!(matches!(t.resolve("f1"), Err(Error::MalformedHierarchy)));
    assert!(matches!(t.dir_path("B"), Err(Error::MalformedHierarchy)));
}

#[test]
fn self_referential_parent_fails() {
    let directories = vec![dir_row("A", Some("A"), Some("a|Alpha"))];
    let t = MsiTraverser::from_rows(&Vec::new(), &Vec::new(), &directories);
    assert!(matches!(t.dir_path("A"), Err(Error::MalformedHierarchy)));
}

#[test]
fn rows_missing_fields_are_skipped() {
    let files = vec![
        FileRow { file: s("f1"), filename: None, component: s("c1") },
        FileRow { file: None, filename: s("x.txt"), component: s("c1") },
    ];
    let components = vec![component_row("c1", "TARGETDIR")];
    let directories = vec![dir_row("TARGETDIR", None, Some("SourceDir"))];
    let t = MsiTraverser::from_rows(&files, &components, &directories);
    assert!(matches!(t.resolve("f1"), Err(Error::Other)));
}

#[test]
fn later_rows_win_on_equal_keys() {
    let files = vec![
        file_row("f1", "OLD.TXT|old.txt", "c1"),
        file_row("f1", "NEW.TXT|new.txt", "c1"),
    ];
    let components = vec![component_row("c1", "TARGETDIR")];
    let directories = vec![dir_row("TARGETDIR", None, Some("SourceDir"))];
    let t = MsiTraverser::from_rows(&files, &components, &directories);
    assert_eq!(t.resolve("f1").unwrap(), vec!["new.txt".to_string()]);
}
