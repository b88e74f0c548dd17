use std::str::FromStr;
use windows_task::{FolderPath, TaskPath};

#[test]
fn canonicalizes_forward_slashes() {
    let path = TaskPath::from_str("/Acme/Backup").expect("valid path");
    assert_eq!(path.as_str(), "\\Acme\\Backup");
    assert_eq!(path.folder().as_str(), "\\Acme");
    assert_eq!(path.name(), "Backup");
}

#[test]
fn root_is_only_a_folder() {
    FolderPath::from_str("\\").expect("root folder is valid");
    TaskPath::from_str("\\").expect_err("root is not a task");
}

#[test]
fn rejects_native_leading_or_trailing_whitespace() {
    TaskPath::from_str("\\Acme\\ Task").expect_err("leading whitespace must be rejected");
    TaskPath::from_str("\\Acme\\Task ").expect_err("trailing whitespace must be rejected");
}

#[test]
fn joining_then_taking_the_parent_gives_the_folder_back() {
    let folder = FolderPath::parse("\\Acme").expect("folder");
    let child = folder.join("Jobs").expect("child");
    assert_eq!(child.as_str(), "\\Acme\\Jobs");
    assert_eq!(child.parent().expect("parent").as_str(), "\\Acme");
    assert_eq!(child.name().as_deref(), Some("Jobs"));
    assert!(FolderPath::root().is_root());
    assert!(FolderPath::root().parent().is_none());
}

#[test]
fn canonical_text_parses_to_itself() {
    let path = TaskPath::parse("//Acme//Backup/").expect_err("empty components are rejected");
    assert!(!path.message().is_empty());
    let once = TaskPath::parse("/Acme/Backup").expect("path");
    let twice = TaskPath::parse(once.as_str()).expect("canonical text");
    assert_eq!(once.as_str(), twice.as_str());
}
