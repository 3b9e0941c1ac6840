use kfs::utils::path::Path;

#[test]
fn path_new_collapses_slashes() {
    assert_eq!(Path::new("//usr///bin/").as_str(), "/usr/bin");
    assert_eq!(Path::new("a//b").as_str(), "a/b");
    assert_eq!(Path::new("").as_str(), "");
    assert_eq!(Path::new("///").as_str(), "/");
}

#[test]
fn path_root() {
    let p = Path::new("/home/user");
    assert!(p.has_root());
    assert!(p.is_absolute());
    assert!(!p.is_relative());
    let q = Path::new("home/user");
    assert!(!q.has_root());
    assert!(q.is_relative());
}

#[test]
fn path_cleanup_resolves_dots() {
    let mut p = Path::new("/a/./b/../c");
    p.cleanup();
    assert_eq!(p.as_str(), "/a/c");
    let mut q = Path::new("a/..");
    q.cleanup();
    assert_eq!(q.as_str(), ".");
    let mut r = Path::new("../x/./y");
    r.cleanup();
    assert_eq!(r.as_str(), "x/y");
    let mut s = Path::new("/..");
    s.cleanup();
    assert_eq!(s.as_str(), "/");
}

#[test]
fn path_file_name_and_parent() {
    let p = Path::new("/usr/bin/ls");
    assert_eq!(p.file_name(), Some("ls"));
    assert_eq!(p.parent().unwrap().as_str(), "/usr/bin");
    let q = Path::new("ls");
    assert_eq!(q.file_name(), Some("ls"));
    assert_eq!(q.parent().unwrap().as_str(), "");
    let r = Path::new("/ls");
    assert_eq!(r.parent().unwrap().as_str(), "/");
}
