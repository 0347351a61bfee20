use squirrel::fs_path::FsPath;
use squirrel::path_filter::{new, PathFilter, PrefixIgnore};

fn abs(parts: &[&str]) -> FsPath {
    FsPath { absolute: true, parts: parts.iter().map(|s| s.to_string()).collect() }
}

fn rel(parts: &[&str]) -> FsPath {
    FsPath { absolute: false, parts: parts.iter().map(|s| s.to_string()).collect() }
}

fn filter_at_a() -> PathFilter {
    new(&abs(&["a"]), &abs(&["a", ".backup"])).unwrap()
}

fn no_rules(depth: usize) -> (Option<Vec<String>>, Vec<PrefixIgnore>) {
    let mut prefixes = Vec::new();
    for i in 0..depth {
        prefixes.push(PrefixIgnore { is_file: i + 1 == depth, gitignore: None });
    }
    (None, prefixes)
}

#[test]
fn ignore_composition_reincludes_deeper_file() {
    let f = filter_at_a();
    let root_ignore = Some(vec!["*.txt".to_string()]);
    let prefixes = vec![
        PrefixIgnore { is_file: false, gitignore: Some(vec!["!c.txt".to_string()]) },
        PrefixIgnore { is_file: true, gitignore: None },
    ];
    let admitted = f.allow(&rel(&["b", "c.txt"]), false, &root_ignore, &prefixes).unwrap();
    assert!(admitted);
}

#[test]
fn root_ignore_denies_without_reinclusion() {
    let f = filter_at_a();
    let root_ignore = Some(vec!["*.txt".to_string()]);
    let prefixes = vec![
        PrefixIgnore { is_file: false, gitignore: None },
        PrefixIgnore { is_file: true, gitignore: None },
    ];
    let admitted = f.allow(&rel(&["b", "d.txt"]), false, &root_ignore, &prefixes).unwrap();
    assert!(!admitted);
}

#[test]
fn out_of_scope_is_always_denied() {
    let f = filter_at_a();
    let (root_ignore, prefixes) = no_rules(2);
    let admitted = f.allow(&abs(&["x", "y.txt"]), false, &root_ignore, &prefixes).unwrap();
    assert!(!admitted);
    // The same path is denied even when an ignore rule would re-include it.
    let root_ignore = Some(vec!["!y.txt".to_string()]);
    let admitted = f.allow(&abs(&["x", "y.txt"]), false, &root_ignore, &prefixes).unwrap();
    assert!(!admitted);
}

#[test]
fn stash_paths_are_always_denied() {
    let f = new(&abs(&["a"]), &abs(&["a", "stash"])).unwrap();
    let (root_ignore, prefixes) = no_rules(2);
    let admitted = f.allow(&abs(&["a", "stash", "snap"]), false, &root_ignore, &prefixes).unwrap();
    assert!(!admitted);
    assert!(f.is_stash_path(&abs(&["a", "stash", "snap"])));
    assert!(!f.is_stash_path(&abs(&["a", "other", "snap"])));
}

#[test]
fn dotted_components_are_denied() {
    let f = filter_at_a();
    let (root_ignore, prefixes) = no_rules(2);
    let hidden = rel(&[".hidden", "file.txt"]);
    assert!(f.is_dotted(&hidden));
    let admitted = f.allow(&hidden, false, &root_ignore, &prefixes).unwrap();
    assert!(!admitted);

    let normal = rel(&["normal", "file.txt"]);
    assert!(!f.is_dotted(&normal));
    let admitted = f.allow(&normal, false, &root_ignore, &prefixes).unwrap();
    assert!(admitted);
}

#[test]
fn dotted_check_skips_the_root_components() {
    let f = new(&abs(&[".home", "a"]), &abs(&[".home", "a", ".backup"])).unwrap();
    let inside = abs(&[".home", "a", "plain.txt"]);
    assert!(!f.is_dotted(&inside));
    let hidden = abs(&[".home", "a", ".git", "cfg"]);
    assert!(f.is_dotted(&hidden));
}

#[test]
fn scope_accepts_relative_and_contained_paths() {
    let f = filter_at_a();
    assert!(f.is_in_scope(&rel(&["b", "c.txt"])));
    assert!(f.is_in_scope(&abs(&["a", "b"])));
    assert!(!f.is_in_scope(&abs(&["b", "c"])));
}

#[test]
fn construction_rejects_non_canonical_anchors() {
    assert!(new(&rel(&["a"]), &abs(&["a", ".backup"])).is_err());
    assert!(new(&abs(&["a"]), &rel(&["a", ".backup"])).is_err());
    assert!(new(&abs(&["a", ""]), &abs(&["a", ".backup"])).is_err());
    assert!(new(&abs(&["a", "."]), &abs(&["a", ".backup"])).is_err());
    assert!(new(&abs(&["a"]), &abs(&["a", ".backup"])).is_ok());
}
