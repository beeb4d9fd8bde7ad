use checksums::tree::{may_descend, path_depth, rel_join, within_depth, Depth};

#[test]
fn path_depth_counts_separators() {
    assert_eq!(path_depth(b"file.txt"), 0);
    assert_eq!(path_depth(b"sub/inner.txt"), 1);
    assert_eq!(path_depth(b"a/b/c/d.txt"), 3);
    assert_eq!(path_depth(b""), 0);
}

#[test]
fn depth_zero_takes_only_root_files() {
    assert!(within_depth(b"file.txt", &Depth::Limit(0)));
    assert!(!within_depth(b"sub/inner.txt", &Depth::Limit(0)));
}

#[test]
fn deeper_bounds_take_nested_files() {
    assert!(within_depth(b"file.txt", &Depth::Limit(1)));
    assert!(within_depth(b"sub/inner.txt", &Depth::Limit(1)));
    assert!(!within_depth(b"a/b/c.txt", &Depth::Limit(1)));
    assert!(within_depth(b"file.txt", &Depth::Infinite));
    assert!(within_depth(b"sub/inner.txt", &Depth::Infinite));
    assert!(within_depth(b"a/b/c/d/e.txt", &Depth::Infinite));
}

#[test]
fn descending_respects_the_bound() {
    assert!(!may_descend(1, &Depth::Limit(0)));
    assert!(may_descend(1, &Depth::Limit(1)));
    assert!(may_descend(1, &Depth::Limit(2)));
    assert!(!may_descend(3, &Depth::Limit(2)));
    assert!(may_descend(1, &Depth::Infinite));
    assert!(may_descend(1000, &Depth::Infinite));
}

#[test]
fn rel_join_uses_forward_slash() {
    assert_eq!(rel_join(b"", b"file.txt"), b"file.txt".to_vec());
    assert_eq!(rel_join(b"sub", b"inner.txt"), b"sub/inner.txt".to_vec());
    assert_eq!(rel_join(b"a/b", b"c.txt"), b"a/b/c.txt".to_vec());
}
