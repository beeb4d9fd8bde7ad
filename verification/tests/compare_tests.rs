use checksums::compare::{compare_hashes, exit_code, exit_code_allowing_extra, ComparisonOutcome};
use checksums::manifest::Manifest;

fn manifest_of(entries: &[(&[u8], &[u8])]) -> Manifest {
    let mut m = Manifest::new();
    for (p, d) in entries {
        assert!(!m.contains_path(p));
        m.insert(p.to_vec(), d.to_vec());
    }
    m
}

fn outcome_of(
    items: &[(Vec<u8>, ComparisonOutcome)],
    path: &[u8],
) -> ComparisonOutcome {
    for (p, o) in items {
        if p.as_slice() == path {
            return *o;
        }
    }
    panic!("path not reported");
}

#[test]
fn comparing_manifest_with_itself_matches_everything() {
    let m = manifest_of(&[(b"a", b"d1"), (b"b", b"d2"), (b"c", b"d3")]);
    let r = compare_hashes(&m, &m);
    assert_eq!(r.items.len(), 3);
    for (_, o) in &r.items {
        assert_eq!(*o, ComparisonOutcome::Matching);
    }
    assert!(r.verdict.all_matched);
    assert_eq!(r.verdict.matching, 3);
    assert_eq!(r.verdict.mismatching, 0);
    assert_eq!(r.verdict.missing, 0);
    assert_eq!(r.verdict.extra, 0);
    assert_eq!(exit_code(&r.verdict), 0);
}

#[test]
fn missing_and_extra_are_reported() {
    let fresh = manifest_of(&[(b"a", b"d1"), (b"b", b"d2")]);
    let loaded = manifest_of(&[(b"a", b"d1"), (b"c", b"d3")]);
    let r = compare_hashes(&fresh, &loaded);
    assert_eq!(r.items.len(), 3);
    assert_eq!(outcome_of(&r.items, b"a"), ComparisonOutcome::Matching);
    assert_eq!(outcome_of(&r.items, b"b"), ComparisonOutcome::Extra);
    assert_eq!(outcome_of(&r.items, b"c"), ComparisonOutcome::Missing);
    assert!(!r.verdict.all_matched);
    assert_eq!(r.verdict.matching, 1);
    assert_eq!(r.verdict.missing, 1);
    assert_eq!(r.verdict.extra, 1);
    assert_eq!(r.verdict.mismatching, 0);
    assert_eq!(exit_code(&r.verdict), 1);
}

#[test]
fn differing_digests_mismatch() {
    let fresh = manifest_of(&[(b"a", b"d1")]);
    let loaded = manifest_of(&[(b"a", b"d2")]);
    let r = compare_hashes(&fresh, &loaded);
    assert_eq!(r.items.len(), 1);
    assert_eq!(outcome_of(&r.items, b"a"), ComparisonOutcome::Mismatching);
    assert!(!r.verdict.all_matched);
    assert_eq!(r.verdict.mismatching, 1);
    assert_eq!(exit_code(&r.verdict), 1);
}

#[test]
fn report_order_is_deterministic() {
    let fresh = manifest_of(&[(b"x", b"1"), (b"a", b"2")]);
    let loaded = manifest_of(&[(b"b", b"3"), (b"a", b"2")]);
    let r = compare_hashes(&fresh, &loaded);
    let paths: Vec<Vec<u8>> = r.items.iter().map(|(p, _)| p.clone()).collect();
    // loaded order first, then fresh-only paths in fresh order
    assert_eq!(paths, vec![b"b".to_vec(), b"a".to_vec(), b"x".to_vec()]);
}

#[test]
fn empty_manifests_all_match() {
    let a = Manifest::new();
    let b = Manifest::new();
    let r = compare_hashes(&a, &b);
    assert_eq!(r.items.len(), 0);
    assert!(r.verdict.all_matched);
    assert_eq!(exit_code(&r.verdict), 0);
}

#[test]
fn extra_policy_is_a_caller_choice() {
    let fresh = manifest_of(&[(b"a", b"d1"), (b"b", b"d2")]);
    let loaded = manifest_of(&[(b"a", b"d1")]);
    let r = compare_hashes(&fresh, &loaded);
    assert_eq!(outcome_of(&r.items, b"b"), ComparisonOutcome::Extra);
    assert!(!r.verdict.all_matched);
    assert_eq!(exit_code(&r.verdict), 1);
    assert_eq!(exit_code_allowing_extra(&r.verdict), 0);

    let loaded2 = manifest_of(&[(b"a", b"dX")]);
    let r2 = compare_hashes(&fresh, &loaded2);
    assert_eq!(exit_code_allowing_extra(&r2.verdict), 1);
}
