use std::cmp::Ordering;
use tool_uninstall::listing::coordinate;
use tool_uninstall::sorting::ordering;
use tool_uninstall::{Origin, ResolutionError, ResolvedToolVersion};

fn entry(backend: &str, version: &str, origin: Origin) -> ResolvedToolVersion {
    ResolvedToolVersion::new(backend.to_string(), version.to_string(), origin)
}

#[test]
fn duplicates_are_removed() {
    let found = vec![
        entry("node", "18.0.0", Origin::Exact),
        entry("node", "18.0.0", Origin::Exact),
    ];
    assert_eq!(coordinate(found, false), Ok(vec![entry("node", "18.0.0", Origin::Exact)]));
}

#[test]
fn of_duplicates_the_first_is_kept() {
    let found = vec![
        entry("node", "18.0.1", Origin::Prefix),
        entry("node", "18.0.0", Origin::Prefix),
        entry("node", "18.0.1", Origin::Alias),
        entry("node", "18.0.0", Origin::Exact),
    ];
    assert_eq!(
        coordinate(found, false),
        Ok(vec![entry("node", "18.0.0", Origin::Prefix), entry("node", "18.0.1", Origin::Prefix)])
    );
}

#[test]
fn entries_are_sorted_by_backend_then_version() {
    let found = vec![
        entry("python", "3.12.0", Origin::Declared),
        entry("node", "20.0.0", Origin::Declared),
        entry("python", "3.11.0", Origin::Declared),
        entry("node", "18.0.0", Origin::Declared),
    ];
    assert_eq!(
        coordinate(found, true),
        Ok(vec![
            entry("node", "18.0.0", Origin::Declared),
            entry("node", "20.0.0", Origin::Declared),
            entry("python", "3.11.0", Origin::Declared),
            entry("python", "3.12.0", Origin::Declared),
        ])
    );
}

#[test]
fn versions_are_sorted_as_text() {
    let found = vec![entry("node", "9.0.0", Origin::Prefix), entry("node", "10.0.0", Origin::Prefix)];
    assert_eq!(
        coordinate(found, false),
        Ok(vec![entry("node", "10.0.0", Origin::Prefix), entry("node", "9.0.0", Origin::Prefix)])
    );
}

#[test]
fn backend_that_begins_another_comes_first() {
    let found = vec![entry("node-lts", "1", Origin::Prefix), entry("node", "2", Origin::Prefix)];
    assert_eq!(
        coordinate(found, true),
        Ok(vec![entry("node", "2", Origin::Prefix), entry("node-lts", "1", Origin::Prefix)])
    );
}

#[test]
fn the_order_found_does_not_matter() {
    let one = vec![
        entry("node", "20.0.0", Origin::Prefix),
        entry("go", "1.22", Origin::Prefix),
        entry("node", "18.0.0", Origin::Prefix),
    ];
    let other = vec![
        entry("node", "18.0.0", Origin::Prefix),
        entry("node", "20.0.0", Origin::Prefix),
        entry("go", "1.22", Origin::Prefix),
    ];
    assert_eq!(coordinate(one, true), coordinate(other, true));
}

#[test]
fn several_backends_are_refused_without_all() {
    let found = vec![entry("node", "18.0.0", Origin::Exact), entry("python", "3.12.0", Origin::Exact)];
    assert_eq!(coordinate(found, false), Err(ResolutionError::Ambiguous));
}

#[test]
fn several_backends_pass_with_all() {
    let found = vec![entry("python", "3.12.0", Origin::Exact), entry("node", "18.0.0", Origin::Exact)];
    assert_eq!(
        coordinate(found, true),
        Ok(vec![entry("node", "18.0.0", Origin::Exact), entry("python", "3.12.0", Origin::Exact)])
    );
}

#[test]
fn several_versions_of_one_backend_pass_without_all() {
    let found = vec![entry("node", "20.0.0", Origin::Prefix), entry("node", "18.0.0", Origin::Prefix)];
    assert_eq!(
        coordinate(found, false),
        Ok(vec![entry("node", "18.0.0", Origin::Prefix), entry("node", "20.0.0", Origin::Prefix)])
    );
}

#[test]
fn nothing_found_gives_an_empty_list() {
    assert_eq!(coordinate(vec![], false), Ok(vec![]));
    assert_eq!(coordinate(vec![], true), Ok(vec![]));
}

#[test]
fn ordering_tells_before_behind_and_same() {
    let a = entry("node", "18.0.0", Origin::Exact);
    let b = entry("node", "20.0.0", Origin::Prefix);
    let c = entry("python", "1", Origin::Declared);
    assert_eq!(ordering(&a, &b), Ordering::Less);
    assert_eq!(ordering(&b, &a), Ordering::Greater);
    assert_eq!(ordering(&b, &c), Ordering::Less);
    assert_eq!(ordering(&a, &entry("node", "18.0.0", Origin::Alias)), Ordering::Equal);
    assert!(a.precedes(&b));
    assert!(!b.precedes(&a));
}

#[test]
fn messages_of_resolution_errors() {
    assert_eq!(
        ResolutionError::Ambiguous.message(),
        "multiple tools specified, use --all to uninstall all versions"
    );
    assert_eq!(
        ResolutionError::UnknownBackend("nodejs".to_string()).message(),
        "unknown backend: nodejs"
    );
}

#[test]
fn label_joins_backend_and_version() {
    let a = entry("node", "18.0.0", Origin::Exact);
    assert_eq!(a.label(), "node@18.0.0");
    assert_eq!(a.identity(), ("node".to_string(), "18.0.0".to_string()));
    assert_eq!(a.duplicate(), a);
}
