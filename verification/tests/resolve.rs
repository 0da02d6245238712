use tool_uninstall::resolve::{flatten, no_versions_warning, resolve_specifier};
use tool_uninstall::{Lookup, Origin, ResolutionError, ResolvedToolVersion, ToolSpecifier, Uninstall};

fn texts(items: &[&str]) -> Vec<String> {
    items.iter().map(|item| item.to_string()).collect()
}

fn entry(backend: &str, version: &str, origin: Origin) -> ResolvedToolVersion {
    ResolvedToolVersion::new(backend.to_string(), version.to_string(), origin)
}

fn known(installed: &[&str], alias: Option<&str>) -> Lookup {
    Lookup::Known { installed: texts(installed), alias: alias.map(|text| text.to_string()) }
}

fn command(tokens: &[&str], all: bool) -> Uninstall {
    Uninstall {
        installed_tool: tokens.iter().map(|token| ToolSpecifier::parse(token)).collect(),
        all,
        dry_run: false,
    }
}

#[test]
fn exact_requirement_yields_the_version_and_what_it_resolves_to() {
    let found = resolve_specifier(
        &ToolSpecifier::parse("node@18.0.0"),
        &known(&["18.0.0", "18.0.1"], Some("18.0.0")),
    );
    assert_eq!(
        found,
        Ok(vec![entry("node", "18.0.0", Origin::Exact), entry("node", "18.0.0", Origin::Alias)])
    );
}

#[test]
fn prefix_requirement_yields_every_version_that_begins_with_it() {
    let found = resolve_specifier(
        &ToolSpecifier::parse("node@18"),
        &known(&["18.0.0", "18.0.1", "20.0.0"], None),
    );
    assert_eq!(
        found,
        Ok(vec![entry("node", "18.0.0", Origin::Prefix), entry("node", "18.0.1", Origin::Prefix)])
    );
}

#[test]
fn alias_is_appended_even_where_nothing_installed_matches() {
    let found = resolve_specifier(
        &ToolSpecifier::parse("node@latest"),
        &known(&["18.0.0", "20.0.0"], Some("22.1.0")),
    );
    assert_eq!(found, Ok(vec![entry("node", "22.1.0", Origin::Alias)]));
}

#[test]
fn alias_is_ignored_without_a_requirement() {
    let found = resolve_specifier(
        &ToolSpecifier::parse("node"),
        &known(&["18.0.0", "20.0.0"], Some("20.0.0")),
    );
    assert_eq!(
        found,
        Ok(vec![entry("node", "18.0.0", Origin::Prefix), entry("node", "20.0.0", Origin::Prefix)])
    );
}

#[test]
fn no_match_is_no_error() {
    let specifier = ToolSpecifier::parse("node@16");
    let found = resolve_specifier(&specifier, &known(&["18.0.0"], None)).unwrap();
    assert_eq!(found, vec![]);
    assert_eq!(
        no_versions_warning(&specifier, &found),
        Some("no versions found for node".to_string())
    );
    let found = resolve_specifier(&specifier, &known(&["16.1.0"], None)).unwrap();
    assert_eq!(no_versions_warning(&specifier, &found), None);
}

#[test]
fn unknown_backend_is_an_error() {
    assert_eq!(
        resolve_specifier(&ToolSpecifier::parse("nodejs@18"), &Lookup::Unknown),
        Err(ResolutionError::UnknownBackend("nodejs".to_string()))
    );
}

#[test]
fn lists_are_flattened_in_their_order() {
    let lists = vec![
        vec![entry("python", "3.12.0", Origin::Exact)],
        vec![],
        vec![entry("node", "20.0.0", Origin::Prefix), entry("node", "18.0.0", Origin::Prefix)],
    ];
    assert_eq!(
        flatten(&lists),
        vec![
            entry("python", "3.12.0", Origin::Exact),
            entry("node", "20.0.0", Origin::Prefix),
            entry("node", "18.0.0", Origin::Prefix),
        ]
    );
    assert_eq!(flatten(&vec![]), vec![]);
}

#[test]
fn requested_versions_follow_the_order_of_the_tools() {
    let found = command(&["python@3", "node@18"], true).get_requested_tool_versions(&vec![
        known(&["3.12.0", "2.7.18"], None),
        known(&["18.0.1", "18.0.0"], Some("18.0.1")),
    ]);
    assert_eq!(
        found,
        Ok(vec![
            entry("python", "3.12.0", Origin::Prefix),
            entry("node", "18.0.1", Origin::Prefix),
            entry("node", "18.0.0", Origin::Prefix),
            entry("node", "18.0.1", Origin::Alias),
        ])
    );
}

#[test]
fn requested_versions_equal_the_flattened_candidates() {
    let tools = command(&["python@3", "node"], true);
    let lookups = vec![known(&["3.12.0"], Some("3.12.0")), known(&["20.0.0", "18.0.0"], None)];
    let lists: Vec<Vec<ResolvedToolVersion>> = tools
        .installed_tool
        .iter()
        .zip(lookups.iter())
        .map(|(specifier, lookup)| resolve_specifier(specifier, lookup).unwrap())
        .collect();
    assert_eq!(tools.get_requested_tool_versions(&lookups), Ok(flatten(&lists)));
}

#[test]
fn first_unknown_backend_is_reported() {
    let found = command(&["node@18", "nodejs", "pyhton"], true).get_requested_tool_versions(&vec![
        known(&["18.0.0"], None),
        Lookup::Unknown,
        Lookup::Unknown,
    ]);
    assert_eq!(found, Err(ResolutionError::UnknownBackend("nodejs".to_string())));
}

#[test]
fn tool_without_a_lookup_counts_as_unknown() {
    let found = command(&["node@18", "python"], true)
        .get_requested_tool_versions(&vec![known(&["18.0.0"], None)]);
    assert_eq!(found, Err(ResolutionError::UnknownBackend("python".to_string())));
}

#[test]
fn no_tools_give_no_candidates() {
    assert_eq!(command(&[], false).get_requested_tool_versions(&vec![]), Ok(vec![]));
}

#[test]
fn declared_versions_become_entries_in_their_order() {
    let listed = vec![
        ("python".to_string(), "3.12.0".to_string()),
        ("node".to_string(), "20.0.0".to_string()),
    ];
    assert_eq!(
        command(&[], true).get_all_tool_versions(&listed),
        vec![entry("python", "3.12.0", Origin::Declared), entry("node", "20.0.0", Origin::Declared)]
    );
}

#[test]
fn declared_versions_are_selected_only_with_all_and_no_tools() {
    assert!(command(&[], true).selects_declared());
    assert!(!command(&[], false).selects_declared());
    assert!(!command(&["node"], true).selects_declared());
    assert!(!command(&["node"], false).selects_declared());
}
