use pubgrub_bridge::dependencies::{get_dependencies, Dependencies, HostClause, HostConstraint, HostDependencies};
use pubgrub_bridge::error::{
    classify_provider_failure, classify_solver_failure, ProviderFailure, PubGrubCallbackError, ResolveError,
    SolverFailure,
};
use pubgrub_bridge::provider::{parse_versions, should_cancel, HostVersions, PyDependencyProvider};
use pubgrub_bridge::range::VersionRange;
use pubgrub_bridge::resolve::parse_root_version;
use pubgrub_bridge::select::choose_among;
use pubgrub_bridge::version::Version;
use std::cell::Cell;

fn v(release: &[u64]) -> Version {
    Version { release: release.to_vec(), pre: None }
}

fn texts(items: &[&str]) -> Vec<String> {
    items.iter().map(|s| s.to_string()).collect()
}

#[derive(Debug, PartialEq)]
struct HostError(u32);

fn versions_of(
    provider: &mut PyDependencyProvider,
    package: u64,
    fetch: &dyn Fn(u64) -> Result<HostVersions, HostError>,
) -> Vec<Version> {
    if provider.needs_versions(package) {
        provider.available_versions(package, fetch(package)).unwrap()
    } else {
        provider.cache.lookup(package).unwrap().clone()
    }
}

#[test]
fn versions_are_asked_once_per_package() {
    let calls = Cell::new(0u32);
    let fetch = |p: u64| -> Result<HostVersions, HostError> {
        calls.set(calls.get() + 1);
        if p == 7 { Ok(HostVersions::Texts(texts(&["1.0", "1.1", "2.0"]))) } else { Ok(HostVersions::Texts(texts(&["0.1"]))) }
    };
    let mut provider = PyDependencyProvider::new();
    assert!(provider.needs_versions(7));
    let first = versions_of(&mut provider, 7, &fetch);
    assert!(!provider.needs_versions(7));
    let second = versions_of(&mut provider, 7, &fetch);
    assert_eq!(calls.get(), 1);
    assert_eq!(first, second);
    assert_eq!(first, vec![v(&[1, 0]), v(&[1, 1]), v(&[2, 0])]);
    versions_of(&mut provider, 8, &fetch);
    versions_of(&mut provider, 8, &fetch);
    versions_of(&mut provider, 7, &fetch);
    assert_eq!(calls.get(), 2);
}

#[test]
fn host_error_in_available_versions_is_kept() {
    let mut provider = PyDependencyProvider::new();
    match provider.available_versions(1, Err(HostError(42))) {
        Err(ProviderFailure::Host(e)) => assert_eq!(e, HostError(42)),
        _ => panic!("expected the host error"),
    }
    assert!(!provider.needs_versions(1));
    assert!(provider.cache.lookup(1).is_none());
}

#[test]
fn malformed_versions_answer_is_invalid_return_type() {
    let mut provider = PyDependencyProvider::new();
    match provider.available_versions::<HostError>(1, Ok(HostVersions::Malformed("17".to_string()))) {
        Err(ProviderFailure::Malformed(PubGrubCallbackError::InvalidReturnType(t))) => assert_eq!(t, "17"),
        _ => panic!("expected InvalidReturnType"),
    }
    match provider.available_versions::<HostError>(2, Ok(HostVersions::Texts(texts(&["1.0", "pear"])))) {
        Err(ProviderFailure::Malformed(PubGrubCallbackError::InvalidReturnType(t))) => assert_eq!(t, "pear"),
        _ => panic!("expected InvalidReturnType"),
    }
    assert!(provider.cache.lookup(2).is_none());
}

#[test]
fn unparsable_version_text_is_invalid_return_type() {
    match parse_versions(&texts(&["1.0", "banana"])) {
        Err(PubGrubCallbackError::InvalidReturnType(t)) => assert_eq!(t, "banana"),
        other => panic!("unexpected {:?}", other),
    }
    assert_eq!(parse_versions(&texts(&["1.0", "2.3.4"])).unwrap(), vec![v(&[1, 0]), v(&[2, 3, 4])]);
}

fn provider_with(lists: &[(u64, &[&str])]) -> PyDependencyProvider {
    let mut provider = PyDependencyProvider::new();
    for (p, vs) in lists {
        provider.available_versions::<HostError>(*p, Ok(HostVersions::Texts(texts(vs)))).unwrap();
    }
    provider
}

#[test]
fn choose_prefers_fewest_matching_versions() {
    let provider = provider_with(&[(1, &["1.0", "1.1", "1.2"]), (2, &["3.0", "3.1", "4.0"])]);
    let ranges = vec![VersionRange::any(), VersionRange::higher_than(&v(&[3, 1]))];
    let (i, version) = provider.choose_package_version(&vec![1, 2], &ranges);
    assert_eq!(i, 1);
    assert_eq!(version, Some(v(&[3, 1])));
}

#[test]
fn choose_breaks_ties_by_order_and_reports_no_version() {
    let provider = provider_with(&[(1, &["1.0"]), (2, &["5.0"])]);
    let ranges = vec![VersionRange::strictly_lower_than(&v(&[0, 1])), VersionRange::strictly_lower_than(&v(&[0, 2]))];
    let (i, version) = provider.choose_package_version(&vec![1, 2], &ranges);
    assert_eq!(i, 0);
    assert_eq!(version, None);
    assert_eq!(provider.choose_package_version(&vec![1, 2], &ranges), (i, version));
}

#[test]
fn choose_among_counts_admitted_versions() {
    let ranges = vec![VersionRange::any(), VersionRange::exact(&v(&[2])), VersionRange::exact(&v(&[3]))];
    let available = vec![vec![v(&[1]), v(&[2])], vec![v(&[1]), v(&[2])], vec![v(&[3]), v(&[4])]];
    assert_eq!(choose_among(&ranges, &available), (1, Some(1)));
}

fn host_clause(op: &str, version: &str) -> HostClause {
    HostClause { operator: op.to_string(), version: version.to_string() }
}

#[test]
fn unknown_dependencies_stay_unknown() {
    let r = get_dependencies::<HostError>(Ok(HostDependencies::Unknown));
    assert!(matches!(r, Ok(Dependencies::Unknown)));
}

#[test]
fn dependencies_of_wrong_shape_are_invalid_return_type() {
    let r = get_dependencies::<HostError>(Ok(HostDependencies::Malformed("42".to_string())));
    match r {
        Err(ProviderFailure::Malformed(PubGrubCallbackError::InvalidReturnType(t))) => assert_eq!(t, "42"),
        _ => panic!("expected InvalidReturnType"),
    }
}

#[test]
fn dependencies_are_translated() {
    let items = vec![
        (1, HostConstraint::Specifiers(vec![host_clause(">=", "1.2"), host_clause("<", "2")])),
        (2, HostConstraint::Reference("https://example.org/pkg.tar.gz".to_string())),
        (3, HostConstraint::Specifiers(vec![])),
    ];
    match get_dependencies::<HostError>(Ok(HostDependencies::Known(items))) {
        Ok(Dependencies::Known(m)) => {
            assert_eq!(m.len(), 3);
            assert!(m[&1].contains(&v(&[1, 5])));
            assert!(!m[&1].contains(&v(&[2, 0])));
            assert!(m[&2].contains(&v(&[99])));
            assert!(m[&3].contains(&v(&[0])));
        },
        _ => panic!("expected known dependencies"),
    }
}

#[test]
fn repeated_dependency_takes_the_last_constraint() {
    let items = vec![
        (1, HostConstraint::Specifiers(vec![host_clause("==", "1")])),
        (1, HostConstraint::Specifiers(vec![host_clause("==", "2")])),
    ];
    match get_dependencies::<HostError>(Ok(HostDependencies::Known(items))) {
        Ok(Dependencies::Known(m)) => {
            assert_eq!(m.len(), 1);
            assert!(m[&1].contains(&v(&[2])));
            assert!(!m[&1].contains(&v(&[1])));
        },
        _ => panic!("expected known dependencies"),
    }
}

#[test]
fn malformed_constraint_is_invalid_return_type() {
    let items = vec![(1, HostConstraint::Malformed("pkg 17".to_string()))];
    match get_dependencies::<HostError>(Ok(HostDependencies::Known(items))) {
        Err(ProviderFailure::Malformed(PubGrubCallbackError::InvalidReturnType(t))) => assert_eq!(t, "pkg 17"),
        _ => panic!("expected InvalidReturnType"),
    }
}

#[test]
fn unknown_operator_in_dependencies_is_unsupported() {
    let items = vec![(1, HostConstraint::Specifiers(vec![host_clause("=>", "1")]))];
    match get_dependencies::<HostError>(Ok(HostDependencies::Known(items))) {
        Err(ProviderFailure::Malformed(PubGrubCallbackError::UnsupportedSpecifier(t))) => assert_eq!(t, "=>"),
        _ => panic!("expected UnsupportedSpecifier"),
    }
}

#[test]
fn host_error_in_dependencies_is_kept() {
    match get_dependencies(Err(HostError(9))) {
        Err(ProviderFailure::Host(e)) => assert_eq!(e, HostError(9)),
        _ => panic!("expected the host error"),
    }
}

#[test]
fn cancellation_is_its_own_failure() {
    assert!(should_cancel::<HostError>(Ok(false)).is_ok());
    assert!(matches!(should_cancel::<HostError>(Ok(true)), Err(ProviderFailure::Cancelled)));
    let r = classify_provider_failure(should_cancel::<HostError>(Ok(true)).unwrap_err());
    assert!(matches!(r, ResolveError::Cancelled));
    assert!(matches!(should_cancel(Err(HostError(3))), Err(ProviderFailure::Host(HostError(3)))));
}

#[test]
fn host_error_is_replayed_unchanged() {
    for f in [
        SolverFailure::RetrievingDependencies(ProviderFailure::Host(HostError(5))),
        SolverFailure::ChoosingPackageVersion(ProviderFailure::Host(HostError(5))),
        SolverFailure::Cancelled(ProviderFailure::Host(HostError(5))),
    ] {
        match classify_solver_failure(f) {
            ResolveError::CallbackFailure(e) => assert_eq!(e, HostError(5)),
            other => panic!("unexpected {:?}", other),
        }
    }
}

#[test]
fn solver_failures_are_classified() {
    let r = classify_solver_failure::<HostError>(SolverFailure::NoSolution("a conflicts with b".to_string()));
    assert!(matches!(r, ResolveError::Unsatisfiable(ref s) if s == "a conflicts with b"));
    let r = classify_solver_failure::<HostError>(SolverFailure::DependencyOnTheEmptySet {
        package: "a".to_string(),
        version: "1.0".to_string(),
        dependent: "b".to_string(),
    });
    assert!(matches!(r, ResolveError::EmptyDependencyRange { ref package, .. } if package == "a"));
    let r = classify_solver_failure::<HostError>(SolverFailure::RetrievingDependencies(ProviderFailure::Malformed(
        PubGrubCallbackError::InvalidReturnType("x".to_string()),
    )));
    assert!(matches!(r, ResolveError::InvalidReturnType(ref s) if s == "x"));
    let r = classify_solver_failure::<HostError>(SolverFailure::Other("boom".to_string()));
    assert!(matches!(r, ResolveError::Other(_)));
}

#[test]
fn root_version_is_parsed() {
    assert_eq!(parse_root_version::<HostError>("1.2.3").unwrap(), v(&[1, 2, 3]));
    match parse_root_version::<HostError>("1..x") {
        Err(ResolveError::InvalidVersion(t)) => assert_eq!(t, "1..x"),
        _ => panic!("expected InvalidVersion"),
    }
}

#[test]
fn unparsable_clause_version_is_invalid_specifier() {
    let items = vec![
        (1, HostConstraint::Specifiers(vec![host_clause(">=", "1.0")])),
        (2, HostConstraint::Specifiers(vec![host_clause("<", "one.two"), host_clause("=>", "1")])),
    ];
    match get_dependencies::<HostError>(Ok(HostDependencies::Known(items))) {
        Err(ProviderFailure::Malformed(PubGrubCallbackError::InvalidSpecifier(t))) => assert_eq!(t, "one.two"),
        _ => panic!("expected InvalidSpecifier"),
    }
}

#[test]
fn first_bad_constraint_decides_the_failure() {
    let items = vec![
        (1, HostConstraint::Specifiers(vec![host_clause("~=", "1")])),
        (2, HostConstraint::Malformed("x".to_string())),
    ];
    match get_dependencies::<HostError>(Ok(HostDependencies::Known(items))) {
        Err(ProviderFailure::Malformed(PubGrubCallbackError::InvalidSpecifier(_))) => {},
        _ => panic!("expected InvalidSpecifier"),
    }
}
