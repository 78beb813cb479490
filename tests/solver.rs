use pubgrub::error::PubGrubError;
use pubgrub::range::Range;
use pubgrub::report::{DefaultStringReporter, Reporter};
use pubgrub::solver::{choose_package_with_fewest_versions, resolve, Dependencies as SolverDependencies, DependencyProvider};
use pubgrub_bridge::dependencies::{get_dependencies, Dependencies, HostClause, HostConstraint, HostDependencies};
use pubgrub_bridge::error::{classify_solver_failure, ProviderFailure, ResolveError, SolverFailure};
use pubgrub_bridge::provider::{should_cancel, HostVersions, PyDependencyProvider};
use pubgrub_bridge::range::VersionRange;
use pubgrub_bridge::version::Version;
use std::borrow::Borrow;
use std::cell::{Cell, RefCell};
use std::collections::HashMap;
use std::error::Error;
use std::fmt;
use std::ops::Bound;

/// A version as the solver sees it: its key, ordered as a tuple.
#[derive(Clone, Debug, PartialEq, Eq, PartialOrd, Ord, Hash)]
struct SolverVersion((Vec<u64>, u64, u64));

impl fmt::Display for SolverVersion {
    fn fmt(&self, f: &mut fmt::Formatter<'_>) -> fmt::Result {
        let (release, phase, number) = &self.0;
        let parts: Vec<String> = release.iter().map(|s| s.to_string()).collect();
        let tag = match phase {
            0 => format!("a{}", number),
            1 => format!("b{}", number),
            2 => format!("rc{}", number),
            _ => String::new(),
        };
        f.write_str(&format!("{}{}", parts.join("."), tag))
    }
}

impl pubgrub::version::Version for SolverVersion {
    fn lowest() -> Self {
        SolverVersion((vec![], 0, 0))
    }
    // The immediate successor in tuple order.
    fn bump(&self) -> Self {
        let (release, phase, number) = &self.0;
        if *number < u64::MAX {
            SolverVersion((release.clone(), *phase, number + 1))
        } else if *phase < u64::MAX {
            SolverVersion((release.clone(), phase + 1, 0))
        } else {
            let mut longer = release.clone();
            longer.push(0);
            SolverVersion((longer, 0, 0))
        }
    }
}

fn successor(v: &(Vec<u64>, u64, u64)) -> SolverVersion {
    pubgrub::version::Version::bump(&SolverVersion(v.clone()))
}

fn to_solver_range(r: &VersionRange) -> Range<SolverVersion> {
    let mut out = Range::none();
    for (lo, hi) in r.as_ranges().iter() {
        let lower = match lo {
            Bound::Unbounded => Range::any(),
            Bound::Included(v) => Range::higher_than(SolverVersion(v.clone())),
            Bound::Excluded(v) => Range::higher_than(successor(v)),
        };
        let upper = match hi {
            Bound::Unbounded => Range::any(),
            Bound::Excluded(v) => Range::strictly_lower_than(SolverVersion(v.clone())),
            Bound::Included(v) => Range::strictly_lower_than(successor(v)),
        };
        out = out.union(&lower.intersection(&upper));
    }
    out
}

#[derive(Debug)]
struct Failure(ProviderFailure<String>);

impl fmt::Display for Failure {
    fn fmt(&self, f: &mut fmt::Formatter<'_>) -> fmt::Result {
        f.write_str(&format!("{:?}", self.0))
    }
}

impl Error for Failure {}

type Clauses = Vec<(&'static str, &'static str)>;

struct TestHost {
    versions: HashMap<u64, Vec<&'static str>>,
    deps: HashMap<(u64, Vec<u64>), Vec<(u64, Clauses)>>,
    failing: Option<u64>,
    cancel: bool,
    version_queries: Cell<u32>,
    bridge: RefCell<PyDependencyProvider>,
}

impl TestHost {
    fn new() -> Self {
        TestHost {
            versions: HashMap::new(),
            deps: HashMap::new(),
            failing: None,
            cancel: false,
            version_queries: Cell::new(0),
            bridge: RefCell::new(PyDependencyProvider::new()),
        }
    }
}

fn boxed(f: ProviderFailure<String>) -> Box<dyn Error> {
    Box::new(Failure(f))
}

impl DependencyProvider<u64, SolverVersion> for TestHost {
    fn choose_package_version<T: Borrow<u64>, U: Borrow<Range<SolverVersion>>>(
        &self,
        potential_packages: impl Iterator<Item = (T, U)>,
    ) -> Result<(T, Option<SolverVersion>), Box<dyn Error>> {
        let potential: Vec<(T, U)> = potential_packages.collect();
        let fetch = |p: u64| -> Result<HostVersions, String> {
            self.version_queries.set(self.version_queries.get() + 1);
            Ok(HostVersions::Texts(self.versions.get(&p).map(|v| v.iter().map(|s| s.to_string()).collect()).unwrap_or_default()))
        };
        let mut bridge = self.bridge.borrow_mut();
        for (p, _) in &potential {
            let p = *p.borrow();
            if bridge.needs_versions(p) {
                bridge.available_versions(p, fetch(p)).map_err(boxed)?;
            }
        }
        let listed = |p: &u64| {
            let vs: Vec<SolverVersion> = bridge.cache.lookup(*p).unwrap().iter().map(|v| SolverVersion(v.key())).collect();
            vs.into_iter()
        };
        Ok(choose_package_with_fewest_versions(listed, potential.into_iter()))
    }

    fn get_dependencies(&self, package: &u64, version: &SolverVersion) -> Result<SolverDependencies<u64, SolverVersion>, Box<dyn Error>> {
        let answer: Result<HostDependencies, String> = if self.failing == Some(*package) {
            Err(format!("host failure for {}", package))
        } else {
            let items = self.deps.get(&(*package, version.0 .0.clone())).cloned().unwrap_or_default();
            Ok(HostDependencies::Known(
                items
                    .into_iter()
                    .map(|(p, clauses)| {
                        let cs = clauses
                            .into_iter()
                            .map(|(op, r)| HostClause { operator: op.to_string(), version: r.to_string() })
                            .collect();
                        (p, HostConstraint::Specifiers(cs))
                    })
                    .collect(),
            ))
        };
        match get_dependencies(answer).map_err(boxed)? {
            Dependencies::Unknown => Ok(SolverDependencies::Unknown),
            Dependencies::Known(m) => {
                let mut out: pubgrub::type_aliases::Map<u64, Range<SolverVersion>> = Default::default();
                for (p, r) in m.iter() {
                    out.insert(*p, to_solver_range(r));
                }
                Ok(SolverDependencies::Known(out))
            },
        }
    }

    fn should_cancel(&self) -> Result<(), Box<dyn Error>> {
        should_cancel::<String>(Ok(self.cancel)).map_err(boxed)
    }
}

fn provider_failure(e: Box<dyn Error>) -> ProviderFailure<String> {
    match e.downcast::<Failure>() {
        Ok(f) => f.0,
        Err(other) => ProviderFailure::Unknown(other.to_string()),
    }
}

fn run(host: &TestHost, root: u64, version: &[u64]) -> Result<Vec<(u64, Vec<u64>)>, ResolveError<String>> {
    match resolve(host, root, SolverVersion(Version { release: version.to_vec(), pre: None }.key())) {
        Ok(solution) => {
            let mut out: Vec<(u64, Vec<u64>)> = solution.into_iter().map(|(p, v)| (p, v.0 .0)).collect();
            out.sort();
            Ok(out)
        },
        Err(e) => {
            let failure = match e {
                PubGrubError::NoSolution(tree) => SolverFailure::NoSolution(DefaultStringReporter::report(&tree)),
                PubGrubError::ErrorRetrievingDependencies { source, .. } => {
                    SolverFailure::RetrievingDependencies(provider_failure(source))
                },
                PubGrubError::DependencyOnTheEmptySet { package, version, dependent } => {
                    SolverFailure::DependencyOnTheEmptySet {
                        package: package.to_string(),
                        version: version.to_string(),
                        dependent: dependent.to_string(),
                    }
                },
                PubGrubError::ErrorChoosingPackageVersion(source) => {
                    SolverFailure::ChoosingPackageVersion(provider_failure(source))
                },
                PubGrubError::ErrorInShouldCancel(source) => SolverFailure::Cancelled(provider_failure(source)),
                other => SolverFailure::Other(other.to_string()),
            };
            Err(classify_solver_failure(failure))
        },
    }
}

#[test]
fn root_without_dependencies_resolves_to_itself() {
    let mut host = TestHost::new();
    host.versions.insert(0, vec!["1.0"]);
    let solution = run(&host, 0, &[1, 0]).unwrap();
    assert_eq!(solution, vec![(0, vec![1])]);
}

#[test]
fn disjoint_requirements_are_unsatisfiable() {
    let mut host = TestHost::new();
    host.versions.insert(0, vec!["1.0"]);
    host.versions.insert(1, vec!["1.0"]);
    host.versions.insert(2, vec!["1.0"]);
    host.versions.insert(3, vec!["1.0", "2.0"]);
    host.deps.insert((0, vec![1]), vec![(1, vec![]), (2, vec![])]);
    host.deps.insert((1, vec![1]), vec![(3, vec![("==", "1.0")])]);
    host.deps.insert((2, vec![1]), vec![(3, vec![("==", "2.0")])]);
    match run(&host, 0, &[1, 0]) {
        Err(ResolveError::Unsatisfiable(report)) => assert!(!report.is_empty()),
        other => panic!("unexpected {:?}", other),
    }
}

#[test]
fn compatible_requirements_resolve() {
    let mut host = TestHost::new();
    host.versions.insert(0, vec!["1.0"]);
    host.versions.insert(1, vec!["1.3", "1.4.2", "1.4.7", "1.5.0"]);
    host.deps.insert((0, vec![1]), vec![(1, vec![("~=", "1.4.2")])]);
    let solution = run(&host, 0, &[1, 0]).unwrap();
    assert_eq!(solution, vec![(0, vec![1]), (1, vec![1, 4, 2])]);
}

#[test]
fn versions_are_fetched_once_per_package_in_a_session() {
    let mut host = TestHost::new();
    host.versions.insert(0, vec!["1.0"]);
    host.versions.insert(1, vec!["1.0", "2.0"]);
    host.versions.insert(2, vec!["1.0"]);
    host.deps.insert((0, vec![1]), vec![(1, vec![(">=", "1.0")]), (2, vec![])]);
    host.deps.insert((2, vec![1]), vec![(1, vec![("<", "2.0")])]);
    let solution = run(&host, 0, &[1, 0]).unwrap();
    assert_eq!(solution, vec![(0, vec![1]), (1, vec![1]), (2, vec![1])]);
    assert!(host.version_queries.get() <= 3);
}

#[test]
fn host_failure_is_replayed_as_the_resolution_failure() {
    let mut host = TestHost::new();
    host.versions.insert(0, vec!["1.0"]);
    host.failing = Some(0);
    match run(&host, 0, &[1, 0]) {
        Err(ResolveError::CallbackFailure(e)) => assert_eq!(e, "host failure for 0"),
        other => panic!("unexpected {:?}", other),
    }
}

#[test]
fn cancelled_session_reports_cancelled() {
    let mut host = TestHost::new();
    host.versions.insert(0, vec!["1.0"]);
    host.cancel = true;
    assert!(matches!(run(&host, 0, &[1, 0]), Err(ResolveError::Cancelled)));
}
