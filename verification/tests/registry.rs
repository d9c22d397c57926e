use gtest_interop::adapter::{dispatch, run, BodyReport, Completion, ExecutionContext, Outcome};
use gtest_interop::bridge::{hand_over, registration, Disposition, HostRegistration};
use gtest_interop::descriptor::TestDescriptor;
use gtest_interop::registry::Registry;

type Body = fn(ExecutionContext) -> BodyReport;

fn plain(context: ExecutionContext) -> BodyReport {
    BodyReport { completion: Completion::Returned, context }
}

fn declared_ok(context: ExecutionContext) -> BodyReport {
    BodyReport { completion: Completion::ReturnedOk, context }
}

fn declared_err(context: ExecutionContext) -> BodyReport {
    BodyReport { completion: Completion::ReturnedErr("uhoh".to_string()), context }
}

fn chain(names: &[&str]) -> Vec<String> {
    let mut out = Vec::new();
    for n in names {
        out.push(n.to_string());
    }
    out
}

fn declare(suite: &str, test: &str, scopes: &[&str], line: u32, body: Body) -> TestDescriptor<Body> {
    TestDescriptor::declare(suite, test, &chain(scopes), "unittest.rs", line, body)
}

fn declared_tests() -> Registry<Body> {
    let mut registry: Registry<Body> = Registry::new();
    registry.register(declare("Test", "InTopModule", &[], 3, plain));
    registry.register(declare("Test", "InChildModule", &["module1"], 11, plain));
    registry.register(declare("Test", "InGrandChildModule", &["module1", "module2"], 19, plain));
    registry.register(declare("Test", "InFunctionBody", &["bar"], 27, plain));
    registry.register(declare("Test", "InFunctionBodyInChildModule", &["module3", "bar"], 38, plain));
    registry.register(declare("ExactSuite", "ExactTest", &[], 45, plain));
    registry.register(declare("Test", "WithResultType", &[], 48, declared_ok));
    registry.register(declare("Test", "WithBoxResultType", &[], 54, declared_ok));
    registry.register(declare("Test", "DISABLED_WithError", &[], 61, declared_err));
    registry
}

#[test]
fn new_registry_is_empty_and_open() {
    let registry: Registry<Body> = Registry::new();
    assert_eq!(registry.len(), 0);
    assert!(!registry.is_frozen());
    assert!(registry.enumerate().is_empty());
    assert!(registry.get(0).is_none());
}

#[test]
fn descriptor_holds_what_was_declared() {
    let d = declare("Test", "InGrandChildModule", &["module1", "module2"], 19, plain);
    assert_eq!(d.suite_name(), "Test");
    assert_eq!(d.test_name(), "InGrandChildModule");
    assert_eq!(d.qualified_path(), &vec!["module1".to_string(), "module2".to_string()]);
    assert_eq!(d.file(), "unittest.rs");
    assert_eq!(d.line(), 19);
    assert!(!d.is_disabled());
    assert_eq!(d.disambiguator().scopes, vec!["module1".to_string(), "module2".to_string()]);
    assert_eq!(d.disambiguator().file, "unittest.rs");
    assert_eq!(d.disambiguator().line, 19);
    let body = d.body();
    assert_eq!(body(ExecutionContext::new()).completion, Completion::Returned);
}

#[test]
fn disabled_descriptor_keeps_its_prefix() {
    let d = declare("Test", "DISABLED_WithError", &[], 61, declared_err);
    assert_eq!(d.test_name(), "DISABLED_WithError");
    assert_eq!(d.suite_name(), "Test");
    assert!(d.is_disabled());
}

#[test]
fn register_appends_in_order() {
    let registry = declared_tests();
    assert_eq!(registry.len(), 9);
    let names: Vec<&str> = registry.enumerate().iter().map(|d| d.test_name()).collect();
    assert_eq!(
        names,
        vec![
            "InTopModule",
            "InChildModule",
            "InGrandChildModule",
            "InFunctionBody",
            "InFunctionBodyInChildModule",
            "ExactTest",
            "WithResultType",
            "WithBoxResultType",
            "DISABLED_WithError",
        ]
    );
    assert_eq!(registry.get(5).map(|d| d.suite_name()), Some("ExactSuite"));
    assert_eq!(registry.get(8).map(|d| d.line()), Some(61));
    assert!(registry.get(9).is_none());
}

#[test]
fn every_declared_test_runs_to_its_outcome() {
    let registry = declared_tests();
    let outcomes: Vec<Option<Outcome>> = registry.enumerate().iter().map(|d| dispatch(d)).collect();
    let mut expected: Vec<Option<Outcome>> = Vec::new();
    for _ in 0..8 {
        expected.push(Some(Outcome::Passed));
    }
    expected.push(None);
    assert_eq!(outcomes, expected);
}

#[test]
fn identical_pairs_are_never_merged() {
    let mut registry: Registry<Body> = Registry::new();
    for n in 0..25u32 {
        registry.register(declare("Test", "X", &["m"], n, plain));
        assert_eq!(registry.len(), (n + 1) as usize);
    }
    for (i, d) in registry.enumerate().iter().enumerate() {
        assert_eq!(d.test_name(), "X");
        assert_eq!(d.line(), i as u32);
    }
}

#[test]
fn three_identical_pairs_make_three_entries() {
    let mut registry: Registry<Body> = Registry::new();
    registry.register(declare("Test", "X", &[], 3, plain));
    registry.register(declare("Test", "X", &["m1"], 9, declared_ok));
    registry.register(declare("Test", "X", &["m1", "m2"], 15, declared_err));
    assert_eq!(registry.len(), 3);
    let plan = hand_over(&mut registry);
    assert_eq!(plan.len(), 3);
    let entries = registry.enumerate();
    assert_eq!(entries.len(), 3);
    for d in entries.iter() {
        assert_eq!(d.suite_name(), "Test");
        assert_eq!(d.test_name(), "X");
    }
    assert_eq!(entries[0].qualified_path(), &Vec::<String>::new());
    assert_eq!(entries[1].qualified_path(), &vec!["m1".to_string()]);
    assert_eq!(entries[2].qualified_path(), &vec!["m1".to_string(), "m2".to_string()]);
    for i in 0..3 {
        for j in 0..3 {
            assert_eq!(entries[i].disambiguator().same_as(entries[j].disambiguator()), i == j);
        }
    }
    let outcomes: Vec<Outcome> = entries.iter().map(|d| run(d)).collect();
    assert_eq!(
        outcomes,
        vec![
            Outcome::Passed,
            Outcome::Passed,
            Outcome::Failed("Test returned error: uhoh".to_string()),
        ]
    );
}

#[test]
fn freeze_twice_is_freeze_once() {
    let mut registry = declared_tests();
    registry.freeze();
    assert!(registry.is_frozen());
    let first: Vec<(String, u32)> =
        registry.enumerate().iter().map(|d| (d.test_name().to_string(), d.line())).collect();
    registry.freeze();
    assert!(registry.is_frozen());
    assert_eq!(registry.len(), 9);
    let second: Vec<(String, u32)> =
        registry.enumerate().iter().map(|d| (d.test_name().to_string(), d.line())).collect();
    assert_eq!(first, second);
}

#[test]
fn freeze_keeps_the_entries() {
    let mut registry = declared_tests();
    let before: Vec<u32> = registry.enumerate().iter().map(|d| d.line()).collect();
    registry.freeze();
    let after: Vec<u32> = registry.enumerate().iter().map(|d| d.line()).collect();
    let again: Vec<u32> = registry.enumerate().iter().map(|d| d.line()).collect();
    assert_eq!(before, after);
    assert_eq!(after, again);
}

#[test]
fn freeze_of_an_empty_registry() {
    let mut registry: Registry<Body> = Registry::new();
    registry.freeze();
    assert!(registry.is_frozen());
    assert_eq!(registry.len(), 0);
    assert!(hand_over(&mut registry).is_empty());
}

#[test]
fn hand_over_freezes_and_lists_every_test() {
    let mut registry = declared_tests();
    let plan = hand_over(&mut registry);
    assert!(registry.is_frozen());
    assert_eq!(registry.len(), 9);
    assert_eq!(plan.len(), 9);
    for (i, r) in plan.iter().enumerate() {
        assert_eq!(r.index, i);
        assert_eq!(r.suite_name, registry.enumerate()[i].suite_name());
        assert_eq!(r.test_name, registry.enumerate()[i].test_name());
        if i == 8 {
            assert_eq!(r.disposition, Disposition::Skip);
        } else {
            assert_eq!(r.disposition, Disposition::Execute);
        }
    }
    assert_eq!(
        plan[8],
        HostRegistration {
            suite_name: "Test".to_string(),
            test_name: "DISABLED_WithError".to_string(),
            index: 8,
            disposition: Disposition::Skip,
        }
    );
    assert_eq!(
        plan[2],
        HostRegistration {
            suite_name: "Test".to_string(),
            test_name: "InGrandChildModule".to_string(),
            index: 2,
            disposition: Disposition::Execute,
        }
    );
}

#[test]
fn hand_over_twice_gives_the_same_plan() {
    let mut registry = declared_tests();
    let first = hand_over(&mut registry);
    let second = hand_over(&mut registry);
    assert_eq!(first, second);
}

#[test]
fn registration_of_one_descriptor() {
    let enabled = declare("ExactSuite", "ExactTest", &["deep", "deeper"], 45, plain);
    assert_eq!(
        registration(&enabled, 7),
        HostRegistration {
            suite_name: "ExactSuite".to_string(),
            test_name: "ExactTest".to_string(),
            index: 7,
            disposition: Disposition::Execute,
        }
    );
    let disabled = declare("ExactSuite", "DISABLED_ExactTest", &[], 46, plain);
    assert_eq!(
        registration(&disabled, 0),
        HostRegistration {
            suite_name: "ExactSuite".to_string(),
            test_name: "DISABLED_ExactTest".to_string(),
            index: 0,
            disposition: Disposition::Skip,
        }
    );
}
