//! The Trial package format.

use rustly_judge::limits::Limits;
use rustly_judge::problem_format::{
    Checker, Environment, Group, Mode, Scoring, TestCase, TrialPackage, Visibility, FORMAT_VERSION,
};
use rustly_judge::verdict::Verdict;

fn test_case(id: &str, visibility: Visibility) -> TestCase {
    TestCase {
        id: id.into(),
        visibility,
        stdin: "1 2\n".into(),
        expected_stdout: "3\n".into(),
        args: vec![],
        group: None,
        limits: None,
    }
}

fn package() -> TrialPackage {
    TrialPackage {
        format_version: FORMAT_VERSION,
        slug: "ownership-move-or-borrow".into(),
        version: 1,
        mode: Mode::Batch,
        environment: Environment::default(),
        limits: Limits::default(),
        checker: Checker::TrimmedLines,
        scoring: Scoring::AllOrNothing,
        fail_fast: true,
        groups: vec![],
        tests: vec![
            test_case("public-1", Visibility::Public),
            test_case("hidden-1", Visibility::Hidden),
        ],
    }
}

fn group(name: &str, points: u32) -> Group {
    Group {
        name: name.into(),
        points,
        fail_fast: true,
    }
}

#[test]
fn a_well_formed_package_validates() {
    assert!(package().validate().is_ok());
}

#[test]
fn public_only_deletes_hidden_tests_rather_than_flagging_them() {
    let public = package().public_only();
    assert!(!public.has_hidden_tests());
    assert_eq!(public.tests.len(), 1);

    // What a volunteer worker would receive must contain no trace of the hidden
    // case.
    let shown = format!("{public:?}");
    assert!(!shown.contains("hidden-1"), "hidden test id leaked: {shown}");
    assert!(!shown.contains("Hidden"), "hidden marker leaked: {shown}");
}

#[test]
fn a_malformed_package_is_a_judge_error_never_a_compile_error() {
    let mut p = package();
    p.tests.clear();
    let error = p.validate().unwrap_err();
    assert_eq!(error.verdict(), Verdict::JudgeError);
}

#[test]
fn rejects_an_unsupported_format_version() {
    let mut p = package();
    p.format_version = 99;
    assert!(p.validate().is_err());
}

#[test]
fn rejects_duplicate_test_ids() {
    let mut p = package();
    p.tests.push(test_case("public-1", Visibility::Public));
    assert!(p
        .validate()
        .unwrap_err()
        .to_string()
        .contains("duplicate test id"));
}

#[test]
fn rejects_a_test_referencing_an_unknown_group() {
    let mut p = package();
    p.tests[0].group = Some("nope".into());
    assert!(p
        .validate()
        .unwrap_err()
        .to_string()
        .contains("unknown group"));
}

#[test]
fn rejects_duplicate_group_names() {
    let mut p = package();
    p.groups = vec![group("g", 1), group("g", 2)];
    assert!(p.validate().is_err());
}

#[test]
fn rejects_a_package_with_no_public_test() {
    let mut p = package();
    p.tests.retain(|t| t.visibility == Visibility::Hidden);
    assert!(p
        .validate()
        .unwrap_err()
        .to_string()
        .contains("at least one public test"));
}

#[test]
fn rejects_limits_that_disable_a_bound() {
    let mut p = package();
    p.limits.fuel = 0;
    assert!(p.validate().is_err());

    let mut p = package();
    p.tests[0].limits = Some(Limits {
        memory_bytes: 0,
        ..Limits::default()
    });
    assert!(p.validate().unwrap_err().to_string().contains("public-1"));
}

#[test]
fn rejects_nonsensical_float_tolerances() {
    for checker in [
        Checker::Float {
            absolute: f64::NAN.to_bits(),
            relative: 0.0_f64.to_bits(),
        },
        Checker::Float {
            absolute: (-1.0_f64).to_bits(),
            relative: 0.0_f64.to_bits(),
        },
        Checker::Float {
            absolute: 0.0_f64.to_bits(),
            relative: f64::INFINITY.to_bits(),
        },
    ] {
        let mut p = package();
        p.checker = checker;
        assert!(p.validate().is_err());
    }
}

#[test]
fn accepts_sensible_float_tolerances() {
    for tolerance in [0.0_f64, -0.0, 1e-9, f64::MIN_POSITIVE, f64::MAX, 5e-324] {
        let mut p = package();
        p.checker = Checker::Float {
            absolute: tolerance.to_bits(),
            relative: tolerance.to_bits(),
        };
        assert!(p.validate().is_ok(), "{tolerance}");
    }
    for tolerance in [-5e-324_f64, f64::NEG_INFINITY, -f64::NAN, f64::MIN] {
        let mut p = package();
        p.checker = Checker::Float {
            absolute: 0.0_f64.to_bits(),
            relative: tolerance.to_bits(),
        };
        assert!(p.validate().is_err(), "{tolerance}");
    }
}

#[test]
fn group_scoring_requires_groups() {
    let mut p = package();
    p.scoring = Scoring::GroupPoints;
    assert!(p.validate().is_err());
    p.groups = vec![group("g", 10)];
    p.tests[0].group = Some("g".into());
    assert!(p.validate().is_ok());
}

#[test]
fn per_test_limits_override_package_limits() {
    let mut p = package();
    let tight = Limits {
        wall_ms: 50,
        ..Limits::default()
    };
    p.tests[0].limits = Some(tight);
    assert_eq!(p.limits_for(&p.tests[0]).wall_ms, 50);
    assert_eq!(p.limits_for(&p.tests[1]), Limits::default());
}

#[test]
fn public_tests_run_before_hidden_ones() {
    let ordered = package();
    let ids: Vec<&str> = ordered
        .ordered_tests()
        .iter()
        .map(|t| t.id.as_str())
        .collect();
    assert_eq!(ids, ["public-1", "hidden-1"]);
}

#[test]
fn the_default_checker_forgives_trailing_whitespace() {
    assert_eq!(Checker::default(), Checker::TrimmedLines);
}

#[test]
fn every_complaint_is_spelled_out() {
    let cases: [(fn(&mut TrialPackage), &str); 12] = [
        (
            |p| p.format_version = 99,
            "format_version 99 is not supported (expected 1)",
        ),
        (|p| p.slug = String::new(), "slug must not be empty"),
        (|p| p.version = 0, "version must be at least 1"),
        (
            |p| p.tests.clear(),
            "a package must contain at least one test",
        ),
        (
            |p| p.limits.wall_ms = 0,
            "package limits: wall_ms must be greater than zero",
        ),
        (
            |p| p.groups = vec![group("g", 1), group("h", 1), group("g", 2)],
            "group names must be unique",
        ),
        (
            |p| p.tests[1].id = String::new(),
            "every test needs a non-empty id",
        ),
        (
            |p| p.tests[1].id = "public-1".into(),
            "duplicate test id `public-1`",
        ),
        (
            |p| {
                p.tests[1].limits = Some(Limits {
                    fuel: 0,
                    ..Limits::default()
                })
            },
            "limits for test `hidden-1`: fuel must be greater than zero",
        ),
        (
            |p| p.tests[1].group = Some("nope".into()),
            "test `hidden-1` references unknown group `nope`",
        ),
        (
            |p| p.scoring = Scoring::GroupPoints,
            "group_points scoring requires at least one group",
        ),
        (
            |p| p.tests[0].visibility = Visibility::Hidden,
            "a package must expose at least one public test",
        ),
    ];
    for (spoil, complaint) in cases {
        let mut p = package();
        spoil(&mut p);
        assert_eq!(
            p.validate().unwrap_err().to_string(),
            format!("malformed problem package: {complaint}")
        );
    }
}

#[test]
fn cases_run_in_order_of_visibility_and_then_id() {
    let mut p = package();
    p.tests = vec![
        test_case("b", Visibility::Hidden),
        test_case("z", Visibility::Public),
        test_case("a", Visibility::Hidden),
        test_case("10", Visibility::Public),
        test_case("9", Visibility::Public),
    ];
    let ids: Vec<&str> = p.ordered_tests().iter().map(|t| t.id.as_str()).collect();
    assert_eq!(ids, ["10", "9", "z", "a", "b"]);
}

#[test]
fn cases_that_tie_keep_their_order() {
    let mut p = package();
    p.tests = vec![
        test_case("same", Visibility::Public),
        test_case("same", Visibility::Public),
    ];
    p.tests[0].stdin = "first".into();
    p.tests[1].stdin = "second".into();
    let inputs: Vec<&str> = p.ordered_tests().iter().map(|t| t.stdin.as_str()).collect();
    assert_eq!(inputs, ["first", "second"]);
}

#[test]
fn a_public_package_is_well_formed_and_stays_the_same() {
    let public = package().public_only();
    assert!(public.validate().is_ok());
    assert_eq!(public.public_only(), public);
    assert_eq!(package().clone(), package());
}

#[test]
fn checkers_are_equal_where_their_tolerances_are_equal_as_numbers() {
    let float = |absolute: f64, relative: f64| Checker::Float {
        absolute: absolute.to_bits(),
        relative: relative.to_bits(),
    };
    assert_eq!(float(0.5, 1e-9), float(0.5, 1e-9));
    assert_eq!(float(0.0, -0.0), float(-0.0, 0.0));
    assert_ne!(float(0.5, 1e-9), float(0.25, 1e-9));
    assert_ne!(float(0.5, 1e-9), float(0.5, -1e-9));
    assert_ne!(float(f64::NAN, 0.0), float(f64::NAN, 0.0));
    assert_eq!(float(f64::INFINITY, 0.0), float(f64::INFINITY, 0.0));
    assert_ne!(float(f64::INFINITY, 0.0), float(f64::NEG_INFINITY, 0.0));

    let custom = |module_cid: &str| Checker::Custom {
        module_cid: module_cid.into(),
    };
    assert_eq!(custom("b3:a"), custom("b3:a"));
    assert_ne!(custom("b3:a"), custom("b3:b"));
    for (i, a) in [Checker::Exact, Checker::TrimmedLines, Checker::Tokens, custom("")]
        .iter()
        .enumerate()
    {
        for (j, b) in [Checker::Exact, Checker::TrimmedLines, Checker::Tokens, custom("")]
            .iter()
            .enumerate()
        {
            assert_eq!(a == b, i == j);
        }
        assert_eq!(&a.clone(), a);
    }
}
