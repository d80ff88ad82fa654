//! Output comparison.

use rustly_judge::checker::{check, float_pairs, FloatReading, FloatValue, Match};
use rustly_judge::error::JudgeError;
use rustly_judge::problem_format::Checker;
use rustly_judge::verdict::Verdict;

fn value(token: &str) -> Option<FloatValue> {
    let value: f64 = token.parse().ok()?;
    Some(FloatValue {
        bits: value.to_bits(),
        shown: value.to_string(),
    })
}

fn reading(want: &str, got: &str, absolute: u64, relative: u64) -> FloatReading {
    let (absolute, relative) = (f64::from_bits(absolute), f64::from_bits(relative));
    let want_value: f64 = want.parse().unwrap_or(0.0);
    let got_value: f64 = got.parse().unwrap_or(0.0);
    let difference = (want_value - got_value).abs();
    let tolerance = absolute.max(relative * want_value.abs());
    FloatReading {
        want: value(want),
        got: value(got),
        exceeds: difference > tolerance,
        difference: format!("{difference:.3e}"),
        tolerance: format!("{tolerance:.3e}"),
    }
}

fn compare(checker: &Checker, expected: &str, actual: &str) -> Result<Match, JudgeError> {
    let readings = match checker {
        Checker::Float { absolute, relative } => float_pairs(expected, actual)
            .iter()
            .map(|(want, got)| reading(want, got, *absolute, *relative))
            .collect(),
        _ => vec![],
    };
    check(checker, expected, actual, &readings)
}

fn float(absolute: f64, relative: f64) -> Checker {
    Checker::Float {
        absolute: absolute.to_bits(),
        relative: relative.to_bits(),
    }
}

fn detail(result: Match) -> String {
    match result {
        Match::Rejected { detail } => detail,
        Match::Accepted => panic!("should not match"),
    }
}

#[test]
fn exact_comparison_is_byte_for_byte() {
    assert!(compare(&Checker::Exact, "3\n", "3\n").unwrap().is_accepted());
    assert!(!compare(&Checker::Exact, "3\n", "3").unwrap().is_accepted());
    assert!(!compare(&Checker::Exact, "3\n", "3 \n").unwrap().is_accepted());
}

#[test]
fn a_missing_trailing_newline_is_not_a_wrong_answer() {
    let checker = Checker::TrimmedLines;
    assert!(compare(&checker, "3\n", "3").unwrap().is_accepted());
    assert!(compare(&checker, "3", "3\n").unwrap().is_accepted());
    assert!(compare(&checker, "3\n", "3\n\n\n").unwrap().is_accepted());
    assert!(compare(&checker, "3\n", "3   \n").unwrap().is_accepted());
}

#[test]
fn trimming_does_not_forgive_a_genuinely_different_answer() {
    let result = compare(&Checker::TrimmedLines, "3\n", "4\n").unwrap();
    assert!(!result.is_accepted());
    match result {
        Match::Rejected { detail } => assert!(detail.contains("line 1"), "{detail}"),
        Match::Accepted => unreachable!(),
    }
}

#[test]
fn trimming_does_not_forgive_leading_whitespace() {
    assert!(!compare(&Checker::TrimmedLines, "3\n", "  3\n")
        .unwrap()
        .is_accepted());
}

#[test]
fn line_count_mismatches_are_explained() {
    let result = compare(&Checker::TrimmedLines, "1\n2\n", "1\n").unwrap();
    match result {
        Match::Rejected { detail } => assert!(detail.contains("2 line(s), got 1"), "{detail}"),
        Match::Accepted => panic!("should not match"),
    }
}

#[test]
fn token_comparison_ignores_layout_but_not_content() {
    let checker = Checker::Tokens;
    assert!(compare(&checker, "1 2 3", "1\n2\n3\n").unwrap().is_accepted());
    assert!(compare(&checker, "1 2 3", "  1   2 3  ")
        .unwrap()
        .is_accepted());
    assert!(!compare(&checker, "1 2 3", "1 2 4").unwrap().is_accepted());
    assert!(!compare(&checker, "1 2 3", "1 2").unwrap().is_accepted());
}

#[test]
fn float_comparison_respects_absolute_tolerance() {
    let checker = float(1e-6, 0.0);
    assert!(compare(&checker, "1.0000000", "1.0000005")
        .unwrap()
        .is_accepted());
    assert!(!compare(&checker, "1.0", "1.001").unwrap().is_accepted());
}

#[test]
fn float_comparison_respects_relative_tolerance_on_large_values() {
    let checker = float(0.0, 1e-9);
    assert!(compare(&checker, "1e12", "1000000000001")
        .unwrap()
        .is_accepted());
    assert!(!compare(&checker, "1e12", "1000010000000")
        .unwrap()
        .is_accepted());
}

#[test]
fn float_comparison_handles_nan_and_infinity_without_panicking() {
    let checker = float(1e-9, 1e-9);
    assert!(compare(&checker, "NaN", "NaN").unwrap().is_accepted());
    assert!(!compare(&checker, "NaN", "1.0").unwrap().is_accepted());
    assert!(compare(&checker, "inf", "inf").unwrap().is_accepted());
    assert!(!compare(&checker, "inf", "-inf").unwrap().is_accepted());
}

#[test]
fn unparseable_program_output_is_the_submitters_problem() {
    let checker = float(1e-9, 0.0);
    let result = compare(&checker, "1.0", "banana").unwrap();
    assert!(
        !result.is_accepted(),
        "a non-numeric answer is a wrong answer"
    );
}

#[test]
fn unparseable_expected_output_is_a_broken_package_not_a_wrong_answer() {
    let checker = float(1e-9, 0.0);
    let error = compare(&checker, "banana", "1.0").unwrap_err();
    assert_eq!(
        error.verdict(),
        Verdict::JudgeError,
        "our broken package must never be reported as the submitter's mistake"
    );
}

#[test]
fn an_unimplemented_custom_checker_refuses_rather_than_accepting_everything() {
    let checker = Checker::Custom {
        module_cid: "b3:abc".into(),
    };
    let error = compare(&checker, "anything", "anything").unwrap_err();
    assert_eq!(error.verdict(), Verdict::JudgeError);
    assert!(error.to_string().contains("PLANNED"));
}

#[test]
fn empty_output_comparisons_behave_sensibly() {
    assert!(compare(&Checker::TrimmedLines, "", "").unwrap().is_accepted());
    assert!(compare(&Checker::TrimmedLines, "", "\n\n")
        .unwrap()
        .is_accepted());
    assert!(!compare(&Checker::TrimmedLines, "1\n", "")
        .unwrap()
        .is_accepted());
    assert!(compare(&Checker::Tokens, "", "   ").unwrap().is_accepted());
}

#[test]
fn rejection_details_are_short_enough_to_show_a_learner() {
    let expected = "x".repeat(100_000);
    let actual = "y".repeat(100_000);
    let Match::Rejected { detail } = compare(&Checker::Exact, &expected, &actual).unwrap() else {
        panic!("should not match");
    };
    assert!(
        detail.len() < 200,
        "detail must summarise, not dump: {} bytes",
        detail.len()
    );
}

#[test]
fn exact_details_count_bytes() {
    assert_eq!(
        detail(compare(&Checker::Exact, "a\u{e9}b", "a\u{e9}c!").unwrap()),
        "first difference at byte 3 (expected 4 bytes, got 5)"
    );
    assert_eq!(
        detail(compare(&Checker::Exact, "abc", "ab").unwrap()),
        "first difference at byte 2 (expected 3 bytes, got 2)"
    );
}

#[test]
fn line_and_token_details_quote_what_differs() {
    assert_eq!(
        detail(compare(&Checker::TrimmedLines, "a\nb\"\n", "a\n\tc\n").unwrap()),
        "line 2: expected \"b\\\"\", got \"\\tc\""
    );
    assert_eq!(
        detail(compare(&Checker::Tokens, "1 2 3", "1 5 3").unwrap()),
        "token 2: expected \"2\", got \"5\""
    );
    assert_eq!(
        detail(compare(&Checker::Tokens, "1 2 3", "1 2").unwrap()),
        "expected 3 token(s), got 2"
    );
}

#[test]
fn carriage_returns_and_unicode_spaces_are_trailing_white_space() {
    assert!(compare(&Checker::TrimmedLines, "a\nb\n", "a\r\nb\u{2003}\r\n")
        .unwrap()
        .is_accepted());
    assert!(compare(&Checker::Tokens, "a b", "a\u{3000}b").unwrap().is_accepted());
}

#[test]
fn float_details_say_what_was_expected() {
    let checker = float(1e-6, 0.0);
    assert_eq!(
        detail(compare(&checker, "1.0 2.0", "1.0 2.5").unwrap()),
        "value 2: expected 2, got 2.5 (difference 5.000e-1 exceeds tolerance 1.000e-6)"
    );
    assert_eq!(
        detail(compare(&checker, "1 2", "1").unwrap()),
        "expected 2 value(s), got 1"
    );
    assert_eq!(
        detail(compare(&checker, "NaN", "1").unwrap()),
        "value 1: expected NaN, got 1"
    );
    assert_eq!(
        detail(compare(&checker, "inf", "-inf").unwrap()),
        "value 1: expected inf, got -inf"
    );
    assert_eq!(
        detail(compare(&checker, "1", "x\"y").unwrap()),
        "value 1: \"x\\\"y\" is not a number"
    );
    assert_eq!(
        compare(&checker, "one", "1").unwrap_err().to_string(),
        "checker failed: expected output token \"one\" is not a number"
    );
}

#[test]
fn a_stricter_comparison_never_accepts_more() {
    let texts = ["", "a", "a\n", "a \n", " a", "a b", "a\nb", "a\n\n", "b"];
    for expected in texts {
        for actual in texts {
            let accepted = |checker: Checker| compare(&checker, expected, actual).unwrap().is_accepted();
            if accepted(Checker::Exact) {
                assert!(accepted(Checker::TrimmedLines));
            }
            if accepted(Checker::TrimmedLines) {
                assert!(accepted(Checker::Tokens));
            }
        }
    }
}

#[test]
fn numbers_are_accepted_only_where_every_pair_agrees() {
    let checker = float(0.5, 0.0);
    for (expected, actual, accepted) in [
        ("1 2 3", "1.25 2 2.75", true),
        ("1 2 3", "1.25 2 3.75", false),
        ("1 2 3", "1.75 2 3", false),
        ("1 2", "1 2 3", false),
        ("", " \n", true),
        ("nan inf", "NaN inf", true),
        ("nan inf", "NaN 1e308", false),
        ("1", "one", false),
    ] {
        let result = compare(&checker, expected, actual).unwrap();
        assert_eq!(result.is_accepted(), accepted, "{expected:?} {actual:?}");
    }
}

#[test]
fn a_broken_expected_value_comes_before_everything_the_program_did() {
    let checker = float(1e-9, 0.0);
    for (expected, actual) in [
        ("banana", "1.0 2.0"),
        ("1.0 banana", "2.0 1.0"),
        ("1.0 banana", "x y"),
        ("banana", ""),
    ] {
        let error = compare(&checker, expected, actual).unwrap_err();
        assert_eq!(
            error,
            JudgeError::CheckerFailure(
                "expected output token \"banana\" is not a number".into()
            )
        );
    }
}

#[test]
fn a_match_can_be_kept() {
    let rejected = Match::Rejected {
        detail: "line 1".into(),
    };
    assert_eq!(rejected.clone(), rejected);
    assert_eq!(Match::Accepted.clone(), Match::Accepted);
}
