//! Output comparison.
//!
//! A checker answers one question: does this output match? It never decides a
//! verdict on its own, and it never guesses. A checker that cannot run - a
//! custom checker module that is not implemented, an unparseable float - returns
//! a **judge** error rather than quietly failing the submission.
//!
//! # Why `TrimmedLines` is the default
//!
//! A missing trailing newline is not a wrong answer. Teaching a beginner that it
//! is teaches them nothing about Rust and a great deal about our tooling. Exact
//! byte comparison remains available for problems where whitespace is the point.
//!
//! # Numbers
//!
//! The arithmetic of doubles stays outside this crate. A caller reads each pair
//! of values ([`float_pairs`] lists them) into a [`FloatReading`], and the rules
//! about what those readings mean are here.

use vstd::prelude::*;

use crate::error::{judged, JudgeError, JudgeErrorView};
use crate::problem_format::{bits_finite, Checker, CheckerView};
use crate::text::{
    copy_text, debug_of, debug_text, dec, joined, normalised_lines, push_decimal, same_text, split_lines, split_words,
    texts, words,
};

verus! {

/// The result of comparing one output.
#[derive(Debug, PartialEq, Eq)]
pub enum Match {
    /// The output matched.
    Accepted,
    /// The output did not match.
    Rejected {
        /// Short, submitter-safe explanation of the first difference.
        detail: String,
    },
}

/// What a [`Match`] says.
#[verifier::ext_equal]
pub enum MatchView {
    Accepted,
    Rejected { detail: Seq<char> },
}

impl View for Match {
    type V = MatchView;

    open spec fn view(&self) -> MatchView {
        match *self {
            Match::Accepted => MatchView::Accepted,
            Match::Rejected { detail } => MatchView::Rejected { detail: detail@ },
        }
    }
}

impl Clone for Match {
    fn clone(&self) -> (copy: Match)
        ensures
            copy@ == self@,
    {
        match self {
            Match::Accepted => Match::Accepted,
            Match::Rejected { detail } => Match::Rejected { detail: copy_text(detail.as_str()) },
        }
    }
}

impl Match {
    /// Whether this is a match.
    pub fn is_accepted(&self) -> (yes: bool)
        ensures
            yes == (self@ is Accepted),
    {
        match self {
            Match::Accepted => true,
            Match::Rejected { .. } => false,
        }
    }
}

/// One token read as a double.
#[derive(Debug, PartialEq, Eq)]
pub struct FloatValue {
    /// The bits of the IEEE 754 double.
    pub bits: u64,
    /// The value as it is shown to a user.
    pub shown: String,
}

/// What reading one expected and one actual token as doubles gave.
#[derive(Debug, PartialEq, Eq)]
pub struct FloatReading {
    /// The expected token, if it is a number.
    pub want: Option<FloatValue>,
    /// The actual token, if it is a number.
    pub got: Option<FloatValue>,
    /// Whether the two, both finite, are further apart than the tolerance.
    pub exceeds: bool,
    /// Their distance, as it is shown to a user.
    pub difference: String,
    /// The tolerance, as it is shown to a user.
    pub tolerance: String,
}

/// What a [`FloatValue`] says.
#[verifier::ext_equal]
pub struct FloatValueView {
    pub bits: u64,
    pub shown: Seq<char>,
}

/// What a [`FloatReading`] says.
#[verifier::ext_equal]
pub struct FloatReadingView {
    pub want: Option<FloatValueView>,
    pub got: Option<FloatValueView>,
    pub exceeds: bool,
    pub difference: Seq<char>,
    pub tolerance: Seq<char>,
}

impl View for FloatValue {
    type V = FloatValueView;

    open spec fn view(&self) -> FloatValueView {
        FloatValueView { bits: self.bits, shown: self.shown@ }
    }
}

pub open spec fn value_option(value: Option<FloatValue>) -> Option<FloatValueView> {
    match value {
        Some(v) => Some(v@),
        None => None,
    }
}

impl View for FloatReading {
    type V = FloatReadingView;

    open spec fn view(&self) -> FloatReadingView {
        FloatReadingView {
            want: value_option(self.want),
            got: value_option(self.got),
            exceeds: self.exceeds,
            difference: self.difference@,
            tolerance: self.tolerance@,
        }
    }
}

/// What the readings of a list say.
pub open spec fn reading_views(readings: Seq<FloatReading>) -> Seq<FloatReadingView> {
    Seq::new(readings.len(), |i: int| readings[i]@)
}

// ---------------------------------------------------------------------------
// What each comparison says
// ---------------------------------------------------------------------------

/// How many leading bytes two byte strings share.
pub open spec fn shared_bytes(a: Seq<u8>, b: Seq<u8>) -> nat
    decreases a.len(),
{
    if a.len() == 0 || b.len() == 0 || a[0] != b[0] {
        0
    } else {
        1 + shared_bytes(a.drop_first(), b.drop_first())
    }
}

/// Where two texts differ first, without either of them.
pub open spec fn difference_detail(expected: Seq<u8>, actual: Seq<u8>) -> Seq<char> {
    "first difference at byte "@ + dec(shared_bytes(expected, actual)) + " (expected "@ + dec(
        expected.len(),
    ) + " bytes, got "@ + dec(actual.len()) + ")"@
}

/// How many leading entries two lists share.
pub open spec fn shared_entries(a: Seq<Seq<char>>, b: Seq<Seq<char>>) -> nat
    decreases a.len(),
{
    if a.len() == 0 || b.len() == 0 || a[0] != b[0] {
        0
    } else {
        1 + shared_entries(a.drop_first(), b.drop_first())
    }
}

/// The result of comparing two lists of entries called `unit`.
pub open spec fn list_match(unit: Seq<char>, want: Seq<Seq<char>>, got: Seq<Seq<char>>) -> MatchView {
    let shared = shared_entries(want, got);
    if want == got {
        MatchView::Accepted
    } else if shared < want.len() && shared < got.len() {
        MatchView::Rejected {
            detail: unit + " "@ + dec(shared + 1) + ": expected "@ + debug_text(want[shared as int])
                + ", got "@ + debug_text(got[shared as int]),
        }
    } else {
        MatchView::Rejected {
            detail: "expected "@ + dec(want.len()) + " "@ + unit + "(s), got "@ + dec(got.len()),
        }
    }
}

/// Whether the bits of a double are those of a NaN.
pub open spec fn bits_nan(bits: u64) -> bool {
    !bits_finite(bits) && bits % 0x10_0000_0000_0000 != 0
}

/// Whether the bits of a double are those of an infinity.
pub open spec fn bits_infinite(bits: u64) -> bool {
    !bits_finite(bits) && bits % 0x10_0000_0000_0000 == 0
}

/// What is said of a pair of numbers that do not match, if they do not. A NaN
/// matches only a NaN, an infinity only the same infinity.
pub open spec fn value_fault(
    number: nat,
    want: FloatValueView,
    got: FloatValueView,
    reading: FloatReadingView,
) -> Option<Seq<char>> {
    let plain = "value "@ + dec(number) + ": expected "@ + want.shown + ", got "@ + got.shown;
    if bits_nan(want.bits) || bits_nan(got.bits) {
        if bits_nan(want.bits) && bits_nan(got.bits) {
            None
        } else {
            Some(plain)
        }
    } else if bits_infinite(want.bits) || bits_infinite(got.bits) {
        if want.bits == got.bits {
            None
        } else {
            Some(plain)
        }
    } else if reading.exceeds {
        Some(
            plain + " (difference "@ + reading.difference + " exceeds tolerance "@
                + reading.tolerance + ")"@,
        )
    } else {
        None
    }
}

/// The first of the expected tokens from the `i`-th on that is not a number.
pub open spec fn broken_token(
    want: Seq<Seq<char>>,
    readings: Seq<FloatReadingView>,
    i: int,
) -> Option<Seq<char>>
    decreases want.len() - i,
{
    if i >= want.len() {
        None
    } else if readings[i].want is None {
        Some(want[i])
    } else {
        broken_token(want, readings, i + 1)
    }
}

/// The result of comparing the values from the `i`-th on, where every expected
/// one is a number.
pub open spec fn values_match(
    want: Seq<Seq<char>>,
    got: Seq<Seq<char>>,
    readings: Seq<FloatReadingView>,
    i: int,
) -> MatchView
    decreases want.len() - i,
{
    if i >= want.len() {
        MatchView::Accepted
    } else if readings[i].got is None {
        MatchView::Rejected {
            detail: "value "@ + dec((i + 1) as nat) + ": "@ + debug_text(got[i])
                + " is not a number"@,
        }
    } else {
        match value_fault((i + 1) as nat, readings[i].want->0, readings[i].got->0, readings[i]) {
            Some(detail) => MatchView::Rejected { detail },
            None => values_match(want, got, readings, i + 1),
        }
    }
}

/// The result of comparing two texts value by value. An expected output that is
/// not made of numbers is a broken package, whatever the program printed.
pub open spec fn floats_match(
    expected: Seq<char>,
    actual: Seq<char>,
    readings: Seq<FloatReadingView>,
) -> Result<MatchView, JudgeErrorView> {
    let want = words(expected);
    let got = words(actual);
    match broken_token(want, readings, 0) {
        Some(token) => Err(
            JudgeErrorView::CheckerFailure(
                "expected output token "@ + debug_text(token) + " is not a number"@,
            ),
        ),
        None => Ok(
            if want.len() != got.len() {
                MatchView::Rejected {
                    detail: "expected "@ + dec(want.len()) + " value(s), got "@ + dec(got.len()),
                }
            } else {
                values_match(want, got, readings, 0)
            },
        ),
    }
}

/// The result of a comparison.
pub open spec fn check_result(
    checker: CheckerView,
    expected: Seq<char>,
    actual: Seq<char>,
    readings: Seq<FloatReadingView>,
) -> Result<MatchView, JudgeErrorView> {
    match checker {
        CheckerView::Exact => Ok(
            if expected == actual {
                MatchView::Accepted
            } else {
                MatchView::Rejected {
                    detail: difference_detail(
                        vstd::utf8::encode_utf8(expected),
                        vstd::utf8::encode_utf8(actual),
                    ),
                }
            },
        ),
        CheckerView::TrimmedLines => Ok(
            list_match("line"@, normalised_lines(expected), normalised_lines(actual)),
        ),
        CheckerView::Tokens => Ok(list_match("token"@, words(expected), words(actual))),
        CheckerView::Float { .. } => floats_match(expected, actual, readings),
        CheckerView::Custom { module_cid } => Err(
            JudgeErrorView::CheckerFailure(
                "custom checkers are PLANNED and not implemented; refusing to judge against "@
                    + module_cid,
            ),
        ),
    }
}

/// Whether the readings that a comparison looks at are there: one for each
/// expected value, where values are compared.
pub open spec fn readings_present(
    checker: CheckerView,
    expected: Seq<char>,
    count: nat,
) -> bool {
    checker is Float ==> count == words(expected).len()
}

// ---------------------------------------------------------------------------
// The comparisons
// ---------------------------------------------------------------------------

/// Compare `actual` against `expected` under `checker`.
///
/// `readings` holds one reading for each pair of [`float_pairs`] where the
/// checker compares numbers; the other checkers do not look at it.
pub fn check(
    checker: &Checker,
    expected: &str,
    actual: &str,
    readings: &Vec<FloatReading>,
) -> (result: Result<Match, JudgeError>)
    requires
        readings_present(checker@, expected@, readings@.len()),
    ensures
        judged(result) == check_result(checker@, expected@, actual@, reading_views(readings@)),
{
    match checker {
        Checker::Exact => Ok(compare_exact(expected, actual)),
        Checker::TrimmedLines => Ok(compare_trimmed(expected, actual)),
        Checker::Tokens => Ok(compare_tokens(expected, actual)),
        Checker::Float { .. } => compare_floats(expected, actual, readings),
        Checker::Custom { module_cid } => Err(
            JudgeError::CheckerFailure(
                joined(
                    "custom checkers are PLANNED and not implemented; refusing to judge against ",
                    module_cid.as_str(),
                ),
            ),
        ),
    }
}

fn compare_exact(expected: &str, actual: &str) -> (result: Match)
    ensures
        result@ == (if expected@ == actual@ {
            MatchView::Accepted
        } else {
            MatchView::Rejected {
                detail: difference_detail(
                    vstd::utf8::encode_utf8(expected@),
                    vstd::utf8::encode_utf8(actual@),
                ),
            }
        }),
{
    if same_text(expected, actual) {
        return Match::Accepted;
    }
    Match::Rejected { detail: first_difference(expected.as_bytes(), actual.as_bytes()) }
}

/// Describe the first difference without dumping the whole output.
pub(crate) fn first_difference(a: &[u8], b: &[u8]) -> (detail: String)
    ensures
        detail@ == difference_detail(a@, b@),
{
    let mut position: usize = 0;
    assert(a@.skip(0) == a@);
    assert(b@.skip(0) == b@);
    while position < a.len() && position < b.len() && a[position] == b[position]
        invariant
            position <= a@.len(),
            position <= b@.len(),
            shared_bytes(a@, b@) == position + shared_bytes(
                a@.skip(position as int),
                b@.skip(position as int),
            ),
        decreases a@.len() - position,
    {
        assert(a@.skip(position as int).drop_first() == a@.skip(position + 1));
        assert(b@.skip(position as int).drop_first() == b@.skip(position + 1));
        position += 1;
    }
    let mut detail = "first difference at byte ".to_owned();
    push_decimal(&mut detail, position as u64);
    detail.append(" (expected ");
    push_decimal(&mut detail, a.len() as u64);
    detail.append(" bytes, got ");
    push_decimal(&mut detail, b.len() as u64);
    detail.append(")");
    detail
}

fn compare_trimmed(expected: &str, actual: &str) -> (result: Match)
    ensures
        result@ == list_match("line"@, normalised_lines(expected@), normalised_lines(actual@)),
{
    compare_lists("line", &split_lines(expected), &split_lines(actual))
}

fn compare_tokens(expected: &str, actual: &str) -> (result: Match)
    ensures
        result@ == list_match("token"@, words(expected@), words(actual@)),
{
    compare_lists("token", &split_words(expected), &split_words(actual))
}

/// Compare two lists entry by entry.
fn compare_lists(unit: &str, want: &Vec<String>, got: &Vec<String>) -> (result: Match)
    ensures
        result@ == list_match(unit@, texts(want@), texts(got@)),
{
    let ghost a = texts(want@);
    let ghost b = texts(got@);
    let mut shared: usize = 0;
    assert(a.skip(0) == a);
    assert(b.skip(0) == b);
    while shared < want.len() && shared < got.len() && same_text(
        want[shared].as_str(),
        got[shared].as_str(),
    )
        invariant
            a == texts(want@),
            b == texts(got@),
            shared <= a.len(),
            shared <= b.len(),
            a.take(shared as int) == b.take(shared as int),
            shared_entries(a, b) == shared + shared_entries(
                a.skip(shared as int),
                b.skip(shared as int),
            ),
        decreases a.len() - shared,
    {
        assert(a.skip(shared as int).drop_first() == a.skip(shared + 1));
        assert(b.skip(shared as int).drop_first() == b.skip(shared + 1));
        shared += 1;
    }
    if shared == want.len() && shared == got.len() {
        assert(a.take(shared as int) == a);
        assert(b.take(shared as int) == b);
        return Match::Accepted;
    }
    if shared < want.len() && shared < got.len() {
        assert(a[shared as int] != b[shared as int]);
        let mut detail = joined(unit, " ");
        push_decimal(&mut detail, (shared + 1) as u64);
        detail.append(": expected ");
        detail.append(debug_of(want[shared].as_str()).as_str());
        detail.append(", got ");
        detail.append(debug_of(got[shared].as_str()).as_str());
        return Match::Rejected { detail };
    }
    let mut detail = "expected ".to_owned();
    push_decimal(&mut detail, want.len() as u64);
    detail.append(" ");
    detail.append(unit);
    detail.append("(s), got ");
    push_decimal(&mut detail, got.len() as u64);
    Match::Rejected { detail }
}

/// The `i`-th of some tokens, or nothing where there are fewer.
pub open spec fn token_or_nothing(tokens: Seq<Seq<char>>, i: int) -> Seq<char> {
    if i < tokens.len() {
        tokens[i]
    } else {
        Seq::empty()
    }
}

/// The pairs of tokens that a numeric comparison reads: every expected token,
/// with its counterpart, or with nothing where there is none.
pub fn float_pairs(expected: &str, actual: &str) -> (pairs: Vec<(String, String)>)
    ensures
        pairs@.len() == words(expected@).len(),
        forall|i: int|
            0 <= i < pairs@.len() ==> (#[trigger] pairs@[i]).0@ == words(expected@)[i]
                && pairs@[i].1@ == token_or_nothing(words(actual@), i),
{
    let want = split_words(expected);
    let got = split_words(actual);
    let ghost a = texts(want@);
    let ghost b = texts(got@);
    let mut pairs: Vec<(String, String)> = Vec::new();
    let mut i: usize = 0;
    while i < want.len()
        invariant
            a == texts(want@),
            b == texts(got@),
            i <= want@.len(),
            pairs@.len() == i,
            forall|j: int|
                0 <= j < pairs@.len() ==> (#[trigger] pairs@[j]).0@ == a[j] && pairs@[j].1@
                    == token_or_nothing(b, j),
        decreases want@.len() - i,
    {
        let counterpart = if i < got.len() {
            copy_text(got[i].as_str())
        } else {
            String::new()
        };
        assert(counterpart@ == token_or_nothing(b, i as int));
        pairs.push((copy_text(want[i].as_str()), counterpart));
        i += 1;
    }
    pairs
}

fn compare_floats(expected: &str, actual: &str, readings: &Vec<FloatReading>) -> (result: Result<
    Match,
    JudgeError,
>)
    requires
        readings@.len() == words(expected@).len(),
    ensures
        judged(result) == floats_match(expected@, actual@, reading_views(readings@)),
{
    let want = split_words(expected);
    let got = split_words(actual);
    let ghost a = texts(want@);
    let ghost b = texts(got@);
    let ghost views = reading_views(readings@);
    // An unparseable *expected* value is a broken package: a judge error, not
    // the submitter's fault. So these come first.
    let mut index: usize = 0;
    while index < want.len()
        invariant
            a == texts(want@),
            a == words(expected@),
            views == reading_views(readings@),
            want@.len() == readings@.len(),
            index <= want@.len(),
            broken_token(a, views, index as int) == broken_token(a, views, 0),
        decreases want@.len() - index,
    {
        assert(views[index as int] == readings@[index as int]@);
        if readings[index].want.is_none() {
            let mut why = joined("expected output token ", debug_of(want[index].as_str()).as_str());
            why.append(" is not a number");
            return Err(JudgeError::CheckerFailure(why));
        }
        index += 1;
    }
    proof {
        lemma_none_broken(a, views, 0);
    }
    if want.len() != got.len() {
        let mut detail = "expected ".to_owned();
        push_decimal(&mut detail, want.len() as u64);
        detail.append(" value(s), got ");
        push_decimal(&mut detail, got.len() as u64);
        return Ok(Match::Rejected { detail });
    }
    let mut index: usize = 0;
    while index < want.len()
        invariant
            a == texts(want@),
            b == texts(got@),
            views == reading_views(readings@),
            want@.len() == got@.len() == readings@.len(),
            index <= want@.len(),
            forall|i: int| 0 <= i < a.len() ==> #[trigger] views[i].want is Some,
            floats_match(expected@, actual@, views) == Ok::<MatchView, JudgeErrorView>(
                values_match(a, b, views, 0),
            ),
            values_match(a, b, views, index as int) == values_match(a, b, views, 0),
        decreases want@.len() - index,
    {
        let reading = &readings[index];
        assert(views[index as int] == reading@);
        let got_value = match &reading.got {
            Some(value) => value,
            None => {
                let mut detail = "value ".to_owned();
                push_decimal(&mut detail, (index + 1) as u64);
                detail.append(": ");
                detail.append(debug_of(got[index].as_str()).as_str());
                detail.append(" is not a number");
                return Ok(Match::Rejected { detail });
            },
        };
        if let Some(want_value) = &reading.want {
            match compare_values(index + 1, want_value, got_value, reading) {
                Some(detail) => {
                    return Ok(Match::Rejected { detail });
                },
                None => {},
            }
        }
        index += 1;
    }
    Ok(Match::Accepted)
}

proof fn lemma_none_broken(want: Seq<Seq<char>>, readings: Seq<FloatReadingView>, i: int)
    requires
        0 <= i,
    ensures
        broken_token(want, readings, i) is None <==> forall|j: int|
            i <= j < want.len() ==> #[trigger] readings[j].want is Some,
    decreases want.len() - i,
{
    if i < want.len() {
        lemma_none_broken(want, readings, i + 1);
        let rest = forall|j: int| i + 1 <= j < want.len() ==> #[trigger] readings[j].want is Some;
        let all = forall|j: int| i <= j < want.len() ==> #[trigger] readings[j].want is Some;
        assert(all <==> readings[i].want is Some && rest);
    }
}

pub(crate) fn is_nan(bits: u64) -> (yes: bool)
    ensures
        yes == bits_nan(bits),
{
    (bits / 0x10_0000_0000_0000) % 2048 == 2047 && bits % 0x10_0000_0000_0000 != 0
}

fn is_infinite(bits: u64) -> (yes: bool)
    ensures
        yes == bits_infinite(bits),
{
    (bits / 0x10_0000_0000_0000) % 2048 == 2047 && bits % 0x10_0000_0000_0000 == 0
}

/// What is said of a pair of numbers that do not match, if they do not.
fn compare_values(
    number: usize,
    want: &FloatValue,
    got: &FloatValue,
    reading: &FloatReading,
) -> (fault: Option<String>)
    ensures
        match fault {
            Some(detail) => value_fault(number as nat, want@, got@, reading@) == Some(detail@),
            None => value_fault(number as nat, want@, got@, reading@) is None,
        },
{
    let matched = if is_nan(want.bits) || is_nan(got.bits) {
        is_nan(want.bits) && is_nan(got.bits)
    } else if is_infinite(want.bits) || is_infinite(got.bits) {
        want.bits == got.bits
    } else {
        !reading.exceeds
    };
    if matched {
        return None;
    }
    let mut detail = "value ".to_owned();
    push_decimal(&mut detail, number as u64);
    detail.append(": expected ");
    detail.append(want.shown.as_str());
    detail.append(", got ");
    detail.append(got.shown.as_str());
    if is_nan(want.bits) || is_nan(got.bits) || is_infinite(want.bits) || is_infinite(got.bits) {
        return Some(detail);
    }
    detail.append(" (difference ");
    detail.append(reading.difference.as_str());
    detail.append(" exceeds tolerance ");
    detail.append(reading.tolerance.as_str());
    detail.append(")");
    Some(detail)
}

// ---------------------------------------------------------------------------
// What the comparisons promise
// ---------------------------------------------------------------------------

/// Output that is what was expected, to the byte, is accepted by every
/// comparison of text.
pub proof fn equal_output_is_accepted(text: Seq<char>, readings: Seq<FloatReadingView>)
    ensures
        check_result(CheckerView::Exact, text, text, readings) == Ok::<MatchView, JudgeErrorView>(
            MatchView::Accepted,
        ),
        check_result(CheckerView::TrimmedLines, text, text, readings) == Ok::<
            MatchView,
            JudgeErrorView,
        >(MatchView::Accepted),
        check_result(CheckerView::Tokens, text, text, readings) == Ok::<MatchView, JudgeErrorView>(
            MatchView::Accepted,
        ),
{
}

/// Each comparison of text forgives whatever the stricter one forgives: what
/// `Exact` accepts `TrimmedLines` accepts, and what that accepts `Tokens`
/// accepts.
pub proof fn stricter_comparisons_accept_less(
    expected: Seq<char>,
    actual: Seq<char>,
    readings: Seq<FloatReadingView>,
)
    ensures
        check_result(CheckerView::Exact, expected, actual, readings)->Ok_0 is Accepted
            ==> check_result(CheckerView::TrimmedLines, expected, actual, readings)->Ok_0 is Accepted,
        check_result(CheckerView::TrimmedLines, expected, actual, readings)->Ok_0 is Accepted
            ==> check_result(CheckerView::Tokens, expected, actual, readings)->Ok_0 is Accepted,
{
    crate::text::words_of_normalised_lines(expected);
    crate::text::words_of_normalised_lines(actual);
}

/// A line break more or less at the end of either side makes no difference to
/// `TrimmedLines`.
pub proof fn trailing_newline_is_forgiven(
    expected: Seq<char>,
    actual: Seq<char>,
    readings: Seq<FloatReadingView>,
)
    ensures
        check_result(CheckerView::TrimmedLines, expected, actual.push('\n'), readings)
            == check_result(CheckerView::TrimmedLines, expected, actual, readings),
        check_result(CheckerView::TrimmedLines, expected.push('\n'), actual, readings)
            == check_result(CheckerView::TrimmedLines, expected, actual, readings),
{
    crate::text::trailing_newline_adds_no_line(expected);
    crate::text::trailing_newline_adds_no_line(actual);
}

/// White space at the end of a line makes no difference to `TrimmedLines`:
/// `before` is the output up to there, `after` the rest from the line break on.
pub proof fn trailing_space_is_forgiven(
    expected: Seq<char>,
    before: Seq<char>,
    space: char,
    after: Seq<char>,
    readings: Seq<FloatReadingView>,
)
    requires
        crate::text::is_space(space),
        space != '\n',
        after.len() == 0 || after[0] == '\n',
    ensures
        check_result(CheckerView::TrimmedLines, expected, before + seq![space] + after, readings)
            == check_result(CheckerView::TrimmedLines, expected, before + after, readings),
{
    crate::text::trailing_space_changes_no_line(before, space, after);
}

/// White space between two texts, and any more of it, is the same to `Tokens`.
pub proof fn layout_is_forgiven_by_tokens(
    expected: Seq<char>,
    before: Seq<char>,
    one: char,
    other: char,
    after: Seq<char>,
    readings: Seq<FloatReadingView>,
)
    requires
        crate::text::is_space(one),
        crate::text::is_space(other),
    ensures
        check_result(CheckerView::Tokens, expected, before + seq![one] + after, readings)
            == check_result(CheckerView::Tokens, expected, before + seq![other] + after, readings),
        check_result(
            CheckerView::Tokens,
            expected,
            before + seq![one] + (seq![other] + after),
            readings,
        ) == check_result(CheckerView::Tokens, expected, before + seq![one] + after, readings),
{
    crate::text::words_around_space(before, one, after);
    crate::text::words_around_space(before, other, after);
    crate::text::words_around_space(before, one, seq![other] + after);
    crate::text::words_around_space(Seq::empty(), other, after);
    assert(Seq::empty() + seq![other] + after == seq![other] + after);
    assert(words(Seq::<char>::empty()) + words(after) == words(after));
}

proof fn lemma_shared_bytes(a: Seq<u8>, b: Seq<u8>)
    ensures
        shared_bytes(a, b) <= a.len(),
    decreases a.len(),
{
    if a.len() > 0 && b.len() > 0 && a[0] == b[0] {
        lemma_shared_bytes(a.drop_first(), b.drop_first());
    }
}

proof fn lemma_twenty_digits()
    ensures
        0x1_0000_0000_0000_0000 <= vstd::arithmetic::power::pow(10, 20),
{
    let five = vstd::arithmetic::power::pow(10, 5);
    let ten = vstd::arithmetic::power::pow(10, 10);
    let twenty = vstd::arithmetic::power::pow(10, 20);
    assert(five == 100000) by {
        reveal_with_fuel(vstd::arithmetic::power::pow, 6);
    }
    vstd::arithmetic::power::lemma_pow_adds(10, 5, 5);
    vstd::arithmetic::power::lemma_pow_adds(10, 10, 10);
    assert(ten == 10000000000) by (nonlinear_arith)
        requires
            ten == five * five,
            five == 100000,
    ;
    assert(twenty == 100000000000000000000) by (nonlinear_arith)
        requires
            twenty == ten * ten,
            ten == 10000000000,
    ;
}

/// What an exact comparison says of a difference is short enough to show a
/// learner, however long the two texts are.
pub proof fn exact_details_are_short(
    expected: Seq<char>,
    actual: Seq<char>,
    readings: Seq<FloatReadingView>,
)
    requires
        vstd::utf8::encode_utf8(expected).len() <= usize::MAX,
        vstd::utf8::encode_utf8(actual).len() <= usize::MAX,
    ensures
        check_result(CheckerView::Exact, expected, actual, readings) matches Ok(
            MatchView::Rejected { detail },
        ) ==> detail.len() < 200,
{
    let a = vstd::utf8::encode_utf8(expected);
    let b = vstd::utf8::encode_utf8(actual);
    lemma_shared_bytes(a, b);
    lemma_twenty_digits();
    crate::text::dec_is_short(a.len(), 20);
    crate::text::dec_is_short(b.len(), 20);
    crate::text::dec_is_short(shared_bytes(a, b), 20);
    reveal_strlit("first difference at byte ");
    reveal_strlit(" (expected ");
    reveal_strlit(" bytes, got ");
    reveal_strlit(")");
}

/// A check fails exactly where the package cannot be judged by: its checker is
/// not implemented, or it expects a number and names none. Then the package is
/// blamed, whatever the program printed; and otherwise a check never fails.
pub proof fn failed_checks_blame_the_package(
    checker: CheckerView,
    expected: Seq<char>,
    actual: Seq<char>,
    readings: Seq<FloatReadingView>,
)
    ensures
        check_result(checker, expected, actual, readings) is Err <==> checker is Custom || (
        checker is Float && exists|i: int|
            0 <= i < words(expected).len() && #[trigger] readings[i].want is None),
        check_result(checker, expected, actual, readings) matches Err(error)
            ==> error is CheckerFailure,
{
    lemma_none_broken(words(expected), readings, 0);
}

/// Whether two numbers agree: both read, and neither too far apart, nor one
/// infinite or not a number without the other being so too.
pub open spec fn agrees(reading: FloatReadingView) -> bool {
    reading.want matches Some(want) && reading.got matches Some(got) && {
        if bits_nan(want.bits) || bits_nan(got.bits) {
            bits_nan(want.bits) && bits_nan(got.bits)
        } else if bits_infinite(want.bits) || bits_infinite(got.bits) {
            want.bits == got.bits
        } else {
            !reading.exceeds
        }
    }
}

/// Numbers are compared pair by pair: they are accepted exactly where there are
/// as many as expected and each agrees with its counterpart.
pub proof fn numbers_are_compared_pair_by_pair(
    absolute: u64,
    relative: u64,
    expected: Seq<char>,
    actual: Seq<char>,
    readings: Seq<FloatReadingView>,
)
    ensures
        check_result(CheckerView::Float { absolute, relative }, expected, actual, readings) == Ok::<
            MatchView,
            JudgeErrorView,
        >(MatchView::Accepted) <==> {
            &&& words(expected).len() == words(actual).len()
            &&& forall|i: int|
                0 <= i < words(expected).len() ==> agrees(#[trigger] readings[i])
        },
{
    lemma_none_broken(words(expected), readings, 0);
    if broken_token(words(expected), readings, 0) is None {
        lemma_values_agree(words(expected), words(actual), readings, 0);
    }
}

proof fn lemma_values_agree(
    want: Seq<Seq<char>>,
    got: Seq<Seq<char>>,
    readings: Seq<FloatReadingView>,
    i: int,
)
    requires
        0 <= i,
        forall|j: int| 0 <= j < want.len() ==> #[trigger] readings[j].want is Some,
    ensures
        values_match(want, got, readings, i) == MatchView::Accepted <==> forall|j: int|
            i <= j < want.len() ==> agrees(#[trigger] readings[j]),
    decreases want.len() - i,
{
    if i < want.len() {
        lemma_values_agree(want, got, readings, i + 1);
        let rest = forall|j: int| i + 1 <= j < want.len() ==> agrees(#[trigger] readings[j]);
        let all = forall|j: int| i <= j < want.len() ==> agrees(#[trigger] readings[j]);
        assert(readings[i].want is Some);
        assert(all <==> agrees(readings[i]) && rest);
    }
}

/// A comparison of text accepts an output exactly where it says the same as the
/// expected one: `Exact` where the texts are equal, `TrimmedLines` where their
/// lines are, `Tokens` where their words are, as many and in the same order.
/// Everything else is rejected, and none of the three ever fails.
pub proof fn text_is_accepted_only_where_it_agrees(
    expected: Seq<char>,
    actual: Seq<char>,
    readings: Seq<FloatReadingView>,
)
    ensures
        ({
            let exact = check_result(CheckerView::Exact, expected, actual, readings);
            let lines = check_result(CheckerView::TrimmedLines, expected, actual, readings);
            let tokens = check_result(CheckerView::Tokens, expected, actual, readings);
            &&& exact is Ok && lines is Ok && tokens is Ok
            &&& exact->Ok_0 is Accepted <==> actual == expected
            &&& lines->Ok_0 is Accepted <==> normalised_lines(actual) == normalised_lines(expected)
            &&& tokens->Ok_0 is Accepted <==> {
                &&& words(actual).len() == words(expected).len()
                &&& forall|i: int|
                    0 <= i < words(expected).len() ==> #[trigger] words(actual)[i] == words(
                        expected,
                    )[i]
            }
        }),
{
    if words(actual).len() == words(expected).len() && forall|i: int|
        0 <= i < words(expected).len() ==> #[trigger] words(actual)[i] == words(expected)[i] {
        assert(words(actual) =~= words(expected));
    }
}

/// What is left of an output behind the expected tokens is not ignored, and
/// neither is a token that is missing.
pub proof fn tokens_too_many_or_too_few_are_rejected(
    expected: Seq<char>,
    actual: Seq<char>,
    word: Seq<char>,
    readings: Seq<FloatReadingView>,
)
    requires
        words(actual) == words(expected).push(word),
    ensures
        !(check_result(CheckerView::Tokens, expected, actual, readings)->Ok_0 is Accepted),
        !(check_result(CheckerView::Tokens, actual, expected, readings)->Ok_0 is Accepted),
{
    text_is_accepted_only_where_it_agrees(expected, actual, readings);
    text_is_accepted_only_where_it_agrees(actual, expected, readings);
}

/// Whether two lists agree up to their `i`-th entries and differ there.
pub open spec fn first_differ_at<T>(a: Seq<T>, b: Seq<T>, i: int) -> bool {
    &&& 0 <= i < a.len()
    &&& i < b.len()
    &&& a[i] != b[i]
    &&& forall|j: int| 0 <= j < i ==> #[trigger] a[j] == b[j]
}

/// Whether one of two lists is the beginning of the other.
pub open spec fn one_begins_the_other<T>(a: Seq<T>, b: Seq<T>) -> bool {
    forall|j: int| 0 <= j < a.len() && j < b.len() ==> #[trigger] a[j] == b[j]
}

proof fn lemma_shared_entries(a: Seq<Seq<char>>, b: Seq<Seq<char>>)
    ensures
        shared_entries(a, b) <= a.len(),
        shared_entries(a, b) <= b.len(),
        forall|j: int| 0 <= j < shared_entries(a, b) ==> #[trigger] a[j] == b[j],
        shared_entries(a, b) < a.len() && shared_entries(a, b) < b.len() ==> a[shared_entries(
            a,
            b,
        ) as int] != b[shared_entries(a, b) as int],
    decreases a.len(),
{
    if a.len() > 0 && b.len() > 0 && a[0] == b[0] {
        let x = a.drop_first();
        let y = b.drop_first();
        lemma_shared_entries(x, y);
        assert forall|j: int| 0 <= j < shared_entries(a, b) implies #[trigger] a[j] == b[j] by {
            if j > 0 {
                assert(x[j - 1] == y[j - 1]);
            }
        }
    }
}

proof fn lemma_shared_bytes_exact(a: Seq<u8>, b: Seq<u8>)
    ensures
        shared_bytes(a, b) <= a.len(),
        shared_bytes(a, b) <= b.len(),
        forall|j: int| 0 <= j < shared_bytes(a, b) ==> #[trigger] a[j] == b[j],
        shared_bytes(a, b) < a.len() && shared_bytes(a, b) < b.len() ==> a[shared_bytes(
            a,
            b,
        ) as int] != b[shared_bytes(a, b) as int],
    decreases a.len(),
{
    if a.len() > 0 && b.len() > 0 && a[0] == b[0] {
        let x = a.drop_first();
        let y = b.drop_first();
        lemma_shared_bytes_exact(x, y);
        assert forall|j: int| 0 <= j < shared_bytes(a, b) implies #[trigger] a[j] == b[j] by {
            if j > 0 {
                assert(x[j - 1] == y[j - 1]);
            }
        }
    }
}

/// What is said of lines or tokens that do not match is where they first differ,
/// counted from one, and what stood there on either side; or how many there are,
/// where one side goes on after the other ends.
pub proof fn the_first_line_or_token_that_differs_is_told(
    expected: Seq<char>,
    actual: Seq<char>,
    readings: Seq<FloatReadingView>,
    i: int,
)
    ensures
        first_differ_at(words(expected), words(actual), i) ==> check_result(
            CheckerView::Tokens,
            expected,
            actual,
            readings,
        ) == Ok::<MatchView, JudgeErrorView>(
            MatchView::Rejected {
                detail: "token "@ + dec((i + 1) as nat) + ": expected "@ + debug_text(
                    words(expected)[i],
                ) + ", got "@ + debug_text(words(actual)[i]),
            },
        ),
        first_differ_at(normalised_lines(expected), normalised_lines(actual), i) ==> check_result(
            CheckerView::TrimmedLines,
            expected,
            actual,
            readings,
        ) == Ok::<MatchView, JudgeErrorView>(
            MatchView::Rejected {
                detail: "line "@ + dec((i + 1) as nat) + ": expected "@ + debug_text(
                    normalised_lines(expected)[i],
                ) + ", got "@ + debug_text(normalised_lines(actual)[i]),
            },
        ),
        one_begins_the_other(words(expected), words(actual)) && words(expected).len() != words(
            actual,
        ).len() ==> check_result(CheckerView::Tokens, expected, actual, readings) == Ok::<
            MatchView,
            JudgeErrorView,
        >(
            MatchView::Rejected {
                detail: "expected "@ + dec(words(expected).len()) + " token(s), got "@ + dec(
                    words(actual).len(),
                ),
            },
        ),
        one_begins_the_other(normalised_lines(expected), normalised_lines(actual))
            && normalised_lines(expected).len() != normalised_lines(actual).len() ==> check_result(
            CheckerView::TrimmedLines,
            expected,
            actual,
            readings,
        ) == Ok::<MatchView, JudgeErrorView>(
            MatchView::Rejected {
                detail: "expected "@ + dec(normalised_lines(expected).len()) + " line(s), got "@
                    + dec(normalised_lines(actual).len()),
            },
        ),
{
    reveal_strlit("token");
    reveal_strlit("line");
    reveal_strlit("token ");
    reveal_strlit("line ");
    reveal_strlit(" ");
    reveal_strlit(" token(s), got ");
    reveal_strlit(" line(s), got ");
    reveal_strlit("(s), got ");
    assert("token"@ + " "@ == "token "@);
    assert("line"@ + " "@ == "line "@);
    assert(" "@ + "token"@ + "(s), got "@ == " token(s), got "@);
    assert(" "@ + "line"@ + "(s), got "@ == " line(s), got "@);
    lemma_list_told("token"@, "token "@, " token(s), got "@, words(expected), words(actual), i);
    lemma_list_told(
        "line"@,
        "line "@,
        " line(s), got "@,
        normalised_lines(expected),
        normalised_lines(actual),
        i,
    );
}

proof fn lemma_list_told(
    unit: Seq<char>,
    head: Seq<char>,
    tail: Seq<char>,
    want: Seq<Seq<char>>,
    got: Seq<Seq<char>>,
    i: int,
)
    requires
        unit + " "@ == head,
        " "@ + unit + "(s), got "@ == tail,
    ensures
        first_differ_at(want, got, i) ==> list_match(unit, want, got) == (MatchView::Rejected {
            detail: head + dec((i + 1) as nat) + ": expected "@ + debug_text(want[i]) + ", got "@
                + debug_text(got[i]),
        }),
        one_begins_the_other(want, got) && want.len() != got.len() ==> list_match(unit, want, got)
            == (MatchView::Rejected {
            detail: "expected "@ + dec(want.len()) + tail + dec(got.len()),
        }),
{
    lemma_shared_entries(want, got);
    let shared = shared_entries(want, got) as int;
    if first_differ_at(want, got, i) {
        assert(shared == i) by {
            if shared < i {
                assert(want[shared] == got[shared]);
            }
        }
    }
    if one_begins_the_other(want, got) && want.len() != got.len() {
        if shared < want.len() && shared < got.len() {
            assert(want[shared] == got[shared]);
        }
        assert("expected "@ + dec(want.len()) + " "@ + unit + "(s), got "@ == "expected "@ + dec(
            want.len(),
        ) + tail);
    }
}

/// What is said of text that is not exactly what was expected is the first byte
/// where it differs, or where the shorter one ends, and how long both are.
pub proof fn the_first_byte_that_differs_is_told(
    expected: Seq<char>,
    actual: Seq<char>,
    readings: Seq<FloatReadingView>,
    i: int,
)
    ensures
        ({
            let want = vstd::utf8::encode_utf8(expected);
            let got = vstd::utf8::encode_utf8(actual);
            let at = if first_differ_at(want, got, i) {
                i
            } else if want.len() < got.len() {
                want.len() as int
            } else {
                got.len() as int
            };
            (first_differ_at(want, got, i) || (one_begins_the_other(want, got) && expected
                != actual)) ==> check_result(CheckerView::Exact, expected, actual, readings)
                == Ok::<MatchView, JudgeErrorView>(
                MatchView::Rejected {
                    detail: "first difference at byte "@ + dec(at as nat) + " (expected "@ + dec(
                        want.len(),
                    ) + " bytes, got "@ + dec(got.len()) + ")"@,
                },
            )
        }),
{
    let want = vstd::utf8::encode_utf8(expected);
    let got = vstd::utf8::encode_utf8(actual);
    lemma_shared_bytes_exact(want, got);
    let shared = shared_bytes(want, got) as int;
    if first_differ_at(want, got, i) {
        assert(expected != actual);
        assert(shared == i) by {
            if shared < i {
                assert(want[shared] == got[shared]);
            }
        }
    } else if one_begins_the_other(want, got) {
        if shared < want.len() && shared < got.len() {
            assert(want[shared] == got[shared]);
        }
    }
}

/// The kinds of double by the bits of their exponent and fraction.
pub proof fn doubles_are_told_apart_by_their_bits(bits: u64)
    ensures
        bits_finite(bits) <==> bits & 0x7ff0_0000_0000_0000 != 0x7ff0_0000_0000_0000,
        bits_nan(bits) <==> bits & 0x7ff0_0000_0000_0000 == 0x7ff0_0000_0000_0000 && bits
            & 0x000f_ffff_ffff_ffff != 0,
        bits_infinite(bits) <==> bits & 0x7fff_ffff_ffff_ffff == 0x7ff0_0000_0000_0000,
{
    assert(((bits / 0x10_0000_0000_0000) % 2048 == 2047) <==> (bits & 0x7ff0_0000_0000_0000
        == 0x7ff0_0000_0000_0000)) by (bit_vector);
    assert((bits % 0x10_0000_0000_0000 != 0) <==> (bits & 0x000f_ffff_ffff_ffff != 0))
        by (bit_vector);
    assert((bits & 0x7fff_ffff_ffff_ffff == 0x7ff0_0000_0000_0000) <==> (bits
        & 0x7ff0_0000_0000_0000 == 0x7ff0_0000_0000_0000 && bits & 0x000f_ffff_ffff_ffff == 0))
        by (bit_vector);
}

/// What is said of numbers that do not match: the first expected token that is no
/// number, whatever was printed; then how many there are, where that differs; then
/// the first value that was not a number or does not agree, counted from one, and
/// for finite ones by how much they differ and may.
pub proof fn the_first_value_that_differs_is_told(
    absolute: u64,
    relative: u64,
    expected: Seq<char>,
    actual: Seq<char>,
    readings: Seq<FloatReadingView>,
    i: int,
)
    requires
        0 <= i < words(expected).len(),
    ensures
        ({
            let checker = CheckerView::Float { absolute, relative };
            let result = check_result(checker, expected, actual, readings);
            let sound = forall|j: int|
                0 <= j < words(expected).len() ==> #[trigger] readings[j].want is Some;
            let first = forall|j: int| 0 <= j < i ==> agrees(#[trigger] readings[j]);
            &&& (forall|j: int| 0 <= j < i ==> #[trigger] readings[j].want is Some)
                && readings[i].want is None ==> result == Err::<MatchView, JudgeErrorView>(
                JudgeErrorView::CheckerFailure(
                    "expected output token "@ + debug_text(words(expected)[i])
                        + " is not a number"@,
                ),
            )
            &&& sound && words(expected).len() != words(actual).len() ==> result == Ok::<
                MatchView,
                JudgeErrorView,
            >(
                MatchView::Rejected {
                    detail: "expected "@ + dec(words(expected).len()) + " value(s), got "@ + dec(
                        words(actual).len(),
                    ),
                },
            )
            &&& sound && words(expected).len() == words(actual).len() && first
                && readings[i].got is None ==> result == Ok::<MatchView, JudgeErrorView>(
                MatchView::Rejected {
                    detail: "value "@ + dec((i + 1) as nat) + ": "@ + debug_text(words(actual)[i])
                        + " is not a number"@,
                },
            )
            &&& sound && words(expected).len() == words(actual).len() && first && !agrees(
                readings[i],
            ) && readings[i].got is Some ==> {
                let want = readings[i].want->0;
                let got = readings[i].got->0;
                let said = "value "@ + dec((i + 1) as nat) + ": expected "@ + want.shown
                    + ", got "@ + got.shown;
                result == Ok::<MatchView, JudgeErrorView>(
                    MatchView::Rejected {
                        detail: if bits_finite(want.bits) && bits_finite(got.bits) {
                            said + " (difference "@ + readings[i].difference
                                + " exceeds tolerance "@ + readings[i].tolerance + ")"@
                        } else {
                            said
                        },
                    },
                )
            }
        }),
{
    let want = words(expected);
    lemma_none_broken(want, readings, 0);
    if (forall|j: int| 0 <= j < i ==> #[trigger] readings[j].want is Some) && readings[i].want is None {
        lemma_broken_at(want, readings, 0, i);
    }
    if forall|j: int| 0 <= j < want.len() ==> #[trigger] readings[j].want is Some {
        if (forall|j: int| 0 <= j < i ==> agrees(#[trigger] readings[j])) && !agrees(readings[i]) {
            lemma_values_up_to(want, words(actual), readings, 0, i);
            assert(readings[i].want is Some);
        }
    }
}

proof fn lemma_broken_at(want: Seq<Seq<char>>, readings: Seq<FloatReadingView>, from: int, i: int)
    requires
        0 <= from <= i < want.len(),
        forall|j: int| 0 <= j < i ==> #[trigger] readings[j].want is Some,
        readings[i].want is None,
    ensures
        broken_token(want, readings, from) == Some(want[i]),
    decreases i - from,
{
    if from < i {
        assert(readings[from].want is Some);
        lemma_broken_at(want, readings, from + 1, i);
    }
}

proof fn lemma_values_up_to(
    want: Seq<Seq<char>>,
    got: Seq<Seq<char>>,
    readings: Seq<FloatReadingView>,
    from: int,
    i: int,
)
    requires
        0 <= from <= i < want.len(),
        forall|j: int| 0 <= j < i ==> agrees(#[trigger] readings[j]),
    ensures
        values_match(want, got, readings, from) == values_match(want, got, readings, i),
    decreases i - from,
{
    if from < i {
        assert(agrees(readings[from]));
        lemma_values_up_to(want, got, readings, from + 1, i);
    }
}

/// Two numbers agree exactly where both could be read and are both no number, or
/// the same infinity, or finite and not further apart than the tolerance.
pub proof fn agreement_of_numbers(reading: FloatReadingView)
    ensures
        agrees(reading) <==> reading.want is Some && reading.got is Some && ({
            let want = reading.want->0.bits;
            let got = reading.got->0.bits;
            ||| bits_nan(want) && bits_nan(got)
            ||| bits_infinite(want) && got == want
            ||| bits_finite(want) && bits_finite(got) && !reading.exceeds
        }),
{
}

/// The token that is read against the `i`-th expected one is the one in the same
/// place, and nothing where the output has ended.
pub proof fn tokens_are_read_against_their_counterparts(tokens: Seq<Seq<char>>, i: int)
    requires
        0 <= i,
    ensures
        i < tokens.len() ==> token_or_nothing(tokens, i) == tokens[i],
        i >= tokens.len() ==> token_or_nothing(tokens, i).len() == 0,
{
}

/// A checker that a package brings along is refused, by the name of its module,
/// whatever was expected or printed.
pub proof fn custom_checkers_are_refused(
    module_cid: Seq<char>,
    expected: Seq<char>,
    actual: Seq<char>,
    readings: Seq<FloatReadingView>,
)
    ensures
        check_result(CheckerView::Custom { module_cid }, expected, actual, readings) == Err::<
            MatchView,
            JudgeErrorView,
        >(
            JudgeErrorView::CheckerFailure(
                "custom checkers are PLANNED and not implemented; refusing to judge against "@
                    + module_cid,
            ),
        ),
{
}

/// What was read of two tokens says what it holds.
pub proof fn readings_say_what_they_hold(
    readings: Seq<FloatReading>,
    value: FloatValue,
    result: Match,
)
    ensures
        reading_views(readings).len() == readings.len(),
        forall|i: int|
            0 <= i < readings.len() ==> {
                let said = #[trigger] reading_views(readings)[i];
                &&& readings[i].want matches Some(want) ==> said.want == Some(want@)
                &&& readings[i].want is None ==> said.want is None
                &&& readings[i].got matches Some(got) ==> said.got == Some(got@)
                &&& readings[i].got is None ==> said.got is None
                &&& said.exceeds == readings[i].exceeds
                &&& said.difference == readings[i].difference@
                &&& said.tolerance == readings[i].tolerance@
            },
        value@.bits == value.bits,
        value@.shown == value.shown@,
        result is Accepted <==> result@ is Accepted,
        result matches Match::Rejected { detail } ==> result@ == (MatchView::Rejected {
            detail: detail@,
        }),
{
}

/// One reading is wanted for each expected value, where values are compared, and
/// none otherwise.
pub proof fn how_many_readings_are_wanted(checker: CheckerView, expected: Seq<char>, count: nat)
    ensures
        !(checker is Float) ==> readings_present(checker, expected, count),
        checker is Float ==> (readings_present(checker, expected, count) <==> count == words(
            expected,
        ).len()),
{
}

} // verus!
