//! Text, as sequences of characters.
//!
//! Every contract in this crate that speaks of a string speaks of its
//! characters. This module holds the handful of operations on them that the
//! judge needs, each with its meaning stated as a function on `Seq<char>`.

use vstd::prelude::*;
use vstd::utf8::{decode_utf8, encode_utf8_decode_utf8, valid_utf8};

verus! {

/// The characters of each string of a list.
pub open spec fn texts(list: Seq<String>) -> Seq<Seq<char>> {
    Seq::new(list.len(), |i: int| list[i]@)
}

/// `String::push` appends one character.
pub assume_specification[ String::push ](s: &mut String, c: char)
    ensures
        final(s)@ == old(s)@.push(c),
;

/// The characters of a string, one by one.
pub fn chars_of(s: &str) -> (chars: Vec<char>)
    ensures
        chars@ == s@,
{
    let mut out: Vec<char> = Vec::new();
    for c in it: s.chars()
        invariant
            out@ == it.seq().take(it.index() as int),
            it.seq() == s@,
    {
        out.push(c);
    }
    out
}

/// The string made of the characters `from..to` of a list.
pub fn slice_text(chars: &Vec<char>, from: usize, to: usize) -> (s: String)
    requires
        from <= to <= chars@.len(),
    ensures
        s@ == chars@.subrange(from as int, to as int),
{
    let mut s = String::new();
    let mut i: usize = from;
    while i < to
        invariant
            from <= i <= to <= chars@.len(),
            s@ == chars@.subrange(from as int, i as int),
        decreases to - i,
    {
        s.push(chars[i]);
        i += 1;
    }
    s
}

/// One string behind another.
pub fn joined(a: &str, b: &str) -> (s: String)
    ensures
        s@ == a@ + b@,
{
    let mut s = a.to_owned();
    s.append(b);
    s
}

/// A string of its own with the same characters.
pub fn copy_text(s: &str) -> (copy: String)
    ensures
        copy@ == s@,
{
    s.to_owned()
}

/// Whether two strings have the same characters.
pub fn same_text(a: &str, b: &str) -> (same: bool)
    ensures
        same == (a@ == b@),
{
    let x = a.as_bytes();
    let y = b.as_bytes();
    let same = same_bytes(x, y);
    proof {
        encode_utf8_decode_utf8(a@);
        encode_utf8_decode_utf8(b@);
    }
    same
}

/// Whether two byte strings are equal.
pub fn same_bytes(a: &[u8], b: &[u8]) -> (same: bool)
    ensures
        same == (a@ == b@),
{
    if a.len() != b.len() {
        return false;
    }
    let mut i: usize = 0;
    while i < a.len()
        invariant
            i <= a@.len() == b@.len(),
            a@.take(i as int) == b@.take(i as int),
        decreases a@.len() - i,
    {
        if a[i] != b[i] {
            return false;
        }
        i += 1;
    }
    assert(a@.take(i as int) == a@);
    assert(b@.take(i as int) == b@);
    true
}

/// A copy of a byte string.
pub fn copy_bytes(bytes: &[u8]) -> (copy: Vec<u8>)
    ensures
        copy@ == bytes@,
{
    let mut copy: Vec<u8> = Vec::new();
    let mut i: usize = 0;
    while i < bytes.len()
        invariant
            i <= bytes@.len(),
            copy@ == bytes@.take(i as int),
        decreases bytes@.len() - i,
    {
        copy.push(bytes[i]);
        i += 1;
    }
    assert(bytes@.take(i as int) == bytes@);
    copy
}

/// A copy of a list of strings.
pub fn copy_texts(list: &Vec<String>) -> (copy: Vec<String>)
    ensures
        texts(copy@) == texts(list@),
{
    let mut copy: Vec<String> = Vec::new();
    let mut i: usize = 0;
    while i < list.len()
        invariant
            i <= list@.len(),
            texts(copy@) == texts(list@).take(i as int),
        decreases list@.len() - i,
    {
        let ghost before = copy@;
        copy.push(list[i].clone());
        assert(texts(copy@) == texts(before).push(list@[i as int]@));
        i += 1;
    }
    assert(texts(list@).take(i as int) == texts(list@));
    copy
}

/// A string between quotes, with what would not print escaped: the `Debug` form
/// of a `str`.
pub uninterp spec fn debug_text(s: Seq<char>) -> Seq<char>;

/// `str`'s `Debug`, through `format!`. Its result is a function of the string
/// alone; how each character is escaped is left to [`debug_text`].
#[verifier::external_body]
pub(crate) fn debug_of(s: &str) -> (shown: String)
    ensures
        shown@ == debug_text(s@),
{
    format!("{s:?}")
}

/// Bytes read as UTF-8, with U+FFFD wherever they are not.
pub uninterp spec fn lossy_text(bytes: Seq<u8>) -> Seq<char>;

/// `String::from_utf8_lossy`. The text is a function of the bytes; bytes that
/// are valid UTF-8 are decoded as they are. Where the replacement characters
/// stand otherwise is left to [`lossy_text`].
#[verifier::external_body]
pub(crate) fn lossy_of(bytes: &[u8]) -> (text: String)
    ensures
        text@ == lossy_text(bytes@),
        valid_utf8(bytes@) ==> text@ == decode_utf8(bytes@),
{
    String::from_utf8_lossy(bytes).into_owned()
}

/// `std::str::from_utf8`: succeeds exactly on valid UTF-8, which it decodes.
#[verifier::external_body]
pub(crate) fn utf8_text(bytes: &[u8]) -> (text: Option<String>)
    ensures
        match text {
            Some(t) => valid_utf8(bytes@) && t@ == decode_utf8(bytes@),
            None => !valid_utf8(bytes@),
        },
{
    std::str::from_utf8(bytes).ok().map(String::from)
}

// ---------------------------------------------------------------------------
// Numbers in decimal
// ---------------------------------------------------------------------------

/// The decimal digit `d`, for `d` below ten.
pub open spec fn digit_char(d: nat) -> char {
    (48 + d) as char
}

/// A natural number in decimal, without leading zeros.
pub open spec fn dec(n: nat) -> Seq<char>
    decreases n,
{
    if n < 10 {
        seq![digit_char(n)]
    } else {
        dec(n / 10).push(digit_char(n % 10))
    }
}

/// An integer in decimal, with a leading `-` when it is negative.
pub open spec fn dec_int(n: int) -> Seq<char> {
    if n < 0 {
        seq!['-'] + dec((-n) as nat)
    } else {
        dec(n as nat)
    }
}

/// Append a number in decimal.
pub fn push_decimal(s: &mut String, n: u64)
    ensures
        final(s)@ == old(s)@ + dec(n as nat),
    decreases n,
{
    if n >= 10 {
        push_decimal(s, n / 10);
    }
    let digit: u8 = 48 + (n % 10) as u8;
    s.push(digit as char);
    assert(s@ == old(s)@ + dec(n as nat));
}

/// A number in decimal.
pub fn decimal(n: u64) -> (s: String)
    ensures
        s@ == dec(n as nat),
{
    let mut s = String::new();
    push_decimal(&mut s, n);
    s
}

/// A signed number in decimal.
pub fn decimal_int(n: i32) -> (s: String)
    ensures
        s@ == dec_int(n as int),
{
    let mut s = String::new();
    if n < 0 {
        s.push('-');
        push_decimal(&mut s, (-(n as i64)) as u64);
        assert(s@ == seq!['-'] + dec((-n) as nat));
    } else {
        push_decimal(&mut s, n as u64);
    }
    s
}

/// Whether a character is a decimal digit.
pub open spec fn is_digit(c: char) -> bool {
    '0' <= c && c <= '9'
}

/// Whether every character is a decimal digit.
pub open spec fn all_digits(s: Seq<char>) -> bool {
    forall|i: int| 0 <= i < s.len() ==> is_digit(#[trigger] s[i])
}

/// The number a string of decimal digits denotes.
pub open spec fn nat_value(s: Seq<char>) -> nat
    decreases s.len(),
{
    if s.len() == 0 {
        0
    } else {
        10 * nat_value(s.drop_last()) + (s.last() as nat - 48) as nat
    }
}

/// The `i32` a string denotes: an optional sign, at least one digit, nothing
/// else, and a value in range.
pub open spec fn i32_value(s: Seq<char>) -> Option<int> {
    let signed = s.len() > 0 && (s[0] == '-' || s[0] == '+');
    let digits = if signed { s.drop_first() } else { s };
    let value = if signed && s[0] == '-' { -(nat_value(digits) as int) } else { nat_value(digits) as int };
    if digits.len() > 0 && all_digits(digits) && i32::MIN <= value <= i32::MAX {
        Some(value)
    } else {
        None
    }
}

/// A string of digits never loses value by growing.
proof fn lemma_nat_value_grows(s: Seq<char>, i: int)
    requires
        0 <= i <= s.len(),
        all_digits(s),
    ensures
        nat_value(s.take(i)) <= nat_value(s),
    decreases s.len(),
{
    if i < s.len() {
        assert(s.drop_last().take(i) == s.take(i));
        lemma_nat_value_grows(s.drop_last(), i);
    } else {
        assert(s.take(i) == s);
    }
}

/// Read a signed number in decimal.
pub fn parse_i32(s: &str) -> (value: Option<i32>)
    ensures
        match value {
            Some(v) => i32_value(s@) == Some(v as int),
            None => i32_value(s@) is None,
        },
{
    let chars = chars_of(s);
    let len: usize = chars.len();
    let negative = len > 0 && chars[0] == '-';
    let signed = negative || (len > 0 && chars[0] == '+');
    let start: usize = if signed { 1 } else { 0 };
    let ghost digits = if signed { s@.drop_first() } else { s@ };
    assert(digits == s@.subrange(start as int, len as int));
    if start == len {
        return None;
    }
    let mut acc: i64 = 0;
    let mut i: usize = start;
    while i < len
        invariant
            chars@ == s@,
            start <= i <= len == s@.len(),
            start <= 1,
            digits == s@.subrange(start as int, len as int),
            all_digits(digits.take(i - start)),
            0 <= acc <= 2147483648,
            acc == nat_value(digits.take(i - start)),
            signed == (s@.len() > 0 && (s@[0] == '-' || s@[0] == '+')),
            negative == (s@.len() > 0 && s@[0] == '-'),
            start == (if signed { 1int } else { 0int }),
            digits == (if signed { s@.drop_first() } else { s@ }),
        decreases len - i,
    {
        let c = chars[i];
        assert(digits[i - start] == c);
        if !('0' <= c && c <= '9') {
            return None;
        }
        let ghost next = digits.take(i - start + 1);
        assert(next.drop_last() == digits.take(i - start));
        assert(next.last() == c);
        let digit: i64 = (c as u32) as i64 - 48;
        acc = acc * 10 + digit;
        assert(acc == nat_value(next));
        if acc > 2147483648 {
            proof {
                if all_digits(digits) {
                    lemma_nat_value_grows(digits, i - start + 1);
                }
            }
            return None;
        }
        i += 1;
    }
    assert(digits.take(len - start) == digits);
    if negative {
        Some((-acc) as i32)
    } else if acc <= 2147483647 {
        Some(acc as i32)
    } else {
        None
    }
}

/// Reading back what was written gives the number.
pub proof fn dec_reads_back(n: nat)
    ensures
        dec(n).len() > 0,
        all_digits(dec(n)),
        nat_value(dec(n)) == n,
    decreases n,
{
    if n < 10 {
        assert(dec(n).drop_last() == Seq::<char>::empty());
        assert(nat_value(Seq::<char>::empty()) == 0);
        assert(dec(n).last() as nat == 48 + n);
    } else {
        dec_reads_back(n / 10);
        assert(dec(n).drop_last() == dec(n / 10));
        assert(dec(n).last() as nat == 48 + n % 10);
    }
}

/// Writing an `i32` in decimal and reading it gives the same `i32`.
pub proof fn i32_reads_back(n: i32)
    ensures
        i32_value(dec_int(n as int)) == Some(n as int),
{
    let m = if n < 0 { (-n) as nat } else { n as nat };
    dec_reads_back(m);
    assert(is_digit(dec(m)[0]));
    if n < 0 {
        assert(dec_int(n as int).drop_first() == dec(m));
    }
}

/// Different numbers have different decimal forms.
pub proof fn dec_is_injective(a: nat, b: nat)
    requires
        dec(a) == dec(b),
    ensures
        a == b,
{
    dec_reads_back(a);
    dec_reads_back(b);
}

/// A number below the `width`-th power of ten has at most `width` digits.
pub proof fn dec_is_short(n: nat, width: nat)
    requires
        n < vstd::arithmetic::power::pow(10, width),
        width >= 1,
    ensures
        dec(n).len() <= width,
    decreases width,
{
    if n >= 10 {
        assert(width > 1) by {
            if width == 1 {
                vstd::arithmetic::power::lemma_pow1(10);
            }
        }
        assert(n / 10 < vstd::arithmetic::power::pow(10, (width - 1) as nat)) by {
            reveal(vstd::arithmetic::power::pow);
        }
        dec_is_short(n / 10, (width - 1) as nat);
    }
}

// ---------------------------------------------------------------------------
// Order
// ---------------------------------------------------------------------------

/// Dictionary order on characters, which is also the order of the UTF-8 bytes.
pub open spec fn text_less(a: Seq<char>, b: Seq<char>) -> bool
    decreases a.len(),
{
    if b.len() == 0 {
        false
    } else if a.len() == 0 {
        true
    } else if a[0] != b[0] {
        a[0] < b[0]
    } else {
        text_less(a.drop_first(), b.drop_first())
    }
}

/// Whether one string comes before another in dictionary order.
pub fn is_text_less(a: &str, b: &str) -> (less: bool)
    ensures
        less == text_less(a@, b@),
{
    let x = chars_of(a);
    let y = chars_of(b);
    let mut i: usize = 0;
    assert(a@.skip(0) == a@);
    assert(b@.skip(0) == b@);
    loop
        invariant
            x@ == a@,
            y@ == b@,
            i <= a@.len(),
            i <= b@.len(),
            text_less(a@.skip(i as int), b@.skip(i as int)) == text_less(a@, b@),
        decreases a@.len() - i,
    {
        if i == y.len() {
            return false;
        }
        if i == x.len() {
            return true;
        }
        if x[i] != y[i] {
            return x[i] < y[i];
        }
        assert(a@.skip(i as int).drop_first() == a@.skip(i + 1));
        assert(b@.skip(i as int).drop_first() == b@.skip(i + 1));
        i += 1;
    }
}

/// No string comes before itself.
pub proof fn text_less_irreflexive(a: Seq<char>)
    ensures
        !text_less(a, a),
    decreases a.len(),
{
    if a.len() > 0 {
        text_less_irreflexive(a.drop_first());
    }
}

/// Dictionary order is transitive.
pub proof fn text_less_transitive(a: Seq<char>, b: Seq<char>, c: Seq<char>)
    requires
        text_less(a, b),
        text_less(b, c),
    ensures
        text_less(a, c),
    decreases a.len(),
{
    if a.len() > 0 && a[0] == b[0] && b[0] == c[0] {
        text_less_transitive(a.drop_first(), b.drop_first(), c.drop_first());
    }
}

/// Of two different strings one comes before the other.
pub proof fn text_less_total(a: Seq<char>, b: Seq<char>)
    ensures
        a == b || text_less(a, b) || text_less(b, a),
    decreases a.len(),
{
    if a.len() > 0 && b.len() > 0 {
        if a[0] == b[0] {
            text_less_total(a.drop_first(), b.drop_first());
            if a.drop_first() == b.drop_first() {
                assert(a == seq![a[0]] + a.drop_first());
                assert(b == seq![b[0]] + b.drop_first());
            }
        }
    } else if a.len() == 0 && b.len() == 0 {
        assert(a == b);
    }
}

// ---------------------------------------------------------------------------
// Prefixes and occurrences
// ---------------------------------------------------------------------------

/// Whether a string begins with another.
pub open spec fn begins_with(s: Seq<char>, prefix: Seq<char>) -> bool {
    prefix.len() <= s.len() && s.take(prefix.len() as int) == prefix
}

/// Whether a string occurs somewhere in another.
pub open spec fn occurs_in(needle: Seq<char>, hay: Seq<char>) -> bool {
    exists|i: int| 0 <= i <= hay.len() && begins_with(#[trigger] hay.skip(i), needle)
}

/// Whether the characters from `at` on begin with `prefix`.
fn has_at(chars: &Vec<char>, at: usize, prefix: &Vec<char>) -> (yes: bool)
    requires
        at <= chars@.len(),
    ensures
        yes == begins_with(chars@.skip(at as int), prefix@),
{
    if prefix.len() > chars.len() - at {
        return false;
    }
    let mut i: usize = 0;
    while i < prefix.len()
        invariant
            i <= prefix@.len(),
            at + prefix@.len() <= chars.len(),
            forall|j: int| 0 <= j < i ==> chars@[at + j] == prefix@[j],
        decreases prefix@.len() - i,
    {
        if chars[at + i] != prefix[i] {
            assert(chars@.skip(at as int).take(prefix@.len() as int)[i as int] != prefix@[i as int]);
            return false;
        }
        i += 1;
    }
    assert(chars@.skip(at as int).take(prefix@.len() as int) == prefix@);
    true
}

/// Whether a string begins with another.
pub fn has_prefix(s: &str, prefix: &str) -> (yes: bool)
    ensures
        yes == begins_with(s@, prefix@),
{
    assert(s@.skip(0) == s@);
    has_at(&chars_of(s), 0, &chars_of(prefix))
}

/// Whether a string occurs in another.
pub fn contains_text(hay: &str, needle: &str) -> (yes: bool)
    ensures
        yes == occurs_in(needle@, hay@),
{
    let h = chars_of(hay);
    let n = chars_of(needle);
    let mut i: usize = 0;
    while i <= h.len()
        invariant
            h@ == hay@,
            n@ == needle@,
            i <= hay@.len() + 1,
            forall|j: int| 0 <= j < i ==> !begins_with(#[trigger] hay@.skip(j), needle@),
        decreases hay@.len() + 1 - i,
    {
        if has_at(&h, i, &n) {
            return true;
        }
        if i == h.len() {
            return false;
        }
        i += 1;
    }
    false
}

/// What follows a prefix, where the string has it.
pub open spec fn after_prefix(s: Seq<char>, prefix: Seq<char>) -> Option<Seq<char>> {
    if begins_with(s, prefix) {
        Some(s.skip(prefix.len() as int))
    } else {
        None
    }
}

/// What follows a prefix, where the string has it.
pub fn without_prefix(s: &str, prefix: &str) -> (rest: Option<String>)
    ensures
        match rest {
            Some(r) => after_prefix(s@, prefix@) == Some(r@),
            None => after_prefix(s@, prefix@) is None,
        },
{
    let chars = chars_of(s);
    let head = chars_of(prefix);
    assert(s@.skip(0) == s@);
    if has_at(&chars, 0, &head) {
        let rest = slice_text(&chars, head.len(), chars.len());
        assert(rest@ == s@.skip(prefix@.len() as int));
        Some(rest)
    } else {
        None
    }
}

/// What is left once every leading copy of `prefix` is gone.
pub open spec fn after_prefixes(s: Seq<char>, prefix: Seq<char>) -> Seq<char>
    decreases s.len(),
{
    if prefix.len() > 0 && begins_with(s, prefix) {
        after_prefixes(s.skip(prefix.len() as int), prefix)
    } else {
        s
    }
}

/// What is left once every leading copy of `prefix` is gone.
pub fn without_prefixes(s: &str, prefix: &str) -> (rest: String)
    ensures
        rest@ == after_prefixes(s@, prefix@),
{
    let chars = chars_of(s);
    let head = chars_of(prefix);
    let mut at: usize = 0;
    assert(s@.skip(0) == s@);
    while head.len() > 0 && has_at(&chars, at, &head)
        invariant
            chars@ == s@,
            head@ == prefix@,
            at <= chars.len(),
            after_prefixes(s@.skip(at as int), prefix@) == after_prefixes(s@, prefix@),
        decreases s@.len() - at,
    {
        assert(s@.skip(at as int).skip(prefix@.len() as int) == s@.skip(at + prefix@.len()));
        at += head.len();
    }
    let rest = slice_text(&chars, at, chars.len());
    assert(rest@ == s@.skip(at as int));
    rest
}

/// What is left once every trailing copy of a character is gone.
pub open spec fn before_trailing(s: Seq<char>, c: char) -> Seq<char>
    decreases s.len(),
{
    if s.len() > 0 && s.last() == c {
        before_trailing(s.drop_last(), c)
    } else {
        s
    }
}

/// What is left once every trailing copy of a character is gone.
pub fn without_trailing(s: &str, c: char) -> (rest: String)
    ensures
        rest@ == before_trailing(s@, c),
{
    let chars = chars_of(s);
    let mut end: usize = chars.len();
    assert(s@.take(end as int) == s@);
    while end > 0 && chars[end - 1] == c
        invariant
            chars@ == s@,
            end <= s@.len(),
            before_trailing(s@.take(end as int), c) == before_trailing(s@, c),
        decreases end,
    {
        assert(s@.take(end as int).drop_last() == s@.take(end - 1));
        end -= 1;
    }
    let rest = slice_text(&chars, 0, end);
    assert(rest@ == s@.take(end as int));
    rest
}

/// An ASCII capital becomes the small letter; anything else is kept.
pub open spec fn ascii_lower(c: char) -> char {
    if 'A' <= c && c <= 'Z' {
        (c as u32 + 32) as char
    } else {
        c
    }
}

/// A string with its ASCII capitals made small.
pub fn lower_text(s: &str) -> (lower: String)
    ensures
        lower@ == s@.map_values(|c: char| ascii_lower(c)),
{
    let chars = chars_of(s);
    let mut lower = String::new();
    let mut i: usize = 0;
    while i < chars.len()
        invariant
            chars@ == s@,
            i <= s@.len(),
            lower@ == s@.take(i as int).map_values(|c: char| ascii_lower(c)),
        decreases s@.len() - i,
    {
        let c = chars[i];
        let ghost before = lower@;
        if 'A' <= c && c <= 'Z' {
            let code: u8 = (c as u32) as u8 + 32;
            lower.push(code as char);
        } else {
            lower.push(c);
        }
        assert(lower@ == before.push(ascii_lower(c)));
        assert(s@.take(i + 1).map_values(|c: char| ascii_lower(c)) == before.push(ascii_lower(c)));
        i += 1;
    }
    assert(s@.take(i as int) == s@);
    lower
}

// ---------------------------------------------------------------------------
// White space, lines, and words
// ---------------------------------------------------------------------------

/// The characters with the Unicode property `White_Space`.
pub open spec fn is_space(c: char) -> bool {
    ||| '\u{9}' <= c && c <= '\u{d}'
    ||| c == '\u{20}'
    ||| c == '\u{85}'
    ||| c == '\u{a0}'
    ||| c == '\u{1680}'
    ||| '\u{2000}' <= c && c <= '\u{200a}'
    ||| c == '\u{2028}'
    ||| c == '\u{2029}'
    ||| c == '\u{202f}'
    ||| c == '\u{205f}'
    ||| c == '\u{3000}'
}

/// Whether a character is white space.
pub fn is_white_space(c: char) -> (yes: bool)
    ensures
        yes == is_space(c),
{
    ('\u{9}' <= c && c <= '\u{d}') || c == '\u{20}' || c == '\u{85}' || c == '\u{a0}' || c
        == '\u{1680}' || ('\u{2000}' <= c && c <= '\u{200a}') || c == '\u{2028}' || c == '\u{2029}'
        || c == '\u{202f}' || c == '\u{205f}' || c == '\u{3000}'
}

/// A string without its trailing white space.
pub open spec fn trimmed_end(s: Seq<char>) -> Seq<char>
    decreases s.len(),
{
    if s.len() > 0 && is_space(s.last()) {
        trimmed_end(s.drop_last())
    } else {
        s
    }
}

/// A string without its leading white space.
pub open spec fn trimmed_start(s: Seq<char>) -> Seq<char>
    decreases s.len(),
{
    if s.len() > 0 && is_space(s[0]) {
        trimmed_start(s.drop_first())
    } else {
        s
    }
}

/// A string without the white space on either side.
pub open spec fn trimmed(s: Seq<char>) -> Seq<char> {
    trimmed_end(trimmed_start(s))
}

/// Where the characters `from..to` end once trailing white space is gone.
fn end_before_space(chars: &Vec<char>, from: usize, to: usize) -> (end: usize)
    requires
        from <= to <= chars@.len(),
    ensures
        from <= end <= to,
        chars@.subrange(from as int, end as int) == trimmed_end(
            chars@.subrange(from as int, to as int),
        ),
{
    let mut end: usize = to;
    while end > from && is_white_space(chars[end - 1])
        invariant
            from <= end <= to <= chars@.len(),
            trimmed_end(chars@.subrange(from as int, end as int)) == trimmed_end(
                chars@.subrange(from as int, to as int),
            ),
        decreases end,
    {
        assert(chars@.subrange(from as int, end as int).drop_last() == chars@.subrange(
            from as int,
            end - 1,
        ));
        end -= 1;
    }
    end
}

/// A string without the white space on either side.
pub fn trim_text(s: &str) -> (inner: String)
    ensures
        inner@ == trimmed(s@),
{
    let chars = chars_of(s);
    let len: usize = chars.len();
    let mut from: usize = 0;
    assert(s@.subrange(0, len as int) == s@);
    while from < len && is_white_space(chars[from])
        invariant
            chars@ == s@,
            from <= len == s@.len(),
            trimmed_start(s@.subrange(from as int, len as int)) == trimmed_start(s@),
        decreases len - from,
    {
        assert(s@.subrange(from as int, len as int).drop_first() == s@.subrange(
            from + 1,
            len as int,
        ));
        from += 1;
    }
    let end: usize = end_before_space(&chars, from, len);
    slice_text(&chars, from, end)
}

/// How many leading characters come before the first line break.
pub open spec fn line_len(s: Seq<char>) -> nat
    decreases s.len(),
{
    if s.len() == 0 || s[0] == '\n' {
        0
    } else {
        1 + line_len(s.drop_first())
    }
}

/// How many leading characters come before the first white space.
pub open spec fn word_len(s: Seq<char>) -> nat
    decreases s.len(),
{
    if s.len() == 0 || is_space(s[0]) {
        0
    } else {
        1 + word_len(s.drop_first())
    }
}

proof fn lemma_line_len(s: Seq<char>)
    ensures
        line_len(s) <= s.len(),
        line_len(s) < s.len() ==> s[line_len(s) as int] == '\n',
        forall|i: int| 0 <= i < line_len(s) ==> s[i] != '\n',
    decreases s.len(),
{
    if s.len() > 0 && s[0] != '\n' {
        let t = s.drop_first();
        lemma_line_len(t);
        assert forall|i: int| 0 <= i < line_len(s) implies s[i] != '\n' by {
            if i > 0 {
                assert(t[i - 1] == s[i]);
            }
        }
    }
}

/// A first word reaches up to the first white space, or to the end.
pub proof fn lemma_word_len(s: Seq<char>)
    ensures
        word_len(s) <= s.len(),
        word_len(s) < s.len() ==> is_space(s[word_len(s) as int]),
        forall|i: int| 0 <= i < word_len(s) ==> !is_space(#[trigger] s[i]),
    decreases s.len(),
{
    if s.len() > 0 && !is_space(s[0]) {
        let t = s.drop_first();
        lemma_word_len(t);
        assert forall|i: int| 0 <= i < word_len(s) implies !is_space(#[trigger] s[i]) by {
            if i > 0 {
                assert(t[i - 1] == s[i]);
            }
        }
    }
}

/// The pieces between the line breaks of a text.
pub open spec fn pieces(s: Seq<char>) -> Seq<Seq<char>>
    decreases s.len(),
{
    let n = line_len(s);
    if n >= s.len() {
        seq![s]
    } else {
        seq![s.take(n as int)] + pieces(s.skip(n as int + 1))
    }
}

/// A list without its trailing empty entries.
pub open spec fn without_trailing_empty(list: Seq<Seq<char>>) -> Seq<Seq<char>>
    decreases list.len(),
{
    if list.len() > 0 && list.last().len() == 0 {
        without_trailing_empty(list.drop_last())
    } else {
        list
    }
}

/// The lines of a text, each without its trailing white space, and without the
/// blank lines at the end.
pub open spec fn normalised_lines(s: Seq<char>) -> Seq<Seq<char>> {
    without_trailing_empty(pieces(s).map_values(|piece: Seq<char>| trimmed_end(piece)))
}

/// The words of a text: its maximal runs without white space.
pub open spec fn words(s: Seq<char>) -> Seq<Seq<char>>
    decreases s.len(),
{
    if s.len() == 0 {
        seq![]
    } else if is_space(s[0]) {
        words(s.drop_first())
    } else {
        proof {
            lemma_word_len(s);
        }
        seq![s.take(word_len(s) as int)] + words(s.skip(word_len(s) as int))
    }
}

/// Split a text into its words.
pub fn split_words(s: &str) -> (list: Vec<String>)
    ensures
        texts(list@) == words(s@),
{
    let chars = chars_of(s);
    let mut list: Vec<String> = Vec::new();
    let mut at: usize = 0;
    assert(s@.skip(0) == s@);
    assert(texts(list@) + words(s@) == words(s@));
    while at < chars.len()
        invariant
            chars@ == s@,
            at <= s@.len(),
            texts(list@) + words(s@.skip(at as int)) == words(s@),
        decreases s@.len() - at,
    {
        let ghost rest = s@.skip(at as int);
        if is_white_space(chars[at]) {
            assert(rest.drop_first() == s@.skip(at + 1));
            at += 1;
        } else {
            let start: usize = at;
            while at < chars.len() && !is_white_space(chars[at])
                invariant
                    chars@ == s@,
                    start <= at <= s@.len(),
                    rest == s@.skip(start as int),
                    word_len(rest) == at - start + word_len(s@.skip(at as int)),
                decreases s@.len() - at,
            {
                assert(s@.skip(at as int).drop_first() == s@.skip(at + 1));
                at += 1;
            }
            let word = slice_text(&chars, start, at);
            assert(word_len(s@.skip(at as int)) == 0);
            assert(word_len(rest) == at - start);
            assert(rest.take(at - start) == word@);
            assert(rest.skip(at - start) == s@.skip(at as int));
            let ghost before = list@;
            list.push(word);
            assert(texts(list@) == texts(before).push(word@));
            assert(texts(list@) + words(s@.skip(at as int)) == texts(before) + words(rest));
        }
    }
    assert(words(s@.skip(at as int)) == Seq::<Seq<char>>::empty());
    assert(texts(list@) + words(s@.skip(at as int)) == texts(list@));
    list
}

/// Split a text into its lines, each without its trailing white space, and
/// without the blank lines at the end.
pub fn split_lines(s: &str) -> (list: Vec<String>)
    ensures
        texts(list@) == normalised_lines(s@),
{
    let chars = chars_of(s);
    let len: usize = chars.len();
    let mut list: Vec<String> = Vec::new();
    let mut start: usize = 0;
    let mut done = false;
    let ghost all = pieces(s@).map_values(|piece: Seq<char>| trimmed_end(piece));
    assert(s@.skip(0) == s@);
    assert(texts(list@) + all == all);
    while !done
        invariant
            chars@ == s@,
            start <= len == s@.len(),
            all == pieces(s@).map_values(|piece: Seq<char>| trimmed_end(piece)),
            !done ==> texts(list@) + pieces(s@.skip(start as int)).map_values(
                |piece: Seq<char>| trimmed_end(piece),
            ) == all,
            done ==> texts(list@) == all,
        decreases len - start + if done { 0int } else { 1int },
    {
        let ghost rest = s@.skip(start as int);
        let mut at: usize = start;
        assert(s@.skip(at as int) == rest);
        while at < len && chars[at] != '\n'
            invariant
                chars@ == s@,
                start <= at <= len == s@.len(),
                rest == s@.skip(start as int),
                line_len(rest) == at - start + line_len(s@.skip(at as int)),
            decreases len - at,
        {
            assert(s@.skip(at as int).drop_first() == s@.skip(at + 1));
            at += 1;
        }
        assert(line_len(s@.skip(at as int)) == 0);
        let end: usize = end_before_space(&chars, start, at);
        let line = slice_text(&chars, start, end);
        assert(s@.subrange(start as int, at as int) == rest.take(at - start));
        let ghost before = list@;
        list.push(line);
        assert(texts(list@) == texts(before).push(line@));
        if at == len {
            assert(rest.take(at - start) == rest);
            assert(texts(list@) == texts(before) + pieces(rest).map_values(
                |piece: Seq<char>| trimmed_end(piece),
            ));
            done = true;
        } else {
            assert(rest.skip(at - start + 1) == s@.skip(at + 1));
            let ghost tail = pieces(s@.skip(at + 1)).map_values(
                |piece: Seq<char>| trimmed_end(piece),
            );
            assert(pieces(rest).map_values(|piece: Seq<char>| trimmed_end(piece)) == seq![line@]
                + tail);
            assert(texts(list@) + tail == texts(before) + (seq![line@] + tail));
            start = at + 1;
        }
    }
    assert(without_trailing_empty(texts(list@)) == normalised_lines(s@));
    while list.len() > 0 && list[list.len() - 1].as_str().is_empty()
        invariant
            without_trailing_empty(texts(list@)) == normalised_lines(s@),
        decreases list@.len(),
    {
        let ghost before = list@;
        list.pop();
        assert(texts(list@) == texts(before).drop_last());
    }
    list
}

// ---------------------------------------------------------------------------
// What lines and words have to do with each other
// ---------------------------------------------------------------------------

proof fn lemma_word_len_before_space(a: Seq<char>, c: char, b: Seq<char>)
    requires
        is_space(c),
    ensures
        word_len(a + seq![c] + b) == word_len(a),
    decreases a.len(),
{
    let s = a + seq![c] + b;
    if a.len() == 0 {
        assert(s[0] == c);
    } else {
        assert(s[0] == a[0]);
        if !is_space(a[0]) {
            lemma_word_len_before_space(a.drop_first(), c, b);
            assert(s.drop_first() == a.drop_first() + seq![c] + b);
        }
    }
}

/// White space between two texts separates their words.
pub proof fn words_around_space(a: Seq<char>, c: char, b: Seq<char>)
    requires
        is_space(c),
    ensures
        words(a + seq![c] + b) == words(a) + words(b),
    decreases a.len(),
{
    let s = a + seq![c] + b;
    if a.len() == 0 {
        assert(s[0] == c);
        assert(s.drop_first() == b);
        assert(words(a) + words(b) == words(b));
    } else {
        assert(s[0] == a[0]);
        if is_space(a[0]) {
            words_around_space(a.drop_first(), c, b);
            assert(s.drop_first() == a.drop_first() + seq![c] + b);
        } else {
            let n = word_len(a) as int;
            lemma_word_len(a);
            lemma_word_len_before_space(a, c, b);
            words_around_space(a.skip(n), c, b);
            assert(s.take(n) == a.take(n));
            assert(s.skip(n) == a.skip(n) + seq![c] + b);
            assert(words(s) == seq![a.take(n)] + (words(a.skip(n)) + words(b)));
            assert(words(a) + words(b) == seq![a.take(n)] + words(a.skip(n)) + words(b));
        }
    }
}

proof fn lemma_words_trimmed(s: Seq<char>)
    ensures
        words(trimmed_end(s)) == words(s),
    decreases s.len(),
{
    if s.len() > 0 && is_space(s.last()) {
        let init = s.drop_last();
        words_around_space(init, s.last(), Seq::empty());
        assert(init + seq![s.last()] + Seq::empty() == s);
        assert(words(Seq::<char>::empty()) == Seq::<Seq<char>>::empty());
        assert(words(init) + Seq::<Seq<char>>::empty() == words(init));
        lemma_words_trimmed(init);
    }
}

/// The words of a list of texts, one after another.
pub open spec fn words_of(list: Seq<Seq<char>>) -> Seq<Seq<char>>
    decreases list.len(),
{
    if list.len() == 0 {
        seq![]
    } else {
        words_of(list.drop_last()) + words(list.last())
    }
}

proof fn lemma_words_of_cons(first: Seq<char>, list: Seq<Seq<char>>)
    ensures
        words_of(seq![first] + list) == words(first) + words_of(list),
    decreases list.len(),
{
    let all = seq![first] + list;
    if list.len() == 0 {
        assert(all.drop_last() == Seq::<Seq<char>>::empty());
        assert(all.last() == first);
        assert(words_of(all.drop_last()) == Seq::<Seq<char>>::empty());
        assert(words_of(all) == words(first) + words_of(list));
    } else {
        lemma_words_of_cons(first, list.drop_last());
        assert(all.drop_last() == seq![first] + list.drop_last());
        assert(words_of(all) == words(first) + words_of(list.drop_last()) + words(list.last()));
        assert(words_of(all) == words(first) + (words_of(list.drop_last()) + words(list.last())));
    }
}

proof fn lemma_words_of_pieces(s: Seq<char>)
    ensures
        words_of(pieces(s)) == words(s),
    decreases s.len(),
{
    let n = line_len(s) as int;
    lemma_line_len(s);
    if n >= s.len() {
        lemma_words_of_cons(s, Seq::empty());
        assert(seq![s] + Seq::<Seq<char>>::empty() == seq![s]);
        assert(words(s) + words_of(Seq::empty()) == words(s));
    } else {
        let rest = s.skip(n + 1);
        lemma_words_of_pieces(rest);
        lemma_words_of_cons(s.take(n), pieces(rest));
        words_around_space(s.take(n), '\n', rest);
        assert(s.take(n) + seq!['\n'] + rest == s);
    }
}

proof fn lemma_words_of_trimmed(list: Seq<Seq<char>>)
    ensures
        words_of(list.map_values(|piece: Seq<char>| trimmed_end(piece))) == words_of(list),
    decreases list.len(),
{
    let mapped = list.map_values(|piece: Seq<char>| trimmed_end(piece));
    if list.len() > 0 {
        lemma_words_of_trimmed(list.drop_last());
        lemma_words_trimmed(list.last());
        assert(mapped.drop_last() == list.drop_last().map_values(
            |piece: Seq<char>| trimmed_end(piece),
        ));
    }
}

proof fn lemma_words_of_without_empty(list: Seq<Seq<char>>)
    ensures
        words_of(without_trailing_empty(list)) == words_of(list),
    decreases list.len(),
{
    if list.len() > 0 && list.last().len() == 0 {
        lemma_words_of_without_empty(list.drop_last());
        assert(words(list.last()) == Seq::<Seq<char>>::empty());
        assert(words_of(list) == words_of(list.drop_last()));
    }
}

/// The normalised lines of a text hold all its words.
pub proof fn words_of_normalised_lines(s: Seq<char>)
    ensures
        words_of(normalised_lines(s)) == words(s),
{
    lemma_words_of_pieces(s);
    lemma_words_of_trimmed(pieces(s));
    lemma_words_of_without_empty(pieces(s).map_values(|piece: Seq<char>| trimmed_end(piece)));
}

proof fn lemma_line_len_exact(s: Seq<char>, n: int)
    requires
        0 <= n <= s.len(),
        forall|i: int| 0 <= i < n ==> s[i] != '\n',
        n == s.len() || s[n] == '\n',
    ensures
        line_len(s) == n,
{
    lemma_line_len(s);
}

/// A line break at the very end changes no line.
pub proof fn trailing_newline_adds_no_line(s: Seq<char>)
    ensures
        normalised_lines(s.push('\n')) == normalised_lines(s),
{
    lemma_pieces_newline(s);
    let f = |piece: Seq<char>| trimmed_end(piece);
    let longer = pieces(s).push(Seq::<char>::empty()).map_values(f);
    assert(longer == pieces(s).map_values(f).push(Seq::<char>::empty()));
    assert(longer.drop_last() == pieces(s).map_values(f));
    assert(without_trailing_empty(longer) == without_trailing_empty(pieces(s).map_values(f)));
}

proof fn lemma_pieces_newline(s: Seq<char>)
    ensures
        pieces(s.push('\n')) == pieces(s).push(Seq::<char>::empty()),
    decreases s.len(),
{
    let t = s.push('\n');
    let n = line_len(s) as int;
    lemma_line_len(s);
    lemma_line_len_exact(t, n);
    let rest = t.skip(n + 1);
    assert(t.take(n) == s.take(n));
    if n >= s.len() {
        assert(s.take(n) == s);
        assert(rest == Seq::<char>::empty());
        lemma_line_len(rest);
        assert(pieces(rest) == seq![rest]);
        assert(pieces(t) == seq![s] + seq![rest]);
    } else {
        lemma_pieces_newline(s.skip(n + 1));
        assert(rest == s.skip(n + 1).push('\n'));
        assert(pieces(t) == seq![s.take(n)] + pieces(s.skip(n + 1)).push(Seq::<char>::empty()));
    }
}

proof fn lemma_pieces_space(a: Seq<char>, c: char, b: Seq<char>)
    requires
        is_space(c),
        c != '\n',
        b.len() == 0 || b[0] == '\n',
    ensures
        pieces(a + seq![c] + b).map_values(|piece: Seq<char>| trimmed_end(piece)) == pieces(
            a + b,
        ).map_values(|piece: Seq<char>| trimmed_end(piece)),
    decreases a.len(),
{
    let f = |piece: Seq<char>| trimmed_end(piece);
    let with = a + seq![c] + b;
    let without = a + b;
    let n = line_len(a) as int;
    lemma_line_len(a);
    if n < a.len() {
        lemma_line_len_exact(with, n);
        lemma_line_len_exact(without, n);
        let rest = a.skip(n + 1);
        lemma_pieces_space(rest, c, b);
        assert(with.skip(n + 1) == rest + seq![c] + b);
        assert(without.skip(n + 1) == rest + b);
        assert(with.take(n) == a.take(n) && without.take(n) == a.take(n));
        assert(pieces(with).map_values(f) == seq![f(a.take(n))] + pieces(
            rest + seq![c] + b,
        ).map_values(f));
        assert(pieces(without).map_values(f) == seq![f(a.take(n))] + pieces(rest + b).map_values(f));
    } else {
        lemma_line_len_exact(with, n + 1);
        lemma_line_len_exact(without, n);
        assert((a.push(c)).drop_last() == a);
        assert(f(a.push(c)) == f(a));
        if b.len() == 0 {
            assert(with == a.push(c));
            assert(without == a);
            assert(pieces(with).map_values(f) == seq![f(a.push(c))]);
            assert(pieces(without).map_values(f) == seq![f(a)]);
        } else {
            assert(with.take(n + 1) == a.push(c));
            assert(without.take(n) == a);
            assert(with.skip(n + 2) == b.skip(1));
            assert(without.skip(n + 1) == b.skip(1));
            assert(pieces(with).map_values(f) == seq![f(a.push(c))] + pieces(b.skip(1)).map_values(f));
            assert(pieces(without).map_values(f) == seq![f(a)] + pieces(b.skip(1)).map_values(f));
        }
    }
}

/// White space before a line break, or at the very end, changes no line.
pub proof fn trailing_space_changes_no_line(a: Seq<char>, c: char, b: Seq<char>)
    requires
        is_space(c),
        c != '\n',
        b.len() == 0 || b[0] == '\n',
    ensures
        normalised_lines(a + seq![c] + b) == normalised_lines(a + b),
{
    lemma_pieces_space(a, c, b);
}

// ---------------------------------------------------------------------------
// What strings are made of
// ---------------------------------------------------------------------------

/// White space is what Unicode calls so, by the numbers of the characters.
pub proof fn white_space_by_number(c: char)
    ensures
        is_space(c) <==> ({
            let n = c as int;
            ||| 9 <= n <= 13
            ||| 0x2000 <= n <= 0x200a
            ||| seq![0x20int, 0x85, 0xa0, 0x1680, 0x2028, 0x2029, 0x202f, 0x205f, 0x3000].contains(n)
        }),
{
    let others = seq![0x20int, 0x85, 0xa0, 0x1680, 0x2028, 0x2029, 0x202f, 0x205f, 0x3000];
    assert(others[0] == 0x20 && others[1] == 0x85 && others[2] == 0xa0 && others[3] == 0x1680
        && others[4] == 0x2028 && others[5] == 0x2029 && others[6] == 0x202f && others[7] == 0x205f
        && others[8] == 0x3000);
}

/// Some texts, one behind another.
pub open spec fn run_together(list: Seq<Seq<char>>) -> Seq<char>
    decreases list.len(),
{
    if list.len() == 0 {
        Seq::empty()
    } else {
        list[0] + run_together(list.drop_first())
    }
}

/// A text without any of its white space.
pub open spec fn without_spaces(s: Seq<char>) -> Seq<char>
    decreases s.len(),
{
    if s.len() == 0 {
        Seq::empty()
    } else if is_space(s[0]) {
        without_spaces(s.drop_first())
    } else {
        seq![s[0]] + without_spaces(s.drop_first())
    }
}

proof fn lemma_without_spaces_skip(s: Seq<char>, n: int)
    requires
        0 <= n <= s.len(),
        forall|i: int| 0 <= i < n ==> !is_space(#[trigger] s[i]),
    ensures
        without_spaces(s) == s.take(n) + without_spaces(s.skip(n)),
    decreases n,
{
    if n == 0 {
        assert(s.take(0) == Seq::<char>::empty());
        assert(s.skip(0) == s);
    } else {
        let t = s.drop_first();
        assert forall|i: int| 0 <= i < n - 1 implies !is_space(#[trigger] t[i]) by {
            assert(t[i] == s[i + 1]);
        }
        assert(!is_space(s[0]));
        lemma_without_spaces_skip(t, n - 1);
        assert(t.skip(n - 1) == s.skip(n));
        assert(seq![s[0]] + t.take(n - 1) == s.take(n));
    }
}

/// The words of a text are what is left of it between its white space: none is
/// empty or has white space in it, one behind another they are the text without
/// its white space, and a text without any is a single word.
pub proof fn words_are_what_is_between_spaces(s: Seq<char>)
    ensures
        forall|i: int| 0 <= i < words(s).len() ==> (#[trigger] words(s)[i]).len() > 0,
        forall|i: int, j: int|
            0 <= i < words(s).len() && 0 <= j < words(s)[i].len() ==> !is_space(
                #[trigger] words(s)[i][j],
            ),
        run_together(words(s)) == without_spaces(s),
        s.len() > 0 && (forall|i: int| 0 <= i < s.len() ==> !is_space(#[trigger] s[i])) ==> words(s)
            == seq![s],
    decreases s.len(),
{
    if s.len() == 0 {
    } else if is_space(s[0]) {
        words_are_what_is_between_spaces(s.drop_first());
    } else {
        lemma_word_len(s);
        let n = word_len(s) as int;
        let first = s.take(n);
        let rest = words(s.skip(n));
        words_are_what_is_between_spaces(s.skip(n));
        assert(words(s) == seq![first] + rest);
        assert forall|i: int| 0 <= i < words(s).len() implies (#[trigger] words(s)[i]).len() > 0 by {
            if i > 0 {
                assert(words(s)[i] == rest[i - 1]);
            }
        }
        assert forall|i: int, j: int|
            0 <= i < words(s).len() && 0 <= j < words(s)[i].len() implies !is_space(
            #[trigger] words(s)[i][j],
        ) by {
            if i > 0 {
                assert(words(s)[i] == rest[i - 1]);
                assert(!is_space(rest[i - 1][j]));
            } else {
                assert(words(s)[0] == first);
                assert(first[j] == s[j]);
            }
        }
        assert(words(s).drop_first() == rest);
        lemma_without_spaces_skip(s, n);
        if forall|i: int| 0 <= i < s.len() ==> !is_space(#[trigger] s[i]) {
            assert(n == s.len()) by {
                if n < s.len() {
                    assert(is_space(s[n]));
                }
            }
            assert(first == s);
            assert(rest == Seq::<Seq<char>>::empty());
            assert(words(s) == seq![s]);
        }
    }
}

/// Whether a text is nothing but white space.
pub open spec fn blank(s: Seq<char>) -> bool {
    forall|i: int| 0 <= i < s.len() ==> is_space(#[trigger] s[i])
}

/// Trimming takes white space away from the ends of a text, all of it, and
/// nothing else.
pub proof fn trimming_takes_white_space_alone(s: Seq<char>)
    ensures
        ({
            let kept = trimmed_end(s);
            &&& kept.len() <= s.len()
            &&& s.take(kept.len() as int) == kept
            &&& blank(s.skip(kept.len() as int))
            &&& kept.len() > 0 ==> !is_space(kept.last())
        }),
        exists|before: int|
            {
                let kept = trimmed(s);
                &&& 0 <= before
                &&& before + kept.len() <= s.len()
                &&& blank(#[trigger] s.take(before))
                &&& s.subrange(before, before + kept.len()) == kept
                &&& blank(s.skip(before + kept.len()))
            },
        trimmed(s).len() > 0 ==> !is_space(trimmed(s)[0]) && !is_space(trimmed(s).last()),
{
    lemma_trimmed_end(s);
    let from = lemma_trimmed_start(s);
    let inner = trimmed_start(s);
    lemma_trimmed_end(inner);
    let kept = trimmed(s);
    assert(s.subrange(from, from + kept.len()) == inner.take(kept.len() as int));
    assert(s.skip(from + kept.len()) == inner.skip(kept.len() as int));
    assert(blank(s.take(from)));
    if kept.len() > 0 {
        assert(kept[0] == inner[0]);
    }
}

proof fn lemma_trimmed_end(s: Seq<char>)
    ensures
        trimmed_end(s).len() <= s.len(),
        s.take(trimmed_end(s).len() as int) == trimmed_end(s),
        blank(s.skip(trimmed_end(s).len() as int)),
        trimmed_end(s).len() > 0 ==> !is_space(trimmed_end(s).last()),
    decreases s.len(),
{
    let kept = trimmed_end(s);
    if s.len() > 0 && is_space(s.last()) {
        let init = s.drop_last();
        lemma_trimmed_end(init);
        assert(s.take(kept.len() as int) == init.take(kept.len() as int));
        assert forall|i: int| 0 <= i < s.skip(kept.len() as int).len() implies is_space(
            #[trigger] s.skip(kept.len() as int)[i],
        ) by {
            let rest = init.skip(kept.len() as int);
            if i < rest.len() {
                assert(rest[i] == s.skip(kept.len() as int)[i]);
            }
        }
    } else {
        assert(s.take(s.len() as int) == s);
    }
}

proof fn lemma_trimmed_start(s: Seq<char>) -> (from: int)
    ensures
        0 <= from <= s.len(),
        trimmed_start(s) == s.skip(from),
        blank(s.take(from)),
        trimmed_start(s).len() > 0 ==> !is_space(trimmed_start(s)[0]),
    decreases s.len(),
{
    if s.len() > 0 && is_space(s[0]) {
        let n = lemma_trimmed_start(s.drop_first());
        assert(s.drop_first().skip(n) == s.skip(n + 1));
        assert forall|i: int| 0 <= i < s.take(n + 1).len() implies is_space(
            #[trigger] s.take(n + 1)[i],
        ) by {
            if i > 0 {
                assert(s.drop_first().take(n)[i - 1] == s.take(n + 1)[i]);
            }
        }
        n + 1
    } else {
        assert(s.skip(0) == s);
        0
    }
}

/// Some texts, with a line break between each two.
pub open spec fn joined_by_breaks(list: Seq<Seq<char>>) -> Seq<char>
    decreases list.len(),
{
    if list.len() == 0 {
        Seq::empty()
    } else if list.len() == 1 {
        list[0]
    } else {
        list[0] + seq!['\n'] + joined_by_breaks(list.drop_first())
    }
}

/// The pieces of a text have no line break in them, and with one between each
/// two they are the text again.
pub proof fn pieces_are_what_is_between_breaks(s: Seq<char>)
    ensures
        pieces(s).len() > 0,
        joined_by_breaks(pieces(s)) == s,
        forall|i: int, j: int|
            0 <= i < pieces(s).len() && 0 <= j < pieces(s)[i].len() ==> #[trigger] pieces(s)[i][j]
                != '\n',
    decreases s.len(),
{
    lemma_line_len(s);
    let n = line_len(s) as int;
    if n >= s.len() {
        assert(pieces(s) == seq![s]);
        assert forall|i: int, j: int|
            0 <= i < pieces(s).len() && 0 <= j < pieces(s)[i].len() implies #[trigger] pieces(
            s,
        )[i][j] != '\n' by {
            assert(pieces(s)[i][j] == s[j]);
        }
    } else {
        let first = s.take(n);
        let rest = pieces(s.skip(n + 1));
        pieces_are_what_is_between_breaks(s.skip(n + 1));
        assert(pieces(s) == seq![first] + rest);
        assert(pieces(s).drop_first() == rest);
        assert(first + seq!['\n'] + s.skip(n + 1) == s);
        assert forall|i: int, j: int|
            0 <= i < pieces(s).len() && 0 <= j < pieces(s)[i].len() implies #[trigger] pieces(
            s,
        )[i][j] != '\n' by {
            if i > 0 {
                assert(pieces(s)[i] == rest[i - 1]);
                assert(rest[i - 1][j] != '\n');
            } else {
                assert(pieces(s)[0] == first);
                assert(first[j] == s[j]);
            }
        }
    }
}

proof fn lemma_without_trailing_empty(list: Seq<Seq<char>>)
    ensures
        without_trailing_empty(list).len() <= list.len(),
        without_trailing_empty(list) == list.take(without_trailing_empty(list).len() as int),
        forall|i: int|
            without_trailing_empty(list).len() <= i < list.len() ==> (#[trigger] list[i]).len() == 0,
        without_trailing_empty(list).len() > 0 ==> without_trailing_empty(list).last().len() > 0,
    decreases list.len(),
{
    let kept = without_trailing_empty(list);
    if list.len() > 0 && list.last().len() == 0 {
        let init = list.drop_last();
        lemma_without_trailing_empty(init);
        assert(list.take(kept.len() as int) == init.take(kept.len() as int));
        assert forall|i: int| kept.len() <= i < list.len() implies (#[trigger] list[i]).len() == 0 by {
            if i < init.len() {
                assert(init[i] == list[i]);
            }
        }
    } else {
        assert(list.take(list.len() as int) == list);
    }
}

/// The lines that are compared are those of the text, in their order and each
/// where it stands, less the white space at their ends and less the blank ones at
/// the end of the text; nothing else of the text is left out.
pub proof fn normalised_lines_are_the_lines_of_the_text(s: Seq<char>)
    ensures
        ({
            let all = pieces(s);
            let kept = normalised_lines(s);
            &&& kept.len() <= all.len()
            &&& forall|i: int|
                0 <= i < kept.len() ==> {
                    let line = #[trigger] kept[i];
                    &&& line.len() <= all[i].len()
                    &&& all[i].take(line.len() as int) == line
                    &&& blank(all[i].skip(line.len() as int))
                    &&& line.len() > 0 ==> !is_space(line.last())
                }
            &&& forall|i: int| kept.len() <= i < all.len() ==> blank(#[trigger] all[i])
            &&& kept.len() > 0 ==> kept.last().len() > 0
        }),
{
    let all = pieces(s);
    let f = |piece: Seq<char>| trimmed_end(piece);
    let lines = all.map_values(f);
    let kept = normalised_lines(s);
    lemma_without_trailing_empty(lines);
    assert forall|i: int| 0 <= i < kept.len() implies {
        let line = #[trigger] kept[i];
        &&& line.len() <= all[i].len()
        &&& all[i].take(line.len() as int) == line
        &&& blank(all[i].skip(line.len() as int))
        &&& line.len() > 0 ==> !is_space(line.last())
    } by {
        assert(kept[i] == lines[i]);
        lemma_trimmed_end(all[i]);
    }
    assert forall|i: int| kept.len() <= i < all.len() implies blank(#[trigger] all[i]) by {
        assert(lines[i].len() == 0);
        lemma_trimmed_end(all[i]);
        assert(all[i].skip(0) == all[i]);
    }
}

/// A number with one more digit is written as the number with that digit behind
/// it, and a single digit as itself: no sign, no leading zero, base ten.
pub proof fn decimals_grow_by_a_digit(n: nat, digit: nat)
    requires
        digit < 10,
    ensures
        dec(digit).len() == 1,
        dec(digit)[0] as int == '0' as int + digit,
        n > 0 ==> dec(10 * n + digit) == dec(n) + dec(digit),
        dec(n).len() > 1 ==> dec(n)[0] != '0',
        dec_int(n as int) == dec(n),
        n > 0 ==> dec_int(-(n as int)) == seq!['-'] + dec(n),
{
    lemma_no_leading_zero(n);
    if n > 0 {
        assert((10 * n + digit) / 10 == n);
        assert((10 * n + digit) % 10 == digit);
        assert(dec(n).push(digit_char(digit)) == dec(n) + dec(digit));
    }
}

proof fn lemma_no_leading_zero(n: nat)
    ensures
        dec(n).len() > 0,
        n > 0 ==> dec(n)[0] != '0',
        n == 0 ==> dec(n).len() == 1,
    decreases n,
{
    if n >= 10 {
        lemma_no_leading_zero(n / 10);
        assert(dec(n)[0] == dec(n / 10)[0]);
    }
}

/// A text reads as an `i32` exactly where it is one or more digits, with at most
/// one sign before them, and the number fits.
pub proof fn only_numbers_read_as_numbers(s: Seq<char>)
    ensures
        all_digits(s) && s.len() > 0 && nat_value(s) <= i32::MAX ==> i32_value(s) == Some(
            nat_value(s) as int,
        ),
        all_digits(s) && s.len() > 0 && nat_value(s) <= i32::MAX ==> i32_value(seq!['+'] + s)
            == Some(nat_value(s) as int),
        all_digits(s) && s.len() > 0 && nat_value(s) <= i32::MAX + 1 ==> i32_value(seq!['-'] + s)
            == Some(-(nat_value(s) as int)),
        i32_value(s) matches Some(n) ==> i32::MIN <= n <= i32::MAX && s.len() > 0 && {
            ||| all_digits(s) && n == nat_value(s)
            ||| s[0] == '+' && all_digits(s.drop_first()) && n == nat_value(s.drop_first())
            ||| s[0] == '-' && all_digits(s.drop_first()) && n == -(nat_value(s.drop_first()) as int)
        },
{
    if s.len() > 0 && all_digits(s) {
        assert(is_digit(s[0]));
    }
    assert((seq!['+'] + s).drop_first() == s);
    assert((seq!['-'] + s).drop_first() == s);
}

/// Dictionary order: a text comes before every longer one that begins with it,
/// and of two that differ the one with the smaller character where they first
/// differ comes first.
pub proof fn the_first_difference_decides_the_order(
    shared: Seq<char>,
    a: char,
    rest_a: Seq<char>,
    b: char,
    rest_b: Seq<char>,
)
    ensures
        text_less(shared, shared + (seq![a] + rest_a)),
        !text_less(shared + (seq![a] + rest_a), shared),
        a != b ==> (text_less(shared + (seq![a] + rest_a), shared + (seq![b] + rest_b)) <==> a < b),
    decreases shared.len(),
{
    let x = shared + (seq![a] + rest_a);
    let y = shared + (seq![b] + rest_b);
    if shared.len() == 0 {
        assert(x[0] == a && y[0] == b);
    } else {
        let rest = shared.drop_first();
        the_first_difference_decides_the_order(rest, a, rest_a, b, rest_b);
        assert(x.drop_first() == rest + (seq![a] + rest_a));
        assert(y.drop_first() == rest + (seq![b] + rest_b));
        assert(x[0] == shared[0] && y[0] == shared[0]);
    }
}

/// A text begins with a prefix exactly where it is the prefix and then what is
/// left of it, and has a text in it exactly where something stands before and
/// something behind.
pub proof fn prefixes_and_occurrences(s: Seq<char>, part: Seq<char>, before: Seq<char>, behind: Seq<char>)
    ensures
        begins_with(s, part) <==> after_prefix(s, part) is Some,
        after_prefix(part + behind, part) == Some(behind),
        after_prefix(s, part) matches Some(rest) ==> s == part + rest,
        occurs_in(part, before + part + behind),
        occurs_in(part, s) ==> exists|i: int|
            0 <= i && i + part.len() <= s.len() && #[trigger] s.subrange(i, i + part.len()) == part,
{
    let whole = part + behind;
    assert(whole.take(part.len() as int) == part);
    assert(whole.skip(part.len() as int) == behind);
    if let Some(rest) = after_prefix(s, part) {
        assert(s.take(part.len() as int) + s.skip(part.len() as int) == s);
    }
    let hay = before + part + behind;
    assert(hay.skip(before.len() as int).take(part.len() as int) == part);
    assert(begins_with(hay.skip(before.len() as int), part));
    if occurs_in(part, s) {
        let i = choose|i: int| 0 <= i <= s.len() && begins_with(#[trigger] s.skip(i), part);
        assert(s.subrange(i, i + part.len()) == s.skip(i).take(part.len() as int));
    }
}

/// Taking every leading copy of a prefix away leaves a text that does not begin
/// with it, and one copy more or less in front makes no difference.
pub proof fn leading_copies_are_all_taken_away(s: Seq<char>, prefix: Seq<char>)
    requires
        prefix.len() > 0,
    ensures
        !begins_with(after_prefixes(s, prefix), prefix),
        after_prefixes(prefix + s, prefix) == after_prefixes(s, prefix),
        !begins_with(s, prefix) ==> after_prefixes(s, prefix) == s,
    decreases s.len(),
{
    assert((prefix + s).take(prefix.len() as int) == prefix);
    assert((prefix + s).skip(prefix.len() as int) == s);
    if begins_with(s, prefix) {
        leading_copies_are_all_taken_away(s.skip(prefix.len() as int), prefix);
    }
}

/// Taking every trailing copy of a character away leaves a text that does not end
/// with it, and one copy more or less at the end makes no difference.
pub proof fn trailing_copies_are_all_taken_away(s: Seq<char>, c: char)
    ensures
        before_trailing(s, c).len() > 0 ==> before_trailing(s, c).last() != c,
        before_trailing(s.push(c), c) == before_trailing(s, c),
        s.len() == 0 || s.last() != c ==> before_trailing(s, c) == s,
    decreases s.len(),
{
    assert(s.push(c).drop_last() == s);
    if s.len() > 0 && s.last() == c {
        trailing_copies_are_all_taken_away(s.drop_last(), c);
    }
}

/// Only the capitals of ASCII become small, each the letter of its own.
pub proof fn only_ascii_capitals_become_small(c: char)
    ensures
        'A' <= c && c <= 'Z' ==> 'a' <= ascii_lower(c) && ascii_lower(c) <= 'z' && ascii_lower(
            c,
        ) as int - 'a' as int == c as int - 'A' as int,
        !('A' <= c && c <= 'Z') ==> ascii_lower(c) == c,
{
}

/// A list of texts says what each of them says, in the same order.
pub proof fn lists_say_what_they_hold(list: Seq<String>)
    ensures
        texts(list).len() == list.len(),
        forall|i: int| 0 <= i < list.len() ==> #[trigger] texts(list)[i] == list[i]@,
{
}

} // verus!
