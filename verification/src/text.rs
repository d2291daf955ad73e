//! Text helpers: characters of a string, search, and decimal notation.

use vstd::prelude::*;
use vstd::string::{StrSliceExecFns, StringExecFns};
use vstd::std_specs::iter::IteratorSpec;

verus! {

/// The characters of a string, in order.
pub fn chars_of(s: &str) -> (out: Vec<char>)
    ensures
        out@ == s@,
{
    let mut out: Vec<char> = Vec::new();
    let mut it = s.chars();
    loop
        invariant
            out@ + it.remaining() == s@,
            it.decrease() is Some,
        decreases it.decrease()->0,
    {
        let ghost before = it.remaining();
        match it.next() {
            Some(c) => {
                out.push(c);
                assert(out@ + it.remaining() =~= s@);
            },
            None => {
                assert(out@ =~= s@);
                return out;
            },
        }
    }
}

/// Whether two strings hold the same characters.
pub fn str_eq(a: &str, b: &str) -> (same: bool)
    ensures
        same == (a@ == b@),
{
    let x = String::from_str(a);
    let y = String::from_str(b);
    x == y
}

/// Whether `needle` stands in `hay` at index `i`.
pub open spec fn occurs_at(hay: Seq<char>, needle: Seq<char>, i: int) -> bool {
    0 <= i && i + needle.len() <= hay.len() && hay.subrange(i, i + needle.len()) == needle
}

/// Whether `needle` stands somewhere in `hay`.
pub open spec fn contains(hay: Seq<char>, needle: Seq<char>) -> bool {
    exists|i: int| occurs_at(hay, needle, i)
}

/// How often `needle` stands in `hay` at or after `from`.
pub open spec fn occurrences_from(hay: Seq<char>, needle: Seq<char>, from: int) -> nat
    decreases hay.len() - from + 1,
{
    if from < 0 || from + needle.len() > hay.len() {
        0
    } else {
        occurrences_from(hay, needle, from + 1) + if occurs_at(hay, needle, from) {
            1nat
        } else {
            0nat
        }
    }
}

/// How often `needle` stands in `hay`.
pub open spec fn occurrences(hay: Seq<char>, needle: Seq<char>) -> nat {
    occurrences_from(hay, needle, 0)
}

/// A needle that stands at `at` and nowhere else is counted once from any
/// index up to `at`, and not at all behind it.
pub proof fn lemma_single_occurrence(hay: Seq<char>, needle: Seq<char>, at: int, from: int)
    requires
        occurs_at(hay, needle, at),
        forall|j: int| occurs_at(hay, needle, j) ==> j == at,
        0 <= from,
    ensures
        occurrences_from(hay, needle, from) == if from <= at {
            1nat
        } else {
            0nat
        },
    decreases hay.len() - from + 1,
{
    if from + needle.len() <= hay.len() {
        lemma_single_occurrence(hay, needle, at, from + 1);
    }
}

/// Whether `i` is the first index at which `needle` stands in `hay`.
pub open spec fn first_occurrence(hay: Seq<char>, needle: Seq<char>, i: int) -> bool {
    occurs_at(hay, needle, i) && forall|j: int| 0 <= j < i ==> !occurs_at(hay, needle, j)
}

/// The first index from `from` on at which `needle` stands in `hay`, or -1.
pub open spec fn index_from(hay: Seq<char>, needle: Seq<char>, from: int) -> int
    decreases hay.len() - from + 1,
{
    if from < 0 || from > hay.len() || from + needle.len() > hay.len() {
        -1
    } else if occurs_at(hay, needle, from) {
        from
    } else {
        index_from(hay, needle, from + 1)
    }
}

/// The first index at which `needle` stands in `hay`, if it stands anywhere.
pub open spec fn position(hay: Seq<char>, needle: Seq<char>) -> Option<int> {
    if index_from(hay, needle, 0) >= 0 {
        Some(index_from(hay, needle, 0))
    } else {
        None
    }
}

/// The search from `from` finds the first occurrence at or after `from`.
pub proof fn lemma_index_from(hay: Seq<char>, needle: Seq<char>, from: int)
    requires
        0 <= from,
    ensures
        index_from(hay, needle, from) >= 0 ==> from <= index_from(hay, needle, from) && occurs_at(
            hay,
            needle,
            index_from(hay, needle, from),
        ),
        forall|j: int|
            from <= j && (j < index_from(hay, needle, from) || index_from(hay, needle, from) < 0)
                ==> !occurs_at(hay, needle, j),
    decreases hay.len() - from + 1,
{
    if from <= hay.len() && from + needle.len() <= hay.len() && !occurs_at(hay, needle, from) {
        lemma_index_from(hay, needle, from + 1);
    }
}

/// A text has a position for a needle exactly where it contains the needle.
pub proof fn lemma_position(hay: Seq<char>, needle: Seq<char>)
    ensures
        position(hay, needle).is_some() == contains(hay, needle),
        match position(hay, needle) {
            Some(i) => first_occurrence(hay, needle, i),
            None => true,
        },
{
    lemma_index_from(hay, needle, 0);
    if contains(hay, needle) {
        let i = choose|i: int| occurs_at(hay, needle, i);
        assert(occurs_at(hay, needle, i));
    }
}

/// Whether `needle` stands in `hay` at index `at`.
fn matches_at(hay: &Vec<char>, needle: &Vec<char>, at: usize) -> (found: bool)
    requires
        at + needle@.len() <= hay@.len(),
    ensures
        found == occurs_at(hay@, needle@, at as int),
{
    let size = hay.len();
    let mut k: usize = 0;
    while k < needle.len()
        invariant
            0 <= k <= needle@.len(),
            size == hay@.len(),
            at + needle@.len() <= hay@.len(),
            forall|j: int| 0 <= j < k ==> hay@[at + j] == needle@[j],
        decreases needle@.len() - k,
    {
        if hay[at + k] != needle[k] {
            assert(hay@.subrange(at as int, at + needle@.len())[k as int] != needle@[k as int]);
            return false;
        }
        k = k + 1;
    }
    assert(hay@.subrange(at as int, at + needle@.len()) =~= needle@);
    true
}

/// The first index at which `needle` stands in `hay`, if it stands anywhere.
pub fn find(hay: &Vec<char>, needle: &Vec<char>) -> (found: Option<usize>)
    ensures
        match found {
            Some(i) => first_occurrence(hay@, needle@, i as int) && position(hay@, needle@)
                == Some(i as int),
            None => !contains(hay@, needle@) && position(hay@, needle@).is_none(),
        },
{
    proof {
        lemma_position(hay@, needle@);
        lemma_index_from(hay@, needle@, 0);
    }
    if needle.len() > hay.len() {
        return None;
    }
    let last = hay.len() - needle.len();
    let mut i: usize = 0;
    loop
        invariant
            0 <= i <= last,
            last == hay@.len() - needle@.len(),
            forall|j: int| 0 <= j < i ==> !occurs_at(hay@, needle@, j),
        decreases last - i,
    {
        if matches_at(hay, needle, i) {
            proof {
                lemma_position(hay@, needle@);
            }
            return Some(i);
        }
        if i == last {
            proof {
                lemma_position(hay@, needle@);
                assert(forall|j: int| !occurs_at(hay@, needle@, j));
            }
            return None;
        }
        i = i + 1;
    }
}

/// The character of a decimal digit.
pub open spec fn digit_char(d: int) -> char {
    if d == 0 {
        '0'
    } else if d == 1 {
        '1'
    } else if d == 2 {
        '2'
    } else if d == 3 {
        '3'
    } else if d == 4 {
        '4'
    } else if d == 5 {
        '5'
    } else if d == 6 {
        '6'
    } else if d == 7 {
        '7'
    } else if d == 8 {
        '8'
    } else {
        '9'
    }
}

/// Decimal notation of a natural number, without leading zeros.
pub open spec fn decimal(n: nat) -> Seq<char>
    decreases n,
{
    if n < 10 {
        seq![digit_char(n as int)]
    } else {
        decimal(n / 10).push(digit_char((n % 10) as int))
    }
}

/// A run of `count` zeros.
pub open spec fn zeros(count: int) -> Seq<char> {
    Seq::new(
        if count > 0 {
            count as nat
        } else {
            0
        },
        |i: int| '0',
    )
}

/// Decimal notation filled up with leading zeros to at least `width` digits.
pub open spec fn zero_padded(n: nat, width: int) -> Seq<char> {
    zeros(width - decimal(n).len()) + decimal(n)
}

/// A number of hundredths in decimal notation with two decimals, with a
/// minus sign where it is negative.
pub open spec fn hundredths(value: int) -> Seq<char> {
    if value < 0 {
        seq!['-'] + decimal(((-value) / 100) as nat) + seq!['.'] + zero_padded(
            ((-value) % 100) as nat,
            2,
        )
    } else {
        decimal((value / 100) as nat) + seq!['.'] + zero_padded((value % 100) as nat, 2)
    }
}

/// A number of tenths in decimal notation with one decimal.
pub open spec fn tenths(value: nat) -> Seq<char> {
    decimal(value / 10) + seq!['.'] + decimal(value % 10)
}

/// The text of one decimal digit.
pub fn digit_str(d: u8) -> (s: &'static str)
    requires
        d < 10,
    ensures
        s@ == seq![digit_char(d as int)],
{
    proof {
        reveal_strlit("0");
        reveal_strlit("1");
        reveal_strlit("2");
        reveal_strlit("3");
        reveal_strlit("4");
        reveal_strlit("5");
        reveal_strlit("6");
        reveal_strlit("7");
        reveal_strlit("8");
        reveal_strlit("9");
    }
    let s = if d == 0 {
        "0"
    } else if d == 1 {
        "1"
    } else if d == 2 {
        "2"
    } else if d == 3 {
        "3"
    } else if d == 4 {
        "4"
    } else if d == 5 {
        "5"
    } else if d == 6 {
        "6"
    } else if d == 7 {
        "7"
    } else if d == 8 {
        "8"
    } else {
        "9"
    };
    assert(s@ =~= seq![digit_char(d as int)]);
    s
}

/// Appends the decimal notation of `n`.
pub fn push_decimal(out: &mut String, n: u64)
    ensures
        final(out)@ == old(out)@ + decimal(n as nat),
    decreases n,
{
    if n >= 10 {
        push_decimal(out, n / 10);
    }
    out.append(digit_str((n % 10) as u8));
    assert(out@ =~= old(out)@ + decimal(n as nat));
}

/// Number of decimal digits of `n`.
pub fn decimal_len(n: u64) -> (len: usize)
    ensures
        len == decimal(n as nat).len(),
        1 <= len <= 20,
    decreases n,
{
    if n >= 10 {
        let rest = decimal_len(n / 10);
        proof {
            lemma_decimal_len(n as nat);
        }
        rest + 1
    } else {
        1
    }
}

/// Decimal notation has at least one digit, at most twenty for a number
/// of 64 bits, one below ten and two below a hundred.
pub proof fn lemma_decimal_len(n: nat)
    ensures
        1 <= decimal(n).len(),
        n <= u64::MAX ==> decimal(n).len() <= 20,
        n < 10 ==> decimal(n).len() == 1,
        10 <= n < 100 ==> decimal(n).len() == 2,
    decreases n,
{
    reveal_with_fuel(decimal, 21);
}

/// Appends the decimal notation of `n`, filled up to `width` digits.
pub fn push_zero_padded(out: &mut String, n: u64, width: usize)
    ensures
        final(out)@ == old(out)@ + zero_padded(n as nat, width as int),
{
    let len = decimal_len(n);
    let ghost start = out@;
    let mut k: usize = len;
    proof {
        reveal_strlit("0");
    }
    while k < width
        invariant
            len <= k,
            k <= width || k == len,
            out@ == start + zeros(k - len),
        decreases width - k,
    {
        proof {
            reveal_strlit("0");
        }
        out.append("0");
        k = k + 1;
        assert(out@ =~= start + zeros(k - len));
    }
    push_decimal(out, n);
    assert(out@ =~= start + zero_padded(n as nat, width as int));
}

/// Decimal notation of `n`.
pub fn format_u64(n: u64) -> (s: String)
    ensures
        s@ == decimal(n as nat),
{
    let mut s = String::new();
    push_decimal(&mut s, n);
    assert(s@ =~= decimal(n as nat));
    s
}

/// Appends a number of hundredths with two decimals.
pub fn push_hundredths(out: &mut String, value: i64)
    ensures
        final(out)@ == old(out)@ + hundredths(value as int),
{
    let ghost start = out@;
    proof {
        reveal_strlit("-");
        reveal_strlit(".");
    }
    let magnitude: u64 = if value < 0 {
        out.append("-");
        (-(value as i128)) as u64
    } else {
        value as u64
    };
    push_decimal(out, magnitude / 100);
    out.append(".");
    push_zero_padded(out, magnitude % 100, 2);
    assert(out@ =~= start + hundredths(value as int));
}

/// Appends a number of tenths with one decimal.
pub fn push_tenths(out: &mut String, value: u64)
    ensures
        final(out)@ == old(out)@ + tenths(value as nat),
{
    let ghost start = out@;
    proof {
        reveal_strlit(".");
    }
    push_decimal(out, value / 10);
    out.append(".");
    push_decimal(out, value % 10);
    assert(out@ =~= start + tenths(value as nat));
}

/// The lower-case form of an ASCII capital; any other character unchanged.
pub open spec fn ascii_lower(c: char) -> char {
    if 'A' <= c && c <= 'Z' {
        ((c as u8) + 32) as char
    } else {
        c
    }
}

/// A text with its ASCII capitals in lower case.
pub open spec fn lowered(text: Seq<char>) -> Seq<char> {
    Seq::new(text.len(), |i: int| ascii_lower(text[i]))
}

/// The lower-case form of an ASCII capital; any other character unchanged.
pub fn to_ascii_lower(c: char) -> (r: char)
    ensures
        r == ascii_lower(c),
{
    if 'A' <= c && c <= 'Z' {
        ((c as u8) + 32) as char
    } else {
        c
    }
}

/// Whether `text`, with its ASCII capitals in lower case, reads `word`.
pub fn reads_ignoring_case(text: &Vec<char>, word: &str) -> (same: bool)
    ensures
        same == (lowered(text@) == word@),
{
    let letters = chars_of(word);
    if letters.len() != text.len() {
        return false;
    }
    let mut i: usize = 0;
    while i < text.len()
        invariant
            0 <= i <= text@.len(),
            letters@ == word@,
            letters@.len() == text@.len(),
            forall|j: int| 0 <= j < i ==> ascii_lower(text@[j]) == letters@[j],
        decreases text@.len() - i,
    {
        if to_ascii_lower(text[i]) != letters[i] {
            assert(lowered(text@)[i as int] != word@[i as int]);
            return false;
        }
        i = i + 1;
    }
    assert(lowered(text@) =~= word@);
    true
}

/// Whether a character is white space: a space, a tab or line break, or
/// one of the other blank characters of Unicode.
pub open spec fn is_space(c: char) -> bool {
    let code = c as u32;
    (0x09 <= code <= 0x0D) || code == 0x20 || code == 0x85 || code == 0xA0 || code == 0x1680 || (
    0x2000 <= code <= 0x200A) || code == 0x2028 || code == 0x2029 || code == 0x202F || code
        == 0x205F || code == 0x3000
}

/// Number of white-space characters at the start of a text.
pub open spec fn leading_spaces(text: Seq<char>) -> int
    decreases text.len(),
{
    if text.len() > 0 && is_space(text[0]) {
        1 + leading_spaces(text.drop_first())
    } else {
        0
    }
}

/// Number of white-space characters at the end of a text.
pub open spec fn trailing_spaces(text: Seq<char>) -> int
    decreases text.len(),
{
    if text.len() > 0 && is_space(text.last()) {
        1 + trailing_spaces(text.drop_last())
    } else {
        0
    }
}

/// A text without the white space at its start and at its end.
pub open spec fn trimmed(text: Seq<char>) -> Seq<char> {
    let from = leading_spaces(text);
    if from >= text.len() {
        Seq::empty()
    } else {
        text.subrange(from, text.len() - trailing_spaces(text))
    }
}

/// Tells whether a character is white space.
pub fn char_is_space(c: char) -> (r: bool)
    ensures
        r == is_space(c),
{
    let code = c as u32;
    (0x09 <= code && code <= 0x0D) || code == 0x20 || code == 0x85 || code == 0xA0 || code
        == 0x1680 || (0x2000 <= code && code <= 0x200A) || code == 0x2028 || code == 0x2029
        || code == 0x202F || code == 0x205F || code == 0x3000
}

/// The white space at the two ends of a text never overlaps unless the
/// text is all white space.
#[verifier::rlimit(40)]
pub proof fn lemma_spaces(text: Seq<char>)
    ensures
        0 <= leading_spaces(text) <= text.len(),
        0 <= trailing_spaces(text) <= text.len(),
        leading_spaces(text) < text.len() ==> leading_spaces(text) + trailing_spaces(text)
            <= text.len() && !is_space(text[leading_spaces(text)]),
        forall|i: int| 0 <= i < leading_spaces(text) ==> is_space(#[trigger] text[i]),
        forall|i: int|
            text.len() - trailing_spaces(text) <= i < text.len() ==> is_space(#[trigger] text[i]),
        trailing_spaces(text) < text.len() ==> !is_space(
            text[text.len() - 1 - trailing_spaces(text)],
        ),
    decreases text.len(),
{
    if text.len() > 0 {
        lemma_spaces(text.drop_first());
        lemma_spaces(text.drop_last());
        if is_space(text[0]) {
            let rest = text.drop_first();
            assert forall|i: int| 0 <= i < leading_spaces(text) implies is_space(
                #[trigger] text[i],
            ) by {
                if i > 0 {
                    assert(text[i] == rest[i - 1]);
                }
            }
            if leading_spaces(text) < text.len() {
                assert(text[leading_spaces(text)] == rest[leading_spaces(rest)]);
            }
        }
        if is_space(text.last()) {
            let rest = text.drop_last();
            assert forall|i: int|
                text.len() - trailing_spaces(text) <= i < text.len() implies is_space(
                #[trigger] text[i],
            ) by {
                if i < text.len() - 1 {
                    assert(text[i] == rest[i]);
                }
            }
            if trailing_spaces(text) < text.len() {
                assert(text[text.len() - 1 - trailing_spaces(text)] == rest[rest.len() - 1
                    - trailing_spaces(rest)]);
            }
        }
        if leading_spaces(text) < text.len() {
            let from = leading_spaces(text);
            let back = trailing_spaces(text);
            if from + back > text.len() {
                assert(is_space(text[from]));
            }
        }
    }
}

/// Where a text starts and ends once the white space at its ends is left out.
#[verifier::rlimit(40)]
pub fn trim_bounds(chars: &Vec<char>) -> (bounds: (usize, usize))
    ensures
        bounds.0 <= bounds.1 <= chars@.len(),
        chars@.subrange(bounds.0 as int, bounds.1 as int) == trimmed(chars@),
{
    let n = chars.len();
    proof {
        lemma_spaces(chars@);
    }
    let mut from: usize = 0;
    while from < n && char_is_space(chars[from])
        invariant
            0 <= from <= n,
            n == chars@.len(),
            from <= leading_spaces(chars@),
        decreases n - from,
    {
        proof {
            lemma_spaces(chars@);
        }
        from = from + 1;
        proof {
            if from > leading_spaces(chars@) {
                assert(!is_space(chars@[leading_spaces(chars@)]));
            }
        }
    }
    proof {
        lemma_spaces(chars@);
        if from < leading_spaces(chars@) {
            assert(is_space(chars@[from as int]));
        }
    }
    if from >= n {
        assert(chars@.subrange(n as int, n as int) =~= Seq::<char>::empty());
        return (n, n);
    }
    let mut to: usize = n;
    while to > from && char_is_space(chars[to - 1])
        invariant
            from <= to <= n,
            n == chars@.len(),
            from == leading_spaces(chars@),
            from < n,
            n - to <= trailing_spaces(chars@),
        decreases to,
    {
        proof {
            lemma_spaces(chars@);
        }
        to = to - 1;
        proof {
            if n - to > trailing_spaces(chars@) {
                assert(!is_space(chars@[n - 1 - trailing_spaces(chars@)]));
            }
        }
    }
    proof {
        lemma_spaces(chars@);
        if n - to < trailing_spaces(chars@) {
            assert(is_space(chars@[to as int - 1]));
        }
    }
    (from, to)
}

/// The text without the white space at its start and at its end.
pub fn trim(text: &str) -> (out: String)
    ensures
        out@ == trimmed(text@),
{
    let chars = chars_of(text);
    let (from, to) = trim_bounds(&chars);
    String::from_str(text.substring_char(from, to))
}

/// The characters of a text in `[from, to)`.
pub fn slice_of(chars: &Vec<char>, from: usize, to: usize) -> (out: Vec<char>)
    requires
        from <= to <= chars@.len(),
    ensures
        out@ == chars@.subrange(from as int, to as int),
{
    let mut out: Vec<char> = Vec::new();
    let mut i: usize = from;
    while i < to
        invariant
            from <= i <= to <= chars@.len(),
            out@ == chars@.subrange(from as int, i as int),
        decreases to - i,
    {
        out.push(chars[i]);
        assert(out@ =~= chars@.subrange(from as int, i + 1));
        i = i + 1;
    }
    out
}

/// A list of characters without the white space at its ends.
pub fn trim_chars(chars: &Vec<char>) -> (out: Vec<char>)
    ensures
        out@ == trimmed(chars@),
{
    let (from, to) = trim_bounds(chars);
    slice_of(chars, from, to)
}

/// What follows a prefix in a text that starts with it.
pub open spec fn after_prefix(text: Seq<char>, prefix: Seq<char>) -> Option<Seq<char>> {
    if occurs_at(text, prefix, 0) {
        Some(text.subrange(prefix.len() as int, text.len() as int))
    } else {
        None
    }
}

/// The bearer token of an `Authorization` header: what follows `Bearer `,
/// without the white space around it. None for any other header.
pub open spec fn bearer_of(header: Seq<char>) -> Option<Seq<char>> {
    match after_prefix(header, "Bearer "@) {
        Some(rest) => Some(trimmed(rest)),
        None => None,
    }
}

/// Reads the bearer token of an `Authorization` header.
pub fn bearer_token(header: &str) -> (token: Option<String>)
    ensures
        match (token, bearer_of(header@)) {
            (Some(t), Some(expected)) => t@ == expected,
            (None, None) => true,
            _ => false,
        },
{
    let chars = chars_of(header);
    let prefix = chars_of("Bearer ");
    if prefix.len() > chars.len() || !matches_at(&chars, &prefix, 0) {
        return None;
    }
    Some(trim(header.substring_char(prefix.len(), chars.len())))
}

/// Whether a character is a decimal digit.
pub open spec fn is_digit(c: char) -> bool {
    '0' <= c && c <= '9'
}

/// Tells whether a character is a decimal digit.
pub fn is_digit_char(c: char) -> (r: bool)
    ensures
        r == is_digit(c),
{
    '0' <= c && c <= '9'
}

/// Where the run of decimal digits that starts at `from` ends.
pub open spec fn digit_run(text: Seq<char>, from: int) -> int
    decreases text.len() - from,
{
    if 0 <= from < text.len() && is_digit(text[from]) {
        digit_run(text, from + 1)
    } else {
        from
    }
}

/// The number that the digits in `[from, to)` write; zero for no digits.
pub open spec fn digits_value(text: Seq<char>, from: int, to: int) -> nat
    decreases to - from,
{
    if to <= from {
        0
    } else {
        digits_value(text, from, to - 1) * 10 + ((text[to - 1] as u8 - 48) as nat)
    }
}

/// Ten to the power `k`.
pub open spec fn pow10(k: nat) -> nat
    decreases k,
{
    if k == 0 {
        1
    } else {
        10 * pow10((k - 1) as nat)
    }
}

/// Powers of ten are positive, and those up to the ninth fit nine digits.
pub proof fn lemma_pow10_bounds(k: nat)
    ensures
        pow10(k) >= 1,
        k <= 9 ==> pow10(k) <= 1_000_000_000,
    decreases k,
{
    if k > 0 {
        lemma_pow10_bounds((k - 1) as nat);
    }
    if k <= 9 {
        reveal_with_fuel(pow10, 11);
    }
}

/// Where a decimal number that starts at `start` has the end of its whole
/// part, the start of its fraction digits, and its end: digits, then
/// optionally a point and more digits.
pub open spec fn decimal_shape(text: Seq<char>, start: int) -> (int, int, int) {
    let whole_end = digit_run(text, start);
    if whole_end < text.len() && text[whole_end] == '.' {
        (whole_end, whole_end + 1, digit_run(text, whole_end + 1))
    } else {
        (whole_end, whole_end, whole_end)
    }
}

/// The magnitude of the decimal number in `[start, ..)` in units of ten to
/// the minus `decimals`: the whole part, and the fraction rounded to the
/// nearest unit by the first digit that is left over.
pub open spec fn decimal_magnitude(text: Seq<char>, start: int, decimals: nat) -> nat {
    let (whole_end, fraction_start, end) = decimal_shape(text, start);
    let whole = digits_value(text, start, whole_end) * pow10(decimals);
    if end - fraction_start <= decimals {
        whole + digits_value(text, fraction_start, end) * pow10(
            (decimals - (end - fraction_start)) as nat,
        )
    } else {
        whole + digits_value(text, fraction_start, fraction_start + decimals) + if text[fraction_start
            + decimals] >= '5' {
            1nat
        } else {
            0nat
        }
    }
}

/// Where the digits of a signed number start: behind its sign, if it has one.
pub open spec fn sign_end(text: Seq<char>) -> int {
    if text.len() > 0 && (text[0] == '-' || text[0] == '+') {
        1
    } else {
        0
    }
}

/// The number that a decimal text writes, in units of ten to the minus
/// `decimals`: an optional sign, digits, and optionally a point and more
/// digits, with at least one digit in all. None where the text is anything
/// else, or the number has a magnitude above `limit`.
pub open spec fn fixed_point_of(text: Seq<char>, decimals: nat, limit: nat) -> Option<int> {
    let start = sign_end(text);
    let (whole_end, fraction_start, end) = decimal_shape(text, start);
    let digits = (whole_end - start) + (end - fraction_start);
    if end != text.len() || digits == 0 || decimal_magnitude(text, start, decimals) > limit {
        None
    } else if text[0] == '-' {
        Some(-(decimal_magnitude(text, start, decimals) as int))
    } else {
        Some(decimal_magnitude(text, start, decimals) as int)
    }
}

/// Finds the end of the run of digits that starts at `from`.
fn scan_digits(chars: &Vec<char>, from: usize) -> (to: usize)
    requires
        from <= chars@.len(),
    ensures
        to == digit_run(chars@, from as int),
        from <= to <= chars@.len(),
{
    let mut i: usize = from;
    while i < chars.len() && is_digit_char(chars[i])
        invariant
            from <= i <= chars@.len(),
            digit_run(chars@, from as int) == digit_run(chars@, i as int),
        decreases chars@.len() - i,
    {
        i = i + 1;
    }
    i
}

/// The number that the digits in `[from, to)` write, where it is no larger
/// than `cap`.
fn read_digits(chars: &Vec<char>, from: usize, to: usize, cap: u64) -> (value: Option<u64>)
    requires
        from <= to <= chars@.len(),
        to <= digit_run(chars@, from as int) || to == from,
        cap <= 0xFFFF_FFFF_FFFF_FFF,
    ensures
        match value {
            Some(v) => v == digits_value(chars@, from as int, to as int) && v <= cap,
            None => digits_value(chars@, from as int, to as int) > cap,
        },
{
    let mut total: u64 = 0;
    let mut i: usize = from;
    proof {
        lemma_digit_run_end(chars@, from as int);
    }
    while i < to
        invariant
            from <= i <= to <= chars@.len(),
            to <= digit_run(chars@, from as int),
            cap <= 0xFFFF_FFFF_FFFF_FFF,
            total == digits_value(chars@, from as int, i as int),
            total <= cap,
        decreases to - i,
    {
        proof {
            lemma_digit_run(chars@, from as int, i as int);
        }
        let d = (chars[i] as u8 - 48) as u64;
        total = total * 10 + d;
        if total > cap {
            proof {
                lemma_digits_value_grows(chars@, from as int, i + 1, to as int);
            }
            return None;
        }
        i = i + 1;
    }
    Some(total)
}

/// Every character of a run of digits is a digit.
pub proof fn lemma_digit_run(text: Seq<char>, from: int, i: int)
    requires
        0 <= from <= i < digit_run(text, from),
    ensures
        i < text.len(),
        is_digit(text[i]),
        digit_run(text, from) <= text.len(),
    decreases i - from,
{
    if from < i {
        lemma_digit_run(text, from + 1, i);
    } else {
        lemma_digit_run_end(text, from);
    }
}

/// A run of digits ends within the text, and not before it starts.
pub proof fn lemma_digit_run_end(text: Seq<char>, from: int)
    requires
        0 <= from <= text.len(),
    ensures
        from <= digit_run(text, from) <= text.len(),
        digit_run(text, from) < text.len() ==> !is_digit(text[digit_run(text, from)]),
    decreases text.len() - from,
{
    if from < text.len() && is_digit(text[from]) {
        lemma_digit_run_end(text, from + 1);
    }
}

/// The number that digits write does not shrink when more digits follow.
pub proof fn lemma_digits_value_grows(text: Seq<char>, from: int, mid: int, to: int)
    requires
        from <= mid <= to,
    ensures
        digits_value(text, from, mid) <= digits_value(text, from, to),
    decreases to - mid,
{
    if mid < to {
        lemma_digits_value_grows(text, from, mid, to - 1);
    }
}

/// Reads a decimal number in units of ten to the minus `decimals`.
#[verifier::rlimit(40)]
pub fn parse_fixed(chars: &Vec<char>, decimals: u32, limit: u64) -> (value: Option<i64>)
    requires
        decimals <= 9,
        limit <= 0xFFF_FFFF_FFFF_FFFF,
    ensures
        match value {
            Some(v) => fixed_point_of(chars@, decimals as nat, limit as nat) == Some(v as int),
            None => fixed_point_of(chars@, decimals as nat, limit as nat).is_none(),
        },
{
    let n = chars.len();
    let start: usize = if n > 0 && (chars[0] == '-' || chars[0] == '+') {
        1
    } else {
        0
    };
    let whole_end = scan_digits(chars, start);
    let (fraction_start, end): (usize, usize) = if whole_end < n && chars[whole_end] == '.' {
        (whole_end + 1, scan_digits(chars, whole_end + 1))
    } else {
        (whole_end, whole_end)
    };
    if end != n || (whole_end - start) + (end - fraction_start) == 0 {
        return None;
    }
    proof {
        lemma_pow10_bounds(decimals as nat);
    }
    let whole = match read_digits(chars, start, whole_end, limit) {
        Some(v) => v,
        None => {
            assert(digits_value(chars@, start as int, whole_end as int) * pow10(decimals as nat)
                >= digits_value(chars@, start as int, whole_end as int)) by (nonlinear_arith)
                requires
                    pow10(decimals as nat) >= 1,
            ;
            return None;
        },
    };
    let count = end - fraction_start;
    let taken: usize = if count <= decimals as usize {
        count
    } else {
        decimals as usize
    };
    let fraction = match read_digits(chars, fraction_start, fraction_start + taken, 999_999_999) {
        Some(v) => v,
        None => {
            proof {
                lemma_digits_below_pow10(
                    chars@,
                    fraction_start as int,
                    fraction_start + taken,
                );
                lemma_pow10_monotonic(taken as nat, 9);
                lemma_pow10_bounds(9);
            }
            return None;
        },
    };
    let mut pad: u64 = 1;
    let mut q: usize = taken;
    while q < decimals as usize
        invariant
            taken <= q <= decimals <= 9,
            pad == pow10((q - taken) as nat),
            pad <= 1_000_000_000,
        decreases decimals - q,
    {
        proof {
            lemma_pow10_bounds((q + 1 - taken) as nat);
        }
        pad = pad * 10;
        q = q + 1;
    }
    let mut scale: u64 = 1;
    let mut k: u32 = 0;
    while k < decimals
        invariant
            0 <= k <= decimals <= 9,
            scale == pow10(k as nat),
            scale <= 1_000_000_000,
        decreases decimals - k,
    {
        proof {
            lemma_pow10_bounds((k + 1) as nat);
        }
        scale = scale * 10;
        k = k + 1;
    }
    proof {
        lemma_product_small(whole as int, scale as int, fraction as int, pad as int);
    }
    let part: u128 = if count <= decimals as usize {
        fraction as u128 * pad as u128
    } else if chars[fraction_start + decimals as usize] >= '5' {
        fraction as u128 + 1
    } else {
        fraction as u128
    };
    let magnitude: u128 = whole as u128 * scale as u128 + part;
    assert(magnitude == decimal_magnitude(chars@, start as int, decimals as nat));
    if magnitude > limit as u128 {
        return None;
    }
    if start == 1 && chars[0] == '-' {
        Some(-(magnitude as i64))
    } else {
        Some(magnitude as i64)
    }
}

/// Products of numbers of at most sixty and thirty bits fit well into 128 bits.
proof fn lemma_product_small(whole: int, scale: int, fraction: int, pad: int)
    requires
        0 <= whole <= 0xFFF_FFFF_FFFF_FFFF,
        0 <= scale <= 1_000_000_000,
        0 <= fraction <= 999_999_999,
        0 <= pad <= 1_000_000_000,
    ensures
        0 <= whole * scale <= 0xFFF_FFFF_FFFF_FFFF * 1_000_000_000,
        0 <= fraction * pad <= 999_999_999 * 1_000_000_000,
{
    assert(0 <= whole * scale <= 0xFFF_FFFF_FFFF_FFFF * 1_000_000_000) by (nonlinear_arith)
        requires
            0 <= whole <= 0xFFF_FFFF_FFFF_FFFF,
            0 <= scale <= 1_000_000_000,
    ;
    assert(0 <= fraction * pad <= 999_999_999 * 1_000_000_000) by (nonlinear_arith)
        requires
            0 <= fraction <= 999_999_999,
            0 <= pad <= 1_000_000_000,
    ;
}

/// A run of `k` digits writes a number below ten to the power `k`.
pub proof fn lemma_digits_below_pow10(text: Seq<char>, from: int, to: int)
    requires
        0 <= from <= to,
        to <= digit_run(text, from) || to == from,
    ensures
        digits_value(text, from, to) < pow10((to - from) as nat),
    decreases to - from,
{
    if from < to {
        lemma_digits_below_pow10(text, from, to - 1);
        lemma_digit_run(text, from, to - 1);
    }
}

/// Powers of ten grow with the exponent.
pub proof fn lemma_pow10_monotonic(a: nat, b: nat)
    requires
        a <= b,
    ensures
        pow10(a) <= pow10(b),
    decreases b,
{
    if a < b {
        lemma_pow10_monotonic(a, (b - 1) as nat);
    }
}

/// The number that a text of digits writes, with an optional plus sign:
/// None where the text is anything else or the number is above `limit`.
pub open spec fn unsigned_of(text: Seq<char>, limit: nat) -> Option<nat> {
    let start: int = if text.len() > 0 && text[0] == '+' {
        1
    } else {
        0
    };
    if start < text.len() && digit_run(text, start) == text.len() && digits_value(
        text,
        start,
        text.len() as int,
    ) <= limit {
        Some(digits_value(text, start, text.len() as int))
    } else {
        None
    }
}

/// Reads an unsigned whole number that is no larger than `limit`.
pub fn parse_number(chars: &Vec<char>, limit: u64) -> (value: Option<u64>)
    requires
        limit <= 0xFFFF_FFFF_FFFF_FFF,
    ensures
        match value {
            Some(v) => unsigned_of(chars@, limit as nat) == Some(v as nat),
            None => unsigned_of(chars@, limit as nat).is_none(),
        },
{
    let n = chars.len();
    let start: usize = if n > 0 && chars[0] == '+' {
        1
    } else {
        0
    };
    if start == n {
        return None;
    }
    let end = scan_digits(chars, start);
    if end != n {
        return None;
    }
    read_digits(chars, start, n, limit)
}

/// Reads an unsigned whole number of at most 16 bits.
pub fn parse_u16(chars: &Vec<char>) -> (value: Option<u16>)
    ensures
        match value {
            Some(v) => unsigned_of(chars@, 65535) == Some(v as nat),
            None => unsigned_of(chars@, 65535).is_none(),
        },
{
    match parse_number(chars, 65535) {
        Some(v) => Some(v as u16),
        None => None,
    }
}

} // verus!
