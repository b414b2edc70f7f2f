//! Text helpers with contracts over sequences of characters.
use vstd::prelude::*;

verus! {

/// `String::push` appends one character.
pub assume_specification[ String::push ](string: &mut String, c: char)
    ensures
        final(string)@ == old(string)@.push(c),
;

/// Comparing two `str` slices compares their characters.
pub assume_specification[ <str as PartialEq>::eq ](left: &str, right: &str) -> (equal: bool)
    ensures
        equal == (left@ == right@),
;

/// Characters with the Unicode property `White_Space`.
pub open spec fn is_white_space(c: char) -> bool {
    ||| '\u{9}' <= c <= '\u{d}'
    ||| c == ' '
    ||| c == '\u{85}'
    ||| c == '\u{a0}'
    ||| c == '\u{1680}'
    ||| '\u{2000}' <= c <= '\u{200a}'
    ||| c == '\u{2028}'
    ||| c == '\u{2029}'
    ||| c == '\u{202f}'
    ||| c == '\u{205f}'
    ||| c == '\u{3000}'
}

/// Whether `c` has the Unicode property `White_Space`.
pub fn white_space(c: char) -> (yes: bool)
    ensures
        yes == is_white_space(c),
{
    ('\u{9}' <= c && c <= '\u{d}') || c == ' ' || c == '\u{85}' || c == '\u{a0}'
        || c == '\u{1680}' || ('\u{2000}' <= c && c <= '\u{200a}') || c == '\u{2028}'
        || c == '\u{2029}' || c == '\u{202f}' || c == '\u{205f}' || c == '\u{3000}'
}

/// `text` without its leading white space.
pub open spec fn trimmed_start(text: Seq<char>) -> Seq<char>
    decreases text.len(),
{
    if text.len() > 0 && is_white_space(text[0]) {
        trimmed_start(text.skip(1))
    } else {
        text
    }
}

/// `text` without its trailing white space.
pub open spec fn trimmed_end(text: Seq<char>) -> Seq<char>
    decreases text.len(),
{
    if text.len() > 0 && is_white_space(text.last()) {
        trimmed_end(text.drop_last())
    } else {
        text
    }
}

/// `text` without leading and trailing white space.
pub open spec fn trimmed(text: Seq<char>) -> Seq<char> {
    trimmed_end(trimmed_start(text))
}

/// The characters of a string slice.
pub fn chars_of(text: &str) -> (chars: Vec<char>)
    ensures
        chars@ == text@,
{
    let mut chars: Vec<char> = Vec::new();
    for c in it: text.chars()
        invariant
            it.seq() == text@,
            chars@ == text@.take(it.index() as int),
    {
        proof {
            assert(text@.take(it.index() + 1) =~= text@.take(it.index() as int).push(c));
        }
        chars.push(c);
    }
    proof {
        assert(text@.take(text@.len() as int) =~= text@);
    }
    chars
}

/// The string made of `chars[from..to]`.
pub fn string_from(chars: &[char], from: usize, to: usize) -> (text: String)
    requires
        from <= to <= chars@.len(),
    ensures
        text@ == chars@.subrange(from as int, to as int),
{
    let mut text: String = String::new();
    let mut at: usize = from;
    while at < to
        invariant
            from <= at <= to <= chars@.len(),
            text@ == chars@.subrange(from as int, at as int),
        decreases to - at,
    {
        text.push(chars[at]);
        proof {
            assert(chars@.subrange(from as int, at + 1) =~= chars@.subrange(
                from as int,
                at as int,
            ).push(chars@[at as int]));
        }
        at += 1;
    }
    text
}

/// Copy of `text` without leading and trailing white space.
pub fn trim(text: &str) -> (result: String)
    ensures
        result@ == trimmed(text@),
{
    let chars = chars_of(text);
    let mut from: usize = 0;
    proof {
        assert(text@.skip(0) =~= text@);
    }
    while from < chars.len() && white_space(chars[from])
        invariant
            from <= chars@.len(),
            chars@ == text@,
            trimmed_start(text@) == trimmed_start(text@.skip(from as int)),
        decreases chars@.len() - from,
    {
        proof {
            assert(text@.skip(from as int).skip(1) =~= text@.skip(from + 1));
        }
        from += 1;
    }
    let ghost start = text@.skip(from as int);
    proof {
        assert(trimmed_start(text@) == start);
    }
    let mut to: usize = chars.len();
    proof {
        assert(start.take(to - from) =~= start);
    }
    while to > from && white_space(chars[to - 1])
        invariant
            from <= to <= chars@.len(),
            chars@ == text@,
            start == text@.skip(from as int),
            trimmed_end(start) == trimmed_end(start.take(to - from)),
        decreases to,
    {
        proof {
            assert(start.take(to - from).drop_last() =~= start.take(to - from - 1));
        }
        to -= 1;
    }
    proof {
        assert(chars@.subrange(from as int, to as int) =~= start.take(to - from));
    }
    string_from(&chars, from, to)
}

/// Text that is empty or all white space trims to nothing.
pub proof fn lemma_trimmed_is_within(text: Seq<char>)
    ensures
        trimmed(text).len() <= text.len(),
        trimmed(text).len() > 0 ==> !is_white_space(trimmed(text)[0]) && !is_white_space(
            trimmed(text).last(),
        ),
{
    lemma_trimmed_start(text);
    lemma_trimmed_end(trimmed_start(text));
}

proof fn lemma_trimmed_start(text: Seq<char>)
    ensures
        trimmed_start(text).len() <= text.len(),
        trimmed_start(text).len() > 0 ==> !is_white_space(trimmed_start(text)[0]),
    decreases text.len(),
{
    if text.len() > 0 && is_white_space(text[0]) {
        lemma_trimmed_start(text.skip(1));
    }
}

proof fn lemma_trimmed_end(text: Seq<char>)
    ensures
        trimmed_end(text).len() <= text.len(),
        trimmed_end(text) == text.take(trimmed_end(text).len() as int),
        trimmed_end(text).len() > 0 ==> !is_white_space(trimmed_end(text).last()),
    decreases text.len(),
{
    if text.len() > 0 && is_white_space(text.last()) {
        lemma_trimmed_end(text.drop_last());
        assert(text.drop_last().take(trimmed_end(text).len() as int) =~= text.take(
            trimmed_end(text).len() as int,
        ));
    } else {
        assert(text.take(text.len() as int) =~= text);
    }
}

/// Trimming twice is trimming once.
pub proof fn lemma_trim_is_idempotent(text: Seq<char>)
    ensures
        trimmed(trimmed(text)) == trimmed(text),
{
    lemma_trimmed_is_within(text);
}

/// Whether `pattern` stands in `text` at position `at`.
pub open spec fn occurs_at(text: Seq<char>, pattern: Seq<char>, at: int) -> bool {
    0 <= at && at + pattern.len() <= text.len() && text.subrange(at, at + pattern.len())
        == pattern
}

/// Whether `pattern` stands anywhere in `text`.
pub open spec fn contains(text: Seq<char>, pattern: Seq<char>) -> bool {
    exists|at: int| occurs_at(text, pattern, at)
}

/// Whether `at` is the first position of `pattern` in `text`.
pub open spec fn first_at(text: Seq<char>, pattern: Seq<char>, at: int) -> bool {
    occurs_at(text, pattern, at) && forall|earlier: int|
        0 <= earlier < at ==> !occurs_at(text, pattern, earlier)
}

fn stands_at(text: &[char], pattern: &[char], at: usize) -> (yes: bool)
    requires
        at + pattern@.len() <= text@.len(),
    ensures
        yes == occurs_at(text@, pattern@, at as int),
{
    let length: usize = text.len();
    let mut done: usize = 0;
    while done < pattern.len()
        invariant
            done <= pattern@.len(),
            length == text@.len(),
            at + pattern@.len() <= text@.len(),
            forall|j: int| 0 <= j < done ==> text@[at + j] == pattern@[j],
        decreases pattern@.len() - done,
    {
        if text[at + done] != pattern[done] {
            proof {
                assert(text@.subrange(at as int, at + pattern@.len())[done as int] == text@[at
                    + done]);
            }
            return false;
        }
        done += 1;
    }
    proof {
        assert(text@.subrange(at as int, at + pattern@.len()) =~= pattern@);
    }
    true
}

/// First position of `pattern` in `text`, if it stands there at all.
pub fn find(text: &[char], pattern: &[char]) -> (position: Option<usize>)
    ensures
        match position {
            Some(at) => first_at(text@, pattern@, at as int),
            None => !contains(text@, pattern@),
        },
{
    if pattern.len() > text.len() {
        return None;
    }
    let last: usize = text.len() - pattern.len();
    let mut at: usize = 0;
    while at <= last
        invariant
            at <= last + 1,
            last == text@.len() - pattern@.len(),
            text@.len() <= usize::MAX,
            forall|earlier: int| 0 <= earlier < at ==> !occurs_at(text@, pattern@, earlier),
        decreases last + 1 - at,
    {
        if stands_at(text, pattern, at) {
            return Some(at);
        }
        if at == last {
            return None;
        }
        at += 1;
    }
    None
}

/// Whether `pattern` stands anywhere in `text`.
pub fn has(text: &[char], pattern: &str) -> (yes: bool)
    ensures
        yes == contains(text@, pattern@),
{
    let pattern_chars = chars_of(pattern);
    match find(text, &pattern_chars) {
        Some(at) => {
            proof {
                assert(occurs_at(text@, pattern@, at as int));
            }
            true
        },
        None => false,
    }
}

/// First position of `pattern` in `text`.
pub open spec fn first_index(text: Seq<char>, pattern: Seq<char>) -> Option<int> {
    if contains(text, pattern) {
        Some(choose|at: int| first_at(text, pattern, at))
    } else {
        None
    }
}

proof fn lemma_occurrence_has_a_first(text: Seq<char>, pattern: Seq<char>, at: int)
    requires
        occurs_at(text, pattern, at),
    ensures
        exists|first: int| first_at(text, pattern, first),
    decreases at,
{
    if exists|earlier: int| 0 <= earlier < at && occurs_at(text, pattern, earlier) {
        let earlier = choose|earlier: int| 0 <= earlier < at && occurs_at(text, pattern, earlier);
        lemma_occurrence_has_a_first(text, pattern, earlier);
    } else {
        assert(first_at(text, pattern, at));
    }
}

/// Where a pattern occurs, its first position is one, and none is before it.
pub proof fn lemma_first_index_is_first(text: Seq<char>, pattern: Seq<char>)
    requires
        contains(text, pattern),
    ensures
        first_index(text, pattern) matches Some(at) && first_at(text, pattern, at),
{
    let at = choose|at: int| occurs_at(text, pattern, at);
    lemma_occurrence_has_a_first(text, pattern, at);
}

/// A first position is the first one.
pub proof fn lemma_first_index(text: Seq<char>, pattern: Seq<char>, at: int)
    requires
        first_at(text, pattern, at),
    ensures
        first_index(text, pattern) == Some(at),
{
    assert(occurs_at(text, pattern, at));
    let chosen = choose|other: int| first_at(text, pattern, other);
    assert(first_at(text, pattern, chosen));
    if chosen < at {
        assert(!occurs_at(text, pattern, chosen));
    } else if at < chosen {
        assert(!occurs_at(text, pattern, at));
    }
}

/// What stands behind the first `pattern` in `text`.
pub open spec fn after_first(text: Seq<char>, pattern: Seq<char>) -> Option<Seq<char>> {
    match first_index(text, pattern) {
        Some(at) => Some(text.skip(at + pattern.len())),
        None => None,
    }
}

/// What stands in front of the first `pattern` in `text`: all of it where there is none.
pub open spec fn before_first(text: Seq<char>, pattern: Seq<char>) -> Seq<char> {
    match first_index(text, pattern) {
        Some(at) => text.take(at),
        None => text,
    }
}

/// What stands behind the last `c` in `text`: all of it where there is none.
pub open spec fn after_last(text: Seq<char>, c: char) -> Seq<char>
    decreases text.len(),
{
    if text.len() == 0 || text.last() == c {
        Seq::empty()
    } else {
        after_last(text.drop_last(), c).push(text.last())
    }
}

/// What stands behind the last `c` holds no `c`, and a `c` stands before it where it is not
/// all of the text.
pub proof fn lemma_after_last_is_clear(text: Seq<char>, c: char)
    ensures
        after_last(text, c).len() <= text.len(),
        !after_last(text, c).contains(c),
        after_last(text, c).len() < text.len() ==> text[text.len() - 1 - after_last(text, c).len()]
            == c,
    decreases text.len(),
{
    if text.len() > 0 && text.last() != c {
        lemma_after_last_is_clear(text.drop_last(), c);
        let before = after_last(text.drop_last(), c);
        assert forall|i: int| 0 <= i < after_last(text, c).len() implies after_last(text, c)[i]
            != c by {
            if i < before.len() {
                assert(before.contains(before[i]));
            }
        }
    }
}

/// What stands behind the first `pattern` in `text`.
pub fn rest_after(text: &str, pattern: &str) -> (rest: Option<String>)
    ensures
        match rest {
            Some(rest) => after_first(text@, pattern@) == Some(rest@),
            None => after_first(text@, pattern@) is None,
        },
{
    let chars = chars_of(text);
    let pattern_chars = chars_of(pattern);
    match find(&chars, &pattern_chars) {
        Some(at) => {
            proof {
                lemma_first_index(text@, pattern@, at as int);
                assert(chars@.subrange(at + pattern@.len(), chars@.len() as int) =~= text@.skip(
                    at + pattern@.len(),
                ));
            }
            let length: usize = chars.len();
            Some(string_from(&chars, at + pattern_chars.len(), length))
        },
        None => None,
    }
}

/// What stands in front of the first `pattern` in `text`: all of it where there is none.
pub fn part_before(text: &str, pattern: &str) -> (part: String)
    ensures
        part@ == before_first(text@, pattern@),
{
    let chars = chars_of(text);
    let pattern_chars = chars_of(pattern);
    match find(&chars, &pattern_chars) {
        Some(at) => {
            proof {
                lemma_first_index(text@, pattern@, at as int);
                assert(chars@.subrange(0, at as int) =~= text@.take(at as int));
            }
            string_from(&chars, 0, at)
        },
        None => text.to_owned(),
    }
}

/// What stands behind the last `c` in `text`: all of it where there is none.
pub fn rest_after_last(text: &str, c: char) -> (rest: String)
    ensures
        rest@ == after_last(text@, c),
{
    let chars = chars_of(text);
    let mut from: usize = chars.len();
    let ghost goal = after_last(text@, c);
    proof {
        assert(text@.take(from as int) =~= text@);
        assert(text@.skip(from as int) =~= Seq::<char>::empty());
        assert(goal =~= after_last(text@.take(from as int), c) + text@.skip(from as int));
    }
    while from > 0 && chars[from - 1] != c
        invariant
            from <= chars@.len(),
            chars@ == text@,
            goal == after_last(text@.take(from as int), c) + text@.skip(from as int),
        decreases from,
    {
        proof {
            let front = text@.take(from as int);
            assert(front.drop_last() =~= text@.take(from - 1));
            assert(after_last(front, c) == after_last(text@.take(from - 1), c).push(
                text@[from - 1],
            ));
            assert(after_last(front, c) + text@.skip(from as int) =~= after_last(
                text@.take(from - 1),
                c,
            ) + text@.skip(from - 1));
        }
        from -= 1;
    }
    proof {
        assert(after_last(text@.take(from as int), c) =~= Seq::<char>::empty());
        assert(goal =~= text@.skip(from as int));
        assert(chars@.subrange(from as int, chars@.len() as int) =~= text@.skip(from as int));
    }
    string_from(&chars, from, chars.len())
}

/// Whether `left` comes before `right` in the order by character codes, where a
/// beginning comes before the whole.
pub open spec fn precedes(left: Seq<char>, right: Seq<char>) -> bool
    decreases right.len(),
{
    if right.len() == 0 {
        false
    } else if left.len() == 0 {
        true
    } else if left[0] != right[0] {
        left[0] < right[0]
    } else {
        precedes(left.skip(1), right.skip(1))
    }
}

/// Whether `left` comes before `right` in the order by character codes.
pub fn comes_before(left: &str, right: &str) -> (yes: bool)
    ensures
        yes == precedes(left@, right@),
{
    let left_chars = chars_of(left);
    let right_chars = chars_of(right);
    let mut at: usize = 0;
    proof {
        assert(left@.skip(0) =~= left@);
        assert(right@.skip(0) =~= right@);
    }
    while at < left_chars.len() && at < right_chars.len()
        invariant
            at <= left_chars@.len(),
            at <= right_chars@.len(),
            left_chars@ == left@,
            right_chars@ == right@,
            precedes(left@, right@) == precedes(left@.skip(at as int), right@.skip(at as int)),
        decreases left_chars@.len() - at,
    {
        if left_chars[at] != right_chars[at] {
            return left_chars[at] < right_chars[at];
        }
        proof {
            assert(left@.skip(at as int).skip(1) =~= left@.skip(at + 1));
            assert(right@.skip(at as int).skip(1) =~= right@.skip(at + 1));
        }
        at += 1;
    }
    at < right_chars.len()
}

/// Of two texts at most one comes before the other.
pub proof fn lemma_precedes_is_asymmetric(left: Seq<char>, right: Seq<char>)
    ensures
        !(precedes(left, right) && precedes(right, left)),
    decreases left.len(),
{
    if left.len() > 0 && right.len() > 0 && left[0] == right[0] {
        lemma_precedes_is_asymmetric(left.skip(1), right.skip(1));
    }
}

/// What comes before a text comes before every text that this one does not follow.
pub proof fn lemma_precedes_or_not(left: Seq<char>, right: Seq<char>, first: Seq<char>)
    requires
        !precedes(right, left),
        precedes(first, left),
    ensures
        precedes(first, right),
    decreases left.len(),
{
    if first.len() > 0 && right.len() > 0 && left.len() > 0 {
        if left[0] == right[0] && first[0] == left[0] {
            lemma_precedes_or_not(left.skip(1), right.skip(1), first.skip(1));
        }
    }
}

/// What comes before a text comes before everything that the text comes before.
pub proof fn lemma_precedes_is_transitive(first: Seq<char>, left: Seq<char>, right: Seq<char>)
    requires
        precedes(first, left),
        precedes(left, right),
    ensures
        precedes(first, right),
{
    lemma_precedes_is_asymmetric(left, right);
    lemma_precedes_or_not(left, right, first);
}

/// Of two different texts, one comes before the other.
pub proof fn lemma_precedes_is_total(left: Seq<char>, right: Seq<char>)
    requires
        left != right,
    ensures
        precedes(left, right) || precedes(right, left),
    decreases left.len(),
{
    if left.len() == 0 && right.len() == 0 {
        assert(left =~= right);
    } else if left.len() > 0 && right.len() > 0 && left[0] == right[0] {
        if left.skip(1) == right.skip(1) {
            assert(left =~= seq![left[0]] + left.skip(1));
            assert(right =~= seq![right[0]] + right.skip(1));
        }
        lemma_precedes_is_total(left.skip(1), right.skip(1));
    }
}

/// The first `count` characters, or all of them where there are fewer.
pub open spec fn at_most(text: Seq<char>, count: nat) -> Seq<char> {
    if text.len() <= count { text } else { text.take(count as int) }
}

/// The lower-case form of an ASCII letter; any other character unchanged.
pub open spec fn lower(c: char) -> char {
    if 'A' <= c <= 'Z' {
        (c as u32 + 32) as char
    } else {
        c
    }
}

/// `text` with its ASCII letters in lower case.
pub open spec fn lowered(text: Seq<char>) -> Seq<char> {
    text.map_values(|c: char| lower(c))
}

/// The lower-case form of an ASCII letter; any other character unchanged.
pub fn lower_char(c: char) -> (result: char)
    ensures
        result == lower(c),
{
    if 'A' <= c && c <= 'Z' {
        (c as u8 + 32u8) as char
    } else {
        c
    }
}

/// `text` with its ASCII letters in lower case.
pub fn lower_chars(text: &str) -> (result: Vec<char>)
    ensures
        result@ == lowered(text@),
{
    let chars = chars_of(text);
    let mut result: Vec<char> = Vec::new();
    let mut at: usize = 0;
    while at < chars.len()
        invariant
            at <= chars@.len(),
            chars@ == text@,
            result@ == lowered(text@.take(at as int)),
        decreases chars@.len() - at,
    {
        result.push(lower_char(chars[at]));
        at += 1;
        proof {
            assert(result@ =~= lowered(text@.take(at as int)));
        }
    }
    proof {
        assert(text@.take(at as int) =~= text@);
    }
    result
}

/// The character of a decimal digit.
pub open spec fn digit_char(digit: int) -> char {
    (48 + digit) as char
}

/// `number` in decimal notation.
pub open spec fn decimal(number: nat) -> Seq<char>
    decreases number,
{
    if number < 10 {
        seq![digit_char(number as int)]
    } else {
        decimal(number / 10).push(digit_char((number % 10) as int))
    }
}

/// Different numbers have different decimal notations.
pub proof fn lemma_decimals_differ(a: nat, b: nat)
    requires
        a != b,
    ensures
        decimal(a) != decimal(b),
    decreases a + b,
{
    if decimal(a) == decimal(b) {
        assert(decimal(a).len() > 0);
        if a < 10 && b < 10 {
            assert(decimal(a)[0] == decimal(b)[0]);
        } else if a >= 10 && b >= 10 {
            assert(decimal(a).last() == decimal(b).last());
            assert(decimal(a).drop_last() =~= decimal(a / 10));
            assert(decimal(b).drop_last() =~= decimal(b / 10));
            if a / 10 != b / 10 {
                lemma_decimals_differ(a / 10, b / 10);
            }
        } else if a < 10 {
            assert(decimal(b / 10).len() > 0);
        } else {
            assert(decimal(a / 10).len() > 0);
        }
    }
}

/// `number` in decimal notation.
pub fn decimal_string(number: u64) -> (text: String)
    ensures
        text@ == decimal(number as nat),
    decreases number,
{
    let mut text: String = if number < 10 {
        String::new()
    } else {
        decimal_string(number / 10)
    };
    text.push((48u8 + (number % 10) as u8) as char);
    proof {
        if number < 10 {
            assert(text@ =~= decimal(number as nat));
        }
    }
    text
}

/// Why text is not an unsigned number.
#[derive(Debug, Clone, Copy, PartialEq, Eq, Structural)]
pub enum NumberError {
    /// There is nothing to read.
    Empty,
    /// A character is not a decimal digit.
    InvalidDigit,
    /// The number is above the largest one allowed.
    TooLarge,
}

impl NumberError {
    /// Human-readable reason.
    pub open spec fn spec_reason(self) -> Seq<char> {
        match self {
            NumberError::Empty => "cannot parse integer from empty string"@,
            NumberError::InvalidDigit => "invalid digit found in string"@,
            NumberError::TooLarge => "number too large to fit in target type"@,
        }
    }

    /// Human-readable reason.
    pub fn reason(self) -> (text: &'static str)
        ensures
            text@ == self.spec_reason(),
    {
        match self {
            NumberError::Empty => "cannot parse integer from empty string",
            NumberError::InvalidDigit => "invalid digit found in string",
            NumberError::TooLarge => "number too large to fit in target type",
        }
    }
}

/// Reads `digits` behind the digits that gave `so_far`, from left to right;
/// the first character that cannot be taken decides the error.
pub open spec fn read_digits(digits: Seq<char>, so_far: nat, largest: nat) -> Result<
    nat,
    NumberError,
>
    decreases digits.len(),
{
    if digits.len() == 0 {
        Ok(so_far)
    } else if !('0' <= digits[0] <= '9') {
        Err(NumberError::InvalidDigit)
    } else {
        let value: nat = so_far * 10 + (digits[0] as nat - 48) as nat;
        if value > largest {
            Err(NumberError::TooLarge)
        } else {
            read_digits(digits.skip(1), value, largest)
        }
    }
}

/// The unsigned number that `text` denotes: decimal digits, with an optional
/// plus sign in front of them.
pub open spec fn read_number(text: Seq<char>, largest: nat) -> Result<nat, NumberError> {
    if text.len() == 0 {
        Err(NumberError::Empty)
    } else if text[0] == '+' && text.len() > 1 {
        read_digits(text.skip(1), 0, largest)
    } else {
        read_digits(text, 0, largest)
    }
}

/// The unsigned number, at most `largest`, that `text` denotes.
pub fn parse_number(text: &str, largest: u64) -> (result: Result<u64, NumberError>)
    ensures
        match result {
            Ok(number) => read_number(text@, largest as nat) == Ok::<nat, NumberError>(
                number as nat,
            ),
            Err(error) => read_number(text@, largest as nat) == Err::<nat, NumberError>(error),
        },
{
    let chars = chars_of(text);
    if chars.len() == 0 {
        return Err(NumberError::Empty);
    }
    let from: usize = if chars[0] == '+' && chars.len() > 1 {
        1
    } else {
        0
    };
    let ghost goal = read_number(text@, largest as nat);
    let mut at: usize = from;
    let mut value: u64 = 0;
    proof {
        assert(text@.skip(0) =~= text@);
    }
    while at < chars.len()
        invariant
            at <= chars@.len(),
            chars@ == text@,
            value <= largest,
            goal == read_number(text@, largest as nat),
            goal == read_digits(text@.skip(at as int), value as nat, largest as nat),
        decreases chars@.len() - at,
    {
        let c: char = chars[at];
        proof {
            assert(text@.skip(at as int).skip(1) =~= text@.skip(at + 1));
        }
        if !('0' <= c && c <= '9') {
            return Err(NumberError::InvalidDigit);
        }
        let digit: u64 = (c as u8 - 48u8) as u64;
        let next: u128 = value as u128 * 10 + digit as u128;
        if next > largest as u128 {
            return Err(NumberError::TooLarge);
        }
        value = next as u64;
        at += 1;
    }
    Ok(value)
}

/// A number that is read is at most the largest that is allowed.
pub proof fn lemma_number_is_bounded(value: Seq<char>, largest: nat)
    ensures
        read_number(value, largest) matches Ok(number) ==> number <= largest,
{
    if value.len() > 0 {
        if value[0] == '+' && value.len() > 1 {
            lemma_digits_are_bounded(value.skip(1), 0, largest);
        } else {
            lemma_digits_are_bounded(value, 0, largest);
        }
    }
}

proof fn lemma_digits_are_bounded(digits: Seq<char>, so_far: nat, largest: nat)
    requires
        so_far <= largest,
    ensures
        read_digits(digits, so_far, largest) matches Ok(number) ==> number <= largest,
    decreases digits.len(),
{
    if digits.len() > 0 && '0' <= digits[0] <= '9' {
        let value: nat = so_far * 10 + (digits[0] as nat - 48) as nat;
        if value <= largest {
            lemma_digits_are_bounded(digits.skip(1), value, largest);
        }
    }
}

} // verus!
