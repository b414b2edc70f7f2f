//! What the text helpers do to text, character by character.
use vstd::prelude::*;

use crate::paths;
use crate::text::{self, NumberError};

verus! {

/// Spaces, tabs and line ends are white space; letters, digits and ASCII marks are none.
pub proof fn lemma_white_space_is_told_apart(c: char)
    ensures
        c == ' ' || c == '\t' || c == '\n' || c == '\r' ==> text::is_white_space(c),
        '!' <= c <= '~' ==> !text::is_white_space(c),
{
}

/// Trimming takes away white space at both ends and nothing else: what is left stands in the
/// text, nothing but white space stands around it, and no white space is at its ends.
pub proof fn lemma_trim_takes_white_space_alone(all: Seq<char>)
    ensures
        exists|from: int, to: int| #[trigger]
            stands_between_white_space(all, from, to) && text::trimmed(all) == all.subrange(
                from,
                to,
            ),
        text::trimmed(all).len() > 0 ==> !text::is_white_space(text::trimmed(all)[0])
            && !text::is_white_space(text::trimmed(all).last()),
        text::trimmed(all).len() == 0 <==> forall|i: int|
            0 <= i < all.len() ==> text::is_white_space(#[trigger] all[i]),
{
    let from = lemma_start_of_trimmed(all);
    let start = all.skip(from);
    let length = lemma_end_of_trimmed(start);
    let to = from + length;
    assert(text::trimmed(all) =~= all.subrange(from, to));
    assert forall|i: int| to <= i < all.len() implies text::is_white_space(#[trigger] all[i]) by {
        assert(start[i - from] == all[i]);
    }
    assert(stands_between_white_space(all, from, to));
    text::lemma_trimmed_is_within(all);
    if text::trimmed(all).len() > 0 {
        assert(text::trimmed(all)[0] == all[from]);
    }
}

/// Whether nothing but white space stands in front of `from` and from `to` on.
pub open spec fn stands_between_white_space(all: Seq<char>, from: int, to: int) -> bool {
    &&& 0 <= from <= to <= all.len()
    &&& forall|i: int| 0 <= i < from ==> text::is_white_space(#[trigger] all[i])
    &&& forall|i: int| to <= i < all.len() ==> text::is_white_space(#[trigger] all[i])
}

proof fn lemma_start_of_trimmed(all: Seq<char>) -> (from: int)
    ensures
        0 <= from <= all.len(),
        text::trimmed_start(all) == all.skip(from),
        forall|i: int| 0 <= i < from ==> text::is_white_space(#[trigger] all[i]),
    decreases all.len(),
{
    if all.len() > 0 && text::is_white_space(all[0]) {
        let rest = all.skip(1);
        let from = lemma_start_of_trimmed(rest);
        assert(rest.skip(from) =~= all.skip(from + 1));
        assert forall|i: int| 0 <= i < from + 1 implies text::is_white_space(
            #[trigger] all[i],
        ) by {
            if i > 0 {
                assert(rest[i - 1] == all[i]);
            }
        }
        from + 1
    } else {
        assert(all.skip(0) =~= all);
        0
    }
}

proof fn lemma_end_of_trimmed(all: Seq<char>) -> (length: int)
    ensures
        0 <= length <= all.len(),
        text::trimmed_end(all) == all.take(length),
        forall|i: int| length <= i < all.len() ==> text::is_white_space(#[trigger] all[i]),
    decreases all.len(),
{
    if all.len() > 0 && text::is_white_space(all.last()) {
        let front = all.drop_last();
        let length = lemma_end_of_trimmed(front);
        assert(front.take(length) =~= all.take(length));
        assert forall|i: int| length <= i < all.len() implies text::is_white_space(
            #[trigger] all[i],
        ) by {
            if i < front.len() {
                assert(front[i] == all[i]);
            }
        }
        length
    } else {
        assert(all.take(all.len() as int) =~= all);
        all.len() as int
    }
}

/// Text is cut at the first occurrence of a pattern: what is in front, the pattern and what is
/// behind make up the text, and the pattern does not begin earlier. Text without it is left
/// whole.
pub proof fn lemma_text_is_cut_at_pattern(all: Seq<char>, pattern: Seq<char>)
    ensures
        text::contains(all, pattern) ==> text::after_first(all, pattern) is Some && all
            == text::before_first(all, pattern) + pattern + text::after_first(all, pattern)->0,
        text::contains(all, pattern) ==> forall|at: int|
            0 <= at < text::before_first(all, pattern).len() ==> !text::occurs_at(
                all,
                pattern,
                at,
            ),
        !text::contains(all, pattern) ==> text::after_first(all, pattern) is None
            && text::before_first(all, pattern) == all,
{
    if text::contains(all, pattern) {
        text::lemma_first_index_is_first(all, pattern);
        let at = text::first_index(all, pattern)->0;
        assert(all.subrange(at, at + pattern.len()) == pattern);
        assert forall|i: int| 0 <= i < pattern.len() implies all[at + i] == pattern[i] by {
            assert(all.subrange(at, at + pattern.len())[i] == all[at + i]);
        }
        assert(all =~= all.take(at) + pattern + all.skip(at + pattern.len()));
    }
}

/// A pattern that was put between two texts is found.
pub proof fn lemma_pattern_within_is_found(
    before: Seq<char>,
    pattern: Seq<char>,
    after: Seq<char>,
)
    ensures
        text::contains(before + pattern + after, pattern),
{
    let whole = before + pattern + after;
    let at = before.len() as int;
    assert(whole.subrange(at, at + pattern.len()) =~= pattern);
    assert(text::occurs_at(whole, pattern, at));
}

/// Text is cut behind the last of a character: what is behind ends the text and holds none, and
/// the character stands right in front of it unless it is the whole text.
pub proof fn lemma_text_is_cut_behind_last(front: Seq<char>, c: char, rest: Seq<char>)
    requires
        !rest.contains(c),
    ensures
        text::after_last(front.push(c) + rest, c) == rest,
        text::after_last(rest, c) == rest,
    decreases rest.len(),
{
    let whole = front.push(c) + rest;
    if rest.len() == 0 {
        assert(whole =~= front.push(c));
        assert(text::after_last(rest, c) =~= rest);
        assert(text::after_last(whole, c) =~= rest);
    } else {
        let shorter = rest.drop_last();
        assert(rest.contains(rest.last()));
        assert forall|i: int| 0 <= i < shorter.len() implies shorter[i] != c by {
            assert(rest.contains(rest[i]));
        }
        lemma_text_is_cut_behind_last(front, c, shorter);
        assert(whole.drop_last() =~= front.push(c) + shorter);
        assert(shorter.push(rest.last()) =~= rest);
    }
}

/// The first difference decides the order of two texts.
pub proof fn lemma_first_difference_decides(left: Seq<char>, right: Seq<char>, at: int)
    requires
        0 <= at < left.len(),
        at < right.len(),
        left.take(at) == right.take(at),
        left[at] != right[at],
    ensures
        text::precedes(left, right) <==> left[at] < right[at],
    decreases at,
{
    if at > 0 {
        assert(left.take(at)[0] == left[0] && right.take(at)[0] == right[0]);
        assert(left.skip(1).take(at - 1) =~= left.take(at).skip(1));
        assert(right.skip(1).take(at - 1) =~= right.take(at).skip(1));
        lemma_first_difference_decides(left.skip(1), right.skip(1), at - 1);
    }
}

/// A beginning comes before the whole, and nothing comes before itself.
pub proof fn lemma_beginning_comes_first(left: Seq<char>, rest: Seq<char>)
    ensures
        rest.len() > 0 ==> text::precedes(left, left + rest),
        !text::precedes(left + rest, left),
        !text::precedes(left, left),
    decreases left.len(),
{
    if left.len() > 0 {
        lemma_beginning_comes_first(left.skip(1), rest);
        assert((left + rest).skip(1) =~= left.skip(1) + rest);
    } else {
        assert(left + rest =~= rest);
    }
}

/// Lower case changes the ASCII capitals into the small letters and nothing else.
pub proof fn lemma_lower_case_is_per_character(all: Seq<char>, at: int)
    requires
        0 <= at < all.len(),
    ensures
        text::lowered(all).len() == all.len(),
        'A' <= all[at] <= 'Z' ==> text::lowered(all)[at] as int == all[at] as int + 32,
        !('A' <= all[at] <= 'Z') ==> text::lowered(all)[at] == all[at],
{
}

/// A cut text is a beginning of at most so many characters, and a text that fits is left whole.
pub proof fn lemma_cut_text_is_a_beginning(all: Seq<char>, count: nat)
    ensures
        text::at_most(all, count).len() <= count,
        all.len() <= count ==> text::at_most(all, count) == all,
        all.len() > count ==> text::at_most(all, count).len() == count,
        forall|i: int|
            0 <= i < text::at_most(all, count).len() ==> text::at_most(all, count)[i] == all[i],
{
}

/// Numbers are written digit by digit, the last one last.
pub proof fn lemma_decimal_is_written_by_digits(number: nat, digit: nat)
    requires
        digit < 10,
    ensures
        text::decimal(digit).len() == 1,
        text::decimal(digit)[0] as int == '0' as int + digit,
        number > 0 ==> text::decimal(number * 10 + digit) == text::decimal(number).push(
            text::decimal(digit)[0],
        ),
{
    assert((number * 10 + digit) / 10 == number);
    assert((number * 10 + digit) % 10 == digit);
}

proof fn lemma_digits_are_read_in_turn(
    first: Seq<char>,
    second: Seq<char>,
    so_far: nat,
    largest: nat,
)
    ensures
        text::read_digits(first + second, so_far, largest) == match text::read_digits(
            first,
            so_far,
            largest,
        ) {
            Ok(value) => text::read_digits(second, value, largest),
            Err(error) => Err(error),
        },
    decreases first.len(),
{
    let all = first + second;
    if first.len() == 0 {
        assert(all =~= second);
    } else if '0' <= first[0] <= '9' {
        let value: nat = so_far * 10 + (first[0] as nat - 48) as nat;
        assert(all.skip(1) =~= first.skip(1) + second);
        if value <= largest {
            lemma_digits_are_read_in_turn(first.skip(1), second, value, largest);
        }
    }
}

proof fn lemma_decimal_is_read(number: nat, largest: nat)
    requires
        number <= largest,
    ensures
        text::decimal(number).len() > 0,
        '0' <= text::decimal(number)[0] <= '9',
        text::read_digits(text::decimal(number), 0, largest) == Ok::<nat, NumberError>(number),
    decreases number,
{
    let digit = (number % 10) as int;
    let last = seq![text::digit_char(digit)];
    if number < 10 {
        assert(text::decimal(number) =~= last);
        assert(last.skip(1) =~= Seq::<char>::empty());
        assert(text::read_digits(last.skip(1), number, largest) == Ok::<nat, NumberError>(
            number,
        ));
    } else {
        let front = text::decimal(number / 10);
        lemma_decimal_is_read(number / 10, largest);
        lemma_digits_are_read_in_turn(front, last, 0, largest);
        assert(text::decimal(number) =~= front + last);
        assert(last.skip(1) =~= Seq::<char>::empty());
        assert((number / 10) * 10 + number % 10 == number);
        assert(text::read_digits(last.skip(1), number, largest) == Ok::<nat, NumberError>(
            number,
        ));
    }
}

/// A number that was written is read again, with a plus sign in front or without.
pub proof fn lemma_written_number_is_read(number: nat, largest: nat)
    requires
        number <= largest,
    ensures
        text::read_number(text::decimal(number), largest) == Ok::<nat, NumberError>(number),
        text::read_number(seq!['+'] + text::decimal(number), largest) == Ok::<nat, NumberError>(
            number,
        ),
{
    lemma_decimal_is_read(number, largest);
    let signed = seq!['+'] + text::decimal(number);
    assert(signed.skip(1) =~= text::decimal(number));
}

/// Nothing, a sign alone and any other character are no numbers, and a number that is too large
/// is refused as such.
pub proof fn lemma_other_text_is_no_number(digits: Seq<char>, rest: Seq<char>, largest: nat)
    ensures
        text::read_number(Seq::empty(), largest) == Err::<nat, NumberError>(NumberError::Empty),
        text::read_number(seq!['+'], largest) == Err::<nat, NumberError>(
            NumberError::InvalidDigit,
        ),
        rest.len() > 0 && !('0' <= rest[0] <= '9') && rest[0] != '+' ==> text::read_number(
            rest,
            largest,
        ) == Err::<nat, NumberError>(NumberError::InvalidDigit),
        text::read_number(digits, largest) is Ok && rest.len() > 0 && !('0' <= rest[0] <= '9')
            && digits != seq!['+'] ==> text::read_number(digits + rest, largest) == Err::<
            nat,
            NumberError,
        >(NumberError::InvalidDigit),
{
    if text::read_number(digits, largest) is Ok && rest.len() > 0 && !('0' <= rest[0] <= '9') {
        assert((digits + rest)[0] == digits[0]);
        if digits[0] == '+' && digits.len() > 1 {
            lemma_digits_are_read_in_turn(digits.skip(1), rest, 0, largest);
            assert((digits + rest).skip(1) =~= digits.skip(1) + rest);
        } else {
            lemma_digits_are_read_in_turn(digits, rest, 0, largest);
        }
    }
}

/// A number above the largest is refused as too large.
pub proof fn lemma_large_number_is_refused(number: nat, largest: nat)
    requires
        number > largest,
    ensures
        text::read_number(text::decimal(number), largest) == Err::<nat, NumberError>(
            NumberError::TooLarge,
        ),
{
    lemma_large_digits_are_refused(number, largest);
    lemma_decimal_is_read(number, number);
}

proof fn lemma_large_digits_are_refused(number: nat, largest: nat)
    requires
        number > largest,
    ensures
        text::read_digits(text::decimal(number), 0, largest) == Err::<nat, NumberError>(
            NumberError::TooLarge,
        ),
    decreases number,
{
    let last = seq![text::digit_char((number % 10) as int)];
    if number < 10 {
        assert(text::decimal(number) =~= last);
    } else {
        let front = text::decimal(number / 10);
        lemma_digits_are_read_in_turn(front, last, 0, largest);
        assert(text::decimal(number) =~= front + last);
        assert((number / 10) * 10 + number % 10 == number);
        if number / 10 > largest {
            lemma_large_digits_are_refused(number / 10, largest);
        } else {
            lemma_decimal_is_read(number / 10, largest);
        }
    }
}

/// Whether text names a file of a directory: it is not empty, holds no slash, and is not one of
/// the two names that stand for directories.
pub open spec fn is_plain_name(name: Seq<char>) -> bool {
    &&& name.len() > 0
    &&& !name.contains('/')
    &&& name != "."@
    &&& name != ".."@
}

proof fn lemma_plain_name_is_not_stripped(front: Seq<char>, name: Seq<char>)
    requires
        is_plain_name(name),
    ensures
        paths::stripped(front.push('/') + name) == front.push('/') + name,
        paths::stripped(name) == name,
{
    reveal_strlit(".");
    let whole = front.push('/') + name;
    assert(whole.last() == name.last());
    assert(name.contains(name.last()));
    if name.len() == 1 && name.last() == '.' {
        assert(name =~= "."@);
    }
    if name.len() > 1 {
        assert(whole[whole.len() - 2] == name[name.len() - 2]);
        assert(name.contains(name[name.len() - 2]));
    }
}

/// A file of a directory is named by the directory's path, a slash and its name; its name and
/// its directory are found again in the path.
pub proof fn lemma_joined_path_is_taken_apart(dir: Seq<char>, name: Seq<char>)
    requires
        is_plain_name(name),
        dir.len() > 0,
        dir.last() != '/',
    ensures
        paths::joined(dir, name) == dir + seq!['/'] + name,
        paths::joined(dir + seq!['/'], name) == dir + seq!['/'] + name,
        paths::joined(Seq::empty(), name) == name,
        paths::file_name(paths::joined(dir, name)) == Some(name),
        paths::file_name(name) == Some(name),
        paths::stripped(dir) == dir ==> paths::parent(paths::joined(dir, name)) == Some(dir),
        paths::parent(name) == Some(Seq::<char>::empty()),
{
    reveal_strlit("/");
    assert("/"@ =~= seq!['/']);
    assert(name.contains(name[0]));
    let whole = dir.push('/') + name;
    assert(dir + seq!['/'] + name =~= whole);
    assert(paths::joined(dir, name) =~= whole);
    assert(dir + seq!['/'] =~= dir.push('/'));
    assert(Seq::<char>::empty() + name =~= name);
    lemma_plain_name_is_not_stripped(dir, name);
    lemma_text_is_cut_behind_last(dir, '/', name);
    let front = whole.take(whole.len() - name.len());
    assert(front =~= dir.push('/'));
    assert(front.drop_last() =~= dir);
    assert(paths::stripped(front) == paths::stripped(dir));
    assert(name.take(0) =~= Seq::<char>::empty());
    assert(paths::stripped(name.take(0)) =~= Seq::<char>::empty());
}

/// An absolute name is a path of its own, whatever directory it is joined to.
pub proof fn lemma_absolute_name_stands_alone(dir: Seq<char>, name: Seq<char>)
    requires
        name.len() > 0,
        name[0] == '/',
    ensures
        paths::joined(dir, name) == name,
{
}

/// What stands behind the last dot of a name is its extension; a name without a dot, or with
/// one in front alone, has none.
pub proof fn lemma_extension_is_behind_the_last_dot(stem: Seq<char>, extension: Seq<char>)
    requires
        stem.len() > 0,
        !stem.contains('/'),
        !extension.contains('/'),
        !extension.contains('.'),
        is_plain_name(stem + seq!['.'] + extension),
    ensures
        paths::extension(stem + seq!['.'] + extension) == Some(extension),
        is_plain_name(extension) ==> paths::extension(extension) is None,
        is_plain_name(seq!['.'] + extension) ==> paths::extension(seq!['.'] + extension) is None,
{
    let name = stem + seq!['.'] + extension;
    lemma_plain_name_is_not_stripped(stem, name);
    lemma_text_is_cut_behind_last(stem, '/', name);
    lemma_text_is_cut_behind_last(stem, '.', extension);
    assert(stem.push('.') + extension =~= name);
    if is_plain_name(extension) {
        lemma_plain_name_is_not_stripped(stem, extension);
        lemma_text_is_cut_behind_last(stem, '/', extension);
    }
    let hidden = seq!['.'] + extension;
    if is_plain_name(hidden) {
        lemma_plain_name_is_not_stripped(stem, hidden);
        lemma_text_is_cut_behind_last(stem, '/', hidden);
        lemma_text_is_cut_behind_last(Seq::empty(), '.', extension);
        assert(Seq::<char>::empty().push('.') + extension =~= hidden);
    }
}

/// Text that is no number is refused with the reason for it.
pub proof fn lemma_number_errors_say_why()
    ensures
        NumberError::Empty.spec_reason() == "cannot parse integer from empty string"@,
        NumberError::InvalidDigit.spec_reason() == "invalid digit found in string"@,
        NumberError::TooLarge.spec_reason() == "number too large to fit in target type"@,
{
}

} // verus!
