//! Text that the proxy reads from its environment and writes into its messages.

use vstd::prelude::*;

verus! {

/// The decimal digit for `d`, which is below ten.
pub open spec fn digit_char(d: nat) -> char {
    (('0' as nat) + d) as char
}

/// `n` in decimal, without leading zeros.
pub open spec fn decimal(n: nat) -> Seq<char>
    decreases n,
{
    if n < 10 {
        seq![digit_char(n)]
    } else {
        decimal(n / 10).push(digit_char(n % 10))
    }
}

/// `n` in decimal, with a minus sign where it is negative.
pub open spec fn decimal_int(n: int) -> Seq<char> {
    if n < 0 {
        seq!['-'] + decimal((-n) as nat)
    } else {
        decimal(n as nat)
    }
}

fn digit_text(d: u64) -> (text: &'static str)
    requires
        d < 10,
    ensures
        text@ == seq![digit_char(d as nat)],
{
    proof {
        reveal_strlit("0");
        reveal_strlit("1");
        reveal_strlit("2");
        reveal_strlit("3");
        reveal_strlit("4");
        reveal_strlit("5");
        reveal_strlit("6");
        reveal_strlit("7");
        reveal_strlit("8");
        reveal_strlit("9");
    }
    match d {
        0 => "0",
        1 => "1",
        2 => "2",
        3 => "3",
        4 => "4",
        5 => "5",
        6 => "6",
        7 => "7",
        8 => "8",
        _ => "9",
    }
}

/// `n` written in decimal.
pub fn decimal_text(n: u64) -> (text: String)
    ensures
        text@ == decimal(n as nat),
    decreases n,
{
    if n < 10 {
        digit_text(n).to_owned()
    } else {
        let mut text = decimal_text(n / 10);
        text.append(digit_text(n % 10));
        text
    }
}

/// `n` written in decimal, with a minus sign where it is negative.
pub fn decimal_int_text(n: i32) -> (text: String)
    ensures
        text@ == decimal_int(n as int),
{
    if n < 0 {
        let mut text = "-".to_owned();
        let magnitude: u64 = (-(n as i64)) as u64;
        text.append(decimal_text(magnitude).as_str());
        proof {
            reveal_strlit("-");
        }
        text
    } else {
        decimal_text(n as u64)
    }
}

/// `n` in decimal between two texts.
pub fn framed(before: &str, n: u64, after: &str) -> (text: String)
    ensures
        text@ == before@ + decimal(n as nat) + after@,
{
    let mut text = before.to_owned();
    text.append(decimal_text(n).as_str());
    text.append(after);
    text
}

/// The three texts, one behind the other.
pub fn joined(first: &str, second: &str, third: &str) -> (text: String)
    ensures
        text@ == first@ + second@ + third@,
{
    let mut text = first.to_owned();
    text.append(second);
    text.append(third);
    text
}

/// Is `c` a decimal digit?
pub open spec fn is_digit(c: char) -> bool {
    '0' <= c && c <= '9'
}

/// The number that a run of decimal digits writes.
pub open spec fn digits_value(digits: Seq<char>) -> nat
    decreases digits.len(),
{
    if digits.len() == 0 {
        0
    } else {
        10 * digits_value(digits.drop_last()) + ((digits.last() as nat) - ('0' as nat)) as nat
    }
}

/// The text behind a leading plus sign, where it has one.
pub open spec fn without_plus(text: Seq<char>) -> Seq<char> {
    if text.len() > 0 && text[0] == '+' {
        text.skip(1)
    } else {
        text
    }
}

/// The unsigned number that the text writes: decimal digits, at least one, behind a plus sign or
/// none, and nothing else.
pub open spec fn unsigned(text: Seq<char>) -> Option<nat> {
    let digits = without_plus(text);
    if digits.len() > 0 && (forall|i: int| 0 <= i < digits.len() ==> is_digit(digits[i])) {
        Some(digits_value(digits))
    } else {
        None
    }
}

/// The unsigned number that the text writes, where it is no greater than `max`.
pub open spec fn unsigned_up_to(text: Seq<char>, max: u64) -> Option<u64> {
    match unsigned(text) {
        Some(n) => if n <= max {
            Some(n as u64)
        } else {
            None
        },
        None => None,
    }
}

proof fn lemma_more_digits_are_no_less(digits: Seq<char>, count: int)
    requires
        0 <= count <= digits.len(),
    ensures
        digits_value(digits.take(count)) <= digits_value(digits),
    decreases digits.len() - count,
{
    if count < digits.len() {
        assert(digits.take(count + 1).drop_last() =~= digits.take(count));
        lemma_more_digits_are_no_less(digits, count + 1);
    } else {
        assert(digits.take(count) =~= digits);
    }
}

/// Read an unsigned number in decimal, as the proxy's numeric settings are written.
pub fn parse_unsigned(text: &str, max: u64) -> (number: Option<u64>)
    ensures
        number == unsigned_up_to(text@, max),
{
    let len: usize = text.unicode_len();
    let start: usize = if len > 0 && text.get_char(0) == '+' {
        1
    } else {
        0
    };
    let ghost digits = without_plus(text@);
    assert(digits =~= text@.skip(start as int));
    if start == len {
        return None;
    }
    let mut number: u64 = 0;
    let mut i: usize = start;
    while i < len
        invariant
            start <= i <= len,
            len == text@.len(),
            digits == text@.skip(start as int),
            digits == without_plus(text@),
            forall|k: int| 0 <= k < i - start ==> is_digit(digits[k]),
            number == digits_value(digits.take(i - start)),
            number <= max,
        decreases len - i,
    {
        let c = text.get_char(i);
        assert(c == digits[i - start]);
        if c < '0' || c > '9' {
            return None;
        }
        let digit: u64 = (c as u64) - ('0' as u64);
        assert(digits.take(i - start + 1).drop_last() =~= digits.take(i - start));
        proof {
            lemma_more_digits_are_no_less(digits, i - start + 1);
        }
        let shifted: u64 = match number.checked_mul(10) {
            Some(shifted) => shifted,
            None => return None,
        };
        number = match shifted.checked_add(digit) {
            Some(sum) => sum,
            None => return None,
        };
        if number > max {
            return None;
        }
        i += 1;
    }
    assert(digits.take(len - start) =~= digits);
    Some(number)
}

/// The number that a setting holds, where it was made and is a number no greater than `max`.
pub open spec fn setting(value: Option<String>, max: u64) -> Option<u64> {
    match value {
        Some(text) => unsigned_up_to(text@, max),
        None => None,
    }
}

/// The number that a setting holds, where it was made and is a number no greater than `max`.
pub fn read_setting(value: &Option<String>, max: u64) -> (number: Option<u64>)
    ensures
        number == setting(*value, max),
{
    match value {
        Some(text) => parse_unsigned(text.as_str(), max),
        None => None,
    }
}

/// The number that a setting holds, or the default where it holds none.
pub open spec fn setting_or(value: Option<String>, max: u64, default: u64) -> u64 {
    match setting(value, max) {
        Some(number) => number,
        None => default,
    }
}

/// The number that a setting holds, or the default where it holds none.
pub fn read_setting_or(value: &Option<String>, max: u64, default: u64) -> (number: u64)
    ensures
        number == setting_or(*value, max, default),
{
    match read_setting(value, max) {
        Some(number) => number,
        None => default,
    }
}

/// Are the two texts the same, character for character?
pub fn same_text(a: &str, b: &str) -> (same: bool)
    ensures
        same == (a@ == b@),
{
    a.to_owned() == b.to_owned()
}

/// Does the pattern stand somewhere in the text?
pub open spec fn occurs_in(pattern: Seq<char>, text: Seq<char>) -> bool {
    exists|i: int| #[trigger] occurs_at(pattern, text, i)
}

/// Does the pattern stand in the text from `at` on?
pub open spec fn occurs_at(pattern: Seq<char>, text: Seq<char>, at: int) -> bool {
    0 <= at && at + pattern.len() <= text.len() && text.subrange(at, at + pattern.len()) == pattern
}

/// Does the pattern stand somewhere in the text?
pub fn contains(text: &str, pattern: &str) -> (found: bool)
    ensures
        found == occurs_in(pattern@, text@),
{
    let len: usize = text.unicode_len();
    let width: usize = pattern.unicode_len();
    if width > len {
        return false;
    }
    let mut at: usize = 0;
    while at <= len - width
        invariant
            len == text@.len(),
            width == pattern@.len(),
            width <= len,
            at <= len - width + 1,
            forall|i: int| 0 <= i < at ==> !#[trigger] occurs_at(pattern@, text@, i),
        decreases len - width + 1 - at,
    {
        if same_text(text.substring_char(at, at + width), pattern) {
            assert(occurs_at(pattern@, text@, at as int));
            return true;
        }
        if at == len - width {
            return false;
        }
        at += 1;
    }
    false
}

/// The hexadecimal digit for `d`, which is below sixteen.
pub open spec fn hex_digit(d: u8) -> char {
    if d < 10 {
        (('0' as u8) + d) as char
    } else {
        (('a' as u8) + (d - 10)) as char
    }
}

/// The bytes in hexadecimal, two lower-case digits each.
pub open spec fn hex_text(bytes: Seq<u8>) -> Seq<char>
    decreases bytes.len(),
{
    if bytes.len() == 0 {
        seq![]
    } else {
        hex_text(bytes.drop_last()) + seq![
            hex_digit(bytes.last() / 16),
            hex_digit(bytes.last() % 16),
        ]
    }
}

fn hex_digit_text(d: u8) -> (text: &'static str)
    requires
        d < 16,
    ensures
        text@ == seq![hex_digit(d)],
{
    proof {
        reveal_strlit("a");
        reveal_strlit("b");
        reveal_strlit("c");
        reveal_strlit("d");
        reveal_strlit("e");
        reveal_strlit("f");
    }
    match d {
        10 => "a",
        11 => "b",
        12 => "c",
        13 => "d",
        14 => "e",
        15 => "f",
        _ => digit_text(d as u64),
    }
}

/// The bytes in hexadecimal, two lower-case digits each.
pub fn hex(bytes: &[u8]) -> (text: String)
    ensures
        text@ == hex_text(bytes@),
{
    let mut text = String::new();
    let mut i: usize = 0;
    while i < bytes.len()
        invariant
            i <= bytes@.len(),
            text@ == hex_text(bytes@.take(i as int)),
        decreases bytes@.len() - i,
    {
        assert(bytes@.take(i + 1).drop_last() =~= bytes@.take(i as int));
        text.append(hex_digit_text(bytes[i] / 16));
        text.append(hex_digit_text(bytes[i] % 16));
        i += 1;
        assert(text@ =~= hex_text(bytes@.take(i as int)));
    }
    assert(bytes@.take(i as int) =~= bytes@);
    text
}

/// Is `c` white space: does it have the Unicode property `White_Space`?
pub open spec fn is_white(c: char) -> bool {
    let code = c as u32;
    ||| 0x09 <= code <= 0x0d
    ||| code == 0x20
    ||| code == 0x85
    ||| code == 0xa0
    ||| code == 0x1680
    ||| 0x2000 <= code <= 0x200a
    ||| code == 0x2028
    ||| code == 0x2029
    ||| code == 0x202f
    ||| code == 0x205f
    ||| code == 0x3000
}

/// `char::is_whitespace`: whether the character has the Unicode property `White_Space`.
#[verifier::external_body]
fn white(c: char) -> (yes: bool)
    ensures
        yes == is_white(c),
{
    c.is_whitespace()
}

/// The text without the white space at its front.
pub open spec fn trimmed_front(text: Seq<char>) -> Seq<char>
    decreases text.len(),
{
    if text.len() > 0 && is_white(text[0]) {
        trimmed_front(text.skip(1))
    } else {
        text
    }
}

/// The text without the white space at its end.
pub open spec fn trimmed_end(text: Seq<char>) -> Seq<char>
    decreases text.len(),
{
    if text.len() > 0 && is_white(text.last()) {
        trimmed_end(text.drop_last())
    } else {
        text
    }
}

/// The text without the white space at its two ends.
pub open spec fn trimmed(text: Seq<char>) -> Seq<char> {
    trimmed_end(trimmed_front(text))
}

/// `str::trim`: the text without the white space at its two ends, where white space is what
/// `char::is_whitespace` says it is.
#[verifier::external_body]
pub(crate) fn trim_text(text: &str) -> (rest: &str)
    ensures
        rest@ == trimmed(text@),
{
    text.trim()
}

/// The numbers that stand alone between white space, in their order, no greater than `max`; words
/// that are no such numbers are passed over. `word` is what was read of the word at the front.
pub open spec fn numbers_among(word: Seq<char>, rest: Seq<char>, max: u64) -> Seq<u64>
    decreases rest.len(),
{
    if rest.len() > 0 && !is_white(rest[0]) {
        numbers_among(word.push(rest[0]), rest.skip(1), max)
    } else {
        let head = match unsigned_up_to(word, max) {
            Some(number) => seq![number],
            None => seq![],
        };
        if rest.len() == 0 {
            head
        } else {
            head + numbers_among(seq![], rest.skip(1), max)
        }
    }
}

/// The numbers in a list that is separated by white space; words that are no numbers are passed
/// over.
pub fn read_numbers(text: &str, max: u64) -> (numbers: Vec<u64>)
    ensures
        numbers@ == numbers_among(seq![], text@, max),
{
    let len: usize = text.unicode_len();
    let mut numbers: Vec<u64> = Vec::new();
    let mut start: usize = 0;
    let mut at: usize = 0;
    assert(text@.subrange(0, 0) =~= seq![]);
    assert(text@.skip(0) =~= text@);
    while at < len
        invariant
            len == text@.len(),
            start <= at <= len,
            numbers@ + numbers_among(
                text@.subrange(start as int, at as int),
                text@.skip(at as int),
                max,
            ) == numbers_among(seq![], text@, max),
        decreases len - at,
    {
        let ghost word = text@.subrange(start as int, at as int);
        let ghost rest = text@.skip(at as int);
        assert(rest.skip(1) =~= text@.skip(at + 1));
        if white(text.get_char(at)) {
            if let Some(number) = parse_unsigned(text.substring_char(start, at), max) {
                numbers.push(number);
            }
            assert(text@.subrange(at + 1, at + 1) =~= seq![]);
            start = at + 1;
        } else {
            assert(text@.subrange(start as int, at + 1) =~= word.push(rest[0]));
        }
        at += 1;
        assert(numbers@ + numbers_among(
            text@.subrange(start as int, at as int),
            text@.skip(at as int),
            max,
        ) =~= numbers_among(seq![], text@, max));
    }
    if let Some(number) = parse_unsigned(text.substring_char(start, at), max) {
        numbers.push(number);
    }
    assert(numbers@ =~= numbers_among(seq![], text@, max));
    numbers
}

/// Are all of these decimal digits?
spec fn all_digits(digits: Seq<char>) -> bool {
    forall|i: int| 0 <= i < digits.len() ==> is_digit(digits[i])
}

proof fn lemma_decimal_digits(n: nat)
    ensures
        decimal(n).len() > 0,
        all_digits(decimal(n)),
        digits_value(decimal(n)) == n,
    decreases n,
{
    if n >= 10 {
        lemma_decimal_digits(n / 10);
        assert(decimal(n).drop_last() =~= decimal(n / 10));
    } else {
        assert(decimal(n).drop_last() =~= seq![]);
        assert(digits_value(seq![]) == 0);
    }
}

/// A number that is written in decimal reads back as that number, with a plus sign before it or
/// without one.
pub proof fn law_a_written_number_reads_back(n: nat)
    ensures
        unsigned(decimal(n)) == Some(n),
        unsigned(seq!['+'] + decimal(n)) == Some(n),
        n < 10 ==> decimal(n) == seq![(48 + n) as char],
{
    lemma_decimal_digits(n);
    assert(is_digit(decimal(n)[0]));
    assert((seq!['+'] + decimal(n)).skip(1) =~= decimal(n));
}

/// A negative number is written as the positive one behind a minus sign.
pub proof fn law_a_negative_number_has_a_minus_sign(n: nat)
    requires
        n > 0,
    ensures
        decimal_int(n as int) == decimal(n),
        decimal_int(-n) == seq!['-'] + decimal(n),
{
}

proof fn lemma_leading_zero(digits: Seq<char>)
    ensures
        digits_value(seq!['0'] + digits) == digits_value(digits),
    decreases digits.len(),
{
    let longer = seq!['0'] + digits;
    if digits.len() > 0 {
        lemma_leading_zero(digits.drop_last());
        assert(longer.drop_last() =~= seq!['0'] + digits.drop_last());
        assert(longer.last() == digits.last());
    } else {
        assert(longer.drop_last() =~= seq![]);
        assert(digits_value(seq![]) == 0);
        assert(digits =~= seq![]);
    }
}

/// Zeros before a number change nothing.
pub proof fn law_leading_zeros_change_nothing(digits: Seq<char>)
    requires
        digits.len() > 0,
        forall|i: int| 0 <= i < digits.len() ==> '0' <= #[trigger] digits[i] && digits[i] <= '9',
    ensures
        unsigned(digits) is Some,
        unsigned(seq!['0'] + digits) == unsigned(digits),
{
    lemma_leading_zero(digits);
    let longer = seq!['0'] + digits;
    assert(digits[0] != '+');
    assert forall|i: int| 0 <= i < longer.len() implies is_digit(longer[i]) by {
        if i > 0 {
            assert(longer[i] == digits[i - 1]);
        }
    }
}

/// A text with anything but digits in it, behind a plus sign or none, is no number, and neither is
/// one without digits.
pub proof fn law_other_characters_make_no_number(text: Seq<char>, at: int)
    requires
        0 <= at < text.len(),
        text[at] < '0' || '9' < text[at],
        at > 0 || text[0] != '+' || text.len() == 1,
    ensures
        unsigned(text) is None,
        unsigned(seq![]) is None,
{
    if text[0] == '+' && at > 0 {
        assert(without_plus(text)[at - 1] == text[at]);
    } else if text[0] != '+' {
        assert(without_plus(text)[at] == text[at]);
    }
    assert(unsigned(Seq::<char>::empty()) is None);
}

/// A setting counts where it writes a number that is not too great, and is left at its default
/// elsewhere.
pub proof fn law_a_setting_counts_where_it_is_a_number(
    value: String,
    n: nat,
    max: u64,
    default: u64,
)
    requires
        value@ == decimal(n),
    ensures
        n <= max ==> setting_or(Some(value), max, default) == n,
        n <= max ==> setting(Some(value), max) == Some(n as u64),
        n > max ==> setting_or(Some(value), max, default) == default,
        n > max ==> setting(Some(value), max) is None,
        setting_or(None, max, default) == default,
        setting(None, max) is None,
{
    law_a_written_number_reads_back(n);
}

/// A setting that is no number is no setting.
pub proof fn law_a_setting_that_is_no_number_does_not_count(value: String, max: u64, default: u64)
    requires
        unsigned(value@) is None,
    ensures
        setting_or(Some(value), max, default) == default,
        setting(Some(value), max) is None,
{
}

/// Every byte is written with two digits, the first for its upper half.
pub proof fn law_a_byte_has_two_hex_digits(bytes: Seq<u8>, at: int)
    requires
        0 <= at < bytes.len(),
    ensures
        hex_text(bytes).len() == 2 * bytes.len(),
        hex_text(bytes)[2 * at] == "0123456789abcdef"@[bytes[at] as int / 16],
        hex_text(bytes)[2 * at + 1] == "0123456789abcdef"@[bytes[at] as int % 16],
    decreases bytes.len(),
{
    reveal_strlit("0123456789abcdef");
    if bytes.len() > 1 {
        let before = bytes.drop_last();
        law_a_byte_has_two_hex_digits(before, if at < before.len() { at } else { 0 });
    } else {
        assert(hex_text(bytes.drop_last()) =~= seq![]);
    }
}

proof fn lemma_front_goes(front: Seq<char>, rest: Seq<char>)
    requires
        forall|i: int| 0 <= i < front.len() ==> is_white(#[trigger] front[i]),
    ensures
        trimmed_front(front + rest) == trimmed_front(rest),
    decreases front.len(),
{
    if front.len() > 0 {
        let whole = front + rest;
        assert(whole[0] == front[0]);
        assert(whole.skip(1) =~= front.skip(1) + rest);
        lemma_front_goes(front.skip(1), rest);
    } else {
        assert(front + rest =~= rest);
    }
}

proof fn lemma_end_goes(rest: Seq<char>, end: Seq<char>)
    requires
        forall|i: int| 0 <= i < end.len() ==> is_white(#[trigger] end[i]),
    ensures
        trimmed_end(rest + end) == trimmed_end(rest),
    decreases end.len(),
{
    if end.len() > 0 {
        let whole = rest + end;
        assert(whole.last() == end[end.len() - 1]);
        assert(whole.drop_last() =~= rest + end.drop_last());
        lemma_end_goes(rest, end.drop_last());
    } else {
        assert(rest + end =~= rest);
    }
}

/// Trimming takes the white space at the two ends, and nothing else.
pub proof fn law_trimming_takes_the_ends(front: Seq<char>, core: Seq<char>, end: Seq<char>)
    requires
        forall|i: int| 0 <= i < front.len() ==> is_white(#[trigger] front[i]),
        forall|i: int| 0 <= i < end.len() ==> is_white(#[trigger] end[i]),
        core.len() > 0,
        !is_white(core[0]),
        !is_white(core.last()),
    ensures
        trimmed(front + core + end) == core,
{
    let rest = core + end;
    assert(front + core + end =~= front + rest);
    lemma_front_goes(front, rest);
    assert(rest[0] == core[0]);
    lemma_end_goes(core, end);
}

proof fn lemma_word_is_read(word: Seq<char>, more: Seq<char>, rest: Seq<char>, max: u64)
    requires
        forall|i: int| 0 <= i < more.len() ==> !is_white(#[trigger] more[i]),
    ensures
        numbers_among(word, more + rest, max) == numbers_among(word + more, rest, max),
    decreases more.len(),
{
    if more.len() > 0 {
        let whole = more + rest;
        assert(whole[0] == more[0]);
        assert(whole.skip(1) =~= more.skip(1) + rest);
        lemma_word_is_read(word.push(more[0]), more.skip(1), rest, max);
        assert(word.push(more[0]) + more.skip(1) =~= word + more);
    } else {
        assert(more + rest =~= rest);
        assert(word + more =~= word);
    }
}

/// A list is read word by word: the numbers in it are the first word, where that is a number, and
/// then those of the rest.
pub proof fn law_a_list_is_read_word_by_word(
    word: Seq<char>,
    blank: char,
    rest: Seq<char>,
    max: u64,
)
    requires
        forall|i: int| 0 <= i < word.len() ==> !is_white(#[trigger] word[i]),
        is_white(blank),
    ensures
        ({
            let first = match unsigned(word) {
                Some(n) if n <= max => seq![n as u64],
                _ => seq![],
            };
            &&& numbers_among(seq![], word, max) == first
            &&& numbers_among(seq![], word + seq![blank] + rest, max) == first + numbers_among(
                seq![],
                rest,
                max,
            )
        }),
{
    let behind = seq![blank] + rest;
    lemma_word_is_read(seq![], word, behind, max);
    assert(word + seq![blank] + rest =~= word + behind);
    assert(seq![] + word =~= word);
    assert(behind[0] == blank);
    assert(behind.skip(1) =~= rest);
    lemma_word_is_read(seq![], word, seq![], max);
    assert(word + seq![] =~= word);
}

} // verus!
