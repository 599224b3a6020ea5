//! Text as sequences of characters: searching, replacing, and decimal numbers.

use vstd::arithmetic::div_mod;
use vstd::arithmetic::power;
use vstd::prelude::*;

verus! {

/// `String::push` appends the character to the end of the string.
pub assume_specification[ std::string::String::push ](string: &mut std::string::String, ch: char)
    ensures
        final(string)@ == old(string)@.push(ch),
;

// ---------------------------------------------------------------------------
// Strings and vectors of characters
// ---------------------------------------------------------------------------

/// The text that an optional string holds.
pub open spec fn optional(text: Option<&str>) -> Option<Seq<char>> {
    match text {
        Some(text) => Some(text@),
        None => None,
    }
}

/// The texts that strings hold, in order.
pub open spec fn views(strings: Seq<String>) -> Seq<Seq<char>> {
    strings.map_values(|string: String| string@)
}

/// The characters of `text`, in order.
pub fn chars_of(text: &str) -> (chars: Vec<char>)
    ensures
        chars@ == text@,
{
    let mut chars: Vec<char> = Vec::new();
    for c in it: text.chars()
        invariant
            chars@ == it.seq().take(it.index()),
            it.seq() == text@,
    {
        chars.push(c);
    }
    assert(text@.take(text@.len() as int) == text@);
    chars
}

/// The string made of `chars`.
pub fn string_of(chars: &Vec<char>) -> (text: String)
    ensures
        text@ == chars@,
{
    let mut text = String::new();
    for i in 0..chars.len()
        invariant
            text@ == chars@.take(i as int),
    {
        text.push(chars[i]);
    }
    assert(chars@.take(chars@.len() as int) == chars@);
    text
}

/// Whether two strings hold the same characters.
pub fn same(left: &str, right: &str) -> (equal: bool)
    ensures
        equal == (left@ == right@),
{
    let a = chars_of(left);
    let b = chars_of(right);
    assert(a@.subrange(0, a@.len() as int) == a@);
    a.len() == b.len() && occurs_at(&a, &b, 0)
}

/// The texts of strings are those of each of them in turn, and one that is there is told from
/// one that is not.
pub proof fn law_texts_are_those_of_the_strings(strings: Seq<String>, string: &str)
    ensures
        views(strings).len() == strings.len(),
        forall|i: int| 0 <= i < strings.len() ==> #[trigger] views(strings)[i] == strings[i]@,
        optional(Some(string)) == Some(string@),
        optional(None) is None,
{
}

// ---------------------------------------------------------------------------
// Searching
// ---------------------------------------------------------------------------

/// Whether `pattern` stands in `text` at position `at`.
pub open spec fn is_at(text: Seq<char>, pattern: Seq<char>, at: int) -> bool {
    0 <= at && at + pattern.len() <= text.len() && text.subrange(at, at + pattern.len()) == pattern
}

/// The first position, from `from` on, at which `pattern` stands in `text`.
pub open spec fn position(text: Seq<char>, pattern: Seq<char>, from: int) -> Option<int>
    decreases text.len() + 1 - from,
{
    if from + pattern.len() > text.len() {
        None
    } else if is_at(text, pattern, from) {
        Some(from)
    } else {
        position(text, pattern, from + 1)
    }
}

fn occurs_at(text: &Vec<char>, pattern: &Vec<char>, at: usize) -> (found: bool)
    requires
        at + pattern@.len() <= text@.len(),
    ensures
        found == is_at(text@, pattern@, at as int),
{
    let length: usize = text.len();
    for i in 0..pattern.len()
        invariant
            at + pattern@.len() <= length,
            length == text@.len(),
            forall|k: int| 0 <= k < i ==> text@[at + k] == #[trigger] pattern@[k],
    {
        if text[at + i] != pattern[i] {
            assert(text@.subrange(at as int, at + pattern@.len())[i as int] != pattern@[i as int]);
            return false;
        }
    }
    assert(text@.subrange(at as int, at + pattern@.len()) =~= pattern@);
    true
}

/// Positions at which `pattern` does not stand can be passed over.
pub proof fn lemma_position_passes(text: Seq<char>, pattern: Seq<char>, from: int, to: int)
    requires
        from <= to,
        forall|at: int| from <= at < to ==> !#[trigger] is_at(text, pattern, at),
    ensures
        position(text, pattern, from) == position(text, pattern, to),
    decreases to - from,
{
    if from < to {
        lemma_position_passes(text, pattern, from + 1, to);
        if from + pattern.len() > text.len() {
            assert(position(text, pattern, to) is None);
        }
    }
}

/// What stands in front of a text moves positions in it, and does nothing else.
pub proof fn lemma_position_shifts(
    front: Seq<char>,
    text: Seq<char>,
    pattern: Seq<char>,
    from: int,
)
    requires
        0 <= from,
    ensures
        position(front + text, pattern, front.len() + from) == match position(
            text,
            pattern,
            from,
        ) {
            Some(at) => Some(front.len() + at),
            None => None,
        },
    decreases text.len() + 1 - from,
{
    if from + pattern.len() <= text.len() {
        assert((front + text).subrange(front.len() + from, front.len() + from + pattern.len())
            == text.subrange(from, from + pattern.len()));
        lemma_position_shifts(front, text, pattern, from + 1);
    }
}

/// A pattern that is found lies within the text, at or after the start of the search.
pub proof fn lemma_position_within(text: Seq<char>, pattern: Seq<char>, from: int)
    requires
        0 <= from,
    ensures
        position(text, pattern, from) matches Some(at) ==> from <= at && is_at(text, pattern, at),
    decreases text.len() + 1 - from,
{
    if from + pattern.len() <= text.len() && !is_at(text, pattern, from) {
        lemma_position_within(text, pattern, from + 1);
    }
}

/// A pattern stands at a position exactly if each of its characters stands there in turn.
pub proof fn law_a_pattern_stands_where_its_characters_do(
    text: Seq<char>,
    pattern: Seq<char>,
    at: int,
)
    ensures
        is_at(text, pattern, at) <==> 0 <= at && at + pattern.len() <= text.len() && forall|k: int|
            0 <= k < pattern.len() ==> text[at + k] == #[trigger] pattern[k],
{
    if 0 <= at && at + pattern.len() <= text.len() {
        let window = text.subrange(at, at + pattern.len());
        if window == pattern {
            assert forall|k: int| 0 <= k < pattern.len() implies text[at + k]
                == #[trigger] pattern[k] by {
                assert(window[k] == text[at + k]);
            }
        } else if forall|k: int| 0 <= k < pattern.len() ==> text[at + k] == #[trigger] pattern[k] {
            assert(window =~= pattern);
        }
    }
}

/// The position that a search gives is one at which the pattern stands, and there is none
/// before it from the start of the search on; if there is one at all, a position is given.
pub proof fn law_the_first_position_is_found(text: Seq<char>, pattern: Seq<char>, from: int)
    requires
        0 <= from,
    ensures
        match position(text, pattern, from) {
            Some(at) => from <= at && is_at(text, pattern, at) && forall|earlier: int|
                from <= earlier < at ==> !#[trigger] is_at(text, pattern, earlier),
            None => forall|at: int| from <= at ==> !#[trigger] is_at(text, pattern, at),
        },
    decreases text.len() + 1 - from,
{
    if from + pattern.len() <= text.len() && !is_at(text, pattern, from) {
        law_the_first_position_is_found(text, pattern, from + 1);
    }
}

/// Searches `text` for the first occurrence of `pattern` from position `from` on.
pub(crate) fn find(text: &Vec<char>, pattern: &Vec<char>, from: usize) -> (found: Option<usize>)
    requires
        from <= text@.len(),
    ensures
        match found {
            Some(at) => position(text@, pattern@, from as int) == Some(at as int) && from <= at
                && at + pattern@.len() <= text@.len() <= usize::MAX,
            None => position(text@, pattern@, from as int) is None,
        },
{
    let mut at: usize = from;
    while pattern.len() <= text.len() - at
        invariant
            from <= at <= text@.len(),
            position(text@, pattern@, from as int) == position(text@, pattern@, at as int),
        decreases text@.len() - at,
    {
        if occurs_at(text, pattern, at) {
            return Some(at);
        }
        assert(pattern@.len() > 0) by {
            assert(text@.subrange(at as int, at as int) =~= Seq::<char>::empty());
            assert(pattern@.len() == 0 ==> pattern@ =~= Seq::<char>::empty());
        }
        at = at + 1;
    }
    None
}

// ---------------------------------------------------------------------------
// Replacing
// ---------------------------------------------------------------------------

/// `text` with every occurrence of `pattern`, taken from the left and without overlaps,
/// replaced by the character `with`.
pub open spec fn replaced(text: Seq<char>, pattern: Seq<char>, with: char) -> Seq<char>
    decreases text.len(),
{
    if pattern.len() == 0 || text.len() < pattern.len() {
        text
    } else if is_at(text, pattern, 0) {
        seq![with] + replaced(text.skip(pattern.len() as int), pattern, with)
    } else {
        seq![text[0]] + replaced(text.skip(1), pattern, with)
    }
}

/// Text in which `pattern` does not begin is kept as it is.
pub proof fn lemma_replaced_passes(text: Seq<char>, pattern: Seq<char>, with: char, k: int)
    requires
        pattern.len() > 0,
        0 <= k <= text.len(),
        forall|at: int| 0 <= at < k ==> !#[trigger] is_at(text, pattern, at),
    ensures
        replaced(text, pattern, with) == text.take(k) + replaced(text.skip(k), pattern, with),
    decreases k,
{
    if k == 0 {
        assert(text.skip(0) == text);
        assert(text.take(0) + replaced(text, pattern, with) == replaced(text, pattern, with));
    } else if text.len() < pattern.len() {
        assert(text.take(k) + text.skip(k) == text);
    } else {
        let rest = text.skip(1);
        assert(!is_at(text, pattern, 0));
        assert forall|at: int| 0 <= at < k - 1 implies !#[trigger] is_at(rest, pattern, at) by {
            assert(!is_at(text, pattern, at + 1));
            if at + pattern.len() <= rest.len() {
                assert(rest.subrange(at, at + pattern.len()) == text.subrange(
                    at + 1,
                    at + 1 + pattern.len(),
                ));
            }
        }
        lemma_replaced_passes(rest, pattern, with, k - 1);
        assert(rest.skip(k - 1) == text.skip(k));
        assert(seq![text[0]] + (rest.take(k - 1) + replaced(text.skip(k), pattern, with))
            == text.take(k) + replaced(text.skip(k), pattern, with));
    }
}

/// The first occurrence of a pattern is replaced, what stands in front of it is kept, and what
/// follows it is treated likewise.
pub proof fn law_occurrences_are_replaced_in_turn(
    front: Seq<char>,
    pattern: Seq<char>,
    rest: Seq<char>,
    with: char,
)
    requires
        pattern.len() > 0,
        forall|at: int|
            0 <= at < front.len() ==> !#[trigger] is_at(front + pattern + rest, pattern, at),
    ensures
        replaced(front + pattern + rest, pattern, with) == front + seq![with] + replaced(
            rest,
            pattern,
            with,
        ),
{
    let whole = front + pattern + rest;
    let tail = whole.skip(front.len() as int);
    lemma_replaced_passes(whole, pattern, with, front.len() as int);
    assert(whole.take(front.len() as int) == front);
    assert(tail.subrange(0, pattern.len() as int) == pattern);
    assert(tail.skip(pattern.len() as int) == rest);
    assert(front + (seq![with] + replaced(rest, pattern, with)) == front + seq![with] + replaced(
        rest,
        pattern,
        with,
    ));
}

/// A text in which a pattern does not stand is kept as it is.
pub proof fn law_text_without_the_pattern_is_kept(
    text: Seq<char>,
    pattern: Seq<char>,
    with: char,
)
    requires
        pattern.len() > 0,
        forall|at: int| 0 <= at < text.len() ==> !#[trigger] is_at(text, pattern, at),
    ensures
        replaced(text, pattern, with) == text,
{
    lemma_replaced_passes(text, pattern, with, text.len() as int);
    assert(text.skip(text.len() as int) == Seq::<char>::empty());
    assert(text.take(text.len() as int) + Seq::<char>::empty() == text);
}

/// Where no occurrence of the pattern reaches from one text into the next, each is replaced in
/// by itself.
pub proof fn lemma_replaced_splits(a: Seq<char>, b: Seq<char>, pattern: Seq<char>, with: char)
    requires
        pattern.len() > 0,
        forall|at: int|
            0 <= at < a.len() < at + pattern.len() ==> !#[trigger] is_at(a + b, pattern, at),
    ensures
        replaced(a + b, pattern, with) == replaced(a, pattern, with) + replaced(b, pattern, with),
    decreases a.len(),
{
    if a.len() == 0 {
        assert(a + b == b);
        assert(replaced(a, pattern, with) == Seq::<char>::empty());
        assert(replaced(a, pattern, with) + replaced(b, pattern, with) == replaced(
            b,
            pattern,
            with,
        ));
    } else {
        let n: int = if is_at(a + b, pattern, 0) {
            pattern.len() as int
        } else {
            1
        };
        let rest = a.skip(n);
        assert((a + b).skip(n) == rest + b);
        assert forall|at: int| 0 <= at < rest.len() < at + pattern.len() implies !#[trigger] is_at(
            rest + b,
            pattern,
            at,
        ) by {
            assert(!is_at(a + b, pattern, at + n));
            if at + pattern.len() <= (rest + b).len() {
                assert((rest + b).subrange(at, at + pattern.len()) == (a + b).subrange(
                    at + n,
                    at + n + pattern.len(),
                ));
            }
        }
        lemma_replaced_splits(rest, b, pattern, with);
        if pattern.len() <= a.len() {
            assert(a.subrange(0, pattern.len() as int) == (a + b).subrange(
                0,
                pattern.len() as int,
            ));
        } else {
            assert(a == seq![a[0]] + rest);
        }
        let head = if is_at(a + b, pattern, 0) {
            seq![with]
        } else {
            seq![a[0]]
        };
        assert(replaced(a, pattern, with) == head + replaced(rest, pattern, with));
        assert(head + (replaced(rest, pattern, with) + replaced(b, pattern, with)) == head
            + replaced(rest, pattern, with) + replaced(b, pattern, with));
        if (a + b).len() < pattern.len() {
            assert(a + b == head + (rest + b));
        }
    }
}

/// Replaces every occurrence of `pattern` in `text` by the character `with`.
pub(crate) fn replace(text: &Vec<char>, pattern: &Vec<char>, with: char) -> (result: Vec<char>)
    requires
        pattern@.len() > 0,
    ensures
        result@ == replaced(text@, pattern@, with),
{
    let mut result: Vec<char> = Vec::new();
    let mut at: usize = 0;
    assert(text@.skip(0) == text@);
    while at < text.len()
        invariant
            at <= text@.len(),
            pattern@.len() > 0,
            result@ + replaced(text@.skip(at as int), pattern@, with) == replaced(
                text@,
                pattern@,
                with,
            ),
        decreases text@.len() - at,
    {
        let ghost rest = text@.skip(at as int);
        assert(rest.skip(1) == text@.skip(at + 1));
        if pattern.len() <= text.len() - at && occurs_at(text, pattern, at) {
            assert(rest.subrange(0, pattern@.len() as int) == text@.subrange(
                at as int,
                at + pattern@.len(),
            ));
            assert(rest.skip(pattern@.len() as int) == text@.skip(at + pattern@.len()));
            let ghost before = result@;
            result.push(with);
            at = at + pattern.len();
            assert(result@ + replaced(text@.skip(at as int), pattern@, with) == before + (
            seq![with] + replaced(text@.skip(at as int), pattern@, with)));
        } else {
            proof {
                if pattern@.len() <= rest.len() {
                    assert(rest.subrange(0, pattern@.len() as int) == text@.subrange(
                        at as int,
                        at + pattern@.len(),
                    ));
                } else {
                    assert(rest == seq![rest[0]] + rest.skip(1));
                }
            }
            let ghost before = result@;
            result.push(text[at]);
            at = at + 1;
            assert(result@ + replaced(text@.skip(at as int), pattern@, with) == before + (
            seq![rest[0]] + replaced(text@.skip(at as int), pattern@, with)));
        }
    }
    assert(replaced(text@.skip(at as int), pattern@, with) == Seq::<char>::empty());
    assert(result@ + Seq::<char>::empty() == result@);
    result
}

// ---------------------------------------------------------------------------
// Decimal numbers
// ---------------------------------------------------------------------------

/// The decimal digits of `n`, without leading zeros.
pub open spec fn decimal(n: nat) -> Seq<char>
    decreases n,
{
    if n < 10 {
        seq![digit(n)]
    } else {
        decimal(n / 10).push(digit(n % 10))
    }
}

/// The digit that stands for `d`.
pub open spec fn digit(d: nat) -> char {
    (48 + d) as char
}

/// `n` in decimal, with a minus sign if it is negative.
pub open spec fn signed_decimal(n: int) -> Seq<char> {
    if n < 0 {
        seq!['-'] + decimal((-n) as nat)
    } else {
        decimal(n as nat)
    }
}

/// Whether `c` is one of the ten decimal digits.
pub open spec fn is_digit(c: char) -> bool {
    '0' <= c <= '9'
}

/// The number that a sequence of digits stands for.
pub open spec fn digits_value(digits: Seq<char>) -> nat
    decreases digits.len(),
{
    if digits.len() == 0 {
        0
    } else {
        digits_value(digits.drop_last()) * 10 + (digits.last() as nat - 48) as nat
    }
}

/// Whether `text` begins with a sign.
pub open spec fn has_sign(text: Seq<char>) -> bool {
    text.len() > 0 && (text[0] == '-' || text[0] == '+')
}

/// `text` without the sign that it may begin with.
pub open spec fn without_sign(text: Seq<char>) -> Seq<char> {
    if has_sign(text) {
        text.skip(1)
    } else {
        text
    }
}

/// Whether `text` is made of decimal digits alone.
pub open spec fn all_digits(text: Seq<char>) -> bool {
    forall|i: int| 0 <= i < text.len() ==> is_digit(#[trigger] text[i])
}

/// The integer that `text` stands for: an optional sign, then one or more digits.
pub open spec fn integer(text: Seq<char>) -> Option<int> {
    let digits = without_sign(text);
    if digits.len() == 0 || !all_digits(digits) {
        None
    } else if text[0] == '-' {
        Some(-digits_value(digits))
    } else {
        Some(digits_value(digits) as int)
    }
}

/// The integer that `text` stands for, if an `i32` can hold it.
pub open spec fn integer_i32(text: Seq<char>) -> Option<i32> {
    match integer(text) {
        Some(n) => if i32::MIN <= n <= i32::MAX {
            Some(n as i32)
        } else {
            None
        },
        None => None,
    }
}

/// Appends `n` in decimal to `text`.
pub fn push_decimal(text: &mut String, n: u32)
    ensures
        final(text)@ == old(text)@ + decimal(n as nat),
    decreases n,
{
    if n >= 10 {
        push_decimal(text, n / 10);
    }
    let d: u8 = (n % 10) as u8;
    text.push((48 + d) as char);
    proof {
        let head = if n >= 10 { decimal((n / 10) as nat) } else { Seq::<char>::empty() };
        assert(text@ =~= old(text)@ + head.push(digit((n % 10) as nat)));
        assert(decimal(n as nat) =~= head.push(digit((n % 10) as nat)));
    }
}

/// Appends `n` in decimal to `text`, with a minus sign if it is negative.
pub fn push_signed_decimal(text: &mut String, n: i32)
    ensures
        final(text)@ == old(text)@ + signed_decimal(n as int),
{
    if n < 0 {
        text.push('-');
        push_decimal(text, (-(n as i64)) as u32);
        assert(text@ =~= old(text)@ + (seq!['-'] + decimal((-n) as nat)));
    } else {
        push_decimal(text, n as u32);
    }
}

/// Reads the integer that `text` stands for, if it is one that an `i32` can hold.
pub fn parse_i32(text: &str) -> (number: Option<i32>)
    ensures
        number == integer_i32(text@),
{
    let chars = chars_of(text);
    let signed = chars.len() > 0 && (chars[0] == '-' || chars[0] == '+');
    let negative = signed && chars[0] == '-';
    let start: usize = if signed { 1 } else { 0 };
    let ghost digits = without_sign(text@);
    if chars.len() == start {
        return None;
    }
    let mut value: i64 = 0;
    for at in start..chars.len()
        invariant
            chars@ == text@,
            digits == without_sign(text@),
            start == text@.len() - digits.len(),
            forall|i: int| 0 <= i < digits.len() ==> #[trigger] digits[i] == text@[start + i],
            0 <= value <= 0x8000_0000,
            value == digits_value(digits.take(at - start)),
            all_digits(digits.take(at - start)),
    {
        let c = chars[at];
        assert(digits[at - start] == c);
        if c < '0' || c > '9' {
            assert(!all_digits(digits));
            return None;
        }
        assert(digits.take(at - start + 1).drop_last() == digits.take(at - start));
        value = value * 10 + (c as i64 - 48);
        if value > 0x8000_0000 {
            proof {
                if all_digits(digits) {
                    lemma_more_digits(digits, at - start + 1);
                }
            }
            return None;
        }
    }
    assert(digits.take(digits.len() as int) == digits);
    if negative {
        Some((-value) as i32)
    } else if value <= i32::MAX as i64 {
        Some(value as i32)
    } else {
        None
    }
}

/// A longer run of digits stands for no smaller a number.
proof fn lemma_more_digits(digits: Seq<char>, k: int)
    requires
        0 <= k <= digits.len(),
        all_digits(digits),
    ensures
        digits_value(digits.take(k)) <= digits_value(digits),
    decreases digits.len(),
{
    if k == digits.len() {
        assert(digits.take(k) == digits);
    } else {
        lemma_more_digits(digits.drop_last(), k);
        assert(digits.drop_last().take(k) == digits.take(k));
    }
}

/// The digits of a number stand for that number.
proof fn lemma_decimal_value(n: nat)
    ensures
        digits_value(decimal(n)) == n,
        decimal(n).len() > 0,
        all_digits(decimal(n)),
    decreases n,
{
    if n < 10 {
        assert(decimal(n).drop_last() == Seq::<char>::empty());
        assert(digits_value(Seq::<char>::empty()) == 0);
    } else {
        lemma_decimal_value(n / 10);
        assert(decimal(n).drop_last() == decimal(n / 10));
    }
}

/// Each digit of a number stands for its power of ten: the digit with `k` digits behind it is
/// how often 10 to the power `k` goes into the number, apart from whole multiples of the next
/// power. There are as many digits as it takes, and no leading zeros.
pub proof fn law_digits_stand_for_powers_of_ten(n: nat)
    ensures
        decimal(n).len() > 0,
        n < power::pow(10, decimal(n).len()),
        decimal(n).len() == 1 || power::pow(10, (decimal(n).len() - 1) as nat) <= n,
        forall|k: int|
            0 <= k < decimal(n).len() ==> #[trigger] decimal(n)[decimal(n).len() - 1 - k] as int
                == 48 + n as int / power::pow(10, k as nat) % 10,
    decreases n,
{
    let length = decimal(n).len();
    power::lemma_pow0(10);
    power::lemma_pow1(10);
    if n >= 10 {
        let front = decimal(n / 10);
        law_digits_stand_for_powers_of_ten(n / 10);
        assert(length == front.len() + 1);
        assert(power::pow(10, length) == 10 * power::pow(10, front.len())) by {
            reveal(power::pow);
        }
        if front.len() > 1 {
            assert(power::pow(10, front.len()) == 10 * power::pow(10, (front.len() - 1) as nat)) by {
                reveal(power::pow);
            }
        }
        assert forall|k: int| 0 <= k < length implies #[trigger] decimal(n)[length - 1 - k] as int
            == 48 + n as int / power::pow(10, k as nat) % 10 by {
            if k > 0 {
                let below = power::pow(10, (k - 1) as nat);
                assert(decimal(n)[length - 1 - k] == front[front.len() - 1 - (k - 1)]);
                assert(power::pow(10, k as nat) == 10 * below) by {
                    reveal(power::pow);
                }
                power::lemma_pow_positive(10, (k - 1) as nat);
                div_mod::lemma_div_denominator(n as int, 10, below);
            }
        }
    }
}

/// A number that is not negative is written without a sign, and a negative one as a minus sign
/// followed by what it is the negative of.
pub proof fn law_only_negative_numbers_have_a_sign(n: nat)
    ensures
        signed_decimal(n as int) == decimal(n),
        n > 0 ==> signed_decimal(-n) == seq!['-'] + decimal(n),
{
}

/// Integers are read in base ten: a digit stands for itself, a digit that is put behind others
/// adds to ten times what they stand for, and a sign in front of them does what signs do.
pub proof fn law_integers_are_read_in_base_ten(digits: Seq<char>, c: char)
    requires
        digits.len() > 0,
        forall|i: int| 0 <= i < digits.len() ==> '0' <= #[trigger] digits[i] <= '9',
        '0' <= c <= '9',
    ensures
        integer(seq![c]) == Some(c as int - 48),
        integer(digits) matches Some(n) && n >= 0 && integer(digits.push(c)) == Some(
            10 * n + (c as int - 48),
        ) && integer(seq!['+'] + digits) == Some(n) && integer(seq!['-'] + digits) == Some(-n),
{
    assert(is_digit(digits[0]));
    let longer = digits.push(c);
    assert(longer.drop_last() == digits);
    assert(longer[0] == digits[0]);
    assert((seq!['+'] + digits).skip(1) == digits);
    assert((seq!['-'] + digits).skip(1) == digits);
    assert(seq![c].drop_last() == Seq::<char>::empty());
    assert(digits_value(Seq::<char>::empty()) == 0);
}

/// No text is an integer that has a character in it which is neither a digit nor a sign in
/// front of digits; and neither is one that has no characters at all.
pub proof fn law_nothing_else_is_an_integer(text: Seq<char>, i: int)
    requires
        0 <= i < text.len(),
        !('0' <= text[i] <= '9'),
        i > 0 || text.len() == 1 || (text[0] != '+' && text[0] != '-'),
    ensures
        integer(text) is None,
        integer(Seq::empty()) is None,
{
    let digits = without_sign(text);
    if has_sign(text) && text.len() > 1 {
        assert(digits[i - 1] == text[i]);
    } else if !has_sign(text) {
        assert(!is_digit(digits[i]));
    }
}

/// An integer is read as an `i32` exactly if it is one.
pub proof fn law_integers_that_fit_are_kept(text: Seq<char>, n: i32)
    ensures
        integer_i32(text) == Some(n) <==> integer(text) == Some(n as int),
{
}

/// Reading the decimal form of an integer gives the integer back.
pub proof fn law_decimal_reads_back(n: i32)
    ensures
        integer_i32(signed_decimal(n as int)) == Some(n),
{
    let text = signed_decimal(n as int);
    if n < 0 {
        lemma_decimal_value((-n) as nat);
        assert(text.skip(1) == decimal((-n) as nat));
    } else {
        lemma_decimal_value(n as nat);
        assert(is_digit(text[0]));
    }
}

} // verus!
