//! Text helpers shared by the modules that build and read clip keys.
use vstd::prelude::*;

verus! {

/// The decimal digit with value `d`.
pub open spec fn digit_char(d: int) -> char {
    ('0' as u32 + d) as char
}

/// `n` written in decimal, without leading zeros.
pub open spec fn decimal(n: nat) -> Seq<char>
    decreases n,
{
    if n < 10 {
        seq![digit_char(n as int)]
    } else {
        decimal(n / 10).push(digit_char((n % 10) as int))
    }
}

/// Whether `c` is one of the ten decimal digits.
pub open spec fn is_digit(c: char) -> bool {
    '0' <= c <= '9'
}

/// Whether `text` consists of decimal digits only.
pub open spec fn all_digits(text: Seq<char>) -> bool {
    forall|i: int| 0 <= i < text.len() ==> is_digit(#[trigger] text[i])
}

/// The number that a sequence of decimal digits writes.
pub open spec fn digits_value(text: Seq<char>) -> nat
    decreases text.len(),
{
    if text.len() == 0 {
        0
    } else {
        digits_value(text.drop_last()) * 10 + (text.last() as u32 - '0' as u32) as nat
    }
}

/// `text` without the single sign that may stand before an unsigned number.
pub open spec fn unsigned_digits(text: Seq<char>) -> Seq<char> {
    if text.len() > 1 && text[0] == '+' {
        text.skip(1)
    } else {
        text
    }
}

/// The unsigned number that `text` writes in decimal: one or more digits, with an optional `+`
/// before them, whose value fits in `usize`.
pub open spec fn unsigned_value(text: Seq<char>) -> Option<usize> {
    let digits = unsigned_digits(text);
    if digits.len() > 0 && all_digits(digits) && digits_value(digits) <= usize::MAX {
        Some(digits_value(digits) as usize)
    } else {
        None
    }
}

/// The position of the last `c` in `text`, or -1 where there is none.
pub open spec fn last_position(text: Seq<char>, c: char) -> int
    decreases text.len(),
{
    if text.len() == 0 {
        -1
    } else if text.last() == c {
        text.len() - 1
    } else {
        last_position(text.drop_last(), c)
    }
}

/// Whether `c` is white space, as Unicode has it.
pub open spec fn is_space(c: char) -> bool {
    ||| '\u{9}' <= c <= '\u{d}'
    ||| c == '\u{20}'
    ||| c == '\u{85}'
    ||| c == '\u{a0}'
    ||| c == '\u{1680}'
    ||| '\u{2000}' <= c <= '\u{200a}'
    ||| c == '\u{2028}'
    ||| c == '\u{2029}'
    ||| c == '\u{202f}'
    ||| c == '\u{205f}'
    ||| c == '\u{3000}'
}

/// `text` without the white space before and behind it.
pub open spec fn trimmed(text: Seq<char>) -> Seq<char>
    decreases text.len(),
{
    if text.len() == 0 {
        text
    } else if is_space(text[0]) {
        trimmed(text.skip(1))
    } else if is_space(text.last()) {
        trimmed(text.drop_last())
    } else {
        text
    }
}

/// `c` in lower case, where it is one of the letters A to Z.
pub open spec fn lower(c: char) -> char {
    if 'A' <= c <= 'Z' {
        (c as u32 + 32) as char
    } else {
        c
    }
}

/// `text` without the white space around it, with the letters A to Z in lower case.
pub open spec fn normalized(text: Seq<char>) -> Seq<char> {
    trimmed(text).map_values(|c: char| lower(c))
}

fn is_space_char(c: char) -> (space: bool)
    ensures
        space == is_space(c),
{
    ('\u{9}' <= c && c <= '\u{d}') || c == '\u{20}' || c == '\u{85}' || c == '\u{a0}' || c
        == '\u{1680}' || ('\u{2000}' <= c && c <= '\u{200a}') || c == '\u{2028}' || c == '\u{2029}'
        || c == '\u{202f}' || c == '\u{205f}' || c == '\u{3000}'
}

/// Whether `c` is `name_char`, which is no capital letter, up to the case of the letters A to Z.
fn is_char_in_any_case(c: char, name_char: char) -> (same: bool)
    ensures
        same == (lower(c) == name_char),
{
    if 'A' <= c && c <= 'Z' {
        c as u32 + 32 == name_char as u32
    } else {
        c == name_char
    }
}

/// Whether `text` is `name`, up to white space around it and to the case of the letters A to Z.
pub(crate) fn is_named(text: &str, name: &str) -> (named: bool)
    ensures
        named == (normalized(text@) == name@),
{
    let chars: Vec<char> = chars_of(text);
    let name_chars: Vec<char> = chars_of(name);
    let mut from: usize = 0;
    let mut to: usize = chars.len();
    assert(chars@.subrange(0, to as int) =~= text@);
    while from < to && is_space_char(chars[from])
        invariant
            from <= to == chars@.len(),
            trimmed(chars@.subrange(from as int, to as int)) == trimmed(text@),
        decreases to - from,
    {
        assert(chars@.subrange(from as int, to as int).skip(1) =~= chars@.subrange(
            from + 1,
            to as int,
        ));
        from = from + 1;
    }
    while from < to && is_space_char(chars[to - 1])
        invariant
            from <= to <= chars@.len(),
            from < to ==> !is_space(chars@[from as int]),
            trimmed(chars@.subrange(from as int, to as int)) == trimmed(text@),
        decreases to - from,
    {
        assert(chars@.subrange(from as int, to as int).drop_last() =~= chars@.subrange(
            from as int,
            to - 1,
        ));
        to = to - 1;
    }
    let ghost inner = chars@.subrange(from as int, to as int);
    assert(trimmed(inner) == inner);
    if to - from != name_chars.len() {
        assert(normalized(text@).len() == to - from);
        return false;
    }
    let mut i: usize = 0;
    while i < name_chars.len()
        invariant
            i <= name_chars.len(),
            from + name_chars.len() == to,
            to <= chars@.len(),
            inner == chars@.subrange(from as int, to as int),
            inner == trimmed(text@),
            name_chars@ == name@,
            forall|j: int| 0 <= j < i ==> lower(#[trigger] inner[j]) == name@[j],
        decreases name_chars.len() - i,
    {
        assert(inner[i as int] == chars@[from + i]);
        if !is_char_in_any_case(chars[from + i], name_chars[i]) {
            assert(normalized(text@)[i as int] != name@[i as int]);
            return false;
        }
        i = i + 1;
    }
    assert(normalized(text@) =~= name@);
    true
}

/// The characters of `text`, in order.
pub(crate) fn chars_of(text: &str) -> (chars: Vec<char>)
    ensures
        chars@ == text@,
{
    let mut chars: Vec<char> = Vec::new();
    for c in it: text.chars()
        invariant
            it.seq() == text@,
            chars@ == text@.take(it.index() as int),
    {
        chars.push(c);
    }
    chars
}

/// Whether two texts are the same.
pub(crate) fn same_text(a: &str, b: &str) -> (same: bool)
    ensures
        same == (a@ == b@),
{
    a.to_owned() == b.to_owned()
}

/// The texts one behind the other.
pub(crate) fn joined(head: &str, tail: &str) -> (text: String)
    ensures
        text@ == head@ + tail@,
{
    let mut text: String = head.to_owned();
    text.append(tail);
    text
}

/// A copy of an optional text.
pub(crate) fn copy_of(text: &Option<String>) -> (copy: Option<String>)
    ensures
        copy == *text,
{
    match text {
        Some(text) => Some(text.clone()),
        None => None,
    }
}

/// Whether `text` ends with `suffix`.
pub(crate) fn ends_with(text: &str, suffix: &str) -> (ends: bool)
    ensures
        ends == suffix@.is_suffix_of(text@),
{
    let text_chars: Vec<char> = chars_of(text);
    let suffix_chars: Vec<char> = chars_of(suffix);
    if suffix_chars.len() > text_chars.len() {
        return false;
    }
    let offset: usize = text_chars.len() - suffix_chars.len();
    let mut i: usize = 0;
    while i < suffix_chars.len()
        invariant
            text_chars@ == text@,
            suffix_chars@ == suffix@,
            offset + suffix_chars.len() == text_chars.len(),
            i <= suffix_chars.len(),
            forall|j: int| 0 <= j < i ==> #[trigger] suffix@[j] == text@[offset + j],
        decreases suffix_chars.len() - i,
    {
        if text_chars[offset + i] != suffix_chars[i] {
            assert(text@.subrange(offset as int, text@.len() as int)[i as int] != suffix@[i as int]);
            return false;
        }
        i = i + 1;
    }
    assert(suffix@ =~= text@.subrange(offset as int, text@.len() as int));
    true
}

/// The text of one decimal digit.
fn digit_text(d: u64) -> (text: &'static str)
    requires
        d < 10,
    ensures
        text@ == seq![digit_char(d as int)],
{
    proof {
        reveal_strlit("0");
        reveal_strlit("1");
        reveal_strlit("2");
        reveal_strlit("3");
        reveal_strlit("4");
        reveal_strlit("5");
        reveal_strlit("6");
        reveal_strlit("7");
        reveal_strlit("8");
        reveal_strlit("9");
    }
    let text: &'static str = match d {
        0 => "0",
        1 => "1",
        2 => "2",
        3 => "3",
        4 => "4",
        5 => "5",
        6 => "6",
        7 => "7",
        8 => "8",
        _ => "9",
    };
    assert(text@ =~= seq![digit_char(d as int)]);
    text
}

/// Appends `n` in decimal to `out`.
pub(crate) fn push_decimal(out: &mut String, n: u64)
    ensures
        final(out)@ == old(out)@ + decimal(n as nat),
    decreases n,
{
    if n >= 10 {
        push_decimal(out, n / 10);
    }
    out.append(digit_text(n % 10));
    assert(out@ =~= old(out)@ + decimal(n as nat));
}

/// Reads `text` as an unsigned decimal number.
pub(crate) fn parse_unsigned(text: &[char]) -> (value: Option<usize>)
    ensures
        value == unsigned_value(text@),
{
    let start: usize = if text.len() > 1 && text[0] == '+' { 1 } else { 0 };
    let ghost digits: Seq<char> = unsigned_digits(text@);
    assert(digits =~= text@.skip(start as int));
    if text.len() == start {
        return None;
    }
    let mut value: usize = 0;
    let mut i: usize = start;
    while i < text.len()
        invariant
            start <= i <= text.len(),
            digits == text@.skip(start as int),
            digits == unsigned_digits(text@),
            all_digits(digits.take(i - start)),
            value == digits_value(digits.take(i - start)),
        decreases text.len() - i,
    {
        let c: char = text[i];
        assert(digits[i - start] == c);
        if !('0' <= c && c <= '9') {
            return None;
        }
        let digit: usize = (c as u32 - '0' as u32) as usize;
        let ghost before: Seq<char> = digits.take(i - start);
        let ghost upto: Seq<char> = digits.take(i + 1 - start);
        assert(upto.drop_last() =~= before);
        assert(upto.last() == c);
        proof {
            if all_digits(digits) {
                lemma_prefix_value(digits, i + 1 - start);
            }
        }
        let scaled: Option<usize> = value.checked_mul(10);
        let next: Option<usize> = match scaled {
            Some(scaled) => scaled.checked_add(digit),
            None => None,
        };
        match next {
            Some(next) => {
                value = next;
            },
            None => {
                return None;
            },
        }
        i = i + 1;
    }
    assert(digits.take(i - start) =~= digits);
    Some(value)
}

/// A prefix of a run of digits writes no more than the run.
proof fn lemma_prefix_value(digits: Seq<char>, n: int)
    requires
        all_digits(digits),
        0 <= n <= digits.len(),
    ensures
        digits_value(digits.take(n)) <= digits_value(digits),
    decreases digits.len(),
{
    if n == digits.len() {
        assert(digits.take(n) =~= digits);
    } else {
        let shorter = digits.drop_last();
        assert(shorter.take(n) =~= digits.take(n));
        lemma_prefix_value(shorter, n);
    }
}

/// Reading back a number written in decimal gives that number.
pub proof fn decimal_reads_back(n: usize)
    ensures
        unsigned_value(decimal(n as nat)) == Some(n),
{
    lemma_decimal(n as nat);
}

/// A decimal rendering holds at least one digit, digits only, and writes its number.
pub(crate) proof fn lemma_decimal(n: nat)
    ensures
        decimal(n).len() > 0,
        all_digits(decimal(n)),
        digits_value(decimal(n)) == n,
    decreases n,
{
    if n < 10 {
        assert(decimal(n).drop_last() =~= Seq::<char>::empty());
        assert(digits_value(Seq::<char>::empty()) == 0);
    } else {
        lemma_decimal(n / 10);
        assert(decimal(n).drop_last() =~= decimal(n / 10));
    }
}

/// Text without `c`, put behind a `c`, leaves that `c` the last one.
pub(crate) proof fn lemma_last_position_append(head: Seq<char>, c: char, tail: Seq<char>)
    requires
        forall|i: int| 0 <= i < tail.len() ==> tail[i] != c,
    ensures
        last_position(head.push(c) + tail, c) == head.len(),
    decreases tail.len(),
{
    let whole = head.push(c) + tail;
    if tail.len() == 0 {
        assert(whole =~= head.push(c));
    } else {
        assert(whole.drop_last() =~= head.push(c) + tail.drop_last());
        lemma_last_position_append(head, c, tail.drop_last());
    }
}

/// The last position of `c` is a position of `c` with none behind it.
pub(crate) proof fn lemma_last_position(text: Seq<char>, c: char)
    ensures
        -1 <= last_position(text, c) < text.len(),
        last_position(text, c) >= 0 ==> text[last_position(text, c)] == c,
        forall|i: int| last_position(text, c) < i < text.len() ==> text[i] != c,
    decreases text.len(),
{
    if text.len() > 0 && text.last() != c {
        let shorter = text.drop_last();
        lemma_last_position(shorter, c);
        assert forall|i: int| last_position(text, c) < i < text.len() implies text[i] != c by {
            if i < shorter.len() {
                assert(shorter[i] == text[i]);
            }
        }
    }
}

/// The position of the last `c` in the first `end` characters of `text`.
pub(crate) fn rfind(text: &Vec<char>, end: usize, c: char) -> (position: Option<usize>)
    requires
        end <= text.len(),
    ensures
        match position {
            Some(at) => at == last_position(text@.take(end as int), c),
            None => last_position(text@.take(end as int), c) == -1,
        },
{
    let mut i: usize = end;
    while i > 0
        invariant
            i <= end <= text.len(),
            last_position(text@.take(end as int), c) == last_position(text@.take(i as int), c),
        decreases i,
    {
        assert(text@.take(i as int).drop_last() =~= text@.take(i - 1));
        if text[i - 1] == c {
            return Some(i - 1);
        }
        i = i - 1;
    }
    None
}

/// Decimal text grows by one digit behind the others: the digit `d` has the code of `0` plus `d`, and
/// `10 * n + d` is `n` with that digit behind it. A number of more than one digit starts with no
/// zero.
pub proof fn decimal_appends_digits(n: nat, d: nat)
    requires
        d < 10,
    ensures
        decimal(d).len() == 1,
        decimal(d)[0] as int == 48 + d,
        n > 0 ==> decimal(10 * n + d) == decimal(n) + decimal(d),
        n > 0 ==> 49 <= decimal(n)[0] as int <= 57,
    decreases n,
{
    assert(decimal(d) =~= seq![digit_char(d as int)]);
    if n > 0 {
        let whole = 10 * n + d;
        assert(whole / 10 == n && whole % 10 == d);
        assert(decimal(n).push(digit_char(d as int)) =~= decimal(n) + decimal(d));
        if n >= 10 {
            decimal_appends_digits(n / 10, n % 10);
            lemma_decimal(n / 10);
        }
    }
}

/// Digits are read in base ten, from the left: one more digit behind a text counts the rest ten
/// times.
pub proof fn digits_are_read_in_base_ten(text: Seq<char>, c: char)
    requires
        48 <= c as int <= 57,
    ensures
        digits_value(Seq::empty()) == 0,
        digits_value(text.push(c)) == 10 * digits_value(text) + (c as int - 48),
{
    assert(text.push(c).drop_last() =~= text);
}

/// One or more digits are read as their value, with a `+` before them or without, where that fits in
/// `usize`.
pub proof fn digits_are_read_as_number(digits: Seq<char>)
    requires
        digits.len() > 0,
        forall|i: int| 0 <= i < digits.len() ==> 48 <= #[trigger] digits[i] as int <= 57,
    ensures
        digits_value(digits) <= usize::MAX ==> unsigned_value(digits) == Some(
            digits_value(digits) as usize,
        ),
        digits_value(digits) > usize::MAX ==> unsigned_value(digits) is None,
        unsigned_value(seq!['+'] + digits) == unsigned_value(digits),
{
    assert((seq!['+'] + digits).skip(1) =~= digits);
    assert forall|i: int| 0 <= i < digits.len() implies is_digit(#[trigger] digits[i]) by {
        assert(48 <= digits[i] as int <= 57);
    }
}

/// Nothing but digits is read as a number, with a single `+` before them or without.
pub proof fn only_digits_are_read_as_number(text: Seq<char>)
    requires
        unsigned_value(text) is Some,
    ensures
        text.len() > 0,
        text[0] == '+' ==> text.len() > 1,
        text[0] == '+' || 48 <= text[0] as int <= 57,
        forall|i: int| 0 < i < text.len() ==> 48 <= #[trigger] text[i] as int <= 57,
        unsigned_value(text)->0 == digits_value(
            if text[0] == '+' {
                text.skip(1)
            } else {
                text
            },
        ),
{
    let digits = unsigned_digits(text);
    assert(is_digit(digits[0]));
    assert forall|i: int| 0 < i < text.len() implies 48 <= #[trigger] text[i] as int <= 57 by {
        if text.len() > 1 && text[0] == '+' {
            assert(is_digit(digits[i - 1]));
        } else {
            assert(is_digit(digits[i]));
        }
    }
}

/// The last position of a character is where it stands with none behind it, and -1 exactly where it
/// does not occur.
pub proof fn last_position_is_last(text: Seq<char>, c: char)
    ensures
        -1 <= last_position(text, c) < text.len(),
        last_position(text, c) == -1 <==> !text.contains(c),
        last_position(text, c) >= 0 ==> text[last_position(text, c)] == c,
        forall|i: int| last_position(text, c) < i < text.len() ==> text[i] != c,
{
    lemma_last_position(text, c);
    if last_position(text, c) >= 0 {
        assert(text.contains(text[last_position(text, c)]));
    }
}

/// White space is what Unicode counts as such: 25 characters, by their codes.
pub proof fn white_space_has_these_codes(c: char)
    ensures
        is_space(c) <==> {
            let code = c as u32;
            ||| 9 <= code <= 13
            ||| code == 32
            ||| code == 133
            ||| code == 160
            ||| code == 5760
            ||| 8192 <= code <= 8202
            ||| 8232 <= code <= 8233
            ||| code == 8239
            ||| code == 8287
            ||| code == 12288
        },
{
}

/// Whether all of `text` before `from` and from `to` on is white space, and what is between them neither
/// starts nor ends with white space.
pub open spec fn only_space_around(text: Seq<char>, from: int, to: int) -> bool {
    &&& 0 <= from <= to <= text.len()
    &&& forall|i: int| 0 <= i < from ==> #[trigger] is_space(text[i])
    &&& forall|i: int| to <= i < text.len() ==> #[trigger] is_space(text[i])
    &&& from < to ==> !is_space(text[from]) && !is_space(text[to - 1])
}

/// Trimming takes white space from both ends, all of it and nothing else: what stays stands together
/// in the text, all before it and all behind it is white space, and it neither starts nor ends with
/// white space.
pub proof fn trimming_takes_white_space_from_ends(text: Seq<char>) -> (ends: (int, int))
    ensures
        0 <= ends.0 <= ends.1 <= text.len(),
        trimmed(text) == text.subrange(ends.0, ends.1),
        forall|i: int| 0 <= i < ends.0 ==> #[trigger] is_space(text[i]),
        forall|i: int| ends.1 <= i < text.len() ==> #[trigger] is_space(text[i]),
        ends.0 < ends.1 ==> !is_space(text[ends.0]) && !is_space(text[ends.1 - 1]),
    decreases text.len(),
{
    if text.len() > 0 && is_space(text[0]) {
        let (from, to) = trimming_takes_white_space_from_ends(text.skip(1));
        lemma_space_before(text, from, to);
        (from + 1, to + 1)
    } else if text.len() > 0 && is_space(text.last()) {
        let (from, to) = trimming_takes_white_space_from_ends(text.drop_last());
        lemma_space_behind(text, from, to);
        (from, to)
    } else {
        assert(text.subrange(0, text.len() as int) =~= text);
        (0, text.len() as int)
    }
}

proof fn lemma_space_before(text: Seq<char>, from: int, to: int)
    requires
        text.len() > 0,
        is_space(text[0]),
        only_space_around(text.skip(1), from, to),
    ensures
        only_space_around(text, from + 1, to + 1),
        text.skip(1).subrange(from, to) == text.subrange(from + 1, to + 1),
{
    let shorter = text.skip(1);
    assert forall|i: int| 0 <= i < from + 1 implies #[trigger] is_space(text[i]) by {
        if i > 0 {
            assert(is_space(shorter[i - 1]));
        }
    }
    assert forall|i: int| to + 1 <= i < text.len() implies #[trigger] is_space(text[i]) by {
        assert(is_space(shorter[i - 1]));
    }
    assert(shorter.subrange(from, to) =~= text.subrange(from + 1, to + 1));
}

proof fn lemma_space_behind(text: Seq<char>, from: int, to: int)
    requires
        text.len() > 0,
        is_space(text.last()),
        only_space_around(text.drop_last(), from, to),
    ensures
        only_space_around(text, from, to),
        text.drop_last().subrange(from, to) == text.subrange(from, to),
{
    let shorter = text.drop_last();
    assert forall|i: int| 0 <= i < from implies #[trigger] is_space(text[i]) by {
        assert(is_space(shorter[i]));
    }
    assert forall|i: int| to <= i < text.len() implies #[trigger] is_space(text[i]) by {
        if i < shorter.len() {
            assert(is_space(shorter[i]));
        }
    }
    assert(shorter.subrange(from, to) =~= text.subrange(from, to));
}

/// A name is compared by its trimmed text, character by character, with the letters A to Z, whose
/// codes are 65 to 90, taken as those 32 codes behind, and every other character as it is.
pub proof fn names_are_taken_in_lower_case(text: Seq<char>, i: int)
    requires
        0 <= i < trimmed(text).len(),
    ensures
        normalized(text).len() == trimmed(text).len(),
        65 <= trimmed(text)[i] as int <= 90 ==> normalized(text)[i] as int == trimmed(text)[i] as int
            + 32,
        !(65 <= trimmed(text)[i] as int <= 90) ==> normalized(text)[i] == trimmed(text)[i],
{
}

} // verus!
