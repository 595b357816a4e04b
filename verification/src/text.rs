//! Operations on header text, stated over sequences of characters.
use vstd::prelude::*;
use vstd::string::*;
use vstd::utf8::{decode_utf8, valid_utf8};

verus! {

/// What a borrowed text that may be absent holds.
pub open spec fn optional_text(s: Option<&str>) -> Option<Seq<char>> {
    match s {
        Some(s) => Some(s@),
        None => None,
    }
}

/// What each text of a list holds.
pub open spec fn texts(list: Seq<&str>) -> Seq<Seq<char>> {
    list.map_values(|s: &str| s@)
}

/// Calls `core::str::from_utf8`: bytes that are valid UTF-8 are the text that they encode, and other
/// bytes are no text.
#[verifier::external_body]
pub(crate) fn utf8_text<'a>(bytes: &'a [u8]) -> (s: Option<&'a str>)
    ensures
        match s {
            Some(s) => valid_utf8(bytes@) && s@ == decode_utf8(bytes@),
            None => !valid_utf8(bytes@),
        },
{
    core::str::from_utf8(bytes).ok()
}

/// The characters of `s`, in order.
pub fn char_vec(s: &str) -> (chars: Vec<char>)
    ensures
        chars@ == s@,
{
    let mut chars: Vec<char> = Vec::new();
    for c in it: s.chars()
        invariant
            it.seq() == s@,
            chars@ == s@.take(it.index() as int),
    {
        chars.push(c);
    }
    chars
}

/// Whether two texts hold the same characters.
pub fn same_text(a: &str, b: &str) -> (same: bool)
    ensures
        same == (a@ == b@),
{
    let left = char_vec(a);
    let right = char_vec(b);
    if left.len() != right.len() {
        return false;
    }
    let mut i: usize = 0;
    while i < left.len()
        invariant
            left@ == a@,
            right@ == b@,
            left@.len() == right@.len(),
            i <= left@.len(),
            forall|j: int| 0 <= j < i ==> left@[j] == right@[j],
        decreases left@.len() - i,
    {
        if left[i] != right[i] {
            return false;
        }
        i += 1;
    }
    assert(a@ =~= b@);
    true
}

/// An ASCII letter in lower case, any other character as it is.
pub open spec fn ascii_lower(c: char) -> char {
    if 'A' <= c && c <= 'Z' {
        (c as u32 + 32) as char
    } else {
        c
    }
}

/// A text with its ASCII letters in lower case.
pub open spec fn ascii_lowercase(s: Seq<char>) -> Seq<char> {
    s.map_values(|c: char| ascii_lower(c))
}

fn lower(c: char) -> (l: char)
    ensures
        l == ascii_lower(c),
{
    if 'A' <= c && c <= 'Z' {
        (c as u8 + 32) as char
    } else {
        c
    }
}

/// Whether `s` reads `expected` once its ASCII letters are in lower case.
pub fn lowercase_is(s: &str, expected: &str) -> (same: bool)
    ensures
        same == (ascii_lowercase(s@) == expected@),
{
    let left = char_vec(s);
    let right = char_vec(expected);
    if left.len() != right.len() {
        assert(ascii_lowercase(s@).len() != expected@.len());
        return false;
    }
    let mut i: usize = 0;
    while i < left.len()
        invariant
            left@ == s@,
            right@ == expected@,
            left@.len() == right@.len(),
            i <= left@.len(),
            forall|j: int| 0 <= j < i ==> ascii_lower(left@[j]) == right@[j],
        decreases left@.len() - i,
    {
        if lower(left[i]) != right[i] {
            assert(ascii_lowercase(s@)[i as int] != expected@[i as int]);
            return false;
        }
        i += 1;
    }
    assert(ascii_lowercase(s@) =~= expected@);
    true
}

/// Where `c` first stands in `s`.
pub open spec fn position_of(s: Seq<char>, c: char) -> Option<nat>
    decreases s.len(),
{
    if s.len() == 0 {
        None
    } else if s[0] == c {
        Some(0)
    } else {
        match position_of(s.drop_first(), c) {
            Some(i) => Some(i + 1),
            None => None,
        }
    }
}

/// `position_of` gives the first place that holds the character, and nothing where none does.
pub proof fn position_of_is_first(s: Seq<char>, c: char)
    ensures
        match position_of(s, c) {
            Some(i) => i < s.len() && s[i as int] == c && forall|j: int|
                0 <= j < i ==> s[j] != c,
            None => forall|j: int| 0 <= j < s.len() ==> s[j] != c,
        },
    decreases s.len(),
{
    if s.len() > 0 && s[0] != c {
        let rest = s.drop_first();
        position_of_is_first(rest, c);
        assert forall|j: int| 0 < j < s.len() implies s[j] == rest[j - 1] by {}
        match position_of(rest, c) {
            Some(i) => {
                assert forall|j: int| 0 <= j < i + 1 implies s[j] != c by {
                    if j > 0 {
                        assert(s[j] == rest[j - 1]);
                    }
                }
            },
            None => {
                assert forall|j: int| 0 <= j < s.len() implies s[j] != c by {
                    if j > 0 {
                        assert(s[j] == rest[j - 1]);
                    }
                }
            },
        }
    }
}

fn find(chars: &Vec<char>, c: char) -> (at: Option<usize>)
    ensures
        match at {
            Some(i) => position_of(chars@, c) == Some(i as nat),
            None => position_of(chars@, c) is None,
        },
{
    proof {
        position_of_is_first(chars@, c);
    }
    let mut i: usize = 0;
    while i < chars.len()
        invariant
            i <= chars@.len(),
            forall|j: int| 0 <= j < i ==> chars@[j] != c,
            match position_of(chars@, c) {
                Some(i) => i < chars@.len() && chars@[i as int] == c && forall|j: int|
                    0 <= j < i ==> chars@[j] != c,
                None => forall|j: int| 0 <= j < chars@.len() ==> chars@[j] != c,
            },
        decreases chars@.len() - i,
    {
        if chars[i] == c {
            return Some(i);
        }
        i += 1;
    }
    None
}

/// The text before the first `c` and the text after it.
pub open spec fn split_once_at(s: Seq<char>, c: char) -> Option<(Seq<char>, Seq<char>)> {
    match position_of(s, c) {
        Some(i) => Some((s.take(i as int), s.skip(i as int + 1))),
        None => None,
    }
}

/// A text joined by a character that the first part lacks splits into its parts.
pub proof fn split_once_at_first(before: Seq<char>, after: Seq<char>, c: char)
    requires
        forall|i: int| 0 <= i < before.len() ==> before[i] != c,
    ensures
        split_once_at(before.push(c) + after, c) == Some((before, after)),
{
    let s = before.push(c) + after;
    position_of_is_first(s, c);
    let n = before.len() as int;
    assert(s[n] == c);
    match position_of(s, c) {
        Some(i) => {
            if i < n {
                assert(s[i as int] == before[i as int]);
            }
            assert(i == n);
        },
        None => {},
    }
    assert(s.take(n) =~= before);
    assert(s.skip(n + 1) =~= after);
}

/// Splits `s` at the first `c`, which belongs to neither part.
pub fn split_once<'a>(s: &'a str, c: char) -> (parts: Option<(&'a str, &'a str)>)
    ensures
        match parts {
            Some((before, after)) => split_once_at(s@, c) == Some((before@, after@)),
            None => split_once_at(s@, c) is None,
        },
{
    let chars = char_vec(s);
    match find(&chars, c) {
        Some(i) => {
            proof {
                position_of_is_first(s@, c);
            }
            let end: usize = chars.len();
            let before = s.substring_char(0, i);
            let after = s.substring_char(i + 1, end);
            Some((before, after))
        },
        None => None,
    }
}

/// The parts of `s` between the occurrences of `c`.
pub open spec fn split_all(s: Seq<char>, c: char) -> Seq<Seq<char>>
    decreases s.len(),
{
    match position_of(s, c) {
        Some(i) => if i < s.len() {
            seq![s.take(i as int)] + split_all(s.skip(i as int + 1), c)
        } else {
            seq![s]
        },
        None => seq![s],
    }
}

/// Splits `s` at every `c`.
pub fn split<'a>(s: &'a str, c: char) -> (parts: Vec<&'a str>)
    ensures
        texts(parts@) == split_all(s@, c),
{
    let mut parts: Vec<&'a str> = Vec::new();
    let mut rest = s;
    loop
        invariant_except_break
            texts(parts@) + split_all(rest@, c) == split_all(s@, c),
        ensures
            texts(parts@) == split_all(s@, c),
        decreases rest@.len(),
    {
        proof {
            position_of_is_first(rest@, c);
        }
        let ghost before_push = parts@;
        match split_once(rest, c) {
            Some((part, after)) => {
                parts.push(part);
                proof {
                    assert(texts(parts@) =~= texts(before_push) + seq![part@]);
                    assert(texts(parts@) + split_all(after@, c) =~= texts(before_push) + split_all(
                        rest@,
                        c,
                    ));
                }
                rest = after;
            },
            None => {
                parts.push(rest);
                proof {
                    assert(texts(parts@) =~= texts(before_push) + seq![rest@]);
                }
                break;
            },
        }
    }
    parts
}

/// What follows `prefix` in a text that starts with it.
pub open spec fn after_prefix(s: Seq<char>, prefix: Seq<char>) -> Option<Seq<char>> {
    if prefix.len() <= s.len() && s.take(prefix.len() as int) == prefix {
        Some(s.skip(prefix.len() as int))
    } else {
        None
    }
}

/// What follows `prefix`, where `s` starts with it.
pub fn strip_prefix<'a>(s: &'a str, prefix: &str) -> (rest: Option<&'a str>)
    ensures
        match rest {
            Some(rest) => after_prefix(s@, prefix@) == Some(rest@),
            None => after_prefix(s@, prefix@) is None,
        },
{
    let end: usize = s.unicode_len();
    let start: usize = prefix.unicode_len();
    if start > end {
        return None;
    }
    if same_text(s.substring_char(0, start), prefix) {
        Some(s.substring_char(start, end))
    } else {
        None
    }
}

/// The characters with the Unicode property `White_Space`.
pub open spec fn is_white_space(c: char) -> bool {
    ||| '\u{9}' <= c && c <= '\u{d}'
    ||| c == '\u{20}'
    ||| c == '\u{85}'
    ||| c == '\u{a0}'
    ||| c == '\u{1680}'
    ||| '\u{2000}' <= c && c <= '\u{200a}'
    ||| c == '\u{2028}'
    ||| c == '\u{2029}'
    ||| c == '\u{202f}'
    ||| c == '\u{205f}'
    ||| c == '\u{3000}'
}

fn white_space(c: char) -> (white: bool)
    ensures
        white == is_white_space(c),
{
    ('\u{9}' <= c && c <= '\u{d}') || c == '\u{20}' || c == '\u{85}' || c == '\u{a0}' || c
        == '\u{1680}' || ('\u{2000}' <= c && c <= '\u{200a}') || c == '\u{2028}' || c == '\u{2029}'
        || c == '\u{202f}' || c == '\u{205f}' || c == '\u{3000}'
}

/// `s` without the white space that it starts with.
pub open spec fn trimmed_start(s: Seq<char>) -> Seq<char>
    decreases s.len(),
{
    if s.len() > 0 && is_white_space(s[0]) {
        trimmed_start(s.drop_first())
    } else {
        s
    }
}

/// `s` without the white space that it ends with.
pub open spec fn trimmed_end(s: Seq<char>) -> Seq<char>
    decreases s.len(),
{
    if s.len() > 0 && is_white_space(s.last()) {
        trimmed_end(s.drop_last())
    } else {
        s
    }
}

/// `s` without the white space at either end.
pub open spec fn trimmed(s: Seq<char>) -> Seq<char> {
    trimmed_end(trimmed_start(s))
}

/// `s` without the white space at either end.
pub fn trim<'a>(s: &'a str) -> (inner: &'a str)
    ensures
        inner@ == trimmed(s@),
{
    let chars = char_vec(s);
    let mut start: usize = 0;
    assert(s@.skip(0) =~= s@);
    while start < chars.len() && white_space(chars[start])
        invariant
            chars@ == s@,
            start <= chars@.len(),
            trimmed_start(s@) == trimmed_start(s@.skip(start as int)),
        decreases chars@.len() - start,
    {
        assert(s@.skip(start as int).drop_first() =~= s@.skip(start + 1));
        start += 1;
    }
    assert(trimmed_start(s@) == s@.skip(start as int));
    let ghost tail = s@.skip(start as int);
    let mut end: usize = chars.len();
    assert(tail =~= s@.subrange(start as int, end as int));
    while end > start && white_space(chars[end - 1])
        invariant
            chars@ == s@,
            start <= end <= chars@.len(),
            trimmed_end(tail) == trimmed_end(s@.subrange(start as int, end as int)),
        decreases end,
    {
        assert(s@.subrange(start as int, end as int).drop_last() =~= s@.subrange(
            start as int,
            end - 1,
        ));
        end -= 1;
    }
    s.substring_char(start, end)
}

/// What the character `c` counts as a digit to the base `radix`.
pub open spec fn digit_value(c: char, radix: nat) -> Option<nat> {
    let value = if '0' <= c && c <= '9' {
        (c as nat - '0' as nat) as nat
    } else if 'a' <= c && c <= 'z' {
        (c as nat - 'a' as nat + 10) as nat
    } else if 'A' <= c && c <= 'Z' {
        (c as nat - 'A' as nat + 10) as nat
    } else {
        radix
    };
    if value < radix {
        Some(value)
    } else {
        None
    }
}

/// The number that a run of digits to the base `radix` stands for, the most significant first.
/// An empty run stands for zero; a character that is no digit leaves no number.
pub open spec fn digits_value(s: Seq<char>, radix: nat) -> Option<nat>
    decreases s.len(),
{
    if s.len() == 0 {
        Some(0)
    } else {
        match (digits_value(s.drop_last(), radix), digit_value(s.last(), radix)) {
            (Some(high), Some(low)) => Some(high * radix + low),
            _ => None,
        }
    }
}

/// The number at most `max` that `s` writes to the base `radix`: one optional `+`, then one or more
/// digits and nothing else.
pub open spec fn unsigned_value(s: Seq<char>, radix: nat, max: nat) -> Option<nat> {
    let digits = if s.len() > 0 && s[0] == '+' {
        s.skip(1)
    } else {
        s
    };
    if digits.len() == 0 {
        None
    } else {
        match digits_value(digits, radix) {
            Some(value) => if value <= max {
                Some(value)
            } else {
                None
            },
            None => None,
        }
    }
}

/// The number that fits `i32` and that `s` writes in decimal, with an optional sign.
pub open spec fn signed_value(s: Seq<char>) -> Option<int> {
    if s.len() > 0 && s[0] == '-' {
        let digits = s.skip(1);
        if digits.len() == 0 {
            None
        } else {
            match digits_value(digits, 10) {
                Some(value) => if value <= 0x8000_0000 {
                    Some(-(value as int))
                } else {
                    None
                },
                None => None,
            }
        }
    } else {
        match unsigned_value(s, 10, 0x7fff_ffff) {
            Some(value) => Some(value as int),
            None => None,
        }
    }
}

/// Where a run of digits stands for a number, each run that it starts with stands for one that is
/// no greater.
proof fn digits_value_prefix(s: Seq<char>, n: int, radix: nat)
    requires
        0 <= n <= s.len(),
        radix >= 1,
    ensures
        digits_value(s, radix) matches Some(value) ==> (digits_value(s.take(n), radix) matches Some(
            start,
        ) && start <= value),
    decreases s.len(),
{
    if n == s.len() {
        assert(s.take(n) =~= s);
    } else {
        digits_value_prefix(s.drop_last(), n, radix);
        assert(s.drop_last().take(n) =~= s.take(n));
        match (digits_value(s.drop_last(), radix), digit_value(s.last(), radix)) {
            (Some(high), Some(low)) => {
                assert(high <= high * radix) by (nonlinear_arith)
                    requires
                        radix >= 1,
                ;
            },
            _ => {},
        }
    }
}

fn digit(c: char, radix: u32) -> (value: Option<u32>)
    requires
        2 <= radix <= 36,
    ensures
        match value {
            Some(v) => digit_value(c, radix as nat) == Some(v as nat),
            None => digit_value(c, radix as nat) is None,
        },
{
    let value: u32 = if '0' <= c && c <= '9' {
        c as u32 - '0' as u32
    } else if 'a' <= c && c <= 'z' {
        c as u32 - 'a' as u32 + 10
    } else if 'A' <= c && c <= 'Z' {
        c as u32 - 'A' as u32 + 10
    } else {
        radix
    };
    if value < radix {
        Some(value)
    } else {
        None
    }
}

/// Reads the digits from `start` on, where there are any and the number is at most `max`.
fn digits(chars: &Vec<char>, start: usize, radix: u32, max: u32) -> (value: Option<u32>)
    requires
        2 <= radix <= 36,
        start <= chars@.len(),
    ensures
        match value {
            Some(v) => start < chars@.len() && v <= max && digits_value(
                chars@.skip(start as int),
                radix as nat,
            ) == Some(v as nat),
            None => start == chars@.len() || match digits_value(
                chars@.skip(start as int),
                radix as nat,
            ) {
                Some(v) => v > max,
                None => true,
            },
        },
{
    if start == chars.len() {
        return None;
    }
    let ghost run = chars@.skip(start as int);
    let mut value: u32 = 0;
    let mut i: usize = start;
    assert(run.take(0) =~= Seq::<char>::empty());
    while i < chars.len()
        invariant
            2 <= radix <= 36,
            start <= i <= chars@.len(),
            run == chars@.skip(start as int),
            value <= max,
            digits_value(run.take(i - start), radix as nat) == Some(value as nat),
        decreases chars@.len() - i,
    {
        proof {
            assert(run.take(i + 1 - start).drop_last() =~= run.take(i - start));
            assert(run.take(i + 1 - start).last() == chars@[i as int]);
            digits_value_prefix(run, i + 1 - start, radix as nat);
        }
        match digit(chars[i], radix) {
            Some(low) => {
                assert(value * radix <= 0xffff_ffff * 36) by (nonlinear_arith)
                    requires
                        value <= 0xffff_ffff,
                        radix <= 36,
                ;
                let next: u64 = value as u64 * radix as u64 + low as u64;
                if next > max as u64 {
                    return None;
                }
                value = next as u32;
            },
            None => {
                return None;
            },
        }
        i += 1;
    }
    assert(run.take(i - start) =~= run);
    Some(value)
}

/// Reads an unsigned number at most `max`.
pub fn parse_unsigned(s: &str, radix: u32, max: u32) -> (value: Option<u32>)
    requires
        2 <= radix <= 36,
    ensures
        match value {
            Some(v) => unsigned_value(s@, radix as nat, max as nat) == Some(v as nat),
            None => unsigned_value(s@, radix as nat, max as nat) is None,
        },
{
    let chars = char_vec(s);
    let start: usize = if chars.len() > 0 && chars[0] == '+' {
        1
    } else {
        0
    };
    assert(s@.skip(0) =~= s@);
    digits(&chars, start, radix, max)
}

/// Reads a decimal number that fits `u16`.
pub fn parse_u16(s: &str) -> (value: Option<u16>)
    ensures
        match value {
            Some(v) => unsigned_value(s@, 10, 0xffff) == Some(v as nat),
            None => unsigned_value(s@, 10, 0xffff) is None,
        },
{
    match parse_unsigned(s, 10, 0xffff) {
        Some(v) => Some(v as u16),
        None => None,
    }
}

/// Reads a decimal number that fits `u32`.
pub fn parse_u32(s: &str) -> (value: Option<u32>)
    ensures
        match value {
            Some(v) => unsigned_value(s@, 10, 0xffff_ffff) == Some(v as nat),
            None => unsigned_value(s@, 10, 0xffff_ffff) is None,
        },
{
    parse_unsigned(s, 10, 0xffff_ffff)
}

/// Reads a decimal number that fits `i32`.
pub fn parse_i32(s: &str) -> (value: Option<i32>)
    ensures
        match value {
            Some(v) => signed_value(s@) == Some(v as int),
            None => signed_value(s@) is None,
        },
{
    let chars = char_vec(s);
    if chars.len() > 0 && chars[0] == '-' {
        match digits(&chars, 1, 10, 0x8000_0000) {
            Some(v) => {
                let negative: i64 = -(v as i64);
                Some(negative as i32)
            },
            None => None,
        }
    } else {
        match parse_unsigned(s, 10, 0x7fff_ffff) {
            Some(v) => Some(v as i32),
            None => None,
        }
    }
}

/// The decimal digit of `d`.
pub open spec fn digit_char(d: nat) -> char {
    (d + '0' as nat) as char
}

/// `n` in decimal, without leading zeros.
pub open spec fn decimal(n: nat) -> Seq<char>
    decreases n,
{
    if n < 10 {
        seq![digit_char(n)]
    } else {
        decimal(n / 10).push(digit_char(n % 10))
    }
}

fn digit_text(d: u32) -> (s: &'static str)
    requires
        d < 10,
    ensures
        s@ == seq![digit_char(d as nat)],
{
    proof {
        reveal_strlit("0");
        reveal_strlit("1");
        reveal_strlit("2");
        reveal_strlit("3");
        reveal_strlit("4");
        reveal_strlit("5");
        reveal_strlit("6");
        reveal_strlit("7");
        reveal_strlit("8");
        reveal_strlit("9");
    }
    let s = match d {
        0 => "0",
        1 => "1",
        2 => "2",
        3 => "3",
        4 => "4",
        5 => "5",
        6 => "6",
        7 => "7",
        8 => "8",
        _ => "9",
    };
    assert(s@ =~= seq![digit_char(d as nat)]);
    s
}

/// Writes `n` in decimal.
pub fn decimal_string(n: u32) -> (s: String)
    ensures
        s@ == decimal(n as nat),
    decreases n,
{
    if n < 10 {
        digit_text(n).to_owned()
    } else {
        let mut s = decimal_string(n / 10);
        let last = digit_text(n % 10);
        s.append(last);
        assert(s@ =~= decimal(n as nat));
        s
    }
}

/// Reading a number's decimal form gives the number back.
pub proof fn decimal_reads_back(n: nat, max: nat)
    requires
        n <= max,
    ensures
        unsigned_value(decimal(n), 10, max) == Some(n),
{
    decimal_digits(n);
}

/// A number's decimal form is a run of digits that stands for the number.
pub proof fn decimal_digits(n: nat)
    ensures
        decimal(n).len() > 0,
        digits_value(decimal(n), 10) == Some(n),
        forall|i: int|
            0 <= i < decimal(n).len() ==> '0' <= #[trigger] decimal(n)[i] && decimal(n)[i] <= '9',
    decreases n,
{
    if n < 10 {
        assert(decimal(n).drop_last() =~= Seq::<char>::empty());
        assert(digits_value(Seq::<char>::empty(), 10) == Some(0nat));
    } else {
        decimal_digits(n / 10);
        assert(decimal(n).drop_last() =~= decimal(n / 10));
        assert forall|i: int| 0 <= i < decimal(n).len() implies '0' <= #[trigger] decimal(n)[i]
            && decimal(n)[i] <= '9' by {
            if i < decimal(n / 10).len() {
                assert(decimal(n)[i] == decimal(n / 10)[i]);
            }
        }
    }
}

} // verus!
