//! What holds of the operations on text.
use vstd::prelude::*;

use crate::text::{
    after_prefix, ascii_lowercase, decimal, decimal_digits, digit_value, digits_value, is_white_space, position_of,
    position_of_is_first, signed_value, split_all, split_once_at, split_once_at_first, trimmed, trimmed_end,
    trimmed_start, unsigned_value,
};

verus! {

/// A text that is split once is the two parts with the character in between, and the first part
/// lacks the character. A text that lacks the character is not split.
pub proof fn split_once_at_parts(s: Seq<char>, c: char)
    ensures
        match split_once_at(s, c) {
            Some((before, after)) => s == before.push(c) + after && !before.contains(c),
            None => !s.contains(c),
        },
{
    position_of_is_first(s, c);
    match position_of(s, c) {
        Some(i) => {
            assert(s =~= s.take(i as int).push(c) + s.skip(i as int + 1));
        },
        None => {},
    }
}

/// Parts with a character in between each two.
pub open spec fn joined(parts: Seq<Seq<char>>, c: char) -> Seq<char>
    decreases parts.len(),
{
    if parts.len() == 0 {
        Seq::empty()
    } else if parts.len() == 1 {
        parts[0]
    } else {
        parts[0].push(c) + joined(parts.drop_first(), c)
    }
}

/// The parts that a text splits into join to the text, and none of them holds the character.
pub proof fn split_parts_join(s: Seq<char>, c: char)
    ensures
        split_all(s, c).len() >= 1,
        joined(split_all(s, c), c) == s,
        forall|i: int|
            0 <= i < split_all(s, c).len() ==> !(#[trigger] split_all(s, c)[i]).contains(c),
    decreases s.len(),
{
    position_of_is_first(s, c);
    match position_of(s, c) {
        Some(i) => {
            let rest = s.skip(i as int + 1);
            let parts = split_all(s, c);
            split_parts_join(rest, c);
            assert(parts == seq![s.take(i as int)] + split_all(rest, c));
            assert(parts.drop_first() =~= split_all(rest, c));
            assert(s =~= s.take(i as int).push(c) + rest);
            assert forall|j: int| 0 <= j < parts.len() implies !(#[trigger] parts[j]).contains(c) by {
                if j > 0 {
                    assert(parts[j] == split_all(rest, c)[j - 1]);
                }
            }
        },
        None => {
            assert(split_all(s, c) =~= seq![s]);
        },
    }
}

/// Parts that lack a character are what the text splits into that joins them.
pub proof fn joined_parts_split(parts: Seq<Seq<char>>, c: char)
    requires
        parts.len() >= 1,
        forall|i: int| 0 <= i < parts.len() ==> !(#[trigger] parts[i]).contains(c),
    ensures
        split_all(joined(parts, c), c) == parts,
    decreases parts.len(),
{
    let s = joined(parts, c);
    position_of_is_first(s, c);
    if parts.len() == 1 {
        match position_of(s, c) {
            Some(i) => {
                assert(parts[0].contains(s[i as int]));
            },
            None => {},
        }
        assert(split_all(s, c) =~= parts);
    } else {
        let rest = parts.drop_first();
        assert forall|i: int| 0 <= i < rest.len() implies !(#[trigger] rest[i]).contains(c) by {
            assert(rest[i] == parts[i + 1]);
        }
        joined_parts_split(rest, c);
        split_once_at_first(parts[0], joined(rest, c), c);
        assert(seq![parts[0]] + rest =~= parts);
    }
}

/// A text that starts with a prefix is the prefix and what follows it.
pub proof fn prefix_is_stripped(s: Seq<char>, prefix: Seq<char>)
    ensures
        after_prefix(prefix + s, prefix) == Some(s),
        match after_prefix(s, prefix) {
            Some(rest) => s == prefix + rest,
            None => forall|rest: Seq<char>| s != #[trigger] (prefix + rest),
        },
{
    assert((prefix + s).take(prefix.len() as int) =~= prefix);
    assert((prefix + s).skip(prefix.len() as int) =~= s);
    match after_prefix(s, prefix) {
        Some(rest) => {
            assert(s =~= prefix + rest);
        },
        None => {
            assert forall|rest: Seq<char>| s != #[trigger] (prefix + rest) by {
                assert((prefix + rest).take(prefix.len() as int) =~= prefix);
            }
        },
    }
}

/// The white space of Unicode.
pub proof fn white_space_is_unicodes(c: char)
    ensures
        is_white_space(c) <==> seq![
            0x09u32,
            0x0a,
            0x0b,
            0x0c,
            0x0d,
            0x20,
            0x85,
            0xa0,
            0x1680,
            0x2000,
            0x2001,
            0x2002,
            0x2003,
            0x2004,
            0x2005,
            0x2006,
            0x2007,
            0x2008,
            0x2009,
            0x200a,
            0x2028,
            0x2029,
            0x202f,
            0x205f,
            0x3000,
        ].contains(c as u32),
{
    let spaces = seq![
        0x09u32,
        0x0a,
        0x0b,
        0x0c,
        0x0d,
        0x20,
        0x85,
        0xa0,
        0x1680,
        0x2000,
        0x2001,
        0x2002,
        0x2003,
        0x2004,
        0x2005,
        0x2006,
        0x2007,
        0x2008,
        0x2009,
        0x200a,
        0x2028,
        0x2029,
        0x202f,
        0x205f,
        0x3000,
    ];
    let n = c as u32;
    if is_white_space(c) {
        if n <= 0x0d {
            assert(spaces[n - 9] == n);
        } else if 0x2000 <= n <= 0x200a {
            assert(spaces[n - 0x2000 + 9] == n);
        } else {
            assert(spaces[5] == 0x20 && spaces[6] == 0x85 && spaces[7] == 0xa0 && spaces[8]
                == 0x1680 && spaces[20] == 0x2028 && spaces[21] == 0x2029 && spaces[22] == 0x202f
                && spaces[23] == 0x205f && spaces[24] == 0x3000);
        }
    }
}

proof fn trimmed_start_parts(s: Seq<char>) -> (before: Seq<char>)
    ensures
        s == before + trimmed_start(s),
        forall|i: int| 0 <= i < before.len() ==> is_white_space(#[trigger] before[i]),
        trimmed_start(s).len() > 0 ==> !is_white_space(trimmed_start(s)[0]),
    decreases s.len(),
{
    if s.len() > 0 && is_white_space(s[0]) {
        let rest = trimmed_start_parts(s.drop_first());
        let before = seq![s[0]] + rest;
        let inner = trimmed_start(s.drop_first());
        assert(trimmed_start(s) == inner);
        assert(s =~= seq![s[0]] + s.drop_first());
        assert(seq![s[0]] + (rest + inner) =~= before + inner);
        assert forall|i: int| 0 <= i < before.len() implies is_white_space(#[trigger] before[i]) by {
            if i > 0 {
                assert(before[i] == rest[i - 1]);
            }
        }
        before
    } else {
        assert(s =~= Seq::<char>::empty() + s);
        Seq::empty()
    }
}

proof fn trimmed_end_parts(s: Seq<char>) -> (after: Seq<char>)
    ensures
        s == trimmed_end(s) + after,
        forall|i: int| 0 <= i < after.len() ==> is_white_space(#[trigger] after[i]),
        trimmed_end(s).len() > 0 ==> !is_white_space(trimmed_end(s).last()),
    decreases s.len(),
{
    if s.len() > 0 && is_white_space(s.last()) {
        let rest = trimmed_end_parts(s.drop_last());
        let after = rest.push(s.last());
        let inner = trimmed_end(s.drop_last());
        assert(trimmed_end(s) == inner);
        assert(s =~= s.drop_last().push(s.last()));
        assert((inner + rest).push(s.last()) =~= inner + after);
        assert forall|i: int| 0 <= i < after.len() implies is_white_space(#[trigger] after[i]) by {
            if i < rest.len() {
                assert(after[i] == rest[i]);
            }
        }
        after
    } else {
        assert(s =~= s + Seq::<char>::empty());
        Seq::empty()
    }
}

/// Trimming takes white space off both ends and leaves none there.
pub proof fn trimmed_is_the_middle(s: Seq<char>) -> (ends: (Seq<char>, Seq<char>))
    ensures
        s == ends.0 + trimmed(s) + ends.1,
        forall|i: int| 0 <= i < ends.0.len() ==> is_white_space(#[trigger] ends.0[i]),
        forall|i: int| 0 <= i < ends.1.len() ==> is_white_space(#[trigger] ends.1[i]),
        trimmed(s).len() > 0 ==> !is_white_space(trimmed(s)[0]) && !is_white_space(trimmed(s).last()),
{
    let before = trimmed_start_parts(s);
    let after = trimmed_end_parts(trimmed_start(s));
    assert(s =~= before + trimmed(s) + after);
    if trimmed(s).len() > 0 {
        assert(trimmed_start(s)[0] == trimmed(s)[0]);
    }
    (before, after)
}

/// Whether `c` writes the digit `d`: `0` to `9`, and letters of either case from ten on.
pub open spec fn writes_digit(c: char, d: nat) -> bool {
    if d < 10 {
        c as int == 0x30 + d
    } else {
        c as int == 0x61 + d - 10 || c as int == 0x41 + d - 10
    }
}

/// Whether each character of `s` writes the digit of `digits` at its place.
pub open spec fn writes_digits(s: Seq<char>, digits: Seq<nat>, radix: nat) -> bool {
    &&& s.len() == digits.len()
    &&& forall|i: int|
        0 <= i < digits.len() ==> #[trigger] digits[i] < radix && writes_digit(s[i], digits[i])
}

/// A number to the power of `n`.
pub open spec fn power(base: nat, n: nat) -> nat
    decreases n,
{
    if n == 0 {
        1
    } else {
        base * power(base, (n - 1) as nat)
    }
}

/// The number that digits to the base `radix` stand for: each counts `radix` to the power of how many
/// follow it.
pub open spec fn positional(digits: Seq<nat>, radix: nat) -> nat
    decreases digits.len(),
{
    if digits.len() == 0 {
        0
    } else {
        digits[0] * power(radix, (digits.len() - 1) as nat) + positional(
            digits.drop_first(),
            radix,
        )
    }
}

proof fn positional_of_last(digits: Seq<nat>, radix: nat)
    requires
        digits.len() > 0,
    ensures
        positional(digits, radix) == positional(digits.drop_last(), radix) * radix + digits.last(),
    decreases digits.len(),
{
    let front = digits.drop_last();
    let rest = digits.drop_first();
    let first = digits[0];
    let last = digits.last();
    let weight = power(radix, (digits.len() - 1) as nat);
    assert(positional(digits, radix) == first * weight + positional(rest, radix));
    if digits.len() == 1 {
        let before = positional(front, radix);
        assert(weight == 1);
        assert(before == 0);
        assert(positional(rest, radix) == 0);
        assert(first == last);
        assert(first * weight == before * radix + first) by (nonlinear_arith)
            requires
                weight == 1,
                before == 0,
        ;
    } else {
        positional_of_last(rest, radix);
        assert(rest.drop_last() =~= front.drop_first());
        assert(rest.last() == last);
        assert(front[0] == first);
        let p = power(radix, (digits.len() - 2) as nat);
        let tail = positional(front.drop_first(), radix);
        let before = positional(front, radix);
        assert(weight == radix * p);
        assert(positional(rest, radix) == tail * radix + last);
        assert(before == first * p + tail);
        assert(first * weight + (tail * radix + last) == before * radix + last) by (nonlinear_arith)
            requires
                weight == radix * p,
                before == first * p + tail,
        ;
    }
}

proof fn digit_values(c: char, d: nat, radix: nat)
    requires
        radix <= 36,
    ensures
        d < radix && writes_digit(c, d) ==> digit_value(c, radix) == Some(d),
        digit_value(c, radix) matches Some(v) ==> v < radix && writes_digit(c, v),
{
}

proof fn digits_are_positional(s: Seq<char>, digits: Seq<nat>, radix: nat)
    requires
        2 <= radix <= 36,
        writes_digits(s, digits, radix),
    ensures
        digits_value(s, radix) == Some(positional(digits, radix)),
    decreases s.len(),
{
    if s.len() > 0 {
        let front = digits.drop_last();
        assert forall|i: int| 0 <= i < front.len() implies #[trigger] front[i] < radix
            && writes_digit(s.drop_last()[i], front[i]) by {
            assert(front[i] == digits[i]);
        }
        digits_are_positional(s.drop_last(), front, radix);
        digit_values(s.last(), digits.last(), radix);
        positional_of_last(digits, radix);
    }
}

proof fn digits_only(s: Seq<char>, radix: nat) -> (digits: Seq<nat>)
    requires
        2 <= radix <= 36,
        digits_value(s, radix) is Some,
    ensures
        writes_digits(s, digits, radix),
    decreases s.len(),
{
    if s.len() == 0 {
        Seq::empty()
    } else {
        let front = digits_only(s.drop_last(), radix);
        let last = digit_value(s.last(), radix).unwrap();
        digit_values(s.last(), last, radix);
        let digits = front.push(last);
        assert forall|i: int| 0 <= i < s.len() implies #[trigger] digits[i] < radix && writes_digit(
            s[i],
            digits[i],
        ) by {
            if i < s.len() - 1 {
                assert(digits[i] == front[i]);
                assert(s[i] == s.drop_last()[i]);
            }
        }
        digits
    }
}

/// Digits are read as the number that they stand for, with or without a plus sign before them, where
/// it is no greater than the greatest number allowed.
pub proof fn digits_are_read(s: Seq<char>, digits: Seq<nat>, radix: nat, max: nat)
    requires
        2 <= radix <= 36,
        s.len() > 0,
        writes_digits(s, digits, radix),
    ensures
        unsigned_value(s, radix, max) == (if positional(digits, radix) <= max {
            Some(positional(digits, radix))
        } else {
            None
        }),
        unsigned_value(seq!['+'] + s, radix, max) == unsigned_value(s, radix, max),
{
    digits_are_positional(s, digits, radix);
    assert(writes_digit(s[0], digits[0]));
    assert((seq!['+'] + s).skip(1) =~= s);
}

/// Nothing but digits is read as a number, and nothing without digits.
pub proof fn only_digits_are_read(s: Seq<char>, radix: nat, max: nat) -> (digits: Seq<nat>)
    requires
        2 <= radix <= 36,
        unsigned_value(s, radix, max) is Some,
    ensures
        digits.len() > 0,
        ({
            let written = if s[0] == '+' {
                s.skip(1)
            } else {
                s
            };
            writes_digits(written, digits, radix)
        }),
        unsigned_value(s, radix, max) == Some(positional(digits, radix)),
        positional(digits, radix) <= max,
{
    let written = if s[0] == '+' {
        s.skip(1)
    } else {
        s
    };
    let digits = digits_only(written, radix);
    digits_are_positional(written, digits, radix);
    digits
}

/// A signed number is read as an unsigned one up to the greatest `i32`, or behind a minus sign as the
/// negative of one up to the least, without another sign.
pub proof fn signed_numbers_are_read(s: Seq<char>)
    ensures
        signed_value(s) matches Some(n) ==> -0x8000_0000 <= n <= 0x7fff_ffff,
        s.len() > 0 && s[0] != '-' ==> signed_value(s) == match unsigned_value(
            s,
            10,
            0x7fff_ffff,
        ) {
            Some(n) => Some(n as int),
            None => None,
        },
        s.len() == 0 ==> signed_value(s) is None,
        s.len() == 0 || s[0] != '+' ==> signed_value(seq!['-'] + s) == match unsigned_value(
            s,
            10,
            0x8000_0000,
        ) {
            Some(n) => Some(-(n as int)),
            None => None,
        },
        s.len() > 0 && s[0] == '+' ==> signed_value(seq!['-'] + s) is None,
{
    let minus = seq!['-'] + s;
    assert(minus.skip(1) =~= s);
    if s.len() > 0 && s[0] == '+' {
        if digits_value(s, 10) is Some {
            let digits = digits_only(s, 10);
            assert(writes_digit(s[0], digits[0]));
        }
    }
}

/// Texts are the same up to the case of ASCII letters: each letter of `lower`, which has none in
/// upper case, stands in `s` in either case, and every other character as it is.
pub open spec fn in_any_case(s: Seq<char>, lower: Seq<char>) -> bool {
    &&& s.len() == lower.len()
    &&& forall|i: int|
        0 <= i < s.len() ==> #[trigger] s[i] == lower[i] || (0x61 <= lower[i] as int <= 0x7a
            && s[i] as int + 32 == lower[i] as int)
}

/// A text reads as one in lower case if and only if it is the same up to case.
pub proof fn lowercase_ignores_case(s: Seq<char>, lower: Seq<char>)
    requires
        forall|i: int|
            0 <= i < lower.len() ==> !(0x41 <= #[trigger] lower[i] as int && lower[i] as int <= 0x5a),
    ensures
        ascii_lowercase(s) == lower <==> in_any_case(s, lower),
{
    let lowered = ascii_lowercase(s);
    if in_any_case(s, lower) {
        assert forall|i: int| 0 <= i < s.len() implies lowered[i] == lower[i] by {
            assert(s[i] == lower[i] || s[i] as int + 32 == lower[i] as int);
        }
        assert(lowered =~= lower);
    }
    if lowered == lower {
        assert forall|i: int| 0 <= i < s.len() implies #[trigger] s[i] == lower[i] || (0x61
            <= lower[i] as int <= 0x7a && s[i] as int + 32 == lower[i] as int) by {
            assert(lowered[i] == lower[i]);
        }
    }
}

/// Whether a text is white space alone.
pub open spec fn blank(s: Seq<char>) -> bool {
    forall|i: int| 0 <= i < s.len() ==> is_white_space(#[trigger] s[i])
}

/// White space around a text that has none at its ends is trimmed off, and of white space alone
/// nothing is left.
pub proof fn white_space_is_trimmed(before: Seq<char>, s: Seq<char>, after: Seq<char>)
    requires
        blank(before),
        blank(after),
        s.len() > 0 ==> !is_white_space(s[0]) && !is_white_space(s.last()),
    ensures
        trimmed(before + s + after) == s,
{
    if s.len() > 0 {
        start_is_trimmed(before, s + after);
        assert(before + s + after =~= before + (s + after));
        end_is_trimmed(s, after);
    } else {
        let all = before + s + after;
        assert(blank(all)) by {
            assert forall|i: int| 0 <= i < all.len() implies is_white_space(#[trigger] all[i]) by {
                if i < before.len() {
                    assert(all[i] == before[i]);
                } else {
                    assert(all[i] == after[i - before.len()]);
                }
            }
        }
        start_is_trimmed(all, Seq::empty());
        assert(all + Seq::<char>::empty() =~= all);
        assert(trimmed(all) =~= s);
    }
}

proof fn start_is_trimmed(before: Seq<char>, s: Seq<char>)
    requires
        blank(before),
        s.len() > 0 ==> !is_white_space(s[0]),
    ensures
        trimmed_start(before + s) == s,
    decreases before.len(),
{
    let all = before + s;
    if before.len() > 0 {
        let rest = before.drop_first();
        assert forall|i: int| 0 <= i < rest.len() implies is_white_space(#[trigger] rest[i]) by {
            assert(rest[i] == before[i + 1]);
        }
        start_is_trimmed(rest, s);
        assert(all.drop_first() =~= rest + s);
        assert(all[0] == before[0]);
    } else {
        assert(all =~= s);
    }
}

proof fn end_is_trimmed(s: Seq<char>, after: Seq<char>)
    requires
        blank(after),
        s.len() > 0 ==> !is_white_space(s.last()),
    ensures
        trimmed_end(s + after) == s,
    decreases after.len(),
{
    let all = s + after;
    if after.len() > 0 {
        let rest = after.drop_last();
        assert forall|i: int| 0 <= i < rest.len() implies is_white_space(#[trigger] rest[i]) by {
            assert(rest[i] == after[i]);
        }
        end_is_trimmed(s, rest);
        assert(all.drop_last() =~= s + rest);
        assert(all.last() == after.last());
        assert(is_white_space(after[after.len() - 1]));
    } else {
        assert(all =~= s);
    }
}

/// A number in decimal has no white space at its ends.
pub proof fn decimal_is_trimmed(before: Seq<char>, n: nat, after: Seq<char>)
    requires
        blank(before),
        blank(after),
    ensures
        trimmed(before + decimal(n) + after) == decimal(n),
{
    decimal_digits(n);
    let s = decimal(n);
    assert('0' <= s[0] && s[0] <= '9');
    assert('0' <= s[s.len() - 1] && s[s.len() - 1] <= '9');
    white_space_is_trimmed(before, s, after);
}

} // verus!
