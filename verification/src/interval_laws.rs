//! How the headers that tell the frame ratio are read.
use vstd::prelude::*;
use vstd::string::*;

use crate::intervals::intervals_of;
use crate::text::{
    decimal, decimal_digits, decimal_reads_back, is_white_space, split_once_at,
    split_once_at_first, trimmed, unsigned_value,
};
use crate::text_laws::{blank, decimal_is_trimmed, split_once_at_parts, white_space_is_trimmed};

verus! {

/// A number, and one in place of zero.
pub open spec fn at_least_one(n: nat) -> nat {
    if n < 1 {
        1
    } else {
        n
    }
}

/// The intra interval is the number of the `I interval` header, which may have white space around it,
/// but never zero.
pub proof fn intra_interval_is_read(
    unknown: Map<Seq<char>, Seq<char>>,
    before: Seq<char>,
    n: nat,
    after: Seq<char>,
)
    requires
        blank(before),
        blank(after),
        n <= 0xffff_ffff,
        unknown.contains_key("I interval"@),
        unknown["I interval"@] == before + decimal(n) + after,
    ensures
        intervals_of(unknown).0 == at_least_one(n),
{
    decimal_is_trimmed(before, n, after);
    decimal_reads_back(n, 0xffff_ffff);
}

/// A `P interval` header that is a number alone is the denominator of the inter fraction.
pub proof fn bare_inter_interval_is_read(
    unknown: Map<Seq<char>, Seq<char>>,
    before: Seq<char>,
    denom: nat,
    after: Seq<char>,
)
    requires
        blank(before),
        blank(after),
        denom <= 0xffff_ffff,
        unknown.contains_key("P interval"@),
        unknown["P interval"@] == before + decimal(denom) + after,
    ensures
        intervals_of(unknown).1 == 1,
        intervals_of(unknown).2 == at_least_one(denom),
{
    decimal_is_trimmed(before, denom, after);
    decimal_reads_back(denom, 0xffff_ffff);
    decimal_digits(denom);
    let raw = decimal(denom);
    split_once_at_parts(raw, '/');
    match split_once_at(raw, '/') {
        Some((a, b)) => {
            assert(raw[a.len() as int] == '/');
        },
        None => {},
    }
}

/// A `P interval` header of two numbers with a slash in between is the inter fraction. There may be
/// white space around both numbers.
pub proof fn inter_fraction_is_read(
    unknown: Map<Seq<char>, Seq<char>>,
    spaces: (Seq<char>, Seq<char>, Seq<char>, Seq<char>),
    num: nat,
    denom: nat,
)
    requires
        blank(spaces.0),
        blank(spaces.1),
        blank(spaces.2),
        blank(spaces.3),
        num <= 0xffff_ffff,
        denom <= 0xffff_ffff,
        unknown.contains_key("P interval"@),
        unknown["P interval"@] == spaces.0 + decimal(num) + spaces.1 + seq!['/'] + spaces.2
            + decimal(denom) + spaces.3,
    ensures
        intervals_of(unknown).1 == at_least_one(num),
        intervals_of(unknown).2 == at_least_one(denom),
{
    decimal_digits(num);
    decimal_digits(denom);
    decimal_reads_back(num, 0xffff_ffff);
    decimal_reads_back(denom, 0xffff_ffff);
    let none = Seq::<char>::empty();
    let left = decimal(num) + spaces.1;
    let right = spaces.2 + decimal(denom);
    let middle = left.push('/') + right;
    let value = unknown["P interval"@];
    assert(value =~= spaces.0 + middle + spaces.3);
    assert(middle[0] == decimal(num)[0]);
    assert(middle.last() == decimal(denom)[decimal(denom).len() - 1]);
    white_space_is_trimmed(spaces.0, middle, spaces.3);
    assert forall|i: int| 0 <= i < left.len() implies left[i] != '/' by {
        if i < decimal(num).len() {
            assert(left[i] == decimal(num)[i]);
        } else {
            assert(is_white_space(spaces.1[i - decimal(num).len()]));
        }
    }
    split_once_at_first(left, right, '/');
    decimal_is_trimmed(none, num, spaces.1);
    assert(none + decimal(num) + spaces.1 =~= left);
    decimal_is_trimmed(spaces.2, denom, none);
    assert(spaces.2 + decimal(denom) + none =~= right);
}

/// What a number that was read, or its absence, counts as.
pub open spec fn number_or(n: Option<nat>, default: nat) -> nat {
    match n {
        Some(n) => at_least_one(n),
        None => default,
    }
}

/// However the numbers are written, each counts as its value. Without a header, or where it or a part
/// of it is no number, the intra interval is 32 and each part of the inter fraction is 1.
pub proof fn intervals_have_defaults(unknown: Map<Seq<char>, Seq<char>>)
    ensures
        !unknown.contains_key("I interval"@) ==> intervals_of(unknown).0 == 32,
        unknown.contains_key("I interval"@) ==> intervals_of(unknown).0 == number_or(
            unsigned_value(trimmed(unknown["I interval"@]), 10, 0xffff_ffff),
            32,
        ),
        !unknown.contains_key("P interval"@) ==> intervals_of(unknown).1 == 1 && intervals_of(
            unknown,
        ).2 == 1,
        forall|num: Seq<char>, denom: Seq<char>|
            unknown.contains_key("P interval"@) && trimmed(unknown["P interval"@]) == (
            #[trigger] (num.push('/') + denom)) && !num.contains('/') ==> intervals_of(unknown).1
                == number_or(unsigned_value(trimmed(num), 10, 0xffff_ffff), 1) && intervals_of(
                unknown,
            ).2 == number_or(unsigned_value(trimmed(denom), 10, 0xffff_ffff), 1),
        unknown.contains_key("P interval"@) && !trimmed(unknown["P interval"@]).contains('/')
            ==> intervals_of(unknown).1 == 1 && intervals_of(unknown).2 == number_or(
            unsigned_value(trimmed(unknown["P interval"@]), 10, 0xffff_ffff),
            1,
        ),
{
    if unknown.contains_key("P interval"@) {
        let raw = trimmed(unknown["P interval"@]);
        assert forall|num: Seq<char>, denom: Seq<char>|
            raw == (#[trigger] (num.push('/') + denom)) && !num.contains('/') implies split_once_at(
            raw,
            '/',
        ) == Some((num, denom)) by {
            assert forall|i: int| 0 <= i < num.len() implies num[i] != '/' by {
                assert(num.contains(num[i]));
            }
            split_once_at_first(num, denom, '/');
        }
        split_once_at_parts(raw, '/');
        match split_once_at(raw, '/') {
            Some((a, b)) => {
                assert(raw[a.len() as int] == '/');
            },
            None => {},
        }
    }
}

/// The intervals depend on what the headers `I interval` and `P interval` are worth as numbers alone:
/// not on how the numbers are written, and not on any other header.
pub proof fn intervals_depend_on_two_headers(
    a: Map<Seq<char>, Seq<char>>,
    b: Map<Seq<char>, Seq<char>>,
)
    requires
        a.contains_key("I interval"@) <==> b.contains_key("I interval"@),
        a.contains_key("P interval"@) <==> b.contains_key("P interval"@),
        a.contains_key("I interval"@) ==> unsigned_value(trimmed(a["I interval"@]), 10, 0xffff_ffff)
            == unsigned_value(trimmed(b["I interval"@]), 10, 0xffff_ffff),
        a.contains_key("P interval"@) ==> a["P interval"@] == b["P interval"@],
    ensures
        intervals_of(a) == intervals_of(b),
{
}

} // verus!
