//! Writing a group of three numbers and reading it back.
use vstd::arithmetic::div_mod::{lemma_mod_multiples_vanish, lemma_small_mod};
use vstd::arithmetic::power2::{lemma2_to64, pow2};
use vstd::prelude::*;

use super::tagged_32_variable::{
    bytes_read, group_length, group_numbers, wide_length, wide_number, wide_width,
};
use super::two_complement;
use crate::reader::little_endian;

verus! {

/// The byte that writes three numbers in two bits each behind the tag 0.
pub open spec fn group_of_2_2_2(a: int, b: int, c: int) -> Seq<u8> {
    seq![(16 * (a % 4) + 4 * (b % 4) + c % 4) as u8]
}

/// The two bytes that write three numbers in 5, 5 and 4 bits behind the tag 1.
pub open spec fn group_of_5_5_4(a: int, b: int, c: int) -> Seq<u8> {
    let word = 0x4000 + 0x200 * (a % 32) + 0x10 * (b % 32) + c % 16;
    seq![(word / 256) as u8, (word % 256) as u8]
}

/// The three bytes that write three numbers in 8, 7 and 7 bits behind the tag 2.
pub open spec fn group_of_8_7_7(a: int, b: int, c: int) -> Seq<u8> {
    let word = 0x80_0000 + 0x4000 * (a % 256) + 0x80 * (b % 128) + c % 128;
    seq![(word / 65536) as u8, ((word / 256) % 256) as u8, (word % 256) as u8]
}

/// How many numbers one to four bytes can tell apart.
pub open spec fn byte_range(width: nat) -> int {
    if width == 1 {
        0x100
    } else if width == 2 {
        0x1_0000
    } else if width == 3 {
        0x100_0000
    } else {
        0x1_0000_0000
    }
}

/// Whether a signed number can be written in that many bytes.
pub open spec fn fits_bytes(value: int, width: nat) -> bool {
    -byte_range(width) <= 2 * value < byte_range(width)
}

/// The bytes that write a signed number in one to four bytes, the least significant byte first.
pub open spec fn number_bytes(value: int, width: nat) -> Seq<u8> {
    let rest = value % byte_range(width);
    Seq::new(
        width,
        |i: int|
            (if i == 0 {
                rest % 256
            } else if i == 1 {
                (rest / 0x100) % 256
            } else if i == 2 {
                (rest / 0x1_0000) % 256
            } else {
                rest / 0x100_0000
            }) as u8,
    )
}

/// The bytes that write three numbers in as many bytes each as `widths` says, behind the tag 3.
pub open spec fn wide_group(
    a: int,
    b: int,
    c: int,
    widths: (nat, nat, nat),
) -> Seq<u8> {
    seq![(0xC0 + (widths.0 - 1) + 4 * (widths.1 - 1) + 16 * (widths.2 - 1)) as u8] + number_bytes(
        a,
        widths.0,
    ) + number_bytes(b, widths.1) + number_bytes(c, widths.2)
}

/// Numbers of -2 to 1 that are written in two bits each are read back, whatever follows.
pub proof fn two_bit_group_reads_back(a: int, b: int, c: int, tail: Seq<u8>)
    requires
        -2 <= a < 2,
        -2 <= b < 2,
        -2 <= c < 2,
    ensures
        group_numbers(group_of_2_2_2(a, b, c) + tail) == Some(seq![a, b, c]),
        bytes_read(group_of_2_2_2(a, b, c) + tail) == 1,
{
    lemma2_to64();
    let bytes = group_of_2_2_2(a, b, c) + tail;
    let b0 = 16 * (a % 4) + 4 * (b % 4) + c % 4;
    assert(bytes[0] == b0);
    assert(bytes[0] / 64 == 0);
    assert(group_numbers(bytes).unwrap() =~= seq![a, b, c]);
}

/// The remainder of a number that fits `bits` bits stands for it in two's complement.
pub proof fn remainder_reads_back(value: int, modulus: int, bits: nat)
    requires
        modulus == pow2(bits),
        modulus >= 2,
        -modulus <= 2 * value < modulus,
    ensures
        0 <= value % modulus < modulus,
        two_complement((value % modulus) as nat, bits) == value,
{
    if value < 0 {
        lemma_mod_multiples_vanish(1, value, modulus);
        lemma_small_mod((value + modulus) as nat, modulus as nat);
    } else {
        lemma_small_mod(value as nat, modulus as nat);
    }
}

/// What a number stands for in two's complement has the number as its remainder.
proof fn remainder_writes_back(value: nat, modulus: int, bits: nat)
    requires
        modulus == pow2(bits),
        value < modulus,
    ensures
        two_complement(value, bits) % modulus == value,
{
    let number = two_complement(value, bits);
    lemma_small_mod(value, modulus as nat);
    if number < 0 {
        lemma_mod_multiples_vanish(1, number, modulus);
    }
}

proof fn split_5_5_4(word: int, p: int, q: int, r: int)
    requires
        word == 0x4000 + 0x200 * p + 0x10 * q + r,
        0 <= p < 32,
        0 <= q < 32,
        0 <= r < 16,
    ensures
        64 <= word / 256 < 128,
        0 <= word % 256 < 256,
        (word / 512) % 32 == p,
        (word / 16) % 32 == q,
        word % 16 == r,
{
    assert(word == 512 * (32 + p) + (16 * q + r));
    assert(word / 512 == 32 + p);
    assert(word == 16 * (1024 + 32 * p + q) + r);
    assert(word / 16 == 1024 + 32 * p + q);
    assert(1024 + 32 * p + q == 32 * (32 + p) + q);
}

#[verifier::rlimit(50)]
proof fn split_8_7_7(word: int, p: int, q: int, r: int)
    requires
        word == 0x80_0000 + 0x4000 * p + 0x80 * q + r,
        0 <= p < 256,
        0 <= q < 128,
        0 <= r < 128,
    ensures
        128 <= word / 65536 < 192,
        0 <= (word / 256) % 256 < 256,
        0 <= word % 256 < 256,
        65536 * (word / 65536) + 256 * ((word / 256) % 256) + word % 256 == word,
        (word / 16384) % 256 == p,
        (word / 128) % 128 == q,
        word % 128 == r,
{
    assert(word == 16384 * (512 + p) + (128 * q + r));
    assert(word / 16384 == 512 + p);
    assert(512 + p == 256 * 2 + p);
    assert(word == 128 * (65536 + 128 * p + q) + r);
    assert(word / 128 == 65536 + 128 * p + q);
    assert(65536 + 128 * p + q == 128 * (512 + p) + q);
    assert(word / 65536 == (word / 256) / 256);
}

/// Numbers that are written in 5, 5 and 4 bits are read back, whatever follows.
#[verifier::rlimit(50)]
pub proof fn five_bit_group_reads_back(a: int, b: int, c: int, tail: Seq<u8>)
    requires
        -16 <= a < 16,
        -16 <= b < 16,
        -8 <= c < 8,
    ensures
        group_numbers(group_of_5_5_4(a, b, c) + tail) == Some(seq![a, b, c]),
        bytes_read(group_of_5_5_4(a, b, c) + tail) == 2,
{
    lemma2_to64();
    let bytes = group_of_5_5_4(a, b, c) + tail;
    remainder_reads_back(a, 32, 5);
    remainder_reads_back(b, 32, 5);
    remainder_reads_back(c, 16, 4);
    let (p, q, r) = (a % 32, b % 32, c % 16);
    let word = 0x4000 + 0x200 * p + 0x10 * q + r;
    split_5_5_4(word, p, q, r);
    assert(bytes[0] == word / 256);
    assert(bytes[1] == word % 256);
    assert(bytes[0] / 64 == 1);
    assert(256 * bytes[0] as nat + bytes[1] as nat == word);
    assert(group_numbers(bytes).unwrap() =~= seq![a, b, c]);
}

/// Numbers that are written in 8, 7 and 7 bits are read back, whatever follows.
#[verifier::rlimit(50)]
pub proof fn eight_bit_group_reads_back(a: int, b: int, c: int, tail: Seq<u8>)
    requires
        -128 <= a < 128,
        -64 <= b < 64,
        -64 <= c < 64,
    ensures
        group_numbers(group_of_8_7_7(a, b, c) + tail) == Some(seq![a, b, c]),
        bytes_read(group_of_8_7_7(a, b, c) + tail) == 3,
{
    lemma2_to64();
    let bytes = group_of_8_7_7(a, b, c) + tail;
    remainder_reads_back(a, 256, 8);
    remainder_reads_back(b, 128, 7);
    remainder_reads_back(c, 128, 7);
    let (p, q, r) = (a % 256, b % 128, c % 128);
    let word = 0x80_0000 + 0x4000 * p + 0x80 * q + r;
    split_8_7_7(word, p, q, r);
    assert(bytes[0] == word / 65536);
    assert(bytes[1] == (word / 256) % 256);
    assert(bytes[2] == word % 256);
    assert(bytes[0] / 64 == 2);
    assert(65536 * bytes[0] as nat + 256 * bytes[1] as nat + bytes[2] as nat == word);
    assert(group_numbers(bytes).unwrap() =~= seq![a, b, c]);
}

/// Bytes that write a signed number stand for it in two's complement.
#[verifier::rlimit(50)]
proof fn number_bytes_read_back(value: int, width: nat)
    requires
        1 <= width <= 4,
        fits_bytes(value, width),
    ensures
        number_bytes(value, width).len() == width,
        two_complement(little_endian(number_bytes(value, width)), 8 * width) == value,
{
    lemma2_to64();
    reveal_with_fuel(little_endian, 6);
    let bytes = number_bytes(value, width);
    let rest = value % byte_range(width);
    remainder_reads_back(value, byte_range(width), 8 * width);
    assert(little_endian(bytes) == rest) by {
        assert(bytes[0] == rest % 256);
        if width == 1 {
            assert(rest % 256 == rest);
        } else if width == 2 {
            assert(bytes[1] == (rest / 256) % 256);
        } else if width == 3 {
            assert(bytes[1] == (rest / 256) % 256);
            assert(bytes[2] == (rest / 0x1_0000) % 256);
        } else {
            assert(bytes[1] == (rest / 256) % 256);
            assert(bytes[2] == (rest / 0x1_0000) % 256);
            assert(bytes[3] == rest / 0x100_0000);
        }
    }
}

proof fn split_widths(code: u8, x: nat, y: nat, z: nat)
    requires
        1 <= x <= 4,
        1 <= y <= 4,
        1 <= z <= 4,
        code == 0xC0 + (x - 1) + 4 * (y - 1) + 16 * (z - 1),
    ensures
        code / 64 == 3,
        wide_width(code, 0) == x,
        wide_width(code, 1) == y,
        wide_width(code, 2) == z,
        wide_length(code, 0) == 1,
        wide_length(code, 1) == 1 + x,
        wide_length(code, 2) == 1 + x + y,
        wide_length(code, 3) == 1 + x + y + z,
        group_length(code) == 1 + x + y + z,
{
    reveal_with_fuel(wide_length, 4);
}

/// Numbers that are written in one to four bytes each are read back, whatever follows.
#[verifier::rlimit(50)]
pub proof fn wide_group_reads_back(
    a: int,
    b: int,
    c: int,
    widths: (nat, nat, nat),
    tail: Seq<u8>,
)
    requires
        1 <= widths.0 <= 4,
        1 <= widths.1 <= 4,
        1 <= widths.2 <= 4,
        fits_bytes(a, widths.0),
        fits_bytes(b, widths.1),
        fits_bytes(c, widths.2),
    ensures
        group_numbers(wide_group(a, b, c, widths) + tail) == Some(seq![a, b, c]),
        bytes_read(wide_group(a, b, c, widths) + tail) == 1 + widths.0 + widths.1 + widths.2,
{
    let bytes = wide_group(a, b, c, widths) + tail;
    let (x, y, z) = widths;
    let code = 0xC0 + (x - 1) + 4 * (y - 1) + 16 * (z - 1);
    let first = bytes[0];
    number_bytes_read_back(a, x);
    number_bytes_read_back(b, y);
    number_bytes_read_back(c, z);
    split_widths(first, x, y, z);
    assert(bytes.subrange(1, (1 + x) as int) =~= number_bytes(a, x));
    assert(bytes.subrange((1 + x) as int, (1 + x + y) as int) =~= number_bytes(b, y));
    assert(bytes.subrange((1 + x + y) as int, (1 + x + y + z) as int) =~= number_bytes(c, z));
    assert(wide_number(bytes, 0) == a);
    assert(wide_number(bytes, 1) == b);
    assert(wide_number(bytes, 2) == c);
    assert(group_numbers(bytes).unwrap() =~= seq![a, b, c]);
}

/// Every bit of a group counts: writing the numbers that were read gives back the bytes that they
/// were read from.
pub proof fn groups_write_back(bytes: Seq<u8>)
    requires
        group_numbers(bytes) is Some,
    ensures
        ({
            let n = group_numbers(bytes).unwrap();
            let written = if bytes[0] < 64 {
                group_of_2_2_2(n[0], n[1], n[2])
            } else if bytes[0] < 128 {
                group_of_5_5_4(n[0], n[1], n[2])
            } else if bytes[0] < 192 {
                group_of_8_7_7(n[0], n[1], n[2])
            } else {
                wide_group(
                    n[0],
                    n[1],
                    n[2],
                    (
                        1 + bytes[0] as nat % 4,
                        1 + (bytes[0] as nat / 4) % 4,
                        1 + (bytes[0] as nat / 16) % 4,
                    ),
                )
            };
            written == bytes.take(written.len() as int)
        }),
{
    let first = bytes[0];
    if first < 64 {
        two_bit_group_writes_back(bytes);
    } else if first < 128 {
        five_bit_group_writes_back(bytes);
    } else if first < 192 {
        eight_bit_group_writes_back(bytes);
    } else {
        wide_group_writes_back(bytes);
    }
}

proof fn two_bit_group_writes_back(bytes: Seq<u8>)
    requires
        group_numbers(bytes) is Some,
        bytes[0] < 64,
    ensures
        ({
            let n = group_numbers(bytes).unwrap();
            group_of_2_2_2(n[0], n[1], n[2]) == bytes.take(1)
        }),
{
    lemma2_to64();
    let n = group_numbers(bytes).unwrap();
    let b0 = bytes[0] as nat;
    assert(bytes[0] / 64 == 0);
    remainder_writes_back((b0 / 16) % 4, 4, 2);
    remainder_writes_back((b0 / 4) % 4, 4, 2);
    remainder_writes_back(b0 % 4, 4, 2);
    assert(group_of_2_2_2(n[0], n[1], n[2]) =~= bytes.take(1));
}

#[verifier::rlimit(50)]
proof fn five_bit_group_writes_back(bytes: Seq<u8>)
    requires
        group_numbers(bytes) is Some,
        64 <= bytes[0] < 128,
    ensures
        ({
            let n = group_numbers(bytes).unwrap();
            group_of_5_5_4(n[0], n[1], n[2]) == bytes.take(2)
        }),
{
    lemma2_to64();
    let n = group_numbers(bytes).unwrap();
    assert(bytes[0] / 64 == 1);
    let word = 256 * bytes[0] as nat + bytes[1] as nat;
    remainder_writes_back((word / 512) % 32, 32, 5);
    remainder_writes_back((word / 16) % 32, 32, 5);
    remainder_writes_back(word % 16, 16, 4);
    assert(word / 512 == (word / 16) / 32);
    assert(word / 512 == 32 + (word / 512) % 32);
    assert(word == 16 * (word / 16) + word % 16);
    assert(0x4000 + 0x200 * (n[0] % 32) + 0x10 * (n[1] % 32) + n[2] % 16 == word);
    assert(word / 256 == bytes[0]);
    assert(group_of_5_5_4(n[0], n[1], n[2]) =~= bytes.take(2));
}

#[verifier::rlimit(50)]
proof fn join_8_7_7(word: nat, b0: nat, b1: nat, b2: nat)
    requires
        128 <= b0 < 192,
        b1 < 256,
        b2 < 256,
        word == 65536 * b0 + 256 * b1 + b2,
    ensures
        0x80_0000 + 0x4000 * ((word / 16384) % 256) + 0x80 * ((word / 128) % 128) + word % 128 == word,
        word / 65536 == b0,
        (word / 256) % 256 == b1,
        word % 256 == b2,
{
    let (w, x, y, z) = (word as u32, b0 as u32, b1 as u32, b2 as u32);
    assert(0x80_0000 + 0x4000 * ((w / 16384) % 256) + 0x80 * ((w / 128) % 128) + w % 128 == w && w
        / 65536 == x && (w / 256) % 256 == y && w % 256 == z) by (bit_vector)
        requires
            128 <= x < 192,
            y < 256,
            z < 256,
            w == 65536 * x + 256 * y + z,
    ;
}

#[verifier::rlimit(50)]
proof fn eight_bit_group_writes_back(bytes: Seq<u8>)
    requires
        group_numbers(bytes) is Some,
        128 <= bytes[0] < 192,
    ensures
        ({
            let n = group_numbers(bytes).unwrap();
            group_of_8_7_7(n[0], n[1], n[2]) == bytes.take(3)
        }),
{
    lemma2_to64();
    let n = group_numbers(bytes).unwrap();
    assert(bytes[0] / 64 == 2);
    let word = 65536 * bytes[0] as nat + 256 * bytes[1] as nat + bytes[2] as nat;
    remainder_writes_back((word / 16384) % 256, 256, 8);
    remainder_writes_back((word / 128) % 128, 128, 7);
    remainder_writes_back(word % 128, 128, 7);
    join_8_7_7(word, bytes[0] as nat, bytes[1] as nat, bytes[2] as nat);
    assert(group_of_8_7_7(n[0], n[1], n[2]) =~= bytes.take(3));
}

#[verifier::rlimit(50)]
proof fn wide_group_writes_back(bytes: Seq<u8>)
    requires
        group_numbers(bytes) is Some,
        192 <= bytes[0],
    ensures
        ({
            let n = group_numbers(bytes).unwrap();
            let first = bytes[0] as nat;
            let widths = (1 + first % 4, 1 + (first / 4) % 4, 1 + (first / 16) % 4);
            wide_group(n[0], n[1], n[2], widths) == bytes.take(
                1 + widths.0 as int + widths.1 as int + widths.2 as int,
            ) && wide_group(n[0], n[1], n[2], widths).len() == 1 + widths.0 + widths.1 + widths.2
        }),
{
    let n = group_numbers(bytes).unwrap();
    let first = bytes[0];
    let (x, y, z) = (1 + first as nat % 4, 1 + (first as nat / 4) % 4, 1 + (first as nat / 16) % 4);
    assert(0xC0 + (x - 1) + 4 * (y - 1) + 16 * (z - 1) == first);
    split_widths(first, x, y, z);
    let own_a = bytes.subrange(1, (1 + x) as int);
    let own_b = bytes.subrange((1 + x) as int, (1 + x + y) as int);
    let own_c = bytes.subrange((1 + x + y) as int, (1 + x + y + z) as int);
    number_writes_back(own_a);
    number_writes_back(own_b);
    number_writes_back(own_c);
    assert(n[0] == wide_number(bytes, 0));
    assert(n[1] == wide_number(bytes, 1));
    assert(n[2] == wide_number(bytes, 2));
    assert(number_bytes(n[0], x) == own_a);
    assert(number_bytes(n[1], y) == own_b);
    assert(number_bytes(n[2], z) == own_c);
    assert(wide_group(n[0], n[1], n[2], (x, y, z)) =~= bytes.take((1 + x + y + z) as int));
}

#[verifier::rlimit(50)]
proof fn number_writes_back(bytes: Seq<u8>)
    requires
        1 <= bytes.len() <= 4,
    ensures
        number_bytes(
            two_complement(little_endian(bytes), 8 * bytes.len()),
            bytes.len(),
        ) == bytes,
{
    lemma2_to64();
    reveal_with_fuel(little_endian, 6);
    let width = bytes.len();
    let value = little_endian(bytes);
    let number = two_complement(value, 8 * width);
    assert(0 <= value < byte_range(width));
    remainder_writes_back(value, byte_range(width), 8 * width);
    assert(number_bytes(number, width) =~= bytes);
}

/// How many bytes a group needs that starts with `first`.
pub open spec fn bytes_needed(first: u8) -> nat {
    if first < 64 {
        1
    } else if first < 128 {
        2
    } else if first < 192 {
        3
    } else {
        4 + first as nat % 4 + (first as nat / 4) % 4 + (first as nat / 16) % 4
    }
}

/// A group is refused if and only if bytes are missing. A group of the tags 0 to 2 is then read up to
/// the end of the log; of the others each number that is there whole is read.
pub proof fn groups_cut_short(bytes: Seq<u8>)
    ensures
        group_numbers(bytes) is None <==> bytes.len() == 0 || bytes.len() < bytes_needed(bytes[0]),
        bytes_read(bytes) <= bytes.len(),
        group_numbers(bytes) is Some ==> bytes_read(bytes) == bytes_needed(bytes[0]),
        group_numbers(bytes) is None ==> ({
            let left = bytes.len() - bytes_read(bytes);
            if bytes.len() == 0 || bytes[0] < 192 {
                left == 0
            } else {
                let first = bytes[0] as nat;
                let (x, y, z) = (1 + first % 4, 1 + (first / 4) % 4, 1 + (first / 16) % 4);
                ||| bytes_read(bytes) == 1 && left < x
                ||| bytes_read(bytes) == 1 + x && left < y
                ||| bytes_read(bytes) == 1 + x + y && left < z
            }
        }),
{
    reveal_with_fuel(wide_length, 4);
    if bytes.len() > 0 {
        let first = bytes[0];
        assert(first / 64 < 4) by (bit_vector);
        assert(wide_width(first, 0) == 1 + first as nat % 4);
        assert(wide_width(first, 1) == 1 + (first as nat / 4) % 4);
        assert(wide_width(first, 2) == 1 + (first as nat / 16) % 4);
        assert(group_length(first) == bytes_needed(first));
    }
}

} // verus!
