//! Which loop iterations the firmware writes a frame for.
use vstd::arithmetic::div_mod::{
    lemma_fundamental_div_mod, lemma_mod_bound, lemma_mod_multiples_vanish, lemma_small_mod,
};
use vstd::prelude::*;

use crate::header_map::HeaderMap;
use crate::text::{parse_u32, split_once, split_once_at, trim, trimmed, unsigned_value};

verus! {

/// The number of loop iterations after which their count starts again at zero.
pub const ITERATIONS: u64 = 0x1_0000_0000;

/// Whether the firmware writes a frame for the iteration `index`: with an intra frame every
/// `intra` iterations, and `num` out of `denom` iterations in between.
pub open spec fn writes_frame(intra: nat, num: nat, denom: nat, index: nat) -> bool {
    (index as int % intra as int + num - 1) % (denom as int) < num
}

/// The iteration `n` after `index`.
pub open spec fn iteration_after(index: nat, n: nat) -> nat {
    ((index + n) as int % ITERATIONS as int) as nat
}

/// How many iterations from `index` on, at most `limit`, stand before one that a frame is written
/// for.
pub open spec fn run_of_skipped(
    intra: nat,
    num: nat,
    denom: nat,
    index: nat,
    limit: nat,
) -> nat
    decreases limit,
{
    if limit == 0 || writes_frame(intra, num, denom, index) {
        0
    } else {
        1 + run_of_skipped(intra, num, denom, iteration_after(index, 1), (limit - 1) as nat)
    }
}

/// A number read from a header: `default` where there is none, and never less than one.
pub open spec fn interval_or(value: Option<nat>, default: nat) -> nat {
    match value {
        Some(value) => if value == 0 {
            1
        } else {
            value
        },
        None => default,
    }
}

/// The intra interval and the inter fraction that the headers give.
///
/// `I interval` is a number, 32 where it is missing or cannot be read. `P interval` is `num/denom`
/// or a denominator alone; each part is 1 where it is missing or cannot be read. None of the three
/// is less than 1.
pub open spec fn intervals_of(unknown: Map<Seq<char>, Seq<char>>) -> (nat, nat, nat) {
    let intra = if unknown.contains_key("I interval"@) {
        interval_or(unsigned_value(trimmed(unknown["I interval"@]), 10, 0xffff_ffff), 32)
    } else {
        32
    };
    if unknown.contains_key("P interval"@) {
        let raw = trimmed(unknown["P interval"@]);
        match split_once_at(raw, '/') {
            Some((num, denom)) => (
                intra,
                interval_or(unsigned_value(trimmed(num), 10, 0xffff_ffff), 1),
                interval_or(unsigned_value(trimmed(denom), 10, 0xffff_ffff), 1),
            ),
            None => (intra, 1, interval_or(unsigned_value(raw, 10, 0xffff_ffff), 1)),
        }
    } else {
        (intra, 1, 1)
    }
}

fn parse_interval(s: &str, default: u32) -> (value: u32)
    requires
        default >= 1,
    ensures
        value == interval_or(unsigned_value(s@, 10, 0xffff_ffff), default as nat),
        value >= 1,
{
    match parse_u32(s) {
        Some(value) => if value == 0 {
            1
        } else {
            value
        },
        None => default,
    }
}

/// Reads the `I interval` and `P interval` headers into the blackbox frame ratio.
///
/// `P interval` is written either as `num/denom` (older firmware) or as a bare denominator. All
/// three numbers are at least 1, so that a division by them is defined.
pub fn parse_frame_intervals(unknown: &HeaderMap) -> (intervals: (u32, u32, u32))
    ensures
        intervals_of(unknown@) == (intervals.0 as nat, intervals.1 as nat, intervals.2 as nat),
        intervals.0 >= 1,
        intervals.1 >= 1,
        intervals.2 >= 1,
{
    let intra: u32 = match unknown.get("I interval") {
        Some(value) => parse_interval(trim(value), 32),
        None => 32,
    };
    match unknown.get("P interval") {
        Some(value) => {
            let raw = trim(value);
            match split_once(raw, '/') {
                Some((num, denom)) => (
                    intra,
                    parse_interval(trim(num), 1),
                    parse_interval(trim(denom), 1),
                ),
                None => (intra, 1, parse_interval(raw, 1)),
            }
        },
        None => (intra, 1, 1),
    }
}

/// How often the firmware writes frames.
#[derive(Debug, Clone, Copy)]
pub struct FrameIntervals {
    intra: u32,
    num: u32,
    denom: u32,
}

impl FrameIntervals {
    #[verifier::type_invariant]
    spec fn at_least_one(self) -> bool {
        self.intra >= 1 && self.num >= 1 && self.denom >= 1
    }

    /// The intra interval, and the numerator and the denominator of the inter fraction.
    pub closed spec fn parts(self) -> (nat, nat, nat) {
        (self.intra as nat, self.num as nat, self.denom as nat)
    }

    /// An intra frame every `intra` iterations, and `num` out of `denom` iterations in between.
    pub fn new(intra: u32, num: u32, denom: u32) -> (intervals: Self)
        requires
            intra >= 1,
            num >= 1,
            denom >= 1,
        ensures
            intervals.parts() == (intra as nat, num as nat, denom as nat),
    {
        FrameIntervals { intra, num, denom }
    }

    /// Whether the firmware would have written a frame for loop iteration `index`.
    ///
    /// With a sample rate below 1/1 the firmware deliberately omits some inter frames; this tells
    /// an intentional gap from a dropped frame.
    pub fn should_have_frame(&self, index: u32) -> (written: bool)
        ensures
            written == writes_frame(
                self.parts().0,
                self.parts().1,
                self.parts().2,
                index as nat,
            ),
    {
        proof {
            use_type_invariant(self);
        }
        let within: u64 = (index % self.intra) as u64;
        let shifted: u64 = within + self.num as u64 - 1;
        shifted % (self.denom as u64) < self.num as u64
    }

    /// Counts the frames the firmware intentionally skipped between `last_iteration` and the next
    /// frame it actually wrote.
    pub fn count_intentionally_skipped_frames(&self, last_iteration: u32) -> (skipped: u32)
        ensures
            skipped == run_of_skipped(
                self.parts().0,
                self.parts().1,
                self.parts().2,
                iteration_after(last_iteration as nat, 1),
                self.parts().2,
            ),
    {
        proof {
            use_type_invariant(self);
        }
        let mut index: u32 = last_iteration.wrapping_add(1);
        let mut skipped: u32 = 0;
        let ghost (intra, num, denom) = self.parts();
        let ghost first = index as nat;
        while skipped < self.denom && !self.should_have_frame(index)
            invariant
                (intra, num, denom) == self.parts(),
                denom == self.denom,
                skipped <= self.denom,
                run_of_skipped(intra, num, denom, first, denom) == skipped + run_of_skipped(
                    intra,
                    num,
                    denom,
                    index as nat,
                    (denom - skipped) as nat,
                ),
            decreases self.denom - skipped,
        {
            skipped += 1;
            index = index.wrapping_add(1);
        }
        skipped
    }
}

/// Every intra frame is written.
pub proof fn intra_frames_are_written(intra: nat, num: nat, denom: nat, index: nat)
    requires
        intra >= 1,
        num >= 1,
        denom >= 1,
        index as int % intra as int == 0,
    ensures
        writes_frame(intra, num, denom, index),
{
    lemma_fundamental_div_mod(num - 1, denom as int);
    assert((num - 1) % denom as int <= num - 1) by (nonlinear_arith)
        requires
            num >= 1,
            denom >= 1,
    ;
}

/// A frame is written for every iteration where the fraction is one or more, so that nothing is
/// skipped.
pub proof fn nothing_is_skipped_at_full_rate(
    intra: nat,
    num: nat,
    denom: nat,
    index: nat,
    limit: nat,
)
    requires
        intra >= 1,
        denom >= 1,
        num >= denom,
    ensures
        writes_frame(intra, num, denom, index),
        run_of_skipped(intra, num, denom, index, limit) == 0,
{
    lemma_mod_bound(index as int % intra as int + num - 1, denom as int);
}

/// With a fraction of one out of `denom`, the frames written are those whose distance from the
/// last intra frame is a multiple of `denom`.
pub proof fn one_in_many_writes_multiples(intra: nat, denom: nat, index: nat)
    requires
        intra >= 1,
        denom >= 1,
    ensures
        writes_frame(intra, 1, denom, index) <==> (index as int % intra as int) % denom as int == 0,
{
    lemma_mod_bound(index as int % intra as int, denom as int);
}

/// A run of skipped iterations is one without a written frame, and within its limit it ends at a
/// written frame.
pub proof fn run_of_skipped_is_first(
    intra: nat,
    num: nat,
    denom: nat,
    index: nat,
    limit: nat,
)
    requires
        index < ITERATIONS,
    ensures
        run_of_skipped(intra, num, denom, index, limit) <= limit,
        forall|n: nat|
            n < run_of_skipped(intra, num, denom, index, limit) ==> !#[trigger] writes_frame(
                intra,
                num,
                denom,
                iteration_after(index, n),
            ),
        run_of_skipped(intra, num, denom, index, limit) < limit ==> writes_frame(
            intra,
            num,
            denom,
            iteration_after(index, run_of_skipped(intra, num, denom, index, limit)),
        ),
    decreases limit,
{
    assert(iteration_after(index, 0) == index);
    if limit > 0 && !writes_frame(intra, num, denom, index) {
        let next = iteration_after(index, 1);
        let rest = (limit - 1) as nat;
        run_of_skipped_is_first(intra, num, denom, next, rest);
        let run = run_of_skipped(intra, num, denom, next, rest);
        assert forall|n: nat| n < run + 1 implies !#[trigger] writes_frame(
            intra,
            num,
            denom,
            iteration_after(index, n),
        ) by {
            if n > 0 {
                let m = (n - 1) as nat;
                assert(iteration_after(next, m) == iteration_after(index, n));
            }
        }
        assert(iteration_after(next, run) == iteration_after(index, run + 1));
    }
}

/// Among any `denom` iterations in a row there is one that a frame is written for.
pub proof fn a_written_frame_is_near(intra: nat, num: nat, denom: nat, index: nat) -> (n: nat)
    requires
        intra >= 1,
        num >= 1,
        denom >= 1,
        index < ITERATIONS,
    ensures
        n < denom,
        writes_frame(intra, num, denom, iteration_after(index, n)),
{
    let within = index as int % intra as int;
    let over = (within + num - 1) % denom as int;
    lemma_mod_bound(index as int, intra as int);
    lemma_mod_bound(within + num - 1, denom as int);
    let ahead = if over == 0 {
        0
    } else {
        denom - over
    };
    if index + ahead >= ITERATIONS && ITERATIONS - index <= intra - within {
        // The count starts again at zero first.
        let n = (ITERATIONS - index) as nat;
        assert(iteration_after(index, n) == 0);
        lemma_small_mod(0, intra);
        intra_frames_are_written(intra, num, denom, 0);
        n
    } else if within + ahead >= intra {
        // An intra frame comes first.
        let n = (intra - within) as nat;
        assert(index + n < ITERATIONS || index + n == ITERATIONS) by {
            if index + ahead < ITERATIONS {
                assert(n <= ahead);
            }
        }
        assert(iteration_after(index, n) as int % intra as int == 0) by {
            if index + n < ITERATIONS {
                assert(iteration_after(index, n) == index + n);
                lemma_fundamental_div_mod(index as int, intra as int);
                assert(index + n == intra * (index as int / intra as int) + intra);
                lemma_mod_multiples_vanish(index as int / intra as int + 1, 0, intra as int);
                assert(intra * (index as int / intra as int) + intra == intra * (index as int
                    / intra as int + 1) + 0) by (nonlinear_arith);
                lemma_small_mod(0, intra);
            } else {
                assert(iteration_after(index, n) == 0);
                lemma_small_mod(0, intra);
            }
        }
        intra_frames_are_written(intra, num, denom, iteration_after(index, n));
        n
    } else {
        let n = ahead as nat;
        assert(index + ahead < ITERATIONS) by {
            if index + ahead >= ITERATIONS {
                assert(ITERATIONS - index <= ahead);
            }
        }
        assert(iteration_after(index, n) == index + n);
        assert((index + n) as int % intra as int == within + ahead) by {
            lemma_fundamental_div_mod(index as int, intra as int);
            lemma_mod_multiples_vanish(
                index as int / intra as int,
                within + ahead,
                intra as int,
            );
            lemma_small_mod((within + ahead) as nat, intra);
        }
        assert((within + ahead + num - 1) % denom as int == 0) by {
            lemma_fundamental_div_mod(within + num - 1, denom as int);
            let q = (within + num - 1) / denom as int;
            if over == 0 {
            } else {
                assert(within + ahead + num - 1 == denom * q + denom);
                assert(denom * q + denom == denom * (q + 1) + 0) by (nonlinear_arith);
                lemma_mod_multiples_vanish(q + 1, 0, denom as int);
                lemma_small_mod(0, denom);
            }
        }
        n
    }
}

/// A run of skipped frames is shorter than the denominator: behind `last`, as many iterations as
/// are counted have no frame, and the one after them has.
pub proof fn skipped_run_ends_at_a_frame(intra: nat, num: nat, denom: nat, last: nat)
    requires
        intra >= 1,
        num >= 1,
        denom >= 1,
        last < ITERATIONS,
    ensures
        ({
            let skipped = run_of_skipped(intra, num, denom, iteration_after(last, 1), denom);
            &&& skipped < denom
            &&& writes_frame(intra, num, denom, iteration_after(last, skipped + 1))
            &&& forall|n: nat|
                1 <= n <= skipped ==> !#[trigger] writes_frame(
                    intra,
                    num,
                    denom,
                    iteration_after(last, n),
                )
        }),
{
    let next = iteration_after(last, 1);
    let skipped = run_of_skipped(intra, num, denom, next, denom);
    run_of_skipped_is_first(intra, num, denom, next, denom);
    let near = a_written_frame_is_near(intra, num, denom, next);
    assert(skipped <= near);
    assert(iteration_after(next, skipped) == iteration_after(last, skipped + 1));
    assert forall|n: nat| 1 <= n <= skipped implies !#[trigger] writes_frame(
        intra,
        num,
        denom,
        iteration_after(last, n),
    ) by {
        let m = (n - 1) as nat;
        assert(iteration_after(next, m) == iteration_after(last, n));
    }
}

/// Where the frames stand: every `denom` iterations from an intra frame on there is a written one, and
/// the `num - 1` iterations before each are written too.
pub proof fn frames_stand_before_multiples(intra: nat, num: nat, denom: nat, index: nat)
    requires
        intra >= 1,
        1 <= num <= denom,
    ensures
        ({
            let place = (index as int % intra as int) % denom as int;
            writes_frame(intra, num, denom, index) <==> place == 0 || place + num > denom
        }),
{
    let within = index as int % intra as int;
    let place = within % denom as int;
    let d = denom as int;
    lemma_mod_bound(within, d);
    lemma_fundamental_div_mod(within, d);
    let q = within / d;
    if place == 0 {
        lemma_mod_multiples_vanish(q, num - 1, d);
        lemma_small_mod((num - 1) as nat, denom);
    } else if place + num > denom {
        let over = place + num - 1 - denom;
        assert(within + num - 1 == d * (q + 1) + over) by (nonlinear_arith)
            requires
                within == d * q + place,
                over == place + num - 1 - denom,
                d == denom,
        ;
        lemma_mod_multiples_vanish(q + 1, over, d);
        lemma_small_mod(over as nat, denom);
    } else {
        lemma_mod_multiples_vanish(q, place + num - 1, d);
        lemma_small_mod((place + num - 1) as nat, denom);
    }
}

} // verus!
