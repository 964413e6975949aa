//! Feedback of a Mastermind referee, counted by colour buckets.
use vstd::prelude::*;

verus! {

/// 1 when `b` holds, 0 otherwise.
pub open spec fn ind(b: bool) -> nat {
    if b { 1 } else { 0 }
}

/// Number of positions `i` with `code[i] == guess[i]` ("black pegs"), for
/// sequences of one length.
pub open spec fn black_count(code: Seq<u64>, guess: Seq<u64>) -> nat
    decreases code.len(),
{
    if code.len() == 0 || guess.len() == 0 {
        0
    } else {
        black_count(code.drop_last(), guess.drop_last()) + ind(code.last() == guess.last())
    }
}

/// Number of pegs of colour `c` in `pegs`.
pub open spec fn color_count(c: nat, pegs: Seq<u64>) -> nat
    decreases pegs.len(),
{
    if pegs.len() == 0 {
        0
    } else {
        color_count(c, pegs.drop_last()) + ind(pegs.last() == c)
    }
}

pub open spec fn min_nat(a: nat, b: nat) -> nat {
    if a < b {
        a
    } else {
        b
    }
}

/// `f(0) + f(1) + ... + f(n - 1)`.
pub open spec fn color_sum(f: spec_fn(nat) -> nat, n: nat) -> nat
    decreases n,
{
    if n == 0 {
        0
    } else {
        color_sum(f, (n - 1) as nat) + f((n - 1) as nat)
    }
}

/// For each colour, the smaller of its counts in code and guess.
pub open spec fn color_min(code: Seq<u64>, guess: Seq<u64>) -> spec_fn(nat) -> nat {
    |c: nat| min_nat(color_count(c, code), color_count(c, guess))
}

/// Size of the multiset overlap of code and guess within the colours `[0, npegs)`.
pub open spec fn overlap(code: Seq<u64>, guess: Seq<u64>, npegs: nat) -> nat {
    color_sum(color_min(code, guess), npegs)
}

/// "White pegs": the colour overlap minus the exact matches.
pub open spec fn white_count(code: Seq<u64>, guess: Seq<u64>, npegs: nat) -> int {
    overlap(code, guess, npegs) - black_count(code, guess)
}

/// Every peg is a colour of the alphabet `[0, npegs)`.
pub open spec fn pegs_legal(pegs: Seq<u64>, npegs: nat) -> bool {
    forall|i: int| 0 <= i < pegs.len() ==> pegs[i] < npegs
}

/// Number of positions where code and guess both hold colour `c`.
pub open spec fn matched(c: nat, code: Seq<u64>, guess: Seq<u64>) -> nat
    decreases code.len(),
{
    if code.len() == 0 || guess.len() == 0 {
        0
    } else {
        matched(c, code.drop_last(), guess.drop_last()) + ind(
            code.last() == c && guess.last() == c,
        )
    }
}

proof fn lemma_color_sum_add(f: spec_fn(nat) -> nat, g: spec_fn(nat) -> nat, h: spec_fn(nat) -> nat, n: nat)
    requires
        forall|c: nat| c < n ==> #[trigger] h(c) == f(c) + g(c),
    ensures
        color_sum(h, n) == color_sum(f, n) + color_sum(g, n),
    decreases n,
{
    if n > 0 {
        lemma_color_sum_add(f, g, h, (n - 1) as nat);
    }
}

proof fn lemma_color_sum_le(f: spec_fn(nat) -> nat, g: spec_fn(nat) -> nat, n: nat)
    requires
        forall|c: nat| c < n ==> #[trigger] f(c) <= g(c),
    ensures
        color_sum(f, n) <= color_sum(g, n),
    decreases n,
{
    if n > 0 {
        lemma_color_sum_le(f, g, (n - 1) as nat);
    }
}

proof fn lemma_color_sum_ind(x: nat, n: nat)
    ensures
        color_sum(|c: nat| ind(c == x), n) == ind(x < n),
    decreases n,
{
    if n > 0 {
        lemma_color_sum_ind(x, (n - 1) as nat);
    }
}

/// The counts of all colours below `n` add up to at most the number of pegs.
proof fn lemma_counts_total(pegs: Seq<u64>, n: nat)
    ensures
        color_sum(|c: nat| color_count(c, pegs), n) <= pegs.len(),
    decreases pegs.len(),
{
    if pegs.len() > 0 {
        let rest = pegs.drop_last();
        let x = pegs.last() as nat;
        lemma_counts_total(rest, n);
        lemma_color_sum_ind(x, n);
        lemma_color_sum_add(
            |c: nat| color_count(c, rest),
            |c: nat| ind(c == x),
            |c: nat| color_count(c, pegs),
            n,
        );
    } else {
        lemma_color_sum_le(|c: nat| color_count(c, pegs), |c: nat| 0, n);
        lemma_color_sum_zero(n);
    }
}

proof fn lemma_matched_le(c: nat, code: Seq<u64>, guess: Seq<u64>)
    ensures
        matched(c, code, guess) <= color_count(c, code),
        code.len() == guess.len() ==> matched(c, code, guess) <= color_count(c, guess),
    decreases code.len(),
{
    if code.len() > 0 && guess.len() > 0 {
        lemma_matched_le(c, code.drop_last(), guess.drop_last());
    } else if code.len() > 0 {
        lemma_matched_le(c, code.drop_last(), guess);
        assert(matched(c, code.drop_last(), guess) == 0);
    }
}

/// Within a legal code, the exact matches split by colour.
proof fn lemma_black_by_color(code: Seq<u64>, guess: Seq<u64>, n: nat)
    requires
        pegs_legal(code, n),
    ensures
        color_sum(|c: nat| matched(c, code, guess), n) == black_count(code, guess),
    decreases code.len(),
{
    if code.len() > 0 && guess.len() > 0 {
        let (rc, rg) = (code.drop_last(), guess.drop_last());
        let x = code.last() as nat;
        let y = guess.last();
        assert(pegs_legal(rc, n)) by {
            assert forall|i: int| 0 <= i < rc.len() implies rc[i] < n by {
                assert(rc[i] == code[i]);
            }
        }
        lemma_black_by_color(rc, rg, n);
        lemma_color_sum_ind(x, n);
        if x == y {
            lemma_color_sum_add(
                |c: nat| matched(c, rc, rg),
                |c: nat| ind(c == x),
                |c: nat| matched(c, code, guess),
                n,
            );
        } else {
            lemma_color_sum_le(|c: nat| matched(c, code, guess), |c: nat| matched(c, rc, rg), n);
            lemma_color_sum_le(|c: nat| matched(c, rc, rg), |c: nat| matched(c, code, guess), n);
        }
    } else {
        lemma_color_sum_le(|c: nat| matched(c, code, guess), |c: nat| 0, n);
        lemma_color_sum_zero(n);
    }
}

proof fn lemma_color_sum_zero(n: nat)
    ensures
        color_sum(|c: nat| 0, n) == 0,
    decreases n,
{
    if n > 0 {
        lemma_color_sum_zero((n - 1) as nat);
    }
}

proof fn lemma_black_count_le(code: Seq<u64>, guess: Seq<u64>)
    ensures
        black_count(code, guess) <= code.len(),
    decreases code.len(),
{
    if code.len() > 0 && guess.len() > 0 {
        lemma_black_count_le(code.drop_last(), guess.drop_last());
    }
}

/// The colour overlap lies between the exact matches and the code's length.
pub proof fn lemma_overlap_bounds(code: Seq<u64>, guess: Seq<u64>, npegs: nat)
    requires
        code.len() == guess.len(),
        pegs_legal(code, npegs),
    ensures
        black_count(code, guess) <= overlap(code, guess, npegs) <= code.len(),
{
    assert forall|c: nat| c < npegs implies matched(c, code, guess) <= #[trigger] color_min(
        code,
        guess,
    )(c) by {
        lemma_matched_le(c, code, guess);
    }
    lemma_color_sum_le(|c: nat| matched(c, code, guess), color_min(code, guess), npegs);
    lemma_black_by_color(code, guess, npegs);
    lemma_color_sum_le(color_min(code, guess), |c: nat| color_count(c, code), npegs);
    lemma_counts_total(code, npegs);
}

/// For legal code and guess of one length, the black pegs lie in
/// `[0, len]`, the white pegs are not negative, and together they are at most
/// `len`.
pub proof fn lemma_feedback_bounds(code: Seq<u64>, guess: Seq<u64>, npegs: nat)
    requires
        code.len() == guess.len(),
        pegs_legal(code, npegs),
        pegs_legal(guess, npegs),
    ensures
        0 <= black_count(code, guess) <= code.len(),
        0 <= white_count(code, guess, npegs),
        black_count(code, guess) + white_count(code, guess, npegs) <= code.len(),
{
    lemma_overlap_bounds(code, guess, npegs);
}

/// `pegs` without its last peg of colour `x` (unchanged if it has none).
pub open spec fn remove_one(pegs: Seq<u64>, x: u64) -> Seq<u64>
    decreases pegs.len(),
{
    if pegs.len() == 0 {
        pegs
    } else if pegs.last() == x {
        pegs.drop_last()
    } else {
        remove_one(pegs.drop_last(), x).push(pegs.last())
    }
}

/// The referee's pairing: each guess peg, from the last to the first, takes a
/// code peg of its colour while one is left; the number of pairs formed.
pub open spec fn paired(code: Seq<u64>, guess: Seq<u64>) -> nat
    decreases guess.len(),
{
    if guess.len() == 0 {
        0
    } else if color_count(guess.last() as nat, code) > 0 {
        1 + paired(remove_one(code, guess.last()), guess.drop_last())
    } else {
        paired(code, guess.drop_last())
    }
}

/// White pegs as the referee gives them: pairs of one colour, less the exact
/// matches.
pub open spec fn referee_white(code: Seq<u64>, guess: Seq<u64>) -> int {
    paired(code, guess) - black_count(code, guess)
}

proof fn lemma_remove_one_count(pegs: Seq<u64>, x: u64, c: nat)
    requires
        color_count(x as nat, pegs) > 0,
    ensures
        color_count(c, remove_one(pegs, x)) + ind(c == x) == color_count(c, pegs),
    decreases pegs.len(),
{
    if pegs.last() != x {
        let rest = pegs.drop_last();
        lemma_remove_one_count(rest, x, c);
        assert(remove_one(pegs, x).drop_last() =~= remove_one(rest, x));
    }
}

/// Over a legal guess, the colour-bucket overlap is the referee's number of
/// pairs.
proof fn lemma_overlap_is_paired(code: Seq<u64>, guess: Seq<u64>, npegs: nat)
    requires
        pegs_legal(guess, npegs),
    ensures
        overlap(code, guess, npegs) == paired(code, guess),
    decreases guess.len(),
{
    if guess.len() == 0 {
        lemma_color_sum_le(color_min(code, guess), |c: nat| 0, npegs);
        lemma_color_sum_zero(npegs);
    } else {
        let g = guess.last();
        let rest = guess.drop_last();
        assert(pegs_legal(rest, npegs)) by {
            assert forall|i: int| 0 <= i < rest.len() implies rest[i] < npegs by {
                assert(rest[i] == guess[i]);
            }
        }
        if color_count(g as nat, code) > 0 {
            let code2 = remove_one(code, g);
            lemma_overlap_is_paired(code2, rest, npegs);
            assert forall|c: nat| c < npegs implies #[trigger] color_min(code, guess)(c)
                == color_min(code2, rest)(c) + (|c: nat| ind(c == g as nat))(c) by {
                lemma_remove_one_count(code, g, c);
            }
            lemma_color_sum_add(
                color_min(code2, rest),
                |c: nat| ind(c == g as nat),
                color_min(code, guess),
                npegs,
            );
            lemma_color_sum_ind(g as nat, npegs);
        } else {
            lemma_overlap_is_paired(code, rest, npegs);
            lemma_color_sum_le(color_min(code, guess), color_min(code, rest), npegs);
            lemma_color_sum_le(color_min(code, rest), color_min(code, guess), npegs);
        }
    }
}

/// Over a legal guess, the white pegs counted by colour buckets are those of
/// the referee's pairing, repeated colours included.
pub proof fn lemma_white_is_referee_white(code: Seq<u64>, guess: Seq<u64>, npegs: nat)
    requires
        pegs_legal(guess, npegs),
    ensures
        white_count(code, guess, npegs) == referee_white(code, guess),
{
    lemma_overlap_is_paired(code, guess, npegs);
}

/// Counts the positions where the guess matches the code exactly.
pub fn count_correct_guesses(code: &Vec<u64>, guess: &Vec<u64>) -> (r: u64)
    requires
        code.len() == guess.len(),
    ensures
        r == black_count(code@, guess@),
{
    let mut sum: u64 = 0;
    let mut i: usize = 0;
    while i < code.len()
        invariant
            i <= code.len() == guess.len(),
            sum == black_count(code@.subrange(0, i as int), guess@.subrange(0, i as int)),
        decreases code.len() - i,
    {
        proof {
            lemma_black_count_le(code@.subrange(0, i as int), guess@.subrange(0, i as int));
            assert(code@.subrange(0, i + 1).drop_last() =~= code@.subrange(0, i as int));
            assert(guess@.subrange(0, i + 1).drop_last() =~= guess@.subrange(0, i as int));
        }
        let is_correct: u64 = if code[i] == guess[i] {
            1
        } else {
            0
        };
        sum = sum + is_correct;
        i = i + 1;
    }
    assert(code@.subrange(0, code.len() as int) =~= code@);
    assert(guess@.subrange(0, guess.len() as int) =~= guess@);
    sum
}

/// Counts the pegs of colour `peg` in `pegs`.
pub fn count_color(peg: u64, pegs: &Vec<u64>) -> (r: u64)
    ensures
        r == color_count(peg as nat, pegs@),
{
    let mut count: u64 = 0;
    let mut i: usize = 0;
    while i < pegs.len()
        invariant
            i <= pegs.len(),
            count == color_count(peg as nat, pegs@.subrange(0, i as int)),
            count <= i,
        decreases pegs.len() - i,
    {
        assert(pegs@.subrange(0, i + 1).drop_last() =~= pegs@.subrange(0, i as int));
        let is_same_color: u64 = if pegs[i] == peg {
            1
        } else {
            0
        };
        count = count + is_same_color;
        i = i + 1;
    }
    assert(pegs@.subrange(0, pegs.len() as int) =~= pegs@);
    count
}

/// The smaller of `a` and `b`.
pub fn min(a: u64, b: u64) -> (r: u64)
    ensures
        r == min_nat(a as nat, b as nat),
{
    if a < b {
        a
    } else {
        b
    }
}

/// The white pegs for a declared number of black pegs: the colour overlap over
/// `[0, NPEGS)` minus `fully_correct`, or `None` where that difference would be
/// negative.
pub fn count_partial_guesses<const NPEGS: usize>(
    code: &Vec<u64>,
    guess: &Vec<u64>,
    fully_correct: u64,
) -> (r: Option<u64>)
    requires
        code.len() == guess.len(),
        pegs_legal(code@, NPEGS as nat),
    ensures
        r == (if fully_correct <= overlap(code@, guess@, NPEGS as nat) {
            Some((overlap(code@, guess@, NPEGS as nat) - fully_correct) as u64)
        } else {
            None::<u64>
        }),
{
    let mut partial_sum: u64 = 0;
    let mut p: usize = 0;
    while p < NPEGS
        invariant
            p <= NPEGS,
            code.len() == guess.len(),
            pegs_legal(code@, NPEGS as nat),
            partial_sum == color_sum(color_min(code@, guess@), p as nat),
        decreases NPEGS - p,
    {
        proof {
            lemma_overlap_prefix_bound(code@, guess@, (p + 1) as nat, NPEGS as nat);
        }
        let guess_count = count_color(p as u64, guess);
        let code_count = count_color(p as u64, code);
        let color_min = min(guess_count, code_count);
        partial_sum = partial_sum + color_min;
        p = p + 1;
    }
    if fully_correct <= partial_sum {
        Some(partial_sum - fully_correct)
    } else {
        None
    }
}

proof fn lemma_overlap_prefix_bound(code: Seq<u64>, guess: Seq<u64>, p: nat, npegs: nat)
    requires
        p <= npegs,
        code.len() == guess.len(),
        pegs_legal(code, npegs),
    ensures
        color_sum(color_min(code, guess), p) <= code.len(),
{
    lemma_color_sum_le(color_min(code, guess), |c: nat| color_count(c, code), p);
    lemma_counts_total(code, p);
}

/// Whether every peg is a colour of the alphabet `[0, NPEGS)`.
pub fn pegs_are_legal<const NPEGS: usize>(pegs: &Vec<u64>) -> (r: bool)
    ensures
        r == pegs_legal(pegs@, NPEGS as nat),
{
    let npegs = NPEGS as u64;
    let mut i: usize = 0;
    while i < pegs.len()
        invariant
            i <= pegs.len(),
            npegs == NPEGS,
            forall|j: int| 0 <= j < i ==> pegs@[j] < NPEGS,
        decreases pegs.len() - i,
    {
        if pegs[i] >= npegs {
            return false;
        }
        i = i + 1;
    }
    true
}

} // verus!
