//! The Mastermind relation set: which values are private and which public,
//! and when an assignment of them satisfies every relation.
use crate::commitment::{compute_poseidon_hash, poseidon_hash};
use crate::feedback::{
    black_count, count_correct_guesses, count_partial_guesses, lemma_overlap_bounds, overlap,
    pegs_are_legal, pegs_legal, white_count,
};
use ark_relations::r1cs::SynthesisError;
use vstd::prelude::*;

verus! {

#[verifier::external_type_specification]
pub struct ExSynthesisError(SynthesisError);

/// A Mastermind round with `NPEGS` colours and codes of `SZ` pegs. Each value
/// may be absent, as when only the shape of the relation set is wanted.
#[derive(Clone, Debug)]
pub struct MastermindCircuit<const NPEGS: usize, const SZ: usize> {
    /// The codemaker's code: private.
    pub code: [Option<u64>; SZ],
    /// The codemaker's nonce, which guards the code against a dictionary of
    /// commitments: private.
    pub nonce: Option<u64>,
    /// The commitment to nonce and code, which identifies the game: public.
    pub hash: Option<u64>,
    /// The declared number of white pegs: public.
    pub num_partial_correct: Option<u64>,
    /// The declared number of black pegs: public.
    pub num_fully_correct: Option<u64>,
    /// The codebreaker's guess: public.
    pub guess: [Option<u64>; SZ],
}

/// Concrete values for every variable of a round.
#[derive(Clone, Debug)]
pub struct Assignment {
    pub code: Vec<u64>,
    pub nonce: u64,
    pub hash: u64,
    pub num_partial_correct: u64,
    pub num_fully_correct: u64,
    pub guess: Vec<u64>,
}

/// Every entry is present.
pub open spec fn all_present(s: Seq<Option<u64>>) -> bool {
    forall|i: int| 0 <= i < s.len() ==> s[i] is Some
}

/// The value of a present entry.
pub open spec fn value_of(o: Option<u64>) -> u64 {
    match o {
        Some(v) => v,
        None => 0,
    }
}

/// The values of the entries of `s`.
pub open spec fn values_of(s: Seq<Option<u64>>) -> Seq<u64> {
    s.map_values(|o: Option<u64>| value_of(o))
}

/// The commitment to `nonce` and `code`: the Poseidon digest of the nonce
/// followed by the pegs.
pub open spec fn commitment(nonce: u64, code: Seq<u64>) -> int {
    poseidon_hash(seq![nonce] + code)
}

/// The declared feedback is what a referee gives: `fully` black pegs and
/// `partial` white pegs, counted over the colours `[0, npegs)`.
pub open spec fn response_valid(
    code: Seq<u64>,
    guess: Seq<u64>,
    npegs: nat,
    partial: u64,
    fully: u64,
) -> bool {
    fully == black_count(code, guess) && fully <= overlap(code, guess, npegs) && partial
        == overlap(code, guess, npegs) - fully
}

/// Every relation holds of a round with these values, where `computed_hash`
/// is the commitment recomputed from `nonce` and `code`.
pub open spec fn relations_hold_spec(
    code: Seq<u64>,
    nonce: u64,
    hash: u64,
    partial: u64,
    fully: u64,
    guess: Seq<u64>,
    npegs: nat,
    computed_hash: int,
) -> bool {
    &&& code.len() == guess.len()
    &&& pegs_legal(code, npegs)
    &&& hash == computed_hash
    &&& pegs_legal(guess, npegs)
    &&& response_valid(code, guess, npegs, partial, fully)
}

impl<const NPEGS: usize, const SZ: usize> MastermindCircuit<NPEGS, SZ> {
    /// Every value of the round is present.
    pub open spec fn is_complete(&self) -> bool {
        &&& all_present(self.code@)
        &&& self.nonce is Some
        &&& self.hash is Some
        &&& self.num_partial_correct is Some
        &&& self.num_fully_correct is Some
        &&& all_present(self.guess@)
    }

    /// `a` holds the values of this round.
    pub open spec fn assigns(&self, a: Assignment) -> bool {
        &&& a.code@ == values_of(self.code@)
        &&& a.nonce == value_of(self.nonce)
        &&& a.hash == value_of(self.hash)
        &&& a.num_partial_correct == value_of(self.num_partial_correct)
        &&& a.num_fully_correct == value_of(self.num_fully_correct)
        &&& a.guess@ == values_of(self.guess@)
    }

    /// Every value is present and every relation holds of them.
    pub open spec fn satisfied(&self) -> bool {
        &&& self.is_complete()
        &&& relations_hold_spec(
            values_of(self.code@),
            value_of(self.nonce),
            value_of(self.hash),
            value_of(self.num_partial_correct),
            value_of(self.num_fully_correct),
            values_of(self.guess@),
            NPEGS as nat,
            commitment(value_of(self.nonce), values_of(self.code@)),
        )
    }

    /// Materialises the values of the round, or fails with
    /// `AssignmentMissing` where one is absent.
    pub fn assignment(&self) -> (r: Result<Assignment, SynthesisError>)
        ensures
            match r {
                Ok(a) => self.is_complete() && self.assigns(a),
                Err(e) => !self.is_complete() && e == SynthesisError::AssignmentMissing,
            },
    {
        let code = match present_values(&self.code) {
            Some(v) => v,
            None => return Err(SynthesisError::AssignmentMissing),
        };
        let guess = match present_values(&self.guess) {
            Some(v) => v,
            None => return Err(SynthesisError::AssignmentMissing),
        };
        match (self.nonce, self.hash, self.num_partial_correct, self.num_fully_correct) {
            (Some(nonce), Some(hash), Some(num_partial_correct), Some(num_fully_correct)) => {
                Ok(Assignment { code, nonce, hash, num_partial_correct, num_fully_correct, guess })
            },
            _ => Err(SynthesisError::AssignmentMissing),
        }
    }

    /// Whether the round's values satisfy every relation: legal pegs, the
    /// commitment to nonce and code, and the referee's feedback. Fails with
    /// `AssignmentMissing` where a value is absent.
    pub fn is_satisfied(&self) -> (r: Result<bool, SynthesisError>)
        ensures
            match r {
                Ok(b) => self.is_complete() && b == self.satisfied(),
                Err(e) => !self.is_complete() && e == SynthesisError::AssignmentMissing,
            },
    {
        let a = match self.assignment() {
            Ok(a) => a,
            Err(e) => return Err(e),
        };
        let computed_hash = commit(a.nonce, &a.code);
        Ok(relations_hold::<NPEGS>(&a, computed_hash))
    }

    /// The public inputs in the order a verifier takes them: the commitment,
    /// the black pegs, the white pegs, then the guess.
    pub fn public_inputs(&self) -> (r: Result<Vec<u64>, SynthesisError>)
        ensures
            match r {
                Ok(v) => {
                    &&& self.hash is Some
                    &&& self.num_fully_correct is Some
                    &&& self.num_partial_correct is Some
                    &&& all_present(self.guess@)
                    &&& v@ == seq![
                        value_of(self.hash),
                        value_of(self.num_fully_correct),
                        value_of(self.num_partial_correct),
                    ] + values_of(self.guess@)
                },
                Err(e) => e == SynthesisError::AssignmentMissing && !(self.hash is Some
                    && self.num_fully_correct is Some && self.num_partial_correct is Some
                    && all_present(self.guess@)),
            },
    {
        let guess = match present_values(&self.guess) {
            Some(v) => v,
            None => return Err(SynthesisError::AssignmentMissing),
        };
        match (self.hash, self.num_fully_correct, self.num_partial_correct) {
            (Some(hash), Some(fully), Some(partial)) => {
                let mut v: Vec<u64> = Vec::new();
                v.push(hash);
                v.push(fully);
                v.push(partial);
                let mut i: usize = 0;
                while i < guess.len()
                    invariant
                        i <= guess.len(),
                        v@ == seq![hash, fully, partial] + guess@.subrange(0, i as int),
                    decreases guess.len() - i,
                {
                    v.push(guess[i]);
                    i = i + 1;
                    assert(v@ =~= seq![hash, fully, partial] + guess@.subrange(0, i as int));
                }
                assert(guess@.subrange(0, guess.len() as int) =~= guess@);
                Ok(v)
            },
            _ => Err(SynthesisError::AssignmentMissing),
        }
    }
}

/// The values of `arr`, or `None` where one is absent.
fn present_values<const SZ: usize>(arr: &[Option<u64>; SZ]) -> (r: Option<Vec<u64>>)
    ensures
        match r {
            Some(v) => all_present(arr@) && v@ == values_of(arr@),
            None => !all_present(arr@),
        },
{
    let mut out: Vec<u64> = Vec::new();
    let mut i: usize = 0;
    while i < SZ
        invariant
            i <= SZ == arr@.len(),
            out@ == values_of(arr@).subrange(0, i as int),
            forall|j: int| 0 <= j < i ==> arr@[j] is Some,
        decreases SZ - i,
    {
        match arr[i] {
            Some(v) => out.push(v),
            None => return None,
        }
        i = i + 1;
    }
    assert(out@ =~= values_of(arr@));
    Some(out)
}

/// Whether the declared feedback is what a referee gives for `code` and
/// `guess` over the colours `[0, NPEGS)`.
pub fn response_is_valid<const NPEGS: usize>(
    code: &Vec<u64>,
    guess: &Vec<u64>,
    num_partial_correct: u64,
    num_fully_correct: u64,
) -> (r: bool)
    requires
        code.len() == guess.len(),
        pegs_legal(code@, NPEGS as nat),
    ensures
        r == response_valid(code@, guess@, NPEGS as nat, num_partial_correct, num_fully_correct),
{
    proof {
        lemma_overlap_bounds(code@, guess@, NPEGS as nat);
    }
    let sum_fully_correct = count_correct_guesses(code, guess);
    if sum_fully_correct != num_fully_correct {
        return false;
    }
    match count_partial_guesses::<NPEGS>(code, guess, num_fully_correct) {
        Some(computed_partial_correct) => computed_partial_correct == num_partial_correct,
        None => false,
    }
}

/// The commitment to `nonce` and `code`.
pub fn commit(nonce: u64, code: &Vec<u64>) -> (r: u64)
    ensures
        r == commitment(nonce, code@),
{
    let mut inputs: Vec<u64> = Vec::new();
    inputs.push(nonce);
    let mut i: usize = 0;
    while i < code.len()
        invariant
            i <= code.len(),
            inputs@ == seq![nonce] + code@.subrange(0, i as int),
        decreases code.len() - i,
    {
        inputs.push(code[i]);
        i = i + 1;
        assert(inputs@ =~= seq![nonce] + code@.subrange(0, i as int));
    }
    assert(code@.subrange(0, code.len() as int) =~= code@);
    compute_poseidon_hash(inputs.as_slice())
}

/// The commitment depends on the nonce and the code alone: the same pair
/// always gives the same commitment.
pub proof fn lemma_commitment_deterministic(
    nonce1: u64,
    code1: Seq<u64>,
    nonce2: u64,
    code2: Seq<u64>,
)
    requires
        nonce1 == nonce2,
        code1 == code2,
    ensures
        commitment(nonce1, code1) == commitment(nonce2, code2),
{
}

/// Whether the code is legal and `hash` is its commitment with `nonce`.
pub fn code_is_valid<const NPEGS: usize>(code: &Vec<u64>, nonce: u64, hash: u64) -> (r: bool)
    ensures
        r == (pegs_legal(code@, NPEGS as nat) && hash == commitment(nonce, code@)),
{
    if !pegs_are_legal::<NPEGS>(code) {
        return false;
    }
    let computed_hash = commit(nonce, code);
    computed_hash == hash
}

/// Whether every relation holds of `a` over the colours `[0, NPEGS)`, given
/// `computed_hash`, the commitment recomputed from its nonce and code.
pub fn relations_hold<const NPEGS: usize>(a: &Assignment, computed_hash: u64) -> (r: bool)
    ensures
        r == relations_hold_spec(
            a.code@,
            a.nonce,
            a.hash,
            a.num_partial_correct,
            a.num_fully_correct,
            a.guess@,
            NPEGS as nat,
            computed_hash as int,
        ),
{
    if a.code.len() != a.guess.len() {
        return false;
    }
    if !pegs_are_legal::<NPEGS>(&a.code) || a.hash != computed_hash {
        return false;
    }
    if !pegs_are_legal::<NPEGS>(&a.guess) {
        return false;
    }
    response_is_valid::<NPEGS>(&a.code, &a.guess, a.num_partial_correct, a.num_fully_correct)
}

/// For a legal code and guess, a round is satisfied exactly when the declared
/// commitment, black pegs and white pegs are the true ones: the honest round is
/// satisfied, and changing any one declared public value breaks it.
pub proof fn lemma_satisfied_iff_honest(
    code: Seq<u64>,
    nonce: u64,
    hash: u64,
    partial: u64,
    fully: u64,
    guess: Seq<u64>,
    npegs: nat,
)
    requires
        code.len() == guess.len(),
        pegs_legal(code, npegs),
        pegs_legal(guess, npegs),
    ensures
        relations_hold_spec(code, nonce, hash, partial, fully, guess, npegs, commitment(nonce, code))
            <==> (hash == commitment(nonce, code) && fully == black_count(code, guess) && partial
            == white_count(code, guess, npegs)),
{
    lemma_overlap_bounds(code, guess, npegs);
}

/// A round whose code or guess holds a peg outside `[0, npegs)` is satisfied
/// by no declared values.
pub proof fn lemma_illegal_pegs_unsatisfied(
    code: Seq<u64>,
    nonce: u64,
    hash: u64,
    partial: u64,
    fully: u64,
    guess: Seq<u64>,
    npegs: nat,
    computed_hash: int,
)
    requires
        !pegs_legal(code, npegs) || !pegs_legal(guess, npegs),
    ensures
        !relations_hold_spec(code, nonce, hash, partial, fully, guess, npegs, computed_hash),
{
}

} // verus!
