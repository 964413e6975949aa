use ark_relations::r1cs::SynthesisError;
use mastermind_zk::circuit::{commit, relations_hold, Assignment, MastermindCircuit};
use mastermind_zk::commitment::compute_poseidon_hash;
use mastermind_zk::feedback::{
    count_color, count_correct_guesses, count_partial_guesses, min, pegs_are_legal,
};

fn round(
    code: [u64; 4],
    nonce: u64,
    guess: [u64; 4],
    fully: u64,
    partial: u64,
) -> MastermindCircuit<6, 4> {
    let hash = commit(nonce, &code.to_vec());
    MastermindCircuit {
        code: code.map(Some),
        nonce: Some(nonce),
        hash: Some(hash),
        num_partial_correct: Some(partial),
        num_fully_correct: Some(fully),
        guess: guess.map(Some),
    }
}

/// Black and white pegs by the textbook referee: mark exact matches, then pair
/// each remaining guess peg with an unmarked code peg of its colour.
fn referee(code: &[u64], guess: &[u64]) -> (u64, u64) {
    let mut code_used = vec![false; code.len()];
    let mut guess_used = vec![false; guess.len()];
    let mut black = 0;
    for i in 0..code.len() {
        if code[i] == guess[i] {
            black += 1;
            code_used[i] = true;
            guess_used[i] = true;
        }
    }
    let mut white = 0;
    for j in 0..guess.len() {
        if guess_used[j] {
            continue;
        }
        for i in 0..code.len() {
            if !code_used[i] && code[i] == guess[j] {
                code_used[i] = true;
                white += 1;
                break;
            }
        }
    }
    (black, white)
}

fn feedback(code: &[u64], guess: &[u64]) -> (u64, u64) {
    let (c, g) = (code.to_vec(), guess.to_vec());
    let black = count_correct_guesses(&c, &g);
    let white = count_partial_guesses::<6>(&c, &g, black).unwrap();
    (black, white)
}

fn all_codes() -> Vec<[u64; 4]> {
    let mut out = Vec::new();
    for n in 0..6u64.pow(4) {
        out.push([n % 6, n / 6 % 6, n / 36 % 6, n / 216 % 6]);
    }
    out
}

#[test]
fn honest_round_is_satisfied() {
    let c = round([1, 2, 3, 4], 42, [1, 2, 4, 3], 2, 2);
    assert_eq!(c.hash, Some(compute_poseidon_hash(&[42, 1, 2, 3, 4])));
    assert_eq!(c.is_satisfied(), Ok(true));
}

#[test]
fn wrong_black_count_is_unsatisfied() {
    let c = round([1, 2, 3, 4], 42, [1, 2, 4, 3], 3, 2);
    assert_eq!(c.is_satisfied(), Ok(false));
}

#[test]
fn flipped_public_values_are_unsatisfied() {
    let honest = round([1, 2, 3, 4], 42, [1, 2, 4, 3], 2, 2);
    let mut c = honest.clone();
    c.hash = Some(honest.hash.unwrap() ^ 1);
    assert_eq!(c.is_satisfied(), Ok(false));
    let mut c = honest.clone();
    c.num_partial_correct = Some(1);
    assert_eq!(c.is_satisfied(), Ok(false));
    let mut c = honest.clone();
    c.num_fully_correct = Some(1);
    assert_eq!(c.is_satisfied(), Ok(false));
}

#[test]
fn no_colour_overlap() {
    assert_eq!(feedback(&[0, 0, 0, 0], &[1, 2, 4, 3]), (0, 0));
    let c = round([0, 0, 0, 0], 42, [1, 2, 4, 3], 0, 0);
    assert_eq!(c.is_satisfied(), Ok(true));
}

#[test]
fn repeated_colours_swapped() {
    assert_eq!(feedback(&[1, 1, 2, 2], &[2, 2, 1, 1]), (0, 4));
    let c = round([1, 1, 2, 2], 7, [2, 2, 1, 1], 0, 4);
    assert_eq!(c.is_satisfied(), Ok(true));
}

#[test]
fn matches_textbook_referee_on_every_code() {
    let guesses = [[1, 2, 4, 3], [1, 1, 2, 2], [0, 0, 0, 0], [5, 5, 5, 1], [3, 0, 3, 0]];
    for code in all_codes() {
        for guess in guesses.iter() {
            assert_eq!(feedback(&code, guess), referee(&code, guess), "{:?} {:?}", code, guess);
        }
    }
}

#[test]
fn feedback_stays_within_code_length() {
    let guess = [2, 2, 1, 5];
    for code in all_codes() {
        let (black, white) = feedback(&code, &guess);
        assert!(black <= 4);
        assert!(black + white <= 4);
    }
}

#[test]
fn out_of_range_pegs_are_unsatisfied() {
    let c = round([1, 2, 6, 4], 42, [1, 2, 4, 3], 1, 2);
    assert_eq!(c.is_satisfied(), Ok(false));
    let c = round([1, 2, 3, 4], 42, [1, 2, 4, u64::MAX], 2, 1);
    assert_eq!(c.is_satisfied(), Ok(false));
    assert!(!pegs_are_legal::<6>(&vec![0, 6]));
    assert!(pegs_are_legal::<6>(&vec![0, 5]));
    assert!(pegs_are_legal::<6>(&vec![]));
}

#[test]
fn commitment_is_deterministic_and_separates_inputs() {
    let a = compute_poseidon_hash(&[42, 1, 2, 3, 4]);
    assert_eq!(a, compute_poseidon_hash(&[42, 1, 2, 3, 4]));
    assert_ne!(a, compute_poseidon_hash(&[43, 1, 2, 3, 4]));
    assert_ne!(a, compute_poseidon_hash(&[42, 1, 2, 4, 3]));
    assert_eq!(commit(42, &vec![1, 2, 3, 4]), a);
    assert_ne!(a, 42);
    assert_ne!(a, 0);
}

#[test]
fn missing_value_fails_with_assignment_missing() {
    let mut c = round([1, 2, 3, 4], 42, [1, 2, 4, 3], 2, 2);
    c.code[2] = None;
    assert_eq!(c.is_satisfied(), Err(SynthesisError::AssignmentMissing));
    assert!(c.public_inputs().is_ok());
    let mut c = round([1, 2, 3, 4], 42, [1, 2, 4, 3], 2, 2);
    c.num_partial_correct = None;
    assert_eq!(c.is_satisfied(), Err(SynthesisError::AssignmentMissing));
    assert_eq!(c.public_inputs(), Err(SynthesisError::AssignmentMissing));
    assert!(c.assignment().is_err());
}

#[test]
fn public_inputs_order() {
    let c = round([1, 2, 3, 4], 42, [1, 2, 4, 3], 2, 1);
    let h = c.hash.unwrap();
    assert_eq!(c.public_inputs(), Ok(vec![h, 2, 1, 1, 2, 4, 3]));
}

#[test]
fn assignment_holds_the_values() {
    let c = round([1, 2, 3, 4], 42, [1, 2, 4, 3], 2, 1);
    let a = c.assignment().unwrap();
    assert_eq!(a.code, vec![1, 2, 3, 4]);
    assert_eq!(a.guess, vec![1, 2, 4, 3]);
    assert_eq!((a.nonce, a.num_fully_correct, a.num_partial_correct), (42, 2, 1));
}

#[test]
fn relations_with_given_commitment() {
    let a = Assignment {
        code: vec![1, 2, 3, 4],
        nonce: 42,
        hash: 99,
        num_partial_correct: 2,
        num_fully_correct: 2,
        guess: vec![1, 2, 4, 3],
    };
    assert!(relations_hold::<6>(&a, 99));
    assert!(!relations_hold::<6>(&a, 98));
    assert!(!relations_hold::<4>(&a, 99));
}

#[test]
fn counting_helpers() {
    assert_eq!(count_color(2, &vec![2, 1, 2, 2]), 3);
    assert_eq!(count_color(5, &vec![]), 0);
    assert_eq!(min(3, 7), 3);
    assert_eq!(min(7, 3), 3);
    assert_eq!(count_correct_guesses(&vec![1, 2, 3, 4], &vec![1, 2, 4, 3]), 2);
    assert_eq!(count_partial_guesses::<6>(&vec![1, 2, 3, 4], &vec![1, 2, 4, 3], 2), Some(2));
    assert_eq!(count_partial_guesses::<6>(&vec![1, 2, 3, 4], &vec![1, 2, 4, 3], 5), None);
    assert_eq!(count_partial_guesses::<3>(&vec![1, 2, 1, 0], &vec![1, 1, 1, 2], 1), Some(2));
}
