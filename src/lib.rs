//! Relations of a commit-and-reveal Mastermind game: range checks on pegs,
//! the binding of a hidden code to a public commitment, and the feedback
//! (black and white pegs) that a referee gives for a guess.
pub mod feedback;
pub mod commitment;
pub mod circuit;
