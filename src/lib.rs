//! Dense linear systems `A·x = b`: a seeded generator of the system and an
//! unpivoted Gaussian elimination with back substitution that solves it in
//! place.
pub mod scalar;
pub mod solve;
pub mod random;
pub mod generate;
pub mod clock;
