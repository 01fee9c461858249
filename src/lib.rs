//! Two small combinators on functions: the identity and two-function composition.
pub mod compose;
pub mod identity;
