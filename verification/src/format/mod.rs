//! Turning a tree back into text.

pub mod independent;
pub mod inline;
