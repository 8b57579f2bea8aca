//! Extraction of test counts and positivity rates from the prose of public
//! health bulletins.

pub mod extract;
pub mod index;
pub mod number;
pub mod page;
pub mod pattern;
pub mod post;
pub mod text;
