//! Verified text transforms and the command-line dispatcher that selects
//! among them, together with a few smaller verified exercises: products
//! and Fibonacci numbers on `usize`, and functions that hand back one of
//! the references they were given.

pub mod dispatch;
pub mod numbers;
pub mod references;
pub mod strings;
pub mod transform;
pub mod unicode;
