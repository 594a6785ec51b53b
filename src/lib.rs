use vstd::prelude::*;

pub mod algorithm;
pub mod counting;
pub mod error;
pub mod loader;

pub use algorithm::Algorithm;
pub use counting::{count_count, count_fold, count_for, count_for_if};
pub use error::CountError;
pub use loader::{count_in, load_numbers};

verus! {

} // verus!
