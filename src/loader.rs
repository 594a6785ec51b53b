use vstd::prelude::*;

use crate::algorithm::Algorithm;
use crate::counting::count_above;
use crate::error::CountError;

verus! {

#[verifier::external_type_specification]
#[verifier::external_body]
pub struct ExJsonError(serde_json::Error);

/// The numbers that the JSON text `bytes` holds when it is one array of
/// integers that each fit in `usize`; `None` for any other text.
pub uninterp spec fn json_numbers(bytes: Seq<u8>) -> Option<Seq<usize>>;

/// Relies on serde_json::from_slice, deserialising a `Vec<usize>`: it succeeds
/// exactly on a JSON array of non-negative integers that fit in `usize`, with
/// nothing but whitespace after it, and gives those integers in order.
#[verifier::external_body]
fn decode_numbers(bytes: &[u8]) -> (r: Result<Vec<usize>, serde_json::Error>)
    ensures
        match r {
            Ok(v) => json_numbers(bytes@) == Some(v@),
            Err(_) => json_numbers(bytes@) is None,
        },
{
    serde_json::from_slice(bytes)
}

/// Reads the sequence of numbers from the contents of an input file; a
/// `ParseError` when they are not a JSON array of non-negative integers.
pub fn load_numbers(bytes: &[u8]) -> (r: Result<Vec<usize>, CountError>)
    ensures
        match r {
            Ok(v) => json_numbers(bytes@) == Some(v@),
            Err(e) => e == CountError::ParseError && json_numbers(bytes@) is None,
        },
{
    match decode_numbers(bytes) {
        Ok(v) => Ok(v),
        Err(_) => Err(CountError::ParseError),
    }
}

/// Loads the numbers from the contents of an input file and counts those above
/// `geq` with the selected strategy. Nothing is counted when loading fails.
pub fn count_in(bytes: &[u8], algo: Algorithm, geq: usize) -> (r: Result<usize, CountError>)
    ensures
        match json_numbers(bytes@) {
            Some(s) => r == Ok::<usize, CountError>(count_above(s, geq) as usize),
            None => r == Err::<usize, CountError>(CountError::ParseError),
        },
{
    let nums = load_numbers(bytes)?;
    Ok(algo.count_with(nums.as_slice(), geq))
}

} // verus!
