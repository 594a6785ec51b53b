use count_nums::{count_count, count_fold, count_for, count_for_if, count_in, load_numbers};
use count_nums::{Algorithm, CountError};

const ALL: [Algorithm; 4] = [
    Algorithm::Count,
    Algorithm::Fold,
    Algorithm::ForIf,
    Algorithm::ForNoIf,
];

fn all_four(nums: &[usize], geq: usize) -> [usize; 4] {
    [
        count_count(nums, geq),
        count_fold(nums, geq),
        count_for_if(nums, geq),
        count_for(nums, geq),
    ]
}

#[test]
fn variants_agree_on_mixed_input() {
    let nums = [1, 600, 3, 999, 500, 501, 0, usize::MAX];
    for geq in [0, 1, 3, 499, 500, 501, 999, usize::MAX] {
        let r = all_four(&nums, geq);
        assert_eq!(r[0], r[1]);
        assert_eq!(r[0], r[2]);
        assert_eq!(r[0], r[3]);
    }
    assert_eq!(all_four(&nums, 500), [4, 4, 4, 4]);
}

#[test]
fn empty_sequence_counts_nothing() {
    for geq in [0, 1, 500, usize::MAX] {
        assert_eq!(all_four(&[], geq), [0, 0, 0, 0]);
    }
}

#[test]
fn threshold_at_or_above_every_element_counts_nothing() {
    let nums = [5, 10, 10, 2];
    assert_eq!(all_four(&nums, 10), [0, 0, 0, 0]);
    assert_eq!(all_four(&nums, 11), [0, 0, 0, 0]);
    assert_eq!(all_four(&[usize::MAX], usize::MAX), [0, 0, 0, 0]);
}

#[test]
fn threshold_below_every_element_counts_all() {
    let nums = [5, 10, 10, 2];
    assert_eq!(all_four(&nums, 1), [4, 4, 4, 4]);
    assert_eq!(all_four(&[1, 1, 1], 0), [3, 3, 3, 3]);
}

#[test]
fn equal_elements_are_not_counted() {
    assert_eq!(all_four(&[500, 500, 501], 500), [1, 1, 1, 1]);
}

#[test]
fn loaded_file_counts_two_above_500_with_every_algorithm() {
    let text = "[1, 600, 3, 999, 500]";
    for algo in ALL {
        assert_eq!(count_in(text.as_bytes(), algo, 500), Ok(2));
    }
}

#[test]
fn load_numbers_reads_the_array() {
    assert_eq!(load_numbers(b"[1, 600, 3, 999, 500]"), Ok(vec![1, 600, 3, 999, 500]));
    assert_eq!(load_numbers(b" [ ] \n"), Ok(vec![]));
    assert_eq!(load_numbers(b"[7]"), Ok(vec![7]));
}

#[test]
fn negative_number_is_a_parse_error() {
    assert_eq!(load_numbers(b"[1, -2, 3]"), Err(CountError::ParseError));
    for algo in ALL {
        assert_eq!(count_in(b"[1, -2, 3]", algo, 0), Err(CountError::ParseError));
    }
}

#[test]
fn malformed_text_is_a_parse_error() {
    assert_eq!(load_numbers(b"not json"), Err(CountError::ParseError));
    assert_eq!(load_numbers(b""), Err(CountError::ParseError));
    assert_eq!(load_numbers(b"[1, 2"), Err(CountError::ParseError));
    assert_eq!(load_numbers(b"[1.5]"), Err(CountError::ParseError));
    assert_eq!(load_numbers(b"[\"1\"]"), Err(CountError::ParseError));
    assert_eq!(load_numbers(b"{\"a\": 1}"), Err(CountError::ParseError));
    assert_eq!(load_numbers(b"[1] [2]"), Err(CountError::ParseError));
    assert_eq!(
        load_numbers(b"[100000000000000000000000]"),
        Err(CountError::ParseError)
    );
}

#[test]
fn algorithm_names_are_recognised() {
    assert_eq!(Algorithm::from_name("count"), Ok(Algorithm::Count));
    assert_eq!(Algorithm::from_name("fold"), Ok(Algorithm::Fold));
    assert_eq!(Algorithm::from_name("for-if"), Ok(Algorithm::ForIf));
    assert_eq!(Algorithm::from_name("for-no-if"), Ok(Algorithm::ForNoIf));
}

#[test]
fn algorithm_names_ignore_case() {
    assert_eq!(Algorithm::from_name("COUNT"), Ok(Algorithm::Count));
    assert_eq!(Algorithm::from_name("Fold"), Ok(Algorithm::Fold));
    assert_eq!(Algorithm::from_name("For-If"), Ok(Algorithm::ForIf));
    assert_eq!(Algorithm::from_name("FOR-NO-IF"), Ok(Algorithm::ForNoIf));
}

#[test]
fn unknown_algorithm_is_an_argument_error() {
    for name in ["", "sum", "for", "forif", "for_if", "counts", "for-no-if ", "côunt"] {
        assert_eq!(Algorithm::from_name(name), Err(CountError::ArgumentError));
    }
}

#[test]
fn count_with_dispatches_to_the_selected_strategy() {
    let nums = [1, 600, 3, 999, 500];
    for algo in ALL {
        assert_eq!(algo.count_with(&nums, 500), 2);
        assert_eq!(algo.count_with(&nums, 0), 5);
        assert_eq!(algo.count_with(&nums, 999), 0);
    }
}
