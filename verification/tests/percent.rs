use progress_cli::Percent;
use progress_cli::Progress;
use progress_cli::transpose;
use progress_cli::percent_prefix;
use progress_cli::done_prefix;

#[test]
fn fraction_of_zero_by_zero_is_full() {
    assert_eq!(Percent::fraction(0, 0).value(), 100);
}

#[test]
fn fraction_rounds_down() {
    assert_eq!(Percent::fraction(1, 3).value(), 33);
}

#[test]
fn fraction_of_everything_is_full() {
    assert_eq!(Percent::fraction(100, 100).value(), 100);
}

#[test]
fn fraction_saturates_at_full() {
    assert_eq!(Percent::fraction(5, 2).value(), 100);
}

#[test]
fn fraction_nonzero_by_zero_is_full() {
    assert_eq!(Percent::fraction(7, 0).value(), 100);
}

#[test]
fn fraction_of_huge_counts_is_exact() {
    assert_eq!(Percent::fraction(usize::MAX / 2, usize::MAX).value(), 49);
    assert_eq!(Percent::fraction(usize::MAX, usize::MAX).value(), 100);
}

#[test]
fn new_keeps_the_value() {
    assert_eq!(Percent::new(0).value(), 0);
    assert_eq!(Percent::new(55).value(), 55);
    assert_eq!(Percent::new(100).value(), 100);
}

#[test]
fn default_is_empty_and_max_is_full() {
    assert_eq!(Percent::default().value(), 0);
    assert_eq!(Percent::max().value(), 100);
}

#[test]
fn progress_of_bool() {
    assert_eq!(true.progress().value(), 100);
    assert_eq!(false.progress().value(), 0);
}

#[test]
fn progress_of_step_counts() {
    assert_eq!((1usize, 4usize).progress().value(), 25);
    assert_eq!((0usize, 0usize).progress().value(), 100);
    assert_eq!((2usize, 3usize).progress().value(), 66);
}

#[test]
fn transpose_regroups_each_case() {
    let done: Result<Result<u32, &str>, String> = Ok(Ok(5));
    assert_eq!(transpose(done), Ok(Ok(5)));
    let unfinished: Result<Result<u32, &str>, String> = Ok(Err("still going"));
    assert_eq!(transpose(unfinished), Err("still going"));
    let failed: Result<Result<u32, &str>, String> = Err(String::from("boom"));
    assert_eq!(transpose(failed), Ok(Err(String::from("boom"))));
}

#[test]
fn percent_prefix_is_right_aligned_to_three_digits() {
    assert_eq!(percent_prefix(Percent::new(0)).as_str(), "[  0%] ");
    assert_eq!(percent_prefix(Percent::new(7)).as_str(), "[  7%] ");
    assert_eq!(percent_prefix(Percent::new(42)).as_str(), "[ 42%] ");
    assert_eq!(percent_prefix(Percent::new(100)).as_str(), "[100%] ");
}

#[test]
fn done_prefix_is_the_done_marker() {
    assert_eq!(done_prefix().as_str(), "[done] ");
}
