use thread_pool::echo::{after_round, Round};

#[test]
fn a_round_that_echoed_bytes_is_followed_by_another() {
    let outcome: Result<usize, String> = Ok(1);
    assert_eq!(after_round(&outcome), Round::Again);
    let outcome: Result<usize, String> = Ok(1024);
    assert_eq!(after_round(&outcome), Round::Again);
}

#[test]
fn a_round_that_read_nothing_ends_the_task() {
    let outcome: Result<usize, String> = Ok(0);
    assert_eq!(after_round(&outcome), Round::Finished);
}

#[test]
fn a_round_that_failed_ends_the_task() {
    let outcome: Result<usize, String> = Err(String::from("connection reset"));
    assert_eq!(after_round(&outcome), Round::Failed);
}
