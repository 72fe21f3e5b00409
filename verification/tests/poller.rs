use trinci_cli::client::ClientError;
use trinci_cli::message::{ErrorKind, Receipt, RemoteError};
use trinci_cli::poller::{
    attempt_of, Action, Attempt, Poller, Verdict, BATCH_BUDGET, BATCH_DELAY_SECS, IMPORT_BUDGET,
    IMPORT_DELAY_SECS,
};

type Answer = Attempt<u32, &'static str>;

/// Runs the machine as a caller would, taking the answers in order, and
/// gives the verdict, the number of attempts made and the pauses asked for.
fn drive(budget: u32, delay: u64, answers: &[Answer]) -> (Verdict<u32, &'static str>, u32, Vec<u64>) {
    let mut poller = Poller::new(budget, delay);
    let mut pauses = Vec::new();
    let mut made = 0;
    let mut action: Action<u32, &'static str> = poller.start();
    loop {
        match action {
            Action::Finish(verdict) => return (verdict, made, pauses),
            Action::Fetch { after_secs } => {
                pauses.push(after_secs);
                let answer = answers[made as usize].clone();
                made += 1;
                action = poller.step(answer);
                assert_eq!(poller.attempts(), made);
            }
        }
    }
}

#[test]
fn receipt_on_the_third_attempt_takes_three_attempts() {
    let answers = [Attempt::NotFound, Attempt::NotFound, Attempt::Found(42), Attempt::NotFound];
    assert_eq!(drive(10, 1, &answers), (Verdict::Done(42), 3, vec![0, 1, 1]));
}

#[test]
fn receipt_on_the_first_attempt_takes_one_attempt() {
    assert_eq!(drive(3, 3, &[Attempt::Found(7)]), (Verdict::Done(7), 1, vec![0]));
}

#[test]
fn receipt_on_the_last_attempt_of_the_budget_is_found() {
    let answers = [Attempt::NotFound, Attempt::NotFound, Attempt::Found(1)];
    assert_eq!(drive(3, 3, &answers), (Verdict::Done(1), 3, vec![0, 3, 3]));
}

#[test]
fn budget_of_three_gives_up_after_three_not_founds() {
    let answers = [Attempt::NotFound, Attempt::NotFound, Attempt::NotFound, Attempt::Found(1)];
    assert_eq!(drive(3, 3, &answers), (Verdict::TimedOut, 3, vec![0, 3, 3]));
}

#[test]
fn other_failure_is_not_retried() {
    let answers = [Attempt::NotFound, Attempt::Failed("connection reset"), Attempt::Found(1)];
    assert_eq!(drive(5, 2, &answers), (Verdict::Failed("connection reset"), 2, vec![0, 2]));
}

#[test]
fn budget_of_zero_makes_no_attempt() {
    assert_eq!(drive(0, 1, &[]), (Verdict::TimedOut, 0, vec![]));
}

#[test]
fn step_beyond_the_budget_is_not_counted() {
    let mut poller = Poller::new(1, 1);
    assert!(poller.attempts_left());
    assert_eq!(poller.step::<u32, u32>(Attempt::NotFound), Action::Finish(Verdict::TimedOut));
    assert!(!poller.attempts_left());
    assert_eq!(poller.step::<u32, u32>(Attempt::NotFound), Action::Finish(Verdict::TimedOut));
    assert_eq!(poller.attempts(), 1);
}

#[test]
fn poller_keeps_its_budget_and_delay() {
    let mut poller = Poller::new(4, 7);
    assert_eq!((poller.limit(), poller.delay()), (4, 7));
    assert_eq!(poller.step::<u32, u32>(Attempt::NotFound), Action::Fetch { after_secs: 7 });
    assert_eq!((poller.limit(), poller.delay()), (4, 7));
}

#[test]
fn policies_are_the_documented_ones() {
    assert_eq!((BATCH_BUDGET, BATCH_DELAY_SECS), (3, 3));
    assert_eq!((IMPORT_BUDGET, IMPORT_DELAY_SECS), (10, 1));
}

#[test]
fn only_resource_not_found_is_retryable() {
    let rx = Receipt { height: 1, index: 0, burned_fuel: 10, success: true, returns: vec![] };
    assert_eq!(attempt_of(Ok(rx.clone())), Attempt::Found(rx));
    let missing = ClientError::Remote(RemoteError {
        kind: ErrorKind::ResourceNotFound,
        message: "resource not found".to_string(),
    });
    assert!(missing.is_not_found());
    assert_eq!(attempt_of(Err(missing)), Attempt::NotFound);
    let other = ClientError::Remote(RemoteError {
        kind: ErrorKind::MalformedData,
        message: "bad".to_string(),
    });
    assert!(!other.is_not_found());
    assert_eq!(attempt_of(Err(other.clone())), Attempt::Failed(other));
    assert_eq!(attempt_of(Err(ClientError::Malformed)), Attempt::Failed(ClientError::Malformed));
}
