//! The waits for the mailboxes of a SubDevice, driven by hand.

use ethercat_mailbox::{
    Action, Error, Event, Mailbox, MailboxConfig, MailboxError, MailboxesWait, ResponseWait, Step,
    TimeLimit, CLEAR_ATTEMPTS,
};

const READ: Mailbox = Mailbox { address: 0x1080, len: 128, sync_manager: 1 };
const WRITE: Mailbox = Mailbox { address: 0x1000, len: 256, sync_manager: 0 };

const CHECK_OUT: Action = Action::ReadStatus { sync_manager: 1 };
const CHECK_IN: Action = Action::ReadStatus { sync_manager: 0 };
const CLEAR_OUT: Action =
    Action::ReadMailbox { address: 0x1080, len: 128, ignore_working_counter: true };
const READ_OUT: Action =
    Action::ReadMailbox { address: 0x1080, len: 128, ignore_working_counter: false };

type Happened = Event<&'static str, &'static str>;

const FULL: Happened = Event::Status { mailbox_full: true };
const EMPTY: Happened = Event::Status { mailbox_full: false };
const DATA: Happened = Event::Received("data");
const PAUSED: Happened = Event::Paused;

fn started() -> MailboxesWait {
    MailboxesWait::start(&MailboxConfig { read: Some(READ), write: Some(WRITE) })
        .expect("both mailboxes are there")
}

/// Checks that the wait asks for `action` and goes on when it ends with `event`.
fn next(wait: MailboxesWait, action: Action, event: Happened) -> MailboxesWait {
    assert_eq!(wait.action(), action);
    match wait.step(event) {
        Step::Next(wait) => wait,
        Step::Done(result) => panic!("over with {result:?}"),
    }
}

/// Checks that the wait asks for `action` and is over when it ends with `event`.
fn done(
    wait: MailboxesWait,
    action: Action,
    event: Happened,
) -> Result<(Mailbox, Mailbox), Error<&'static str>> {
    assert_eq!(wait.action(), action);
    match wait.step(event) {
        Step::Next(wait) => panic!("goes on with {wait:?}"),
        Step::Done(result) => result,
    }
}

#[test]
fn a_missing_mailbox_is_reported_by_its_pairing() {
    let none = MailboxConfig { read: None, write: None };
    assert_eq!(MailboxesWait::start(&none), Err(MailboxError::NoReadMailbox));

    let no_write = MailboxConfig { read: Some(READ), write: None };
    assert_eq!(MailboxesWait::start(&no_write), Err(MailboxError::NoReadMailbox));

    let no_read = MailboxConfig { read: None, write: Some(WRITE) };
    assert_eq!(MailboxesWait::start(&no_read), Err(MailboxError::NoWriteMailbox));
}

#[test]
fn ready_mailboxes_take_two_reads() {
    let wait = started();
    assert_eq!(wait.time_limit(), None);

    let wait = next(wait, CHECK_OUT, EMPTY);
    assert_eq!(wait.time_limit(), Some(TimeLimit::MailboxEcho));

    assert_eq!(done(wait, CHECK_IN, EMPTY), Ok((READ, WRITE)));
}

#[test]
fn a_full_out_mailbox_is_read_and_asked_after_again() {
    let wait = next(started(), CHECK_OUT, FULL);
    assert_eq!(wait.time_limit(), None);
    let wait = next(wait, CLEAR_OUT, DATA);
    // No pause after the first attempt, one after the second.
    let wait = next(wait, CHECK_OUT, FULL);
    let wait = next(wait, CLEAR_OUT, DATA);
    let wait = next(wait, Action::Pause, PAUSED);
    let wait = next(wait, CHECK_OUT, EMPTY);
    assert_eq!(done(wait, CHECK_IN, EMPTY), Ok((READ, WRITE)));
}

#[test]
fn an_out_mailbox_that_stays_full_is_read_ten_times_and_no_more() {
    assert_eq!(CLEAR_ATTEMPTS, 10);

    let mut wait = started();
    let mut actions = 0;
    for attempt in 0..CLEAR_ATTEMPTS {
        wait = next(wait, CHECK_OUT, FULL);
        // What the reads give does not matter.
        let payload = if attempt % 2 == 0 { "stale" } else { "staler" };
        wait = next(wait, CLEAR_OUT, Event::Received(payload));
        actions += 2;
        if attempt > 0 {
            wait = next(wait, Action::Pause, PAUSED);
            actions += 1;
        }
    }

    assert_eq!(actions, 29);
    assert_eq!(done(wait, CHECK_IN, EMPTY), Ok((READ, WRITE)));
}

#[test]
fn a_full_in_mailbox_keeps_the_wait_going() {
    let mut wait = next(started(), CHECK_OUT, EMPTY);
    for _ in 0..1000 {
        wait = next(wait, CHECK_IN, FULL);
        assert_eq!(wait.time_limit(), Some(TimeLimit::MailboxEcho));
        wait = next(wait, Action::Pause, PAUSED);
    }
    assert_eq!(done(wait, CHECK_IN, EMPTY), Ok((READ, WRITE)));
}

#[test]
fn a_failure_ends_the_wait_wherever_it_stands() {
    let failed = || Event::Failed("lost");
    let over = Err(Error::Bus("lost"));

    assert_eq!(done(started(), CHECK_OUT, failed()), over);

    let clearing = next(started(), CHECK_OUT, FULL);
    assert_eq!(done(clearing, CLEAR_OUT, failed()), over);

    let again = next(clearing, CLEAR_OUT, DATA);
    let pausing = next(next(again, CHECK_OUT, FULL), CLEAR_OUT, DATA);
    assert_eq!(done(pausing, Action::Pause, failed()), over);

    let polling = next(started(), CHECK_OUT, EMPTY);
    assert_eq!(done(polling, CHECK_IN, failed()), over);

    let waiting = next(polling, CHECK_IN, FULL);
    assert_eq!(done(waiting, Action::Pause, failed()), over);
}

#[test]
fn a_response_is_read_once_the_out_mailbox_is_full() {
    let mut wait = ResponseWait::start(&READ);

    for _ in 0..3 {
        assert_eq!(wait.time_limit(), Some(TimeLimit::MailboxResponse));
        assert_eq!(wait.action(), CHECK_OUT);
        wait = match wait.step(EMPTY) {
            Step::Next(wait) => wait,
            Step::Done(result) => panic!("over with {result:?}"),
        };
        assert_eq!(wait.time_limit(), Some(TimeLimit::MailboxResponse));
        assert_eq!(wait.action(), Action::Pause);
        wait = match wait.step(PAUSED) {
            Step::Next(wait) => wait,
            Step::Done(result) => panic!("over with {result:?}"),
        };
    }

    assert_eq!(wait.action(), CHECK_OUT);
    let Step::Next(wait) = wait.step(FULL) else {
        panic!("the response has not been read");
    };
    assert_eq!(wait.time_limit(), None);
    assert_eq!(wait.action(), READ_OUT);
    assert_eq!(wait.step(DATA), Step::Done(Ok("data")));
}

#[test]
fn a_failure_ends_the_wait_for_a_response() {
    let wait = ResponseWait::start(&READ);
    let over = Step::Done(Err(Error::Bus("timeout")));

    assert_eq!(wait.step::<&str, _>(Event::Failed("timeout")), over);

    let Step::Next(reading) = wait.step::<&str, &str>(Event::Status { mailbox_full: true }) else {
        panic!("the response has not been read");
    };
    assert_eq!(reading.step::<&str, _>(Event::Failed("timeout")), over);
}
