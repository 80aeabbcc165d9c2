//! Waiting for the mailboxes of a SubDevice.
//!
//! Both waits are state machines: a wait says which [`Action`] the bus has to perform next,
//! and [`MailboxesWait::step`] or [`ResponseWait::step`] takes the [`Event`] in which that
//! action ended and says how the wait goes on. Whoever drives a wait performs the actions one
//! after the other, and keeps the time limit that [`MailboxesWait::time_limit`] or
//! [`ResponseWait::time_limit`] names: the limit starts to run with the first action that lies
//! under it, and where it passes, the pending action counts as failed.
//!
//! Nothing here is specific to one mailbox protocol: it is sync manager status and mailbox
//! addresses alone.

use vstd::prelude::*;

verus! {

/// A mailbox of a SubDevice.
#[derive(Clone, Copy, Debug, PartialEq, Eq, Structural)]
pub struct Mailbox {
    /// Start address of the mailbox in the memory of the SubDevice.
    pub address: u16,
    /// Length of the mailbox in bytes.
    pub len: u16,
    /// Index of the sync manager that guards the mailbox.
    pub sync_manager: u8,
}

/// The mailboxes that a SubDevice was configured with.
#[derive(Clone, Copy, Debug, PartialEq, Eq, Structural)]
pub struct MailboxConfig {
    /// The mailbox that is read: SubDevice OUT, MainDevice IN.
    pub read: Option<Mailbox>,
    /// The mailbox that is written: SubDevice IN, MainDevice OUT.
    pub write: Option<Mailbox>,
}

/// What a SubDevice lacks for mailbox traffic.
#[derive(Clone, Copy, Debug, PartialEq, Eq, Structural)]
pub enum MailboxError {
    /// The SubDevice has no write (SubDevice IN) mailbox.
    NoReadMailbox,
    /// The SubDevice has no read (SubDevice OUT) mailbox.
    NoWriteMailbox,
}

/// Why a wait ended without success.
#[derive(Debug, PartialEq, Eq)]
pub enum Error<E> {
    /// A mailbox is missing.
    Mailbox(MailboxError),
    /// An action failed on the bus, or its time limit passed.
    Bus(E),
}

/// A time limit that part of a wait lies under.
#[derive(Clone, Copy, Debug, PartialEq, Eq, Structural)]
pub enum TimeLimit {
    /// The time that the SubDevice has to empty its IN mailbox.
    MailboxEcho,
    /// The time that the SubDevice has to fill its OUT mailbox.
    MailboxResponse,
}

/// What the bus has to do next.
#[derive(Clone, Copy, Debug, PartialEq, Eq, Structural)]
pub enum Action {
    /// Read the status of a sync manager.
    ReadStatus {
        /// Index of the sync manager.
        sync_manager: u8,
    },
    /// Read a whole mailbox.
    ReadMailbox {
        /// Where the mailbox starts.
        address: u16,
        /// How many bytes to read.
        len: u16,
        /// Whether the read succeeds whatever its working counter says.
        ignore_working_counter: bool,
    },
    /// Let the delay between two tries pass.
    Pause,
}

/// How an action ended: with a payload of type `P` where a mailbox was read, with an error of
/// type `E` where it failed.
#[derive(Debug, PartialEq, Eq)]
pub enum Event<P, E> {
    /// The status of the sync manager was read.
    Status {
        /// Whether it reports its mailbox as full.
        mailbox_full: bool,
    },
    /// The mailbox was read.
    Received(P),
    /// The delay has passed.
    Paused,
    /// The action failed, or the time limit passed while it was pending.
    Failed(E),
}

impl<P, E> Event<P, E> {
    /// Whether an action of this kind can end in this way.
    pub open spec fn answers(self, action: Action) -> bool {
        match self {
            Event::Status { .. } => action is ReadStatus,
            Event::Received(_) => action is ReadMailbox,
            Event::Paused => action is Pause,
            Event::Failed(_) => true,
        }
    }

    /// Whether this event reports a mailbox as full.
    pub open spec fn reports_full(self) -> bool {
        self matches Event::Status { mailbox_full } && mailbox_full
    }
}

/// How a wait goes on after an event.
#[derive(Debug, PartialEq, Eq)]
pub enum Step<W, T, E> {
    /// The wait goes on.
    Next(W),
    /// The wait is over.
    Done(Result<T, Error<E>>),
}

impl<W: View, T, E> Step<W, T, E> {
    /// The same step, with the wait replaced by its model.
    pub open spec fn model(self) -> Step<W::V, T, E> {
        match self {
            Step::Next(wait) => Step::Next(wait@),
            Step::Done(result) => Step::Done(result),
        }
    }
}

/// How often an OUT mailbox that stays full is read before the wait goes on all the same.
pub const CLEAR_ATTEMPTS: u8 = 10;

/// Where the wait for both mailboxes stands.
#[derive(Clone, Copy, Debug, PartialEq, Eq, Structural)]
pub enum Stage {
    /// Asking whether the OUT mailbox is empty, for the time `attempt`, counted from zero.
    CheckOut {
        /// The attempt.
        attempt: u8,
    },
    /// Reading the OUT mailbox in order to clear it.
    ClearOut {
        /// The attempt.
        attempt: u8,
    },
    /// Pausing before the next attempt.
    PauseOut {
        /// The attempt that has just been made.
        attempt: u8,
    },
    /// Asking whether the IN mailbox can take data.
    CheckIn,
    /// Pausing before the IN mailbox is asked after again.
    PauseIn,
}

/// The model of a [`MailboxesWait`].
pub struct MailboxesWaitView {
    pub read: Mailbox,
    pub write: Mailbox,
    pub stage: Stage,
}

impl MailboxesWaitView {
    /// Attempts are numbered from zero, there are ten of them, and none pauses before the second.
    pub open spec fn valid(self) -> bool {
        match self.stage {
            Stage::CheckOut { attempt } => attempt < CLEAR_ATTEMPTS,
            Stage::ClearOut { attempt } => attempt < CLEAR_ATTEMPTS,
            Stage::PauseOut { attempt } => 0 < attempt < CLEAR_ATTEMPTS,
            Stage::CheckIn | Stage::PauseIn => true,
        }
    }

    /// The same wait at another stage.
    pub open spec fn at(self, stage: Stage) -> Self {
        MailboxesWaitView { stage, ..self }
    }

    /// The stage that follows attempt number `attempt`: the next attempt, or, after the last
    /// one, the IN mailbox.
    pub open spec fn after_attempt(attempt: u8) -> Stage {
        if attempt + 1 < CLEAR_ATTEMPTS {
            Stage::CheckOut { attempt: (attempt + 1) as u8 }
        } else {
            Stage::CheckIn
        }
    }

    /// What the bus has to do at this stage.
    pub open spec fn action(self) -> Action {
        match self.stage {
            Stage::CheckOut { .. } => Action::ReadStatus { sync_manager: self.read.sync_manager },
            Stage::ClearOut { .. } => Action::ReadMailbox {
                address: self.read.address,
                len: self.read.len,
                ignore_working_counter: true,
            },
            Stage::PauseOut { .. } => Action::Pause,
            Stage::CheckIn => Action::ReadStatus { sync_manager: self.write.sync_manager },
            Stage::PauseIn => Action::Pause,
        }
    }

    /// How the wait goes on when its action ends with `event`.
    pub open spec fn after<P, E>(self, event: Event<P, E>) -> Step<Self, (Mailbox, Mailbox), E> {
        match event {
            Event::Failed(error) => Step::Done(Err(Error::Bus(error))),
            _ => match self.stage {
                Stage::CheckOut { attempt } => if event.reports_full() {
                    Step::Next(self.at(Stage::ClearOut { attempt }))
                } else {
                    Step::Next(self.at(Stage::CheckIn))
                },
                Stage::ClearOut { attempt } => if attempt > 0 {
                    Step::Next(self.at(Stage::PauseOut { attempt }))
                } else {
                    Step::Next(self.at(Self::after_attempt(attempt)))
                },
                Stage::PauseOut { attempt } => Step::Next(self.at(Self::after_attempt(attempt))),
                Stage::CheckIn => if event.reports_full() {
                    Step::Next(self.at(Stage::PauseIn))
                } else {
                    Step::Done(Ok((self.read, self.write)))
                },
                Stage::PauseIn => Step::Next(self.at(Stage::CheckIn)),
            },
        }
    }
}

/// Waits until the OUT mailbox of a SubDevice is empty and its IN mailbox can take data.
///
/// The OUT mailbox is cleared by reading it, at most [`CLEAR_ATTEMPTS`] times, with a pause
/// after every attempt but the first. The IN mailbox is then polled, under
/// [`TimeLimit::MailboxEcho`], until it is no longer full.
#[derive(Clone, Copy, Debug, PartialEq, Eq, Structural)]
pub struct MailboxesWait {
    read: Mailbox,
    write: Mailbox,
    stage: Stage,
}

impl View for MailboxesWait {
    type V = MailboxesWaitView;

    closed spec fn view(&self) -> MailboxesWaitView {
        MailboxesWaitView { read: self.read, write: self.write, stage: self.stage }
    }
}

impl MailboxesWait {
    #[verifier::type_invariant]
    spec fn inv(self) -> bool {
        self@.valid()
    }

    /// Starts the wait, unless the SubDevice lacks one of the two mailboxes.
    pub fn start(config: &MailboxConfig) -> (wait: Result<Self, MailboxError>)
        ensures
            wait is Ok <==> config.read is Some && config.write is Some,
            wait matches Ok(started) ==> {
                &&& config.read == Some(started@.read)
                &&& config.write == Some(started@.write)
                &&& started@.stage == (Stage::CheckOut { attempt: 0 })
            },
            wait matches Err(error) ==> error == if config.write is None {
                MailboxError::NoReadMailbox
            } else {
                MailboxError::NoWriteMailbox
            },
    {
        let write = match config.write {
            Some(write) => write,
            None => return Err(MailboxError::NoReadMailbox),
        };
        let read = match config.read {
            Some(read) => read,
            None => return Err(MailboxError::NoWriteMailbox),
        };
        Ok(MailboxesWait { read, write, stage: Stage::CheckOut { attempt: 0 } })
    }

    /// What the bus has to do next.
    pub fn action(&self) -> (action: Action)
        ensures
            action == self@.action(),
    {
        match self.stage {
            Stage::CheckOut { .. } => Action::ReadStatus { sync_manager: self.read.sync_manager },
            Stage::ClearOut { .. } => Action::ReadMailbox {
                address: self.read.address,
                len: self.read.len,
                ignore_working_counter: true,
            },
            Stage::PauseOut { .. } => Action::Pause,
            Stage::CheckIn => Action::ReadStatus { sync_manager: self.write.sync_manager },
            Stage::PauseIn => Action::Pause,
        }
    }

    /// The time limit that the next action lies under: only the polling of the IN mailbox has one.
    pub fn time_limit(&self) -> (limit: Option<TimeLimit>)
        ensures
            limit == if self@.stage is CheckIn || self@.stage is PauseIn {
                Some(TimeLimit::MailboxEcho)
            } else {
                None
            },
    {
        match self.stage {
            Stage::CheckIn | Stage::PauseIn => Some(TimeLimit::MailboxEcho),
            _ => None,
        }
    }

    /// Goes on after [`MailboxesWait::action`] ended with `event`.
    pub fn step<P, E>(self, event: Event<P, E>) -> (step: Step<Self, (Mailbox, Mailbox), E>)
        requires
            event.answers(self@.action()),
        ensures
            step.model() == self@.after(event),
    {
        proof {
            use_type_invariant(&self);
        }
        let mailbox_full = match event {
            Event::Failed(error) => return Step::Done(Err(Error::Bus(error))),
            Event::Status { mailbox_full } => mailbox_full,
            _ => false,
        };
        match self.stage {
            // If the mailbox is full, read all of it in order to clear it.
            Stage::CheckOut { attempt } => if mailbox_full {
                self.go(Stage::ClearOut { attempt })
            } else {
                self.go(Stage::CheckIn)
            },
            // No delay after the first attempt.
            Stage::ClearOut { attempt } => if attempt > 0 {
                self.go(Stage::PauseOut { attempt })
            } else {
                self.next_attempt(attempt)
            },
            Stage::PauseOut { attempt } => self.next_attempt(attempt),
            Stage::CheckIn => if mailbox_full {
                self.go(Stage::PauseIn)
            } else {
                Step::Done(Ok((self.read, self.write)))
            },
            Stage::PauseIn => self.go(Stage::CheckIn),
        }
    }

    /// Goes on at the given stage.
    fn go<E>(self, stage: Stage) -> (step: Step<Self, (Mailbox, Mailbox), E>)
        requires
            self@.at(stage).valid(),
        ensures
            step.model() == Step::<MailboxesWaitView, (Mailbox, Mailbox), E>::Next(self@.at(stage)),
    {
        Step::Next(MailboxesWait { read: self.read, write: self.write, stage })
    }

    /// Goes on with what follows attempt number `attempt`.
    fn next_attempt<E>(self, attempt: u8) -> (step: Step<Self, (Mailbox, Mailbox), E>)
        requires
            attempt < CLEAR_ATTEMPTS,
        ensures
            step.model() == Step::<MailboxesWaitView, (Mailbox, Mailbox), E>::Next(
                self@.at(MailboxesWaitView::after_attempt(attempt)),
            ),
    {
        if attempt + 1 < CLEAR_ATTEMPTS {
            self.go(Stage::CheckOut { attempt: attempt + 1 })
        } else {
            self.go(Stage::CheckIn)
        }
    }
}

/// Where the wait for a response stands.
#[derive(Clone, Copy, Debug, PartialEq, Eq, Structural)]
pub enum ResponseStage {
    /// Asking whether the OUT mailbox has been filled.
    CheckOut,
    /// Pausing before the OUT mailbox is asked after again.
    PauseOut,
    /// Reading the response out of the OUT mailbox.
    ReadOut,
}

/// The model of a [`ResponseWait`].
pub struct ResponseWaitView {
    pub read: Mailbox,
    pub stage: ResponseStage,
}

impl ResponseWaitView {
    /// The same wait at another stage.
    pub open spec fn at(self, stage: ResponseStage) -> Self {
        ResponseWaitView { stage, ..self }
    }

    /// What the bus has to do at this stage.
    pub open spec fn action(self) -> Action {
        match self.stage {
            ResponseStage::CheckOut => Action::ReadStatus { sync_manager: self.read.sync_manager },
            ResponseStage::PauseOut => Action::Pause,
            ResponseStage::ReadOut => Action::ReadMailbox {
                address: self.read.address,
                len: self.read.len,
                ignore_working_counter: false,
            },
        }
    }

    /// How the wait goes on when its action ends with `event`.
    pub open spec fn after<P, E>(self, event: Event<P, E>) -> Step<Self, P, E> {
        match event {
            Event::Failed(error) => Step::Done(Err(Error::Bus(error))),
            Event::Status { mailbox_full } => if mailbox_full {
                Step::Next(self.at(ResponseStage::ReadOut))
            } else {
                Step::Next(self.at(ResponseStage::PauseOut))
            },
            Event::Paused => Step::Next(self.at(ResponseStage::CheckOut)),
            Event::Received(payload) => Step::Done(Ok(payload)),
        }
    }
}

/// Waits until the OUT mailbox of a SubDevice is full, then reads it.
///
/// The mailbox is polled under [`TimeLimit::MailboxResponse`]; the read that follows lies under
/// no limit of its own.
#[derive(Clone, Copy, Debug, PartialEq, Eq, Structural)]
pub struct ResponseWait {
    read: Mailbox,
    stage: ResponseStage,
}

impl View for ResponseWait {
    type V = ResponseWaitView;

    closed spec fn view(&self) -> ResponseWaitView {
        ResponseWaitView { read: self.read, stage: self.stage }
    }
}

impl ResponseWait {
    /// Starts the wait for a response in the given OUT mailbox.
    pub fn start(read_mailbox: &Mailbox) -> (wait: Self)
        ensures
            wait@ == (ResponseWaitView { read: *read_mailbox, stage: ResponseStage::CheckOut }),
    {
        ResponseWait { read: *read_mailbox, stage: ResponseStage::CheckOut }
    }

    /// What the bus has to do next.
    pub fn action(&self) -> (action: Action)
        ensures
            action == self@.action(),
    {
        match self.stage {
            ResponseStage::CheckOut => Action::ReadStatus { sync_manager: self.read.sync_manager },
            ResponseStage::PauseOut => Action::Pause,
            ResponseStage::ReadOut => Action::ReadMailbox {
                address: self.read.address,
                len: self.read.len,
                ignore_working_counter: false,
            },
        }
    }

    /// The time limit that the next action lies under: all of the polling has one.
    pub fn time_limit(&self) -> (limit: Option<TimeLimit>)
        ensures
            limit == if self@.stage is ReadOut {
                None
            } else {
                Some(TimeLimit::MailboxResponse)
            },
    {
        match self.stage {
            ResponseStage::CheckOut | ResponseStage::PauseOut => Some(TimeLimit::MailboxResponse),
            ResponseStage::ReadOut => None,
        }
    }

    /// Goes on after [`ResponseWait::action`] ended with `event`.
    pub fn step<P, E>(self, event: Event<P, E>) -> (step: Step<Self, P, E>)
        requires
            event.answers(self@.action()),
        ensures
            step.model() == self@.after(event),
    {
        match event {
            Event::Failed(error) => Step::Done(Err(Error::Bus(error))),
            Event::Status { mailbox_full } => if mailbox_full {
                Step::Next(ResponseWait { read: self.read, stage: ResponseStage::ReadOut })
            } else {
                Step::Next(ResponseWait { read: self.read, stage: ResponseStage::PauseOut })
            },
            Event::Paused => Step::Next(
                ResponseWait { read: self.read, stage: ResponseStage::CheckOut },
            ),
            Event::Received(payload) => Step::Done(Ok(payload)),
        }
    }
}

} // verus!
