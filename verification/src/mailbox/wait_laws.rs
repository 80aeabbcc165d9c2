//! What holds of a whole wait, from its start over any number of events.

use vstd::prelude::*;

use super::wait::{
    Error, Event, Mailbox, MailboxesWaitView, ResponseStage, ResponseWaitView, Stage, Step,
    CLEAR_ATTEMPTS,
};

verus! {

impl<P, E> Event<P, E> {
    /// Whether this event is the failure that `error` reports.
    pub open spec fn fails_with(self, error: Error<E>) -> bool {
        self matches Event::Failed(reason) && error == Error::Bus(reason)
    }
}

impl MailboxesWaitView {
    /// Where this wait stands once its actions have ended with `events`, one after the other.
    /// Events behind the one that ends the wait change nothing.
    pub open spec fn run<P, E>(self, events: Seq<Event<P, E>>) -> Step<
        Self,
        (Mailbox, Mailbox),
        E,
    >
        decreases events.len(),
    {
        if events.len() == 0 {
            Step::Next(self)
        } else {
            match self.run(events.drop_last()) {
                Step::Next(wait) => wait.after(events.last()),
                Step::Done(result) => Step::Done(result),
            }
        }
    }

    /// Whether each of `events` is a possible end of the action that the wait asked for.
    pub open spec fn answered_by<P, E>(self, events: Seq<Event<P, E>>) -> bool
        decreases events.len(),
    {
        events.len() == 0 || {
            &&& self.answered_by(events.drop_last())
            &&& self.run(events.drop_last()) matches Step::Next(wait) ==> events.last().answers(
                wait.action(),
            )
        }
    }

    /// Whether the wait has gone on from the OUT mailbox to the IN mailbox.
    pub open spec fn is_past_clearing(self) -> bool {
        self.stage is CheckIn || self.stage is PauseIn
    }

    /// How many more actions the clearing of the OUT mailbox can take.
    spec fn actions_left(self) -> int {
        match self.stage {
            Stage::CheckOut { attempt } => 3 * (CLEAR_ATTEMPTS - attempt) - if attempt == 0 {
                1int
            } else {
                0int
            },
            Stage::ClearOut { attempt } => 3 * (CLEAR_ATTEMPTS - attempt) - if attempt == 0 {
                2int
            } else {
                1int
            },
            Stage::PauseOut { attempt } => 3 * (CLEAR_ATTEMPTS - attempt) - 2,
            Stage::CheckIn | Stage::PauseIn => 0,
        }
    }
}

/// Every step keeps the mailboxes and the numbering of the attempts, and takes one action off
/// the clearing as long as that lasts.
proof fn lemma_step<P, E>(wait: MailboxesWaitView, event: Event<P, E>)
    requires
        wait.valid(),
    ensures
        wait.after(event) matches Step::Next(next) ==> {
            &&& next.valid()
            &&& next.read == wait.read
            &&& next.write == wait.write
            &&& next.actions_left() <= wait.actions_left()
            &&& wait.actions_left() > 0 ==> next.actions_left() < wait.actions_left()
            &&& wait.is_past_clearing() ==> next.is_past_clearing()
        },
        wait.actions_left() <= 0 <==> wait.is_past_clearing(),
        wait.actions_left() >= 0,
{
}

/// What every step keeps, a whole run keeps.
proof fn lemma_run<P, E>(wait: MailboxesWaitView, events: Seq<Event<P, E>>)
    requires
        wait.valid(),
    ensures
        wait.run(events) matches Step::Next(next) ==> {
            &&& next.valid()
            &&& next.read == wait.read
            &&& next.write == wait.write
            &&& next.actions_left() == 0 || next.actions_left() + events.len()
                <= wait.actions_left()
            &&& wait.is_past_clearing() ==> next.is_past_clearing()
        },
    decreases events.len(),
{
    lemma_step(wait, Event::<P, E>::Paused);
    if events.len() > 0 {
        lemma_run(wait, events.drop_last());
        if let Step::Next(before) = wait.run(events.drop_last()) {
            lemma_step(before, events.last());
            if let Step::Next(after) = before.after(events.last()) {
                lemma_step(after, events.last());
            }
        }
    }
}

/// **Clearing the OUT mailbox ends.** However full that mailbox is reported, after ten looks at
/// its status, ten reads and nine pauses at the most the wait is over or has gone on to the IN
/// mailbox.
pub proof fn law_clearing_ends<P, E>(start: MailboxesWaitView, events: Seq<Event<P, E>>)
    requires
        start.stage == (Stage::CheckOut { attempt: 0 }),
        events.len() >= 29,
    ensures
        start.run(events) matches Step::Next(wait) ==> wait.is_past_clearing(),
{
    lemma_run(start, events);
    if let Step::Next(wait) = start.run(events) {
        lemma_step(wait, Event::<P, E>::Paused);
    }
}

/// **The wait is about the two mailboxes that it was started with**, from its first action to
/// its result, and once it has gone on to the IN mailbox it never goes back.
pub proof fn law_mailboxes_stay<P, E>(start: MailboxesWaitView, events: Seq<Event<P, E>>)
    requires
        start.valid(),
    ensures
        start.run(events) matches Step::Next(wait) ==> {
            &&& wait.valid()
            &&& wait.read == start.read
            &&& wait.write == start.write
            &&& start.is_past_clearing() ==> wait.is_past_clearing()
        },
        start.run(events) matches Step::Done(Ok(mailboxes)) ==> mailboxes == (
            start.read,
            start.write,
        ),
    decreases events.len(),
{
    lemma_run(start, events);
    if events.len() > 0 {
        law_mailboxes_stay(start, events.drop_last());
        lemma_run(start, events.drop_last());
    }
}

/// **Success means that the IN mailbox was seen free.** A wait ends well in one way only: it
/// asked for the status of the IN mailbox and was told that the mailbox is not full.
pub proof fn law_success_means_in_mailbox_free<P, E>(
    start: MailboxesWaitView,
    events: Seq<Event<P, E>>,
)
    requires
        start.valid(),
        start.answered_by(events),
        start.run(events) matches Step::Done(Ok(_)),
    ensures
        exists|n: int|
            {
                &&& 0 <= n < events.len()
                &&& (#[trigger] events[n]) == (Event::<P, E>::Status { mailbox_full: false })
                &&& start.run(events.take(n)) matches Step::Next(wait)
                &&& wait == start.at(Stage::CheckIn)
            },
    decreases events.len(),
{
    let front = events.drop_last();
    let last = events.len() - 1;
    assert(front =~= events.take(last));
    lemma_run(start, front);
    match start.run(front) {
        Step::Next(wait) => {
            assert(events[last].answers(wait.action()));
            assert(wait =~= start.at(Stage::CheckIn));
            assert(events[last] == (Event::<P, E>::Status { mailbox_full: false }));
        },
        Step::Done(_) => {
            law_success_means_in_mailbox_free(start, front);
            let n = choose|n: int|
                {
                    &&& 0 <= n < front.len()
                    &&& (#[trigger] front[n]) == (Event::<P, E>::Status { mailbox_full: false })
                    &&& start.run(front.take(n)) matches Step::Next(wait)
                    &&& wait == start.at(Stage::CheckIn)
                };
            assert(events[n] == front[n]);
            assert(events.take(n) =~= front.take(n));
        },
    }
}

/// **A failure ends the wait at once and is passed on as it is**, and nothing else ends it
/// without success.
pub proof fn law_failure_is_passed_on<P, E>(start: MailboxesWaitView, events: Seq<Event<P, E>>)
    ensures
        start.run(events) matches Step::Done(Err(error)) ==> exists|n: int|
            0 <= n < events.len() && (#[trigger] events[n]).fails_with(error),
        forall|n: int|
            0 <= n < events.len() && (#[trigger] events[n]) is Failed && start.run(
                events.take(n),
            ) is Next ==> start.run(events) == Step::<
                MailboxesWaitView,
                (Mailbox, Mailbox),
                E,
            >::Done(Err(Error::Bus(events[n]->Failed_0))),
    decreases events.len(),
{
    if events.len() > 0 {
        let front = events.drop_last();
        let last = events.len() - 1;
        assert(front =~= events.take(last));
        law_failure_is_passed_on(start, front);
        if start.run(front) is Done {
            if let Step::Done(Err(error)) = start.run(front) {
                let n = choose|n: int|
                    0 <= n < front.len() && (#[trigger] front[n]).fails_with(error);
                assert(events[n] == front[n]);
            }
        } else {
            assert(events[last] == events.last());
        }
        assert forall|n: int|
            0 <= n < events.len() && (#[trigger] events[n]) is Failed && start.run(
                events.take(n),
            ) is Next implies start.run(events) == Step::<
            MailboxesWaitView,
            (Mailbox, Mailbox),
            E,
        >::Done(Err(Error::Bus(events[n]->Failed_0))) by {
            if n < last {
                assert(front[n] == events[n]);
                assert(front.take(n) =~= events.take(n));
            }
        }
    }
}

/// **An IN mailbox that stays full is polled without end**: as long as every status reports it
/// as full and nothing fails, the wait neither succeeds nor gives up. Only its time limit ends
/// it.
pub proof fn law_full_in_mailbox_keeps_waiting<P, E>(
    start: MailboxesWaitView,
    events: Seq<Event<P, E>>,
)
    requires
        start.is_past_clearing(),
        start.answered_by(events),
        forall|n: int|
            0 <= n < events.len() ==> !((#[trigger] events[n]) is Failed) && events[n] != (Event::<
                P,
                E,
            >::Status { mailbox_full: false }),
    ensures
        start.run(events) matches Step::Next(wait) && wait.is_past_clearing(),
    decreases events.len(),
{
    if events.len() > 0 {
        let front = events.drop_last();
        assert forall|n: int| 0 <= n < front.len() implies !((#[trigger] front[n]) is Failed)
            && front[n] != (Event::<P, E>::Status { mailbox_full: false }) by {
            assert(events[n] == front[n]);
        }
        law_full_in_mailbox_keeps_waiting(start, front);
        assert(events[events.len() - 1] == events.last());
    }
}

/// The events of attempts to clear an OUT mailbox that is reported as full each time, one attempt
/// for each of `payloads`: the status, the read that gives the payload and, but for the first
/// attempt, a pause.
pub open spec fn full_rounds<P, E>(payloads: Seq<P>) -> Seq<Event<P, E>>
    decreases payloads.len(),
{
    if payloads.len() == 0 {
        seq![]
    } else {
        let read = full_rounds::<P, E>(payloads.drop_last()).push(
            Event::Status { mailbox_full: true },
        ).push(Event::Received(payloads.last()));
        if payloads.len() == 1 {
            read
        } else {
            read.push(Event::Paused)
        }
    }
}

/// **An OUT mailbox that stays full is read ten times and then left alone**, whatever the reads
/// give: after fewer rounds the wait looks at its status once more, and after the tenth it turns
/// to the IN mailbox. The rounds are possible ends of the actions that the wait asks for.
pub proof fn law_full_out_mailbox_is_read_ten_times<P, E>(
    start: MailboxesWaitView,
    payloads: Seq<P>,
)
    requires
        start.stage == (Stage::CheckOut { attempt: 0 }),
        payloads.len() <= CLEAR_ATTEMPTS,
    ensures
        start.answered_by(full_rounds::<P, E>(payloads)),
        start.run(full_rounds::<P, E>(payloads)) == Step::<
            MailboxesWaitView,
            (Mailbox, Mailbox),
            E,
        >::Next(
            start.at(
                if payloads.len() < CLEAR_ATTEMPTS {
                    Stage::CheckOut { attempt: payloads.len() as u8 }
                } else {
                    Stage::CheckIn
                },
            ),
        ),
    decreases payloads.len(),
{
    if payloads.len() > 0 {
        let before = payloads.drop_last();
        law_full_out_mailbox_is_read_ten_times::<P, E>(start, before);
        let front = full_rounds::<P, E>(before);
        let asked = front.push(Event::Status { mailbox_full: true });
        let read = asked.push(Event::Received(payloads.last()));
        let attempt = before.len() as u8;
        assert(asked.drop_last() =~= front);
        assert(start.run(asked) == Step::<MailboxesWaitView, (Mailbox, Mailbox), E>::Next(
            start.at(Stage::ClearOut { attempt }),
        ));
        assert(start.answered_by(asked));
        assert(read.drop_last() =~= asked);
        assert(start.answered_by(read));
        if payloads.len() > 1 {
            let paused = read.push(Event::Paused);
            assert(start.run(read) == Step::<MailboxesWaitView, (Mailbox, Mailbox), E>::Next(
                start.at(Stage::PauseOut { attempt }),
            ));
            assert(paused.drop_last() =~= read);
            assert(start.answered_by(paused));
        }
    } else {
        assert(start.at(Stage::CheckOut { attempt: 0 }) == start);
    }
}

impl ResponseWaitView {
    /// Where this wait stands once its actions have ended with `events`, one after the other.
    /// Events behind the one that ends the wait change nothing.
    pub open spec fn run<P, E>(self, events: Seq<Event<P, E>>) -> Step<Self, P, E>
        decreases events.len(),
    {
        if events.len() == 0 {
            Step::Next(self)
        } else {
            match self.run(events.drop_last()) {
                Step::Next(wait) => wait.after(events.last()),
                Step::Done(result) => Step::Done(result),
            }
        }
    }

    /// Whether each of `events` is a possible end of the action that the wait asked for.
    pub open spec fn answered_by<P, E>(self, events: Seq<Event<P, E>>) -> bool
        decreases events.len(),
    {
        events.len() == 0 || {
            &&& self.answered_by(events.drop_last())
            &&& self.run(events.drop_last()) matches Step::Next(wait) ==> events.last().answers(
                wait.action(),
            )
        }
    }
}

/// **The response is read out of the mailbox that was waited for, and only once it was seen
/// full**: the wait asks for the mailbox right after a status that reports it as full, and for
/// no other one.
pub proof fn law_response_is_read_when_full<P, E>(
    start: ResponseWaitView,
    events: Seq<Event<P, E>>,
)
    requires
        start.stage is CheckOut,
        start.answered_by(events),
    ensures
        start.run(events) matches Step::Next(wait) ==> {
            &&& wait.read == start.read
            &&& wait.stage is ReadOut <==> events.len() > 0 && events.last() == (Event::<
                P,
                E,
            >::Status { mailbox_full: true })
        },
    decreases events.len(),
{
    if events.len() > 0 {
        law_response_is_read_when_full(start, events.drop_last());
    }
}

/// **The response is what the read of the mailbox gave**, the first one to give anything.
pub proof fn law_response_is_what_was_read<P, E>(start: ResponseWaitView, events: Seq<Event<P, E>>)
    requires
        start.stage is CheckOut,
        start.answered_by(events),
    ensures
        start.run(events) matches Step::Done(Ok(payload)) ==> exists|n: int|
            0 <= n < events.len() && (#[trigger] events[n]) == Event::<P, E>::Received(payload)
                && start.run(events.take(n)) == Step::<ResponseWaitView, P, E>::Next(
                start.at(ResponseStage::ReadOut),
            ),
        start.run(events) matches Step::Done(Err(error)) ==> exists|n: int|
            0 <= n < events.len() && (#[trigger] events[n]).fails_with(error),
    decreases events.len(),
{
    if events.len() > 0 {
        let front = events.drop_last();
        let last = events.len() - 1;
        assert(front =~= events.take(last));
        law_response_is_what_was_read(start, front);
        law_response_is_read_when_full(start, front);
        match start.run(front) {
            Step::Next(wait) => {
                assert(events[last].answers(wait.action()));
                if wait.stage is ReadOut {
                    assert(wait =~= start.at(ResponseStage::ReadOut));
                }
            },
            Step::Done(Ok(payload)) => {
                let n = choose|n: int|
                    0 <= n < front.len() && (#[trigger] front[n]) == Event::<P, E>::Received(
                        payload,
                    ) && start.run(front.take(n)) == Step::<ResponseWaitView, P, E>::Next(
                        start.at(ResponseStage::ReadOut),
                    );
                assert(events[n] == front[n]);
                assert(events.take(n) =~= front.take(n));
            },
            Step::Done(Err(error)) => {
                let n = choose|n: int|
                    0 <= n < front.len() && (#[trigger] front[n]).fails_with(error);
                assert(events[n] == front[n]);
            },
        }
    }
}

/// **A failure ends the wait for a response at once and is passed on as it is.**
pub proof fn law_response_failure_is_passed_on<P, E>(
    start: ResponseWaitView,
    events: Seq<Event<P, E>>,
)
    ensures
        forall|n: int|
            0 <= n < events.len() && (#[trigger] events[n]) is Failed && start.run(
                events.take(n),
            ) is Next ==> start.run(events) == Step::<ResponseWaitView, P, E>::Done(
                Err(Error::Bus(events[n]->Failed_0)),
            ),
    decreases events.len(),
{
    if events.len() > 0 {
        let front = events.drop_last();
        let last = events.len() - 1;
        assert(front =~= events.take(last));
        law_response_failure_is_passed_on(start, front);
        assert forall|n: int|
            0 <= n < events.len() && (#[trigger] events[n]) is Failed && start.run(
                events.take(n),
            ) is Next implies start.run(events) == Step::<ResponseWaitView, P, E>::Done(
            Err(Error::Bus(events[n]->Failed_0)),
        ) by {
            if n < last {
                assert(front[n] == events[n]);
                assert(front.take(n) =~= events.take(n));
            }
        }
    }
}

/// **A mailbox that stays empty is polled without end**: as long as no status reports it as
/// full and nothing fails, the wait goes on, under its time limit, and asks for no read.
pub proof fn law_empty_mailbox_keeps_waiting<P, E>(
    start: ResponseWaitView,
    events: Seq<Event<P, E>>,
)
    requires
        !(start.stage is ReadOut),
        start.answered_by(events),
        forall|n: int|
            0 <= n < events.len() ==> !((#[trigger] events[n]) is Failed)
                && !events[n].reports_full(),
    ensures
        start.run(events) matches Step::Next(wait) && !(wait.stage is ReadOut),
    decreases events.len(),
{
    if events.len() > 0 {
        let front = events.drop_last();
        assert forall|n: int| 0 <= n < front.len() implies !((#[trigger] front[n]) is Failed)
            && !front[n].reports_full() by {
            assert(events[n] == front[n]);
        }
        law_empty_mailbox_keeps_waiting(start, front);
        assert(events[events.len() - 1] == events.last());
    }
}

} // verus!
