//! What a wait asks the bus for, told from the events alone.
//!
//! The laws here speak of calls: a trace holds the waits that [`MailboxesWait::start`] and
//! [`MailboxesWait::step`] handed out, or those of [`ResponseWait`], and the actions that those
//! waits named. What the waits hold inside plays no part in what is stated.

use vstd::prelude::*;

use super::wait::{
    Action, Error, Event, Mailbox, MailboxConfig, MailboxError, MailboxesWait, ResponseWait,
    Stage, Step, TimeLimit,
};

verus! {

/// How often a pause ended in the course of `events`.
pub open spec fn pauses<P, E>(events: Seq<Event<P, E>>) -> nat
    decreases events.len(),
{
    if events.len() == 0 {
        0
    } else {
        pauses(events.drop_last()) + if events.last() is Paused {
            1nat
        } else {
            0nat
        }
    }
}

/// How often a mailbox was read in the course of `events`.
pub open spec fn reads<P, E>(events: Seq<Event<P, E>>) -> nat
    decreases events.len(),
{
    if events.len() == 0 {
        0
    } else {
        reads(events.drop_last()) + if events.last() is Received {
            1nat
        } else {
            0nat
        }
    }
}

/// Whether a status that reports no full mailbox is among `events`.
pub open spec fn saw_empty<P, E>(events: Seq<Event<P, E>>) -> bool {
    events.contains(Event::Status { mailbox_full: false })
}

/// Whether the wait for both mailboxes is done with the OUT mailbox: it was seen empty, or the
/// ninth pause between two tries to clear it has passed.
pub open spec fn done_with_out<P, E>(events: Seq<Event<P, E>>) -> bool {
    saw_empty(events) || pauses(events) >= 9
}

/// Whether the last of `events` reports a full mailbox.
pub open spec fn just_full<P, E>(events: Seq<Event<P, E>>) -> bool {
    events.len() > 0 && events.last() == (Event::<P, E>::Status { mailbox_full: true })
}

/// A wait for both mailboxes that was started with `config` and goes on after each of `events`:
/// `waits` holds where it stands at first and after each event, `actions` what it asks for there.
/// Each event is a possible end of the action before it.
pub open spec fn mailboxes_trace<P, E>(
    config: MailboxConfig,
    waits: Seq<MailboxesWait>,
    actions: Seq<Action>,
    events: Seq<Event<P, E>>,
) -> bool {
    &&& waits.len() == events.len() + 1
    &&& actions.len() == events.len() + 1
    &&& call_ensures(
        MailboxesWait::start,
        (&config,),
        Ok::<MailboxesWait, MailboxError>(waits[0]),
    )
    &&& forall|n: int|
        0 <= n < waits.len() ==> call_ensures(
            MailboxesWait::action,
            (&#[trigger] waits[n],),
            actions[n],
        )
    &&& forall|n: int|
        0 <= n < events.len() ==> {
            &&& (#[trigger] events[n]).answers(actions[n])
            &&& call_ensures(
                MailboxesWait::step::<P, E>,
                (waits[n], events[n]),
                Step::Next(waits[n + 1]),
            )
        }
}

/// The trace without its last event.
proof fn lemma_mailboxes_trace_front<P, E>(
    config: MailboxConfig,
    waits: Seq<MailboxesWait>,
    actions: Seq<Action>,
    events: Seq<Event<P, E>>,
)
    requires
        mailboxes_trace(config, waits, actions, events),
        events.len() > 0,
    ensures
        mailboxes_trace(config, waits.drop_last(), actions.drop_last(), events.drop_last()),
{
    let front = events.drop_last();
    let before = waits.drop_last();
    assert forall|n: int| 0 <= n < front.len() implies {
        &&& (#[trigger] front[n]).answers(actions.drop_last()[n])
        &&& call_ensures(
            MailboxesWait::step::<P, E>,
            (before[n], front[n]),
            Step::Next(before[n + 1]),
        )
    } by {
        assert(front[n] == events[n]);
    }
    assert forall|n: int| 0 <= n < before.len() implies call_ensures(
        MailboxesWait::action,
        (&#[trigger] before[n],),
        actions.drop_last()[n],
    ) by {
        assert(before[n] == waits[n]);
    }
}

/// What one more event does to what the events before it have shown.
proof fn lemma_one_more<P, E>(events: Seq<Event<P, E>>)
    requires
        events.len() > 0,
    ensures
        saw_empty(events) <==> saw_empty(events.drop_last()) || events.last() == (Event::<
            P,
            E,
        >::Status { mailbox_full: false }),
{
    let empty = Event::<P, E>::Status { mailbox_full: false };
    let front = events.drop_last();
    if front.contains(empty) {
        let n = choose|n: int| 0 <= n < front.len() && front[n] == empty;
        assert(events[n] == empty);
    }
    if events.contains(empty) {
        let n = choose|n: int| 0 <= n < events.len() && events[n] == empty;
        if n < front.len() {
            assert(front[n] == empty);
        }
    }
    if events.last() == empty {
        assert(events[events.len() - 1] == empty);
    }
}

/// The stage that a wait for both mailboxes has reached, by its events.
proof fn lemma_stage<P, E>(
    config: MailboxConfig,
    waits: Seq<MailboxesWait>,
    actions: Seq<Action>,
    events: Seq<Event<P, E>>,
)
    requires
        mailboxes_trace(config, waits, actions, events),
    ensures
        config.read == Some(waits.last()@.read),
        config.write == Some(waits.last()@.write),
        match waits.last()@.stage {
            Stage::CheckOut { attempt } => {
                &&& !done_with_out(events)
                &&& !just_full(events)
                &&& attempt < 10
                &&& reads(events) == attempt
                &&& pauses(events) == if attempt > 0 {
                    attempt - 1
                } else {
                    0
                }
                &&& events.len() > 0 ==> (events.last() is Paused || events.last() is Received
                    && attempt == 1)
            },
            Stage::ClearOut { attempt } => {
                &&& !done_with_out(events)
                &&& just_full(events)
                &&& attempt < 10
                &&& reads(events) == attempt
                &&& pauses(events) == if attempt > 0 {
                    attempt - 1
                } else {
                    0
                }
            },
            Stage::PauseOut { attempt } => {
                &&& !done_with_out(events)
                &&& events.len() > 0
                &&& events.last() is Received
                &&& 0 < attempt < 10
                &&& reads(events) == attempt + 1
                &&& pauses(events) == attempt - 1
            },
            Stage::CheckIn => done_with_out(events) && !just_full(events),
            Stage::PauseIn => done_with_out(events) && just_full(events),
        },
    decreases events.len(),
{
    if events.len() > 0 {
        let last = events.len() - 1;
        lemma_mailboxes_trace_front(config, waits, actions, events);
        lemma_stage(config, waits.drop_last(), actions.drop_last(), events.drop_last());
        lemma_one_more(events);
        assert(events[last] == events.last());
        let before = waits[last];
        let after = waits[last + 1];
        assert(waits.drop_last().last() == before);
        assert(waits.last() == after);
        assert(actions[last] == before@.action());
        assert(Step::<MailboxesWait, (Mailbox, Mailbox), E>::Next(after).model() == before@.after(
            events.last(),
        ));
    }
}

/// **The wait asks for what the SubDevice was configured with.** Whatever has happened since the
/// start, a mailbox that the wait asks to be read is the configured read mailbox, from its address
/// on and over its whole length, and it is read whatever the working counter says. A status that
/// it asks for is that of the sync manager of the read mailbox for as long as the OUT mailbox is
/// being cleared, and that of the write mailbox from then on.
pub proof fn law_configured_mailboxes_are_asked_for<P, E>(
    config: MailboxConfig,
    waits: Seq<MailboxesWait>,
    actions: Seq<Action>,
    events: Seq<Event<P, E>>,
)
    requires
        mailboxes_trace(config, waits, actions, events),
    ensures
        config.read is Some,
        config.write is Some,
        actions.last() matches Action::ReadMailbox { address, len, ignore_working_counter } ==> {
            &&& !done_with_out(events)
            &&& address == config.read->0.address
            &&& len == config.read->0.len
            &&& ignore_working_counter
        },
        actions.last() matches Action::ReadStatus { sync_manager } ==> sync_manager
            == if done_with_out(events) {
            config.write->0.sync_manager
        } else {
            config.read->0.sync_manager
        },
{
    lemma_stage(config, waits, actions, events);
    assert(actions[events.len() as int] == waits[events.len() as int]@.action());
}

/// **Which action comes next rests on the events alone.** While the OUT mailbox is being cleared,
/// a full mailbox is read, a read is followed by a pause, but for the first one, and all else by a
/// look at the status. After that a full mailbox is followed by a pause and all else by a look at
/// the status.
pub proof fn law_actions_follow_the_events<P, E>(
    config: MailboxConfig,
    waits: Seq<MailboxesWait>,
    actions: Seq<Action>,
    events: Seq<Event<P, E>>,
)
    requires
        mailboxes_trace(config, waits, actions, events),
    ensures
        actions.last() is ReadMailbox <==> !done_with_out(events) && just_full(events),
        actions.last() is Pause <==> if done_with_out(events) {
            just_full(events)
        } else {
            events.len() > 0 && events.last() is Received && reads(events) > 1
        },
        reads(events) <= 10,
{
    lemma_stage(config, waits, actions, events);
    lemma_reads_are_bounded(config, waits, actions, events);
    assert(actions[events.len() as int] == waits[events.len() as int]@.action());
}

/// Only the clearing of the OUT mailbox reads a mailbox.
proof fn lemma_reads_are_bounded<P, E>(
    config: MailboxConfig,
    waits: Seq<MailboxesWait>,
    actions: Seq<Action>,
    events: Seq<Event<P, E>>,
)
    requires
        mailboxes_trace(config, waits, actions, events),
    ensures
        reads(events) <= 10,
    decreases events.len(),
{
    lemma_stage(config, waits, actions, events);
    if events.len() > 0 {
        let last = events.len() - 1;
        lemma_mailboxes_trace_front(config, waits, actions, events);
        lemma_stage(config, waits.drop_last(), actions.drop_last(), events.drop_last());
        lemma_reads_are_bounded(
            config,
            waits.drop_last(),
            actions.drop_last(),
            events.drop_last(),
        );
        assert(events[last] == events.last());
        assert(waits.drop_last().last() == waits[last]);
        assert(actions[last] == waits[last]@.action());
    }
}

/// **The time limit runs for as long as the IN mailbox is polled**, and not before.
pub proof fn law_limit_follows_the_events<P, E>(
    config: MailboxConfig,
    waits: Seq<MailboxesWait>,
    actions: Seq<Action>,
    events: Seq<Event<P, E>>,
    limit: Option<TimeLimit>,
)
    requires
        mailboxes_trace(config, waits, actions, events),
        call_ensures(MailboxesWait::time_limit, (&waits.last(),), limit),
    ensures
        done_with_out(events) ==> limit == Some(TimeLimit::MailboxEcho),
        !done_with_out(events) ==> limit is None,
{
    lemma_stage(config, waits, actions, events);
}

/// **How the wait ends rests on the events alone.** A failure ends it with that failure. Once it is
/// done with the OUT mailbox, a status that does not report a full mailbox ends it well, with the
/// configured mailboxes, the read one first. Nothing else ends it.
pub proof fn law_end_follows_the_events<P, E>(
    config: MailboxConfig,
    waits: Seq<MailboxesWait>,
    actions: Seq<Action>,
    events: Seq<Event<P, E>>,
    event: Event<P, E>,
    step: Step<MailboxesWait, (Mailbox, Mailbox), E>,
)
    requires
        mailboxes_trace(config, waits, actions, events),
        event.answers(actions.last()),
        call_ensures(MailboxesWait::step::<P, E>, (waits.last(), event), step),
    ensures
        step matches Step::Done(Ok(mailboxes)) ==> {
            &&& config.read == Some(mailboxes.0)
            &&& config.write == Some(mailboxes.1)
        },
        step matches Step::Done(Ok(_)) <==> done_with_out(events) && event == (Event::<
            P,
            E,
        >::Status { mailbox_full: false }),
        step matches Step::Done(Err(error)) ==> event is Failed && error == Error::Bus(
            event->Failed_0,
        ),
        step matches Step::Done(Err(_)) <==> event is Failed,
{
    lemma_stage(config, waits, actions, events);
    assert(actions[events.len() as int] == waits[events.len() as int]@.action());
    assert(step.model() == waits.last()@.after(event));
}

/// **A wait starts if and only if both mailboxes are configured.** The one that is missed is the
/// write mailbox, where both are missing.
pub proof fn law_start_needs_both_mailboxes(
    config: MailboxConfig,
    wait: Result<MailboxesWait, MailboxError>,
)
    requires
        call_ensures(MailboxesWait::start, (&config,), wait),
    ensures
        config.read is Some && config.write is Some <==> wait is Ok,
        config.write is None <==> (wait matches Err(error) && error is NoReadMailbox),
        config.write is Some && config.read is None <==> (wait matches Err(error)
            && error is NoWriteMailbox),
{
}

/// A wait for a response in `mailbox` that goes on after each of `events`, laid out as in
/// [`mailboxes_trace`].
pub open spec fn response_trace<P, E>(
    mailbox: Mailbox,
    waits: Seq<ResponseWait>,
    actions: Seq<Action>,
    events: Seq<Event<P, E>>,
) -> bool {
    &&& waits.len() == events.len() + 1
    &&& actions.len() == events.len() + 1
    &&& call_ensures(ResponseWait::start, (&mailbox,), waits[0])
    &&& forall|n: int|
        0 <= n < waits.len() ==> call_ensures(
            ResponseWait::action,
            (&#[trigger] waits[n],),
            actions[n],
        )
    &&& forall|n: int|
        0 <= n < events.len() ==> {
            &&& (#[trigger] events[n]).answers(actions[n])
            &&& call_ensures(
                ResponseWait::step::<P, E>,
                (waits[n], events[n]),
                Step::Next(waits[n + 1]),
            )
        }
}

/// The trace without its last event.
proof fn lemma_response_trace_front<P, E>(
    mailbox: Mailbox,
    waits: Seq<ResponseWait>,
    actions: Seq<Action>,
    events: Seq<Event<P, E>>,
)
    requires
        response_trace(mailbox, waits, actions, events),
        events.len() > 0,
    ensures
        response_trace(mailbox, waits.drop_last(), actions.drop_last(), events.drop_last()),
{
    let front = events.drop_last();
    let before = waits.drop_last();
    assert forall|n: int| 0 <= n < front.len() implies {
        &&& (#[trigger] front[n]).answers(actions.drop_last()[n])
        &&& call_ensures(
            ResponseWait::step::<P, E>,
            (before[n], front[n]),
            Step::Next(before[n + 1]),
        )
    } by {
        assert(front[n] == events[n]);
    }
    assert forall|n: int| 0 <= n < before.len() implies call_ensures(
        ResponseWait::action,
        (&#[trigger] before[n],),
        actions.drop_last()[n],
    ) by {
        assert(before[n] == waits[n]);
    }
}

/// The stage that a wait for a response has reached, by its events.
proof fn lemma_response_stage<P, E>(
    mailbox: Mailbox,
    waits: Seq<ResponseWait>,
    actions: Seq<Action>,
    events: Seq<Event<P, E>>,
)
    requires
        response_trace(mailbox, waits, actions, events),
    ensures
        waits.last()@.read == mailbox,
        waits.last()@.stage is ReadOut <==> just_full(events),
        waits.last()@.stage is PauseOut <==> events.len() > 0 && events.last() == (Event::<
            P,
            E,
        >::Status { mailbox_full: false }),
    decreases events.len(),
{
    if events.len() > 0 {
        let last = events.len() - 1;
        lemma_response_trace_front(mailbox, waits, actions, events);
        lemma_response_stage(mailbox, waits.drop_last(), actions.drop_last(), events.drop_last());
        assert(events[last] == events.last());
        assert(waits.drop_last().last() == waits[last]);
        assert(waits.last() == waits[last + 1]);
        assert(Step::<ResponseWait, P, E>::Next(waits[last + 1]).model() == waits[last]@.after(
            events.last(),
        ));
        assert(actions[last] == waits[last]@.action());
    }
}

/// **The response is read out of the mailbox that was waited for.** Whatever has happened since
/// the start, a mailbox that the wait asks to be read is the one given to the start, from its
/// address on and over its whole length, and the working counter of that read counts. A status
/// that it asks for is that of the sync manager of that mailbox.
pub proof fn law_given_mailbox_is_asked_for<P, E>(
    mailbox: Mailbox,
    waits: Seq<ResponseWait>,
    actions: Seq<Action>,
    events: Seq<Event<P, E>>,
)
    requires
        response_trace(mailbox, waits, actions, events),
    ensures
        actions.last() matches Action::ReadMailbox { address, len, ignore_working_counter } ==> {
            &&& address == mailbox.address
            &&& len == mailbox.len
            &&& !ignore_working_counter
        },
        actions.last() matches Action::ReadStatus { sync_manager } ==> sync_manager
            == mailbox.sync_manager,
{
    lemma_response_stage(mailbox, waits, actions, events);
    assert(actions[events.len() as int] == waits[events.len() as int]@.action());
}

/// **What the wait for a response does next rests on the last event alone**: a mailbox that was
/// just reported as full is read, one that was just reported as not full is given time, and all
/// else is followed by a look at the status. The time limit runs until the mailbox is full.
pub proof fn law_response_actions_follow_the_events<P, E>(
    mailbox: Mailbox,
    waits: Seq<ResponseWait>,
    actions: Seq<Action>,
    events: Seq<Event<P, E>>,
    limit: Option<TimeLimit>,
)
    requires
        response_trace(mailbox, waits, actions, events),
        call_ensures(ResponseWait::time_limit, (&waits.last(),), limit),
    ensures
        actions.last() is ReadMailbox <==> just_full(events),
        actions.last() is Pause <==> events.len() > 0 && events.last() == (Event::<
            P,
            E,
        >::Status { mailbox_full: false }),
        just_full(events) ==> limit is None,
        !just_full(events) ==> limit == Some(TimeLimit::MailboxResponse),
{
    lemma_response_stage(mailbox, waits, actions, events);
    assert(actions[events.len() as int] == waits[events.len() as int]@.action());
}

/// **The wait for a response ends with what was read, or with the failure**, and with nothing
/// else.
pub proof fn law_response_end_follows_the_events<P, E>(
    mailbox: Mailbox,
    waits: Seq<ResponseWait>,
    actions: Seq<Action>,
    events: Seq<Event<P, E>>,
    event: Event<P, E>,
    step: Step<ResponseWait, P, E>,
)
    requires
        response_trace(mailbox, waits, actions, events),
        event.answers(actions.last()),
        call_ensures(ResponseWait::step::<P, E>, (waits.last(), event), step),
    ensures
        event matches Event::Received(payload) ==> step == Step::<ResponseWait, P, E>::Done(
            Ok(payload),
        ),
        event matches Event::Failed(error) ==> step == Step::<ResponseWait, P, E>::Done(
            Err(Error::Bus(error)),
        ),
        event is Status || event is Paused <==> step is Next,
{
    lemma_response_stage(mailbox, waits, actions, events);
    assert(step.model() == waits.last()@.after(event));
}

/// **An event answers one kind of action**: a status that of a sync manager, a payload the read of
/// a mailbox, the end of a pause a pause. A failure answers every action.
pub proof fn law_events_answer_actions<P, E>(event: Event<P, E>, action: Action)
    ensures
        event is Failed ==> event.answers(action),
        action is ReadStatus ==> (event.answers(action) <==> event is Status || event is Failed),
        action is ReadMailbox ==> (event.answers(action) <==> event is Received || event is Failed),
        action is Pause ==> (event.answers(action) <==> event is Paused || event is Failed),
{
}

} // verus!
