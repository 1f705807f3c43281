//! Runs of an ingestion: the states that a sequence of events leads through
//! and the actions that it draws from the machine.

use vstd::prelude::*;
use crate::ingest::{Action, ActionModel, Event, EventModel, Ingestion, IngestionModel, Stage};

verus! {

/// The state that `events`, reported in this order, lead to from `state`.
/// Events that the machine is not waiting for leave the state as it is.
pub open spec fn state_after(state: IngestionModel, events: Seq<EventModel>) -> IngestionModel
    decreases events.len(),
{
    if events.len() == 0 {
        state
    } else {
        match state.next(events[0]) {
            Some(n) => state_after(n.0, events.drop_first()),
            None => state_after(state, events.drop_first()),
        }
    }
}

/// The actions that the machine asks for, in order, while `events` are reported
/// to it from `state` on.
pub open spec fn actions_of(state: IngestionModel, events: Seq<EventModel>) -> Seq<ActionModel>
    decreases events.len(),
{
    if events.len() == 0 {
        Seq::<ActionModel>::empty()
    } else {
        match state.next(events[0]) {
            Some(n) => seq![n.1] + actions_of(n.0, events.drop_first()),
            None => actions_of(state, events.drop_first()),
        }
    }
}

/// The models of a sequence of events, in the same order.
pub open spec fn event_models(events: Seq<Event>) -> Seq<EventModel> {
    Seq::new(events.len(), |i: int| events[i]@)
}

/// The models of a sequence of actions, in the same order.
pub open spec fn action_models(actions: Seq<Action>) -> Seq<ActionModel> {
    Seq::new(actions.len(), |i: int| actions[i]@)
}

/// The inserts among `actions`, in order.
pub open spec fn inserts_in(actions: Seq<ActionModel>) -> Seq<ActionModel> {
    actions.filter(|a: ActionModel| a is Insert)
}

/// The chunking requests among `actions`, in order.
pub open spec fn chunk_requests_in(actions: Seq<ActionModel>) -> Seq<ActionModel> {
    actions.filter(|a: ActionModel| a is SendChunkRequest)
}

/// Whether the ingestion has ended.
pub open spec fn ended(stage: Stage) -> bool {
    stage == Stage::Done || stage == Stage::Failed
}

/// The first event of a run decides its first action; the rest of the run
/// goes on from the state that the first event led to.
pub proof fn lemma_run_step(state: IngestionModel, event: EventModel, rest: Seq<EventModel>)
    ensures
        state.next(event) matches Some(n) ==> actions_of(state, seq![event] + rest) == seq![n.1]
            + actions_of(n.0, rest) && state_after(state, seq![event] + rest) == state_after(
            n.0,
            rest,
        ),
        state.next(event) is None ==> actions_of(state, seq![event] + rest) == actions_of(
            state,
            rest,
        ) && state_after(state, seq![event] + rest) == state_after(state, rest),
{
    let events = seq![event] + rest;
    assert(events[0] == event);
    assert(events.drop_first() =~= rest);
}

/// A run in two parts: the actions of the whole are those of the first part
/// followed by those of the second from where the first part led.
pub proof fn lemma_run_split(state: IngestionModel, first: Seq<EventModel>, second: Seq<EventModel>)
    ensures
        actions_of(state, first + second) == actions_of(state, first) + actions_of(
            state_after(state, first),
            second,
        ),
        state_after(state, first + second) == state_after(state_after(state, first), second),
    decreases first.len(),
{
    if first.len() == 0 {
        assert(first + second =~= second);
        assert(actions_of(state, first) + actions_of(state, second) =~= actions_of(state, second));
    } else {
        let whole = first + second;
        assert(whole[0] == first[0]);
        assert(whole.drop_first() =~= first.drop_first() + second);
        match state.next(first[0]) {
            Some(n) => {
                lemma_run_split(n.0, first.drop_first(), second);
                assert(seq![n.1] + (actions_of(n.0, first.drop_first()) + actions_of(
                    state_after(n.0, first.drop_first()),
                    second,
                )) =~= (seq![n.1] + actions_of(n.0, first.drop_first())) + actions_of(
                    state_after(n.0, first.drop_first()),
                    second,
                ));
            },
            None => {
                lemma_run_split(state, first.drop_first(), second);
            },
        }
    }
}

/// Once an ingestion has ended, no event draws another action from it.
pub proof fn lemma_ended_is_silent(state: IngestionModel, events: Seq<EventModel>)
    requires
        ended(state.stage),
    ensures
        actions_of(state, events) == Seq::<ActionModel>::empty(),
        state_after(state, events) == state,
    decreases events.len(),
{
    if events.len() > 0 {
        assert(state.next(events[0]) is None);
        lemma_ended_is_silent(state, events.drop_first());
    }
}

/// Reports `events` to `machine` in order and collects the actions that it
/// answers with.
///
/// This is a whole run with the outcomes given beforehand, as they come from a
/// recording or from stand-ins for the two services.
pub fn replay(machine: Ingestion, events: Vec<Event>) -> (r: (Ingestion, Vec<Action>))
    ensures
        r.0@ == state_after(machine@, event_models(events@)),
        action_models(r.1@) == actions_of(machine@, event_models(events@)),
{
    let ghost start = machine@;
    let ghost all = events@;
    let mut machine = machine;
    let mut actions: Vec<Action> = Vec::new();
    assert(action_models(actions@) =~= Seq::<ActionModel>::empty());
    assert(event_models(all.take(0)) =~= Seq::<EventModel>::empty());
    for event in it: events.into_iter()
        invariant
            it.seq() == all,
            machine@ == state_after(start, event_models(all.take(it.index() as int))),
            action_models(actions@) == actions_of(
                start,
                event_models(all.take(it.index() as int)),
            ),
    {
        let ghost done = event_models(all.take(it.index() as int));
        let ghost before = machine@;
        let ghost asked = action_models(actions@);
        let (moved, action) = machine.step(event);
        machine = moved;
        proof {
            let one = seq![event@];
            assert(event_models(all.take(it.index() + 1)) =~= done + one);
            lemma_run_split(start, done, one);
            lemma_run_step(before, event@, Seq::<EventModel>::empty());
            assert(one + Seq::<EventModel>::empty() =~= one);
        }
        match action {
            Some(a) => {
                actions.push(a);
                assert(action_models(actions@) =~= asked + seq![a@]);
            },
            None => {},
        }
    }
    assert(all.take(all.len() as int) =~= all);
    (machine, actions)
}

} // verus!
