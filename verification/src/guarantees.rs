//! What holds of every run of an ingestion: how often the chunking service is
//! asked, which inserts are asked for and in what order, and what a failure
//! prevents.

use vstd::prelude::*;
use crate::chunk::ChunkModel;
use crate::chunking::{
    endpoint_text, request_body_text, status_is_success, ChunkRequestModel, LATE_CHUNKING_PATH,
};
use crate::error::IngestErrorModel;
use crate::ingest::{ActionModel, EventModel, IngestionModel, Stage};
use crate::payload::record_text;
use crate::seq_filter::{lemma_filter_middle, lemma_filter_none, lemma_filter_push};
use crate::store_id::principal_parse;
use crate::trace::{
    actions_of, chunk_requests_in, ended, inserts_in, lemma_ended_is_silent, lemma_run_split,
    lemma_run_step, state_after,
};

verus! {

/// Whether an action sends something out: a chunking request or an insert.
pub open spec fn sends(action: ActionModel) -> bool {
    action is SendChunkRequest || action is Insert
}

/// Without a configured endpoint, a state that has not yet asked for the
/// chunking request never asks for it, nor for an insert.
pub proof fn lemma_unconfigured_is_quiet(state: IngestionModel, events: Seq<EventModel>)
    requires
        state.endpoint is None,
        state.stage == Stage::ResolvingHandle || state.stage == Stage::BindingClient || ended(
            state.stage,
        ),
    ensures
        forall|i: int|
            0 <= i < actions_of(state, events).len() ==> !sends(
                #[trigger] actions_of(state, events)[i],
            ),
    decreases events.len(),
{
    if events.len() > 0 {
        match state.next(events[0]) {
            Some(n) => {
                let tail = actions_of(n.0, events.drop_first());
                lemma_unconfigured_is_quiet(n.0, events.drop_first());
                assert(!sends(n.1));
                assert forall|i: int| 0 <= i < actions_of(state, events).len() implies !sends(
                    #[trigger] actions_of(state, events)[i],
                ) by {
                    if i > 0 {
                        assert(actions_of(state, events)[i] == tail[i - 1]);
                    }
                }
            },
            None => {
                lemma_unconfigured_is_quiet(state, events.drop_first());
                assert(actions_of(state, events) == actions_of(state, events.drop_first()));
            },
        }
    } else {
        assert(actions_of(state, events).len() == 0);
    }
}

/// A missing configuration value prevents every outbound request: whatever is
/// reported to an ingestion that was started without an endpoint, it asks for
/// no chunking request and for no insert.
pub proof fn lemma_missing_configuration_sends_nothing(
    store_id: Seq<char>,
    tag: Seq<char>,
    document: Seq<char>,
    events: Seq<EventModel>,
)
    ensures
        chunk_requests_in(
            actions_of(IngestionModel::initial(store_id, tag, document, None), events),
        ).len() == 0,
        inserts_in(
            actions_of(IngestionModel::initial(store_id, tag, document, None), events),
        ).len() == 0,
{
    let actions = actions_of(IngestionModel::initial(store_id, tag, document, None), events);
    lemma_unconfigured_is_quiet(IngestionModel::initial(store_id, tag, document, None), events);
    assert forall|i: int| 0 <= i < actions.len() implies !(#[trigger] actions[i] is Insert) by {
        assert(!sends(actions[i]));
    }
    assert forall|i: int| 0 <= i < actions.len() implies !(
    #[trigger] actions[i] is SendChunkRequest) by {
        assert(!sends(actions[i]));
    }
    lemma_filter_none(actions, |a: ActionModel| a is Insert);
    lemma_filter_none(actions, |a: ActionModel| a is SendChunkRequest);
}

/// Whether a stage lies before the first insert: the ingestion is still
/// running and has not yet been handed its chunks.
pub open spec fn before_inserts(stage: Stage) -> bool {
    stage == Stage::ResolvingHandle || stage == Stage::BindingClient || stage == Stage::Requesting
        || stage is ReadingErrorBody || stage == Stage::Decoding
}

/// Once the chunks are held, the ingestion never returns to an earlier stage.
pub proof fn lemma_no_way_back(state: IngestionModel, events: Seq<EventModel>)
    requires
        !before_inserts(state.stage),
    ensures
        !before_inserts(state_after(state, events).stage),
    decreases events.len(),
{
    if events.len() > 0 {
        match state.next(events[0]) {
            Some(n) => {
                lemma_no_way_back(n.0, events.drop_first());
            },
            None => {
                lemma_no_way_back(state, events.drop_first());
            },
        }
    }
}

/// A run that ends before the first insert has asked for no insert.
pub proof fn lemma_no_insert_before_chunks(state: IngestionModel, events: Seq<EventModel>)
    requires
        before_inserts(state_after(state, events).stage),
    ensures
        forall|i: int|
            0 <= i < actions_of(state, events).len() ==> !(
            #[trigger] actions_of(state, events)[i] is Insert),
    decreases events.len(),
{
    if events.len() > 0 {
        match state.next(events[0]) {
            Some(n) => {
                let tail = actions_of(n.0, events.drop_first());
                if !before_inserts(n.0.stage) {
                    lemma_no_way_back(n.0, events.drop_first());
                }
                lemma_no_insert_before_chunks(n.0, events.drop_first());
                assert forall|i: int| 0 <= i < actions_of(state, events).len() implies !(
                #[trigger] actions_of(state, events)[i] is Insert) by {
                    if i > 0 {
                        assert(actions_of(state, events)[i] == tail[i - 1]);
                    }
                }
            },
            None => {
                lemma_no_insert_before_chunks(state, events.drop_first());
                assert(actions_of(state, events) == actions_of(state, events.drop_first()));
            },
        }
    } else {
        assert(actions_of(state, events).len() == 0);
    }
}

/// While the body of an unsuccessful answer is awaited, and ever after, no
/// insert is asked for.
pub proof fn lemma_rejected_is_quiet(state: IngestionModel, events: Seq<EventModel>)
    requires
        state.stage is ReadingErrorBody || ended(state.stage),
    ensures
        forall|i: int|
            0 <= i < actions_of(state, events).len() ==> !sends(
                #[trigger] actions_of(state, events)[i],
            ),
    decreases events.len(),
{
    if events.len() > 0 {
        match state.next(events[0]) {
            Some(n) => {
                let tail = actions_of(n.0, events.drop_first());
                lemma_rejected_is_quiet(n.0, events.drop_first());
                assert(!sends(n.1));
                assert forall|i: int| 0 <= i < actions_of(state, events).len() implies !sends(
                    #[trigger] actions_of(state, events)[i],
                ) by {
                    if i > 0 {
                        assert(actions_of(state, events)[i] == tail[i - 1]);
                    }
                }
            },
            None => {
                lemma_rejected_is_quiet(state, events.drop_first());
                assert(actions_of(state, events) == actions_of(state, events.drop_first()));
            },
        }
    } else {
        assert(actions_of(state, events).len() == 0);
    }
}

/// An answer of the chunking service with a status outside the success class,
/// so with every status of 400 and above, never leads to an insert, and so
/// never to a payload being formatted: in a run in which `before` leads to the
/// point where the answer is awaited, no insert is asked for before the answer,
/// and none after it, whatever is reported afterwards.
pub proof fn lemma_rejected_answer_inserts_nothing(
    state: IngestionModel,
    before: Seq<EventModel>,
    status: u16,
    after: Seq<EventModel>,
)
    requires
        state_after(state, before).stage == Stage::Requesting,
        !status_is_success(status),
    ensures
        inserts_in(
            actions_of(
                state,
                before + seq![EventModel::ResponseStatus { status: Ok(status) }] + after,
            ),
        ).len() == 0,
{
    let answer = seq![EventModel::ResponseStatus { status: Ok(status) }];
    let waiting = state_after(state, before);
    let events = before + answer + after;
    let actions = actions_of(state, events);
    let tail = answer + after;
    assert(events =~= before + tail);
    lemma_run_split(state, before, tail);
    lemma_no_insert_before_chunks(state, before);
    let told = waiting.next(answer[0])->Some_0;
    assert(tail[0] == answer[0]);
    assert(tail.drop_first() =~= after);
    assert(actions_of(waiting, tail) == seq![told.1] + actions_of(told.0, after));
    lemma_rejected_is_quiet(told.0, after);
    let first = actions_of(state, before);
    let rest = actions_of(told.0, after);
    assert forall|i: int| 0 <= i < actions.len() implies !(#[trigger] actions[i] is Insert) by {
        if i < first.len() {
            assert(actions[i] == first[i]);
        } else if i == first.len() {
            assert(actions[i] == told.1);
        } else {
            assert(actions[i] == rest[i - first.len() - 1]);
            assert(!sends(rest[i - first.len() - 1]));
        }
    }
    lemma_filter_none(actions, |a: ActionModel| a is Insert);
}

/// `count` reports, each saying that the store accepted the outstanding insert.
pub open spec fn accepted(count: nat) -> Seq<EventModel> {
    Seq::new(count, |i: int| EventModel::Inserted { outcome: Ok(()) })
}

/// The inserts for the chunks from index `from` up to, not including, index
/// `to`, in the order of the chunks, each with the record of `tag` and the
/// chunk's sentence as its payload.
pub open spec fn planned_inserts(tag: Seq<char>, chunks: Seq<ChunkModel>, from: nat, to: nat) -> Seq<
    ActionModel,
> {
    Seq::new(
        (to - from) as nat,
        |i: int|
            ActionModel::Insert {
                embedding: chunks[from + i].embedding,
                payload: record_text(tag, chunks[from + i].sentence),
            },
    )
}

/// The four reports that lead a run up to its inserts: the handle is there,
/// the client is bound, the chunking service answered with `status`, and its
/// answer held `chunks`.
pub open spec fn chunked(status: u16, chunks: Seq<ChunkModel>) -> Seq<EventModel> {
    seq![
        EventModel::HandleResolved { outcome: Ok(()) },
        EventModel::ClientBound,
        EventModel::ResponseStatus { status: Ok(status) },
        EventModel::Decoded { chunks: Ok(chunks) },
    ]
}

/// The three actions that an ingestion asks for between its start and its
/// inserts: binding the client to the parsed identifier, the one chunking
/// request for the document, and decoding the answer.
pub open spec fn preparation(store_id: Seq<char>, document: Seq<char>, base: Seq<char>) -> Seq<
    ActionModel,
> {
    seq![
        ActionModel::BindClient { store: principal_parse(store_id)->Ok_0 },
        ActionModel::SendChunkRequest {
            request: ChunkRequestModel {
                url: endpoint_text(base, LATE_CHUNKING_PATH@),
                body: request_body_text(document),
            },
        },
        ActionModel::DecodeChunks,
    ]
}

/// While inserts are accepted and chunks are left, each acceptance is answered
/// with the insert of the next chunk.
pub proof fn lemma_accepted_inserts(state: IngestionModel, count: nat)
    requires
        state.stage == Stage::Inserting,
        state.inserted + count < state.chunks.len(),
    ensures
        actions_of(state, accepted(count)) == planned_inserts(
            state.tag,
            state.chunks,
            state.inserted + 1,
            state.inserted + 1 + count,
        ),
        state_after(state, accepted(count)) == (IngestionModel {
            inserted: state.inserted + count,
            ..state
        }),
    decreases count,
{
    let events = accepted(count);
    let expected = planned_inserts(
        state.tag,
        state.chunks,
        state.inserted + 1,
        state.inserted + 1 + count,
    );
    if count == 0 {
        assert(actions_of(state, events) =~= expected);
    } else {
        let told = state.next(events[0])->Some_0;
        assert(events.drop_first() =~= accepted((count - 1) as nat));
        lemma_accepted_inserts(told.0, (count - 1) as nat);
        assert(actions_of(state, events) =~= expected);
    }
}

/// A run up to the point where `count` inserts have been accepted and one
/// more is outstanding: the preparation, then the inserts of the first
/// `count + 1` chunks.
pub proof fn lemma_run_into_inserts(
    store_id: Seq<char>,
    tag: Seq<char>,
    document: Seq<char>,
    base: Seq<char>,
    status: u16,
    chunks: Seq<ChunkModel>,
    count: nat,
)
    requires
        principal_parse(store_id) is Ok,
        status_is_success(status),
        count < chunks.len(),
    ensures
        actions_of(
            IngestionModel::initial(store_id, tag, document, Some(base)),
            chunked(status, chunks) + accepted(count),
        ) == preparation(store_id, document, base) + planned_inserts(tag, chunks, 0, count + 1),
        state_after(
            IngestionModel::initial(store_id, tag, document, Some(base)),
            chunked(status, chunks) + accepted(count),
        ) == (IngestionModel {
            stage: Stage::Inserting,
            chunks,
            inserted: count,
            ..IngestionModel::initial(store_id, tag, document, Some(base))
        }),
{
    let start = IngestionModel::initial(store_id, tag, document, Some(base));
    let head = chunked(status, chunks);
    let acks = accepted(count);
    let s1 = start.next(head[0])->Some_0;
    let s2 = s1.0.next(head[1])->Some_0;
    let s3 = s2.0.next(head[2])->Some_0;
    let s4 = s3.0.next(head[3])->Some_0;
    let e3 = seq![head[3]] + acks;
    let e2 = seq![head[2]] + e3;
    let e1 = seq![head[1]] + e2;
    assert(head + acks =~= seq![head[0]] + e1);
    lemma_run_step(start, head[0], e1);
    lemma_run_step(s1.0, head[1], e2);
    lemma_run_step(s2.0, head[2], e3);
    lemma_run_step(s3.0, head[3], acks);
    lemma_accepted_inserts(s4.0, count);
    assert(seq![s1.1] + (seq![s2.1] + (seq![s3.1] + (seq![s4.1] + planned_inserts(
        tag,
        chunks,
        1,
        1 + count,
    )))) =~= preparation(store_id, document, base) + planned_inserts(tag, chunks, 0, count + 1));
}

/// Among a binding, a chunking request and a decoding, followed by inserts
/// and an end, the inserts are those in the middle, in their order.
pub proof fn lemma_inserts_sent(prep: Seq<ActionModel>, plan: Seq<ActionModel>, last: ActionModel)
    requires
        prep.len() == 3,
        prep[0] is BindClient,
        prep[1] is SendChunkRequest,
        prep[2] is DecodeChunks,
        forall|i: int| 0 <= i < plan.len() ==> #[trigger] plan[i] is Insert,
        last is Finish,
    ensures
        inserts_in(prep + plan + seq![last]) == plan,
{
    let end = seq![last];
    let is_insert = |a: ActionModel| a is Insert;
    assert forall|i: int| 0 <= i < prep.len() implies !is_insert(#[trigger] prep[i]) by {
        assert(i == 0 || i == 1 || i == 2);
    }
    assert forall|i: int| 0 <= i < plan.len() implies is_insert(#[trigger] plan[i]) by {
        assert(plan[i] is Insert);
    }
    assert forall|i: int| 0 <= i < end.len() implies !is_insert(#[trigger] end[i]) by {
        assert(end[i] == last);
    }
    lemma_filter_middle(prep, plan, end, is_insert);
}

/// Among a binding, a chunking request and a decoding, followed by inserts
/// and an end, there is one chunking request.
pub proof fn lemma_requests_sent(prep: Seq<ActionModel>, plan: Seq<ActionModel>, last: ActionModel)
    requires
        prep.len() == 3,
        prep[0] is BindClient,
        prep[1] is SendChunkRequest,
        prep[2] is DecodeChunks,
        forall|i: int| 0 <= i < plan.len() ==> #[trigger] plan[i] is Insert,
        last is Finish,
    ensures
        chunk_requests_in(prep + plan + seq![last]).len() == 1,
{
    let bind = seq![prep[0]];
    let send = seq![prep[1]];
    let rest = seq![prep[2]] + plan + seq![last];
    assert(prep + plan + seq![last] =~= bind + send + rest);
    let is_request = |a: ActionModel| a is SendChunkRequest;
    assert forall|i: int| 0 <= i < bind.len() implies !is_request(#[trigger] bind[i]) by {
        assert(bind[i] == prep[0]);
    }
    assert forall|i: int| 0 <= i < send.len() implies is_request(#[trigger] send[i]) by {
        assert(send[i] == prep[1]);
    }
    assert forall|i: int| 0 <= i < rest.len() implies !is_request(#[trigger] rest[i]) by {
        if i == 0 {
            assert(rest[i] == prep[2]);
        } else if i < 1 + plan.len() {
            assert(rest[i] == plan[i - 1]);
        } else {
            assert(rest[i] == last);
        }
    }
    lemma_filter_middle(bind, send, rest, is_request);
}

/// A run in which everything succeeds asks for exactly one chunking request
/// and for exactly one insert per chunk, in the order of the chunks, and then
/// ends with the number of chunks.
///
/// The store identifier is one that parses, an endpoint is configured, the
/// chunking service answers with a success status and the chunks `chunks`, and
/// the store accepts every insert. With no chunks the run ends at once, with
/// no insert.
pub proof fn lemma_successful_run(
    store_id: Seq<char>,
    tag: Seq<char>,
    document: Seq<char>,
    base: Seq<char>,
    status: u16,
    chunks: Seq<ChunkModel>,
)
    requires
        principal_parse(store_id) is Ok,
        status_is_success(status),
    ensures
        ({
            let start = IngestionModel::initial(store_id, tag, document, Some(base));
            let events = chunked(status, chunks) + accepted(chunks.len());
            let actions = actions_of(start, events);
            &&& actions == preparation(store_id, document, base) + planned_inserts(
                tag,
                chunks,
                0,
                chunks.len(),
            ) + seq![ActionModel::Finish { outcome: Ok(chunks.len()) }]
            &&& chunk_requests_in(actions).len() == 1
            &&& inserts_in(actions) == planned_inserts(tag, chunks, 0, chunks.len())
            &&& state_after(start, events).stage == Stage::Done
        }),
{
    let start = IngestionModel::initial(store_id, tag, document, Some(base));
    let head = chunked(status, chunks);
    let events = head + accepted(chunks.len());
    let end = ActionModel::Finish { outcome: Ok(chunks.len()) };
    let plan = planned_inserts(tag, chunks, 0, chunks.len());
    if chunks.len() == 0 {
        let s1 = start.next(head[0])->Some_0;
        let s2 = s1.0.next(head[1])->Some_0;
        let s3 = s2.0.next(head[2])->Some_0;
        let s4 = s3.0.next(head[3])->Some_0;
        let none = Seq::<EventModel>::empty();
        let e3 = seq![head[3]] + none;
        let e2 = seq![head[2]] + e3;
        let e1 = seq![head[1]] + e2;
        assert(events =~= seq![head[0]] + e1);
        lemma_run_step(start, head[0], e1);
        lemma_run_step(s1.0, head[1], e2);
        lemma_run_step(s2.0, head[2], e3);
        lemma_run_step(s3.0, head[3], none);
        assert(actions_of(start, events) =~= preparation(store_id, document, base) + plan
            + seq![end]);
    } else {
        let count = (chunks.len() - 1) as nat;
        let ack = EventModel::Inserted { outcome: Ok(()) };
        let before = head + accepted(count);
        assert(events =~= before + seq![ack]);
        lemma_run_split(start, before, seq![ack]);
        lemma_run_into_inserts(store_id, tag, document, base, status, chunks, count);
        let held = state_after(start, before);
        lemma_run_step(held, ack, Seq::<EventModel>::empty());
        assert(seq![ack] + Seq::<EventModel>::empty() =~= seq![ack]);
        assert(actions_of(held, seq![ack]) =~= seq![end]);
    }
    lemma_inserts_sent(preparation(store_id, document, base), plan, end);
    lemma_requests_sent(preparation(store_id, document, base), plan, end);
}

/// Where an insert fails, the inserts before it have been accepted and no
/// later one is ever asked for.
///
/// In a run that is prepared without failure and in which the store accepts
/// `count` inserts and fails the next with `cause`, the inserts asked for are
/// those of the first `count + 1` chunks, in order; the failure ends the run
/// with the number of chunks that were stored; and whatever is reported
/// afterwards draws no further action.
pub proof fn lemma_failed_insert_ends_run(
    store_id: Seq<char>,
    tag: Seq<char>,
    document: Seq<char>,
    base: Seq<char>,
    status: u16,
    chunks: Seq<ChunkModel>,
    count: nat,
    cause: Seq<char>,
    afterwards: Seq<EventModel>,
)
    requires
        principal_parse(store_id) is Ok,
        status_is_success(status),
        count < chunks.len(),
    ensures
        ({
            let start = IngestionModel::initial(store_id, tag, document, Some(base));
            let events = chunked(status, chunks) + accepted(count) + seq![
                EventModel::Inserted { outcome: Err(cause) },
            ] + afterwards;
            let actions = actions_of(start, events);
            &&& actions == preparation(store_id, document, base) + planned_inserts(
                tag,
                chunks,
                0,
                count + 1,
            ) + seq![
                ActionModel::Finish {
                    outcome: Err(IngestErrorModel::Insert { inserted: count, cause }),
                },
            ]
            &&& inserts_in(actions) == planned_inserts(tag, chunks, 0, count + 1)
            &&& state_after(start, events).stage == Stage::Failed
        }),
{
    let start = IngestionModel::initial(store_id, tag, document, Some(base));
    let before = chunked(status, chunks) + accepted(count);
    let refusal = EventModel::Inserted { outcome: Err(cause) };
    let events = before + seq![refusal] + afterwards;
    let end = ActionModel::Finish {
        outcome: Err(IngestErrorModel::Insert { inserted: count, cause }),
    };
    assert(events =~= before + (seq![refusal] + afterwards));
    lemma_run_split(start, before, seq![refusal] + afterwards);
    lemma_run_into_inserts(store_id, tag, document, base, status, chunks, count);
    let held = state_after(start, before);
    lemma_run_step(held, refusal, afterwards);
    let told = held.next(refusal)->Some_0;
    lemma_ended_is_silent(told.0, afterwards);
    assert(actions_of(held, seq![refusal] + afterwards) =~= seq![end]);
    lemma_inserts_sent(
        preparation(store_id, document, base),
        planned_inserts(tag, chunks, 0, count + 1),
        end,
    );
}

/// The plan up to one more chunk is the plan so far and that chunk's insert.
pub proof fn lemma_plan_grows(state: IngestionModel, count: nat)
    requires
        count < state.chunks.len(),
    ensures
        planned_inserts(state.tag, state.chunks, 0, count) + seq![
            state.insert_action(count as int),
        ] == planned_inserts(state.tag, state.chunks, 0, count + 1),
{
    assert(planned_inserts(state.tag, state.chunks, 0, count) + seq![
        state.insert_action(count as int),
    ] =~= planned_inserts(state.tag, state.chunks, 0, count + 1));
}

/// What holds between a state and what has been asked for on the way to it,
/// in every run from the start. `requests` is the number of chunking requests
/// so far and `inserts` are the inserts so far, in order: the chunking request
/// has been asked for at most once, and only then can there be chunks; and the
/// inserts are those of the first chunks, in the order of the chunks, up to the
/// one that is outstanding.
pub open spec fn orderly(state: IngestionModel, requests: nat, inserts: Seq<ActionModel>) -> bool {
    let none = Seq::<ActionModel>::empty();
    match state.stage {
        Stage::ResolvingHandle | Stage::BindingClient => requests == 0 && inserts == none
            && state.chunks.len() == 0,
        Stage::Requesting | Stage::ReadingErrorBody { .. } | Stage::Decoding => requests == 1
            && inserts == none && state.chunks.len() == 0,
        Stage::Inserting => requests == 1 && inserts == planned_inserts(
            state.tag,
            state.chunks,
            0,
            state.inserted + 1,
        ),
        Stage::Done => requests == 1 && state.inserted == state.chunks.len() && inserts
            == planned_inserts(state.tag, state.chunks, 0, state.inserted),
        Stage::Failed => requests <= 1 && if state.chunks.len() == 0 {
            inserts == none
        } else {
            state.inserted < state.chunks.len() && inserts == planned_inserts(
                state.tag,
                state.chunks,
                0,
                state.inserted + 1,
            )
        },
    }
}

/// The number of chunking requests once `action` has been asked for.
pub open spec fn requests_with(requests: nat, action: ActionModel) -> nat {
    if action is SendChunkRequest {
        requests + 1
    } else {
        requests
    }
}

/// The inserts once `action` has been asked for.
pub open spec fn inserts_with(inserts: Seq<ActionModel>, action: ActionModel) -> Seq<ActionModel> {
    if action is Insert {
        inserts + seq![action]
    } else {
        inserts
    }
}

/// Every transition keeps a run orderly.
pub proof fn lemma_step_keeps_order(
    state: IngestionModel,
    requests: nat,
    inserts: Seq<ActionModel>,
    event: EventModel,
)
    requires
        state.wf(),
        orderly(state, requests, inserts),
    ensures
        state.next(event) matches Some(n) ==> n.0.wf() && n.0.tag == state.tag && orderly(
            n.0,
            requests_with(requests, n.1),
            inserts_with(inserts, n.1),
        ),
{
    let none = Seq::<ActionModel>::empty();
    match state.next(event) {
        Some(n) => {
            if state.stage == Stage::Decoding {
                if n.0.stage == Stage::Inserting {
                    lemma_plan_grows(n.0, 0);
                    assert(planned_inserts(n.0.tag, n.0.chunks, 0, 0) =~= none);
                    assert(none + seq![n.1] =~= seq![n.1]);
                } else if n.0.stage == Stage::Done {
                    assert(planned_inserts(n.0.tag, n.0.chunks, 0, 0) =~= none);
                }
            } else if state.stage == Stage::Inserting {
                if n.0.stage == Stage::Inserting {
                    lemma_plan_grows(n.0, n.0.inserted);
                }
            }
        },
        None => {},
    }
}

/// Every run is orderly, whatever is reported and in whatever order.
///
/// From the start of an ingestion on, the chunking request is asked for at
/// most once, and the inserts that are asked for are those of the first chunks
/// of the answer, one for each, in the order of the chunks.
pub proof fn lemma_every_run_is_orderly(
    store_id: Seq<char>,
    tag: Seq<char>,
    document: Seq<char>,
    endpoint: Option<Seq<char>>,
    events: Seq<EventModel>,
)
    ensures
        ({
            let start = IngestionModel::initial(store_id, tag, document, endpoint);
            let actions = actions_of(start, events);
            let end = state_after(start, events);
            &&& end.wf()
            &&& end.tag == tag
            &&& orderly(end, chunk_requests_in(actions).len(), inserts_in(actions))
            &&& chunk_requests_in(actions).len() <= 1
            &&& exists|count: nat|
                count <= end.chunks.len() && inserts_in(actions) == #[trigger] planned_inserts(
                    tag,
                    end.chunks,
                    0,
                    count,
                )
        }),
    decreases events.len(),
{
    let start = IngestionModel::initial(store_id, tag, document, endpoint);
    let actions = actions_of(start, events);
    let end = state_after(start, events);
    let is_insert = |a: ActionModel| a is Insert;
    let is_request = |a: ActionModel| a is SendChunkRequest;
    assert(end.wf() && end.tag == tag && orderly(
        end,
        chunk_requests_in(actions).len(),
        inserts_in(actions),
    )) by {
        if events.len() == 0 {
            lemma_filter_none(actions, is_insert);
            lemma_filter_none(actions, is_request);
        } else {
            let earlier = events.drop_last();
            let last = events.last();
            assert(events =~= earlier + seq![last]);
            lemma_every_run_is_orderly(store_id, tag, document, endpoint, earlier);
            lemma_run_split(start, earlier, seq![last]);
            let held = state_after(start, earlier);
            let asked = actions_of(start, earlier);
            lemma_run_step(held, last, Seq::<EventModel>::empty());
            assert(seq![last] + Seq::<EventModel>::empty() =~= seq![last]);
            lemma_step_keeps_order(
                held,
                chunk_requests_in(asked).len(),
                inserts_in(asked),
                last,
            );
            match held.next(last) {
                Some(n) => {
                    assert(actions =~= asked + seq![n.1]);
                    lemma_filter_push(asked, n.1, is_insert);
                    lemma_filter_push(asked, n.1, is_request);
                },
                None => {
                    assert(actions =~= asked);
                },
            }
        }
    }
    let count: nat = if end.stage == Stage::Inserting || (end.stage == Stage::Failed
        && end.chunks.len() > 0) {
        end.inserted + 1
    } else if end.stage == Stage::Done {
        end.inserted
    } else {
        0
    };
    assert(planned_inserts(tag, end.chunks, 0, 0) =~= Seq::<ActionModel>::empty());
    assert(count <= end.chunks.len() && inserts_in(actions) == planned_inserts(
        tag,
        end.chunks,
        0,
        count,
    ));
}

} // verus!
