//! The ingestion of one document as a machine that is driven from outside.
//!
//! The machine decides; its driver acts. [`Ingestion::start`] and
//! [`Ingestion::step`] answer with the next [`Action`]; the driver performs it
//! and reports the outcome as an [`Event`]. One action is outstanding at a time,
//! so the calls happen strictly one after another: the handle, the client, one
//! chunking request, then one insert per chunk in the order of the chunks.

use vstd::prelude::*;
use crate::chunk::{chunk_models, copy_embedding, Chunk, ChunkModel};
use crate::chunking::{
    chunk_request, chunk_request_outcome, is_success, remote_failure, status_is_success,
    ChunkRequest, ChunkRequestModel,
};
use crate::error::{IngestError, IngestErrorModel};
use crate::payload::{format_chunk_text, record_text};
use crate::store_id::{principal_from_text, principal_parse, store_id_outcome, StoreId};

verus! {

/// Where an ingestion stands: which outcome it is waiting for, or how it ended.
#[derive(Clone, Copy, PartialEq, Eq, Structural, Debug)]
pub enum Stage {
    /// Waiting for the transport handle.
    ResolvingHandle,
    /// The identifier is valid; waiting for the client to be bound to it.
    BindingClient,
    /// The chunking request is out; waiting for the answer's status.
    Requesting,
    /// The answer's status is outside the success class; waiting for its body.
    ReadingErrorBody { status: u16 },
    /// The answer's status is a success; waiting for the decoded chunks.
    Decoding,
    /// An insert is out; waiting for the store's answer.
    Inserting,
    /// Every chunk has been inserted.
    Done,
    /// The ingestion has failed.
    Failed,
}

/// What the driver reports back after performing an action.
#[derive(Debug, PartialEq, Eq)]
pub enum Event {
    /// The transport handle was set up, or could not be.
    HandleResolved { outcome: Result<(), String> },
    /// The client is bound to the store.
    ClientBound,
    /// The chunking service answered with this status, or the request did not
    /// get through.
    ResponseStatus { status: Result<u16, String> },
    /// The body of an unsuccessful answer, or `None` where it could not be read.
    ErrorBody { body: Option<String> },
    /// The chunks decoded from a successful answer, or why it could not be decoded.
    Decoded { chunks: Result<Vec<Chunk>, String> },
    /// The store's answer to the outstanding insert.
    Inserted { outcome: Result<(), String> },
}

/// What an [`Event`] holds, as mathematical values.
pub ghost enum EventModel {
    HandleResolved { outcome: Result<(), Seq<char>> },
    ClientBound,
    ResponseStatus { status: Result<u16, Seq<char>> },
    ErrorBody { body: Option<Seq<char>> },
    Decoded { chunks: Result<Seq<ChunkModel>, Seq<char>> },
    Inserted { outcome: Result<(), Seq<char>> },
}

impl View for Event {
    type V = EventModel;

    open spec fn view(&self) -> EventModel {
        match *self {
            Event::HandleResolved { outcome } => EventModel::HandleResolved {
                outcome: match outcome {
                    Ok(_) => Ok(()),
                    Err(cause) => Err(cause@),
                },
            },
            Event::ClientBound => EventModel::ClientBound,
            Event::ResponseStatus { status } => EventModel::ResponseStatus {
                status: match status {
                    Ok(status) => Ok(status),
                    Err(cause) => Err(cause@),
                },
            },
            Event::ErrorBody { body } => EventModel::ErrorBody {
                body: match body {
                    Some(text) => Some(text@),
                    None => None,
                },
            },
            Event::Decoded { chunks } => EventModel::Decoded {
                chunks: match chunks {
                    Ok(chunks) => Ok(chunk_models(chunks@)),
                    Err(cause) => Err(cause@),
                },
            },
            Event::Inserted { outcome } => EventModel::Inserted {
                outcome: match outcome {
                    Ok(_) => Ok(()),
                    Err(cause) => Err(cause@),
                },
            },
        }
    }
}

/// What the driver is asked to do next.
#[derive(Debug, PartialEq, Eq)]
pub enum Action {
    /// Set up the transport handle.
    ResolveHandle,
    /// Bind a client to the store with this identifier.
    BindClient { store: StoreId },
    /// Send this request to the chunking service and report the answer's status.
    SendChunkRequest { request: ChunkRequest },
    /// Read the body of the unsuccessful answer.
    ReadErrorBody,
    /// Decode the chunks from the successful answer.
    DecodeChunks,
    /// Insert this embedding with this payload into the store.
    Insert { embedding: Vec<u32>, payload: String },
    /// Stop: the ingestion has ended, with the number of chunks inserted or
    /// with the first failure.
    Finish { outcome: Result<usize, IngestError> },
}

/// What an [`Action`] holds, as mathematical values.
pub ghost enum ActionModel {
    ResolveHandle,
    BindClient { store: Seq<u8> },
    SendChunkRequest { request: ChunkRequestModel },
    ReadErrorBody,
    DecodeChunks,
    Insert { embedding: Seq<u32>, payload: Seq<char> },
    Finish { outcome: Result<nat, IngestErrorModel> },
}

impl View for Action {
    type V = ActionModel;

    open spec fn view(&self) -> ActionModel {
        match *self {
            Action::ResolveHandle => ActionModel::ResolveHandle,
            Action::BindClient { store } => ActionModel::BindClient { store: store@ },
            Action::SendChunkRequest { request } => ActionModel::SendChunkRequest {
                request: request@,
            },
            Action::ReadErrorBody => ActionModel::ReadErrorBody,
            Action::DecodeChunks => ActionModel::DecodeChunks,
            Action::Insert { embedding, payload } => ActionModel::Insert {
                embedding: embedding@,
                payload: payload@,
            },
            Action::Finish { outcome } => ActionModel::Finish {
                outcome: match outcome {
                    Ok(count) => Ok(count as nat),
                    Err(e) => Err(e@),
                },
            },
        }
    }
}

/// The ingestion of one document into one store.
#[derive(Debug)]
pub struct Ingestion {
    store_id: String,
    tag: String,
    document: String,
    endpoint: Option<String>,
    stage: Stage,
    chunks: Vec<Chunk>,
    inserted: usize,
}

/// The state of an [`Ingestion`], as mathematical values.
pub ghost struct IngestionModel {
    /// The store identifier as the caller gave it.
    pub store_id: Seq<char>,
    /// The tag that every chunk of this ingestion carries.
    pub tag: Seq<char>,
    /// The document to ingest.
    pub document: Seq<char>,
    /// The configured base address of the chunking service, if any.
    pub endpoint: Option<Seq<char>>,
    pub stage: Stage,
    /// The chunks that the chunking service returned; empty before that.
    pub chunks: Seq<ChunkModel>,
    /// How many chunks the store has accepted so far.
    pub inserted: nat,
}

impl IngestionModel {
    /// The state's invariant: no more chunks are counted as inserted than there
    /// are, and while an insert is outstanding there is a chunk it belongs to.
    pub open spec fn wf(self) -> bool {
        &&& self.inserted <= self.chunks.len()
        &&& self.stage == Stage::Inserting ==> self.inserted < self.chunks.len()
    }

    /// The same state at another stage.
    pub open spec fn at(self, stage: Stage) -> IngestionModel {
        IngestionModel { stage, ..self }
    }

    /// The state in which an ingestion starts: the handle has been asked for.
    pub open spec fn initial(
        store_id: Seq<char>,
        tag: Seq<char>,
        document: Seq<char>,
        endpoint: Option<Seq<char>>,
    ) -> IngestionModel {
        IngestionModel {
            store_id,
            tag,
            document,
            endpoint,
            stage: Stage::ResolvingHandle,
            chunks: Seq::<ChunkModel>::empty(),
            inserted: 0,
        }
    }

    /// The insert for the chunk at `index`: its embedding, with the record of the
    /// tag and its sentence as payload.
    pub open spec fn insert_action(self, index: int) -> ActionModel {
        ActionModel::Insert {
            embedding: self.chunks[index].embedding,
            payload: record_text(self.tag, self.chunks[index].sentence),
        }
    }

    /// What comes once `inserted` of the chunks `chunks` are stored: the insert
    /// of the next chunk, or the end where none is left.
    pub open spec fn proceed(self, chunks: Seq<ChunkModel>, inserted: nat) -> (
        IngestionModel,
        ActionModel,
    ) {
        let held = IngestionModel { chunks, inserted, ..self };
        if inserted < chunks.len() {
            (held.at(Stage::Inserting), held.insert_action(inserted as int))
        } else {
            (held.at(Stage::Done), ActionModel::Finish { outcome: Ok(inserted) })
        }
    }

    /// The failure `e`: the ingestion ends with it.
    pub open spec fn fail(self, e: IngestErrorModel) -> (IngestionModel, ActionModel) {
        (self.at(Stage::Failed), ActionModel::Finish { outcome: Err(e) })
    }

    /// What follows once the transport handle is there, given what parsing the
    /// store identifier gave: the client is bound to the identifier, or the
    /// ingestion fails with the validation error.
    pub open spec fn after_handle(self, parsed: Result<Seq<u8>, Seq<char>>) -> (
        IngestionModel,
        ActionModel,
    ) {
        match store_id_outcome(self.store_id, parsed) {
            Ok(store) => (self.at(Stage::BindingClient), ActionModel::BindClient { store }),
            Err(e) => self.fail(e),
        }
    }

    /// The transition for `event`: the next state and the action to perform, or
    /// `None` where the state is not waiting for such an event.
    pub open spec fn next(self, event: EventModel) -> Option<(IngestionModel, ActionModel)> {
        match (self.stage, event) {
            (Stage::ResolvingHandle, EventModel::HandleResolved { outcome }) => match outcome {
                Ok(_) => Some(self.after_handle(principal_parse(self.store_id))),
                Err(cause) => Some(self.fail(IngestErrorModel::ConfigOrAuth { cause })),
            },
            (Stage::BindingClient, EventModel::ClientBound) => match chunk_request_outcome(
                self.endpoint,
                self.document,
            ) {
                Ok(request) => Some(
                    (self.at(Stage::Requesting), ActionModel::SendChunkRequest { request }),
                ),
                Err(e) => Some(self.fail(e)),
            },
            (Stage::Requesting, EventModel::ResponseStatus { status }) => match status {
                Ok(status) => if status_is_success(status) {
                    Some((self.at(Stage::Decoding), ActionModel::DecodeChunks))
                } else {
                    Some((self.at(Stage::ReadingErrorBody { status }), ActionModel::ReadErrorBody))
                },
                Err(cause) => Some(self.fail(IngestErrorModel::Transport { cause })),
            },
            (Stage::ReadingErrorBody { status }, EventModel::ErrorBody { body }) => Some(
                self.fail(
                    IngestErrorModel::Remote {
                        status,
                        body: match body {
                            Some(text) => text,
                            None => Seq::<char>::empty(),
                        },
                    },
                ),
            ),
            (Stage::Decoding, EventModel::Decoded { chunks }) => match chunks {
                Ok(chunks) => Some(self.proceed(chunks, 0)),
                Err(cause) => Some(self.fail(IngestErrorModel::Decode { cause })),
            },
            (Stage::Inserting, EventModel::Inserted { outcome }) => match outcome {
                Ok(_) => Some(self.proceed(self.chunks, self.inserted + 1)),
                Err(cause) => Some(
                    self.fail(IngestErrorModel::Insert { inserted: self.inserted, cause }),
                ),
            },
            _ => None,
        }
    }
}

impl View for Ingestion {
    type V = IngestionModel;

    closed spec fn view(&self) -> IngestionModel {
        IngestionModel {
            store_id: self.store_id@,
            tag: self.tag@,
            document: self.document@,
            endpoint: match self.endpoint {
                Some(base) => Some(base@),
                None => None,
            },
            stage: self.stage,
            chunks: chunk_models(self.chunks@),
            inserted: self.inserted as nat,
        }
    }
}

impl Ingestion {
    #[verifier::type_invariant]
    spec fn inv(self) -> bool {
        self@.wf()
    }

    /// Starts the ingestion of `document` under `tag` into the store addressed
    /// by `store_id`. `endpoint` is the configured base address of the chunking
    /// service, or `None` where none is configured.
    ///
    /// The first thing asked for is always the transport handle.
    pub fn start(store_id: String, tag: String, document: String, endpoint: Option<String>) -> (r:
        (Ingestion, Action))
        ensures
            r.0@ == IngestionModel::initial(
                store_id@,
                tag@,
                document@,
                match endpoint {
                    Some(base) => Some(base@),
                    None => None,
                },
            ),
            r.1@ == ActionModel::ResolveHandle,
            r.0@.wf(),
    {
        let machine = Ingestion {
            store_id,
            tag,
            document,
            endpoint,
            stage: Stage::ResolvingHandle,
            chunks: Vec::new(),
            inserted: 0,
        };
        assert(machine@.chunks =~= Seq::<ChunkModel>::empty());
        (machine, Action::ResolveHandle)
    }

    /// The stage at which the ingestion stands.
    pub fn stage(&self) -> (stage: Stage)
        ensures
            stage == self@.stage,
    {
        self.stage
    }

    /// The store identifier as the caller gave it.
    pub fn store_id(&self) -> (id: &str)
        ensures
            id@ == self@.store_id,
    {
        self.store_id.as_str()
    }

    /// The tag that every chunk of this ingestion carries.
    pub fn tag(&self) -> (tag: &str)
        ensures
            tag@ == self@.tag,
    {
        self.tag.as_str()
    }

    /// The number of chunks that the chunking service returned; zero before it
    /// has answered.
    pub fn chunk_count(&self) -> (count: usize)
        ensures
            count == self@.chunks.len(),
    {
        self.chunks.len()
    }

    /// The number of chunks that the store has accepted so far.
    pub fn inserted(&self) -> (count: usize)
        ensures
            count == self@.inserted,
    {
        self.inserted
    }

    /// Moves to `stage`, all else unchanged.
    fn at(self, stage: Stage) -> (r: Ingestion)
        requires
            self@.at(stage).wf(),
        ensures
            r@ == self@.at(stage),
    {
        Ingestion {
            store_id: self.store_id,
            tag: self.tag,
            document: self.document,
            endpoint: self.endpoint,
            stage,
            chunks: self.chunks,
            inserted: self.inserted,
        }
    }

    /// Ends the ingestion with the failure `e`.
    fn fail(self, e: IngestError) -> (r: (Ingestion, Action))
        ensures
            (r.0@, r.1@) == self@.fail(e@),
    {
        proof {
            use_type_invariant(&self);
        }
        (self.at(Stage::Failed), Action::Finish { outcome: Err(e) })
    }

    /// Holds `chunks`, of which `inserted` are stored, and asks for the insert of
    /// the next chunk, or ends the ingestion where every chunk is stored.
    fn proceed(
        store_id: String,
        tag: String,
        document: String,
        endpoint: Option<String>,
        chunks: Vec<Chunk>,
        inserted: usize,
    ) -> (r: (Ingestion, Action))
        requires
            inserted <= chunks.len(),
        ensures
            (r.0@, r.1@) == IngestionModel::initial(
                store_id@,
                tag@,
                document@,
                match endpoint {
                    Some(base) => Some(base@),
                    None => None,
                },
            ).proceed(chunk_models(chunks@), inserted as nat),
    {
        if inserted < chunks.len() {
            let chunk = &chunks[inserted];
            let embedding = copy_embedding(&chunk.embedding);
            let payload = format_chunk_text(tag.as_str(), chunk.sentence.as_str());
            let stage = Stage::Inserting;
            (
                Ingestion { store_id, tag, document, endpoint, stage, chunks, inserted },
                Action::Insert { embedding, payload },
            )
        } else {
            let stage = Stage::Done;
            (
                Ingestion { store_id, tag, document, endpoint, stage, chunks, inserted },
                Action::Finish { outcome: Ok(inserted) },
            )
        }
    }

    /// Continues once the transport handle is there, with what parsing the
    /// store identifier gave.
    fn after_handle(self, parsed: Result<Vec<u8>, String>) -> (r: (Ingestion, Action))
        ensures
            (r.0@, r.1@) == self@.after_handle(
                match parsed {
                    Ok(bytes) => Ok(bytes@),
                    Err(cause) => Err(cause@),
                },
            ),
    {
        proof {
            use_type_invariant(&self);
        }
        match StoreId::from_parsed(self.store_id.as_str(), parsed) {
            Ok(store) => (self.at(Stage::BindingClient), Action::BindClient { store }),
            Err(e) => self.fail(e),
        }
    }

    /// Takes the outcome of the outstanding action and answers with the next
    /// action to perform.
    ///
    /// The transition is that of [`IngestionModel::next`]. An event that the
    /// ingestion is not waiting for changes nothing and is answered with `None`;
    /// so is every event once the ingestion has ended.
    pub fn step(self, event: Event) -> (r: (Ingestion, Option<Action>))
        ensures
            self@.next(event@) matches Some(n) ==> r.0@ == n.0 && r.1 is Some && r.1->Some_0@
                == n.1,
            self@.next(event@) is None ==> r.0@ == self@ && r.1 is None,
            r.0@.wf(),
    {
        proof {
            use_type_invariant(&self);
        }
        let r = match (self.stage, event) {
            (Stage::ResolvingHandle, Event::HandleResolved { outcome }) => match outcome {
                Ok(_) => {
                    let parsed = principal_from_text(self.store_id.as_str());
                    let (machine, action) = self.after_handle(parsed);
                    (machine, Some(action))
                },
                Err(cause) => {
                    let (machine, action) = self.fail(IngestError::ConfigOrAuth { cause });
                    (machine, Some(action))
                },
            },
            (Stage::BindingClient, Event::ClientBound) => {
                let base = match &self.endpoint {
                    Some(text) => Some(text.as_str()),
                    None => None,
                };
                match chunk_request(base, self.document.as_str()) {
                    Ok(request) => (
                        self.at(Stage::Requesting),
                        Some(Action::SendChunkRequest { request }),
                    ),
                    Err(e) => {
                        let (machine, action) = self.fail(e);
                        (machine, Some(action))
                    },
                }
            },
            (Stage::Requesting, Event::ResponseStatus { status }) => match status {
                Ok(code) => if is_success(code) {
                    (self.at(Stage::Decoding), Some(Action::DecodeChunks))
                } else {
                    (self.at(Stage::ReadingErrorBody { status: code }), Some(Action::ReadErrorBody))
                },
                Err(cause) => {
                    let (machine, action) = self.fail(IngestError::Transport { cause });
                    (machine, Some(action))
                },
            },
            (Stage::ReadingErrorBody { status }, Event::ErrorBody { body }) => {
                let (machine, action) = self.fail(remote_failure(status, body));
                (machine, Some(action))
            },
            (Stage::Decoding, Event::Decoded { chunks }) => match chunks {
                Ok(list) => {
                    let Ingestion { store_id, tag, document, endpoint, .. } = self;
                    let (machine, action) = Ingestion::proceed(
                        store_id,
                        tag,
                        document,
                        endpoint,
                        list,
                        0,
                    );
                    (machine, Some(action))
                },
                Err(cause) => {
                    let (machine, action) = self.fail(IngestError::Decode { cause });
                    (machine, Some(action))
                },
            },
            (Stage::Inserting, Event::Inserted { outcome }) => match outcome {
                Ok(_) => {
                    assert(self@.stage == Stage::Inserting);
                    assert(self.inserted < self.chunks.len());
                    let Ingestion { store_id, tag, document, endpoint, chunks, inserted, .. } =
                        self;
                    let (machine, action) = Ingestion::proceed(
                        store_id,
                        tag,
                        document,
                        endpoint,
                        chunks,
                        inserted + 1,
                    );
                    (machine, Some(action))
                },
                Err(cause) => {
                    let inserted = self.inserted;
                    let (machine, action) = self.fail(IngestError::Insert { inserted, cause });
                    (machine, Some(action))
                },
            },
            _ => (self, None),
        };
        proof {
            use_type_invariant(&r.0);
        }
        r
    }
}

} // verus!
