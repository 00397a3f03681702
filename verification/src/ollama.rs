//! The consumer side of a text-generation endpoint: the request to send,
//! the course of one call as a state machine, and the reading of the answer.

use crate::http::{is_success, status_is_success};
use crate::json::{
    as_items, as_text, json_of_bytes, json_shape, json_shapes, member, parse_bytes, Json,
};
use crate::stream::{
    lemma_done_ignores, lemma_feed_concat, StreamModel, StreamParser, LINE_END,
};
use crate::text::{decode_lossy, texts, trim_end_matches, utf8_lossy, without_trailing};
use vstd::prelude::*;
use vstd::string::*;

verus! {

/// The longest a call may take, in seconds. A call that runs out of time
/// has failed; it is not tried again.
pub const REQUEST_TIMEOUT_SECS: u64 = 300;

/// What is posted to the endpoint.
#[derive(Debug, PartialEq, Eq)]
pub struct InferenceRequest {
    pub url: String,
    pub model: String,
    pub prompt: String,
    pub system: Option<String>,
    pub stream: bool,
    pub timeout_secs: u64,
}

/// Why a call failed.
#[derive(Debug, PartialEq, Eq)]
pub enum InferenceError {
    /// The connection failed, timed out or broke off.
    Transport { detail: String },
    /// The endpoint answered with a status outside 200 to 299.
    Status { code: u16, body: String },
    /// The answer is no JSON document.
    MalformedBody,
    /// The answer has no `response` string.
    MissingResponse,
    /// The answer has no `models` array.
    MissingModels,
}

/// An `InferenceError` as a mathematical value.
pub enum InferenceErrorModel {
    Transport { detail: Seq<char> },
    Status { code: u16, body: Seq<char> },
    MalformedBody,
    MissingResponse,
    MissingModels,
}

impl View for InferenceError {
    type V = InferenceErrorModel;

    open spec fn view(&self) -> InferenceErrorModel {
        match self {
            InferenceError::Transport { detail } => InferenceErrorModel::Transport {
                detail: detail@,
            },
            InferenceError::Status { code, body } => InferenceErrorModel::Status {
                code: *code,
                body: body@,
            },
            InferenceError::MalformedBody => InferenceErrorModel::MalformedBody,
            InferenceError::MissingResponse => InferenceErrorModel::MissingResponse,
            InferenceError::MissingModels => InferenceErrorModel::MissingModels,
        }
    }
}

impl InferenceErrorModel {
    /// A protocol error: the endpoint answered, but not as agreed.
    pub open spec fn is_protocol(self) -> bool {
        !(self is Transport)
    }
}

impl InferenceError {
    /// Whether the endpoint could not be reached or the connection broke.
    pub fn is_transport(&self) -> (b: bool)
        ensures
            b == (self@ is Transport),
    {
        match self {
            InferenceError::Transport { .. } => true,
            _ => false,
        }
    }

    /// Whether the endpoint answered, but not as agreed.
    pub fn is_protocol(&self) -> (b: bool)
        ensures
            b == self@.is_protocol(),
    {
        !self.is_transport()
    }
}

/// The model of the result of a call.
pub open spec fn outcome(
    result: Result<String, InferenceError>,
) -> Result<Seq<char>, InferenceErrorModel> {
    match result {
        Ok(text) => Ok(text@),
        Err(error) => Err(error@),
    }
}

/// The answer that a document gives: its `response` string.
pub open spec fn response_of(doc: Json) -> Result<Seq<char>, InferenceErrorModel> {
    match doc.member("response"@).as_text() {
        Some(text) => Ok(text),
        None => Err(InferenceErrorModel::MissingResponse),
    }
}

/// The answer that a whole body gives.
pub open spec fn response_of_body(body: Seq<u8>) -> Result<Seq<char>, InferenceErrorModel> {
    match json_of_bytes(body) {
        Some(doc) => response_of(doc),
        None => Err(InferenceErrorModel::MalformedBody),
    }
}

/// Reads the answer out of a parsed body.
pub fn read_response(doc: &serde_json::Value) -> (result: Result<String, InferenceError>)
    ensures
        outcome(result) == response_of(json_shape(*doc)),
{
    match as_text(member(doc, "response")) {
        Some(text) => Ok(String::from_str(text)),
        None => Err(InferenceError::MissingResponse),
    }
}

/// Reads the answer out of a body that arrived whole.
pub fn parse_response(body: &[u8]) -> (result: Result<String, InferenceError>)
    ensures
        outcome(result) == response_of_body(body@),
{
    match parse_bytes(body) {
        Ok(doc) => read_response(&doc),
        Err(_) => Err(InferenceError::MalformedBody),
    }
}

/// Where a call stands.
#[derive(Clone, Copy, Debug, PartialEq, Eq, Structural)]
pub enum CallPhase {
    /// The request is out; no status has come back.
    AwaitingStatus,
    /// The status was a success and the answer arrives whole.
    ReadingBody,
    /// The status was a failure; its body is read for the report.
    ReadingErrorBody(u16),
    /// The status was a success and the answer arrives in chunks.
    Draining,
    /// The call has ended.
    Done,
}

/// What the transport reports.
#[derive(Debug, PartialEq, Eq)]
pub enum CallEvent {
    /// The status line arrived.
    Status(u16),
    /// The whole body arrived.
    Body(Vec<u8>),
    /// One chunk of the body arrived.
    Chunk(Vec<u8>),
    /// The body has run out.
    End,
    /// The transport failed or timed out.
    Failure(String),
}

/// A `CallEvent` as a mathematical value.
pub enum CallEventModel {
    Status(u16),
    Body(Seq<u8>),
    Chunk(Seq<u8>),
    End,
    Failure(Seq<char>),
}

impl View for CallEvent {
    type V = CallEventModel;

    open spec fn view(&self) -> CallEventModel {
        match self {
            CallEvent::Status(code) => CallEventModel::Status(*code),
            CallEvent::Body(bytes) => CallEventModel::Body(bytes@),
            CallEvent::Chunk(bytes) => CallEventModel::Chunk(bytes@),
            CallEvent::End => CallEventModel::End,
            CallEvent::Failure(detail) => CallEventModel::Failure(detail@),
        }
    }
}

/// What the caller does next.
#[derive(Debug, PartialEq, Eq)]
pub enum CallNext {
    /// Read the whole body and report it.
    ReadBody,
    /// Read the next chunk and report it, or the end of the body.
    ReadChunk,
    /// Stop: this is the result of the call.
    Finish(Result<String, InferenceError>),
    /// The event did not fit the state of the call; nothing has changed.
    Idle,
}

/// A `CallNext` as a mathematical value.
pub enum CallNextModel {
    ReadBody,
    ReadChunk,
    Finish(Result<Seq<char>, InferenceErrorModel>),
    Idle,
}

impl View for CallNext {
    type V = CallNextModel;

    open spec fn view(&self) -> CallNextModel {
        match self {
            CallNext::ReadBody => CallNextModel::ReadBody,
            CallNext::ReadChunk => CallNextModel::ReadChunk,
            CallNext::Finish(result) => CallNextModel::Finish(outcome(*result)),
            CallNext::Idle => CallNextModel::Idle,
        }
    }
}

/// The answer to one event: the tokens to deliver, in order, and what to
/// do after that.
#[derive(Debug, PartialEq, Eq)]
pub struct CallStep {
    pub tokens: Vec<String>,
    pub next: CallNext,
}

/// A `CallStep` as a mathematical value.
pub struct CallStepModel {
    pub tokens: Seq<Seq<char>>,
    pub next: CallNextModel,
}

impl View for CallStep {
    type V = CallStepModel;

    open spec fn view(&self) -> CallStepModel {
        CallStepModel { tokens: texts(self.tokens@), next: self.next@ }
    }
}

/// The state of one call.
pub struct CallModel {
    pub phase: CallPhase,
    pub streaming: bool,
    pub stream: StreamModel,
}

impl CallModel {
    /// A call whose request has just been sent.
    pub open spec fn start(streaming: bool) -> CallModel {
        CallModel { phase: CallPhase::AwaitingStatus, streaming, stream: StreamModel::start() }
    }

    /// The call in another phase.
    pub open spec fn at(self, phase: CallPhase) -> CallModel {
        CallModel { phase, streaming: self.streaming, stream: self.stream }
    }

    /// The call once its result is out.
    pub open spec fn ended(self, stream: StreamModel) -> CallModel {
        CallModel { phase: CallPhase::Done, streaming: self.streaming, stream }
    }

    /// The call after an event.
    pub open spec fn after(self, event: CallEventModel) -> CallModel {
        match (self.phase, event) {
            (CallPhase::AwaitingStatus, CallEventModel::Status(code)) => if !is_success(code) {
                self.at(CallPhase::ReadingErrorBody(code))
            } else if self.streaming {
                self.at(CallPhase::Draining)
            } else {
                self.at(CallPhase::ReadingBody)
            },
            (CallPhase::Draining, CallEventModel::Chunk(bytes)) => {
                let stream = self.stream.feed(bytes);
                if stream.done {
                    self.ended(stream)
                } else {
                    CallModel { phase: self.phase, streaming: self.streaming, stream }
                }
            },
            (CallPhase::Draining, CallEventModel::End) => self.ended(self.stream.finish()),
            (CallPhase::ReadingBody, CallEventModel::Body(_)) => self.at(CallPhase::Done),
            (CallPhase::ReadingErrorBody(_), CallEventModel::Body(_)) => self.at(CallPhase::Done),
            (CallPhase::Done, _) => self,
            (_, CallEventModel::Failure(_)) => self.at(CallPhase::Done),
            _ => self,
        }
    }

    /// What the call asks for in answer to an event.
    pub open spec fn answer(self, event: CallEventModel) -> CallStepModel {
        let none = Seq::<Seq<char>>::empty();
        match (self.phase, event) {
            (CallPhase::AwaitingStatus, CallEventModel::Status(code)) => CallStepModel {
                tokens: none,
                next: if is_success(code) && self.streaming {
                    CallNextModel::ReadChunk
                } else {
                    CallNextModel::ReadBody
                },
            },
            (CallPhase::Draining, CallEventModel::Chunk(bytes)) => {
                let stream = self.stream.feed(bytes);
                CallStepModel {
                    tokens: self.stream.tokens(bytes),
                    next: if stream.done {
                        CallNextModel::Finish(Ok(stream.text))
                    } else {
                        CallNextModel::ReadChunk
                    },
                }
            },
            (CallPhase::Draining, CallEventModel::End) => CallStepModel {
                tokens: self.stream.step_tokens(LINE_END),
                next: CallNextModel::Finish(Ok(self.stream.finish().text)),
            },
            (CallPhase::ReadingBody, CallEventModel::Body(bytes)) => CallStepModel {
                tokens: none,
                next: CallNextModel::Finish(response_of_body(bytes)),
            },
            (CallPhase::ReadingErrorBody(code), CallEventModel::Body(bytes)) => CallStepModel {
                tokens: none,
                next: CallNextModel::Finish(
                    Err(InferenceErrorModel::Status { code, body: utf8_lossy(bytes) }),
                ),
            },
            (CallPhase::Done, _) => CallStepModel { tokens: none, next: CallNextModel::Idle },
            (CallPhase::ReadingErrorBody(code), CallEventModel::Failure(_)) => CallStepModel {
                tokens: none,
                next: CallNextModel::Finish(
                    Err(InferenceErrorModel::Status { code, body: Seq::empty() }),
                ),
            },
            (_, CallEventModel::Failure(detail)) => CallStepModel {
                tokens: none,
                next: CallNextModel::Finish(Err(InferenceErrorModel::Transport { detail })),
            },
            _ => CallStepModel { tokens: none, next: CallNextModel::Idle },
        }
    }
}

/// One call to the endpoint, driven by what the transport reports.
pub struct InferenceCall {
    phase: CallPhase,
    streaming: bool,
    parser: StreamParser,
}

impl View for InferenceCall {
    type V = CallModel;

    closed spec fn view(&self) -> CallModel {
        CallModel { phase: self.phase, streaming: self.streaming, stream: self.parser@ }
    }
}

impl InferenceCall {
    /// Where the call stands.
    pub fn phase(&self) -> (phase: CallPhase)
        ensures
            phase == self@.phase,
    {
        self.phase
    }

    /// The text gathered from the stream so far.
    pub fn text(&self) -> (text: &String)
        ensures
            text@ == self@.stream.text,
    {
        self.parser.text()
    }

    /// Takes what the transport reports and says what to do next. An event
    /// that does not fit the phase changes nothing and is answered `Idle`.
    pub fn step(&mut self, event: CallEvent) -> (step: CallStep)
        ensures
            final(self)@ == old(self)@.after(event@),
            step@ == old(self)@.answer(event@),
    {
        let mut tokens: Vec<String> = Vec::new();
        assert(texts(tokens@) =~= Seq::<Seq<char>>::empty());
        let phase = self.phase;
        let next = match phase {
            CallPhase::Done => CallNext::Idle,
            CallPhase::AwaitingStatus => match event {
                CallEvent::Status(code) => {
                    if !status_is_success(code) {
                        self.phase = CallPhase::ReadingErrorBody(code);
                        CallNext::ReadBody
                    } else if self.streaming {
                        self.phase = CallPhase::Draining;
                        CallNext::ReadChunk
                    } else {
                        self.phase = CallPhase::ReadingBody;
                        CallNext::ReadBody
                    }
                },
                CallEvent::Failure(detail) => {
                    self.phase = CallPhase::Done;
                    CallNext::Finish(Err(InferenceError::Transport { detail }))
                },
                _ => CallNext::Idle,
            },
            CallPhase::ReadingBody => match event {
                CallEvent::Body(bytes) => {
                    self.phase = CallPhase::Done;
                    CallNext::Finish(parse_response(bytes.as_slice()))
                },
                CallEvent::Failure(detail) => {
                    self.phase = CallPhase::Done;
                    CallNext::Finish(Err(InferenceError::Transport { detail }))
                },
                _ => CallNext::Idle,
            },
            CallPhase::ReadingErrorBody(code) => match event {
                CallEvent::Body(bytes) => {
                    self.phase = CallPhase::Done;
                    let body = decode_lossy(bytes.as_slice());
                    CallNext::Finish(Err(InferenceError::Status { code, body }))
                },
                CallEvent::Failure(_) => {
                    self.phase = CallPhase::Done;
                    CallNext::Finish(Err(InferenceError::Status { code, body: String::new() }))
                },
                _ => CallNext::Idle,
            },
            CallPhase::Draining => match event {
                CallEvent::Chunk(bytes) => {
                    tokens = self.parser.feed(bytes.as_slice());
                    if self.parser.is_done() {
                        self.phase = CallPhase::Done;
                        CallNext::Finish(Ok(self.parser.text().clone()))
                    } else {
                        CallNext::ReadChunk
                    }
                },
                CallEvent::End => {
                    tokens = self.parser.finish();
                    self.phase = CallPhase::Done;
                    CallNext::Finish(Ok(self.parser.text().clone()))
                },
                CallEvent::Failure(detail) => {
                    self.phase = CallPhase::Done;
                    CallNext::Finish(Err(InferenceError::Transport { detail }))
                },
                _ => CallNext::Idle,
            },
        };
        CallStep { tokens, next }
    }
}

/// The request that a call sends. The answer is streamed exactly when
/// `streaming` is set.
pub open spec fn request_for(
    request: InferenceRequest,
    model: Seq<char>,
    url: Seq<char>,
    prompt: Seq<char>,
    system: Option<Seq<char>>,
    streaming: bool,
) -> bool {
    &&& request.url@ == url
    &&& request.model@ == model
    &&& request.prompt@ == prompt
    &&& request.stream == streaming
    &&& request.timeout_secs == REQUEST_TIMEOUT_SECS
    &&& match system {
        Some(text) => request.system is Some && request.system->0@ == text,
        None => request.system is None,
    }
}

/// Opens a call: returns the request to post and the state that awaits
/// its status. With `streaming` the answer is read in chunks and its tokens
/// are handed out as their lines end; without, it is read whole.
pub fn call_ollama(
    model: &str,
    url: &str,
    prompt: &str,
    system: Option<&String>,
    streaming: bool,
) -> (opened: (InferenceCall, InferenceRequest))
    ensures
        opened.0@ == CallModel::start(streaming),
        request_for(
            opened.1,
            model@,
            url@,
            prompt@,
            match system {
                Some(text) => Some(text@),
                None => None,
            },
            streaming,
        ),
{
    let request = InferenceRequest {
        url: String::from_str(url),
        model: String::from_str(model),
        prompt: String::from_str(prompt),
        system: match system {
            Some(text) => Some(text.clone()),
            None => None,
        },
        stream: streaming,
        timeout_secs: REQUEST_TIMEOUT_SECS,
    };
    let call = InferenceCall {
        phase: CallPhase::AwaitingStatus,
        streaming,
        parser: StreamParser::new(),
    };
    (call, request)
}

/// The address that lists the models of the server at `base`.
pub open spec fn models_url_of(base: Seq<char>) -> Seq<char> {
    without_trailing(base, '/') + "/api/tags"@
}

/// Builds the address that lists the models of the server at `base_url`.
pub fn models_url(base_url: &str) -> (url: String)
    ensures
        url@ == models_url_of(base_url@),
{
    let mut url = String::from_str(trim_end_matches(base_url, '/'));
    url.append("/api/tags");
    url
}

/// The names in a list of model entries: the `name` string of each entry
/// that has one, in the order of the entries.
pub open spec fn model_names(entries: Seq<Json>) -> Seq<Seq<char>>
    decreases entries.len(),
{
    if entries.len() == 0 {
        Seq::empty()
    } else {
        let rest = model_names(entries.drop_last());
        match entries.last().member("name"@).as_text() {
            Some(name) => rest.push(name),
            None => rest,
        }
    }
}

/// The model names that a document lists under `models`.
pub open spec fn models_of(doc: Json) -> Result<Seq<Seq<char>>, InferenceErrorModel> {
    match doc.member("models"@).as_items() {
        Some(entries) => Ok(model_names(entries)),
        None => Err(InferenceErrorModel::MissingModels),
    }
}

/// The model names that an answer to a listing request gives.
pub open spec fn models_of_answer(
    status: u16,
    body: Seq<u8>,
) -> Result<Seq<Seq<char>>, InferenceErrorModel> {
    if !is_success(status) {
        Err(InferenceErrorModel::Status { code: status, body: utf8_lossy(body) })
    } else {
        match json_of_bytes(body) {
            Some(doc) => models_of(doc),
            None => Err(InferenceErrorModel::MalformedBody),
        }
    }
}

/// The model of the result of a listing.
pub open spec fn listing(
    result: Result<Vec<String>, InferenceError>,
) -> Result<Seq<Seq<char>>, InferenceErrorModel> {
    match result {
        Ok(names) => Ok(texts(names@)),
        Err(error) => Err(error@),
    }
}

/// Reads the model names out of a parsed listing.
pub fn read_models(doc: &serde_json::Value) -> (result: Result<Vec<String>, InferenceError>)
    ensures
        listing(result) == models_of(json_shape(*doc)),
{
    match as_items(member(doc, "models")) {
        Some(entries) => {
            let mut names: Vec<String> = Vec::new();
            let mut i: usize = 0;
            let ghost shapes = json_shapes(entries@);
            while i < entries.len()
                invariant
                    i <= entries.len(),
                    shapes == json_shapes(entries@),
                    texts(names@) == model_names(shapes.take(i as int)),
                decreases entries.len() - i,
            {
                assert(shapes.take(i + 1).drop_last() =~= shapes.take(i as int));
                if let Some(name) = as_text(member(&entries[i], "name")) {
                    names.push(String::from_str(name));
                }
                i = i + 1;
            }
            assert(shapes.take(i as int) =~= shapes);
            Ok(names)
        },
        None => Err(InferenceError::MissingModels),
    }
}

/// Reads the answer to a listing request: the status it came with and its
/// body.
pub fn list_ollama_models(status: u16, body: &[u8]) -> (result: Result<Vec<String>, InferenceError>)
    ensures
        listing(result) == models_of_answer(status, body@),
{
    if !status_is_success(status) {
        return Err(InferenceError::Status { code: status, body: decode_lossy(body) });
    }
    match parse_bytes(body) {
        Ok(doc) => read_models(&doc),
        Err(_) => Err(InferenceError::MalformedBody),
    }
}

/// A call that reads a stream gives the same tokens and comes to the same
/// state whether bytes arrive as two chunks or as one.
pub proof fn lemma_call_chunking_is_immaterial(call: CallModel, first: Seq<u8>, second: Seq<u8>)
    requires
        call.phase == CallPhase::Draining,
    ensures
        call.after(CallEventModel::Chunk(first)).after(CallEventModel::Chunk(second)) == call.after(
            CallEventModel::Chunk(first + second),
        ),
        call.answer(CallEventModel::Chunk(first)).tokens + call.after(
            CallEventModel::Chunk(first),
        ).answer(CallEventModel::Chunk(second)).tokens == call.answer(
            CallEventModel::Chunk(first + second),
        ).tokens,
{
    lemma_feed_concat(call.stream, first, second);
    let mid = call.stream.feed(first);
    if mid.done {
        lemma_done_ignores(mid, second);
    }
}

} // verus!
