//! The RPC server's decisions, apart from its I/O.
//!
//! The server reads stdin one line at a time and answers on stdout; it runs
//! one turn at a time. What it does with each line, each method and each
//! finished turn is decided here, on a [`ServerState`]: a second `prompt`
//! while a turn is in flight is refused as busy rather than queued, `abort`
//! with nothing running is a success that changes nothing, and the
//! completion of a turn that `abort` abandoned is discarded by its
//! generation. The caller reads and writes the streams, spawns the turn
//! and hands each outcome back.
use vstd::prelude::*;

use crate::prompt_templates::{expand_prompt_template, expand_spec, PromptTemplate};
use crate::rpc::{
    codes, describe_spec, model_ref_spec, names_model, resolve_model, JsonRpcError, RpcOutcome,
    SetModelParams,
};
use crate::text::{is_blank, push_str, trim};

verus! {

/// The handler a method name selects.
#[derive(Debug, Clone, Copy, PartialEq, Eq, Structural)]
pub enum Method {
    /// `prompt` — start a turn.
    Prompt,
    /// `abort` — abandon the turn in flight.
    Abort,
    /// `getState` / `get_state` — model, messages and session id.
    GetState,
    /// `setModel` / `set_model` — switch the model of the next turn.
    SetModel,
    /// Anything else: answered with `-32601`.
    Unknown,
}

/// The handler for a method name; both the camel-case and the snake-case
/// spellings of `getState` and `setModel` are accepted.
pub open spec fn method_spec(name: Seq<char>) -> Method {
    if name == "prompt"@ {
        Method::Prompt
    } else if name == "abort"@ {
        Method::Abort
    } else if name == "getState"@ || name == "get_state"@ {
        Method::GetState
    } else if name == "setModel"@ || name == "set_model"@ {
        Method::SetModel
    } else {
        Method::Unknown
    }
}

/// Dispatch a method name.
pub fn method_of(name: &str) -> (m: Method)
    ensures
        m == method_spec(name@),
{
    let n = String::from_str(name);
    if n == String::from_str("prompt") {
        Method::Prompt
    } else if n == String::from_str("abort") {
        Method::Abort
    } else if n == String::from_str("getState") || n == String::from_str("get_state") {
        Method::GetState
    } else if n == String::from_str("setModel") || n == String::from_str("set_model") {
        Method::SetModel
    } else {
        Method::Unknown
    }
}

/// The turn in flight.
#[derive(Debug, Clone, PartialEq)]
pub struct TurnSlot {
    /// Generation the turn was started under.
    pub generation: u64,
    /// Request id the turn's end is answered with; `None` for a `prompt`
    /// sent as a notification.
    pub request_id: Option<serde_json::Value>,
}

/// What the server remembers between lines.
#[derive(Debug, Clone, PartialEq)]
pub struct ServerState {
    /// Generation of the most recently started turn (0 before the first).
    pub generation: u64,
    /// The turn in flight, if any.
    pub current: Option<TurnSlot>,
    /// Non-blank stdin lines handled so far.
    pub requests: u64,
    /// Completed turns, turns ended by `abort` included.
    pub turns: u32,
}

/// Report of a finished turn, as the turn task sends it back.
#[derive(Debug, Clone, PartialEq)]
pub struct TurnReport {
    /// Generation the turn was started under.
    pub generation: u64,
    /// Turn number after the turn completed.
    pub turn: u32,
    /// Last stop reason seen on the event stream, as it is serialised.
    pub stop_reason: String,
    /// Set when the agent loop returned an error.
    pub error: Option<String>,
}

/// What `prompt` does.
#[derive(Debug, Clone, PartialEq)]
pub enum PromptStep {
    /// Refused with this error; no turn starts.
    Refused(JsonRpcError),
    /// A turn starts under `generation` with the (template-expanded) text.
    Started {
        /// The new turn's generation.
        generation: u64,
        /// The prompt to run, prompt templates expanded.
        text: String,
    },
}

/// What `abort` does.
#[derive(Debug, Clone, Copy, PartialEq, Eq, Structural)]
pub enum AbortStep {
    /// The turn in flight was abandoned; it counts as completed turn
    /// `turn`, announced with a `turn_end` event. Answer `{"aborted": true}`.
    Aborted {
        /// The abandoned turn's number.
        turn: u32,
    },
    /// Nothing was running. Answer `{"aborted": false}`.
    Idle,
}

/// What a finished turn leads to.
#[derive(Debug, PartialEq)]
pub enum DoneStep {
    /// The report belongs to a turn already abandoned; nothing changes.
    Ignored,
    /// The slot is free again and no response is owed.
    Released,
    /// The slot is free again; answer the `prompt` request `id` with the
    /// turn number and stop reason, or with the error.
    Reply {
        /// The id of the `prompt` request.
        id: serde_json::Value,
        /// `(turn, stop reason)`, or the `-32603` error.
        outcome: Result<(u32, String), JsonRpcError>,
    },
}

/// The in-flight turn, if any, is the one started last.
pub open spec fn well_formed(s: ServerState) -> bool {
    match s.current {
        Some(slot) => slot.generation == s.generation,
        None => true,
    }
}

/// Message of the error for a blank prompt.
pub open spec fn blank_prompt_message() -> Seq<char> {
    "prompt: \"text\" must be non-empty"@
}

/// Message of the busy error.
pub open spec fn busy_message() -> Seq<char> {
    "a turn is already in flight; wait for turn_end or send abort"@
}

/// Why `prompt` is refused, as `(code, message)`: a turn in flight first,
/// then params that did not decode (their decoder's message), then a
/// blank text.
pub open spec fn prompt_refusal(s: ServerState, parsed: Result<Seq<char>, Seq<char>>) -> Option<(i64, Seq<char>)> {
    if s.current is Some {
        Some((codes::BUSY, busy_message()))
    } else {
        match parsed {
            Err(m) => Some((codes::INVALID_PARAMS, "prompt: "@ + m)),
            Ok(t) => if trim(t).len() == 0 {
                Some((codes::INVALID_PARAMS, blank_prompt_message()))
            } else {
                None
            },
        }
    }
}

/// The state once a turn has started for request `id`.
pub open spec fn started(s: ServerState, id: Option<serde_json::Value>) -> ServerState {
    ServerState {
        generation: (s.generation + 1) as u64,
        current: Some(TurnSlot { generation: (s.generation + 1) as u64, request_id: id }),
        ..s
    }
}

/// The state after `abort`.
pub open spec fn abort_next(s: ServerState) -> ServerState {
    match s.current {
        Some(_) => ServerState { current: None, turns: (s.turns + 1) as u32, ..s },
        None => s,
    }
}

/// Whether a report belongs to the turn in flight.
pub open spec fn report_matches(s: ServerState, generation: u64) -> bool {
    match s.current {
        Some(slot) => slot.generation == generation,
        None => false,
    }
}

/// The state after a turn task finished: with no report (the task
/// vanished) the slot is freed; a report of the turn in flight frees it;
/// any other report changes nothing.
pub open spec fn finish_next(s: ServerState, report: Option<TurnReport>) -> ServerState {
    match report {
        None => ServerState { current: None, ..s },
        Some(f) => if report_matches(s, f.generation) {
            ServerState { current: None, ..s }
        } else {
            s
        },
    }
}

impl PromptStep {
    /// Whether this is a refusal with `code` and `message`.
    pub open spec fn refused_with(self, code: i64, message: Seq<char>) -> bool {
        match self {
            PromptStep::Refused(e) => e.code == code && e.message@ == message && e.data is None,
            _ => false,
        }
    }
}

impl ServerState {
    /// A server that has handled nothing.
    pub fn new() -> (s: Self)
        ensures
            s.generation == 0,
            s.current is None,
            s.requests == 0,
            s.turns == 0,
            well_formed(s),
    {
        ServerState { generation: 0, current: None, requests: 0, turns: 0 }
    }

    /// Count a stdin line: blank lines are skipped, any other one is
    /// handled and counted. Returns whether it is to be handled.
    pub fn count_line(&mut self, line: &str) -> (handled: bool)
        requires
            old(self).requests < u64::MAX,
        ensures
            handled == (trim(line@).len() > 0),
            *final(self) == (if handled {
                ServerState { requests: (old(self).requests + 1) as u64, ..*old(self) }
            } else {
                *old(self)
            }),
    {
        if is_blank(line) {
            false
        } else {
            self.requests = self.requests + 1;
            true
        }
    }

    /// Handle `prompt` for request `id` (`None` for a notification or a
    /// null id), its params decoded into the prompt text or refused with
    /// the decoder's message. A turn in flight refuses it as busy; so do
    /// undecodable params and a blank text, with `-32602`. Otherwise a new
    /// generation starts, with the text's prompt template expanded.
    pub fn begin_prompt(
        &mut self,
        id: Option<serde_json::Value>,
        parsed: Result<String, String>,
        templates: &[PromptTemplate],
    ) -> (r: PromptStep)
        requires
            old(self).generation < u64::MAX,
        ensures
            ({
                let pv = match parsed {
                    Ok(t) => Ok(t@),
                    Err(m) => Err(m@),
                };
                match prompt_refusal(*old(self), pv) {
                    Some((code, message)) => r.refused_with(code, message) && *final(self) == *old(
                        self,
                    ),
                    None => *final(self) == started(*old(self), id) && match r {
                        PromptStep::Started { generation, text } => {
                            &&& generation == old(self).generation + 1
                            &&& (parsed matches Ok(t) && text@ == expand_spec(t@, templates@))
                        },
                        _ => false,
                    },
                }
            }),
    {
        if self.current.is_some() {
            return PromptStep::Refused(JsonRpcError::busy());
        }
        let text = match parsed {
            Ok(t) => t,
            Err(m) => {
                let mut message = String::from_str("prompt: ");
                message.append(m.as_str());
                return PromptStep::Refused(JsonRpcError::invalid_params(message));
            },
        };
        if is_blank(text.as_str()) {
            return PromptStep::Refused(
                JsonRpcError::invalid_params(String::from_str("prompt: \"text\" must be non-empty")),
            );
        }
        self.generation = self.generation + 1;
        let generation = self.generation;
        self.current = Some(TurnSlot { generation, request_id: id });
        PromptStep::Started { generation, text: expand_prompt_template(text.as_str(), templates) }
    }

    /// Handle `abort`: abandon the turn in flight, counting it as a
    /// completed turn, or do nothing when none is running.
    pub fn abort(&mut self) -> (r: AbortStep)
        requires
            old(self).current is Some ==> old(self).turns < u32::MAX,
        ensures
            *final(self) == abort_next(*old(self)),
            r == match old(self).current {
                Some(_) => AbortStep::Aborted { turn: (old(self).turns + 1) as u32 },
                None => AbortStep::Idle,
            },
    {
        match self.current {
            Some(_) => {
                self.current = None;
                AbortStep::Aborted { turn: self.record_turn_end() }
            },
            None => AbortStep::Idle,
        }
    }

    /// Count a completed turn and return its number.
    pub fn record_turn_end(&mut self) -> (turn: u32)
        requires
            old(self).turns < u32::MAX,
        ensures
            turn == old(self).turns + 1,
            *final(self) == (ServerState { turns: turn, ..*old(self) }),
    {
        self.turns = self.turns + 1;
        self.turns
    }

    /// Handle the end of a turn task: `None` when the task vanished
    /// without a report. A report of an abandoned turn is ignored; one of
    /// the turn in flight frees the slot and, when the `prompt` was a
    /// request with an id, answers it.
    pub fn finish_turn(&mut self, report: Option<TurnReport>) -> (r: DoneStep)
        ensures
            *final(self) == finish_next(*old(self), report),
            match report {
                None => r is Released,
                Some(f) => if !report_matches(*old(self), f.generation) {
                    r is Ignored
                } else {
                    match old(self).current.unwrap().request_id {
                        None => r is Released,
                        Some(id) => match r {
                            DoneStep::Reply { id: rid, outcome } => rid == id && match f.error {
                                Some(m) => outcome matches Err(e) && e.code == codes::INTERNAL_ERROR
                                    && e.message@ == m@ && e.data is None,
                                None => outcome == Ok::<(u32, String), JsonRpcError>(
                                    (f.turn, f.stop_reason),
                                ),
                            },
                            _ => false,
                        },
                    }
                },
            },
    {
        let f = match report {
            None => {
                self.current = None;
                return DoneStep::Released;
            },
            Some(f) => f,
        };
        let matches = match &self.current {
            Some(slot) => slot.generation == f.generation,
            None => false,
        };
        if !matches {
            return DoneStep::Ignored;
        }
        let slot = self.current.take().unwrap();
        match slot.request_id {
            None => DoneStep::Released,
            Some(id) => {
                let outcome = match f.error {
                    Some(m) => Err(JsonRpcError::internal(m)),
                    None => Ok((f.turn, f.stop_reason)),
                };
                DoneStep::Reply { id, outcome }
            },
        }
    }

    /// What the session amounts to once stdin closed and the turn in
    /// flight, if any, has drained.
    pub fn outcome(&self) -> (r: RpcOutcome)
        ensures
            r.requests == self.requests,
            r.turns == self.turns,
    {
        RpcOutcome { requests: self.requests, turns: self.turns }
    }

    /// The generation to wait for after stdin closed, if a turn is in
    /// flight.
    pub fn in_flight(&self) -> (g: Option<u64>)
        ensures
            g == match self.current {
                Some(slot) => Some(slot.generation),
                None => None::<u64>,
            },
    {
        match &self.current {
            Some(slot) => Some(slot.generation),
            None => None,
        }
    }
}

/// The catalog entry `setModel` switches to, or the `-32602` error it is
/// answered with: params that did not decode carry their decoder's
/// message; a reference that names no entry is `unknown model`.
pub fn set_model_target(models: &[(String, String)], parsed: Result<SetModelParams, String>) -> (r: Result<usize, JsonRpcError>)
    ensures
        match parsed {
            Err(m) => r matches Err(e) && e.code == codes::INVALID_PARAMS && e.message@ == "setModel: "@ + m@
                && e.data is None,
            Ok(p) => match r {
                Ok(i) => {
                    &&& i < models.len()
                    &&& (model_ref_spec(p) matches Some(mr) && names_model(mr, models@[i as int])
                        && forall|j: int| 0 <= j < i ==> !names_model(mr, #[trigger] models@[j]))
                },
                Err(e) => e.code == codes::INVALID_PARAMS && e.message@ == "setModel: unknown model ("@
                    + describe_spec(p) + ")"@ && e.data is None && match model_ref_spec(p) {
                    None => true,
                    Some(mr) => forall|j: int| 0 <= j < models.len() ==> !names_model(mr, #[trigger] models@[j]),
                },
            },
        },
{
    match parsed {
        Err(m) => {
            let mut message = String::from_str("setModel: ");
            message.append(m.as_str());
            Err(JsonRpcError::invalid_params(message))
        },
        Ok(p) => match resolve_model(models, &p) {
            Some(i) => Ok(i),
            None => {
                let mut message = String::from_str("setModel: unknown model (");
                message.append(p.describe().as_str());
                push_str(&mut message, ")");
                Err(JsonRpcError::invalid_params(message))
            },
        },
    }
}

/// One turn at a time: once a `prompt` has started a turn, every further
/// `prompt` is refused as busy, whatever its params.
pub proof fn law_one_turn_at_a_time(
    s: ServerState,
    id: Option<serde_json::Value>,
    first: Result<Seq<char>, Seq<char>>,
    next: Result<Seq<char>, Seq<char>>,
)
    requires
        prompt_refusal(s, first) is None,
    ensures
        prompt_refusal(started(s, id), next) == Some((codes::BUSY, busy_message())),
{
}

/// `abort` is idempotent: after one `abort` nothing runs, and a second
/// one changes nothing.
pub proof fn law_abort_is_idempotent(s: ServerState)
    ensures
        abort_next(s).current is None,
        abort_next(abort_next(s)) == abort_next(s),
{
}

/// A turn abandoned by `abort` never answers: its report is ignored right
/// after the abort and still after a new turn has started.
pub proof fn law_abandoned_turn_never_answers(
    s: ServerState,
    first: Option<serde_json::Value>,
    second: Option<serde_json::Value>,
    report: TurnReport,
)
    requires
        s.generation < u64::MAX - 1,
        report.generation == s.generation + 1,
    ensures
        ({
            let aborted = abort_next(started(s, first));
            let restarted = started(aborted, second);
            &&& finish_next(aborted, Some(report)) == aborted
            &&& !report_matches(restarted, report.generation)
            &&& finish_next(restarted, Some(report)) == restarted
        }),
{
}

/// The report of the turn in flight frees the slot: the next non-blank
/// `prompt` starts a turn.
pub proof fn law_finished_turn_frees_the_slot(s: ServerState, report: TurnReport, text: Seq<char>)
    requires
        report_matches(s, report.generation),
        trim(text).len() > 0,
    ensures
        finish_next(s, Some(report)).current is None,
        prompt_refusal(finish_next(s, Some(report)), Ok(text)) is None,
{
}

/// Every step keeps the in-flight turn the one started last.
pub proof fn law_steps_keep_well_formed(s: ServerState, id: Option<serde_json::Value>, report: Option<TurnReport>)
    requires
        well_formed(s),
    ensures
        well_formed(started(s, id)),
        well_formed(abort_next(s)),
        well_formed(finish_next(s, report)),
{
}

} // verus!
