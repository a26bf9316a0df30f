//! Print mode (`pi -p`): the output formats, the error surface and its
//! exit codes, the `/name args` extension-command prompt, the turn and
//! output bookkeeping of one run, how a run ends and how an agent error is
//! reported, and the session naming.
//!
//! Driving the agent, streaming to stdout and watching signals is the
//! caller's loop; it reports each event here and acts on the answers.
use vstd::prelude::*;

use crate::paths::{join, join_path};
use crate::text::{
    chars_of, equals_lit, digits, is_whitespace, push_decimal, push_hex_u128, push_str, string_of,
    trim, trim_bounds,
};

verus! {

/// Output formats for print mode.
#[derive(Debug, Default, Clone, Copy, PartialEq, Eq)]
pub enum OutputFormat {
    /// Stream the final reply text on stdout (default).
    #[default]
    Text,
    /// Emit one JSON object at the end of the turn.
    Json,
    /// Stream NDJSON events on stdout (one JSON object per line).
    JsonEvents,
}

/// The command-line spelling of a format.
pub open spec fn format_name(f: OutputFormat) -> Seq<char> {
    match f {
        OutputFormat::Text => "text"@,
        OutputFormat::Json => "json"@,
        OutputFormat::JsonEvents => "json-events"@,
    }
}

impl OutputFormat {
    /// The command-line spelling of this format.
    pub fn as_str(&self) -> (r: &'static str)
        ensures
            r@ == format_name(*self),
    {
        match self {
            OutputFormat::Text => "text",
            OutputFormat::Json => "json",
            OutputFormat::JsonEvents => "json-events",
        }
    }

    /// The format spelled `name` on the command line.
    pub fn from_name(name: &str) -> (r: Option<OutputFormat>)
        ensures
            match r {
                Some(f) => format_name(f) == name@,
                None => name@ != "text"@ && name@ != "json"@ && name@ != "json-events"@,
            },
    {
        let v = chars_of(name);
        if equals_lit(&v, "text") {
            Some(OutputFormat::Text)
        } else if equals_lit(&v, "json") {
            Some(OutputFormat::Json)
        } else if equals_lit(&v, "json-events") {
            Some(OutputFormat::JsonEvents)
        } else {
            None
        }
    }

    /// The command-line spelling of this format, owned.
    pub fn to_string(&self) -> (r: String)
        ensures
            r@ == format_name(*self),
    {
        String::from_str(self.as_str())
    }
}

/// Errors that abort print mode.
#[derive(Debug, Clone, PartialEq, Eq)]
pub enum PrintModeError {
    /// `@file` expansion failed: the expansion error's message and exit
    /// code.
    File {
        /// What went wrong.
        message: String,
        /// The expansion error's own exit code.
        exit_code: u8,
    },
    /// Failed to build the agent (missing model, bad stream fn, ...).
    AgentSetup(String),
    /// Agent turn raised a stream / tool / provider error.
    Agent(String),
    /// User interrupted with `Ctrl+C`.
    Interrupted,
    /// User sent `SIGTERM`.
    Terminated,
    /// `--max-turns` was exceeded.
    MaxTurnsExceeded {
        /// Limit that was hit.
        max: u32,
    },
    /// Failed to open / write the session log.
    Session(String),
    /// stdout I/O failure.
    Stdout(String),
}

/// The sysexits-style exit code of each failure.
pub open spec fn print_exit_code(e: PrintModeError) -> u8 {
    match e {
        PrintModeError::File { exit_code, .. } => exit_code,
        PrintModeError::AgentSetup(_) => 78,
        PrintModeError::Agent(_) => 70,
        PrintModeError::Interrupted => 130,
        PrintModeError::Terminated => 143,
        PrintModeError::MaxTurnsExceeded { .. } => 1,
        PrintModeError::Session(_) => 70,
        PrintModeError::Stdout(_) => 74,
    }
}

/// The message of each failure.
pub open spec fn print_error_message(e: PrintModeError) -> Seq<char> {
    match e {
        PrintModeError::File { message, .. } => message@,
        PrintModeError::AgentSetup(m) => "agent setup failed: "@ + m@,
        PrintModeError::Agent(m) => "agent error: "@ + m@,
        PrintModeError::Interrupted => "interrupted"@,
        PrintModeError::Terminated => "terminated"@,
        PrintModeError::MaxTurnsExceeded { max } => "max turns exceeded ("@ + crate::text::decimal(
            max as nat,
        ) + ")"@,
        PrintModeError::Session(m) => "session log: "@ + m@,
        PrintModeError::Stdout(m) => "stdout: "@ + m@,
    }
}

/// `<prefix><s>`.
fn prefixed(prefix: &str, s: &str) -> (r: String)
    ensures
        r@ == prefix@ + s@,
{
    let mut out = String::from_str(prefix);
    out.append(s);
    out
}

impl PrintModeError {
    /// sysexits-style exit code for this error.
    pub fn exit_code(&self) -> (r: u8)
        ensures
            r == print_exit_code(*self),
    {
        match self {
            PrintModeError::File { exit_code, .. } => *exit_code,
            PrintModeError::AgentSetup(_) => 78,
            PrintModeError::Agent(_) => 70,
            PrintModeError::Interrupted => 130,
            PrintModeError::Terminated => 143,
            PrintModeError::MaxTurnsExceeded { .. } => 1,
            PrintModeError::Session(_) => 70,
            PrintModeError::Stdout(_) => 74,
        }
    }

    /// The message printed for this error.
    pub fn message(&self) -> (r: String)
        ensures
            r@ == print_error_message(*self),
    {
        match self {
            PrintModeError::File { message, .. } => message.clone(),
            PrintModeError::AgentSetup(m) => prefixed("agent setup failed: ", m.as_str()),
            PrintModeError::Agent(m) => prefixed("agent error: ", m.as_str()),
            PrintModeError::Interrupted => String::from_str("interrupted"),
            PrintModeError::Terminated => String::from_str("terminated"),
            PrintModeError::MaxTurnsExceeded { max } => {
                let mut out = String::from_str("max turns exceeded (");
                push_decimal(&mut out, *max as u64);
                push_str(&mut out, ")");
                out
            },
            PrintModeError::Session(m) => prefixed("session log: ", m.as_str()),
            PrintModeError::Stdout(m) => prefixed("stdout: ", m.as_str()),
        }
    }
}

/// A run refuses a prompt that is blank once files and stdin are
/// expanded.
pub fn check_prompt(prompt: &str) -> (r: Result<(), PrintModeError>)
    ensures
        r is Ok <==> trim(prompt@).len() > 0,
        r matches Err(PrintModeError::AgentSetup(m)) ==> m@
            == "prompt is empty after file/stdin expansion"@,
        r is Err ==> r matches Err(PrintModeError::AgentSetup(_)),
{
    if crate::text::is_blank(prompt) {
        Err(PrintModeError::AgentSetup(String::from_str("prompt is empty after file/stdin expansion")))
    } else {
        Ok(())
    }
}

// ---------------------------------------------------------------------------
// Extension commands
// ---------------------------------------------------------------------------

/// Index of the first whitespace character at or after `i`, or the end.
pub open spec fn ws_index_from(s: Seq<char>, i: int) -> int
    decreases s.len() - i,
{
    if i < 0 || i >= s.len() {
        s.len() as int
    } else if crate::text::is_ws(s[i]) {
        i
    } else {
        ws_index_from(s, i + 1)
    }
}

/// A prompt that is exactly `/name args`: the name and the trimmed
/// arguments. A name that is empty or holds `/` (a path) is not one.
pub open spec fn command_invocation_spec(prompt: Seq<char>) -> Option<(Seq<char>, Seq<char>)> {
    let t = trim(prompt);
    if !(t.len() > 0 && t[0] == '/') {
        None
    } else {
        let rest = t.skip(1);
        let k = ws_index_from(rest, 0);
        let name = rest.subrange(0, k);
        let args = if k < rest.len() {
            trim(rest.subrange(k, rest.len() as int))
        } else {
            Seq::empty()
        };
        if name.len() == 0 || name.contains('/') {
            None
        } else {
            Some((name, args))
        }
    }
}

proof fn lemma_ws_index(s: Seq<char>, i: int)
    requires
        0 <= i <= s.len(),
    ensures
        i <= ws_index_from(s, i) <= s.len(),
    decreases s.len() - i,
{
    if i < s.len() && !crate::text::is_ws(s[i]) {
        lemma_ws_index(s, i + 1);
    }
}

/// Parse a prompt that is exactly `/name args` into its parts.
///
/// Returns `None` for anything that is not a lone slash-command prompt
/// (plain text, an empty name, a path-like `/usr/bin`).
pub fn extension_command_invocation(prompt: &str) -> (r: Option<(String, String)>)
    ensures
        match r {
            Some((n, a)) => command_invocation_spec(prompt@) == Some((n@, a@)),
            None => command_invocation_spec(prompt@) is None,
        },
{
    let v = chars_of(prompt);
    let (lo, hi) = trim_bounds(&v);
    let t = crate::text::sub_vec(&v, lo, hi);
    if !(t.len() > 0 && t[0] == '/') {
        return None;
    }
    let rest = crate::text::sub_vec(&t, 1, t.len());
    assert(rest@ =~= t@.skip(1));
    let mut k: usize = 0;
    while k < rest.len() && !is_whitespace(rest[k])
        invariant
            k <= rest.len(),
            ws_index_from(rest@, k as int) == ws_index_from(rest@, 0),
        decreases rest.len() - k,
    {
        k += 1;
    }
    proof {
        lemma_ws_index(rest@, 0);
    }
    let name = string_of(&rest, 0, k);
    if k == 0 || crate::text::contains_char_exec(&crate::text::sub_vec(&rest, 0, k), '/') {
        return None;
    }
    let args = if k < rest.len() {
        let tail = crate::text::sub_vec(&rest, k, rest.len());
        let (a, b) = trim_bounds(&tail);
        string_of(&tail, a, b)
    } else {
        String::new()
    };
    Some((name, args))
}

// ---------------------------------------------------------------------------
// One run's bookkeeping
// ---------------------------------------------------------------------------

/// The turn and output bookkeeping of one print-mode run.
#[derive(Debug, Clone)]
pub struct RunState {
    /// The requested output format.
    pub output_format: OutputFormat,
    /// Turns finished so far.
    pub turn_count: u32,
    /// Hard turn cap (`0` = unlimited).
    pub max_turns: u32,
    /// Text streamed so far (text format).
    pub text_buffer: String,
    /// Whether anything was written to stdout yet.
    pub wrote_any: bool,
}

impl RunState {
    /// A run that has done nothing yet.
    pub fn new(output_format: OutputFormat, max_turns: u32) -> (r: Self)
        ensures
            r.output_format == output_format,
            r.turn_count == 0,
            r.max_turns == max_turns,
            r.text_buffer@.len() == 0,
            !r.wrote_any,
    {
        RunState { output_format, turn_count: 0, max_turns, text_buffer: String::new(), wrote_any: false }
    }

    /// Whether the cap is reached: a positive cap and at least that many
    /// turns done.
    pub fn max_turns_exceeded(&self) -> (r: bool)
        ensures
            r == (self.max_turns > 0 && self.turn_count >= self.max_turns),
    {
        self.max_turns > 0 && self.turn_count >= self.max_turns
    }

    /// A turn ended: the counter moves first, so the event reports the
    /// turn that just finished.
    pub fn turn_ended(&mut self)
        requires
            old(self).turn_count < u32::MAX,
        ensures
            final(self).turn_count == old(self).turn_count + 1,
            final(self).max_turns == old(self).max_turns,
            final(self).output_format == old(self).output_format,
            final(self).text_buffer == old(self).text_buffer,
            final(self).wrote_any == old(self).wrote_any,
    {
        self.turn_count = self.turn_count + 1;
    }

    /// A text delta was streamed (text format).
    pub fn text_streamed(&mut self, delta: &str)
        ensures
            final(self).text_buffer@ == old(self).text_buffer@ + delta@,
            final(self).wrote_any,
            final(self).turn_count == old(self).turn_count,
            final(self).max_turns == old(self).max_turns,
            final(self).output_format == old(self).output_format,
    {
        self.text_buffer.append(delta);
        self.wrote_any = true;
    }

    /// An event line was written (json-events format).
    pub fn line_written(&mut self)
        ensures
            final(self).wrote_any,
            final(self).text_buffer == old(self).text_buffer,
            final(self).turn_count == old(self).turn_count,
            final(self).max_turns == old(self).max_turns,
            final(self).output_format == old(self).output_format,
    {
        self.wrote_any = true;
    }

    /// End of the text stream: whether a trailing newline must still be
    /// written (something was streamed and it does not end with one).
    /// The buffer is cleared.
    pub fn finish_text(&mut self) -> (newline: bool)
        ensures
            newline == (old(self).wrote_any && old(self).text_buffer@.len() > 0
                && old(self).text_buffer@.last() != '\n'),
            final(self).text_buffer@.len() == 0,
            final(self).turn_count == old(self).turn_count,
            final(self).max_turns == old(self).max_turns,
            final(self).wrote_any == old(self).wrote_any,
            final(self).output_format == old(self).output_format,
    {
        let v = chars_of(self.text_buffer.as_str());
        let newline = self.wrote_any && v.len() > 0 && v[v.len() - 1] != '\n';
        self.text_buffer = String::new();
        newline
    }
}

// ---------------------------------------------------------------------------
// How a run ends
// ---------------------------------------------------------------------------

/// The failure a periodic check stops the run with: a second interrupt
/// ends it at once, then the turn cap.
pub fn tick_outcome(terminate_now: bool, state: &RunState) -> (r: Option<PrintModeError>)
    ensures
        r == (if terminate_now {
            Some(PrintModeError::Interrupted)
        } else if state.max_turns > 0 && state.turn_count >= state.max_turns {
            Some(PrintModeError::MaxTurnsExceeded { max: state.max_turns })
        } else {
            None
        }),
{
    if terminate_now {
        Some(PrintModeError::Interrupted)
    } else if state.max_turns_exceeded() {
        Some(PrintModeError::MaxTurnsExceeded { max: state.max_turns })
    } else {
        None
    }
}

/// How a run whose events are drained ends: an interrupt wins, then a
/// termination, then the agent's error; otherwise the run succeeded.
pub fn end_outcome(interrupted: bool, terminated: bool, agent_error: Option<String>) -> (r: Result<
    (),
    PrintModeError,
>)
    ensures
        r == (if interrupted {
            Err(PrintModeError::Interrupted)
        } else if terminated {
            Err(PrintModeError::Terminated)
        } else {
            match agent_error {
                Some(m) => Err(PrintModeError::Agent(m)),
                None => Ok(()),
            }
        }),
{
    if interrupted {
        Err(PrintModeError::Interrupted)
    } else if terminated {
        Err(PrintModeError::Terminated)
    } else {
        match agent_error {
            Some(m) => Err(PrintModeError::Agent(m)),
            None => Ok(()),
        }
    }
}

/// How `serde_json` writes one character inside a string: `"` and `\`
/// behind a backslash, the five named control characters by their
/// letter, every other character below U+0020 as `\u00XX` in lower-case
/// hex, anything else as it is.
pub open spec fn json_char_escape(c: char) -> Seq<char> {
    if c == '"' {
        seq!['\\', '"']
    } else if c == '\\' {
        seq!['\\', '\\']
    } else if c == '\u{8}' {
        seq!['\\', 'b']
    } else if c == '\u{c}' {
        seq!['\\', 'f']
    } else if c == '\n' {
        seq!['\\', 'n']
    } else if c == '\r' {
        seq!['\\', 'r']
    } else if c == '\t' {
        seq!['\\', 't']
    } else if (c as int) < 0x20 {
        seq![
            '\\',
            'u',
            '0',
            '0',
            crate::text::digit_char(((c as int) / 16) as nat),
            crate::text::digit_char(((c as int) % 16) as nat),
        ]
    } else {
        seq![c]
    }
}

/// The characters of a text, each escaped as `serde_json` writes it.
pub open spec fn json_escape(s: Seq<char>) -> Seq<char>
    decreases s.len(),
{
    if s.len() == 0 {
        Seq::empty()
    } else {
        json_escape(s.drop_last()) + json_char_escape(s.last())
    }
}

/// The JSON string literal `serde_json` writes for a text: the escaped
/// text between double quotes.
pub open spec fn json_string_literal(s: Seq<char>) -> Seq<char> {
    seq!['"'] + json_escape(s) + seq!['"']
}

/// The JSON string literal for `s`.
///
/// Renders `serde_json::Value::String(s)` with its `Display`, which writes
/// the text between quotes and escapes it byte by byte from a fixed table
/// (see [`json_char_escape`]; bytes of multi-byte characters are never
/// escaped).
#[verifier::external_body]
fn json_string(s: &str) -> (r: String)
    ensures
        r@ == json_string_literal(s@),
{
    serde_json::Value::String(s.to_string()).to_string()
}

/// Where an agent error is reported.
#[derive(Debug, Clone, PartialEq, Eq)]
pub enum ErrorReport {
    /// This line on stdout (a newline follows it).
    Stdout(String),
    /// This line on stderr.
    Stderr(String),
}

/// The stdout line for an agent error in `json` format: the object
/// `{"error": {"type": "agent", "message": ...}}` as `serde_json` writes
/// it, keys in sorted order.
pub open spec fn agent_error_json(message: Seq<char>) -> Seq<char> {
    "{\"error\":{\"message\":"@ + json_string_literal(message) + ",\"type\":\"agent\"}}"@
}

/// How an agent error is reported: as a JSON object on stdout in `json`
/// format, as a `pi: agent error:` line on stderr otherwise.
pub fn agent_error_report(format: OutputFormat, message: &str) -> (r: ErrorReport)
    ensures
        format == OutputFormat::Json ==> (r matches ErrorReport::Stdout(line) && line@
            == agent_error_json(message@)),
        format != OutputFormat::Json ==> (r matches ErrorReport::Stderr(line) && line@
            == "pi: agent error: "@ + message@),
{
    match format {
        OutputFormat::Json => {
            let mut line = String::from_str("{\"error\":{\"message\":");
            line.append(json_string(message).as_str());
            push_str(&mut line, ",\"type\":\"agent\"}}");
            ErrorReport::Stdout(line)
        },
        _ => ErrorReport::Stderr(prefixed("pi: agent error: ", message)),
    }
}

// ---------------------------------------------------------------------------
// Sessions
// ---------------------------------------------------------------------------

/// A fresh session id from the current time in nanoseconds.
pub fn new_session_id(nanos: u128) -> (r: String)
    ensures
        r@ == "session-"@ + digits(nanos as nat, 16),
{
    let mut out = String::from_str("session-");
    push_hex_u128(&mut out, nanos);
    out
}

/// Where new session databases go: `~/.pi/sessions`, or `./.pi/sessions`
/// without a home directory.
pub fn default_session_dir(home: Option<&str>) -> (r: String)
    ensures
        r@ == match home {
            Some(h) => join_path(join_path(h@, ".pi"@), "sessions"@),
            None => "./.pi/sessions"@,
        },
{
    match home {
        Some(h) => {
            let p = join(h, ".pi");
            join(p.as_str(), "sessions")
        },
        None => String::from_str("./.pi/sessions"),
    }
}

// ---------------------------------------------------------------------------
// Session resolution
// ---------------------------------------------------------------------------

/// A question about the session directory the caller answers.
#[derive(Debug, Clone, PartialEq, Eq)]
pub enum SessionProbe {
    /// Is this path an existing file?
    IsFile(String),
    /// Which stored session has this id, across the databases of the
    /// directory?
    FindId {
        /// The session directory.
        directory: String,
        /// The session id.
        id: String,
    },
}

/// The answer to a [`SessionProbe`].
#[derive(Debug, Clone, PartialEq, Eq)]
pub enum ProbeAnswer {
    /// Whether the path is a file.
    IsFile(bool),
    /// The `(database, session id)` found, if any.
    Found(Option<(String, String)>),
}

/// What to do with an explicit `--session <id-or-path>` argument.
#[derive(Debug, Clone, PartialEq, Eq)]
pub enum SessionPlan {
    /// Answer this probe, then ask again with the answer appended.
    Probe(SessionProbe),
    /// Open this database and bind to its newest session.
    Latest {
        /// The database.
        database: String,
    },
    /// Migrate a legacy JSONL log into `database`, then bind to its newest
    /// session.
    MigrateThenLatest {
        /// The JSONL log.
        legacy: String,
        /// The database it becomes.
        database: String,
    },
    /// Bind to session `id` of `database`.
    Bind {
        /// The database.
        database: String,
        /// The session id.
        id: String,
    },
    /// Migrate a legacy JSONL log into `database`, then bind to `id`.
    MigrateThenBind {
        /// The JSONL log.
        legacy: String,
        /// The database it becomes.
        database: String,
        /// The session id.
        id: String,
    },
}

/// The plan as plain values: `(kind, database-or-path, legacy, id)`; kind
/// 0 probes a file, 1 looks up an id, 2 binds to the newest session, 3
/// migrates first, 4 binds, 5 migrates then binds.
pub open spec fn plan_view(p: SessionPlan) -> (nat, Seq<char>, Seq<char>, Seq<char>) {
    match p {
        SessionPlan::Probe(SessionProbe::IsFile(f)) => (0, f@, Seq::empty(), Seq::empty()),
        SessionPlan::Probe(SessionProbe::FindId { directory, id }) => (1, directory@, Seq::empty(), id@),
        SessionPlan::Latest { database } => (2, database@, Seq::empty(), Seq::empty()),
        SessionPlan::MigrateThenLatest { legacy, database } => (3, database@, legacy@, Seq::empty()),
        SessionPlan::Bind { database, id } => (4, database@, Seq::empty(), id@),
        SessionPlan::MigrateThenBind { legacy, database, id } => (5, database@, legacy@, id@),
    }
}

/// `<directory>/<id>.<ext>`.
pub open spec fn session_file(directory: Seq<char>, id: Seq<char>, ext: Seq<char>) -> Seq<char> {
    crate::paths::join_path(directory, id + "."@ + ext)
}

/// A positive `IsFile` answer.
pub open spec fn said_file(a: ProbeAnswer) -> bool {
    a == ProbeAnswer::IsFile(true)
}

/// The next step of resolving `raw` under `directory`, given the answers so
/// far: a direct `*.sqlite` path binds to its newest session, a direct
/// `*.jsonl` path is migrated next to itself first; otherwise a stored
/// session with that id, then a legacy `<id>.jsonl` (migrated), and
/// finally a new `<id>.sqlite`.
pub open spec fn explicit_plan_spec(directory: Seq<char>, raw: Seq<char>, answers: Seq<ProbeAnswer>) -> (
    nat,
    Seq<char>,
    Seq<char>,
    Seq<char>,
) {
    let ext = crate::installer::extension_spec(raw);
    if answers.len() == 0 {
        (0, raw, Seq::empty(), Seq::empty())
    } else if said_file(answers[0]) && ext == Some("sqlite"@) {
        (2, raw, Seq::empty(), Seq::empty())
    } else if said_file(answers[0]) && ext == Some("jsonl"@) {
        (3, crate::paths::with_extension_spec(raw, "sqlite"@), raw, Seq::empty())
    } else if answers.len() == 1 {
        (1, directory, Seq::empty(), raw)
    } else {
        match answers[1] {
            ProbeAnswer::Found(Some(found)) => (4, found.0@, Seq::empty(), found.1@),
            _ => if answers.len() == 2 {
                (0, session_file(directory, raw, "jsonl"@), Seq::empty(), Seq::empty())
            } else if said_file(answers[2]) {
                (5, session_file(directory, raw, "sqlite"@), session_file(directory, raw, "jsonl"@), raw)
            } else {
                (4, session_file(directory, raw, "sqlite"@), Seq::empty(), raw)
            },
        }
    }
}

/// `<directory>/<id>.<ext>` (a session database or a legacy log).
pub fn session_file_path(directory: &str, id: &str, ext: &str) -> (r: String)
    ensures
        r@ == session_file(directory@, id@, ext@),
{
    let mut name = String::from_str(id);
    push_str(&mut name, ".");
    name.append(ext);
    crate::paths::join(directory, name.as_str())
}

/// The next step of resolving an explicit `--session` / `--continue=<id>`
/// argument `raw` under `directory`. `answers` holds the answers to the
/// probes asked so far, in order.
pub fn explicit_session_plan(directory: &str, raw: &str, answers: &[ProbeAnswer]) -> (r: SessionPlan)
    ensures
        plan_view(r) == explicit_plan_spec(directory@, raw@, answers@),
{
    if answers.len() == 0 {
        return SessionPlan::Probe(SessionProbe::IsFile(raw.to_string()));
    }
    let direct = match &answers[0] {
        ProbeAnswer::IsFile(b) => *b,
        _ => false,
    };
    if direct {
        match crate::installer::path_extension(raw) {
            Some(e) => {
                let ev = chars_of(e.as_str());
                if equals_lit(&ev, "sqlite") {
                    return SessionPlan::Latest { database: raw.to_string() };
                }
                if equals_lit(&ev, "jsonl") {
                    let database = crate::paths::with_extension(raw, "sqlite");
                    return SessionPlan::MigrateThenLatest { legacy: raw.to_string(), database };
                }
            },
            None => {},
        }
    }
    if answers.len() == 1 {
        return SessionPlan::Probe(
            SessionProbe::FindId { directory: directory.to_string(), id: raw.to_string() },
        );
    }
    match &answers[1] {
        ProbeAnswer::Found(Some(found)) => {
            return SessionPlan::Bind { database: found.0.clone(), id: found.1.clone() };
        },
        _ => {},
    }
    if answers.len() == 2 {
        return SessionPlan::Probe(SessionProbe::IsFile(session_file_path(directory, raw, "jsonl")));
    }
    let legacy_exists = match &answers[2] {
        ProbeAnswer::IsFile(b) => *b,
        _ => false,
    };
    if legacy_exists {
        SessionPlan::MigrateThenBind {
            legacy: session_file_path(directory, raw, "jsonl"),
            database: session_file_path(directory, raw, "sqlite"),
            id: raw.to_string(),
        }
    } else {
        SessionPlan::Bind { database: session_file_path(directory, raw, "sqlite"), id: raw.to_string() }
    }
}

/// Whether a directory entry is a legacy log to migrate before `--continue`
/// picks the newest session: a non-empty `*.jsonl` file whose `*.sqlite`
/// sibling does not exist yet.
pub fn should_migrate_legacy(path: &str, sibling_exists: bool, len: u64) -> (r: bool)
    ensures
        r == (crate::installer::extension_spec(path@) == Some("jsonl"@) && !sibling_exists && len
            > 0),
{
    match crate::installer::path_extension(path) {
        Some(e) => equals_lit(&chars_of(e.as_str()), "jsonl") && !sibling_exists && len > 0,
        None => false,
    }
}

/// The `*.sqlite` sibling a legacy `*.jsonl` log migrates into.
pub fn sqlite_sibling(path: &str) -> (r: String)
    ensures
        r@ == crate::paths::with_extension_spec(path@, "sqlite"@),
{
    crate::paths::with_extension(path, "sqlite")
}

} // verus!
