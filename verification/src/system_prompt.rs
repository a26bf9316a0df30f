//! System prompt assembly.
//!
//! The prompt is rebuilt from live state — which tools are registered,
//! which context files and skills the resource loader found — so a
//! project's `AGENTS.md` and skills reach the model.
//!
//! Two shapes:
//!
//! - a custom prompt (from `~/.pi/agent/SYSTEM.md`) *replaces* the
//!   built-in body; only the appended text, project context, skills and
//!   the working directory are added around it;
//! - otherwise the built-in coding-assistant body is emitted with the
//!   available-tools list, the guidelines, the pi documentation pointers,
//!   and the same trailing sections.
use vstd::prelude::*;

use crate::paths::{join, join_path};
use crate::skills::{format_skills_for_prompt, format_skills_spec, Skill, SkillReadTool};
use crate::text::{
    chars_of, equals_lit, join_spec, join_strings, lemma_lex_antisym, lemma_lex_total,
    lemma_lex_trans, lemma_strs_push, lex_le, lex_le_exec, push_char, push_str, strs, trim,
    trimmed,
};

verus! {

/// A project context file (`AGENTS.md`, ...) and its content.
#[derive(Debug, Clone, PartialEq, Eq)]
pub struct ContextFile {
    /// Where the file was found.
    pub path: String,
    /// Its text.
    pub content: String,
}

/// Documentation locations advertised in the built-in prompt.
#[derive(Debug, Clone, PartialEq, Eq)]
pub struct PiDocs {
    /// Path to the main README.
    pub readme: String,
    /// Path to the `docs/` directory.
    pub docs: String,
    /// Path to the `examples/` directory.
    pub examples: String,
}

/// One built-in tool's system-prompt contribution.
#[derive(Debug, Clone, PartialEq, Eq)]
pub struct ToolPromptContribution {
    /// One-line summary shown in the `Available tools` list.
    pub snippet: &'static str,
    /// Guideline bullets contributed by the tool.
    pub guidelines: Vec<&'static str>,
}

/// A contribution as plain values.
pub open spec fn contribution_view(c: ToolPromptContribution) -> (Seq<char>, Seq<Seq<char>>) {
    (c.snippet@, c.guidelines@.map_values(|g: &str| g@))
}

/// The contributions of the built-in tools.
pub open spec fn contribution_spec(tool: Seq<char>) -> Option<(Seq<char>, Seq<Seq<char>>)> {
    if tool == "read"@ {
        Some(("Read file contents"@, seq!["Use read to examine files instead of cat or sed."@]))
    } else if tool == "write"@ {
        Some(
            (
                "Create or overwrite files"@,
                seq!["Use write only for new files or complete rewrites."@],
            ),
        )
    } else if tool == "edit"@ {
        Some(
            (
                "Make precise file edits with exact text replacement, including multiple disjoint edits in one call"@,
                seq![
                    "Use edit for precise changes (edits[].oldText must match exactly)"@,
                    "When changing multiple separate locations in one file, use one edit call with multiple entries in edits[] instead of multiple edit calls"@,
                    "Each edits[].oldText is matched against the original file, not after earlier edits are applied. Do not emit overlapping or nested edits. Merge nearby changes into one edit."@,
                    "Keep edits[].oldText as small as possible while still being unique in the file. Do not pad with large unchanged regions."@,
                ],
            ),
        )
    } else if tool == "bash"@ {
        Some(
            (
                "Execute bash commands (ls, grep, find, etc.)"@,
                seq![
                    "You can inspect PI_* environment variables for current model and session details."@,
                ],
            ),
        )
    } else if tool == "find"@ {
        Some(("Find files by glob pattern (respects .gitignore)"@, Seq::empty()))
    } else if tool == "grep"@ {
        Some(("Search file contents for patterns (respects .gitignore)"@, Seq::empty()))
    } else if tool == "ls"@ {
        Some(("List directory contents"@, Seq::empty()))
    } else {
        None
    }
}

/// The prompt contribution of a built-in tool, if it has one.
pub fn builtin_tool_contribution(tool: &str) -> (r: Option<ToolPromptContribution>)
    ensures
        match r {
            Some(c) => contribution_spec(tool@) == Some(contribution_view(c)),
            None => contribution_spec(tool@) is None,
        },
{
    let v = chars_of(tool);
    let c = if equals_lit(&v, "read") {
        ToolPromptContribution {
            snippet: "Read file contents",
            guidelines: vec!["Use read to examine files instead of cat or sed."],
        }
    } else if equals_lit(&v, "write") {
        ToolPromptContribution {
            snippet: "Create or overwrite files",
            guidelines: vec!["Use write only for new files or complete rewrites."],
        }
    } else if equals_lit(&v, "edit") {
        ToolPromptContribution {
            snippet: "Make precise file edits with exact text replacement, including multiple disjoint edits in one call",
            guidelines: vec![
                "Use edit for precise changes (edits[].oldText must match exactly)",
                "When changing multiple separate locations in one file, use one edit call with multiple entries in edits[] instead of multiple edit calls",
                "Each edits[].oldText is matched against the original file, not after earlier edits are applied. Do not emit overlapping or nested edits. Merge nearby changes into one edit.",
                "Keep edits[].oldText as small as possible while still being unique in the file. Do not pad with large unchanged regions.",
            ],
        }
    } else if equals_lit(&v, "bash") {
        ToolPromptContribution {
            snippet: "Execute bash commands (ls, grep, find, etc.)",
            guidelines: vec![
                "You can inspect PI_* environment variables for current model and session details.",
            ],
        }
    } else if equals_lit(&v, "find") {
        ToolPromptContribution {
            snippet: "Find files by glob pattern (respects .gitignore)",
            guidelines: Vec::new(),
        }
    } else if equals_lit(&v, "grep") {
        ToolPromptContribution {
            snippet: "Search file contents for patterns (respects .gitignore)",
            guidelines: Vec::new(),
        }
    } else if equals_lit(&v, "ls") {
        ToolPromptContribution { snippet: "List directory contents", guidelines: Vec::new() }
    } else {
        return None;
    };
    assert(contribution_spec(tool@) == Some(contribution_view(c)));
    Some(c)
}

// ---------------------------------------------------------------------------
// Tool snippets
// ---------------------------------------------------------------------------

/// One-line tool summaries keyed by tool name, kept in key order with
/// each key once (the ordered-map behaviour the prompt builder relies
/// on).
#[derive(Debug, Clone, Default, PartialEq, Eq)]
pub struct ToolSnippets {
    entries: Vec<(String, String)>,
}

/// A snippet table as plain values.
pub open spec fn snippets_view(v: Seq<(String, String)>) -> Seq<(Seq<char>, Seq<char>)> {
    v.map_values(|e: (String, String)| (e.0@, e.1@))
}

/// The snippet filed under `k` (the first entry with that key).
pub open spec fn snippet_of(s: Seq<(Seq<char>, Seq<char>)>, k: Seq<char>) -> Option<Seq<char>>
    decreases s.len(),
{
    if s.len() == 0 {
        None
    } else if s[0].0 == k {
        Some(s[0].1)
    } else {
        snippet_of(s.drop_first(), k)
    }
}

/// First index of the key `k`.
pub open spec fn snippet_index(s: Seq<(Seq<char>, Seq<char>)>, k: Seq<char>, i: int) -> Option<int>
    decreases s.len() - i,
{
    if i < 0 || i >= s.len() {
        None
    } else if s[i].0 == k {
        Some(i)
    } else {
        snippet_index(s, k, i + 1)
    }
}

/// First index whose key sorts after `k`.
pub open spec fn sorted_pos(s: Seq<(Seq<char>, Seq<char>)>, k: Seq<char>, i: int) -> int
    decreases s.len() - i,
{
    if i < 0 || i >= s.len() {
        s.len() as int
    } else if !lex_le(s[i].0, k) {
        i
    } else {
        sorted_pos(s, k, i + 1)
    }
}

/// The table after `insert(k, v)`: an existing key keeps its place and
/// takes the new value, a new key goes to its sorted place.
pub open spec fn snippets_insert(s: Seq<(Seq<char>, Seq<char>)>, k: Seq<char>, v: Seq<char>) -> Seq<
    (Seq<char>, Seq<char>),
> {
    match snippet_index(s, k, 0) {
        Some(i) => s.update(i, (k, v)),
        None => s.insert(sorted_pos(s, k, 0), (k, v)),
    }
}

/// Keys strictly increasing.
pub open spec fn keys_increasing(s: Seq<(Seq<char>, Seq<char>)>) -> bool {
    forall|i: int, j: int|
        0 <= i < j < s.len() ==> lex_le(#[trigger] s[i].0, #[trigger] s[j].0) && s[i].0 != s[j].0
}

impl View for ToolSnippets {
    type V = Seq<(Seq<char>, Seq<char>)>;

    closed spec fn view(&self) -> Seq<(Seq<char>, Seq<char>)> {
        snippets_view(self.entries@)
    }
}

proof fn lemma_snippet_index(s: Seq<(Seq<char>, Seq<char>)>, k: Seq<char>, i: int)
    requires
        0 <= i,
    ensures
        match snippet_index(s, k, i) {
            Some(j) => i <= j < s.len() && s[j].0 == k && forall|m: int|
                i <= m < j ==> (#[trigger] s[m]).0 != k,
            None => forall|m: int| i <= m < s.len() ==> (#[trigger] s[m]).0 != k,
        },
    decreases s.len() - i,
{
    if i < s.len() && s[i].0 != k {
        lemma_snippet_index(s, k, i + 1);
    }
}

proof fn lemma_snippet_of(s: Seq<(Seq<char>, Seq<char>)>, k: Seq<char>)
    ensures
        snippet_of(s, k) == match snippet_index(s, k, 0) {
            Some(j) => Some(s[j].1),
            None => None,
        },
    decreases s.len(),
{
    lemma_snippet_index(s, k, 0);
    if s.len() > 0 && s[0].0 != k {
        lemma_snippet_of(s.drop_first(), k);
        lemma_snippet_index(s.drop_first(), k, 0);
        match snippet_index(s, k, 0) {
            Some(j) => {
                assert(s.drop_first()[j - 1] == s[j]);
                match snippet_index(s.drop_first(), k, 0) {
                    Some(j2) => {
                        assert(s[j2 + 1] == s.drop_first()[j2]);
                        if j2 + 1 < j {
                            assert(s[j2 + 1].0 != k);
                        }
                        if j2 + 1 > j {
                            assert(s.drop_first()[j - 1].0 == k);
                        }
                    },
                    None => {
                        assert(s.drop_first()[j - 1].0 == k);
                    },
                }
            },
            None => {
                match snippet_index(s.drop_first(), k, 0) {
                    Some(j2) => {
                        assert(s[j2 + 1] == s.drop_first()[j2]);
                    },
                    None => {},
                }
            },
        }
    }
}

proof fn lemma_sorted_pos(s: Seq<(Seq<char>, Seq<char>)>, k: Seq<char>, i: int)
    requires
        0 <= i <= s.len(),
    ensures
        i <= sorted_pos(s, k, i) <= s.len(),
        forall|m: int| i <= m < sorted_pos(s, k, i) ==> lex_le(#[trigger] s[m].0, k),
        sorted_pos(s, k, i) < s.len() ==> !lex_le(s[sorted_pos(s, k, i)].0, k),
    decreases s.len() - i,
{
    if i < s.len() && lex_le(s[i].0, k) {
        lemma_sorted_pos(s, k, i + 1);
    }
}

impl ToolSnippets {
    /// An empty table.
    pub fn new() -> (r: Self)
        ensures
            r@ == Seq::<(Seq<char>, Seq<char>)>::empty(),
    {
        let r = ToolSnippets { entries: Vec::new() };
        assert(r@ =~= Seq::<(Seq<char>, Seq<char>)>::empty());
        r
    }

    /// File `value` under `key`, replacing an earlier value.
    pub fn insert(&mut self, key: String, value: String)
        ensures
            final(self)@ == snippets_insert(old(self)@, key@, value@),
    {
        let ghost s = self@;
        let mut i: usize = 0;
        while i < self.entries.len()
            invariant
                i <= self.entries.len(),
                s == snippets_view(self.entries@),
                s == old(self)@,
                snippet_index(s, key@, 0) == snippet_index(s, key@, i as int),
            decreases self.entries.len() - i,
        {
            if self.entries[i].0 == key {
                assert(s[i as int].0 == key@);
                let ghost kv = (key@, value@);
                self.entries.set(i, (key, value));
                assert(snippets_view(self.entries@) =~= s.update(i as int, kv));
                return;
            }
            i += 1;
        }
        let mut p: usize = 0;
        while p < self.entries.len()
            invariant
                p <= self.entries.len(),
                s == snippets_view(self.entries@),
                sorted_pos(s, key@, 0) == sorted_pos(s, key@, p as int),
            ensures
                sorted_pos(s, key@, 0) == p as int,
            decreases self.entries.len() - p,
        {
            if !lex_le_exec(&self.entries[p].0, &key) {
                break;
            }
            p += 1;
        }
        let ghost kv = (key@, value@);
        self.entries.insert(p, (key, value));
        assert(snippets_view(self.entries@) =~= s.insert(p as int, kv));
    }

    /// The snippet filed under `key`.
    pub fn get(&self, key: &str) -> (r: Option<&String>)
        ensures
            match r {
                Some(v) => snippet_of(self@, key@) == Some(v@),
                None => snippet_of(self@, key@) is None,
            },
    {
        let mut i: usize = 0;
        while i < self.entries.len()
            invariant
                i <= self.entries.len(),
                self@ == snippets_view(self.entries@),
                snippet_index(self@, key@, 0) == snippet_index(self@, key@, i as int),
            decreases self.entries.len() - i,
        {
            if equals_lit(&chars_of(self.entries[i].0.as_str()), key) {
                proof {
                    lemma_snippet_of(self@, key@);
                }
                assert(self@[i as int].0 == key@);
                return Some(&self.entries[i].1);
            }
            i += 1;
        }
        proof {
            lemma_snippet_of(self@, key@);
        }
        None
    }

    /// Whether a snippet is filed under `key`.
    pub fn contains_key(&self, key: &str) -> (r: bool)
        ensures
            r == snippet_of(self@, key@) is Some,
    {
        self.get(key).is_some()
    }

    /// The keys, in order.
    pub fn keys(&self) -> (r: Vec<String>)
        ensures
            strs(r@) == self@.map_values(|e: (Seq<char>, Seq<char>)| e.0),
    {
        let mut out: Vec<String> = Vec::new();
        let mut i: usize = 0;
        while i < self.entries.len()
            invariant
                i <= self.entries.len(),
                strs(out@) == self@.map_values(|e: (Seq<char>, Seq<char>)| e.0).take(i as int),
            decreases self.entries.len() - i,
        {
            let ghost before = out@;
            let k = self.entries[i].0.clone();
            out.push(k);
            proof {
                lemma_strs_push(before, k);
            }
            assert(self@.map_values(|e: (Seq<char>, Seq<char>)| e.0).take(i + 1) =~= self@.map_values(
                |e: (Seq<char>, Seq<char>)| e.0,
            ).take(i as int).push(k@));
            i += 1;
        }
        assert(self@.map_values(|e: (Seq<char>, Seq<char>)| e.0).take(self.entries.len() as int)
            =~= self@.map_values(|e: (Seq<char>, Seq<char>)| e.0));
        out
    }
}

/// What a lookup gives back of an insert.
pub proof fn law_snippet_insert_then_get(s: Seq<(Seq<char>, Seq<char>)>, k: Seq<char>, v: Seq<char>)
    ensures
        snippet_of(snippets_insert(s, k, v), k) == Some(v),
{
    lemma_snippet_index(s, k, 0);
    let t = snippets_insert(s, k, v);
    lemma_snippet_of(t, k);
    lemma_snippet_index(t, k, 0);
    match snippet_index(s, k, 0) {
        Some(i) => {
            assert(t[i].0 == k);
            if let Some(j) = snippet_index(t, k, 0) {
                if j < i {
                    assert(t[j] == s[j]);
                }
            }
        },
        None => {
            let p = sorted_pos(s, k, 0);
            lemma_sorted_pos(s, k, 0);
            assert(t[p] == (k, v));
            if let Some(j) = snippet_index(t, k, 0) {
                if j < p {
                    assert(t[j] == s[j]);
                }
            }
        },
    }
}

/// Inserting keeps the keys strictly increasing.
pub proof fn law_snippet_keys_stay_sorted(s: Seq<(Seq<char>, Seq<char>)>, k: Seq<char>, v: Seq<char>)
    requires
        keys_increasing(s),
    ensures
        keys_increasing(snippets_insert(s, k, v)),
{
    lemma_snippet_index(s, k, 0);
    let t = snippets_insert(s, k, v);
    match snippet_index(s, k, 0) {
        Some(i) => {
            assert forall|a: int, b: int| 0 <= a < b < t.len() implies lex_le(
                #[trigger] t[a].0,
                #[trigger] t[b].0,
            ) && t[a].0 != t[b].0 by {
                assert(t[a].0 == s[a].0 && t[b].0 == s[b].0);
            }
        },
        None => {
            let p = sorted_pos(s, k, 0);
            lemma_sorted_pos(s, k, 0);
            assert forall|a: int, b: int| 0 <= a < b < t.len() implies lex_le(
                #[trigger] t[a].0,
                #[trigger] t[b].0,
            ) && t[a].0 != t[b].0 by {
                if b < p {
                    assert(t[a] == s[a] && t[b] == s[b]);
                } else if b == p {
                    assert(t[a] == s[a]);
                    assert(lex_le(s[a].0, k));
                } else if a < p {
                    assert(t[a] == s[a] && t[b] == s[b - 1]);
                    lemma_lex_total(s[p].0, k);
                    if b - 1 > p {
                        lemma_lex_trans(k, s[p].0, s[b - 1].0);
                    }
                    lemma_lex_trans(s[a].0, k, s[b - 1].0);
                    if s[a].0 == s[b - 1].0 {
                        lemma_lex_antisym(k, s[b - 1].0);
                    }
                } else if a == p {
                    assert(t[b] == s[b - 1]);
                    lemma_lex_total(s[p].0, k);
                    if b - 1 > p {
                        lemma_lex_trans(k, s[p].0, s[b - 1].0);
                    }
                } else {
                    assert(t[a] == s[a - 1] && t[b] == s[b - 1]);
                }
            }
        },
    }
}

/// Build the snippet table and the guideline list for a tool set: each
/// built-in tool contributes its summary and its guideline bullets; other
/// tools contribute nothing.
pub open spec fn contributions_spec(tools: Seq<Seq<char>>) -> (Seq<(Seq<char>, Seq<char>)>, Seq<Seq<char>>)
    decreases tools.len(),
{
    if tools.len() == 0 {
        (Seq::empty(), Seq::empty())
    } else {
        let (s, g) = contributions_spec(tools.drop_last());
        match contribution_spec(tools.last()) {
            Some((snippet, lines)) => (snippets_insert(s, tools.last(), snippet), g + lines),
            None => (s, g),
        }
    }
}

/// Build the `tool_snippets` / `prompt_guidelines` pair for a tool set.
///
/// Tools without a known contribution contribute nothing; the prompt
/// builder then leaves them out of the available-tools list.
pub fn builtin_prompt_contributions(selected_tools: &[String]) -> (r: (ToolSnippets, Vec<String>))
    ensures
        (r.0@, strs(r.1@)) == contributions_spec(strs(selected_tools@)),
{
    let ghost tools = strs(selected_tools@);
    let mut snippets = ToolSnippets::new();
    let mut guidelines: Vec<String> = Vec::new();
    let mut i: usize = 0;
    assert(strs(guidelines@) =~= Seq::<Seq<char>>::empty());
    while i < selected_tools.len()
        invariant
            i <= selected_tools.len(),
            tools == strs(selected_tools@),
            (snippets@, strs(guidelines@)) == contributions_spec(tools.take(i as int)),
        decreases selected_tools.len() - i,
    {
        let tool = &selected_tools[i];
        assert(tools.take(i + 1).drop_last() =~= tools.take(i as int));
        assert(tools.take(i + 1).last() == tool@);
        match builtin_tool_contribution(tool.as_str()) {
            Some(c) => {
                snippets.insert(tool.clone(), String::from_str(c.snippet));
                let ghost g0 = strs(guidelines@);
                let mut j: usize = 0;
                while j < c.guidelines.len()
                    invariant
                        j <= c.guidelines.len(),
                        strs(guidelines@) == g0 + c.guidelines@.map_values(|g: &str| g@).take(
                            j as int,
                        ),
                    decreases c.guidelines.len() - j,
                {
                    let ghost before = guidelines@;
                    let line = String::from_str(c.guidelines[j]);
                    guidelines.push(line);
                    proof {
                        lemma_strs_push(before, line);
                    }
                    assert(c.guidelines@.map_values(|g: &str| g@).take(j + 1) =~= c.guidelines@.map_values(
                        |g: &str| g@,
                    ).take(j as int).push(c.guidelines@[j as int]@));
                    assert(g0 + c.guidelines@.map_values(|g: &str| g@).take(j + 1) =~= (g0
                        + c.guidelines@.map_values(|g: &str| g@).take(j as int)).push(line@));
                    j += 1;
                }
                assert(c.guidelines@.map_values(|g: &str| g@).take(c.guidelines.len() as int)
                    =~= c.guidelines@.map_values(|g: &str| g@));
            },
            None => {},
        }
        i += 1;
    }
    assert(tools.take(selected_tools.len() as int) =~= tools);
    (snippets, guidelines)
}

// ---------------------------------------------------------------------------
// The prompt
// ---------------------------------------------------------------------------

/// Options for [`build_system_prompt`].
#[derive(Debug, Clone, Default)]
pub struct SystemPromptOptions {
    /// Custom prompt that replaces the built-in one.
    pub custom_prompt: Option<String>,
    /// Tool names to list; `read`, `bash`, `edit`, `write` when empty.
    pub selected_tools: Vec<String>,
    /// One-line tool summaries, keyed by tool name.
    pub tool_snippets: ToolSnippets,
    /// Extra guideline bullets, appended to the tool-derived ones.
    pub prompt_guidelines: Vec<String>,
    /// Text appended after the prompt body.
    pub append_system_prompt: Option<String>,
    /// Working directory, printed with forward slashes.
    pub cwd: String,
    /// Pre-loaded `AGENTS.md` files.
    pub context_files: Vec<ContextFile>,
    /// Pre-loaded skills.
    pub skills: Vec<Skill>,
    /// Documentation roots; the documentation section is omitted when
    /// `None`.
    pub docs: Option<PiDocs>,
}

/// Tools listed when the caller names none.
pub open spec fn default_tools() -> Seq<Seq<char>> {
    seq!["read"@, "bash"@, "edit"@, "write"@]
}

/// The tools the prompt describes.
pub open spec fn effective_tools(o: SystemPromptOptions) -> Seq<Seq<char>> {
    if o.selected_tools@.len() == 0 {
        default_tools()
    } else {
        strs(o.selected_tools@)
    }
}

/// The first tool from `i` on that can open a skill file.
pub open spec fn read_tool_from(tools: Seq<Seq<char>>, i: int) -> Option<SkillReadTool>
    decreases tools.len() - i,
{
    if i < 0 || i >= tools.len() {
        None
    } else if tools[i] == "read"@ {
        Some(SkillReadTool::Read)
    } else if tools[i] == "bash"@ {
        Some(SkillReadTool::Bash)
    } else {
        read_tool_from(tools, i + 1)
    }
}

/// Where `bash` is listed at or after `i` and `read` nowhere, the tool
/// that opens skill files is `bash`.
proof fn lemma_bash_reads_skills(tools: Seq<Seq<char>>, i: int, j: int)
    requires
        0 <= i <= j < tools.len(),
        tools[j] == "bash"@,
        !tools.contains("read"@),
    ensures
        read_tool_from(tools, i) == Some(SkillReadTool::Bash),
    decreases j - i,
{
    assert(tools[i] != "read"@);
    if tools[i] != "bash"@ {
        lemma_bash_reads_skills(tools, i + 1, j);
    }
}

/// When the tools offer `bash` but not `read` and skills were loaded, the
/// prompt holds the skills block that tells the model to open skill files
/// with `bash`.
pub proof fn law_bash_opens_skills_without_read(o: SystemPromptOptions)
    requires
        effective_tools(o).contains("bash"@),
        !effective_tools(o).contains("read"@),
        o.skills@.len() > 0,
    ensures
        exists|pre: Seq<char>, post: Seq<char>|
            prompt_spec(o) == pre + format_skills_spec(o.skills@, SkillReadTool::Bash) + post,
{
    let tools = effective_tools(o);
    let j = choose|j: int| 0 <= j < tools.len() && tools[j] == "bash"@;
    lemma_bash_reads_skills(tools, 0, j);
    let pre = (match o.custom_prompt {
        Some(c) => c@,
        None => default_body(o),
    }) + append_section(o.append_system_prompt) + context_section(o.context_files@);
    let post = "\nCurrent working directory: "@ + slash_cwd(o.cwd@);
    assert(skills_section(o) == format_skills_spec(o.skills@, SkillReadTool::Bash));
    assert(prompt_spec(o) =~= pre + format_skills_spec(o.skills@, SkillReadTool::Bash) + post);
}

/// The working directory with `\` printed as `/`.
pub open spec fn slash_cwd(cwd: Seq<char>) -> Seq<char> {
    cwd.map_values(
        |c: char|
            if c == '\\' {
                '/'
            } else {
                c
            },
    )
}

/// The appended text, after a blank line, when there is any.
pub open spec fn append_section(a: Option<String>) -> Seq<char> {
    match a {
        Some(t) => if t@.len() > 0 {
            "\n\n"@ + t@
        } else {
            Seq::empty()
        },
        None => Seq::empty(),
    }
}

/// One `<project_instructions>` block.
pub open spec fn context_block(f: ContextFile) -> Seq<char> {
    "<project_instructions path=\""@ + f.path@ + "\">\n"@ + f.content@
        + "\n</project_instructions>\n\n"@
}

/// The blocks of every context file, in order.
pub open spec fn context_blocks(fs: Seq<ContextFile>) -> Seq<char>
    decreases fs.len(),
{
    if fs.len() == 0 {
        Seq::empty()
    } else {
        context_blocks(fs.drop_last()) + context_block(fs.last())
    }
}

/// The `<project_context>` block (empty when no files loaded).
pub open spec fn context_section(fs: Seq<ContextFile>) -> Seq<char> {
    if fs.len() == 0 {
        Seq::empty()
    } else {
        "\n\n<project_context>\n\nProject-specific instructions and guidelines:\n\n"@ + context_blocks(fs)
            + "</project_context>\n"@
    }
}

/// The skills block: only when a tool can open skill files and skills
/// were loaded.
pub open spec fn skills_section(o: SystemPromptOptions) -> Seq<char> {
    match read_tool_from(effective_tools(o), 0) {
        Some(t) => if o.skills@.len() > 0 {
            format_skills_spec(o.skills@, t)
        } else {
            Seq::empty()
        },
        None => Seq::empty(),
    }
}

/// The tools that have a snippet, in order.
pub open spec fn visible_tools(tools: Seq<Seq<char>>, snippets: Seq<(Seq<char>, Seq<char>)>) -> Seq<Seq<char>>
    decreases tools.len(),
{
    if tools.len() == 0 {
        Seq::empty()
    } else if snippet_of(snippets, tools.last()) is Some {
        visible_tools(tools.drop_last(), snippets).push(tools.last())
    } else {
        visible_tools(tools.drop_last(), snippets)
    }
}

/// `- <tool>: <snippet>`.
pub open spec fn tool_line(tool: Seq<char>, snippets: Seq<(Seq<char>, Seq<char>)>) -> Seq<char> {
    "- "@ + tool + ": "@ + match snippet_of(snippets, tool) {
        Some(v) => v,
        None => Seq::empty(),
    }
}

/// The available-tools list, or `(none)`.
pub open spec fn tools_list_spec(tools: Seq<Seq<char>>, snippets: Seq<(Seq<char>, Seq<char>)>) -> Seq<char> {
    let v = visible_tools(tools, snippets);
    if v.len() == 0 {
        "(none)"@
    } else {
        join_spec(v.map_values(|t: Seq<char>| tool_line(t, snippets)), "\n"@)
    }
}

/// `list` with `g` added unless it is already there.
pub open spec fn push_unique(list: Seq<Seq<char>>, g: Seq<char>) -> Seq<Seq<char>> {
    if list.contains(g) {
        list
    } else {
        list.push(g)
    }
}

/// The shell-exploration guideline, when a shell is the only way to look
/// around.
pub open spec fn shell_guideline(tools: Seq<Seq<char>>) -> Option<Seq<char>> {
    let has_bash = tools.contains("bash"@);
    let has_ps = tools.contains("powershell"@);
    let has_nav = tools.contains("grep"@) || tools.contains("find"@) || tools.contains("ls"@);
    if (has_bash || has_ps) && !has_nav {
        if has_bash && has_ps {
            Some("Use bash or PowerShell for file operations like listing, searching, and finding files"@)
        } else if has_ps {
            Some("Use PowerShell for file operations like listing, searching, and finding files"@)
        } else {
            Some("Use bash for file operations like ls, rg, find"@)
        }
    } else {
        None
    }
}

/// The caller's guidelines, trimmed, blank ones dropped, added in order.
pub open spec fn add_guidelines(list: Seq<Seq<char>>, gs: Seq<Seq<char>>) -> Seq<Seq<char>>
    decreases gs.len(),
{
    if gs.len() == 0 {
        list
    } else {
        let l = add_guidelines(list, gs.drop_last());
        let t = trim(gs.last());
        if t.len() > 0 {
            push_unique(l, t)
        } else {
            l
        }
    }
}

/// Every guideline, each once, in first-seen order.
pub open spec fn guideline_list(o: SystemPromptOptions) -> Seq<Seq<char>> {
    let l0 = match shell_guideline(effective_tools(o)) {
        Some(g) => seq![g],
        None => Seq::empty(),
    };
    let l1 = add_guidelines(l0, strs(o.prompt_guidelines@));
    push_unique(
        push_unique(l1, "Be concise in your responses"@),
        "Show file paths clearly when working with files"@,
    )
}

/// The guideline bullets.
pub open spec fn guidelines_text(o: SystemPromptOptions) -> Seq<char> {
    join_spec(guideline_list(o).map_values(|g: Seq<char>| "- "@ + g), "\n"@)
}

/// The documentation section, when documentation roots are known.
pub open spec fn docs_section(d: Option<PiDocs>) -> Seq<char> {
    match d {
        Some(d) => "\n\nPi documentation (read only when the user asks about pi itself, its SDK, extensions, themes, skills, or TUI):\n- Main documentation: "@ + d.readme@ + "\n- Additional docs: "@ + d.docs@
            + "\n- Examples: "@ + d.examples@ + " (extensions, custom tools, SDK)\n- When reading pi docs or examples, resolve docs/... under Additional docs and examples/... under Examples, not the current working directory\n- When asked about: extensions (docs/extensions.md, examples/extensions/), themes (docs/themes.md), skills (docs/skills.md), prompt templates (docs/prompt-templates.md), TUI components (docs/tui.md), keybindings (docs/keybindings.md), SDK integrations (docs/sdk.md), custom providers (docs/custom-provider.md), adding models (docs/models.md), pi packages (docs/packages.md), environment variables (docs/environment-variables.md)\n- When working on pi topics, read the docs and examples, and follow .md cross-references before implementing\n- Always read pi .md files completely and follow links to related docs (e.g., tui.md for TUI API details)"@,
        None => Seq::empty(),
    }
}

/// The built-in (non-custom) prompt body.
pub open spec fn default_body(o: SystemPromptOptions) -> Seq<char> {
    "You are an expert coding assistant operating inside pi, a coding agent harness. You help users by reading files, executing commands, editing code, and writing new files.\n\nAvailable tools:\n"@ + tools_list_spec(effective_tools(o), o.tool_snippets@) + "\n\nIn addition to the tools above, you may have access to other custom tools depending on the project.\n\nGuidelines:\n"@
        + guidelines_text(o) + docs_section(o.docs)
}

/// The whole prompt.
pub open spec fn prompt_spec(o: SystemPromptOptions) -> Seq<char> {
    (match o.custom_prompt {
        Some(c) => c@,
        None => default_body(o),
    }) + append_section(o.append_system_prompt) + context_section(o.context_files@)
        + skills_section(o) + "\nCurrent working directory: "@ + slash_cwd(o.cwd@)
}

/// Whether `v` holds a string equal to `s`.
fn holds(v: &Vec<String>, s: &str) -> (r: bool)
    ensures
        r == strs(v@).contains(s@),
{
    let mut i: usize = 0;
    while i < v.len()
        invariant
            i <= v.len(),
            forall|k: int| 0 <= k < i ==> v@[k]@ != s@,
        decreases v.len() - i,
    {
        if equals_lit(&chars_of(v[i].as_str()), s) {
            assert(strs(v@)[i as int] == s@);
            return true;
        }
        i += 1;
    }
    proof {
        if strs(v@).contains(s@) {
            let k = choose|k: int| 0 <= k < strs(v@).len() && strs(v@)[k] == s@;
            assert(v@[k]@ == s@);
        }
    }
    false
}

/// Add `g` to `list` unless it is already there.
fn push_unique_exec(list: &mut Vec<String>, g: String)
    ensures
        strs(final(list)@) == push_unique(strs(old(list)@), g@),
{
    if !holds(list, g.as_str()) {
        let ghost before = list@;
        list.push(g);
        proof {
            lemma_strs_push(before, g);
        }
    }
}

/// The tools the prompt describes.
fn tools_of(options: &SystemPromptOptions) -> (r: Vec<String>)
    ensures
        strs(r@) == effective_tools(*options),
{
    if options.selected_tools.len() == 0 {
        let r = vec![
            String::from_str("read"),
            String::from_str("bash"),
            String::from_str("edit"),
            String::from_str("write"),
        ];
        assert(strs(r@) =~= default_tools());
        r
    } else {
        let mut r: Vec<String> = Vec::new();
        let mut i: usize = 0;
        while i < options.selected_tools.len()
            invariant
                i <= options.selected_tools.len(),
                strs(r@) == strs(options.selected_tools@).take(i as int),
            decreases options.selected_tools.len() - i,
        {
            let ghost before = r@;
            let t = options.selected_tools[i].clone();
            r.push(t);
            proof {
                lemma_strs_push(before, t);
            }
            assert(strs(options.selected_tools@).take(i + 1) =~= strs(options.selected_tools@).take(
                i as int,
            ).push(t@));
            i += 1;
        }
        assert(strs(options.selected_tools@).take(options.selected_tools.len() as int) =~= strs(
            options.selected_tools@,
        ));
        r
    }
}

/// The guideline bullets.
fn render_guidelines(options: &SystemPromptOptions, tools: &Vec<String>) -> (r: String)
    requires
        strs(tools@) == effective_tools(*options),
    ensures
        r@ == guidelines_text(*options),
{
    let has_bash = holds(tools, "bash");
    let has_ps = holds(tools, "powershell");
    let has_nav = holds(tools, "grep") || holds(tools, "find") || holds(tools, "ls");
    let mut list: Vec<String> = Vec::new();
    if (has_bash || has_ps) && !has_nav {
        let g = if has_bash && has_ps {
            String::from_str("Use bash or PowerShell for file operations like listing, searching, and finding files")
        } else if has_ps {
            String::from_str("Use PowerShell for file operations like listing, searching, and finding files")
        } else {
            String::from_str("Use bash for file operations like ls, rg, find")
        };
        let ghost before = list@;
        list.push(g);
        proof {
            lemma_strs_push(before, g);
        }
        assert(strs(list@) =~= seq![g@]);
    } else {
        assert(strs(list@) =~= Seq::<Seq<char>>::empty());
    }
    let ghost l0 = strs(list@);
    let ghost gs = strs(options.prompt_guidelines@);
    let mut i: usize = 0;
    while i < options.prompt_guidelines.len()
        invariant
            i <= options.prompt_guidelines.len(),
            gs == strs(options.prompt_guidelines@),
            strs(list@) == add_guidelines(l0, gs.take(i as int)),
        decreases options.prompt_guidelines.len() - i,
    {
        assert(gs.take(i + 1).drop_last() =~= gs.take(i as int));
        assert(gs.take(i + 1).last() == options.prompt_guidelines@[i as int]@);
        let t = trimmed(options.prompt_guidelines[i].as_str());
        if t.unicode_len() > 0 {
            push_unique_exec(&mut list, t);
        }
        i += 1;
    }
    assert(gs.take(options.prompt_guidelines.len() as int) =~= gs);
    push_unique_exec(&mut list, String::from_str("Be concise in your responses"));
    push_unique_exec(&mut list, String::from_str("Show file paths clearly when working with files"));
    let ghost gl = strs(list@);
    let mut bullets: Vec<String> = Vec::new();
    let mut k: usize = 0;
    while k < list.len()
        invariant
            k <= list.len(),
            gl == strs(list@),
            strs(bullets@) == gl.map_values(|g: Seq<char>| "- "@ + g).take(k as int),
        decreases list.len() - k,
    {
        let mut b = String::from_str("- ");
        b.append(list[k].as_str());
        let ghost before = bullets@;
        bullets.push(b);
        proof {
            lemma_strs_push(before, b);
        }
        assert(gl.map_values(|g: Seq<char>| "- "@ + g).take(k + 1) =~= gl.map_values(
            |g: Seq<char>| "- "@ + g,
        ).take(k as int).push(b@));
        k += 1;
    }
    assert(gl.map_values(|g: Seq<char>| "- "@ + g).take(list.len() as int) =~= gl.map_values(
        |g: Seq<char>| "- "@ + g,
    ));
    join_strings(bullets.as_slice(), "\n")
}

/// The available-tools list.
fn render_tools_list(tools: &Vec<String>, snippets: &ToolSnippets) -> (r: String)
    ensures
        r@ == tools_list_spec(strs(tools@), snippets@),
{
    let ghost ts = strs(tools@);
    let mut lines: Vec<String> = Vec::new();
    let mut i: usize = 0;
    while i < tools.len()
        invariant
            i <= tools.len(),
            ts == strs(tools@),
            strs(lines@) == visible_tools(ts.take(i as int), snippets@).map_values(
                |t: Seq<char>| tool_line(t, snippets@),
            ),
        decreases tools.len() - i,
    {
        assert(ts.take(i + 1).drop_last() =~= ts.take(i as int));
        assert(ts.take(i + 1).last() == tools@[i as int]@);
        match snippets.get(tools[i].as_str()) {
            Some(snippet) => {
                let mut line = String::from_str("- ");
                line.append(tools[i].as_str());
                push_str(&mut line, ": ");
                line.append(snippet.as_str());
                let ghost before = lines@;
                lines.push(line);
                proof {
                    lemma_strs_push(before, line);
                }
                assert(visible_tools(ts.take(i + 1), snippets@).map_values(
                    |t: Seq<char>| tool_line(t, snippets@),
                ) =~= visible_tools(ts.take(i as int), snippets@).map_values(
                    |t: Seq<char>| tool_line(t, snippets@),
                ).push(line@));
            },
            None => {},
        }
        i += 1;
    }
    assert(ts.take(tools.len() as int) =~= ts);
    if lines.len() == 0 {
        String::from_str("(none)")
    } else {
        join_strings(lines.as_slice(), "\n")
    }
}

/// The `<project_context>` block.
fn render_context_files(files: &Vec<ContextFile>) -> (r: String)
    ensures
        r@ == context_section(files@),
{
    if files.len() == 0 {
        return String::new();
    }
    let mut out = String::from_str("\n\n<project_context>\n\nProject-specific instructions and guidelines:\n\n");
    let ghost head = out@;
    let mut i: usize = 0;
    while i < files.len()
        invariant
            i <= files.len(),
            out@ == head + context_blocks(files@.take(i as int)),
        decreases files.len() - i,
    {
        push_str(&mut out, "<project_instructions path=\"");
        out.append(files[i].path.as_str());
        push_str(&mut out, "\">\n");
        out.append(files[i].content.as_str());
        push_str(&mut out, "\n</project_instructions>\n\n");
        assert(files@.take(i + 1).drop_last() =~= files@.take(i as int));
        assert(files@.take(i + 1).last() == files@[i as int]);
        assert(out@ =~= head + context_blocks(files@.take(i + 1)));
        i += 1;
    }
    assert(files@.take(files.len() as int) =~= files@);
    push_str(&mut out, "</project_context>\n");
    assert(out@ =~= context_section(files@));
    out
}

/// The working directory with `\` printed as `/`.
fn slashed(cwd: &str) -> (r: String)
    ensures
        r@ == slash_cwd(cwd@),
{
    let v = chars_of(cwd);
    let mut out = String::new();
    let mut i: usize = 0;
    while i < v.len()
        invariant
            i <= v.len(),
            out@ == slash_cwd(v@.take(i as int)),
        decreases v.len() - i,
    {
        let c = if v[i] == '\\' {
            '/'
        } else {
            v[i]
        };
        push_char(&mut out, c);
        assert(slash_cwd(v@.take(i + 1)) =~= slash_cwd(v@.take(i as int)).push(c));
        i += 1;
    }
    assert(v@.take(v.len() as int) =~= v@);
    out
}

/// The first tool that can open a skill file.
fn read_tool_of(tools: &Vec<String>) -> (r: Option<SkillReadTool>)
    ensures
        r == read_tool_from(strs(tools@), 0),
{
    let mut i: usize = 0;
    while i < tools.len()
        invariant
            i <= tools.len(),
            read_tool_from(strs(tools@), 0) == read_tool_from(strs(tools@), i as int),
        decreases tools.len() - i,
    {
        let v = chars_of(tools[i].as_str());
        assert(strs(tools@)[i as int] == v@);
        if equals_lit(&v, "read") {
            return Some(SkillReadTool::Read);
        }
        if equals_lit(&v, "bash") {
            return Some(SkillReadTool::Bash);
        }
        i += 1;
    }
    None
}

/// The built-in (non-custom) prompt body.
fn default_prompt_body(options: &SystemPromptOptions, tools: &Vec<String>) -> (r: String)
    requires
        strs(tools@) == effective_tools(*options),
    ensures
        r@ == default_body(*options),
{
    let mut body = String::from_str("You are an expert coding assistant operating inside pi, a coding agent harness. You help users by reading files, executing commands, editing code, and writing new files.\n\nAvailable tools:\n");
    let list = render_tools_list(tools, &options.tool_snippets);
    body.append(list.as_str());
    push_str(&mut body, "\n\nIn addition to the tools above, you may have access to other custom tools depending on the project.\n\nGuidelines:\n");
    let g = render_guidelines(options, tools);
    body.append(g.as_str());
    match &options.docs {
        Some(d) => {
            push_str(&mut body, "\n\nPi documentation (read only when the user asks about pi itself, its SDK, extensions, themes, skills, or TUI):\n- Main documentation: ");
            body.append(d.readme.as_str());
            push_str(&mut body, "\n- Additional docs: ");
            body.append(d.docs.as_str());
            push_str(&mut body, "\n- Examples: ");
            body.append(d.examples.as_str());
            push_str(&mut body, " (extensions, custom tools, SDK)\n- When reading pi docs or examples, resolve docs/... under Additional docs and examples/... under Examples, not the current working directory\n- When asked about: extensions (docs/extensions.md, examples/extensions/), themes (docs/themes.md), skills (docs/skills.md), prompt templates (docs/prompt-templates.md), TUI components (docs/tui.md), keybindings (docs/keybindings.md), SDK integrations (docs/sdk.md), custom providers (docs/custom-provider.md), adding models (docs/models.md), pi packages (docs/packages.md), environment variables (docs/environment-variables.md)\n- When working on pi topics, read the docs and examples, and follow .md cross-references before implementing\n- Always read pi .md files completely and follow links to related docs (e.g., tui.md for TUI API details)");
        },
        None => {},
    }
    assert(body@ =~= default_body(*options));
    body
}

/// Build the system prompt.
pub fn build_system_prompt(options: &SystemPromptOptions) -> (r: String)
    ensures
        r@ == prompt_spec(*options),
{
    let tools = tools_of(options);
    let mut prompt = match &options.custom_prompt {
        Some(custom) => custom.clone(),
        None => default_prompt_body(options, &tools),
    };
    let ghost p0 = prompt@;
    match &options.append_system_prompt {
        Some(t) => if t.unicode_len() > 0 {
            push_str(&mut prompt, "\n\n");
            prompt.append(t.as_str());
        },
        None => {},
    }
    assert(prompt@ =~= p0 + append_section(options.append_system_prompt));
    let ghost p1 = prompt@;
    let ctx = render_context_files(&options.context_files);
    prompt.append(ctx.as_str());
    let ghost p2 = prompt@;
    match read_tool_of(&tools) {
        Some(t) => if options.skills.len() > 0 {
            let block = format_skills_for_prompt(options.skills.as_slice(), t);
            prompt.append(block.as_str());
        },
        None => {},
    }
    assert(prompt@ =~= p2 + skills_section(*options));
    push_str(&mut prompt, "\nCurrent working directory: ");
    let c = slashed(options.cwd.as_str());
    prompt.append(c.as_str());
    assert(prompt@ =~= prompt_spec(*options));
    prompt
}

/// The prompt always ends with the working-directory line, backslashes
/// printed as slashes.
pub proof fn law_prompt_ends_with_cwd(o: SystemPromptOptions)
    ensures
        crate::text::ends_with(
            prompt_spec(o),
            "\nCurrent working directory: "@ + slash_cwd(o.cwd@),
        ),
        forall|i: int| 0 <= i < slash_cwd(o.cwd@).len() ==> #[trigger] slash_cwd(o.cwd@)[i] != '\\',
{
    let a = (match o.custom_prompt {
        Some(c) => c@,
        None => default_body(o),
    }) + append_section(o.append_system_prompt) + context_section(o.context_files@)
        + skills_section(o);
    let b = "\nCurrent working directory: "@ + slash_cwd(o.cwd@);
    assert(prompt_spec(o) =~= a + b);
    assert((a + b).subrange((a + b).len() - b.len(), (a + b).len() as int) =~= b);
}

/// A custom prompt replaces the built-in body: the prompt starts with it.
pub proof fn law_custom_prompt_comes_first(o: SystemPromptOptions)
    requires
        o.custom_prompt is Some,
    ensures
        crate::text::starts_with(prompt_spec(o), o.custom_prompt.unwrap()@),
{
    let c = o.custom_prompt.unwrap()@;
    let rest = append_section(o.append_system_prompt) + context_section(o.context_files@)
        + skills_section(o) + "\nCurrent working directory: "@ + slash_cwd(o.cwd@);
    assert(prompt_spec(o) =~= c + rest);
    assert((c + rest).subrange(0, c.len() as int) =~= c);
}

proof fn lemma_push_unique_nodup(list: Seq<Seq<char>>, g: Seq<char>)
    requires
        list.no_duplicates(),
    ensures
        push_unique(list, g).no_duplicates(),
{
    if !list.contains(g) {
        let q = list.push(g);
        assert forall|a: int, b: int| 0 <= a < q.len() && 0 <= b < q.len() && a != b implies q[a]
            != q[b] by {
            if a == list.len() {
                assert(list[b] == q[b]);
            } else if b == list.len() {
                assert(list[a] == q[a]);
            }
        }
    }
}

proof fn lemma_add_guidelines_nodup(list: Seq<Seq<char>>, gs: Seq<Seq<char>>)
    requires
        list.no_duplicates(),
    ensures
        add_guidelines(list, gs).no_duplicates(),
    decreases gs.len(),
{
    if gs.len() > 0 {
        lemma_add_guidelines_nodup(list, gs.drop_last());
        lemma_push_unique_nodup(add_guidelines(list, gs.drop_last()), trim(gs.last()));
    }
}

/// Every guideline appears once.
pub proof fn law_guidelines_are_unique(o: SystemPromptOptions)
    ensures
        guideline_list(o).no_duplicates(),
{
    let l0 = match shell_guideline(effective_tools(o)) {
        Some(g) => seq![g],
        None => Seq::empty(),
    };
    lemma_add_guidelines_nodup(l0, strs(o.prompt_guidelines@));
    let l1 = add_guidelines(l0, strs(o.prompt_guidelines@));
    lemma_push_unique_nodup(l1, "Be concise in your responses"@);
    lemma_push_unique_nodup(
        push_unique(l1, "Be concise in your responses"@),
        "Show file paths clearly when working with files"@,
    );
}

// ---------------------------------------------------------------------------
// Documentation roots
// ---------------------------------------------------------------------------

/// The documentation paths under a candidate root.
pub open spec fn docs_under(root: Seq<char>) -> (Seq<char>, Seq<char>, Seq<char>) {
    (join_path(root, "README.md"@), join_path(root, "docs"@), join_path(root, "examples"@))
}

/// A documentation record as plain values.
pub open spec fn docs_view(d: PiDocs) -> (Seq<char>, Seq<char>, Seq<char>) {
    (d.readme@, d.docs@, d.examples@)
}

/// The candidate roots, in the order they are tried: `$PI_PACKAGE_DIR`,
/// `<exe dir>/../share/pi`, and the directory two levels above the
/// executable's directory.
pub open spec fn docs_roots(package_dir: Option<Seq<char>>, exe: Option<Seq<char>>) -> Seq<Seq<char>> {
    let first = match package_dir {
        Some(d) => seq![d],
        None => Seq::empty(),
    };
    match exe {
        None => first,
        Some(e) => match crate::paths::parent_spec(e) {
            None => first,
            Some(dir) => {
                let shared = join_path(join_path(join_path(dir, ".."@), "share"@), "pi"@);
                match crate::paths::parent_spec(dir) {
                    Some(up) => match crate::paths::parent_spec(up) {
                        Some(repo) => first.push(shared).push(repo),
                        None => first.push(shared),
                    },
                    None => first.push(shared),
                }
            },
        },
    }
}

/// The documentation paths under `root`.
fn docs_for(root: &str) -> (r: PiDocs)
    ensures
        docs_view(r) == docs_under(root@),
{
    PiDocs {
        readme: join(root, "README.md"),
        docs: join(root, "docs"),
        examples: join(root, "examples"),
    }
}

/// The documentation layouts to try, in order; the caller keeps the first
/// whose README is a file and whose `docs/` is a directory.
pub fn pi_docs_candidates(package_dir: Option<&str>, exe: Option<&str>) -> (r: Vec<PiDocs>)
    ensures
        r@.map_values(|d: PiDocs| docs_view(d)) == docs_roots(
            match package_dir {
                Some(d) => Some(d@),
                None => None,
            },
            match exe {
                Some(e) => Some(e@),
                None => None,
            },
        ).map_values(|root: Seq<char>| docs_under(root)),
{
    let mut roots: Vec<String> = Vec::new();
    if let Some(d) = package_dir {
        roots.push(String::from_str(d));
    }
    if let Some(e) = exe {
        if let Some(dir) = crate::paths::path_parent(e) {
            let a = join(dir.as_str(), "..");
            let b = join(a.as_str(), "share");
            roots.push(join(b.as_str(), "pi"));
            if let Some(up) = crate::paths::path_parent(dir.as_str()) {
                if let Some(repo) = crate::paths::path_parent(up.as_str()) {
                    roots.push(repo);
                }
            }
        }
    }
    let ghost want = docs_roots(
        match package_dir {
            Some(d) => Some(d@),
            None => None,
        },
        match exe {
            Some(e) => Some(e@),
            None => None,
        },
    );
    assert(strs(roots@) =~= want);
    let mut out: Vec<PiDocs> = Vec::new();
    let mut i: usize = 0;
    while i < roots.len()
        invariant
            i <= roots.len(),
            strs(roots@) == want,
            out@.map_values(|d: PiDocs| docs_view(d)) == want.map_values(
                |root: Seq<char>| docs_under(root),
            ).take(i as int),
        decreases roots.len() - i,
    {
        let d = docs_for(roots[i].as_str());
        let ghost before = out@;
        out.push(d);
        assert(out@.map_values(|d: PiDocs| docs_view(d)) =~= before.map_values(
            |d: PiDocs| docs_view(d),
        ).push(docs_view(d)));
        assert(want.map_values(|root: Seq<char>| docs_under(root)).take(i + 1) =~= want.map_values(
            |root: Seq<char>| docs_under(root),
        ).take(i as int).push(docs_under(roots@[i as int]@)));
        i += 1;
    }
    assert(want.map_values(|root: Seq<char>| docs_under(root)).take(roots.len() as int)
        =~= want.map_values(|root: Seq<char>| docs_under(root)));
    out
}

// ---------------------------------------------------------------------------
// Prompt files
// ---------------------------------------------------------------------------

/// The file whose text replaces the built-in prompt.
pub const SYSTEM_PROMPT_FILE: &'static str = "SYSTEM.md";

/// The file whose text is appended to the prompt.
pub const APPEND_SYSTEM_PROMPT_FILE: &'static str = "APPEND_SYSTEM.md";

/// The project's copy of prompt file `name`: `<cwd>/.pi/<name>`.
pub open spec fn project_prompt_path(cwd: Seq<char>, name: Seq<char>) -> Seq<char> {
    join_path(join_path(cwd, crate::paths::CONFIG_DIR_NAME@), name)
}

/// Which copy of prompt file `name` is read: the project's
/// `<cwd>/.pi/<name>` when the project is trusted and that file exists,
/// otherwise `<agent_dir>/<name>` when it exists, otherwise none. An
/// untrusted project's copy is never read.
pub open spec fn prompt_file_spec(
    cwd: Seq<char>,
    agent_dir: Seq<char>,
    name: Seq<char>,
    project_trusted: bool,
    project_exists: bool,
    agent_exists: bool,
) -> Option<Seq<char>> {
    if project_trusted && project_exists {
        Some(project_prompt_path(cwd, name))
    } else if agent_exists {
        Some(join_path(agent_dir, name))
    } else {
        None
    }
}

/// Choose the copy of prompt file `name` (`SYSTEM.md` or
/// `APPEND_SYSTEM.md`) to read, given whether the project's and the agent
/// directory's copies exist (see [`prompt_file_spec`]).
pub fn prompt_file(
    cwd: &str,
    agent_dir: &str,
    name: &str,
    project_trusted: bool,
    project_exists: bool,
    agent_exists: bool,
) -> (r: Option<String>)
    ensures
        match r {
            Some(p) => prompt_file_spec(cwd@, agent_dir@, name@, project_trusted, project_exists, agent_exists)
                == Some(p@),
            None => prompt_file_spec(cwd@, agent_dir@, name@, project_trusted, project_exists, agent_exists)
                is None,
        },
{
    if project_trusted && project_exists {
        let pi = join(cwd, crate::paths::CONFIG_DIR_NAME);
        Some(join(pi.as_str(), name))
    } else if agent_exists {
        Some(join(agent_dir, name))
    } else {
        None
    }
}

} // verus!
