//! Agent Skills: validation against the Agent Skills spec, the decision
//! that turns one parsed `SKILL.md` into a skill, the first-name-wins
//! merge of every discovered location, and the `<available_skills>`
//! block of the system prompt.
//!
//! Walking directories and reading files is the caller's job; it hands
//! this module the parsed frontmatter fields and the canonical identity
//! of each file.
use vstd::prelude::*;

use crate::paths::{join, path_file_name, path_parent, PathAction, PathKind};
use crate::text::{
    chars_of, contains_seq, decimal, ends_with, ends_with_lit, equals_lit, find_seq_exec, is_blank,
    join_spec,
    join_strings, lemma_strs_push, push_char, push_decimal, push_str, starts_with, starts_with_lit,
    strs, trim,
};

verus! {

/// Max skill name length per the Agent Skills spec.
pub const MAX_SKILL_NAME_LENGTH: usize = 64;

/// Max skill description length per the Agent Skills spec.
pub const MAX_SKILL_DESCRIPTION_LENGTH: usize = 1024;

/// Name of the marker file that turns a directory into a skill root.
pub const SKILL_FILE_NAME: &'static str = "SKILL.md";

/// Message for a name with characters outside `a-z`, `0-9` and `-`.
pub const INVALID_NAME_CHARS: &'static str =
    "name contains invalid characters (must be lowercase a-z, 0-9, hyphens only)";

/// Message for a name with a leading or trailing hyphen.
pub const NAME_EDGE_HYPHEN: &'static str = "name must not start or end with a hyphen";

/// Message for a name with `--`.
pub const NAME_DOUBLE_HYPHEN: &'static str = "name must not contain consecutive hyphens";

/// Message for a missing or blank description.
pub const DESCRIPTION_REQUIRED: &'static str = "description is required";

/// Where a skill was discovered.
#[derive(Debug, Clone, Copy, PartialEq, Eq, Structural)]
pub enum SkillSource {
    /// `~/.pi/agent/skills`.
    User,
    /// `<cwd>/.pi/skills`.
    Project,
    /// A path given explicitly on the command line (`--skill`).
    Path,
}

impl SkillSource {
    /// Stable label used in diagnostics and session logs.
    pub fn as_str(self) -> (r: &'static str)
        ensures
            r@ == match self {
                SkillSource::User => "user"@,
                SkillSource::Project => "project"@,
                SkillSource::Path => "path"@,
            },
    {
        match self {
            SkillSource::User => "user",
            SkillSource::Project => "project",
            SkillSource::Path => "path",
        }
    }
}

/// A discovered skill.
#[derive(Debug, Clone, PartialEq, Eq)]
pub struct Skill {
    /// Frontmatter `name`, or the skill directory's basename.
    pub name: String,
    /// Frontmatter `description` — required for a skill to load.
    pub description: String,
    /// Path to `SKILL.md` (or the loose `.md` file).
    pub file_path: String,
    /// Directory the skill's relative paths resolve against.
    pub base_dir: String,
    /// Where the skill was found.
    pub source: SkillSource,
    /// `disable-model-invocation: true` keeps the skill out of the system
    /// prompt; it can still be invoked explicitly by name.
    pub disable_model_invocation: bool,
}

/// Severity / kind of a resource diagnostic.
#[derive(Debug, Clone, Copy, PartialEq, Eq, Structural)]
pub enum DiagnosticKind {
    /// The skill loaded (or was skipped) but something is off-spec.
    Warning,
    /// Two skills claimed the same name; the first one won.
    Collision,
}

/// A non-fatal problem found while loading skills.
#[derive(Debug, Clone, PartialEq, Eq)]
pub struct SkillDiagnostic {
    /// Severity of the diagnostic.
    pub kind: DiagnosticKind,
    /// Human-readable message.
    pub message: String,
    /// Resource the diagnostic refers to.
    pub path: Option<String>,
}

impl SkillDiagnostic {
    /// A warning about `path` (or about no file in particular).
    pub fn warning(message: String, path: Option<String>) -> (r: Self)
        ensures
            r.kind == DiagnosticKind::Warning,
            r.message == message,
            r.path == path,
    {
        SkillDiagnostic { kind: DiagnosticKind::Warning, message, path }
    }

    /// A name collision reported against the losing file.
    pub fn collision(message: String, path: String) -> (r: Self)
        ensures
            r.kind == DiagnosticKind::Collision,
            r.message == message,
            r.path == Some(path),
    {
        SkillDiagnostic { kind: DiagnosticKind::Collision, message, path: Some(path) }
    }
}

/// Result of one skill load pass.
#[derive(Debug, Clone, PartialEq, Eq)]
pub struct SkillsLoadResult {
    /// Loaded skills, in discovery order (global first, then project).
    pub skills: Vec<Skill>,
    /// Non-fatal problems.
    pub diagnostics: Vec<SkillDiagnostic>,
}

impl SkillsLoadResult {
    /// A pass that found nothing.
    pub fn empty() -> (r: Self)
        ensures
            r.skills@.len() == 0,
            r.diagnostics@.len() == 0,
    {
        SkillsLoadResult { skills: Vec::new(), diagnostics: Vec::new() }
    }
}

/// Options for a load over every configured location.
#[derive(Debug, Clone)]
pub struct LoadSkillsOptions {
    /// Working directory; `<cwd>/.pi/skills` is searched when
    /// `include_defaults` is set.
    pub cwd: String,
    /// Agent config directory (`~/.pi/agent`); `<agent_dir>/skills` is
    /// searched when `include_defaults` is set.
    pub agent_dir: String,
    /// Extra skill files / directories (`--skill`).
    pub skill_paths: Vec<String>,
    /// Whether the two default locations are searched.
    pub include_defaults: bool,
    /// Whether `<cwd>/.pi/skills` may be loaded. Project skills are a
    /// trust-requiring resource; `~/.pi/agent/skills` is never gated.
    pub project_trusted: bool,
}

/// Which tool the prompt advertises for loading a skill file.
#[derive(Debug, Clone, Copy, PartialEq, Eq, Structural)]
pub enum SkillReadTool {
    /// `read` is registered — the default.
    Read,
    /// `read` is unavailable but `bash` is.
    Bash,
}

/// The instruction line naming the tool that opens a skill file.
pub open spec fn instruction_spec(t: SkillReadTool) -> Seq<char> {
    match t {
        SkillReadTool::Read => "Use the read tool to load a skill's file when the task matches its description."@,
        SkillReadTool::Bash => "Use bash to load a skill's file when the task matches its description."@,
    }
}

impl SkillReadTool {
    /// Instruction line telling the model how to open a skill file.
    pub fn instruction(self) -> (r: &'static str)
        ensures
            r@ == instruction_spec(self),
    {
        match self {
            SkillReadTool::Read => "Use the read tool to load a skill's file when the task matches its description.",
            SkillReadTool::Bash => "Use bash to load a skill's file when the task matches its description.",
        }
    }
}

// ---------------------------------------------------------------------------
// Validation
// ---------------------------------------------------------------------------

/// Characters the spec allows in a name.
pub open spec fn is_name_char(c: char) -> bool {
    ('a' <= c && c <= 'z') || ('0' <= c && c <= '9') || c == '-'
}

/// One error list entry when `cond` holds.
pub open spec fn error_if(cond: bool, msg: Seq<char>) -> Seq<Seq<char>> {
    if cond {
        seq![msg]
    } else {
        Seq::empty()
    }
}

/// The rules a skill name breaks, one message each, in rule order.
pub open spec fn name_errors(name: Seq<char>) -> Seq<Seq<char>> {
    error_if(
        name.len() > MAX_SKILL_NAME_LENGTH,
        "name exceeds "@ + decimal(MAX_SKILL_NAME_LENGTH as nat) + " characters ("@ + decimal(
            name.len(),
        ) + ")"@,
    ) + error_if(
        !(forall|i: int| 0 <= i < name.len() ==> is_name_char(#[trigger] name[i])),
        INVALID_NAME_CHARS@,
    ) + error_if(starts_with(name, "-"@) || ends_with(name, "-"@), NAME_EDGE_HYPHEN@) + error_if(
        contains_seq(name, "--"@),
        NAME_DOUBLE_HYPHEN@,
    )
}

/// A well-formed name is valid: at most 64 characters, each a lower-case
/// ASCII letter, an ASCII digit or `-`, no `-` at either end and no two
/// `-` in a row — such a name breaks no rule.
pub proof fn law_well_formed_names_are_valid(name: Seq<char>)
    requires
        name.len() <= 64,
        forall|i: int|
            0 <= i < name.len() ==> ('a' <= #[trigger] name[i] && name[i] <= 'z') || ('0' <= name[i]
                && name[i] <= '9') || name[i] == '-',
        name.len() > 0 ==> name[0] != '-' && name[name.len() - 1] != '-',
        forall|i: int| 0 <= i < name.len() - 1 ==> !(#[trigger] name[i] == '-' && name[i + 1] == '-'),
    ensures
        name_errors(name).len() == 0,
{
    reveal_strlit("-");
    reveal_strlit("--");
    assert(!starts_with(name, "-"@)) by {
        if starts_with(name, "-"@) {
            assert(name.subrange(0, 1)[0] == name[0]);
        }
    }
    assert(!ends_with(name, "-"@)) by {
        if ends_with(name, "-"@) {
            assert(name.subrange(name.len() - 1, name.len() as int)[0] == name[name.len() - 1]);
        }
    }
    assert(!contains_seq(name, "--"@)) by {
        crate::text::lemma_find_seq_bound(name, "--"@, 0);
        if contains_seq(name, "--"@) {
            let k = crate::text::find_seq(name, "--"@)->Some_0;
            assert(name.subrange(k, k + 2)[0] == name[k]);
            assert(name.subrange(k, k + 2)[1] == name[k + 1]);
        }
    }
    assert(forall|i: int| 0 <= i < name.len() ==> is_name_char(#[trigger] name[i]));
    assert(name_errors(name) =~= Seq::<Seq<char>>::empty());
}

/// The rules a skill description breaks.
pub open spec fn description_errors(d: Seq<char>) -> Seq<Seq<char>> {
    if trim(d).len() == 0 {
        seq![DESCRIPTION_REQUIRED@]
    } else if d.len() > MAX_SKILL_DESCRIPTION_LENGTH {
        seq![
            "description exceeds "@ + decimal(MAX_SKILL_DESCRIPTION_LENGTH as nat)
                + " characters ("@ + decimal(d.len()) + ")"@,
        ]
    } else {
        Seq::empty()
    }
}

/// Push `msg` onto `errors` when `cond` holds.
fn push_error_if(errors: &mut Vec<String>, cond: bool, msg: String)
    ensures
        strs(final(errors)@) == strs(old(errors)@) + error_if(cond, msg@),
{
    let ghost before = errors@;
    if cond {
        errors.push(msg);
        proof {
            lemma_strs_push(before, msg);
        }
        assert(strs(errors@) =~= strs(before) + error_if(cond, msg@));
    } else {
        assert(strs(errors@) =~= strs(before) + error_if(cond, msg@));
    }
}

/// "`<prefix><limit> characters (<actual>)`".
fn exceeds_message(prefix: &str, limit: usize, actual: usize) -> (r: String)
    ensures
        r@ == prefix@ + decimal(limit as nat) + " characters ("@ + decimal(actual as nat) + ")"@,
{
    let mut m = String::from_str(prefix);
    push_decimal(&mut m, limit as u64);
    push_str(&mut m, " characters (");
    push_decimal(&mut m, actual as u64);
    push_str(&mut m, ")");
    m
}

/// Validate a skill name against the Agent Skills spec.
///
/// Returns one message per violated rule; an empty vector means valid.
pub fn validate_skill_name(name: &str) -> (r: Vec<String>)
    ensures
        strs(r@) == name_errors(name@),
{
    let v = chars_of(name);
    let mut errors: Vec<String> = Vec::new();
    assert(strs(errors@) =~= Seq::<Seq<char>>::empty());
    let too_long = v.len() > MAX_SKILL_NAME_LENGTH;
    let m1 = if too_long {
        exceeds_message("name exceeds ", MAX_SKILL_NAME_LENGTH, v.len())
    } else {
        String::new()
    };
    push_error_if(&mut errors, too_long, m1);
    let mut all_valid = true;
    let mut i: usize = 0;
    while i < v.len()
        invariant
            i <= v.len(),
            all_valid == (forall|k: int| 0 <= k < i ==> is_name_char(#[trigger] v@[k])),
        decreases v.len() - i,
    {
        let c = v[i];
        if !(('a' <= c && c <= 'z') || ('0' <= c && c <= '9') || c == '-') {
            all_valid = false;
        }
        i += 1;
    }
    push_error_if(&mut errors, !all_valid, String::from_str(INVALID_NAME_CHARS));
    let edge = starts_with_lit(&v, "-") || ends_with_lit(&v, "-");
    push_error_if(&mut errors, edge, String::from_str(NAME_EDGE_HYPHEN));
    let dd = chars_of("--");
    let double = find_seq_exec(&v, &dd).is_some();
    push_error_if(&mut errors, double, String::from_str(NAME_DOUBLE_HYPHEN));
    assert(strs(errors@) =~= name_errors(name@));
    errors
}

/// Validate a skill description against the Agent Skills spec.
pub fn validate_skill_description(description: &str) -> (r: Vec<String>)
    ensures
        strs(r@) == description_errors(description@),
{
    let mut errors: Vec<String> = Vec::new();
    let length = chars_of(description).len();
    if is_blank(description) {
        errors.push(String::from_str(DESCRIPTION_REQUIRED));
    } else if length > MAX_SKILL_DESCRIPTION_LENGTH {
        errors.push(
            exceeds_message("description exceeds ", MAX_SKILL_DESCRIPTION_LENGTH, length),
        );
    }
    assert(strs(errors@) =~= description_errors(description@));
    errors
}

// ---------------------------------------------------------------------------
// XML escaping
// ---------------------------------------------------------------------------

/// The escape of one character.
pub open spec fn escape_char(c: char) -> Seq<char> {
    if c == '&' {
        "&amp;"@
    } else if c == '<' {
        "&lt;"@
    } else if c == '>' {
        "&gt;"@
    } else if c == '"' {
        "&quot;"@
    } else if c == '\'' {
        "&apos;"@
    } else {
        seq![c]
    }
}

/// `s` with the five XML specials replaced by their entities.
pub open spec fn escape_xml_spec(s: Seq<char>) -> Seq<char>
    decreases s.len(),
{
    if s.len() == 0 {
        Seq::empty()
    } else {
        escape_xml_spec(s.drop_last()) + escape_char(s.last())
    }
}

/// Characters that never appear raw in escaped text.
pub open spec fn is_xml_special(c: char) -> bool {
    c == '<' || c == '>' || c == '"' || c == '\''
}

/// Replace `&`, `<`, `>`, `"` and `'` by their XML entities.
pub fn escape_xml(value: &str) -> (r: String)
    ensures
        r@ == escape_xml_spec(value@),
{
    let v = chars_of(value);
    let mut out = String::new();
    let mut i: usize = 0;
    while i < v.len()
        invariant
            i <= v.len(),
            out@ == escape_xml_spec(v@.take(i as int)),
        decreases v.len() - i,
    {
        let c = v[i];
        if c == '&' {
            push_str(&mut out, "&amp;");
        } else if c == '<' {
            push_str(&mut out, "&lt;");
        } else if c == '>' {
            push_str(&mut out, "&gt;");
        } else if c == '"' {
            push_str(&mut out, "&quot;");
        } else if c == '\'' {
            push_str(&mut out, "&apos;");
        } else {
            push_char(&mut out, c);
            assert(out@ =~= escape_xml_spec(v@.take(i as int)) + seq![c]);
        }
        assert(v@.take(i + 1).drop_last() =~= v@.take(i as int));
        assert(v@.take(i + 1).last() == c);
        i += 1;
    }
    assert(v@.take(v.len() as int) =~= v@);
    out
}

/// Escaped text holds none of `<`, `>`, `"`, `'` raw, and every `&` in it
/// starts an entity.
pub proof fn law_escape_xml_has_no_raw_specials(s: Seq<char>)
    ensures
        forall|i: int|
            0 <= i < escape_xml_spec(s).len() ==> !is_xml_special(
                #[trigger] escape_xml_spec(s)[i],
            ),
    decreases s.len(),
{
    reveal_strlit("&amp;");
    reveal_strlit("&lt;");
    reveal_strlit("&gt;");
    reveal_strlit("&quot;");
    reveal_strlit("&apos;");
    if s.len() > 0 {
        law_escape_xml_has_no_raw_specials(s.drop_last());
        let a = escape_xml_spec(s.drop_last());
        let b = escape_char(s.last());
        assert forall|i: int| 0 <= i < (a + b).len() implies !is_xml_special(
            #[trigger] (a + b)[i],
        ) by {
            if i >= a.len() {
                assert((a + b)[i] == b[i - a.len()]);
            } else {
                assert((a + b)[i] == a[i]);
            }
        }
    }
}

/// Text without specials escapes to itself.
pub proof fn law_escape_xml_is_identity_on_plain_text(s: Seq<char>)
    requires
        forall|i: int| 0 <= i < s.len() ==> !is_xml_special(#[trigger] s[i]) && s[i] != '&',
    ensures
        escape_xml_spec(s) == s,
    decreases s.len(),
{
    if s.len() > 0 {
        assert forall|i: int| 0 <= i < s.drop_last().len() implies !is_xml_special(
            #[trigger] s.drop_last()[i],
        ) && s.drop_last()[i] != '&' by {
            assert(s.drop_last()[i] == s[i]);
        }
        law_escape_xml_is_identity_on_plain_text(s.drop_last());
        assert(s[s.len() - 1] == s.last());
        assert(s.drop_last() + seq![s.last()] =~= s);
    }
}

// ---------------------------------------------------------------------------
// The prompt block
// ---------------------------------------------------------------------------

/// The five lines describing one skill.
pub open spec fn skill_block(s: Skill) -> Seq<Seq<char>> {
    seq![
        "  <skill>"@,
        "    <name>"@ + escape_xml_spec(s.name@) + "</name>"@,
        "    <description>"@ + escape_xml_spec(s.description@) + "</description>"@,
        "    <location>"@ + escape_xml_spec(s.file_path@) + "</location>"@,
        "  </skill>"@,
    ]
}

/// The blocks of the skills the model may see, in order.
pub open spec fn skill_blocks(sk: Seq<Skill>) -> Seq<Seq<char>>
    decreases sk.len(),
{
    if sk.len() == 0 {
        Seq::empty()
    } else if sk.last().disable_model_invocation {
        skill_blocks(sk.drop_last())
    } else {
        skill_blocks(sk.drop_last()) + skill_block(sk.last())
    }
}

/// The skills the model may see, in order.
pub open spec fn visible_skills(sk: Seq<Skill>) -> Seq<Skill>
    decreases sk.len(),
{
    if sk.len() == 0 {
        Seq::empty()
    } else if sk.last().disable_model_invocation {
        visible_skills(sk.drop_last())
    } else {
        visible_skills(sk.drop_last()).push(sk.last())
    }
}

/// The lines before the first skill.
pub open spec fn prompt_header(t: SkillReadTool) -> Seq<Seq<char>> {
    seq![
        Seq::empty(),
        Seq::empty(),
        "The following skills provide specialized instructions for specific tasks."@,
        instruction_spec(t),
        "When a skill file references a relative path, resolve it against the skill directory (parent of SKILL.md / dirname of the path) and use that absolute path in tool commands."@,
        Seq::empty(),
        "<available_skills>"@,
    ]
}

/// The `<available_skills>` block: empty when no skill is visible.
pub open spec fn format_skills_spec(sk: Seq<Skill>, t: SkillReadTool) -> Seq<char> {
    if forall|i: int| 0 <= i < sk.len() ==> (#[trigger] sk[i]).disable_model_invocation {
        Seq::empty()
    } else {
        join_spec(prompt_header(t) + skill_blocks(sk) + seq!["</available_skills>"@], "\n"@)
    }
}

/// Push `s` onto `lines`.
fn push_line(lines: &mut Vec<String>, s: String)
    ensures
        strs(final(lines)@) == strs(old(lines)@).push(s@),
{
    let ghost before = lines@;
    lines.push(s);
    proof {
        lemma_strs_push(before, s);
    }
}

/// `<open><escaped value><close>`.
fn tagged(open: &str, value: &str, close: &str) -> (r: String)
    ensures
        r@ == open@ + escape_xml_spec(value@) + close@,
{
    let mut out = String::from_str(open);
    let e = escape_xml(value);
    out.append(e.as_str());
    push_str(&mut out, close);
    out
}

/// Format skills for the system prompt (Agent Skills XML block).
///
/// Returns an empty string when no skill is visible — skills with
/// `disable-model-invocation: true` never reach the model through the
/// prompt, they can only be invoked explicitly.
pub fn format_skills_for_prompt(skills: &[Skill], file_read_tool: SkillReadTool) -> (r: String)
    ensures
        r@ == format_skills_spec(skills@, file_read_tool),
{
    let mut any_visible = false;
    let mut k: usize = 0;
    while k < skills.len()
        invariant
            k <= skills.len(),
            any_visible == (exists|m: int| 0 <= m < k && !(#[trigger] skills@[m]).disable_model_invocation),
        decreases skills.len() - k,
    {
        if !skills[k].disable_model_invocation {
            any_visible = true;
        }
        k += 1;
    }
    if !any_visible {
        return String::new();
    }
    let mut lines: Vec<String> = Vec::new();
    push_line(&mut lines, String::new());
    push_line(&mut lines, String::new());
    push_line(&mut lines, String::from_str("The following skills provide specialized instructions for specific tasks."));
    push_line(&mut lines, String::from_str(file_read_tool.instruction()));
    push_line(&mut lines, String::from_str("When a skill file references a relative path, resolve it against the skill directory (parent of SKILL.md / dirname of the path) and use that absolute path in tool commands."));
    push_line(&mut lines, String::new());
    push_line(&mut lines, String::from_str("<available_skills>"));
    assert(strs(lines@) =~= prompt_header(file_read_tool));
    let mut i: usize = 0;
    while i < skills.len()
        invariant
            i <= skills.len(),
            strs(lines@) == prompt_header(file_read_tool) + skill_blocks(skills@.take(i as int)),
        decreases skills.len() - i,
    {
        let skill = &skills[i];
        let ghost before = strs(lines@);
        assert(skills@.take(i + 1).drop_last() =~= skills@.take(i as int));
        assert(skills@.take(i + 1).last() == *skill);
        if !skill.disable_model_invocation {
            push_line(&mut lines, String::from_str("  <skill>"));
            push_line(&mut lines, tagged("    <name>", skill.name.as_str(), "</name>"));
            push_line(
                &mut lines,
                tagged("    <description>", skill.description.as_str(), "</description>"),
            );
            push_line(
                &mut lines,
                tagged("    <location>", skill.file_path.as_str(), "</location>"),
            );
            push_line(&mut lines, String::from_str("  </skill>"));
            assert(strs(lines@) =~= before + skill_block(*skill));
        }
        i += 1;
    }
    assert(skills@.take(skills.len() as int) =~= skills@);
    push_line(&mut lines, String::from_str("</available_skills>"));
    assert(strs(lines@) =~= prompt_header(file_read_tool) + skill_blocks(skills@) + seq![
        "</available_skills>"@,
    ]);
    join_strings(lines.as_slice(), "\n")
}

/// The blocks only ever come from visible skills.
pub proof fn lemma_blocks_of_visible(sk: Seq<Skill>)
    ensures
        skill_blocks(visible_skills(sk)) == skill_blocks(sk),
        forall|i: int|
            0 <= i < visible_skills(sk).len() ==> !(
            #[trigger] visible_skills(sk)[i]).disable_model_invocation,
    decreases sk.len(),
{
    if sk.len() > 0 {
        lemma_blocks_of_visible(sk.drop_last());
        let v = visible_skills(sk.drop_last());
        if !sk.last().disable_model_invocation {
            assert(v.push(sk.last()).drop_last() =~= v);
        }
    }
}

/// Skills marked `disable-model-invocation` never reach the prompt:
/// dropping them changes nothing in the block.
pub proof fn law_hidden_skills_never_reach_prompt(sk: Seq<Skill>, t: SkillReadTool)
    ensures
        format_skills_spec(visible_skills(sk), t) == format_skills_spec(sk, t),
    decreases sk.len(),
{
    lemma_blocks_of_visible(sk);
    lemma_visible_empty(sk);
}

/// No skill is visible exactly when the visible list is empty.
pub proof fn lemma_visible_empty(sk: Seq<Skill>)
    ensures
        (visible_skills(sk).len() == 0) == (forall|i: int|
            0 <= i < sk.len() ==> (#[trigger] sk[i]).disable_model_invocation),
    decreases sk.len(),
{
    if sk.len() > 0 {
        lemma_visible_empty(sk.drop_last());
        if sk.last().disable_model_invocation {
            assert forall|i: int| 0 <= i < sk.len() && (forall|j: int|
                0 <= j < sk.drop_last().len() ==> (#[trigger] sk.drop_last()[j]).disable_model_invocation)
                implies (#[trigger] sk[i]).disable_model_invocation by {
                if i < sk.len() - 1 {
                    assert(sk.drop_last()[i] == sk[i]);
                }
            }
            if !(forall|j: int| 0 <= j < sk.drop_last().len() ==> (#[trigger] sk.drop_last()[j]).disable_model_invocation) {
                let j = choose|j: int| 0 <= j < sk.drop_last().len() && !(#[trigger] sk.drop_last()[j]).disable_model_invocation;
                assert(sk[j] == sk.drop_last()[j]);
            }
        } else {
            assert(!sk[sk.len() - 1].disable_model_invocation);
        }
    }
}

// ---------------------------------------------------------------------------
// One skill file
// ---------------------------------------------------------------------------

/// The frontmatter fields the loader reads.
#[derive(Debug, Clone, PartialEq, Eq)]
pub struct SkillFrontmatter {
    /// `name`, when it is a string.
    pub name: Option<String>,
    /// `description`, when it is a string.
    pub description: Option<String>,
    /// `disable-model-invocation`, when it is a boolean.
    pub disable_model_invocation: Option<bool>,
}

/// What the caller found in a candidate skill file.
#[derive(Debug, Clone, PartialEq, Eq)]
pub enum SkillFileContent {
    /// The file could not be read; the error's text.
    Unreadable(String),
    /// The frontmatter did not parse; the parser's message.
    BadFrontmatter(String),
    /// The parsed frontmatter.
    Frontmatter(SkillFrontmatter),
}

/// The outcome for one candidate file.
#[derive(Debug, Clone, PartialEq, Eq)]
pub struct LoadedSkill {
    /// The skill, when the file is one.
    pub skill: Option<Skill>,
    /// Problems found on the way.
    pub diagnostics: Vec<SkillDiagnostic>,
}

/// A diagnostic as plain values.
pub open spec fn diag_view(d: SkillDiagnostic) -> (DiagnosticKind, Seq<char>, Option<Seq<char>>) {
    (
        d.kind,
        d.message@,
        match d.path {
            Some(p) => Some(p@),
            None => None,
        },
    )
}

/// Views of a list of diagnostics.
pub open spec fn diags_view(v: Seq<SkillDiagnostic>) -> Seq<
    (DiagnosticKind, Seq<char>, Option<Seq<char>>),
> {
    v.map_values(|d: SkillDiagnostic| diag_view(d))
}

/// Warnings for `msgs`, all about `path`.
pub open spec fn warnings_at(msgs: Seq<Seq<char>>, path: Seq<char>) -> Seq<
    (DiagnosticKind, Seq<char>, Option<Seq<char>>),
> {
    msgs.map_values(|m: Seq<char>| (DiagnosticKind::Warning, m, Some(path)))
}

/// The file is a declared `SKILL.md`.
pub open spec fn is_declared_skill(path: Seq<char>) -> bool {
    crate::paths::file_name(path) == Some(SKILL_FILE_NAME@)
}

/// The field is present and not blank.
pub open spec fn has_text(o: Option<String>) -> bool {
    match o {
        Some(v) => trim(v@).len() > 0,
        None => false,
    }
}

/// The directory a skill's relative paths resolve against.
pub open spec fn base_dir_spec(path: Seq<char>) -> Seq<char> {
    match crate::paths::parent_spec(path) {
        Some(p) => p,
        None => seq!['.'],
    }
}

/// The skill's name: the frontmatter `name` unless blank, else the base
/// directory's name.
pub open spec fn skill_name_spec(fm: SkillFrontmatter, path: Seq<char>) -> Seq<char> {
    if has_text(fm.name) {
        fm.name.unwrap()@
    } else {
        match crate::paths::file_name(base_dir_spec(path)) {
            Some(n) => n,
            None => Seq::empty(),
        }
    }
}

/// Whether the file yields a skill.
pub open spec fn skill_loads(content: SkillFileContent) -> bool {
    content matches SkillFileContent::Frontmatter(fm) && has_text(fm.description)
}

/// The diagnostics one candidate file produces.
pub open spec fn skill_file_diags(path: Seq<char>, content: SkillFileContent) -> Seq<
    (DiagnosticKind, Seq<char>, Option<Seq<char>>),
> {
    match content {
        SkillFileContent::Unreadable(e) => seq![
            (DiagnosticKind::Warning, "failed to read skill file: "@ + e@, Some(path)),
        ],
        SkillFileContent::BadFrontmatter(e) => if is_declared_skill(path) {
            seq![(DiagnosticKind::Warning, e@, Some(path))]
        } else {
            Seq::empty()
        },
        SkillFileContent::Frontmatter(fm) => if !is_declared_skill(path) && !has_text(
            fm.description,
        ) {
            Seq::empty()
        } else {
            let d1 = match fm.description {
                Some(d) => warnings_at(description_errors(d@), path),
                None => warnings_at(seq![DESCRIPTION_REQUIRED@], path),
            };
            if !has_text(fm.description) {
                d1
            } else {
                d1 + warnings_at(name_errors(skill_name_spec(fm, path)), path)
            }
        },
    }
}

/// A warning about `path`.
fn warning(message: String, path: &str) -> (r: SkillDiagnostic)
    ensures
        diag_view(r) == (DiagnosticKind::Warning, message@, Some(path@)),
{
    SkillDiagnostic { kind: DiagnosticKind::Warning, message, path: Some(String::from_str(path)) }
}

/// Push one warning per message.
fn push_warnings(diags: &mut Vec<SkillDiagnostic>, msgs: Vec<String>, path: &str)
    ensures
        diags_view(final(diags)@) == diags_view(old(diags)@) + warnings_at(strs(msgs@), path@),
{
    let mut i: usize = 0;
    let ghost start = diags@;
    while i < msgs.len()
        invariant
            i <= msgs.len(),
            diags_view(diags@) == diags_view(start) + warnings_at(strs(msgs@).take(i as int), path@),
        decreases msgs.len() - i,
    {
        let ghost before = diags@;
        let w = warning(msgs[i].clone(), path);
        assert(msgs[i as int]@ == strs(msgs@)[i as int]);
        diags.push(w);
        assert(diags_view(diags@) =~= diags_view(before).push(diag_view(w)));
        assert(warnings_at(strs(msgs@).take(i + 1), path@) =~= warnings_at(
            strs(msgs@).take(i as int),
            path@,
        ).push((DiagnosticKind::Warning, strs(msgs@)[i as int], Some(path@))));
        i += 1;
    }
    assert(strs(msgs@).take(msgs.len() as int) =~= strs(msgs@));
}

/// Whether a string field is present and not blank.
fn has_text_exec(o: &Option<String>) -> (r: bool)
    ensures
        r == has_text(*o),
{
    match o {
        Some(v) => !is_blank(v.as_str()),
        None => false,
    }
}

/// Turn what was found in one candidate file into a skill and its
/// diagnostics.
///
/// Loose `.md` files in a skills directory are only skills when they carry
/// a description; a declared `SKILL.md` reports every problem it has. A
/// skill without a usable description never loads; an off-spec name only
/// warns.
pub fn load_skill_from_content(file_path: &str, source: SkillSource, content: SkillFileContent) -> (r: LoadedSkill)
    ensures
        r.skill is Some == skill_loads(content),
        diags_view(r.diagnostics@) == skill_file_diags(file_path@, content),
        r.skill matches Some(sk) ==> content matches SkillFileContent::Frontmatter(fm) && {
            &&& sk.name@ == skill_name_spec(fm, file_path@)
            &&& sk.description@ == fm.description.unwrap()@
            &&& sk.file_path@ == file_path@
            &&& sk.base_dir@ == base_dir_spec(file_path@)
            &&& sk.source == source
            &&& sk.disable_model_invocation == match fm.disable_model_invocation {
                Some(b) => b,
                None => false,
            }
        },
{
    let mut diagnostics: Vec<SkillDiagnostic> = Vec::new();
    let declared = match path_file_name(file_path) {
        Some(n) => equals_lit(&chars_of(n.as_str()), SKILL_FILE_NAME),
        None => false,
    };
    let fm = match content {
        SkillFileContent::Unreadable(e) => {
            let mut m = String::from_str("failed to read skill file: ");
            m.append(e.as_str());
            diagnostics.push(warning(m, file_path));
            assert(diags_view(diagnostics@) =~= skill_file_diags(file_path@, content));
            return LoadedSkill { skill: None, diagnostics };
        },
        SkillFileContent::BadFrontmatter(e) => {
            if declared {
                diagnostics.push(warning(e, file_path));
            }
            assert(diags_view(diagnostics@) =~= skill_file_diags(file_path@, content));
            return LoadedSkill { skill: None, diagnostics };
        },
        SkillFileContent::Frontmatter(fm) => fm,
    };
    let has_description = has_text_exec(&fm.description);
    if !declared && !has_description {
        assert(diags_view(diagnostics@) =~= skill_file_diags(file_path@, content));
        return LoadedSkill { skill: None, diagnostics };
    }
    let base_dir = match path_parent(file_path) {
        Some(p) => p,
        None => {
            let mut d = String::new();
            push_char(&mut d, '.');
            d
        },
    };
    match &fm.description {
        Some(value) => push_warnings(
            &mut diagnostics,
            validate_skill_description(value.as_str()),
            file_path,
        ),
        None => {
            diagnostics.push(warning(String::from_str(DESCRIPTION_REQUIRED), file_path));
        },
    }
    assert(diags_view(diagnostics@) =~= match fm.description {
        Some(d) => warnings_at(description_errors(d@), file_path@),
        None => warnings_at(seq![DESCRIPTION_REQUIRED@], file_path@),
    });
    if !has_description {
        return LoadedSkill { skill: None, diagnostics };
    }
    let description = match fm.description {
        Some(d) => d,
        None => String::new(),
    };
    let name = if has_text_exec(&fm.name) {
        match fm.name {
            Some(n) => n,
            None => String::new(),
        }
    } else {
        match path_file_name(base_dir.as_str()) {
            Some(n) => n,
            None => String::new(),
        }
    };
    let ghost d1 = diags_view(diagnostics@);
    push_warnings(&mut diagnostics, validate_skill_name(name.as_str()), file_path);
    let disable_model_invocation = match fm.disable_model_invocation {
        Some(b) => b,
        None => false,
    };
    LoadedSkill {
        skill: Some(
            Skill {
                name,
                description,
                file_path: String::from_str(file_path),
                base_dir,
                source,
                disable_model_invocation,
            },
        ),
        diagnostics,
    }
}

// ---------------------------------------------------------------------------
// Walking a skills directory
// ---------------------------------------------------------------------------

/// Entries the walk never looks at: dot entries and `node_modules`.
pub open spec fn skipped_entry(name: Seq<char>) -> bool {
    starts_with(name, "."@) || name == "node_modules"@
}

/// Whether a directory entry named `name` is visited at all.
pub fn is_walked_entry(name: &str) -> (r: bool)
    ensures
        r == !skipped_entry(name@),
{
    let v = chars_of(name);
    !(starts_with_lit(&v, ".") || equals_lit(&v, "node_modules"))
}

/// Whether a plain file named `name` loads as a loose skill: only `*.md`
/// files directly in the scanned root do.
pub fn is_loose_skill_file(name: &str, include_root_files: bool) -> (r: bool)
    ensures
        r == (include_root_files && ends_with(name@, ".md"@)),
{
    include_root_files && ends_with_lit(&chars_of(name), ".md")
}

/// What the walk does with one entry of a skills directory.
#[derive(Debug, Clone, PartialEq, Eq)]
pub enum SkillVisit {
    /// Walk this sub-directory (its loose `.md` files do not count).
    Descend(String),
    /// Load this file as a skill.
    Load(String),
}

/// A visit as plain values: whether it descends, and the path.
pub open spec fn visit_view(v: SkillVisit) -> (bool, Seq<char>) {
    match v {
        SkillVisit::Descend(p) => (true, p@),
        SkillVisit::Load(p) => (false, p@),
    }
}

/// Directory entries `(name, kind)` as plain values.
pub open spec fn entries_view(v: Seq<(String, PathKind)>) -> Seq<(Seq<char>, PathKind)> {
    v.map_values(|e: (String, PathKind)| (e.0@, e.1))
}

/// First index from `i` on whose name sorts after `name`.
pub open spec fn entry_insert_pos(s: Seq<(Seq<char>, PathKind)>, name: Seq<char>, i: int) -> int
    decreases s.len() - i,
{
    if i < 0 || i >= s.len() {
        s.len() as int
    } else if !crate::text::lex_le(s[i].0, name) {
        i
    } else {
        entry_insert_pos(s, name, i + 1)
    }
}

/// Entries sorted by name (what sorting the joined paths of one directory
/// gives).
pub open spec fn sort_entries(s: Seq<(Seq<char>, PathKind)>) -> Seq<(Seq<char>, PathKind)>
    decreases s.len(),
{
    if s.len() == 0 {
        Seq::empty()
    } else {
        let r = sort_entries(s.drop_last());
        r.insert(entry_insert_pos(r, s.last().0, 0), s.last())
    }
}

/// The visit of one entry, if any: dot entries, `node_modules`, entries
/// whose metadata cannot be read and ignored paths are passed over;
/// directories are walked; `.md` files load only in the scanned root.
pub open spec fn entry_visit(
    dir: Seq<char>,
    include_root_files: bool,
    ignored: Seq<Seq<char>>,
    e: (Seq<char>, PathKind),
) -> Option<(bool, Seq<char>)> {
    let path = crate::paths::join_path(dir, e.0);
    if skipped_entry(e.0) || e.1 == PathKind::Missing || e.1 == PathKind::Unreadable
        || ignored.contains(path) {
        None
    } else if e.1 == PathKind::Directory {
        Some((true, path))
    } else if e.1 == PathKind::File && include_root_files && ends_with(e.0, ".md"@) {
        Some((false, path))
    } else {
        None
    }
}

/// The visits of entries, in order.
pub open spec fn entry_visits(
    dir: Seq<char>,
    include_root_files: bool,
    ignored: Seq<Seq<char>>,
    es: Seq<(Seq<char>, PathKind)>,
) -> Seq<(bool, Seq<char>)>
    decreases es.len(),
{
    if es.len() == 0 {
        Seq::empty()
    } else {
        let r = entry_visits(dir, include_root_files, ignored, es.drop_last());
        match entry_visit(dir, include_root_files, ignored, es.last()) {
            Some(v) => r.push(v),
            None => r,
        }
    }
}

/// How one directory of a skills tree is walked: a `SKILL.md` in it makes
/// the directory itself the skill (loaded unless ignored, nothing else
/// looked at); otherwise its entries, sorted by name.
pub open spec fn skill_dir_plan_spec(
    dir: Seq<char>,
    has_marker: bool,
    include_root_files: bool,
    entries: Seq<(Seq<char>, PathKind)>,
    ignored: Seq<Seq<char>>,
) -> Seq<(bool, Seq<char>)> {
    if has_marker {
        let m = crate::paths::join_path(dir, SKILL_FILE_NAME@);
        if ignored.contains(m) {
            Seq::empty()
        } else {
            seq![(false, m)]
        }
    } else {
        entry_visits(dir, include_root_files, ignored, sort_entries(entries))
    }
}

fn sorted_entries(entries: &[(String, PathKind)]) -> (r: Vec<(String, PathKind)>)
    ensures
        entries_view(r@) == sort_entries(entries_view(entries@)),
{
    let mut out: Vec<(String, PathKind)> = Vec::new();
    let mut i: usize = 0;
    while i < entries.len()
        invariant
            i <= entries.len(),
            entries_view(out@) == sort_entries(entries_view(entries@).take(i as int)),
        decreases entries.len() - i,
    {
        let ghost t = entries_view(entries@).take(i + 1);
        assert(t.drop_last() =~= entries_view(entries@).take(i as int));
        let name = entries[i].0.clone();
        let kind = entries[i].1;
        assert(t.last() == (name@, kind));
        let ghost r = entries_view(out@);
        let mut p: usize = 0;
        while p < out.len()
            invariant
                p <= out.len(),
                r == entries_view(out@),
                entry_insert_pos(r, name@, 0) == entry_insert_pos(r, name@, p as int),
            ensures
                entry_insert_pos(r, name@, 0) == p as int,
            decreases out.len() - p,
        {
            assert(r[p as int].0 == out@[p as int].0@);
            if !crate::text::lex_le_exec(&out[p].0, &name) {
                break;
            }
            p += 1;
        }
        let ghost nv = (name@, kind);
        out.insert(p, (name, kind));
        assert(entries_view(out@) =~= r.insert(p as int, nv));
        i += 1;
    }
    assert(entries_view(entries@).take(entries.len() as int) =~= entries_view(entries@));
    out
}

fn contains_path(v: &[String], x: &String) -> (r: bool)
    ensures
        r == strs(v@).contains(x@),
{
    let mut i: usize = 0;
    while i < v.len()
        invariant
            i <= v.len(),
            forall|k: int| 0 <= k < i ==> v@[k]@ != x@,
        decreases v.len() - i,
    {
        if v[i] == *x {
            assert(strs(v@)[i as int] == x@);
            return true;
        }
        i += 1;
    }
    proof {
        if strs(v@).contains(x@) {
            let k = choose|k: int| 0 <= k < strs(v@).len() && strs(v@)[k] == x@;
            assert(v@[k]@ == x@);
        }
    }
    false
}

/// Plan the walk of one skills directory. `has_marker` says whether
/// `<dir>/SKILL.md` is a file, `entries` lists the directory's entries
/// with their kinds (metadata followed through links), `ignored` holds the
/// paths git ignores.
pub fn skill_dir_plan(
    dir: &str,
    has_marker: bool,
    include_root_files: bool,
    entries: &[(String, PathKind)],
    ignored: &[String],
) -> (r: Vec<SkillVisit>)
    ensures
        r@.map_values(|v: SkillVisit| visit_view(v)) == skill_dir_plan_spec(
            dir@,
            has_marker,
            include_root_files,
            entries_view(entries@),
            strs(ignored@),
        ),
{
    if has_marker {
        let m = join(dir, SKILL_FILE_NAME);
        if contains_path(ignored, &m) {
            let r: Vec<SkillVisit> = Vec::new();
            assert(r@.map_values(|v: SkillVisit| visit_view(v)) =~= Seq::<(bool, Seq<char>)>::empty());
            return r;
        }
        let ghost mv = m@;
        let r = vec![SkillVisit::Load(m)];
        assert(r@.map_values(|v: SkillVisit| visit_view(v)) =~= seq![(false, mv)]);
        return r;
    }
    let sorted = sorted_entries(entries);
    let mut out: Vec<SkillVisit> = Vec::new();
    let mut i: usize = 0;
    while i < sorted.len()
        invariant
            i <= sorted.len(),
            out@.map_values(|v: SkillVisit| visit_view(v)) == entry_visits(
                dir@,
                include_root_files,
                strs(ignored@),
                entries_view(sorted@).take(i as int),
            ),
        decreases sorted.len() - i,
    {
        let ghost t = entries_view(sorted@).take(i + 1);
        assert(t.drop_last() =~= entries_view(sorted@).take(i as int));
        let name = &sorted[i].0;
        let kind = sorted[i].1;
        assert(t.last() == (name@, kind));
        let ghost before = out@;
        if is_walked_entry(name.as_str()) {
            let path = join(dir, name.as_str());
            let readable = match kind {
                PathKind::Missing | PathKind::Unreadable => false,
                _ => true,
            };
            if readable && !contains_path(ignored, &path) {
                match kind {
                    PathKind::Directory => {
                        let ghost pv = path@;
                        out.push(SkillVisit::Descend(path));
                        assert(out@.map_values(|v: SkillVisit| visit_view(v)) =~= before.map_values(
                            |v: SkillVisit| visit_view(v),
                        ).push((true, pv)));
                    },
                    PathKind::File => {
                        if is_loose_skill_file(name.as_str(), include_root_files) {
                            let ghost pv = path@;
                            out.push(SkillVisit::Load(path));
                            assert(out@.map_values(|v: SkillVisit| visit_view(v)) =~= before.map_values(
                                |v: SkillVisit| visit_view(v),
                            ).push((false, pv)));
                        }
                    },
                    _ => {},
                }
            }
        }
        i += 1;
    }
    assert(entries_view(sorted@).take(sorted.len() as int) =~= entries_view(sorted@));
    out
}

/// The candidate an entry contributes to the `git check-ignore` batch:
/// every walked entry whose metadata can be read, and whether the batch
/// descends into it.
pub open spec fn candidate_of(dir: Seq<char>, e: (Seq<char>, PathKind)) -> Option<(Seq<char>, bool)> {
    if skipped_entry(e.0) || e.1 == PathKind::Missing || e.1 == PathKind::Unreadable {
        None
    } else {
        Some((crate::paths::join_path(dir, e.0), e.1 == PathKind::Directory))
    }
}

/// The candidates of entries, in order.
pub open spec fn candidates_of(dir: Seq<char>, es: Seq<(Seq<char>, PathKind)>) -> Seq<(Seq<char>, bool)>
    decreases es.len(),
{
    if es.len() == 0 {
        Seq::empty()
    } else {
        let r = candidates_of(dir, es.drop_last());
        match candidate_of(dir, es.last()) {
            Some(c) => r.push(c),
            None => r,
        }
    }
}

/// The candidates of one directory: its `SKILL.md` alone when it has one,
/// otherwise its entries, sorted by name.
pub open spec fn candidates_spec(dir: Seq<char>, has_marker: bool, entries: Seq<(Seq<char>, PathKind)>) -> Seq<
    (Seq<char>, bool),
> {
    if has_marker {
        seq![(crate::paths::join_path(dir, SKILL_FILE_NAME@), false)]
    } else {
        candidates_of(dir, sort_entries(entries))
    }
}

/// The paths of one directory the walk may look at, for the single
/// `git check-ignore` batch, each with whether to list it in turn.
pub fn skill_candidates(dir: &str, has_marker: bool, entries: &[(String, PathKind)]) -> (r: Vec<(String, bool)>)
    ensures
        r@.map_values(|c: (String, bool)| (c.0@, c.1)) == candidates_spec(
            dir@,
            has_marker,
            entries_view(entries@),
        ),
{
    if has_marker {
        let m = join(dir, SKILL_FILE_NAME);
        let ghost mv = m@;
        let r = vec![(m, false)];
        assert(r@.map_values(|c: (String, bool)| (c.0@, c.1)) =~= seq![(mv, false)]);
        return r;
    }
    let sorted = sorted_entries(entries);
    let mut out: Vec<(String, bool)> = Vec::new();
    let mut i: usize = 0;
    while i < sorted.len()
        invariant
            i <= sorted.len(),
            out@.map_values(|c: (String, bool)| (c.0@, c.1)) == candidates_of(
                dir@,
                entries_view(sorted@).take(i as int),
            ),
        decreases sorted.len() - i,
    {
        let ghost t = entries_view(sorted@).take(i + 1);
        assert(t.drop_last() =~= entries_view(sorted@).take(i as int));
        let name = &sorted[i].0;
        let kind = sorted[i].1;
        assert(t.last() == (name@, kind));
        let readable = match kind {
            PathKind::Missing | PathKind::Unreadable => false,
            _ => true,
        };
        if is_walked_entry(name.as_str()) && readable {
            let ghost before = out@;
            let path = join(dir, name.as_str());
            let is_dir = match kind {
                PathKind::Directory => true,
                _ => false,
            };
            let ghost pv = path@;
            out.push((path, is_dir));
            assert(out@.map_values(|c: (String, bool)| (c.0@, c.1)) =~= before.map_values(
                |c: (String, bool)| (c.0@, c.1),
            ).push((pv, is_dir)));
        }
        i += 1;
    }
    assert(entries_view(sorted@).take(sorted.len() as int) =~= entries_view(sorted@));
    out
}

/// The action for one `--skill` path.
pub open spec fn skill_path_action_spec(path: Seq<char>, kind: PathKind) -> Option<Seq<char>> {
    match kind {
        PathKind::Missing => Some("skill path does not exist"@),
        PathKind::Unreadable => Some("failed to read skill path"@),
        PathKind::Directory => None,
        PathKind::File => if crate::paths::has_md_extension(path) {
            None
        } else {
            Some("skill path is not a markdown file"@)
        },
        PathKind::Other => Some("skill path is not a markdown file"@),
    }
}

/// Decide what an explicit `--skill` path is used for.
pub fn classify_skill_path(path: &str, kind: PathKind) -> (r: PathAction)
    ensures
        match r {
            PathAction::ScanDirectory => kind == PathKind::Directory,
            PathAction::LoadFile => kind == PathKind::File && crate::paths::has_md_extension(path@),
            PathAction::Warn(m) => skill_path_action_spec(path@, kind) == Some(m@),
        },
        r is Warn <==> skill_path_action_spec(path@, kind) is Some,
{
    match kind {
        PathKind::Missing => PathAction::Warn(String::from_str("skill path does not exist")),
        PathKind::Unreadable => PathAction::Warn(String::from_str("failed to read skill path")),
        PathKind::Directory => PathAction::ScanDirectory,
        PathKind::File => {
            if crate::paths::is_md_path(path) {
                PathAction::LoadFile
            } else {
                PathAction::Warn(String::from_str("skill path is not a markdown file"))
            }
        },
        PathKind::Other => PathAction::Warn(String::from_str("skill path is not a markdown file")),
    }
}

/// The default locations, in load order: `<agent_dir>/skills`, then
/// `<cwd>/.pi/skills` when the project is trusted. None without defaults.
pub fn default_skill_dirs(options: &LoadSkillsOptions) -> (r: Vec<(String, SkillSource)>)
    ensures
        r@.len() == if !options.include_defaults {
            0nat
        } else if options.project_trusted {
            2nat
        } else {
            1nat
        },
        options.include_defaults ==> r@[0].0@ == crate::paths::join_path(options.agent_dir@, "skills"@)
            && r@[0].1 == SkillSource::User,
        options.include_defaults && options.project_trusted ==> r@[1].0@
            == crate::paths::join_path(
            crate::paths::join_path(options.cwd@, crate::paths::CONFIG_DIR_NAME@),
            "skills"@,
        ) && r@[1].1 == SkillSource::Project,
{
    let mut out: Vec<(String, SkillSource)> = Vec::new();
    if options.include_defaults {
        out.push((join(options.agent_dir.as_str(), "skills"), SkillSource::User));
        if options.project_trusted {
            let pi = join(options.cwd.as_str(), crate::paths::CONFIG_DIR_NAME);
            out.push((join(pi.as_str(), "skills"), SkillSource::Project));
        }
    }
    out
}

// ---------------------------------------------------------------------------
// Merging locations
// ---------------------------------------------------------------------------

/// Model of the merge: skills kept so far, file identities seen, and the
/// two diagnostic lists (collisions are reported last).
pub ghost struct CollectorModel {
    pub skills: Seq<Skill>,
    pub seen: Seq<Seq<char>>,
    pub diagnostics: Seq<(DiagnosticKind, Seq<char>, Option<Seq<char>>)>,
    pub collisions: Seq<(DiagnosticKind, Seq<char>, Option<Seq<char>>)>,
}

/// Names of a list of skills.
pub open spec fn names(sk: Seq<Skill>) -> Seq<Seq<char>> {
    sk.map_values(|s: Skill| s.name@)
}

/// The collision diagnostic for a skill whose name is taken.
pub open spec fn collision_of(s: Skill) -> (DiagnosticKind, Seq<char>, Option<Seq<char>>) {
    (DiagnosticKind::Collision, "name \""@ + s.name@ + "\" collision"@, Some(s.file_path@))
}

/// One skill offered to the merge: a file already seen is dropped, a
/// taken name is a collision, anything else is kept.
pub open spec fn add_one(m: CollectorModel, s: Skill, id: Seq<char>) -> CollectorModel {
    if m.seen.contains(id) {
        m
    } else if names(m.skills).contains(s.name@) {
        CollectorModel { seen: m.seen.push(id), collisions: m.collisions.push(collision_of(s)), ..m }
    } else {
        CollectorModel { seen: m.seen.push(id), skills: m.skills.push(s), ..m }
    }
}

/// Skills offered in order.
pub open spec fn add_all(m: CollectorModel, sk: Seq<Skill>, ids: Seq<Seq<char>>) -> CollectorModel
    decreases sk.len(),
{
    if sk.len() == 0 {
        m
    } else {
        add_one(add_all(m, sk.drop_last(), ids.drop_last()), sk.last(), ids.last())
    }
}

/// Merges the results of every location: the first definition of a name
/// wins, the same file reached twice loads once.
pub struct SkillCollector {
    skills: Vec<Skill>,
    seen_files: Vec<String>,
    diagnostics: Vec<SkillDiagnostic>,
    collisions: Vec<SkillDiagnostic>,
}

impl View for SkillCollector {
    type V = CollectorModel;

    closed spec fn view(&self) -> CollectorModel {
        CollectorModel {
            skills: self.skills@,
            seen: strs(self.seen_files@),
            diagnostics: diags_view(self.diagnostics@),
            collisions: diags_view(self.collisions@),
        }
    }
}

/// Whether some skill in `v` is named `name`.
fn has_name(v: &Vec<Skill>, name: &String) -> (r: bool)
    ensures
        r == names(v@).contains(name@),
{
    let mut i: usize = 0;
    while i < v.len()
        invariant
            i <= v.len(),
            forall|k: int| 0 <= k < i ==> v@[k].name@ != name@,
        decreases v.len() - i,
    {
        if v[i].name == *name {
            assert(names(v@)[i as int] == name@);
            return true;
        }
        i += 1;
    }
    proof {
        if names(v@).contains(name@) {
            let k = choose|k: int| 0 <= k < names(v@).len() && names(v@)[k] == name@;
            assert(v@[k].name@ == name@);
        }
    }
    false
}

/// Whether `v` holds a string equal to `s`.
fn has_string(v: &Vec<String>, s: &String) -> (r: bool)
    ensures
        r == strs(v@).contains(s@),
{
    let mut i: usize = 0;
    while i < v.len()
        invariant
            i <= v.len(),
            forall|k: int| 0 <= k < i ==> v@[k]@ != s@,
        decreases v.len() - i,
    {
        if v[i] == *s {
            assert(strs(v@)[i as int] == s@);
            return true;
        }
        i += 1;
    }
    proof {
        if strs(v@).contains(s@) {
            let k = choose|k: int| 0 <= k < strs(v@).len() && strs(v@)[k] == s@;
            assert(v@[k]@ == s@);
        }
    }
    false
}

impl SkillCollector {
    /// An empty merge.
    pub fn new() -> (r: Self)
        ensures
            r@.skills.len() == 0,
            r@.seen.len() == 0,
            r@.diagnostics.len() == 0,
            r@.collisions.len() == 0,
    {
        SkillCollector {
            skills: Vec::new(),
            seen_files: Vec::new(),
            diagnostics: Vec::new(),
            collisions: Vec::new(),
        }
    }

    /// Add one location's result. `identities[i]` is the canonical path of
    /// `result.skills[i]` (symlinks resolved), so one file reached through
    /// two locations loads once.
    pub fn add(&mut self, result: SkillsLoadResult, identities: &[String])
        requires
            identities@.len() == result.skills@.len(),
        ensures
            final(self)@ == add_all(
                CollectorModel {
                    diagnostics: old(self)@.diagnostics + diags_view(result.diagnostics@),
                    ..old(self)@
                },
                result.skills@,
                strs(identities@),
            ),
    {
        let mut result = result;
        let ghost all = result.skills@;
        let ghost ids = strs(identities@);
        let ghost d0 = diags_view(self.diagnostics@);
        let ghost d1 = diags_view(result.diagnostics@);
        self.diagnostics.append(&mut result.diagnostics);
        assert(diags_view(self.diagnostics@) =~= d0 + d1);
        let ghost start = self@;
        let n = result.skills.len();
        let mut i: usize = 0;
        while i < n
            invariant
                i <= n == all.len() == ids.len(),
                identities@.len() == n,
                ids == strs(identities@),
                result.skills@ == all.skip(i as int),
                self@ == add_all(start, all.take(i as int), ids.take(i as int)),
            decreases n - i,
        {
            let skill = result.skills.remove(0);
            assert(skill == all[i as int]);
            assert(all.skip(i as int).skip(1) =~= all.skip(i + 1));
            let identity = &identities[i];
            assert(identity@ == ids[i as int]);
            assert(all.take(i + 1).drop_last() =~= all.take(i as int));
            assert(ids.take(i + 1).drop_last() =~= ids.take(i as int));
            assert(all.take(i + 1).last() == skill);
            assert(ids.take(i + 1).last() == identity@);
            if has_string(&self.seen_files, identity) {
            } else {
                let ghost seen0 = self.seen_files@;
                let id_copy = identity.clone();
                self.seen_files.push(id_copy);
                proof {
                    lemma_strs_push(seen0, id_copy);
                }
                if has_name(&self.skills, &skill.name) {
                    let mut m = String::from_str("name \"");
                    m.append(skill.name.as_str());
                    push_str(&mut m, "\" collision");
                    let d = SkillDiagnostic {
                        kind: DiagnosticKind::Collision,
                        message: m,
                        path: Some(skill.file_path.clone()),
                    };
                    let ghost c0 = self.collisions@;
                    self.collisions.push(d);
                    assert(diags_view(self.collisions@) =~= diags_view(c0).push(diag_view(d)));
                } else {
                    self.skills.push(skill);
                }
            }
            i += 1;
        }
        assert(all.take(n as int) =~= all);
        assert(ids.take(n as int) =~= ids);
    }

    /// The merged result: kept skills in discovery order, then every
    /// diagnostic, collisions last.
    pub fn finish(self) -> (r: SkillsLoadResult)
        ensures
            r.skills@ == self@.skills,
            diags_view(r.diagnostics@) == self@.diagnostics + self@.collisions,
    {
        let mut s = self;
        let ghost d0 = diags_view(s.diagnostics@);
        let ghost c0 = diags_view(s.collisions@);
        s.diagnostics.append(&mut s.collisions);
        assert(diags_view(s.diagnostics@) =~= d0 + c0);
        SkillsLoadResult { skills: s.skills, diagnostics: s.diagnostics }
    }
}

/// The number of default skill locations a load searches.
pub open spec fn default_skill_count(options: LoadSkillsOptions) -> nat {
    if !options.include_defaults {
        0
    } else if options.project_trusted {
        2
    } else {
        1
    }
}

/// Whether `a` is what an explicit skill path of kind `kind` at `path` is
/// used for.
pub open spec fn skill_action_is(a: PathAction, path: Seq<char>, kind: PathKind) -> bool {
    &&& match a {
        PathAction::ScanDirectory => kind == PathKind::Directory,
        PathAction::LoadFile => kind == PathKind::File && crate::paths::has_md_extension(path),
        PathAction::Warn(m) => skill_path_action_spec(path, kind) == Some(m@),
    }
    &&& (a is Warn <==> skill_path_action_spec(path, kind) is Some)
}

/// The locations of a skills load, in load order: the default directories
/// (scanned), then each explicit `--skill` path, resolved, with what it is
/// used for. `kinds[i]` is what the filesystem holds at explicit path `i`
/// once resolved (see [`crate::paths::explicit_path`]).
pub fn skill_load_plan(
    options: &LoadSkillsOptions,
    current_dir: &str,
    home: Option<&str>,
    kinds: &[PathKind],
) -> (r: Vec<(String, SkillSource, PathAction)>)
    requires
        kinds@.len() == options.skill_paths@.len(),
    ensures
        r@.len() == default_skill_count(*options) + kinds@.len(),
        options.include_defaults ==> r@[0].0@ == crate::paths::join_path(options.agent_dir@, "skills"@)
            && r@[0].1 == SkillSource::User && r@[0].2 == PathAction::ScanDirectory,
        options.include_defaults && options.project_trusted ==> r@[1].0@ == crate::paths::join_path(
            crate::paths::join_path(options.cwd@, crate::paths::CONFIG_DIR_NAME@),
            "skills"@,
        ) && r@[1].1 == SkillSource::Project && r@[1].2 == PathAction::ScanDirectory,
        forall|j: int|
            0 <= j < kinds@.len() ==> {
                let e = #[trigger] r@[default_skill_count(*options) + j];
                let p = crate::paths::explicit_path_spec(
                    options.skill_paths@[j]@,
                    options.cwd@,
                    current_dir@,
                    match home {
                        Some(h) => Some(h@),
                        None => None,
                    },
                );
                &&& e.0@ == p
                &&& e.1 == SkillSource::Path
                &&& skill_action_is(e.2, p, kinds@[j])
            },
{
    let defaults = default_skill_dirs(options);
    let mut out: Vec<(String, SkillSource, PathAction)> = Vec::new();
    let mut i: usize = 0;
    while i < defaults.len()
        invariant
            i <= defaults.len(),
            out@.len() == i,
            forall|k: int|
                0 <= k < i ==> (#[trigger] out@[k]).0@ == defaults@[k].0@ && out@[k].1 == defaults@[k].1
                    && out@[k].2 == PathAction::ScanDirectory,
        decreases defaults.len() - i,
    {
        let (path, source) = &defaults[i];
        out.push((path.clone(), *source, PathAction::ScanDirectory));
        i += 1;
    }
    let nd = defaults.len();
    let mut j: usize = 0;
    while j < kinds.len()
        invariant
            j <= kinds.len(),
            kinds@.len() == options.skill_paths@.len(),
            nd == defaults@.len(),
            nd == default_skill_count(*options),
            out@.len() == nd + j,
            forall|k: int|
                0 <= k < nd ==> (#[trigger] out@[k]).0@ == defaults@[k].0@ && out@[k].1 == defaults@[k].1
                    && out@[k].2 == PathAction::ScanDirectory,
            forall|k: int|
                0 <= k < j ==> {
                    let e = #[trigger] out@[nd + k];
                    let p = crate::paths::explicit_path_spec(
                        options.skill_paths@[k]@,
                        options.cwd@,
                        current_dir@,
                        match home {
                            Some(h) => Some(h@),
                            None => None,
                        },
                    );
                    &&& e.0@ == p
                    &&& e.1 == SkillSource::Path
                    &&& skill_action_is(e.2, p, kinds@[k])
                },
        decreases kinds.len() - j,
    {
        let p = crate::paths::explicit_path(options.skill_paths[j].as_str(), options.cwd.as_str(), current_dir, home);
        let action = classify_skill_path(p.as_str(), kinds[j]);
        out.push((p, SkillSource::Path, action));
        j += 1;
    }
    out
}

/// The merge of location results offered in order.
pub open spec fn collect_loads(loads: Seq<(SkillsLoadResult, Vec<String>)>) -> CollectorModel
    decreases loads.len(),
{
    if loads.len() == 0 {
        CollectorModel {
            skills: Seq::empty(),
            seen: Seq::empty(),
            diagnostics: Seq::empty(),
            collisions: Seq::empty(),
        }
    } else {
        let m = collect_loads(loads.drop_last());
        let (res, ids) = loads.last();
        add_all(
            CollectorModel { diagnostics: m.diagnostics + diags_view(res.diagnostics@), ..m },
            res.skills@,
            strs(ids@),
        )
    }
}

/// Merge the results of every location of a load, in plan order, each
/// with the canonical identities of its skills: the first definition of a
/// name wins, a file reached twice loads once, and the name collisions are
/// reported after every other diagnostic.
pub fn merge_skill_loads(loads: Vec<(SkillsLoadResult, Vec<String>)>) -> (r: SkillsLoadResult)
    requires
        forall|i: int| 0 <= i < loads@.len() ==> (#[trigger] loads@[i]).1@.len() == loads@[i].0.skills@.len(),
    ensures
        r.skills@ == collect_loads(loads@).skills,
        diags_view(r.diagnostics@) == collect_loads(loads@).diagnostics + collect_loads(loads@).collisions,
{
    let ghost all = loads@;
    let n = loads.len();
    let mut rest = loads;
    let mut c = SkillCollector::new();
    proof {
        assert(all.take(0) =~= Seq::<(SkillsLoadResult, Vec<String>)>::empty());
        assert(c@.skills =~= Seq::<Skill>::empty());
        assert(c@.seen =~= Seq::<Seq<char>>::empty());
        assert(c@.diagnostics =~= Seq::<(DiagnosticKind, Seq<char>, Option<Seq<char>>)>::empty());
        assert(c@.collisions =~= Seq::<(DiagnosticKind, Seq<char>, Option<Seq<char>>)>::empty());
        assert(c@ == collect_loads(all.take(0)));
    }
    let mut k: usize = 0;
    while rest.len() > 0
        invariant
            k <= all.len(),
            rest@ == all.skip(k as int),
            k + rest@.len() == all.len(),
            all.len() == n,
            c@ == collect_loads(all.take(k as int)),
            forall|i: int| 0 <= i < all.len() ==> (#[trigger] all[i]).1@.len() == all[i].0.skills@.len(),
        decreases rest.len(),
    {
        let (res, ids) = rest.remove(0);
        proof {
            assert(all[k as int] == (res, ids));
            assert(all.take(k + 1).drop_last() =~= all.take(k as int));
            assert(all.take(k + 1).last() == all[k as int]);
            assert(rest@ =~= all.skip(k + 1));
        }
        c.add(res, ids.as_slice());
        k += 1;
    }
    proof {
        assert(all.take(k as int) =~= all);
    }
    c.finish()
}

/// The merge never keeps two skills with the same name.
pub proof fn law_merged_names_are_unique(m: CollectorModel, sk: Seq<Skill>, ids: Seq<Seq<char>>)
    requires
        names(m.skills).no_duplicates(),
    ensures
        names(add_all(m, sk, ids).skills).no_duplicates(),
    decreases sk.len(),
{
    if sk.len() > 0 {
        law_merged_names_are_unique(m, sk.drop_last(), ids.drop_last());
        let p = add_all(m, sk.drop_last(), ids.drop_last());
        let s = sk.last();
        if !p.seen.contains(ids.last()) && !names(p.skills).contains(s.name@) {
            assert(names(p.skills.push(s)) =~= names(p.skills).push(s.name@));
            let q = names(p.skills).push(s.name@);
            assert forall|a: int, b: int| 0 <= a < q.len() && 0 <= b < q.len() && a != b
                implies q[a] != q[b] by {
                if a == q.len() - 1 {
                    assert(names(p.skills)[b] == q[b]);
                } else if b == q.len() - 1 {
                    assert(names(p.skills)[a] == q[a]);
                }
            }
        }
    }
}

/// The first definition of a name wins: skills kept earlier stay, in
/// their place, whatever later locations offer.
pub proof fn law_first_definition_wins(m: CollectorModel, sk: Seq<Skill>, ids: Seq<Seq<char>>)
    ensures
        add_all(m, sk, ids).skills.take(m.skills.len() as int) == m.skills,
        m.skills.len() <= add_all(m, sk, ids).skills.len(),
    decreases sk.len(),
{
    if sk.len() > 0 {
        law_first_definition_wins(m, sk.drop_last(), ids.drop_last());
        let p = add_all(m, sk.drop_last(), ids.drop_last());
        assert(p.skills.push(sk.last()).take(m.skills.len() as int) =~= p.skills.take(
            m.skills.len() as int,
        ));
    } else {
        assert(m.skills.take(m.skills.len() as int) =~= m.skills);
    }
}

/// A skill whose name is already kept is reported as a collision, never
/// kept.
pub proof fn law_taken_name_collides(m: CollectorModel, s: Skill, id: Seq<char>)
    requires
        !m.seen.contains(id),
        names(m.skills).contains(s.name@),
    ensures
        add_one(m, s, id).skills == m.skills,
        add_one(m, s, id).collisions == m.collisions.push(collision_of(s)),
{
}

/// The global agent config directory (`~/.pi/agent`), given the home
/// directory.
pub fn agent_dir(home: Option<&str>) -> (r: Option<String>)
    ensures
        match home {
            Some(h) => r is Some && r.unwrap()@ == crate::paths::join_path(
                crate::paths::join_path(h@, crate::paths::CONFIG_DIR_NAME@),
                "agent"@,
            ),
            None => r is None,
        },
{
    crate::paths::agent_dir(home)
}

/// The user's home directory: `$HOME`, else `%USERPROFILE%`.
pub fn home_dir(home: Option<&str>, user_profile: Option<&str>) -> (r: Option<String>)
    ensures
        match home {
            Some(h) => r is Some && r.unwrap()@ == h@,
            None => match user_profile {
                Some(u) => r is Some && r.unwrap()@ == u@,
                None => r is None,
            },
        },
{
    crate::paths::home_dir(home, user_profile)
}

// ---------------------------------------------------------------------------
// Ignored paths
// ---------------------------------------------------------------------------

/// `path` relative to `root`, as `Path::strip_prefix` gives it for the
/// joined paths a walk produces, with `\` written as `/`; `None` when
/// `path` is not below `root` or is `root` itself.
pub open spec fn relative_to(root: Seq<char>, path: Seq<char>) -> Option<Seq<char>> {
    if !starts_with(path, root) {
        None
    } else {
        let rest = path.subrange(root.len() as int, path.len() as int);
        if rest.len() == 0 {
            None
        } else if ends_with(root, "/"@) {
            Some(forward_slashes(rest))
        } else if rest[0] == '/' && rest.len() > 1 {
            Some(forward_slashes(rest.subrange(1, rest.len() as int)))
        } else {
            None
        }
    }
}

/// `s` with every `\` written as `/`.
pub open spec fn forward_slashes(s: Seq<char>) -> Seq<char> {
    s.map_values(|c: char| if c == '\\' { '/' } else { c })
}

/// The candidates below `root`, each with its relative path.
pub open spec fn relative_candidates_spec(root: Seq<char>, cs: Seq<Seq<char>>) -> Seq<(Seq<char>, Seq<char>)>
    decreases cs.len(),
{
    if cs.len() == 0 {
        Seq::empty()
    } else {
        let r = relative_candidates_spec(root, cs.drop_last());
        match relative_to(root, cs.last()) {
            Some(rel) => r.push((cs.last(), rel)),
            None => r,
        }
    }
}

/// The views of `(path, relative path)` pairs.
pub open spec fn path_pairs(v: Seq<(String, String)>) -> Seq<(Seq<char>, Seq<char>)> {
    v.map_values(|e: (String, String)| (e.0@, e.1@))
}

fn relative_path(root: &str, path: &str) -> (r: Option<String>)
    ensures
        match r {
            Some(x) => relative_to(root@, path@) == Some(x@),
            None => relative_to(root@, path@) is None,
        },
{
    let pv = chars_of(path);
    let rv = chars_of(root);
    if !crate::text::starts_with_exec(&pv, &rv) {
        return None;
    }
    let n = rv.len();
    if n == pv.len() {
        return None;
    }
    let start = if ends_with_lit(&rv, "/") {
        n
    } else if pv[n] == '/' && pv.len() > n + 1 {
        n + 1
    } else {
        return None;
    };
    let mut out = String::new();
    let mut i = start;
    let ghost rest = pv@.subrange(start as int, pv@.len() as int);
    while i < pv.len()
        invariant
            start <= i <= pv.len(),
            rest == pv@.subrange(start as int, pv@.len() as int),
            out@ == forward_slashes(rest.take((i - start) as int)),
        decreases pv.len() - i,
    {
        let c = pv[i];
        push_char(&mut out, if c == '\\' { '/' } else { c });
        assert(forward_slashes(rest.take((i + 1 - start) as int)) =~= forward_slashes(
            rest.take((i - start) as int),
        ).push(if c == '\\' { '/' } else { c }));
        i += 1;
    }
    assert(rest.take((pv.len() - start) as int) =~= rest);
    proof {
        let full = pv@.subrange(n as int, pv@.len() as int);
        if start == n + 1 {
            assert(full.subrange(1, full.len() as int) =~= rest);
        } else {
            assert(full =~= rest);
        }
    }
    Some(out)
}

/// The candidates of a walk below `root`, each with the relative path
/// `git check-ignore` is asked about.
pub fn relative_candidates(root: &str, candidates: &[String]) -> (r: Vec<(String, String)>)
    ensures
        path_pairs(r@) == relative_candidates_spec(root@, strs(candidates@)),
{
    let mut out: Vec<(String, String)> = Vec::new();
    let mut i: usize = 0;
    while i < candidates.len()
        invariant
            i <= candidates.len(),
            path_pairs(out@) == relative_candidates_spec(root@, strs(candidates@).take(i as int)),
        decreases candidates.len() - i,
    {
        let ghost t = strs(candidates@).take(i + 1);
        assert(t.drop_last() =~= strs(candidates@).take(i as int));
        assert(t.last() == candidates@[i as int]@);
        match relative_path(root, candidates[i].as_str()) {
            Some(rel) => {
                let ghost before = out@;
                let p = candidates[i].clone();
                out.push((p, rel));
                assert(path_pairs(out@) =~= path_pairs(before).push((p@, rel@)));
            },
            None => {},
        }
        i += 1;
    }
    assert(strs(candidates@).take(candidates.len() as int) =~= strs(candidates@));
    out
}

/// The relative paths, each followed by a NUL (`check-ignore --stdin -z`).
pub open spec fn nul_terminated(rels: Seq<(Seq<char>, Seq<char>)>) -> Seq<char>
    decreases rels.len(),
{
    if rels.len() == 0 {
        Seq::empty()
    } else {
        nul_terminated(rels.drop_last()) + rels.last().1 + seq!['\0']
    }
}

/// What `git check-ignore --stdin -z` is fed.
pub fn check_ignore_input(relative: &[(String, String)]) -> (r: String)
    ensures
        r@ == nul_terminated(path_pairs(relative@)),
{
    let mut out = String::new();
    let mut i: usize = 0;
    while i < relative.len()
        invariant
            i <= relative.len(),
            out@ == nul_terminated(path_pairs(relative@).take(i as int)),
        decreases relative.len() - i,
    {
        let ghost t = path_pairs(relative@).take(i + 1);
        assert(t.drop_last() =~= path_pairs(relative@).take(i as int));
        out.append(relative[i].1.as_str());
        push_char(&mut out, '\0');
        i += 1;
    }
    assert(path_pairs(relative@).take(relative.len() as int) =~= path_pairs(relative@));
    out
}

/// `s` split at every NUL.
pub open spec fn nul_fields(s: Seq<char>) -> Seq<Seq<char>>
    decreases s.len(),
{
    if s.len() == 0 {
        seq![Seq::empty()]
    } else {
        let r = nul_fields(s.drop_last());
        if s.last() == '\0' {
            r.push(Seq::empty())
        } else {
            r.update(r.len() - 1, r.last().push(s.last()))
        }
    }
}

proof fn lemma_nul_fields_nonempty(s: Seq<char>)
    ensures
        nul_fields(s).len() >= 1,
    decreases s.len(),
{
    if s.len() > 0 {
        lemma_nul_fields_nonempty(s.drop_last());
    }
}

/// The candidates whose relative path git reported (`stdout` holds the
/// reported paths, NUL-separated).
pub open spec fn ignored_spec(rels: Seq<(Seq<char>, Seq<char>)>, stdout: Seq<char>) -> Seq<Seq<char>>
    decreases rels.len(),
{
    if rels.len() == 0 {
        Seq::empty()
    } else {
        let r = ignored_spec(rels.drop_last(), stdout);
        let f = nul_fields(stdout);
        if rels.last().1.len() > 0 && f.contains(rels.last().1) {
            r.push(rels.last().0)
        } else {
            r
        }
    }
}

fn split_nul(s: &str) -> (r: Vec<String>)
    ensures
        strs(r@) == nul_fields(s@),
{
    let v = chars_of(s);
    let mut out: Vec<String> = Vec::new();
    let mut cur = String::new();
    let mut i: usize = 0;
    assert(v@.take(0) =~= Seq::<char>::empty());
    while i < v.len()
        invariant
            i <= v.len(),
            v@ == s@,
            strs(out@).push(cur@) == nul_fields(v@.take(i as int)),
        decreases v.len() - i,
    {
        let ghost t = v@.take(i + 1);
        assert(t.drop_last() =~= v@.take(i as int));
        proof {
            lemma_nul_fields_nonempty(v@.take(i as int));
        }
        if v[i] == '\0' {
            let ghost before = out@;
            let done = cur;
            out.push(done);
            proof {
                lemma_strs_push(before, done);
            }
            cur = String::new();
            assert(strs(out@).push(cur@) =~= nul_fields(v@.take(i as int)).push(Seq::empty()));
        } else {
            let ghost old_cur = cur@;
            push_char(&mut cur, v[i]);
            assert(strs(out@).push(cur@) =~= strs(out@).push(old_cur).update(
                strs(out@).len() as int,
                old_cur.push(v@[i as int]),
            ));
        }
        i += 1;
    }
    assert(v@.take(v.len() as int) =~= v@);
    let ghost before = out@;
    out.push(cur);
    proof {
        lemma_strs_push(before, cur);
    }
    out
}

fn contains_str(v: &Vec<String>, x: &String) -> (r: bool)
    ensures
        r == strs(v@).contains(x@),
{
    let mut i: usize = 0;
    while i < v.len()
        invariant
            i <= v.len(),
            forall|k: int| 0 <= k < i ==> v@[k]@ != x@,
        decreases v.len() - i,
    {
        if v[i] == *x {
            assert(strs(v@)[i as int] == x@);
            return true;
        }
        i += 1;
    }
    proof {
        if strs(v@).contains(x@) {
            let k = choose|k: int| 0 <= k < strs(v@).len() && strs(v@)[k] == x@;
            assert(v@[k]@ == x@);
        }
    }
    false
}

/// The candidates `git check-ignore` reported as ignored, from its output.
pub fn ignored_paths(relative: &[(String, String)], stdout: &str) -> (r: Vec<String>)
    ensures
        strs(r@) == ignored_spec(path_pairs(relative@), stdout@),
{
    let fields = split_nul(stdout);
    let mut out: Vec<String> = Vec::new();
    let mut i: usize = 0;
    while i < relative.len()
        invariant
            i <= relative.len(),
            strs(fields@) == nul_fields(stdout@),
            strs(out@) == ignored_spec(path_pairs(relative@).take(i as int), stdout@),
        decreases relative.len() - i,
    {
        let ghost t = path_pairs(relative@).take(i + 1);
        assert(t.drop_last() =~= path_pairs(relative@).take(i as int));
        assert(t.last() == (relative@[i as int].0@, relative@[i as int].1@));
        if relative[i].1.unicode_len() > 0 && contains_str(&fields, &relative[i].1) {
            let ghost before = out@;
            let p = relative[i].0.clone();
            out.push(p);
            proof {
                lemma_strs_push(before, p);
            }
        }
        i += 1;
    }
    assert(path_pairs(relative@).take(relative.len() as int) =~= path_pairs(relative@));
    out
}

} // verus!
