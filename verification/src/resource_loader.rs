//! Resources the system prompt is built from: the custom prompt, the
//! append segments, project context files, skills and prompt templates.
//!
//! Discovery reads the disk and is the caller's job; this module decides
//! what is asked of it (which locations a load may search), what of the
//! files found reaches the bundle, how segments are joined, what an
//! extension may add, and how the prompt options are put together.
use vstd::prelude::*;

use crate::prompt_templates::{
    LoadPromptTemplatesOptions, PromptTemplate, PromptTemplateDiagnostic, PromptTemplatesLoadResult,
    add_templates, merge_templates, tdiags_view,
};
use crate::skills::{LoadSkillsOptions, Skill, SkillDiagnostic, SkillsLoadResult};
use crate::system_prompt::{
    ContextFile, PiDocs, SystemPromptOptions, builtin_prompt_contributions,
    build_system_prompt, contributions_spec, prompt_spec, snippets_insert, push_unique,
};
use crate::text::{join_spec, join_strings, strs, trim, trimmed, is_blank};

verus! {

/// Where resources are loaded from, and what the flags switch off.
#[derive(Debug, Clone)]
pub struct ResourceLoadOptions {
    /// Working directory — the base for `.pi/` discovery.
    pub cwd: String,
    /// Agent config directory, normally `~/.pi/agent`.
    pub agent_dir: String,
    /// Extra skill files / directories (`--skill`).
    pub skill_paths: Vec<String>,
    /// `--no-skills`: skip skill discovery entirely.
    pub no_skills: bool,
    /// `--no-context-files`: skip `AGENTS.md` discovery.
    pub no_context_files: bool,
    /// `--append-system-prompt` segments, appended after the loader's
    /// `APPEND_SYSTEM.md`.
    pub append_system_prompt: Vec<String>,
    /// Extra prompt template files / directories (`--prompt-template`).
    pub prompt_template_paths: Vec<String>,
    /// `--no-prompt-templates`: skip the default template directories
    /// (explicit paths still load).
    pub no_prompt_templates: bool,
    /// Whether `<cwd>/.pi` resources may be read.
    pub project_trusted: bool,
}

impl Default for ResourceLoadOptions {
    /// Empty paths, nothing switched off, the project trusted.
    fn default() -> (r: Self)
        ensures
            r.cwd@.len() == 0,
            r.agent_dir@.len() == 0,
            r.skill_paths@.len() == 0,
            !r.no_skills,
            !r.no_context_files,
            r.append_system_prompt@.len() == 0,
            r.prompt_template_paths@.len() == 0,
            !r.no_prompt_templates,
            r.project_trusted,
    {
        ResourceLoadOptions {
            cwd: String::new(),
            agent_dir: String::new(),
            skill_paths: Vec::new(),
            no_skills: false,
            no_context_files: false,
            append_system_prompt: Vec::new(),
            prompt_template_paths: Vec::new(),
            no_prompt_templates: false,
            project_trusted: true,
        }
    }
}

/// Everything the system prompt is built from.
#[derive(Debug, Clone)]
pub struct LoadedResources {
    /// A `SYSTEM.md` that replaces the built-in prompt.
    pub custom_prompt: Option<String>,
    /// Concatenated append segments (loader file first, then CLI).
    pub append_system_prompt: Option<String>,
    /// Loaded project context files.
    pub context_files: Vec<ContextFile>,
    /// Loaded skills.
    pub skills: Vec<Skill>,
    /// Loaded prompt templates.
    pub prompt_templates: Vec<PromptTemplate>,
    /// Non-fatal skill problems.
    pub diagnostics: Vec<SkillDiagnostic>,
    /// Non-fatal prompt template problems.
    pub prompt_diagnostics: Vec<PromptTemplateDiagnostic>,
    /// Whether project `.pi` resources were allowed for this load.
    pub project_trusted: bool,
    /// Whether the project has resources that required a trust decision.
    pub trust_requiring_resources: bool,
}

/// What discovery found on disk for one load.
#[derive(Debug, Clone)]
pub struct DiscoveredFiles {
    /// Project context files.
    pub context_files: Vec<ContextFile>,
    /// The skill load pass.
    pub skills: SkillsLoadResult,
    /// Content of the discovered `SYSTEM.md`, if one was read.
    pub system_prompt: Option<String>,
    /// Content of the discovered `APPEND_SYSTEM.md`, if one was read.
    pub append_system_prompt: Option<String>,
    /// The prompt template load pass.
    pub templates: PromptTemplatesLoadResult,
    /// Whether the project has trust-requiring resources.
    pub trust_requiring_resources: bool,
}

/// The skill load a resource load asks for.
pub fn skill_load_options(options: &ResourceLoadOptions) -> (r: LoadSkillsOptions)
    ensures
        r.cwd@ == options.cwd@,
        r.agent_dir@ == options.agent_dir@,
        r.skill_paths@ == options.skill_paths@,
        r.include_defaults,
        r.project_trusted == options.project_trusted,
{
    LoadSkillsOptions {
        cwd: options.cwd.clone(),
        agent_dir: options.agent_dir.clone(),
        skill_paths: copy_strings(&options.skill_paths),
        include_defaults: true,
        project_trusted: options.project_trusted,
    }
}

/// The template load a resource load asks for: the default directories
/// unless `--no-prompt-templates`.
pub fn template_load_options(options: &ResourceLoadOptions) -> (r: LoadPromptTemplatesOptions)
    ensures
        r.cwd@ == options.cwd@,
        r.agent_dir@ == options.agent_dir@,
        r.prompt_paths@ == options.prompt_template_paths@,
        r.include_defaults == !options.no_prompt_templates,
        r.project_trusted == options.project_trusted,
{
    LoadPromptTemplatesOptions {
        cwd: options.cwd.clone(),
        agent_dir: options.agent_dir.clone(),
        prompt_paths: copy_strings(&options.prompt_template_paths),
        include_defaults: !options.no_prompt_templates,
        project_trusted: options.project_trusted,
    }
}

fn copy_strings(v: &Vec<String>) -> (r: Vec<String>)
    ensures
        r@ == v@,
{
    let mut out: Vec<String> = Vec::new();
    let mut i: usize = 0;
    while i < v.len()
        invariant
            i <= v.len(),
            out@ == v@.take(i as int),
        decreases v.len() - i,
    {
        out.push(v[i].clone());
        assert(out@ =~= v@.take(i + 1));
        i += 1;
    }
    assert(v@.take(v.len() as int) =~= v@);
    out
}

/// The non-empty segments among the loader file and the CLI segments.
pub open spec fn append_segments(file: Option<String>, cli: Seq<String>) -> Seq<Seq<char>> {
    first_segment(file) + strs(cli).filter(|s: Seq<char>| s.len() > 0)
}

/// The loader file's segment, when it is not empty.
pub open spec fn first_segment(file: Option<String>) -> Seq<Seq<char>> {
    match file {
        Some(c) => if c@.len() > 0 {
            seq![c@]
        } else {
            Seq::empty()
        },
        None => Seq::empty(),
    }
}

/// The append text: the segments joined by blank lines, `None` when there
/// are none.
pub open spec fn append_text(file: Option<String>, cli: Seq<String>) -> Option<Seq<char>> {
    let segs = append_segments(file, cli);
    if segs.len() == 0 {
        None
    } else {
        Some(join_spec(segs, "\n\n"@))
    }
}

/// The custom prompt: the discovered `SYSTEM.md`, unless it is blank.
pub open spec fn custom_prompt_spec(file: Option<String>) -> Option<Seq<char>> {
    match file {
        Some(c) => if trim(c@).len() > 0 {
            Some(c@)
        } else {
            None
        },
        None => None,
    }
}

/// The view of an optional string.
pub open spec fn opt_view(o: Option<String>) -> Option<Seq<char>> {
    match o {
        Some(s) => Some(s@),
        None => None,
    }
}

fn append_system_prompt_of(file: Option<String>, cli: &Vec<String>) -> (r: Option<String>)
    ensures
        opt_view(r) == append_text(file, cli@),
{
    let mut segs: Vec<String> = Vec::new();
    let ghost first = first_segment(file);
    match file {
        Some(c) => {
            if c.unicode_len() > 0 {
                segs.push(c);
            }
        },
        None => {},
    }
    assert(strs(segs@) =~= first);
    let mut i: usize = 0;
    while i < cli.len()
        invariant
            i <= cli.len(),
            strs(segs@) == first + strs(cli@.take(i as int)).filter(|s: Seq<char>| s.len() > 0),
        decreases cli.len() - i,
    {
        let ghost before = segs@;
        let ghost t = strs(cli@.take(i + 1));
        assert(t.drop_last() =~= strs(cli@.take(i as int)));
        assert(t.last() == cli@[i as int]@);
        proof {
            t.drop_last().lemma_filter_push(t.last(), |s: Seq<char>| s.len() > 0);
            assert(t == t.drop_last().push(t.last()));
        }
        if cli[i].unicode_len() > 0 {
            let c = cli[i].clone();
            segs.push(c);
            proof {
                crate::text::lemma_strs_push(before, c);
            }
        }
        i += 1;
    }
    assert(cli@.take(cli.len() as int) =~= cli@);
    if segs.len() == 0 {
        None
    } else {
        Some(join_strings(&segs, "\n\n"))
    }
}

/// What a load keeps of what discovery found.
pub open spec fn loaded_from(options: ResourceLoadOptions, files: DiscoveredFiles, r: LoadedResources) -> bool {
    &&& opt_view(r.custom_prompt) == custom_prompt_spec(files.system_prompt)
    &&& opt_view(r.append_system_prompt) == append_text(
        files.append_system_prompt,
        options.append_system_prompt@,
    )
    &&& r.context_files@ == (if options.no_context_files {
        Seq::empty()
    } else {
        files.context_files@
    })
    &&& r.skills@ == (if options.no_skills {
        Seq::empty()
    } else {
        files.skills.skills@
    })
    &&& r.diagnostics@ == (if options.no_skills {
        Seq::empty()
    } else {
        files.skills.diagnostics@
    })
    &&& r.prompt_templates@ == files.templates.templates@
    &&& r.prompt_diagnostics@ == files.templates.diagnostics@
    &&& r.project_trusted == options.project_trusted
    &&& r.trust_requiring_resources == files.trust_requiring_resources
}

/// Assemble the resources of one run from what discovery found: context
/// files and skills unless switched off, a non-blank `SYSTEM.md` as the
/// custom prompt, the append segments joined.
pub fn load_resources(options: &ResourceLoadOptions, files: DiscoveredFiles) -> (r: LoadedResources)
    ensures
        loaded_from(*options, files, r),
{
    let ghost f = files;
    let DiscoveredFiles {
        context_files,
        skills,
        system_prompt,
        append_system_prompt,
        templates,
        trust_requiring_resources,
    } = files;
    let custom_prompt = match system_prompt {
        Some(c) => if is_blank(c.as_str()) {
            None
        } else {
            Some(c)
        },
        None => None,
    };
    let append = append_system_prompt_of(append_system_prompt, &options.append_system_prompt);
    let context_files = if options.no_context_files {
        Vec::new()
    } else {
        context_files
    };
    let SkillsLoadResult { skills: loaded_skills, diagnostics } = skills;
    let (skills, diagnostics) = if options.no_skills {
        (Vec::new(), Vec::new())
    } else {
        (loaded_skills, diagnostics)
    };
    let PromptTemplatesLoadResult { templates, diagnostics: prompt_diagnostics } = templates;
    LoadedResources {
        custom_prompt,
        append_system_prompt: append,
        context_files,
        skills,
        prompt_templates: templates,
        diagnostics,
        prompt_diagnostics,
        project_trusted: options.project_trusted,
        trust_requiring_resources,
    }
}

// ---------------------------------------------------------------------------
// Extension resources
// ---------------------------------------------------------------------------

/// The skills of `offered` whose name is not taken yet, appended in order
/// (a skill already in the bundle wins).
pub open spec fn keep_new_skills(kept: Seq<Skill>, offered: Seq<Skill>) -> Seq<Skill>
    decreases offered.len(),
{
    if offered.len() == 0 {
        kept
    } else {
        let k = keep_new_skills(kept, offered.drop_last());
        if k.map_values(|s: Skill| s.name@).contains(offered.last().name@) {
            k
        } else {
            k.push(offered.last())
        }
    }
}

/// Extension skills never displace the bundle's own: the skills already
/// there stay first, in order, and no name ends up twice.
pub proof fn law_extension_skills_never_shadow(kept: Seq<Skill>, offered: Seq<Skill>)
    requires
        kept.map_values(|s: Skill| s.name@).no_duplicates(),
    ensures
        kept.len() <= keep_new_skills(kept, offered).len(),
        keep_new_skills(kept, offered).take(kept.len() as int) == kept,
        keep_new_skills(kept, offered).map_values(|s: Skill| s.name@).no_duplicates(),
    decreases offered.len(),
{
    if offered.len() == 0 {
        assert(kept.take(kept.len() as int) =~= kept);
    } else {
        law_extension_skills_never_shadow(kept, offered.drop_last());
        let k = keep_new_skills(kept, offered.drop_last());
        let t = offered.last();
        let names = k.map_values(|s: Skill| s.name@);
        if !names.contains(t.name@) {
            assert(k.push(t).take(kept.len() as int) =~= k.take(kept.len() as int));
            let q = k.push(t).map_values(|s: Skill| s.name@);
            assert(q =~= names.push(t.name@));
            assert forall|a: int, b: int| 0 <= a < q.len() && 0 <= b < q.len() && a != b implies q[a]
                != q[b] by {
                if a == q.len() - 1 {
                    assert(names[b] == q[b]);
                } else if b == q.len() - 1 {
                    assert(names[a] == q[a]);
                } else {
                    assert(names[a] == q[a] && names[b] == q[b]);
                }
            }
        }
    }
}

fn has_skill(v: &Vec<Skill>, name: &String) -> (r: bool)
    ensures
        r == v@.map_values(|s: Skill| s.name@).contains(name@),
{
    let mut i: usize = 0;
    while i < v.len()
        invariant
            i <= v.len(),
            forall|k: int| 0 <= k < i ==> v@[k].name@ != name@,
        decreases v.len() - i,
    {
        if v[i].name == *name {
            assert(v@.map_values(|s: Skill| s.name@)[i as int] == name@);
            return true;
        }
        i += 1;
    }
    proof {
        let names = v@.map_values(|s: Skill| s.name@);
        if names.contains(name@) {
            let k = choose|k: int| 0 <= k < names.len() && names[k] == name@;
            assert(v@[k].name@ == name@);
        }
    }
    false
}

impl LoadedResources {
    /// Fold in what an extension advertised: the skill pass (`None` when
    /// it named no skill paths) and the template pass (`None` when it
    /// named no template paths). Their diagnostics are added; a skill or
    /// template whose name the bundle already has is left out.
    pub fn extend_extension_resources(
        &mut self,
        skills: Option<SkillsLoadResult>,
        templates: Option<PromptTemplatesLoadResult>,
    )
        ensures
            final(self).skills@ == match skills {
                Some(l) => keep_new_skills(old(self).skills@, l.skills@),
                None => old(self).skills@,
            },
            final(self).diagnostics@ == match skills {
                Some(l) => old(self).diagnostics@ + l.diagnostics@,
                None => old(self).diagnostics@,
            },
            final(self).prompt_templates@ == match templates {
                Some(l) => merge_templates(
                    old(self).prompt_templates@,
                    Seq::empty(),
                    l.templates@,
                ).0,
                None => old(self).prompt_templates@,
            },
            final(self).prompt_diagnostics@ == match templates {
                Some(l) => old(self).prompt_diagnostics@ + l.diagnostics@,
                None => old(self).prompt_diagnostics@,
            },
            final(self).custom_prompt == old(self).custom_prompt,
            final(self).append_system_prompt == old(self).append_system_prompt,
            final(self).context_files == old(self).context_files,
            final(self).project_trusted == old(self).project_trusted,
            final(self).trust_requiring_resources == old(self).trust_requiring_resources,
    {
        match skills {
            Some(loaded) => {
                let SkillsLoadResult { skills: offered, diagnostics: mut diags } = loaded;
                let ghost d0 = self.diagnostics@;
                let ghost dl = diags@;
                self.diagnostics.append(&mut diags);
                assert(self.diagnostics@ == d0 + dl);
                let mut offered = offered;
                let ghost all = offered@;
                let ghost k0 = self.skills@;
                let n = offered.len();
                let mut i: usize = 0;
                while i < n
                    invariant
                        i <= n == all.len(),
                        offered@ == all.skip(i as int),
                        self.skills@ == keep_new_skills(k0, all.take(i as int)),
                        self.diagnostics@ == d0 + dl,
                        self.custom_prompt == old(self).custom_prompt,
                        self.append_system_prompt == old(self).append_system_prompt,
                        self.context_files == old(self).context_files,
                        self.prompt_templates == old(self).prompt_templates,
                        self.prompt_diagnostics == old(self).prompt_diagnostics,
                        self.project_trusted == old(self).project_trusted,
                        self.trust_requiring_resources == old(self).trust_requiring_resources,
                    decreases n - i,
                {
                    let sk = offered.remove(0);
                    assert(sk == all[i as int]);
                    assert(all.skip(i as int).skip(1) =~= all.skip(i + 1));
                    assert(all.take(i + 1).drop_last() =~= all.take(i as int));
                    assert(all.take(i + 1).last() == sk);
                    if !has_skill(&self.skills, &sk.name) {
                        self.skills.push(sk);
                    }
                    i += 1;
                }
                assert(all.take(n as int) =~= all);
            },
            None => {},
        }
        match templates {
            Some(loaded) => {
                let PromptTemplatesLoadResult { templates: offered, diagnostics: mut diags } = loaded;
                let ghost p0 = self.prompt_diagnostics@;
                let ghost pl = diags@;
                self.prompt_diagnostics.append(&mut diags);
                let mut kept: Vec<PromptTemplate> = Vec::new();
                std::mem::swap(&mut kept, &mut self.prompt_templates);
                let mut merged = PromptTemplatesLoadResult { templates: kept, diagnostics: Vec::new() };
                assert(tdiags_view(merged.diagnostics@) =~= Seq::<(Seq<char>, Option<Seq<char>>)>::empty());
                add_templates(&mut merged, offered);
                let PromptTemplatesLoadResult { templates: result, diagnostics: _ } = merged;
                self.prompt_templates = result;
                assert(self.prompt_diagnostics@ == p0 + pl);
            },
            None => {},
        }
    }
}

// ---------------------------------------------------------------------------
// The prompt
// ---------------------------------------------------------------------------

/// What an extension-registered tool contributes to the prompt.
#[derive(Debug, Clone, PartialEq, Eq)]
pub struct ExtensionToolPrompt {
    /// The tool's name.
    pub name: String,
    /// Its `promptSnippet`, if declared.
    pub snippet: Option<String>,
    /// Its `promptGuidelines`.
    pub guidelines: Vec<String>,
}

/// The snippet table after the extension tools: each non-blank snippet,
/// trimmed, filed under its tool.
pub open spec fn ext_snippets(s0: Seq<(Seq<char>, Seq<char>)>, tools: Seq<ExtensionToolPrompt>) -> Seq<
    (Seq<char>, Seq<char>),
>
    decreases tools.len(),
{
    if tools.len() == 0 {
        s0
    } else {
        let s = ext_snippets(s0, tools.drop_last());
        let t = tools.last();
        match t.snippet {
            Some(x) => if trim(x@).len() > 0 {
                snippets_insert(s, t.name@, trim(x@))
            } else {
                s
            },
            None => s,
        }
    }
}

/// Guideline lines, trimmed, blank ones dropped.
pub open spec fn kept_guidelines(gs: Seq<Seq<char>>) -> Seq<Seq<char>>
    decreases gs.len(),
{
    if gs.len() == 0 {
        Seq::empty()
    } else {
        let k = kept_guidelines(gs.drop_last());
        if trim(gs.last()).len() > 0 {
            k.push(trim(gs.last()))
        } else {
            k
        }
    }
}

/// The guidelines after the extension tools: theirs follow the built-in
/// ones, in tool order.
pub open spec fn ext_guidelines(g0: Seq<Seq<char>>, tools: Seq<ExtensionToolPrompt>) -> Seq<Seq<char>>
    decreases tools.len(),
{
    if tools.len() == 0 {
        g0
    } else {
        ext_guidelines(g0, tools.drop_last()) + kept_guidelines(strs(tools.last().guidelines@))
    }
}

/// The selected tools after the extension tools: each one not listed yet
/// is added.
pub open spec fn ext_selected(sel: Seq<Seq<char>>, tools: Seq<ExtensionToolPrompt>) -> Seq<Seq<char>>
    decreases tools.len(),
{
    if tools.len() == 0 {
        sel
    } else {
        push_unique(ext_selected(sel, tools.drop_last()), tools.last().name@)
    }
}

/// The prompt options of a bundle for `cwd`: the built-in tools (with
/// their contributions) followed by the extension tools.
pub open spec fn extension_prompt_options(
    res: LoadedResources,
    cwd: Seq<char>,
    bundle: Seq<Seq<char>>,
    tools: Seq<ExtensionToolPrompt>,
    docs: Option<PiDocs>,
    o: SystemPromptOptions,
) -> bool {
    let c = contributions_spec(bundle);
    &&& o.custom_prompt == res.custom_prompt
    &&& strs(o.selected_tools@) == ext_selected(bundle, tools)
    &&& o.tool_snippets@ == ext_snippets(c.0, tools)
    &&& strs(o.prompt_guidelines@) == ext_guidelines(c.1, tools)
    &&& o.append_system_prompt == res.append_system_prompt
    &&& o.cwd@ == cwd
    &&& o.context_files@ == res.context_files@
    &&& o.skills@ == res.skills@
    &&& o.docs == docs
}

fn copy_opt(o: &Option<String>) -> (r: Option<String>)
    ensures
        r == *o,
{
    match o {
        Some(s) => Some(s.clone()),
        None => None,
    }
}

fn copy_context_files(v: &Vec<ContextFile>) -> (r: Vec<ContextFile>)
    ensures
        r@ == v@,
{
    let mut out: Vec<ContextFile> = Vec::new();
    let mut i: usize = 0;
    while i < v.len()
        invariant
            i <= v.len(),
            out@ == v@.take(i as int),
        decreases v.len() - i,
    {
        out.push(ContextFile { path: v[i].path.clone(), content: v[i].content.clone() });
        assert(out@ =~= v@.take(i + 1));
        i += 1;
    }
    assert(v@.take(v.len() as int) =~= v@);
    out
}

fn copy_skills(v: &Vec<Skill>) -> (r: Vec<Skill>)
    ensures
        r@ == v@,
{
    let mut out: Vec<Skill> = Vec::new();
    let mut i: usize = 0;
    while i < v.len()
        invariant
            i <= v.len(),
            out@ == v@.take(i as int),
        decreases v.len() - i,
    {
        let s = &v[i];
        out.push(
            Skill {
                name: s.name.clone(),
                description: s.description.clone(),
                file_path: s.file_path.clone(),
                base_dir: s.base_dir.clone(),
                source: s.source,
                disable_model_invocation: s.disable_model_invocation,
            },
        );
        assert(out@ =~= v@.take(i + 1));
        i += 1;
    }
    assert(v@.take(v.len() as int) =~= v@);
    out
}

fn contains_string(v: &Vec<String>, x: &String) -> (r: bool)
    ensures
        r == strs(v@).contains(x@),
{
    let mut i: usize = 0;
    while i < v.len()
        invariant
            i <= v.len(),
            forall|k: int| 0 <= k < i ==> v@[k]@ != x@,
        decreases v.len() - i,
    {
        if v[i] == *x {
            assert(strs(v@)[i as int] == x@);
            return true;
        }
        i += 1;
    }
    proof {
        if strs(v@).contains(x@) {
            let k = choose|k: int| 0 <= k < strs(v@).len() && strs(v@)[k] == x@;
            assert(v@[k]@ == x@);
        }
    }
    false
}

fn push_kept_guidelines(out: &mut Vec<String>, gs: &Vec<String>)
    ensures
        strs(final(out)@) == strs(old(out)@) + kept_guidelines(strs(gs@)),
{
    let ghost start = strs(out@);
    let mut i: usize = 0;
    while i < gs.len()
        invariant
            i <= gs.len(),
            strs(out@) == start + kept_guidelines(strs(gs@).take(i as int)),
        decreases gs.len() - i,
    {
        let ghost t = strs(gs@).take(i + 1);
        assert(t.drop_last() =~= strs(gs@).take(i as int));
        assert(t.last() == gs@[i as int]@);
        let g = trimmed(gs[i].as_str());
        if g.unicode_len() > 0 {
            let ghost before = out@;
            out.push(g);
            proof {
                crate::text::lemma_strs_push(before, g);
            }
        }
        i += 1;
    }
    assert(strs(gs@).take(gs.len() as int) =~= strs(gs@));
}

impl LoadedResources {
    /// The prompt options for `cwd`: the bundle's built-in tools
    /// (`bundle_tools`, in registration order) with their contributions,
    /// then each extension tool with a non-blank snippet or guidelines.
    pub fn prompt_options(
        &self,
        cwd: &str,
        bundle_tools: &[String],
        extension_tools: &[ExtensionToolPrompt],
        docs: Option<PiDocs>,
    ) -> (o: SystemPromptOptions)
        ensures
            extension_prompt_options(*self, cwd@, strs(bundle_tools@), extension_tools@, docs, o),
    {
        let (mut snippets, mut guidelines) = builtin_prompt_contributions(bundle_tools);
        let ghost c = contributions_spec(strs(bundle_tools@));
        let mut selected: Vec<String> = Vec::new();
        let mut j: usize = 0;
        while j < bundle_tools.len()
            invariant
                j <= bundle_tools.len(),
                selected@ == bundle_tools@.take(j as int),
            decreases bundle_tools.len() - j,
        {
            selected.push(bundle_tools[j].clone());
            assert(selected@ =~= bundle_tools@.take(j + 1));
            j += 1;
        }
        assert(bundle_tools@.take(bundle_tools.len() as int) =~= bundle_tools@);
        let mut i: usize = 0;
        while i < extension_tools.len()
            invariant
                i <= extension_tools.len(),
                c == contributions_spec(strs(bundle_tools@)),
                snippets@ == ext_snippets(c.0, extension_tools@.take(i as int)),
                strs(guidelines@) == ext_guidelines(c.1, extension_tools@.take(i as int)),
                strs(selected@) == ext_selected(strs(bundle_tools@), extension_tools@.take(i as int)),
            decreases extension_tools.len() - i,
        {
            let ghost t = extension_tools@.take(i + 1);
            assert(t.drop_last() =~= extension_tools@.take(i as int));
            assert(t.last() == extension_tools@[i as int]);
            let tool = &extension_tools[i];
            match &tool.snippet {
                Some(x) => {
                    let v = trimmed(x.as_str());
                    if v.unicode_len() > 0 {
                        snippets.insert(tool.name.clone(), v);
                    }
                },
                None => {},
            }
            push_kept_guidelines(&mut guidelines, &tool.guidelines);
            if !contains_string(&selected, &tool.name) {
                let ghost before = selected@;
                let n = tool.name.clone();
                selected.push(n);
                proof {
                    crate::text::lemma_strs_push(before, n);
                }
            }
            i += 1;
        }
        assert(extension_tools@.take(extension_tools.len() as int) =~= extension_tools@);
        SystemPromptOptions {
            custom_prompt: copy_opt(&self.custom_prompt),
            selected_tools: selected,
            tool_snippets: snippets,
            prompt_guidelines: guidelines,
            append_system_prompt: copy_opt(&self.append_system_prompt),
            cwd: cwd.to_string(),
            context_files: copy_context_files(&self.context_files),
            skills: copy_skills(&self.skills),
            docs,
        }
    }

    /// The system prompt for `cwd`, folding in the contributions of the
    /// extension tools.
    pub fn build_system_prompt_with_extension_tools(
        &self,
        cwd: &str,
        bundle_tools: &[String],
        extension_tools: &[ExtensionToolPrompt],
        docs: Option<PiDocs>,
    ) -> (r: String)
        ensures
            exists|o: SystemPromptOptions|
                extension_prompt_options(*self, cwd@, strs(bundle_tools@), extension_tools@, docs, o)
                    && r@ == prompt_spec(o),
    {
        let o = self.prompt_options(cwd, bundle_tools, extension_tools, docs);
        build_system_prompt(&o)
    }

    /// The system prompt for `cwd` with the built-in tools alone.
    pub fn build_system_prompt(&self, cwd: &str, bundle_tools: &[String], docs: Option<PiDocs>) -> (r: String)
        ensures
            exists|o: SystemPromptOptions|
                extension_prompt_options(*self, cwd@, strs(bundle_tools@), Seq::empty(), docs, o) && r@
                    == prompt_spec(o),
    {
        let none: Vec<ExtensionToolPrompt> = Vec::new();
        let o = self.prompt_options(cwd, bundle_tools, none.as_slice(), docs);
        assert(none@ =~= Seq::<ExtensionToolPrompt>::empty());
        build_system_prompt(&o)
    }
}

} // verus!
