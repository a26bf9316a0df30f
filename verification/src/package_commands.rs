//! The package subcommands: `version`, `list-models`, `update-models`,
//! `install`, `remove` and `list` — what each one is asked, the exit code
//! of each failure, and the text each one prints.
use vstd::prelude::*;

use crate::installer::{InstallError, install_exit_code, install_error_message, spec_error_text};
use crate::package_spec::SpecError;
use crate::installer::spec_error_message;
use crate::print_mode::OutputFormat;
use crate::registry::PackageEntry;
use crate::text::{
    decimal, insert_sorted_unique, lex_le, lex_le_exec, lemma_lex_total, lemma_lex_trans,
    lemma_lex_antisym, push_decimal, push_str, sorted_strict, strs,
};

verus! {

/// A resolved package subcommand.
#[derive(Debug, Clone, PartialEq, Eq)]
pub enum PackageCommand {
    /// `pi version [--output json]`.
    Version {
        /// Output format.
        output: OutputFormat,
    },
    /// `pi list-models [--output json]`.
    ListModels {
        /// Output format.
        output: OutputFormat,
    },
    /// `pi update-models`.
    UpdateModels,
    /// `pi install <spec> [--dir <root>]`.
    Install {
        /// Package spec.
        spec: String,
        /// Explicit pi root.
        dir: Option<String>,
    },
    /// `pi remove <spec> [--dir <root>]`.
    Remove {
        /// Package spec.
        spec: String,
        /// Explicit pi root.
        dir: Option<String>,
    },
    /// `pi list [--dir <root>] [--output json]`.
    List {
        /// Explicit pi root.
        dir: Option<String>,
        /// Output format.
        output: OutputFormat,
    },
}

/// Errors surfaced by package subcommands.
#[derive(Debug, Clone, PartialEq, Eq)]
pub enum CommandError {
    /// Invalid spec.
    Spec(SpecError),
    /// Install / remove failure.
    Install(InstallError),
    /// Registry read / write failure; the error's text.
    Registry(String),
    /// `pi remove` found no matching package; the spec.
    NotFound(String),
    /// A filesystem operation failed; the error's text.
    Io(String),
    /// JSON serialisation failed; the error's text.
    Json(String),
}

/// The `sysexits.h` code of each failure.
pub open spec fn command_exit_code(e: CommandError) -> u8 {
    match e {
        CommandError::Spec(_) => 64,
        CommandError::NotFound(_) => 66,
        CommandError::Install(err) => install_exit_code(err),
        CommandError::Registry(_) | CommandError::Io(_) => 74,
        CommandError::Json(_) => 70,
    }
}

/// The message of each failure.
pub open spec fn command_error_message(e: CommandError) -> Seq<char> {
    match e {
        CommandError::Spec(s) => spec_error_message(s),
        CommandError::Install(err) => install_error_message(err),
        CommandError::Registry(m) => m@,
        CommandError::NotFound(spec) => "no matching package found for "@ + spec@,
        CommandError::Io(m) => m@,
        CommandError::Json(m) => m@,
    }
}

impl CommandError {
    /// `sysexits.h`-style exit code for the CLI.
    pub fn exit_code(&self) -> (r: u8)
        ensures
            r == command_exit_code(*self),
    {
        match self {
            CommandError::Spec(_) => 64,
            CommandError::NotFound(_) => 66,
            CommandError::Install(err) => err.exit_code(),
            CommandError::Registry(_) | CommandError::Io(_) => 74,
            CommandError::Json(_) => 70,
        }
    }

    /// The message the CLI prints.
    pub fn message(&self) -> (r: String)
        ensures
            r@ == command_error_message(*self),
    {
        match self {
            CommandError::Spec(s) => spec_error_text(s),
            CommandError::Install(err) => err.message(),
            CommandError::Registry(m) => m.clone(),
            CommandError::NotFound(spec) => {
                let mut out = String::from_str("no matching package found for ");
                out.append(spec.as_str());
                out
            },
            CommandError::Io(m) => m.clone(),
            CommandError::Json(m) => m.clone(),
        }
    }
}

// ---------------------------------------------------------------------------
// Output
// ---------------------------------------------------------------------------

/// The providers of a `(provider, model id)` catalog.
pub open spec fn catalog_providers(models: Seq<(String, String)>) -> Set<Seq<char>> {
    models.map_values(|m: (String, String)| m.0@).to_set()
}

/// The providers of a catalog, sorted, each once.
pub fn provider_ids(models: &[(String, String)]) -> (r: Vec<String>)
    ensures
        sorted_strict(strs(r@)),
        strs(r@).to_set() == catalog_providers(models@),
        r.len() == catalog_providers(models@).len(),
{
    let mut out: Vec<String> = Vec::new();
    let mut i: usize = 0;
    assert(strs(out@).to_set() =~= Set::<Seq<char>>::empty());
    assert(models@.take(0).map_values(|m: (String, String)| m.0@).to_set() =~= Set::<
        Seq<char>,
    >::empty());
    while i < models.len()
        invariant
            i <= models.len(),
            sorted_strict(strs(out@)),
            strs(out@).to_set() == catalog_providers(models@.take(i as int)),
        decreases models.len() - i,
    {
        let ghost mv = models@.take(i as int).map_values(|m: (String, String)| m.0@);
        assert(models@.take(i + 1).map_values(|m: (String, String)| m.0@) == mv.push(
            models@[i as int].0@,
        ));
        proof {
            mv.lemma_push_to_set_commute(models@[i as int].0@);
        }
        insert_sorted_unique(&mut out, models[i].0.clone());
        i += 1;
    }
    assert(models@.take(models.len() as int) =~= models@);
    proof {
        assert(strs(out@).no_duplicates()) by {
            assert forall|a: int, b: int|
                0 <= a < strs(out@).len() && 0 <= b < strs(out@).len() && a != b implies strs(
                out@,
            )[a] != strs(out@)[b] by {
                if a < b {
                    assert(strs(out@)[a] != strs(out@)[b]);
                } else {
                    assert(strs(out@)[b] != strs(out@)[a]);
                }
            }
        }
        strs(out@).unique_seq_to_set();
    }
    out
}

/// The lines under `providers:`.
pub open spec fn indented_lines(items: Seq<Seq<char>>) -> Seq<char>
    decreases items.len(),
{
    if items.len() == 0 {
        Seq::empty()
    } else {
        indented_lines(items.drop_last()) + "  "@ + items.last() + "\n"@
    }
}

/// What `pi version` prints as text.
pub open spec fn version_text_spec(version: Seq<char>, providers: Seq<Seq<char>>) -> Seq<char> {
    "pi "@ + version + "\nproviders:\n"@ + indented_lines(providers)
}

/// The text of `pi version`: the version, then the providers, one per line.
pub fn version_text(version: &str, providers: &[String]) -> (r: String)
    ensures
        r@ == version_text_spec(version@, strs(providers@)),
{
    let mut out = String::from_str("pi ");
    out.append(version);
    push_str(&mut out, "\nproviders:\n");
    let ghost head = out@;
    let mut i: usize = 0;
    while i < providers.len()
        invariant
            i <= providers.len(),
            out@ == head + indented_lines(strs(providers@).take(i as int)),
        decreases providers.len() - i,
    {
        let ghost t = strs(providers@).take(i + 1);
        assert(t.drop_last() =~= strs(providers@).take(i as int));
        assert(t.last() == providers@[i as int]@);
        push_str(&mut out, "  ");
        out.append(providers[i].as_str());
        push_str(&mut out, "\n");
        i += 1;
    }
    assert(strs(providers@).take(providers.len() as int) =~= strs(providers@));
    out
}

/// What `pi update-models` prints.
pub open spec fn update_models_text_spec(count: u64) -> Seq<char> {
    "Model catalogs refreshed: "@ + decimal(count as nat) + " models (0 changes)\n"@
}

/// The text of `pi update-models` for a catalog of `count` models.
pub fn update_models_text(count: u64) -> (r: String)
    ensures
        r@ == update_models_text_spec(count),
{
    let mut out = String::from_str("Model catalogs refreshed: ");
    push_decimal(&mut out, count);
    push_str(&mut out, " models (0 changes)\n");
    out
}

/// One line of `pi list`: name, spec and resolved source.
pub open spec fn package_line(e: PackageEntry) -> Seq<char> {
    e.name@ + "  "@ + e.spec@ + "  "@ + e.resolved@ + "\n"@
}

/// The lines of `pi list`.
pub open spec fn package_lines(es: Seq<PackageEntry>) -> Seq<char>
    decreases es.len(),
{
    if es.len() == 0 {
        Seq::empty()
    } else {
        package_lines(es.drop_last()) + package_line(es.last())
    }
}

/// The text of `pi list`: one line per installed package.
pub fn list_text(packages: &[PackageEntry]) -> (r: String)
    ensures
        r@ == package_lines(packages@),
{
    let mut out = String::new();
    let mut i: usize = 0;
    while i < packages.len()
        invariant
            i <= packages.len(),
            out@ == package_lines(packages@.take(i as int)),
        decreases packages.len() - i,
    {
        assert(packages@.take(i + 1).drop_last() =~= packages@.take(i as int));
        out.append(packages[i].name.as_str());
        push_str(&mut out, "  ");
        out.append(packages[i].spec.as_str());
        push_str(&mut out, "  ");
        out.append(packages[i].resolved.as_str());
        push_str(&mut out, "\n");
        i += 1;
    }
    assert(packages@.take(packages.len() as int) =~= packages@);
    out
}

/// What `pi remove` prints when a package was removed.
pub fn removed_text(spec: &str) -> (r: String)
    ensures
        r@ == "Removed "@ + spec@ + "\n"@,
{
    let mut out = String::from_str("Removed ");
    out.append(spec);
    push_str(&mut out, "\n");
    out
}

/// What `pi install` prints once a package is in place.
pub fn installed_text(entry: &PackageEntry) -> (r: String)
    ensures
        r@ == "Installed "@ + entry.spec@ + " ("@ + entry.resolved@ + ")\n"@,
{
    let mut out = String::from_str("Installed ");
    out.append(entry.spec.as_str());
    push_str(&mut out, " (");
    out.append(entry.resolved.as_str());
    push_str(&mut out, ")\n");
    out
}

/// The outcome of `pi remove`: done, or not found.
pub fn remove_outcome(spec: &str, removed: bool) -> (r: Result<String, CommandError>)
    ensures
        removed ==> (r matches Ok(t) && t@ == "Removed "@ + spec@ + "\n"@),
        !removed ==> (r matches Err(CommandError::NotFound(s)) && s@ == spec@),
{
    if removed {
        Ok(removed_text(spec))
    } else {
        Err(CommandError::NotFound(spec.to_string()))
    }
}

// ---------------------------------------------------------------------------
// list-models
// ---------------------------------------------------------------------------

/// A catalog entry as `pi list-models` shows it.
#[derive(Debug, Clone, PartialEq, Eq)]
pub struct ModelSummary {
    /// Provider id.
    pub provider: String,
    /// Model id.
    pub id: String,
    /// Display label, if any.
    pub label: Option<String>,
    /// Context window, in tokens.
    pub context_window: u64,
    /// Output limit, in tokens.
    pub max_output_tokens: u64,
}

/// Listing order: by provider, then by model id.
pub open spec fn model_le(a: ModelSummary, b: ModelSummary) -> bool {
    if a.provider@ != b.provider@ {
        lex_le(a.provider@, b.provider@)
    } else {
        lex_le(a.id@, b.id@)
    }
}

/// First index from `i` on whose entry sorts after `x`.
pub open spec fn model_insert_pos(s: Seq<ModelSummary>, x: ModelSummary, i: int) -> int
    decreases s.len() - i,
{
    if i < 0 || i >= s.len() {
        s.len() as int
    } else if !model_le(s[i], x) {
        i
    } else {
        model_insert_pos(s, x, i + 1)
    }
}

/// The entries in listing order, equal keys kept in catalog order (a
/// stable insertion sort).
pub open spec fn sort_models(s: Seq<ModelSummary>) -> Seq<ModelSummary>
    decreases s.len(),
{
    if s.len() == 0 {
        Seq::empty()
    } else {
        let r = sort_models(s.drop_last());
        r.insert(model_insert_pos(r, s.last(), 0), s.last())
    }
}

/// One line of `pi list-models`.
pub open spec fn model_line(m: ModelSummary) -> Seq<char> {
    m.provider@ + "/"@ + m.id@ + "  context="@ + decimal(m.context_window as nat)
        + "  max_output_tokens="@ + decimal(m.max_output_tokens as nat) + match m.label {
        Some(l) => "  "@ + l@,
        None => Seq::empty(),
    } + "\n"@
}

/// The lines of `pi list-models`.
pub open spec fn model_lines(s: Seq<ModelSummary>) -> Seq<char>
    decreases s.len(),
{
    if s.len() == 0 {
        Seq::empty()
    } else {
        model_lines(s.drop_last()) + model_line(s.last())
    }
}

fn model_le_exec(a: &ModelSummary, b: &ModelSummary) -> (r: bool)
    ensures
        r == model_le(*a, *b),
{
    if a.provider != b.provider {
        lex_le_exec(&a.provider, &b.provider)
    } else {
        lex_le_exec(&a.id, &b.id)
    }
}

fn copy_model(m: &ModelSummary) -> (r: ModelSummary)
    ensures
        r == *m,
{
    ModelSummary {
        provider: m.provider.clone(),
        id: m.id.clone(),
        label: match &m.label {
            Some(l) => Some(l.clone()),
            None => None,
        },
        context_window: m.context_window,
        max_output_tokens: m.max_output_tokens,
    }
}

/// The catalog in listing order.
pub fn sorted_models(models: &[ModelSummary]) -> (r: Vec<ModelSummary>)
    ensures
        r@ == sort_models(models@),
{
    let mut out: Vec<ModelSummary> = Vec::new();
    let mut i: usize = 0;
    while i < models.len()
        invariant
            i <= models.len(),
            out@ == sort_models(models@.take(i as int)),
        decreases models.len() - i,
    {
        let x = copy_model(&models[i]);
        let ghost t = models@.take(i + 1);
        assert(t.drop_last() =~= models@.take(i as int));
        assert(t.last() == x);
        let ghost r = out@;
        let mut p: usize = 0;
        while p < out.len()
            invariant
                p <= out.len(),
                out@ == r,
                model_insert_pos(r, x, 0) == model_insert_pos(r, x, p as int),
            ensures
                model_insert_pos(r, x, 0) == p as int,
            decreases out.len() - p,
        {
            if !model_le_exec(&out[p], &x) {
                break;
            }
            p += 1;
        }
        out.insert(p, x);
        i += 1;
    }
    assert(models@.take(models.len() as int) =~= models@);
    out
}

/// The text of `pi list-models`: one line per model, by provider then id.
pub fn list_models_text(models: &[ModelSummary]) -> (r: String)
    ensures
        r@ == model_lines(sort_models(models@)),
{
    let sorted = sorted_models(models);
    let mut out = String::new();
    let mut i: usize = 0;
    while i < sorted.len()
        invariant
            i <= sorted.len(),
            out@ == model_lines(sorted@.take(i as int)),
        decreases sorted.len() - i,
    {
        assert(sorted@.take(i + 1).drop_last() =~= sorted@.take(i as int));
        let m = &sorted[i];
        out.append(m.provider.as_str());
        push_str(&mut out, "/");
        out.append(m.id.as_str());
        push_str(&mut out, "  context=");
        push_decimal(&mut out, m.context_window);
        push_str(&mut out, "  max_output_tokens=");
        push_decimal(&mut out, m.max_output_tokens);
        match &m.label {
            Some(l) => {
                push_str(&mut out, "  ");
                out.append(l.as_str());
            },
            None => {},
        }
        push_str(&mut out, "\n");
        i += 1;
    }
    assert(sorted@.take(sorted.len() as int) =~= sorted@);
    out
}

/// The listing order is total.
proof fn lemma_model_le_total(a: ModelSummary, b: ModelSummary)
    ensures
        model_le(a, b) || model_le(b, a),
{
    lemma_lex_total(a.provider@, b.provider@);
    lemma_lex_total(a.id@, b.id@);
}

/// The listing order is transitive.
proof fn lemma_model_le_trans(a: ModelSummary, b: ModelSummary, c: ModelSummary)
    requires
        model_le(a, b),
        model_le(b, c),
    ensures
        model_le(a, c),
{
    if a.provider@ == b.provider@ {
        if b.provider@ == c.provider@ {
            lemma_lex_trans(a.id@, b.id@, c.id@);
        }
    } else if b.provider@ != c.provider@ {
        lemma_lex_trans(a.provider@, b.provider@, c.provider@);
        if a.provider@ == c.provider@ {
            lemma_lex_antisym(a.provider@, b.provider@);
        }
    }
}

proof fn lemma_model_insert_pos(s: Seq<ModelSummary>, x: ModelSummary, i: int)
    requires
        0 <= i <= s.len(),
    ensures
        i <= model_insert_pos(s, x, i) <= s.len(),
        forall|m: int| i <= m < model_insert_pos(s, x, i) ==> model_le(#[trigger] s[m], x),
        model_insert_pos(s, x, i) < s.len() ==> !model_le(s[model_insert_pos(s, x, i)], x),
    decreases s.len() - i,
{
    if i < s.len() && model_le(s[i], x) {
        lemma_model_insert_pos(s, x, i + 1);
    }
}

/// Entries in listing order.
pub open spec fn models_in_order(s: Seq<ModelSummary>) -> bool {
    forall|i: int, j: int| 0 <= i < j < s.len() ==> model_le(#[trigger] s[i], #[trigger] s[j])
}

proof fn lemma_insert_model_sorted(r: Seq<ModelSummary>, x: ModelSummary)
    requires
        models_in_order(r),
    ensures
        models_in_order(r.insert(model_insert_pos(r, x, 0), x)),
{
    let p = model_insert_pos(r, x, 0);
    lemma_model_insert_pos(r, x, 0);
    let t = r.insert(p, x);
    assert forall|i: int, j: int| 0 <= i < j < t.len() implies model_le(#[trigger] t[i], #[trigger] t[j]) by {
        if j < p {
            assert(t[i] == r[i] && t[j] == r[j]);
        } else if j == p {
            assert(t[i] == r[i]);
        } else if i < p {
            assert(t[i] == r[i] && t[j] == r[j - 1]);
            lemma_model_le_total(r[p], x);
            if j - 1 > p {
                lemma_model_le_trans(x, r[p], r[j - 1]);
            }
            lemma_model_le_trans(r[i], x, r[j - 1]);
        } else if i == p {
            assert(t[j] == r[j - 1]);
            lemma_model_le_total(r[p], x);
            if j - 1 > p {
                lemma_model_le_trans(x, r[p], r[j - 1]);
            }
        } else {
            assert(t[i] == r[i - 1] && t[j] == r[j - 1]);
        }
    }
}

/// `pi list-models` lists the models by provider, then by id.
pub proof fn law_models_are_listed_in_order(s: Seq<ModelSummary>)
    ensures
        models_in_order(sort_models(s)),
    decreases s.len(),
{
    if s.len() > 0 {
        law_models_are_listed_in_order(s.drop_last());
        lemma_insert_model_sorted(sort_models(s.drop_last()), s.last());
    }
}

/// `pi list-models` lists every model of the catalog, each once.
pub proof fn law_every_model_is_listed(s: Seq<ModelSummary>)
    ensures
        sort_models(s).to_multiset() == s.to_multiset(),
    decreases s.len(),
{
    broadcast use vstd::seq_lib::to_multiset_insert, vstd::seq_lib::to_multiset_build;

    if s.len() > 0 {
        law_every_model_is_listed(s.drop_last());
        let r = sort_models(s.drop_last());
        let p = model_insert_pos(r, s.last(), 0);
        lemma_model_insert_pos(r, s.last(), 0);
        assert(sort_models(s) == r.insert(p, s.last()));
        vstd::seq_lib::to_multiset_insert(r, p, s.last());
        assert(s.drop_last().push(s.last()) =~= s);
        vstd::seq_lib::to_multiset_build(s.drop_last(), s.last());
        assert(sort_models(s).to_multiset() =~= s.to_multiset());
    } else {
        assert(s =~= Seq::<ModelSummary>::empty());
        assert(sort_models(s) =~= Seq::<ModelSummary>::empty());
    }
}

} // verus!
