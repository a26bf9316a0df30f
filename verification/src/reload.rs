//! `/reload` — what was re-read of the on-disk configuration the running
//! TUI consumes, and the transcript lines that say so.
//!
//! Only keybindings and the UI settings are re-read; extensions, skills,
//! prompts and context files are not, and the summary says so, so the
//! transcript never claims a reload this build does not perform.
use vstd::prelude::*;

use crate::text::{decimal, push_decimal, push_str};

verus! {

/// What a reload re-read, and what it deliberately left alone.
#[derive(Debug, Clone, PartialEq, Eq)]
pub struct ReloadReport {
    /// The `keybindings.json` the manager resolves against.
    pub keybindings_path: String,
    /// Whether that file exists — an absent file keeps the defaults.
    pub keybindings_file_exists: bool,
    /// Override entries read from the file.
    pub binding_overrides: usize,
    /// Theme applied from `settings.json`, when that file names one.
    pub theme: Option<String>,
    /// Theme named by `settings.json` that could not be resolved, with the
    /// resolver's message.
    pub theme_error: Option<String>,
    /// Copy-on-select applied from `settings.json`.
    pub copy_on_select: bool,
    /// `hideThinkingBlock` applied from `settings.json`.
    pub hide_thinking_block: bool,
    /// `autocompleteMaxVisible` after the editor's clamp.
    pub autocomplete_max_visible: usize,
    /// `quietStartup` as written to disk; reported, applied from the next
    /// start.
    pub quiet_startup: bool,
}

/// The scope note: what a reload does not re-read.
pub open spec fn scope_note() -> Seq<char> {
    "/reload: extensions, skills, prompts and context files are read at startup and are not re-read here (use /new for a fresh session)"@
}

/// The keybindings part of the summary.
pub open spec fn bindings_part(r: ReloadReport) -> Seq<char> {
    if r.keybindings_file_exists {
        "keybindings \u{2192} "@ + decimal(r.binding_overrides as nat) + " override(s) from "@
            + r.keybindings_path@
    } else {
        "keybindings \u{2192} defaults ("@ + r.keybindings_path@ + " has no file)"@
    }
}

/// The theme part of the summary.
pub open spec fn theme_part(r: ReloadReport) -> Seq<char> {
    match r.theme {
        Some(name) => "theme \u{2192} "@ + name@,
        None => match r.theme_error {
            Some(err) => "theme \u{2192} not applied: "@ + err@,
            None => "theme \u{2192} unchanged (settings.json names none)"@,
        },
    }
}

/// The UI-settings part of the summary.
pub open spec fn ui_part(r: ReloadReport) -> Seq<char> {
    "thinking "@ + (if r.hide_thinking_block {
        "hidden"@
    } else {
        "shown"@
    }) + ", autocomplete "@ + decimal(r.autocomplete_max_visible as nat) + " row(s), quiet startup "@
        + (if r.quiet_startup {
        "on"@
    } else {
        "off"@
    }) + " (from the next start)"@
}

/// The keybindings part of the summary.
fn bindings_text(report: &ReloadReport) -> (r: String)
    ensures
        r@ == bindings_part(*report),
{
    if report.keybindings_file_exists {
        let mut out = String::from_str("keybindings \u{2192} ");
        push_decimal(&mut out, report.binding_overrides as u64);
        push_str(&mut out, " override(s) from ");
        out.append(report.keybindings_path.as_str());
        out
    } else {
        let mut out = String::from_str("keybindings \u{2192} defaults (");
        out.append(report.keybindings_path.as_str());
        push_str(&mut out, " has no file)");
        out
    }
}

/// The theme part of the summary.
fn theme_text(report: &ReloadReport) -> (r: String)
    ensures
        r@ == theme_part(*report),
{
    match &report.theme {
        Some(name) => {
            let mut out = String::from_str("theme \u{2192} ");
            out.append(name.as_str());
            out
        },
        None => match &report.theme_error {
            Some(err) => {
                let mut out = String::from_str("theme \u{2192} not applied: ");
                out.append(err.as_str());
                out
            },
            None => String::from_str("theme \u{2192} unchanged (settings.json names none)"),
        },
    }
}

/// The UI-settings part of the summary.
fn ui_text(report: &ReloadReport) -> (r: String)
    ensures
        r@ == ui_part(*report),
{
    let mut out = String::from_str("thinking ");
    push_str(&mut out, if report.hide_thinking_block {
        "hidden"
    } else {
        "shown"
    });
    push_str(&mut out, ", autocomplete ");
    push_decimal(&mut out, report.autocomplete_max_visible as u64);
    push_str(&mut out, " row(s), quiet startup ");
    push_str(&mut out, if report.quiet_startup {
        "on"
    } else {
        "off"
    });
    push_str(&mut out, " (from the next start)");
    out
}

/// The transcript lines a reload prints: what changed, then what this
/// build does not re-read.
pub fn summary_lines(report: &ReloadReport) -> (r: Vec<String>)
    ensures
        r@.len() == 2,
        r@[0]@ == "/reload: "@ + bindings_part(*report) + "; "@ + theme_part(*report) + "; "@
            + ui_part(*report),
        r@[1]@ == scope_note(),
{
    let mut first = String::from_str("/reload: ");
    let b = bindings_text(report);
    first.append(b.as_str());
    push_str(&mut first, "; ");
    let t = theme_text(report);
    first.append(t.as_str());
    push_str(&mut first, "; ");
    let u = ui_text(report);
    first.append(u.as_str());
    let second = String::from_str(
        "/reload: extensions, skills, prompts and context files are read at startup and are not re-read here (use /new for a fresh session)",
    );
    let mut out: Vec<String> = Vec::new();
    out.push(first);
    out.push(second);
    out
}

} // verus!
