//! The coding-agent keybinding layer: the `app.*` default table with its
//! platform forks, the override of four `tui.*` defaults, the legacy-name
//! migration table, and the ordering and filtering of a raw
//! `keybindings.json` config.
//!
//! The platform and the environment are values here, so every default set
//! (Windows, WSL, macOS, others) is reachable on any host. The raw config
//! is an ordered list of pairs whose values are the JSON shapes the layer
//! reads.
use vstd::prelude::*;

use crate::text::{
    chars_of, equals_lit, lemma_lex_total, lemma_lex_trans, lemma_strs_push, lex_le, lex_le_exec,
    strs,
};

verus! {

/// The file this layer reads inside an agent directory.
pub const KEYBINDINGS_FILE_NAME: &'static str = "keybindings.json";

/// The platforms the default tables fork on.
#[derive(Debug, Clone, PartialEq, Eq)]
pub enum Platform {
    /// Native Windows (`"win32"`).
    Win32,
    /// Linux (`"linux"`), including WSL (see [`windows_keybindings`]).
    Linux,
    /// macOS (`"darwin"`, or `"macos"` as `std::env::consts::OS` says).
    Darwin,
    /// Any other platform name.
    Other(String),
}

/// The name of a platform, as `process.platform` spells it.
pub open spec fn platform_name(p: Platform) -> Seq<char> {
    match p {
        Platform::Win32 => "win32"@,
        Platform::Linux => "linux"@,
        Platform::Darwin => "darwin"@,
        Platform::Other(name) => name@,
    }
}

impl Platform {
    /// Parse a Node-style platform name (`"win32"`, `"linux"`, `"darwin"`,
    /// `"macos"`, ...); any other name is kept as [`Platform::Other`].
    pub fn from_name(name: &str) -> (r: Self)
        ensures
            match r {
                Platform::Win32 => name@ == "win32"@,
                Platform::Linux => name@ != "win32"@ && name@ == "linux"@,
                Platform::Darwin => name@ != "win32"@ && name@ != "linux"@ && (name@ == "darwin"@
                    || name@ == "macos"@),
                Platform::Other(n) => n@ == name@ && !(name@ == "win32"@ || name@ == "linux"@
                    || name@ == "darwin"@ || name@ == "macos"@),
            },
    {
        let v = chars_of(name);
        if equals_lit(&v, "win32") {
            Platform::Win32
        } else if equals_lit(&v, "linux") {
            Platform::Linux
        } else if equals_lit(&v, "darwin") || equals_lit(&v, "macos") {
            Platform::Darwin
        } else {
            Platform::Other(String::from_str(name))
        }
    }

    /// The name of this platform, as `process.platform` spells it.
    pub fn as_str(&self) -> (r: &str)
        ensures
            r@ == platform_name(*self),
    {
        match self {
            Platform::Win32 => "win32",
            Platform::Linux => "linux",
            Platform::Darwin => "darwin",
            Platform::Other(name) => name.as_str(),
        }
    }

    /// True for [`Platform::Win32`].
    pub fn is_windows(&self) -> (r: bool)
        ensures
            r == (*self is Win32),
    {
        match self {
            Platform::Win32 => true,
            _ => false,
        }
    }
}

/// The value of `name` in an environment snapshot (the first entry wins).
pub open spec fn env_value(env: Seq<(String, String)>, name: Seq<char>) -> Option<Seq<char>>
    decreases env.len(),
{
    if env.len() == 0 {
        None
    } else if env[0].0@ == name {
        Some(env[0].1@)
    } else {
        env_value(env.drop_first(), name)
    }
}

/// Present and non-empty.
pub open spec fn is_truthy(v: Option<Seq<char>>) -> bool {
    match v {
        Some(s) => s.len() > 0,
        None => false,
    }
}

/// Whether the Windows chords apply: native Windows, or Linux under WSL.
pub open spec fn windows_spec(p: Platform, env: Seq<(String, String)>) -> bool {
    match p {
        Platform::Win32 => true,
        Platform::Linux => is_truthy(env_value(env, "WSL_DISTRO_NAME"@)) || is_truthy(
            env_value(env, "WSL_INTEROP"@),
        ),
        _ => false,
    }
}

/// Whether `name` is set to a non-empty value in `env`.
fn env_is_truthy(env: &[(String, String)], name: &str) -> (r: bool)
    ensures
        r == is_truthy(env_value(env@, name@)),
{
    let mut i: usize = 0;
    assert(env@.skip(0) =~= env@);
    while i < env.len()
        invariant
            i <= env.len(),
            env_value(env@, name@) == env_value(env@.skip(i as int), name@),
        decreases env.len() - i,
    {
        assert(env@.skip(i as int).drop_first() =~= env@.skip(i + 1));
        assert(env@.skip(i as int)[0] == env@[i as int]);
        if equals_lit(&chars_of(env[i].0.as_str()), name) {
            return env[i].1.unicode_len() > 0;
        }
        i += 1;
    }
    false
}

/// Whether the Windows chords apply: native Windows, or Linux under WSL.
///
/// WSL is detected from a non-empty `WSL_DISTRO_NAME` or `WSL_INTEROP`;
/// Windows Terminal alone (`WT_SESSION`) is not a signal.
pub fn windows_keybindings(platform: &Platform, env: &[(String, String)]) -> (r: bool)
    ensures
        r == windows_spec(*platform, env@),
{
    match platform {
        Platform::Win32 => true,
        Platform::Linux => env_is_truthy(env, "WSL_DISTRO_NAME") || env_is_truthy(env, "WSL_INTEROP"),
        _ => false,
    }
}

// ---------------------------------------------------------------------------
// Default tables
// ---------------------------------------------------------------------------

/// One keybinding definition: its default chords and its description.
#[derive(Debug, Clone, PartialEq, Eq)]
pub struct KeyDefinition {
    /// The chords bound when the user overrides nothing (may be empty).
    pub default_keys: Vec<String>,
    /// What the action does.
    pub description: String,
}

/// A definition table as plain values: `(id, chords, description)`.
pub open spec fn defs_view(v: Seq<(String, KeyDefinition)>) -> Seq<
    (Seq<char>, Seq<Seq<char>>, Seq<char>),
> {
    v.map_values(
        |e: (String, KeyDefinition)| (e.0@, strs(e.1.default_keys@), e.1.description@),
    )
}

/// The `app.*` default table for the given platform flags.
pub open spec fn app_table(windows: bool, win32: bool, darwin: bool) -> Seq<
    (Seq<char>, Seq<Seq<char>>, Seq<char>),
> {
    seq![
        ("app.interrupt"@, seq!["escape"@], "Cancel or abort"@),
        ("app.clear"@, seq!["ctrl+c"@], "Clear editor"@),
        ("app.exit"@, seq!["ctrl+d"@], "Exit when editor is empty"@),
        ("app.suspend"@, if win32 { Seq::empty() } else { seq!["ctrl+z"@] }, "Suspend to background"@),
        ("app.thinking.cycle"@, seq!["shift+tab"@], "Cycle thinking level"@),
        ("app.thinking.save"@, seq!["ctrl+s"@], "Save thinking level"@),
        ("app.model.cycleForward"@, seq!["ctrl+p"@], "Cycle to next model"@),
        ("app.model.cycleBackward"@, if windows { seq!["alt+p"@] } else { seq!["shift+ctrl+p"@] }, "Cycle to previous model"@),
        ("app.model.select"@, seq!["ctrl+l"@], "Open model selector"@),
        ("app.tools.expand"@, seq!["ctrl+o"@], "Toggle tool output"@),
        ("app.thinking.toggle"@, seq!["ctrl+t"@], "Toggle thinking blocks"@),
        ("app.header"@, seq!["alt+h"@], "Toggle startup header"@),
        ("app.session.toggleNamedFilter"@, seq!["ctrl+n"@], "Toggle named session filter"@),
        ("app.editor.external"@, seq!["ctrl+g"@], "Open external editor"@),
        ("app.message.copy"@, seq!["ctrl+x"@], "Copy message to clipboard"@),
        ("app.message.followUp"@, if windows { seq!["ctrl+q"@] } else { seq!["alt+enter"@] }, "Queue follow-up message"@),
        ("app.message.dequeue"@, if windows { seq!["alt+q"@] } else { seq!["alt+up"@] }, "Restore queued messages"@),
        ("app.clipboard.pasteImage"@, if windows { seq!["alt+v"@] } else { seq!["ctrl+v"@] }, "Paste image from clipboard (text fallback)"@),
        ("app.session.new"@, seq!["alt+n"@], "Start a new session"@),
        ("app.session.tree"@, Seq::empty(), "Open session tree"@),
        ("app.session.fork"@, Seq::empty(), "Fork current session"@),
        ("app.session.resume"@, Seq::empty(), "Resume a session"@),
        ("app.tree.foldOrUp"@, if darwin { seq!["alt+left"@, "ctrl+left"@] } else { seq!["ctrl+left"@, "alt+left"@] }, "Fold tree branch or move up"@),
        ("app.tree.unfoldOrDown"@, if darwin { seq!["alt+right"@, "ctrl+right"@] } else { seq!["ctrl+right"@, "alt+right"@] }, "Unfold tree branch or move down"@),
        ("app.tree.editLabel"@, seq!["shift+l"@], "Edit tree label"@),
        ("app.tree.toggleLabelTimestamp"@, seq!["shift+t"@], "Toggle tree label timestamps"@),
        ("app.session.togglePath"@, seq!["ctrl+p"@], "Toggle session path display"@),
        ("app.session.toggleSort"@, seq!["ctrl+s"@], "Toggle session sort mode"@),
        ("app.session.rename"@, seq!["ctrl+r"@], "Rename session"@),
        ("app.session.delete"@, seq!["ctrl+d"@], "Delete session"@),
        ("app.session.deleteNoninvasive"@, seq!["ctrl+backspace"@], "Delete session when query is empty"@),
        ("app.models.save"@, seq!["ctrl+s"@], "Save model selection"@),
        ("app.models.enableAll"@, seq!["ctrl+a"@], "Enable all models"@),
        ("app.models.clearAll"@, seq!["ctrl+x"@], "Clear all models"@),
        ("app.models.toggleProvider"@, seq!["ctrl+p"@], "Toggle all models for provider"@),
        ("app.models.reorderUp"@, seq!["alt+up"@], "Move model up in order"@),
        ("app.models.reorderDown"@, seq!["alt+down"@], "Move model down in order"@),
        ("app.tree.filter.default"@, seq!["ctrl+d"@], "Tree filter: default view"@),
        ("app.tree.filter.noTools"@, seq!["ctrl+t"@], "Tree filter: hide tool results"@),
        ("app.tree.filter.userOnly"@, seq!["ctrl+u"@], "Tree filter: user messages only"@),
        ("app.tree.filter.labeledOnly"@, seq!["ctrl+l"@], "Tree filter: labeled entries only"@),
        ("app.tree.filter.all"@, seq!["ctrl+a"@], "Tree filter: show all entries"@),
        ("app.tree.filter.cycleForward"@, seq!["ctrl+o"@], "Tree filter: cycle forward"@),
        ("app.tree.filter.cycleBackward"@, seq!["shift+ctrl+o"@], "Tree filter: cycle backward"@),
    ]
}

/// Append one definition with the given chords.
fn push_def(out: &mut Vec<(String, KeyDefinition)>, id: &str, keys: Vec<String>, desc: &str)
    ensures
        defs_view(final(out)@) == defs_view(old(out)@).push((id@, strs(keys@), desc@)),
{
    let ghost before = out@;
    let ghost kv = strs(keys@);
    let def = KeyDefinition { default_keys: keys, description: String::from_str(desc) };
    out.push((String::from_str(id), def));
    assert(defs_view(out@) =~= defs_view(before).push((id@, kv, desc@)));
}

/// Append an unbound definition.
fn push_entry0(out: &mut Vec<(String, KeyDefinition)>, id: &str, desc: &str)
    ensures
        defs_view(final(out)@) == defs_view(old(out)@).push((id@, Seq::empty(), desc@)),
{
    let keys: Vec<String> = Vec::new();
    assert(strs(keys@) =~= Seq::<Seq<char>>::empty());
    push_def(out, id, keys, desc);
}

/// Append a definition with one chord.
fn push_entry1(out: &mut Vec<(String, KeyDefinition)>, id: &str, k1: &str, desc: &str)
    ensures
        defs_view(final(out)@) == defs_view(old(out)@).push((id@, seq![k1@], desc@)),
{
    let mut keys: Vec<String> = Vec::new();
    keys.push(String::from_str(k1));
    assert(strs(keys@) =~= seq![k1@]);
    push_def(out, id, keys, desc);
}

/// Append a definition with two chords.
fn push_entry2(out: &mut Vec<(String, KeyDefinition)>, id: &str, k1: &str, k2: &str, desc: &str)
    ensures
        defs_view(final(out)@) == defs_view(old(out)@).push((id@, seq![k1@, k2@], desc@)),
{
    let mut keys: Vec<String> = Vec::new();
    keys.push(String::from_str(k1));
    keys.push(String::from_str(k2));
    assert(strs(keys@) =~= seq![k1@, k2@]);
    push_def(out, id, keys, desc);
}

/// The `app.*` default table — the application's own definitions,
/// plus `app.header` (the startup header's own fold chord) and a real
/// chord for `app.session.new`.
///
/// Seven entries fork on the platform: `app.suspend` (unbound on native
/// Windows), `app.model.cycleBackward`, `app.message.followUp`,
/// `app.message.dequeue`, `app.clipboard.pasteImage` (Windows and WSL),
/// and `app.tree.foldOrUp` / `app.tree.unfoldOrDown` (macOS chord order).
#[verifier::rlimit(50)]
pub fn app_default_keybindings(platform: &Platform, env: &[(String, String)]) -> (r: Vec<
    (String, KeyDefinition),
>)
    ensures
        defs_view(r@) == app_table(
            windows_spec(*platform, env@),
            *platform is Win32,
            *platform is Darwin,
        ),
{
    let windows = windows_keybindings(platform, env);
    let win32 = platform.is_windows();
    let darwin = match platform {
        Platform::Darwin => true,
        _ => false,
    };
    let mut out: Vec<(String, KeyDefinition)> = Vec::new();
    push_entry1(&mut out, "app.interrupt", "escape", "Cancel or abort");
    push_entry1(&mut out, "app.clear", "ctrl+c", "Clear editor");
    push_entry1(&mut out, "app.exit", "ctrl+d", "Exit when editor is empty");
    if win32 {
        push_entry0(&mut out, "app.suspend", "Suspend to background");
    } else {
        push_entry1(&mut out, "app.suspend", "ctrl+z", "Suspend to background");
    }
    push_entry1(&mut out, "app.thinking.cycle", "shift+tab", "Cycle thinking level");
    push_entry1(&mut out, "app.thinking.save", "ctrl+s", "Save thinking level");
    push_entry1(&mut out, "app.model.cycleForward", "ctrl+p", "Cycle to next model");
    if windows {
        push_entry1(&mut out, "app.model.cycleBackward", "alt+p", "Cycle to previous model");
    } else {
        push_entry1(&mut out, "app.model.cycleBackward", "shift+ctrl+p", "Cycle to previous model");
    }
    push_entry1(&mut out, "app.model.select", "ctrl+l", "Open model selector");
    push_entry1(&mut out, "app.tools.expand", "ctrl+o", "Toggle tool output");
    push_entry1(&mut out, "app.thinking.toggle", "ctrl+t", "Toggle thinking blocks");
    push_entry1(&mut out, "app.header", "alt+h", "Toggle startup header");
    push_entry1(&mut out, "app.session.toggleNamedFilter", "ctrl+n", "Toggle named session filter");
    push_entry1(&mut out, "app.editor.external", "ctrl+g", "Open external editor");
    push_entry1(&mut out, "app.message.copy", "ctrl+x", "Copy message to clipboard");
    if windows {
        push_entry1(&mut out, "app.message.followUp", "ctrl+q", "Queue follow-up message");
    } else {
        push_entry1(&mut out, "app.message.followUp", "alt+enter", "Queue follow-up message");
    }
    if windows {
        push_entry1(&mut out, "app.message.dequeue", "alt+q", "Restore queued messages");
    } else {
        push_entry1(&mut out, "app.message.dequeue", "alt+up", "Restore queued messages");
    }
    if windows {
        push_entry1(&mut out, "app.clipboard.pasteImage", "alt+v", "Paste image from clipboard (text fallback)");
    } else {
        push_entry1(&mut out, "app.clipboard.pasteImage", "ctrl+v", "Paste image from clipboard (text fallback)");
    }
    push_entry1(&mut out, "app.session.new", "alt+n", "Start a new session");
    push_entry0(&mut out, "app.session.tree", "Open session tree");
    push_entry0(&mut out, "app.session.fork", "Fork current session");
    push_entry0(&mut out, "app.session.resume", "Resume a session");
    if darwin {
        push_entry2(&mut out, "app.tree.foldOrUp", "alt+left", "ctrl+left", "Fold tree branch or move up");
    } else {
        push_entry2(&mut out, "app.tree.foldOrUp", "ctrl+left", "alt+left", "Fold tree branch or move up");
    }
    if darwin {
        push_entry2(&mut out, "app.tree.unfoldOrDown", "alt+right", "ctrl+right", "Unfold tree branch or move down");
    } else {
        push_entry2(&mut out, "app.tree.unfoldOrDown", "ctrl+right", "alt+right", "Unfold tree branch or move down");
    }
    push_entry1(&mut out, "app.tree.editLabel", "shift+l", "Edit tree label");
    push_entry1(&mut out, "app.tree.toggleLabelTimestamp", "shift+t", "Toggle tree label timestamps");
    push_entry1(&mut out, "app.session.togglePath", "ctrl+p", "Toggle session path display");
    push_entry1(&mut out, "app.session.toggleSort", "ctrl+s", "Toggle session sort mode");
    push_entry1(&mut out, "app.session.rename", "ctrl+r", "Rename session");
    push_entry1(&mut out, "app.session.delete", "ctrl+d", "Delete session");
    push_entry1(&mut out, "app.session.deleteNoninvasive", "ctrl+backspace", "Delete session when query is empty");
    push_entry1(&mut out, "app.models.save", "ctrl+s", "Save model selection");
    push_entry1(&mut out, "app.models.enableAll", "ctrl+a", "Enable all models");
    push_entry1(&mut out, "app.models.clearAll", "ctrl+x", "Clear all models");
    push_entry1(&mut out, "app.models.toggleProvider", "ctrl+p", "Toggle all models for provider");
    push_entry1(&mut out, "app.models.reorderUp", "alt+up", "Move model up in order");
    push_entry1(&mut out, "app.models.reorderDown", "alt+down", "Move model down in order");
    push_entry1(&mut out, "app.tree.filter.default", "ctrl+d", "Tree filter: default view");
    push_entry1(&mut out, "app.tree.filter.noTools", "ctrl+t", "Tree filter: hide tool results");
    push_entry1(&mut out, "app.tree.filter.userOnly", "ctrl+u", "Tree filter: user messages only");
    push_entry1(&mut out, "app.tree.filter.labeledOnly", "ctrl+l", "Tree filter: labeled entries only");
    push_entry1(&mut out, "app.tree.filter.all", "ctrl+a", "Tree filter: show all entries");
    push_entry1(&mut out, "app.tree.filter.cycleForward", "ctrl+o", "Tree filter: cycle forward");
    push_entry1(&mut out, "app.tree.filter.cycleBackward", "shift+ctrl+o", "Tree filter: cycle backward");
    assert(defs_view(out@) =~= app_table(windows, win32, darwin));
    out
}

/// The ids of the `app.*` table, in its order (they do not depend on the
/// platform).
pub fn app_keybinding_ids() -> (r: Vec<&'static str>)
    ensures
        r@.len() == app_table(false, false, false).len(),
        forall|i: int| 0 <= i < r@.len() ==> #[trigger] r@[i]@ == app_table(false, false, false)[i].0,
{
    let r = vec![
        "app.interrupt",
        "app.clear",
        "app.exit",
        "app.suspend",
        "app.thinking.cycle",
        "app.thinking.save",
        "app.model.cycleForward",
        "app.model.cycleBackward",
        "app.model.select",
        "app.tools.expand",
        "app.thinking.toggle",
        "app.header",
        "app.session.toggleNamedFilter",
        "app.editor.external",
        "app.message.copy",
        "app.message.followUp",
        "app.message.dequeue",
        "app.clipboard.pasteImage",
        "app.session.new",
        "app.session.tree",
        "app.session.fork",
        "app.session.resume",
        "app.tree.foldOrUp",
        "app.tree.unfoldOrDown",
        "app.tree.editLabel",
        "app.tree.toggleLabelTimestamp",
        "app.session.togglePath",
        "app.session.toggleSort",
        "app.session.rename",
        "app.session.delete",
        "app.session.deleteNoninvasive",
        "app.models.save",
        "app.models.enableAll",
        "app.models.clearAll",
        "app.models.toggleProvider",
        "app.models.reorderUp",
        "app.models.reorderDown",
        "app.tree.filter.default",
        "app.tree.filter.noTools",
        "app.tree.filter.userOnly",
        "app.tree.filter.labeledOnly",
        "app.tree.filter.all",
        "app.tree.filter.cycleForward",
        "app.tree.filter.cycleBackward",
    ];
    r
}

/// The legacy keybinding names and the namespaced ids they map to, in
/// table order.
pub open spec fn migration_table() -> Seq<(Seq<char>, Seq<char>)> {
    seq![
        ("cursorUp"@, "tui.editor.cursorUp"@),
        ("cursorDown"@, "tui.editor.cursorDown"@),
        ("cursorLeft"@, "tui.editor.cursorLeft"@),
        ("cursorRight"@, "tui.editor.cursorRight"@),
        ("cursorWordLeft"@, "tui.editor.cursorWordLeft"@),
        ("cursorWordRight"@, "tui.editor.cursorWordRight"@),
        ("cursorLineStart"@, "tui.editor.cursorLineStart"@),
        ("cursorLineEnd"@, "tui.editor.cursorLineEnd"@),
        ("jumpForward"@, "tui.editor.jumpForward"@),
        ("jumpBackward"@, "tui.editor.jumpBackward"@),
        ("pageUp"@, "tui.editor.pageUp"@),
        ("pageDown"@, "tui.editor.pageDown"@),
        ("deleteCharBackward"@, "tui.editor.deleteCharBackward"@),
        ("deleteCharForward"@, "tui.editor.deleteCharForward"@),
        ("deleteWordBackward"@, "tui.editor.deleteWordBackward"@),
        ("deleteWordForward"@, "tui.editor.deleteWordForward"@),
        ("deleteToLineStart"@, "tui.editor.deleteToLineStart"@),
        ("deleteToLineEnd"@, "tui.editor.deleteToLineEnd"@),
        ("yank"@, "tui.editor.yank"@),
        ("yankPop"@, "tui.editor.yankPop"@),
        ("undo"@, "tui.editor.undo"@),
        ("newLine"@, "tui.input.newLine"@),
        ("submit"@, "tui.input.submit"@),
        ("tab"@, "tui.input.tab"@),
        ("copy"@, "tui.input.copy"@),
        ("selectUp"@, "tui.select.up"@),
        ("selectDown"@, "tui.select.down"@),
        ("selectPageUp"@, "tui.select.pageUp"@),
        ("selectPageDown"@, "tui.select.pageDown"@),
        ("selectConfirm"@, "tui.select.confirm"@),
        ("selectCancel"@, "tui.select.cancel"@),
        ("interrupt"@, "app.interrupt"@),
        ("clear"@, "app.clear"@),
        ("exit"@, "app.exit"@),
        ("suspend"@, "app.suspend"@),
        ("cycleThinkingLevel"@, "app.thinking.cycle"@),
        ("cycleModelForward"@, "app.model.cycleForward"@),
        ("cycleModelBackward"@, "app.model.cycleBackward"@),
        ("selectModel"@, "app.model.select"@),
        ("expandTools"@, "app.tools.expand"@),
        ("toggleThinking"@, "app.thinking.toggle"@),
        ("toggleSessionNamedFilter"@, "app.session.toggleNamedFilter"@),
        ("externalEditor"@, "app.editor.external"@),
        ("followUp"@, "app.message.followUp"@),
        ("dequeue"@, "app.message.dequeue"@),
        ("pasteImage"@, "app.clipboard.pasteImage"@),
        ("newSession"@, "app.session.new"@),
        ("tree"@, "app.session.tree"@),
        ("fork"@, "app.session.fork"@),
        ("resume"@, "app.session.resume"@),
        ("treeFoldOrUp"@, "app.tree.foldOrUp"@),
        ("treeUnfoldOrDown"@, "app.tree.unfoldOrDown"@),
        ("treeEditLabel"@, "app.tree.editLabel"@),
        ("treeToggleLabelTimestamp"@, "app.tree.toggleLabelTimestamp"@),
        ("toggleSessionPath"@, "app.session.togglePath"@),
        ("toggleSessionSort"@, "app.session.toggleSort"@),
        ("renameSession"@, "app.session.rename"@),
        ("deleteSession"@, "app.session.delete"@),
        ("deleteSessionNoninvasive"@, "app.session.deleteNoninvasive"@),
    ]
}

/// The legacy-name table: each legacy name with the namespaced id it is
/// rewritten to.
pub fn keybinding_name_migrations() -> (r: Vec<(&'static str, &'static str)>)
    ensures
        r@.len() == migration_table().len(),
        forall|i: int|
            0 <= i < r@.len() ==> (#[trigger] r@[i]).0@ == migration_table()[i].0 && r@[i].1@
                == migration_table()[i].1,
{
    let r = vec![
        ("cursorUp", "tui.editor.cursorUp"),
        ("cursorDown", "tui.editor.cursorDown"),
        ("cursorLeft", "tui.editor.cursorLeft"),
        ("cursorRight", "tui.editor.cursorRight"),
        ("cursorWordLeft", "tui.editor.cursorWordLeft"),
        ("cursorWordRight", "tui.editor.cursorWordRight"),
        ("cursorLineStart", "tui.editor.cursorLineStart"),
        ("cursorLineEnd", "tui.editor.cursorLineEnd"),
        ("jumpForward", "tui.editor.jumpForward"),
        ("jumpBackward", "tui.editor.jumpBackward"),
        ("pageUp", "tui.editor.pageUp"),
        ("pageDown", "tui.editor.pageDown"),
        ("deleteCharBackward", "tui.editor.deleteCharBackward"),
        ("deleteCharForward", "tui.editor.deleteCharForward"),
        ("deleteWordBackward", "tui.editor.deleteWordBackward"),
        ("deleteWordForward", "tui.editor.deleteWordForward"),
        ("deleteToLineStart", "tui.editor.deleteToLineStart"),
        ("deleteToLineEnd", "tui.editor.deleteToLineEnd"),
        ("yank", "tui.editor.yank"),
        ("yankPop", "tui.editor.yankPop"),
        ("undo", "tui.editor.undo"),
        ("newLine", "tui.input.newLine"),
        ("submit", "tui.input.submit"),
        ("tab", "tui.input.tab"),
        ("copy", "tui.input.copy"),
        ("selectUp", "tui.select.up"),
        ("selectDown", "tui.select.down"),
        ("selectPageUp", "tui.select.pageUp"),
        ("selectPageDown", "tui.select.pageDown"),
        ("selectConfirm", "tui.select.confirm"),
        ("selectCancel", "tui.select.cancel"),
        ("interrupt", "app.interrupt"),
        ("clear", "app.clear"),
        ("exit", "app.exit"),
        ("suspend", "app.suspend"),
        ("cycleThinkingLevel", "app.thinking.cycle"),
        ("cycleModelForward", "app.model.cycleForward"),
        ("cycleModelBackward", "app.model.cycleBackward"),
        ("selectModel", "app.model.select"),
        ("expandTools", "app.tools.expand"),
        ("toggleThinking", "app.thinking.toggle"),
        ("toggleSessionNamedFilter", "app.session.toggleNamedFilter"),
        ("externalEditor", "app.editor.external"),
        ("followUp", "app.message.followUp"),
        ("dequeue", "app.message.dequeue"),
        ("pasteImage", "app.clipboard.pasteImage"),
        ("newSession", "app.session.new"),
        ("tree", "app.session.tree"),
        ("fork", "app.session.fork"),
        ("resume", "app.session.resume"),
        ("treeFoldOrUp", "app.tree.foldOrUp"),
        ("treeUnfoldOrDown", "app.tree.unfoldOrDown"),
        ("treeEditLabel", "app.tree.editLabel"),
        ("treeToggleLabelTimestamp", "app.tree.toggleLabelTimestamp"),
        ("toggleSessionPath", "app.session.togglePath"),
        ("toggleSessionSort", "app.session.toggleSort"),
        ("renameSession", "app.session.rename"),
        ("deleteSession", "app.session.delete"),
        ("deleteSessionNoninvasive", "app.session.deleteNoninvasive"),
    ];
    r
}

/// The chords a `tui.*` default is overridden with, if it is one of the
/// four the coding agent forks.
pub open spec fn tui_override(id: Seq<char>, windows: bool, win32: bool) -> Option<Seq<Seq<char>>> {
    if id == "tui.editor.undo"@ {
        Some(
            seq![
                if win32 {
                    "ctrl+z"@
                } else if windows {
                    "alt+z"@
                } else {
                    "ctrl+-"@
                },
            ],
        )
    } else if id == "tui.altScreen.previousPrompt"@ {
        Some(
            if windows {
                seq!["ctrl+up"@]
            } else {
                seq!["ctrl+shift+up"@, "ctrl+up"@]
            },
        )
    } else if id == "tui.altScreen.nextPrompt"@ {
        Some(
            if windows {
                seq!["ctrl+down"@]
            } else {
                seq!["ctrl+shift+down"@, "ctrl+down"@]
            },
        )
    } else if id == "tui.altScreen.search"@ {
        Some(
            if windows {
                seq!["ctrl+f"@]
            } else {
                seq!["ctrl+shift+f"@]
            },
        )
    } else {
        None
    }
}

/// One `tui.*` row after the override.
pub open spec fn overridden(e: (Seq<char>, Seq<Seq<char>>, Seq<char>), windows: bool, win32: bool) -> (
    Seq<char>,
    Seq<Seq<char>>,
    Seq<char>,
) {
    match tui_override(e.0, windows, win32) {
        Some(keys) => (e.0, keys, e.2),
        None => e,
    }
}

/// A vector of owned strings from literals.
fn key_list(keys: &Vec<&str>) -> (r: Vec<String>)
    ensures
        strs(r@) == keys@.map_values(|k: &str| k@),
{
    let mut ks: Vec<String> = Vec::new();
    let mut i: usize = 0;
    while i < keys.len()
        invariant
            i <= keys.len(),
            strs(ks@) == keys@.take(i as int).map_values(|k: &str| k@),
        decreases keys.len() - i,
    {
        let ghost before = ks@;
        let k = String::from_str(keys[i]);
        ks.push(k);
        proof {
            lemma_strs_push(before, k);
        }
        assert(keys@.take(i + 1).map_values(|k: &str| k@) =~= keys@.take(i as int).map_values(
            |k: &str| k@,
        ).push(keys@[i as int]@));
        i += 1;
    }
    assert(keys@.take(keys.len() as int) =~= keys@);
    ks
}

/// The override for `id`, as owned chords.
fn tui_override_exec(id: &String, windows: bool, win32: bool) -> (r: Option<Vec<String>>)
    ensures
        match r {
            Some(ks) => tui_override(id@, windows, win32) == Some(strs(ks@)),
            None => tui_override(id@, windows, win32) is None,
        },
{
    let v = chars_of(id.as_str());
    if equals_lit(&v, "tui.editor.undo") {
        let k = if win32 {
            "ctrl+z"
        } else if windows {
            "alt+z"
        } else {
            "ctrl+-"
        };
        let r = key_list(&vec![k]);
        assert(strs(r@) =~= seq![k@]);
        Some(r)
    } else if equals_lit(&v, "tui.altScreen.previousPrompt") {
        let keys: Vec<&str> = if windows {
            vec!["ctrl+up"]
        } else {
            vec!["ctrl+shift+up", "ctrl+up"]
        };
        Some(key_list(&keys))
    } else if equals_lit(&v, "tui.altScreen.nextPrompt") {
        let keys: Vec<&str> = if windows {
            vec!["ctrl+down"]
        } else {
            vec!["ctrl+shift+down", "ctrl+down"]
        };
        Some(key_list(&keys))
    } else if equals_lit(&v, "tui.altScreen.search") {
        let keys: Vec<&str> = if windows {
            vec!["ctrl+f"]
        } else {
            vec!["ctrl+shift+f"]
        };
        Some(key_list(&keys))
    } else {
        None
    }
}

/// Every definition: the `pi-tui` default table (`tui_defaults`) with
/// four `tui.*` defaults overridden in place, followed by the `app.*`
/// entries.
pub fn merged_definitions(
    tui_defaults: Vec<(String, KeyDefinition)>,
    platform: &Platform,
    env: &[(String, String)],
) -> (r: Vec<(String, KeyDefinition)>)
    ensures
        defs_view(r@) == defs_view(tui_defaults@).map_values(
            |e: (Seq<char>, Seq<Seq<char>>, Seq<char>)|
                overridden(e, windows_spec(*platform, env@), *platform is Win32),
        ) + app_table(windows_spec(*platform, env@), *platform is Win32, *platform is Darwin),
{
    let windows = windows_keybindings(platform, env);
    let win32 = platform.is_windows();
    let ghost want = defs_view(tui_defaults@).map_values(
        |e: (Seq<char>, Seq<Seq<char>>, Seq<char>)| overridden(e, windows, win32),
    );
    let mut defs = tui_defaults;
    let ghost orig = defs@;
    let mut out: Vec<(String, KeyDefinition)> = Vec::new();
    let n = defs.len();
    let mut i: usize = 0;
    while i < n
        invariant
            i <= n == orig.len(),
            defs@ == orig.skip(i as int),
            want == defs_view(orig).map_values(
                |e: (Seq<char>, Seq<Seq<char>>, Seq<char>)| overridden(e, windows, win32),
            ),
            defs_view(out@) == want.take(i as int),
        decreases n - i,
    {
        let (id, def) = defs.remove(0);
        assert(orig.skip(i as int).skip(1) =~= orig.skip(i + 1));
        assert((id, def) == orig[i as int]);
        let ghost before = out@;
        let row = match tui_override_exec(&id, windows, win32) {
            Some(keys) => (id, KeyDefinition { default_keys: keys, description: def.description }),
            None => (id, def),
        };
        out.push(row);
        assert(defs_view(out@) =~= defs_view(before).push(want[i as int]));
        assert(want.take(i + 1) =~= want.take(i as int).push(want[i as int]));
        i += 1;
    }
    assert(want.take(n as int) =~= want);
    let mut app = app_default_keybindings(platform, env);
    let ghost a = defs_view(out@);
    let ghost b = defs_view(app@);
    out.append(&mut app);
    assert(defs_view(out@) =~= a + b);
    out
}

// ---------------------------------------------------------------------------
// Legacy names
// ---------------------------------------------------------------------------

/// The namespaced id a legacy (pre-namespace) keybinding name maps to.
pub open spec fn migration_spec(key: Seq<char>) -> Option<Seq<char>> {
    if key == "cursorUp"@ {
        Some("tui.editor.cursorUp"@)
    } else if key == "cursorDown"@ {
        Some("tui.editor.cursorDown"@)
    } else if key == "cursorLeft"@ {
        Some("tui.editor.cursorLeft"@)
    } else if key == "cursorRight"@ {
        Some("tui.editor.cursorRight"@)
    } else if key == "cursorWordLeft"@ {
        Some("tui.editor.cursorWordLeft"@)
    } else if key == "cursorWordRight"@ {
        Some("tui.editor.cursorWordRight"@)
    } else if key == "cursorLineStart"@ {
        Some("tui.editor.cursorLineStart"@)
    } else if key == "cursorLineEnd"@ {
        Some("tui.editor.cursorLineEnd"@)
    } else if key == "jumpForward"@ {
        Some("tui.editor.jumpForward"@)
    } else if key == "jumpBackward"@ {
        Some("tui.editor.jumpBackward"@)
    } else if key == "pageUp"@ {
        Some("tui.editor.pageUp"@)
    } else if key == "pageDown"@ {
        Some("tui.editor.pageDown"@)
    } else if key == "deleteCharBackward"@ {
        Some("tui.editor.deleteCharBackward"@)
    } else if key == "deleteCharForward"@ {
        Some("tui.editor.deleteCharForward"@)
    } else if key == "deleteWordBackward"@ {
        Some("tui.editor.deleteWordBackward"@)
    } else if key == "deleteWordForward"@ {
        Some("tui.editor.deleteWordForward"@)
    } else if key == "deleteToLineStart"@ {
        Some("tui.editor.deleteToLineStart"@)
    } else if key == "deleteToLineEnd"@ {
        Some("tui.editor.deleteToLineEnd"@)
    } else if key == "yank"@ {
        Some("tui.editor.yank"@)
    } else if key == "yankPop"@ {
        Some("tui.editor.yankPop"@)
    } else if key == "undo"@ {
        Some("tui.editor.undo"@)
    } else if key == "newLine"@ {
        Some("tui.input.newLine"@)
    } else if key == "submit"@ {
        Some("tui.input.submit"@)
    } else if key == "tab"@ {
        Some("tui.input.tab"@)
    } else if key == "copy"@ {
        Some("tui.input.copy"@)
    } else if key == "selectUp"@ {
        Some("tui.select.up"@)
    } else if key == "selectDown"@ {
        Some("tui.select.down"@)
    } else if key == "selectPageUp"@ {
        Some("tui.select.pageUp"@)
    } else if key == "selectPageDown"@ {
        Some("tui.select.pageDown"@)
    } else if key == "selectConfirm"@ {
        Some("tui.select.confirm"@)
    } else if key == "selectCancel"@ {
        Some("tui.select.cancel"@)
    } else if key == "interrupt"@ {
        Some("app.interrupt"@)
    } else if key == "clear"@ {
        Some("app.clear"@)
    } else if key == "exit"@ {
        Some("app.exit"@)
    } else if key == "suspend"@ {
        Some("app.suspend"@)
    } else if key == "cycleThinkingLevel"@ {
        Some("app.thinking.cycle"@)
    } else if key == "cycleModelForward"@ {
        Some("app.model.cycleForward"@)
    } else if key == "cycleModelBackward"@ {
        Some("app.model.cycleBackward"@)
    } else if key == "selectModel"@ {
        Some("app.model.select"@)
    } else if key == "expandTools"@ {
        Some("app.tools.expand"@)
    } else if key == "toggleThinking"@ {
        Some("app.thinking.toggle"@)
    } else if key == "toggleSessionNamedFilter"@ {
        Some("app.session.toggleNamedFilter"@)
    } else if key == "externalEditor"@ {
        Some("app.editor.external"@)
    } else if key == "followUp"@ {
        Some("app.message.followUp"@)
    } else if key == "dequeue"@ {
        Some("app.message.dequeue"@)
    } else if key == "pasteImage"@ {
        Some("app.clipboard.pasteImage"@)
    } else if key == "newSession"@ {
        Some("app.session.new"@)
    } else if key == "tree"@ {
        Some("app.session.tree"@)
    } else if key == "fork"@ {
        Some("app.session.fork"@)
    } else if key == "resume"@ {
        Some("app.session.resume"@)
    } else if key == "treeFoldOrUp"@ {
        Some("app.tree.foldOrUp"@)
    } else if key == "treeUnfoldOrDown"@ {
        Some("app.tree.unfoldOrDown"@)
    } else if key == "treeEditLabel"@ {
        Some("app.tree.editLabel"@)
    } else if key == "treeToggleLabelTimestamp"@ {
        Some("app.tree.toggleLabelTimestamp"@)
    } else if key == "toggleSessionPath"@ {
        Some("app.session.togglePath"@)
    } else if key == "toggleSessionSort"@ {
        Some("app.session.toggleSort"@)
    } else if key == "renameSession"@ {
        Some("app.session.rename"@)
    } else if key == "deleteSession"@ {
        Some("app.session.delete"@)
    } else if key == "deleteSessionNoninvasive"@ {
        Some("app.session.deleteNoninvasive"@)
    } else {
        None
    }
}

/// The namespaced id a legacy name maps to, if any.
#[verifier::rlimit(50)]
pub fn migrate_keybinding_name(key: &str) -> (r: Option<&'static str>)
    ensures
        match r {
            Some(n) => migration_spec(key@) == Some(n@),
            None => migration_spec(key@) is None,
        },
{
    let v = chars_of(key);
    if equals_lit(&v, "cursorUp") {
        return Some("tui.editor.cursorUp");
    }
    if equals_lit(&v, "cursorDown") {
        return Some("tui.editor.cursorDown");
    }
    if equals_lit(&v, "cursorLeft") {
        return Some("tui.editor.cursorLeft");
    }
    if equals_lit(&v, "cursorRight") {
        return Some("tui.editor.cursorRight");
    }
    if equals_lit(&v, "cursorWordLeft") {
        return Some("tui.editor.cursorWordLeft");
    }
    if equals_lit(&v, "cursorWordRight") {
        return Some("tui.editor.cursorWordRight");
    }
    if equals_lit(&v, "cursorLineStart") {
        return Some("tui.editor.cursorLineStart");
    }
    if equals_lit(&v, "cursorLineEnd") {
        return Some("tui.editor.cursorLineEnd");
    }
    if equals_lit(&v, "jumpForward") {
        return Some("tui.editor.jumpForward");
    }
    if equals_lit(&v, "jumpBackward") {
        return Some("tui.editor.jumpBackward");
    }
    if equals_lit(&v, "pageUp") {
        return Some("tui.editor.pageUp");
    }
    if equals_lit(&v, "pageDown") {
        return Some("tui.editor.pageDown");
    }
    if equals_lit(&v, "deleteCharBackward") {
        return Some("tui.editor.deleteCharBackward");
    }
    if equals_lit(&v, "deleteCharForward") {
        return Some("tui.editor.deleteCharForward");
    }
    if equals_lit(&v, "deleteWordBackward") {
        return Some("tui.editor.deleteWordBackward");
    }
    if equals_lit(&v, "deleteWordForward") {
        return Some("tui.editor.deleteWordForward");
    }
    if equals_lit(&v, "deleteToLineStart") {
        return Some("tui.editor.deleteToLineStart");
    }
    if equals_lit(&v, "deleteToLineEnd") {
        return Some("tui.editor.deleteToLineEnd");
    }
    if equals_lit(&v, "yank") {
        return Some("tui.editor.yank");
    }
    if equals_lit(&v, "yankPop") {
        return Some("tui.editor.yankPop");
    }
    if equals_lit(&v, "undo") {
        return Some("tui.editor.undo");
    }
    if equals_lit(&v, "newLine") {
        return Some("tui.input.newLine");
    }
    if equals_lit(&v, "submit") {
        return Some("tui.input.submit");
    }
    if equals_lit(&v, "tab") {
        return Some("tui.input.tab");
    }
    if equals_lit(&v, "copy") {
        return Some("tui.input.copy");
    }
    if equals_lit(&v, "selectUp") {
        return Some("tui.select.up");
    }
    if equals_lit(&v, "selectDown") {
        return Some("tui.select.down");
    }
    if equals_lit(&v, "selectPageUp") {
        return Some("tui.select.pageUp");
    }
    if equals_lit(&v, "selectPageDown") {
        return Some("tui.select.pageDown");
    }
    if equals_lit(&v, "selectConfirm") {
        return Some("tui.select.confirm");
    }
    if equals_lit(&v, "selectCancel") {
        return Some("tui.select.cancel");
    }
    if equals_lit(&v, "interrupt") {
        return Some("app.interrupt");
    }
    if equals_lit(&v, "clear") {
        return Some("app.clear");
    }
    if equals_lit(&v, "exit") {
        return Some("app.exit");
    }
    if equals_lit(&v, "suspend") {
        return Some("app.suspend");
    }
    if equals_lit(&v, "cycleThinkingLevel") {
        return Some("app.thinking.cycle");
    }
    if equals_lit(&v, "cycleModelForward") {
        return Some("app.model.cycleForward");
    }
    if equals_lit(&v, "cycleModelBackward") {
        return Some("app.model.cycleBackward");
    }
    if equals_lit(&v, "selectModel") {
        return Some("app.model.select");
    }
    if equals_lit(&v, "expandTools") {
        return Some("app.tools.expand");
    }
    if equals_lit(&v, "toggleThinking") {
        return Some("app.thinking.toggle");
    }
    if equals_lit(&v, "toggleSessionNamedFilter") {
        return Some("app.session.toggleNamedFilter");
    }
    if equals_lit(&v, "externalEditor") {
        return Some("app.editor.external");
    }
    if equals_lit(&v, "followUp") {
        return Some("app.message.followUp");
    }
    if equals_lit(&v, "dequeue") {
        return Some("app.message.dequeue");
    }
    if equals_lit(&v, "pasteImage") {
        return Some("app.clipboard.pasteImage");
    }
    if equals_lit(&v, "newSession") {
        return Some("app.session.new");
    }
    if equals_lit(&v, "tree") {
        return Some("app.session.tree");
    }
    if equals_lit(&v, "fork") {
        return Some("app.session.fork");
    }
    if equals_lit(&v, "resume") {
        return Some("app.session.resume");
    }
    if equals_lit(&v, "treeFoldOrUp") {
        return Some("app.tree.foldOrUp");
    }
    if equals_lit(&v, "treeUnfoldOrDown") {
        return Some("app.tree.unfoldOrDown");
    }
    if equals_lit(&v, "treeEditLabel") {
        return Some("app.tree.editLabel");
    }
    if equals_lit(&v, "treeToggleLabelTimestamp") {
        return Some("app.tree.toggleLabelTimestamp");
    }
    if equals_lit(&v, "toggleSessionPath") {
        return Some("app.session.togglePath");
    }
    if equals_lit(&v, "toggleSessionSort") {
        return Some("app.session.toggleSort");
    }
    if equals_lit(&v, "renameSession") {
        return Some("app.session.rename");
    }
    if equals_lit(&v, "deleteSession") {
        return Some("app.session.delete");
    }
    if equals_lit(&v, "deleteSessionNoninvasive") {
        return Some("app.session.deleteNoninvasive");
    }
    None
}

/// True when `key` is a legacy (pre-namespace) keybinding id.
pub fn is_legacy_keybinding_name(key: &str) -> (r: bool)
    ensures
        r == migration_spec(key@) is Some,
{
    migrate_keybinding_name(key).is_some()
}

// ---------------------------------------------------------------------------
// The raw config
// ---------------------------------------------------------------------------

/// A `keybindings.json` value, as far as this layer reads it: a string, an
/// array (each element a string or something else), or anything else.
#[derive(Debug, Clone, PartialEq, Eq)]
pub enum RawValue {
    /// A JSON string.
    String(String),
    /// A JSON array; `None` stands for an element that is not a string.
    Array(Vec<Option<String>>),
    /// Any other JSON value.
    Other,
}

/// A raw value as plain values.
pub ghost enum RawModel {
    Str(Seq<char>),
    Arr(Seq<Option<Seq<char>>>),
    Other,
}

/// The elements of a raw array as plain values.
pub open spec fn items_view(v: Seq<Option<String>>) -> Seq<Option<Seq<char>>> {
    v.map_values(
        |o: Option<String>|
            match o {
                Some(s) => Some(s@),
                None => None,
            },
    )
}

/// The plain value of a raw value.
pub open spec fn raw_view(v: RawValue) -> RawModel {
    match v {
        RawValue::String(s) => RawModel::Str(s@),
        RawValue::Array(items) => RawModel::Arr(items_view(items@)),
        RawValue::Other => RawModel::Other,
    }
}

/// A raw config as plain values.
pub open spec fn config_view(c: Seq<(String, RawValue)>) -> Seq<(Seq<char>, RawModel)> {
    c.map_values(|e: (String, RawValue)| (e.0@, raw_view(e.1)))
}

/// The keys of a raw config.
pub open spec fn config_keys(c: Seq<(Seq<char>, RawModel)>) -> Seq<Seq<char>> {
    c.map_values(|e: (Seq<char>, RawModel)| e.0)
}

/// The name an entry is filed under after migration.
pub open spec fn migrated_name(key: Seq<char>) -> Seq<char> {
    match migration_spec(key) {
        Some(n) => n,
        None => key,
    }
}

/// The entries of `c` after renaming: a legacy entry whose namespaced id
/// is also present in `raw` is dropped (the namespaced value wins).
pub open spec fn renamed_entries(raw: Seq<(Seq<char>, RawModel)>, c: Seq<(Seq<char>, RawModel)>) -> Seq<
    (Seq<char>, RawModel),
>
    decreases c.len(),
{
    if c.len() == 0 {
        Seq::empty()
    } else {
        let e = c.last();
        let next = migrated_name(e.0);
        let rest = renamed_entries(raw, c.drop_last());
        if next != e.0 && config_keys(raw).contains(next) {
            rest
        } else {
            rest.push((next, e.1))
        }
    }
}

/// Whether migration renames or drops anything.
pub open spec fn any_migrated(c: Seq<(Seq<char>, RawModel)>) -> bool {
    exists|i: int| 0 <= i < c.len() && migrated_name((#[trigger] c[i]).0) != c[i].0
}

/// Where a stable insertion puts an entry keyed `k`: after every entry
/// whose key is not greater.
pub open spec fn insert_pos(s: Seq<(Seq<char>, RawModel)>, k: Seq<char>, i: int) -> int
    decreases s.len() - i,
{
    if i < 0 || i >= s.len() {
        s.len() as int
    } else if !lex_le(s[i].0, k) {
        i
    } else {
        insert_pos(s, k, i + 1)
    }
}

/// The entries sorted by key, equal keys kept in their order (a stable
/// insertion sort).
pub open spec fn sort_by_key(s: Seq<(Seq<char>, RawModel)>) -> Seq<(Seq<char>, RawModel)>
    decreases s.len(),
{
    if s.len() == 0 {
        s
    } else {
        let r = sort_by_key(s.drop_last());
        r.insert(insert_pos(r, s.last().0, 0), s.last())
    }
}

/// First index of an entry keyed `id`.
pub open spec fn key_pos(s: Seq<(Seq<char>, RawModel)>, id: Seq<char>, i: int) -> Option<int>
    decreases s.len() - i,
{
    if i < 0 || i >= s.len() {
        None
    } else if s[i].0 == id {
        Some(i)
    } else {
        key_pos(s, id, i + 1)
    }
}

/// After walking the table ids: the entries taken in table order, and
/// the ones left.
pub open spec fn take_in_table_order(c: Seq<(Seq<char>, RawModel)>, ids: Seq<Seq<char>>) -> (
    Seq<(Seq<char>, RawModel)>,
    Seq<(Seq<char>, RawModel)>,
)
    decreases ids.len(),
{
    if ids.len() == 0 {
        (Seq::empty(), c)
    } else {
        let (o, r) = take_in_table_order(c, ids.drop_last());
        match key_pos(r, ids.last(), 0) {
            Some(p) => (o.push(r[p]), r.remove(p)),
            None => (o, r),
        }
    }
}

/// Config order: table order first, then unknown ids
/// in code-point order.
pub open spec fn order_spec(c: Seq<(Seq<char>, RawModel)>, ids: Seq<Seq<char>>) -> Seq<
    (Seq<char>, RawModel),
> {
    let (o, r) = take_in_table_order(c, ids);
    o + sort_by_key(r)
}

/// The ids of a definition table.
pub open spec fn def_ids(defs: Seq<(String, KeyDefinition)>) -> Seq<Seq<char>> {
    defs.map_values(|e: (String, KeyDefinition)| e.0@)
}

/// A copy of a raw value.
fn copy_raw(v: &RawValue) -> (r: RawValue)
    ensures
        raw_view(r) == raw_view(*v),
{
    match v {
        RawValue::String(s) => RawValue::String(s.clone()),
        RawValue::Array(items) => {
            let mut out: Vec<Option<String>> = Vec::new();
            let mut i: usize = 0;
            while i < items.len()
                invariant
                    i <= items.len(),
                    items_view(out@) == items_view(items@).take(i as int),
                decreases items.len() - i,
            {
                let ghost before = out@;
                let c = match &items[i] {
                    Some(s) => Some(s.clone()),
                    None => None,
                };
                out.push(c);
                assert(items_view(out@) =~= items_view(before).push(items_view(items@)[i as int]));
                assert(items_view(items@).take(i + 1) =~= items_view(items@).take(i as int).push(
                    items_view(items@)[i as int],
                ));
                i += 1;
            }
            assert(items_view(items@).take(items.len() as int) =~= items_view(items@));
            RawValue::Array(out)
        },
        RawValue::Other => RawValue::Other,
    }
}

/// Whether some entry of `c` is keyed `key`.
fn has_key(c: &[(String, RawValue)], key: &str) -> (r: bool)
    ensures
        r == config_keys(config_view(c@)).contains(key@),
{
    let mut i: usize = 0;
    while i < c.len()
        invariant
            i <= c.len(),
            forall|k: int| 0 <= k < i ==> c@[k].0@ != key@,
        decreases c.len() - i,
    {
        if equals_lit(&chars_of(c[i].0.as_str()), key) {
            assert(config_keys(config_view(c@))[i as int] == key@);
            return true;
        }
        i += 1;
    }
    proof {
        if config_keys(config_view(c@)).contains(key@) {
            let k = choose|k: int|
                0 <= k < config_keys(config_view(c@)).len() && config_keys(config_view(c@))[k]
                    == key@;
            assert(c@[k].0@ == key@);
        }
    }
    false
}

/// Order a config: entries whose id is in the table
/// come first, in table order; the others follow in code-point order of
/// their ids.
pub fn order_keybindings_config(
    config: Vec<(String, RawValue)>,
    definitions: &[(String, KeyDefinition)],
) -> (r: Vec<(String, RawValue)>)
    ensures
        config_view(r@) == order_spec(config_view(config@), def_ids(definitions@)),
{
    let ghost c = config_view(config@);
    let ghost ids = def_ids(definitions@);
    let mut remaining = config;
    let mut ordered: Vec<(String, RawValue)> = Vec::new();
    let mut d: usize = 0;
    while d < definitions.len()
        invariant
            d <= definitions.len(),
            ids == def_ids(definitions@),
            (config_view(ordered@), config_view(remaining@)) == take_in_table_order(
                c,
                ids.take(d as int),
            ),
        decreases definitions.len() - d,
    {
        let id = &definitions[d].0;
        assert(ids.take(d + 1).drop_last() =~= ids.take(d as int));
        assert(ids.take(d + 1).last() == id@);
        let ghost rv = config_view(remaining@);
        let mut p: usize = 0;
        while p < remaining.len()
            invariant
                p <= remaining.len(),
                rv == config_view(remaining@),
                key_pos(rv, id@, 0) == key_pos(rv, id@, p as int),
            ensures
                p <= remaining.len(),
                p < remaining.len() ==> key_pos(rv, id@, 0) == Some(p as int),
                p == remaining.len() ==> key_pos(rv, id@, 0) is None,
            decreases remaining.len() - p,
        {
            if remaining[p].0 == *id {
                break;
            }
            p += 1;
        }
        if p < remaining.len() {
            let ghost ov = config_view(ordered@);
            let e = remaining.remove(p);
            ordered.push(e);
            assert(config_view(ordered@) =~= ov.push(rv[p as int]));
            assert(config_view(remaining@) =~= rv.remove(p as int));
        }
        d += 1;
    }
    assert(ids.take(definitions.len() as int) =~= ids);
    let ghost rest = config_view(remaining@);
    let mut sorted: Vec<(String, RawValue)> = Vec::new();
    let n = remaining.len();
    let mut i: usize = 0;
    while i < n
        invariant
            i <= n == rest.len(),
            config_view(remaining@) == rest.skip(i as int),
            remaining@.len() == n - i,
            config_view(sorted@) == sort_by_key(rest.take(i as int)),
        decreases n - i,
    {
        let ghost r0 = remaining@;
        let e = remaining.remove(0);
        assert(e == r0[0]);
        assert(config_view(r0)[0] == (e.0@, raw_view(e.1)));
        assert(config_view(r0)[0] == rest.skip(i as int)[0]);
        assert(config_view(remaining@) =~= config_view(r0).skip(1));
        assert(rest.skip(i as int).skip(1) =~= rest.skip(i + 1));
        let ghost sv = config_view(sorted@);
        let mut q: usize = 0;
        while q < sorted.len()
            invariant
                q <= sorted.len(),
                sv == config_view(sorted@),
                insert_pos(sv, e.0@, 0) == insert_pos(sv, e.0@, q as int),
            ensures
                insert_pos(sv, e.0@, 0) == q as int,
            decreases sorted.len() - q,
        {
            if !lex_le_exec(&sorted[q].0, &e.0) {
                break;
            }
            q += 1;
        }
        let ghost ev = (e.0@, raw_view(e.1));
        sorted.insert(q, e);
        assert(config_view(sorted@) =~= sv.insert(q as int, ev));
        assert(rest.take(i + 1).drop_last() =~= rest.take(i as int));
        assert(rest.take(i + 1).last() == ev);
        i += 1;
    }
    assert(rest.take(n as int) =~= rest);
    let ghost ov = config_view(ordered@);
    let ghost sv = config_view(sorted@);
    ordered.append(&mut sorted);
    assert(config_view(ordered@) =~= ov + sv);
    ordered
}

/// Migrate a raw config against an explicit order table.
///
/// Every legacy id is renamed. When the namespaced id is already present
/// in the raw config the legacy entry is dropped and the namespaced value
/// wins. Returns the ordered config and whether anything was renamed or
/// dropped.
pub fn migrate_keybindings_config_with_table(
    raw: &[(String, RawValue)],
    definitions: &[(String, KeyDefinition)],
) -> (r: (Vec<(String, RawValue)>, bool))
    ensures
        config_view(r.0@) == order_spec(
            renamed_entries(config_view(raw@), config_view(raw@)),
            def_ids(definitions@),
        ),
        r.1 == any_migrated(config_view(raw@)),
{
    let ghost all = config_view(raw@);
    let mut config: Vec<(String, RawValue)> = Vec::new();
    let mut migrated = false;
    let mut i: usize = 0;
    while i < raw.len()
        invariant
            i <= raw.len(),
            all == config_view(raw@),
            config_view(config@) == renamed_entries(all, all.take(i as int)),
            migrated == (exists|k: int| 0 <= k < i && migrated_name((#[trigger] all[k]).0) != all[k].0),
        decreases raw.len() - i,
    {
        let key = &raw[i].0;
        assert(all.take(i + 1).drop_last() =~= all.take(i as int));
        assert(all.take(i + 1).last() == all[i as int]);
        let next: String = match migrate_keybinding_name(key.as_str()) {
            Some(n) => String::from_str(n),
            None => key.clone(),
        };
        let renamed = !(next == *key);
        if renamed {
            migrated = true;
        }
        if renamed && has_key(raw, next.as_str()) {
        } else {
            let ghost before = config_view(config@);
            let v = copy_raw(&raw[i].1);
            let ghost entry = (next@, raw_view(v));
            config.push((next, v));
            assert(config_view(config@) =~= before.push(entry));
        }
        i += 1;
    }
    assert(all.take(raw.len() as int) =~= all);
    (order_keybindings_config(config, definitions), migrated)
}

/// The chords a raw value binds, if it is a string or an array holding
/// only strings (an empty array is a deliberate "unbound" override).
pub open spec fn binding_of(v: RawModel) -> Option<Seq<Seq<char>>> {
    match v {
        RawModel::Str(k) => Some(seq![k]),
        RawModel::Arr(items) => if forall|i: int| 0 <= i < items.len() ==> (#[trigger] items[i]) is Some {
            Some(items.map_values(|o: Option<Seq<char>>| o.unwrap()))
        } else {
            None
        },
        RawModel::Other => None,
    }
}

/// The bindings a raw config yields, in order.
pub open spec fn bindings_spec(c: Seq<(Seq<char>, RawModel)>) -> Seq<(Seq<char>, Seq<Seq<char>>)>
    decreases c.len(),
{
    if c.len() == 0 {
        Seq::empty()
    } else {
        let rest = bindings_spec(c.drop_last());
        match binding_of(c.last().1) {
            Some(keys) => rest.push((c.last().0, keys)),
            None => rest,
        }
    }
}

/// A binding list as plain values.
pub open spec fn bindings_view(v: Seq<(String, Vec<String>)>) -> Seq<(Seq<char>, Seq<Seq<char>>)> {
    v.map_values(|e: (String, Vec<String>)| (e.0@, strs(e.1@)))
}

/// The user bindings of a raw config: keep strings and arrays of strings,
/// drop everything else.
pub fn to_keybindings_config(config: &[(String, RawValue)]) -> (r: Vec<(String, Vec<String>)>)
    ensures
        bindings_view(r@) == bindings_spec(config_view(config@)),
{
    let ghost c = config_view(config@);
    let mut out: Vec<(String, Vec<String>)> = Vec::new();
    let mut i: usize = 0;
    while i < config.len()
        invariant
            i <= config.len(),
            c == config_view(config@),
            bindings_view(out@) == bindings_spec(c.take(i as int)),
        decreases config.len() - i,
    {
        assert(c.take(i + 1).drop_last() =~= c.take(i as int));
        assert(c.take(i + 1).last() == c[i as int]);
        let ghost before = bindings_view(out@);
        match &config[i].1 {
            RawValue::String(k) => {
                let mut keys: Vec<String> = Vec::new();
                keys.push(k.clone());
                let row = (config[i].0.clone(), keys);
                out.push(row);
                assert(strs(row.1@) =~= seq![k@]);
                assert(bindings_view(out@) =~= before.push((config@[i as int].0@, seq![k@])));
            },
            RawValue::Array(items) => {
                let mut keys: Vec<String> = Vec::new();
                let mut all_strings = true;
                let mut j: usize = 0;
                let ghost iv = items_view(items@);
                while j < items.len()
                    invariant
                        j <= items.len(),
                        iv == items_view(items@),
                        all_strings == (forall|m: int| 0 <= m < j ==> (#[trigger] iv[m]) is Some),
                        all_strings ==> strs(keys@) == iv.take(j as int).map_values(
                            |o: Option<Seq<char>>| o.unwrap(),
                        ),
                    decreases items.len() - j,
                {
                    match &items[j] {
                        Some(s) => {
                            assert(iv[j as int] == Some(s@));
                            let ghost kb = keys@;
                            let sc = s.clone();
                            keys.push(sc);
                            proof {
                                lemma_strs_push(kb, sc);
                            }
                            assert(iv.take(j + 1).map_values(|o: Option<Seq<char>>| o.unwrap())
                                =~= iv.take(j as int).map_values(
                                |o: Option<Seq<char>>| o.unwrap(),
                            ).push(s@));
                        },
                        None => {
                            assert(iv[j as int] is None);
                            all_strings = false;
                        },
                    }
                    j += 1;
                }
                assert(iv.take(items.len() as int) =~= iv);
                if all_strings {
                    let ghost kv = strs(keys@);
                    out.push((config[i].0.clone(), keys));
                    assert(bindings_view(out@) =~= before.push((config@[i as int].0@, kv)));
                }
            },
            RawValue::Other => {},
        }
        i += 1;
    }
    assert(c.take(config.len() as int) =~= c);
    out
}

// ---------------------------------------------------------------------------
// Reading keybindings.json
// ---------------------------------------------------------------------------

/// The members of the JSON object `text` holds, in the order
/// `serde_json::Map` iterates them, each value read as a [`RawValue`];
/// `None` when `text` is not JSON or not an object.
pub uninterp spec fn json_object_entries(text: Seq<char>) -> Option<Seq<(Seq<char>, RawModel)>>;

/// Parses `text` with `serde_json::from_str` into a `serde_json::Value` and,
/// for an object, hands its members out as `(key, RawValue)` pairs: a
/// string stays a string, an array keeps its string elements and marks the
/// others, anything else is `Other`. The contract names the result; it
/// claims that the same text always gives the same members.
#[verifier::external_body]
fn parse_json_object(text: &str) -> (r: Option<Vec<(String, RawValue)>>)
    ensures
        match r {
            Some(v) => json_object_entries(text@) == Some(config_view(v@)),
            None => json_object_entries(text@) is None,
        },
{
    match serde_json::from_str::<serde_json::Value>(text) {
        Ok(serde_json::Value::Object(map)) => Some(map.into_iter().map(|(key, value)| (key, match value {
            serde_json::Value::String(s) => RawValue::String(s),
            serde_json::Value::Array(items) => RawValue::Array(items.into_iter().map(|item| match item {
                serde_json::Value::String(s) => Some(s),
                _ => None,
            }).collect()),
            _ => RawValue::Other,
        })).collect()),
        _ => None,
    }
}

/// `text` without a leading byte-order mark.
pub open spec fn without_bom(text: Seq<char>) -> Seq<char> {
    if text.len() > 0 && text[0] == '\u{feff}' {
        text.skip(1)
    } else {
        text
    }
}

/// The raw config of a `keybindings.json` text: its members when it holds
/// a JSON object (a leading byte-order mark ignored), otherwise `None`.
pub fn raw_config_from_text(text: &str) -> (r: Option<Vec<(String, RawValue)>>)
    ensures
        match r {
            Some(v) => json_object_entries(without_bom(text@)) == Some(config_view(v@)),
            None => json_object_entries(without_bom(text@)) is None,
        },
{
    parse_json_object(crate::paths::strip_bom(text))
}

/// The bindings a `keybindings.json` text yields against a definition
/// table.
pub open spec fn bindings_from_text_spec(text: Seq<char>, ids: Seq<Seq<char>>) -> Seq<
    (Seq<char>, Seq<Seq<char>>),
> {
    match json_object_entries(without_bom(text)) {
        None => Seq::empty(),
        Some(c) => bindings_spec(order_spec(renamed_entries(c, c), ids)),
    }
}

/// The user bindings of a `keybindings.json` text: nothing when it is not
/// a JSON object; otherwise legacy ids migrated, entries ordered by the
/// table, and values that are neither a string nor an array of strings
/// dropped.
pub fn load_from_text_with_table(text: &str, definitions: &[(String, KeyDefinition)]) -> (r: Vec<
    (String, Vec<String>),
>)
    ensures
        bindings_view(r@) == bindings_from_text_spec(text@, def_ids(definitions@)),
{
    match raw_config_from_text(text) {
        None => {
            let r: Vec<(String, Vec<String>)> = Vec::new();
            assert(bindings_view(r@) =~= Seq::<(Seq<char>, Seq<Seq<char>>)>::empty());
            r
        },
        Some(raw) => {
            let (config, _migrated) = migrate_keybindings_config_with_table(&raw, definitions);
            to_keybindings_config(&config)
        },
    }
}

// ---------------------------------------------------------------------------
// Laws of the ordering
// ---------------------------------------------------------------------------

/// Entries in non-decreasing key order.
pub open spec fn sorted_by_keys(s: Seq<(Seq<char>, RawModel)>) -> bool {
    forall|i: int, j: int| 0 <= i < j < s.len() ==> lex_le(#[trigger] s[i].0, #[trigger] s[j].0)
}

proof fn lemma_insert_pos(s: Seq<(Seq<char>, RawModel)>, k: Seq<char>, i: int)
    requires
        0 <= i <= s.len(),
    ensures
        i <= insert_pos(s, k, i) <= s.len(),
        forall|m: int| i <= m < insert_pos(s, k, i) ==> lex_le(#[trigger] s[m].0, k),
        insert_pos(s, k, i) < s.len() ==> !lex_le(s[insert_pos(s, k, i)].0, k),
    decreases s.len() - i,
{
    if i < s.len() && lex_le(s[i].0, k) {
        lemma_insert_pos(s, k, i + 1);
    }
}

proof fn lemma_insert_sorted(r: Seq<(Seq<char>, RawModel)>, x: (Seq<char>, RawModel))
    requires
        sorted_by_keys(r),
    ensures
        sorted_by_keys(r.insert(insert_pos(r, x.0, 0), x)),
{
    let p = insert_pos(r, x.0, 0);
    lemma_insert_pos(r, x.0, 0);
    let t = r.insert(p, x);
    assert forall|i: int, j: int| 0 <= i < j < t.len() implies lex_le(
        #[trigger] t[i].0,
        #[trigger] t[j].0,
    ) by {
        if j < p {
            assert(t[i] == r[i] && t[j] == r[j]);
        } else if j == p {
            assert(t[i] == r[i]);
        } else if i < p {
            assert(t[i] == r[i] && t[j] == r[j - 1]);
            if p < r.len() {
                lemma_lex_total(r[p].0, x.0);
                if j - 1 > p {
                    lemma_lex_trans(x.0, r[p].0, r[j - 1].0);
                }
                lemma_lex_trans(r[i].0, x.0, r[j - 1].0);
            }
        } else if i == p {
            assert(t[j] == r[j - 1]);
            lemma_lex_total(r[p].0, x.0);
            if j - 1 > p {
                lemma_lex_trans(x.0, r[p].0, r[j - 1].0);
            }
        } else {
            assert(t[i] == r[i - 1] && t[j] == r[j - 1]);
        }
    }
}

/// Unknown ids come out in non-decreasing code-point order.
pub proof fn law_sort_by_key_is_sorted(s: Seq<(Seq<char>, RawModel)>)
    ensures
        sorted_by_keys(sort_by_key(s)),
    decreases s.len(),
{
    if s.len() > 0 {
        law_sort_by_key_is_sorted(s.drop_last());
        lemma_insert_sorted(sort_by_key(s.drop_last()), s.last());
    }
}

/// Sorting keeps every entry, exactly once.
pub proof fn law_sort_by_key_keeps_entries(s: Seq<(Seq<char>, RawModel)>)
    ensures
        sort_by_key(s).to_multiset() == s.to_multiset(),
    decreases s.len(),
{
    broadcast use vstd::seq_lib::to_multiset_insert, vstd::seq_lib::to_multiset_build;

    if s.len() > 0 {
        law_sort_by_key_keeps_entries(s.drop_last());
        let r = sort_by_key(s.drop_last());
        lemma_insert_pos(r, s.last().0, 0);
        assert(s.drop_last().push(s.last()) =~= s);
    }
}

proof fn lemma_take_in_table_order_keeps_entries(c: Seq<(Seq<char>, RawModel)>, ids: Seq<Seq<char>>)
    ensures
        (take_in_table_order(c, ids).0 + take_in_table_order(c, ids).1).to_multiset()
            == c.to_multiset(),
    decreases ids.len(),
{
    broadcast use vstd::seq_lib::to_multiset_remove, vstd::seq_lib::to_multiset_build,
        vstd::seq_lib::lemma_multiset_commutative, vstd::multiset::group_multiset_axioms;

    if ids.len() == 0 {
        assert(Seq::<(Seq<char>, RawModel)>::empty() + c =~= c);
    } else {
        lemma_take_in_table_order_keeps_entries(c, ids.drop_last());
        let (o, r) = take_in_table_order(c, ids.drop_last());
        if let Some(p) = key_pos(r, ids.last(), 0) {
            lemma_key_pos(r, ids.last(), 0);
            let x = r[p];
            assert((o.push(x) + r.remove(p)).to_multiset() =~= o.push(x).to_multiset().add(
                r.remove(p).to_multiset(),
            ));
            assert(o.push(x).to_multiset() =~= o.to_multiset().insert(x));
            assert(r.remove(p).to_multiset() =~= r.to_multiset().remove(x));
            assert(r.to_multiset().count(x) > 0) by {
                vstd::seq_lib::to_multiset_contains(r, x);
                assert(r[p] == x);
            }
            assert(o.to_multiset().insert(x).add(r.to_multiset().remove(x)) =~= o.to_multiset().add(
                r.to_multiset(),
            ));
            assert((o + r).to_multiset() =~= o.to_multiset().add(r.to_multiset()));
        }
    }
}

proof fn lemma_key_pos(s: Seq<(Seq<char>, RawModel)>, id: Seq<char>, i: int)
    requires
        0 <= i,
    ensures
        key_pos(s, id, i) matches Some(p) ==> i <= p < s.len() && s[p].0 == id,
    decreases s.len() - i,
{
    if i < s.len() && s[i].0 != id {
        lemma_key_pos(s, id, i + 1);
    }
}

/// Ordering a config neither drops nor adds an entry.
pub proof fn law_order_keeps_entries(c: Seq<(Seq<char>, RawModel)>, ids: Seq<Seq<char>>)
    ensures
        order_spec(c, ids).to_multiset() == c.to_multiset(),
{
    broadcast use vstd::seq_lib::lemma_multiset_commutative;

    lemma_take_in_table_order_keeps_entries(c, ids);
    let (o, r) = take_in_table_order(c, ids);
    law_sort_by_key_keeps_entries(r);
    assert((o + sort_by_key(r)).to_multiset() =~= o.to_multiset().add(sort_by_key(r).to_multiset()));
    assert((o + r).to_multiset() =~= o.to_multiset().add(r.to_multiset()));
}

} // verus!
