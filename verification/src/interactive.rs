//! Decisions and texts of the interactive session: which theme errors stay
//! silent, the `/login` summary lines and OAuth progress notes, shell
//! quoting for `!` commands, the `/name` normalisation, the help listing of
//! prompt templates, the footer's provider count, where a submitted buffer
//! goes, and which chords the pickers and the global table claim before
//! the editor sees a key.
//!
//! The terminal loop itself (keys, rendering, the agent) drives these with
//! plain values.
use vstd::prelude::*;

use crate::text::{
    chars_of, push_char, push_str, push_decimal, starts_with, starts_with_lit, trim, trimmed,
    decimal, is_ws, is_whitespace, string_of, find_seq, find_seq_exec, strs,
};
use crate::prompt_templates::{
    expand_prompt_template, expand_spec, find_prompt_template, invocation_spec, template_index_from,
    PromptTemplate,
};

verus! {

// ---------------------------------------------------------------------------
// Themes
// ---------------------------------------------------------------------------

/// A theme error the fallback palette fully covers: the theme does not
/// exist, or its name is not a valid one.
pub open spec fn theme_error_is_silent(err: Seq<char>) -> bool {
    starts_with(err, "Theme not found:"@) || starts_with(err, "Invalid theme name:"@)
}

/// Whether a theme error can be swallowed because the built-in palette
/// already renders everything; structural errors (missing tokens, bad
/// colours) still reach the user.
pub fn is_fallback_sufficient_theme_error(err: &str) -> (r: bool)
    ensures
        r == theme_error_is_silent(err@),
{
    let v = chars_of(err);
    starts_with_lit(&v, "Theme not found:") || starts_with_lit(&v, "Invalid theme name:")
}

// ---------------------------------------------------------------------------
// /login
// ---------------------------------------------------------------------------

/// Reason a `/login <provider>` invocation settled.
#[derive(Debug, Clone, PartialEq, Eq)]
pub enum LoginOutcome {
    /// The credential was written to the store.
    Stored {
        /// The provider logged in to.
        provider_id: String,
        /// Whether the credential carries a subscription.
        subscription: bool,
    },
    /// The provider does not sign in with OAuth.
    NotOAuthProvider(String),
    /// The provider id is unknown.
    UnknownProvider(String),
    /// The flow was cancelled.
    Aborted,
    /// The flow failed; the reason.
    Failed(String),
}

/// The summary line of each outcome.
pub open spec fn outcome_text(o: LoginOutcome) -> Seq<char> {
    match o {
        LoginOutcome::Stored { provider_id, subscription } => if subscription {
            "Credentials saved for "@ + provider_id@
                + ". Subscription-based providers may need a model refresh; restart the model selector with /model."@
        } else {
            "Credentials saved for "@ + provider_id@ + "."@
        },
        LoginOutcome::NotOAuthProvider(p) => "/login "@ + p@
            + ": provider does not use OAuth \u{2014} set the API key via the env vars listed in /extensions or in the README."@,
        LoginOutcome::UnknownProvider(p) => "/login "@ + p@ + ": unknown provider id."@,
        LoginOutcome::Aborted => "/login cancelled."@,
        LoginOutcome::Failed(m) => "/login failed: "@ + m@,
    }
}

/// The user-visible summary line of a `/login` run.
pub fn describe_outcome(outcome: &LoginOutcome) -> (r: String)
    ensures
        r@ == outcome_text(*outcome),
{
    match outcome {
        LoginOutcome::Stored { provider_id, subscription } => {
            let mut out = String::from_str("Credentials saved for ");
            out.append(provider_id.as_str());
            if *subscription {
                push_str(
                    &mut out,
                    ". Subscription-based providers may need a model refresh; restart the model selector with /model.",
                );
            } else {
                push_str(&mut out, ".");
            }
            out
        },
        LoginOutcome::NotOAuthProvider(p) => {
            let mut out = String::from_str("/login ");
            out.append(p.as_str());
            push_str(
                &mut out,
                ": provider does not use OAuth \u{2014} set the API key via the env vars listed in /extensions or in the README.",
            );
            out
        },
        LoginOutcome::UnknownProvider(p) => {
            let mut out = String::from_str("/login ");
            out.append(p.as_str());
            push_str(&mut out, ": unknown provider id.");
            out
        },
        LoginOutcome::Aborted => String::from_str("/login cancelled."),
        LoginOutcome::Failed(m) => {
            let mut out = String::from_str("/login failed: ");
            out.append(m.as_str());
            out
        },
    }
}

// ---------------------------------------------------------------------------
// Shell quoting
// ---------------------------------------------------------------------------

/// A character a POSIX shell takes literally outside quotes.
pub open spec fn shell_safe(c: char) -> bool {
    ||| ('a' <= c && c <= 'z')
    ||| ('A' <= c && c <= 'Z')
    ||| ('0' <= c && c <= '9')
    ||| c == '_' || c == '-' || c == '.' || c == '/' || c == '~' || c == ':' || c == '@'
}

/// `s` with every `'` written as `'\''`.
pub open spec fn escape_quotes(s: Seq<char>) -> Seq<char>
    decreases s.len(),
{
    if s.len() == 0 {
        Seq::empty()
    } else {
        escape_quotes(s.drop_last()) + if s.last() == '\'' {
            "'\\''"@
        } else {
            seq![s.last()]
        }
    }
}

/// Bare when every character is shell-safe (and there is one), otherwise
/// single-quoted.
pub open spec fn quote_spec(s: Seq<char>) -> Seq<char> {
    if s.len() > 0 && forall|i: int| 0 <= i < s.len() ==> shell_safe(#[trigger] s[i]) {
        s
    } else {
        "'"@ + escape_quotes(s) + "'"@
    }
}

fn is_shell_safe(c: char) -> (r: bool)
    ensures
        r == shell_safe(c),
{
    ('a' <= c && c <= 'z') || ('A' <= c && c <= 'Z') || ('0' <= c && c <= '9') || c == '_'
        || c == '-' || c == '.' || c == '/' || c == '~' || c == ':' || c == '@'
}

/// Quote `value` for a POSIX shell only when it needs it.
pub fn quote_if_needed(value: &str) -> (r: String)
    ensures
        r@ == quote_spec(value@),
{
    let v = chars_of(value);
    let mut safe = v.len() > 0;
    let mut i: usize = 0;
    while i < v.len()
        invariant
            i <= v.len(),
            v@ == value@,
            safe == (v.len() > 0 && forall|k: int| 0 <= k < i ==> shell_safe(#[trigger] v@[k])),
        decreases v.len() - i,
    {
        safe = safe && is_shell_safe(v[i]);
        i += 1;
    }
    if safe {
        return string_of_all_str(value);
    }
    let mut out = String::from_str("'");
    let mut j: usize = 0;
    while j < v.len()
        invariant
            j <= v.len(),
            v@ == value@,
            out@ == "'"@ + escape_quotes(v@.take(j as int)),
        decreases v.len() - j,
    {
        assert(v@.take(j + 1).drop_last() == v@.take(j as int));
        if v[j] == '\'' {
            push_str(&mut out, "'\\''");
        } else {
            push_char(&mut out, v[j]);
        }
        j += 1;
    }
    assert(v@.take(v.len() as int) == v@);
    push_str(&mut out, "'");
    out
}

fn string_of_all_str(s: &str) -> (r: String)
    ensures
        r@ == s@,
{
    s.to_string()
}

// ---------------------------------------------------------------------------
// Command text
// ---------------------------------------------------------------------------

/// Index of the first character of `s` at or after `i` that is not `c`.
pub open spec fn skip_char_from(s: Seq<char>, c: char, i: int) -> int
    decreases s.len() - i,
{
    if 0 <= i < s.len() && s[i] == c {
        skip_char_from(s, c, i + 1)
    } else {
        i
    }
}

/// Index of the first whitespace character of `s` at or after `i`.
pub open spec fn find_ws_from(s: Seq<char>, i: int) -> Option<int>
    decreases s.len() - i,
{
    if i < 0 || i >= s.len() {
        None
    } else if is_ws(s[i]) {
        Some(i)
    } else {
        find_ws_from(s, i + 1)
    }
}

/// What follows the command name: the trimmed text after the first
/// whitespace of the command, leading slashes dropped; empty without one.
pub open spec fn command_args_text(text: Seq<char>) -> Seq<char> {
    let t = trim(text);
    let rest = t.subrange(skip_char_from(t, '/', 0), t.len() as int);
    match find_ws_from(rest, 0) {
        Some(k) => trim(rest.subrange(k, rest.len() as int)),
        None => Seq::empty(),
    }
}

proof fn lemma_skip_char_bound(s: Seq<char>, c: char, i: int)
    requires
        0 <= i <= s.len(),
    ensures
        i <= skip_char_from(s, c, i) <= s.len(),
    decreases s.len() - i,
{
    if i < s.len() && s[i] == c {
        lemma_skip_char_bound(s, c, i + 1);
    }
}

proof fn lemma_find_ws_bound(s: Seq<char>, i: int)
    requires
        0 <= i,
    ensures
        match find_ws_from(s, i) {
            Some(k) => i <= k < s.len() && is_ws(s[k]),
            None => true,
        },
    decreases s.len() - i,
{
    if i < s.len() && !is_ws(s[i]) {
        lemma_find_ws_bound(s, i + 1);
    }
}

/// The text the user typed after an extension command's name.
pub fn extension_command_args(text: &str) -> (r: String)
    ensures
        r@ == command_args_text(text@),
{
    let t = chars_of(trimmed(text).as_str());
    let ghost tt = trim(text@);
    assert(t@ == tt);
    let mut s: usize = 0;
    while s < t.len() && t[s] == '/'
        invariant
            s <= t.len(),
            t@ == tt,
            skip_char_from(tt, '/', 0) == skip_char_from(tt, '/', s as int),
        decreases t.len() - s,
    {
        s += 1;
    }
    assert(skip_char_from(tt, '/', s as int) == s);
    let rest = string_of(&t, s, t.len());
    let rv = chars_of(rest.as_str());
    let ghost r = rv@;
    let mut k: usize = 0;
    while k < rv.len()
        invariant
            k <= rv.len(),
            rv@ == r,
            tt == trim(text@),
            r == tt.subrange(skip_char_from(tt, '/', 0), tt.len() as int),
            find_ws_from(r, 0) == find_ws_from(r, k as int),
        decreases rv.len() - k,
    {
        if is_whitespace(rv[k]) {
            let tail = string_of(&rv, k, rv.len());
            return trimmed(tail.as_str());
        }
        k += 1;
    }
    String::new()
}

// ---------------------------------------------------------------------------
// /name
// ---------------------------------------------------------------------------

/// A line break character.
pub open spec fn is_line_break(c: char) -> bool {
    c == '\r' || c == '\n'
}

/// `s[i..]` with every run of CR/LF replaced by one space; `in_run` says
/// whether a run is already open before `i`.
pub open spec fn collapse_breaks_from(s: Seq<char>, i: int, in_run: bool) -> Seq<char>
    decreases s.len() - i,
{
    if i < 0 || i >= s.len() {
        Seq::empty()
    } else if is_line_break(s[i]) {
        if in_run {
            collapse_breaks_from(s, i + 1, true)
        } else {
            seq![' '] + collapse_breaks_from(s, i + 1, true)
        }
    } else {
        seq![s[i]] + collapse_breaks_from(s, i + 1, false)
    }
}

/// A session name as stored: line-break runs collapsed to one space,
/// then trimmed.
pub open spec fn session_name_spec(raw: Seq<char>) -> Seq<char> {
    trim(collapse_breaks_from(raw, 0, false))
}

/// Normalise a session name typed with `/name`.
pub fn normalize_session_name(raw: &str) -> (r: String)
    ensures
        r@ == session_name_spec(raw@),
{
    let v = chars_of(raw);
    let mut out = String::new();
    let mut in_run = false;
    let mut i: usize = 0;
    while i < v.len()
        invariant
            i <= v.len(),
            v@ == raw@,
            out@ + collapse_breaks_from(v@, i as int, in_run) == collapse_breaks_from(v@, 0, false),
        decreases v.len() - i,
    {
        let c = v[i];
        if c == '\r' || c == '\n' {
            if !in_run {
                push_char(&mut out, ' ');
                in_run = true;
            }
        } else {
            push_char(&mut out, c);
            in_run = false;
        }
        i += 1;
    }
    assert(out@ + Seq::<char>::empty() == out@);
    trimmed(out.as_str())
}

proof fn lemma_collapse_has_no_breaks(s: Seq<char>, i: int, in_run: bool)
    ensures
        forall|k: int|
            0 <= k < collapse_breaks_from(s, i, in_run).len() ==> !is_line_break(
                #[trigger] collapse_breaks_from(s, i, in_run)[k],
            ),
    decreases s.len() - i,
{
    if 0 <= i < s.len() {
        lemma_collapse_has_no_breaks(s, i + 1, true);
        lemma_collapse_has_no_breaks(s, i + 1, false);
        let rest_t = collapse_breaks_from(s, i + 1, true);
        let rest_f = collapse_breaks_from(s, i + 1, false);
        if is_line_break(s[i]) {
            if !in_run {
                assert forall|k: int| 0 <= k < (seq![' '] + rest_t).len() implies !is_line_break(
                    #[trigger] (seq![' '] + rest_t)[k],
                ) by {
                    if k > 0 {
                        assert((seq![' '] + rest_t)[k] == rest_t[k - 1]);
                    }
                }
            }
        } else {
            assert forall|k: int| 0 <= k < (seq![s[i]] + rest_f).len() implies !is_line_break(
                #[trigger] (seq![s[i]] + rest_f)[k],
            ) by {
                if k > 0 {
                    assert((seq![s[i]] + rest_f)[k] == rest_f[k - 1]);
                }
            }
        }
    }
}

/// A normalised session name holds no line break: every CR/LF run became
/// a space.
pub proof fn law_session_name_has_no_line_breaks(raw: Seq<char>)
    ensures
        forall|k: int|
            0 <= k < session_name_spec(raw).len() ==> !is_line_break(
                #[trigger] session_name_spec(raw)[k],
            ),
{
    let c = collapse_breaks_from(raw, 0, false);
    lemma_collapse_has_no_breaks(raw, 0, false);
    crate::text::lemma_trim_bounds(c);
    assert forall|k: int| 0 <= k < session_name_spec(raw).len() implies !is_line_break(
        #[trigger] session_name_spec(raw)[k],
    ) by {
        assert(session_name_spec(raw)[k] == c[crate::text::skip_ws_from(c, 0) + k]);
    }
}

// ---------------------------------------------------------------------------
// Footer
// ---------------------------------------------------------------------------

/// Whether the footer treats `provider` as subscription-billed.
pub fn is_subscription_provider(provider: &str) -> (r: bool)
    ensures
        r == (provider@ == "kimi-coding"@),
{
    equals_str(provider, "kimi-coding")
}

fn equals_str(a: &str, b: &str) -> (r: bool)
    ensures
        r == (a@ == b@),
{
    crate::text::equals_lit(&chars_of(a), b)
}

/// The providers of a model catalog, as `(provider, model id)` pairs.
pub open spec fn providers_of(models: Seq<(String, String)>) -> Set<Seq<char>> {
    models.map_values(|m: (String, String)| m.0@).to_set()
}

/// How many distinct providers the session can route to.
pub fn available_provider_count(models: &[(String, String)]) -> (r: usize)
    ensures
        r == providers_of(models@).len(),
{
    let mut seen: Vec<String> = Vec::new();
    let mut i: usize = 0;
    while i < models.len()
        invariant
            i <= models.len(),
            seen.len() <= i,
            strs(seen@).no_duplicates(),
            strs(seen@).to_set() == providers_of(models@.take(i as int)),
        decreases models.len() - i,
    {
        let p = &models[i].0;
        let mut found = false;
        let mut j: usize = 0;
        while j < seen.len()
            invariant
                j <= seen.len(),
                found == exists|k: int| 0 <= k < j && #[trigger] strs(seen@)[k] == p@,
            decreases seen.len() - j,
        {
            assert(strs(seen@)[j as int] == seen@[j as int]@);
            if equals_str(seen[j].as_str(), p.as_str()) {
                found = true;
            }
            j += 1;
        }
        let ghost before = strs(seen@);
        let ghost old_seen = seen@;
        let ghost mv = models@.take(i as int).map_values(|m: (String, String)| m.0@);
        assert(models@.take(i + 1).map_values(|m: (String, String)| m.0@) == mv.push(p@));
        proof {
            mv.lemma_push_to_set_commute(p@);
        }
        if !found {
            let c = p.clone();
            seen.push(c);
            proof {
                crate::text::lemma_strs_push(old_seen, c);
                assert(!before.contains(p@));
                before.lemma_push_to_set_commute(p@);
                assert forall|a: int, b: int|
                    0 <= a < b < strs(seen@).len() implies strs(seen@)[a] != strs(seen@)[b] by {
                    if b == before.len() {
                        assert(strs(seen@)[a] == before[a]);
                    }
                }
            }
        } else {
            assert(before.contains(p@));
            assert(before.to_set().insert(p@) =~= before.to_set());
        }
        i += 1;
    }
    assert(models@.take(models.len() as int) == models@);
    proof {
        strs(seen@).unique_seq_to_set();
    }
    seen.len()
}

// ---------------------------------------------------------------------------
// Help listings
// ---------------------------------------------------------------------------

/// `s` padded with spaces on the right to `w` characters (`{:<w}`).
pub open spec fn pad_to(s: Seq<char>, w: nat) -> Seq<char> {
    if s.len() >= w {
        s
    } else {
        s + Seq::new((w - s.len()) as nat, |i: int| ' ')
    }
}

/// One listing line: `  /name` alone, or the name in a 16-wide column
/// followed by the description.
pub open spec fn listing_line(name: Seq<char>, desc: Seq<char>) -> Seq<char> {
    if desc.len() == 0 {
        "  /"@ + name + "\n"@
    } else {
        "  /"@ + pad_to(name, 16) + " "@ + desc + "\n"@
    }
}

/// The lines of a listing of `(name, description)` entries.
pub open spec fn listing_lines(es: Seq<(Seq<char>, Seq<char>)>) -> Seq<char>
    decreases es.len(),
{
    if es.len() == 0 {
        Seq::empty()
    } else {
        listing_lines(es.drop_last()) + listing_line(es.last().0, es.last().1)
    }
}

/// `base` with a titled listing spliced in before its `keys:` section (or
/// appended when it has none); `base` itself when there is nothing to list.
pub open spec fn splice_listing(base: Seq<char>, title: Seq<char>, es: Seq<(Seq<char>, Seq<char>)>) -> Seq<char> {
    if es.len() == 0 {
        base
    } else {
        let section = title + listing_lines(es);
        match find_seq(base, "\nkeys:"@) {
            Some(k) => base.subrange(0, k) + "\n\n"@ + section + "\nkeys:"@ + base.subrange(
                k + 6,
                base.len() as int,
            ),
            None => base + "\n\n"@ + section,
        }
    }
}

/// The `(name, description)` entries of a template list.
pub open spec fn template_entries(ts: Seq<PromptTemplate>) -> Seq<(Seq<char>, Seq<char>)> {
    ts.map_values(|t: PromptTemplate| (t.name@, t.description@))
}

/// The views of `(name, description)` string pairs.
pub open spec fn pair_entries(v: Seq<(String, String)>) -> Seq<(Seq<char>, Seq<char>)> {
    v.map_values(|e: (String, String)| (e.0@, e.1@))
}

fn push_padded(out: &mut String, name: &str, w: usize)
    ensures
        final(out)@ == old(out)@ + pad_to(name@, w as nat),
{
    let ghost start = out@;
    out.append(name);
    let n = chars_of(name).len();
    if n < w {
        let mut k: usize = n;
        while k < w
            invariant
                n <= k <= w,
                n == name@.len(),
                out@ == start + name@ + Seq::new((k - n) as nat, |i: int| ' '),
            decreases w - k,
        {
            push_char(out, ' ');
            assert(Seq::new((k - n) as nat, |i: int| ' ').push(' ') =~= Seq::new(
                (k + 1 - n) as nat,
                |i: int| ' ',
            ));
            k += 1;
        }
    } else {
        assert(out@ == start + pad_to(name@, w as nat));
    }
}

fn splice_entries(base: String, title: &str, entries: &Vec<(String, String)>) -> (r: String)
    ensures
        r@ == splice_listing(base@, title@, pair_entries(entries@)),
{
    if entries.len() == 0 {
        return base;
    }
    let mut section = String::from_str(title);
    let mut i: usize = 0;
    while i < entries.len()
        invariant
            i <= entries.len(),
            section@ == title@ + listing_lines(pair_entries(entries@).take(i as int)),
        decreases entries.len() - i,
    {
        let ghost es = pair_entries(entries@).take(i + 1);
        assert(es.drop_last() =~= pair_entries(entries@).take(i as int));
        assert(es.last() == (entries@[i as int].0@, entries@[i as int].1@));
        let name = entries[i].0.as_str();
        let desc = entries[i].1.as_str();
        if desc.unicode_len() == 0 {
            push_str(&mut section, "  /");
            section.append(name);
            push_str(&mut section, "\n");
        } else {
            push_str(&mut section, "  /");
            push_padded(&mut section, name, 16);
            push_str(&mut section, " ");
            section.append(desc);
            push_str(&mut section, "\n");
        }
        i += 1;
    }
    assert(pair_entries(entries@).take(entries.len() as int) =~= pair_entries(entries@));
    let bv = chars_of(base.as_str());
    let marker = chars_of("\nkeys:");
    proof {
        reveal_strlit("\nkeys:");
    }
    match find_seq_exec(&bv, &marker) {
        Some(k) => {
            let mut out = string_of(&bv, 0, k);
            push_str(&mut out, "\n\n");
            out.append(section.as_str());
            push_str(&mut out, "\nkeys:");
            let tail = string_of(&bv, k + 6, bv.len());
            out.append(tail.as_str());
            out
        },
        None => {
            let mut out = base;
            push_str(&mut out, "\n\n");
            out.append(section.as_str());
            out
        },
    }
}

/// The help text with the loaded prompt templates listed before its
/// `keys:` section.
pub fn append_prompt_templates(base: String, templates: &[PromptTemplate]) -> (r: String)
    ensures
        r@ == splice_listing(base@, "prompt templates:\n"@, template_entries(templates@)),
{
    let mut entries: Vec<(String, String)> = Vec::new();
    let mut i: usize = 0;
    while i < templates.len()
        invariant
            i <= templates.len(),
            entries.len() == i,
            pair_entries(entries@) == template_entries(templates@.take(i as int)),
        decreases templates.len() - i,
    {
        let ghost before = entries@;
        let n = templates[i].name.clone();
        let d = templates[i].description.clone();
        entries.push((n, d));
        assert forall|k: int| 0 <= k < i + 1 implies #[trigger] pair_entries(entries@)[k]
            == template_entries(templates@.take(i + 1))[k] by {
            if k < i {
                assert(pair_entries(before)[k] == template_entries(templates@.take(i as int))[k]);
                assert(entries@[k] == before[k]);
            } else {
                assert(entries@[k] == (n, d));
            }
        }
        assert(pair_entries(entries@) =~= template_entries(templates@.take(i + 1)));
        i += 1;
    }
    assert(templates@.take(templates.len() as int) =~= templates@);
    splice_entries(base, "prompt templates:\n", &entries)
}

/// The help text with the extension commands (`(name, description)`)
/// listed before its `keys:` section.
pub fn help_text_with_extensions(base: String, commands: &[(String, String)]) -> (r: String)
    ensures
        r@ == splice_listing(base@, "extension commands:\n"@, pair_entries(commands@)),
{
    let mut entries: Vec<(String, String)> = Vec::new();
    let mut i: usize = 0;
    while i < commands.len()
        invariant
            i <= commands.len(),
            entries.len() == i,
            pair_entries(entries@) == pair_entries(commands@.take(i as int)),
        decreases commands.len() - i,
    {
        let ghost before = entries@;
        let n = commands[i].0.clone();
        let d = commands[i].1.clone();
        entries.push((n, d));
        assert forall|k: int| 0 <= k < i + 1 implies #[trigger] pair_entries(entries@)[k]
            == pair_entries(commands@.take(i + 1))[k] by {
            if k < i {
                assert(pair_entries(before)[k] == pair_entries(commands@.take(i as int))[k]);
                assert(entries@[k] == before[k]);
            } else {
                assert(entries@[k] == (n, d));
            }
        }
        assert(pair_entries(entries@) =~= pair_entries(commands@.take(i + 1)));
        i += 1;
    }
    assert(commands@.take(commands.len() as int) =~= commands@);
    splice_entries(base, "extension commands:\n", &entries)
}

// ---------------------------------------------------------------------------
// Local shell commands
// ---------------------------------------------------------------------------

/// Hands out the ids of local `!` commands, `local-bash-0`, `local-bash-1`,
/// and so on (wrapping around after `u64::MAX`).
#[derive(Debug, Clone, Default, PartialEq, Eq)]
pub struct BashCallIds {
    /// The number of the next id.
    pub next: u64,
}

impl BashCallIds {
    /// A counter that starts at zero.
    pub fn new() -> (r: Self)
        ensures
            r.next == 0,
    {
        BashCallIds { next: 0 }
    }

    /// The next call id.
    pub fn next_bash_call_id(&mut self) -> (r: String)
        ensures
            r@ == "local-bash-"@ + decimal(old(self).next as nat),
            final(self).next == (if old(self).next == u64::MAX { 0 } else { old(self).next + 1 }),
    {
        let n = self.next;
        self.next = if n == u64::MAX { 0 } else { n + 1 };
        let mut out = String::from_str("local-bash-");
        push_decimal(&mut out, n);
        out
    }
}

// ---------------------------------------------------------------------------
// OAuth progress
// ---------------------------------------------------------------------------

/// A link shown with an OAuth notice.
#[derive(Debug, Clone, PartialEq, Eq)]
pub struct AuthInfoLink {
    /// The address.
    pub url: String,
    /// Its label, if any.
    pub label: Option<String>,
}

/// A progress event of an OAuth flow.
#[derive(Debug, Clone, PartialEq, Eq)]
pub enum AuthEvent {
    /// A notice, with links.
    Info {
        /// The notice.
        message: String,
        /// Links shown under it.
        links: Vec<AuthInfoLink>,
    },
    /// A URL to open in the browser.
    AuthUrl {
        /// The URL.
        url: String,
        /// Extra instructions.
        instructions: Option<String>,
    },
    /// A device code to enter on a verification page.
    DeviceCode {
        /// The code.
        user_code: String,
        /// Where to enter it.
        verification_uri: String,
        /// Polling interval, in seconds.
        interval_seconds: Option<u64>,
        /// Lifetime of the code, in seconds.
        expires_in_seconds: Option<u64>,
    },
    /// A progress note.
    Progress {
        /// The note.
        message: String,
    },
}

/// One link line: `  label: url` or `  url`.
pub open spec fn link_line(l: AuthInfoLink) -> Seq<char> {
    match l.label {
        Some(label) => "  "@ + label@ + ": "@ + l.url@ + "\n"@,
        None => "  "@ + l.url@ + "\n"@,
    }
}

/// The link lines of a notice.
pub open spec fn link_lines(ls: Seq<AuthInfoLink>) -> Seq<char>
    decreases ls.len(),
{
    if ls.len() == 0 {
        Seq::empty()
    } else {
        link_lines(ls.drop_last()) + link_line(ls.last())
    }
}

/// The text an OAuth event puts in the info pane.
pub open spec fn event_text(e: AuthEvent) -> Seq<char> {
    match e {
        AuthEvent::Info { message, links } => if links.len() == 0 {
            message@
        } else {
            message@ + "\n"@ + link_lines(links@)
        },
        AuthEvent::AuthUrl { url, instructions } => "Open this URL in your browser:\n  "@ + url@
            + match instructions {
            Some(extra) => "\n"@ + extra@,
            None => Seq::empty(),
        },
        AuthEvent::DeviceCode { user_code, verification_uri, interval_seconds, expires_in_seconds } =>
        "Device code: "@ + user_code@ + "\nVisit: "@ + verification_uri@
            + "\nEnter the code above to authorize."@ + match interval_seconds {
            Some(secs) => "\nPolling every "@ + decimal(secs as nat) + "s."@,
            None => Seq::empty(),
        } + match expires_in_seconds {
            Some(secs) => "\nCode expires in "@ + decimal(secs as nat) + "s."@,
            None => Seq::empty(),
        },
        AuthEvent::Progress { message } => "\u{2026} "@ + message@,
    }
}

fn render_links(out: &mut String, links: &Vec<AuthInfoLink>)
    ensures
        final(out)@ == old(out)@ + link_lines(links@),
{
    let ghost start = out@;
    let mut i: usize = 0;
    while i < links.len()
        invariant
            i <= links.len(),
            out@ == start + link_lines(links@.take(i as int)),
        decreases links.len() - i,
    {
        assert(links@.take(i + 1).drop_last() =~= links@.take(i as int));
        let link = &links[i];
        push_str(out, "  ");
        match &link.label {
            Some(label) => {
                out.append(label.as_str());
                push_str(out, ": ");
            },
            None => {},
        }
        out.append(link.url.as_str());
        push_str(out, "\n");
        i += 1;
    }
    assert(links@.take(links.len() as int) =~= links@);
}

/// Render an OAuth progress event for the info pane.
pub fn render_event(event: &AuthEvent) -> (r: String)
    ensures
        r@ == event_text(*event),
{
    match event {
        AuthEvent::Info { message, links } => {
            let mut body = message.clone();
            if links.len() > 0 {
                push_str(&mut body, "\n");
                render_links(&mut body, links);
            }
            body
        },
        AuthEvent::AuthUrl { url, instructions } => {
            let mut body = String::from_str("Open this URL in your browser:\n  ");
            body.append(url.as_str());
            match instructions {
                Some(extra) => {
                    push_str(&mut body, "\n");
                    body.append(extra.as_str());
                },
                None => {},
            }
            body
        },
        AuthEvent::DeviceCode { user_code, verification_uri, interval_seconds, expires_in_seconds } => {
            let mut body = String::from_str("Device code: ");
            body.append(user_code.as_str());
            push_str(&mut body, "\nVisit: ");
            body.append(verification_uri.as_str());
            push_str(&mut body, "\nEnter the code above to authorize.");
            match interval_seconds {
                Some(secs) => {
                    push_str(&mut body, "\nPolling every ");
                    push_decimal(&mut body, *secs);
                    push_str(&mut body, "s.");
                },
                None => {},
            }
            match expires_in_seconds {
                Some(secs) => {
                    push_str(&mut body, "\nCode expires in ");
                    push_decimal(&mut body, *secs);
                    push_str(&mut body, "s.");
                },
                None => {},
            }
            body
        },
        AuthEvent::Progress { message } => {
            let mut body = String::from_str("\u{2026} ");
            body.append(message.as_str());
            body
        },
    }
}

// ---------------------------------------------------------------------------
// Pickers
// ---------------------------------------------------------------------------

/// Which picker is open, decided from the item values rather than the
/// title.
#[derive(Debug, Clone, Copy, PartialEq, Eq, Structural)]
pub enum PickerKind {
    /// The `/resume` picker (`resume:*` values).
    Session,
    /// The `/tree` overlay (`tree:*` values).
    Tree,
    /// The `/scoped-models` panel (`scoped:*` values).
    ScopedModels,
    /// Any other selector.
    Other,
}

/// The picker of a selector with first item value `first` (`None` when it
/// is empty) and title `title`; an empty picker falls back to its title.
pub open spec fn picker_kind_spec(first: Option<Seq<char>>, title: Seq<char>) -> PickerKind {
    match first {
        Some(v) => if starts_with(v, "resume:"@) {
            PickerKind::Session
        } else if starts_with(v, "tree:"@) {
            PickerKind::Tree
        } else if starts_with(v, crate::scoped_models::VALUE_PREFIX@) {
            PickerKind::ScopedModels
        } else {
            PickerKind::Other
        },
        None => if starts_with(title, "Pick a session to resume"@) {
            PickerKind::Session
        } else if title == "Session tree"@ {
            PickerKind::Tree
        } else if title == crate::scoped_models::PANEL_TITLE@ {
            PickerKind::ScopedModels
        } else {
            PickerKind::Other
        },
    }
}

/// Classify the open selector from its first item's value and its title.
pub fn picker_kind(first_value: Option<&str>, title: &str) -> (r: PickerKind)
    ensures
        r == picker_kind_spec(crate::provider::str_opt(first_value), title@),
{
    match first_value {
        Some(value) => {
            let v = chars_of(value);
            if starts_with_lit(&v, "resume:") {
                PickerKind::Session
            } else if starts_with_lit(&v, "tree:") {
                PickerKind::Tree
            } else if starts_with_lit(&v, crate::scoped_models::VALUE_PREFIX) {
                PickerKind::ScopedModels
            } else {
                PickerKind::Other
            }
        },
        None => {
            let t = chars_of(title);
            if starts_with_lit(&t, "Pick a session to resume") {
                PickerKind::Session
            } else if crate::text::equals_lit(&t, "Session tree") {
                PickerKind::Tree
            } else if crate::text::equals_lit(&t, crate::scoped_models::PANEL_TITLE) {
                PickerKind::ScopedModels
            } else {
                PickerKind::Other
            }
        },
    }
}

/// The `/resume` picker title, with the sort and name-filter modes.
pub fn session_picker_title(sort: &str, filter: &str) -> (r: String)
    ensures
        r@ == "Pick a session to resume \u{b7} sort: "@ + sort@ + " \u{b7} name: "@ + filter@,
{
    let mut out = String::from_str("Pick a session to resume \u{b7} sort: ");
    out.append(sort);
    push_str(&mut out, " \u{b7} name: ");
    out.append(filter);
    out
}

/// The `/resume` key hints: the delete confirmation while a delete is
/// pending, otherwise the chords with the live modes, and a reminder when
/// only named sessions are listed.
pub open spec fn picker_footer_spec(
    pending_delete: Option<Seq<char>>,
    sort: Seq<char>,
    filter: Seq<char>,
    show_path: bool,
    named_only: bool,
) -> Seq<Seq<char>> {
    match pending_delete {
        Some(p) => seq!["  Delete session "@ + p + "?"@, "  enter confirm \u{b7} esc cancel"@],
        None => {
            let hints = seq![
                "  ctrl+s sort ("@ + sort + ") \u{b7} ctrl+n named ("@ + filter + ") \u{b7} ctrl+p path ("@
                    + (if show_path {
                    "on"@
                } else {
                    "off"@
                }) + ") \u{b7} ctrl+r rename"@,
                "  ctrl+d delete \u{b7} ctrl+backspace delete \u{b7} enter resume \u{b7} esc cancel"@,
            ];
            if named_only {
                hints.push("  no sessions listed? ctrl+n shows every session"@)
            } else {
                hints
            }
        },
    }
}

/// The `/resume` footer lines.
pub fn session_picker_footer(
    pending_delete: Option<&str>,
    sort: &str,
    filter: &str,
    show_path: bool,
    named_only: bool,
) -> (r: Vec<String>)
    ensures
        strs(r@) == picker_footer_spec(
            crate::provider::str_opt(pending_delete),
            sort@,
            filter@,
            show_path,
            named_only,
        ),
{
    match pending_delete {
        Some(p) => {
            let mut first = String::from_str("  Delete session ");
            first.append(p);
            push_str(&mut first, "?");
            let second = String::from_str("  enter confirm \u{b7} esc cancel");
            let r = vec![first, second];
            assert(strs(r@) =~= picker_footer_spec(
                crate::provider::str_opt(pending_delete),
                sort@,
                filter@,
                show_path,
                named_only,
            ));
            r
        },
        None => {
            let mut first = String::from_str("  ctrl+s sort (");
            first.append(sort);
            push_str(&mut first, ") \u{b7} ctrl+n named (");
            first.append(filter);
            push_str(&mut first, ") \u{b7} ctrl+p path (");
            if show_path {
                push_str(&mut first, "on");
            } else {
                push_str(&mut first, "off");
            }
            push_str(&mut first, ") \u{b7} ctrl+r rename");
            let second = String::from_str(
                "  ctrl+d delete \u{b7} ctrl+backspace delete \u{b7} enter resume \u{b7} esc cancel",
            );
            let mut r = vec![first, second];
            if named_only {
                r.push(String::from_str("  no sessions listed? ctrl+n shows every session"));
            }
            assert(strs(r@) =~= picker_footer_spec(
                crate::provider::str_opt(pending_delete),
                sort@,
                filter@,
                show_path,
                named_only,
            ));
            r
        },
    }
}

/// Whether a listed session is the one the running session is attached
/// to: same id, or same session database.
pub fn is_live_session(
    current_id: &str,
    current_database: Option<&str>,
    session_id: &str,
    session_database: &str,
) -> (r: bool)
    ensures
        r == (current_id@ == session_id@ || (current_database matches Some(d) && d@
            == session_database@)),
{
    if equals_str(current_id, session_id) {
        return true;
    }
    match current_database {
        Some(d) => equals_str(d, session_database),
        None => false,
    }
}

// ---------------------------------------------------------------------------
// Picker chords
// ---------------------------------------------------------------------------

/// A chord a picker claims before the selector sees the key, by the
/// binding it answers to.
#[derive(Debug, Clone, Copy, PartialEq, Eq, Structural)]
pub enum PickerChord {
    /// `tui.select.confirm`.
    Confirm,
    /// `tui.select.cancel`.
    Cancel,
    /// `app.session.toggleSort`.
    SessionToggleSort,
    /// `app.session.toggleNamedFilter`.
    SessionToggleNamedFilter,
    /// `app.session.togglePath`.
    SessionTogglePath,
    /// `app.session.rename`.
    SessionRename,
    /// `app.session.delete`.
    SessionDelete,
    /// `app.session.deleteNoninvasive`.
    SessionDeleteNoninvasive,
    /// `app.tree.editLabel`.
    TreeEditLabel,
    /// `app.tree.foldOrUp`.
    TreeFoldOrUp,
    /// `app.tree.unfoldOrDown`.
    TreeUnfoldOrDown,
    /// `app.tree.toggleLabelTimestamp`.
    TreeToggleLabelTimestamp,
    /// `app.tree.filter.default`.
    TreeFilterDefault,
    /// `app.tree.filter.noTools`.
    TreeFilterNoTools,
    /// `app.tree.filter.userOnly`.
    TreeFilterUserOnly,
    /// `app.tree.filter.labeledOnly`.
    TreeFilterLabeledOnly,
    /// `app.tree.filter.all`.
    TreeFilterAll,
    /// `app.tree.filter.cycleForward`.
    TreeFilterCycleForward,
    /// `app.tree.filter.cycleBackward`.
    TreeFilterCycleBackward,
    /// `app.models.reorderUp`.
    ModelsReorderUp,
    /// `app.models.reorderDown`.
    ModelsReorderDown,
    /// `app.models.enableAll`.
    ModelsEnableAll,
    /// `app.models.clearAll`.
    ModelsClearAll,
    /// `app.models.toggleProvider`.
    ModelsToggleProvider,
    /// `app.models.save`.
    ModelsSave,
}

/// The binding id of a chord and the keys that stand in when the installed
/// table does not define it.
pub open spec fn chord_binding(c: PickerChord) -> (Seq<char>, Seq<Seq<char>>) {
    match c {
        PickerChord::Confirm => ("tui.select.confirm"@, seq!["enter"@]),
        PickerChord::Cancel => ("tui.select.cancel"@, seq!["escape"@]),
        PickerChord::SessionToggleSort => ("app.session.toggleSort"@, seq!["ctrl+s"@]),
        PickerChord::SessionToggleNamedFilter => ("app.session.toggleNamedFilter"@, seq!["ctrl+n"@]),
        PickerChord::SessionTogglePath => ("app.session.togglePath"@, seq!["ctrl+p"@]),
        PickerChord::SessionRename => ("app.session.rename"@, seq!["ctrl+r"@]),
        PickerChord::SessionDelete => ("app.session.delete"@, seq!["ctrl+d"@]),
        PickerChord::SessionDeleteNoninvasive => ("app.session.deleteNoninvasive"@, seq!["ctrl+backspace"@]),
        PickerChord::TreeEditLabel => ("app.tree.editLabel"@, seq!["shift+l"@]),
        PickerChord::TreeFoldOrUp => ("app.tree.foldOrUp"@, seq!["ctrl+left"@, "alt+left"@]),
        PickerChord::TreeUnfoldOrDown => ("app.tree.unfoldOrDown"@, seq!["ctrl+right"@, "alt+right"@]),
        PickerChord::TreeToggleLabelTimestamp => ("app.tree.toggleLabelTimestamp"@, seq!["shift+t"@]),
        PickerChord::TreeFilterDefault => ("app.tree.filter.default"@, seq!["ctrl+d"@]),
        PickerChord::TreeFilterNoTools => ("app.tree.filter.noTools"@, seq!["ctrl+t"@]),
        PickerChord::TreeFilterUserOnly => ("app.tree.filter.userOnly"@, seq!["ctrl+u"@]),
        PickerChord::TreeFilterLabeledOnly => ("app.tree.filter.labeledOnly"@, seq!["ctrl+l"@]),
        PickerChord::TreeFilterAll => ("app.tree.filter.all"@, seq!["ctrl+a"@]),
        PickerChord::TreeFilterCycleForward => ("app.tree.filter.cycleForward"@, seq!["ctrl+o"@]),
        PickerChord::TreeFilterCycleBackward => ("app.tree.filter.cycleBackward"@, seq!["shift+ctrl+o"@]),
        PickerChord::ModelsReorderUp => ("app.models.reorderUp"@, seq!["alt+up"@]),
        PickerChord::ModelsReorderDown => ("app.models.reorderDown"@, seq!["alt+down"@]),
        PickerChord::ModelsEnableAll => ("app.models.enableAll"@, seq!["ctrl+a"@]),
        PickerChord::ModelsClearAll => ("app.models.clearAll"@, seq!["ctrl+x"@]),
        PickerChord::ModelsToggleProvider => ("app.models.toggleProvider"@, seq!["ctrl+p"@]),
        PickerChord::ModelsSave => ("app.models.save"@, seq!["ctrl+s"@]),
    }
}

impl PickerChord {
    /// The binding id the chord answers to and its stand-in keys.
    pub fn binding(&self) -> (r: (&'static str, Vec<&'static str>))
        ensures
            r.0@ == chord_binding(*self).0,
            r.1@.len() == chord_binding(*self).1.len(),
            forall|i: int| 0 <= i < r.1@.len() ==> #[trigger] r.1@[i]@ == chord_binding(*self).1[i],
    {
        match self {
            PickerChord::Confirm => ("tui.select.confirm", vec!["enter"]),
            PickerChord::Cancel => ("tui.select.cancel", vec!["escape"]),
            PickerChord::SessionToggleSort => ("app.session.toggleSort", vec!["ctrl+s"]),
            PickerChord::SessionToggleNamedFilter => ("app.session.toggleNamedFilter", vec!["ctrl+n"]),
            PickerChord::SessionTogglePath => ("app.session.togglePath", vec!["ctrl+p"]),
            PickerChord::SessionRename => ("app.session.rename", vec!["ctrl+r"]),
            PickerChord::SessionDelete => ("app.session.delete", vec!["ctrl+d"]),
            PickerChord::SessionDeleteNoninvasive => ("app.session.deleteNoninvasive", vec!["ctrl+backspace"]),
            PickerChord::TreeEditLabel => ("app.tree.editLabel", vec!["shift+l"]),
            PickerChord::TreeFoldOrUp => ("app.tree.foldOrUp", vec!["ctrl+left", "alt+left"]),
            PickerChord::TreeUnfoldOrDown => ("app.tree.unfoldOrDown", vec!["ctrl+right", "alt+right"]),
            PickerChord::TreeToggleLabelTimestamp => ("app.tree.toggleLabelTimestamp", vec!["shift+t"]),
            PickerChord::TreeFilterDefault => ("app.tree.filter.default", vec!["ctrl+d"]),
            PickerChord::TreeFilterNoTools => ("app.tree.filter.noTools", vec!["ctrl+t"]),
            PickerChord::TreeFilterUserOnly => ("app.tree.filter.userOnly", vec!["ctrl+u"]),
            PickerChord::TreeFilterLabeledOnly => ("app.tree.filter.labeledOnly", vec!["ctrl+l"]),
            PickerChord::TreeFilterAll => ("app.tree.filter.all", vec!["ctrl+a"]),
            PickerChord::TreeFilterCycleForward => ("app.tree.filter.cycleForward", vec!["ctrl+o"]),
            PickerChord::TreeFilterCycleBackward => ("app.tree.filter.cycleBackward", vec!["shift+ctrl+o"]),
            PickerChord::ModelsReorderUp => ("app.models.reorderUp", vec!["alt+up"]),
            PickerChord::ModelsReorderDown => ("app.models.reorderDown", vec!["alt+down"]),
            PickerChord::ModelsEnableAll => ("app.models.enableAll", vec!["ctrl+a"]),
            PickerChord::ModelsClearAll => ("app.models.clearAll", vec!["ctrl+x"]),
            PickerChord::ModelsToggleProvider => ("app.models.toggleProvider", vec!["ctrl+p"]),
            PickerChord::ModelsSave => ("app.models.save", vec!["ctrl+s"]),
        }
    }
}

/// The `/tree` filter modes the direct chords select.
#[derive(Debug, Clone, Copy, PartialEq, Eq, Structural)]
pub enum TreeFilterMode {
    /// Everything but tool noise.
    Default,
    /// No tool calls or results.
    NoTools,
    /// User messages only.
    UserOnly,
    /// Labelled entries only.
    LabeledOnly,
    /// Every entry.
    All,
}

/// The filter after a direct chord for `chosen`: pressing the active mode
/// again falls back to `Default`, and the `Default` chord always resets.
pub open spec fn tree_filter_after(current: TreeFilterMode, chosen: TreeFilterMode) -> TreeFilterMode {
    if chosen != TreeFilterMode::Default && current == chosen {
        TreeFilterMode::Default
    } else {
        chosen
    }
}

/// What the picker driver does with a key.
#[derive(Debug, Clone, Copy, PartialEq, Eq, Structural)]
pub enum PickerAction {
    /// Not claimed: the key goes on to the selector.
    PassThrough,
    /// Claimed, with no effect (an open delete confirmation swallows keys).
    Swallow,
    /// Delete the session awaiting confirmation.
    ConfirmDelete,
    /// Drop the pending delete and redraw.
    CancelDelete,
    /// Next session sort mode.
    ToggleSort,
    /// All sessions / named sessions only.
    ToggleNamedFilter,
    /// Show or hide session file paths.
    TogglePath,
    /// Open the rename dialog for the highlighted session.
    Rename,
    /// Ask to confirm deleting the highlighted session.
    BeginDelete,
    /// Open the label editor for the highlighted tree entry.
    EditLabel,
    /// Show or hide label timestamps in the tree.
    ToggleLabelTimestamps,
    /// Switch the tree to this filter and unfold everything.
    SetTreeFilter(TreeFilterMode),
    /// Next tree filter, unfolding everything.
    CycleTreeFilterForward,
    /// Previous tree filter, unfolding everything.
    CycleTreeFilterBackward,
    /// Toggle the highlighted model.
    ToggleModel,
    /// Move the highlighted model by this many rows.
    ReorderModel(isize),
    /// Enable every target model.
    EnableAllModels,
    /// Disable every target model.
    ClearAllModels,
    /// Toggle every model of the highlighted model's provider.
    ToggleProvider,
    /// Save the scope to the settings.
    SaveModels,
}

/// The direct tree filter chords, in the order they are tried.
pub open spec fn direct_tree_filter(m: Seq<PickerChord>) -> Option<TreeFilterMode> {
    if m.contains(PickerChord::TreeFilterDefault) {
        Some(TreeFilterMode::Default)
    } else if m.contains(PickerChord::TreeFilterNoTools) {
        Some(TreeFilterMode::NoTools)
    } else if m.contains(PickerChord::TreeFilterUserOnly) {
        Some(TreeFilterMode::UserOnly)
    } else if m.contains(PickerChord::TreeFilterLabeledOnly) {
        Some(TreeFilterMode::LabeledOnly)
    } else if m.contains(PickerChord::TreeFilterAll) {
        Some(TreeFilterMode::All)
    } else {
        None
    }
}

/// What a key matching the chords `m` does in picker `kind`. In the
/// `/resume` picker an open delete confirmation takes every key (confirm,
/// cancel or swallow); otherwise the session chords are tried in order,
/// and the non-invasive delete only acts while no search query is typed.
/// In `/scoped-models` nothing is claimed while no row is highlighted.
pub open spec fn picker_action_spec(
    kind: PickerKind,
    m: Seq<PickerChord>,
    pending_delete: bool,
    query_empty: bool,
    tree_filter: TreeFilterMode,
    has_selection: bool,
) -> PickerAction {
    match kind {
        PickerKind::Session => if pending_delete {
            if m.contains(PickerChord::Confirm) {
                PickerAction::ConfirmDelete
            } else if m.contains(PickerChord::Cancel) {
                PickerAction::CancelDelete
            } else {
                PickerAction::Swallow
            }
        } else if m.contains(PickerChord::SessionToggleSort) {
            PickerAction::ToggleSort
        } else if m.contains(PickerChord::SessionToggleNamedFilter) {
            PickerAction::ToggleNamedFilter
        } else if m.contains(PickerChord::SessionTogglePath) {
            PickerAction::TogglePath
        } else if m.contains(PickerChord::SessionRename) {
            PickerAction::Rename
        } else if m.contains(PickerChord::SessionDelete) {
            PickerAction::BeginDelete
        } else if m.contains(PickerChord::SessionDeleteNoninvasive) && query_empty {
            PickerAction::BeginDelete
        } else {
            PickerAction::PassThrough
        },
        PickerKind::Tree => if m.contains(PickerChord::TreeEditLabel) {
            PickerAction::EditLabel
        } else if m.contains(PickerChord::TreeFoldOrUp) || m.contains(PickerChord::TreeUnfoldOrDown) {
            PickerAction::PassThrough
        } else if m.contains(PickerChord::TreeToggleLabelTimestamp) {
            PickerAction::ToggleLabelTimestamps
        } else if direct_tree_filter(m) is Some {
            PickerAction::SetTreeFilter(tree_filter_after(tree_filter, direct_tree_filter(m)->Some_0))
        } else if m.contains(PickerChord::TreeFilterCycleForward) {
            PickerAction::CycleTreeFilterForward
        } else if m.contains(PickerChord::TreeFilterCycleBackward) {
            PickerAction::CycleTreeFilterBackward
        } else {
            PickerAction::PassThrough
        },
        PickerKind::ScopedModels => if !has_selection {
            PickerAction::PassThrough
        } else if m.contains(PickerChord::Confirm) {
            PickerAction::ToggleModel
        } else if m.contains(PickerChord::ModelsReorderUp) {
            PickerAction::ReorderModel(-1isize)
        } else if m.contains(PickerChord::ModelsReorderDown) {
            PickerAction::ReorderModel(1isize)
        } else if m.contains(PickerChord::ModelsEnableAll) {
            PickerAction::EnableAllModels
        } else if m.contains(PickerChord::ModelsClearAll) {
            PickerAction::ClearAllModels
        } else if m.contains(PickerChord::ModelsToggleProvider) {
            PickerAction::ToggleProvider
        } else if m.contains(PickerChord::ModelsSave) {
            PickerAction::SaveModels
        } else {
            PickerAction::PassThrough
        },
        PickerKind::Other => PickerAction::PassThrough,
    }
}

/// Whether `c` is among the matched chords.
fn has_chord(m: &[PickerChord], c: PickerChord) -> (r: bool)
    ensures
        r == m@.contains(c),
{
    let mut i: usize = 0;
    while i < m.len()
        invariant
            i <= m.len(),
            forall|j: int| 0 <= j < i ==> m@[j] != c,
        decreases m.len() - i,
    {
        if m[i] == c {
            assert(m@[i as int] == c);
            return true;
        }
        i += 1;
    }
    false
}

/// The filter after a direct `/tree` filter chord.
pub fn next_tree_filter(current: TreeFilterMode, chosen: TreeFilterMode) -> (r: TreeFilterMode)
    ensures
        r == tree_filter_after(current, chosen),
{
    if chosen != TreeFilterMode::Default && current == chosen {
        TreeFilterMode::Default
    } else {
        chosen
    }
}

/// Decide what a key does in the open picker, from the chords it matches
/// (`matched`), whether a session delete awaits confirmation, whether the
/// search query is empty, the current `/tree` filter and whether a
/// `/scoped-models` row is highlighted.
pub fn picker_action(
    kind: PickerKind,
    matched: &[PickerChord],
    pending_delete: bool,
    query_empty: bool,
    tree_filter: TreeFilterMode,
    has_selection: bool,
) -> (r: PickerAction)
    ensures
        r == picker_action_spec(kind, matched@, pending_delete, query_empty, tree_filter, has_selection),
{
    let m = matched;
    match kind {
        PickerKind::Session => {
            if pending_delete {
                if has_chord(m, PickerChord::Confirm) {
                    PickerAction::ConfirmDelete
                } else if has_chord(m, PickerChord::Cancel) {
                    PickerAction::CancelDelete
                } else {
                    PickerAction::Swallow
                }
            } else if has_chord(m, PickerChord::SessionToggleSort) {
                PickerAction::ToggleSort
            } else if has_chord(m, PickerChord::SessionToggleNamedFilter) {
                PickerAction::ToggleNamedFilter
            } else if has_chord(m, PickerChord::SessionTogglePath) {
                PickerAction::TogglePath
            } else if has_chord(m, PickerChord::SessionRename) {
                PickerAction::Rename
            } else if has_chord(m, PickerChord::SessionDelete) {
                PickerAction::BeginDelete
            } else if has_chord(m, PickerChord::SessionDeleteNoninvasive) && query_empty {
                PickerAction::BeginDelete
            } else {
                PickerAction::PassThrough
            }
        },
        PickerKind::Tree => {
            if has_chord(m, PickerChord::TreeEditLabel) {
                PickerAction::EditLabel
            } else if has_chord(m, PickerChord::TreeFoldOrUp) || has_chord(m, PickerChord::TreeUnfoldOrDown) {
                PickerAction::PassThrough
            } else if has_chord(m, PickerChord::TreeToggleLabelTimestamp) {
                PickerAction::ToggleLabelTimestamps
            } else if has_chord(m, PickerChord::TreeFilterDefault) {
                PickerAction::SetTreeFilter(next_tree_filter(tree_filter, TreeFilterMode::Default))
            } else if has_chord(m, PickerChord::TreeFilterNoTools) {
                PickerAction::SetTreeFilter(next_tree_filter(tree_filter, TreeFilterMode::NoTools))
            } else if has_chord(m, PickerChord::TreeFilterUserOnly) {
                PickerAction::SetTreeFilter(next_tree_filter(tree_filter, TreeFilterMode::UserOnly))
            } else if has_chord(m, PickerChord::TreeFilterLabeledOnly) {
                PickerAction::SetTreeFilter(next_tree_filter(tree_filter, TreeFilterMode::LabeledOnly))
            } else if has_chord(m, PickerChord::TreeFilterAll) {
                PickerAction::SetTreeFilter(next_tree_filter(tree_filter, TreeFilterMode::All))
            } else if has_chord(m, PickerChord::TreeFilterCycleForward) {
                PickerAction::CycleTreeFilterForward
            } else if has_chord(m, PickerChord::TreeFilterCycleBackward) {
                PickerAction::CycleTreeFilterBackward
            } else {
                PickerAction::PassThrough
            }
        },
        PickerKind::ScopedModels => {
            if !has_selection {
                PickerAction::PassThrough
            } else if has_chord(m, PickerChord::Confirm) {
                PickerAction::ToggleModel
            } else if has_chord(m, PickerChord::ModelsReorderUp) {
                PickerAction::ReorderModel(-1isize)
            } else if has_chord(m, PickerChord::ModelsReorderDown) {
                PickerAction::ReorderModel(1isize)
            } else if has_chord(m, PickerChord::ModelsEnableAll) {
                PickerAction::EnableAllModels
            } else if has_chord(m, PickerChord::ModelsClearAll) {
                PickerAction::ClearAllModels
            } else if has_chord(m, PickerChord::ModelsToggleProvider) {
                PickerAction::ToggleProvider
            } else if has_chord(m, PickerChord::ModelsSave) {
                PickerAction::SaveModels
            } else {
                PickerAction::PassThrough
            }
        },
        PickerKind::Other => PickerAction::PassThrough,
    }
}

/// A direct `/tree` filter chord is a toggle: pressing it twice from any
/// other mode comes back to `Default`, and the `Default` chord always
/// lands on `Default`.
pub proof fn law_direct_tree_filter_toggles(current: TreeFilterMode, chosen: TreeFilterMode)
    ensures
        tree_filter_after(current, TreeFilterMode::Default) == TreeFilterMode::Default,
        current != chosen ==> tree_filter_after(current, chosen) == chosen,
        tree_filter_after(tree_filter_after(current, chosen), chosen) == (if current == chosen {
            chosen
        } else {
            TreeFilterMode::Default
        }),
{
}

/// An open delete confirmation in the `/resume` picker claims every key:
/// nothing passes through to the selector until it is confirmed or
/// cancelled.
pub proof fn law_pending_delete_claims_every_key(m: Seq<PickerChord>, query_empty: bool, tree_filter: TreeFilterMode, has_selection: bool)
    ensures
        picker_action_spec(PickerKind::Session, m, true, query_empty, tree_filter, has_selection)
            != PickerAction::PassThrough,
{
}

// ---------------------------------------------------------------------------
// Global chords
// ---------------------------------------------------------------------------

/// A chord of the global table, tried before the composer sees a key.
#[derive(Debug, Clone, Copy, PartialEq, Eq, Structural)]
pub enum GlobalChord {
    /// `app.model.cycleForward`.
    ModelCycleForward,
    /// `app.model.cycleBackward`.
    ModelCycleBackward,
    /// `app.model.select`.
    ModelSelect,
    /// `app.thinking.cycle`.
    ThinkingCycle,
    /// `app.message.copy`.
    MessageCopy,
    /// `app.message.followUp`.
    MessageFollowUp,
    /// `app.message.dequeue`.
    MessageDequeue,
    /// `app.session.new`.
    SessionNew,
    /// `app.session.tree`.
    SessionTree,
    /// `app.session.fork`.
    SessionFork,
    /// `app.session.resume`.
    SessionResume,
    /// `app.editor.external`.
    EditorExternal,
    /// `app.suspend`.
    Suspend,
}

/// The table in the order it is tried: each chord's binding id and the
/// keys that stand in when the installed table does not define it
/// (`app.session.fork` has none: its natural key moves the cursor).
pub open spec fn global_chord_table() -> Seq<(GlobalChord, Seq<char>, Seq<Seq<char>>)> {
    seq![
        (GlobalChord::ModelCycleForward, "app.model.cycleForward"@, seq!["ctrl+p"@]),
        (GlobalChord::ModelCycleBackward, "app.model.cycleBackward"@, seq!["shift+ctrl+p"@]),
        (GlobalChord::ModelSelect, "app.model.select"@, seq!["ctrl+l"@]),
        (GlobalChord::ThinkingCycle, "app.thinking.cycle"@, seq!["shift+tab"@]),
        (GlobalChord::MessageCopy, "app.message.copy"@, seq!["ctrl+x"@]),
        (GlobalChord::MessageFollowUp, "app.message.followUp"@, seq!["alt+enter"@]),
        (GlobalChord::MessageDequeue, "app.message.dequeue"@, seq!["alt+up"@]),
        (GlobalChord::SessionNew, "app.session.new"@, seq!["alt+n"@]),
        (GlobalChord::SessionTree, "app.session.tree"@, seq!["alt+t"@]),
        (GlobalChord::SessionFork, "app.session.fork"@, Seq::<Seq<char>>::empty()),
        (GlobalChord::SessionResume, "app.session.resume"@, seq!["alt+r"@]),
        (GlobalChord::EditorExternal, "app.editor.external"@, seq!["ctrl+g"@]),
        (GlobalChord::Suspend, "app.suspend"@, seq!["ctrl+z"@]),
    ]
}

/// The global chord table, in the order it is tried.
pub fn global_chords() -> (r: Vec<(GlobalChord, &'static str, Vec<&'static str>)>)
    ensures
        r@.len() == global_chord_table().len(),
        forall|i: int|
            0 <= i < r@.len() ==> {
                let (c, id, keys) = #[trigger] r@[i];
                let (tc, tid, tkeys) = global_chord_table()[i];
                &&& c == tc
                &&& id@ == tid
                &&& keys@.len() == tkeys.len()
                &&& forall|k: int| 0 <= k < keys@.len() ==> #[trigger] keys@[k]@ == tkeys[k]
            },
{
    let r = vec![
        (GlobalChord::ModelCycleForward, "app.model.cycleForward", vec!["ctrl+p"]),
        (GlobalChord::ModelCycleBackward, "app.model.cycleBackward", vec!["shift+ctrl+p"]),
        (GlobalChord::ModelSelect, "app.model.select", vec!["ctrl+l"]),
        (GlobalChord::ThinkingCycle, "app.thinking.cycle", vec!["shift+tab"]),
        (GlobalChord::MessageCopy, "app.message.copy", vec!["ctrl+x"]),
        (GlobalChord::MessageFollowUp, "app.message.followUp", vec!["alt+enter"]),
        (GlobalChord::MessageDequeue, "app.message.dequeue", vec!["alt+up"]),
        (GlobalChord::SessionNew, "app.session.new", vec!["alt+n"]),
        (GlobalChord::SessionTree, "app.session.tree", vec!["alt+t"]),
        (GlobalChord::SessionFork, "app.session.fork", Vec::new()),
        (GlobalChord::SessionResume, "app.session.resume", vec!["alt+r"]),
        (GlobalChord::EditorExternal, "app.editor.external", vec!["ctrl+g"]),
        (GlobalChord::Suspend, "app.suspend", vec!["ctrl+z"]),
    ];
    r
}

/// What the global table does with a key.
#[derive(Debug, Clone, Copy, PartialEq, Eq, Structural)]
pub enum GlobalAction {
    /// An extension shortcut claimed the key.
    Extension,
    /// Run the action of this chord.
    Chord(GlobalChord),
}

/// The first chord of the table among `m`, skipping `Suspend` on Windows.
pub open spec fn first_global_chord_from(m: Seq<GlobalChord>, windows: bool, i: int) -> Option<GlobalChord>
    decreases global_chord_table().len() - i,
{
    if i < 0 || i >= global_chord_table().len() {
        None
    } else {
        let c = global_chord_table()[i].0;
        if m.contains(c) && !(windows && c == GlobalChord::Suspend) {
            Some(c)
        } else {
            first_global_chord_from(m, windows, i + 1)
        }
    }
}

/// What a key does in the global table: nothing while a modal, overlay or
/// reverse history search owns the keyboard; an extension shortcut wins
/// over the built-in chords; otherwise the first chord of the table the
/// key matches (`m`), `app.suspend` never on Windows.
pub open spec fn global_action_spec(
    keyboard_taken: bool,
    extension_claimed: bool,
    m: Seq<GlobalChord>,
    windows: bool,
) -> Option<GlobalAction> {
    if keyboard_taken {
        None
    } else if extension_claimed {
        Some(GlobalAction::Extension)
    } else {
        match first_global_chord_from(m, windows, 0) {
            Some(c) => Some(GlobalAction::Chord(c)),
            None => None,
        }
    }
}

/// Whether `c` is among the matched global chords.
fn has_global_chord(m: &[GlobalChord], c: GlobalChord) -> (r: bool)
    ensures
        r == m@.contains(c),
{
    let mut i: usize = 0;
    while i < m.len()
        invariant
            i <= m.len(),
            forall|j: int| 0 <= j < i ==> m@[j] != c,
        decreases m.len() - i,
    {
        if m[i] == c {
            assert(m@[i as int] == c);
            return true;
        }
        i += 1;
    }
    false
}

/// Decide what the global chord table does with a key, from whether a
/// modal owns the keyboard, whether an extension shortcut claimed it, the
/// chords it matches and the platform.
pub fn global_action(
    keyboard_taken: bool,
    extension_claimed: bool,
    matched: &[GlobalChord],
    windows: bool,
) -> (r: Option<GlobalAction>)
    ensures
        r == global_action_spec(keyboard_taken, extension_claimed, matched@, windows),
{
    if keyboard_taken {
        return None;
    }
    if extension_claimed {
        return Some(GlobalAction::Extension);
    }
    let table = global_chords();
    let mut i: usize = 0;
    while i < table.len()
        invariant
            i <= table.len(),
            !keyboard_taken,
            !extension_claimed,
            table@.len() == global_chord_table().len(),
            forall|k: int| 0 <= k < table@.len() ==> (#[trigger] table@[k]).0 == global_chord_table()[k].0,
            first_global_chord_from(matched@, windows, 0) == first_global_chord_from(matched@, windows, i as int),
        decreases table.len() - i,
    {
        let c = table[i].0;
        assert(c == global_chord_table()[i as int].0);
        if has_global_chord(matched, c) && !(windows && c == GlobalChord::Suspend) {
            return Some(GlobalAction::Chord(c));
        }
        i += 1;
    }
    None
}

/// A registered extension shortcut always wins over the built-in chords,
/// and nothing at all is claimed while a modal owns the keyboard.
pub proof fn law_extension_shortcut_wins(m: Seq<GlobalChord>, windows: bool)
    ensures
        global_action_spec(false, true, m, windows) == Some(GlobalAction::Extension),
        global_action_spec(true, true, m, windows) is None,
        global_action_spec(true, false, m, windows) is None,
{
}

/// The scan from position `i` never yields `Suspend` on Windows.
proof fn lemma_no_suspend_from(m: Seq<GlobalChord>, i: int)
    ensures
        first_global_chord_from(m, true, i) != Some(GlobalChord::Suspend),
    decreases global_chord_table().len() - i,
{
    if 0 <= i < global_chord_table().len() {
        lemma_no_suspend_from(m, i + 1);
    }
}

/// On Windows the global table never suspends the process, whatever the
/// key matches.
pub proof fn law_no_suspend_on_windows(keyboard_taken: bool, extension_claimed: bool, m: Seq<GlobalChord>)
    ensures
        global_action_spec(keyboard_taken, extension_claimed, m, true) != Some(
            GlobalAction::Chord(GlobalChord::Suspend),
        ),
{
    lemma_no_suspend_from(m, 0);
}

// ---------------------------------------------------------------------------
// Submissions
// ---------------------------------------------------------------------------

/// Where a submitted editor buffer goes.
#[derive(Debug, Clone, PartialEq, Eq)]
pub enum SubmitRoute {
    /// A local `!` command carrying image attachments: the text goes back
    /// to the editor with [`BASH_IMAGES_REFUSED`].
    BashWithImages,
    /// A local `!` command while a turn or another command runs: the text
    /// goes back to the editor with [`bash_busy_message`].
    BashBusy,
    /// Run the local command.
    RunBash,
    /// A prompt template invocation: submit the expanded template; the
    /// images are dropped with [`SLASH_IMAGES_IGNORED`] when there are any.
    Template {
        /// The template body with its arguments substituted.
        expanded: String,
        /// Whether attachments were dropped.
        images_ignored: bool,
    },
    /// A slash command for the command dispatcher; the images are dropped
    /// with [`SLASH_IMAGES_IGNORED`] when there are any.
    Slash {
        /// Whether attachments were dropped.
        images_ignored: bool,
    },
    /// A plain prompt, attachments included.
    Prompt,
}

/// Status note when a local command carries attachments.
pub const BASH_IMAGES_REFUSED: &'static str = "Local ! commands cannot carry image attachments";

/// Status note when a slash command carries attachments.
pub const SLASH_IMAGES_IGNORED: &'static str = "Images are ignored for slash commands";

/// Whether `text` invokes a loaded prompt template.
pub open spec fn invokes_template(text: Seq<char>, ts: Seq<PromptTemplate>) -> bool {
    match invocation_spec(text) {
        Some((name, _)) => template_index_from(ts, name, 0) is Some,
        None => false,
    }
}

/// Route a submitted buffer. Local `!` commands (`is_bash`: the editor
/// parsed one) come first and never reach the model: with attachments or
/// while something runs (`busy`) they are refused. A buffer starting with
/// `/` is a prompt template when it names a loaded one, and a slash
/// command otherwise. Anything else is a prompt.
pub fn submission_route(
    text: &str,
    is_bash: bool,
    has_images: bool,
    busy: bool,
    templates: &[PromptTemplate],
) -> (r: SubmitRoute)
    ensures
        is_bash ==> r == (if has_images {
            SubmitRoute::BashWithImages
        } else if busy {
            SubmitRoute::BashBusy
        } else {
            SubmitRoute::RunBash
        }),
        !is_bash && text@.len() > 0 && text@[0] == '/' ==> if invokes_template(text@, templates@) {
            r matches SubmitRoute::Template { expanded, images_ignored } && expanded@ == expand_spec(
                text@,
                templates@,
            ) && images_ignored == has_images
        } else {
            r == SubmitRoute::Slash { images_ignored: has_images }
        },
        !is_bash && !(text@.len() > 0 && text@[0] == '/') ==> r == SubmitRoute::Prompt,
{
    if is_bash {
        return if has_images {
            SubmitRoute::BashWithImages
        } else if busy {
            SubmitRoute::BashBusy
        } else {
            SubmitRoute::RunBash
        };
    }
    let v = chars_of(text);
    if v.len() > 0 && v[0] == '/' {
        let found = find_prompt_template(text, templates).is_some();
        if found {
            SubmitRoute::Template { expanded: expand_prompt_template(text, templates), images_ignored: has_images }
        } else {
            SubmitRoute::Slash { images_ignored: has_images }
        }
    } else {
        SubmitRoute::Prompt
    }
}

/// The note shown when a local command is submitted while another one
/// (or a turn) runs; `key` is the interrupt chord's label.
pub fn bash_busy_message(key: &str) -> (r: String)
    ensures
        r@ == "A bash command is already running. Press "@ + key@ + " to cancel it first."@,
{
    let mut out = String::from_str("A bash command is already running. Press ");
    out.append(key);
    push_str(&mut out, " to cancel it first.");
    out
}

/// The status line after pulling `restored` queued prompts back into the
/// editor.
pub open spec fn dequeue_status_spec(restored: nat) -> Seq<char> {
    if restored == 0 {
        "No queued messages to restore"@
    } else {
        let head = "Restored "@ + decimal(restored) + " queued message"@;
        if restored > 1 {
            head + "s"@ + " to editor"@
        } else {
            head + " to editor"@
        }
    }
}

/// Status line for `app.message.dequeue`.
pub fn dequeue_status(restored: u64) -> (r: String)
    ensures
        r@ == dequeue_status_spec(restored as nat),
{
    if restored == 0 {
        return String::from_str("No queued messages to restore");
    }
    let mut out = String::from_str("Restored ");
    push_decimal(&mut out, restored);
    push_str(&mut out, " queued message");
    if restored > 1 {
        push_str(&mut out, "s");
    }
    push_str(&mut out, " to editor");
    out
}

} // verus!
