//! Package spec parsing.
//!
//! Supported forms:
//!
//! | Form | Example |
//! | ---- | ------- |
//! | npm | `npm:@scope/pkg@1.2.3`, `npm:pkg` |
//! | git | `git:github.com/user/repo@v1`, `git:git@github.com:user/repo`, `git:https://host/user/repo#ref` |
//! | https | `https://github.com/user/repo`, `https://github.com/user/repo@v1` |
//! | local | `file:./pkg`, `./pkg`, `../pkg`, `/abs/pkg` |
//!
//! Anything else is rejected with [`SpecError::Unsupported`] so the CLI
//! can exit with `EX_USAGE` (64).
use vstd::prelude::*;

use crate::paths::{file_name, file_name_exec};
use crate::text::{chars_of, contains_seq, ends_with, ends_with_exec, equals_lit, find_char, find_char_exec, find_seq, find_seq_exec, has_ws, has_ws_exec, lemma_find_seq_bound, lemma_trim_edges, lemma_trim_unpadded, push_char, push_range, rfind_char, rfind_char_exec, starts_with, starts_with_lit, string_of, string_of_all, sub_vec, trim, trim_bounds, trimmed};

verus! {

/// Error returned when a package spec cannot be parsed.
#[derive(Debug, Clone, PartialEq, Eq)]
pub enum SpecError {
    /// The spec was empty (or only whitespace).
    Empty,
    /// An `npm:` spec was malformed.
    Npm(String),
    /// A `git:` spec was malformed.
    Git(String),
    /// An `https://` / `http://` spec was malformed.
    Https(String),
    /// The spec did not match any supported source type.
    Unsupported(String),
}

/// A parsed package source.
#[derive(Debug, Clone, PartialEq, Eq)]
pub enum PackageSpec {
    /// `npm:<name>[@<version>]`.
    Npm {
        /// The raw spec after the `npm:` prefix.
        spec: String,
        /// The package name (`@scope/pkg` or `pkg`).
        name: String,
        /// The requested version / range, when present.
        version: Option<String>,
    },
    /// `git:<url>[#ref]` (shorthand or protocol URL).
    Git {
        /// URL passed to `git clone`.
        url: String,
        /// Host portion (used for the install layout).
        host: String,
        /// Repository path portion.
        path: String,
        /// Pinned ref (tag / branch / commit), when present.
        reference: Option<String>,
    },
    /// A bare `https://` / `http://` URL (git repo or tarball).
    Https {
        /// URL to fetch.
        url: String,
        /// Host portion.
        host: String,
        /// Path portion.
        path: String,
        /// Pinned ref, when present.
        reference: Option<String>,
    },
    /// A local file or directory.
    File {
        /// Path exactly as written in the spec (may be relative).
        path: String,
    },
}

/// Mathematical model of a [`SpecError`].
pub ghost enum SpecErrorModel {
    Empty,
    Npm(Seq<char>),
    Git(Seq<char>),
    Https(Seq<char>),
    Unsupported(Seq<char>),
}

/// Mathematical model of a [`PackageSpec`].
pub ghost enum PackageSpecModel {
    Npm { spec: Seq<char>, name: Seq<char>, version: Option<Seq<char>> },
    Git { url: Seq<char>, host: Seq<char>, path: Seq<char>, reference: Option<Seq<char>> },
    Https { url: Seq<char>, host: Seq<char>, path: Seq<char>, reference: Option<Seq<char>> },
    File { path: Seq<char> },
}

/// The view of an optional string.
pub open spec fn opt_view(o: Option<String>) -> Option<Seq<char>> {
    match o {
        Some(s) => Some(s@),
        None => None,
    }
}

/// The view of an optional character vector.
pub open spec fn opt_vview(o: Option<Vec<char>>) -> Option<Seq<char>> {
    match o {
        Some(s) => Some(s@),
        None => None,
    }
}

impl View for SpecError {
    type V = SpecErrorModel;

    open spec fn view(&self) -> SpecErrorModel {
        match self {
            SpecError::Empty => SpecErrorModel::Empty,
            SpecError::Npm(s) => SpecErrorModel::Npm(s@),
            SpecError::Git(s) => SpecErrorModel::Git(s@),
            SpecError::Https(s) => SpecErrorModel::Https(s@),
            SpecError::Unsupported(s) => SpecErrorModel::Unsupported(s@),
        }
    }
}

impl View for PackageSpec {
    type V = PackageSpecModel;

    open spec fn view(&self) -> PackageSpecModel {
        match self {
            PackageSpec::Npm { spec, name, version } => PackageSpecModel::Npm {
                spec: spec@,
                name: name@,
                version: opt_view(*version),
            },
            PackageSpec::Git { url, host, path, reference } => PackageSpecModel::Git {
                url: url@,
                host: host@,
                path: path@,
                reference: opt_view(*reference),
            },
            PackageSpec::Https { url, host, path, reference } => PackageSpecModel::Https {
                url: url@,
                host: host@,
                path: path@,
                reference: opt_view(*reference),
            },
            PackageSpec::File { path } => PackageSpecModel::File { path: path@ },
        }
    }
}

/// The view of a parse result.
pub open spec fn result_view(r: Result<PackageSpec, SpecError>) -> Result<
    PackageSpecModel,
    SpecErrorModel,
> {
    match r {
        Ok(p) => Ok(p@),
        Err(e) => Err(e@),
    }
}

// ---------------------------------------------------------------------------
// Specification of the grammar
// ---------------------------------------------------------------------------

/// `(s[..i], s[i+1..])` around the first `c`.
pub open spec fn split_once_char(s: Seq<char>, c: char) -> Option<(Seq<char>, Seq<char>)> {
    match find_char(s, c) {
        Some(i) => Some((s.take(i), s.skip(i + 1))),
        None => None,
    }
}

/// `split_once` that only accepts two non-empty halves.
pub open spec fn split_nonempty(s: Seq<char>, c: char) -> Option<(Seq<char>, Seq<char>)> {
    match split_once_char(s, c) {
        Some((h, p)) => if h.len() > 0 && p.len() > 0 {
            Some((h, p))
        } else {
            None
        },
        None => None,
    }
}

/// Everything after the last `@` (userinfo removed), or `s` itself.
pub open spec fn after_userinfo(s: Seq<char>) -> Seq<char> {
    match rfind_char(s, '@') {
        Some(i) => s.skip(i + 1),
        None => s,
    }
}

/// Everything after the first `://`, or `s` itself.
pub open spec fn after_scheme(s: Seq<char>) -> Seq<char> {
    match find_seq(s, "://"@) {
        Some(i) => s.skip(i + "://"@.len()),
        None => s,
    }
}

/// Split `url#ref` or `url@ref` into `(url, Some(ref))`.
///
/// The `@` separator must come after the last `/` so that userinfo
/// (`https://user@host/path`) and the `git@host:path` shorthand are not
/// mistaken for a ref.
pub open spec fn split_reference_spec(input: Seq<char>) -> (Seq<char>, Option<Seq<char>>) {
    let hash = find_char(input, '#');
    if hash is Some && hash.unwrap() > 0 && hash.unwrap() + 1 < input.len() {
        (input.take(hash.unwrap()), Some(input.skip(hash.unwrap() + 1)))
    } else {
        let at = rfind_char(input, '@');
        if at is Some {
            let idx = at.unwrap();
            let is_git_shorthand = idx == 3 && starts_with(input, "git@"@);
            let after_last_slash = match rfind_char(input, '/') {
                Some(slash) => idx > slash,
                None => true,
            };
            if !is_git_shorthand && after_last_slash && idx > 0 && idx + 1 < input.len() {
                (input.take(idx), Some(input.skip(idx + 1)))
            } else {
                (input, None)
            }
        } else {
            (input, None)
        }
    }
}

/// The URL handed to `git clone`: protocol URLs and `git@` shorthands pass
/// through, other shorthands get an `https://` prefix.
pub open spec fn git_clone_url_spec(base: Seq<char>) -> Seq<char> {
    if contains_seq(base, "://"@) || starts_with(base, "git@"@) {
        base
    } else {
        "https://"@ + base
    }
}

/// `(host, path)` of a git source.
pub open spec fn git_host_path_spec(base: Seq<char>) -> Option<(Seq<char>, Seq<char>)> {
    if find_seq(base, "://"@) is Some {
        split_nonempty(after_userinfo(after_scheme(base)), '/')
    } else if starts_with(base, "git@"@) {
        let rest = base.skip("git@"@.len() as int);
        match split_once_char(rest, ':') {
            Some(_) => split_nonempty(rest, ':'),
            None => split_nonempty(rest, '/'),
        }
    } else {
        split_nonempty(base, '/')
    }
}

/// Whether `s` is a local filesystem path rather than a remote source.
///
/// Bare names are *not* local paths (`./` is required). A drive prefix
/// (`C:…`) counts when its first character is ASCII and its second is
/// `:`.
pub open spec fn looks_like_local_path_spec(s: Seq<char>) -> bool {
    ||| s == "."@
    ||| s == ".."@
    ||| starts_with(s, "./"@)
    ||| starts_with(s, "../"@)
    ||| starts_with(s, "/"@)
    ||| starts_with(s, "~"@)
    ||| starts_with(s, ".\\"@)
    ||| starts_with(s, "..\\"@)
    ||| (s.len() >= 3 && s[0] < '\u{80}' && s[1] == ':')
}

/// Name and version of an npm spec (the version separator of a scoped
/// name is its *second* `@`).
pub open spec fn npm_name_version(sp: Seq<char>) -> (Seq<char>, Option<Seq<char>>) {
    if sp.len() > 0 && sp[0] == '@' {
        let after = sp.skip(1);
        match find_char(after, '@') {
            Some(i) => (seq!['@'] + after.take(i), Some(after.skip(i + 1))),
            None => (seq!['@'] + after, None),
        }
    } else {
        match find_char(sp, '@') {
            Some(i) => (sp.take(i), Some(sp.skip(i + 1))),
            None => (sp, None),
        }
    }
}

/// `npm:` specs.
pub open spec fn parse_npm_spec(rest: Seq<char>, raw: Seq<char>) -> Result<
    PackageSpecModel,
    SpecErrorModel,
> {
    let sp = trim(rest);
    if sp.len() == 0 {
        Err(SpecErrorModel::Npm(raw))
    } else {
        let (name, version) = npm_name_version(sp);
        if name.len() == 0 || has_ws(name) {
            Err(SpecErrorModel::Npm(raw))
        } else if version is Some && version.unwrap().len() == 0 {
            Err(SpecErrorModel::Npm(raw))
        } else {
            Ok(PackageSpecModel::Npm { spec: sp, name, version })
        }
    }
}

/// `git:` specs.
pub open spec fn parse_git_spec(rest: Seq<char>, raw: Seq<char>) -> Result<
    PackageSpecModel,
    SpecErrorModel,
> {
    let t = trim(rest);
    if t.len() == 0 {
        Err(SpecErrorModel::Git(raw))
    } else {
        let (base, reference) = split_reference_spec(t);
        match git_host_path_spec(base) {
            Some((host, path)) => Ok(
                PackageSpecModel::Git { url: git_clone_url_spec(base), host, path, reference },
            ),
            None => Err(SpecErrorModel::Git(raw)),
        }
    }
}

/// `https://` / `http://` specs.
pub open spec fn parse_https_spec(raw: Seq<char>) -> Result<PackageSpecModel, SpecErrorModel> {
    let (base, reference) = split_reference_spec(raw);
    match split_nonempty(after_userinfo(after_scheme(base)), '/') {
        Some((host, path)) => Ok(PackageSpecModel::Https { url: base, host, path, reference }),
        None => Err(SpecErrorModel::Https(raw)),
    }
}

/// The whole grammar.
pub open spec fn parse_spec(raw: Seq<char>) -> Result<PackageSpecModel, SpecErrorModel> {
    let t = trim(raw);
    if t.len() == 0 {
        Err(SpecErrorModel::Empty)
    } else if starts_with(t, "npm:"@) {
        parse_npm_spec(t.skip("npm:"@.len() as int), t)
    } else if starts_with(t, "file:"@) {
        let rest = trim(t.skip("file:"@.len() as int));
        if rest.len() == 0 {
            Err(SpecErrorModel::Unsupported(t))
        } else {
            Ok(PackageSpecModel::File { path: rest })
        }
    } else if starts_with(t, "git:"@) {
        parse_git_spec(t.skip("git:"@.len() as int), t)
    } else if starts_with(t, "https://"@) || starts_with(t, "http://"@) {
        parse_https_spec(t)
    } else if looks_like_local_path_spec(t) {
        Ok(PackageSpecModel::File { path: t })
    } else {
        Err(SpecErrorModel::Unsupported(t))
    }
}

/// `s` with every trailing repetition of `p` removed (`trim_end_matches`).
pub open spec fn strip_suffix_rep(s: Seq<char>, p: Seq<char>) -> Seq<char>
    decreases s.len(),
{
    if p.len() > 0 && ends_with(s, p) {
        strip_suffix_rep(s.take(s.len() - p.len()), p)
    } else {
        s
    }
}

/// The registry identity of a package.
pub open spec fn spec_name(m: PackageSpecModel) -> Seq<char> {
    match m {
        PackageSpecModel::Npm { name, .. } => name,
        PackageSpecModel::Git { host, path, .. } => host + seq!['/'] + path,
        PackageSpecModel::Https { host, path, .. } => {
            let trimmed = strip_suffix_rep(path, ".git"@);
            if trimmed.len() == 0 {
                host
            } else {
                host + seq!['/'] + trimmed
            }
        },
        PackageSpecModel::File { path } => match file_name(path) {
            Some(n) => if n.len() > 0 {
                n
            } else {
                "package"@
            },
            None => "package"@,
        },
    }
}

/// `#ref` suffix, or nothing.
pub open spec fn ref_suffix(reference: Option<Seq<char>>) -> Seq<char> {
    match reference {
        Some(r) => seq!['#'] + r,
        None => Seq::empty(),
    }
}

/// The source string as `pi list` echoes it.
pub open spec fn spec_display(m: PackageSpecModel) -> Seq<char> {
    match m {
        PackageSpecModel::Npm { spec, .. } => "npm:"@ + spec,
        PackageSpecModel::Git { url, reference, .. } => "git:"@ + url + ref_suffix(reference),
        PackageSpecModel::Https { url, reference, .. } => url + ref_suffix(reference),
        PackageSpecModel::File { path } => path,
    }
}

/// Characters that cannot appear in a directory name on some platform.
pub open spec fn is_forbidden(c: char) -> bool {
    c == '/' || c == '\\' || c == ':' || c == '*' || c == '?' || c == '"' || c == '<' || c == '>'
        || c == '|'
}

/// Characters stripped from both ends of a sanitized name.
pub open spec fn is_edge(c: char) -> bool {
    c == '-' || c == '.' || c == ' '
}

/// `c` with forbidden characters replaced by `-`.
pub open spec fn sanitize_char(c: char) -> char {
    if is_forbidden(c) {
        '-'
    } else {
        c
    }
}

/// First index at or after `i` whose character is not an edge character.
pub open spec fn skip_edge_from(s: Seq<char>, i: int) -> int
    decreases s.len() - i,
{
    if 0 <= i < s.len() && is_edge(s[i]) {
        skip_edge_from(s, i + 1)
    } else {
        i
    }
}

/// End of `s[lo..j]` once trailing edge characters are removed.
pub open spec fn edge_end_idx(s: Seq<char>, lo: int, j: int) -> int
    decreases j - lo,
{
    if lo < j && is_edge(s[j - 1]) {
        edge_end_idx(s, lo, j - 1)
    } else {
        j
    }
}

/// Filesystem-safe directory name for `name`.
pub open spec fn sanitize_spec(name: Seq<char>) -> Seq<char> {
    let mapped = name.map_values(|c: char| sanitize_char(c));
    let lo = skip_edge_from(mapped, 0);
    let t = mapped.subrange(lo, edge_end_idx(mapped, lo, mapped.len() as int));
    if t.len() == 0 {
        "package"@
    } else {
        t
    }
}

// ---------------------------------------------------------------------------
// Executable parser
// ---------------------------------------------------------------------------

proof fn lemma_skip_edge_bounds(s: Seq<char>, i: int)
    requires
        0 <= i <= s.len(),
    ensures
        i <= skip_edge_from(s, i) <= s.len(),
        skip_edge_from(s, i) < s.len() ==> !is_edge(s[skip_edge_from(s, i)]),
        forall|k: int| i <= k < skip_edge_from(s, i) ==> is_edge(#[trigger] s[k]),
    decreases s.len() - i,
{
    if i < s.len() && is_edge(s[i]) {
        lemma_skip_edge_bounds(s, i + 1);
    }
}

proof fn lemma_edge_end_bounds(s: Seq<char>, lo: int, j: int)
    requires
        0 <= lo <= j <= s.len(),
    ensures
        lo <= edge_end_idx(s, lo, j) <= j,
        edge_end_idx(s, lo, j) > lo ==> !is_edge(s[edge_end_idx(s, lo, j) - 1]),
    decreases j - lo,
{
    if lo < j && is_edge(s[j - 1]) {
        lemma_edge_end_bounds(s, lo, j - 1);
    }
}

/// Filesystem-safe directory name: forbidden characters become `-`, then
/// `-`, `.` and spaces are trimmed from both ends; an empty result becomes
/// `package`.
pub fn sanitize_segment(name: &str) -> (r: String)
    ensures
        r@ == sanitize_spec(name@),
        r@.len() > 0,
        forall|k: int| 0 <= k < r@.len() ==> !is_forbidden(#[trigger] r@[k]),
        !is_edge(r@[0]),
        !is_edge(r@[r@.len() - 1]),
{
    let v = chars_of(name);
    let mut mapped: Vec<char> = Vec::new();
    let mut i: usize = 0;
    while i < v.len()
        invariant
            i <= v.len(),
            mapped@ == v@.take(i as int).map_values(|c: char| sanitize_char(c)),
        decreases v.len() - i,
    {
        let c = v[i];
        let d = if c == '/' || c == '\\' || c == ':' || c == '*' || c == '?' || c == '"' || c
            == '<' || c == '>' || c == '|' {
            '-'
        } else {
            c
        };
        mapped.push(d);
        assert(v@.take(i + 1) == v@.take(i as int).push(v@[i as int]));
        i += 1;
    }
    assert(v@.take(v@.len() as int) == v@);
    let ghost m = mapped@;
    let mut lo: usize = 0;
    while lo < mapped.len() && (mapped[lo] == '-' || mapped[lo] == '.' || mapped[lo] == ' ')
        invariant
            lo <= mapped.len(),
            skip_edge_from(m, 0) == skip_edge_from(m, lo as int),
            m == mapped@,
        decreases mapped.len() - lo,
    {
        lo += 1;
    }
    let mut hi: usize = mapped.len();
    while hi > lo && (mapped[hi - 1] == '-' || mapped[hi - 1] == '.' || mapped[hi - 1] == ' ')
        invariant
            lo <= hi <= mapped.len(),
            edge_end_idx(m, lo as int, m.len() as int) == edge_end_idx(m, lo as int, hi as int),
            m == mapped@,
        decreases hi,
    {
        hi -= 1;
    }
    proof {
        lemma_skip_edge_bounds(m, 0);
        lemma_edge_end_bounds(m, lo as int, m.len() as int);
        lemma_skip_edge_bounds(m, lo as int);
    }
    if lo == hi {
        let r = String::from_str("package");
        proof {
            reveal_strlit("package");
        }
        r
    } else {
        let r = string_of(&mapped, lo, hi);
        assert forall|k: int| 0 <= k < r@.len() implies !is_forbidden(#[trigger] r@[k]) by {
            assert(r@[k] == m[lo + k]);
            assert(m[lo + k] == sanitize_char(v@[lo + k]));
        }
        r
    }
}

/// Whether the trimmed spec looks like a local path.
fn looks_like_local_path(s: &Vec<char>) -> (r: bool)
    ensures
        r == looks_like_local_path_spec(s@),
{
    equals_lit(s, ".") || equals_lit(s, "..") || starts_with_lit(s, "./") || starts_with_lit(
        s,
        "../",
    ) || starts_with_lit(s, "/") || starts_with_lit(s, "~") || starts_with_lit(s, ".\\")
        || starts_with_lit(s, "..\\") || (s.len() >= 3 && s[0] < '\u{80}' && s[1] == ':')
}

/// `split_reference` on a character vector.
fn split_reference(input: &Vec<char>) -> (r: (Vec<char>, Option<Vec<char>>))
    ensures
        (r.0@, opt_vview(r.1)) == split_reference_spec(input@),
{
    if let Some(idx) = find_char_exec(input, '#') {
        if idx > 0 && idx + 1 < input.len() {
            let base = sub_vec(input, 0, idx);
            let reference = sub_vec(input, idx + 1, input.len());
            return (base, Some(reference));
        }
    }
    let last_slash = rfind_char_exec(input, '/');
    if let Some(idx) = rfind_char_exec(input, '@') {
        let is_git_shorthand = idx == 3 && starts_with_lit(input, "git@");
        let after_last_slash = match last_slash {
            Some(slash) => idx > slash,
            None => true,
        };
        if !is_git_shorthand && after_last_slash && idx > 0 && idx + 1 < input.len() {
            let base = sub_vec(input, 0, idx);
            let reference = sub_vec(input, idx + 1, input.len());
            return (base, Some(reference));
        }
    }
    (sub_vec(input, 0, input.len()), None)
}

/// `split_nonempty` on a character vector.
fn split_nonempty_exec(s: &Vec<char>, c: char) -> (r: Option<(Vec<char>, Vec<char>)>)
    ensures
        match r {
            Some((h, p)) => split_nonempty(s@, c) == Some((h@, p@)),
            None => split_nonempty(s@, c) is None,
        },
{
    match find_char_exec(s, c) {
        Some(i) => {
            let h = sub_vec(s, 0, i);
            let p = sub_vec(s, i + 1, s.len());
            if h.len() > 0 && p.len() > 0 {
                Some((h, p))
            } else {
                None
            }
        },
        None => None,
    }
}

/// `after_userinfo` on a character vector.
fn after_userinfo_exec(s: &Vec<char>) -> (r: Vec<char>)
    ensures
        r@ == after_userinfo(s@),
{
    match rfind_char_exec(s, '@') {
        Some(i) => sub_vec(s, i + 1, s.len()),
        None => sub_vec(s, 0, s.len()),
    }
}

/// `after_scheme` on a character vector.
fn after_scheme_exec(s: &Vec<char>) -> (r: Vec<char>)
    ensures
        r@ == after_scheme(s@),
{
    let pat = chars_of("://");
    match find_seq_exec(s, &pat) {
        Some(i) => {
            proof {
                lemma_find_seq_bound(s@, pat@, 0);
            }
            sub_vec(s, i + pat.len(), s.len())
        },
        None => sub_vec(s, 0, s.len()),
    }
}

/// `git_clone_url` on a character vector.
fn git_clone_url(base: &Vec<char>) -> (r: String)
    ensures
        r@ == git_clone_url_spec(base@),
{
    let pat = chars_of("://");
    if find_seq_exec(base, &pat).is_some() || starts_with_lit(base, "git@") {
        string_of_all(base)
    } else {
        let mut out = String::from_str("https://");
        push_range(&mut out, base, 0, base.len());
        assert(base@.subrange(0, base@.len() as int) == base@);
        out
    }
}

/// `git_host_path` on a character vector.
fn git_host_path(base: &Vec<char>) -> (r: Option<(Vec<char>, Vec<char>)>)
    ensures
        match r {
            Some((h, p)) => git_host_path_spec(base@) == Some((h@, p@)),
            None => git_host_path_spec(base@) is None,
        },
{
    let pat = chars_of("://");
    if find_seq_exec(base, &pat).is_some() {
        let after = after_scheme_exec(base);
        let hp = after_userinfo_exec(&after);
        return split_nonempty_exec(&hp, '/');
    }
    if starts_with_lit(base, "git@") {
        let prefix = chars_of("git@");
        let rest = sub_vec(base, prefix.len(), base.len());
        if find_char_exec(&rest, ':').is_some() {
            return split_nonempty_exec(&rest, ':');
        } else {
            return split_nonempty_exec(&rest, '/');
        }
    }
    split_nonempty_exec(base, '/')
}

/// Make a `String` from an optional character vector.
fn opt_string(o: Option<Vec<char>>) -> (r: Option<String>)
    ensures
        opt_view(r) == opt_vview(o),
{
    match o {
        Some(v) => Some(string_of_all(&v)),
        None => None,
    }
}

/// `npm:` specs: `rest` follows the prefix, `raw` is the trimmed spec
/// echoed in the error.
fn parse_npm(rest: &Vec<char>, raw: &Vec<char>) -> (r: Result<PackageSpec, SpecError>)
    ensures
        result_view(r) == parse_npm_spec(rest@, raw@),
{
    let (lo, hi) = trim_bounds(rest);
    let sp = sub_vec(rest, lo, hi);
    if sp.len() == 0 {
        return Err(SpecError::Npm(string_of_all(raw)));
    }
    let (name, version) = if sp[0] == '@' {
        let after = sub_vec(&sp, 1, sp.len());
        match find_char_exec(&after, '@') {
            Some(i) => {
                let mut n = String::new();
                push_char(&mut n, '@');
                push_range(&mut n, &after, 0, i);
                (n, Some(sub_vec(&after, i + 1, after.len())))
            },
            None => {
                let mut n = String::new();
                push_char(&mut n, '@');
                push_range(&mut n, &after, 0, after.len());
                assert(after@.subrange(0, after@.len() as int) == after@);
                (n, None)
            },
        }
    } else {
        match find_char_exec(&sp, '@') {
            Some(i) => (string_of(&sp, 0, i), Some(sub_vec(&sp, i + 1, sp.len()))),
            None => (string_of_all(&sp), None),
        }
    };
    assert(seq!['@'] + after_seq(sp@) =~= Seq::<char>::empty().push('@') + after_seq(sp@));
    let name_chars = chars_of(name.as_str());
    if name_chars.len() == 0 || has_ws_exec(&name_chars) {
        return Err(SpecError::Npm(string_of_all(raw)));
    }
    if let Some(v) = &version {
        if v.len() == 0 {
            return Err(SpecError::Npm(string_of_all(raw)));
        }
    }
    Ok(PackageSpec::Npm { spec: string_of_all(&sp), name, version: opt_string(version) })
}

/// `sp` without its first character (a helper for the scoped npm case).
pub open spec fn after_seq(sp: Seq<char>) -> Seq<char> {
    sp.skip(1)
}

/// `git:` specs.
fn parse_git(rest: &Vec<char>, raw: &Vec<char>) -> (r: Result<PackageSpec, SpecError>)
    ensures
        result_view(r) == parse_git_spec(rest@, raw@),
{
    let (lo, hi) = trim_bounds(rest);
    let t = sub_vec(rest, lo, hi);
    if t.len() == 0 {
        return Err(SpecError::Git(string_of_all(raw)));
    }
    let (base, reference) = split_reference(&t);
    match git_host_path(&base) {
        Some((host, path)) => Ok(
            PackageSpec::Git {
                url: git_clone_url(&base),
                host: string_of_all(&host),
                path: string_of_all(&path),
                reference: opt_string(reference),
            },
        ),
        None => Err(SpecError::Git(string_of_all(raw))),
    }
}

/// `https://` / `http://` specs.
fn parse_https(raw: &Vec<char>) -> (r: Result<PackageSpec, SpecError>)
    ensures
        result_view(r) == parse_https_spec(raw@),
{
    let (base, reference) = split_reference(raw);
    let after = after_scheme_exec(&base);
    let hp = after_userinfo_exec(&after);
    match split_nonempty_exec(&hp, '/') {
        Some((host, path)) => Ok(
            PackageSpec::Https {
                url: string_of_all(&base),
                host: string_of_all(&host),
                path: string_of_all(&path),
                reference: opt_string(reference),
            },
        ),
        None => Err(SpecError::Https(string_of_all(raw))),
    }
}

/// An absolute path is a local package: every spec that starts with `/`
/// once trimmed is the file source at that path.
pub proof fn law_absolute_paths_are_local(raw: Seq<char>)
    requires
        trim(raw).len() > 0,
        trim(raw)[0] == '/',
    ensures
        parse_spec(raw) == Ok::<PackageSpecModel, SpecErrorModel>(PackageSpecModel::File { path: trim(raw) }),
{
    reveal_strlit("npm:");
    reveal_strlit("file:");
    reveal_strlit("git:");
    reveal_strlit("https://");
    reveal_strlit("http://");
    reveal_strlit("/");
    let t = trim(raw);
    assert(!starts_with(t, "npm:"@)) by {
        if starts_with(t, "npm:"@) {
            assert(t.subrange(0, 4)[0] == t[0]);
        }
    }
    assert(!starts_with(t, "file:"@)) by {
        if starts_with(t, "file:"@) {
            assert(t.subrange(0, 5)[0] == t[0]);
        }
    }
    assert(!starts_with(t, "git:"@)) by {
        if starts_with(t, "git:"@) {
            assert(t.subrange(0, 4)[0] == t[0]);
        }
    }
    assert(!starts_with(t, "https://"@)) by {
        if starts_with(t, "https://"@) {
            assert(t.subrange(0, 8)[0] == t[0]);
        }
    }
    assert(!starts_with(t, "http://"@)) by {
        if starts_with(t, "http://"@) {
            assert(t.subrange(0, 7)[0] == t[0]);
        }
    }
    assert(t.subrange(0, 1) =~= "/"@);
    assert(looks_like_local_path_spec(t));
}

/// An npm spec echoes back to itself: the display string of a parsed npm
/// spec starts with `npm:` and parses to the same spec.
pub proof fn law_npm_display_round_trips(raw: Seq<char>)
    requires
        parse_spec(raw) matches Ok(PackageSpecModel::Npm { .. }),
    ensures
        starts_with(spec_display(parse_spec(raw)->Ok_0), "npm:"@),
        parse_spec(spec_display(parse_spec(raw)->Ok_0)) == parse_spec(raw),
{
    reveal_strlit("npm:");
    reveal_strlit("file:");
    reveal_strlit("git:");
    reveal_strlit("https://");
    reveal_strlit("http://");
    let t = trim(raw);
    let rest = t.skip(4);
    let sp = trim(rest);
    lemma_trim_edges(rest);
    assert(sp.len() > 0);
    let d = "npm:"@ + sp;
    assert(spec_display(parse_spec(raw)->Ok_0) == d);
    assert(d[0] == 'n');
    assert(d[d.len() - 1] == sp[sp.len() - 1]);
    lemma_trim_unpadded(d);
    lemma_trim_unpadded(sp);
    assert(d.subrange(0, 4) =~= "npm:"@);
    assert(d.skip(4) =~= sp);
}

impl PackageSpec {
    /// Parse a raw spec string.
    pub fn parse(raw: &str) -> (r: Result<PackageSpec, SpecError>)
        ensures
            result_view(r) == parse_spec(raw@),
    {
        let v = chars_of(raw);
        let (lo, hi) = trim_bounds(&v);
        let t = sub_vec(&v, lo, hi);
        if t.len() == 0 {
            return Err(SpecError::Empty);
        }
        if starts_with_lit(&t, "npm:") {
            let n = chars_of("npm:").len();
            let rest = sub_vec(&t, n, t.len());
            return parse_npm(&rest, &t);
        }
        if starts_with_lit(&t, "file:") {
            let n = chars_of("file:").len();
            let rest = sub_vec(&t, n, t.len());
            let (rlo, rhi) = trim_bounds(&rest);
            if rlo == rhi {
                return Err(SpecError::Unsupported(string_of_all(&t)));
            }
            return Ok(PackageSpec::File { path: string_of(&rest, rlo, rhi) });
        }
        if starts_with_lit(&t, "git:") {
            let n = chars_of("git:").len();
            let rest = sub_vec(&t, n, t.len());
            return parse_git(&rest, &t);
        }
        if starts_with_lit(&t, "https://") || starts_with_lit(&t, "http://") {
            return parse_https(&t);
        }
        if looks_like_local_path(&t) {
            return Ok(PackageSpec::File { path: string_of_all(&t) });
        }
        Err(SpecError::Unsupported(string_of_all(&t)))
    }

    /// Human-readable package name. Used by `pi list` and as the
    /// registry identity.
    pub fn name(&self) -> (r: String)
        ensures
            r@ == spec_name(self@),
    {
        match self {
            PackageSpec::Npm { name, .. } => name.clone(),
            PackageSpec::Git { host, path, .. } => {
                let mut out = host.clone();
                push_char(&mut out, '/');
                out.append(path.as_str());
                out
            },
            PackageSpec::Https { host, path, .. } => {
                let pv = chars_of(path.as_str());
                let end = strip_git_suffixes(&pv);
                if end == 0 {
                    host.clone()
                } else {
                    let mut out = host.clone();
                    push_char(&mut out, '/');
                    push_range(&mut out, &pv, 0, end);
                    out
                }
            },
            PackageSpec::File { path } => {
                let pv = chars_of(path.as_str());
                match file_name_exec(&pv) {
                    Some((lo, hi)) => {
                        if lo == hi {
                            let r = String::from_str("package");
                            r
                        } else {
                            string_of(&pv, lo, hi)
                        }
                    },
                    None => String::from_str("package"),
                }
            },
        }
    }

    /// Filesystem-safe directory name under `<root>/packages/`.
    pub fn install_dir_name(&self) -> (r: String)
        ensures
            r@ == sanitize_spec(spec_name(self@)),
    {
        let n = self.name();
        sanitize_segment(n.as_str())
    }

    /// The source string as it should be echoed by `pi list`.
    pub fn display(&self) -> (r: String)
        ensures
            r@ == spec_display(self@),
    {
        match self {
            PackageSpec::Npm { spec, .. } => {
                let mut out = String::from_str("npm:");
                out.append(spec.as_str());
                out
            },
            PackageSpec::Git { url, reference, .. } => {
                let mut out = String::from_str("git:");
                out.append(url.as_str());
                push_reference(&mut out, reference);
                out
            },
            PackageSpec::Https { url, reference, .. } => {
                let mut out = url.clone();
                push_reference(&mut out, reference);
                out
            },
            PackageSpec::File { path } => path.clone(),
        }
    }
}

/// Appends `#ref` when a reference is pinned.
fn push_reference(out: &mut String, reference: &Option<String>)
    ensures
        final(out)@ == old(out)@ + ref_suffix(opt_view(*reference)),
{
    match reference {
        Some(r) => {
            push_char(out, '#');
            out.append(r.as_str());
            assert(old(out)@.push('#') + r@ == old(out)@ + (seq!['#'] + r@));
        },
        None => {
            assert(old(out)@ + Seq::<char>::empty() == old(out)@);
        },
    }
}

/// Length of `p` once every trailing `.git` is removed.
fn strip_git_suffixes(p: &Vec<char>) -> (end: usize)
    ensures
        end <= p.len(),
        p@.take(end as int) == strip_suffix_rep(p@, ".git"@),
{
    let suffix = chars_of(".git");
    let mut end: usize = p.len();
    let mut cur = sub_vec(p, 0, p.len());
    assert(p@.take(p@.len() as int) == p@);
    while suffix.len() > 0 && ends_with_exec(&cur, &suffix)
        invariant
            end <= p.len(),
            cur@ == p@.take(end as int),
            strip_suffix_rep(p@, suffix@) == strip_suffix_rep(cur@, suffix@),
            suffix@ == ".git"@,
        decreases end,
    {
        let ghost old_cur = cur@;
        end = end - suffix.len();
        cur = sub_vec(p, 0, end);
        assert(cur@ == old_cur.take(old_cur.len() - suffix@.len()));
    }
    end
}

} // verus!
