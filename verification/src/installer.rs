//! Package installation decisions: where the pi root is, which files of
//! a package are extensions and under which names they are published,
//! where a local source and an installed package live, how a remote
//! source is fetched, and the exit code and message of every failure.
//!
//! Copying trees, running `npm` / `git` and touching the registry file is
//! the caller's job.
use vstd::prelude::*;

use crate::package_spec::{sanitize_segment, sanitize_spec, PackageSpec, SpecError};
use crate::paths::{file_name, join, join_path, path_file_name};
use crate::registry::PackageEntry;
use crate::text::{
    chars_of, decimal, ends_with, equals_lit, push_decimal, push_str,
    rfind_char, rfind_char_exec, starts_with, starts_with_lit, string_of, trim,
};

verus! {

/// Sub-directory holding installed packages.
pub const PACKAGES_DIR: &'static str = "packages";

/// Sub-directory the extension loader searches (`~/.pi/agent/extensions`).
pub const EXTENSIONS_DIR: &'static str = "agent/extensions";

/// Errors raised by install / remove.
#[derive(Debug, Clone, PartialEq, Eq)]
pub enum InstallError {
    /// The package spec could not be parsed.
    Spec(SpecError),
    /// A local path did not exist.
    NotFound(String),
    /// The source type is known but not supported in this build.
    Unsupported(String),
    /// A required external tool was not available (offline / missing
    /// binary).
    Unavailable(String),
    /// An external fetch command failed.
    Fetch(String),
    /// The registry could not be read or written; the error's text.
    Registry(String),
    /// A filesystem operation failed; the error's text.
    Io(String),
}

/// The `sysexits.h` code of each failure.
pub open spec fn install_exit_code(e: InstallError) -> u8 {
    match e {
        InstallError::Spec(_) | InstallError::Unsupported(_) => 64,
        InstallError::NotFound(_) => 66,
        InstallError::Unavailable(_) | InstallError::Fetch(_) => 69,
        InstallError::Registry(_) | InstallError::Io(_) => 74,
    }
}

/// The message of a spec error.
pub open spec fn spec_error_message(e: SpecError) -> Seq<char> {
    match e {
        SpecError::Empty => "empty package spec"@,
        SpecError::Npm(s) => "invalid npm spec `"@ + s@ + "`"@,
        SpecError::Git(s) => "invalid git spec `"@ + s@ + "`"@,
        SpecError::Https(s) => "invalid https spec `"@ + s@ + "`"@,
        SpecError::Unsupported(s) => "unsupported package spec `"@ + s@
            + "` (expected npm:, git:, file:, https://, or a local path like ./pkg)"@,
    }
}

/// The message of an install error.
pub open spec fn install_error_message(e: InstallError) -> Seq<char> {
    match e {
        InstallError::Spec(s) => spec_error_message(s),
        InstallError::NotFound(p) => "path does not exist: "@ + p@,
        InstallError::Unsupported(m) => "unsupported package source: "@ + m@,
        InstallError::Unavailable(m) => m@,
        InstallError::Fetch(m) => m@,
        InstallError::Registry(m) => m@,
        InstallError::Io(m) => m@,
    }
}

/// `<prefix><s><suffix>`.
fn wrap(prefix: &str, s: &str, suffix: &str) -> (r: String)
    ensures
        r@ == prefix@ + s@ + suffix@,
{
    let mut out = String::from_str(prefix);
    out.append(s);
    push_str(&mut out, suffix);
    out
}

/// `<prefix><s>`.
fn prefixed(prefix: &str, s: &str) -> (r: String)
    ensures
        r@ == prefix@ + s@,
{
    let mut out = String::from_str(prefix);
    out.append(s);
    out
}

/// The message of a spec error.
pub fn spec_error_text(e: &SpecError) -> (r: String)
    ensures
        r@ == spec_error_message(*e),
{
    match e {
        SpecError::Empty => String::from_str("empty package spec"),
        SpecError::Npm(s) => wrap("invalid npm spec `", s.as_str(), "`"),
        SpecError::Git(s) => wrap("invalid git spec `", s.as_str(), "`"),
        SpecError::Https(s) => wrap("invalid https spec `", s.as_str(), "`"),
        SpecError::Unsupported(s) => wrap(
            "unsupported package spec `",
            s.as_str(),
            "` (expected npm:, git:, file:, https://, or a local path like ./pkg)",
        ),
    }
}

impl InstallError {
    /// `sysexits.h`-style exit code for the CLI.
    pub fn exit_code(&self) -> (r: u8)
        ensures
            r == install_exit_code(*self),
    {
        match self {
            InstallError::Spec(_) | InstallError::Unsupported(_) => 64,
            InstallError::NotFound(_) => 66,
            InstallError::Unavailable(_) | InstallError::Fetch(_) => 69,
            InstallError::Registry(_) | InstallError::Io(_) => 74,
        }
    }

    /// The message the CLI prints.
    pub fn message(&self) -> (r: String)
        ensures
            r@ == install_error_message(*self),
    {
        match self {
            InstallError::Spec(s) => spec_error_text(s),
            InstallError::NotFound(p) => prefixed("path does not exist: ", p.as_str()),
            InstallError::Unsupported(m) => prefixed("unsupported package source: ", m.as_str()),
            InstallError::Unavailable(m) => m.clone(),
            InstallError::Fetch(m) => m.clone(),
            InstallError::Registry(m) => m.clone(),
            InstallError::Io(m) => m.clone(),
        }
    }
}

/// Resolve the pi root (`~/.pi` by default).
///
/// Precedence: explicit `--dir`, then a non-empty `PI_HOME`, then
/// `$HOME/.pi`, then `./.pi`.
pub fn resolve_root(explicit: Option<&str>, pi_home: Option<&str>, home: Option<&str>) -> (r: String)
    ensures
        r@ == match explicit {
            Some(d) => d@,
            None => match pi_home {
                Some(p) if p@.len() > 0 => p@,
                _ => join_path(
                    match home {
                        Some(h) => h@,
                        None => seq!['.'],
                    },
                    ".pi"@,
                ),
            },
        },
{
    if let Some(d) = explicit {
        return String::from_str(d);
    }
    if let Some(p) = pi_home {
        if p.unicode_len() > 0 {
            return String::from_str(p);
        }
    }
    match home {
        Some(h) => join(h, ".pi"),
        None => {
            proof {
                reveal_strlit(".");
            }
            assert("."@ =~= seq!['.']);
            join(".", ".pi")
        },
    }
}

// ---------------------------------------------------------------------------
// Extensions
// ---------------------------------------------------------------------------

/// `Path::extension`: what follows the last `.` of the file name, unless
/// that dot starts the name.
pub open spec fn extension_spec(path: Seq<char>) -> Option<Seq<char>> {
    match file_name(path) {
        None => None,
        Some(n) => match rfind_char(n, '.') {
            Some(p) => if p == 0 {
                None
            } else {
                Some(n.subrange(p + 1, n.len() as int))
            },
            None => None,
        },
    }
}

/// The extensions the loader runs.
pub open spec fn is_extension_spec(path: Seq<char>) -> bool {
    match extension_spec(path) {
        Some(e) => e == "ts"@ || e == "js"@ || e == "mjs"@ || e == "wasm"@,
        None => false,
    }
}

/// The last `c` below `j` is at `m` when nothing between holds `c`.
proof fn lemma_rfind_last(s: Seq<char>, c: char, m: int, j: int)
    requires
        0 <= m < j <= s.len(),
        s[m] == c,
        forall|i: int| m < i < j ==> s[i] != c,
    ensures
        crate::text::rfind_char_below(s, c, j) == Some(m),
    decreases j,
{
    if j - 1 != m {
        lemma_rfind_last(s, c, m, j - 1);
    }
}

/// An extension file is recognised by its extension alone: for a file
/// `<dir>/<stem>.<ext>` (a non-empty stem, a non-empty extension without
/// `.`, no `/` in either), the file is an extension exactly when `ext` is
/// `ts`, `js`, `mjs` or `wasm`.
pub proof fn law_extension_files_by_suffix(dir: Seq<char>, stem: Seq<char>, ext: Seq<char>)
    requires
        stem.len() > 0,
        ext.len() > 0,
        forall|i: int| 0 <= i < stem.len() ==> stem[i] != '/',
        forall|i: int| 0 <= i < ext.len() ==> ext[i] != '/' && ext[i] != '.',
    ensures
        is_extension_spec(dir + seq!['/'] + stem + seq!['.'] + ext) <==> (ext == seq!['t', 's'] || ext
            == seq!['j', 's'] || ext == seq!['m', 'j', 's'] || ext == seq!['w', 'a', 's', 'm']),
{
    reveal_strlit("ts");
    reveal_strlit("js");
    reveal_strlit("mjs");
    reveal_strlit("wasm");
    let name = stem + seq!['.'] + ext;
    let p = dir + seq!['/'] + name;
    assert(p =~= dir + seq!['/'] + stem + seq!['.'] + ext);
    let d = dir.len() as int;
    let l = p.len() as int;
    assert(p[d] == '/');
    assert forall|i: int| d < i < l implies p[i] != '/' by {
        assert(p[i] == name[i - d - 1]);
        let k = i - d - 1;
        if k < stem.len() {
            assert(name[k] == stem[k]);
        } else if k > stem.len() {
            assert(name[k] == ext[k - stem.len() - 1]);
        }
    }
    assert(p[l - 1] == ext[ext.len() - 1]);
    lemma_rfind_last(p, '/', d, l);
    assert(p.subrange(d + 1, l) =~= name);
    assert(name.len() >= 3);
    assert(name != seq!['.']);
    assert(name != seq!['.', '.']);
    assert(file_name(p) == Some(name));
    let sl = stem.len() as int;
    assert(name[sl] == '.');
    assert forall|i: int| sl < i < name.len() implies name[i] != '.' by {
        assert(name[i] == ext[i - sl - 1]);
    }
    lemma_rfind_last(name, '.', sl, name.len() as int);
    assert(name.subrange(sl + 1, name.len() as int) =~= ext);
    assert(extension_spec(p) == Some(ext));
    assert("ts"@ =~= seq!['t', 's']);
    assert("js"@ =~= seq!['j', 's']);
    assert("mjs"@ =~= seq!['m', 'j', 's']);
    assert("wasm"@ =~= seq!['w', 'a', 's', 'm']);
}

/// `Path::extension` of `path`.
pub fn path_extension(path: &str) -> (r: Option<String>)
    ensures
        match r {
            Some(e) => extension_spec(path@) == Some(e@),
            None => extension_spec(path@) is None,
        },
{
    let name = match path_file_name(path) {
        Some(n) => n,
        None => {
            return None;
        },
    };
    let v = chars_of(name.as_str());
    match rfind_char_exec(&v, '.') {
        Some(p) => if p == 0 {
            None
        } else {
            Some(string_of(&v, p + 1, v.len()))
        },
        None => None,
    }
}

/// Whether `path` is an extension file (`.ts`, `.js`, `.mjs`, `.wasm`).
pub fn is_extension(path: &str) -> (r: bool)
    ensures
        r == is_extension_spec(path@),
{
    match path_extension(path) {
        Some(e) => {
            let v = chars_of(e.as_str());
            equals_lit(&v, "ts") || equals_lit(&v, "js") || equals_lit(&v, "mjs") || equals_lit(
                &v,
                "wasm",
            )
        },
        None => false,
    }
}

/// The name an extension is published under: its file name (or
/// `extension.js` without one), prefixed by `<index>-` after the first.
pub open spec fn published_name_spec(index: nat, source: Seq<char>) -> Seq<char> {
    let n = match file_name(source) {
        Some(n) => n,
        None => "extension.js"@,
    };
    if index == 0 {
        n
    } else {
        decimal(index) + "-"@ + n
    }
}

/// The file name extension number `index` is published under.
pub fn published_name(index: usize, source: &str) -> (r: String)
    ensures
        r@ == published_name_spec(index as nat, source@),
{
    let n = match path_file_name(source) {
        Some(n) => n,
        None => String::from_str("extension.js"),
    };
    if index == 0 {
        n
    } else {
        let mut out = String::new();
        push_decimal(&mut out, index as u64);
        push_str(&mut out, "-");
        out.append(n.as_str());
        out
    }
}

/// The first extension of a package is published under its own file
/// name.
pub proof fn law_first_extension_keeps_its_name(source: Seq<char>)
    ensures
        published_name_spec(0, source) == match file_name(source) {
            Some(n) => n,
            None => "extension.js"@,
        },
{
}

// ---------------------------------------------------------------------------
// Locations
// ---------------------------------------------------------------------------

/// The install directory of a package (`<root>/packages/<dir>`).
pub fn install_dir(root: &str, dir_name: &str) -> (r: String)
    ensures
        r@ == join_path(join_path(root@, PACKAGES_DIR@), dir_name@),
{
    let p = join(root, PACKAGES_DIR);
    join(p.as_str(), dir_name)
}

/// The directory a package's extensions are published in
/// (`<root>/agent/extensions/<dir>`).
pub fn extension_dir(root: &str, dir_name: &str) -> (r: String)
    ensures
        r@ == join_path(join_path(root@, EXTENSIONS_DIR@), dir_name@),
{
    let p = join(root, EXTENSIONS_DIR);
    join(p.as_str(), dir_name)
}

/// The directory name a removed package occupied: the last component of
/// its resolved path, or its sanitised name.
pub open spec fn removal_dir_spec(e: PackageEntry) -> Seq<char> {
    match file_name(e.resolved@) {
        Some(d) => if d.len() > 0 {
            d
        } else {
            sanitize_spec(e.name@)
        },
        None => sanitize_spec(e.name@),
    }
}

/// The directory name a package is installed under.
pub fn sanitize_dir_name(name: &str) -> (r: String)
    ensures
        r@ == sanitize_spec(name@),
{
    sanitize_segment(name)
}

/// The directory name a removed package occupied.
pub fn removal_dir_name(entry: &PackageEntry) -> (r: String)
    ensures
        r@ == removal_dir_spec(*entry),
{
    match path_file_name(entry.resolved.as_str()) {
        Some(d) => if d.unicode_len() > 0 {
            d
        } else {
            sanitize_dir_name(entry.name.as_str())
        },
        None => sanitize_dir_name(entry.name.as_str()),
    }
}

/// Where a local source lives: `~/` expands to the home directory (or
/// `.`), and a relative path is taken from `cwd`.
pub open spec fn local_source_spec(cwd: Seq<char>, path: Seq<char>, home: Option<Seq<char>>) -> Seq<char> {
    let expanded = if starts_with(path, "~/"@) {
        join_path(
            match home {
                Some(h) => h,
                None => seq!['.'],
            },
            path.skip(2),
        )
    } else {
        path
    };
    if expanded.len() > 0 && expanded[0] == '/' {
        expanded
    } else {
        join_path(cwd, expanded)
    }
}

/// Where a `file:` / local package source lives.
pub fn local_source(cwd: &str, path: &str, home: Option<&str>) -> (r: String)
    ensures
        r@ == local_source_spec(cwd@, path@, match home {
            Some(h) => Some(h@),
            None => None,
        }),
{
    let v = chars_of(path);
    proof {
        reveal_strlit("~/");
        reveal_strlit(".");
    }
    let expanded = if starts_with_lit(&v, "~/") {
        let rest = string_of(&v, 2, v.len());
        assert(v@.subrange(2, v@.len() as int) =~= v@.skip(2));
        match home {
            Some(h) => join(h, rest.as_str()),
            None => {
                assert("."@ =~= seq!['.']);
                join(".", rest.as_str())
            },
        }
    } else {
        String::from_str(path)
    };
    let ev = chars_of(expanded.as_str());
    if ev.len() > 0 && ev[0] == '/' {
        expanded
    } else {
        join(cwd, expanded.as_str())
    }
}

// ---------------------------------------------------------------------------
// Remote sources
// ---------------------------------------------------------------------------

/// ASCII lower-casing of one character.
pub open spec fn lower_char(c: char) -> char {
    if c == 'A' {
        'a'
    } else if c == 'B' {
        'b'
    } else if c == 'C' {
        'c'
    } else if c == 'D' {
        'd'
    } else if c == 'E' {
        'e'
    } else if c == 'F' {
        'f'
    } else if c == 'G' {
        'g'
    } else if c == 'H' {
        'h'
    } else if c == 'I' {
        'i'
    } else if c == 'J' {
        'j'
    } else if c == 'K' {
        'k'
    } else if c == 'L' {
        'l'
    } else if c == 'M' {
        'm'
    } else if c == 'N' {
        'n'
    } else if c == 'O' {
        'o'
    } else if c == 'P' {
        'p'
    } else if c == 'Q' {
        'q'
    } else if c == 'R' {
        'r'
    } else if c == 'S' {
        's'
    } else if c == 'T' {
        't'
    } else if c == 'U' {
        'u'
    } else if c == 'V' {
        'v'
    } else if c == 'W' {
        'w'
    } else if c == 'X' {
        'x'
    } else if c == 'Y' {
        'y'
    } else if c == 'Z' {
        'z'
    } else {
        c
    }
}

/// ASCII lower-casing (`str::to_ascii_lowercase`).
pub open spec fn ascii_lower(s: Seq<char>) -> Seq<char> {
    s.map_values(|c: char| lower_char(c))
}

/// URLs that name an archive rather than a repository.
pub open spec fn looks_like_archive_spec(url: Seq<char>) -> bool {
    let l = ascii_lower(url);
    ends_with(l, ".tar.gz"@) || ends_with(l, ".tgz"@) || ends_with(l, ".tar"@) || ends_with(
        l,
        ".zip"@,
    ) || ends_with(l, ".tar.bz2"@) || ends_with(l, ".tar.xz"@)
}

fn lower_char_exec(c: char) -> (r: char)
    ensures
        r == lower_char(c),
{
    if c == 'A' {
        'a'
    } else if c == 'B' {
        'b'
    } else if c == 'C' {
        'c'
    } else if c == 'D' {
        'd'
    } else if c == 'E' {
        'e'
    } else if c == 'F' {
        'f'
    } else if c == 'G' {
        'g'
    } else if c == 'H' {
        'h'
    } else if c == 'I' {
        'i'
    } else if c == 'J' {
        'j'
    } else if c == 'K' {
        'k'
    } else if c == 'L' {
        'l'
    } else if c == 'M' {
        'm'
    } else if c == 'N' {
        'n'
    } else if c == 'O' {
        'o'
    } else if c == 'P' {
        'p'
    } else if c == 'Q' {
        'q'
    } else if c == 'R' {
        'r'
    } else if c == 'S' {
        's'
    } else if c == 'T' {
        't'
    } else if c == 'U' {
        'u'
    } else if c == 'V' {
        'v'
    } else if c == 'W' {
        'w'
    } else if c == 'X' {
        'x'
    } else if c == 'Y' {
        'y'
    } else if c == 'Z' {
        'z'
    } else {
        c
    }
}

/// Whether `url` names an archive (checked case-insensitively).
pub fn looks_like_archive(url: &str) -> (r: bool)
    ensures
        r == looks_like_archive_spec(url@),
{
    let v = chars_of(url);
    let mut l: Vec<char> = Vec::new();
    let mut i: usize = 0;
    while i < v.len()
        invariant
            i <= v.len(),
            l@ == ascii_lower(v@.take(i as int)),
        decreases v.len() - i,
    {
        l.push(lower_char_exec(v[i]));
        assert(ascii_lower(v@.take(i + 1)) =~= ascii_lower(v@.take(i as int)).push(lower_char(v@[i as int])));
        i += 1;
    }
    assert(v@.take(v.len() as int) =~= v@);
    crate::text::ends_with_lit(&l, ".tar.gz") || crate::text::ends_with_lit(&l, ".tgz")
        || crate::text::ends_with_lit(&l, ".tar") || crate::text::ends_with_lit(&l, ".zip")
        || crate::text::ends_with_lit(&l, ".tar.bz2") || crate::text::ends_with_lit(&l, ".tar.xz")
}

/// How a remote source is materialised.
#[derive(Debug, Clone, PartialEq, Eq)]
pub enum FetchPlan {
    /// `npm install --prefix <staging> <spec>`, then copy
    /// `node_modules/<name>`.
    Npm {
        /// The spec handed to npm.
        spec: String,
        /// The package directory npm produces.
        name: String,
    },
    /// `git clone <url>`, then `git checkout <reference>` when pinned.
    Git {
        /// The clone URL.
        url: String,
        /// The ref to check out.
        reference: Option<String>,
    },
}

/// The fetcher that shells out to `npm` and `git`; it decides here how
/// each source is fetched.
#[derive(Debug, Default, Clone, Copy)]
pub struct RealFetcher;

/// `Some((url, reference))` for a git plan.
pub open spec fn git_plan(p: FetchPlan) -> Option<(Seq<char>, Option<Seq<char>>)> {
    match p {
        FetchPlan::Git { url, reference } => Some(
            (
                url@,
                match reference {
                    Some(r) => Some(r@),
                    None => None,
                },
            ),
        ),
        FetchPlan::Npm { .. } => None,
    }
}

impl RealFetcher {
    /// How `spec` is fetched: npm specs through `npm`, git and plain
    /// https sources through `git clone`; https archives and local paths
    /// are refused.
    pub fn plan(&self, spec: &PackageSpec) -> (r: Result<FetchPlan, InstallError>)
        ensures
            match *spec {
                PackageSpec::Npm { spec: s, name, .. } => r matches Ok(FetchPlan::Npm { spec: s2, name: n2 })
                    && s2@ == s@ && n2@ == name@,
                PackageSpec::Git { url, reference, .. } => r matches Ok(p) && git_plan(p) == Some(
                    (url@, crate::package_spec::opt_view(reference)),
                ),
                PackageSpec::Https { url, reference, .. } => if looks_like_archive_spec(url@) {
                    r matches Err(InstallError::Unsupported(m)) && m@
                        == "https tarball installs are not supported yet ("@ + url@
                        + "); use `git:` or a local path"@
                } else {
                    r matches Ok(p) && git_plan(p) == Some(
                        (url@, crate::package_spec::opt_view(reference)),
                    )
                },
                PackageSpec::File { path } => r matches Err(InstallError::Unsupported(m)) && m@
                    == "local path "@ + path@ + " does not go through the fetcher"@,
            },
    {
        match spec {
            PackageSpec::Npm { spec, name, .. } => Ok(FetchPlan::Npm { spec: spec.clone(), name: name.clone() }),
            PackageSpec::Git { url, reference, .. } => Ok(FetchPlan::Git { url: url.clone(), reference: reference.clone() }),
            PackageSpec::Https { url, reference, .. } => {
                if looks_like_archive(url.as_str()) {
                    return Err(
                        InstallError::Unsupported(
                            wrap(
                                "https tarball installs are not supported yet (",
                                url.as_str(),
                                "); use `git:` or a local path",
                            ),
                        ),
                    );
                }
                Ok(FetchPlan::Git { url: url.clone(), reference: reference.clone() })
            },
            PackageSpec::File { path } => Err(
                InstallError::Unsupported(
                    wrap("local path ", path.as_str(), " does not go through the fetcher"),
                ),
            ),
        }
    }
}

/// The failure reported when npm produced no package directory.
pub fn npm_missing_package(name: &str) -> (r: InstallError)
    ensures
        r matches InstallError::Fetch(m) && m@ == "npm did not produce a package at "@ + name@,
{
    InstallError::Fetch(prefixed("npm did not produce a package at ", name))
}

/// The failure reported when a required tool is not on `PATH`.
pub fn tool_unavailable(command: &str) -> (r: InstallError)
    ensures
        r matches InstallError::Unavailable(m) && m@ == "`"@ + command@
            + "` is not available on PATH (required to install `"@ + command@ + ":` packages)"@,
{
    let mut m = String::from_str("`");
    m.append(command);
    push_str(&mut m, "` is not available on PATH (required to install `");
    m.append(command);
    push_str(&mut m, ":` packages)");
    InstallError::Unavailable(m)
}

/// The text after the last line break of `s` once one trailing `\n` is
/// dropped: the last of `str::lines`, before trimming.
pub open spec fn last_line_spec(s: Seq<char>) -> Seq<char> {
    let t = if s.len() > 0 && s.last() == '\n' {
        s.drop_last()
    } else {
        s
    };
    match rfind_char(t, '\n') {
        Some(p) => t.subrange(p + 1, t.len() as int),
        None => t,
    }
}

/// `{:?}` of an exit status code.
pub open spec fn debug_code(code: Option<i32>) -> Seq<char> {
    match code {
        Some(n) => "Some("@ + (if n < 0 {
            "-"@ + decimal((-n) as nat)
        } else {
            decimal(n as nat)
        }) + ")"@,
        None => "None"@,
    }
}

/// The failure reported when `command args...` exits unsuccessfully:
/// the last line of its stderr, or its exit code.
pub open spec fn command_failure_spec(command: Seq<char>, joined_args: Seq<char>, stderr: Seq<char>, code: Option<i32>) -> Seq<char> {
    let detail = trim(last_line_spec(stderr));
    "`"@ + command + " "@ + joined_args + "` failed: "@ + if detail.len() == 0 {
        "exit code "@ + debug_code(code)
    } else {
        detail
    }
}

/// The failure reported when a command exits unsuccessfully.
pub fn command_failed(command: &str, args: &[String], stderr: &str, code: Option<i32>) -> (r: InstallError)
    ensures
        r matches InstallError::Unavailable(m) && m@ == command_failure_spec(
            command@,
            crate::text::join_spec(crate::text::strs(args@), seq![' ']),
            stderr@,
            code,
        ),
{
    let v = chars_of(stderr);
    let end = if v.len() > 0 && v[v.len() - 1] == '\n' {
        v.len() - 1
    } else {
        v.len()
    };
    let t = crate::text::sub_vec(&v, 0, end);
    assert(t@ =~= if v@.len() > 0 && v@.last() == '\n' {
        v@.drop_last()
    } else {
        v@
    });
    let line = match rfind_char_exec(&t, '\n') {
        Some(p) => string_of(&t, p + 1, t.len()),
        None => crate::text::string_of_all(&t),
    };
    let detail = crate::text::trimmed(line.as_str());
    let mut m = String::from_str("`");
    m.append(command);
    push_str(&mut m, " ");
    let joined = crate::text::join_strings(args, " ");
    proof {
        reveal_strlit(" ");
    }
    assert(" "@ =~= seq![' ']);
    m.append(joined.as_str());
    push_str(&mut m, "` failed: ");
    if detail.unicode_len() == 0 {
        push_str(&mut m, "exit code ");
        match code {
            Some(n) => {
                push_str(&mut m, "Some(");
                if n < 0 {
                    push_str(&mut m, "-");
                    let a: i64 = -(n as i64);
                    push_decimal(&mut m, a as u64);
                } else {
                    push_decimal(&mut m, n as u64);
                }
                push_str(&mut m, ")");
            },
            None => push_str(&mut m, "None"),
        }
    } else {
        m.append(detail.as_str());
    }
    InstallError::Unavailable(m)
}

} // verus!
