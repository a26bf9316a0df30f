//! Lexical path helpers shared by the resource loaders.
//!
//! Paths are strings with `/` separators; nothing here touches the
//! filesystem or the process environment (the caller passes the home
//! directory it read).
use vstd::prelude::*;

use crate::text::{
    chars_of, join_strings, lemma_rfind_char_bound, lemma_strs_push, push_char, rfind_char_below,
    starts_with, string_of, string_of_all, strs,
};

verus! {

/// The config directory pi keeps its project-local state in (`.pi`).
pub const CONFIG_DIR_NAME: &'static str = ".pi";

/// Range of the last normal component of `s[..j]`, skipping trailing
/// separators and `.` components; `None` when there is none or when it is
/// `..` (`Path::file_name`).
pub open spec fn file_name_below(s: Seq<char>, j: int) -> Option<(int, int)>
    decreases j,
{
    if j <= 0 || j > s.len() {
        None
    } else if s[j - 1] == '/' {
        file_name_below(s, j - 1)
    } else {
        let k = match rfind_char_below(s, '/', j) {
            Some(i) => i + 1,
            None => 0,
        };
        proof {
            lemma_rfind_char_bound(s, '/', j);
        }
        if k < j && s.subrange(k, j) == seq!['.'] {
            file_name_below(s, k)
        } else if s.subrange(k, j) == seq!['.', '.'] {
            None
        } else {
            Some((k, j))
        }
    }
}

/// `Path::file_name` of a `/`-separated path.
pub open spec fn file_name(s: Seq<char>) -> Option<Seq<char>> {
    match file_name_below(s, s.len() as int) {
        Some((k, j)) => Some(s.subrange(k, j)),
        None => None,
    }
}

/// `Path::join`: an absolute `b` replaces `a`, otherwise `b` is appended
/// with one separator.
pub open spec fn join_path(a: Seq<char>, b: Seq<char>) -> Seq<char> {
    if b.len() > 0 && b[0] == '/' {
        b
    } else if a.len() == 0 {
        b
    } else if a[a.len() - 1] == '/' {
        a + b
    } else {
        a + seq!['/'] + b
    }
}

proof fn lemma_file_name_range(s: Seq<char>, j: int)
    ensures
        file_name_below(s, j) matches Some((k, e)) ==> 0 <= k <= e <= s.len() && e <= j,
    decreases j,
{
    if j <= 0 || j > s.len() {
    } else if s[j - 1] == '/' {
        lemma_file_name_range(s, j - 1);
    } else {
        lemma_rfind_char_bound(s, '/', j);
        let k = match rfind_char_below(s, '/', j) {
            Some(i) => i + 1,
            None => 0,
        };
        if k < j && s.subrange(k, j) == seq!['.'] {
            lemma_file_name_range(s, k);
        }
    }
}

/// `Path::file_name` as a range of `v`.
pub fn file_name_exec(v: &Vec<char>) -> (r: Option<(usize, usize)>)
    ensures
        match r {
            Some((lo, hi)) => lo <= hi <= v.len() && file_name_below(v@, v.len() as int) == Some(
                (lo as int, hi as int),
            ),
            None => file_name_below(v@, v.len() as int) is None,
        },
{
    let mut j: usize = v.len();
    loop
        invariant
            j <= v.len(),
            file_name_below(v@, v.len() as int) == file_name_below(v@, j as int),
        decreases j,
    {
        if j == 0 {
            return None;
        }
        if v[j - 1] == '/' {
            j -= 1;
            continue ;
        }
        let k = match rfind_before(v, '/', j) {
            Some(i) => i + 1,
            None => 0,
        };
        proof {
            lemma_rfind_char_bound(v@, '/', j as int);
        }
        if j - k == 1 && v[k] == '.' {
            assert(v@.subrange(k as int, j as int) == seq!['.']);
            j = k;
            continue ;
        }
        if j - k == 2 && v[k] == '.' && v[k + 1] == '.' {
            assert(v@.subrange(k as int, j as int) == seq!['.', '.']);
            return None;
        }
        assert(v@.subrange(k as int, j as int) != seq!['.']) by {
            if k + 1 != j {
                assert(v@.subrange(k as int, j as int).len() != 1);
            } else {
                assert(v@.subrange(k as int, j as int)[0] == v@[k as int]);
            }
        }
        assert(v@.subrange(k as int, j as int) != seq!['.', '.']) by {
            if k + 2 != j {
                assert(v@.subrange(k as int, j as int).len() != 2);
            } else {
                assert(v@.subrange(k as int, j as int)[0] == v@[k as int]);
                assert(v@.subrange(k as int, j as int)[1] == v@[k + 1]);
            }
        }
        return Some((k, j));
    }
}

/// Last index below `j` holding `c`.
fn rfind_before(v: &Vec<char>, c: char, j: usize) -> (r: Option<usize>)
    requires
        j <= v.len(),
    ensures
        match r {
            Some(i) => rfind_char_below(v@, c, j as int) == Some(i as int) && i < j,
            None => rfind_char_below(v@, c, j as int) is None,
        },
{
    let mut k: usize = j;
    while k > 0
        invariant
            k <= j <= v.len(),
            rfind_char_below(v@, c, j as int) == rfind_char_below(v@, c, k as int),
        decreases k,
    {
        if v[k - 1] == c {
            return Some(k - 1);
        }
        k -= 1;
    }
    None
}

/// The last component of `path`, if it has a normal one.
pub fn path_file_name(path: &str) -> (r: Option<String>)
    ensures
        match r {
            Some(n) => file_name(path@) == Some(n@),
            None => file_name(path@) is None,
        },
{
    let v = chars_of(path);
    match file_name_exec(&v) {
        Some((lo, hi)) => Some(string_of(&v, lo, hi)),
        None => None,
    }
}

/// `Path::join` on strings.
pub fn join(a: &str, b: &str) -> (r: String)
    ensures
        r@ == join_path(a@, b@),
{
    let av = chars_of(a);
    let bv = chars_of(b);
    if bv.len() > 0 && bv[0] == '/' {
        return string_of_all(&bv);
    }
    if av.len() == 0 {
        return string_of_all(&bv);
    }
    let mut out = string_of_all(&av);
    if av[av.len() - 1] != '/' {
        push_char(&mut out, '/');
    }
    out.append(b);
    out
}

/// The user's home directory: `$HOME`, else `%USERPROFILE%` (the caller
/// reads both variables).
pub fn home_dir(home: Option<&str>, user_profile: Option<&str>) -> (r: Option<String>)
    ensures
        match home {
            Some(h) => r is Some && r.unwrap()@ == h@,
            None => match user_profile {
                Some(u) => r is Some && r.unwrap()@ == u@,
                None => r is None,
            },
        },
{
    match home {
        Some(h) => Some(String::from_str(h)),
        None => match user_profile {
            Some(u) => Some(String::from_str(u)),
            None => None,
        },
    }
}

/// The global agent config directory (`<home>/.pi/agent`), given the
/// user's home directory.
pub fn agent_dir(home: Option<&str>) -> (r: Option<String>)
    ensures
        match home {
            Some(h) => r is Some && r.unwrap()@ == join_path(join_path(h@, ".pi"@), "agent"@),
            None => r is None,
        },
{
    match home {
        Some(h) => {
            let pi = join(h, CONFIG_DIR_NAME);
            Some(join(pi.as_str(), "agent"))
        },
        None => None,
    }
}

/// The global agent config directory, falling back to `.pi/agent` when
/// no home directory is known.
pub fn agent_dir_or_default(home: Option<&str>) -> (r: String)
    ensures
        match home {
            Some(h) => r@ == join_path(join_path(h@, ".pi"@), "agent"@),
            None => r@ == join_path(".pi"@, "agent"@),
        },
{
    match agent_dir(home) {
        Some(d) => d,
        None => join(CONFIG_DIR_NAME, "agent"),
    }
}

/// Expand a leading `~` / `~/` to the home directory, falling back to
/// `base` when no home directory is known.
pub open spec fn expand_tilde_spec(path: Seq<char>, base: Seq<char>, home: Option<Seq<char>>) -> Seq<
    char,
> {
    if path == seq!['~'] {
        match home {
            Some(h) => h,
            None => base,
        }
    } else if starts_with(path, seq!['~', '/']) {
        let rest = path.skip(2);
        match home {
            Some(h) => join_path(h, rest),
            None => join_path(base, rest),
        }
    } else {
        path
    }
}

/// Expand a leading `~` / `~/`.
pub fn expand_tilde(path: &str, base: &str, home: Option<&str>) -> (r: String)
    ensures
        r@ == expand_tilde_spec(
            path@,
            base@,
            match home {
                Some(h) => Some(h@),
                None => None,
            },
        ),
{
    let v = chars_of(path);
    if v.len() == 1 && v[0] == '~' {
        assert(v@ == seq!['~']);
        return match home {
            Some(h) => String::from_str(h),
            None => String::from_str(base),
        };
    }
    assert(v@ != seq!['~'] || (v.len() == 1 && v[0] == '~'));
    if v.len() >= 2 && v[0] == '~' && v[1] == '/' {
        assert(v@.subrange(0, 2) == seq!['~', '/']);
        let rest = string_of(&v, 2, v.len());
        return match home {
            Some(h) => join(h, rest.as_str()),
            None => join(base, rest.as_str()),
        };
    }
    assert(!starts_with(v@, seq!['~', '/'])) by {
        if starts_with(v@, seq!['~', '/']) {
            assert(v@.subrange(0, 2)[0] == v@[0]);
            assert(v@.subrange(0, 2)[1] == v@[1]);
        }
    }
    String::from_str(path)
}

/// `content` without a leading UTF-8 byte-order mark.
pub fn strip_bom(content: &str) -> (r: &str)
    ensures
        r@ == if content@.len() > 0 && content@[0] == '\u{feff}' {
            content@.skip(1)
        } else {
            content@
        },
{
    let n = content.unicode_len();
    if n > 0 && content.get_char(0) == '\u{feff}' {
        content.substring_char(1, n)
    } else {
        content
    }
}

// ---------------------------------------------------------------------------
// Lexical normalisation
// ---------------------------------------------------------------------------

/// The component list after one `/`-separated piece: empty pieces and `.`
/// vanish, `..` drops the last component (or is kept when there is none
/// to drop, as `PathBuf::pop` refuses on an empty path).
pub open spec fn apply_piece(comps: Seq<Seq<char>>, piece: Seq<char>) -> Seq<Seq<char>> {
    if piece.len() == 0 || piece == seq!['.'] {
        comps
    } else if piece == seq!['.', '.'] {
        if comps.len() > 0 {
            comps.drop_last()
        } else {
            comps.push(piece)
        }
    } else {
        comps.push(piece)
    }
}

/// Left-to-right walk over the characters: the components so far and the
/// piece being read.
pub open spec fn walk_path(s: Seq<char>) -> (Seq<Seq<char>>, Seq<char>)
    decreases s.len(),
{
    if s.len() == 0 {
        (Seq::empty(), Seq::empty())
    } else {
        let (c, p) = walk_path(s.drop_last());
        if s.last() == '/' {
            (apply_piece(c, p), Seq::empty())
        } else {
            (c, p.push(s.last()))
        }
    }
}

/// The components `normalize_lexically` keeps.
pub open spec fn kept_components(s: Seq<char>) -> Seq<Seq<char>> {
    apply_piece(walk_path(s).0, walk_path(s).1)
}

/// Collapse `.` / `..` components without touching the filesystem.
pub open spec fn normalize_spec(s: Seq<char>) -> Seq<char> {
    (if s.len() > 0 && s[0] == '/' {
        seq!['/']
    } else {
        Seq::empty()
    }) + crate::text::join_spec(kept_components(s), seq!['/'])
}

/// `normalize_lexically` on the joined path.
pub open spec fn resolve_spec(base: Seq<char>, path: Seq<char>) -> Seq<char> {
    if path.len() > 0 && path[0] == '/' {
        normalize_spec(path)
    } else {
        normalize_spec(join_path(base, path))
    }
}

/// One piece applied to a vector of components.
fn apply_piece_exec(comps: &mut Vec<String>, piece: &Vec<char>)
    ensures
        strs(final(comps)@) == apply_piece(strs(old(comps)@), piece@),
{
    if piece.len() == 0 || (piece.len() == 1 && piece[0] == '.') {
        assert(piece.len() == 1 ==> piece@ =~= seq!['.']);
        return;
    }
    assert(piece@ != seq!['.']) by {
        if piece@ == seq!['.'] {
            assert(piece@.len() == 1 && piece@[0] == '.');
        }
    }
    if piece.len() == 2 && piece[0] == '.' && piece[1] == '.' {
        assert(piece@ =~= seq!['.', '.']);
        if comps.len() > 0 {
            let ghost before = comps@;
            comps.pop();
            assert(strs(comps@) =~= strs(before).drop_last());
        } else {
            let ghost before = comps@;
            let p = string_of_all(piece);
            comps.push(p);
            proof {
                lemma_strs_push(before, p);
            }
        }
        return;
    }
    assert(piece@ != seq!['.', '.']) by {
        if piece@ == seq!['.', '.'] {
            assert(piece@.len() == 2 && piece@[0] == '.' && piece@[1] == '.');
        }
    }
    let ghost before = comps@;
    let p = string_of_all(piece);
    comps.push(p);
    proof {
        lemma_strs_push(before, p);
    }
}

/// Collapse `.` / `..` components without touching the filesystem.
pub fn normalize_lexically(path: &str) -> (r: String)
    ensures
        r@ == normalize_spec(path@),
{
    let v = chars_of(path);
    let mut comps: Vec<String> = Vec::new();
    let mut piece: Vec<char> = Vec::new();
    let mut i: usize = 0;
    assert(strs(comps@) =~= Seq::<Seq<char>>::empty());
    while i < v.len()
        invariant
            i <= v.len(),
            (strs(comps@), piece@) == walk_path(v@.take(i as int)),
        decreases v.len() - i,
    {
        assert(v@.take(i + 1).drop_last() =~= v@.take(i as int));
        assert(v@.take(i + 1).last() == v@[i as int]);
        if v[i] == '/' {
            apply_piece_exec(&mut comps, &piece);
            piece = Vec::new();
            assert(piece@ =~= Seq::<char>::empty());
        } else {
            piece.push(v[i]);
        }
        i += 1;
    }
    assert(v@.take(v.len() as int) =~= v@);
    apply_piece_exec(&mut comps, &piece);
    let mut out = String::new();
    if v.len() > 0 && v[0] == '/' {
        push_char(&mut out, '/');
    }
    let body = join_strings(comps.as_slice(), "/");
    proof {
        reveal_strlit("/");
    }
    assert("/"@ =~= seq!['/']);
    out.append(body.as_str());
    assert(out@ =~= normalize_spec(path@));
    out
}

/// Resolve `path` against `base` when relative, then normalise it
/// lexically.
pub fn resolve_against(base: &str, path: &str) -> (r: String)
    ensures
        r@ == resolve_spec(base@, path@),
{
    let v = chars_of(path);
    if v.len() > 0 && v[0] == '/' {
        normalize_lexically(path)
    } else {
        let joined = join(base, path);
        normalize_lexically(joined.as_str())
    }
}

/// A component list as `normalize_lexically` leaves it: no empty or `.`
/// component, and `..` only as the very first one.
pub open spec fn is_normal_form(comps: Seq<Seq<char>>) -> bool {
    forall|i: int|
        0 <= i < comps.len() ==> (#[trigger] comps[i]).len() > 0 && comps[i] != seq!['.'] && (i
            > 0 ==> comps[i] != seq!['.', '.'])
}

proof fn lemma_apply_piece_normal(comps: Seq<Seq<char>>, piece: Seq<char>)
    requires
        is_normal_form(comps),
    ensures
        is_normal_form(apply_piece(comps, piece)),
{
    let r = apply_piece(comps, piece);
    assert forall|i: int| 0 <= i < r.len() implies (#[trigger] r[i]).len() > 0 && r[i] != seq![
        '.',
    ] && (i > 0 ==> r[i] != seq!['.', '.']) by {
        if i < comps.len() {
            assert(r[i] == comps[i]);
        }
    }
}

proof fn lemma_walk_normal(s: Seq<char>)
    ensures
        is_normal_form(walk_path(s).0),
    decreases s.len(),
{
    if s.len() > 0 {
        lemma_walk_normal(s.drop_last());
        let (c, p) = walk_path(s.drop_last());
        lemma_apply_piece_normal(c, p);
    }
}

/// After normalisation no component is empty or `.`, and `..` can only
/// remain as the first one.
pub proof fn law_normalized_components(s: Seq<char>)
    ensures
        is_normal_form(kept_components(s)),
{
    lemma_walk_normal(s);
    lemma_apply_piece_normal(walk_path(s).0, walk_path(s).1);
}

/// Whether a piece holds no separator.
pub open spec fn slash_free(p: Seq<char>) -> bool {
    forall|i: int| 0 <= i < p.len() ==> p[i] != '/'
}

proof fn lemma_walk_slash_free(s: Seq<char>)
    ensures
        slash_free(walk_path(s).1),
        forall|i: int| 0 <= i < walk_path(s).0.len() ==> slash_free(#[trigger] walk_path(s).0[i]),
    decreases s.len(),
{
    if s.len() > 0 {
        lemma_walk_slash_free(s.drop_last());
        let (c, p) = walk_path(s.drop_last());
        if s.last() == '/' {
            let r = apply_piece(c, p);
            assert forall|i: int| 0 <= i < r.len() implies slash_free(#[trigger] r[i]) by {
                if i < c.len() {
                    assert(r[i] == c[i]);
                }
            }
        } else {
            let q = p.push(s.last());
            assert forall|i: int| 0 <= i < q.len() implies q[i] != '/' by {
                if i < p.len() {
                    assert(q[i] == p[i]);
                }
            }
        }
    }
}

/// Reading a separator ends the piece being read.
proof fn lemma_walk_slash(s: Seq<char>)
    ensures
        walk_path(s.push('/')) == (apply_piece(walk_path(s).0, walk_path(s).1), Seq::<char>::empty()),
{
    assert(s.push('/').drop_last() =~= s);
}

/// Reading separator-free text extends the piece being read.
proof fn lemma_walk_text(s: Seq<char>, w: Seq<char>)
    requires
        slash_free(w),
    ensures
        walk_path(s + w) == (walk_path(s).0, walk_path(s).1 + w),
    decreases w.len(),
{
    if w.len() == 0 {
        assert(s + w =~= s);
        assert(walk_path(s).1 + w =~= walk_path(s).1);
    } else {
        let x = s + w;
        assert(x.drop_last() =~= s + w.drop_last());
        lemma_walk_text(s, w.drop_last());
        assert(x.last() == w[w.len() - 1]);
        assert((walk_path(s).1 + w.drop_last()).push(w.last()) =~= walk_path(s).1 + w);
    }
}

/// Nothing, or a lone root marker, leaves no component and no piece.
proof fn lemma_walk_prefix(prefix: Seq<char>)
    requires
        prefix == Seq::<char>::empty() || prefix == seq!['/'],
    ensures
        walk_path(prefix) == (Seq::<Seq<char>>::empty(), Seq::<char>::empty()),
{
    let e = Seq::<char>::empty();
    assert(walk_path(e) == (Seq::<Seq<char>>::empty(), e));
    if prefix.len() == 1 {
        assert(prefix =~= e.push('/'));
        lemma_walk_slash(e);
        assert(apply_piece(Seq::<Seq<char>>::empty(), e) == Seq::<Seq<char>>::empty());
    } else {
        assert(prefix =~= e);
    }
}

/// A component list in normal form whose components hold no separator.
pub open spec fn clean_components(comps: Seq<Seq<char>>) -> bool {
    is_normal_form(comps) && forall|i: int| 0 <= i < comps.len() ==> slash_free(#[trigger] comps[i])
}

/// Pushing the next component of a clean list onto its prefix is what
/// `apply_piece` does.
proof fn lemma_apply_next(comps: Seq<Seq<char>>, k: int)
    requires
        clean_components(comps),
        0 <= k < comps.len(),
    ensures
        apply_piece(comps.take(k), comps[k]) == comps.take(k + 1),
{
    assert(comps[k].len() > 0 && comps[k] != seq!['.']);
    if comps[k] == seq!['.', '.'] {
        assert(k == 0);
    }
    assert(comps.take(k).push(comps[k]) =~= comps.take(k + 1));
}

/// Walking a root marker (or nothing) followed by the first `n` clean
/// components joined with `/` leaves the first `n - 1` components and the
/// `n`-th one being read.
proof fn lemma_walk_joined(prefix: Seq<char>, comps: Seq<Seq<char>>, n: int)
    requires
        prefix == Seq::<char>::empty() || prefix == seq!['/'],
        clean_components(comps),
        1 <= n <= comps.len(),
    ensures
        walk_path(prefix + crate::text::join_spec(comps.take(n), seq!['/'])) == (comps.take(n - 1), comps[n - 1]),
    decreases n,
{
    lemma_walk_prefix(prefix);
    if n == 1 {
        assert(comps.take(1).len() == 1);
        assert(crate::text::join_spec(comps.take(1), seq!['/']) == comps[0]);
        lemma_walk_text(prefix, comps[0]);
        assert(Seq::<char>::empty() + comps[0] =~= comps[0]);
        assert(comps.take(0) =~= Seq::<Seq<char>>::empty());
    } else {
        lemma_walk_joined(prefix, comps, n - 1);
        let q = prefix + crate::text::join_spec(comps.take(n - 1), seq!['/']);
        assert(comps.take(n).drop_last() =~= comps.take(n - 1));
        assert(comps.take(n).last() == comps[n - 1]);
        assert(prefix + crate::text::join_spec(comps.take(n), seq!['/']) =~= q.push('/') + comps[n - 1]);
        lemma_walk_slash(q);
        lemma_apply_next(comps, n - 2);
        assert(comps.take(n - 2 + 1) =~= comps.take(n - 1));
        lemma_walk_text(q.push('/'), comps[n - 1]);
        assert(Seq::<char>::empty() + comps[n - 1] =~= comps[n - 1]);
    }
}

/// Normalising the joined text of clean components gives them back.
proof fn lemma_kept_of_joined(prefix: Seq<char>, comps: Seq<Seq<char>>)
    requires
        prefix == Seq::<char>::empty() || prefix == seq!['/'],
        clean_components(comps),
    ensures
        kept_components(prefix + crate::text::join_spec(comps, seq!['/'])) == comps,
{
    let n = comps.len() as int;
    if n == 0 {
        assert(prefix + crate::text::join_spec(comps, seq!['/']) =~= prefix);
        lemma_walk_prefix(prefix);
        assert(comps =~= Seq::<Seq<char>>::empty());
    } else {
        assert(comps.take(n) =~= comps);
        lemma_walk_joined(prefix, comps, n);
        lemma_apply_next(comps, n - 1);
    }
}

/// The joined text of lines whose first line is not empty starts with
/// that line's first character.
proof fn lemma_join_first(lines: Seq<Seq<char>>, sep: Seq<char>)
    requires
        lines.len() > 0,
        lines[0].len() > 0,
    ensures
        crate::text::join_spec(lines, sep).len() > 0,
        crate::text::join_spec(lines, sep)[0] == lines[0][0],
    decreases lines.len(),
{
    if lines.len() > 1 {
        assert(lines.drop_last()[0] == lines[0]);
        lemma_join_first(lines.drop_last(), sep);
    }
}

/// Lexical normalisation is idempotent, and what it keeps holds no `.`
/// component: normalising a normalised path changes nothing.
pub proof fn law_normalize_is_idempotent(s: Seq<char>)
    ensures
        normalize_spec(normalize_spec(s)) == normalize_spec(s),
        kept_components(normalize_spec(s)) == kept_components(s),
        forall|i: int| 0 <= i < kept_components(s).len() ==> #[trigger] kept_components(s)[i] != seq!['.'],
{
    let comps = kept_components(s);
    law_normalized_components(s);
    lemma_walk_slash_free(s);
    let (c, p) = walk_path(s);
    assert forall|i: int| 0 <= i < comps.len() implies slash_free(#[trigger] comps[i]) by {
        if i < c.len() {
            assert(comps[i] == c[i]);
        }
    }
    let prefix = if s.len() > 0 && s[0] == '/' { seq!['/'] } else { Seq::<char>::empty() };
    let n = normalize_spec(s);
    assert(n == prefix + crate::text::join_spec(comps, seq!['/']));
    lemma_kept_of_joined(prefix, comps);
    if prefix.len() == 1 {
        assert(n[0] == '/');
    } else if comps.len() > 0 {
        lemma_join_first(comps, seq!['/']);
        assert(n =~= crate::text::join_spec(comps, seq!['/']));
        assert(comps[0][0] != '/');
    } else {
        assert(n =~= Seq::<char>::empty());
    }
}

/// End of `s[..k]` once trailing separators are dropped.
pub open spec fn trim_slash_end(s: Seq<char>, k: int) -> int
    decreases k,
{
    if k <= 0 || k > s.len() {
        0
    } else if s[k - 1] == '/' {
        trim_slash_end(s, k - 1)
    } else {
        k
    }
}

/// `Path::parent` for a path whose last component is a normal name: the
/// text before that name with its trailing separators dropped (`/` for a
/// name right under the root, empty for a bare name).
pub open spec fn parent_spec(s: Seq<char>) -> Option<Seq<char>> {
    match file_name_below(s, s.len() as int) {
        None => None,
        Some((k, _)) => {
            let e = trim_slash_end(s, k);
            if e == 0 && k > 0 {
                Some(seq!['/'])
            } else {
                Some(s.subrange(0, e))
            }
        },
    }
}

proof fn lemma_trim_slash_end(s: Seq<char>, k: int)
    requires
        0 <= k <= s.len(),
    ensures
        0 <= trim_slash_end(s, k) <= k,
    decreases k,
{
    if k > 0 && s[k - 1] == '/' {
        lemma_trim_slash_end(s, k - 1);
    }
}

/// The parent directory of `path` (see [`parent_spec`]).
pub fn path_parent(path: &str) -> (r: Option<String>)
    ensures
        match r {
            Some(p) => parent_spec(path@) == Some(p@),
            None => parent_spec(path@) is None,
        },
{
    let v = chars_of(path);
    match file_name_exec(&v) {
        None => None,
        Some((k, _)) => {
            let mut e = k;
            while e > 0 && v[e - 1] == '/'
                invariant
                    e <= k <= v.len(),
                    trim_slash_end(v@, e as int) == trim_slash_end(v@, k as int),
                decreases e,
            {
                e -= 1;
            }
            proof {
                lemma_trim_slash_end(v@, k as int);
            }
            if e == 0 && k > 0 {
                let mut out = String::new();
                push_char(&mut out, '/');
                assert(out@ =~= seq!['/']);
                Some(out)
            } else {
                Some(string_of(&v, 0, e))
            }
        },
    }
}

// ---------------------------------------------------------------------------
// Explicit resource paths
// ---------------------------------------------------------------------------

/// What an explicitly named resource path turned out to be on disk.
#[derive(Debug, Clone, Copy, PartialEq, Eq, Structural)]
pub enum PathKind {
    /// Nothing exists there.
    Missing,
    /// It exists but its metadata could not be read.
    Unreadable,
    /// A directory.
    Directory,
    /// A regular file.
    File,
    /// Something else (a socket, a fifo, ...).
    Other,
}

/// Where an explicitly named resource path points: a leading `~` expanded
/// (against `cwd` when there is no home directory), then resolved against
/// the process's working directory and normalised.
pub open spec fn explicit_path_spec(raw: Seq<char>, cwd: Seq<char>, current_dir: Seq<char>, home: Option<Seq<char>>) -> Seq<char> {
    resolve_spec(current_dir, expand_tilde_spec(raw, cwd, home))
}

/// Resolve an explicitly named resource path (see [`explicit_path_spec`]).
pub fn explicit_path(raw: &str, cwd: &str, current_dir: &str, home: Option<&str>) -> (r: String)
    ensures
        r@ == explicit_path_spec(
            raw@,
            cwd@,
            current_dir@,
            match home {
                Some(h) => Some(h@),
                None => None,
            },
        ),
{
    let expanded = expand_tilde(raw, cwd, home);
    resolve_against(current_dir, expanded.as_str())
}

/// What to do with one explicitly named resource path.
#[derive(Debug, Clone, PartialEq, Eq)]
pub enum PathAction {
    /// Scan it as a skills directory.
    ScanDirectory,
    /// Load it as one skill file.
    LoadFile,
    /// Report this warning and go on.
    Warn(String),
}

/// `Path::extension` is `md`: a name with a non-empty stem before `.md`.
pub open spec fn has_md_extension(path: Seq<char>) -> bool {
    match file_name(path) {
        Some(n) => n.len() >= 4 && crate::text::ends_with(n, ".md"@),
        None => false,
    }
}

/// `Path::file_stem`: the file name without its extension (a leading dot
/// does not start an extension).
pub open spec fn file_stem(s: Seq<char>) -> Option<Seq<char>> {
    match file_name(s) {
        None => None,
        Some(n) => match crate::text::rfind_char(n, '.') {
            Some(p) => if p == 0 {
                Some(n)
            } else {
                Some(n.subrange(0, p))
            },
            None => Some(n),
        },
    }
}

/// The file stem of `path`, if it has a file name.
pub fn path_file_stem(path: &str) -> (r: Option<String>)
    ensures
        match r {
            Some(n) => file_stem(path@) == Some(n@),
            None => file_stem(path@) is None,
        },
{
    let name = match path_file_name(path) {
        Some(n) => n,
        None => {
            return None;
        },
    };
    let v = chars_of(name.as_str());
    match crate::text::rfind_char_exec(&v, '.') {
        Some(p) => if p == 0 {
            Some(name)
        } else {
            Some(string_of(&v, 0, p))
        },
        None => Some(name),
    }
}

/// Whether `path` has the extension `md`.
pub fn is_md_path(path: &str) -> (r: bool)
    ensures
        r == has_md_extension(path@),
{
    match path_file_name(path) {
        Some(n) => {
            let v = chars_of(n.as_str());
            v.len() >= 4 && crate::text::ends_with_lit(&v, ".md")
        },
        None => false,
    }
}

/// `Path::with_extension`: the path cut after the file stem, then `.ext`;
/// the path itself when it has no file name.
pub open spec fn with_extension_spec(path: Seq<char>, ext: Seq<char>) -> Seq<char> {
    match file_name_below(path, path.len() as int) {
        Some((k, j)) => {
            let n = path.subrange(k, j);
            let stem_end = match crate::text::rfind_char(n, '.') {
                Some(p) => if p == 0 {
                    j
                } else {
                    k + p
                },
                None => j,
            };
            path.subrange(0, stem_end) + "."@ + ext
        },
        None => path,
    }
}

/// `path` with its extension replaced by (or extended with) `ext`.
pub fn with_extension(path: &str, ext: &str) -> (r: String)
    ensures
        r@ == with_extension_spec(path@, ext@),
{
    let v = chars_of(path);
    match file_name_exec(&v) {
        Some((k, j)) => {
            let n = crate::text::sub_vec(&v, k, j);
            let stem_end = match crate::text::rfind_char_exec(&n, '.') {
                Some(p) => if p == 0 {
                    j
                } else {
                    k + p
                },
                None => j,
            };
            let mut out = string_of(&v, 0, stem_end);
            crate::text::push_str(&mut out, ".");
            out.append(ext);
            out
        },
        None => path.to_string(),
    }
}

} // verus!
