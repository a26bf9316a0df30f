//! Prompt templates: markdown files invoked from the prompt line as
//! `/<name> [args]`. Invoking one expands to the file body with the
//! arguments substituted bash-style.
//!
//! The placeholder grammar (`$1`, `$@`, `$ARGUMENTS`, `${N:-default}`,
//! `${@:-default}`, `${@:N}`, `${@:N:L}`) is stated here character by
//! character and the scanner is proved against it; the one thing taken
//! from the `regex` crate is its Unicode digit class.
use vstd::prelude::*;

use crate::paths::{PathAction, PathKind};
use crate::text::{
    chars_of, find_char_from, is_ws, is_whitespace, join_spec, join_strings, lemma_strs_push,
    occurs_at, occurs_at_exec, push_char, push_str, strs, trim,
};

verus! {

// ---------------------------------------------------------------------------
// Argument splitting
// ---------------------------------------------------------------------------

/// State of the argument splitter: finished arguments, the one being
/// read, and the open quote.
pub open spec fn split_step(
    st: (Seq<Seq<char>>, Seq<char>, Option<char>),
    c: char,
) -> (Seq<Seq<char>>, Seq<char>, Option<char>) {
    let (args, cur, quote) = st;
    match quote {
        Some(q) => if c == q {
            (args, cur, None)
        } else {
            (args, cur.push(c), quote)
        },
        None => if c == '"' || c == '\'' {
            (args, cur, Some(c))
        } else if is_ws(c) {
            if cur.len() > 0 {
                (args.push(cur), Seq::empty(), None)
            } else {
                st
            }
        } else {
            (args, cur.push(c), None)
        },
    }
}

/// The splitter's state after reading `s`.
pub open spec fn split_walk(s: Seq<char>) -> (Seq<Seq<char>>, Seq<char>, Option<char>)
    decreases s.len(),
{
    if s.len() == 0 {
        (Seq::empty(), Seq::empty(), None)
    } else {
        split_step(split_walk(s.drop_last()), s.last())
    }
}

/// `parseCommandArgs`: whitespace separates arguments, `'` and `"` group
/// them, quote characters are dropped.
pub open spec fn command_args_spec(s: Seq<char>) -> Seq<Seq<char>> {
    let (args, cur, _) = split_walk(s);
    if cur.len() > 0 {
        args.push(cur)
    } else {
        args
    }
}

/// Split a command argument string into arguments, respecting quotes.
pub fn parse_command_args(args_string: &str) -> (r: Vec<String>)
    ensures
        strs(r@) == command_args_spec(args_string@),
{
    let v = chars_of(args_string);
    let mut args: Vec<String> = Vec::new();
    let mut current = String::new();
    let mut quote: Option<char> = None;
    let mut i: usize = 0;
    assert(strs(args@) =~= Seq::<Seq<char>>::empty());
    while i < v.len()
        invariant
            i <= v.len(),
            (strs(args@), current@, quote) == split_walk(v@.take(i as int)),
        decreases v.len() - i,
    {
        let ch = v[i];
        assert(v@.take(i + 1).drop_last() =~= v@.take(i as int));
        assert(v@.take(i + 1).last() == ch);
        match quote {
            Some(open) => {
                if ch == open {
                    quote = None;
                } else {
                    push_char(&mut current, ch);
                }
            },
            None => {
                if ch == '"' || ch == '\'' {
                    quote = Some(ch);
                } else if is_whitespace(ch) {
                    if current.unicode_len() > 0 {
                        let ghost before = args@;
                        let done = current;
                        args.push(done);
                        proof {
                            lemma_strs_push(before, done);
                        }
                        current = String::new();
                    }
                } else {
                    push_char(&mut current, ch);
                }
            },
        }
        i += 1;
    }
    assert(v@.take(v.len() as int) =~= v@);
    if current.unicode_len() > 0 {
        let ghost before = args@;
        let done = current;
        args.push(done);
        proof {
            lemma_strs_push(before, done);
        }
    }
    args
}

/// The splitter never keeps an empty argument.
pub open spec fn no_empty_args(args: Seq<Seq<char>>) -> bool {
    forall|i: int| 0 <= i < args.len() ==> (#[trigger] args[i]).len() > 0
}

proof fn lemma_split_walk_no_empty(s: Seq<char>)
    ensures
        no_empty_args(split_walk(s).0),
    decreases s.len(),
{
    if s.len() > 0 {
        lemma_split_walk_no_empty(s.drop_last());
        let st = split_walk(s.drop_last());
        let r = split_step(st, s.last());
        assert forall|i: int| 0 <= i < r.0.len() implies (#[trigger] r.0[i]).len() > 0 by {
            if i < st.0.len() {
                assert(r.0[i] == st.0[i]);
            }
        }
    }
}

/// Every argument the splitter returns is non-empty.
pub proof fn law_command_args_are_never_empty(s: Seq<char>)
    ensures
        no_empty_args(command_args_spec(s)),
{
    lemma_split_walk_no_empty(s);
    let (args, cur, _) = split_walk(s);
    if cur.len() > 0 {
        assert forall|i: int| 0 <= i < args.push(cur).len() implies (#[trigger] args.push(
            cur,
        )[i]).len() > 0 by {
            if i < args.len() {
                assert(args.push(cur)[i] == args[i]);
            }
        }
    }
}

/// Reading an opening `"` and then text without `"` keeps that text, still
/// inside the quote, whatever else it holds.
proof fn lemma_inside_double_quotes(s: Seq<char>, k: int)
    requires
        0 <= k <= s.len(),
        forall|i: int| 0 <= i < s.len() ==> s[i] != '"',
    ensures
        split_walk(seq!['"'] + s.take(k)) == (Seq::<Seq<char>>::empty(), s.take(k), Some('"')),
    decreases k,
{
    let w = seq!['"'] + s.take(k);
    if k == 0 {
        assert(w =~= seq!['"']);
        assert(w.drop_last() =~= Seq::<char>::empty());
        assert(s.take(0) =~= Seq::<char>::empty());
        let e = (Seq::<Seq<char>>::empty(), Seq::<char>::empty(), None::<char>);
        assert(split_walk(w.drop_last()) == e);
        assert(w.last() == '"');
        assert(split_step(e, '"') == (Seq::<Seq<char>>::empty(), Seq::<char>::empty(), Some('"')));
    } else {
        lemma_inside_double_quotes(s, k - 1);
        assert(w.drop_last() =~= seq!['"'] + s.take(k - 1));
        assert(w.last() == s[k - 1]);
        assert(s[k - 1] != '"');
        assert(s.take(k - 1).push(s[k - 1]) =~= s.take(k));
        let st = (Seq::<Seq<char>>::empty(), s.take(k - 1), Some('"'));
        assert(split_step(st, s[k - 1]) == (Seq::<Seq<char>>::empty(), s.take(k - 1).push(s[k - 1]), Some('"')));
    }
}

/// Inside a double-quoted argument only `"` closes it: a non-empty text
/// without `"` between double quotes (spaces and `'` included) is one
/// argument, exactly that text.
pub proof fn law_double_quotes_group_one_argument(s: Seq<char>)
    requires
        s.len() > 0,
        forall|i: int| 0 <= i < s.len() ==> s[i] != '"',
    ensures
        command_args_spec(seq!['"'] + s + seq!['"']) == seq![s],
{
    let full = seq!['"'] + s + seq!['"'];
    lemma_inside_double_quotes(s, s.len() as int);
    assert(s.take(s.len() as int) =~= s);
    assert(full.drop_last() =~= seq!['"'] + s.take(s.len() as int));
    assert(full.last() == '"');
    assert(split_walk(full) == (Seq::<Seq<char>>::empty(), s, None::<char>));
    assert(Seq::<Seq<char>>::empty().push(s) =~= seq![s]);
}

// ---------------------------------------------------------------------------
// The placeholder grammar
// ---------------------------------------------------------------------------

/// Whether `c` is in the `regex` crate's `\d` class (`\p{Nd}`).
pub uninterp spec fn regex_digit(c: char) -> bool;

/// Whether the `regex` crate's `\d` class matches `c`.
///
/// Calls `regex::Regex::is_match` with the pattern `^\d$` on the
/// one-character string holding `c`. The contract claims the answer is
/// the named class, and that among ASCII characters the class holds
/// exactly `0`-`9` (the crate documents `\d` as `\p{Nd}`).
#[verifier::external_body]
fn is_regex_digit(c: char) -> (r: bool)
    ensures
        r == regex_digit(c),
        (c as u32) < 128 ==> (r <==> ('0' <= c && c <= '9')),
{
    let mut buf = [0u8; 4];
    match regex::Regex::new(r"^\d$") {
        Ok(re) => re.is_match(c.encode_utf8(&mut buf)),
        Err(_) => false,
    }
}

/// End of the maximal run of `\d` characters starting at `k`.
pub open spec fn digits_end(s: Seq<char>, k: int) -> int
    decreases s.len() - k,
{
    if k < 0 || k >= s.len() || !regex_digit(s[k]) {
        k
    } else {
        digits_end(s, k + 1)
    }
}

/// An ASCII decimal digit.
pub open spec fn is_ascii_digit(c: char) -> bool {
    '0' <= c && c <= '9'
}

/// The value of a run of ASCII digits.
pub open spec fn decimal_value(d: Seq<char>) -> nat
    decreases d.len(),
{
    if d.len() == 0 {
        0
    } else {
        decimal_value(d.drop_last()) * 10 + ((d.last() as int) - ('0' as int)) as nat
    }
}

/// `str::parse::<usize>` on a digit run: only ASCII digits parse, and the
/// value must fit.
pub open spec fn parse_usize_spec(d: Seq<char>) -> Option<nat> {
    if d.len() > 0 && (forall|i: int| 0 <= i < d.len() ==> is_ascii_digit(#[trigger] d[i]))
        && decimal_value(d) <= usize::MAX {
        Some(decimal_value(d))
    } else {
        None
    }
}

/// Every argument joined with single spaces.
pub open spec fn all_args_spec(args: Seq<Seq<char>>) -> Seq<char> {
    join_spec(args, seq![' '])
}

/// The 1-based positional argument named by the digits `d`.
pub open spec fn arg_at(args: Seq<Seq<char>>, d: Seq<char>) -> Option<Seq<char>> {
    match parse_usize_spec(d) {
        Some(n) => if n >= 1 && n - 1 < args.len() {
            Some(args[n - 1])
        } else {
            None
        },
        None => None,
    }
}

/// `${@:N}` / `${@:N:L}`: the arguments from the N-th on (at most L of
/// them), joined with spaces.
pub open spec fn slice_args(args: Seq<Seq<char>>, n: Seq<char>, l: Option<Seq<char>>) -> Seq<char> {
    let p = match parse_usize_spec(n) {
        Some(v) => v as int,
        None => 0,
    };
    let start0 = if p >= 1 {
        p - 1
    } else {
        0
    };
    let start = if start0 > args.len() {
        args.len() as int
    } else {
        start0
    };
    match l {
        Some(ld) => {
            let len = match parse_usize_spec(ld) {
                Some(v) => v as int,
                None => 0,
            };
            let end = if start + len > args.len() {
                args.len() as int
            } else {
                start + len
            };
            join_spec(args.subrange(start, end), seq![' '])
        },
        None => join_spec(args.subrange(start, args.len() as int), seq![' ']),
    }
}

/// `${target:-default}` at `i`: the end of the placeholder and its value.
pub open spec fn alt_default(s: Seq<char>, i: int, args: Seq<Seq<char>>) -> Option<(int, Seq<char>)> {
    if !(0 <= i && i + 2 < s.len() && s[i] == '$' && s[i + 1] == '{') {
        None
    } else {
        let t = i + 2;
        let (found, value, te) = if regex_digit(s[t]) {
            (true, arg_at(args, s.subrange(t, digits_end(s, t))), digits_end(s, t))
        } else if occurs_at(s, "ARGUMENTS"@, t) {
            (true, Some(all_args_spec(args)), t + 9)
        } else if s[t] == '@' {
            (true, Some(all_args_spec(args)), t + 1)
        } else {
            (false, None, t)
        };
        if !found || !occurs_at(s, ":-"@, te) {
            None
        } else {
            match find_char_from(s, '}', te + 2) {
                None => None,
                Some(j) => Some(
                    (
                        j + 1,
                        match value {
                            Some(v) => if v.len() > 0 {
                                v
                            } else {
                                s.subrange(te + 2, j)
                            },
                            None => s.subrange(te + 2, j),
                        },
                    ),
                ),
            }
        }
    }
}

/// `${@:N}` / `${@:N:L}` at `i`.
pub open spec fn alt_slice(s: Seq<char>, i: int, args: Seq<Seq<char>>) -> Option<(int, Seq<char>)> {
    if !(0 <= i && occurs_at(s, "${@:"@, i) && i + 4 < s.len() && regex_digit(s[i + 4])) {
        None
    } else {
        let e1 = digits_end(s, i + 4);
        let e2 = digits_end(s, e1 + 1);
        if e1 + 1 < s.len() && s[e1] == ':' && regex_digit(s[e1 + 1]) && e2 < s.len() && s[e2]
            == '}' {
            Some(
                (
                    e2 + 1,
                    slice_args(args, s.subrange(i + 4, e1), Some(s.subrange(e1 + 1, e2))),
                ),
            )
        } else if e1 < s.len() && s[e1] == '}' {
            Some((e1 + 1, slice_args(args, s.subrange(i + 4, e1), None)))
        } else {
            None
        }
    }
}

/// `$ARGUMENTS`, `$@` or `$N` at `i`.
pub open spec fn alt_simple(s: Seq<char>, i: int, args: Seq<Seq<char>>) -> Option<(int, Seq<char>)> {
    if !(0 <= i && i + 1 < s.len() && s[i] == '$') {
        None
    } else if occurs_at(s, "ARGUMENTS"@, i + 1) {
        Some((i + 10, all_args_spec(args)))
    } else if s[i + 1] == '@' {
        Some((i + 2, all_args_spec(args)))
    } else if regex_digit(s[i + 1]) {
        let e = digits_end(s, i + 1);
        Some(
            (
                e,
                match arg_at(args, s.subrange(i + 1, e)) {
                    Some(v) => v,
                    None => Seq::empty(),
                },
            ),
        )
    } else {
        None
    }
}

/// The placeholder starting at `i`, trying the three forms in order.
pub open spec fn placeholder_at(s: Seq<char>, i: int, args: Seq<Seq<char>>) -> Option<
    (int, Seq<char>),
> {
    match alt_default(s, i, args) {
        Some(m) => Some(m),
        None => match alt_slice(s, i, args) {
            Some(m) => Some(m),
            None => alt_simple(s, i, args),
        },
    }
}

/// The substituted text from `i` on. Replacement values are emitted as
/// they are: they are never scanned again.
pub open spec fn substitute_from(s: Seq<char>, i: int, args: Seq<Seq<char>>) -> Seq<char>
    decreases s.len() - i,
{
    if i < 0 || i >= s.len() {
        Seq::empty()
    } else {
        match placeholder_at(s, i, args) {
            Some((e, rep)) => if i < e <= s.len() {
                rep + substitute_from(s, e, args)
            } else {
                Seq::empty()
            },
            None => seq![s[i]] + substitute_from(s, i + 1, args),
        }
    }
}

/// The substituted template body.
pub open spec fn substitute_spec(s: Seq<char>, args: Seq<Seq<char>>) -> Seq<char> {
    substitute_from(s, 0, args)
}

// ---------------------------------------------------------------------------
// The scanner
// ---------------------------------------------------------------------------

/// End of the digit run starting at `k`.
fn digits_end_exec(v: &Vec<char>, k: usize) -> (e: usize)
    requires
        k <= v.len(),
    ensures
        e as int == digits_end(v@, k as int),
        k <= e <= v.len(),
{
    let mut e = k;
    while e < v.len()
        invariant
            k <= e <= v.len(),
            digits_end(v@, e as int) == digits_end(v@, k as int),
        ensures
            k <= e <= v.len(),
            e as int == digits_end(v@, k as int),
        decreases v.len() - e,
    {
        if !is_regex_digit(v[e]) {
            break;
        }
        e += 1;
    }
    e
}

/// The value of a run of ASCII digits never shrinks as it grows.
proof fn lemma_decimal_value_mono(d: Seq<char>, k: int)
    requires
        0 <= k <= d.len(),
    ensures
        decimal_value(d.take(k)) <= decimal_value(d),
    decreases d.len(),
{
    if k < d.len() {
        assert(d.drop_last().take(k) =~= d.take(k));
        lemma_decimal_value_mono(d.drop_last(), k);
    } else {
        assert(d.take(k) =~= d);
    }
}

/// `str::parse::<usize>` of `v[lo..hi]`.
fn parse_usize_exec(v: &Vec<char>, lo: usize, hi: usize) -> (r: Option<usize>)
    requires
        lo <= hi <= v.len(),
    ensures
        match r {
            Some(n) => parse_usize_spec(v@.subrange(lo as int, hi as int)) == Some(n as nat),
            None => parse_usize_spec(v@.subrange(lo as int, hi as int)) is None,
        },
{
    let ghost d = v@.subrange(lo as int, hi as int);
    if lo == hi {
        return None;
    }
    let mut acc: usize = 0;
    let mut k = lo;
    while k < hi
        invariant
            lo <= k <= hi <= v.len(),
            d == v@.subrange(lo as int, hi as int),
            forall|m: int| 0 <= m < k - lo ==> is_ascii_digit(#[trigger] d[m]),
            acc as nat == decimal_value(d.take(k - lo)),
        decreases hi - k,
    {
        let c = v[k];
        assert(d[k - lo] == c);
        if !('0' <= c && c <= '9') {
            assert(!is_ascii_digit(d[k - lo]));
            return None;
        }
        let digit = ((c as u32) - ('0' as u32)) as usize;
        assert(d.take(k - lo + 1).drop_last() =~= d.take(k - lo));
        assert(d.take(k - lo + 1).last() == c);
        let next = match acc.checked_mul(10) {
            Some(x) => x.checked_add(digit),
            None => None,
        };
        match next {
            Some(n) => {
                acc = n;
            },
            None => {
                proof {
                    if forall|m: int| 0 <= m < d.len() ==> is_ascii_digit(#[trigger] d[m]) {
                        lemma_decimal_value_mono(d, k - lo + 1);
                    }
                }
                return None;
            },
        }
        k += 1;
    }
    assert(d.take(hi - lo) =~= d);
    Some(acc)
}

/// `args[from..to]` joined with single spaces.
fn join_range(args: &[String], from: usize, to: usize) -> (r: String)
    requires
        from <= to <= args.len(),
    ensures
        r@ == join_spec(strs(args@).subrange(from as int, to as int), seq![' ']),
{
    let mut part: Vec<String> = Vec::new();
    let mut k = from;
    while k < to
        invariant
            from <= k <= to <= args.len(),
            strs(part@) == strs(args@).subrange(from as int, k as int),
        decreases to - k,
    {
        let ghost before = part@;
        let c = args[k].clone();
        part.push(c);
        proof {
            lemma_strs_push(before, c);
        }
        assert(strs(args@).subrange(from as int, k + 1) =~= strs(args@).subrange(
            from as int,
            k as int,
        ).push(args@[k as int]@));
        k += 1;
    }
    proof {
        reveal_strlit(" ");
    }
    assert(" "@ =~= seq![' ']);
    join_strings(part.as_slice(), " ")
}

/// The positional argument named by `v[lo..hi]`.
fn arg_at_exec(args: &[String], v: &Vec<char>, lo: usize, hi: usize) -> (r: Option<String>)
    requires
        lo <= hi <= v.len(),
    ensures
        match r {
            Some(a) => arg_at(strs(args@), v@.subrange(lo as int, hi as int)) == Some(a@),
            None => arg_at(strs(args@), v@.subrange(lo as int, hi as int)) is None,
        },
{
    match parse_usize_exec(v, lo, hi) {
        Some(n) => if n >= 1 && n - 1 < args.len() {
            Some(args[n - 1].clone())
        } else {
            None
        },
        None => None,
    }
}

/// `${@:N}` / `${@:N:L}` with N = `v[nlo..nhi]` and L = `v[l]`.
fn slice_args_exec(
    args: &[String],
    v: &Vec<char>,
    nlo: usize,
    nhi: usize,
    l: Option<(usize, usize)>,
) -> (r: String)
    requires
        nlo <= nhi <= v.len(),
        l matches Some((a, b)) ==> a <= b <= v.len(),
    ensures
        r@ == slice_args(
            strs(args@),
            v@.subrange(nlo as int, nhi as int),
            match l {
                Some((a, b)) => Some(v@.subrange(a as int, b as int)),
                None => None,
            },
        ),
{
    let p = match parse_usize_exec(v, nlo, nhi) {
        Some(x) => x,
        None => 0,
    };
    let start0 = if p >= 1 {
        p - 1
    } else {
        0
    };
    let start = if start0 > args.len() {
        args.len()
    } else {
        start0
    };
    match l {
        Some((a, b)) => {
            let len = match parse_usize_exec(v, a, b) {
                Some(x) => x,
                None => 0,
            };
            let end = if len > args.len() - start {
                args.len()
            } else {
                start + len
            };
            join_range(args, start, end)
        },
        None => join_range(args, start, args.len()),
    }
}

/// First `}` at or after `k`.
fn find_brace(v: &Vec<char>, k: usize) -> (r: Option<usize>)
    requires
        k <= v.len(),
    ensures
        match r {
            Some(j) => find_char_from(v@, '}', k as int) == Some(j as int) && k <= j < v.len(),
            None => find_char_from(v@, '}', k as int) is None,
        },
{
    let mut j = k;
    while j < v.len()
        invariant
            k <= j <= v.len(),
            find_char_from(v@, '}', j as int) == find_char_from(v@, '}', k as int),
        decreases v.len() - j,
    {
        if v[j] == '}' {
            return Some(j);
        }
        j += 1;
    }
    None
}

/// `v` holds the literal `p` at `i`.
fn lit_at(v: &Vec<char>, p: &str, i: usize) -> (r: bool)
    ensures
        r == occurs_at(v@, p@, i as int),
{
    let pv = chars_of(p);
    occurs_at_exec(v, &pv, i)
}

/// `${target:-default}` at `i`.
fn alt_default_exec(v: &Vec<char>, i: usize, args: &[String], all: &String) -> (r: Option<(usize, String)>)
    requires
        all@ == all_args_spec(strs(args@)),
    ensures
        match r {
            Some((e, rep)) => alt_default(v@, i as int, strs(args@)) == Some((e as int, rep@)),
            None => alt_default(v@, i as int, strs(args@)) is None,
        },
{
    if !(i < v.len() && v.len() - i > 2 && v[i] == '$' && v[i + 1] == '{') {
        return None;
    }
    let t = i + 2;
    let (found, value, te): (bool, Option<String>, usize) = if is_regex_digit(v[t]) {
        let e = digits_end_exec(v, t);
        (true, arg_at_exec(args, v, t, e), e)
    } else if lit_at(v, "ARGUMENTS", t) {
        proof {
            reveal_strlit("ARGUMENTS");
        }
        (true, Some(all.clone()), t + 9)
    } else if v[t] == '@' {
        (true, Some(all.clone()), t + 1)
    } else {
        (false, None, t)
    };
    if !found || !lit_at(v, ":-", te) {
        return None;
    }
    proof {
        reveal_strlit(":-");
    }
    match find_brace(v, te + 2) {
        None => None,
        Some(j) => {
            let rep = match value {
                Some(x) => if x.unicode_len() > 0 {
                    x
                } else {
                    crate::text::string_of(v, te + 2, j)
                },
                None => crate::text::string_of(v, te + 2, j),
            };
            Some((j + 1, rep))
        },
    }
}

/// `${@:N}` / `${@:N:L}` at `i`.
fn alt_slice_exec(v: &Vec<char>, i: usize, args: &[String]) -> (r: Option<(usize, String)>)
    ensures
        match r {
            Some((e, rep)) => alt_slice(v@, i as int, strs(args@)) == Some((e as int, rep@)),
            None => alt_slice(v@, i as int, strs(args@)) is None,
        },
{
    if !(lit_at(v, "${@:", i) && i < v.len() && v.len() - i > 4) {
        return None;
    }
    if !is_regex_digit(v[i + 4]) {
        return None;
    }
    proof {
        reveal_strlit("${@:");
    }
    let e1 = digits_end_exec(v, i + 4);
    if e1 < v.len() && v.len() - e1 > 1 && v[e1] == ':' && is_regex_digit(v[e1 + 1]) {
        let e2 = digits_end_exec(v, e1 + 1);
        if e2 < v.len() && v[e2] == '}' {
            return Some((e2 + 1, slice_args_exec(args, v, i + 4, e1, Some((e1 + 1, e2)))));
        }
    }
    if e1 < v.len() && v[e1] == '}' {
        Some((e1 + 1, slice_args_exec(args, v, i + 4, e1, None)))
    } else {
        None
    }
}

/// `$ARGUMENTS`, `$@` or `$N` at `i`.
fn alt_simple_exec(v: &Vec<char>, i: usize, args: &[String], all: &String) -> (r: Option<(usize, String)>)
    requires
        all@ == all_args_spec(strs(args@)),
    ensures
        match r {
            Some((e, rep)) => alt_simple(v@, i as int, strs(args@)) == Some((e as int, rep@)),
            None => alt_simple(v@, i as int, strs(args@)) is None,
        },
{
    if !(i < v.len() && v.len() - i > 1 && v[i] == '$') {
        return None;
    }
    if lit_at(v, "ARGUMENTS", i + 1) {
        proof {
            reveal_strlit("ARGUMENTS");
        }
        return Some((i + 10, all.clone()));
    }
    if v[i + 1] == '@' {
        return Some((i + 2, all.clone()));
    }
    if is_regex_digit(v[i + 1]) {
        let e = digits_end_exec(v, i + 1);
        let rep = match arg_at_exec(args, v, i + 1, e) {
            Some(a) => a,
            None => String::new(),
        };
        return Some((e, rep));
    }
    None
}

/// The placeholder at `i`, if one starts there.
fn placeholder_exec(v: &Vec<char>, i: usize, args: &[String], all: &String) -> (r: Option<(usize, String)>)
    requires
        all@ == all_args_spec(strs(args@)),
    ensures
        match r {
            Some((e, rep)) => placeholder_at(v@, i as int, strs(args@)) == Some((e as int, rep@)),
            None => placeholder_at(v@, i as int, strs(args@)) is None,
        },
{
    match alt_default_exec(v, i, args, all) {
        Some(m) => Some(m),
        None => match alt_slice_exec(v, i, args) {
            Some(m) => Some(m),
            None => alt_simple_exec(v, i, args, all),
        },
    }
}

/// A placeholder always ends after it starts and inside the text.
proof fn lemma_placeholder_bounds(s: Seq<char>, i: int, args: Seq<Seq<char>>)
    requires
        0 <= i < s.len(),
    ensures
        placeholder_at(s, i, args) matches Some((e, _)) ==> i < e <= s.len(),
{
    match alt_default(s, i, args) {
        Some((e, _)) => {
            let t = i + 2;
            lemma_digits_end(s, t);
            let te = if regex_digit(s[t]) {
                digits_end(s, t)
            } else if occurs_at(s, "ARGUMENTS"@, t) {
                t + 9
            } else {
                t + 1
            };
            crate::text::lemma_find_char_bound(s, '}', te + 2);
        },
        None => match alt_slice(s, i, args) {
            Some((e, _)) => {
                lemma_digits_end(s, i + 4);
                let e1 = digits_end(s, i + 4);
                lemma_digits_end(s, e1 + 1);
            },
            None => {
                reveal_strlit("ARGUMENTS");
                lemma_digits_end(s, i + 1);
            },
        },
    }
}

/// A digit run ends inside the text, at or after its start, and past it
/// when it starts with a digit.
proof fn lemma_digits_end(s: Seq<char>, k: int)
    ensures
        0 <= k <= s.len() ==> k <= digits_end(s, k) <= s.len(),
        0 <= k < s.len() && regex_digit(s[k]) ==> k < digits_end(s, k),
    decreases s.len() - k,
{
    if 0 <= k < s.len() && regex_digit(s[k]) {
        lemma_digits_end(s, k + 1);
    }
}

/// Substitute argument placeholders in template content.
///
/// Supports `$1`, `$@`, `$ARGUMENTS`, `${N:-default}`, `${@:-default}`,
/// `${@:N}` and `${@:N:L}`. Substitution is applied to the template body
/// only; argument and default values are never substituted again.
pub fn substitute_args(content: &str, args: &[String]) -> (r: String)
    ensures
        r@ == substitute_spec(content@, strs(args@)),
{
    let v = chars_of(content);
    let all = join_strings(args, " ");
    proof {
        reveal_strlit(" ");
    }
    assert(" "@ =~= seq![' ']);
    let ghost a = strs(args@);
    let mut out = String::new();
    let mut i: usize = 0;
    while i < v.len()
        invariant
            i <= v.len(),
            all@ == all_args_spec(a),
            a == strs(args@),
            out@ + substitute_from(v@, i as int, a) == substitute_from(v@, 0, a),
        decreases v.len() - i,
    {
        proof {
            lemma_placeholder_bounds(v@, i as int, a);
        }
        let ghost before = out@;
        match placeholder_exec(&v, i, args, &all) {
            Some((e, rep)) => {
                out.append(rep.as_str());
                assert(out@ + substitute_from(v@, e as int, a) =~= before + substitute_from(
                    v@,
                    i as int,
                    a,
                ));
                i = e;
            },
            None => {
                push_char(&mut out, v[i]);
                assert(out@ + substitute_from(v@, i + 1, a) =~= before + substitute_from(
                    v@,
                    i as int,
                    a,
                ));
                i += 1;
            },
        }
    }
    assert(out@ + substitute_from(v@, i as int, a) =~= out@);
    out
}

/// Text without a `$` comes out of substitution unchanged.
pub proof fn law_text_without_placeholders_is_unchanged(s: Seq<char>, i: int, args: Seq<Seq<char>>)
    requires
        0 <= i <= s.len(),
        forall|k: int| 0 <= k < s.len() ==> s[k] != '$',
    ensures
        substitute_from(s, i, args) == s.skip(i),
    decreases s.len() - i,
{
    if i < s.len() {
        reveal_strlit("${@:");
        assert(!occurs_at(s, "${@:"@, i)) by {
            if occurs_at(s, "${@:"@, i) {
                assert(s.subrange(i, i + 4)[0] == s[i]);
            }
        }
        law_text_without_placeholders_is_unchanged(s, i + 1, args);
        assert(seq![s[i]] + s.skip(i + 1) =~= s.skip(i));
    } else {
        assert(s.skip(i) =~= Seq::<char>::empty());
    }
}

// ---------------------------------------------------------------------------
// Templates
// ---------------------------------------------------------------------------

/// Max characters kept from the first body line when a template has no
/// `description` frontmatter field.
pub const MAX_GENERATED_DESCRIPTION: usize = 60;

/// Where a prompt template was discovered.
#[derive(Debug, Clone, Copy, PartialEq, Eq, Structural)]
pub enum PromptTemplateSource {
    /// `~/.pi/agent/prompts`.
    User,
    /// `<cwd>/.pi/prompts`.
    Project,
    /// A path given explicitly on the command line (`--prompt-template`).
    Path,
}

impl PromptTemplateSource {
    /// Stable label used in diagnostics.
    pub fn as_str(self) -> (r: &'static str)
        ensures
            r@ == match self {
                PromptTemplateSource::User => "user"@,
                PromptTemplateSource::Project => "project"@,
                PromptTemplateSource::Path => "path"@,
            },
    {
        match self {
            PromptTemplateSource::User => "user",
            PromptTemplateSource::Project => "project",
            PromptTemplateSource::Path => "path",
        }
    }
}

/// A prompt template loaded from a markdown file.
#[derive(Debug, Clone, PartialEq, Eq)]
pub struct PromptTemplate {
    /// File stem — the name typed after `/`.
    pub name: String,
    /// Frontmatter `description`, or the first non-empty body line.
    pub description: String,
    /// Frontmatter `argument-hint`, shown by completions.
    pub argument_hint: Option<String>,
    /// Template body (frontmatter stripped).
    pub content: String,
    /// Path to the template file.
    pub file_path: String,
    /// Where the template was found.
    pub source: PromptTemplateSource,
}

/// A non-fatal problem found while loading templates.
#[derive(Debug, Clone, PartialEq, Eq)]
pub struct PromptTemplateDiagnostic {
    /// Human-readable message.
    pub message: String,
    /// File the diagnostic refers to.
    pub path: Option<String>,
}

/// Result of one template load pass.
#[derive(Debug, Clone, Default, PartialEq, Eq)]
pub struct PromptTemplatesLoadResult {
    /// Loaded templates, in discovery order.
    pub templates: Vec<PromptTemplate>,
    /// Non-fatal problems.
    pub diagnostics: Vec<PromptTemplateDiagnostic>,
}

/// Options for a load over every configured location.
#[derive(Debug, Clone, Default)]
pub struct LoadPromptTemplatesOptions {
    /// Working directory; `<cwd>/.pi/prompts` is searched when
    /// `include_defaults` is set.
    pub cwd: String,
    /// Agent config directory (`~/.pi/agent`).
    pub agent_dir: String,
    /// Explicit template files / directories (`--prompt-template`).
    pub prompt_paths: Vec<String>,
    /// Whether the two default locations are searched.
    pub include_defaults: bool,
    /// Whether `<cwd>/.pi/prompts` may be loaded (an untrusted clone must
    /// not be able to install a `/command`).
    pub project_trusted: bool,
}

// ---------------------------------------------------------------------------
// Invocation
// ---------------------------------------------------------------------------

/// Index of the first whitespace character at or after `i`, or the end.
pub open spec fn first_ws_from(s: Seq<char>, i: int) -> int
    decreases s.len() - i,
{
    if i < 0 || i >= s.len() {
        s.len() as int
    } else if is_ws(s[i]) {
        i
    } else {
        first_ws_from(s, i + 1)
    }
}

/// A `/<name> [args]` invocation: the name and the argument text with its
/// leading whitespace removed.
pub open spec fn invocation_spec(t: Seq<char>) -> Option<(Seq<char>, Seq<char>)> {
    if !(t.len() > 1 && t[0] == '/') {
        None
    } else {
        let k = first_ws_from(t, 1);
        if k <= 1 {
            None
        } else {
            Some(
                (
                    t.subrange(1, k),
                    if k < t.len() {
                        crate::text::trim_start(t.subrange(k, t.len() as int))
                    } else {
                        Seq::empty()
                    },
                ),
            )
        }
    }
}

/// Index of the first template named `name`, from `i` on.
pub open spec fn template_index_from(ts: Seq<PromptTemplate>, name: Seq<char>, i: int) -> Option<int>
    decreases ts.len() - i,
{
    if i < 0 || i >= ts.len() {
        None
    } else if ts[i].name@ == name {
        Some(i)
    } else {
        template_index_from(ts, name, i + 1)
    }
}

/// What expanding `text` gives.
pub open spec fn expand_spec(text: Seq<char>, ts: Seq<PromptTemplate>) -> Seq<char> {
    match invocation_spec(text) {
        Some((name, args)) => match template_index_from(ts, name, 0) {
            Some(k) => substitute_spec(ts[k].content@, command_args_spec(args)),
            None => text,
        },
        None => text,
    }
}

proof fn lemma_first_ws(s: Seq<char>, i: int)
    requires
        0 <= i,
    ensures
        i <= first_ws_from(s, i) <= s.len() || (i > s.len() && first_ws_from(s, i) == s.len()),
        forall|k: int| i <= k < first_ws_from(s, i) ==> !is_ws(#[trigger] s[k]),
    decreases s.len() - i,
{
    if i < s.len() && !is_ws(s[i]) {
        lemma_first_ws(s, i + 1);
    }
}

/// Split a `/<name> [args]` invocation.
fn split_invocation(text: &str) -> (r: Option<(String, String)>)
    ensures
        match r {
            Some((n, a)) => invocation_spec(text@) == Some((n@, a@)),
            None => invocation_spec(text@) is None,
        },
{
    let v = chars_of(text);
    if !(v.len() > 1 && v[0] == '/') {
        return None;
    }
    let mut k: usize = 1;
    while k < v.len() && !is_whitespace(v[k])
        invariant
            1 <= k <= v.len(),
            first_ws_from(v@, k as int) == first_ws_from(v@, 1),
        decreases v.len() - k,
    {
        k += 1;
    }
    if k <= 1 {
        return None;
    }
    let name = crate::text::string_of(&v, 1, k);
    let args = if k < v.len() {
        let rest = crate::text::sub_vec(&v, k, v.len());
        let lo = crate::text::skip_ws(&rest);
        crate::text::string_of(&rest, lo, rest.len())
    } else {
        String::new()
    };
    Some((name, args))
}

/// Find the template matching a `/<name> ...` invocation.
///
/// Returns the template plus the raw argument string; `None` when the
/// text is not a matching template invocation.
pub fn find_prompt_template<'a>(text: &str, templates: &'a [PromptTemplate]) -> (r: Option<
    (&'a PromptTemplate, String),
>)
    ensures
        match r {
            Some((t, a)) => invocation_spec(text@) matches Some((name, args)) && a@ == args && (
            template_index_from(templates@, name, 0) matches Some(k) && *t == templates@[k]),
            None => match invocation_spec(text@) {
                Some((name, _)) => template_index_from(templates@, name, 0) is None,
                None => true,
            },
        },
{
    let (name, args) = match split_invocation(text) {
        Some(p) => p,
        None => {
            return None;
        },
    };
    let mut i: usize = 0;
    while i < templates.len()
        invariant
            i <= templates.len(),
            invocation_spec(text@) == Some((name@, args@)),
            template_index_from(templates@, name@, 0) == template_index_from(
                templates@,
                name@,
                i as int,
            ),
        decreases templates.len() - i,
    {
        if templates[i].name == name {
            return Some((&templates[i], args));
        }
        i += 1;
    }
    None
}

/// Expand a prompt template if it matches a template name.
///
/// Returns the expanded content, or the original text unchanged when the
/// text is not a slash invocation or the name matches no template.
pub fn expand_prompt_template(text: &str, templates: &[PromptTemplate]) -> (r: String)
    ensures
        r@ == expand_spec(text@, templates@),
{
    match find_prompt_template(text, templates) {
        Some((template, args)) => {
            let parsed = parse_command_args(args.as_str());
            substitute_args(template.content.as_str(), parsed.as_slice())
        },
        None => String::from_str(text),
    }
}

/// Text that is not a slash invocation expands to itself.
pub proof fn law_plain_text_is_not_expanded(text: Seq<char>, ts: Seq<PromptTemplate>)
    requires
        text.len() == 0 || text[0] != '/',
    ensures
        expand_spec(text, ts) == text,
{
}

// ---------------------------------------------------------------------------
// One template file
// ---------------------------------------------------------------------------

/// The frontmatter fields a template reads.
#[derive(Debug, Clone, PartialEq, Eq)]
pub struct TemplateFrontmatter {
    /// `description`, when it is a string.
    pub description: Option<String>,
    /// `argument-hint`, when it is a string.
    pub argument_hint: Option<String>,
}

/// Index of the line end (`\n`) at or after `i`, or the end of the text.
pub open spec fn line_end(s: Seq<char>, i: int) -> int {
    match find_char_from(s, '\n', i) {
        Some(e) => e,
        None => s.len() as int,
    }
}

/// The line starting at `i`, as `str::lines` yields it: without its
/// `\n`, and without the `\r` of a `\r\n` ending.
pub open spec fn line_at(s: Seq<char>, i: int) -> Seq<char> {
    let e = line_end(s, i);
    if e < s.len() {
        let l = s.subrange(i, e);
        if l.len() > 0 && l.last() == '\r' {
            l.drop_last()
        } else {
            l
        }
    } else {
        s.subrange(i, s.len() as int)
    }
}

/// The first line from `i` on that is not blank, or empty text.
pub open spec fn first_text_line_from(s: Seq<char>, i: int) -> Seq<char>
    decreases s.len() - i,
{
    if i < 0 || i >= s.len() {
        Seq::empty()
    } else {
        let line = line_at(s, i);
        if trim(line).len() > 0 {
            line
        } else if line_end(s, i) < s.len() {
            proof {
                crate::text::lemma_find_char_bound(s, '\n', i);
            }
            first_text_line_from(s, line_end(s, i) + 1)
        } else {
            Seq::empty()
        }
    }
}

/// A generated description: the line, cut to its first 60 characters
/// with `...` appended when it is longer.
pub open spec fn generated_description(line: Seq<char>) -> Seq<char> {
    if line.len() > MAX_GENERATED_DESCRIPTION {
        line.take(MAX_GENERATED_DESCRIPTION as int) + "..."@
    } else {
        line
    }
}

/// The description a template gets.
pub open spec fn template_description(fm: TemplateFrontmatter, body: Seq<char>) -> Seq<char> {
    match fm.description {
        Some(d) => if d@.len() > 0 {
            d@
        } else {
            generated_description(first_text_line_from(body, 0))
        },
        None => generated_description(first_text_line_from(body, 0)),
    }
}

/// The first non-blank line of `v`.
fn first_text_line(v: &Vec<char>) -> (r: String)
    ensures
        r@ == first_text_line_from(v@, 0),
{
    let mut i: usize = 0;
    while i < v.len()
        invariant
            i <= v.len(),
            first_text_line_from(v@, 0) == first_text_line_from(v@, i as int),
        decreases v.len() - i,
    {
        let mut e = i;
        while e < v.len() && v[e] != '\n'
            invariant
                i <= e <= v.len(),
                find_char_from(v@, '\n', e as int) == find_char_from(v@, '\n', i as int),
            decreases v.len() - e,
        {
            e += 1;
        }
        assert(line_end(v@, i as int) == e as int);
        let hi = if e < v.len() && e > i && v[e - 1] == '\r' {
            e - 1
        } else {
            e
        };
        assert(v@.subrange(i as int, hi as int) == line_at(v@, i as int)) by {
            if e < v.len() && e > i && v[e - 1] == '\r' {
                assert(v@.subrange(i as int, e as int).drop_last() =~= v@.subrange(i as int, hi as int));
            }
        }
        let line = crate::text::string_of(v, i, hi);
        if !crate::text::is_blank(line.as_str()) {
            return line;
        }
        if e >= v.len() {
            return String::new();
        }
        i = e + 1;
    }
    String::new()
}

/// Turn a read and parsed template file into a template. `parsed` is
/// `None` when the file could not be read or its frontmatter did not
/// parse; such files are skipped silently.
pub fn template_from_content(
    file_path: &str,
    source: PromptTemplateSource,
    parsed: Option<(TemplateFrontmatter, String)>,
) -> (r: Option<PromptTemplate>)
    ensures
        r is Some == parsed is Some,
        r matches Some(t) ==> parsed matches Some((fm, body)) && {
            &&& t.name@ == match crate::paths::file_stem(file_path@) {
                Some(n) => n,
                None => Seq::empty(),
            }
            &&& t.description@ == template_description(fm, body@)
            &&& match t.argument_hint {
                Some(h) => fm.argument_hint matches Some(x) && x@ == h@ && h@.len() > 0,
                None => match fm.argument_hint {
                    Some(x) => x@.len() == 0,
                    None => true,
                },
            }
            &&& t.content@ == body@
            &&& t.file_path@ == file_path@
            &&& t.source == source
        },
{
    let (fm, body) = match parsed {
        Some(p) => p,
        None => {
            return None;
        },
    };
    let name = match crate::paths::path_file_stem(file_path) {
        Some(n) => n,
        None => String::new(),
    };
    let description = match &fm.description {
        Some(d) if d.unicode_len() > 0 => d.clone(),
        _ => {
            let line = first_text_line(&chars_of(body.as_str()));
            let lv = chars_of(line.as_str());
            if lv.len() > MAX_GENERATED_DESCRIPTION {
                let mut d = crate::text::string_of(&lv, 0, MAX_GENERATED_DESCRIPTION);
                push_str(&mut d, "...");
                assert(lv@.subrange(0, MAX_GENERATED_DESCRIPTION as int) =~= lv@.take(
                    MAX_GENERATED_DESCRIPTION as int,
                ));
                d
            } else {
                line
            }
        },
    };
    let argument_hint = match &fm.argument_hint {
        Some(h) => if h.unicode_len() > 0 {
            Some(h.clone())
        } else {
            None
        },
        None => None,
    };
    Some(
        PromptTemplate {
            name,
            description,
            argument_hint,
            content: body,
            file_path: String::from_str(file_path),
            source,
        },
    )
}

// ---------------------------------------------------------------------------
// Merging locations
// ---------------------------------------------------------------------------

/// Names of a list of templates.
pub open spec fn template_names(ts: Seq<PromptTemplate>) -> Seq<Seq<char>> {
    ts.map_values(|t: PromptTemplate| t.name@)
}

/// A template diagnostic as plain values.
pub open spec fn tdiag_view(d: PromptTemplateDiagnostic) -> (Seq<char>, Option<Seq<char>>) {
    (
        d.message@,
        match d.path {
            Some(p) => Some(p@),
            None => None,
        },
    )
}

/// Views of a list of template diagnostics.
pub open spec fn tdiags_view(v: Seq<PromptTemplateDiagnostic>) -> Seq<(Seq<char>, Option<Seq<char>>)> {
    v.map_values(|d: PromptTemplateDiagnostic| tdiag_view(d))
}

/// Templates offered in order to a result: a taken name is reported as a
/// collision, any other template is kept.
pub open spec fn merge_templates(
    kept: Seq<PromptTemplate>,
    diags: Seq<(Seq<char>, Option<Seq<char>>)>,
    offered: Seq<PromptTemplate>,
) -> (Seq<PromptTemplate>, Seq<(Seq<char>, Option<Seq<char>>)>)
    decreases offered.len(),
{
    if offered.len() == 0 {
        (kept, diags)
    } else {
        let (k, d) = merge_templates(kept, diags, offered.drop_last());
        let t = offered.last();
        if template_names(k).contains(t.name@) {
            (k, d.push(("prompt template \""@ + t.name@ + "\" collision"@, Some(t.file_path@))))
        } else {
            (k.push(t), d)
        }
    }
}

/// Whether some template in `v` is named `name`.
fn has_template(v: &Vec<PromptTemplate>, name: &String) -> (r: bool)
    ensures
        r == template_names(v@).contains(name@),
{
    let mut i: usize = 0;
    while i < v.len()
        invariant
            i <= v.len(),
            forall|k: int| 0 <= k < i ==> v@[k].name@ != name@,
        decreases v.len() - i,
    {
        if v[i].name == *name {
            assert(template_names(v@)[i as int] == name@);
            return true;
        }
        i += 1;
    }
    proof {
        if template_names(v@).contains(name@) {
            let k = choose|k: int| 0 <= k < template_names(v@).len() && template_names(v@)[k] == name@;
            assert(v@[k].name@ == name@);
        }
    }
    false
}

/// Add one location's templates: the first definition of a name wins and
/// later ones are reported as collisions.
pub fn add_templates(result: &mut PromptTemplatesLoadResult, templates: Vec<PromptTemplate>)
    ensures
        (final(result).templates@, tdiags_view(final(result).diagnostics@)) == merge_templates(
            old(result).templates@,
            tdiags_view(old(result).diagnostics@),
            templates@,
        ),
{
    let mut templates = templates;
    let ghost all = templates@;
    let ghost k0 = result.templates@;
    let ghost d0 = tdiags_view(result.diagnostics@);
    let n = templates.len();
    let mut i: usize = 0;
    while i < n
        invariant
            i <= n == all.len(),
            templates@ == all.skip(i as int),
            (result.templates@, tdiags_view(result.diagnostics@)) == merge_templates(
                k0,
                d0,
                all.take(i as int),
            ),
        decreases n - i,
    {
        let t = templates.remove(0);
        assert(t == all[i as int]);
        assert(all.skip(i as int).skip(1) =~= all.skip(i + 1));
        assert(all.take(i + 1).drop_last() =~= all.take(i as int));
        assert(all.take(i + 1).last() == t);
        if has_template(&result.templates, &t.name) {
            let mut m = String::from_str("prompt template \"");
            m.append(t.name.as_str());
            push_str(&mut m, "\" collision");
            let d = PromptTemplateDiagnostic { message: m, path: Some(t.file_path.clone()) };
            let ghost before = result.diagnostics@;
            result.diagnostics.push(d);
            assert(tdiags_view(result.diagnostics@) =~= tdiags_view(before).push(tdiag_view(d)));
        } else {
            result.templates.push(t);
        }
        i += 1;
    }
    assert(all.take(n as int) =~= all);
}

/// The merge never keeps two templates with the same name, and never
/// drops or moves one it kept before.
pub proof fn law_template_merge_first_wins(
    kept: Seq<PromptTemplate>,
    diags: Seq<(Seq<char>, Option<Seq<char>>)>,
    offered: Seq<PromptTemplate>,
)
    requires
        template_names(kept).no_duplicates(),
    ensures
        template_names(merge_templates(kept, diags, offered).0).no_duplicates(),
        merge_templates(kept, diags, offered).0.take(kept.len() as int) == kept,
        kept.len() <= merge_templates(kept, diags, offered).0.len(),
    decreases offered.len(),
{
    if offered.len() > 0 {
        law_template_merge_first_wins(kept, diags, offered.drop_last());
        let (k, d) = merge_templates(kept, diags, offered.drop_last());
        let t = offered.last();
        if !template_names(k).contains(t.name@) {
            assert(template_names(k.push(t)) =~= template_names(k).push(t.name@));
            let q = template_names(k).push(t.name@);
            assert forall|a: int, b: int| 0 <= a < q.len() && 0 <= b < q.len() && a != b
                implies q[a] != q[b] by {
                if a == q.len() - 1 {
                    assert(template_names(k)[b] == q[b]);
                } else if b == q.len() - 1 {
                    assert(template_names(k)[a] == q[a]);
                }
            }
            assert(k.push(t).take(kept.len() as int) =~= k.take(kept.len() as int));
        }
    } else {
        assert(kept.take(kept.len() as int) =~= kept);
    }
}

// ---------------------------------------------------------------------------
// Locations
// ---------------------------------------------------------------------------

/// Whether a directory entry named `name` is read as a template: only
/// `*.md` files directly in a prompts directory are.
pub fn is_template_file_name(name: &str) -> (r: bool)
    ensures
        r == crate::text::ends_with(name@, ".md"@),
{
    crate::text::ends_with_lit(&chars_of(name), ".md")
}

/// The action for one `--prompt-template` path.
pub open spec fn template_path_action_spec(path: Seq<char>, kind: PathKind) -> Option<Seq<char>> {
    match kind {
        PathKind::Missing => Some("prompt template path does not exist"@),
        PathKind::Unreadable => Some("failed to read prompt template path"@),
        PathKind::Directory => None,
        PathKind::File => if crate::paths::has_md_extension(path) {
            None
        } else {
            Some("prompt template path is not a markdown file"@)
        },
        PathKind::Other => Some("prompt template path is not a markdown file"@),
    }
}

/// Decide what an explicit `--prompt-template` path is used for.
pub fn classify_template_path(path: &str, kind: PathKind) -> (r: PathAction)
    ensures
        match r {
            PathAction::ScanDirectory => kind == PathKind::Directory,
            PathAction::LoadFile => kind == PathKind::File && crate::paths::has_md_extension(path@),
            PathAction::Warn(m) => template_path_action_spec(path@, kind) == Some(m@),
        },
        r is Warn <==> template_path_action_spec(path@, kind) is Some,
{
    match kind {
        PathKind::Missing => PathAction::Warn(String::from_str("prompt template path does not exist")),
        PathKind::Unreadable => PathAction::Warn(String::from_str("failed to read prompt template path")),
        PathKind::Directory => PathAction::ScanDirectory,
        PathKind::File => {
            if crate::paths::is_md_path(path) {
                PathAction::LoadFile
            } else {
                PathAction::Warn(String::from_str("prompt template path is not a markdown file"))
            }
        },
        PathKind::Other => PathAction::Warn(String::from_str("prompt template path is not a markdown file")),
    }
}

/// The default locations, in load order: `<agent_dir>/prompts`, then
/// `<cwd>/.pi/prompts` when the project is trusted. None without defaults.
pub fn default_template_dirs(options: &LoadPromptTemplatesOptions) -> (r: Vec<(String, PromptTemplateSource)>)
    ensures
        r@.len() == if !options.include_defaults {
            0nat
        } else if options.project_trusted {
            2nat
        } else {
            1nat
        },
        options.include_defaults ==> r@[0].0@ == crate::paths::join_path(options.agent_dir@, "prompts"@)
            && r@[0].1 == PromptTemplateSource::User,
        options.include_defaults && options.project_trusted ==> r@[1].0@
            == crate::paths::join_path(
            crate::paths::join_path(options.cwd@, crate::paths::CONFIG_DIR_NAME@),
            "prompts"@,
        ) && r@[1].1 == PromptTemplateSource::Project,
{
    let mut out: Vec<(String, PromptTemplateSource)> = Vec::new();
    if options.include_defaults {
        out.push((crate::paths::join(options.agent_dir.as_str(), "prompts"), PromptTemplateSource::User));
        if options.project_trusted {
            let pi = crate::paths::join(options.cwd.as_str(), crate::paths::CONFIG_DIR_NAME);
            out.push((crate::paths::join(pi.as_str(), "prompts"), PromptTemplateSource::Project));
        }
    }
    out
}

/// The number of default template locations a load searches.
pub open spec fn default_template_count(options: LoadPromptTemplatesOptions) -> nat {
    if !options.include_defaults {
        0
    } else if options.project_trusted {
        2
    } else {
        1
    }
}

/// Whether `a` is what an explicit template path of kind `kind` at `path`
/// is used for.
pub open spec fn template_action_is(a: PathAction, path: Seq<char>, kind: PathKind) -> bool {
    &&& match a {
        PathAction::ScanDirectory => kind == PathKind::Directory,
        PathAction::LoadFile => kind == PathKind::File && crate::paths::has_md_extension(path),
        PathAction::Warn(m) => template_path_action_spec(path, kind) == Some(m@),
    }
    &&& (a is Warn <==> template_path_action_spec(path, kind) is Some)
}

/// The locations of a template load, in load order: the default
/// directories (scanned), then each explicit `--prompt-template` path,
/// resolved, with what it is used for. `kinds[i]` is what the filesystem
/// holds at explicit path `i` once resolved (see
/// [`crate::paths::explicit_path`]).
pub fn template_load_plan(
    options: &LoadPromptTemplatesOptions,
    current_dir: &str,
    home: Option<&str>,
    kinds: &[PathKind],
) -> (r: Vec<(String, PromptTemplateSource, PathAction)>)
    requires
        kinds@.len() == options.prompt_paths@.len(),
    ensures
        r@.len() == default_template_count(*options) + kinds@.len(),
        options.include_defaults ==> r@[0].0@ == crate::paths::join_path(options.agent_dir@, "prompts"@)
            && r@[0].1 == PromptTemplateSource::User && r@[0].2 == PathAction::ScanDirectory,
        options.include_defaults && options.project_trusted ==> r@[1].0@ == crate::paths::join_path(
            crate::paths::join_path(options.cwd@, crate::paths::CONFIG_DIR_NAME@),
            "prompts"@,
        ) && r@[1].1 == PromptTemplateSource::Project && r@[1].2 == PathAction::ScanDirectory,
        forall|j: int|
            0 <= j < kinds@.len() ==> {
                let e = #[trigger] r@[default_template_count(*options) + j];
                let p = crate::paths::explicit_path_spec(
                    options.prompt_paths@[j]@,
                    options.cwd@,
                    current_dir@,
                    match home {
                        Some(h) => Some(h@),
                        None => None,
                    },
                );
                &&& e.0@ == p
                &&& e.1 == PromptTemplateSource::Path
                &&& template_action_is(e.2, p, kinds@[j])
            },
{
    let defaults = default_template_dirs(options);
    let mut out: Vec<(String, PromptTemplateSource, PathAction)> = Vec::new();
    let mut i: usize = 0;
    while i < defaults.len()
        invariant
            i <= defaults.len(),
            out@.len() == i,
            forall|k: int|
                0 <= k < i ==> (#[trigger] out@[k]).0@ == defaults@[k].0@ && out@[k].1 == defaults@[k].1
                    && out@[k].2 == PathAction::ScanDirectory,
        decreases defaults.len() - i,
    {
        let (path, source) = &defaults[i];
        out.push((path.clone(), *source, PathAction::ScanDirectory));
        i += 1;
    }
    let nd = defaults.len();
    let mut j: usize = 0;
    while j < kinds.len()
        invariant
            j <= kinds.len(),
            kinds@.len() == options.prompt_paths@.len(),
            nd == defaults@.len(),
            nd == default_template_count(*options),
            out@.len() == nd + j,
            forall|k: int|
                0 <= k < nd ==> (#[trigger] out@[k]).0@ == defaults@[k].0@ && out@[k].1 == defaults@[k].1
                    && out@[k].2 == PathAction::ScanDirectory,
            forall|k: int|
                0 <= k < j ==> {
                    let e = #[trigger] out@[nd + k];
                    let p = crate::paths::explicit_path_spec(
                        options.prompt_paths@[k]@,
                        options.cwd@,
                        current_dir@,
                        match home {
                            Some(h) => Some(h@),
                            None => None,
                        },
                    );
                    &&& e.0@ == p
                    &&& e.1 == PromptTemplateSource::Path
                    &&& template_action_is(e.2, p, kinds@[k])
                },
        decreases kinds.len() - j,
    {
        let p = crate::paths::explicit_path(options.prompt_paths[j].as_str(), options.cwd.as_str(), current_dir, home);
        let action = classify_template_path(p.as_str(), kinds[j]);
        out.push((p, PromptTemplateSource::Path, action));
        j += 1;
    }
    out
}

/// The templates and diagnostics after every location's result is
/// offered in order: its own diagnostics first, then its templates.
pub open spec fn collect_template_loads(loads: Seq<PromptTemplatesLoadResult>) -> (
    Seq<PromptTemplate>,
    Seq<(Seq<char>, Option<Seq<char>>)>,
)
    decreases loads.len(),
{
    if loads.len() == 0 {
        (Seq::empty(), Seq::empty())
    } else {
        let (k, d) = collect_template_loads(loads.drop_last());
        let l = loads.last();
        merge_templates(k, d + tdiags_view(l.diagnostics@), l.templates@)
    }
}

/// Merge the results of every location of a load, in plan order: the
/// first template of a name wins and each later one is reported as a
/// collision where it comes.
pub fn merge_template_loads(loads: Vec<PromptTemplatesLoadResult>) -> (r: PromptTemplatesLoadResult)
    ensures
        (r.templates@, tdiags_view(r.diagnostics@)) == collect_template_loads(loads@),
{
    let ghost all = loads@;
    let n = loads.len();
    let mut rest = loads;
    let mut out = PromptTemplatesLoadResult { templates: Vec::new(), diagnostics: Vec::new() };
    proof {
        assert(all.take(0) =~= Seq::<PromptTemplatesLoadResult>::empty());
        assert(out.templates@ =~= Seq::<PromptTemplate>::empty());
        assert(tdiags_view(out.diagnostics@) =~= Seq::<(Seq<char>, Option<Seq<char>>)>::empty());
    }
    let mut k: usize = 0;
    while rest.len() > 0
        invariant
            all.len() == n,
            k + rest@.len() == all.len(),
            rest@ == all.skip(k as int),
            (out.templates@, tdiags_view(out.diagnostics@)) == collect_template_loads(all.take(k as int)),
        decreases rest.len(),
    {
        let l = rest.remove(0);
        proof {
            assert(all[k as int] == l);
            assert(all.take(k + 1).drop_last() =~= all.take(k as int));
            assert(rest@ =~= all.skip(k + 1));
        }
        let PromptTemplatesLoadResult { templates, diagnostics } = l;
        let ghost d0 = out.diagnostics@;
        let mut ds = diagnostics;
        out.diagnostics.append(&mut ds);
        proof {
            assert(tdiags_view(out.diagnostics@) =~= tdiags_view(d0) + tdiags_view(l.diagnostics@));
        }
        add_templates(&mut out, templates);
        k += 1;
    }
    proof {
        assert(all.take(k as int) =~= all);
    }
    out
}

} // verus!
