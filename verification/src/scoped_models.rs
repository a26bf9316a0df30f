//! `/scoped-models` — the "Model Configuration" panel.
//!
//! The enabled set is `Option<Vec<String>>`: `None` means "every model is
//! in scope, no filter", `Some(ids)` an explicit ordered allow-list.
//! Changes are session-only until saved, which is why the panel tracks
//! [`ScopedModelsPanel::dirty`] and shows `(unsaved)` in its footer.
use vstd::prelude::*;

use crate::text::{chars_of, decimal, lemma_strs_push, push_char, push_decimal, push_str, strs};

verus! {

/// The selector title, and the value prefix that lets the driver recognise
/// the picker.
pub const PANEL_TITLE: &'static str = "Model Configuration";

/// Values the panel renders carry this prefix, like `resume:` / `tree:`.
pub const VALUE_PREFIX: &'static str = "scoped:";

/// Rows shown at once.
pub const MAX_VISIBLE: usize = 8;

// ---------------------------------------------------------------------------
// Model
// ---------------------------------------------------------------------------

/// View of an enabled set.
pub open spec fn en_view(e: Option<Vec<String>>) -> Option<Seq<Seq<char>>> {
    match e {
        Some(v) => Some(strs(v@)),
        None => None,
    }
}

/// Whether `id` is in the scope (`None` scopes every model).
pub open spec fn is_enabled_spec(en: Option<Seq<Seq<char>>>, id: Seq<char>) -> bool {
    match en {
        None => true,
        Some(ids) => ids.contains(id),
    }
}

/// The elements of `s` that are not in `t`, in order.
pub open spec fn keep_out(s: Seq<Seq<char>>, t: Seq<Seq<char>>) -> Seq<Seq<char>>
    decreases s.len(),
{
    if s.len() == 0 {
        s
    } else if t.contains(s.last()) {
        keep_out(s.drop_last(), t)
    } else {
        keep_out(s.drop_last(), t).push(s.last())
    }
}

/// The elements of `s` that are in `t`, in order.
pub open spec fn keep_in(s: Seq<Seq<char>>, t: Seq<Seq<char>>) -> Seq<Seq<char>>
    decreases s.len(),
{
    if s.len() == 0 {
        s
    } else if t.contains(s.last()) {
        keep_in(s.drop_last(), t).push(s.last())
    } else {
        keep_in(s.drop_last(), t)
    }
}

/// `ids` followed by every element of `t` it does not hold yet.
pub open spec fn add_missing(ids: Seq<Seq<char>>, t: Seq<Seq<char>>) -> Seq<Seq<char>>
    decreases t.len(),
{
    if t.len() == 0 {
        ids
    } else {
        let r = add_missing(ids, t.drop_last());
        if r.contains(t.last()) {
            r
        } else {
            r.push(t.last())
        }
    }
}

/// First index of `x` in `s` at or after `i`.
pub open spec fn position_from(s: Seq<Seq<char>>, x: Seq<char>, i: int) -> Option<int>
    decreases s.len() - i,
{
    if i < 0 || i >= s.len() {
        None
    } else if s[i] == x {
        Some(i)
    } else {
        position_from(s, x, i + 1)
    }
}

/// Normalised scope: an explicit list that covers every
/// available model collapses back to `None`.
pub open spec fn normalize_spec(result: Seq<Seq<char>>, all: Seq<Seq<char>>) -> Option<
    Seq<Seq<char>>,
> {
    if result.len() == all.len() && (forall|i: int| 0 <= i < result.len() ==> all.contains(
        #[trigger] result[i],
    )) {
        None
    } else {
        Some(result)
    }
}

/// The scope after toggling one model.
pub open spec fn toggle_spec(en: Option<Seq<Seq<char>>>, all: Seq<Seq<char>>, id: Seq<char>) -> Option<
    Seq<Seq<char>>,
> {
    match en {
        None => Some(keep_out(all, seq![id])),
        Some(ids) => match position_from(ids, id, 0) {
            Some(i) => Some(ids.remove(i)),
            None => normalize_spec(ids.push(id), all),
        },
    }
}

/// The scope after enabling a set of models.
pub open spec fn enable_all_spec(
    en: Option<Seq<Seq<char>>>,
    all: Seq<Seq<char>>,
    targets: Option<Seq<Seq<char>>>,
) -> Option<Seq<Seq<char>>> {
    match en {
        None => None,
        Some(ids) => {
            let t = match targets {
                Some(t) => t,
                None => all,
            };
            normalize_spec(add_missing(ids, t), all)
        },
    }
}

/// The scope after clearing a set of models.
pub open spec fn clear_all_spec(
    en: Option<Seq<Seq<char>>>,
    all: Seq<Seq<char>>,
    targets: Option<Seq<Seq<char>>>,
) -> Option<Seq<Seq<char>>> {
    match en {
        None => match targets {
            Some(t) => Some(keep_out(all, t)),
            None => Some(Seq::empty()),
        },
        Some(ids) => {
            let t = match targets {
                Some(t) => t,
                None => ids,
            };
            Some(keep_out(ids, t))
        },
    }
}

/// Move a model: swap `id` with its neighbour `delta` slots away; an
/// out-of-range move or an id that is not enabled leaves the list as is.
pub open spec fn move_spec(en: Option<Seq<Seq<char>>>, id: Seq<char>, delta: int) -> Option<
    Seq<Seq<char>>,
> {
    match en {
        None => None,
        Some(ids) => match position_from(ids, id, 0) {
            None => Some(ids),
            Some(i) => {
                let j = i + delta;
                if j < 0 || j >= ids.len() {
                    Some(ids)
                } else {
                    Some(ids.update(i, ids[j]).update(j, ids[i]))
                }
            },
        },
    }
}

/// Listing order: the enabled models in their explicit order,
/// then every remaining catalog model in catalog order.
pub open spec fn sorted_spec(en: Option<Seq<Seq<char>>>, all: Seq<Seq<char>>) -> Seq<Seq<char>> {
    match en {
        None => all,
        Some(ids) => ids + keep_out(all, ids),
    }
}

// ---------------------------------------------------------------------------
// Lemmas
// ---------------------------------------------------------------------------

/// What `keep_out` holds.
pub proof fn lemma_keep_out(s: Seq<Seq<char>>, t: Seq<Seq<char>>)
    ensures
        forall|x: Seq<char>| keep_out(s, t).contains(x) <==> (s.contains(x) && !t.contains(x)),
        keep_out(s, t).len() <= s.len(),
    decreases s.len(),
{
    if s.len() > 0 {
        lemma_keep_out(s.drop_last(), t);
        assert forall|x: Seq<char>| s.contains(x) <==> (s.drop_last().contains(x) || x == s.last()) by {
            if s.contains(x) {
                let k = choose|k: int| 0 <= k < s.len() && s[k] == x;
                if k < s.len() - 1 {
                    assert(s.drop_last()[k] == x);
                }
            }
            if s.drop_last().contains(x) {
                let k = choose|k: int| 0 <= k < s.drop_last().len() && s.drop_last()[k] == x;
                assert(s[k] == x);
            }
            if x == s.last() {
                assert(s[s.len() - 1] == x);
            }
        }
        let r = keep_out(s.drop_last(), t);
        assert forall|x: Seq<char>| r.push(s.last()).contains(x) <==> (r.contains(x) || x == s.last()) by {
            if r.push(s.last()).contains(x) {
                let k = choose|k: int| 0 <= k < r.push(s.last()).len() && r.push(s.last())[k] == x;
                if k < r.len() {
                    assert(r[k] == x);
                }
            }
            if r.contains(x) {
                let k = choose|k: int| 0 <= k < r.len() && r[k] == x;
                assert(r.push(s.last())[k] == x);
            }
            if x == s.last() {
                assert(r.push(s.last())[r.len() as int] == x);
            }
        }
    }
}

/// What `keep_in` holds.
pub proof fn lemma_keep_in(s: Seq<Seq<char>>, t: Seq<Seq<char>>)
    ensures
        forall|x: Seq<char>| keep_in(s, t).contains(x) <==> (s.contains(x) && t.contains(x)),
    decreases s.len(),
{
    if s.len() > 0 {
        lemma_keep_in(s.drop_last(), t);
        lemma_contains_drop_last(s);
        lemma_contains_push(keep_in(s.drop_last(), t), s.last());
    }
}

/// Membership in a sequence splits into its prefix and its last element.
pub proof fn lemma_contains_drop_last(s: Seq<Seq<char>>)
    requires
        s.len() > 0,
    ensures
        forall|x: Seq<char>| s.contains(x) <==> (s.drop_last().contains(x) || x == s.last()),
{
    assert forall|x: Seq<char>| s.contains(x) <==> (s.drop_last().contains(x) || x == s.last()) by {
        if s.contains(x) {
            let k = choose|k: int| 0 <= k < s.len() && s[k] == x;
            if k < s.len() - 1 {
                assert(s.drop_last()[k] == x);
            }
        }
        if s.drop_last().contains(x) {
            let k = choose|k: int| 0 <= k < s.drop_last().len() && s.drop_last()[k] == x;
            assert(s[k] == x);
        }
        if x == s.last() {
            assert(s[s.len() - 1] == x);
        }
    }
}

/// Membership after a push.
pub proof fn lemma_contains_push(r: Seq<Seq<char>>, y: Seq<char>)
    ensures
        forall|x: Seq<char>| r.push(y).contains(x) <==> (r.contains(x) || x == y),
{
    assert forall|x: Seq<char>| r.push(y).contains(x) <==> (r.contains(x) || x == y) by {
        if r.push(y).contains(x) {
            let k = choose|k: int| 0 <= k < r.push(y).len() && r.push(y)[k] == x;
            if k < r.len() {
                assert(r[k] == x);
            }
        }
        if r.contains(x) {
            let k = choose|k: int| 0 <= k < r.len() && r[k] == x;
            assert(r.push(y)[k] == x);
        }
        if x == y {
            assert(r.push(y)[r.len() as int] == x);
        }
    }
}

/// What `add_missing` holds.
pub proof fn lemma_add_missing(ids: Seq<Seq<char>>, t: Seq<Seq<char>>)
    ensures
        forall|x: Seq<char>| add_missing(ids, t).contains(x) <==> (ids.contains(x) || t.contains(x)),
    decreases t.len(),
{
    if t.len() > 0 {
        lemma_add_missing(ids, t.drop_last());
        lemma_contains_drop_last(t);
        lemma_contains_push(add_missing(ids, t.drop_last()), t.last());
    }
}

/// Where `position_from` finds `x`, it is the first occurrence.
pub proof fn lemma_position(s: Seq<Seq<char>>, x: Seq<char>, i: int)
    requires
        0 <= i,
    ensures
        match position_from(s, x, i) {
            Some(k) => i <= k < s.len() && s[k] == x && forall|m: int| i <= m < k ==> s[m] != x,
            None => forall|m: int| i <= m < s.len() ==> s[m] != x,
        },
    decreases s.len() - i,
{
    if i < s.len() && s[i] != x {
        lemma_position(s, x, i + 1);
    }
}

// ---------------------------------------------------------------------------
// Laws
// ---------------------------------------------------------------------------

/// In a list without repeats, the first position of an element is the one
/// it sits at.
pub proof fn lemma_position_unique(s: Seq<Seq<char>>, k: int)
    requires
        s.no_duplicates(),
        0 <= k < s.len(),
    ensures
        position_from(s, s[k], 0) == Some(k),
{
    lemma_position(s, s[k], 0);
    match position_from(s, s[k], 0) {
        Some(j) => {},
        None => {
            assert(s[k] != s[k]);
        },
    }
}

/// Toggling a model flips whether it is in scope (the enabled list is kept
/// free of repeats by every operation that adds to it).
pub proof fn law_toggle_flips(en: Option<Seq<Seq<char>>>, all: Seq<Seq<char>>, id: Seq<char>)
    requires
        en matches Some(ids) ==> ids.no_duplicates(),
    ensures
        is_enabled_spec(toggle_spec(en, all, id), id) == !is_enabled_spec(en, id),
{
    match en {
        None => {
            lemma_keep_out(all, seq![id]);
            lemma_singleton(id);
            assert(seq![id].contains(id));
            assert(!keep_out(all, seq![id]).contains(id));
        },
        Some(ids) => {
            lemma_position(ids, id, 0);
            match position_from(ids, id, 0) {
                Some(i) => {
                    assert forall|m: int| 0 <= m < ids.remove(i).len() implies ids.remove(i)[m]
                        != id by {
                        if m < i {
                            assert(ids.remove(i)[m] == ids[m]);
                        } else {
                            assert(ids.remove(i)[m] == ids[m + 1]);
                        }
                    }
                },
                None => {
                    assert(ids.push(id)[ids.len() as int] == id);
                },
            }
        },
    }
}

/// A list without repeats, as long as a list without repeats it lies
/// within, holds every element of that list.
proof fn lemma_covers(s: Seq<Seq<char>>, t: Seq<Seq<char>>)
    requires
        s.no_duplicates(),
        t.no_duplicates(),
        s.len() == t.len(),
        forall|i: int| 0 <= i < s.len() ==> t.contains(#[trigger] s[i]),
    ensures
        forall|x: Seq<char>| t.contains(x) ==> s.contains(x),
{
    s.unique_seq_to_set();
    t.unique_seq_to_set();
    vstd::seq_lib::seq_to_set_is_finite(s);
    vstd::seq_lib::seq_to_set_is_finite(t);
    assert forall|x: Seq<char>| s.to_set().contains(x) implies t.to_set().contains(x) by {
        let k = choose|k: int| 0 <= k < s.len() && s[k] == x;
        assert(t.contains(s[k]));
    }
    assert(s.to_set().subset_of(t.to_set()));
    vstd::set_lib::lemma_subset_equality(s.to_set(), t.to_set());
    assert forall|x: Seq<char>| t.contains(x) implies s.contains(x) by {
        assert(t.to_set().contains(x));
        assert(s.to_set().contains(x));
    }
}

/// Toggling a model leaves every other catalog model as it was: in scope
/// before exactly when in scope after (for a catalog without repeats and
/// a scope without repeats, as every operation keeps it).
pub proof fn law_toggle_keeps_the_others(en: Option<Seq<Seq<char>>>, all: Seq<Seq<char>>, id: Seq<char>, x: Seq<char>)
    requires
        all.no_duplicates(),
        en matches Some(ids) ==> ids.no_duplicates(),
        all.contains(x),
        x != id,
    ensures
        is_enabled_spec(toggle_spec(en, all, id), x) == is_enabled_spec(en, x),
{
    match en {
        None => {
            law_toggle_from_all_disables_exactly_one(all, id, x);
        },
        Some(ids) => {
            lemma_position(ids, id, 0);
            match position_from(ids, id, 0) {
                Some(i) => {
                    let r = ids.remove(i);
                    assert(r.contains(x) == ids.contains(x)) by {
                        if r.contains(x) {
                            let k = choose|k: int| 0 <= k < r.len() && r[k] == x;
                            if k < i {
                                assert(ids[k] == x);
                            } else {
                                assert(ids[k + 1] == x);
                            }
                        }
                        if ids.contains(x) {
                            let k = choose|k: int| 0 <= k < ids.len() && ids[k] == x;
                            assert(k != i);
                            if k < i {
                                assert(r[k] == x);
                            } else {
                                assert(r[k - 1] == x);
                            }
                        }
                    }
                },
                None => {
                    let p = ids.push(id);
                    lemma_contains_push(ids, id);
                    assert(!ids.contains(id));
                    if p.len() == all.len() && (forall|i: int| 0 <= i < p.len() ==> all.contains(#[trigger] p[i])) {
                        assert(p.no_duplicates()) by {
                            assert forall|a: int, b: int| 0 <= a < p.len() && 0 <= b < p.len() && a != b implies p[a] != p[b] by {
                                if a < ids.len() && b < ids.len() {
                                    assert(p[a] == ids[a] && p[b] == ids[b]);
                                } else if a < ids.len() {
                                    assert(p[a] == ids[a]);
                                    assert(p[b] == id);
                                } else if b < ids.len() {
                                    assert(p[b] == ids[b]);
                                    assert(p[a] == id);
                                }
                            }
                        }
                        lemma_covers(p, all);
                        assert(p.contains(x));
                    }
                },
            }
        },
    }
}

/// Toggling one model off from "all enabled" leaves exactly the rest of the
/// catalog in scope.
pub proof fn law_toggle_from_all_disables_exactly_one(all: Seq<Seq<char>>, id: Seq<char>, x: Seq<char>)
    ensures
        is_enabled_spec(toggle_spec(None, all, id), x) == (all.contains(x) && x != id),
{
    lemma_keep_out(all, seq![id]);
    lemma_singleton(id);
    assert(seq![id].contains(x) == (x == id));
    assert(keep_out(all, seq![id]).contains(x) == (all.contains(x) && !seq![id].contains(x)));
}

/// A one-element list holds exactly its element.
pub proof fn lemma_singleton(id: Seq<char>)
    ensures
        forall|x: Seq<char>| seq![id].contains(x) <==> x == id,
{
    assert forall|x: Seq<char>| seq![id].contains(x) <==> x == id by {
        if x == id {
            assert(seq![id][0] == x);
        }
        if seq![id].contains(x) {
            let k = choose|k: int| 0 <= k < 1 && seq![id][k] == x;
            assert(k == 0);
        }
    }
}

/// After "enable all", every target model is in scope.
pub proof fn law_enable_all_enables_targets(
    en: Option<Seq<Seq<char>>>,
    all: Seq<Seq<char>>,
    targets: Option<Seq<Seq<char>>>,
    x: Seq<char>,
)
    requires
        match targets {
            Some(t) => t.contains(x),
            None => all.contains(x),
        },
    ensures
        is_enabled_spec(enable_all_spec(en, all, targets), x),
{
    if let Some(ids) = en {
        let t = match targets {
            Some(t) => t,
            None => all,
        };
        lemma_add_missing(ids, t);
    }
}

/// After "clear all" with targets, no target model is in scope, and every
/// other model keeps its state as long as the scope was explicit.
pub proof fn law_clear_all_disables_targets(
    en: Option<Seq<Seq<char>>>,
    all: Seq<Seq<char>>,
    t: Seq<Seq<char>>,
    x: Seq<char>,
)
    ensures
        t.contains(x) ==> !is_enabled_spec(clear_all_spec(en, all, Some(t)), x),
        (en is Some && !t.contains(x)) ==> is_enabled_spec(clear_all_spec(en, all, Some(t)), x)
            == is_enabled_spec(en, x),
        en is None && !t.contains(x) ==> is_enabled_spec(clear_all_spec(en, all, Some(t)), x)
            == all.contains(x),
{
    match en {
        None => lemma_keep_out(all, t),
        Some(ids) => lemma_keep_out(ids, t),
    }
}

/// "Clear all" without a search filter always leaves an explicitly empty
/// scope.
pub proof fn law_clear_all_unfiltered_is_empty(en: Option<Seq<Seq<char>>>, all: Seq<Seq<char>>)
    ensures
        clear_all_spec(en, all, None) == Some(Seq::<Seq<char>>::empty()),
{
    if let Some(ids) = en {
        assert forall|i: int| 0 <= i < ids.len() implies ids.contains(#[trigger] ids[i]) by {}
        lemma_keep_out_covered(ids, ids);
    }
}

/// Removing everything a list holds leaves nothing.
pub proof fn lemma_keep_out_covered(s: Seq<Seq<char>>, t: Seq<Seq<char>>)
    requires
        forall|i: int| 0 <= i < s.len() ==> t.contains(#[trigger] s[i]),
    ensures
        keep_out(s, t) == Seq::<Seq<char>>::empty(),
    decreases s.len(),
{
    if s.len() > 0 {
        assert(t.contains(s[s.len() - 1]));
        assert forall|i: int| 0 <= i < s.drop_last().len() implies t.contains(
            #[trigger] s.drop_last()[i],
        ) by {
            assert(s.drop_last()[i] == s[i]);
        }
        lemma_keep_out_covered(s.drop_last(), t);
    } else {
        assert(s =~= Seq::<Seq<char>>::empty());
    }
}

/// Reordering never changes which models are in scope.
pub proof fn law_move_keeps_scope(
    en: Option<Seq<Seq<char>>>,
    id: Seq<char>,
    delta: int,
    x: Seq<char>,
)
    ensures
        is_enabled_spec(move_spec(en, id, delta), x) == is_enabled_spec(en, x),
{
    if let Some(ids) = en {
        lemma_position(ids, id, 0);
        if let Some(i) = position_from(ids, id, 0) {
            let j = i + delta;
            if 0 <= j < ids.len() {
                let r = ids.update(i, ids[j]).update(j, ids[i]);
                if ids.contains(x) {
                    let k = choose|k: int| 0 <= k < ids.len() && ids[k] == x;
                    if k == i {
                        assert(r[j] == x);
                    } else if k == j {
                        assert(r[i] == x);
                    } else {
                        assert(r[k] == x);
                    }
                }
                if r.contains(x) {
                    let k = choose|k: int| 0 <= k < r.len() && r[k] == x;
                    if k == i {
                        assert(ids[j] == x);
                    } else if k == j {
                        assert(ids[i] == x);
                    } else {
                        assert(ids[k] == x);
                    }
                }
            }
        }
    }
}

/// Moving a model by `delta` and then by `-delta` puts the list back,
/// whenever the first move stayed inside the list.
pub proof fn law_move_round_trip(ids: Seq<Seq<char>>, k: int, delta: int)
    requires
        ids.no_duplicates(),
        0 <= k < ids.len(),
        0 <= k + delta < ids.len(),
    ensures
        (match move_spec(Some(ids), ids[k], delta) {
            Some(moved) => move_spec(Some(moved), ids[k], -delta),
            None => None,
        }) == Some(ids),
{
    let id = ids[k];
    lemma_position_unique(ids, k);
    let j = k + delta;
    let r = ids.update(k, ids[j]).update(j, ids[k]);
    assert(r.no_duplicates()) by {
        assert forall|a: int, b: int| 0 <= a < r.len() && 0 <= b < r.len() && a != b
            implies r[a] != r[b] by {
            let pa = if a == j { k } else if a == k { j } else { a };
            let pb = if b == j { k } else if b == k { j } else { b };
            assert(r[a] == ids[pa]);
            assert(r[b] == ids[pb]);
        }
    }
    assert(r[j] == id);
    lemma_position_unique(r, j);
    assert(r.update(j, r[k]).update(k, r[j]) =~= ids);
}

/// Pushing an absent element keeps a list free of repeats.
pub proof fn lemma_push_nodup(r: Seq<Seq<char>>, y: Seq<char>)
    requires
        r.no_duplicates(),
        !r.contains(y),
    ensures
        r.push(y).no_duplicates(),
{
    assert forall|a: int, b: int| 0 <= a < r.push(y).len() && 0 <= b < r.push(y).len() && a != b
        implies r.push(y)[a] != r.push(y)[b] by {
        if a == r.len() {
            assert(r[b] == r.push(y)[b]);
        } else if b == r.len() {
            assert(r[a] == r.push(y)[a]);
        }
    }
}

/// `keep_out` of a list without repeats has none either.
pub proof fn lemma_keep_out_nodup(s: Seq<Seq<char>>, t: Seq<Seq<char>>)
    requires
        s.no_duplicates(),
    ensures
        keep_out(s, t).no_duplicates(),
    decreases s.len(),
{
    if s.len() > 0 {
        let d = s.drop_last();
        assert(d.no_duplicates()) by {
            assert forall|a: int, b: int| 0 <= a < d.len() && 0 <= b < d.len() && a != b
                implies d[a] != d[b] by {
                assert(d[a] == s[a] && d[b] == s[b]);
            }
        }
        lemma_keep_out_nodup(d, t);
        lemma_keep_out(d, t);
        if !t.contains(s.last()) {
            if d.contains(s.last()) {
                let k = choose|k: int| 0 <= k < d.len() && d[k] == s.last();
                assert(s[k] == s[s.len() - 1]);
            }
            lemma_push_nodup(keep_out(d, t), s.last());
        }
    }
}

/// `add_missing` keeps a list free of repeats.
pub proof fn lemma_add_missing_nodup(ids: Seq<Seq<char>>, t: Seq<Seq<char>>)
    requires
        ids.no_duplicates(),
    ensures
        add_missing(ids, t).no_duplicates(),
    decreases t.len(),
{
    if t.len() > 0 {
        lemma_add_missing_nodup(ids, t.drop_last());
        let r = add_missing(ids, t.drop_last());
        if !r.contains(t.last()) {
            lemma_push_nodup(r, t.last());
        }
    }
}

/// Every operation of the panel keeps the explicit scope free of repeats,
/// given a catalog without repeats and a scope that had none.
pub proof fn law_scope_stays_without_repeats(
    en: Option<Seq<Seq<char>>>,
    all: Seq<Seq<char>>,
    targets: Option<Seq<Seq<char>>>,
    id: Seq<char>,
    delta: int,
)
    requires
        all.no_duplicates(),
        en matches Some(ids) ==> ids.no_duplicates(),
    ensures
        toggle_spec(en, all, id) matches Some(r) ==> r.no_duplicates(),
        enable_all_spec(en, all, targets) matches Some(r) ==> r.no_duplicates(),
        clear_all_spec(en, all, targets) matches Some(r) ==> r.no_duplicates(),
        move_spec(en, id, delta) matches Some(r) ==> r.no_duplicates(),
{
    match en {
        None => {
            lemma_keep_out_nodup(all, seq![id]);
            if let Some(t) = targets {
                lemma_keep_out_nodup(all, t);
            }
        },
        Some(ids) => {
            lemma_position(ids, id, 0);
            if let Some(i) = position_from(ids, id, 0) {
                let r = ids.remove(i);
                assert forall|a: int, b: int| 0 <= a < r.len() && 0 <= b < r.len() && a != b
                    implies r[a] != r[b] by {
                    let pa = if a < i { a } else { a + 1 };
                    let pb = if b < i { b } else { b + 1 };
                    assert(r[a] == ids[pa] && r[b] == ids[pb]);
                }
                let j = i + delta;
                if 0 <= j < ids.len() {
                    let m = ids.update(i, ids[j]).update(j, ids[i]);
                    assert forall|a: int, b: int| 0 <= a < m.len() && 0 <= b < m.len() && a != b
                        implies m[a] != m[b] by {
                        let pa = if a == j { i } else if a == i { j } else { a };
                        let pb = if b == j { i } else if b == i { j } else { b };
                        assert(m[a] == ids[pa] && m[b] == ids[pb]);
                    }
                }
            } else {
                lemma_push_nodup(ids, id);
            }
            let t = match targets {
                Some(t) => t,
                None => all,
            };
            lemma_add_missing_nodup(ids, t);
            let tc = match targets {
                Some(t) => t,
                None => ids,
            };
            lemma_keep_out_nodup(ids, tc);
        },
    }
}

/// The rendered order lists the explicit scope first, in its own order,
/// and holds every catalog model.
pub proof fn law_sorted_ids_order(en: Option<Seq<Seq<char>>>, all: Seq<Seq<char>>, x: Seq<char>)
    ensures
        en matches Some(ids) ==> sorted_spec(en, all).take(ids.len() as int) == ids,
        all.contains(x) ==> sorted_spec(en, all).contains(x),
{
    if let Some(ids) = en {
        assert((ids + keep_out(all, ids)).take(ids.len() as int) =~= ids);
        lemma_keep_out(all, ids);
        if all.contains(x) {
            if ids.contains(x) {
                let k = choose|k: int| 0 <= k < ids.len() && ids[k] == x;
                assert((ids + keep_out(all, ids))[k] == x);
            } else {
                let r = keep_out(all, ids);
                let k = choose|k: int| 0 <= k < r.len() && r[k] == x;
                assert((ids + r)[ids.len() + k] == x);
            }
        }
    }
}

// ---------------------------------------------------------------------------
// Executable helpers
// ---------------------------------------------------------------------------

/// Whether `v` holds a string equal to `id`.
fn contains_str(v: &[String], id: &String) -> (r: bool)
    ensures
        r == strs(v@).contains(id@),
{
    let mut i: usize = 0;
    while i < v.len()
        invariant
            i <= v.len(),
            forall|k: int| 0 <= k < i ==> v@[k]@ != id@,
        decreases v.len() - i,
    {
        if v[i] == *id {
            assert(strs(v@)[i as int] == id@);
            return true;
        }
        i += 1;
    }
    proof {
        if strs(v@).contains(id@) {
            let k = choose|k: int| 0 <= k < strs(v@).len() && strs(v@)[k] == id@;
            assert(v@[k]@ == id@);
        }
    }
    false
}

/// First index of `id` in `v`.
fn position(v: &[String], id: &String) -> (r: Option<usize>)
    ensures
        match r {
            Some(i) => position_from(strs(v@), id@, 0) == Some(i as int) && i < v.len(),
            None => position_from(strs(v@), id@, 0) is None,
        },
{
    let mut i: usize = 0;
    while i < v.len()
        invariant
            i <= v.len(),
            position_from(strs(v@), id@, 0) == position_from(strs(v@), id@, i as int),
        decreases v.len() - i,
    {
        if v[i] == *id {
            return Some(i);
        }
        i += 1;
    }
    None
}

/// A copy of a list of strings.
fn copy_strs(v: &[String]) -> (r: Vec<String>)
    ensures
        strs(r@) == strs(v@),
{
    let mut out: Vec<String> = Vec::new();
    let mut i: usize = 0;
    while i < v.len()
        invariant
            i <= v.len(),
            strs(out@) == strs(v@).take(i as int),
        decreases v.len() - i,
    {
        let ghost before = out@;
        let c = v[i].clone();
        out.push(c);
        assert(out@ == before.push(c));
        assert(c@ == v@[i as int]@);
        proof {
            lemma_strs_push(before, c);
        }
        assert(strs(v@).take(i + 1) =~= strs(v@).take(i as int).push(v@[i as int]@));
        i += 1;
    }
    assert(strs(v@).take(v.len() as int) =~= strs(v@));
    out
}

/// `keep_out` on vectors.
fn keep_out_exec(s: &[String], t: &[String]) -> (r: Vec<String>)
    ensures
        strs(r@) == keep_out(strs(s@), strs(t@)),
{
    let mut out: Vec<String> = Vec::new();
    let mut i: usize = 0;
    while i < s.len()
        invariant
            i <= s.len(),
            strs(out@) == keep_out(strs(s@).take(i as int), strs(t@)),
        decreases s.len() - i,
    {
        let keep = !contains_str(t, &s[i]);
        assert(strs(s@).take(i + 1).drop_last() =~= strs(s@).take(i as int));
        assert(strs(s@).take(i + 1).last() == s@[i as int]@);
        if keep {
            out.push(s[i].clone());
            assert(strs(out@) =~= keep_out(strs(s@).take(i as int), strs(t@)).push(s@[i as int]@));
        }
        i += 1;
    }
    assert(strs(s@).take(s.len() as int) =~= strs(s@));
    out
}

/// `keep_in` on vectors.
fn keep_in_exec(s: &[String], t: &[String]) -> (r: Vec<String>)
    ensures
        strs(r@) == keep_in(strs(s@), strs(t@)),
{
    let mut out: Vec<String> = Vec::new();
    let mut i: usize = 0;
    while i < s.len()
        invariant
            i <= s.len(),
            strs(out@) == keep_in(strs(s@).take(i as int), strs(t@)),
        decreases s.len() - i,
    {
        let keep = contains_str(t, &s[i]);
        assert(strs(s@).take(i + 1).drop_last() =~= strs(s@).take(i as int));
        assert(strs(s@).take(i + 1).last() == s@[i as int]@);
        if keep {
            out.push(s[i].clone());
            assert(strs(out@) =~= keep_in(strs(s@).take(i as int), strs(t@)).push(s@[i as int]@));
        }
        i += 1;
    }
    assert(strs(s@).take(s.len() as int) =~= strs(s@));
    out
}

/// Whether two optional lists hold equal strings in the same order.
fn same_enabled(a: &Option<Vec<String>>, b: &Option<Vec<String>>) -> (r: bool)
    ensures
        r == (en_view(*a) == en_view(*b)),
{
    match a {
        None => b.is_none(),
        Some(x) => {
            let y = match b {
                None => {
                    return false;
                },
                Some(y) => y,
            };
            if x.len() != y.len() {
                assert(strs(x@).len() != strs(y@).len());
                return false;
            }
            let mut i: usize = 0;
            while i < x.len()
                invariant
                    i <= x.len() == y.len(),
                    forall|k: int| 0 <= k < i ==> x@[k]@ == y@[k]@,
                    en_view(*a) == Some(strs(x@)),
                    en_view(*b) == Some(strs(y@)),
                decreases x.len() - i,
            {
                if !(x[i] == y[i]) {
                    assert(strs(x@)[i as int] != strs(y@)[i as int]);
                    assert(en_view(*a) == Some(strs(x@)));
                    assert(en_view(*b) == Some(strs(y@)));
                    return false;
                }
                i += 1;
            }
            assert(strs(x@) =~= strs(y@));
            true
        },
    }
}

// ---------------------------------------------------------------------------
// Public functions
// ---------------------------------------------------------------------------

/// `provider/modelId` — the identity the panel keys its rows by.
pub fn full_id(provider: &str, model_id: &str) -> (r: String)
    ensures
        r@ == provider@ + seq!['/'] + model_id@,
{
    let mut out = String::from_str(provider);
    push_char(&mut out, '/');
    out.append(model_id);
    out
}

/// The model id inside a panel value (`scoped:anthropic/model-x` →
/// `anthropic/model-x`).
pub fn value_to_id(value: &str) -> (r: Option<&str>)
    ensures
        match r {
            Some(id) => crate::text::starts_with(value@, VALUE_PREFIX@) && id@ == value@.skip(
                VALUE_PREFIX@.len() as int,
            ),
            None => !crate::text::starts_with(value@, VALUE_PREFIX@),
        },
{
    let v = chars_of(value);
    let p = chars_of(VALUE_PREFIX);
    if crate::text::starts_with_exec(&v, &p) {
        Some(value.substring_char(p.len(), v.len()))
    } else {
        None
    }
}

/// Whether `id` is in the scope (`None` scopes every model).
pub fn is_enabled(enabled: &Option<Vec<String>>, id: &str) -> (r: bool)
    ensures
        r == is_enabled_spec(en_view(*enabled), id@),
{
    match enabled {
        None => true,
        Some(ids) => {
            let id_s = String::from_str(id);
            contains_str(ids.as_slice(), &id_s)
        },
    }
}

/// Normalise a scope: collapse an explicit list back to `None`
/// when it covers every available model.
pub fn normalize_enabled(result: Vec<String>, all_ids: &[String]) -> (r: Option<Vec<String>>)
    ensures
        en_view(r) == normalize_spec(strs(result@), strs(all_ids@)),
{
    if result.len() != all_ids.len() {
        return Some(result);
    }
    let mut i: usize = 0;
    while i < result.len()
        invariant
            i <= result.len(),
            forall|k: int| 0 <= k < i ==> strs(all_ids@).contains(#[trigger] strs(result@)[k]),
        decreases result.len() - i,
    {
        if !contains_str(all_ids, &result[i]) {
            assert(!strs(all_ids@).contains(strs(result@)[i as int]));
            return Some(result);
        }
        i += 1;
    }
    None
}

/// Toggle one model. Toggling *on* appends to the end of the list and
/// re-collapses when the last model is enabled.
pub fn toggle(enabled: &Option<Vec<String>>, all_ids: &[String], id: &str) -> (r: Option<
    Vec<String>,
>)
    ensures
        en_view(r) == toggle_spec(en_view(*enabled), strs(all_ids@), id@),
{
    let id_s = String::from_str(id);
    let one: Vec<String> = vec![id_s.clone()];
    assert(strs(one@) =~= seq![id@]);
    match enabled {
        None => Some(keep_out_exec(all_ids, one.as_slice())),
        Some(ids) => match position(ids.as_slice(), &id_s) {
            Some(index) => {
                let mut next = copy_strs(ids.as_slice());
                let ghost before = next@;
                next.remove(index);
                assert(strs(next@) =~= strs(before).remove(index as int));
                Some(next)
            },
            None => {
                let mut next = copy_strs(ids.as_slice());
                next.push(id_s);
                assert(strs(next@) =~= strs(ids@).push(id@));
                normalize_enabled(next, all_ids)
            },
        },
    }
}

/// Enable a set of models. `None` targets the whole catalog; `Some(list)` is
/// the filtered subset, which may legitimately be empty.
pub fn enable_all(
    enabled: &Option<Vec<String>>,
    all_ids: &[String],
    targets: Option<&[String]>,
) -> (r: Option<Vec<String>>)
    ensures
        en_view(r) == enable_all_spec(
            en_view(*enabled),
            strs(all_ids@),
            match targets {
                Some(t) => Some(strs(t@)),
                None => None,
            },
        ),
{
    let ids = match enabled {
        None => {
            return None;
        },
        Some(ids) => ids,
    };
    let t: &[String] = match targets {
        Some(t) => t,
        None => all_ids,
    };
    let mut result = copy_strs(ids.as_slice());
    let mut i: usize = 0;
    while i < t.len()
        invariant
            i <= t.len(),
            strs(result@) == add_missing(strs(ids@), strs(t@).take(i as int)),
        decreases t.len() - i,
    {
        assert(strs(t@).take(i + 1).drop_last() =~= strs(t@).take(i as int));
        assert(strs(t@).take(i + 1).last() == t@[i as int]@);
        if !contains_str(result.as_slice(), &t[i]) {
            result.push(t[i].clone());
            assert(strs(result@) =~= add_missing(strs(ids@), strs(t@).take(i as int)).push(
                t@[i as int]@,
            ));
        }
        i += 1;
    }
    assert(strs(t@).take(t.len() as int) =~= strs(t@));
    normalize_enabled(result, all_ids)
}

/// Clear a set of models. With `targets`, only those ids leave the scope;
/// without, the scope becomes explicitly empty.
pub fn clear_all(
    enabled: &Option<Vec<String>>,
    all_ids: &[String],
    targets: Option<&[String]>,
) -> (r: Option<Vec<String>>)
    ensures
        en_view(r) == clear_all_spec(
            en_view(*enabled),
            strs(all_ids@),
            match targets {
                Some(t) => Some(strs(t@)),
                None => None,
            },
        ),
{
    match enabled {
        None => match targets {
            Some(t) => Some(keep_out_exec(all_ids, t)),
            None => {
                let e: Vec<String> = Vec::new();
                assert(strs(e@) =~= Seq::<Seq<char>>::empty());
                Some(e)
            },
        },
        Some(ids) => {
            let t: &[String] = match targets {
                Some(t) => t,
                None => ids.as_slice(),
            };
            Some(keep_out_exec(ids.as_slice(), t))
        },
    }
}

/// Move a model: swap `id` with its neighbour `delta` slots away inside
/// the enabled list. Out-of-range moves (and an id that is not enabled)
/// return the list unchanged.
pub fn move_model(enabled: &Option<Vec<String>>, id: &str, delta: isize) -> (r: Option<
    Vec<String>,
>)
    ensures
        en_view(r) == move_spec(en_view(*enabled), id@, delta as int),
{
    let ids = match enabled {
        None => {
            return None;
        },
        Some(ids) => ids,
    };
    let id_s = String::from_str(id);
    let index = match position(ids.as_slice(), &id_s) {
        None => {
            return Some(copy_strs(ids.as_slice()));
        },
        Some(i) => i,
    };
    let new_index: i128 = index as i128 + delta as i128;
    if new_index < 0 || new_index >= ids.len() as i128 {
        return Some(copy_strs(ids.as_slice()));
    }
    let j = new_index as usize;
    let mut result = copy_strs(ids.as_slice());
    let a = result[index].clone();
    let b = result[j].clone();
    let ghost before = strs(result@);
    result.set(index, b);
    result.set(j, a);
    assert(strs(result@) =~= before.update(index as int, before[j as int]).update(
        j as int,
        before[index as int],
    ));
    Some(result)
}

/// Listing order: the enabled models in their explicit order,
/// followed by every remaining catalog model in catalog order.
pub fn sorted_ids(enabled: &Option<Vec<String>>, all_ids: &[String]) -> (r: Vec<String>)
    ensures
        strs(r@) == sorted_spec(en_view(*enabled), strs(all_ids@)),
{
    match enabled {
        None => copy_strs(all_ids),
        Some(ids) => {
            let mut result = copy_strs(ids.as_slice());
            let mut rest = keep_out_exec(all_ids, ids.as_slice());
            let ghost a = strs(result@);
            let ghost b = strs(rest@);
            result.append(&mut rest);
            assert(strs(result@) =~= a + b);
            result
        },
    }
}


// ---------------------------------------------------------------------------
// The panel
// ---------------------------------------------------------------------------

/// The chords the footer advertises, already rendered for display.
///
/// The driver resolves them from the live keybinding table; the field
/// names are the `app.models.*` / `tui.select.confirm` actions.
#[derive(Debug, Clone, PartialEq, Eq)]
pub struct FooterKeys {
    /// `tui.select.confirm` — toggle the highlighted model.
    pub confirm: String,
    /// `app.models.enableAll`.
    pub enable_all: String,
    /// `app.models.clearAll`.
    pub clear_all: String,
    /// `app.models.toggleProvider`.
    pub toggle_provider: String,
    /// `app.models.reorderUp`.
    pub reorder_up: String,
    /// `app.models.reorderDown`.
    pub reorder_down: String,
    /// `app.models.save`.
    pub save: String,
}

impl FooterKeys {
    /// The built-in chords, used when the keybinding table binds none.
    pub fn defaults() -> (r: FooterKeys)
        ensures
            r.confirm@ == "enter"@,
            r.enable_all@ == "ctrl+a"@,
            r.clear_all@ == "ctrl+x"@,
            r.toggle_provider@ == "ctrl+p"@,
            r.reorder_up@ == "alt+up"@,
            r.reorder_down@ == "alt+down"@,
            r.save@ == "ctrl+s"@,
    {
        FooterKeys {
            confirm: String::from_str("enter"),
            enable_all: String::from_str("ctrl+a"),
            clear_all: String::from_str("ctrl+x"),
            toggle_provider: String::from_str("ctrl+p"),
            reorder_up: String::from_str("alt+up"),
            reorder_down: String::from_str("alt+down"),
            save: String::from_str("ctrl+s"),
        }
    }
}

/// Mathematical model of the panel.
pub ghost struct PanelModel {
    /// `(provider/modelId, provider)` per catalog row, in catalog order.
    pub catalog: Seq<(Seq<char>, Seq<char>)>,
    /// The enabled set (`None` = all).
    pub enabled: Option<Seq<Seq<char>>>,
    /// A change that has not been persisted yet.
    pub dirty: bool,
    /// Status line under the list.
    pub status: Option<Seq<char>>,
}

/// The provider recorded for `id` among the first `j` catalog rows (the
/// last row wins, as with repeated map inserts).
pub open spec fn provider_below(cat: Seq<(Seq<char>, Seq<char>)>, id: Seq<char>, j: int) -> Option<
    Seq<char>,
>
    decreases j,
{
    if j <= 0 || j > cat.len() {
        None
    } else if cat[j - 1].0 == id {
        Some(cat[j - 1].1)
    } else {
        provider_below(cat, id, j - 1)
    }
}

/// The ids among `all` whose recorded provider is `p`, in order.
pub open spec fn with_provider(
    cat: Seq<(Seq<char>, Seq<char>)>,
    all: Seq<Seq<char>>,
    p: Seq<char>,
) -> Seq<Seq<char>>
    decreases all.len(),
{
    if all.len() == 0 {
        all
    } else if provider_below(cat, all.last(), cat.len() as int) == Some(p) {
        with_provider(cat, all.drop_last(), p).push(all.last())
    } else {
        with_provider(cat, all.drop_last(), p)
    }
}

impl PanelModel {
    /// Every catalog id, in catalog order.
    pub open spec fn all_ids(self) -> Seq<Seq<char>> {
        self.catalog.map_values(|e: (Seq<char>, Seq<char>)| e.0)
    }

    /// The provider of `id`, when the catalog knows it.
    pub open spec fn provider_of(self, id: Seq<char>) -> Option<Seq<char>> {
        provider_below(self.catalog, id, self.catalog.len() as int)
    }
}

/// The cycle scope: the ordered scope a model cycle walks,
/// or `None` when it must use the whole catalog.
pub open spec fn cycle_scope_spec(en: Option<Seq<Seq<char>>>, all: Seq<Seq<char>>) -> Option<
    Seq<Seq<char>>,
> {
    match en {
        None => None,
        Some(ids) => if ids.len() == 0 {
            None
        } else if !(exists|i: int| 0 <= i < ids.len() && all.contains(#[trigger] ids[i])) {
            None
        } else if forall|i: int| 0 <= i < all.len() ==> ids.contains(#[trigger] all[i]) {
            None
        } else {
            Some(keep_in(ids, all))
        },
    }
}

/// The state line of the footer: `all enabled`, `n/total enabled`, or
/// `n/total enabled · k unavailable`.
pub open spec fn count_text(en: Option<Seq<Seq<char>>>, all: Seq<Seq<char>>) -> Seq<char> {
    match en {
        None => "all enabled"@,
        Some(ids) => {
            let enabled_count = keep_in(ids, all).len();
            let unavailable = keep_out(ids, all).len();
            if unavailable > 0 {
                decimal(enabled_count) + "/"@ + decimal(all.len()) + " enabled \u{b7} "@
                    + decimal(unavailable) + " unavailable"@
            } else {
                decimal(enabled_count) + "/"@ + decimal(all.len()) + " enabled"@
            }
        },
    }
}

/// The footer lines: three legend lines, the state line, and the status
/// line when one is set.
pub open spec fn footer_spec(m: PanelModel, k: FooterKeys) -> Seq<Seq<char>> {
    let legend = seq![
        "  "@ + k.confirm@ + " toggle \u{b7} "@ + k.enable_all@ + " enable all \u{b7} "@
            + k.clear_all@ + " clear all"@,
        "  "@ + k.toggle_provider@ + " toggle provider \u{b7} "@ + k.reorder_up@ + " / "@
            + k.reorder_down@ + " reorder \u{b7} "@ + k.save@ + " save"@,
        "  Session-only. "@ + k.save@ + " to save to settings."@,
        "  "@ + count_text(m.enabled, m.all_ids()) + if m.dirty {
            " (unsaved)"@
        } else {
            Seq::empty()
        },
    ];
    match m.status {
        Some(s) => legend.push("  "@ + s),
        None => legend,
    }
}

/// The whole panel: the catalog it browses, the enabled set, and the
/// transient UI state.
#[derive(Debug, Clone)]
pub struct ScopedModelsPanel {
    /// `(provider/modelId, provider)` per catalog row.
    catalog: Vec<(String, String)>,
    /// The enabled set (`None` = all).
    enabled: Option<Vec<String>>,
    /// A change that has not been written to `settings.json` yet.
    dirty: bool,
    /// Status line under the list.
    status: Option<String>,
}

/// View of the catalog rows.
pub open spec fn cat_view(c: Seq<(String, String)>) -> Seq<(Seq<char>, Seq<char>)> {
    c.map_values(|e: (String, String)| (e.0@, e.1@))
}

/// Catalog rows for `(provider, modelId)` pairs.
pub open spec fn catalog_rows(c: Seq<(String, String)>) -> Seq<(Seq<char>, Seq<char>)> {
    c.map_values(|e: (String, String)| (e.0@ + seq!['/'] + e.1@, e.0@))
}

/// View of an optional string.
pub open spec fn status_view(s: Option<String>) -> Option<Seq<char>> {
    match s {
        Some(x) => Some(x@),
        None => None,
    }
}

impl View for ScopedModelsPanel {
    type V = PanelModel;

    closed spec fn view(&self) -> PanelModel {
        PanelModel {
            catalog: cat_view(self.catalog@),
            enabled: en_view(self.enabled),
            dirty: self.dirty,
            status: status_view(self.status),
        }
    }
}

/// Catalog rows built from `(provider, modelId)` pairs.
fn build_rows(catalog: &[(String, String)]) -> (r: Vec<(String, String)>)
    ensures
        cat_view(r@) == catalog_rows(catalog@),
{
    let mut out: Vec<(String, String)> = Vec::new();
    let mut i: usize = 0;
    while i < catalog.len()
        invariant
            i <= catalog.len(),
            cat_view(out@) == catalog_rows(catalog@).take(i as int),
        decreases catalog.len() - i,
    {
        let (provider, model) = &catalog[i];
        let id = full_id(provider.as_str(), model.as_str());
        let ghost before = out@;
        let row = (id, provider.clone());
        out.push(row);
        assert(cat_view(out@) =~= cat_view(before).push((row.0@, row.1@)));
        assert(catalog_rows(catalog@).take(i + 1) =~= catalog_rows(catalog@).take(i as int).push(
            (row.0@, row.1@),
        ));
        i += 1;
    }
    assert(catalog_rows(catalog@).take(catalog.len() as int) =~= catalog_rows(catalog@));
    out
}

/// One rendered row of the panel.
#[derive(Debug, Clone, PartialEq, Eq)]
pub struct PanelRow {
    /// `scoped:` followed by the model id.
    pub value: String,
    /// The id, with a check mark in front when it is enabled.
    pub label: String,
    /// The provider, or `unavailable` for an id the catalog does not know.
    pub description: String,
}

/// The row the panel renders for `id`.
pub open spec fn row_spec(m: PanelModel, id: Seq<char>) -> (Seq<char>, Seq<char>, Seq<char>) {
    (
        VALUE_PREFIX@ + id,
        if is_enabled_spec(m.enabled, id) {
            "\u{2713} "@ + id
        } else {
            id
        },
        match m.provider_of(id) {
            Some(p) => p,
            None => "unavailable"@,
        },
    )
}

/// View of a list of rows.
pub open spec fn rows_view(v: Seq<PanelRow>) -> Seq<(Seq<char>, Seq<char>, Seq<char>)> {
    v.map_values(|r: PanelRow| (r.value@, r.label@, r.description@))
}

impl ScopedModelsPanel {
    /// Build the panel for `catalog` (`(provider, modelId)` pairs), seeded
    /// from the persisted `enabledModels` list.
    ///
    /// Ids in `configured` that the catalog does not know are kept: they
    /// show as unavailable rows instead of dropping the user's
    /// configuration.
    pub fn new(catalog: &[(String, String)], configured: Option<&[String]>) -> (r: Self)
        ensures
            r@.catalog == catalog_rows(catalog@),
            r@.enabled == match configured {
                Some(c) => Some(strs(c@)),
                None => None,
            },
            !r@.dirty,
            r@.status is None,
    {
        let enabled = match configured {
            Some(c) => Some(copy_strs(c)),
            None => None,
        };
        ScopedModelsPanel { catalog: build_rows(catalog), enabled, dirty: false, status: None }
    }

    /// Replace the catalog without touching the scope.
    pub fn update_catalog(&mut self, catalog: &[(String, String)])
        ensures
            final(self)@.catalog == catalog_rows(catalog@),
            final(self)@.enabled == old(self)@.enabled,
            final(self)@.dirty == old(self)@.dirty,
            final(self)@.status == old(self)@.status,
    {
        self.catalog = build_rows(catalog);
    }

    /// Every catalog id, in catalog order.
    fn all_ids(&self) -> (r: Vec<String>)
        ensures
            strs(r@) == self@.all_ids(),
    {
        let mut out: Vec<String> = Vec::new();
        let mut i: usize = 0;
        while i < self.catalog.len()
            invariant
                i <= self.catalog.len(),
                strs(out@) == self@.all_ids().take(i as int),
            decreases self.catalog.len() - i,
        {
            let c = self.catalog[i].0.clone();
            let ghost before = out@;
            out.push(c);
            proof {
                lemma_strs_push(before, c);
            }
            assert(self@.all_ids().take(i + 1) =~= self@.all_ids().take(i as int).push(c@));
            i += 1;
        }
        assert(self@.all_ids().take(self.catalog.len() as int) =~= self@.all_ids());
        out
    }

    /// The provider recorded for `id`.
    fn provider_of(&self, id: &String) -> (r: Option<String>)
        ensures
            status_view(r) == self@.provider_of(id@),
    {
        let mut j: usize = self.catalog.len();
        while j > 0
            invariant
                j <= self.catalog.len(),
                self@.provider_of(id@) == provider_below(self@.catalog, id@, j as int),
            decreases j,
        {
            if self.catalog[j - 1].0 == *id {
                return Some(self.catalog[j - 1].1.clone());
            }
            j -= 1;
        }
        None
    }

    /// The live scope (`None` = every model).
    pub fn enabled(&self) -> (r: &Option<Vec<String>>)
        ensures
            en_view(*r) == self@.enabled,
    {
        &self.enabled
    }

    /// True when a change is not persisted yet.
    pub fn dirty(&self) -> (r: bool)
        ensures
            r == self@.dirty,
    {
        self.dirty
    }

    /// The last status message, if any.
    pub fn status(&self) -> (r: Option<&str>)
        ensures
            match r {
                Some(s) => self@.status == Some(s@),
                None => self@.status is None,
            },
    {
        match &self.status {
            Some(s) => Some(s.as_str()),
            None => None,
        }
    }

    /// Record the outcome of a save.
    pub fn mark_saved(&mut self, status: &str)
        ensures
            !final(self)@.dirty,
            final(self)@.status == Some(status@),
            final(self)@.catalog == old(self)@.catalog,
            final(self)@.enabled == old(self)@.enabled,
    {
        self.dirty = false;
        self.status = Some(String::from_str(status));
    }

    /// The order the list renders in.
    pub fn visible_ids(&self) -> (r: Vec<String>)
        ensures
            strs(r@) == sorted_spec(self@.enabled, self@.all_ids()),
    {
        let all = self.all_ids();
        sorted_ids(&self.enabled, all.as_slice())
    }

    /// The rows, in [`Self::visible_ids`] order.
    pub fn items(&self) -> (r: Vec<PanelRow>)
        ensures
            rows_view(r@) == sorted_spec(self@.enabled, self@.all_ids()).map_values(
                |id: Seq<char>| row_spec(self@, id),
            ),
    {
        let ids = self.visible_ids();
        let ghost want = sorted_spec(self@.enabled, self@.all_ids()).map_values(
            |id: Seq<char>| row_spec(self@, id),
        );
        let mut out: Vec<PanelRow> = Vec::new();
        let mut i: usize = 0;
        while i < ids.len()
            invariant
                i <= ids.len(),
                strs(ids@) == sorted_spec(self@.enabled, self@.all_ids()),
                want == strs(ids@).map_values(|id: Seq<char>| row_spec(self@, id)),
                rows_view(out@) == want.take(i as int),
            decreases ids.len() - i,
        {
            let id = &ids[i];
            let mut value = String::from_str(VALUE_PREFIX);
            value.append(id.as_str());
            let label = if is_enabled(&self.enabled, id.as_str()) {
                let mut l = String::from_str("\u{2713} ");
                l.append(id.as_str());
                l
            } else {
                id.clone()
            };
            let description = match self.provider_of(id) {
                Some(p) => p,
                None => String::from_str("unavailable"),
            };
            let row = PanelRow { value, label, description };
            assert(strs(ids@)[i as int] == id@);
            assert((row.value@, row.label@, row.description@) == row_spec(self@, id@));
            let ghost before = out@;
            out.push(row);
            assert(rows_view(out@) =~= rows_view(before).push(row_spec(self@, id@)));
            assert(want.take(i + 1) =~= want.take(i as int).push(row_spec(self@, id@)));
            i += 1;
        }
        assert(want.take(ids.len() as int) =~= want);
        out
    }

    /// The ordered scope a model cycle should walk, or `None` when the cycle
    /// must use the whole catalog: no explicit scope, an empty scope, a
    /// scope of unknown ids only, and a scope that holds every available
    /// model all cycle everything.
    pub fn cycle_scope(&self) -> (r: Option<Vec<String>>)
        ensures
            en_view(r) == cycle_scope_spec(self@.enabled, self@.all_ids()),
    {
        let ids = match &self.enabled {
            None => {
                return None;
            },
            Some(ids) => ids,
        };
        if ids.len() == 0 {
            return None;
        }
        let all = self.all_ids();
        let mut any_known = false;
        let mut i: usize = 0;
        while i < ids.len()
            invariant
                i <= ids.len(),
                any_known == (exists|k: int| 0 <= k < i && strs(all@).contains(#[trigger] strs(ids@)[k])),
            decreases ids.len() - i,
        {
            if contains_str(all.as_slice(), &ids[i]) {
                assert(strs(all@).contains(strs(ids@)[i as int]));
                any_known = true;
            }
            i += 1;
        }
        if !any_known {
            return None;
        }
        let mut covers = true;
        let mut k: usize = 0;
        while k < all.len()
            invariant
                k <= all.len(),
                covers == (forall|m: int| 0 <= m < k ==> strs(ids@).contains(#[trigger] strs(all@)[m])),
            decreases all.len() - k,
        {
            assert(strs(all@)[k as int] == all@[k as int]@);
            if !contains_str(ids.as_slice(), &all[k]) {
                covers = false;
            }
            k += 1;
        }
        if covers {
            return None;
        }
        Some(keep_in_exec(ids.as_slice(), all.as_slice()))
    }

    /// The footer lines: three legend lines naming `keys`, the state line
    /// (`all enabled` / `n/total enabled`, plus `· k unavailable` and
    /// `(unsaved)` when they apply), and the status line when one is set.
    pub fn footer(&self, keys: &FooterKeys) -> (r: Vec<String>)
        ensures
            strs(r@) == footer_spec(self@, *keys),
    {
        let all = self.all_ids();
        let mut line0 = String::from_str("  ");
        line0.append(keys.confirm.as_str());
        push_str(&mut line0, " toggle \u{b7} ");
        line0.append(keys.enable_all.as_str());
        push_str(&mut line0, " enable all \u{b7} ");
        line0.append(keys.clear_all.as_str());
        push_str(&mut line0, " clear all");
        let mut line1 = String::from_str("  ");
        line1.append(keys.toggle_provider.as_str());
        push_str(&mut line1, " toggle provider \u{b7} ");
        line1.append(keys.reorder_up.as_str());
        push_str(&mut line1, " / ");
        line1.append(keys.reorder_down.as_str());
        push_str(&mut line1, " reorder \u{b7} ");
        line1.append(keys.save.as_str());
        push_str(&mut line1, " save");
        let mut line2 = String::from_str("  Session-only. ");
        line2.append(keys.save.as_str());
        push_str(&mut line2, " to save to settings.");
        let mut line3 = String::from_str("  ");
        match &self.enabled {
            None => {
                push_str(&mut line3, "all enabled");
                assert(line3@ =~= "  "@ + count_text(self@.enabled, self@.all_ids()));
            },
            Some(ids) => {
                let known = keep_in_exec(ids.as_slice(), all.as_slice());
                let unknown = keep_out_exec(ids.as_slice(), all.as_slice());
                assert(known@.len() == strs(known@).len());
                assert(unknown@.len() == strs(unknown@).len());
                push_decimal(&mut line3, known.len() as u64);
                push_str(&mut line3, "/");
                push_decimal(&mut line3, all.len() as u64);
                assert(all@.len() == strs(all@).len());
                if unknown.len() > 0 {
                    push_str(&mut line3, " enabled \u{b7} ");
                    push_decimal(&mut line3, unknown.len() as u64);
                    push_str(&mut line3, " unavailable");
                } else {
                    push_str(&mut line3, " enabled");
                }
                assert(line3@ =~= "  "@ + count_text(self@.enabled, self@.all_ids()));
            },
        }
        let ghost base = line3@;
        if self.dirty {
            push_str(&mut line3, " (unsaved)");
        } else {
            assert(base + Seq::<char>::empty() =~= base);
        }
        let mut lines: Vec<String> = Vec::new();
        lines.push(line0);
        lines.push(line1);
        lines.push(line2);
        lines.push(line3);
        match &self.status {
            Some(s) => {
                let mut line4 = String::from_str("  ");
                line4.append(s.as_str());
                lines.push(line4);
            },
            None => {},
        }
        assert(strs(lines@) =~= footer_spec(self@, *keys));
        lines
    }

    /// Store `next`, flagging dirtiness only when something really
    /// changed. Returns whether it did.
    fn commit(&mut self, next: Option<Vec<String>>) -> (changed: bool)
        ensures
            changed == (en_view(next) != old(self)@.enabled),
            changed ==> final(self)@ == (PanelModel {
                enabled: en_view(next),
                dirty: true,
                status: None,
                ..old(self)@
            }),
            !changed ==> final(self)@ == old(self)@,
    {
        if same_enabled(&next, &self.enabled) {
            return false;
        }
        self.enabled = next;
        self.dirty = true;
        self.status = None;
        true
    }

    /// Toggle one model. Returns true when the scope changed.
    pub fn toggle(&mut self, id: &str) -> (changed: bool)
        ensures
            ({
                let next = toggle_spec(old(self)@.enabled, old(self)@.all_ids(), id@);
                &&& changed == (next != old(self)@.enabled)
                &&& changed ==> final(self)@ == (PanelModel {
                    enabled: next,
                    dirty: true,
                    status: None,
                    ..old(self)@
                })
                &&& !changed ==> final(self)@ == old(self)@
            }),
    {
        let all = self.all_ids();
        let next = toggle(&self.enabled, all.as_slice(), id);
        self.commit(next)
    }

    /// Enable every listed model, or the whole catalog when `targets` is
    /// `None` (no search active).
    pub fn enable_all(&mut self, targets: Option<&[String]>) -> (changed: bool)
        ensures
            ({
                let next = enable_all_spec(
                    old(self)@.enabled,
                    old(self)@.all_ids(),
                    match targets {
                        Some(t) => Some(strs(t@)),
                        None => None,
                    },
                );
                &&& changed == (next != old(self)@.enabled)
                &&& changed ==> final(self)@ == (PanelModel {
                    enabled: next,
                    dirty: true,
                    status: None,
                    ..old(self)@
                })
                &&& !changed ==> final(self)@ == old(self)@
            }),
    {
        let all = self.all_ids();
        let next = enable_all(&self.enabled, all.as_slice(), targets);
        self.commit(next)
    }

    /// Clear the enabled set, or only `targets` when a search is active.
    pub fn clear_all(&mut self, targets: Option<&[String]>) -> (changed: bool)
        ensures
            ({
                let next = clear_all_spec(
                    old(self)@.enabled,
                    old(self)@.all_ids(),
                    match targets {
                        Some(t) => Some(strs(t@)),
                        None => None,
                    },
                );
                &&& changed == (next != old(self)@.enabled)
                &&& changed ==> final(self)@ == (PanelModel {
                    enabled: next,
                    dirty: true,
                    status: None,
                    ..old(self)@
                })
                &&& !changed ==> final(self)@ == old(self)@
            }),
    {
        let all = self.all_ids();
        let next = clear_all(&self.enabled, all.as_slice(), targets);
        self.commit(next)
    }

    /// Toggle every model of the highlighted model's provider: when all of
    /// them are enabled they are cleared, otherwise they are enabled. An
    /// id the catalog does not know has no provider and changes nothing.
    pub fn toggle_provider(&mut self, id: &str) -> (changed: bool)
        ensures
            old(self)@.provider_of(id@) is None ==> !changed && final(self)@ == old(self)@,
            old(self)@.provider_of(id@) matches Some(p) ==> ({
                let all = old(self)@.all_ids();
                let pids = with_provider(old(self)@.catalog, all, p);
                let all_on = forall|i: int|
                    0 <= i < pids.len() ==> is_enabled_spec(old(self)@.enabled, #[trigger] pids[i]);
                let next = if all_on {
                    clear_all_spec(old(self)@.enabled, all, Some(pids))
                } else {
                    enable_all_spec(old(self)@.enabled, all, Some(pids))
                };
                &&& changed == (next != old(self)@.enabled)
                &&& changed ==> final(self)@ == (PanelModel {
                    enabled: next,
                    dirty: true,
                    status: None,
                    ..old(self)@
                })
                &&& !changed ==> final(self)@ == old(self)@
            }),
    {
        let id_s = String::from_str(id);
        let provider = match self.provider_of(&id_s) {
            None => {
                return false;
            },
            Some(p) => p,
        };
        let all = self.all_ids();
        let ghost cat = self@.catalog;
        let mut pids: Vec<String> = Vec::new();
        let mut i: usize = 0;
        while i < all.len()
            invariant
                i <= all.len(),
                strs(all@) == self@.all_ids(),
                cat == self@.catalog,
                strs(pids@) == with_provider(cat, strs(all@).take(i as int), provider@),
            decreases all.len() - i,
        {
            let p = self.provider_of(&all[i]);
            assert(strs(all@).take(i + 1).drop_last() =~= strs(all@).take(i as int));
            assert(strs(all@).take(i + 1).last() == all@[i as int]@);
            let same = match &p {
                Some(x) => *x == provider,
                None => false,
            };
            if same {
                let ghost before = pids@;
                let c = all[i].clone();
                pids.push(c);
                proof {
                    lemma_strs_push(before, c);
                }
            }
            i += 1;
        }
        assert(strs(all@).take(all.len() as int) =~= strs(all@));
        let mut all_on = true;
        let mut k: usize = 0;
        while k < pids.len()
            invariant
                k <= pids.len(),
                all_on == (forall|m: int|
                    0 <= m < k ==> is_enabled_spec(self@.enabled, #[trigger] strs(pids@)[m])),
            decreases pids.len() - k,
        {
            assert(strs(pids@)[k as int] == pids@[k as int]@);
            if !is_enabled(&self.enabled, pids[k].as_str()) {
                all_on = false;
            }
            k += 1;
        }
        let next = if all_on {
            clear_all(&self.enabled, all.as_slice(), Some(pids.as_slice()))
        } else {
            enable_all(&self.enabled, all.as_slice(), Some(pids.as_slice()))
        };
        self.commit(next)
    }

    /// Move an enabled model inside the scope. Returns true when it moved.
    pub fn reorder(&mut self, id: &str, delta: isize) -> (changed: bool)
        ensures
            (old(self)@.enabled is None || !is_enabled_spec(old(self)@.enabled, id@)) ==> !changed
                && final(self)@ == old(self)@,
            (old(self)@.enabled is Some && is_enabled_spec(old(self)@.enabled, id@)) ==> ({
                let next = move_spec(old(self)@.enabled, id@, delta as int);
                &&& changed == (next != old(self)@.enabled)
                &&& changed ==> final(self)@ == (PanelModel {
                    enabled: next,
                    dirty: true,
                    status: None,
                    ..old(self)@
                })
                &&& !changed ==> final(self)@ == old(self)@
            }),
    {
        if self.enabled.is_none() || !is_enabled(&self.enabled, id) {
            return false;
        }
        let next = move_model(&self.enabled, id, delta);
        self.commit(next)
    }
}

} // verus!
