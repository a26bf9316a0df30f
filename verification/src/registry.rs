//! The installed-package registry: the entries of `<root>/packages.json`
//! and the lookups, upserts and removals `pi install` / `pi remove` make on
//! them. Reading and writing the file is the caller's job.
use vstd::prelude::*;

use crate::paths::{file_name, join, join_path, path_file_name};
use crate::text::{chars_of, equals_lit};

verus! {

/// File name of the registry inside the pi root (`~/.pi/packages.json`).
pub const REGISTRY_FILE: &'static str = "packages.json";

/// One installed package.
#[derive(Debug, Clone, PartialEq, Eq)]
pub struct PackageEntry {
    /// Source spec exactly as passed to `pi install`.
    pub spec: String,
    /// Package name (`@scope/pkg`, `github.com/user/repo`, or a local
    /// directory name).
    pub name: String,
    /// Absolute path to the installed package root.
    pub resolved: String,
    /// RFC 3339 timestamp of the install / reinstall.
    pub installed_at: String,
    /// Absolute paths of the extensions exposed to the loader.
    pub extensions: Vec<String>,
}

/// Serialized registry payload.
#[derive(Debug, Clone, Default, PartialEq, Eq)]
pub struct RegistryData {
    /// Installed packages, insertion-ordered.
    pub packages: Vec<PackageEntry>,
}

/// In-memory view of `<root>/packages.json`.
#[derive(Debug, Clone)]
pub struct Registry {
    path: String,
    data: RegistryData,
}

/// Whether `e` answers to `q`: by exact spec, exact name, or install
/// directory name.
pub open spec fn answers_to(e: PackageEntry, q: Seq<char>) -> bool {
    e.spec@ == q || e.name@ == q || file_name(e.resolved@) == Some(q)
}

/// First index at or after `i` of an entry answering to `q`.
pub open spec fn find_from(s: Seq<PackageEntry>, q: Seq<char>, i: int) -> Option<int>
    decreases s.len() - i,
{
    if i < 0 || i >= s.len() {
        None
    } else if answers_to(s[i], q) {
        Some(i)
    } else {
        find_from(s, q, i + 1)
    }
}

/// Whether `e` is the same package as `n`: same name or same spec.
pub open spec fn same_package(e: PackageEntry, n: PackageEntry) -> bool {
    e.name@ == n.name@ || e.spec@ == n.spec@
}

/// First index at or after `i` of an entry for the same package as `n`.
pub open spec fn same_from(s: Seq<PackageEntry>, n: PackageEntry, i: int) -> Option<int>
    decreases s.len() - i,
{
    if i < 0 || i >= s.len() {
        None
    } else if same_package(s[i], n) {
        Some(i)
    } else {
        same_from(s, n, i + 1)
    }
}

/// The entries after an upsert of `n`.
pub open spec fn upsert_spec(s: Seq<PackageEntry>, n: PackageEntry) -> Seq<PackageEntry> {
    match same_from(s, n, 0) {
        Some(k) => s.update(k, n),
        None => s.push(n),
    }
}

/// Where `find_from` stops, the entry answers; before it, none does.
pub proof fn lemma_find_from(s: Seq<PackageEntry>, q: Seq<char>, i: int)
    requires
        0 <= i,
    ensures
        match find_from(s, q, i) {
            Some(k) => i <= k < s.len() && answers_to(s[k], q) && forall|m: int|
                i <= m < k ==> !answers_to(#[trigger] s[m], q),
            None => forall|m: int| i <= m < s.len() ==> !answers_to(#[trigger] s[m], q),
        },
    decreases s.len() - i,
{
    if i < s.len() && !answers_to(s[i], q) {
        lemma_find_from(s, q, i + 1);
    }
}

/// Where `same_from` stops, the entry is the same package; before it,
/// none is.
pub proof fn lemma_same_from(s: Seq<PackageEntry>, n: PackageEntry, i: int)
    requires
        0 <= i,
    ensures
        match same_from(s, n, i) {
            Some(k) => i <= k < s.len() && same_package(s[k], n) && forall|m: int|
                i <= m < k ==> !same_package(#[trigger] s[m], n),
            None => forall|m: int| i <= m < s.len() ==> !same_package(#[trigger] s[m], n),
        },
    decreases s.len() - i,
{
    if i < s.len() && !same_package(s[i], n) {
        lemma_same_from(s, n, i + 1);
    }
}

/// Whether `e` answers to `q`.
fn answers(e: &PackageEntry, q: &str) -> (r: bool)
    ensures
        r == answers_to(*e, q@),
{
    if equals_lit(&chars_of(e.spec.as_str()), q) || equals_lit(&chars_of(e.name.as_str()), q) {
        return true;
    }
    match path_file_name(e.resolved.as_str()) {
        Some(dir) => equals_lit(&chars_of(dir.as_str()), q),
        None => false,
    }
}

/// Index of the first entry answering to `q`.
fn find_index(s: &Vec<PackageEntry>, q: &str) -> (r: Option<usize>)
    ensures
        match r {
            Some(k) => find_from(s@, q@, 0) == Some(k as int) && k < s.len(),
            None => find_from(s@, q@, 0) is None,
        },
{
    let mut i: usize = 0;
    while i < s.len()
        invariant
            i <= s.len(),
            find_from(s@, q@, 0) == find_from(s@, q@, i as int),
        decreases s.len() - i,
    {
        if answers(&s[i], q) {
            return Some(i);
        }
        i += 1;
    }
    None
}

impl Registry {
    /// The registry rooted at `root` (`~/.pi`) holding `data`, as read from
    /// `<root>/packages.json` (an empty registry when the file is missing
    /// or blank).
    pub fn with_data(root: &str, data: RegistryData) -> (r: Self)
        ensures
            r.path_spec() == join_path(root@, REGISTRY_FILE@),
            r.entries() == data.packages@,
    {
        Registry { path: join(root, REGISTRY_FILE), data }
    }

    /// The registry's entries.
    pub closed spec fn entries(&self) -> Seq<PackageEntry> {
        self.data.packages@
    }

    /// The path of the backing JSON file.
    pub closed spec fn path_spec(&self) -> Seq<char> {
        self.path@
    }

    /// Path of the backing JSON file.
    pub fn path(&self) -> (r: &str)
        ensures
            r@ == self.path_spec(),
    {
        self.path.as_str()
    }

    /// The payload to write back.
    pub fn data(&self) -> (r: &RegistryData)
        ensures
            r.packages@ == self.entries(),
    {
        &self.data
    }

    /// Installed packages.
    pub fn packages(&self) -> (r: &[PackageEntry])
        ensures
            r@ == self.entries(),
    {
        self.data.packages.as_slice()
    }

    /// Whether no package is registered.
    pub fn is_empty(&self) -> (r: bool)
        ensures
            r == (self.entries().len() == 0),
    {
        self.data.packages.len() == 0
    }

    /// Find an entry by exact spec, exact name, or install directory name
    /// (the first one that answers).
    pub fn find(&self, query: &str) -> (r: Option<&PackageEntry>)
        ensures
            match r {
                Some(e) => find_from(self.entries(), query@, 0) matches Some(k) && *e
                    == self.entries()[k],
                None => find_from(self.entries(), query@, 0) is None,
            },
    {
        match find_index(&self.data.packages, query) {
            Some(k) => Some(&self.data.packages[k]),
            None => None,
        }
    }

    /// Insert or replace (by name or spec identity) an entry.
    pub fn upsert(&mut self, entry: PackageEntry)
        ensures
            final(self).entries() == upsert_spec(old(self).entries(), entry),
            final(self).path_spec() == old(self).path_spec(),
    {
        let mut i: usize = 0;
        while i < self.data.packages.len()
            invariant
                i <= self.data.packages.len(),
                self.data.packages@ == old(self).data.packages@,
                self.path == old(self).path,
                same_from(self.data.packages@, entry, 0) == same_from(
                    self.data.packages@,
                    entry,
                    i as int,
                ),
            decreases self.data.packages.len() - i,
        {
            if self.data.packages[i].name == entry.name || self.data.packages[i].spec == entry.spec {
                self.data.packages.set(i, entry);
                return;
            }
            i += 1;
        }
        self.data.packages.push(entry);
    }

    /// Remove the first entry answering to `query`, returning it when
    /// present.
    pub fn remove(&mut self, query: &str) -> (r: Option<PackageEntry>)
        ensures
            match find_from(old(self).entries(), query@, 0) {
                Some(k) => r == Some(old(self).entries()[k]) && final(self).entries() == old(
                    self,
                ).entries().remove(k),
                None => r is None && final(self).entries() == old(self).entries(),
            },
            final(self).path_spec() == old(self).path_spec(),
    {
        match find_index(&self.data.packages, query) {
            Some(k) => Some(self.data.packages.remove(k)),
            None => None,
        }
    }
}

/// What a lookup gives back of an upsert: after upserting `n`, looking it
/// up by name finds exactly `n`, as long as no other package answers to
/// that name.
pub proof fn law_upsert_then_find(s: Seq<PackageEntry>, n: PackageEntry)
    requires
        forall|i: int|
            0 <= i < s.len() && answers_to(#[trigger] s[i], n.name@) ==> same_package(s[i], n),
    ensures
        find_from(upsert_spec(s, n), n.name@, 0) matches Some(k) && upsert_spec(s, n)[k] == n,
{
    lemma_same_from(s, n, 0);
    let t = upsert_spec(s, n);
    lemma_find_from(t, n.name@, 0);
    match same_from(s, n, 0) {
        Some(k) => {
            assert(answers_to(t[k], n.name@));
            match find_from(t, n.name@, 0) {
                Some(j) => {
                    if j < k {
                        assert(t[j] == s[j]);
                    }
                    assert(!(j > k));
                },
                None => {},
            }
        },
        None => {
            let last = s.len() as int;
            assert(t[last] == n);
            assert(answers_to(t[last], n.name@));
            match find_from(t, n.name@, 0) {
                Some(j) => {
                    if j < last {
                        assert(t[j] == s[j]);
                    }
                },
                None => {},
            }
        },
    }
}

/// An upsert of a package the registry does not know yet adds exactly one
/// entry; one it knows keeps the count.
pub proof fn law_upsert_count(s: Seq<PackageEntry>, n: PackageEntry)
    ensures
        same_from(s, n, 0) is None ==> upsert_spec(s, n).len() == s.len() + 1,
        same_from(s, n, 0) is Some ==> upsert_spec(s, n).len() == s.len(),
{
    lemma_same_from(s, n, 0);
}

/// Reinstalling is idempotent: upserting a second entry for the same spec
/// and name replaces the first one, leaving the registry as if only the
/// second had been upserted.
pub proof fn law_reinstall_replaces(s: Seq<PackageEntry>, first: PackageEntry, second: PackageEntry)
    requires
        first.spec@ == second.spec@,
        first.name@ == second.name@,
    ensures
        upsert_spec(upsert_spec(s, first), second) == upsert_spec(s, second),
{
    lemma_same_from(s, first, 0);
    lemma_same_from(s, second, 0);
    let t = upsert_spec(s, first);
    lemma_same_from(t, second, 0);
    assert forall|m: int| 0 <= m < s.len() implies same_package(s[m], first) == same_package(
        s[m],
        second,
    ) by {}
    match same_from(s, first, 0) {
        Some(k) => {
            assert(same_package(t[k], second));
            match same_from(t, second, 0) {
                Some(j) => {
                    if j < k {
                        assert(t[j] == s[j]);
                    }
                    assert(j == k);
                    assert(t.update(k, second) =~= s.update(k, second));
                },
                None => {},
            }
        },
        None => {
            let last = s.len() as int;
            assert(t[last] == first);
            assert(same_package(t[last], second));
            match same_from(t, second, 0) {
                Some(j) => {
                    if j < last {
                        assert(t[j] == s[j]);
                    }
                    assert(j == last);
                    assert(t.update(last, second) =~= s.push(second));
                },
                None => {},
            }
        },
    }
}

/// Whether no two entries share a spec.
pub open spec fn distinct_specs(s: Seq<PackageEntry>) -> bool {
    forall|a: int, b: int| 0 <= a < s.len() && 0 <= b < s.len() && a != b ==> s[a].spec@ != s[b].spec@
}

/// Reinstalling replaces rather than appends: when no two entries share a
/// spec, installing a spec a second time (same spec, same name) leaves as
/// many entries as the first install did, exactly one of them for that
/// spec, and that one is the second entry. The first install must not
/// have overwritten, by name, an entry of another spec while an entry of
/// its own spec was still there.
pub proof fn law_reinstall_keeps_one_entry(s: Seq<PackageEntry>, first: PackageEntry, second: PackageEntry)
    requires
        distinct_specs(s),
        first.spec@ == second.spec@,
        first.name@ == second.name@,
        same_from(s, first, 0) matches Some(k) ==> (s[k].spec@ == first.spec@ || forall|j: int|
            0 <= j < s.len() ==> s[j].spec@ != first.spec@),
    ensures
        ({
            let t = upsert_spec(s, first);
            let u = upsert_spec(t, second);
            &&& u.len() == t.len()
            &&& exists|i: int|
                0 <= i < u.len() && u[i] == second && forall|m: int|
                    0 <= m < u.len() && m != i ==> u[m].spec@ != second.spec@
        }),
{
    law_reinstall_replaces(s, first, second);
    lemma_same_from(s, first, 0);
    lemma_same_from(s, second, 0);
    assert forall|m: int| 0 <= m < s.len() implies same_package(s[m], first) == same_package(
        s[m],
        second,
    ) by {}
    let u = upsert_spec(s, second);
    match same_from(s, first, 0) {
        Some(k) => {
            assert(same_from(s, second, 0) == Some(k));
            assert(u == s.update(k, second));
            assert forall|m: int| 0 <= m < u.len() && m != k implies u[m].spec@ != second.spec@ by {
                assert(u[m] == s[m]);
            }
            assert(u[k] == second);
        },
        None => {
            assert(same_from(s, second, 0) is None);
            let last = s.len() as int;
            assert(u == s.push(second));
            assert forall|m: int| 0 <= m < u.len() && m != last implies u[m].spec@ != second.spec@ by {
                assert(u[m] == s[m]);
                assert(!same_package(s[m], second));
            }
            assert(u[last] == second);
        },
    }
}

/// The entries after removing the first one that answers to `q`.
pub open spec fn remove_spec(s: Seq<PackageEntry>, q: Seq<char>) -> Seq<PackageEntry> {
    match find_from(s, q, 0) {
        Some(k) => s.remove(k),
        None => s,
    }
}

/// Removing a freshly installed package undoes the install: after
/// upserting a package the registry did not know, and that no entry
/// answers to by name, removing it by name gives back the registry as it
/// was.
pub proof fn law_remove_undoes_fresh_upsert(s: Seq<PackageEntry>, n: PackageEntry)
    requires
        same_from(s, n, 0) is None,
        find_from(s, n.name@, 0) is None,
    ensures
        remove_spec(upsert_spec(s, n), n.name@) == s,
{
    lemma_find_from(s, n.name@, 0);
    let t = upsert_spec(s, n);
    assert(t == s.push(n));
    lemma_find_from(t, n.name@, 0);
    let last = s.len() as int;
    assert(t[last] == n);
    assert(answers_to(t[last], n.name@));
    match find_from(t, n.name@, 0) {
        Some(j) => {
            if j < last {
                assert(t[j] == s[j]);
            }
            assert(j == last);
            assert(t.remove(j) =~= s);
        },
        None => {},
    }
}

} // verus!
