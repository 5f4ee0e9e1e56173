//! The mapping store: the entries of the registry, keyed by short code and
//! kept newest first.

use vstd::prelude::*;
use crate::entry::{views, Entry, EntryView};
use crate::fault::Fault;

verus! {

/// Why the store refused an operation.
#[derive(Clone, Copy, Debug, PartialEq, Eq, Structural)]
pub enum StoreError {
    /// An entry with this code is there already.
    DuplicateCode,
    /// No entry has this code.
    NotFound,
}

impl StoreError {
    /// A code that is not there is a thing not found. A code that is taken
    /// is the server's fault: it drew the code.
    pub open spec fn fault_of(&self) -> Fault {
        match self {
            StoreError::DuplicateCode => Fault::Server,
            StoreError::NotFound => Fault::NotFound,
        }
    }

    /// Whose fault the refusal is.
    pub fn fault(&self) -> (f: Fault)
        ensures
            f == self.fault_of(),
    {
        match self {
            StoreError::DuplicateCode => Fault::Server,
            StoreError::NotFound => Fault::NotFound,
        }
    }
}

/// Some entry of `items` has the code `code`.
pub open spec fn has_code(items: Seq<EntryView>, code: Seq<char>) -> bool {
    exists|i: int| 0 <= i < items.len() && (#[trigger] items[i]).code == code
}

/// The index of an entry of `items` with the code `code`.
pub open spec fn index_of_code(items: Seq<EntryView>, code: Seq<char>) -> int {
    choose|i: int| 0 <= i < items.len() && (#[trigger] items[i]).code == code
}

/// The entry of `items` with the code `code`, if there is one.
pub open spec fn find(items: Seq<EntryView>, code: Seq<char>) -> Option<EntryView> {
    if has_code(items, code) {
        Some(items[index_of_code(items, code)])
    } else {
        None
    }
}

/// No two entries of `items` share a code.
pub open spec fn unique_codes(items: Seq<EntryView>) -> bool {
    forall|i: int, j: int|
        0 <= i < items.len() && 0 <= j < items.len() && i != j ==> (#[trigger] items[i]).code != (
        #[trigger] items[j]).code
}

/// No entry of `items` is older than one behind it.
pub open spec fn newest_first(items: Seq<EntryView>) -> bool {
    forall|i: int, j: int|
        0 <= i <= j < items.len() ==> (#[trigger] items[i]).created_at >= (
        #[trigger] items[j]).created_at
}

/// The number of leading entries of `items` made after the time `at`.
pub open spec fn newer_than(items: Seq<EntryView>, at: int) -> nat
    decreases items.len(),
{
    if items.len() > 0 && items[0].created_at > at {
        1 + newer_than(items.drop_first(), at)
    } else {
        0
    }
}

/// `items` with `entry` put behind the entries that are newer than it and
/// before all others.
pub open spec fn with_entry(items: Seq<EntryView>, entry: EntryView) -> Seq<EntryView> {
    items.insert(newer_than(items, entry.created_at) as int, entry)
}

/// `items` without the entry whose code is `code`.
pub open spec fn without_code(items: Seq<EntryView>, code: Seq<char>) -> Seq<EntryView> {
    if has_code(items, code) {
        items.remove(index_of_code(items, code))
    } else {
        items
    }
}

/// The first `limit` entries of `items`, or all of them where there are fewer.
pub open spec fn first_entries(items: Seq<EntryView>, limit: int) -> Seq<EntryView> {
    if limit < items.len() {
        items.take(limit)
    } else {
        items
    }
}

proof fn lemma_newer_than_is(items: Seq<EntryView>, at: int, k: nat)
    requires
        k <= items.len(),
        forall|i: int| 0 <= i < k ==> (#[trigger] items[i]).created_at > at,
        k < items.len() ==> items[k as int].created_at <= at,
    ensures
        newer_than(items, at) == k,
    decreases items.len(),
{
    if k > 0 {
        let t = items.drop_first();
        assert(items[0].created_at > at);
        assert forall|i: int| 0 <= i < k - 1 implies (#[trigger] t[i]).created_at > at by {
            assert(t[i] == items[i + 1]);
        }
        if k - 1 < t.len() {
            assert(t[k - 1] == items[k as int]);
        }
        lemma_newer_than_is(t, at, (k - 1) as nat);
    }
}

/// The leading entries counted by `newer_than` are newer than `at`; in a
/// sequence kept newest first, all others are not.
pub proof fn lemma_newer_than(items: Seq<EntryView>, at: int)
    requires
        newest_first(items),
    ensures
        newer_than(items, at) <= items.len(),
        forall|i: int| 0 <= i < newer_than(items, at) ==> (#[trigger] items[i]).created_at > at,
        forall|i: int|
            newer_than(items, at) <= i < items.len() ==> (#[trigger] items[i]).created_at <= at,
    decreases items.len(),
{
    if items.len() > 0 && items[0].created_at > at {
        let t = items.drop_first();
        assert forall|i: int, j: int| 0 <= i <= j < t.len() implies (#[trigger] t[i]).created_at
            >= (#[trigger] t[j]).created_at by {
            assert(t[i] == items[i + 1]);
            assert(t[j] == items[j + 1]);
        }
        lemma_newer_than(t, at);
        assert forall|i: int| 0 <= i < newer_than(items, at) implies (
        #[trigger] items[i]).created_at > at by {
            if i > 0 {
                assert(t[i - 1] == items[i]);
            }
        }
        assert forall|i: int| newer_than(items, at) <= i < items.len() implies (
        #[trigger] items[i]).created_at <= at by {
            assert(t[i - 1] == items[i]);
        }
    } else {
        assert forall|i: int| 0 <= i < items.len() implies (#[trigger] items[i]).created_at
            <= at by {
            assert(items[0].created_at >= items[i].created_at);
        }
    }
}

/// Where the codes are unique, an entry is found under its own code.
pub proof fn lemma_find_at(items: Seq<EntryView>, i: int)
    requires
        unique_codes(items),
        0 <= i < items.len(),
    ensures
        has_code(items, items[i].code),
        index_of_code(items, items[i].code) == i,
        find(items, items[i].code) == Some(items[i]),
{
    let code = items[i].code;
    assert(items[i].code == code);
    let k = index_of_code(items, code);
    assert(0 <= k < items.len() && items[k].code == code);
}

/// Putting in an entry under a new code keeps the codes unique and the
/// order newest first; the entry is then found under its code, and every
/// other code finds what it found before.
pub proof fn lemma_with_entry(items: Seq<EntryView>, entry: EntryView)
    requires
        unique_codes(items),
        newest_first(items),
        !has_code(items, entry.code),
    ensures
        unique_codes(with_entry(items, entry)),
        newest_first(with_entry(items, entry)),
        with_entry(items, entry).len() == items.len() + 1,
        find(with_entry(items, entry), entry.code) == Some(entry),
        forall|code: Seq<char>|
            code != entry.code ==> #[trigger] find(with_entry(items, entry), code) == find(
                items,
                code,
            ),
{
    let p = newer_than(items, entry.created_at) as int;
    lemma_newer_than(items, entry.created_at);
    let next = with_entry(items, entry);
    assert(next[p] == entry);
    assert forall|i: int| 0 <= i < next.len() && i != p implies (#[trigger] next[i]).code
        != entry.code && next[i] == items[if i < p {
        i
    } else {
        i - 1
    }] by {
        let k = if i < p {
            i
        } else {
            i - 1
        };
        assert(next[i] == items[k]);
        assert(items[k].code != entry.code);
    }
    assert forall|i: int, j: int|
        0 <= i < next.len() && 0 <= j < next.len() && i != j implies (#[trigger] next[i]).code != (
    #[trigger] next[j]).code by {
        if i != p && j != p {
            let a = if i < p {
                i
            } else {
                i - 1
            };
            let b = if j < p {
                j
            } else {
                j - 1
            };
            assert(next[i] == items[a]);
            assert(next[j] == items[b]);
            assert(items[a].code != items[b].code);
        }
    }
    assert forall|i: int, j: int| 0 <= i <= j < next.len() implies (#[trigger] next[i]).created_at
        >= (#[trigger] next[j]).created_at by {
        let a = if i < p {
            i
        } else {
            i - 1
        };
        let b = if j < p {
            j
        } else {
            j - 1
        };
        if i != p {
            assert(next[i] == items[a]);
        }
        if j != p {
            assert(next[j] == items[b]);
        }
        if i != p && j != p {
            assert(items[a].created_at >= items[b].created_at);
        }
    }
    lemma_find_at(next, p);
    assert forall|code: Seq<char>| code != entry.code implies #[trigger] find(next, code) == find(
        items,
        code,
    ) by {
        if has_code(items, code) {
            let k = index_of_code(items, code);
            let i = if k < p {
                k
            } else {
                k + 1
            };
            assert(next[i] == items[k]);
            lemma_find_at(next, i);
            lemma_find_at(items, k);
        } else {
            if has_code(next, code) {
                let i = index_of_code(next, code);
                let k = if i < p {
                    i
                } else {
                    i - 1
                };
                assert(next[i] == items[k]);
                assert(items[k].code == code);
                assert(false);
            }
        }
    }
}

/// Taking out the entry of a code keeps the codes unique and the order
/// newest first; the code then finds nothing, and every other code finds
/// what it found before.
pub proof fn lemma_without_code(items: Seq<EntryView>, code: Seq<char>)
    requires
        unique_codes(items),
        newest_first(items),
    ensures
        unique_codes(without_code(items, code)),
        newest_first(without_code(items, code)),
        !has_code(without_code(items, code), code),
        find(without_code(items, code), code) is None,
        forall|other: Seq<char>|
            other != code ==> #[trigger] find(without_code(items, code), other) == find(
                items,
                other,
            ),
{
    if has_code(items, code) {
        let p = index_of_code(items, code);
        let next = items.remove(p);
        assert forall|i: int| 0 <= i < next.len() implies #[trigger] next[i] == items[if i < p {
            i
        } else {
            i + 1
        }] by {}
        assert forall|i: int, j: int|
            0 <= i < next.len() && 0 <= j < next.len() && i != j implies (
        #[trigger] next[i]).code != (#[trigger] next[j]).code by {
            let a = if i < p {
                i
            } else {
                i + 1
            };
            let b = if j < p {
                j
            } else {
                j + 1
            };
            assert(next[i] == items[a]);
            assert(next[j] == items[b]);
            assert(items[a].code != items[b].code);
        }
        assert forall|i: int, j: int| 0 <= i <= j < next.len() implies (
        #[trigger] next[i]).created_at >= (#[trigger] next[j]).created_at by {
            let a = if i < p {
                i
            } else {
                i + 1
            };
            let b = if j < p {
                j
            } else {
                j + 1
            };
            assert(next[i] == items[a]);
            assert(next[j] == items[b]);
            assert(items[a].created_at >= items[b].created_at);
        }
        if has_code(next, code) {
            let i = index_of_code(next, code);
            let a = if i < p {
                i
            } else {
                i + 1
            };
            assert(next[i] == items[a]);
            assert(items[a].code == items[p].code);
            assert(false);
        }
        assert forall|other: Seq<char>| other != code implies #[trigger] find(next, other) == find(
            items,
            other,
        ) by {
            if has_code(items, other) {
                let k = index_of_code(items, other);
                let i = if k < p {
                    k
                } else {
                    k - 1
                };
                assert(next[i] == items[k]);
                lemma_find_at(next, i);
                lemma_find_at(items, k);
            } else {
                if has_code(next, other) {
                    let i = index_of_code(next, other);
                    let a = if i < p {
                        i
                    } else {
                        i + 1
                    };
                    assert(next[i] == items[a]);
                    assert(items[a].code == other);
                    assert(false);
                }
            }
        }
    }
}

/// The entries of the registry.
pub struct MappingStore {
    entries: Vec<Entry>,
}

impl MappingStore {
    /// The entries, newest first.
    pub closed spec fn items(&self) -> Seq<EntryView> {
        views(self.entries@)
    }

    /// The store's invariant: no code occurs twice, and the entries stand
    /// newest first.
    pub open spec fn wf(&self) -> bool {
        unique_codes(self.items()) && newest_first(self.items())
    }

    /// A store without entries.
    pub fn new() -> (store: MappingStore)
        ensures
            store.wf(),
            store.items() == Seq::<EntryView>::empty(),
    {
        let store = MappingStore { entries: Vec::new() };
        proof {
            assert(store.items() =~= Seq::<EntryView>::empty());
        }
        store
    }

    /// The number of entries.
    pub fn len(&self) -> (n: usize)
        ensures
            n == self.items().len(),
    {
        self.entries.len()
    }

    fn position(&self, code: &str) -> (r: Option<usize>)
        requires
            self.wf(),
        ensures
            match r {
                Some(i) => i < self.items().len() && has_code(self.items(), code@)
                    && index_of_code(self.items(), code@) == i && self.entries@[i as int]@
                    == self.items()[i as int],
                None => !has_code(self.items(), code@),
            },
    {
        let key = String::from_str(code);
        let mut i: usize = 0;
        while i < self.entries.len()
            invariant
                i <= self.entries.len(),
                self.wf(),
                key@ == code@,
                self.items().len() == self.entries.len(),
                forall|j: int| 0 <= j < i ==> (#[trigger] self.items()[j]).code != code@,
            decreases self.entries.len() - i,
        {
            if self.entries[i].code == key {
                proof {
                    assert(self.items()[i as int].code == code@);
                    lemma_find_at(self.items(), i as int);
                }
                return Some(i);
            }
            proof {
                assert(self.items()[i as int].code != code@);
            }
            i = i + 1;
        }
        None
    }

    /// Whether an entry has the code `code`.
    pub fn contains(&self, code: &str) -> (r: bool)
        requires
            self.wf(),
        ensures
            r == has_code(self.items(), code@),
    {
        self.position(code).is_some()
    }

    /// The entry with the code `code`, if there is one.
    pub fn get(&self, code: &str) -> (r: Option<&Entry>)
        requires
            self.wf(),
        ensures
            match r {
                Some(e) => find(self.items(), code@) == Some(e@),
                None => find(self.items(), code@) is None,
            },
    {
        match self.position(code) {
            Some(i) => Some(&self.entries[i]),
            None => None,
        }
    }

    /// Puts `entry` into the store, unless its code is taken.
    pub fn insert(&mut self, entry: Entry) -> (r: Result<(), StoreError>)
        requires
            old(self).wf(),
        ensures
            final(self).wf(),
            match r {
                Ok(()) => !has_code(old(self).items(), entry@.code) && final(self).items()
                    == with_entry(old(self).items(), entry@),
                Err(e) => e == StoreError::DuplicateCode && has_code(
                    old(self).items(),
                    entry@.code,
                ) && final(self).items() == old(self).items(),
            },
    {
        if self.position(entry.code.as_str()).is_some() {
            return Err(StoreError::DuplicateCode);
        }
        let mut p: usize = 0;
        while p < self.entries.len() && self.entries[p].created_at > entry.created_at
            invariant
                p <= self.entries.len(),
                self.items().len() == self.entries.len(),
                forall|j: int|
                    0 <= j < p ==> (#[trigger] self.items()[j]).created_at > entry.created_at,
            decreases self.entries.len() - p,
        {
            proof {
                assert(self.items()[p as int].created_at > entry.created_at);
            }
            p = p + 1;
        }
        proof {
            if p < self.entries.len() {
                assert(self.items()[p as int].created_at <= entry.created_at);
            }
            lemma_newer_than_is(self.items(), entry.created_at as int, p as nat);
            lemma_with_entry(self.items(), entry@);
        }
        let ghost before = self.items();
        self.entries.insert(p, entry);
        proof {
            assert(self.items() =~= with_entry(before, entry@));
        }
        Ok(())
    }

    /// Takes the entry with the code `code` out of the store and hands it
    /// back.
    pub fn delete(&mut self, code: &str) -> (r: Result<Entry, StoreError>)
        requires
            old(self).wf(),
        ensures
            final(self).wf(),
            final(self).items() == without_code(old(self).items(), code@),
            match r {
                Ok(e) => find(old(self).items(), code@) == Some(e@),
                Err(e) => e == StoreError::NotFound && !has_code(old(self).items(), code@),
            },
    {
        match self.position(code) {
            None => Err(StoreError::NotFound),
            Some(i) => {
                let ghost before = self.items();
                proof {
                    lemma_without_code(before, code@);
                }
                let entry = self.entries.remove(i);
                proof {
                    assert(self.items() =~= before.remove(i as int));
                }
                Ok(entry)
            },
        }
    }

    /// The newest `limit` entries, newest first; all of them where the store
    /// holds fewer.
    pub fn list(&self, limit: usize) -> (r: Vec<Entry>)
        requires
            self.wf(),
        ensures
            views(r@) == first_entries(self.items(), limit as int),
            unique_codes(views(r@)),
            newest_first(views(r@)),
    {
        let n = if limit < self.entries.len() {
            limit
        } else {
            self.entries.len()
        };
        let mut out: Vec<Entry> = Vec::new();
        let mut i: usize = 0;
        while i < n
            invariant
                i <= n <= self.entries.len(),
                out.len() == i,
                views(out@) == self.items().take(i as int),
            decreases n - i,
        {
            let entry = self.entries[i].clone();
            let ghost before = out@;
            out.push(entry);
            i = i + 1;
            proof {
                assert forall|k: int| 0 <= k < i implies views(out@)[k] == self.items()[k] by {
                    if k < i - 1 {
                        assert(views(before)[k] == self.items().take(i - 1)[k]);
                    }
                }
                assert(views(out@) =~= self.items().take(i as int));
            }
        }
        proof {
            assert(self.items().take(self.items().len() as int) =~= self.items());
            let all = self.items();
            let listed = views(out@);
            assert forall|i: int, j: int|
                0 <= i < listed.len() && 0 <= j < listed.len() && i != j implies (
            #[trigger] listed[i]).code != (#[trigger] listed[j]).code by {
                assert(listed[i] == all[i] && listed[j] == all[j]);
            }
            assert forall|i: int, j: int| 0 <= i <= j < listed.len() implies (
            #[trigger] listed[i]).created_at >= (#[trigger] listed[j]).created_at by {
                assert(listed[i] == all[i] && listed[j] == all[j]);
            }
        }
        out
    }
}

} // verus!
