//! The keyed artifact table: at most one artifact per logical artifact name,
//! with the instance tag of the file it came from.

use crate::artifact::Artifact;
use crate::key::Key;
use vstd::prelude::*;

verus! {

/// One row of the table.
pub struct Entry {
    pub key: Key,
    pub artifact: Artifact,
}

/// What the table holds for one name: the latest instance tag and the artifact.
pub type Stored = (Option<u32>, Artifact);

/// The mathematical content of a table: artifact name to what is stored.
pub type TableMap = Map<Seq<char>, Stored>;

/// The name that a row is keyed by.
pub open spec fn name_of(e: Entry) -> Seq<char> {
    e.key.artifact@
}

/// What a row stores.
pub open spec fn stored_of(e: Entry) -> Stored {
    (e.key.instance, e.artifact)
}

/// Whether the map stores exactly the row `e` under its name.
pub open spec fn row_in(m: TableMap, e: Entry) -> bool {
    m.contains_key(name_of(e)) && m[name_of(e)] == stored_of(e)
}

/// The map that a list of rows describes.
pub open spec fn rows_map(s: Seq<Entry>) -> TableMap
    decreases s.len(),
{
    if s.len() == 0 {
        Map::empty()
    } else {
        rows_map(s.drop_last()).insert(name_of(s.last()), stored_of(s.last()))
    }
}

/// No two rows share a name.
pub open spec fn distinct_names(s: Seq<Entry>) -> bool {
    forall|i: int, j: int|
        0 <= i < s.len() && 0 <= j < s.len() && i != j ==> name_of(#[trigger] s[i]) != name_of(
            #[trigger] s[j],
        )
}

proof fn lemma_rows_contains(s: Seq<Entry>, k: Seq<char>)
    ensures
        rows_map(s).contains_key(k) <==> exists|i: int| 0 <= i < s.len() && name_of(#[trigger] s[i]) == k,
    decreases s.len(),
{
    if s.len() > 0 {
        let t = s.drop_last();
        lemma_rows_contains(t, k);
        if rows_map(t).contains_key(k) {
            let i = choose|i: int| 0 <= i < t.len() && name_of(#[trigger] t[i]) == k;
            assert(s[i] == t[i]);
        }
        if exists|i: int| 0 <= i < s.len() && name_of(#[trigger] s[i]) == k {
            let i = choose|i: int| 0 <= i < s.len() && name_of(#[trigger] s[i]) == k;
            if i < t.len() {
                assert(t[i] == s[i]);
            }
        }
    }
}

proof fn lemma_rows_at(s: Seq<Entry>, i: int)
    requires
        distinct_names(s),
        0 <= i < s.len(),
    ensures
        rows_map(s).contains_key(name_of(s[i])),
        rows_map(s)[name_of(s[i])] == stored_of(s[i]),
    decreases s.len(),
{
    let t = s.drop_last();
    if i < s.len() - 1 {
        assert(t[i] == s[i]);
        assert(distinct_names(t)) by {
            assert forall|a: int, b: int|
                0 <= a < t.len() && 0 <= b < t.len() && a != b implies name_of(#[trigger] t[a])
                != name_of(#[trigger] t[b]) by {
                assert(t[a] == s[a] && t[b] == s[b]);
            }
        }
        lemma_rows_at(t, i);
        assert(name_of(s[i]) != name_of(s[s.len() - 1]));
    }
}

proof fn lemma_distinct_prefix(s: Seq<Entry>)
    requires
        distinct_names(s),
        s.len() > 0,
    ensures
        distinct_names(s.drop_last()),
        !rows_map(s.drop_last()).contains_key(name_of(s.last())),
{
    let t = s.drop_last();
    assert forall|a: int, b: int|
        0 <= a < t.len() && 0 <= b < t.len() && a != b implies name_of(#[trigger] t[a]) != name_of(
        #[trigger] t[b],
    ) by {
        assert(t[a] == s[a] && t[b] == s[b]);
    }
    lemma_rows_contains(t, name_of(s.last()));
    if rows_map(t).contains_key(name_of(s.last())) {
        let i = choose|i: int| 0 <= i < t.len() && name_of(#[trigger] t[i]) == name_of(s.last());
        assert(t[i] == s[i]);
    }
}

proof fn lemma_rows_update(s: Seq<Entry>, i: int, e: Entry)
    requires
        distinct_names(s),
        0 <= i < s.len(),
        name_of(e) == name_of(s[i]),
    ensures
        distinct_names(s.update(i, e)),
        rows_map(s.update(i, e)) == rows_map(s).insert(name_of(e), stored_of(e)),
    decreases s.len(),
{
    let u = s.update(i, e);
    assert forall|a: int, b: int|
        0 <= a < u.len() && 0 <= b < u.len() && a != b implies name_of(#[trigger] u[a]) != name_of(
        #[trigger] u[b],
    ) by {
        assert(name_of(u[a]) == name_of(s[a]));
        assert(name_of(u[b]) == name_of(s[b]));
    }
    let t = s.drop_last();
    lemma_distinct_prefix(s);
    if i == s.len() - 1 {
        assert(u.drop_last() == t);
        assert(rows_map(u) =~= rows_map(s).insert(name_of(e), stored_of(e)));
    } else {
        assert(u.drop_last() == t.update(i, e));
        assert(t[i] == s[i]);
        lemma_rows_update(t, i, e);
        assert(name_of(s.last()) != name_of(s[i]));
        assert(rows_map(u) =~= rows_map(s).insert(name_of(e), stored_of(e)));
    }
}

proof fn lemma_rows_remove(s: Seq<Entry>, i: int)
    requires
        distinct_names(s),
        0 <= i < s.len(),
    ensures
        distinct_names(s.remove(i)),
        rows_map(s.remove(i)) == rows_map(s).remove(name_of(s[i])),
    decreases s.len(),
{
    let r = s.remove(i);
    assert forall|a: int, b: int|
        0 <= a < r.len() && 0 <= b < r.len() && a != b implies name_of(#[trigger] r[a]) != name_of(
        #[trigger] r[b],
    ) by {
        let sa = if a < i { a } else { a + 1 };
        let sb = if b < i { b } else { b + 1 };
        assert(r[a] == s[sa] && r[b] == s[sb]);
    }
    let t = s.drop_last();
    lemma_distinct_prefix(s);
    if i == s.len() - 1 {
        assert(r == t);
        assert(rows_map(r) =~= rows_map(s).remove(name_of(s[i])));
    } else {
        assert(r.drop_last() == t.remove(i));
        assert(r.last() == s.last());
        assert(t[i] == s[i]);
        lemma_rows_remove(t, i);
        assert(name_of(s.last()) != name_of(s[i]));
        assert(rows_map(r) =~= rows_map(s).remove(name_of(s[i])));
    }
}

/// The table. Rows are kept in a vector whose names are distinct.
pub struct ArtifactTable {
    entries: Vec<Entry>,
}

impl View for ArtifactTable {
    type V = TableMap;

    closed spec fn view(&self) -> TableMap {
        rows_map(self.entries@)
    }
}

impl ArtifactTable {
    /// The table's invariant: no name has two rows.
    pub closed spec fn wf(&self) -> bool {
        distinct_names(self.entries@)
    }

    /// An empty table.
    pub fn new() -> (r: ArtifactTable)
        ensures
            r.wf(),
            r@ == TableMap::empty(),
    {
        ArtifactTable { entries: Vec::new() }
    }

    /// The row named `name`, if any.
    fn find(&self, name: &String) -> (r: Option<usize>)
        requires
            self.wf(),
        ensures
            match r {
                Some(i) => i < self.entries.len() && name_of(self.entries@[i as int]) == name@
                    && self@.contains_key(name@) && self@[name@] == stored_of(
                    self.entries@[i as int],
                ),
                None => !self@.contains_key(name@),
            },
    {
        let mut i: usize = 0;
        while i < self.entries.len()
            invariant
                self.wf(),
                0 <= i <= self.entries.len(),
                forall|j: int| 0 <= j < i ==> name_of(#[trigger] self.entries@[j]) != name@,
            decreases self.entries.len() - i,
        {
            if self.entries[i].key.artifact == *name {
                proof {
                    lemma_rows_at(self.entries@, i as int);
                }
                return Some(i);
            }
            i = i + 1;
        }
        proof {
            lemma_rows_contains(self.entries@, name@);
        }
        None
    }

    /// The artifact stored for `name`.
    pub fn get(&self, name: &String) -> (r: Option<Artifact>)
        requires
            self.wf(),
        ensures
            r is Some <==> self@.contains_key(name@),
            r is Some ==> r->0 == self@[name@].1,
    {
        match self.find(name) {
            Some(i) => Some(self.entries[i].artifact),
            None => None,
        }
    }

    /// The instance tag stored for `name`.
    pub fn instance(&self, name: &String) -> (r: Option<Option<u32>>)
        requires
            self.wf(),
        ensures
            r is Some <==> self@.contains_key(name@),
            r is Some ==> r->0 == self@[name@].0,
    {
        match self.find(name) {
            Some(i) => Some(self.entries[i].key.instance),
            None => None,
        }
    }

    /// Stores `artifact` under the name of `key`, replacing what was there.
    pub fn insert(&mut self, key: Key, artifact: Artifact)
        requires
            old(self).wf(),
        ensures
            final(self).wf(),
            final(self)@ == old(self)@.insert(key.artifact@, (key.instance, artifact)),
    {
        let ghost e = Entry { key, artifact };
        match self.find(&key.artifact) {
            Some(i) => {
                proof {
                    lemma_rows_update(self.entries@, i as int, e);
                }
                self.entries.set(i, Entry { key, artifact });
            },
            None => {
                let ghost s = self.entries@;
                self.entries.push(Entry { key, artifact });
                proof {
                    let t = self.entries@;
                    assert(t.drop_last() == s);
                    assert forall|a: int, b: int|
                        0 <= a < t.len() && 0 <= b < t.len() && a != b implies name_of(
                        #[trigger] t[a],
                    ) != name_of(#[trigger] t[b]) by {
                        if a == t.len() - 1 || b == t.len() - 1 {
                            let j = if a == t.len() - 1 { b } else { a };
                            assert(t[j] == s[j]);
                            lemma_rows_contains(s, name_of(e));
                        } else {
                            assert(t[a] == s[a] && t[b] == s[b]);
                        }
                    }
                }
            },
        }
    }

    /// Drops what is stored for `name` and returns its artifact. Removing a
    /// name that is absent changes nothing.
    pub fn remove(&mut self, name: &String) -> (r: Option<Artifact>)
        requires
            old(self).wf(),
        ensures
            final(self).wf(),
            final(self)@ == old(self)@.remove(name@),
            r is Some <==> old(self)@.contains_key(name@),
            r is Some ==> r->0 == old(self)@[name@].1,
    {
        match self.find(name) {
            Some(i) => {
                proof {
                    lemma_rows_remove(self.entries@, i as int);
                }
                let e = self.entries.remove(i);
                Some(e.artifact)
            },
            None => {
                assert(old(self)@.remove(name@) =~= old(self)@);
                None
            },
        }
    }

    /// The rows, in no particular order; each stands for one name of the map.
    pub fn entries(&self) -> (r: &Vec<Entry>)
        requires
            self.wf(),
        ensures
            forall|i: int| 0 <= i < r.len() ==> #[trigger] row_in(self@, r@[i]),
            forall|k: Seq<char>|
                #[trigger] self@.contains_key(k) ==> exists|i: int|
                    0 <= i < r.len() && name_of(#[trigger] r@[i]) == k,
            distinct_names(r@),
    {
        proof {
            assert forall|i: int| 0 <= i < self.entries.len() implies #[trigger] row_in(
                self@,
                self.entries@[i],
            ) by {
                lemma_rows_at(self.entries@, i);
            }
            assert forall|k: Seq<char>| #[trigger] self@.contains_key(k) implies exists|i: int|
                0 <= i < self.entries.len() && name_of(#[trigger] self.entries@[i]) == k by {
                lemma_rows_contains(self.entries@, k);
            }
        }
        &self.entries
    }
}

} // verus!
