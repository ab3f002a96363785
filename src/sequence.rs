//! The replace sequencer: the newest file of each artifact stream supersedes
//! the previous one. It decides, for each file, what the table keeps and
//! which device buffers are allocated or released.

use crate::artifact::{allocated, Artifact, BufferRequest};
use crate::classify::{classification, classify, FacetStyle, Header, Layout};
use crate::key::Key;
use crate::names::{key_is, key_of_name, parse_key};
use crate::table::{ArtifactTable, TableMap};
use vstd::prelude::*;

verus! {

/// What an accepted file did. The device side releases the buffers of
/// `released`, allocates those of `allocated`, and then fills the buffers of
/// the stored artifact from the file.
pub struct Injection {
    pub key: Key,
    pub released: Vec<u64>,
    pub allocated: Vec<BufferRequest>,
}

/// What a removal did: the key removed, and the buffers to release.
pub struct Removal {
    pub key: Key,
    pub released: Vec<u64>,
}

/// Whether what is stored for `name` can take `l` without new buffers.
pub open spec fn reuses(m: TableMap, name: Seq<char>, l: Layout) -> bool {
    m.contains_key(name) && m[name].1.fits(l)
}

/// The artifact stored for `name` once a file of layout `l` is accepted,
/// with `next` the first free handle.
pub open spec fn stored_after(m: TableMap, name: Seq<char>, l: Layout, next: u64) -> Artifact {
    if reuses(m, name, l) {
        m[name].1.counted(l)
    } else {
        allocated(l, next)
    }
}

/// The handles of what is stored for `name`; none when nothing is.
pub open spec fn handles_at(m: TableMap, name: Seq<char>) -> Seq<u64> {
    if m.contains_key(name) {
        m[name].1.handles()
    } else {
        Seq::empty()
    }
}

/// Whether every handle in `m` lies below `next`.
pub open spec fn handles_below(m: TableMap, next: u64) -> bool {
    forall|k: Seq<char>, i: int|
        #[trigger] m.contains_key(k) && 0 <= i < m[k].1.handles().len() ==> #[trigger] m[k].1.handles()[i]
            < next
}

/// Whether no handle is live twice: the buffers of one artifact differ, and
/// no two streams share a buffer.
pub open spec fn handles_disjoint(m: TableMap) -> bool {
    &&& forall|k: Seq<char>| #[trigger] m.contains_key(k) ==> distinct_handles(m[k].1)
    &&& forall|k1: Seq<char>, k2: Seq<char>, i: int, j: int|
        m.contains_key(k1) && m.contains_key(k2) && k1 != k2 && 0 <= i < m[k1].1.handles().len()
            && 0 <= j < m[k2].1.handles().len() ==> #[trigger] m[k1].1.handles()[i]
            != #[trigger] m[k2].1.handles()[j]
}

/// Whether the buffers of one artifact have different handles.
pub open spec fn distinct_handles(a: Artifact) -> bool {
    a.handles().len() == 2 ==> a.handles()[0] != a.handles()[1]
}

/// The highest first handle that a new artifact may take.
pub open spec fn handle_limit() -> u64 {
    (u64::MAX - 2) as u64
}

/// Storing `art` under `a` keeps handles disjoint when the handles of `art`
/// differ among themselves and from those of every other stream.
proof fn lemma_disjoint_after_insert(m: TableMap, a: Seq<char>, after: TableMap, art: Artifact)
    requires
        handles_disjoint(m),
        after.dom() == m.dom().insert(a),
        after[a].1 == art,
        forall|k: Seq<char>| k != a && #[trigger] m.contains_key(k) ==> after[k] == m[k],
        art.handles().len() == 2 ==> art.handles()[0] != art.handles()[1],
        forall|k: Seq<char>, i: int|
            k != a && m.contains_key(k) && 0 <= i < m[k].1.handles().len() ==> #[trigger] m[k].1.handles()[i]
                != art.handles()[0] && (art.handles().len() > 1 ==> m[k].1.handles()[i]
                != art.handles()[1]),
    ensures
        handles_disjoint(after),
{
    assert(art.handles().len() == 1 || art.handles().len() == 2);
    assert forall|k: Seq<char>| #[trigger] after.contains_key(k) implies distinct_handles(
        after[k].1,
    ) by {
        if k != a {
            assert(m.contains_key(k));
        }
    }
    assert forall|k1: Seq<char>, k2: Seq<char>, i: int, j: int|
        after.contains_key(k1) && after.contains_key(k2) && k1 != k2 && 0 <= i
            < after[k1].1.handles().len() && 0 <= j < after[k2].1.handles().len() implies #[trigger] after[k1].1.handles()[i]
        != #[trigger] after[k2].1.handles()[j] by {
        if k1 != a && k2 != a {
            assert(m.contains_key(k1) && m.contains_key(k2));
        } else if k1 == a {
            assert(m.contains_key(k2));
        } else {
            assert(m.contains_key(k1));
        }
    }
}

/// Keeps only the newest artifact of each stream.
pub struct Replace {
    artifacts: ArtifactTable,
    style: FacetStyle,
    next_handle: u64,
}

impl Replace {
    /// What the table holds.
    pub closed spec fn table(&self) -> TableMap {
        self.artifacts@
    }

    /// The handle that the next allocation takes.
    pub closed spec fn next_handle(&self) -> u64 {
        self.next_handle
    }

    /// How files with facets are shown.
    pub closed spec fn style(&self) -> FacetStyle {
        self.style
    }

    /// The invariant: the table is well formed, and every handle in it was
    /// given out before, so a new allocation never reuses a live handle.
    pub closed spec fn wf(&self) -> bool {
        &&& self.artifacts.wf()
        &&& handles_below(self.artifacts@, self.next_handle)
        &&& handles_disjoint(self.artifacts@)
    }

    /// An empty sequencer that shows files with facets as `style` says.
    pub fn new(style: FacetStyle) -> (r: Replace)
        ensures
            r.wf(),
            r.table() == TableMap::empty(),
            r.style() == style,
            r.next_handle() == 0,
    {
        Replace { artifacts: ArtifactTable::new(), style, next_handle: 0 }
    }

    /// The table, for the renderer to read.
    pub fn artifacts(&self) -> (r: &ArtifactTable)
        requires
            self.wf(),
        ensures
            r.wf(),
            r@ == self.table(),
    {
        &self.artifacts
    }

    /// Ingests the file `name` with header `header`. The file is rejected,
    /// and nothing changes, when the name breaks the naming convention, when
    /// classification rejects the header, or when its buffers must be
    /// allocated and the handles are spent. Otherwise the stream's entry
    /// keeps its buffers if they fit, taking the new counts, or gets new
    /// ones in place of the old.
    pub fn add(&mut self, name: &str, header: &Header) -> (r: Option<Injection>)
        requires
            old(self).wf(),
        ensures
            final(self).wf(),
            final(self).style() == old(self).style(),
            ({
                let k = key_of_name(name@);
                let f = k->0;
                let l = classification(header.groups@, old(self).style());
                let m = old(self).table();
                let next = old(self).next_handle();
                if k is None || l is None || (!reuses(m, f.1, l->0) && next > handle_limit()) {
                    &&& r is None
                    &&& final(self).table() == m
                    &&& final(self).next_handle() == next
                } else {
                    let a = f.1;
                    let fresh = !reuses(m, a, l->0);
                    &&& r is Some
                    &&& key_is(r->0.key, f)
                    &&& final(self).table() == m.insert(a, (f.0, stored_after(m, a, l->0, next)))
                    &&& fresh ==> final(self).next_handle() == next + 2
                    &&& fresh ==> r->0.released@ == handles_at(m, a)
                    &&& fresh ==> r->0.allocated@ == allocated(l->0, next).requests()
                    &&& !fresh ==> final(self).next_handle() == next
                    &&& !fresh ==> r->0.released@.len() == 0
                    &&& !fresh ==> r->0.allocated@.len() == 0
                }
            }),
    {
        let key = match parse_key(name) {
            Some(key) => key,
            None => return None,
        };
        let layout = match classify(header, self.style) {
            Some(layout) => layout,
            None => return None,
        };
        let ghost m = self.artifacts@;
        let ghost a = key.artifact@;
        let existing = self.artifacts.get(&key.artifact);
        match existing {
            Some(current) => {
                if !current.needs_resize(&layout) {
                    let mut updated = current;
                    updated.update_count(&layout);
                    let stored = Key { instance: key.instance, artifact: key.artifact.clone() };
                    self.artifacts.insert(stored, updated);
                    proof {
                        assert(updated.handles() == current.handles());
                        assert forall|k: Seq<char>, i: int|
                            #[trigger] self.artifacts@.contains_key(k) && 0 <= i
                                < self.artifacts@[k].1.handles().len() implies #[trigger] self.artifacts@[k].1.handles()[i]
                            < self.next_handle by {
                            if k != a {
                                assert(m.contains_key(k) && self.artifacts@[k] == m[k]);
                            } else {
                                assert(m[a].1.handles()[i] == self.artifacts@[k].1.handles()[i]);
                            }
                        }
                        lemma_disjoint_after_insert(m, a, self.artifacts@, updated);
                    }
                    return Some(Injection { key, released: Vec::new(), allocated: Vec::new() });
                }
            },
            None => {},
        }
        if self.next_handle > u64::MAX - 2 {
            return None;
        }
        let first = self.next_handle;
        let fresh = Artifact::new(&layout, first);
        let released = match existing {
            Some(current) => current.buffer_handles(),
            None => Vec::new(),
        };
        let requested = fresh.buffer_requests();
        let stored = Key { instance: key.instance, artifact: key.artifact.clone() };
        self.artifacts.insert(stored, fresh);
        self.next_handle = first + 2;
        proof {
            assert forall|k: Seq<char>, i: int|
                #[trigger] self.artifacts@.contains_key(k) && 0 <= i
                    < self.artifacts@[k].1.handles().len() implies #[trigger] self.artifacts@[k].1.handles()[i]
                < self.next_handle by {
                if k != a {
                    assert(m.contains_key(k) && self.artifacts@[k] == m[k]);
                    assert(m[k].1.handles()[i] < first);
                }
            }
            assert forall|k: Seq<char>, i: int|
                m.contains_key(k) && 0 <= i < m[k].1.handles().len() implies #[trigger] m[k].1.handles()[i]
                != fresh.handles()[0] && (fresh.handles().len() > 1 ==> m[k].1.handles()[i]
                != fresh.handles()[1]) by {
                assert(m[k].1.handles()[i] < first);
            }
            lemma_disjoint_after_insert(m, a, self.artifacts@, fresh);
        }
        Some(Injection { key, released, allocated: requested })
    }

    /// Removes the stream that the file `name` belongs to. The key returned
    /// carries no instance tag. Removing a stream that is absent changes
    /// nothing and releases nothing; a name that breaks the convention gives
    /// `None`.
    pub fn remove(&mut self, name: &str) -> (r: Option<Removal>)
        requires
            old(self).wf(),
        ensures
            final(self).wf(),
            final(self).style() == old(self).style(),
            final(self).next_handle() == old(self).next_handle(),
            ({
                let k = key_of_name(name@);
                let f = k->0;
                let m = old(self).table();
                if k is None {
                    &&& r is None
                    &&& final(self).table() == m
                } else {
                    let a = f.1;
                    &&& r is Some
                    &&& r->0.key.instance is None
                    &&& r->0.key.artifact@ == a
                    &&& final(self).table() == m.remove(a)
                    &&& r->0.released@ == handles_at(m, a)
                }
            }),
    {
        let key = match parse_key(name) {
            Some(key) => key,
            None => return None,
        };
        let ghost m = self.artifacts@;
        let removed = self.artifacts.remove(&key.artifact);
        let released = match removed {
            Some(artifact) => artifact.buffer_handles(),
            None => Vec::new(),
        };
        proof {
            assert forall|k: Seq<char>, i: int|
                #[trigger] self.artifacts@.contains_key(k) && 0 <= i
                    < self.artifacts@[k].1.handles().len() implies #[trigger] self.artifacts@[k].1.handles()[i]
                < self.next_handle by {
                assert(m.contains_key(k) && self.artifacts@[k] == m[k]);
            }
            assert forall|k1: Seq<char>, k2: Seq<char>, i: int, j: int|
                self.artifacts@.contains_key(k1) && self.artifacts@.contains_key(k2) && k1 != k2 && 0
                    <= i < self.artifacts@[k1].1.handles().len() && 0 <= j
                    < self.artifacts@[k2].1.handles().len() implies #[trigger] self.artifacts@[k1].1.handles()[i]
                != #[trigger] self.artifacts@[k2].1.handles()[j] by {
                assert(m.contains_key(k1) && m.contains_key(k2));
            }
            assert forall|k: Seq<char>| #[trigger] self.artifacts@.contains_key(k) implies distinct_handles(
                self.artifacts@[k].1,
            ) by {
                assert(m.contains_key(k));
            }
        }
        Some(Removal { key: Key { instance: None, artifact: key.artifact }, released })
    }
}

/// No device buffer is live twice: each stream holds at most one buffer set,
/// and no two streams share a buffer.
pub proof fn live_buffer_sets_are_disjoint(s: Replace)
    requires
        s.wf(),
    ensures
        handles_disjoint(s.table()),
{
}

} // verus!
