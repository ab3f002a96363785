//! Properties of classification and of the replace policy, over the spec
//! functions that the contracts of `classify`, `Replace::add` and
//! `Replace::remove` are stated in.

use crate::artifact::{allocated, Artifact};
use crate::classify::{
    allocatable, classification, group_count, index_bytes, layout_ok, vertex_bytes,
    ElementGroup, FacetStyle, Kind, Layout,
};
use crate::element::Element;
use crate::sequence::{handles_at, handles_below, reuses, stored_after};
use crate::table::TableMap;
use vstd::prelude::*;

verus! {

/// Whether the counts of `a` are those of `l`.
pub open spec fn holds_counts(a: Artifact, l: Layout) -> bool {
    match a {
        Artifact::PointCloud(p) => l.kind == Kind::PointCloud && p.num_vertices == l.vertex_count,
        Artifact::Wireframe(w) => l.kind == Kind::Wireframe && w.num_lines == 3 * l.facet_count,
        Artifact::Mesh(m) => l.kind == Kind::Mesh && m.num_facets == l.facet_count,
    }
}

/// A header with a non-empty vertex group and no facet group is a point
/// cloud of that many vertices, and its vertex buffer holds them all. This
/// holds wherever the buffer can be sized at all.
pub proof fn vertex_only_headers_are_point_clouds(
    gs: Seq<ElementGroup>,
    style: FacetStyle,
    first_handle: u64,
)
    requires
        group_count(gs, Element::Vertex) is Some,
        group_count(gs, Element::Vertex)->0 > 0,
        group_count(gs, Element::Facet) is None,
        allocatable(
            Layout {
                kind: Kind::PointCloud,
                vertex_count: group_count(gs, Element::Vertex)->0,
                facet_count: 0,
            },
        ),
    ensures
        ({
            let l = Layout {
                kind: Kind::PointCloud,
                vertex_count: group_count(gs, Element::Vertex)->0,
                facet_count: 0,
            };
            &&& classification(gs, style) == Some(l)
            &&& allocated(l, first_handle).kind() == Kind::PointCloud
            &&& allocated(l, first_handle).vertex_slot().capacity >= vertex_bytes(l)
        }),
{
}

/// A header whose vertex group is empty is rejected, whatever else it holds.
pub proof fn empty_vertex_groups_are_rejected(gs: Seq<ElementGroup>, style: FacetStyle)
    requires
        group_count(gs, Element::Vertex) == Some(0u64),
    ensures
        classification(gs, style) is None,
{
}

/// Removing a stream a second time changes nothing and releases nothing.
pub proof fn second_removal_changes_nothing(m: TableMap, name: Seq<char>)
    ensures
        m.remove(name).remove(name) == m.remove(name),
        handles_at(m.remove(name), name).len() == 0,
{
    assert(m.remove(name).remove(name) =~= m.remove(name));
}

/// An accepted file leaves exactly one entry for its stream, whose buffers
/// fit the file and whose counts are the file's; the other streams are
/// untouched.
pub proof fn accepted_file_leaves_one_fitting_entry(
    m: TableMap,
    name: Seq<char>,
    instance: Option<u32>,
    l: Layout,
    next: u64,
)
    requires
        layout_ok(l),
        next < u64::MAX,
    ensures
        ({
            let after = m.insert(name, (instance, stored_after(m, name, l, next)));
            &&& after.dom() == m.dom().insert(name)
            &&& after[name] == (instance, stored_after(m, name, l, next))
            &&& stored_after(m, name, l, next).fits(l)
            &&& holds_counts(stored_after(m, name, l, next), l)
            &&& forall|k: Seq<char>| k != name && #[trigger] m.contains_key(k) ==> after[k] == m[k]
        }),
{
    let a = stored_after(m, name, l, next);
    assert(l.facet_count <= u64::MAX / 3) by (nonlinear_arith)
        requires
            2 * index_bytes(l) <= u64::MAX,
            l.kind == Kind::Wireframe ==> index_bytes(l) == 24 * l.facet_count,
            l.kind == Kind::Mesh ==> index_bytes(l) == 12 * l.facet_count,
            l.kind == Kind::PointCloud ==> l.facet_count == 0,
    ;
    assert(m.insert(name, (instance, a)).dom() =~= m.dom().insert(name));
}

/// When the stored buffers already fit, an accepted file keeps them: the
/// same handles and capacities, with new counts only.
pub proof fn fitting_buffers_are_kept(m: TableMap, name: Seq<char>, l: Layout, next: u64)
    requires
        reuses(m, name, l),
    ensures
        stored_after(m, name, l, next).handles() == m[name].1.handles(),
        stored_after(m, name, l, next).vertex_slot() == m[name].1.vertex_slot(),
        stored_after(m, name, l, next).index_slot() == m[name].1.index_slot(),
{
}

/// When they do not fit, the file gets new buffers whose handles differ from
/// every handle the table held.
pub proof fn outgrown_buffers_are_replaced(m: TableMap, name: Seq<char>, l: Layout, next: u64)
    requires
        !reuses(m, name, l),
        handles_below(m, next),
        next < u64::MAX,
    ensures
        stored_after(m, name, l, next) == allocated(l, next),
        forall|k: Seq<char>, i: int, j: int|
            #[trigger] m.contains_key(k) && 0 <= i < m[k].1.handles().len() && 0 <= j
                < allocated(l, next).handles().len() ==> #[trigger] m[k].1.handles()[i]
                != #[trigger] allocated(l, next).handles()[j],
{
    assert forall|k: Seq<char>, i: int, j: int|
        #[trigger] m.contains_key(k) && 0 <= i < m[k].1.handles().len() && 0 <= j
            < allocated(l, next).handles().len() implies #[trigger] m[k].1.handles()[i]
        != #[trigger] allocated(l, next).handles()[j] by {
        assert(m[k].1.handles()[i] < next);
        assert(allocated(l, next).handles()[j] >= next);
    }
}

/// A file that needed new buffers leaves buffers that take the same layout
/// again without another allocation.
pub proof fn growth_reallocates_once(
    m: TableMap,
    name: Seq<char>,
    instance: Option<u32>,
    l: Layout,
    next: u64,
)
    requires
        layout_ok(l),
        next < u64::MAX,
    ensures
        reuses(m.insert(name, (instance, stored_after(m, name, l, next))), name, l),
{
    accepted_file_leaves_one_fitting_entry(m, name, instance, l, next);
}

} // verus!
