//! The schema classifier: from the record groups that a header declares, the
//! kind of artifact a file holds and the sizes of the buffers it needs.

use crate::element::{element_of, Element};
use vstd::prelude::*;

verus! {

/// Bytes of one vertex record: three packed 32-bit coordinates.
pub const VERTEX_STRIDE: u64 = 12;

/// Bytes of one triangle as the mesh index buffer holds it: three 32-bit indices.
pub const TRIANGLE_STRIDE: u64 = 12;

/// Bytes of one triangle as the wireframe index buffer holds it: its three
/// edges, two 32-bit indices each.
pub const EDGES_STRIDE: u64 = 24;

/// Each buffer is allocated at this multiple of the bytes it must hold, so
/// that modest growth does not force a new allocation.
pub const HEADROOM: u64 = 2;

/// One record group of a header: its label and how many records it declares.
pub struct ElementGroup {
    pub name: String,
    pub count: u64,
}

/// The part of a geometry file header that classification reads: its record
/// groups in header order.
pub struct Header {
    pub groups: Vec<ElementGroup>,
}

/// The three kinds of artifact.
#[derive(Clone, Copy, Debug, PartialEq, Eq, Hash, Structural)]
pub enum Kind {
    PointCloud,
    Wireframe,
    Mesh,
}

/// How a file with both vertices and facets is shown. Nothing in the header
/// tells a wireframe from a mesh, so the ingesting side chooses once.
#[derive(Clone, Copy, Debug, PartialEq, Eq, Hash, Structural)]
pub enum FacetStyle {
    Wireframe,
    Mesh,
}

/// The outcome of classification: the kind and the record counts it uses.
/// A point cloud has a facet count of zero.
#[derive(Clone, Copy, Debug, PartialEq, Eq, Structural)]
pub struct Layout {
    pub kind: Kind,
    pub vertex_count: u64,
    pub facet_count: u64,
}

/// The count of the first group labelled as `e`, if any.
pub open spec fn group_count(gs: Seq<ElementGroup>, e: Element) -> Option<u64>
    decreases gs.len(),
{
    if gs.len() == 0 {
        None
    } else if element_of(gs[0].name@) == Some(e) {
        Some(gs[0].count)
    } else {
        group_count(gs.drop_first(), e)
    }
}

/// The kind that a facet style shows.
pub open spec fn style_kind(style: FacetStyle) -> Kind {
    match style {
        FacetStyle::Wireframe => Kind::Wireframe,
        FacetStyle::Mesh => Kind::Mesh,
    }
}

/// Bytes per facet in the index buffer of `kind`; a point cloud has none.
pub open spec fn index_stride(kind: Kind) -> nat {
    match kind {
        Kind::PointCloud => 0,
        Kind::Wireframe => EDGES_STRIDE as nat,
        Kind::Mesh => TRIANGLE_STRIDE as nat,
    }
}

/// Bytes that the vertex records of `l` take.
pub open spec fn vertex_bytes(l: Layout) -> nat {
    VERTEX_STRIDE as nat * l.vertex_count as nat
}

/// Bytes that the index records of `l` take.
pub open spec fn index_bytes(l: Layout) -> nat {
    index_stride(l.kind) * l.facet_count as nat
}

/// Whether buffers with headroom for `l` can be sized in 64 bits.
pub open spec fn allocatable(l: Layout) -> bool {
    HEADROOM as nat * vertex_bytes(l) <= u64::MAX && HEADROOM as nat * index_bytes(l) <= u64::MAX
}

/// A well-formed layout: some vertices, facets only where the kind has
/// them, and buffer sizes that fit.
pub open spec fn layout_ok(l: Layout) -> bool {
    &&& l.vertex_count > 0
    &&& (l.kind == Kind::PointCloud <==> l.facet_count == 0)
    &&& allocatable(l)
}

/// Classification: no vertex group, or an empty one, is rejected; a non-empty
/// facet group makes the file a wireframe or mesh as `style` says, and
/// otherwise it is a point cloud; unrecognised groups are ignored. A file
/// whose buffers could not be sized is rejected too.
pub open spec fn classification(gs: Seq<ElementGroup>, style: FacetStyle) -> Option<Layout> {
    match group_count(gs, Element::Vertex) {
        None => None,
        Some(v) => {
            let l = match group_count(gs, Element::Facet) {
                Some(f) if f > 0 => Layout {
                    kind: style_kind(style),
                    vertex_count: v,
                    facet_count: f,
                },
                _ => Layout { kind: Kind::PointCloud, vertex_count: v, facet_count: 0 },
            };
            if v > 0 && allocatable(l) {
                Some(l)
            } else {
                None
            }
        },
    }
}

impl Header {
    /// The count that the header declares for `e`, from its first group
    /// labelled so.
    pub fn count_of(&self, e: Element) -> (r: Option<u64>)
        ensures
            r == group_count(self.groups@, e),
    {
        let mut i: usize = 0;
        assert(self.groups@.subrange(0, self.groups@.len() as int) == self.groups@);
        while i < self.groups.len()
            invariant
                0 <= i <= self.groups.len(),
                group_count(self.groups@, e) == group_count(
                    self.groups@.subrange(i as int, self.groups@.len() as int),
                    e,
                ),
            decreases self.groups.len() - i,
        {
            let ghost rest = self.groups@.subrange(i as int, self.groups@.len() as int);
            assert(rest[0] == self.groups@[i as int]);
            assert(rest.drop_first() == self.groups@.subrange(i as int + 1, self.groups@.len() as int));
            if Element::from(&self.groups[i].name) == Some(e) {
                return Some(self.groups[i].count);
            }
            i = i + 1;
        }
        None
    }
}

/// Whether `count` records of `stride` bytes, with headroom, fit in 64 bits.
fn sized_with_headroom(stride: u64, count: u64) -> (r: bool)
    ensures
        r == (HEADROOM as nat * (stride as nat * count as nat) <= u64::MAX),
{
    match stride.checked_mul(count) {
        Some(bytes) => bytes.checked_mul(HEADROOM).is_some(),
        None => {
            assert(HEADROOM as nat * (stride as nat * count as nat) > u64::MAX) by (nonlinear_arith)
                requires
                    stride as nat * count as nat > u64::MAX,
                    HEADROOM == 2,
            ;
            false
        },
    }
}

/// Classifies a header for a facet style.
pub fn classify(header: &Header, style: FacetStyle) -> (r: Option<Layout>)
    ensures
        r == classification(header.groups@, style),
        r is Some ==> layout_ok(r->0),
{
    let v = match header.count_of(Element::Vertex) {
        Some(v) => v,
        None => return None,
    };
    if v == 0 {
        return None;
    }
    let l = match header.count_of(Element::Facet) {
        Some(f) if f > 0 => {
            let kind = match style {
                FacetStyle::Wireframe => Kind::Wireframe,
                FacetStyle::Mesh => Kind::Mesh,
            };
            Layout { kind, vertex_count: v, facet_count: f }
        },
        _ => Layout { kind: Kind::PointCloud, vertex_count: v, facet_count: 0 },
    };
    let stride: u64 = match l.kind {
        Kind::PointCloud => 0,
        Kind::Wireframe => EDGES_STRIDE,
        Kind::Mesh => TRIANGLE_STRIDE,
    };
    if !sized_with_headroom(VERTEX_STRIDE, l.vertex_count) {
        return None;
    }
    if !sized_with_headroom(stride, l.facet_count) {
        return None;
    }
    Some(l)
}

} // verus!
