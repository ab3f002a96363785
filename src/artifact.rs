//! Artifacts: a point cloud, wireframe or mesh together with the buffers that
//! hold it on the device. A buffer is known here by a handle and a capacity;
//! the device side allocates, fills and releases the buffers those name.

use crate::classify::{
    index_bytes, index_stride, layout_ok, vertex_bytes, Kind, Layout, EDGES_STRIDE, HEADROOM,
    TRIANGLE_STRIDE, VERTEX_STRIDE,
};
use vstd::prelude::*;

verus! {

/// A device buffer: its handle, unique over the life of a table, and the
/// bytes it can hold.
#[derive(Clone, Copy, Debug, PartialEq, Eq, Structural)]
pub struct BufferSlot {
    pub handle: u64,
    pub capacity: u64,
}

/// What a buffer holds, which decides how the device may use it.
#[derive(Clone, Copy, Debug, PartialEq, Eq, Structural)]
pub enum BufferRole {
    Vertex,
    Index,
}

/// A buffer that the device side must allocate.
#[derive(Clone, Copy, Debug, PartialEq, Eq, Structural)]
pub struct BufferRequest {
    pub handle: u64,
    pub size: u64,
    pub role: BufferRole,
}

/// Points drawn one per vertex.
#[derive(Clone, Copy, Debug, PartialEq, Eq, Structural)]
pub struct PointCloud {
    pub vertices: BufferSlot,
    pub num_vertices: u64,
}

/// Facets drawn as their edges, three lines per facet.
#[derive(Clone, Copy, Debug, PartialEq, Eq, Structural)]
pub struct Wireframe {
    pub vertices: BufferSlot,
    pub indices: BufferSlot,
    pub num_lines: u64,
}

/// Facets drawn as filled triangles.
#[derive(Clone, Copy, Debug, PartialEq, Eq, Structural)]
pub struct Mesh {
    pub vertices: BufferSlot,
    pub indices: BufferSlot,
    pub num_facets: u64,
}

/// One artifact and its buffers.
#[derive(Clone, Copy, Debug, PartialEq, Eq, Structural)]
pub enum Artifact {
    PointCloud(PointCloud),
    Wireframe(Wireframe),
    Mesh(Mesh),
}

/// The capacity allocated for `bytes` of records.
pub open spec fn with_headroom(bytes: nat) -> nat {
    HEADROOM as nat * bytes
}

/// A fresh artifact for `l`, whose buffers take the handles `first` and
/// `first + 1` and hold the records of `l` with headroom.
pub open spec fn allocated(l: Layout, first: u64) -> Artifact {
    let vertices = BufferSlot { handle: first, capacity: with_headroom(vertex_bytes(l)) as u64 };
    let indices = BufferSlot {
        handle: (first + 1) as u64,
        capacity: with_headroom(index_bytes(l)) as u64,
    };
    match l.kind {
        Kind::PointCloud => Artifact::PointCloud(
            PointCloud { vertices, num_vertices: l.vertex_count },
        ),
        Kind::Wireframe => Artifact::Wireframe(
            Wireframe { vertices, indices, num_lines: (3 * l.facet_count) as u64 },
        ),
        Kind::Mesh => Artifact::Mesh(Mesh { vertices, indices, num_facets: l.facet_count }),
    }
}

/// How many handles an artifact of `kind` takes.
pub open spec fn handle_count(kind: Kind) -> nat {
    match kind {
        Kind::PointCloud => 1,
        _ => 2,
    }
}

impl Artifact {
    pub open spec fn kind(self) -> Kind {
        match self {
            Artifact::PointCloud(_) => Kind::PointCloud,
            Artifact::Wireframe(_) => Kind::Wireframe,
            Artifact::Mesh(_) => Kind::Mesh,
        }
    }

    pub open spec fn vertex_slot(self) -> BufferSlot {
        match self {
            Artifact::PointCloud(p) => p.vertices,
            Artifact::Wireframe(w) => w.vertices,
            Artifact::Mesh(m) => m.vertices,
        }
    }

    pub open spec fn index_slot(self) -> Option<BufferSlot> {
        match self {
            Artifact::PointCloud(_) => None,
            Artifact::Wireframe(w) => Some(w.indices),
            Artifact::Mesh(m) => Some(m.indices),
        }
    }

    /// The handles of the artifact's buffers, vertex buffer first.
    pub open spec fn handles(self) -> Seq<u64> {
        match self.index_slot() {
            Some(i) => seq![self.vertex_slot().handle, i.handle],
            None => seq![self.vertex_slot().handle],
        }
    }

    /// The buffers that the device side allocates for this artifact.
    pub open spec fn requests(self) -> Seq<BufferRequest> {
        let v = BufferRequest {
            handle: self.vertex_slot().handle,
            size: self.vertex_slot().capacity,
            role: BufferRole::Vertex,
        };
        match self.index_slot() {
            Some(i) => seq![v, BufferRequest { handle: i.handle, size: i.capacity, role: BufferRole::Index }],
            None => seq![v],
        }
    }

    /// Whether the buffers can take the records of `l` as they are: same
    /// kind, and each buffer at least as large as its records.
    pub open spec fn fits(self, l: Layout) -> bool {
        &&& self.kind() == l.kind
        &&& self.vertex_slot().capacity >= vertex_bytes(l)
        &&& match self.index_slot() {
            Some(i) => i.capacity >= index_bytes(l),
            None => true,
        }
    }

    /// The same buffers with the counts of `l`.
    pub open spec fn counted(self, l: Layout) -> Artifact {
        match self {
            Artifact::PointCloud(p) => Artifact::PointCloud(
                PointCloud { num_vertices: l.vertex_count, ..p },
            ),
            Artifact::Wireframe(w) => Artifact::Wireframe(
                Wireframe { num_lines: (3 * l.facet_count) as u64, ..w },
            ),
            Artifact::Mesh(m) => Artifact::Mesh(Mesh { num_facets: l.facet_count, ..m }),
        }
    }

    /// How many vertices or indices a draw of this artifact reads.
    pub open spec fn draw_len(self) -> nat {
        match self {
            Artifact::PointCloud(p) => p.num_vertices as nat,
            Artifact::Wireframe(w) => 2 * w.num_lines as nat,
            Artifact::Mesh(m) => 3 * m.num_facets as nat,
        }
    }

    /// Allocates the buffers for `layout`, taking handles from `first_handle` on.
    pub fn new(layout: &Layout, first_handle: u64) -> (r: Artifact)
        requires
            layout_ok(*layout),
            first_handle < u64::MAX,
        ensures
            r == allocated(*layout, first_handle),
            r.kind() == layout.kind,
            r.fits(*layout),
            r.handles().len() == handle_count(layout.kind),
    {
        let l = *layout;
        proof {
            assert(l.facet_count <= u64::MAX / 3) by (nonlinear_arith)
                requires
                    2 * (index_stride(l.kind) * l.facet_count) <= u64::MAX,
                    l.kind != Kind::PointCloud ==> index_stride(l.kind) >= 12,
                    l.kind == Kind::PointCloud ==> l.facet_count == 0,
            ;
        }
        let vertices = BufferSlot {
            handle: first_handle,
            capacity: HEADROOM * (VERTEX_STRIDE * l.vertex_count),
        };
        match l.kind {
            Kind::PointCloud => Artifact::PointCloud(
                PointCloud { vertices, num_vertices: l.vertex_count },
            ),
            Kind::Wireframe => {
                let indices = BufferSlot {
                    handle: first_handle + 1,
                    capacity: HEADROOM * (EDGES_STRIDE * l.facet_count),
                };
                Artifact::Wireframe(Wireframe { vertices, indices, num_lines: 3 * l.facet_count })
            },
            Kind::Mesh => {
                let indices = BufferSlot {
                    handle: first_handle + 1,
                    capacity: HEADROOM * (TRIANGLE_STRIDE * l.facet_count),
                };
                Artifact::Mesh(Mesh { vertices, indices, num_facets: l.facet_count })
            },
        }
    }

    /// Whether the buffers must be discarded and allocated anew to take the
    /// records of `layout`.
    pub fn needs_resize(&self, layout: &Layout) -> (r: bool)
        ensures
            r == !self.fits(*layout),
    {
        let l = *layout;
        let vertex_need = VERTEX_STRIDE as u128 * l.vertex_count as u128;
        let facets = l.facet_count as u128;
        assert(facets <= u64::MAX);
        assert(EDGES_STRIDE as u128 * facets <= u128::MAX && TRIANGLE_STRIDE as u128 * facets
            <= u128::MAX) by (nonlinear_arith)
            requires
                facets <= u64::MAX,
                EDGES_STRIDE == 24,
                TRIANGLE_STRIDE == 12,
        ;
        let edges_need = EDGES_STRIDE as u128 * facets;
        let triangles_need = TRIANGLE_STRIDE as u128 * facets;
        match self {
            Artifact::PointCloud(p) => {
                l.kind != Kind::PointCloud || (p.vertices.capacity as u128) < vertex_need
            },
            Artifact::Wireframe(w) => {
                l.kind != Kind::Wireframe || (w.vertices.capacity as u128) < vertex_need
                    || (w.indices.capacity as u128) < edges_need
            },
            Artifact::Mesh(m) => {
                l.kind != Kind::Mesh || (m.vertices.capacity as u128) < vertex_need
                    || (m.indices.capacity as u128) < triangles_need
            },
        }
    }

    /// Takes the counts of `layout`, which the buffers already fit.
    pub fn update_count(&mut self, layout: &Layout)
        requires
            old(self).fits(*layout),
            layout_ok(*layout),
        ensures
            *final(self) == old(self).counted(*layout),
    {
        let l = *layout;
        proof {
            assert(l.facet_count <= u64::MAX / 3) by (nonlinear_arith)
                requires
                    2 * (index_stride(l.kind) * l.facet_count) <= u64::MAX,
                    l.kind != Kind::PointCloud ==> index_stride(l.kind) >= 12,
                    l.kind == Kind::PointCloud ==> l.facet_count == 0,
            ;
        }
        match self {
            Artifact::PointCloud(p) => {
                p.num_vertices = l.vertex_count;
            },
            Artifact::Wireframe(w) => {
                w.num_lines = 3 * l.facet_count;
            },
            Artifact::Mesh(m) => {
                m.num_facets = l.facet_count;
            },
        }
    }

    /// The kind of this artifact.
    pub fn kind_of(&self) -> (r: Kind)
        ensures
            r == self.kind(),
    {
        match self {
            Artifact::PointCloud(_) => Kind::PointCloud,
            Artifact::Wireframe(_) => Kind::Wireframe,
            Artifact::Mesh(_) => Kind::Mesh,
        }
    }

    /// The vertex buffer.
    pub fn vertex_buffer(&self) -> (r: BufferSlot)
        ensures
            r == self.vertex_slot(),
    {
        match self {
            Artifact::PointCloud(p) => p.vertices,
            Artifact::Wireframe(w) => w.vertices,
            Artifact::Mesh(m) => m.vertices,
        }
    }

    /// The index buffer, which a point cloud has none of.
    pub fn index_buffer(&self) -> (r: Option<BufferSlot>)
        ensures
            r == self.index_slot(),
    {
        match self {
            Artifact::PointCloud(_) => None,
            Artifact::Wireframe(w) => Some(w.indices),
            Artifact::Mesh(m) => Some(m.indices),
        }
    }

    /// The handles of the buffers, vertex buffer first.
    pub fn buffer_handles(&self) -> (r: Vec<u64>)
        ensures
            r@ == self.handles(),
    {
        let mut r = Vec::new();
        r.push(self.vertex_buffer().handle);
        match self.index_buffer() {
            Some(i) => r.push(i.handle),
            None => {},
        }
        r
    }

    /// The buffers that the device side allocates for this artifact.
    pub fn buffer_requests(&self) -> (r: Vec<BufferRequest>)
        ensures
            r@ == self.requests(),
    {
        let v = self.vertex_buffer();
        let mut r = Vec::new();
        r.push(BufferRequest { handle: v.handle, size: v.capacity, role: BufferRole::Vertex });
        match self.index_buffer() {
            Some(i) => r.push(
                BufferRequest { handle: i.handle, size: i.capacity, role: BufferRole::Index },
            ),
            None => {},
        }
        r
    }

    /// How many vertices (point cloud) or indices (wireframe, mesh) a draw reads.
    pub fn draw_count(&self) -> (r: u128)
        ensures
            r == self.draw_len(),
    {
        match self {
            Artifact::PointCloud(p) => p.num_vertices as u128,
            Artifact::Wireframe(w) => 2 * w.num_lines as u128,
            Artifact::Mesh(m) => 3 * m.num_facets as u128,
        }
    }
}

} // verus!
