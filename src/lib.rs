//! Artifact ingestion for a live point-cloud and mesh viewer: schema
//! classification, the buffer lifecycle of each artifact, the keyed table
//! shared with the renderer, and the decisions of the producers that feed it.

pub mod element;

pub use element::Element;
pub mod key;

pub use key::{decimal, parse_decimal_u32, Key};
pub mod names;

pub use names::{key_from_captures, parse_key, playback_order, Filter, NAME_PATTERN};
pub mod classify;

pub use classify::{
    classify, ElementGroup, FacetStyle, Header, Kind, Layout, EDGES_STRIDE, HEADROOM,
    TRIANGLE_STRIDE, VERTEX_STRIDE,
};
pub mod artifact;

pub use artifact::{Artifact, BufferRequest, BufferRole, BufferSlot, Mesh, PointCloud, Wireframe};
pub mod table;

pub use table::{ArtifactTable, Entry};
pub mod sequence;

pub use sequence::{Injection, Removal, Replace};
pub mod inject;

pub use inject::{
    watch_action, Change, InjectionEvent, Pace, Playback,
    WatchAction, SENTINEL_NAME,
};
pub mod model;

pub use model::TriFacet;
pub mod laws;
