use worldview::model::Wireframe as WireframeRecord;
use worldview::{
    classify, Artifact, BufferRole, ElementGroup, FacetStyle, Header, Kind, Layout, Replace,
    TriFacet,
};

fn header(groups: &[(&str, u64)]) -> Header {
    Header {
        groups: groups
            .iter()
            .map(|(name, count)| ElementGroup { name: name.to_string(), count: *count })
            .collect(),
    }
}

fn point_cloud(vertex_count: u64) -> Layout {
    Layout { kind: Kind::PointCloud, vertex_count, facet_count: 0 }
}

#[test]
fn vertex_only_header_is_point_cloud() {
    let l = classify(&header(&[("vertex", 500)]), FacetStyle::Wireframe).unwrap();
    assert_eq!(l, point_cloud(500));
    let a = Artifact::new(&l, 0);
    assert_eq!(a.kind_of(), Kind::PointCloud);
    assert!(a.vertex_buffer().capacity >= 12 * 500);
    assert_eq!(a.vertex_buffer().capacity, 12000);
    assert_eq!(a.index_buffer(), None);
    assert_eq!(a.draw_count(), 500);
}

#[test]
fn empty_vertex_group_is_rejected() {
    assert_eq!(classify(&header(&[("vertex", 0)]), FacetStyle::Mesh), None);
    assert_eq!(classify(&header(&[("vertex", 0), ("face", 4)]), FacetStyle::Mesh), None);
}

#[test]
fn missing_vertex_group_is_rejected() {
    assert_eq!(classify(&header(&[("face", 4)]), FacetStyle::Mesh), None);
    assert_eq!(classify(&header(&[]), FacetStyle::Mesh), None);
}

#[test]
fn facets_follow_the_chosen_style() {
    let h = header(&[("vertex", 8), ("face", 12)]);
    let w = classify(&h, FacetStyle::Wireframe).unwrap();
    assert_eq!(w, Layout { kind: Kind::Wireframe, vertex_count: 8, facet_count: 12 });
    let m = classify(&h, FacetStyle::Mesh).unwrap();
    assert_eq!(m, Layout { kind: Kind::Mesh, vertex_count: 8, facet_count: 12 });
}

#[test]
fn unknown_groups_are_ignored() {
    let h = header(&[("camera", 1), ("vertex", 3), ("normals", 3)]);
    assert_eq!(classify(&h, FacetStyle::Mesh), Some(point_cloud(3)));
}

#[test]
fn first_group_of_a_label_counts() {
    let h = header(&[("vertex", 3), ("vertex", 9)]);
    assert_eq!(classify(&h, FacetStyle::Mesh), Some(point_cloud(3)));
}

#[test]
fn unsizeable_buffers_are_rejected() {
    let limit = u64::MAX / 24;
    assert_eq!(classify(&header(&[("vertex", limit)]), FacetStyle::Mesh), Some(point_cloud(limit)));
    assert_eq!(classify(&header(&[("vertex", limit + 1)]), FacetStyle::Mesh), None);
    let h = header(&[("vertex", 1), ("face", u64::MAX / 48 + 1)]);
    assert_eq!(classify(&h, FacetStyle::Wireframe), None);
    let m = classify(&h, FacetStyle::Mesh).unwrap();
    assert_eq!(m.kind, Kind::Mesh);
}

#[test]
fn buffer_sizes_and_draw_counts() {
    let w = Artifact::new(&Layout { kind: Kind::Wireframe, vertex_count: 4, facet_count: 2 }, 10);
    assert_eq!(w.vertex_buffer().handle, 10);
    assert_eq!(w.vertex_buffer().capacity, 96);
    assert_eq!(w.index_buffer().unwrap().handle, 11);
    assert_eq!(w.index_buffer().unwrap().capacity, 96);
    assert_eq!(w.draw_count(), 12);
    let m = Artifact::new(&Layout { kind: Kind::Mesh, vertex_count: 4, facet_count: 2 }, 20);
    assert_eq!(m.index_buffer().unwrap().capacity, 48);
    assert_eq!(m.draw_count(), 6);
    let requests = m.buffer_requests();
    assert_eq!(requests.len(), 2);
    assert_eq!(requests[0].role, BufferRole::Vertex);
    assert_eq!(requests[0].size, 96);
    assert_eq!(requests[1].role, BufferRole::Index);
    assert_eq!(requests[1].handle, 21);
    assert_eq!(m.buffer_handles(), vec![20, 21]);
}

#[test]
fn resize_only_when_outgrown() {
    let mut a = Artifact::new(&point_cloud(100), 0);
    assert!(!a.needs_resize(&point_cloud(150)));
    assert!(!a.needs_resize(&point_cloud(200)));
    assert!(a.needs_resize(&point_cloud(201)));
    let wire = Layout { kind: Kind::Wireframe, vertex_count: 10, facet_count: 1 };
    assert!(a.needs_resize(&wire));
    a.update_count(&point_cloud(150));
    assert_eq!(a.draw_count(), 150);
    assert_eq!(a.vertex_buffer().capacity, 2400);
}

#[test]
fn scenario_point_cloud_grows() {
    let mut s = Replace::new(FacetStyle::Mesh);
    let first = s.add("1.cloudA.ply", &header(&[("vertex", 500)])).unwrap();
    assert_eq!(first.key.artifact, "cloudA");
    assert_eq!(first.key.instance, Some(1));
    assert!(first.released.is_empty());
    assert_eq!(first.allocated.len(), 1);
    let stored = s.artifacts().get(&"cloudA".to_string()).unwrap();
    assert_eq!(stored.kind_of(), Kind::PointCloud);
    assert_eq!(stored.draw_count(), 500);
    let handle = stored.vertex_buffer().handle;
    assert_eq!(first.allocated[0].handle, handle);

    let second = s.add("2.cloudA.ply", &header(&[("vertex", 500)])).unwrap();
    assert_eq!(second.key.artifact, "cloudA");
    assert!(second.released.is_empty());
    assert!(second.allocated.is_empty());
    let stored = s.artifacts().get(&"cloudA".to_string()).unwrap();
    assert_eq!(stored.vertex_buffer().handle, handle);
    assert_eq!(stored.draw_count(), 500);
    assert_eq!(s.artifacts().instance(&"cloudA".to_string()), Some(Some(2)));

    let third = s.add("3.cloudA.ply", &header(&[("vertex", 50000)])).unwrap();
    assert_eq!(third.key.artifact, "cloudA");
    assert_eq!(third.released, vec![handle]);
    assert_eq!(third.allocated.len(), 1);
    let stored = s.artifacts().get(&"cloudA".to_string()).unwrap();
    assert_ne!(stored.vertex_buffer().handle, handle);
    assert_eq!(stored.draw_count(), 50000);
    assert_eq!(s.artifacts().entries().len(), 1);
}

#[test]
fn scenario_mesh_without_facets_is_point_cloud() {
    let mut s = Replace::new(FacetStyle::Mesh);
    let r = s.add("1.meshB.ply", &header(&[("vertex", 10), ("face", 0)])).unwrap();
    assert_eq!(r.key.artifact, "meshB");
    let stored = s.artifacts().get(&"meshB".to_string()).unwrap();
    assert_eq!(stored.kind_of(), Kind::PointCloud);
    assert_eq!(stored.draw_count(), 10);
}

#[test]
fn empty_vertex_file_leaves_table_unchanged() {
    let mut s = Replace::new(FacetStyle::Mesh);
    s.add("1.cloudA.ply", &header(&[("vertex", 5)])).unwrap();
    assert!(s.add("2.cloudA.ply", &header(&[("vertex", 0)])).is_none());
    assert!(s.add("2.other.ply", &header(&[("vertex", 0)])).is_none());
    assert_eq!(s.artifacts().entries().len(), 1);
    let stored = s.artifacts().get(&"cloudA".to_string()).unwrap();
    assert_eq!(stored.draw_count(), 5);
    assert_eq!(s.artifacts().instance(&"cloudA".to_string()), Some(Some(1)));
}

#[test]
fn unconventional_name_is_not_added() {
    let mut s = Replace::new(FacetStyle::Mesh);
    assert!(s.add("cloud.txt", &header(&[("vertex", 5)])).is_none());
    assert!(s.remove("cloud.txt").is_none());
    assert!(s.artifacts().entries().is_empty());
}

#[test]
fn removing_twice_is_harmless() {
    let mut s = Replace::new(FacetStyle::Wireframe);
    s.add("4.wire.ply", &header(&[("vertex", 3), ("face", 1)])).unwrap();
    let first = s.remove("5.wire.ply").unwrap();
    assert_eq!(first.key.artifact, "wire");
    assert_eq!(first.key.instance, None);
    assert_eq!(first.released, vec![0, 1]);
    assert!(s.artifacts().get(&"wire".to_string()).is_none());
    let second = s.remove("5.wire.ply").unwrap();
    assert_eq!(second.key.artifact, "wire");
    assert!(second.released.is_empty());
    assert!(s.artifacts().entries().is_empty());
}

#[test]
fn growing_stream_keeps_one_entry() {
    let mut s = Replace::new(FacetStyle::Mesh);
    let mut live: Vec<u64> = Vec::new();
    for (i, count) in [10u64, 15, 20, 21, 100, 1000].iter().enumerate() {
        let name = format!("{}.scan.ply", i);
        let r = s.add(&name, &header(&[("vertex", *count)])).unwrap();
        for h in &r.released {
            live.retain(|x| x != h);
        }
        for q in &r.allocated {
            live.push(q.handle);
        }
        assert_eq!(s.artifacts().entries().len(), 1);
        let stored = s.artifacts().get(&"scan".to_string()).unwrap();
        assert_eq!(stored.draw_count(), *count as u128);
        assert!(stored.vertex_buffer().capacity >= 12 * count);
        assert_eq!(live, vec![stored.vertex_buffer().handle]);
    }
}

#[test]
fn kind_change_reallocates() {
    let mut s = Replace::new(FacetStyle::Wireframe);
    s.add("1.x.ply", &header(&[("vertex", 100)])).unwrap();
    let r = s.add("2.x.ply", &header(&[("vertex", 3), ("face", 1)])).unwrap();
    assert_eq!(r.released, vec![0]);
    assert_eq!(r.allocated.len(), 2);
    let stored = s.artifacts().get(&"x".to_string()).unwrap();
    assert_eq!(stored.kind_of(), Kind::Wireframe);
    assert_eq!(stored.draw_count(), 6);
}

#[test]
fn streams_are_independent() {
    let mut s = Replace::new(FacetStyle::Mesh);
    s.add("1.a.ply", &header(&[("vertex", 1)])).unwrap();
    s.add("1.b.ply", &header(&[("vertex", 2)])).unwrap();
    s.remove("9.a.ply").unwrap();
    assert!(s.artifacts().get(&"a".to_string()).is_none());
    assert_eq!(s.artifacts().get(&"b".to_string()).unwrap().draw_count(), 2);
}

#[test]
fn triangle_record_reads_index_list() {
    let mut f = TriFacet::new();
    assert_eq!(f.vertex_indices, [0, 0, 0]);
    f.set_property(&"vertex_indices".to_string(), &vec![4, 5, 6]);
    assert_eq!(f.vertex_indices, [4, 5, 6]);
    f.set_property(&"vertex_indices".to_string(), &vec![1, 2, 3, 4]);
    assert_eq!(f.vertex_indices, [4, 5, 6]);
    f.set_property(&"other".to_string(), &vec![1, 2, 3]);
    assert_eq!(f.vertex_indices, [4, 5, 6]);
}

#[test]
fn wireframe_record_reads_edges() {
    let mut w = WireframeRecord::new();
    w.set_property(&"vertex_indices".to_string(), &vec![4, 5, 6]);
    assert_eq!(w.vertex_indices, [4, 5, 5, 6, 6, 4]);
    w.set_property(&"vertex_indices".to_string(), &vec![1, 2]);
    assert_eq!(w.vertex_indices, [4, 5, 5, 6, 6, 4]);
}
