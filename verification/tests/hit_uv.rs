use bevy::math::Vec2;
use bevy::math::Vec3;
use world_space_ui::MeshHit;
use world_space_ui::MeshIndices;
use world_space_ui::UvMesh;
use world_space_ui::WorldSpaceUiSurface;

fn hit(x: f32, y: f32, z: f32, triangle: usize) -> MeshHit {
    MeshHit { barycentric_coords: Vec3::new(x, y, z), triangle_index: Some(triangle) }
}

fn corner_triangle() -> UvMesh {
    UvMesh {
        uvs: Some(vec![Vec2::new(0.0, 0.0), Vec2::new(1.0, 0.0), Vec2::new(0.0, 1.0)]),
        indices: None,
    }
}

/// Four vertices, two triangles that share an edge.
fn quad_uvs() -> Vec<Vec2> {
    vec![Vec2::new(0.0, 0.0), Vec2::new(1.0, 0.0), Vec2::new(1.0, 1.0), Vec2::new(0.0, 1.0)]
}

fn quad_order() -> [usize; 6] {
    [0, 1, 2, 2, 3, 0]
}

fn quad_u16() -> UvMesh {
    UvMesh {
        uvs: Some(quad_uvs()),
        indices: Some(MeshIndices::U16(quad_order().iter().map(|i| *i as u16).collect())),
    }
}

fn quad_u32() -> UvMesh {
    UvMesh {
        uvs: Some(quad_uvs()),
        indices: Some(MeshIndices::U32(quad_order().iter().map(|i| *i as u32).collect())),
    }
}

fn quad_unrolled() -> UvMesh {
    let uvs = quad_uvs();
    UvMesh { uvs: Some(quad_order().iter().map(|i| uvs[*i]).collect()), indices: None }
}

#[test]
fn first_weight_belongs_to_second_corner() {
    let uv = WorldSpaceUiSurface::get_ray_mesh_hit_uv(&hit(1.0, 0.0, 0.0, 0), &corner_triangle());
    assert_eq!(uv, Some(Vec2::new(1.0, 0.0)));
}

#[test]
fn second_weight_belongs_to_third_corner() {
    let uv = WorldSpaceUiSurface::get_ray_mesh_hit_uv(&hit(0.0, 1.0, 0.0, 0), &corner_triangle());
    assert_eq!(uv, Some(Vec2::new(0.0, 1.0)));
}

#[test]
fn third_weight_belongs_to_first_corner() {
    let mesh = UvMesh {
        uvs: Some(vec![Vec2::new(0.25, 0.75), Vec2::new(1.0, 0.0), Vec2::new(0.0, 1.0)]),
        indices: None,
    };
    let uv = WorldSpaceUiSurface::get_ray_mesh_hit_uv(&hit(0.0, 0.0, 1.0, 0), &mesh);
    assert_eq!(uv, Some(Vec2::new(0.25, 0.75)));
}

#[test]
fn weights_mix_the_corners() {
    let mesh = UvMesh {
        uvs: Some(vec![Vec2::new(8.0, 16.0), Vec2::new(4.0, 0.0), Vec2::new(0.0, 32.0)]),
        indices: None,
    };
    // z * uv0 + x * uv1 + y * uv2 = 0.25 * (8, 16) + 0.5 * (4, 0) + 0.25 * (0, 32)
    let uv = WorldSpaceUiSurface::get_ray_mesh_hit_uv(&hit(0.5, 0.25, 0.25, 0), &mesh);
    assert_eq!(uv, Some(Vec2::new(4.0, 12.0)));
}

#[test]
fn interpolate_scales_and_adds() {
    let uv = world_space_ui::mesh::interpolate(
        Vec3::new(2.0, 3.0, 5.0),
        Vec2::new(1.0, 10.0),
        Vec2::new(100.0, 1000.0),
        Vec2::new(10000.0, 100000.0),
    );
    assert_eq!(uv, Vec2::new(5.0 + 200.0 + 30000.0, 50.0 + 2000.0 + 300000.0));
}

#[test]
fn second_triangle_is_read_from_the_fourth_slot() {
    let mesh = quad_u16();
    assert_eq!(mesh.triangle_corners(0), (0, 1, 2));
    assert_eq!(mesh.triangle_corners(1), (2, 3, 0));
    // corners (2, 3, 0) have the coordinates (1, 1), (0, 1), (0, 0); the x weight picks (0, 1)
    let uv = WorldSpaceUiSurface::get_ray_mesh_hit_uv(&hit(1.0, 0.0, 0.0, 1), &mesh);
    assert_eq!(uv, Some(Vec2::new(0.0, 1.0)));
}

#[test]
fn unindexed_corners_are_the_slots() {
    let mesh = quad_unrolled();
    assert_eq!(mesh.slot_count(), 6);
    assert_eq!(mesh.triangle_corners(0), (0, 1, 2));
    assert_eq!(mesh.triangle_corners(1), (3, 4, 5));
}

#[test]
fn index_width_and_unrolling_make_no_difference() {
    let weights = [(1.0, 0.0, 0.0), (0.0, 1.0, 0.0), (0.0, 0.0, 1.0), (0.5, 0.25, 0.25)];
    for triangle in 0..2 {
        for (x, y, z) in weights {
            let at = hit(x, y, z, triangle);
            let narrow = WorldSpaceUiSurface::get_ray_mesh_hit_uv(&at, &quad_u16());
            let wide = WorldSpaceUiSurface::get_ray_mesh_hit_uv(&at, &quad_u32());
            let plain = WorldSpaceUiSurface::get_ray_mesh_hit_uv(&at, &quad_unrolled());
            assert!(narrow.is_some());
            assert_eq!(narrow, wide);
            assert_eq!(narrow, plain);
        }
    }
    let centre = hit(0.5, 0.25, 0.25, 1);
    // 0.25 * (1, 1) + 0.5 * (0, 1) + 0.25 * (0, 0)
    assert_eq!(
        WorldSpaceUiSurface::get_ray_mesh_hit_uv(&centre, &quad_u32()),
        Some(Vec2::new(0.25, 0.75))
    );
}

#[test]
fn mesh_without_uvs_gives_no_uv() {
    let bare = UvMesh { uvs: None, indices: Some(MeshIndices::U16(vec![0, 1, 2])) };
    assert_eq!(WorldSpaceUiSurface::get_ray_mesh_hit_uv(&hit(1.0, 0.0, 0.0, 0), &bare), None);
    let empty = UvMesh { uvs: None, indices: None };
    let nowhere = MeshHit { barycentric_coords: Vec3::new(1.0, 0.0, 0.0), triangle_index: None };
    assert!(nowhere.is_placed_on(&empty));
    assert_eq!(WorldSpaceUiSurface::get_ray_mesh_hit_uv(&nowhere, &empty), None);
}

#[test]
fn hit_without_triangle_is_not_placed() {
    let nowhere = MeshHit { barycentric_coords: Vec3::new(1.0, 0.0, 0.0), triangle_index: None };
    assert!(!nowhere.is_placed_on(&corner_triangle()));
}

#[test]
fn triangle_past_the_end_does_not_resolve() {
    assert!(quad_u16().resolves_triangle(1));
    assert!(!quad_u16().resolves_triangle(2));
    assert!(!quad_u32().resolves_triangle(usize::MAX));
    assert!(corner_triangle().resolves_triangle(0));
    assert!(!corner_triangle().resolves_triangle(1));
    assert!(!hit(1.0, 0.0, 0.0, 1).is_placed_on(&corner_triangle()));
    assert!(hit(1.0, 0.0, 0.0, 0).is_placed_on(&corner_triangle()));
}

#[test]
fn incomplete_triangle_does_not_resolve() {
    let mesh = UvMesh {
        uvs: Some(quad_uvs()),
        indices: Some(MeshIndices::U32(vec![0, 1, 2, 2, 3])),
    };
    assert_eq!(mesh.slot_count(), 5);
    assert!(mesh.resolves_triangle(0));
    assert!(!mesh.resolves_triangle(1));
}

#[test]
fn index_past_the_uvs_does_not_resolve() {
    let mesh = UvMesh {
        uvs: Some(quad_uvs()),
        indices: Some(MeshIndices::U16(vec![0, 1, 4])),
    };
    assert!(!mesh.resolves_triangle(0));
    assert!(!hit(1.0, 0.0, 0.0, 0).is_placed_on(&mesh));
}

#[test]
fn index_buffer_reads_both_widths() {
    let narrow = MeshIndices::U16(vec![7, 65535]);
    let wide = MeshIndices::U32(vec![7, 65536]);
    assert_eq!(narrow.len(), 2);
    assert_eq!(wide.len(), 2);
    assert_eq!(narrow.vertex(0), 7);
    assert_eq!(wide.vertex(0), 7);
    assert_eq!(narrow.vertex(1), 65535);
    assert_eq!(wide.vertex(1), 65536);
}
