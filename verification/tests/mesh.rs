use animal_rig::geometry::Point3;
use animal_rig::mesh::{create_limb_mesh, try_create_limb_mesh, Vertex, MAX_CELL, REACH};
use animal_rig::model::{Animal, BodyPoint, Limb, TextureSlot, Vec2, Vec3};
use animal_rig::rig::{create_animal, create_animal_meshes, try_create_animal, try_create_animal_meshes};
use animal_rig::skeleton::{create_animal_skeleton, Skeleton};

const ONE: i64 = 1_000_000;

fn point(x: i32, y: i32, size: i32, textures: [TextureSlot; 2]) -> BodyPoint {
    BodyPoint { dir: Vec2 { x, y }, size, texture_indices: textures, discontinuous: false, limbs: Vec::new() }
}

fn single() -> [TextureSlot; 2] {
    [Some((0, 1_000_000)), None]
}

fn limb(name: &str, body: Vec<BodyPoint>) -> Limb {
    Limb { displacement: Vec3 { x: 0, y: 0, z: 0 }, texture_displacement: 0, body, name: name.to_string() }
}

fn bones(names: &[&str]) -> Skeleton {
    let mut skeleton = Skeleton::new();
    for name in names {
        skeleton.add_bone(name.to_string(), Vec2 { x: 0, y: 0 }, None);
    }
    skeleton
}

fn origin() -> Point3 {
    Point3 { x: 0, y: 0, z: 0 }
}

fn unit() -> (i32, i32) {
    (1_000_000, 1_000_000)
}

fn straight() -> Limb {
    limb("spine", vec![point(1_000_000, 0, 1_000_000, single()), point(1_000_000, 0, 1_000_000, single())])
}

#[test]
fn straight_segment_gets_a_square_quad() {
    let mesh = create_limb_mesh(&straight(), origin(), &bones(&["spine_0", "spine_1"]), unit());
    assert_eq!(mesh.depth, 0);
    let at: Vec<(i64, i64)> = mesh.vertices.iter().map(|v| (v.position.x, v.position.y)).collect();
    let c0 = (0, 500_000);
    let c1 = (0, -500_000);
    let c2 = (ONE, -500_000);
    let c3 = (ONE, 500_000);
    let mid = (500_000, 0);
    assert_eq!(at, vec![c0, c1, mid, c1, c2, mid, c2, c3, mid, c3, c0, mid]);
    for v in &mesh.vertices {
        assert_eq!(v.position.z, 0);
    }
}

#[test]
fn quad_vertices_carry_their_triangle() {
    let mesh = create_limb_mesh(&straight(), origin(), &bones(&["spine_0", "spine_1"]), unit());
    let triangles: Vec<usize> = mesh.vertices.iter().map(|v| v.triangle).collect();
    assert_eq!(triangles, vec![0, 0, 0, 1, 1, 1, 2, 2, 2, 3, 3, 3]);
}

#[test]
fn single_texture_fills_the_cell() {
    let mesh = create_limb_mesh(&straight(), origin(), &bones(&["spine_0", "spine_1"]), unit());
    let uv: Vec<(i64, i64)> = mesh.vertices.iter().map(|v| v.uv).collect();
    let half = (500_000, 500_000);
    assert_eq!(
        uv,
        vec![
            (0, 0),
            (0, ONE),
            half,
            (0, ONE),
            (ONE, ONE),
            half,
            (ONE, ONE),
            (ONE, 0),
            half,
            (ONE, 0),
            (0, 0),
            half
        ]
    );
    for v in &mesh.vertices {
        assert_eq!(v.second_uv, (0, 0));
        assert_eq!(v.blend, 1_000_000);
    }
}

#[test]
fn vertices_follow_the_nearer_bone() {
    let skeleton = bones(&["other", "spine_1", "spine_0"]);
    let mesh = create_limb_mesh(&straight(), origin(), &skeleton, unit());
    let near = ([2, 0, 0, 0], [1_000_000, 0, 0, 0]);
    let far = ([1, 0, 0, 0], [1_000_000, 0, 0, 0]);
    let both = ([2, 1, 0, 0], [500_000, 500_000, 0, 0]);
    let skins: Vec<([usize; 4], [u32; 4])> = mesh.vertices.iter().map(|v| (v.bones, v.weights)).collect();
    assert_eq!(skins, vec![near, near, both, near, far, both, far, far, both, far, near, both]);
}

#[test]
fn vertex_weights_sum_to_one() {
    let skeleton = bones(&["spine_0", "spine_1", "spine_2", "spine_3"]);
    let body = limb(
        "spine",
        vec![
            point(1_000_000, 300_000, 1_000_000, single()),
            point(700_000, -300_000, 500_000, single()),
            point(-100_000, 900_000, 1_500_000, single()),
            point(1, 1, 1, single()),
        ],
    );
    let mesh = create_limb_mesh(&body, origin(), &skeleton, unit());
    assert_eq!(mesh.vertices.len(), 36);
    for v in &mesh.vertices {
        assert_eq!(v.weights.iter().map(|w| *w as u64).sum::<u64>(), 1_000_000);
        for b in v.bones {
            assert!(b < skeleton.get_bone_count());
        }
    }
}

#[test]
fn limb_of_one_point_has_an_empty_mesh() {
    let body = limb("spine", vec![point(1, 0, 1, single())]);
    let mesh = create_limb_mesh(&body, origin(), &Skeleton::new(), unit());
    assert_eq!(mesh.vertices, Vec::<Vertex>::new());
}

#[test]
fn limb_without_points_gets_no_mesh() {
    assert_eq!(try_create_limb_mesh(&limb("spine", Vec::new()), origin(), &Skeleton::new(), unit()), None);
}

#[test]
fn missing_bone_gives_no_mesh() {
    assert_eq!(try_create_limb_mesh(&straight(), origin(), &bones(&["spine_0"]), unit()), None);
    assert_eq!(try_create_limb_mesh(&straight(), origin(), &bones(&["spine_1"]), unit()), None);
    assert!(try_create_limb_mesh(&straight(), origin(), &bones(&["spine_1", "spine_0"]), unit()).is_some());
}

#[test]
fn far_origin_gives_no_mesh() {
    let skeleton = bones(&["spine_0", "spine_1"]);
    let far = Point3 { x: REACH + 1, y: 0, z: 0 };
    assert_eq!(try_create_limb_mesh(&straight(), far, &skeleton, unit()), None);
    let low = Point3 { x: 0, y: -REACH - 1, z: 0 };
    assert_eq!(try_create_limb_mesh(&straight(), low, &skeleton, unit()), None);
    let edge = Point3 { x: REACH, y: -REACH, z: i64::MAX };
    assert!(try_create_limb_mesh(&straight(), edge, &skeleton, unit()).is_some());
}

#[test]
fn large_texture_cells_give_no_mesh() {
    let skeleton = bones(&["spine_0", "spine_1"]);
    let big = [Some((MAX_CELL + 1, 1_000_000)), None];
    let body = limb("spine", vec![point(1, 0, 1, big), point(1, 0, 1, big)]);
    assert_eq!(try_create_limb_mesh(&body, origin(), &skeleton, unit()), None);
    let mut shifted = straight();
    shifted.texture_displacement = MAX_CELL + 1;
    assert_eq!(try_create_limb_mesh(&shifted, origin(), &skeleton, unit()), None);
    shifted.texture_displacement = MAX_CELL;
    assert!(try_create_limb_mesh(&shifted, origin(), &skeleton, unit()).is_some());
}

fn pair_mesh(near: [TextureSlot; 2], far: [TextureSlot; 2]) -> Option<Vec<Vertex>> {
    let skeleton = bones(&["arm_0", "arm_1"]);
    let mut body = limb("arm", vec![point(1_000_000, 0, 1_000_000, near), point(1_000_000, 0, 1_000_000, far)]);
    body.texture_displacement = 6;
    try_create_limb_mesh(&body, origin(), &skeleton, (250_000, 500_000)).map(|m| m.vertices)
}

#[test]
fn unrelated_textures_give_no_mesh() {
    assert_eq!(pair_mesh([Some((1, 5)), None], [Some((2, 5)), None]), None);
    assert_eq!(pair_mesh([Some((1, 5)), None], [Some((2, 5)), Some((3, 5))]), None);
    assert_eq!(pair_mesh([Some((1, 5)), Some((2, 5))], [Some((3, 5)), None]), None);
    assert_eq!(pair_mesh([Some((1, 5)), Some((2, 5))], [Some((1, 5)), Some((3, 5))]), None);
    assert_eq!(pair_mesh([Some((1, 5)), Some((2, 5))], [Some((3, 5)), Some((1, 5))]), None);
    assert_eq!(pair_mesh([None, None], [Some((1, 5)), None]), None);
    assert_eq!(pair_mesh([None, Some((1, 5))], [Some((1, 5)), None]), None);
    assert_eq!(pair_mesh([Some((1, 5)), None], [None, Some((1, 5))]), None);
}

/// The cells and blend weights at the near corner 0 and at the far corner 2.
fn cells(vertices: &[Vertex]) -> ((i64, i64, u32), (i64, i64, u32)) {
    let near = &vertices[0];
    let far = &vertices[4];
    // With cells half a unit high, a corner at height zero or one lies on a
    // whole or half row: row = uv / half a unit, less the corner's own place.
    ((near.uv.1 / 500_000, near.second_uv.1 / 500_000, near.blend), (far.uv.1 / 500_000 - 1, far.second_uv.1 / 500_000 - 1, far.blend))
}

#[test]
fn one_cell_meets_two() {
    let v = pair_mesh([Some((2, 300_000)), None], [Some((2, 600_000)), Some((3, 400_000))]).unwrap();
    assert_eq!(cells(&v), ((2, 3, 300_000), (2, 3, 600_000)));
    let v = pair_mesh([Some((2, 300_000)), None], [Some((3, 1_000_000)), Some((2, 700_000))]).unwrap();
    assert_eq!(cells(&v), ((3, 2, 0), (3, 2, 1_000_000)));
}

#[test]
fn two_cells_meet_one() {
    let v = pair_mesh([Some((2, 300_000)), Some((3, 700_000))], [Some((2, 900_000)), None]).unwrap();
    assert_eq!(cells(&v), ((2, 3, 300_000), (2, 3, 900_000)));
    let v = pair_mesh([Some((2, 300_000)), Some((3, 700_000))], [Some((3, 900_000)), None]).unwrap();
    assert_eq!(cells(&v), ((2, 3, 300_000), (2, 3, 0)));
}

#[test]
fn two_cells_meet_two() {
    let v = pair_mesh([Some((2, 300_000)), Some((3, 700_000))], [Some((2, 100_000)), Some((3, 900_000))]).unwrap();
    assert_eq!(cells(&v), ((2, 3, 300_000), (2, 3, 100_000)));
    let v = pair_mesh([Some((2, 300_000)), Some((3, 700_000))], [Some((3, 100_000)), Some((2, 900_000))]).unwrap();
    assert_eq!(cells(&v), ((3, 2, 700_000), (3, 2, 100_000)));
}

#[test]
fn one_cell_meets_itself() {
    let v = pair_mesh([Some((2, 300_000)), None], [Some((2, 600_000)), None]).unwrap();
    assert_eq!(v[0].blend, 1_000_000);
    assert_eq!(v[4].blend, 1_000_000);
    assert_eq!(v[0].second_uv, (0, 0));
    assert_eq!(v[0].uv, (1_500_000, 1_000_000));
}

#[test]
fn atlas_places_follow_column_and_row() {
    let v = pair_mesh([Some((2, 300_000)), None], [Some((3, 1_000_000)), Some((2, 700_000))]).unwrap();
    // column 6 + 0, cells a quarter wide and a half high; first cell 3, second 2
    assert_eq!(v[0].uv, (1_500_000, 1_500_000));
    assert_eq!(v[0].second_uv, (1_500_000, 1_000_000));
    assert_eq!(v[4].uv, (1_750_000, 2_000_000));
    assert_eq!(v[4].second_uv, (1_750_000, 1_500_000));
    assert_eq!(v[2].uv, (1_625_000, 1_750_000));
    assert_eq!(v[2].second_uv, (1_625_000, 1_250_000));
    // the centre takes the far weight
    assert_eq!(v[2].blend, 1_000_000);
}

#[test]
fn column_grows_with_the_segment() {
    let skeleton = bones(&["arm_0", "arm_1", "arm_2"]);
    let mut body = limb(
        "arm",
        vec![point(1, 0, 1, single()), point(1, 0, 1, single()), point(1, 0, 1, single())],
    );
    body.texture_displacement = 6;
    let mesh = create_limb_mesh(&body, origin(), &skeleton, (250_000, 500_000));
    assert_eq!(mesh.vertices[0].uv.0, 1_500_000);
    assert_eq!(mesh.vertices[12].uv.0, 1_750_000);
    assert_eq!(mesh.vertices[12].bones, [1, 0, 0, 0]);
    assert_eq!(mesh.vertices[16].bones, [2, 0, 0, 0]);
}

#[test]
fn bend_is_mitered() {
    // a right turn from +x to -y: the cross-section at the bend follows the
    // mean direction, that of (1, -1)
    let skeleton = bones(&["arm_0", "arm_1", "arm_2"]);
    let body = limb(
        "arm",
        vec![
            point(1_000_000, 0, 2_000_000, single()),
            point(0, -1_000_000, 2_000_000, single()),
            point(0, -1_000_000, 2_000_000, single()),
        ],
    );
    let mesh = create_limb_mesh(&body, origin(), &skeleton, unit());
    let far_up = mesh.vertices[4].position;
    // offset: at a right angle to (1, -1), one unit long: (-1, -1) / sqrt 2
    assert_eq!((far_up.x, far_up.y), (1_000_000 - 707_106, -707_106));
    let far_down = mesh.vertices[7].position;
    assert_eq!((far_down.x, far_down.y), (1_000_000 + 707_106, 707_106));
    // the next quad starts at the same cross-section
    let near_up = mesh.vertices[12 + 1].position;
    assert_eq!(near_up, far_up);
}

#[test]
fn seam_is_not_mitered() {
    let skeleton = bones(&["arm_0", "arm_1", "arm_2"]);
    let mut bend = point(0, -1_000_000, 2_000_000, single());
    bend.discontinuous = true;
    let body = limb(
        "arm",
        vec![point(1_000_000, 0, 2_000_000, single()), bend, point(0, -1_000_000, 2_000_000, single())],
    );
    let mesh = create_limb_mesh(&body, origin(), &skeleton, unit());
    // the far end of the first quad repeats the near end's offset
    let far_up = mesh.vertices[4].position;
    assert_eq!((far_up.x, far_up.y), (1_000_000, -1_000_000));
    // the second quad starts across the arriving segment, not across the mean
    let near_up = mesh.vertices[12 + 1].position;
    assert_eq!((near_up.x, near_up.y), (1_000_000, -1_000_000));
    let near_down = mesh.vertices[12].position;
    assert_eq!((near_down.x, near_down.y), (1_000_000, 1_000_000));
}

#[test]
fn segment_without_length_gets_a_flat_quad() {
    let skeleton = bones(&["arm_0", "arm_1"]);
    let body = limb("arm", vec![point(0, 0, 2_000_000, single()), point(0, 0, 2_000_000, single())]);
    let mesh = create_limb_mesh(&body, Point3 { x: 5, y: 6, z: 7 }, &skeleton, unit());
    for v in &mesh.vertices {
        assert_eq!(v.position, Point3 { x: 5, y: 6, z: 7 });
    }
}

fn leg(name: &str, z: i32) -> Limb {
    Limb {
        displacement: Vec3 { x: 100_000, y: 200_000, z },
        texture_displacement: 5,
        body: vec![point(0, -1_000_000, 200_000, single()), point(0, -1_000_000, 200_000, single())],
        name: name.to_string(),
    }
}

fn biped() -> Animal {
    let mut hip = point(1_000_000, 0, 1_000_000, single());
    hip.limbs = vec![leg("front_leg", -1_000_000), leg("back_leg", 1_000_000)];
    let mut shoulder = point(1_000_000, 0, 1_000_000, single());
    shoulder.limbs = vec![leg("arm", 3)];
    Animal::new(vec![point(2_000_000, 500_000, 1_000_000, single()), hip, shoulder])
}

#[test]
fn every_limb_gets_a_mesh() {
    let rig = create_animal(&biped(), unit());
    assert_eq!(rig.skeleton, create_animal_skeleton(&biped()));
    let depths: Vec<i32> = rig.meshes.iter().map(|m| m.depth).collect();
    assert_eq!(depths, vec![0, 3, 1_000_000, -1_000_000]);
    let sizes: Vec<usize> = rig.meshes.iter().map(|m| m.vertices.len()).collect();
    assert_eq!(sizes, vec![24, 12, 12, 12]);
}

#[test]
fn limb_meshes_start_where_the_limb_grows() {
    let rig = create_animal(&biped(), unit());
    // the arm grows from point 2, which lies at (3, 0.5); its mesh starts
    // there, moved by the arm's displacement
    let arm = &rig.meshes[1];
    let c0 = arm.vertices[0].position;
    assert_eq!(c0, Point3 { x: 3_000_000 + 100_000 + 100_000, y: 500_000 + 200_000, z: 0 });
    let c1 = arm.vertices[1].position;
    assert_eq!(c1, Point3 { x: 3_000_000, y: 700_000, z: 0 });
    let c2 = arm.vertices[4].position;
    assert_eq!(c2, Point3 { x: 3_000_000, y: -300_000, z: 0 });
    let mid = arm.vertices[2].position;
    assert_eq!(mid, Point3 { x: 3_100_000, y: 200_000, z: 0 });
    // the legs grow from point 1, which lies at (2, 0.5)
    let back = &rig.meshes[2];
    assert_eq!(back.vertices[1].position, Point3 { x: 2_000_000, y: 700_000, z: 0 });
    assert_eq!(rig.meshes[3].vertices, back.vertices.iter().map(|v| {
        let mut w = *v;
        w.bones = w.bones.map(|b| if b == 0 { 0 } else { b + 2 });
        w
    }).collect::<Vec<_>>());
}

#[test]
fn limb_meshes_hang_on_their_own_bones() {
    let rig = create_animal(&biped(), unit());
    // spine_0..2, arm_0..1, back_leg_0..1, front_leg_0..1
    assert_eq!(rig.skeleton.get_bone_id("arm_0"), Some(3));
    assert_eq!(rig.meshes[1].vertices[0].bones, [3, 0, 0, 0]);
    assert_eq!(rig.meshes[1].vertices[4].bones, [4, 0, 0, 0]);
    assert_eq!(rig.meshes[2].vertices[0].bones, [5, 0, 0, 0]);
    assert_eq!(rig.meshes[3].vertices[2].bones, [7, 8, 0, 0]);
    for mesh in &rig.meshes {
        for v in &mesh.vertices {
            assert_eq!(v.weights.iter().sum::<u32>(), 1_000_000);
            for b in v.bones {
                assert!(b < rig.skeleton.get_bone_count());
            }
        }
    }
}

#[test]
fn meshes_need_the_bones_of_every_limb() {
    let animal = biped();
    let skeleton = create_animal_skeleton(&animal);
    assert_eq!(create_animal_meshes(&animal, &skeleton, unit()).len(), 4);
    let mut short = create_animal_skeleton(&animal);
    short.bones.pop();
    assert_eq!(try_create_animal_meshes(&animal, &short, unit()), None);
    assert_eq!(try_create_animal_meshes(&animal, &Skeleton::new(), unit()), None);
}

#[test]
fn animal_without_points_gets_no_rig() {
    assert_eq!(try_create_animal(&Animal::new(Vec::new()), unit()), None);
}

#[test]
fn unrelated_textures_in_a_limb_give_no_rig() {
    let mut hip = point(1_000_000, 0, 1_000_000, single());
    let mut bad = leg("leg", 0);
    bad.body[1].texture_indices = [Some((9, 1_000_000)), None];
    hip.limbs = vec![bad];
    let animal = Animal::new(vec![hip, point(1_000_000, 0, 1_000_000, single())]);
    assert_eq!(try_create_animal(&animal, unit()), None);
}
