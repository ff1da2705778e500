use animal_rig::animal_templates::{chicken, fox, turtle};
use animal_rig::blend::{blend_animals, try_blend_animals};
use animal_rig::controller::AnimalController;
use animal_rig::geometry::Point2;
use animal_rig::gradient::BodyGradient;
use animal_rig::model::{Vec2, Vec3};
use animal_rig::rig::{create_animal, try_create_animal};
use animal_rig::skeleton::create_animal_skeleton;

fn unit() -> (i32, i32) {
    (1_000_000, 1_000_000)
}

#[test]
fn chicken_has_two_legs() {
    let animal = chicken();
    let body = animal.body();
    assert_eq!(body.name, "spine");
    assert_eq!(body.body.len(), 6);
    assert_eq!(body.body[1].dir, Vec2 { x: 500_000, y: -1_000_000 });
    assert!(body.body[1].discontinuous);
    assert_eq!(body.body[3].size, 1_100_000);
    let legs = &body.body[3].limbs;
    assert_eq!(legs.len(), 2);
    assert_eq!(legs[0].name, "front_leg");
    assert_eq!(legs[1].name, "back_leg");
    assert_eq!(legs[0].displacement, Vec3 { x: 300_000, y: 100_000, z: -1_000_000 });
    assert_eq!(legs[1].displacement, Vec3 { x: 300_000, y: 100_000, z: 1_000_000 });
    assert_eq!(legs[0].texture_displacement, 5);
    assert_eq!(legs[0].body.len(), 4);
    assert_eq!(legs[0].body, legs[1].body);
    assert_eq!(legs[0].body[3].size, 0);
    for p in &body.body {
        assert_eq!(p.texture_indices, [Some((0, 1_000_000)), None]);
    }
    assert_eq!(create_animal_skeleton(&animal).get_bone_count(), 6 + 4 + 4);
}

#[test]
fn turtle_has_four_legs() {
    let animal = turtle();
    let body = animal.body();
    assert_eq!(body.body.len(), 10);
    assert_eq!(body.body[1].size, 625_000);
    assert_eq!(body.body[2].dir, Vec2 { x: 2_000, y: 500 });
    assert_eq!(body.body[5].dir, Vec2 { x: 970, y: -243 });
    let names: Vec<&str> = body.body.iter().flat_map(|p| p.limbs.iter().map(|l| l.name.as_str())).collect();
    assert_eq!(names, vec!["front_leg_0", "back_leg_0", "front_leg_1", "back_leg_1"]);
    assert_eq!(body.body[4].limbs[1].displacement, Vec3 { x: 300_000, y: -500_000, z: -1_000_000 });
    for p in &body.body {
        assert_eq!(p.texture_indices, [Some((2, 1_000_000)), None]);
    }
    assert_eq!(create_animal_skeleton(&animal).get_bone_count(), 10 + 4 * 3);
}

#[test]
fn fox_has_four_legs() {
    let animal = fox();
    let body = animal.body();
    assert_eq!(body.body.len(), 8);
    let names: Vec<&str> = body.body.iter().flat_map(|p| p.limbs.iter().map(|l| l.name.as_str())).collect();
    assert_eq!(names, vec!["front_leg_2", "back_leg_2", "front_leg_3", "back_leg_3"]);
    assert_eq!(body.body[1].limbs[0].texture_displacement, 7);
    assert_eq!(body.body[1].limbs[0].body[0].dir, Vec2 { x: 450_000, y: -450_000 });
    for p in &body.body {
        assert_eq!(p.texture_indices, [Some((1, 1_000_000)), None]);
    }
    assert_eq!(create_animal_skeleton(&animal).get_bone_count(), 8 + 4 * 3);
}

#[test]
fn templates_can_be_rigged() {
    for animal in [chicken(), turtle(), fox()] {
        let rig = create_animal(&animal, unit());
        assert_eq!(rig.skeleton, create_animal_skeleton(&animal));
        for mesh in &rig.meshes {
            for v in &mesh.vertices {
                assert_eq!(v.weights.iter().sum::<u32>(), 1_000_000);
            }
        }
    }
    assert_eq!(create_animal(&chicken(), unit()).meshes.len(), 3);
    assert_eq!(create_animal(&turtle(), unit()).meshes.len(), 5);
    assert_eq!(create_animal(&fox(), unit()).meshes.len(), 5);
}

fn turtle_fox() -> Vec<(animal_rig::model::Animal, BodyGradient)> {
    vec![
        (turtle(), BodyGradient(vec![1_000_000, 1_000_000, 750_000, 200_000, 600_000, 100_000, 0, 0])),
        (fox(), BodyGradient(vec![0, 0, 250_000, 1_000_000, 400_000, 900_000, 1_000_000, 1_000_000])),
    ]
}

#[test]
fn turtle_and_fox_blend() {
    let blended = blend_animals(&turtle_fox());
    let body = &blended.body().body;
    assert_eq!(body.len(), 8);
    // segment 0 is all turtle, segment 7 all fox
    assert_eq!(body[0].dir, Vec2 { x: 1_000_000, y: 0 });
    assert_eq!(body[0].texture_indices, [Some((2, 1_000_000)), Some((1, 0))]);
    assert_eq!(body[7].dir, Vec2 { x: 1_000_000, y: 0 });
    assert_eq!(body[7].size, 100_000);
    // segment 2: three quarters turtle
    assert_eq!(body[2].dir, Vec2 { x: 189_000, y: 375 });
    assert_eq!(body[2].size, 925_000);
    assert_eq!(body[2].texture_indices, [Some((2, 750_000)), Some((1, 250_000))]);
    // both have limbs at segment 3; the fox is heavier there
    let names: Vec<&str> = body[3].limbs.iter().map(|l| l.name.as_str()).collect();
    assert_eq!(names, vec!["front_leg_3", "back_leg_3"]);
    // only the fox has limbs at segment 1, though it has no weight there
    let names: Vec<&str> = body[1].limbs.iter().map(|l| l.name.as_str()).collect();
    assert_eq!(names, vec!["front_leg_2", "back_leg_2"]);
    // only the turtle has limbs at segment 4
    let names: Vec<&str> = body[4].limbs.iter().map(|l| l.name.as_str()).collect();
    assert_eq!(names, vec!["front_leg_1", "back_leg_1"]);
    assert!(body[1].discontinuous);
    assert!(body[6].discontinuous);
    assert!(!body[2].discontinuous);
}

#[test]
fn blended_animal_can_be_rigged_and_driven() {
    assert!(try_blend_animals(&turtle_fox()).is_some());
    let blended = blend_animals(&turtle_fox());
    let rig = try_create_animal(&blended, unit()).unwrap();
    assert_eq!(rig.meshes.len(), 1 + 6);
    let positions = vec![Point2 { x: 0, y: 0 }; rig.skeleton.get_bone_count()];
    let controller = AnimalController::ready(&rig.skeleton, &positions).unwrap();
    let names: Vec<&str> = controller.targets.iter().map(|t| t.limb_name.as_str()).collect();
    assert_eq!(names, vec!["front_leg_1", "front_leg_2", "front_leg_3", "back_leg_1", "back_leg_2", "back_leg_3", "spine"]);
}
