use animal_rig::model::{Animal, BodyPoint, Limb, Vec2, Vec3};
use animal_rig::skeleton::{
    create_animal_skeleton, create_skeleton_limb, make_bone_name, Bone, Skeleton,
};

fn plain(x: i32, y: i32, limbs: Vec<Limb>) -> BodyPoint {
    BodyPoint {
        dir: Vec2 { x, y },
        size: 1_000_000,
        texture_indices: [Some((0, 1_000_000)), None],
        discontinuous: false,
        limbs,
    }
}

fn limb(name: &str, dx: i32, dy: i32, body: Vec<BodyPoint>) -> Limb {
    Limb {
        displacement: Vec3 { x: dx, y: dy, z: -1_000_000 },
        texture_displacement: 5,
        body,
        name: name.to_string(),
    }
}

fn walker() -> Animal {
    Animal::new(vec![
        plain(1_000_000, 0, Vec::new()),
        plain(
            2_000_000,
            10,
            vec![
                limb("front_leg", 300, 100, vec![plain(0, -700, Vec::new()), plain(0, -600, Vec::new())]),
                limb("back_leg", -300, 100, vec![plain(1, -500, Vec::new())]),
            ],
        ),
        plain(3_000_000, 20, vec![limb("tail", 7, 8, vec![plain(9, 9, Vec::new())])]),
    ])
}

fn bone(name: &str, x: i32, y: i32, parent: Option<usize>) -> Bone {
    Bone { name: name.to_string(), rest: Vec2 { x, y }, parent }
}

#[test]
fn bone_names_join_limb_and_index() {
    assert_eq!(make_bone_name("spine", 0), "spine_0");
    assert_eq!(make_bone_name("front_leg", 12), "front_leg_12");
    assert_eq!(make_bone_name("", 7), "_7");
    assert_eq!(make_bone_name("a_1", 1234567890), "a_1_1234567890");
}

#[test]
fn skeleton_lists_limbs_before_their_children() {
    let skeleton = create_animal_skeleton(&walker());
    assert_eq!(
        skeleton.bones,
        vec![
            bone("spine_0", 0, 0, None),
            bone("spine_1", 1_000_000, 0, Some(0)),
            bone("spine_2", 2_000_000, 10, Some(1)),
            bone("tail_0", 7, 8, Some(2)),
            bone("back_leg_0", -300, 100, Some(1)),
            bone("front_leg_0", 300, 100, Some(1)),
            bone("front_leg_1", 0, -700, Some(5)),
        ]
    );
}

#[test]
fn skeleton_has_one_bone_for_every_point() {
    let skeleton = create_animal_skeleton(&walker());
    assert_eq!(skeleton.get_bone_count(), 3 + 2 + 1 + 1);
    let empty = create_animal_skeleton(&Animal::new(Vec::new()));
    assert_eq!(empty.get_bone_count(), 0);
}

#[test]
fn limb_roots_hang_from_their_attach_point() {
    let skeleton = create_animal_skeleton(&walker());
    for (i, b) in skeleton.bones.iter().enumerate() {
        match b.parent {
            None => assert_eq!(i, 0),
            Some(p) => {
                assert!(p < i);
                let (limb_name, index) = b.name.rsplit_once('_').unwrap();
                let parent_name = &skeleton.bones[p].name;
                if index == "0" {
                    let want = match limb_name {
                        "tail" => "spine_2",
                        _ => "spine_1",
                    };
                    assert_eq!(parent_name, want);
                } else {
                    let before: usize = index.parse::<usize>().unwrap() - 1;
                    assert_eq!(parent_name, &make_bone_name(limb_name, before));
                    assert_eq!(p, i - 1);
                }
            }
        }
    }
}

#[test]
fn bones_are_found_by_name() {
    let skeleton = create_animal_skeleton(&walker());
    assert_eq!(skeleton.get_bone_id("spine_0"), Some(0));
    assert_eq!(skeleton.get_bone_id("front_leg_1"), Some(6));
    assert_eq!(skeleton.get_bone_id("front_leg_2"), None);
    assert_eq!(skeleton.get_bone_id("spine"), None);
    assert_eq!(Skeleton::new().get_bone_id("spine_0"), None);
}

#[test]
fn first_bone_of_a_name_is_found() {
    let mut skeleton = Skeleton::new();
    assert_eq!(skeleton.add_bone("a".to_string(), Vec2 { x: 1, y: 1 }, None), 0);
    assert_eq!(skeleton.add_bone("b".to_string(), Vec2 { x: 2, y: 2 }, Some(0)), 1);
    assert_eq!(skeleton.add_bone("b".to_string(), Vec2 { x: 3, y: 3 }, Some(1)), 2);
    assert_eq!(skeleton.get_bone_id("b"), Some(1));
}

#[test]
fn skeleton_limb_adds_one_chain() {
    let mut skeleton = Skeleton::new();
    let spine = limb("spine", 0, 0, vec![plain(10, 0, Vec::new()), plain(20, 0, Vec::new())]);
    create_skeleton_limb(&spine, &mut skeleton, None);
    let leg = limb(
        "leg",
        3,
        4,
        vec![plain(0, -5, vec![limb("toe", 0, 0, vec![plain(1, 1, Vec::new())])]), plain(0, -6, Vec::new())],
    );
    create_skeleton_limb(&leg, &mut skeleton, Some("spine_1".to_string()));
    assert_eq!(
        skeleton.bones,
        vec![
            bone("spine_0", 0, 0, None),
            bone("spine_1", 10, 0, Some(0)),
            bone("leg_0", 3, 4, Some(1)),
            bone("leg_1", 0, -5, Some(2)),
        ]
    );
}

#[test]
fn copies_are_equal_to_what_they_copy() {
    let animal = walker();
    let copy = animal.body().duplicate();
    assert_eq!(&copy, animal.body());
    let point = animal.body().body[1].duplicate();
    assert_eq!(point, animal.body().body[1]);
}

#[test]
fn new_animal_has_a_spine() {
    let animal = Animal::new(vec![plain(1, 2, Vec::new())]);
    let body = animal.body();
    assert_eq!(body.name, "spine");
    assert_eq!(body.displacement, Vec3 { x: 0, y: 0, z: 0 });
    assert_eq!(body.texture_displacement, 0);
    assert_eq!(body.body.len(), 1);
}

#[test]
fn unique_names_are_told() {
    assert!(Skeleton::new().has_unique_names());
    assert!(create_animal_skeleton(&walker()).has_unique_names());
    let mut skeleton = Skeleton::new();
    skeleton.add_bone("a".to_string(), Vec2 { x: 1, y: 1 }, None);
    skeleton.add_bone("b".to_string(), Vec2 { x: 2, y: 2 }, Some(0));
    assert!(skeleton.has_unique_names());
    skeleton.add_bone("a".to_string(), Vec2 { x: 3, y: 3 }, Some(1));
    assert!(!skeleton.has_unique_names());
}
