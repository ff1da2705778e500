use animal_rig::controller::{
    chain_offsets_of, get_limb_length, limb_bone_ids, solve_limb, step_target, AnimalController, LimbKind,
    LimbTarget, Path, IK_ITERATIONS,
};
use animal_rig::geometry::Point2;
use animal_rig::ik::{inverse_kinematics, TARGET_REACH};
use animal_rig::model::{Animal, BodyPoint, Limb, Vec2, Vec3};
use animal_rig::skeleton::{create_animal_skeleton, Skeleton};
use animal_rig::trajectory::{LinearTarget, ParabolicTarget};

fn p(x: i64, y: i64) -> Point2 {
    Point2 { x, y }
}

fn plain(x: i32, y: i32, limbs: Vec<Limb>) -> BodyPoint {
    BodyPoint {
        dir: Vec2 { x, y },
        size: 1_000_000,
        texture_indices: [Some((0, 1_000_000)), None],
        discontinuous: false,
        limbs,
    }
}

fn leg(name: &str) -> Limb {
    Limb {
        displacement: Vec3 { x: 300_000, y: 100_000, z: -1_000_000 },
        texture_displacement: 5,
        body: vec![
            plain(200_000, -700_000, Vec::new()),
            plain(-200_000, -700_000, Vec::new()),
            plain(-300_000, 0, Vec::new()),
        ],
        name: name.to_string(),
    }
}

fn walker() -> Animal {
    Animal::new(vec![
        plain(1_000_000, 0, Vec::new()),
        plain(1_000_000, 0, vec![leg("front_leg"), leg("back_leg_2")]),
        plain(0, 1_000_000, Vec::new()),
        plain(3_000_000, 4_000_000, Vec::new()),
    ])
}

/// Where the bones of the skeleton are when no bone is turned.
fn rest_positions(skeleton: &Skeleton) -> Vec<Point2> {
    let mut at: Vec<Point2> = Vec::new();
    for bone in &skeleton.bones {
        let from = match bone.parent {
            Some(i) => at[i],
            None => p(0, 0),
        };
        at.push(p(from.x + bone.rest.x as i64, from.y + bone.rest.y as i64));
    }
    at
}

#[test]
fn limbs_are_found_by_their_bone_names() {
    let skeleton = create_animal_skeleton(&walker());
    // spine_0..3, back_leg_2_0..2, front_leg_0..2
    assert_eq!(limb_bone_ids(&skeleton, "spine"), vec![0, 1, 2, 3]);
    assert_eq!(limb_bone_ids(&skeleton, "back_leg_2"), vec![4, 5, 6]);
    assert_eq!(limb_bone_ids(&skeleton, "front_leg"), vec![7, 8, 9]);
    assert_eq!(limb_bone_ids(&skeleton, "back_leg"), Vec::<usize>::new());
    assert_eq!(limb_bone_ids(&Skeleton::new(), "spine"), Vec::<usize>::new());
}

#[test]
fn limb_ends_at_the_first_missing_bone() {
    let mut skeleton = Skeleton::new();
    for name in ["arm_1", "arm_0", "arm_3", "arm_0"] {
        skeleton.add_bone(name.to_string(), Vec2 { x: 0, y: 0 }, None);
    }
    assert_eq!(limb_bone_ids(&skeleton, "arm"), vec![1, 0]);
}

#[test]
fn limb_length_adds_rest_lengths() {
    let skeleton = create_animal_skeleton(&walker());
    assert_eq!(get_limb_length(&vec![0, 1, 2, 3], &skeleton), 0 + 1_000_000 + 1_000_000 + 1_000_000);
    assert_eq!(get_limb_length(&vec![3, 3], &skeleton), 2_000_000);
    assert_eq!(get_limb_length(&Vec::new(), &skeleton), 0);
    // rest of front_leg_0 is the displacement (0.3, 0.1); then two segments of (0.2, 0.7)
    assert_eq!(get_limb_length(&vec![7, 8, 9], &skeleton), 316_227 + 728_010 + 728_010);
}

#[test]
fn chain_offsets_are_the_rests_after_the_first_bone() {
    let skeleton = create_animal_skeleton(&walker());
    assert_eq!(
        chain_offsets_of(&skeleton, "spine", 1, 3),
        Some(vec![Vec2 { x: 1_000_000, y: 0 }, Vec2 { x: 0, y: 1_000_000 }])
    );
    assert_eq!(chain_offsets_of(&skeleton, "spine", 2, 2), Some(Vec::new()));
    assert_eq!(chain_offsets_of(&skeleton, "spine", 3, 2), None);
    assert_eq!(chain_offsets_of(&skeleton, "spine", 0, 4), None);
    assert_eq!(chain_offsets_of(&skeleton, "wing", 0, 0), None);
}

#[test]
fn ready_sets_up_legs_and_tail() {
    let skeleton = create_animal_skeleton(&walker());
    let positions = rest_positions(&skeleton);
    let c = AnimalController::ready(&skeleton, &positions).unwrap();
    assert_eq!(c.time, 0);
    assert_eq!(c.random_next, 0);
    assert_eq!(c.limb_length, 316_227 + 728_010 + 728_010);
    assert_eq!(c.targets.len(), 3);

    let front = &c.targets[0];
    assert_eq!(front.limb_name, "front_leg");
    assert_eq!(front.kind, LimbKind::Leg);
    assert_eq!((front.start_bone, front.end_bone), (0, 2));
    // front_leg_0 stands at spine_1 + (0.3, 0.1) = (1.3, 0.1)
    assert_eq!(front.path, Path::Parabolic(ParabolicTarget::new(p(1_700_000, -1_400_000), 150_000, 200_000)));

    let back = &c.targets[1];
    assert_eq!(back.limb_name, "back_leg_2");
    assert_eq!(back.kind, LimbKind::Leg);
    assert_eq!((back.start_bone, back.end_bone), (0, 2));
    assert_eq!(back.path, Path::Parabolic(ParabolicTarget::new(p(900_000, -1_400_000), 150_000, 200_000)));

    let tail = &c.targets[2];
    assert_eq!(tail.limb_name, "spine");
    assert_eq!(tail.kind, LimbKind::Tail);
    assert_eq!((tail.start_bone, tail.end_bone), (1, 3));
    // spine_3 stands at (2, 1)
    assert_eq!(tail.path, Path::Linear(LinearTarget::new(p(2_000_000, 1_000_000), 1_000_000)));
}

#[test]
fn ready_needs_a_position_for_every_bone() {
    let skeleton = create_animal_skeleton(&walker());
    let mut positions = rest_positions(&skeleton);
    positions.pop();
    assert_eq!(AnimalController::ready(&skeleton, &positions), None);
}

#[test]
fn ready_needs_a_tail() {
    let short = Animal::new(vec![plain(1, 0, vec![leg("front_leg")]), plain(1, 0, Vec::new())]);
    let skeleton = create_animal_skeleton(&short);
    assert_eq!(AnimalController::ready(&skeleton, &rest_positions(&skeleton)), None);
}

#[test]
fn rig_without_legs_has_no_leg_length() {
    let worm = Animal::new(vec![plain(1, 0, Vec::new()), plain(1, 0, Vec::new()), plain(1, 0, Vec::new())]);
    let skeleton = create_animal_skeleton(&worm);
    let c = AnimalController::ready(&skeleton, &rest_positions(&skeleton)).unwrap();
    assert_eq!(c.limb_length, 0);
    assert_eq!(c.targets.len(), 1);
    assert_eq!(c.targets[0].kind, LimbKind::Tail);
}

#[test]
fn limb_is_solved_from_its_root() {
    let skeleton = create_animal_skeleton(&walker());
    let positions = rest_positions(&skeleton);
    let c = AnimalController::ready(&skeleton, &positions).unwrap();
    let root = positions[7];
    let solved = solve_limb(&skeleton, &c.targets[0], root).unwrap();
    let offsets = [Vec2 { x: 200_000, y: -700_000 }, Vec2 { x: -200_000, y: -700_000 }];
    let want = inverse_kinematics(&offsets, p(400_000, -1_500_000), IK_ITERATIONS).unwrap();
    assert_eq!(solved, want);
    assert_eq!(IK_ITERATIONS, 10);
    // the target lies 1.552 from the root and the leg is 1.456 long: the
    // gap is below a tenth of a unit
    assert!(solved.reached);
    assert_eq!(solved.joints.len(), 3);
}

#[test]
fn limb_without_bones_is_not_solved() {
    let skeleton = create_animal_skeleton(&walker());
    let limb = LimbTarget {
        limb_name: "wing".to_string(),
        kind: LimbKind::Leg,
        start_bone: 0,
        end_bone: 1,
        path: Path::Linear(LinearTarget::new(p(0, 0), 1)),
    };
    assert_eq!(solve_limb(&skeleton, &limb, p(0, 0)), None);
    let whole = LimbTarget {
        limb_name: "spine".to_string(),
        kind: LimbKind::Tail,
        start_bone: 2,
        end_bone: 2,
        path: Path::Linear(LinearTarget::new(p(0, 0), 1)),
    };
    assert_eq!(solve_limb(&skeleton, &whole, p(0, 0)), None);
    let far = LimbTarget {
        limb_name: "spine".to_string(),
        kind: LimbKind::Tail,
        start_bone: 1,
        end_bone: 3,
        path: Path::Linear(LinearTarget::new(p(TARGET_REACH, 0), 1)),
    };
    assert_eq!(solve_limb(&skeleton, &far, p(-1, 0)), None);
    assert!(solve_limb(&skeleton, &far, p(0, 0)).is_some());
    assert_eq!(solve_limb(&skeleton, &far, p(i64::MIN, 0)), None);
}

fn a_leg(at: Point2) -> LimbTarget {
    LimbTarget {
        limb_name: "front_leg".to_string(),
        kind: LimbKind::Leg,
        start_bone: 0,
        end_bone: 2,
        path: Path::Parabolic(ParabolicTarget::new(at, 150_000, 200_000)),
    }
}

#[test]
fn leg_that_reached_keeps_its_target() {
    let mut limb = a_leg(p(5, 6));
    step_target(&mut limb, true, p(1_000_000, 0), 16_000, 0);
    let mut want = ParabolicTarget::new(p(5, 6), 150_000, 200_000);
    want.delta(16_000);
    assert_eq!(limb.path, Path::Parabolic(want));
    assert_eq!(limb.path.target(), p(5, 6));
}

#[test]
fn leg_behind_its_root_steps_ahead() {
    let mut limb = a_leg(p(999_999, 0));
    step_target(&mut limb, false, p(1_000_000, 2_000_000), 16_000, 0);
    let mut want = ParabolicTarget::new(p(999_999, 0), 150_000, 200_000);
    want.update_target(p(1_800_000, 500_000));
    want.delta(16_000);
    assert_eq!(limb.path, Path::Parabolic(want));
    assert_eq!(limb.path.elapsed(), 16_000);
}

#[test]
fn leg_ahead_of_its_root_steps_behind() {
    let mut limb = a_leg(p(1_000_000, 0));
    step_target(&mut limb, false, p(1_000_000, 2_000_000), 16_000, 0);
    let mut want = ParabolicTarget::new(p(1_000_000, 0), 150_000, 200_000);
    want.update_target(p(200_000, 500_000));
    want.delta(16_000);
    assert_eq!(limb.path, Path::Parabolic(want));
}

#[test]
fn tail_target_sways_ahead_of_its_root() {
    let mut limb = LimbTarget {
        limb_name: "spine".to_string(),
        kind: LimbKind::Tail,
        start_bone: 1,
        end_bone: 3,
        path: Path::Linear(LinearTarget::new(p(0, 0), 1_000_000)),
    };
    for reached in [true, false] {
        step_target(&mut limb, reached, p(1_000_000, 2_000_000), 500_000, -250_000);
        assert_eq!(limb.path.elapsed(), 500_000);
    }
    let mut want = LinearTarget::new(p(0, 0), 1_000_000);
    want.update_target(p(6_000_000, 1_750_000));
    want.update_target(p(6_000_000, 1_750_000));
    want.delta(500_000);
    assert_eq!(limb.path, Path::Linear(want));
    assert_eq!(limb.limb_name, "spine");
    assert_eq!((limb.start_bone, limb.end_bone), (1, 3));
}

#[test]
fn far_roots_count_as_within_reach() {
    let mut limb = a_leg(p(0, 0));
    step_target(&mut limb, false, p(i64::MAX, i64::MIN), 150_000, 0);
    limb.path.delta(1);
    assert_eq!(limb.path.target(), p(TARGET_REACH, -TARGET_REACH));
    let mut other = a_leg(p(0, 0));
    step_target(&mut other, false, p(i64::MIN, i64::MAX), 150_000, 0);
    other.path.delta(1);
    assert_eq!(other.path.target(), p(-TARGET_REACH, TARGET_REACH - 1_500_000));
}

#[test]
fn controller_steps_all_targets() {
    let skeleton = create_animal_skeleton(&walker());
    let positions = rest_positions(&skeleton);
    let mut c = AnimalController::ready(&skeleton, &positions).unwrap();
    let roots = [positions[7], positions[4], positions[1]];
    assert!(c.step_targets(&[false, true, true], &roots, 16_000, 100));
    assert_eq!(c.targets[0].path.elapsed(), 16_000);
    assert_eq!(c.targets[1].path.elapsed(), u64::MAX);
    assert_eq!(c.targets[2].path.elapsed(), 16_000);
    assert_eq!(c.time, 0);
    let mut front = ParabolicTarget::new(p(1_700_000, -1_400_000), 150_000, 200_000);
    // the target lay ahead of the root at (1.3, 0.1): the leg steps behind it
    front.update_target(p(500_000, -1_400_000));
    front.delta(16_000);
    assert_eq!(c.targets[0].path, Path::Parabolic(front));
}

#[test]
fn controller_refuses_frames_of_the_wrong_size() {
    let skeleton = create_animal_skeleton(&walker());
    let positions = rest_positions(&skeleton);
    let mut c = AnimalController::ready(&skeleton, &positions).unwrap();
    let before = AnimalController::ready(&skeleton, &positions).unwrap();
    assert!(!c.step_targets(&[false, true], &[p(0, 0), p(0, 0), p(0, 0)], 16_000, 0));
    assert!(!c.step_targets(&[false, true, true], &[p(0, 0)], 16_000, 0));
    assert_eq!(c, before);
}

#[test]
fn clock_counts_up_and_stops() {
    let skeleton = create_animal_skeleton(&walker());
    let mut c = AnimalController::ready(&skeleton, &rest_positions(&skeleton)).unwrap();
    c.pass_time(16_000);
    c.pass_time(1);
    assert_eq!(c.time, 16_001);
    c.time = u64::MAX - 5;
    c.pass_time(5);
    assert_eq!(c.time, u64::MAX);
    c.pass_time(5);
    assert_eq!(c.time, u64::MAX);
}

#[test]
fn speed_is_picked_when_due() {
    let skeleton = create_animal_skeleton(&walker());
    let mut c = AnimalController::ready(&skeleton, &rest_positions(&skeleton)).unwrap();
    assert_eq!(c.wander(0, 0), None);
    c.pass_time(1_000);
    assert_eq!(c.wander(0, 0), Some(-6_000_000));
    assert_eq!(c.random_next, 1_000);
    assert_eq!(c.wander(0, 0), None);
    c.pass_time(1);
    assert_eq!(c.wander(u32::MAX, u32::MAX), Some(5_999_988));
    assert_eq!(c.random_next, 1_001 + 4_999_995);
    c.time = u64::MAX;
    assert_eq!(c.wander(0x8000_0000, 0x8000_0000), Some(0));
    assert_eq!(c.random_next, u64::MAX);
}

#[test]
fn rolled_speed_is_within_bounds() {
    let skeleton = create_animal_skeleton(&walker());
    let mut c = AnimalController::ready(&skeleton, &rest_positions(&skeleton)).unwrap();
    assert_eq!(c.roll(), None);
    let mut seen = Vec::new();
    for _ in 0..50 {
        c.time = c.random_next + 1;
        let before = c.time;
        let speed = c.roll().unwrap();
        assert!((-6_000_000..6_000_000).contains(&speed));
        assert!(c.random_next >= before && c.random_next <= before + 5_000_000);
        seen.push(speed);
    }
    seen.dedup();
    assert!(seen.len() > 1);
}

#[test]
fn new_controller_is_empty() {
    let c = AnimalController::new();
    assert_eq!(c.targets.len(), 0);
    assert_eq!((c.time, c.limb_length, c.random_next), (0, 0, 0));
}

#[test]
fn frame_steps_targets_and_picks_a_speed() {
    let skeleton = create_animal_skeleton(&walker());
    let positions = rest_positions(&skeleton);
    let mut c = AnimalController::ready(&skeleton, &positions).unwrap();
    let roots = [positions[7], positions[4], positions[1]];
    assert_eq!(c.process(&[true, true, true], &roots, 16_000, 0), Some(None));
    assert_eq!(c.targets[2].path.elapsed(), 16_000);
    c.pass_time(16_000);
    let picked = c.process(&[true, true, true], &roots, 16_000, 0).unwrap();
    assert!(picked.is_some());
    assert!(c.random_next >= 16_000);
    assert_eq!(c.process(&[true], &roots, 16_000, 0), None);
}
