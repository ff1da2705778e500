use animal_rig::geometry::Point2;
use animal_rig::ik::{inverse_kinematics, local_rotations, Turn, MAX_CHAIN, TARGET_REACH};
use animal_rig::model::Vec2;
use animal_rig::trajectory::{clamp_to_reach, LinearTarget, ParabolicTarget};

fn p(x: i64, y: i64) -> Point2 {
    Point2 { x, y }
}

fn v(x: i32, y: i32) -> Vec2 {
    Vec2 { x, y }
}

fn length(a: Point2, b: Point2) -> f64 {
    (((a.x - b.x) as f64).powi(2) + ((a.y - b.y) as f64).powi(2)).sqrt()
}

#[test]
fn single_segment_reaches_its_own_end() {
    let s = inverse_kinematics(&[v(1_000_000, 0)], p(1_000_000, 0), 10).unwrap();
    assert!(s.reached);
    assert_eq!(s.joints, vec![p(0, 0), p(1_000_000, 0)]);
    assert_eq!(s.turns, vec![Turn { along: 1_000_000_000_000, across: 0 }]);
}

#[test]
fn single_slanted_segment_reaches_its_own_end() {
    let s = inverse_kinematics(&[v(-333_333, 777_777)], p(-333_333, 777_777), 10).unwrap();
    assert!(s.reached);
    assert_eq!(s.joints, vec![p(0, 0), p(-333_333, 777_777)]);
    assert_eq!(s.turns[0].across, 0);
    assert!(s.turns[0].along > 0);
}

#[test]
fn straight_chain_stays_straight() {
    let chain = [v(1_000_000, 0), v(500_000, 0), v(2_000_000, 0)];
    let s = inverse_kinematics(&chain, p(3_500_000, 0), 10).unwrap();
    assert!(s.reached);
    assert_eq!(s.joints, vec![p(0, 0), p(1_000_000, 0), p(1_500_000, 0), p(3_500_000, 0)]);
    for t in &s.turns {
        assert_eq!(t.across, 0);
        assert!(t.along > 0);
    }
}

#[test]
fn bent_chain_at_rest_stays_at_rest() {
    let chain = [v(1_000_000, 1), v(-500_000, 700_001), v(3, -2_000_000), v(0, 0), v(1, 1)];
    let s = inverse_kinematics(&chain, p(500_004, -1_299_997), 7).unwrap();
    assert!(s.reached);
    assert_eq!(
        s.joints,
        vec![p(0, 0), p(1_000_000, 1), p(500_000, 700_002), p(500_003, -1_299_998), p(500_003, -1_299_998), p(500_004, -1_299_997)]
    );
    for t in &s.turns {
        assert_eq!(t.across, 0);
        assert!(t.along >= 0);
    }
}

#[test]
fn no_pass_leaves_the_chain_at_rest() {
    let chain = [v(1_000_000, 0), v(0, 1_000_000)];
    let s = inverse_kinematics(&chain, p(-5_000_000, 0), 0).unwrap();
    assert_eq!(s.joints, vec![p(0, 0), p(1_000_000, 0), p(1_000_000, 1_000_000)]);
    assert!(!s.reached);
    let near = inverse_kinematics(&chain, p(1_000_000, 1_099_999), 0).unwrap();
    assert!(near.reached);
    let edge = inverse_kinematics(&chain, p(1_000_000, 1_100_000), 0).unwrap();
    assert!(!edge.reached);
}

#[test]
fn one_pass_pulls_back_and_forth() {
    // one segment along +x, target straight up at the same distance
    let s = inverse_kinematics(&[v(1_000_000, 0)], p(0, 1_000_000), 1).unwrap();
    // backward: the root is pulled to one unit from the target, toward its
    // old place: from (0, 1) along (0, -1) to (0, 0)
    // forward: the end is pulled to one unit from the root, toward the target
    assert_eq!(s.joints, vec![p(0, 0), p(0, 1_000_000)]);
    assert!(s.reached);
    assert_eq!(s.turns, vec![Turn { along: 0, across: 1_000_000_000_000 }]);
}

#[test]
fn target_to_the_side_keeps_segment_lengths() {
    let chain = [v(1_000_000, 0), v(1_000_000, 0), v(1_000_000, 0)];
    for iterations in 1..12 {
        let s = inverse_kinematics(&chain, p(0, 2_000_000), iterations).unwrap();
        assert_eq!(s.joints[0], p(0, 0));
        for i in 0..3 {
            let len = length(s.joints[i], s.joints[i + 1]);
            assert!((len - 1_000_000.0).abs() < 4.0, "segment {} is {} long", i, len);
        }
        let gap = length(s.joints[3], p(0, 2_000_000));
        assert_eq!(s.reached, gap * gap < 1e10);
    }
    let s = inverse_kinematics(&chain, p(0, 2_000_000), 10).unwrap();
    assert!(s.reached);
}

#[test]
fn target_out_of_reach_is_not_reached() {
    let chain = [v(1_000_000, 0), v(1_000_000, 0), v(1_000_000, 0)];
    let s = inverse_kinematics(&chain, p(0, 5_000_000), 10).unwrap();
    assert!(!s.reached);
    assert_eq!(s.joints[0], p(0, 0));
    for i in 0..3 {
        let len = length(s.joints[i], s.joints[i + 1]);
        assert!((len - 1_000_000.0).abs() < 4.0);
    }
    // the chain points at the target
    assert!(s.joints[3].y > 2_900_000);
}

#[test]
fn turns_tell_the_angle() {
    let chain = [v(1_000_000, 0), v(0, -1_000_000)];
    let s = inverse_kinematics(&chain, p(300_000, 1_200_000), 10).unwrap();
    for i in 0..2 {
        let t = s.turns[i];
        let angle = (t.across as f64).atan2(t.along as f64);
        let rest = (chain[i].y as f64).atan2(chain[i].x as f64);
        let dx = (s.joints[i + 1].x - s.joints[i].x) as f64;
        let dy = (s.joints[i + 1].y - s.joints[i].y) as f64;
        let mut want = dy.atan2(dx) - rest;
        if want > std::f64::consts::PI {
            want -= 2.0 * std::f64::consts::PI;
        }
        if want < -std::f64::consts::PI {
            want += 2.0 * std::f64::consts::PI;
        }
        assert!((angle - want).abs() < 1e-9);
    }
    let quarter = inverse_kinematics(&[v(1_000_000, 0)], p(0, 1_000_000), 3).unwrap();
    let t = quarter.turns[0];
    assert!(((t.across as f64).atan2(t.along as f64) - std::f64::consts::FRAC_PI_2).abs() < 1e-9);
}

#[test]
fn chains_without_segments_are_refused() {
    assert_eq!(inverse_kinematics(&[], p(0, 0), 10), None);
}

#[test]
fn long_chains_are_refused() {
    let chain = vec![v(1, 0); MAX_CHAIN + 1];
    assert_eq!(inverse_kinematics(&chain, p(0, 0), 1), None);
    let longest = vec![v(i32::MAX, i32::MIN); MAX_CHAIN];
    let s = inverse_kinematics(&longest, p(TARGET_REACH, -TARGET_REACH), 2).unwrap();
    assert_eq!(s.joints.len(), MAX_CHAIN + 1);
}

#[test]
fn far_targets_are_refused() {
    let chain = [v(1, 0)];
    assert_eq!(inverse_kinematics(&chain, p(TARGET_REACH + 1, 0), 1), None);
    assert_eq!(inverse_kinematics(&chain, p(0, -TARGET_REACH - 1), 1), None);
    assert!(inverse_kinematics(&chain, p(-TARGET_REACH, TARGET_REACH), 1).is_some());
}

#[test]
fn rotations_are_relative_to_the_bone_before() {
    assert_eq!(local_rotations(&[10, 30, 25], 5), vec![5, 20, -5]);
    assert_eq!(local_rotations(&[], 5), Vec::<i64>::new());
    assert_eq!(
        local_rotations(&[i32::MAX, i32::MIN], i32::MIN),
        vec![i32::MAX as i64 - i32::MIN as i64, i32::MIN as i64 - i32::MAX as i64]
    );
}

#[test]
fn rotations_add_up_to_the_angles() {
    let angles = [100, -250, 3_141_592, 0, 17];
    let parent = -42;
    let rotations = local_rotations(&angles, parent);
    let mut sum = parent as i64;
    for (i, r) in rotations.iter().enumerate() {
        sum += r;
        assert_eq!(sum, angles[i] as i64);
    }
}

#[test]
fn new_linear_target_rests() {
    let t = LinearTarget::new(p(1_000_000, 2_000_000), 1_000_000);
    assert_eq!(t.target(), p(1_000_000, 2_000_000));
    assert_eq!(t.elapsed(), u64::MAX);
}

#[test]
fn linear_target_moves_on_a_line() {
    let mut t = LinearTarget::new(p(1_000_000, 2_000_000), 1_000_000);
    t.update_target(p(3_000_000, 0));
    assert_eq!(t.elapsed(), 0);
    assert_eq!(t.target(), p(1_000_000, 2_000_000));
    t.delta(250_000);
    assert_eq!(t.elapsed(), 250_000);
    assert_eq!(t.target(), p(1_500_000, 1_500_000));
    t.delta(750_000);
    assert_eq!(t.target(), p(3_000_000, 0));
}

#[test]
fn linear_target_returns_once_its_time_is_over() {
    let mut t = LinearTarget::new(p(1_000_000, 2_000_000), 1_000_000);
    t.update_target(p(3_000_000, 0));
    t.delta(1_000_001);
    assert_eq!(t.target(), p(1_000_000, 2_000_000));
}

#[test]
fn linear_round_trip() {
    for time in [0u32, 1, 150_000, u32::MAX] {
        let mut t = LinearTarget::new(p(-7, 9), time);
        t.update_target(p(123_456_789, -987_654_321));
        t.delta(time);
        assert_eq!(t.target(), p(123_456_789, -987_654_321));
    }
}

#[test]
fn linear_target_rounds_toward_its_start() {
    let mut t = LinearTarget::new(p(0, 0), 3);
    t.update_target(p(10, -10));
    t.delta(1);
    assert_eq!(t.target(), p(3, -3));
    t.delta(1);
    assert_eq!(t.target(), p(6, -6));
}

#[test]
fn new_parabolic_target_rests() {
    let t = ParabolicTarget::new(p(400_000, -1_500_000), 150_000, 200_000);
    assert_eq!(t.target(), p(400_000, -1_500_000));
    assert_eq!(t.elapsed(), u64::MAX);
}

#[test]
fn parabolic_target_moves_on_an_arc() {
    let mut t = ParabolicTarget::new(p(0, 0), 150_000, 200_000);
    t.update_target(p(1_000_000, 500_000));
    assert_eq!(t.target(), p(0, 0));
    t.delta(75_000);
    assert_eq!(t.target(), p(500_000, 50_000));
    t.delta(37_500);
    assert_eq!(t.target(), p(750_000, 37_500));
    t.delta(37_500);
    assert_eq!(t.target(), p(1_000_000, 0));
    t.delta(1);
    assert_eq!(t.target(), p(1_000_000, 500_000));
}

#[test]
fn parabolic_target_arcs_the_same_way_backward() {
    let mut t = ParabolicTarget::new(p(1_000_000, 500_000), 150_000, 200_000);
    t.update_target(p(0, 0));
    t.delta(75_000);
    assert_eq!(t.target(), p(500_000, 550_000));
}

#[test]
fn parabolic_target_without_a_way_stays() {
    let mut t = ParabolicTarget::new(p(5, 6), 150_000, 200_000);
    t.update_target(p(5, 100));
    t.delta(75_000);
    assert_eq!(t.target(), p(5, 6));
    t.delta(75_001);
    assert_eq!(t.target(), p(5, 100));
}

#[test]
fn parabolic_round_trip() {
    for time in [0u32, 1, 150_000, u32::MAX] {
        for slope in [0, 200_000, -200_000, i32::MAX, i32::MIN] {
            let mut t = ParabolicTarget::new(p(-7, 9), time, slope);
            t.update_target(p(123_456_789, -987_654_321));
            t.delta(time);
            assert_eq!(t.target(), p(123_456_789, 9));
        }
    }
}

#[test]
fn elapsed_time_stops_at_the_top() {
    let mut t = LinearTarget::new(p(0, 0), 5);
    t.delta(u32::MAX);
    assert_eq!(t.elapsed(), u64::MAX);
    let mut a = ParabolicTarget::new(p(0, 0), 5, 1);
    a.update_target(p(1, 1));
    a.delta(u32::MAX);
    a.delta(u32::MAX);
    assert_eq!(a.elapsed(), 2 * (u32::MAX as u64));
}

#[test]
fn far_targets_are_brought_within_reach() {
    assert_eq!(clamp_to_reach(p(i64::MAX, i64::MIN)), p(TARGET_REACH, -TARGET_REACH));
    assert_eq!(clamp_to_reach(p(5, -5)), p(5, -5));
    let t = LinearTarget::new(p(i64::MAX, 0), 5);
    assert_eq!(t.target(), p(TARGET_REACH, 0));
    let mut a = ParabolicTarget::new(p(0, 0), 10, i32::MAX);
    a.update_target(p(i64::MIN, i64::MAX));
    a.delta(5);
    assert_eq!(a.target().x, -TARGET_REACH / 2);
    a.delta(6);
    assert_eq!(a.target(), p(-TARGET_REACH, TARGET_REACH));
}
