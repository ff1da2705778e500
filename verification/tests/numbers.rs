use animal_rig::fixed::{isqrt, quotient, FINE, ONE};
use animal_rig::geometry::{fine_length_of, rescale_to};
use animal_rig::gradient::BodyGradient;

#[test]
fn one_is_a_million_steps() {
    assert_eq!(ONE, 1_000_000);
    assert_eq!(FINE, 65536);
}

#[test]
fn quotient_rounds_toward_zero() {
    assert_eq!(quotient(7, 2), 3);
    assert_eq!(quotient(-7, 2), -3);
    assert_eq!(quotient(-1, 2), 0);
    assert_eq!(quotient(0, 5), 0);
    assert_eq!(quotient(-6, 3), -2);
}

#[test]
fn isqrt_rounds_down() {
    assert_eq!(isqrt(0), 0);
    assert_eq!(isqrt(1), 1);
    assert_eq!(isqrt(2), 1);
    assert_eq!(isqrt(15), 3);
    assert_eq!(isqrt(16), 4);
    assert_eq!(isqrt(17), 4);
    assert_eq!(isqrt(1_000_000_000_000), 1_000_000);
    assert_eq!(isqrt(999_999_999_999), 999_999);
    assert_eq!(isqrt(u128::MAX), u64::MAX);
    assert_eq!(isqrt((u64::MAX as u128) * (u64::MAX as u128)), u64::MAX);
    assert_eq!(isqrt((u64::MAX as u128) * (u64::MAX as u128) - 1), u64::MAX - 1);
}

#[test]
fn fine_length_counts_fine_steps() {
    assert_eq!(fine_length_of(3, 4), 5 * 65536);
    assert_eq!(fine_length_of(-3, 4), 5 * 65536);
    assert_eq!(fine_length_of(0, 0), 0);
    assert_eq!(fine_length_of(1, 1), 92681);
    assert_eq!(fine_length_of(0, -2_000_000), 2_000_000 * 65536);
}

#[test]
fn rescale_keeps_direction() {
    let len = fine_length_of(3, 4);
    assert_eq!(rescale_to(3, 10 * 65536, len), 6);
    assert_eq!(rescale_to(4, 10 * 65536, len), 8);
    assert_eq!(rescale_to(-3, 10 * 65536, fine_length_of(-3, 4)), -6);
    assert_eq!(rescale_to(3, -10 * 65536, len), -6);
    assert_eq!(rescale_to(0, 10 * 65536, 0), 0);
    assert_eq!(rescale_to(3, len as i64, len), 3);
}

#[test]
fn rescale_rounds_toward_zero() {
    let len = fine_length_of(1, 1);
    // one step along each axis, resized to one step: 65536 / 92681 of a step
    assert_eq!(rescale_to(1, 65536, len), 0);
    assert_eq!(rescale_to(-1, 65536, len), 0);
    assert_eq!(rescale_to(1, 2 * 65536, len), 1);
}

#[test]
fn decreasing_line_falls_from_one_to_zero() {
    assert_eq!(
        BodyGradient::decreasing_linear(5),
        BodyGradient(vec![1_000_000, 750_000, 500_000, 250_000, 0])
    );
    assert_eq!(BodyGradient::decreasing_linear(4), BodyGradient(vec![1_000_000, 666_666, 333_333, 0]));
    assert_eq!(BodyGradient::decreasing_linear(2), BodyGradient(vec![1_000_000, 0]));
}

#[test]
fn increasing_line_starts_late() {
    assert_eq!(
        BodyGradient::increasing_linear(5),
        BodyGradient(vec![0, 0, 250_000, 500_000, 750_000])
    );
    assert_eq!(BodyGradient::increasing_linear(2), BodyGradient(vec![0, 0]));
    assert_eq!(BodyGradient::increasing_linear(4), BodyGradient(vec![0, 0, 333_333, 666_666]));
}

#[test]
fn lines_over_one_segment_or_none() {
    assert_eq!(BodyGradient::decreasing_linear(0), BodyGradient(vec![]));
    assert_eq!(BodyGradient::increasing_linear(0), BodyGradient(vec![]));
    assert_eq!(BodyGradient::decreasing_linear(1), BodyGradient(vec![0]));
    assert_eq!(BodyGradient::increasing_linear(1), BodyGradient(vec![0]));
}

#[test]
fn fill_zeroes_adds_to_the_end() {
    assert_eq!(BodyGradient(vec![1, 2]).fill_zeroes_till(4), BodyGradient(vec![1, 2, 0, 0]));
    assert_eq!(BodyGradient(vec![1, 2]).fill_zeroes_till(2), BodyGradient(vec![1, 2]));
    assert_eq!(BodyGradient(vec![1, 2]).fill_zeroes_till(1), BodyGradient(vec![1, 2]));
    assert_eq!(BodyGradient(vec![]).fill_zeroes_till(0), BodyGradient(vec![]));
}

#[test]
fn start_with_replaces_the_first_weights() {
    assert_eq!(BodyGradient(vec![5, 6, 7]).start_with(vec![9]), BodyGradient(vec![9, 6, 7]));
    assert_eq!(BodyGradient(vec![5, 6, 7]).start_with(vec![]), BodyGradient(vec![5, 6, 7]));
    assert_eq!(BodyGradient(vec![5, 6, 7]).start_with(vec![1, 2, 3]), BodyGradient(vec![1, 2, 3]));
}

#[test]
fn gradients_shape_a_blend_curve() {
    let g = BodyGradient::decreasing_linear(3).fill_zeroes_till(5).start_with(vec![1_000_000, 1_000_000]);
    assert_eq!(g, BodyGradient(vec![1_000_000, 1_000_000, 0, 0, 0]));
}
