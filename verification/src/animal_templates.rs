//! Three ready-made bodies: a chicken, a turtle and a fox.

use crate::model::{
    limbs_model, points_model, spine_name, Animal, BodyPoint, Limb, LimbModel, PointModel, Vec2,
    Vec3,
};
use vstd::prelude::*;
use vstd::string::StringExecFns;

verus! {

/// A body point that shows the texture cell `cell` alone, at full weight.
pub open spec fn segment(
    x: int,
    y: int,
    size: int,
    cell: usize,
    seam: bool,
    limbs: Seq<LimbModel>,
) -> PointModel {
    PointModel {
        dir: Vec2 { x: x as i32, y: y as i32 },
        size: size as i32,
        textures: (Some((cell, 1_000_000u32)), None),
        discontinuous: seam,
        limbs,
    }
}

/// A limb.
pub open spec fn limb(
    name: Seq<char>,
    dx: int,
    dy: int,
    dz: int,
    column: usize,
    body: Seq<PointModel>,
) -> LimbModel {
    LimbModel {
        displacement: Vec3 { x: dx as i32, y: dy as i32, z: dz as i32 },
        texture_displacement: column,
        body,
        name,
    }
}

/// A body point that shows the texture cell `cell` alone, at full weight.
fn make_segment(x: i32, y: i32, size: i32, cell: usize, seam: bool, limbs: Vec<Limb>) -> (point:
    BodyPoint)
    ensures
        point@ == segment(x as int, y as int, size as int, cell, seam, limbs_model(limbs@)),
{
    let point = BodyPoint {
        dir: Vec2 { x, y },
        size,
        texture_indices: [Some((cell, 1_000_000)), None],
        discontinuous: seam,
        limbs,
    };
    assert(point@.limbs =~= limbs_model(limbs@));
    point
}

/// A limb.
fn make_limb(name: &str, dx: i32, dy: i32, dz: i32, column: usize, body: Vec<BodyPoint>) -> (made:
    Limb)
    ensures
        made@ == limb(name@, dx as int, dy as int, dz as int, column, points_model(body@)),
{
    let made = Limb {
        displacement: Vec3 { x: dx, y: dy, z: dz },
        texture_displacement: column,
        body,
        name: String::from_str(name),
    };
    assert(made@.body =~= points_model(body@));
    made
}

/// The points of a leg of the chicken.
pub open spec fn chicken_leg_model() -> Seq<PointModel> {
    seq![
        segment(200_000, -700_000, 100_000, 0, false, Seq::empty()),
        segment(-200_000, -700_000, 100_000, 0, false, Seq::empty()),
        segment(-300_000, 0, 100_000, 0, false, Seq::empty()),
        segment(100_000, 0, 0, 0, false, Seq::empty()),
    ]
}

/// The points of a leg of the chicken.
fn chicken_leg() -> (body: Vec<BodyPoint>)
    ensures
        points_model(body@) == chicken_leg_model(),
{
    let mut body: Vec<BodyPoint> = Vec::new();
    body.push(make_segment(200_000, -700_000, 100_000, 0, false, Vec::new()));
    body.push(make_segment(-200_000, -700_000, 100_000, 0, false, Vec::new()));
    body.push(make_segment(-300_000, 0, 100_000, 0, false, Vec::new()));
    body.push(make_segment(100_000, 0, 0, 0, false, Vec::new()));
    assert(limbs_model(Seq::<Limb>::empty()) =~= Seq::<LimbModel>::empty());
    assert(points_model(body@) =~= chicken_leg_model());
    body
}

/// The legs that grow from point 3 of the chicken.
pub open spec fn chicken_legs_3_model() -> Seq<LimbModel> {
    seq![
        limb("front_leg"@, 300_000, 100_000, -1_000_000, 5, chicken_leg_model()),
        limb("back_leg"@, 300_000, 100_000, 1_000_000, 5, chicken_leg_model()),
    ]
}

/// The legs that grow from point 3 of the chicken.
fn chicken_legs_3() -> (limbs: Vec<Limb>)
    ensures
        limbs_model(limbs@) == chicken_legs_3_model(),
{
    let mut limbs: Vec<Limb> = Vec::new();
    limbs.push(make_limb("front_leg", 300_000, 100_000, -1_000_000, 5, chicken_leg()));
    limbs.push(make_limb("back_leg", 300_000, 100_000, 1_000_000, 5, chicken_leg()));
    assert(limbs_model(limbs@) =~= chicken_legs_3_model());
    limbs
}

/// The points of the spine of the chicken.
pub open spec fn chicken_model() -> Seq<PointModel> {
    seq![
        segment(1_000_000, 0, 1_000_000, 0, false, Seq::empty()),
        segment(500_000, -1_000_000, 500_000, 0, true, Seq::empty()),
        segment(750_000, -200_000, 1_000_000, 0, false, Seq::empty()),
        segment(750_000, 200_000, 1_100_000, 0, false, chicken_legs_3_model()),
        segment(750_000, 1_000_000, 1_000_000, 0, false, Seq::empty()),
        segment(1_000_000, 1_000_000, 100_000, 0, false, Seq::empty()),
    ]
}

/// A chicken.
pub fn chicken() -> (animal: Animal)
    ensures
        animal@.body == chicken_model(),
        animal@.name == spine_name(),
        animal@.displacement == (Vec3 { x: 0, y: 0, z: 0 }),
        animal@.texture_displacement == 0,
{
    let mut body: Vec<BodyPoint> = Vec::new();
    body.push(make_segment(1_000_000, 0, 1_000_000, 0, false, Vec::new()));
    body.push(make_segment(500_000, -1_000_000, 500_000, 0, true, Vec::new()));
    body.push(make_segment(750_000, -200_000, 1_000_000, 0, false, Vec::new()));
    body.push(make_segment(750_000, 200_000, 1_100_000, 0, false, chicken_legs_3()));
    body.push(make_segment(750_000, 1_000_000, 1_000_000, 0, false, Vec::new()));
    body.push(make_segment(1_000_000, 1_000_000, 100_000, 0, false, Vec::new()));
    assert(limbs_model(Seq::<Limb>::empty()) =~= Seq::<LimbModel>::empty());
    assert(points_model(body@) =~= chicken_model());
    Animal::new(body)
}

/// The points of a leg of the turtle.
pub open spec fn turtle_leg_model() -> Seq<PointModel> {
    seq![
        segment(650_000, -650_000, 300_000, 2, false, Seq::empty()),
        segment(-650_000, -650_000, 300_000, 2, false, Seq::empty()),
        segment(100_000, 0, 300_000, 2, false, Seq::empty()),
    ]
}

/// The points of a leg of the turtle.
fn turtle_leg() -> (body: Vec<BodyPoint>)
    ensures
        points_model(body@) == turtle_leg_model(),
{
    let mut body: Vec<BodyPoint> = Vec::new();
    body.push(make_segment(650_000, -650_000, 300_000, 2, false, Vec::new()));
    body.push(make_segment(-650_000, -650_000, 300_000, 2, false, Vec::new()));
    body.push(make_segment(100_000, 0, 300_000, 2, false, Vec::new()));
    assert(limbs_model(Seq::<Limb>::empty()) =~= Seq::<LimbModel>::empty());
    assert(points_model(body@) =~= turtle_leg_model());
    body
}

/// The legs that grow from point 3 of the turtle.
pub open spec fn turtle_legs_3_model() -> Seq<LimbModel> {
    seq![
        limb("front_leg_0"@, 300_000, -200_000, -2_000_000, 5, turtle_leg_model()),
        limb("back_leg_0"@, 300_000, -200_000, -1_000_000, 5, turtle_leg_model()),
    ]
}

/// The legs that grow from point 3 of the turtle.
fn turtle_legs_3() -> (limbs: Vec<Limb>)
    ensures
        limbs_model(limbs@) == turtle_legs_3_model(),
{
    let mut limbs: Vec<Limb> = Vec::new();
    limbs.push(make_limb("front_leg_0", 300_000, -200_000, -2_000_000, 5, turtle_leg()));
    limbs.push(make_limb("back_leg_0", 300_000, -200_000, -1_000_000, 5, turtle_leg()));
    assert(limbs_model(limbs@) =~= turtle_legs_3_model());
    limbs
}

/// The legs that grow from point 4 of the turtle.
pub open spec fn turtle_legs_4_model() -> Seq<LimbModel> {
    seq![
        limb("front_leg_1"@, 300_000, -500_000, -2_000_000, 5, turtle_leg_model()),
        limb("back_leg_1"@, 300_000, -500_000, -1_000_000, 5, turtle_leg_model()),
    ]
}

/// The legs that grow from point 4 of the turtle.
fn turtle_legs_4() -> (limbs: Vec<Limb>)
    ensures
        limbs_model(limbs@) == turtle_legs_4_model(),
{
    let mut limbs: Vec<Limb> = Vec::new();
    limbs.push(make_limb("front_leg_1", 300_000, -500_000, -2_000_000, 5, turtle_leg()));
    limbs.push(make_limb("back_leg_1", 300_000, -500_000, -1_000_000, 5, turtle_leg()));
    assert(limbs_model(limbs@) =~= turtle_legs_4_model());
    limbs
}

/// The points of the spine of the turtle.
pub open spec fn turtle_model() -> Seq<PointModel> {
    seq![
        segment(1_000_000, 0, 1_000_000, 2, false, Seq::empty()),
        segment(2_000_000, 500_000, 625_000, 2, true, Seq::empty()),
        segment(2_000, 500, 1_000_000, 2, false, Seq::empty()),
        segment(2_000_000, 500_000, 2_000_000, 2, false, turtle_legs_3_model()),
        segment(2_000_000, -500_000, 3_000_000, 2, false, turtle_legs_4_model()),
        segment(970, -243, 2_000_000, 2, false, Seq::empty()),
        segment(1_000_000, -500_000, 500_000, 2, true, Seq::empty()),
        segment(1_000, 0, 0, 2, false, Seq::empty()),
        segment(1_000, 0, 0, 2, false, Seq::empty()),
        segment(1_000, 0, 0, 2, false, Seq::empty()),
    ]
}

/// A turtle.
pub fn turtle() -> (animal: Animal)
    ensures
        animal@.body == turtle_model(),
        animal@.name == spine_name(),
        animal@.displacement == (Vec3 { x: 0, y: 0, z: 0 }),
        animal@.texture_displacement == 0,
{
    let mut body: Vec<BodyPoint> = Vec::new();
    body.push(make_segment(1_000_000, 0, 1_000_000, 2, false, Vec::new()));
    body.push(make_segment(2_000_000, 500_000, 625_000, 2, true, Vec::new()));
    body.push(make_segment(2_000, 500, 1_000_000, 2, false, Vec::new()));
    body.push(make_segment(2_000_000, 500_000, 2_000_000, 2, false, turtle_legs_3()));
    body.push(make_segment(2_000_000, -500_000, 3_000_000, 2, false, turtle_legs_4()));
    body.push(make_segment(970, -243, 2_000_000, 2, false, Vec::new()));
    body.push(make_segment(1_000_000, -500_000, 500_000, 2, true, Vec::new()));
    body.push(make_segment(1_000, 0, 0, 2, false, Vec::new()));
    body.push(make_segment(1_000, 0, 0, 2, false, Vec::new()));
    body.push(make_segment(1_000, 0, 0, 2, false, Vec::new()));
    assert(limbs_model(Seq::<Limb>::empty()) =~= Seq::<LimbModel>::empty());
    assert(points_model(body@) =~= turtle_model());
    Animal::new(body)
}

/// The points of a leg of the fox.
pub open spec fn fox_leg_model() -> Seq<PointModel> {
    seq![
        segment(450_000, -450_000, 200_000, 1, false, Seq::empty()),
        segment(-650_000, -650_000, 100_000, 1, false, Seq::empty()),
        segment(100_000, 0, 100_000, 1, false, Seq::empty()),
    ]
}

/// The points of a leg of the fox.
fn fox_leg() -> (body: Vec<BodyPoint>)
    ensures
        points_model(body@) == fox_leg_model(),
{
    let mut body: Vec<BodyPoint> = Vec::new();
    body.push(make_segment(450_000, -450_000, 200_000, 1, false, Vec::new()));
    body.push(make_segment(-650_000, -650_000, 100_000, 1, false, Vec::new()));
    body.push(make_segment(100_000, 0, 100_000, 1, false, Vec::new()));
    assert(limbs_model(Seq::<Limb>::empty()) =~= Seq::<LimbModel>::empty());
    assert(points_model(body@) =~= fox_leg_model());
    body
}

/// The legs that grow from point 1 of the fox.
pub open spec fn fox_legs_1_model() -> Seq<LimbModel> {
    seq![
        limb("front_leg_2"@, 300_000, 200_000, -2_000_000, 7, fox_leg_model()),
        limb("back_leg_2"@, 300_000, 200_000, -1_000_000, 7, fox_leg_model()),
    ]
}

/// The legs that grow from point 1 of the fox.
fn fox_legs_1() -> (limbs: Vec<Limb>)
    ensures
        limbs_model(limbs@) == fox_legs_1_model(),
{
    let mut limbs: Vec<Limb> = Vec::new();
    limbs.push(make_limb("front_leg_2", 300_000, 200_000, -2_000_000, 7, fox_leg()));
    limbs.push(make_limb("back_leg_2", 300_000, 200_000, -1_000_000, 7, fox_leg()));
    assert(limbs_model(limbs@) =~= fox_legs_1_model());
    limbs
}

/// The legs that grow from point 3 of the fox.
pub open spec fn fox_legs_3_model() -> Seq<LimbModel> {
    seq![
        limb("front_leg_3"@, 300_000, -200_000, -2_000_000, 7, fox_leg_model()),
        limb("back_leg_3"@, 300_000, -200_000, -1_000_000, 7, fox_leg_model()),
    ]
}

/// The legs that grow from point 3 of the fox.
fn fox_legs_3() -> (limbs: Vec<Limb>)
    ensures
        limbs_model(limbs@) == fox_legs_3_model(),
{
    let mut limbs: Vec<Limb> = Vec::new();
    limbs.push(make_limb("front_leg_3", 300_000, -200_000, -2_000_000, 7, fox_leg()));
    limbs.push(make_limb("back_leg_3", 300_000, -200_000, -1_000_000, 7, fox_leg()));
    assert(limbs_model(limbs@) =~= fox_legs_3_model());
    limbs
}

/// The points of the spine of the fox.
pub open spec fn fox_model() -> Seq<PointModel> {
    seq![
        segment(1_000_000, 0, 1_000_000, 1, false, Seq::empty()),
        segment(750_000, 0, 500_000, 1, true, fox_legs_1_model()),
        segment(750_000, 0, 700_000, 1, false, Seq::empty()),
        segment(500_000, 0, 800_000, 1, false, fox_legs_3_model()),
        segment(500_000, 0, 700_000, 1, false, Seq::empty()),
        segment(1_000_000, 0, 100_000, 1, false, Seq::empty()),
        segment(1_000_000, 0, 1_000_000, 1, false, Seq::empty()),
        segment(1_000_000, 0, 100_000, 1, false, Seq::empty()),
    ]
}

/// A fox.
pub fn fox() -> (animal: Animal)
    ensures
        animal@.body == fox_model(),
        animal@.name == spine_name(),
        animal@.displacement == (Vec3 { x: 0, y: 0, z: 0 }),
        animal@.texture_displacement == 0,
{
    let mut body: Vec<BodyPoint> = Vec::new();
    body.push(make_segment(1_000_000, 0, 1_000_000, 1, false, Vec::new()));
    body.push(make_segment(750_000, 0, 500_000, 1, true, fox_legs_1()));
    body.push(make_segment(750_000, 0, 700_000, 1, false, Vec::new()));
    body.push(make_segment(500_000, 0, 800_000, 1, false, fox_legs_3()));
    body.push(make_segment(500_000, 0, 700_000, 1, false, Vec::new()));
    body.push(make_segment(1_000_000, 0, 100_000, 1, false, Vec::new()));
    body.push(make_segment(1_000_000, 0, 1_000_000, 1, false, Vec::new()));
    body.push(make_segment(1_000_000, 0, 100_000, 1, false, Vec::new()));
    assert(limbs_model(Seq::<Limb>::empty()) =~= Seq::<LimbModel>::empty());
    assert(points_model(body@) =~= fox_model());
    Animal::new(body)
}

} // verus!
