//! The body tree: points, limbs and the animal that owns the root limb.
//!
//! A limb is a chain of body points; each point may carry child limbs, so a
//! body is a finite tree. The executable types hold `Vec` and `String`; their
//! views are the same trees over `Seq`, and every contract in this crate is
//! stated over those views.

use vstd::prelude::*;
use vstd::string::StringExecFns;

verus! {

/// A planar vector, in steps.
#[derive(Debug, Clone, Copy, PartialEq, Eq, Structural)]
pub struct Vec2 {
    pub x: i32,
    pub y: i32,
}

/// A spatial vector, in steps. `z` orders limbs in depth.
#[derive(Debug, Clone, Copy, PartialEq, Eq, Structural)]
pub struct Vec3 {
    pub x: i32,
    pub y: i32,
    pub z: i32,
}

/// A texture cell of the atlas and the weight it is drawn with.
pub type TextureSlot = Option<(usize, u32)>;

/// One cross-section of a limb.
#[derive(Debug, PartialEq)]
pub struct BodyPoint {
    /// Direction and length of the segment from this point to the next.
    pub dir: Vec2,
    /// Width of the cross-section.
    pub size: i32,
    /// Up to two texture cells with their weights.
    pub texture_indices: [TextureSlot; 2],
    /// Marks a seam: the cross-section is not mitered with the previous segment.
    pub discontinuous: bool,
    /// Limbs that grow from this point.
    pub limbs: Vec<Limb>,
}

/// A named chain of body points.
#[derive(Debug, PartialEq)]
pub struct Limb {
    /// Offset from the point the limb grows from.
    pub displacement: Vec3,
    /// Column offset of this limb in the texture atlas.
    pub texture_displacement: usize,
    pub body: Vec<BodyPoint>,
    /// Bones of this limb are called `name_0`, `name_1`, ...
    pub name: String,
}

/// A body tree whose root limb is the spine.
#[derive(Debug, PartialEq)]
pub struct Animal {
    body: Limb,
}

/// What a `BodyPoint` stands for.
pub struct PointModel {
    pub dir: Vec2,
    pub size: i32,
    /// The two texture slots, in order.
    pub textures: (TextureSlot, TextureSlot),
    pub discontinuous: bool,
    pub limbs: Seq<LimbModel>,
}

/// What a `Limb` stands for.
pub struct LimbModel {
    pub displacement: Vec3,
    pub texture_displacement: usize,
    pub body: Seq<PointModel>,
    pub name: Seq<char>,
}

/// The tree that a point and its limbs stand for.
pub open spec fn point_model(p: BodyPoint) -> PointModel
    decreases p,
{
    PointModel {
        dir: p.dir,
        size: p.size,
        textures: slots_model(p.texture_indices),
        discontinuous: p.discontinuous,
        limbs: Seq::new(
            p.limbs@.len(),
            |j: int|
                if 0 <= j < p.limbs@.len() {
                    limb_model(p.limbs@[j])
                } else {
                    arbitrary()
                },
        ),
    }
}

/// The tree that a limb stands for.
pub open spec fn limb_model(l: Limb) -> LimbModel
    decreases l,
{
    LimbModel {
        displacement: l.displacement,
        texture_displacement: l.texture_displacement,
        body: Seq::new(
            l.body@.len(),
            |i: int|
                if 0 <= i < l.body@.len() {
                    point_model(l.body@[i])
                } else {
                    arbitrary()
                },
        ),
        name: l.name@,
    }
}

impl View for BodyPoint {
    type V = PointModel;

    open spec fn view(&self) -> PointModel {
        point_model(*self)
    }
}

impl View for Limb {
    type V = LimbModel;

    open spec fn view(&self) -> LimbModel {
        limb_model(*self)
    }
}

impl View for Animal {
    type V = LimbModel;

    closed spec fn view(&self) -> LimbModel {
        limb_model(self.body)
    }
}

/// An optional index as a mathematical integer.
pub open spec fn index_model(index: Option<usize>) -> Option<int> {
    match index {
        Some(i) => Some(i as int),
        None => None,
    }
}

/// The two texture slots of a point, in order.
pub open spec fn slots_model(slots: [TextureSlot; 2]) -> (TextureSlot, TextureSlot) {
    (slots[0], slots[1])
}

/// The models of a vector of points, in order.
pub open spec fn points_model(points: Seq<BodyPoint>) -> Seq<PointModel> {
    Seq::new(points.len(), |i: int| points[i]@)
}

/// The models of a vector of limbs, in order.
pub open spec fn limbs_model(limbs: Seq<Limb>) -> Seq<LimbModel> {
    Seq::new(limbs.len(), |j: int| limbs[j]@)
}

/// The name of every animal's root limb.
pub open spec fn spine_name() -> Seq<char> {
    "spine"@
}

/// The number of body points in a limb and in every limb below it.
pub open spec fn point_count(limb: LimbModel) -> nat
    decreases limb, 1int, 0int,
{
    limb.body.len() + point_count_below(limb, limb.body.len() as int)
}

/// The number of body points in the limbs that grow from the first `upto`
/// points of `limb`.
pub open spec fn point_count_below(limb: LimbModel, upto: int) -> nat
    decreases limb, 0int, upto,
{
    if upto <= 0 || upto > limb.body.len() {
        0
    } else {
        point_count_below(limb, upto - 1) + point_count_of(
            limb.body[upto - 1].limbs,
            limb.body[upto - 1].limbs.len() as int,
        )
    }
}

/// The number of body points in the first `upto` limbs of `limbs` and below them.
pub open spec fn point_count_of(limbs: Seq<LimbModel>, upto: int) -> nat
    decreases limbs, 0int, upto,
{
    if upto <= 0 || upto > limbs.len() {
        0
    } else {
        point_count_of(limbs, upto - 1) + point_count(limbs[upto - 1])
    }
}

impl BodyPoint {
    /// A copy of this point and of every limb that grows from it.
    pub fn duplicate(&self) -> (copy: BodyPoint)
        ensures
            copy@ == self@,
        decreases self, 1int,
    {
        let limbs: Vec<Limb> = duplicate_limbs(&self.limbs);
        let copy = BodyPoint {
            dir: self.dir,
            size: self.size,
            texture_indices: self.texture_indices,
            discontinuous: self.discontinuous,
            limbs,
        };
        assert(copy@.limbs =~= self@.limbs) by {
            assert(limbs_model(copy.limbs@).len() == limbs_model(self.limbs@).len());
            assert forall|j: int| 0 <= j < self.limbs@.len() implies copy@.limbs[j]
                == self@.limbs[j] by {
                assert(limbs_model(copy.limbs@)[j] == limbs_model(self.limbs@)[j]);
            }
        }
        copy
    }
}

/// Copies of `limbs`, in order.
pub fn duplicate_limbs(limbs: &Vec<Limb>) -> (copies: Vec<Limb>)
    ensures
        limbs_model(copies@) == limbs_model(limbs@),
    decreases limbs, 0int,
{
    let mut copies: Vec<Limb> = Vec::new();
    let mut j: usize = 0;
    while j < limbs.len()
        invariant
            j <= limbs@.len(),
            copies@.len() == j,
            forall|k: int| 0 <= k < j ==> (#[trigger] copies@[k])@ == limbs@[k]@,
        decreases limbs@.len() - j,
    {
        let copy: Limb = limbs[j].duplicate();
        copies.push(copy);
        j += 1;
    }
    assert(limbs_model(copies@) =~= limbs_model(limbs@));
    copies
}

impl Limb {
    /// A copy of this limb and of every limb below it.
    pub fn duplicate(&self) -> (copy: Limb)
        ensures
            copy@ == self@,
        decreases self, 2int,
    {
        let mut body: Vec<BodyPoint> = Vec::new();
        let mut i: usize = 0;
        while i < self.body.len()
            invariant
                i <= self.body@.len(),
                body@.len() == i,
                forall|k: int| 0 <= k < i ==> (#[trigger] body@[k])@ == self.body@[k]@,
            decreases self.body@.len() - i,
        {
            let point: BodyPoint = self.body[i].duplicate();
            body.push(point);
            i += 1;
        }
        let copy = Limb {
            displacement: self.displacement,
            texture_displacement: self.texture_displacement,
            body,
            name: self.name.clone(),
        };
        assert(copy@.body =~= self@.body);
        copy
    }
}

/// Whether a limb is the root limb of an animal: it is named `spine`, has no
/// displacement and starts in the first texture column.
pub open spec fn is_root(limb: LimbModel) -> bool {
    &&& limb.name == spine_name()
    &&& limb.displacement == (Vec3 { x: 0, y: 0, z: 0 })
    &&& limb.texture_displacement == 0
}

impl Animal {
    #[verifier::type_invariant]
    spec fn rooted(self) -> bool {
        is_root(limb_model(self.body))
    }

    /// The animal whose spine is `body`: a root limb named `spine`, without
    /// displacement and in the first texture column.
    pub fn new(body: Vec<BodyPoint>) -> (animal: Animal)
        ensures
            animal@.body == points_model(body@),
            animal@.name == spine_name(),
            animal@.displacement == (Vec3 { x: 0, y: 0, z: 0 }),
            animal@.texture_displacement == 0,
    {
        let animal = Animal {
            body: Limb {
                displacement: Vec3 { x: 0, y: 0, z: 0 },
                texture_displacement: 0,
                body,
                name: String::from_str("spine"),
            },
        };
        assert(animal@.body =~= points_model(body@));
        animal
    }

    /// The root limb. It is the root limb of every animal, however the
    /// animal was made.
    pub fn body(&self) -> (limb: &Limb)
        ensures
            limb@ == self@,
            is_root(self@),
    {
        proof {
            use_type_invariant(self);
        }
        &self.body
    }

    /// A copy of this animal.
    pub fn duplicate(&self) -> (copy: Animal)
        ensures
            copy@ == self@,
    {
        proof {
            use_type_invariant(self);
        }
        Animal { body: self.body.duplicate() }
    }
}

} // verus!
