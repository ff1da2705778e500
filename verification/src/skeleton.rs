//! The bone hierarchy of a body tree.
//!
//! Every body point gets one bone. The bones of a limb come first, in segment
//! order; the limbs that grow from it follow, the last point's limbs first
//! and, at one point, the last limb first. A bone's parent is the bone before
//! it in its limb, or, for the first bone of a limb, the bone of the point the
//! limb grows from.

use crate::model::{
    index_model, point_count, point_count_below, point_count_of, Animal, Limb, LimbModel, Vec2,
};
use vstd::prelude::*;
use vstd::string::StringExecFns;

verus! {

/// A bone: its name, its rest translation relative to its parent, and the
/// index of its parent bone.
#[derive(Debug, PartialEq)]
pub struct Bone {
    pub name: String,
    pub rest: Vec2,
    pub parent: Option<usize>,
}

/// Bones in creation order; a bone's index is its position.
#[derive(Debug, PartialEq)]
pub struct Skeleton {
    pub bones: Vec<Bone>,
}

/// What a `Bone` stands for.
pub struct BoneModel {
    pub name: Seq<char>,
    pub rest: Vec2,
    pub parent: Option<int>,
}

impl View for Bone {
    type V = BoneModel;

    open spec fn view(&self) -> BoneModel {
        BoneModel { name: self.name@, rest: self.rest, parent: index_model(self.parent) }
    }
}

impl View for Skeleton {
    type V = Seq<BoneModel>;

    open spec fn view(&self) -> Seq<BoneModel> {
        Seq::new(self.bones@.len(), |i: int| self.bones@[i]@)
    }
}

/// The ten decimal digits.
pub open spec fn digit(d: nat) -> char {
    seq!['0', '1', '2', '3', '4', '5', '6', '7', '8', '9'][d as int]
}

/// `n` written in decimal, without leading zeros.
pub open spec fn decimal(n: nat) -> Seq<char>
    decreases n,
{
    if n < 10 {
        seq![digit(n)]
    } else {
        decimal(n / 10) + seq![digit(n % 10)]
    }
}

/// The name of bone `index` of the limb called `limb_name`: the limb's name,
/// an underscore, and the index in decimal.
pub open spec fn bone_name(limb_name: Seq<char>, index: nat) -> Seq<char> {
    limb_name + seq!['_'] + decimal(index)
}

/// The bones of `limb`'s own points, when the limb hangs from `parent` and its
/// first bone gets index `first`.
pub open spec fn chain_bones(limb: LimbModel, parent: Option<int>, first: int) -> Seq<BoneModel> {
    Seq::new(
        limb.body.len(),
        |i: int|
            BoneModel {
                name: bone_name(limb.name, i as nat),
                rest: if i == 0 {
                    Vec2 { x: limb.displacement.x, y: limb.displacement.y }
                } else {
                    limb.body[i - 1].dir
                },
                parent: if i == 0 {
                    parent
                } else {
                    Some(first + i - 1)
                },
            },
    )
}

/// The bones of `limb` and of every limb below it, when the limb hangs from
/// `parent` and its first bone gets index `first`.
pub open spec fn limb_bones(limb: LimbModel, parent: Option<int>, first: int) -> Seq<BoneModel>
    decreases limb, 1int, 0int,
{
    chain_bones(limb, parent, first) + child_bones(
        limb,
        first,
        first + limb.body.len(),
        limb.body.len() as int,
    )
}

/// The bones of the limbs that grow from the first `upto` points of `limb`,
/// the last of these points first. `chain_first` is the index of the limb's
/// first bone, `first` the index that the first bone listed here gets.
pub open spec fn child_bones(limb: LimbModel, chain_first: int, first: int, upto: int) -> Seq<
    BoneModel,
>
    decreases limb, 0int, upto,
{
    if upto <= 0 || upto > limb.body.len() {
        Seq::empty()
    } else {
        let here = point_limb_bones(
            limb.body[upto - 1].limbs,
            chain_first + upto - 1,
            first,
            limb.body[upto - 1].limbs.len() as int,
        );
        here + child_bones(limb, chain_first, first + here.len(), upto - 1)
    }
}

/// The bones of the first `upto` limbs of `limbs`, the last of them first,
/// all hanging from bone `parent`.
pub open spec fn point_limb_bones(limbs: Seq<LimbModel>, parent: int, first: int, upto: int) -> Seq<
    BoneModel,
>
    decreases limbs, 0int, upto,
{
    if upto <= 0 || upto > limbs.len() {
        Seq::empty()
    } else {
        let here = limb_bones(limbs[upto - 1], Some(parent), first);
        here + point_limb_bones(limbs, parent, first + here.len(), upto - 1)
    }
}

/// The skeleton of a whole body: the bones of its root limb, which hangs
/// from nothing.
pub open spec fn skeleton_of(body: LimbModel) -> Seq<BoneModel> {
    limb_bones(body, None, 0)
}

/// The index of the first bone called `name`.
pub open spec fn first_named(bones: Seq<BoneModel>, name: Seq<char>) -> Option<int>
    decreases bones.len(),
{
    if bones.len() == 0 {
        None
    } else {
        match first_named(bones.drop_last(), name) {
            Some(i) => Some(i),
            None => if bones.last().name == name {
                Some(bones.len() - 1)
            } else {
                None
            },
        }
    }
}

/// `first_named` finds a bone of that name, and no earlier bone has it; it
/// finds none only where no bone has the name.
pub proof fn lemma_first_named(bones: Seq<BoneModel>, name: Seq<char>)
    ensures
        match first_named(bones, name) {
            Some(i) => 0 <= i < bones.len() && bones[i].name == name && forall|k: int|
                0 <= k < i ==> (#[trigger] bones[k]).name != name,
            None => forall|k: int| 0 <= k < bones.len() ==> (#[trigger] bones[k]).name != name,
        },
    decreases bones.len(),
{
    if bones.len() > 0 {
        lemma_first_named(bones.drop_last(), name);
        let front = bones.drop_last();
        assert forall|k: int| 0 <= k < front.len() implies front[k] == bones[k] by {}
        match first_named(front, name) {
            Some(i) => {
                assert(front[i] == bones[i]);
                assert forall|k: int| 0 <= k < i implies (#[trigger] bones[k]).name != name by {
                    assert(front[k] == bones[k]);
                }
            },
            None => {
                assert forall|k: int| 0 <= k < bones.len() - 1 implies (#[trigger] bones[k]).name
                    != name by {
                    assert(front[k] == bones[k]);
                }
            },
        }
    }
}

/// Whether no two bones have one name.
pub open spec fn names_are_unique(bones: Seq<BoneModel>) -> bool {
    forall|a: int, b: int|
        0 <= a < b < bones.len() ==> (#[trigger] bones[a]).name != (#[trigger] bones[b]).name
}

/// Among bones with unique names, a bone is found by its name.
pub proof fn lemma_found_by_name(bones: Seq<BoneModel>, k: int)
    requires
        names_are_unique(bones),
        0 <= k < bones.len(),
    ensures
        first_named(bones, bones[k].name) == Some(k),
{
    lemma_first_named(bones, bones[k].name);
    let found = first_named(bones, bones[k].name);
    assert(found is Some);
    if found.unwrap() != k {
        assert(bones[found.unwrap()].name == bones[k].name);
    }
}

/// A body has exactly one bone for every body point: the bones of a limb and
/// of the limbs below it are as many as their points.
pub proof fn lemma_bone_count(limb: LimbModel, parent: Option<int>, first: int)
    ensures
        limb_bones(limb, parent, first).len() == point_count(limb),
    decreases limb, 1int, 0int,
{
    lemma_child_bone_count(limb, first, first + limb.body.len(), limb.body.len() as int);
}

/// The limbs that grow from the first `upto` points of a limb have one bone
/// for every body point in them.
pub proof fn lemma_child_bone_count(limb: LimbModel, chain_first: int, first: int, upto: int)
    ensures
        child_bones(limb, chain_first, first, upto).len() == point_count_below(limb, upto),
    decreases limb, 0int, upto,
{
    if 0 < upto <= limb.body.len() {
        let limbs = limb.body[upto - 1].limbs;
        lemma_point_limb_bone_count(limbs, chain_first + upto - 1, first, limbs.len() as int);
        let here = point_limb_bones(limbs, chain_first + upto - 1, first, limbs.len() as int);
        lemma_child_bone_count(limb, chain_first, first + here.len(), upto - 1);
    }
}

/// The first `upto` limbs of `limbs` have one bone for every body point in them.
pub proof fn lemma_point_limb_bone_count(limbs: Seq<LimbModel>, parent: int, first: int, upto: int)
    ensures
        point_limb_bones(limbs, parent, first, upto).len() == point_count_of(limbs, upto),
    decreases limbs, 0int, upto,
{
    if 0 < upto <= limbs.len() {
        lemma_bone_count(limbs[upto - 1], Some(parent), first);
        let here = limb_bones(limbs[upto - 1], Some(parent), first);
        lemma_point_limb_bone_count(limbs, parent, first + here.len(), upto - 1);
    }
}

/// Within a limb, each bone after the first hangs from the bone before it, and
/// bone `i` is called by the limb's name and `i`. The first bone hangs from
/// whatever the limb hangs from.
pub proof fn lemma_chain_parents(limb: LimbModel, parent: Option<int>, first: int, i: int)
    requires
        0 <= i < limb.body.len(),
    ensures
        limb_bones(limb, parent, first)[i].name == bone_name(limb.name, i as nat),
        i == 0 ==> limb_bones(limb, parent, first)[i].parent == parent,
        i > 0 ==> limb_bones(limb, parent, first)[i].parent == Some(first + i - 1),
        i > 0 ==> limb_bones(limb, parent, first)[i - 1].name == bone_name(
            limb.name,
            (i - 1) as nat,
        ),
{
}

/// Where the bones of limb `j` at point `i` of `limb` start among
/// `limb_bones(limb, ..)`: after the limb's own bones, after the limbs of all
/// later points, and after the later limbs of point `i`.
pub open spec fn child_offset(limb: LimbModel, i: int, j: int) -> int {
    limb.body.len() + (point_count_below(limb, limb.body.len() as int) - point_count_below(
        limb,
        i + 1,
    )) + (point_count_of(limb.body[i].limbs, limb.body[i].limbs.len() as int) - point_count_of(
        limb.body[i].limbs,
        j + 1,
    ))
}

/// The bones of limb `j` of `limbs` stand together inside
/// `point_limb_bones(limbs, parent, first, upto)`, as that limb's own
/// skeleton hanging from `parent`.
pub proof fn lemma_point_limb_block(
    limbs: Seq<LimbModel>,
    parent: int,
    first: int,
    upto: int,
    j: int,
)
    requires
        0 <= j < upto <= limbs.len(),
    ensures
        ({
            let offset = point_count_of(limbs, upto) - point_count_of(limbs, j + 1);
            let all = point_limb_bones(limbs, parent, first, upto);
            0 <= offset && offset + point_count(limbs[j]) <= all.len() && all.subrange(
                offset,
                offset + point_count(limbs[j]),
            ) == limb_bones(limbs[j], Some(parent), first + offset)
        }),
    decreases upto,
{
    let here = limb_bones(limbs[upto - 1], Some(parent), first);
    let rest = point_limb_bones(limbs, parent, first + here.len(), upto - 1);
    let all = point_limb_bones(limbs, parent, first, upto);
    lemma_bone_count(limbs[upto - 1], Some(parent), first);
    lemma_point_limb_bone_count(limbs, parent, first + here.len(), upto - 1);
    assert(all == here + rest);
    if j == upto - 1 {
        assert(all.subrange(0, here.len() as int) =~= here);
    } else {
        lemma_point_limb_block(limbs, parent, first + here.len(), upto - 1, j);
        let inner = point_count_of(limbs, upto - 1) - point_count_of(limbs, j + 1);
        let size = point_count(limbs[j]) as int;
        assert(all.subrange(here.len() + inner, here.len() + inner + size) =~= rest.subrange(
            inner,
            inner + size,
        ));
    }
}

/// The bones of limb `j` at point `i` stand together inside
/// `child_bones(limb, chain_first, first, upto)`, as that limb's own skeleton
/// hanging from bone `chain_first + i`.
pub proof fn lemma_child_block(
    limb: LimbModel,
    chain_first: int,
    first: int,
    upto: int,
    i: int,
    j: int,
)
    requires
        0 <= i < upto <= limb.body.len(),
        0 <= j < limb.body[i].limbs.len(),
    ensures
        ({
            let limbs = limb.body[i].limbs;
            let offset = (point_count_below(limb, upto) - point_count_below(limb, i + 1)) + (
            point_count_of(limbs, limbs.len() as int) - point_count_of(limbs, j + 1));
            let all = child_bones(limb, chain_first, first, upto);
            0 <= offset && offset + point_count(limbs[j]) <= all.len() && all.subrange(
                offset,
                offset + point_count(limbs[j]),
            ) == limb_bones(limbs[j], Some(chain_first + i), first + offset)
        }),
    decreases upto,
{
    let top = limb.body[upto - 1].limbs;
    let here = point_limb_bones(top, chain_first + upto - 1, first, top.len() as int);
    let rest = child_bones(limb, chain_first, first + here.len(), upto - 1);
    let all = child_bones(limb, chain_first, first, upto);
    lemma_point_limb_bone_count(top, chain_first + upto - 1, first, top.len() as int);
    lemma_child_bone_count(limb, chain_first, first + here.len(), upto - 1);
    assert(all == here + rest);
    let limbs = limb.body[i].limbs;
    let size = point_count(limbs[j]) as int;
    if i == upto - 1 {
        lemma_point_limb_block(top, chain_first + i, first, top.len() as int, j);
        let offset = point_count_of(top, top.len() as int) - point_count_of(top, j + 1);
        assert(all.subrange(offset, offset + size) =~= here.subrange(offset, offset + size));
    } else {
        lemma_child_block(limb, chain_first, first + here.len(), upto - 1, i, j);
        let inner = (point_count_below(limb, upto - 1) - point_count_below(limb, i + 1)) + (
        point_count_of(limbs, limbs.len() as int) - point_count_of(limbs, j + 1));
        assert(all.subrange(here.len() + inner, here.len() + inner + size) =~= rest.subrange(
            inner,
            inner + size,
        ));
    }
}

/// The first bone of a limb hangs from the bone of the point it grows from.
/// Limb `j` at point `i` of `limb` has its bones together, starting at
/// `child_offset`; they are that limb's own skeleton, hanging from bone `i` of
/// `limb`, which is called by `limb`'s name and `i`. As the block is again the
/// skeleton of a limb, the same holds of the limbs below it, at every depth.
pub proof fn lemma_limb_root_parent(
    limb: LimbModel,
    parent: Option<int>,
    first: int,
    i: int,
    j: int,
)
    requires
        0 <= i < limb.body.len(),
        0 <= j < limb.body[i].limbs.len(),
        limb.body[i].limbs[j].body.len() > 0,
    ensures
        ({
            let child = limb.body[i].limbs[j];
            let offset = child_offset(limb, i, j);
            let all = limb_bones(limb, parent, first);
            &&& limb.body.len() <= offset
            &&& offset + point_count(child) <= all.len()
            &&& all.subrange(offset, offset + point_count(child)) == limb_bones(
                child,
                Some(first + i),
                first + offset,
            )
            &&& all[offset].name == bone_name(child.name, 0)
            &&& all[offset].parent == Some(first + i)
            &&& all[i].name == bone_name(limb.name, i as nat)
        }),
{
    let n = limb.body.len() as int;
    let child = limb.body[i].limbs[j];
    let chain = chain_bones(limb, parent, first);
    let kids = child_bones(limb, first, first + n, n);
    let all = limb_bones(limb, parent, first);
    lemma_child_block(limb, first, first + n, n, i, j);
    let inner = child_offset(limb, i, j) - n;
    let size = point_count(child) as int;
    assert(all.subrange(n + inner, n + inner + size) =~= kids.subrange(inner, inner + size));
    let block = limb_bones(child, Some(first + i), first + n + inner);
    assert(size >= 1);
    assert(all[n + inner] == all.subrange(n + inner, n + inner + size)[0]);
    assert(block[0] == chain_bones(child, Some(first + i), first + n + inner)[0]);
}

/// The digit `d` as text.
fn digit_text(d: usize) -> (text: &'static str)
    requires
        d < 10,
    ensures
        text@ == seq![digit(d as nat)],
{
    proof {
        reveal_strlit("0");
        reveal_strlit("1");
        reveal_strlit("2");
        reveal_strlit("3");
        reveal_strlit("4");
        reveal_strlit("5");
        reveal_strlit("6");
        reveal_strlit("7");
        reveal_strlit("8");
        reveal_strlit("9");
    }
    let text: &'static str = if d == 0 {
        "0"
    } else if d == 1 {
        "1"
    } else if d == 2 {
        "2"
    } else if d == 3 {
        "3"
    } else if d == 4 {
        "4"
    } else if d == 5 {
        "5"
    } else if d == 6 {
        "6"
    } else if d == 7 {
        "7"
    } else if d == 8 {
        "8"
    } else {
        "9"
    };
    assert(text@ =~= seq![digit(d as nat)]);
    text
}

/// Appends `n` in decimal to `text`.
fn append_decimal(text: &mut String, n: usize)
    ensures
        final(text)@ == old(text)@ + decimal(n as nat),
    decreases n,
{
    if n >= 10 {
        append_decimal(text, n / 10);
    }
    text.append(digit_text(n % 10));
    assert(text@ =~= old(text)@ + decimal(n as nat));
}

impl Skeleton {
    /// A skeleton without bones.
    pub fn new() -> (skeleton: Skeleton)
        ensures
            skeleton@ == Seq::<BoneModel>::empty(),
    {
        let skeleton = Skeleton { bones: Vec::new() };
        assert(skeleton@ =~= Seq::<BoneModel>::empty());
        skeleton
    }

    /// The number of bones.
    pub fn get_bone_count(&self) -> (count: usize)
        ensures
            count == self@.len(),
    {
        self.bones.len()
    }

    /// Appends a bone and returns its index.
    pub fn add_bone(&mut self, name: String, rest: Vec2, parent: Option<usize>) -> (index: usize)
        ensures
            index == old(self)@.len(),
            final(self)@ == old(self)@.push(
                BoneModel { name: name@, rest, parent: index_model(parent) },
            ),
    {
        let index: usize = self.bones.len();
        self.bones.push(Bone { name, rest, parent });
        assert(self@ =~= old(self)@.push(
            BoneModel { name: name@, rest, parent: index_model(parent) },
        ));
        index
    }

    /// Whether no two bones have one name.
    pub fn has_unique_names(&self) -> (unique: bool)
        ensures
            unique == names_are_unique(self@),
    {
        let n: usize = self.bones.len();
        let mut b: usize = 0;
        while b < n
            invariant
                b <= n,
                n == self.bones@.len(),
                forall|i: int, j: int|
                    0 <= i < j < b ==> (#[trigger] self@[i]).name != (#[trigger] self@[j]).name,
            decreases n - b,
        {
            let mut a: usize = 0;
            while a < b
                invariant
                    a <= b < n,
                    n == self.bones@.len(),
                    forall|i: int| 0 <= i < a ==> (#[trigger] self@[i]).name != self@[b as int].name,
                decreases b - a,
            {
                if self.bones[a].name == self.bones[b].name {
                    assert(self@[a as int].name == self@[b as int].name);
                    return false;
                }
                a += 1;
            }
            b += 1;
        }
        true
    }

    /// The index of the first bone called `name`, if there is one.
    pub fn get_bone_id(&self, name: &str) -> (id: Option<usize>)
        ensures
            index_model(id) == first_named(self@, name@),
    {
        let wanted: String = String::from_str(name);
        let mut i: usize = 0;
        while i < self.bones.len()
            invariant
                i <= self.bones@.len(),
                wanted@ == name@,
                forall|k: int| 0 <= k < i ==> (#[trigger] self@[k]).name != name@,
            decreases self.bones@.len() - i,
        {
            if self.bones[i].name == wanted {
                proof {
                    lemma_first_named(self@, name@);
                    assert(self@[i as int].name == name@);
                }
                return Some(i);
            }
            i += 1;
        }
        proof {
            lemma_first_named(self@, name@);
        }
        None
    }
}

/// The name of bone `index` of the limb called `limb_name`.
pub fn make_bone_name(limb_name: &str, index: usize) -> (name: String)
    ensures
        name@ == bone_name(limb_name@, index as nat),
{
    let mut name: String = String::from_str(limb_name);
    proof {
        reveal_strlit("_");
    }
    name.append("_");
    assert(name@ =~= limb_name@ + seq!['_']);
    append_decimal(&mut name, index);
    name
}

/// Appends the bones of `limb`'s own points to `skeleton`; the first of them
/// hangs from `parent`.
fn push_chain(limb: &Limb, parent: Option<usize>, skeleton: &mut Skeleton)
    ensures
        final(skeleton)@ == old(skeleton)@ + chain_bones(
            limb@,
            index_model(parent),
            old(skeleton)@.len() as int,
        ),
{
    let first: usize = skeleton.bones.len();
    let mut last_dir: Vec2 = Vec2 { x: limb.displacement.x, y: limb.displacement.y };
    let mut i: usize = 0;
    while i < limb.body.len()
        invariant
            i <= limb.body@.len(),
            first == old(skeleton)@.len(),
            skeleton@.len() == first + i,
            skeleton@ == old(skeleton)@ + chain_bones(
                limb@,
                index_model(parent),
                first as int,
            ).subrange(0, i as int),
            last_dir == (if i == 0 {
                Vec2 { x: limb@.displacement.x, y: limb@.displacement.y }
            } else {
                limb@.body[i - 1].dir
            }),
        decreases limb.body@.len() - i,
    {
        let name: String = make_bone_name(limb.name.as_str(), i);
        let count: usize = skeleton.get_bone_count();
        let bone_parent: Option<usize> = if i == 0 {
            parent
        } else {
            Some(count - 1)
        };
        let ghost before = skeleton@;
        skeleton.add_bone(name, last_dir, bone_parent);
        last_dir = limb.body[i].dir;
        i += 1;
        proof {
            let chain = chain_bones(limb@, index_model(parent), first as int);
            assert(chain.subrange(0, i as int) =~= chain.subrange(0, i - 1).push(chain[i - 1]));
            assert(skeleton@ =~= old(skeleton)@ + chain.subrange(0, i as int));
        }
    }
    proof {
        let chain = chain_bones(limb@, index_model(parent), first as int);
        assert(chain.subrange(0, i as int) =~= chain);
    }
}

/// Appends to `skeleton` the bones of `limb` and of every limb below it; the
/// first bone of `limb` hangs from `parent`.
fn push_limb(limb: &Limb, parent: Option<usize>, skeleton: &mut Skeleton)
    ensures
        final(skeleton)@ == old(skeleton)@ + limb_bones(
            limb@,
            index_model(parent),
            old(skeleton)@.len() as int,
        ),
    decreases limb,
{
    let chain_first: usize = skeleton.bones.len();
    push_chain(limb, parent, skeleton);
    let ghost chain = chain_bones(limb@, index_model(parent), chain_first as int);
    let ghost n = limb@.body.len() as int;
    let mut i: usize = limb.body.len();
    while i > 0
        invariant
            i <= limb.body@.len(),
            n == limb@.body.len(),
            chain_first == old(skeleton)@.len(),
            chain == chain_bones(limb@, index_model(parent), chain_first as int),
            skeleton@.len() >= chain_first + n,
            skeleton@ + child_bones(limb@, chain_first as int, skeleton@.len() as int, i as int)
                == old(skeleton)@ + chain + child_bones(
                limb@,
                chain_first as int,
                chain_first + n,
                n,
            ),
        decreases i,
    {
        i -= 1;
        let point = &limb.body[i];
        let ghost limbs = limb@.body[i as int].limbs;
        let ghost at_point = skeleton@;
        let count: usize = skeleton.get_bone_count();
        let mut j: usize = point.limbs.len();
        while j > 0
            invariant
                j <= point.limbs@.len(),
                i < limb.body@.len(),
                *point == limb.body@[i as int],
                limbs == limb@.body[i as int].limbs,
                limbs.len() == point.limbs@.len(),
                chain_first + i < usize::MAX,
                skeleton@.len() >= chain_first + n,
                n == limb@.body.len(),
                skeleton@ + point_limb_bones(
                    limbs,
                    chain_first + i,
                    skeleton@.len() as int,
                    j as int,
                ) == at_point + point_limb_bones(
                    limbs,
                    chain_first + i,
                    at_point.len() as int,
                    limbs.len() as int,
                ),
            decreases j,
        {
            j -= 1;
            let ghost before = skeleton@;
            push_limb(&point.limbs[j], Some(chain_first + i), skeleton);
            proof {
                assert(point.limbs@[j as int]@ == limbs[j as int]);
                let here = limb_bones(limbs[j as int], Some(chain_first + i), before.len() as int);
                assert(skeleton@ == before + here);
                let rest = point_limb_bones(
                    limbs,
                    chain_first + i,
                    skeleton@.len() as int,
                    j as int,
                );
                assert(before + (here + rest) =~= (before + here) + rest);
            }
        }
        proof {
            let here = point_limb_bones(
                limbs,
                chain_first + i,
                at_point.len() as int,
                limbs.len() as int,
            );
            assert(skeleton@ =~= at_point + here);
            let rest = child_bones(limb@, chain_first as int, skeleton@.len() as int, i as int);
            assert(at_point + (here + rest) =~= (at_point + here) + rest);
        }
    }
    proof {
        assert(skeleton@ + Seq::<BoneModel>::empty() =~= skeleton@);
        let kids = child_bones(limb@, chain_first as int, chain_first + n, n);
        assert(old(skeleton)@ + chain + kids =~= old(skeleton)@ + (chain + kids));
    }
}

/// Appends the bones of `limb`'s own points to `skeleton`, in segment order.
/// The first bone hangs from the first bone called `parent_bone_name`, or from
/// nothing where no name is given; every later bone hangs from the bone
/// before it. Limbs that grow from `limb` are left out.
pub fn create_skeleton_limb(limb: &Limb, skeleton: &mut Skeleton, parent_bone_name: Option<String>)
    requires
        parent_bone_name matches Some(name) ==> first_named(old(skeleton)@, name@) is Some,
    ensures
        final(skeleton)@ == old(skeleton)@ + chain_bones(
            limb@,
            match parent_bone_name {
                Some(name) => first_named(old(skeleton)@, name@),
                None => None,
            },
            old(skeleton)@.len() as int,
        ),
{
    let parent: Option<usize> = match &parent_bone_name {
        Some(name) => skeleton.get_bone_id(name.as_str()),
        None => None,
    };
    push_chain(limb, parent, skeleton);
}

/// The skeleton of `animal`: one bone for every body point.
pub fn create_animal_skeleton(animal: &Animal) -> (skeleton: Skeleton)
    ensures
        skeleton@ == skeleton_of(animal@),
        skeleton@.len() == point_count(animal@),
{
    let mut skeleton: Skeleton = Skeleton::new();
    push_limb(animal.body(), None, &mut skeleton);
    proof {
        assert(Seq::<BoneModel>::empty() + skeleton_of(animal@) =~= skeleton_of(animal@));
        lemma_bone_count(animal@, None, 0);
    }
    skeleton
}

} // verus!
