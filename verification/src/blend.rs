//! Blending several bodies into one along per-segment weight curves.
//!
//! Each input is a body and a weight curve. Segment `i` of the blend is the
//! weighted mean of segment `i` of every body that has one. Its limbs come
//! whole from the heaviest input that has limbs there, and its textures are
//! the heaviest texture entry and a second entry chosen so that neighbouring
//! segments share a texture where they can.

use crate::fixed::{lemma_trunc_div_bounds, quotient, trunc_div, ONE};
use crate::gradient::BodyGradient;
use crate::model::{
    duplicate_limbs, index_model, limbs_model, slots_model, spine_name, Animal, BodyPoint, Limb,
    PointModel, TextureSlot, Vec2, Vec3,
};
use vstd::prelude::*;

verus! {

/// One input of a blend: the points of a body's spine and its weight curve.
pub struct BlendInput {
    pub body: Seq<PointModel>,
    pub gradient: Seq<u32>,
}

/// A texture cell and the weight it enters a blended segment with: the cell's
/// own weight times the weight of the body it comes from.
pub type Entry = (usize, u64);

/// The inputs that a slice of animals and curves stands for.
pub open spec fn blend_inputs(animals: Seq<(Animal, BodyGradient)>) -> Seq<BlendInput> {
    Seq::new(
        animals.len(),
        |k: int| BlendInput { body: animals[k].0@.body, gradient: animals[k].1@ },
    )
}

/// The greatest curve length among the first `k` inputs.
pub open spec fn longest_gradient(inputs: Seq<BlendInput>, k: int) -> nat
    decreases k,
{
    if k <= 0 {
        0
    } else {
        let before = longest_gradient(inputs, k - 1);
        if inputs[k - 1].gradient.len() > before {
            inputs[k - 1].gradient.len()
        } else {
            before
        }
    }
}

/// The number of segments of the blend: the length of the longest curve.
pub open spec fn blend_len(inputs: Seq<BlendInput>) -> nat {
    longest_gradient(inputs, inputs.len() as int)
}

/// Whether the input has a segment `i`.
pub open spec fn contributes(input: BlendInput, i: int) -> bool {
    0 <= i < input.body.len()
}

/// The weight of the input at segment `i`: zero past the end of its curve.
pub open spec fn weight_at(input: BlendInput, i: int) -> u32 {
    if 0 <= i < input.gradient.len() {
        input.gradient[i]
    } else {
        0
    }
}

/// The sum of the weights at segment `i` of those among the first `k` inputs
/// that have such a segment.
pub open spec fn weight_sum(inputs: Seq<BlendInput>, i: int, k: int) -> int
    decreases k,
{
    if k <= 0 {
        0
    } else if contributes(inputs[k - 1], i) {
        weight_sum(inputs, i, k - 1) + weight_at(inputs[k - 1], i)
    } else {
        weight_sum(inputs, i, k - 1)
    }
}

/// The weighted sum of `dir.x` at segment `i` over the first `k` inputs.
pub open spec fn dir_x_sum(inputs: Seq<BlendInput>, i: int, k: int) -> int
    decreases k,
{
    if k <= 0 {
        0
    } else if contributes(inputs[k - 1], i) {
        dir_x_sum(inputs, i, k - 1) + inputs[k - 1].body[i].dir.x * weight_at(inputs[k - 1], i)
    } else {
        dir_x_sum(inputs, i, k - 1)
    }
}

/// The weighted sum of `dir.y` at segment `i` over the first `k` inputs.
pub open spec fn dir_y_sum(inputs: Seq<BlendInput>, i: int, k: int) -> int
    decreases k,
{
    if k <= 0 {
        0
    } else if contributes(inputs[k - 1], i) {
        dir_y_sum(inputs, i, k - 1) + inputs[k - 1].body[i].dir.y * weight_at(inputs[k - 1], i)
    } else {
        dir_y_sum(inputs, i, k - 1)
    }
}

/// The weighted sum of `size` at segment `i` over the first `k` inputs.
pub open spec fn size_sum(inputs: Seq<BlendInput>, i: int, k: int) -> int
    decreases k,
{
    if k <= 0 {
        0
    } else if contributes(inputs[k - 1], i) {
        size_sum(inputs, i, k - 1) + inputs[k - 1].body[i].size * weight_at(inputs[k - 1], i)
    } else {
        size_sum(inputs, i, k - 1)
    }
}

/// Whether segment `i` is a seam in any of the first `k` inputs.
pub open spec fn any_discontinuous(inputs: Seq<BlendInput>, i: int, k: int) -> bool
    decreases k,
{
    if k <= 0 {
        false
    } else {
        any_discontinuous(inputs, i, k - 1) || (contributes(inputs[k - 1], i) && inputs[k
            - 1].body[i].discontinuous)
    }
}

/// Whether the input has limbs growing from its segment `i`.
pub open spec fn has_limbs(input: BlendInput, i: int) -> bool {
    contributes(input, i) && input.body[i].limbs.len() > 0
}

/// Among the first `k` inputs, the one whose limbs the blend takes at
/// segment `i`: the first of the heaviest inputs that have limbs there.
pub open spec fn limb_source(inputs: Seq<BlendInput>, i: int, k: int) -> Option<int>
    decreases k,
{
    if k <= 0 {
        None
    } else {
        let before = limb_source(inputs, i, k - 1);
        if has_limbs(inputs[k - 1], i) && (before is None || weight_at(inputs[k - 1], i)
            > weight_at(inputs[before.unwrap()], i)) {
            Some(k - 1)
        } else {
            before
        }
    }
}

/// The weight a texture cell of weight `w` enters the blend with, from a body
/// of weight `g`.
pub open spec fn entry_weight(w: u32, g: u32) -> u64 {
    (w as int * g as int) as u64
}

/// The entries that one point brings: its populated slots, in slot order,
/// each weighted by the body's weight `g`.
pub open spec fn point_entries(textures: (TextureSlot, TextureSlot), g: u32) -> Seq<Entry> {
    let first: Seq<Entry> = match textures.0 {
        Some((id, w)) => seq![(id, entry_weight(w, g))],
        None => Seq::empty(),
    };
    let second: Seq<Entry> = match textures.1 {
        Some((id, w)) => seq![(id, entry_weight(w, g))],
        None => Seq::empty(),
    };
    first + second
}

/// The entries that the first `k` inputs bring to segment `i`, in input order.
pub open spec fn entries(inputs: Seq<BlendInput>, i: int, k: int) -> Seq<Entry>
    decreases k,
{
    if k <= 0 {
        Seq::empty()
    } else if contributes(inputs[k - 1], i) {
        entries(inputs, i, k - 1) + point_entries(
            inputs[k - 1].body[i].textures,
            weight_at(inputs[k - 1], i),
        )
    } else {
        entries(inputs, i, k - 1)
    }
}

/// Whether one of the two slots holds cell `id`.
pub open spec fn has_id(slots: (TextureSlot, TextureSlot), id: usize) -> bool {
    (slots.0 matches Some((a, _)) && a == id) || (slots.1 matches Some((b, _)) && b == id)
}

/// Whether entry `j` may be picked: it is not the entry to skip, and, where
/// `among` is given, its cell is in one of those slots.
pub open spec fn eligible(
    entries: Seq<Entry>,
    j: int,
    skip: Option<int>,
    among: Option<(TextureSlot, TextureSlot)>,
) -> bool {
    skip != Some(j) && match among {
        Some(slots) => has_id(slots, entries[j].0),
        None => true,
    }
}

/// The heaviest eligible entry among the first `n`; of several equally heavy
/// ones, the last.
pub open spec fn pick(
    entries: Seq<Entry>,
    skip: Option<int>,
    among: Option<(TextureSlot, TextureSlot)>,
    n: int,
) -> Option<int>
    decreases n,
{
    if n <= 0 {
        None
    } else {
        let before = pick(entries, skip, among, n - 1);
        if eligible(entries, n - 1, skip, among) && (before is None || entries[n - 1].1
            >= entries[before.unwrap()].1) {
            Some(n - 1)
        } else {
            before
        }
    }
}

/// The entry of the first texture slot: the heaviest of all.
pub open spec fn primary(entries: Seq<Entry>) -> Option<int> {
    pick(entries, None, None, entries.len() as int)
}

/// The entry of the second texture slot, given the slots of the segment
/// before (`None` at the first segment).
///
/// At the first segment it is the second heaviest entry. After that, where
/// the segment before does not show the primary's cell, it is the heaviest
/// entry whose cell the segment before does show; and where it does show the
/// primary's cell, it is the second heaviest entry if the segment before
/// shows that cell too, and nothing otherwise.
pub open spec fn secondary(entries: Seq<Entry>, prev: Option<(TextureSlot, TextureSlot)>) -> Option<
    int,
> {
    let first = primary(entries);
    let runner_up = pick(entries, first, None, entries.len() as int);
    match prev {
        None => runner_up,
        Some(slots) => if first is Some && !has_id(slots, entries[first.unwrap()].0) {
            pick(entries, None, Some(slots), entries.len() as int)
        } else {
            match runner_up {
                Some(s) => if has_id(slots, entries[s].0) {
                    Some(s)
                } else {
                    None
                },
                None => None,
            }
        },
    }
}

/// The sum of the weights of the two chosen entries.
pub open spec fn texture_total(entries: Seq<Entry>, prev: Option<(TextureSlot, TextureSlot)>) -> int {
    entries[primary(entries).unwrap()].1 + match secondary(entries, prev) {
        Some(s) => entries[s].1 as int,
        None => 0,
    }
}

/// The weight of the first slot after scaling the two chosen weights to sum
/// to `ONE`.
pub open spec fn primary_share(
    entries: Seq<Entry>,
    prev: Option<(TextureSlot, TextureSlot)>,
) -> int {
    trunc_div(entries[primary(entries).unwrap()].1 * ONE, texture_total(entries, prev))
}

/// The texture slots of a blended segment: the two chosen cells, with weights
/// that sum to `ONE`. The second slot gets what the first leaves.
pub open spec fn chosen_textures(
    entries: Seq<Entry>,
    prev: Option<(TextureSlot, TextureSlot)>,
) -> (TextureSlot, TextureSlot) {
    let share = primary_share(entries, prev);
    (
        Some((entries[primary(entries).unwrap()].0, share as u32)),
        match secondary(entries, prev) {
            Some(s) => Some((entries[s].0, (ONE - share) as u32)),
            None => None,
        },
    )
}

/// Whether segment `i` can be blended: the weights of the bodies that have
/// such a segment do not sum to zero, and some texture entry has weight.
pub open spec fn point_blendable(inputs: Seq<BlendInput>, i: int) -> bool {
    let all = entries(inputs, i, inputs.len() as int);
    &&& weight_sum(inputs, i, inputs.len() as int) > 0
    &&& primary(all) matches Some(p)
    &&& all[p].1 > 0
}

/// Whether the inputs can be blended: there is at least one, and every
/// segment of the blend can be blended.
pub open spec fn blendable(inputs: Seq<BlendInput>) -> bool {
    &&& inputs.len() > 0
    &&& forall|i: int| 0 <= i < blend_len(inputs) ==> point_blendable(inputs, i)
}

/// Segment `i` of the blend, given the texture slots of the segment before.
pub open spec fn blended_point_after(
    inputs: Seq<BlendInput>,
    i: int,
    prev: Option<(TextureSlot, TextureSlot)>,
) -> PointModel {
    let n = inputs.len() as int;
    let total = weight_sum(inputs, i, n);
    PointModel {
        dir: Vec2 {
            x: trunc_div(dir_x_sum(inputs, i, n), total) as i32,
            y: trunc_div(dir_y_sum(inputs, i, n), total) as i32,
        },
        size: trunc_div(size_sum(inputs, i, n), total) as i32,
        textures: chosen_textures(entries(inputs, i, n), prev),
        discontinuous: any_discontinuous(inputs, i, n),
        limbs: match limb_source(inputs, i, n) {
            Some(k) => inputs[k].body[i].limbs,
            None => Seq::empty(),
        },
    }
}

/// The texture slots of the segment before segment `i` of the blend.
pub open spec fn slots_before(inputs: Seq<BlendInput>, i: int) -> Option<
    (TextureSlot, TextureSlot),
>
    decreases i,
{
    if i <= 0 {
        None
    } else {
        Some(
            chosen_textures(
                entries(inputs, i - 1, inputs.len() as int),
                slots_before(inputs, i - 1),
            ),
        )
    }
}

/// Segment `i` of the blend.
pub open spec fn blended_point(inputs: Seq<BlendInput>, i: int) -> PointModel {
    blended_point_after(inputs, i, slots_before(inputs, i))
}

/// The spine of the blend.
pub open spec fn blended_body(inputs: Seq<BlendInput>) -> Seq<PointModel> {
    Seq::new(blend_len(inputs), |i: int| blended_point(inputs, i))
}

/// What `limb_source` names: an input with limbs at the segment that no
/// input with limbs there outweighs, and the first of those of its weight;
/// nothing only where no input has limbs there.
pub proof fn lemma_limb_source(inputs: Seq<BlendInput>, i: int, k: int)
    requires
        0 <= k <= inputs.len(),
    ensures
        match limb_source(inputs, i, k) {
            Some(s) => {
                &&& 0 <= s < k
                &&& has_limbs(inputs[s], i)
                &&& forall|j: int|
                    0 <= j < k && has_limbs(#[trigger] inputs[j], i) ==> weight_at(inputs[j], i)
                        <= weight_at(inputs[s], i)
                &&& forall|j: int|
                    0 <= j < s && has_limbs(#[trigger] inputs[j], i) ==> weight_at(inputs[j], i)
                        < weight_at(inputs[s], i)
            },
            None => forall|j: int| 0 <= j < k ==> !has_limbs(#[trigger] inputs[j], i),
        },
    decreases k,
{
    if k > 0 {
        lemma_limb_source(inputs, i, k - 1);
    }
}

/// The blend is as long as the longest curve: no curve among the first `k`
/// is longer than `longest_gradient`, and one of them is that long.
pub proof fn lemma_longest_gradient(inputs: Seq<BlendInput>, k: int)
    requires
        0 <= k <= inputs.len(),
    ensures
        forall|j: int| 0 <= j < k ==> (#[trigger] inputs[j]).gradient.len() <= longest_gradient(
            inputs,
            k,
        ),
        k > 0 ==> exists|j: int|
            0 <= j < k && (#[trigger] inputs[j]).gradient.len() == longest_gradient(inputs, k),
        k == 0 ==> longest_gradient(inputs, k) == 0,
    decreases k,
{
    if k > 0 {
        lemma_longest_gradient(inputs, k - 1);
        if k > 1 {
            let j = choose|j: int|
                0 <= j < k - 1 && (#[trigger] inputs[j]).gradient.len() == longest_gradient(
                    inputs,
                    k - 1,
                );
            if inputs[k - 1].gradient.len() > longest_gradient(inputs, k - 1) {
                assert(inputs[k - 1].gradient.len() == longest_gradient(inputs, k));
            } else {
                assert(inputs[j].gradient.len() == longest_gradient(inputs, k));
            }
        } else {
            assert(inputs[0].gradient.len() == longest_gradient(inputs, k));
        }
    }
}

/// What `pick` picks: an eligible entry that no eligible entry outweighs and
/// that no later eligible entry equals in weight; nothing only where no entry
/// is eligible.
pub proof fn lemma_pick(
    entries: Seq<Entry>,
    skip: Option<int>,
    among: Option<(TextureSlot, TextureSlot)>,
    n: int,
)
    requires
        0 <= n <= entries.len(),
    ensures
        match pick(entries, skip, among, n) {
            Some(r) => {
                &&& 0 <= r < n
                &&& eligible(entries, r, skip, among)
                &&& forall|j: int|
                    0 <= j < n && #[trigger] eligible(entries, j, skip, among) ==> entries[j].1
                        <= entries[r].1
                &&& forall|j: int|
                    r < j < n && #[trigger] eligible(entries, j, skip, among) ==> entries[j].1
                        < entries[r].1
            },
            None => forall|j: int| 0 <= j < n ==> !#[trigger] eligible(entries, j, skip, among),
        },
    decreases n,
{
    if n > 0 {
        lemma_pick(entries, skip, among, n - 1);
    }
}

/// The chosen texture weights of a segment sum to `ONE`, and the first is
/// not less than the second's share allows: both lie between zero and `ONE`.
pub proof fn lemma_texture_weights(entries: Seq<Entry>, prev: Option<(TextureSlot, TextureSlot)>)
    requires
        primary(entries) matches Some(p) && entries[p].1 > 0,
    ensures
        0 <= primary_share(entries, prev) <= ONE,
        secondary(entries, prev) is None ==> primary_share(entries, prev) == ONE,
        chosen_textures(entries, prev).0 matches Some((_, w1)) && match chosen_textures(
            entries,
            prev,
        ).1 {
            Some((_, w2)) => w1 + w2 == ONE,
            None => w1 == ONE,
        },
{
    let p = primary(entries).unwrap();
    let total = texture_total(entries, prev);
    let w = entries[p].1 as int;
    assert(0 < w <= total);
    assert(0 <= w * ONE <= ONE * total) by (nonlinear_arith)
        requires
            0 < w <= total,
    ;
    lemma_trunc_div_bounds(w * ONE, total, 0, ONE as int);
    if secondary(entries, prev) is None {
        crate::fixed::lemma_trunc_div_exact(ONE as int, total);
        assert(w * ONE == ONE * total) by (nonlinear_arith)
            requires
                w == total,
        ;
    }
}

/// The two inputs of a blend of two one-segment bodies `a` and `b` with
/// weights `w` and `ONE - w`.
pub open spec fn pair_inputs(a: PointModel, b: PointModel, w: u32) -> Seq<BlendInput> {
    seq![
        BlendInput { body: seq![a], gradient: seq![w] },
        BlendInput { body: seq![b], gradient: seq![(ONE - w) as u32] },
    ]
}

/// Blending two one-segment bodies with weights `w` and `ONE - w` gives one
/// segment whose direction and size are the linear interpolation of theirs,
/// `(a * w + b * (ONE - w)) / ONE`. Where the two bodies agree in a value, the
/// blend has that very value.
pub proof fn lemma_blend_pair_interpolates(a: PointModel, b: PointModel, w: u32)
    requires
        w <= ONE,
    ensures
        blend_len(pair_inputs(a, b, w)) == 1,
        blended_point(pair_inputs(a, b, w), 0).dir.x == trunc_div(
            a.dir.x * w + b.dir.x * (ONE - w),
            ONE as int,
        ),
        blended_point(pair_inputs(a, b, w), 0).dir.y == trunc_div(
            a.dir.y * w + b.dir.y * (ONE - w),
            ONE as int,
        ),
        blended_point(pair_inputs(a, b, w), 0).size == trunc_div(
            a.size * w + b.size * (ONE - w),
            ONE as int,
        ),
        a.dir == b.dir ==> blended_point(pair_inputs(a, b, w), 0).dir == a.dir,
        a.size == b.size ==> blended_point(pair_inputs(a, b, w), 0).size == a.size,
{
    let inputs = pair_inputs(a, b, w);
    let v: int = ONE - w;
    reveal_with_fuel(longest_gradient, 3);
    reveal_with_fuel(weight_sum, 3);
    reveal_with_fuel(dir_x_sum, 3);
    reveal_with_fuel(dir_y_sum, 3);
    reveal_with_fuel(size_sum, 3);
    assert(inputs[0].body[0] == a && inputs[1].body[0] == b);
    assert(weight_at(inputs[0], 0) == w && weight_at(inputs[1], 0) == v);
    assert(weight_sum(inputs, 0, 2) == ONE);
    assert(dir_x_sum(inputs, 0, 2) == a.dir.x * w + b.dir.x * v);
    assert(dir_y_sum(inputs, 0, 2) == a.dir.y * w + b.dir.y * v);
    assert(size_sum(inputs, 0, 2) == a.size * w + b.size * v);
    lemma_mean_in_range(a.dir.x as int, b.dir.x as int, w as int);
    lemma_mean_in_range(a.dir.y as int, b.dir.y as int, w as int);
    lemma_mean_in_range(a.size as int, b.size as int, w as int);
}

/// The interpolation of two 32-bit values is a 32-bit value, and that of a
/// value with itself is the value.
proof fn lemma_mean_in_range(a: int, b: int, w: int)
    requires
        -0x8000_0000 <= a <= 0x7fff_ffff,
        -0x8000_0000 <= b <= 0x7fff_ffff,
        0 <= w <= ONE,
    ensures
        -0x8000_0000 <= trunc_div(a * w + b * (ONE - w), ONE as int) <= 0x7fff_ffff,
        a == b ==> trunc_div(a * w + b * (ONE - w), ONE as int) == a,
{
    let v: int = ONE - w;
    assert(-0x8000_0000 * w <= a * w <= 0x7fff_ffff * w) by (nonlinear_arith)
        requires
            -0x8000_0000 <= a <= 0x7fff_ffff,
            0 <= w,
    ;
    assert(-0x8000_0000 * v <= b * v <= 0x7fff_ffff * v) by (nonlinear_arith)
        requires
            -0x8000_0000 <= b <= 0x7fff_ffff,
            0 <= v,
    ;
    lemma_trunc_div_bounds(a * w + b * v, ONE as int, -0x8000_0000, 0x7fff_ffff);
    if a == b {
        assert(a * w + a * v == a * ONE) by (nonlinear_arith)
            requires
                v == ONE - w,
        ;
        crate::fixed::lemma_trunc_div_exact(a, ONE as int);
    }
}

/// The texture weights of every segment of a blend sum to `ONE`.
pub proof fn lemma_blend_texture_weights(inputs: Seq<BlendInput>, i: int)
    requires
        point_blendable(inputs, i),
    ensures
        blended_point(inputs, i).textures.0 matches Some((_, w1)) && match blended_point(
            inputs,
            i,
        ).textures.1 {
            Some((_, w2)) => w1 + w2 == ONE,
            None => w1 == ONE,
        },
{
    lemma_texture_weights(entries(inputs, i, inputs.len() as int), slots_before(inputs, i));
}

/// Optional slots as a pair.
pub open spec fn prev_model(prev: Option<[TextureSlot; 2]>) -> Option<(TextureSlot, TextureSlot)> {
    match prev {
        Some(slots) => Some(slots_model(slots)),
        None => None,
    }
}

/// Whether one of the two slots holds cell `id`.
fn slots_have_id(slots: &[TextureSlot; 2], id: usize) -> (found: bool)
    ensures
        found == has_id(slots_model(*slots), id),
{
    let in_first: bool = match slots[0] {
        Some((a, _)) => a == id,
        None => false,
    };
    let in_second: bool = match slots[1] {
        Some((b, _)) => b == id,
        None => false,
    };
    in_first || in_second
}

/// The heaviest eligible entry; of several equally heavy ones, the last.
fn pick_entry(entries: &Vec<Entry>, skip: Option<usize>, among: Option<[TextureSlot; 2]>) -> (picked:
    Option<usize>)
    ensures
        index_model(picked) == pick(
            entries@,
            index_model(skip),
            prev_model(among),
            entries@.len() as int,
        ),
        picked matches Some(r) ==> r < entries@.len(),
{
    let mut best: Option<usize> = None;
    let mut j: usize = 0;
    while j < entries.len()
        invariant
            j <= entries@.len(),
            index_model(best) == pick(entries@, index_model(skip), prev_model(among), j as int),
            best matches Some(r) ==> r < j,
        decreases entries@.len() - j,
    {
        let skipped: bool = match skip {
            Some(t) => t == j,
            None => false,
        };
        let allowed: bool = match among {
            Some(slots) => slots_have_id(&slots, entries[j].0),
            None => true,
        };
        let heavier: bool = match best {
            Some(r) => entries[j].1 >= entries[r].1,
            None => true,
        };
        if !skipped && allowed && heavier {
            best = Some(j);
        }
        j += 1;
    }
    best
}

/// The weight of a curve at segment `i`: zero past its end.
fn curve_weight(gradient: &BodyGradient, i: usize) -> (g: u32)
    ensures
        g == if i < gradient@.len() { gradient@[i as int] } else { 0 },
{
    if i < gradient.0.len() {
        gradient.0[i]
    } else {
        0
    }
}

/// The length of the longest curve.
fn longest_curve(animals: &[(Animal, BodyGradient)]) -> (len: usize)
    ensures
        len == blend_len(blend_inputs(animals@)),
{
    let ghost inputs = blend_inputs(animals@);
    let mut len: usize = 0;
    let mut k: usize = 0;
    while k < animals.len()
        invariant
            k <= animals@.len(),
            inputs == blend_inputs(animals@),
            len == longest_gradient(inputs, k as int),
        decreases animals@.len() - k,
    {
        let here: usize = animals[k].1.0.len();
        if here > len {
            len = here;
        }
        k += 1;
    }
    len
}

/// Copies of the limbs that grow from segment `i` of input `s`.
fn copy_limbs_at(animals: &[(Animal, BodyGradient)], s: usize, i: usize) -> (limbs: Vec<Limb>)
    requires
        s < animals@.len(),
        contributes(blend_inputs(animals@)[s as int], i as int),
    ensures
        limbs_model(limbs@) == blend_inputs(animals@)[s as int].body[i as int].limbs,
{
    let limb: &Limb = animals[s].0.body();
    assert(limb@.body == blend_inputs(animals@)[s as int].body);
    let from: &BodyPoint = &limb.body[i];
    assert(from@ == limb@.body[i as int]);
    let limbs: Vec<Limb> = duplicate_limbs(&from.limbs);
    assert(limbs_model(limbs@) =~= from@.limbs) by {
        assert(limbs_model(limbs@).len() == limbs_model(from.limbs@).len());
        assert forall|j: int| 0 <= j < from.limbs@.len() implies limbs_model(limbs@)[j]
            == from@.limbs[j] by {
            assert(limbs_model(limbs@)[j] == limbs_model(from.limbs@)[j]);
        }
    }
    limbs
}

/// Segment `i` of the blend of `animals`, given the texture slots of the
/// segment before; nothing where the segment cannot be blended.
fn blend_point(animals: &[(Animal, BodyGradient)], i: usize, prev: Option<[TextureSlot; 2]>) -> (point:
    Option<BodyPoint>)
    ensures
        point is Some <==> point_blendable(blend_inputs(animals@), i as int),
        point matches Some(p) ==> p@ == blended_point_after(
            blend_inputs(animals@),
            i as int,
            prev_model(prev),
        ),
{
    let ghost inputs = blend_inputs(animals@);
    let ghost idx = i as int;
    let mut sum_x: i128 = 0;
    let mut sum_y: i128 = 0;
    let mut sum_size: i128 = 0;
    let mut total: u128 = 0;
    let mut all: Vec<Entry> = Vec::new();
    let mut discontinuous: bool = false;
    let mut source: Option<usize> = None;
    let mut source_weight: u32 = 0;
    let mut k: usize = 0;
    while k < animals.len()
        invariant
            k <= animals@.len(),
            inputs == blend_inputs(animals@),
            idx == i as int,
            total == weight_sum(inputs, idx, k as int),
            total <= k * 0xffff_ffff,
            sum_x == dir_x_sum(inputs, idx, k as int),
            sum_y == dir_y_sum(inputs, idx, k as int),
            sum_size == size_sum(inputs, idx, k as int),
            -0x8000_0000 * total <= sum_x <= 0x7fff_ffff * total,
            -0x8000_0000 * total <= sum_y <= 0x7fff_ffff * total,
            -0x8000_0000 * total <= sum_size <= 0x7fff_ffff * total,
            all@ == entries(inputs, idx, k as int),
            discontinuous == any_discontinuous(inputs, idx, k as int),
            index_model(source) == limb_source(inputs, idx, k as int),
            source matches Some(s) ==> s < k && source_weight == weight_at(inputs[s as int], idx)
                && has_limbs(inputs[s as int], idx),
        decreases animals@.len() - k,
    {
        let limb: &Limb = animals[k].0.body();
        assert(limb@.body == inputs[k as int].body);
        if i < limb.body.len() {
            let point: &BodyPoint = &limb.body[i];
            assert(point@ == inputs[k as int].body[idx]);
            let g: u32 = curve_weight(&animals[k].1, i);
            assert(g == weight_at(inputs[k as int], idx));
            proof {
                let dx = point.dir.x as int;
                let dy = point.dir.y as int;
                let ds = point.size as int;
                let gi = g as int;
                assert(-0x8000_0000 * gi <= dx * gi <= 0x7fff_ffff * gi) by (nonlinear_arith)
                    requires
                        -0x8000_0000 <= dx <= 0x7fff_ffff,
                        0 <= gi,
                ;
                assert(-0x8000_0000 * gi <= dy * gi <= 0x7fff_ffff * gi) by (nonlinear_arith)
                    requires
                        -0x8000_0000 <= dy <= 0x7fff_ffff,
                        0 <= gi,
                ;
                assert(-0x8000_0000 * gi <= ds * gi <= 0x7fff_ffff * gi) by (nonlinear_arith)
                    requires
                        -0x8000_0000 <= ds <= 0x7fff_ffff,
                        0 <= gi,
                ;
                assert(gi <= 0xffff_ffff);
            }
            sum_x = sum_x + (point.dir.x as i128) * (g as i128);
            sum_y = sum_y + (point.dir.y as i128) * (g as i128);
            sum_size = sum_size + (point.size as i128) * (g as i128);
            total = total + (g as u128);
            let ghost before = all@;
            match point.texture_indices[0] {
                Some((id, w)) => {
                    assert((w as int) * (g as int) <= 0xffff_ffff * 0xffff_ffff) by (nonlinear_arith)
                        requires
                            0 <= w <= 0xffff_ffff,
                            0 <= g <= 0xffff_ffff,
                    ;
                    all.push((id, (w as u64) * (g as u64)));
                },
                None => {},
            }
            match point.texture_indices[1] {
                Some((id, w)) => {
                    assert((w as int) * (g as int) <= 0xffff_ffff * 0xffff_ffff) by (nonlinear_arith)
                        requires
                            0 <= w <= 0xffff_ffff,
                            0 <= g <= 0xffff_ffff,
                    ;
                    all.push((id, (w as u64) * (g as u64)));
                },
                None => {},
            }
            assert(all@ =~= before + point_entries(point@.textures, g));
            if point.discontinuous {
                discontinuous = true;
            }
            let takes: bool = match source {
                Some(_) => g > source_weight,
                None => true,
            };
            assert(point@.limbs.len() == point.limbs@.len());
            if point.limbs.len() > 0 && takes {
                source = Some(k);
                source_weight = g;
            }
        }
        k += 1;
    }
    if total == 0 {
        return None;
    }
    let first: usize = match pick_entry(&all, None, None) {
        Some(p) => p,
        None => {
            return None;
        },
    };
    if all[first].1 == 0 {
        return None;
    }
    let ghost n = animals@.len() as int;
    proof {
        lemma_trunc_div_bounds(sum_x as int, total as int, -0x8000_0000, 0x7fff_ffff);
        lemma_trunc_div_bounds(sum_y as int, total as int, -0x8000_0000, 0x7fff_ffff);
        lemma_trunc_div_bounds(sum_size as int, total as int, -0x8000_0000, 0x7fff_ffff);
    }
    let x: i32 = quotient(sum_x, total as i128) as i32;
    let y: i32 = quotient(sum_y, total as i128) as i32;
    let size: i32 = quotient(sum_size, total as i128) as i32;
    let runner_up: Option<usize> = pick_entry(&all, Some(first), None);
    let second: Option<usize> = match prev {
        None => runner_up,
        Some(slots) => {
            if !slots_have_id(&slots, all[first].0) {
                pick_entry(&all, None, Some(slots))
            } else {
                match runner_up {
                    Some(s) => if slots_have_id(&slots, all[s].0) {
                        Some(s)
                    } else {
                        None
                    },
                    None => None,
                }
            }
        },
    };
    assert(index_model(second) == secondary(all@, prev_model(prev)));
    let second_weight: u64 = match second {
        Some(s) => all[s].1,
        None => 0,
    };
    let texture_sum: u128 = (all[first].1 as u128) + (second_weight as u128);
    assert(texture_sum == texture_total(all@, prev_model(prev)));
    proof {
        lemma_texture_weights(all@, prev_model(prev));
        assert((all@[first as int].1 as int) * (ONE as int) <= 0xffff_ffff_ffff_ffff * 1_000_000)
            by (nonlinear_arith)
            requires
                0 <= all@[first as int].1 <= 0xffff_ffff_ffff_ffff,
                ONE == 1_000_000,
        ;
    }
    let share: u32 = (((all[first].1 as u128) * (ONE as u128)) / texture_sum) as u32;
    assert(share == primary_share(all@, prev_model(prev)));
    let second_slot: TextureSlot = match second {
        Some(s) => Some((all[s].0, (ONE as u32) - share)),
        None => None,
    };
    let limbs: Vec<Limb> = match source {
        Some(s) => copy_limbs_at(animals, s, i),
        None => Vec::new(),
    };
    let point = BodyPoint {
        dir: Vec2 { x, y },
        size,
        texture_indices: [Some((all[first].0, share)), second_slot],
        discontinuous,
        limbs,
    };
    proof {
        let want = blended_point_after(inputs, idx, prev_model(prev));
        assert(point@.textures == want.textures);
        assert(point@.limbs =~= want.limbs) by {
            assert forall|j: int| 0 <= j < limbs@.len() implies point@.limbs[j]
                == want.limbs[j] by {
                assert(limbs_model(limbs@)[j] == want.limbs[j]);
            }
        }
    }
    Some(point)
}

/// The blend of `animals`, or nothing where they cannot be blended.
///
/// The blend has as many segments as the longest curve. Each segment is
/// `blended_point`: the weighted mean of the bodies' directions and sizes,
/// a seam where any body has one, the limbs of the heaviest body that has
/// limbs there, and two texture slots whose weights sum to `ONE`.
pub fn try_blend_animals(animals: &[(Animal, BodyGradient)]) -> (blend: Option<Animal>)
    ensures
        blend is Some <==> blendable(blend_inputs(animals@)),
        blend matches Some(animal) ==> {
            &&& animal@.body == blended_body(blend_inputs(animals@))
            &&& animal@.name == spine_name()
            &&& animal@.displacement == (Vec3 { x: 0, y: 0, z: 0 })
            &&& animal@.texture_displacement == 0
        },
{
    let ghost inputs = blend_inputs(animals@);
    if animals.len() == 0 {
        return None;
    }
    let len: usize = longest_curve(animals);
    let mut body: Vec<BodyPoint> = Vec::new();
    let mut i: usize = 0;
    while i < len
        invariant
            i <= len,
            len == blend_len(inputs),
            inputs == blend_inputs(animals@),
            body@.len() == i,
            forall|t: int| 0 <= t < i ==> point_blendable(inputs, t),
            forall|t: int| 0 <= t < i ==> (#[trigger] body@[t])@ == blended_point(inputs, t),
        decreases len - i,
    {
        let prev: Option<[TextureSlot; 2]> = if i == 0 {
            None
        } else {
            Some(body[i - 1].texture_indices)
        };
        assert(prev_model(prev) == slots_before(inputs, i as int)) by {
            if i > 0 {
                assert(body@[i - 1]@ == blended_point(inputs, i - 1));
            }
        }
        match blend_point(animals, i, prev) {
            Some(point) => {
                body.push(point);
            },
            None => {
                return None;
            },
        }
        i += 1;
    }
    let animal: Animal = Animal::new(body);
    assert(animal@.body =~= blended_body(inputs));
    Some(animal)
}

/// The blend of `animals`: see `try_blend_animals`.
pub fn blend_animals(animals: &[(Animal, BodyGradient)]) -> (animal: Animal)
    requires
        blendable(blend_inputs(animals@)),
    ensures
        animal@.body == blended_body(blend_inputs(animals@)),
        animal@.name == spine_name(),
        animal@.displacement == (Vec3 { x: 0, y: 0, z: 0 }),
        animal@.texture_displacement == 0,
{
    match try_blend_animals(animals) {
        Some(animal) => animal,
        None => {
            proof {
                assert(false);
            }
            Animal::new(Vec::new())
        },
    }
}

} // verus!
