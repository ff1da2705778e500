//! The overall dimensions of a rig: the box around all vertices of its
//! meshes.

use crate::fixed::trunc_div;
use crate::geometry::Point2;
use crate::mesh::{LimbMesh, LimbMeshModel};
use crate::rig::meshes_model;
use vstd::prelude::*;

verus! {

/// The box around the meshes of a rig.
#[derive(Debug, Clone, Copy, PartialEq, Eq)]
pub struct Dimensions {
    /// The least coordinates of any vertex.
    pub min: Point2,
    /// The greatest coordinates of any vertex.
    pub max: Point2,
    /// The width and height of the box.
    pub size: (u64, u64),
    /// The middle of the box, rounded toward zero.
    pub center: Point2,
}

/// Whether the first `m` meshes hold no vertex.
pub open spec fn no_vertex(meshes: Seq<LimbMeshModel>, m: int) -> bool {
    forall|i: int| 0 <= i < m && i < meshes.len() ==> (#[trigger] meshes[i]).vertices.len() == 0
}

/// Whether vertex `j` of mesh `i` comes before vertex `k` of mesh `m`.
pub open spec fn before(meshes: Seq<LimbMeshModel>, i: int, j: int, m: int, k: int) -> bool {
    &&& 0 <= i < meshes.len()
    &&& 0 <= j < meshes[i].vertices.len()
    &&& i < m || (i == m && j < k)
}

/// Whether the box from `min` to `max` is the box around the vertices that
/// come before vertex `k` of mesh `m`: it holds them all, and a vertex lies
/// on each of its four sides.
pub open spec fn boxes(meshes: Seq<LimbMeshModel>, m: int, k: int, min: Point2, max: Point2) -> bool {
    &&& forall|i: int, j: int|
        #[trigger] before(meshes, i, j, m, k) ==> {
            &&& min.x <= meshes[i].vertices[j].position.x <= max.x
            &&& min.y <= meshes[i].vertices[j].position.y <= max.y
        }
    &&& exists|i: int, j: int|
        #[trigger] before(meshes, i, j, m, k) && meshes[i].vertices[j].position.x == min.x
    &&& exists|i: int, j: int|
        #[trigger] before(meshes, i, j, m, k) && meshes[i].vertices[j].position.x == max.x
    &&& exists|i: int, j: int|
        #[trigger] before(meshes, i, j, m, k) && meshes[i].vertices[j].position.y == min.y
    &&& exists|i: int, j: int|
        #[trigger] before(meshes, i, j, m, k) && meshes[i].vertices[j].position.y == max.y
}

/// Whether `d` tells the dimensions of the meshes: its box is the box around
/// all their vertices, its size is the box's width and height, and its
/// centre is the box's middle.
pub open spec fn measures(meshes: Seq<LimbMeshModel>, d: Dimensions) -> bool {
    &&& boxes(meshes, meshes.len() as int, 0, d.min, d.max)
    &&& d.size.0 == d.max.x - d.min.x
    &&& d.size.1 == d.max.y - d.min.y
    &&& d.center.x == trunc_div(d.min.x + d.max.x, 2)
    &&& d.center.y == trunc_div(d.min.y + d.max.y, 2)
}

/// The middle of `a` and `b`, rounded toward zero.
fn middle(a: i64, b: i64) -> (m: i64)
    ensures
        m == trunc_div(a + b, 2),
{
    let sum: i128 = a as i128 + b as i128;
    (sum / 2) as i64
}

/// The overall dimensions of the meshes: the box around all their vertices
/// with its size and its centre; nothing where the meshes hold no vertex.
pub fn overall_dimensions(meshes: &[LimbMesh]) -> (dimensions: Option<Dimensions>)
    ensures
        match dimensions {
            Some(d) => measures(meshes_model(meshes@), d),
            None => no_vertex(meshes_model(meshes@), meshes@.len() as int),
        },
{
    let ghost all = meshes_model(meshes@);
    let mut found: Option<(Point2, Point2)> = None;
    let mut m: usize = 0;
    while m < meshes.len()
        invariant
            m <= meshes@.len(),
            all == meshes_model(meshes@),
            match found {
                Some((min, max)) => boxes(all, m as int, 0, min, max),
                None => no_vertex(all, m as int),
            },
        decreases meshes@.len() - m,
    {
        let vertices = &meshes[m].vertices;
        assert(all[m as int].vertices == vertices@);
        let mut k: usize = 0;
        while k < vertices.len()
            invariant
                m < meshes@.len(),
                k <= vertices@.len(),
                all == meshes_model(meshes@),
                all[m as int].vertices == vertices@,
                match found {
                    Some((min, max)) => boxes(all, m as int, k as int, min, max),
                    None => no_vertex(all, m as int) && k == 0,
                },
            decreases vertices@.len() - k,
        {
            let at = vertices[k].position;
            match found {
                Some((min, max)) => {
                    let low = Point2 {
                        x: if at.x < min.x {
                            at.x
                        } else {
                            min.x
                        },
                        y: if at.y < min.y {
                            at.y
                        } else {
                            min.y
                        },
                    };
                    let high = Point2 {
                        x: if at.x > max.x {
                            at.x
                        } else {
                            max.x
                        },
                        y: if at.y > max.y {
                            at.y
                        } else {
                            max.y
                        },
                    };
                    proof {
                        lemma_box_grows(all, m as int, k as int, min, max, low, high);
                    }
                    found = Some((low, high));
                },
                None => {
                    let here = Point2 { x: at.x, y: at.y };
                    proof {
                        assert(before(all, m as int, k as int, m as int, k + 1));
                        assert(all[m as int].vertices[k as int].position.x == here.x);
                        assert forall|i: int, j: int| #[trigger] before(all, i, j, m as int, k + 1) implies i
                            == m && j == k by {
                            if i < m {
                                assert(all[i].vertices.len() == 0);
                            }
                        }
                    }
                    found = Some((here, here));
                },
            }
            k += 1;
        }
        proof {
            match found {
                Some((min, max)) => {
                    lemma_box_next_mesh(all, m as int, min, max);
                },
                None => {},
            }
        }
        m += 1;
    }
    match found {
        Some((min, max)) => {
            proof {
                let (a, b) = choose|i: int, j: int|
                    #[trigger] before(all, i, j, meshes@.len() as int, 0) && all[i].vertices[j].position.x
                        == min.x;
                let (c, d) = choose|i: int, j: int|
                    #[trigger] before(all, i, j, meshes@.len() as int, 0) && all[i].vertices[j].position.y
                        == min.y;
                assert(before(all, a, b, meshes@.len() as int, 0));
                assert(before(all, c, d, meshes@.len() as int, 0));
                assert(min.x <= all[a].vertices[b].position.x <= max.x);
                assert(min.y <= all[c].vertices[d].position.y <= max.y);
            }
            let width: u64 = (max.x as i128 - min.x as i128) as u64;
            let height: u64 = (max.y as i128 - min.y as i128) as u64;
            Some(
                Dimensions {
                    min,
                    max,
                    size: (width, height),
                    center: Point2 { x: middle(min.x, max.x), y: middle(min.y, max.y) },
                },
            )
        },
        None => None,
    }
}

/// The box around the vertices before vertex `k` of mesh `m`, widened to
/// hold that vertex too, is the box around the vertices up to it.
proof fn lemma_box_grows(
    meshes: Seq<LimbMeshModel>,
    m: int,
    k: int,
    min: Point2,
    max: Point2,
    low: Point2,
    high: Point2,
)
    requires
        0 <= m < meshes.len(),
        0 <= k < meshes[m].vertices.len(),
        boxes(meshes, m, k, min, max),
        low.x == if meshes[m].vertices[k].position.x < min.x {
            meshes[m].vertices[k].position.x
        } else {
            min.x
        },
        low.y == if meshes[m].vertices[k].position.y < min.y {
            meshes[m].vertices[k].position.y
        } else {
            min.y
        },
        high.x == if meshes[m].vertices[k].position.x > max.x {
            meshes[m].vertices[k].position.x
        } else {
            max.x
        },
        high.y == if meshes[m].vertices[k].position.y > max.y {
            meshes[m].vertices[k].position.y
        } else {
            max.y
        },
    ensures
        boxes(meshes, m, k + 1, low, high),
{
    let at = meshes[m].vertices[k].position;
    assert(before(meshes, m, k, m, k + 1));
    assert forall|i: int, j: int| #[trigger] before(meshes, i, j, m, k + 1) implies {
        &&& low.x <= meshes[i].vertices[j].position.x <= high.x
        &&& low.y <= meshes[i].vertices[j].position.y <= high.y
    } by {
        if !(i == m && j == k) {
            assert(before(meshes, i, j, m, k));
        }
    }
    let (a, b) = choose|i: int, j: int|
        #[trigger] before(meshes, i, j, m, k) && meshes[i].vertices[j].position.x == min.x;
    assert(before(meshes, a, b, m, k + 1));
    let (c, d) = choose|i: int, j: int|
        #[trigger] before(meshes, i, j, m, k) && meshes[i].vertices[j].position.x == max.x;
    assert(before(meshes, c, d, m, k + 1));
    let (e, f) = choose|i: int, j: int|
        #[trigger] before(meshes, i, j, m, k) && meshes[i].vertices[j].position.y == min.y;
    assert(before(meshes, e, f, m, k + 1));
    let (g, h) = choose|i: int, j: int|
        #[trigger] before(meshes, i, j, m, k) && meshes[i].vertices[j].position.y == max.y;
    assert(before(meshes, g, h, m, k + 1));
    if at.x < min.x {
        assert(meshes[m].vertices[k].position.x == low.x);
    } else {
        assert(meshes[a].vertices[b].position.x == low.x);
    }
    if at.x > max.x {
        assert(meshes[m].vertices[k].position.x == high.x);
    } else {
        assert(meshes[c].vertices[d].position.x == high.x);
    }
    if at.y < min.y {
        assert(meshes[m].vertices[k].position.y == low.y);
    } else {
        assert(meshes[e].vertices[f].position.y == low.y);
    }
    if at.y > max.y {
        assert(meshes[m].vertices[k].position.y == high.y);
    } else {
        assert(meshes[g].vertices[h].position.y == high.y);
    }
}

/// The box around all vertices of the meshes up to mesh `m` is the box
/// around the vertices before the first vertex of the next mesh.
proof fn lemma_box_next_mesh(meshes: Seq<LimbMeshModel>, m: int, min: Point2, max: Point2)
    requires
        0 <= m < meshes.len(),
        boxes(meshes, m, meshes[m].vertices.len() as int, min, max),
    ensures
        boxes(meshes, m + 1, 0, min, max),
{
    let n = meshes[m].vertices.len() as int;
    assert forall|i: int, j: int| #[trigger] before(meshes, i, j, m + 1, 0) implies before(
        meshes,
        i,
        j,
        m,
        n,
    ) by {}
    assert forall|i: int, j: int| #[trigger] before(meshes, i, j, m, n) implies before(
        meshes,
        i,
        j,
        m + 1,
        0,
    ) by {}
    let (a, b) = choose|i: int, j: int|
        #[trigger] before(meshes, i, j, m, n) && meshes[i].vertices[j].position.x == min.x;
    assert(before(meshes, a, b, m + 1, 0));
    let (c, d) = choose|i: int, j: int|
        #[trigger] before(meshes, i, j, m, n) && meshes[i].vertices[j].position.x == max.x;
    assert(before(meshes, c, d, m + 1, 0));
    let (e, f) = choose|i: int, j: int|
        #[trigger] before(meshes, i, j, m, n) && meshes[i].vertices[j].position.y == min.y;
    assert(before(meshes, e, f, m + 1, 0));
    let (g, h) = choose|i: int, j: int|
        #[trigger] before(meshes, i, j, m, n) && meshes[i].vertices[j].position.y == max.y;
    assert(before(meshes, g, h, m + 1, 0));
}

} // verus!
