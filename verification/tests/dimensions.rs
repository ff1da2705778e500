use animal_rig::animal_templates::chicken;
use animal_rig::dimensions::{overall_dimensions, Dimensions};
use animal_rig::geometry::{Point2, Point3};
use animal_rig::mesh::{LimbMesh, Vertex};
use animal_rig::rig::create_animal;

fn vertex(x: i64, y: i64) -> Vertex {
    Vertex {
        position: Point3 { x, y, z: 7 },
        uv: (0, 0),
        second_uv: (0, 0),
        blend: 1_000_000,
        triangle: 0,
        bones: [0, 0, 0, 0],
        weights: [1_000_000, 0, 0, 0],
    }
}

fn mesh(at: &[(i64, i64)]) -> LimbMesh {
    LimbMesh { vertices: at.iter().map(|p| vertex(p.0, p.1)).collect(), depth: 0 }
}

#[test]
fn no_vertices_have_no_dimensions() {
    assert_eq!(overall_dimensions(&[]), None);
    assert_eq!(overall_dimensions(&[mesh(&[]), mesh(&[])]), None);
}

#[test]
fn one_vertex_is_its_own_box() {
    let d = overall_dimensions(&[mesh(&[]), mesh(&[(3, -4)])]).unwrap();
    assert_eq!(
        d,
        Dimensions { min: Point2 { x: 3, y: -4 }, max: Point2 { x: 3, y: -4 }, size: (0, 0), center: Point2 { x: 3, y: -4 } }
    );
}

#[test]
fn box_holds_all_meshes() {
    let meshes = [mesh(&[(1, 1), (5, -2)]), mesh(&[]), mesh(&[(-3, 0), (2, 8), (0, 0)])];
    let d = overall_dimensions(&meshes).unwrap();
    assert_eq!(d.min, Point2 { x: -3, y: -2 });
    assert_eq!(d.max, Point2 { x: 5, y: 8 });
    assert_eq!(d.size, (8, 10));
    assert_eq!(d.center, Point2 { x: 1, y: 3 });
}

#[test]
fn centre_rounds_toward_zero() {
    let d = overall_dimensions(&[mesh(&[(-4, -3), (1, 0)])]).unwrap();
    assert_eq!(d.center, Point2 { x: -1, y: -1 });
    let e = overall_dimensions(&[mesh(&[(4, 3), (-1, 0)])]).unwrap();
    assert_eq!(e.center, Point2 { x: 1, y: 1 });
}

#[test]
fn box_spans_the_whole_range() {
    let d = overall_dimensions(&[mesh(&[(i64::MIN, i64::MAX), (i64::MAX, i64::MIN)])]).unwrap();
    assert_eq!(d.size, (u64::MAX, u64::MAX));
    assert_eq!(d.center, Point2 { x: 0, y: 0 });
}

#[test]
fn chicken_has_dimensions() {
    let rig = create_animal(&chicken(), (1_000_000, 1_000_000));
    let d = overall_dimensions(&rig.meshes).unwrap();
    for m in &rig.meshes {
        for v in &m.vertices {
            assert!(d.min.x <= v.position.x && v.position.x <= d.max.x);
            assert!(d.min.y <= v.position.y && v.position.y <= d.max.y);
        }
    }
    assert_eq!(d.size.0 as i64, d.max.x - d.min.x);
    assert!(d.size.0 > 3_000_000 && d.size.1 > 1_000_000);
}
