use jetman::fixed::Vec2;
use jetman::physics::Body;
use jetman::terrain::{check_collision, point_in_polygon, Terrain, TerrainShape};

fn v(x: i64, y: i64) -> Vec2 {
    Vec2 { x, y }
}

fn falling_body(x: i64, y: i64, vy: i64) -> Body {
    let mut b = Body::new(v(x, y), 1000);
    b.velocity = v(0, vy);
    b
}

#[test]
fn rectangle_stops_at_top_edge() {
    // A body moving straight down into a rectangle is snapped to just
    // above its top edge, vertical velocity flipped and halved.
    let ground = Terrain::rectangle(0, 500_000, 1_000_000, 100_000);
    let mut b = falling_body(500_000, 550_000, 3000);
    check_collision(&mut b, &ground);
    assert_eq!(b.position, v(500_000, 499_000));
    assert_eq!(b.velocity, v(0, -1500));
}

#[test]
fn rectangle_misses_outside_body() {
    let ground = Terrain::rectangle(0, 500_000, 1_000_000, 100_000);
    let mut b = falling_body(500_000, 400_000, 3000);
    check_collision(&mut b, &ground);
    assert_eq!(b.position, v(500_000, 400_000));
    assert_eq!(b.velocity, v(0, 3000));
}

#[test]
fn line_reflects_at_contact_radius() {
    // A horizontal line; the body hovers 5 units above it, inside the
    // 10-unit contact radius, and is pushed to exactly 10 units along
    // the upward normal, its velocity reflected and damped by half.
    let wire = Terrain::line(0, 300_000, 400_000, 300_000);
    let mut b = falling_body(200_000, 295_000, 2000);
    check_collision(&mut b, &wire);
    assert_eq!(b.position, v(200_000, 290_000));
    assert_eq!(b.velocity, v(0, -1000));
}

#[test]
fn zero_length_line_is_ignored() {
    let degenerate = Terrain::line(5000, 5000, 5000, 5000);
    let mut b = falling_body(5000, 5500, 700);
    check_collision(&mut b, &degenerate);
    assert_eq!(b.position, v(5000, 5500));
    assert_eq!(b.velocity, v(0, 700));
}

#[test]
fn circle_reflects_at_contact_radius() {
    // Radius 20 plus the 10-unit contact band: a body 25 units above
    // the center is pushed to 30 units along the vertical normal.
    let boulder = Terrain::circle(100_000, 400_000, 20_000);
    let mut b = falling_body(100_000, 375_000, 4000);
    check_collision(&mut b, &boulder);
    assert_eq!(b.position, v(100_000, 370_000));
    assert_eq!(b.velocity, v(0, -2000));
}

#[test]
fn polygon_lifts_contained_body() {
    let square = Terrain::polygon(vec![
        v(0, 0),
        v(100_000, 0),
        v(100_000, 100_000),
        v(0, 100_000),
    ]);
    let mut b = falling_body(50_000, 50_000, 900);
    check_collision(&mut b, &square);
    assert_eq!(b.position, v(50_000, 48_000));
    assert_eq!(b.velocity, v(0, -450));
}

#[test]
fn point_in_polygon_unit_square() {
    let square = vec![v(0, 0), v(100_000, 0), v(100_000, 100_000), v(0, 100_000)];
    assert!(point_in_polygon(v(50_000, 50_000), &square));
    assert!(!point_in_polygon(v(200_000, 50_000), &square));
    assert!(!point_in_polygon(v(50_000, -1), &square));
}

#[test]
fn point_on_horizontal_edge_is_handled() {
    // A point exactly on a horizontal edge exercises the guarded
    // division and must return without fault.
    let square = vec![v(0, 0), v(100_000, 0), v(100_000, 100_000), v(0, 100_000)];
    let on_edge = point_in_polygon(v(50_000, 0), &square);
    assert!(on_edge);
}

#[test]
fn terrain_shape_accessor() {
    let c = Terrain::circle(1000, 2000, 3000);
    match c.shape() {
        TerrainShape::Circle(center, r) => {
            assert_eq!(*center, v(1000, 2000));
            assert_eq!(*r, 3000);
        }
        _ => panic!("expected a circle"),
    }
}
