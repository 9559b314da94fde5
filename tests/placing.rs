use svg2gcode_web::drag::{pointer_to_bed, Drag};
use svg2gcode_web::placement::{fits_bed, Bed, Placement, Point};
use svg2gcode_web::resolve::Size;
use svg2gcode_web::units::QUANTA_PER_MM;

const MM: i128 = QUANTA_PER_MM;

fn bed() -> Bed {
    Bed { width: 300 * MM, height: 200 * MM }
}

#[test]
fn new_placement_is_unit_scale_at_origin() {
    let p = Placement::new();
    assert_eq!(p.scale, 1000);
    assert_eq!(p.offset, Point { x: 0, y: 0 });
}

#[test]
fn invalid_scale_keeps_prior() {
    let mut p = Placement::new();
    p.set_scale(2500);
    assert_eq!(p.scale, 2500);
    p.set_scale(0);
    assert_eq!(p.scale, 2500);
    p.set_scale(-1000);
    assert_eq!(p.scale, 2500);
    p.set_scale(i64::MAX);
    assert_eq!(p.scale, 2500);
}

#[test]
fn footprint_scales_size() {
    let mut p = Placement::new();
    p.set_scale(1500);
    let f = p.footprint(Some(Size { width: 100 * MM, height: 40 * MM })).unwrap();
    assert_eq!(f, Size { width: 150 * MM, height: 60 * MM });
    assert_eq!(p.footprint(None), None);
    // rounded up to whole quanta
    p.set_scale(1);
    let f = p.footprint(Some(Size { width: 1, height: 1000 })).unwrap();
    assert_eq!(f, Size { width: 1, height: 1 });
}

#[test]
fn exact_bed_size_fits() {
    let mut p = Placement::new();
    p.set_scale(2000);
    let f = p.footprint(Some(Size { width: 150 * MM, height: 100 * MM })).unwrap();
    assert!(fits_bed(&f, &bed()));
    let f = p.footprint(Some(Size { width: 150 * MM, height: 100 * MM + 1 })).unwrap();
    assert!(!fits_bed(&f, &bed()));
}

#[test]
fn taller_but_narrower_does_not_fit() {
    assert!(!fits_bed(&Size { width: 10 * MM, height: 201 * MM }, &bed()));
    assert!(fits_bed(&Size { width: 300 * MM, height: 200 * MM }, &bed()));
}

#[test]
fn pointer_maps_proportionally() {
    let p = pointer_to_bed(150, 50, 300, 200, &bed());
    assert_eq!(p, Point { x: 150 * MM, y: 50 * MM });
    let p = pointer_to_bed(-30, 400, 300, 200, &bed());
    assert_eq!(p, Point { x: -30 * MM, y: 400 * MM });
}

#[test]
fn drag_keeps_grab_point_and_clamps() {
    let size = Some(Size { width: 100 * MM, height: 50 * MM });
    let mut p = Placement::new();
    p.set_offset(Point { x: 20 * MM, y: 20 * MM });
    let mut d = Drag::new();
    assert!(!d.is_dragging());
    d.start(Point { x: 30 * MM, y: 25 * MM }, p.offset);
    assert!(d.is_dragging());
    d.drag_to(&mut p, Point { x: 40 * MM, y: 35 * MM }, size, &bed());
    assert_eq!(p.offset, Point { x: 30 * MM, y: 30 * MM });
    // far outside the viewport on both sides
    d.drag_to(&mut p, Point { x: 10_000 * MM, y: -10_000 * MM }, size, &bed());
    assert_eq!(p.offset, Point { x: 200 * MM, y: 0 });
    d.drag_to(&mut p, Point { x: -10_000 * MM, y: 10_000 * MM }, size, &bed());
    assert_eq!(p.offset, Point { x: 0, y: 150 * MM });
    d.end();
    d.drag_to(&mut p, Point { x: 50 * MM, y: 50 * MM }, size, &bed());
    assert_eq!(p.offset, Point { x: 0, y: 150 * MM });
}

#[test]
fn drawing_larger_than_bed_stays_at_zero() {
    let size = Some(Size { width: 400 * MM, height: 250 * MM });
    let mut p = Placement::new();
    let mut d = Drag::new();
    d.start(Point { x: 0, y: 0 }, p.offset);
    d.drag_to(&mut p, Point { x: 50 * MM, y: 50 * MM }, size, &bed());
    assert_eq!(p.offset, Point { x: 0, y: 0 });
}

#[test]
fn unknown_size_drags_over_whole_bed() {
    let mut p = Placement::new();
    let mut d = Drag::new();
    d.start(Point { x: 0, y: 0 }, p.offset);
    d.drag_to(&mut p, Point { x: 500 * MM, y: 50 * MM }, None, &bed());
    assert_eq!(p.offset, Point { x: 300 * MM, y: 50 * MM });
}

#[test]
fn scale_does_not_move_drawing() {
    let mut p = Placement::new();
    p.set_offset(Point { x: 250 * MM, y: 0 });
    p.set_scale(5000);
    assert_eq!(p.offset, Point { x: 250 * MM, y: 0 });
}

#[test]
fn scale_text_input() {
    let mut p = Placement::new();
    p.set_scale_text("1.5");
    assert_eq!(p.scale, 1500);
    p.set_scale_text("0");
    assert_eq!(p.scale, 1500);
    p.set_scale_text("-2");
    assert_eq!(p.scale, 1500);
    p.set_scale_text("abc");
    assert_eq!(p.scale, 1500);
    p.set_scale_text("");
    assert_eq!(p.scale, 1500);
    p.set_scale_text(".25");
    assert_eq!(p.scale, 250);
    p.set_scale_text("+3.");
    assert_eq!(p.scale, 3000);
    p.set_scale_text("1e2");
    assert_eq!(p.scale, 100_000);
    p.set_scale_text("0.0004");
    assert_eq!(p.scale, 1);
    p.set_scale_text("-0.0004");
    assert_eq!(p.scale, 1);
    p.set_scale_text("0.0000");
    assert_eq!(p.scale, 1);
    p.set_scale_text("1.2.3");
    assert_eq!(p.scale, 1);
}

#[test]
fn zero_written_with_exponent_keeps_scale() {
    let mut p = Placement::new();
    p.set_scale(1500);
    for t in ["0e5", "0.0e1", "00E3", "-1e-4", "0e-5"] {
        p.set_scale_text(t);
        assert_eq!(p.scale, 1500, "{t}");
    }
    p.set_scale_text("1e-4");
    assert_eq!(p.scale, 1);
    p.set_scale_text("2.5e0");
    assert_eq!(p.scale, 2500);
}
