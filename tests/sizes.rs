use svg2gcode_web::resolve::{parse_view_box, resolve_document_size, resolve_size, RootDimensions, Size, ViewBox};
use svg2gcode_web::units::{to_quanta, Length, LengthUnit, QUANTA_PER_MM};

fn mm(q: i128) -> f64 {
    q as f64 / QUANTA_PER_MM as f64
}

fn len(milli: i64, unit: LengthUnit) -> Length {
    Length { milli, unit }
}

fn root(width: Option<Length>, height: Option<Length>, view_box: Option<ViewBox>) -> RootDimensions {
    RootDimensions { width, height, view_box }
}

#[test]
fn one_inch_is_25_4_mm() {
    let q = to_quanta(len(1000, LengthUnit::In)).unwrap();
    assert_eq!(q * 10, 254 * QUANTA_PER_MM);
}

#[test]
fn one_pixel_at_96_dpi() {
    let q = to_quanta(len(1000, LengthUnit::Px)).unwrap();
    assert!((mm(q) - 0.264583).abs() < 1e-4);
    assert_eq!(to_quanta(len(1000, LengthUnit::Unitless)), Some(q));
}

#[test]
fn each_unit_through_attributes() {
    let cases: [(LengthUnit, f64); 7] = [
        (LengthUnit::Mm, 1.0),
        (LengthUnit::Cm, 10.0),
        (LengthUnit::In, 25.4),
        (LengthUnit::Pt, 25.4 / 72.0),
        (LengthUnit::Pc, 25.4 / 6.0),
        (LengthUnit::Px, 25.4 / 96.0),
        (LengthUnit::Unitless, 25.4 / 96.0),
    ];
    for (unit, per) in cases {
        let r = root(Some(len(3000, unit)), Some(len(500, unit)), None);
        let s = resolve_size(&r, [None, None]).unwrap();
        assert!((mm(s.width) - 3.0 * per).abs() < 1e-9);
        assert!((mm(s.height) - 0.5 * per).abs() < 1e-9);
    }
}

#[test]
fn relative_units_have_no_size() {
    assert_eq!(to_quanta(len(1000, LengthUnit::Em)), None);
    assert_eq!(to_quanta(len(1000, LengthUnit::Ex)), None);
    assert_eq!(to_quanta(len(1000, LengthUnit::Percent)), None);
}

#[test]
fn overrides_beat_attributes() {
    let r = root(Some(len(100_000, LengthUnit::Mm)), Some(len(50_000, LengthUnit::Mm)), None);
    let s = resolve_size(&r, [Some(len(2000, LengthUnit::In)), Some(len(3000, LengthUnit::Cm))]).unwrap();
    assert_eq!(s, Size { width: 2 * 36_576_000, height: 30 * QUANTA_PER_MM });
}

#[test]
fn single_override_falls_through_to_attributes() {
    // width override only; height from the attribute; width attribute wins over its override
    let r = root(Some(len(10_000, LengthUnit::Mm)), Some(len(20_000, LengthUnit::Mm)), None);
    let s = resolve_size(&r, [Some(len(99_000, LengthUnit::Mm)), None]).unwrap();
    assert_eq!(s, Size { width: 10 * QUANTA_PER_MM, height: 20 * QUANTA_PER_MM });
    // no width attribute: the width override fills it
    let r = root(None, Some(len(20_000, LengthUnit::Mm)), None);
    let s = resolve_size(&r, [Some(len(99_000, LengthUnit::Mm)), None]).unwrap();
    assert_eq!(s, Size { width: 99 * QUANTA_PER_MM, height: 20 * QUANTA_PER_MM });
}

#[test]
fn view_box_200_by_100() {
    let vb = ViewBox { min_x: 0, min_y: 0, width: 200_000, height: 100_000 };
    let s = resolve_size(&root(None, None, Some(vb)), [None, None]).unwrap();
    assert!((mm(s.width) - 52.9166).abs() < 1e-3);
    assert!((mm(s.height) - 26.4583).abs() < 1e-3);
}

#[test]
fn relative_attribute_falls_to_view_box() {
    let vb = ViewBox { min_x: 0, min_y: 0, width: 96_000, height: 96_000 };
    let r = root(Some(len(100_000, LengthUnit::Percent)), Some(len(1000, LengthUnit::In)), Some(vb));
    let s = resolve_size(&r, [None, None]).unwrap();
    assert_eq!(s, Size { width: 36_576_000, height: 36_576_000 });
}

#[test]
fn nothing_declared_is_unknown() {
    assert_eq!(resolve_size(&root(None, None, None), [None, None]), None);
    assert_eq!(resolve_size(&root(Some(len(1000, LengthUnit::Mm)), None, None), [None, None]), None);
}

#[test]
fn view_box_declarations() {
    assert_eq!(
        parse_view_box("0 0 200 100"),
        Some(ViewBox { min_x: 0, min_y: 0, width: 200_000, height: 100_000 })
    );
    assert_eq!(
        parse_view_box("  -1.5\t2\n 10.25   3  "),
        Some(ViewBox { min_x: -1_500, min_y: 2_000, width: 10_250, height: 3_000 })
    );
    assert_eq!(
        parse_view_box("0 0 2e2 1e2"),
        Some(ViewBox { min_x: 0, min_y: 0, width: 200_000, height: 100_000 })
    );
    assert_eq!(
        parse_view_box("0\u{0B}0\u{A0}200\u{3000}100\u{2028}"),
        Some(ViewBox { min_x: 0, min_y: 0, width: 200_000, height: 100_000 })
    );
    assert_eq!(parse_view_box("0 0 200"), None);
    assert_eq!(parse_view_box("0 0 200 100 5"), None);
    assert_eq!(parse_view_box("0,0,200,100"), None);
    assert_eq!(parse_view_box("0 0 wide 100"), None);
    assert_eq!(parse_view_box(""), None);
}

#[test]
fn unparsed_markup_sized_by_both_overrides() {
    let both = [Some(len(10_000, LengthUnit::Mm)), Some(len(1000, LengthUnit::In))];
    assert_eq!(
        resolve_document_size(None, both),
        Some(Size { width: 10 * QUANTA_PER_MM, height: 36_576_000 })
    );
    assert_eq!(resolve_document_size(None, [Some(len(10_000, LengthUnit::Mm)), None]), None);
    assert_eq!(resolve_document_size(None, [Some(len(10_000, LengthUnit::Em)), both[1]]), None);
    let r = root(Some(len(5_000, LengthUnit::Mm)), Some(len(6_000, LengthUnit::Mm)), None);
    assert_eq!(resolve_document_size(Some(r), [None, None]), resolve_size(&r, [None, None]));
}
