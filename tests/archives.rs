use std::io::{Cursor, Read};

use svg2gcode_web::archive::package_archive;
use svg2gcode_web::export::{plan_export, Drawing, ExportPlan};
use svg2gcode_web::placement::{Bed, Placement};
use svg2gcode_web::settings::ConversionSettings;

fn base() -> ConversionSettings {
    ConversionSettings { tolerance: 2880, feedrate_milli: 300_000, dpi_milli: 96_000, bed: Bed { width: 1, height: 1 } }
}

fn drawing(name: &str) -> Drawing {
    Drawing { content: String::new(), filename: name.to_string(), dimensions: [None, None], placement: Placement::new() }
}

#[test]
fn two_drawings_packed_in_one_folder() {
    let ds = vec![drawing("a.svg"), drawing("b.svg")];
    let (folder, comment, jobs) = match plan_export(&ds, &base(), "2024-05-01") {
        ExportPlan::Archive { folder, comment, jobs, .. } => (folder, comment, jobs),
        ExportPlan::Single { .. } => panic!("two drawings are archived"),
    };
    let outputs = vec![b"G0 X1\n".to_vec(), b"G0 X2\nG0 Y2\n".to_vec()];
    let bytes = package_archive(&folder, &comment, &jobs, &outputs).unwrap();
    let mut archive = zip::ZipArchive::new(Cursor::new(bytes)).unwrap();
    assert_eq!(archive.len(), 3);
    assert_eq!(archive.comment(), comment.as_bytes());
    let expected = [
        ("svg2gcode_output/", &b""[..]),
        ("svg2gcode_output/a.gcode", &b"G0 X1\n"[..]),
        ("svg2gcode_output/b.gcode", &b"G0 X2\nG0 Y2\n"[..]),
    ];
    for (i, (name, data)) in expected.iter().enumerate() {
        let mut f = archive.by_index(i).unwrap();
        assert_eq!(f.name().unwrap(), *name);
        let mut got = Vec::new();
        f.read_to_end(&mut got).unwrap();
        assert_eq!(&got[..], *data);
    }
}

#[test]
fn duplicate_names_fail_the_archive() {
    let ds = vec![drawing("same.svg"), drawing("same.svg")];
    let (folder, comment, jobs) = match plan_export(&ds, &base(), "2024-05-01") {
        ExportPlan::Archive { folder, comment, jobs, .. } => (folder, comment, jobs),
        ExportPlan::Single { .. } => panic!("two drawings are archived"),
    };
    let outputs = vec![b"A".to_vec(), b"B".to_vec()];
    assert!(package_archive(&folder, &comment, &jobs, &outputs).is_err());
}
