use svg2gcode_web::export::{
    archive_entry_path, conversion_parameters, plan_export, toolpath_file_name, Drawing, ExportGuard,
    ExportPlan,
};
use svg2gcode_web::placement::{Placement, Point};
use svg2gcode_web::settings::{
    check_sequences, ConversionSettings, MachineSettings, PostprocessSettings, SequenceError, Settings,
    SettingsVersion, UpgradeError,
};
use svg2gcode_web::placement::Bed;

fn base(dpi_milli: u32) -> ConversionSettings {
    ConversionSettings { tolerance: 2880, feedrate_milli: 300_000, dpi_milli, bed: Bed { width: 1, height: 1 } }
}

fn drawing(name: &str, scale: i64, x: i128, y: i128) -> Drawing {
    let mut placement = Placement::new();
    placement.set_scale(scale);
    placement.set_offset(Point { x, y });
    Drawing { content: String::from("<svg/>"), filename: name.to_string(), dimensions: [None, None], placement }
}

#[test]
fn toolpath_names() {
    assert_eq!(toolpath_file_name("drawing.svg"), "drawing.gcode");
    assert_eq!(toolpath_file_name("a.b.svg"), "a.b.gcode");
    assert_eq!(toolpath_file_name("noext"), "noext.gcode");
    assert_eq!(toolpath_file_name(".hidden"), ".hidden.gcode");
    assert_eq!(toolpath_file_name("trailing."), "trailing.gcode");
    assert_eq!(archive_entry_path("x.svg"), "svg2gcode_output/x.gcode");
    assert_eq!(toolpath_file_name("v1.2/drawing"), "v1.2/drawing.gcode");
    assert_eq!(toolpath_file_name("v1.2/drawing.svg"), "v1.2/drawing.gcode");
    assert_eq!(toolpath_file_name("dir/.hidden"), "dir/.hidden.gcode");
}

#[test]
fn scale_divides_resolution() {
    let mut p = Placement::new();
    p.set_offset(Point { x: 7, y: 9 });
    assert_eq!(conversion_parameters(&base(96_000), &p).dpi_milli, 96_000);
    p.set_scale(2000);
    let c = conversion_parameters(&base(96_000), &p);
    assert_eq!(c.dpi_milli, 48_000);
    assert_eq!(c.origin, Point { x: 7, y: 9 });
    assert_eq!(c.tolerance, 2880);
    assert_eq!(c.feedrate_milli, 300_000);
    p.set_scale(3000);
    assert_eq!(conversion_parameters(&base(100_000), &p).dpi_milli, 33_333);
}

#[test]
fn single_drawing_exports_one_file() {
    let ds = vec![drawing("heart.svg", 2000, 5, 6)];
    match plan_export(&ds, &base(96_000), "2024-05-01") {
        ExportPlan::Single { job } => {
            assert_eq!(job.path, "heart.gcode");
            assert_eq!(job.parameters.dpi_milli, 48_000);
            assert_eq!(job.parameters.origin, Point { x: 5, y: 6 });
        }
        ExportPlan::Archive { .. } => panic!("one drawing is not archived"),
    }
}

#[test]
fn two_drawings_export_one_archive() {
    let ds = vec![drawing("a.svg", 1000, 0, 0), drawing("b.svg", 500, 1, 2)];
    match plan_export(&ds, &base(96_000), "2024-05-01") {
        ExportPlan::Archive { name, folder, comment, jobs } => {
            assert_eq!(name, "svg2gcode_bulk_download_2024-05-01.zip");
            assert_eq!(folder, "svg2gcode_output");
            assert!(comment.starts_with("Created with svg2gcode"));
            assert_eq!(jobs.len(), 2);
            assert_eq!(jobs[0].path, "svg2gcode_output/a.gcode");
            assert_eq!(jobs[1].path, "svg2gcode_output/b.gcode");
            assert_eq!(jobs[0].parameters.dpi_milli, 96_000);
            assert_eq!(jobs[1].parameters.dpi_milli, 192_000);
            assert_eq!(jobs[1].parameters.origin, Point { x: 1, y: 2 });
        }
        ExportPlan::Single { .. } => panic!("two drawings are archived"),
    }
}

#[test]
fn guard_refuses_second_export() {
    let mut g = ExportGuard::new();
    assert!(g.try_begin());
    assert!(!g.try_begin());
    g.finish();
    assert!(g.try_begin());
}

fn settings(version: SettingsVersion, end: Option<&str>) -> Settings {
    Settings {
        conversion: ConversionSettings {
            tolerance: 2880,
            feedrate_milli: 300_000,
            dpi_milli: 96_000,
            bed: Bed { width: 1, height: 1 },
        },
        machine: MachineSettings {
            circular_interpolation: false,
            tool_on_sequence: None,
            tool_off_sequence: None,
            begin_sequence: Some("G90".to_string()),
            end_sequence: end.map(|s| s.to_string()),
        },
        postprocess: PostprocessSettings { checksums: false, line_numbers: true, newline_before_comment: false },
        version,
    }
}

#[test]
fn upgrade_from_v0_appends_program_end() {
    let mut s = settings(SettingsVersion::V0, Some("M5"));
    assert_eq!(s.try_upgrade(), Ok(()));
    assert_eq!(s.machine.end_sequence.as_deref(), Some("M5 M2"));
    assert!(matches!(s.version, SettingsVersion::V5));
    let mut s = settings(SettingsVersion::V0, None);
    assert_eq!(s.try_upgrade(), Ok(()));
    assert_eq!(s.machine.end_sequence.as_deref(), Some(" M2"));
}

#[test]
fn upgrade_twice_is_upgrade_once() {
    let mut s = settings(SettingsVersion::V0, Some("M5"));
    assert_eq!(s.try_upgrade(), Ok(()));
    let once = format!("{:?}", s);
    assert_eq!(s.try_upgrade(), Ok(()));
    assert_eq!(format!("{:?}", s), once);
}

#[test]
fn unknown_version_is_refused() {
    let mut s = settings(SettingsVersion::Unknown("V9".to_string()), Some("M5"));
    assert_eq!(s.try_upgrade(), Err(UpgradeError::UnknownVersion));
    assert_eq!(s.machine.end_sequence.as_deref(), Some("M5"));
}

#[test]
fn command_snippets_checked_in_order() {
    let mut m = settings(SettingsVersion::V5, Some("M5")).machine;
    assert_eq!(check_sequences(&m), Ok(()));
    m.tool_on_sequence = Some("M3 S1000".to_string());
    assert_eq!(check_sequences(&m), Ok(()));
    m.end_sequence = Some("@@@".to_string());
    assert_eq!(check_sequences(&m), Err(SequenceError::End));
    m.tool_off_sequence = Some("@@@".to_string());
    assert_eq!(check_sequences(&m), Err(SequenceError::ToolOff));
    m.tool_on_sequence = Some("@@@".to_string());
    assert_eq!(check_sequences(&m), Err(SequenceError::ToolOn));
}

#[test]
fn snippets_that_break_the_parser_do_not_compile() {
    let mut m = settings(SettingsVersion::V5, None).machine;
    m.begin_sequence = Some("G+-1.0".to_string());
    assert_eq!(check_sequences(&m), Err(SequenceError::Begin));
    m.begin_sequence = Some("G+-.5".to_string());
    assert_eq!(check_sequences(&m), Err(SequenceError::Begin));
    m.begin_sequence = Some("X79228162514264337593543950335.5".to_string());
    assert_eq!(check_sequences(&m), Err(SequenceError::Begin));
    m.begin_sequence = Some("X1234567890123456789012345678.5 G1 Y+1.5 Z-2".to_string());
    assert_eq!(check_sequences(&m), Ok(()));
}
