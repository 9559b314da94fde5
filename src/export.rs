use vstd::prelude::*;
use crate::units::Length;
use crate::placement::{Placement, Point};
use crate::settings::ConversionSettings;

verus! {

/// Whether the `.` at index `i` of a path starts its extension: it is the last
/// `.` of the path's last component (after its last `/`), and not that
/// component's first character.
pub open spec fn extension_dot_at(name: Seq<char>, i: int) -> bool {
    &&& 0 < i < name.len()
    &&& name[i] == '.'
    &&& name[i - 1] != '/'
    &&& forall|j: int| i < j < name.len() ==> name[j] != '.' && name[j] != '/'
}

/// A file name without its extension.
pub open spec fn file_stem(name: Seq<char>) -> Seq<char> {
    if exists|i: int| extension_dot_at(name, i) {
        name.subrange(0, choose|i: int| extension_dot_at(name, i))
    } else {
        name
    }
}

/// The name of the toolpath file made from a drawing's file name: its extension,
/// if any, replaced by the toolpath extension.
pub open spec fn toolpath_name(name: Seq<char>) -> Seq<char> {
    file_stem(name) + ".gcode"@
}

/// The path of a drawing's toolpath file inside an archive.
pub open spec fn archive_entry_name(name: Seq<char>) -> Seq<char> {
    "svg2gcode_output"@ + "/"@ + toolpath_name(name)
}

/// The name of the archive of a batch exported on `date`.
pub open spec fn archive_file_name(date: Seq<char>) -> Seq<char> {
    "svg2gcode_bulk_download_"@ + date + ".zip"@
}

/// The comment that an archive carries.
pub open spec fn archive_comment() -> Seq<char> {
    "Created with svg2gcode: https://sameer.github.io/svg2gcode/\nConvert any SVG 1.1 path to gcode for a pen plotter, laser engraver, or other machine."@
}

proof fn lemma_extension_dot_unique(name: Seq<char>, i: int, k: int)
    requires
        extension_dot_at(name, i),
        extension_dot_at(name, k),
    ensures
        i == k,
{
    if i < k {
        assert(name[k] != '.');
    } else if k < i {
        assert(name[i] != '.');
    }
}

fn extension_dot(name: &str) -> (r: Option<usize>)
    ensures
        match r {
            Some(i) => extension_dot_at(name@, i as int),
            None => forall|i: int| !extension_dot_at(name@, i),
        },
{
    let n = name.unicode_len();
    let mut i: usize = n;
    while i > 0
        invariant
            i <= n,
            n == name@.len(),
            forall|j: int| i <= j < n ==> name@[j] != '.' && name@[j] != '/',
        decreases i,
    {
        let c = name.get_char(i - 1);
        if c == '/' {
            assert forall|k: int| !extension_dot_at(name@, k) by {
                if extension_dot_at(name@, k) && k < i - 1 {
                    assert(name@[i - 1] == '/');
                }
            }
            return None;
        }
        if c == '.' {
            if i > 1 && name.get_char(i - 2) != '/' {
                return Some(i - 1);
            }
            assert forall|k: int| !extension_dot_at(name@, k) by {
                if extension_dot_at(name@, k) && k < i - 1 {
                    assert(name@[i - 1] == '.');
                }
            }
            return None;
        }
        i = i - 1;
    }
    None
}

fn stem_of(name: &str) -> (r: &str)
    ensures
        r@ == file_stem(name@),
{
    match extension_dot(name) {
        Some(i) => {
            proof {
                let k = choose|k: int| extension_dot_at(name@, k);
                lemma_extension_dot_unique(name@, i as int, k);
            }
            name.substring_char(0, i)
        },
        None => name,
    }
}

/// The toolpath file name for a drawing file name.
pub fn toolpath_file_name(name: &str) -> (r: String)
    ensures
        r@ == toolpath_name(name@),
{
    let mut r = String::from_str(stem_of(name));
    r.append(".gcode");
    r
}

/// Where a drawing's toolpath goes inside an archive.
pub fn archive_entry_path(name: &str) -> (r: String)
    ensures
        r@ == archive_entry_name(name@),
{
    let mut r = String::from_str("svg2gcode_output");
    r.append("/");
    r.append(stem_of(name));
    r.append(".gcode");
    proof {
        assert(r@ =~= archive_entry_name(name@));
    }
    r
}

/// The parameters that one drawing is converted with.
#[derive(Clone, Copy, Debug, PartialEq, Eq, Structural)]
pub struct ConversionParameters {
    /// Curve tolerance, in quanta.
    pub tolerance: i128,
    /// Feed rate, in thousandths of a millimetre per minute.
    pub feedrate_milli: u64,
    /// Resolution, in thousandths of a dot per inch.
    pub dpi_milli: u64,
    /// Where the drawing's origin goes on the bed.
    pub origin: Point,
}

/// The resolution that gives a drawing its scale: the base resolution divided
/// by the scale (both in thousandths), rounded down.
pub open spec fn scaled_dpi(base_dpi_milli: int, scale: int) -> int {
    base_dpi_milli * 1000 / scale
}

/// The conversion parameters of a drawing: the base settings, with the
/// resolution divided by its scale and the origin at its offset.
pub open spec fn parameters_for(base: ConversionSettings, placement: Placement) -> ConversionParameters {
    ConversionParameters {
        tolerance: base.tolerance,
        feedrate_milli: base.feedrate_milli,
        dpi_milli: scaled_dpi(base.dpi_milli as int, placement.scale as int) as u64,
        origin: placement.offset,
    }
}

/// Derives the conversion parameters of a drawing from the base conversion
/// settings and its placement.
pub fn conversion_parameters(base: &ConversionSettings, placement: &Placement) -> (r: ConversionParameters)
    requires
        placement.wf(),
    ensures
        r == parameters_for(*base, *placement),
        r.dpi_milli == scaled_dpi(base.dpi_milli as int, placement.scale as int),
{
    let num = base.dpi_milli as u64 * 1000;
    let q = num / placement.scale as u64;
    ConversionParameters {
        tolerance: base.tolerance,
        feedrate_milli: base.feedrate_milli,
        dpi_milli: q,
        origin: placement.offset,
    }
}

/// A drawing as the user added it, with its placement.
#[derive(Clone, Debug)]
pub struct Drawing {
    pub content: String,
    pub filename: String,
    /// Optional width and height that replace what the drawing declares.
    pub dimensions: [Option<Length>; 2],
    pub placement: Placement,
}

/// One conversion of an export: the drawing at the same index, the path its
/// toolpath is delivered under, and its parameters.
#[derive(Clone, Debug)]
pub struct ExportJob {
    pub path: String,
    pub parameters: ConversionParameters,
}

/// How an export is packaged.
#[derive(Clone, Debug)]
pub enum ExportPlan {
    /// One drawing, delivered as one toolpath file.
    Single { job: ExportJob },
    /// Several drawings, delivered as one archive with a folder that holds
    /// every toolpath file.
    Archive { name: String, folder: String, comment: String, jobs: Vec<ExportJob> },
}

pub open spec fn job_matches(job: ExportJob, d: Drawing, base: ConversionSettings, in_archive: bool) -> bool {
    &&& job.path@ == if in_archive {
        archive_entry_name(d.filename@)
    } else {
        toolpath_name(d.filename@)
    }
    &&& job.parameters == parameters_for(base, d.placement)
}

/// The packaging of an export of `drawings`: a single file for one drawing,
/// else an archive with one entry per drawing, in order, all in one folder.
pub open spec fn plan_matches(
    plan: ExportPlan,
    drawings: Seq<Drawing>,
    base: ConversionSettings,
    date: Seq<char>,
) -> bool {
    if drawings.len() == 1 {
        plan matches ExportPlan::Single { job } && job_matches(job, drawings[0], base, false)
    } else {
        &&& plan matches ExportPlan::Archive { name, folder, comment, jobs }
        &&& name@ == archive_file_name(date)
        &&& folder@ == "svg2gcode_output"@
        &&& comment@ == archive_comment()
        &&& jobs@.len() == drawings.len()
        &&& forall|i: int| 0 <= i < jobs@.len() ==> job_matches(#[trigger] jobs@[i], drawings[i], base, true)
    }
}

pub open spec fn placements_wf(drawings: Seq<Drawing>) -> bool {
    forall|i: int| 0 <= i < drawings.len() ==> (#[trigger] drawings[i]).placement.wf()
}

/// Plans the export of `drawings` on `date` (an ISO-8601 date): the path and
/// conversion parameters of each drawing, and how the results are packaged.
pub fn plan_export(drawings: &Vec<Drawing>, base: &ConversionSettings, date: &str) -> (r: ExportPlan)
    requires
        drawings@.len() > 0,
        placements_wf(drawings@),
    ensures
        plan_matches(r, drawings@, *base, date@),
{
    if drawings.len() == 1 {
        let d = &drawings[0];
        let job = ExportJob {
            path: toolpath_file_name(d.filename.as_str()),
            parameters: conversion_parameters(base, &d.placement),
        };
        return ExportPlan::Single { job };
    }
    let mut jobs: Vec<ExportJob> = Vec::new();
    let mut i: usize = 0;
    while i < drawings.len()
        invariant
            i <= drawings@.len(),
            placements_wf(drawings@),
            jobs@.len() == i,
            forall|k: int| 0 <= k < i ==> job_matches(#[trigger] jobs@[k], drawings@[k], *base, true),
        decreases drawings@.len() - i,
    {
        let d = &drawings[i];
        let job = ExportJob {
            path: archive_entry_path(d.filename.as_str()),
            parameters: conversion_parameters(base, &d.placement),
        };
        jobs.push(job);
        i = i + 1;
    }
    let mut name = String::from_str("svg2gcode_bulk_download_");
    name.append(date);
    name.append(".zip");
    ExportPlan::Archive {
        name,
        folder: String::from_str("svg2gcode_output"),
        comment: String::from_str("Created with svg2gcode: https://sameer.github.io/svg2gcode/\nConvert any SVG 1.1 path to gcode for a pen plotter, laser engraver, or other machine."),
        jobs,
    }
}

/// Refuses a second export while one is under way.
#[derive(Clone, Copy, Debug, PartialEq, Eq, Structural)]
pub struct ExportGuard {
    pub busy: bool,
}

impl ExportGuard {
    pub fn new() -> (r: ExportGuard)
        ensures
            !r.busy,
    {
        ExportGuard { busy: false }
    }

    /// Marks an export as started; false, and no change, if one already is.
    pub fn try_begin(&mut self) -> (r: bool)
        ensures
            r == !old(self).busy,
            final(self).busy,
    {
        if self.busy {
            false
        } else {
            self.busy = true;
            true
        }
    }

    /// Marks the export as over, whether it succeeded or failed.
    pub fn finish(&mut self)
        ensures
            !final(self).busy,
    {
        self.busy = false;
    }
}


/// One drawing is delivered as one file named after the drawing's stem with the
/// toolpath extension; two are delivered as one archive of two entries, both in
/// the archive's one folder, with the archive's comment set.
pub proof fn export_packaging(plan: ExportPlan, drawings: Seq<Drawing>, base: ConversionSettings, date: Seq<char>)
    requires
        plan_matches(plan, drawings, base, date),
    ensures
        drawings.len() == 1 ==> (plan matches ExportPlan::Single { job } && job.path@ == file_stem(
            drawings[0].filename@,
        ) + ".gcode"@),
        drawings.len() == 2 ==> (plan matches ExportPlan::Archive { name, folder, comment, jobs }
            && jobs@.len() == 2
            && jobs@[0].path@ == folder@ + "/"@ + toolpath_name(drawings[0].filename@)
            && jobs@[1].path@ == folder@ + "/"@ + toolpath_name(drawings[1].filename@)
            && comment@ == archive_comment() && name@ == archive_file_name(date)),
{
    if drawings.len() == 2 {
        if let ExportPlan::Archive { name, folder, comment, jobs } = plan {
            assert(job_matches(jobs@[0], drawings[0], base, true));
            assert(job_matches(jobs@[1], drawings[1], base, true));
        }
    }
}

} // verus!
