use vstd::prelude::*;
use std::io::Write;
use crate::export::{ExportJob, ExportPlan, Drawing, plan_matches, toolpath_name, archive_comment};

verus! {

/// An archive being written into memory. Verus refuses a declaration of the
/// writer type itself (its parameter is bound by `Write + Seek`), so it is held
/// here, out of Verus's sight.
#[verifier::external_body]
pub struct ArchiveWriter {
    inner: zip::ZipWriter<std::io::Cursor<Vec<u8>>>,
}

#[verifier::external_type_specification]
#[verifier::external_body]
pub struct ExZipError(zip::result::ZipError);

#[verifier::external_type_specification]
#[verifier::external_body]
pub struct ExIoError(std::io::Error);

/// The entries of an archive being written, in order: each its name and the
/// data written to it.
pub uninterp spec fn zip_entries(z: ArchiveWriter) -> Seq<(Seq<char>, Seq<u8>)>;

/// The comment of an archive being written.
pub uninterp spec fn zip_comment(z: ArchiveWriter) -> Seq<char>;

/// The bytes of the finished archive.
pub uninterp spec fn zip_bytes(z: ArchiveWriter) -> Seq<u8>;

/// The name a directory entry is stored under: the given name, with `/` added
/// unless it already ends in a separator.
pub open spec fn directory_entry_name(name: Seq<char>) -> Seq<char> {
    if name.len() > 0 && (name.last() == '/' || name.last() == '\\') {
        name
    } else {
        name + "/"@
    }
}

/// Whether an entry of the archive is open for writing.
pub uninterp spec fn zip_file_open(z: ArchiveWriter) -> bool;

/// Largest amount of data, exclusive, that an entry takes without the large-file option.
pub const ENTRY_DATA_LIMIT: u64 = 0xFFFF_FFFF;

/// Bytes a local entry header takes besides its name.
pub const LOCAL_HEADER_LEN: u64 = 30;

pub open spec fn has_entry(e: Seq<(Seq<char>, Seq<u8>)>, name: Seq<char>) -> bool {
    exists|k: int| 0 <= k < e.len() && (#[trigger] e[k]).0 == name
}

/// Every entry holds less data than needs the large-file option.
pub open spec fn entries_fit(e: Seq<(Seq<char>, Seq<u8>)>) -> bool {
    forall|k: int| 0 <= k < e.len() ==> (#[trigger] e[k]).1.len() < ENTRY_DATA_LIMIT
}

/// A name short enough for an entry header (at most four bytes per character).
pub open spec fn name_fits(name: Seq<char>) -> bool {
    name.len() * 4 + LOCAL_HEADER_LEN < 65535
}

/// Relies on `ZipWriter::new` over an empty in-memory buffer: no entries, no
/// comment, nothing open.
#[verifier::external_body]
fn new_writer() -> (r: ArchiveWriter)
    ensures
        zip_entries(r) == Seq::<(Seq<char>, Seq<u8>)>::empty(),
        zip_comment(r) == Seq::<char>::empty(),
        !zip_file_open(r),
{
    ArchiveWriter { inner: zip::ZipWriter::new(std::io::Cursor::new(Vec::new())) }
}

/// Relies on `ZipWriter::add_directory`: on success, one more entry, named
/// after the directory with a trailing separator, holding no data, and nothing
/// open. On an in-memory buffer it fails only for a name already present or too
/// long for a header, or for an entry too large to close.
#[verifier::external_body]
fn add_directory(z: &mut ArchiveWriter, name: &str) -> (r: Result<(), zip::result::ZipError>)
    ensures
        r is Ok ==> zip_entries(*final(z)) == zip_entries(*old(z)).push((directory_entry_name(name@), Seq::empty()))
            && zip_comment(*final(z)) == zip_comment(*old(z)) && !zip_file_open(*final(z)),
        !has_entry(zip_entries(*old(z)), directory_entry_name(name@)) && name_fits(directory_entry_name(name@))
            && entries_fit(zip_entries(*old(z))) ==> r is Ok,
{
    let opts = zip::write::SimpleFileOptions::default().compression_method(zip::CompressionMethod::Stored);
    z.inner.add_directory(name, opts)
}

/// Relies on `ZipWriter::start_file` with stored (uncompressed) data: on success,
/// one more entry named `name`, open for writing and empty. On an in-memory
/// buffer it fails only for a name already present or too long for a header,
/// or for an entry too large to close.
#[verifier::external_body]
fn start_file(z: &mut ArchiveWriter, name: &str) -> (r: Result<(), zip::result::ZipError>)
    ensures
        r is Ok ==> zip_entries(*final(z)) == zip_entries(*old(z)).push((name@, Seq::empty()))
            && zip_comment(*final(z)) == zip_comment(*old(z)) && zip_file_open(*final(z)),
        !has_entry(zip_entries(*old(z)), name@) && name_fits(name@) && entries_fit(zip_entries(*old(z)))
            ==> r is Ok,
{
    let opts = zip::write::SimpleFileOptions::default().compression_method(zip::CompressionMethod::Stored);
    z.inner.start_file(name, opts)
}

/// Relies on `Write::write_all` of `ZipWriter`: on success the bytes are the
/// next data of the entry last started (nothing happens for no bytes). It
/// succeeds when an entry is open and its data stays under the large-file limit.
#[verifier::external_body]
fn write_data(z: &mut ArchiveWriter, data: &[u8]) -> (r: Result<(), std::io::Error>)
    ensures
        r is Ok ==> {
            let e = zip_entries(*old(z));
            &&& zip_comment(*final(z)) == zip_comment(*old(z))
            &&& zip_file_open(*final(z)) == zip_file_open(*old(z))
            &&& data@.len() == 0 ==> zip_entries(*final(z)) == e
            &&& data@.len() > 0 ==> e.len() > 0 && zip_entries(*final(z)) == e.update(
                e.len() - 1,
                (e.last().0, e.last().1 + data@),
            )
        },
        zip_file_open(*old(z)) && zip_entries(*old(z)).len() > 0 && zip_entries(*old(z)).last().1.len() + data@.len()
            < ENTRY_DATA_LIMIT ==> r is Ok,
{
    z.inner.write_all(data)
}

/// Relies on `ZipWriter::set_comment`: on success the archive's comment is
/// `comment`; it succeeds for a comment of at most 65535 bytes.
#[verifier::external_body]
fn set_comment(z: &mut ArchiveWriter, comment: &str) -> (r: Result<(), zip::result::ZipError>)
    ensures
        r is Ok ==> zip_comment(*final(z)) == comment@ && zip_entries(*final(z)) == zip_entries(*old(z))
            && zip_file_open(*final(z)) == zip_file_open(*old(z)),
        comment@.len() * 4 <= 65535 ==> r is Ok,
{
    z.inner.set_comment(comment)
}

/// Relies on `ZipWriter::finish`: the bytes of the finished archive. On an
/// in-memory buffer it fails only for an entry too large to close.
#[verifier::external_body]
fn finish(z: ArchiveWriter) -> (r: Result<Vec<u8>, zip::result::ZipError>)
    ensures
        r matches Ok(b) ==> b@ == zip_bytes(z),
        entries_fit(zip_entries(z)) ==> r is Ok,
{
    z.inner.finish().map(|c| c.into_inner())
}

/// Why an archive could not be written.
#[derive(Clone, Copy, Debug, PartialEq, Eq, Structural)]
pub enum ArchiveError {
    Write,
}

/// What an archive of an export holds: the folder, then each toolpath under its
/// job's path, in order.
pub open spec fn archive_contents(folder: Seq<char>, jobs: Seq<ExportJob>, outputs: Seq<Vec<u8>>) -> Seq<(Seq<char>, Seq<u8>)> {
    seq![(directory_entry_name(folder), Seq::<u8>::empty())] + Seq::new(
        jobs.len(),
        |i: int| (jobs[i].path@, outputs[i]@),
    )
}

/// The archive can be written: the folder and the job paths are distinct names
/// short enough for entry headers, each output stays under the large-file
/// limit, and the comment fits its field.
pub open spec fn archive_fits(folder: Seq<char>, comment: Seq<char>, jobs: Seq<ExportJob>, outputs: Seq<Vec<u8>>) -> bool {
    &&& forall|i: int, j: int| 0 <= i < j < jobs.len() ==> (#[trigger] jobs[i]).path@ != (#[trigger] jobs[j]).path@
    &&& forall|i: int|
        0 <= i < jobs.len() ==> (#[trigger] jobs[i]).path@ != directory_entry_name(folder) && name_fits(jobs[i].path@)
            && outputs[i]@.len() < ENTRY_DATA_LIMIT
    &&& name_fits(directory_entry_name(folder))
    &&& comment.len() * 4 <= 65535
}

/// Packs the formatted toolpath of each job (`outputs[i]` for `jobs[i]`) into
/// one archive with the given folder and comment, and returns its bytes.
pub fn package_archive(folder: &str, comment: &str, jobs: &Vec<ExportJob>, outputs: &Vec<Vec<u8>>) -> (r: Result<Vec<u8>, ArchiveError>)
    requires
        jobs@.len() == outputs@.len(),
    ensures
        r matches Ok(b) ==> exists|z: ArchiveWriter| {
            &&& zip_entries(z) == archive_contents(folder@, jobs@, outputs@)
            &&& zip_comment(z) == comment@
            &&& b@ == zip_bytes(z)
        },
        archive_fits(folder@, comment@, jobs@, outputs@) ==> r is Ok,
{
    let mut z = new_writer();
    if add_directory(&mut z, folder).is_err() {
        return Err(ArchiveError::Write);
    }
    let mut i: usize = 0;
    while i < jobs.len()
        invariant
            i <= jobs@.len(),
            jobs@.len() == outputs@.len(),
            zip_entries(z) == archive_contents(folder@, jobs@.subrange(0, i as int), outputs@.subrange(0, i as int)),
            archive_fits(folder@, comment@, jobs@, outputs@) ==> entries_fit(zip_entries(z)),
        decreases jobs@.len() - i,
    {
        let ghost before = zip_entries(z);
        proof {
            if archive_fits(folder@, comment@, jobs@, outputs@) {
                assert forall|k: int| 0 <= k < before.len() implies (#[trigger] before[k]).0 != jobs@[i as int].path@ by {
                    if k > 0 {
                        assert(before[k].0 == jobs@[k - 1].path@);
                        assert(jobs@[k - 1].path@ != jobs@[i as int].path@);
                    }
                }
            }
        }
        if start_file(&mut z, jobs[i].path.as_str()).is_err() {
            return Err(ArchiveError::Write);
        }
        let ghost entry = (jobs@[i as int].path@, outputs@[i as int]@);
        if write_data(&mut z, outputs[i].as_slice()).is_err() {
            return Err(ArchiveError::Write);
        }
        proof {
            assert(Seq::<u8>::empty() + outputs@[i as int]@ =~= outputs@[i as int]@);
            if outputs@[i as int]@.len() == 0 {
                assert(Seq::<u8>::empty() =~= outputs@[i as int]@);
            }
            assert(zip_entries(z) =~= before.push(entry));
            if archive_fits(folder@, comment@, jobs@, outputs@) {
                assert forall|k: int| 0 <= k < zip_entries(z).len() implies (#[trigger] zip_entries(z)[k]).1.len()
                    < ENTRY_DATA_LIMIT by {
                    if k < before.len() {
                        assert(zip_entries(z)[k] == before[k]);
                    }
                }
            }
        }
        i = i + 1;
        assert(zip_entries(z) =~= archive_contents(folder@, jobs@.subrange(0, i as int), outputs@.subrange(0, i as int)));
    }
    if set_comment(&mut z, comment).is_err() {
        return Err(ArchiveError::Write);
    }
    assert(jobs@.subrange(0, i as int) =~= jobs@);
    assert(outputs@.subrange(0, i as int) =~= outputs@);
    match finish(z) {
        Ok(b) => Ok(b),
        Err(_) => Err(ArchiveError::Write),
    }
}


/// The archive of a two-drawing export holds exactly three entries: the
/// output folder, then the two toolpaths, both inside that folder; and it
/// carries the archive comment.
pub proof fn two_drawing_archive(
    plan: ExportPlan,
    drawings: Seq<Drawing>,
    base: crate::settings::ConversionSettings,
    date: Seq<char>,
    outputs: Seq<Vec<u8>>,
    z: ArchiveWriter,
)
    requires
        drawings.len() == 2,
        plan_matches(plan, drawings, base, date),
        plan matches ExportPlan::Archive { folder, comment, jobs, .. } && outputs.len() == jobs@.len()
            && zip_entries(z) == archive_contents(folder@, jobs@, outputs) && zip_comment(z) == comment@,
    ensures
        zip_entries(z).len() == 3,
        zip_entries(z)[0].0 == "svg2gcode_output"@ + "/"@,
        zip_entries(z)[1].0 == "svg2gcode_output"@ + "/"@ + toolpath_name(drawings[0].filename@),
        zip_entries(z)[2].0 == "svg2gcode_output"@ + "/"@ + toolpath_name(drawings[1].filename@),
        zip_comment(z) == archive_comment(),
{
    reveal_strlit("svg2gcode_output");
    if let ExportPlan::Archive { folder, comment, jobs, .. } = plan {
        assert(crate::export::job_matches(jobs@[0], drawings[0], base, true));
        assert(crate::export::job_matches(jobs@[1], drawings[1], base, true));
        assert(folder@.last() == 't');
    }
}

} // verus!
