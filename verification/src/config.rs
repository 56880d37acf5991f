use vstd::prelude::*;

use crate::errors::Error;
use crate::timecode::{append_bytes, copy_range, dec_rep, u64_to_decimal};

verus! {

/// The required extension of the final output path: `.mp4`.
pub open spec fn required_extension() -> Seq<u8> {
    seq![46u8, 109u8, 112u8, 52u8]
}

/// The path ends with the required extension.
pub open spec fn has_required_extension(path: Seq<u8>) -> bool {
    path.len() >= 4 && path.subrange(path.len() - 4, path.len() as int) == required_extension()
}

/// The file-name component of a path: everything after the last separator,
/// or the whole path when it has none.
pub open spec fn file_name_of(path: Seq<u8>) -> Seq<u8>
    decreases path.len(),
{
    if path.len() == 0 {
        path
    } else if path.last() == 47 {
        Seq::<u8>::empty()
    } else {
        file_name_of(path.drop_last()).push(path.last())
    }
}

/// A usable output path: it ends with the required extension and its
/// file-name component has a base name beyond the extension.
pub open spec fn valid_output_path(path: Seq<u8>) -> bool {
    has_required_extension(path) && file_name_of(path).len() > 4
}

/// Joining a directory and an entry name with a separator, adding none when
/// the directory already ends with one or is empty.
pub open spec fn path_join(dir: Seq<u8>, name: Seq<u8>) -> Seq<u8> {
    if dir.len() == 0 {
        name
    } else if dir.last() == 47 {
        dir + name
    } else {
        dir + seq![47u8] + name
    }
}

/// The name of a job's working directory: the output file name, a dash, and
/// the job identifier (the creation timestamp of a fresh job, or the resume
/// identifier, which is exactly a prior run's timestamp).
pub open spec fn job_dir_name(output_name: Seq<u8>, id: Seq<u8>) -> Seq<u8> {
    output_name + seq![45u8] + id
}

/// A validated capture job, immutable once constructed. All paths and device
/// identifiers are byte strings as the platform hands them over.
#[derive(Debug)]
pub struct JobConfig {
    /// The per-job scratch directory holding one artifact per completed
    /// stage.
    pub work_dir: Vec<u8>,
    /// The user-specified final destination.
    pub output: Vec<u8>,
    /// The file-name component of `output`, used to name the job directory.
    pub output_name: Vec<u8>,
    /// Video capture device identifier, passed through to the media tool.
    pub video: Vec<u8>,
    /// Audio capture device identifier, passed through to the media tool.
    pub audio: Vec<u8>,
    /// Optional recording time limit, passed through verbatim.
    pub duration: Option<Vec<u8>>,
}

/// What must hold of the job directory before the pipeline may run: a fresh
/// job's directory is created, a resumed job's directory must already exist.
#[derive(Debug, PartialEq, Eq)]
pub enum JobDirPlan {
    CreateNew,
    RequireExisting,
}

impl JobConfig {
    /// The configuration was assembled from `output`, the sources, `parent`,
    /// and the job identifier text `id`.
    pub open spec fn built_from(
        self,
        output: Seq<u8>,
        video: Seq<u8>,
        audio: Seq<u8>,
        duration: Option<Vec<u8>>,
        parent: Seq<u8>,
        id: Seq<u8>,
    ) -> bool {
        &&& self.output@ == output
        &&& self.output_name@ == file_name_of(output)
        &&& self.video@ == video
        &&& self.audio@ == audio
        &&& self.duration == duration
        &&& self.work_dir@ == path_join(parent, job_dir_name(file_name_of(output), id))
    }
}

/// The job identifier in use: the resume identifier when one was given, else
/// the decimal of the fresh job's creation timestamp.
pub open spec fn job_id_text(resume: Option<Vec<u8>>, timestamp: u64) -> Seq<u8> {
    match resume {
        Some(id) => id@,
        None => dec_rep(timestamp as nat),
    }
}

/// Finds the file-name component of `path`.
fn file_name(path: &Vec<u8>) -> (r: Vec<u8>)
    ensures
        r@ == file_name_of(path@),
{
    let n = path.len();
    let mut cut: usize = n;
    while cut > 0 && path[cut - 1] != 47
        invariant
            0 <= cut <= n,
            n == path@.len(),
            forall|k: int| cut <= k < n ==> path@[k] != 47,
        decreases cut,
    {
        cut = cut - 1;
    }
    proof {
        lemma_file_name_suffix(path@, cut as int);
    }
    copy_range(path, cut, n)
}

/// If no separator stands at or after `cut`, and `cut` is either the start
/// or just past a separator, the file name is the suffix from `cut`.
proof fn lemma_file_name_suffix(path: Seq<u8>, cut: int)
    requires
        0 <= cut <= path.len(),
        forall|k: int| cut <= k < path.len() ==> path[k] != 47,
        cut > 0 ==> path[cut - 1] == 47,
    ensures
        file_name_of(path) == path.subrange(cut, path.len() as int),
    decreases path.len(),
{
    if path.len() == 0 {
        assert(path.subrange(0, 0) =~= path);
    } else if cut == path.len() {
        assert(path.last() == 47);
        assert(file_name_of(path) =~= path.subrange(cut, path.len() as int));
    } else {
        assert(path.last() != 47);
        let d = path.drop_last();
        assert(forall|k: int| cut <= k < d.len() ==> d[k] == path[k] && d[k] != 47);
        lemma_file_name_suffix(d, cut);
        assert(file_name_of(path) == d.subrange(cut, d.len() as int).push(path.last()));
        assert(d.subrange(cut, d.len() as int).push(path.last()) =~= path.subrange(
            cut,
            path.len() as int,
        ));
    }
}

/// Whether `path` ends with the required extension.
fn check_required_extension(path: &Vec<u8>) -> (r: bool)
    ensures
        r == has_required_extension(path@),
{
    let n = path.len();
    if n < 4 {
        return false;
    }
    let r = path[n - 4] == 46 && path[n - 3] == 109 && path[n - 2] == 112 && path[n - 1] == 52;
    proof {
        if r {
            assert(path@.subrange(n - 4, n as int) =~= required_extension());
        } else {
            if has_required_extension(path@) {
                assert(path@.subrange(n - 4, n as int)[0] == path@[n - 4]);
                assert(path@.subrange(n - 4, n as int)[1] == path@[n - 3]);
                assert(path@.subrange(n - 4, n as int)[2] == path@[n - 2]);
                assert(path@.subrange(n - 4, n as int)[3] == path@[n - 1]);
            }
        }
    }
    r
}

/// Joins a directory path and an entry name.
pub fn join_path(dir: &Vec<u8>, name: &Vec<u8>) -> (r: Vec<u8>)
    ensures
        r@ == path_join(dir@, name@),
{
    let mut out: Vec<u8> = Vec::new();
    append_bytes(&mut out, dir);
    if dir.len() > 0 && dir[dir.len() - 1] != 47 {
        out.push(47);
    }
    append_bytes(&mut out, name);
    proof {
        assert(out@ =~= path_join(dir@, name@));
    }
    out
}

/// Validates the caller-supplied inputs and derives the job's working
/// directory, without touching the filesystem.
///
/// Exactly one of three things comes back: `InvalidOutputExtension` when the
/// output path does not end with the required extension,
/// `InvalidOutputPath` when it does but leaves no base name, and otherwise
/// the configuration together with what the driver must do about the job
/// directory — create it for a fresh job (identified by `timestamp`), or
/// require it to exist for a resumed one.
pub fn plan_config(
    output: Vec<u8>,
    video: Vec<u8>,
    audio: Vec<u8>,
    duration: Option<Vec<u8>>,
    parent_tmpdir: Vec<u8>,
    resume: Option<Vec<u8>>,
    timestamp: u64,
) -> (r: Result<(JobConfig, JobDirPlan), Error>)
    ensures
        r == Err::<(JobConfig, JobDirPlan), Error>(Error::InvalidOutputExtension)
            <==> !has_required_extension(output@),
        r == Err::<(JobConfig, JobDirPlan), Error>(Error::InvalidOutputPath)
            <==> has_required_extension(output@) && !valid_output_path(output@),
        r is Ok <==> valid_output_path(output@),
        r matches Ok((c, plan)) ==> {
            &&& c.built_from(
                output@,
                video@,
                audio@,
                duration,
                parent_tmpdir@,
                job_id_text(resume, timestamp),
            )
            &&& plan == (if resume is Some {
                JobDirPlan::RequireExisting
            } else {
                JobDirPlan::CreateNew
            })
        },
{
    if !check_required_extension(&output) {
        return Err(Error::InvalidOutputExtension);
    }
    let output_name = file_name(&output);
    if output_name.len() <= 4 {
        return Err(Error::InvalidOutputPath);
    }
    let (id, plan): (Vec<u8>, JobDirPlan) = match resume {
        Some(resume_id) => (resume_id, JobDirPlan::RequireExisting),
        None => (u64_to_decimal(timestamp), JobDirPlan::CreateNew),
    };
    let mut dir_name: Vec<u8> = Vec::new();
    append_bytes(&mut dir_name, &output_name);
    dir_name.push(45);
    append_bytes(&mut dir_name, &id);
    proof {
        assert(dir_name@ =~= job_dir_name(file_name_of(output@), id@));
    }
    let work_dir = join_path(&parent_tmpdir, &dir_name);
    Ok((JobConfig { work_dir, output, output_name, video, audio, duration }, plan))
}

/// The resume contract: a resumed job's directory must already exist; a
/// missing one is `NoSuchJob`.
pub fn resume_dir_check(dir_exists: bool) -> (r: Result<(), Error>)
    ensures
        r is Ok <==> dir_exists,
        !dir_exists ==> r == Err::<(), Error>(Error::NoSuchJob),
{
    if dir_exists {
        Ok(())
    } else {
        Err(Error::NoSuchJob)
    }
}

} // verus!
