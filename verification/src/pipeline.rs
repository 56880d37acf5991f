use vstd::prelude::*;

use crate::config::{path_join, JobConfig};
use crate::errors::Error;
use crate::markers::{all_lines_ok, intervals_match_lines, lines_view, parse_detect_output,
    MarkerInterval};
use crate::timecode::{append_bytes, Timestamp};

verus! {

/// Safety margin past a lone marker's onset: the trimmed recording ends this
/// many seconds after the marker starts, tolerant of detection jitter.
pub const TRIM_MARGIN_SECONDS: u64 = 5;

/// Artifact name of the initial recording stage, inside the job directory.
pub open spec fn recording_name() -> Seq<u8> {
    seq![
        105u8, 110u8, 105u8, 116u8, 105u8, 97u8, 108u8, 45u8, 114u8, 101u8, 99u8, 111u8, 114u8,
        100u8, 105u8, 110u8, 103u8,
    ]
}

/// Artifact name of the marker detection stage: the tool's diagnostic
/// stream, captured to a file.
pub open spec fn detect_name() -> Seq<u8> {
    seq![
        109u8, 97u8, 114u8, 107u8, 101u8, 114u8, 45u8, 100u8, 101u8, 116u8, 101u8, 99u8, 116u8,
        46u8, 111u8, 117u8, 116u8,
    ]
}

/// Artifact name of the trim stage.
pub open spec fn trimmed_name() -> Seq<u8> {
    seq![
        116u8, 114u8, 105u8, 109u8, 109u8, 101u8, 100u8, 45u8, 114u8, 101u8, 99u8, 111u8, 114u8,
        100u8, 105u8, 110u8, 103u8,
    ]
}

pub open spec fn recording_path_spec(c: JobConfig) -> Seq<u8> {
    path_join(c.work_dir@, recording_name())
}

pub open spec fn detect_path_spec(c: JobConfig) -> Seq<u8> {
    path_join(c.work_dir@, detect_name())
}

pub open spec fn trimmed_path_spec(c: JobConfig) -> Seq<u8> {
    path_join(c.work_dir@, trimmed_name())
}

/// Path of the initial recording stage's artifact.
pub fn recording_path(c: &JobConfig) -> (r: Vec<u8>)
    ensures
        r@ == recording_path_spec(*c),
{
    let name: Vec<u8> = vec![
        105u8, 110u8, 105u8, 116u8, 105u8, 97u8, 108u8, 45u8, 114u8, 101u8, 99u8, 111u8, 114u8,
        100u8, 105u8, 110u8, 103u8,
    ];
    proof {
        assert(name@ =~= recording_name());
    }
    crate::config::join_path(&c.work_dir, &name)
}

/// Path of the marker detection stage's artifact.
pub fn detect_path(c: &JobConfig) -> (r: Vec<u8>)
    ensures
        r@ == detect_path_spec(*c),
{
    let name: Vec<u8> = vec![
        109u8, 97u8, 114u8, 107u8, 101u8, 114u8, 45u8, 100u8, 101u8, 116u8, 101u8, 99u8, 116u8,
        46u8, 111u8, 117u8, 116u8,
    ];
    proof {
        assert(name@ =~= detect_name());
    }
    crate::config::join_path(&c.work_dir, &name)
}

/// Path of the trim stage's artifact.
pub fn trimmed_path(c: &JobConfig) -> (r: Vec<u8>)
    ensures
        r@ == trimmed_path_spec(*c),
{
    let name: Vec<u8> = vec![
        116u8, 114u8, 105u8, 109u8, 109u8, 101u8, 100u8, 45u8, 114u8, 101u8, 99u8, 111u8, 114u8,
        100u8, 105u8, 110u8, 103u8,
    ];
    proof {
        assert(name@ =~= trimmed_name());
    }
    crate::config::join_path(&c.work_dir, &name)
}

/// Copies a byte string.
pub fn clone_bytes(src: &Vec<u8>) -> (r: Vec<u8>)
    ensures
        r@ == src@,
{
    let mut out: Vec<u8> = Vec::new();
    append_bytes(&mut out, src);
    out
}

/// Copies an optional byte string.
pub fn clone_opt_bytes(src: &Option<Vec<u8>>) -> (r: Option<Vec<u8>>)
    ensures
        r.deep_view() == src.deep_view(),
{
    match src {
        Some(b) => Some(clone_bytes(b)),
        None => None,
    }
}

/// One invocation of the external media tool, as an abstract operation; the
/// driver translates it into the tool's own command line.
#[derive(Debug)]
pub enum ToolCommand {
    /// Capture deinterlaced video and audio from the named devices into
    /// `dest`, optionally capped at `duration`.
    Capture { video: Vec<u8>, audio: Vec<u8>, duration: Option<Vec<u8>>, dest: Vec<u8> },
    /// Blend the recording at `input` against the reference marker frame and
    /// report black segments of ten seconds or more on the diagnostic
    /// stream, which the driver captures into the file at `sink`.
    DetectMarkers { input: Vec<u8>, sink: Vec<u8> },
    /// Rewrap `input` into the target container at `dest` without
    /// re-encoding any samples.
    StreamCopy { input: Vec<u8>, dest: Vec<u8> },
    /// Re-encode `input` into `dest`, keeping only what lies before `end`.
    CutBefore { input: Vec<u8>, dest: Vec<u8>, end: Timestamp },
    /// Re-encode all of `input` into `dest`, uncut.
    Transcode { input: Vec<u8>, dest: Vec<u8> },
}

/// What the pipeline asks the driver to do next.
#[derive(Debug)]
pub enum Action {
    /// Report whether the artifact at `path` exists (the stage-completion
    /// checkpoint).
    CheckArtifact { path: Vec<u8> },
    /// Run the external media tool and report how it exited.
    RunTool { command: ToolCommand },
    /// Read the detection stage's diagnostic file and hand back its lines.
    ReadDetectOutput { path: Vec<u8> },
    /// Copy the finished artifact to the user-specified output path (a
    /// copy, not a move: the job directory stays intact for inspection).
    CopyToOutput { source: Vec<u8>, dest: Vec<u8> },
    /// The job is done; the output file is in place.
    Finish,
    /// The job has failed; report the error and stop.
    Fail { error: Error },
}

/// What the driver reports back after performing an action.
#[derive(Debug)]
pub enum Event {
    ArtifactChecked { exists: bool },
    ToolExited { normal_exit: bool, code: Option<i32> },
    DetectOutputRead { lines: Vec<Vec<u8>> },
    OutputCopied { ok: bool },
}

/// Where the pipeline stands between two actions.
#[derive(Debug)]
pub enum PipelineState {
    CheckingRecording,
    Recording,
    CheckingDetect,
    Detecting,
    ParsingDetect,
    CheckingTrimmed { intervals: Vec<MarkerInterval> },
    Trimming,
    Copying,
    Finished,
    Failed,
}

/// The exit-code policy shared by every stage that invokes the external
/// tool: a normal exit is success, and so is the tool's documented code for
/// "terminated by the pipeline's own termination signal" (an operator
/// stopping an open-ended capture is an expected ending, not an error).
pub open spec fn exit_ok(normal_exit: bool, code: Option<i32>) -> bool {
    normal_exit || code == Some(255i32)
}

/// Classifies the external tool's exit status. This is the one place the
/// exit-code policy lives; every stage that runs the tool goes through it.
pub fn classify_exit(normal_exit: bool, code: Option<i32>) -> (r: Result<(), Error>)
    ensures
        r is Ok <==> exit_ok(normal_exit, code),
        !exit_ok(normal_exit, code) ==> r == Err::<(), Error>(Error::CommandFailed { code }),
{
    if normal_exit {
        Ok(())
    } else {
        let sentinel = match code {
            Some(c) => c == 255,
            None => false,
        };
        if sentinel {
            Ok(())
        } else {
            Err(Error::CommandFailed { code })
        }
    }
}

pub open spec fn is_check_of(a: Action, path: Seq<u8>) -> bool {
    a matches Action::CheckArtifact { path: p } && p@ == path
}

pub open spec fn is_read_detect(a: Action, path: Seq<u8>) -> bool {
    a matches Action::ReadDetectOutput { path: p } && p@ == path
}

pub open spec fn is_fail(a: Action, e: Error) -> bool {
    a matches Action::Fail { error } && error == e
}

pub open spec fn is_copy_out(a: Action, c: JobConfig) -> bool {
    a matches Action::CopyToOutput { source, dest } && source@ == trimmed_path_spec(c) && dest@
        == c.output@
}

pub open spec fn is_capture_cmd(a: Action, c: JobConfig) -> bool {
    a matches Action::RunTool { command: ToolCommand::Capture { video, audio, duration, dest } }
        && video@ == c.video@ && audio@ == c.audio@ && duration.deep_view()
        == c.duration.deep_view() && dest@ == recording_path_spec(c)
}

pub open spec fn is_detect_cmd(a: Action, c: JobConfig) -> bool {
    a matches Action::RunTool { command: ToolCommand::DetectMarkers { input, sink } } && input@
        == recording_path_spec(c) && sink@ == detect_path_spec(c)
}

/// The trim-strategy decision, the pipeline's principal decision point: no
/// interval means the whole recording is content and a cheap stream copy
/// suffices; exactly one means cut a safety margin past its start,
/// re-encoding; several mean detection was ambiguous, so transcode uncut and
/// leave the cut to the operator.
pub open spec fn trim_command_for(c: JobConfig, intervals: Seq<MarkerInterval>, cmd: ToolCommand) -> bool {
    if intervals.len() == 0 {
        cmd matches ToolCommand::StreamCopy { input, dest } && input@ == recording_path_spec(c)
            && dest@ == trimmed_path_spec(c)
    } else if intervals.len() == 1 {
        cmd matches ToolCommand::CutBefore { input, dest, end } && input@ == recording_path_spec(c)
            && dest@ == trimmed_path_spec(c) && end.whole == intervals[0].start.whole
            + TRIM_MARGIN_SECONDS && end.frac@ == intervals[0].start.frac@
    } else {
        cmd matches ToolCommand::Transcode { input, dest } && input@ == recording_path_spec(c)
            && dest@ == trimmed_path_spec(c)
    }
}

/// The event kinds each state may be answered with.
pub open spec fn expects(state: PipelineState, event: Event) -> bool {
    match (state, event) {
        (PipelineState::CheckingRecording, Event::ArtifactChecked { .. }) => true,
        (PipelineState::Recording, Event::ToolExited { .. }) => true,
        (PipelineState::CheckingDetect, Event::ArtifactChecked { .. }) => true,
        (PipelineState::Detecting, Event::ToolExited { .. }) => true,
        (PipelineState::ParsingDetect, Event::DetectOutputRead { .. }) => true,
        (PipelineState::CheckingTrimmed { .. }, Event::ArtifactChecked { .. }) => true,
        (PipelineState::Trimming, Event::ToolExited { .. }) => true,
        (PipelineState::Copying, Event::OutputCopied { .. }) => true,
        _ => false,
    }
}

/// Every interval a state carries is well formed.
pub open spec fn state_wf(state: PipelineState) -> bool {
    match state {
        PipelineState::CheckingTrimmed { intervals } => forall|k: int|
            0 <= k < intervals@.len() ==> intervals@[k].wf(),
        _ => true,
    }
}

/// The pipeline's transition relation: given the configuration, the state
/// and the driver's event, what the next state and the next action must be.
///
/// Fixed control flow of the job: initial recording, marker detection,
/// parse, trim, final copy — each stage skipped when its artifact already
/// exists (the checkpoint), each tool exit classified by the shared policy,
/// and every failure terminal.
pub open spec fn transition(
    c: JobConfig,
    state: PipelineState,
    event: Event,
    next: PipelineState,
    action: Action,
) -> bool {
    match (state, event) {
        (PipelineState::CheckingRecording, Event::ArtifactChecked { exists }) => if exists {
            next == PipelineState::CheckingDetect && is_check_of(action, detect_path_spec(c))
        } else {
            next == PipelineState::Recording && is_capture_cmd(action, c)
        },
        (PipelineState::Recording, Event::ToolExited { normal_exit, code }) => if exit_ok(
            normal_exit,
            code,
        ) {
            next == PipelineState::CheckingDetect && is_check_of(action, detect_path_spec(c))
        } else {
            next == PipelineState::Failed && is_fail(action, Error::CommandFailed { code })
        },
        (PipelineState::CheckingDetect, Event::ArtifactChecked { exists }) => if exists {
            next == PipelineState::ParsingDetect && is_read_detect(action, detect_path_spec(c))
        } else {
            next == PipelineState::Detecting && is_detect_cmd(action, c)
        },
        (PipelineState::Detecting, Event::ToolExited { normal_exit, code }) => if exit_ok(
            normal_exit,
            code,
        ) {
            next == PipelineState::ParsingDetect && is_read_detect(action, detect_path_spec(c))
        } else {
            next == PipelineState::Failed && is_fail(action, Error::CommandFailed { code })
        },
        (PipelineState::ParsingDetect, Event::DetectOutputRead { lines }) => if all_lines_ok(
            lines_view(lines@),
        ) {
            &&& next matches PipelineState::CheckingTrimmed { intervals }
            &&& intervals_match_lines(intervals@, lines_view(lines@))
            &&& is_check_of(action, trimmed_path_spec(c))
        } else {
            next == PipelineState::Failed && is_fail(action, Error::MalformedMarkerLine)
        },
        (PipelineState::CheckingTrimmed { intervals }, Event::ArtifactChecked { exists }) => if exists {
            next == PipelineState::Copying && is_copy_out(action, c)
        } else {
            &&& next == PipelineState::Trimming
            &&& action matches Action::RunTool { command }
            &&& trim_command_for(c, intervals@, command)
        },
        (PipelineState::Trimming, Event::ToolExited { normal_exit, code }) => if exit_ok(
            normal_exit,
            code,
        ) {
            next == PipelineState::Copying && is_copy_out(action, c)
        } else {
            next == PipelineState::Failed && is_fail(action, Error::CommandFailed { code })
        },
        (PipelineState::Copying, Event::OutputCopied { ok }) => if ok {
            next == PipelineState::Finished && action == Action::Finish
        } else {
            next == PipelineState::Failed && is_fail(action, Error::CopyFailed)
        },
        _ => false,
    }
}

/// Starts a job: the first thing to settle is whether the initial recording
/// is already there.
pub fn pipeline_start(config: &JobConfig) -> (r: (PipelineState, Action))
    ensures
        r.0 == PipelineState::CheckingRecording,
        is_check_of(r.1, recording_path_spec(*config)),
        state_wf(r.0),
{
    (PipelineState::CheckingRecording, Action::CheckArtifact { path: recording_path(config) })
}

/// Advances the pipeline by one step: takes the driver's report on the last
/// action and decides the next state and action, per [`transition`].
pub fn pipeline_step(config: &JobConfig, state: PipelineState, event: Event) -> (r: (
    PipelineState,
    Action,
))
    requires
        expects(state, event),
        state_wf(state),
    ensures
        transition(*config, state, event, r.0, r.1),
        state_wf(r.0),
{
    match (state, event) {
        (PipelineState::CheckingRecording, Event::ArtifactChecked { exists }) => if exists {
            (PipelineState::CheckingDetect, Action::CheckArtifact { path: detect_path(config) })
        } else {
            let command = ToolCommand::Capture {
                video: clone_bytes(&config.video),
                audio: clone_bytes(&config.audio),
                duration: clone_opt_bytes(&config.duration),
                dest: recording_path(config),
            };
            (PipelineState::Recording, Action::RunTool { command })
        },
        (PipelineState::Recording, Event::ToolExited { normal_exit, code }) => match classify_exit(
            normal_exit,
            code,
        ) {
            Ok(_) => (
                PipelineState::CheckingDetect,
                Action::CheckArtifact { path: detect_path(config) },
            ),
            Err(error) => (PipelineState::Failed, Action::Fail { error }),
        },
        (PipelineState::CheckingDetect, Event::ArtifactChecked { exists }) => if exists {
            (PipelineState::ParsingDetect, Action::ReadDetectOutput { path: detect_path(config) })
        } else {
            let command = ToolCommand::DetectMarkers {
                input: recording_path(config),
                sink: detect_path(config),
            };
            (PipelineState::Detecting, Action::RunTool { command })
        },
        (PipelineState::Detecting, Event::ToolExited { normal_exit, code }) => match classify_exit(
            normal_exit,
            code,
        ) {
            Ok(_) => (
                PipelineState::ParsingDetect,
                Action::ReadDetectOutput { path: detect_path(config) },
            ),
            Err(error) => (PipelineState::Failed, Action::Fail { error }),
        },
        (PipelineState::ParsingDetect, Event::DetectOutputRead { lines }) => match parse_detect_output(
            &lines,
        ) {
            Ok(intervals) => (
                PipelineState::CheckingTrimmed { intervals },
                Action::CheckArtifact { path: trimmed_path(config) },
            ),
            Err(error) => (PipelineState::Failed, Action::Fail { error }),
        },
        (PipelineState::CheckingTrimmed { intervals }, Event::ArtifactChecked { exists }) => if exists {
            (
                PipelineState::Copying,
                Action::CopyToOutput {
                    source: trimmed_path(config),
                    dest: clone_bytes(&config.output),
                },
            )
        } else {
            let command = if intervals.len() == 0 {
                ToolCommand::StreamCopy {
                    input: recording_path(config),
                    dest: trimmed_path(config),
                }
            } else if intervals.len() == 1 {
                proof {
                    assert(intervals@[0].wf());
                }
                ToolCommand::CutBefore {
                    input: recording_path(config),
                    dest: trimmed_path(config),
                    end: intervals[0].start.plus_seconds(TRIM_MARGIN_SECONDS),
                }
            } else {
                ToolCommand::Transcode {
                    input: recording_path(config),
                    dest: trimmed_path(config),
                }
            };
            (PipelineState::Trimming, Action::RunTool { command })
        },
        (PipelineState::Trimming, Event::ToolExited { normal_exit, code }) => match classify_exit(
            normal_exit,
            code,
        ) {
            Ok(_) => (
                PipelineState::Copying,
                Action::CopyToOutput {
                    source: trimmed_path(config),
                    dest: clone_bytes(&config.output),
                },
            ),
            Err(error) => (PipelineState::Failed, Action::Fail { error }),
        },
        (PipelineState::Copying, Event::OutputCopied { ok }) => if ok {
            (PipelineState::Finished, Action::Finish)
        } else {
            (PipelineState::Failed, Action::Fail { error: Error::CopyFailed })
        },
        _ => {
            proof {
                assert(false);
            }
            (PipelineState::Failed, Action::Finish)
        },
    }
}

} // verus!
