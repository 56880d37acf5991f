use std::collections::HashMap;

use vcr::config::{plan_config, resume_dir_check, JobDirPlan};
use vcr::errors::Error;
use vcr::markers::parse_detect_output;
use vcr::pipeline::{
    classify_exit, pipeline_start, pipeline_step, Action, Event, PipelineState, ToolCommand,
};
use vcr::timecode::{parse_timestamp, render_timestamp, u64_to_decimal, Timestamp};

fn bytes(s: &str) -> Vec<u8> {
    s.as_bytes().to_vec()
}

fn default_config() -> vcr::config::JobConfig {
    let (config, _) = plan_config(
        bytes("/out/video.mp4"),
        bytes("/dev/video1"),
        bytes("hw:1,0"),
        None,
        bytes("/m/tmp/vcr"),
        None,
        1633024800,
    )
    .unwrap();
    config
}

#[test]
fn output_without_extension_fails_validation() {
    let r = plan_config(
        bytes("/out/video.avi"),
        bytes("v"),
        bytes("a"),
        None,
        bytes("/tmp"),
        None,
        7,
    );
    assert_eq!(r.unwrap_err(), Error::InvalidOutputExtension);
    let r = plan_config(bytes("video"), bytes("v"), bytes("a"), None, bytes("/tmp"), None, 7);
    assert_eq!(r.unwrap_err(), Error::InvalidOutputExtension);
}

#[test]
fn output_without_base_name_fails_validation() {
    let r = plan_config(
        bytes("/out/.mp4"),
        bytes("v"),
        bytes("a"),
        None,
        bytes("/tmp"),
        None,
        7,
    );
    assert_eq!(r.unwrap_err(), Error::InvalidOutputPath);
}

#[test]
fn fresh_job_derives_directory_from_name_and_timestamp() {
    let (config, plan) = plan_config(
        bytes("/out/video.mp4"),
        bytes("/dev/video1"),
        bytes("hw:1,0"),
        Some(bytes("90")),
        bytes("/m/tmp/vcr"),
        None,
        1633024800,
    )
    .unwrap();
    assert_eq!(plan, JobDirPlan::CreateNew);
    assert_eq!(config.output_name, bytes("video.mp4"));
    assert_eq!(config.work_dir, bytes("/m/tmp/vcr/video.mp4-1633024800"));
    assert_eq!(config.duration, Some(bytes("90")));
}

#[test]
fn parent_directory_with_trailing_separator_gets_no_second_one() {
    let (config, _) = plan_config(
        bytes("video.mp4"),
        bytes("v"),
        bytes("a"),
        None,
        bytes("/tmp/"),
        None,
        1,
    )
    .unwrap();
    assert_eq!(config.work_dir, bytes("/tmp/video.mp4-1"));
}

#[test]
fn resume_reuses_the_identified_directory() {
    let (config, plan) = plan_config(
        bytes("/out/video.mp4"),
        bytes("v"),
        bytes("a"),
        None,
        bytes("/m/tmp/vcr"),
        Some(bytes("12345")),
        1633024800,
    )
    .unwrap();
    assert_eq!(plan, JobDirPlan::RequireExisting);
    assert_eq!(config.work_dir, bytes("/m/tmp/vcr/video.mp4-12345"));
}

#[test]
fn resume_without_job_directory_is_no_such_job() {
    assert_eq!(resume_dir_check(false).unwrap_err(), Error::NoSuchJob);
    assert!(resume_dir_check(true).is_ok());
}

#[test]
fn marker_lines_parse_in_order_with_exact_values() {
    let lines = vec![
        bytes("frame= 100 fps= 29 q=-0.0 size=N/A"),
        bytes("[blackdetect @ 0xdead] black_start:1.0 black_end:2.0 black_duration:1.0"),
        bytes("unrelated chatter"),
        bytes("black_start:9.5 black_end:11.0 black_duration:1.5"),
    ];
    let ivs = parse_detect_output(&lines).unwrap();
    assert_eq!(ivs.len(), 2);
    assert_eq!(ivs[0].start.whole, 1);
    assert_eq!(ivs[0].start.frac, bytes("0"));
    assert_eq!(ivs[0].end.whole, 2);
    assert_eq!(ivs[0].end.frac, bytes("0"));
    assert_eq!(ivs[0].duration.whole, 1);
    assert_eq!(ivs[0].duration.frac, bytes("0"));
    assert_eq!(ivs[1].start.whole, 9);
    assert_eq!(ivs[1].start.frac, bytes("5"));
    assert_eq!(ivs[1].end.whole, 11);
    assert_eq!(ivs[1].end.frac, bytes("0"));
    assert_eq!(ivs[1].duration.whole, 1);
    assert_eq!(ivs[1].duration.frac, bytes("5"));
}

#[test]
fn parsing_is_idempotent() {
    let lines = vec![
        bytes("black_start:1.0 black_end:2.0 black_duration:1.0"),
        bytes("noise"),
    ];
    let first = parse_detect_output(&lines).unwrap();
    let second = parse_detect_output(&lines).unwrap();
    assert_eq!(first.len(), second.len());
    assert_eq!(first[0].start.whole, second[0].start.whole);
    assert_eq!(first[0].start.frac, second[0].start.frac);
}

#[test]
fn malformed_number_on_marker_line_is_a_hard_failure() {
    let lines = vec![bytes("black_start:1.2.3 black_end:2.0 black_duration:1.0")];
    assert_eq!(parse_detect_output(&lines).unwrap_err(), Error::MalformedMarkerLine);
}

#[test]
fn empty_output_has_no_intervals() {
    let lines: Vec<Vec<u8>> = vec![];
    assert_eq!(parse_detect_output(&lines).unwrap().len(), 0);
}

#[test]
fn timestamp_parsing_edges() {
    let t = parse_timestamp(&bytes("007")).unwrap();
    assert_eq!(t.whole, 7);
    assert_eq!(t.frac, bytes(""));
    let t = parse_timestamp(&bytes("1.")).unwrap();
    assert_eq!(t.whole, 1);
    assert_eq!(t.frac, bytes(""));
    let t = parse_timestamp(&bytes(".5")).unwrap();
    assert_eq!(t.whole, 0);
    assert_eq!(t.frac, bytes("5"));
    assert!(parse_timestamp(&bytes(".")).is_none());
    assert!(parse_timestamp(&bytes("")).is_none());
    assert!(parse_timestamp(&bytes("1.2.3")).is_none());
    assert!(parse_timestamp(&bytes("12x")).is_none());
    assert!(parse_timestamp(&bytes("1234567890123456789")).is_none());
    let t = parse_timestamp(&bytes("999999999999999999.25")).unwrap();
    assert_eq!(t.whole, 999999999999999999);
    assert_eq!(t.frac, bytes("25"));
}

#[test]
fn timestamps_render_back_to_decimal_text() {
    let t = Timestamp { whole: 14, frac: bytes("5") };
    assert_eq!(render_timestamp(&t), bytes("14.5"));
    let t = Timestamp { whole: 3, frac: bytes("") };
    assert_eq!(render_timestamp(&t), bytes("3"));
    assert_eq!(u64_to_decimal(0), bytes("0"));
    assert_eq!(u64_to_decimal(1633024800), bytes("1633024800"));
}

#[test]
fn signal_termination_code_counts_as_success() {
    assert!(classify_exit(true, Some(0)).is_ok());
    assert!(classify_exit(false, Some(255)).is_ok());
}

#[test]
fn other_exit_codes_surface_as_command_failed() {
    assert_eq!(
        classify_exit(false, Some(1)).unwrap_err(),
        Error::CommandFailed { code: Some(1) }
    );
    assert_eq!(
        classify_exit(false, Some(42)).unwrap_err(),
        Error::CommandFailed { code: Some(42) }
    );
    assert_eq!(classify_exit(false, None).unwrap_err(), Error::CommandFailed { code: None });
}

#[test]
fn zero_intervals_choose_stream_copy() {
    let config = default_config();
    let state = PipelineState::CheckingTrimmed { intervals: vec![] };
    let (next, action) = pipeline_step(&config, state, Event::ArtifactChecked { exists: false });
    assert!(matches!(next, PipelineState::Trimming));
    match action {
        Action::RunTool { command: ToolCommand::StreamCopy { input, dest } } => {
            assert_eq!(input, bytes("/m/tmp/vcr/video.mp4-1633024800/initial-recording"));
            assert_eq!(dest, bytes("/m/tmp/vcr/video.mp4-1633024800/trimmed-recording"));
        }
        other => panic!("expected a stream copy, got {:?}", other),
    }
}

#[test]
fn one_interval_cuts_five_seconds_past_its_start() {
    let config = default_config();
    let interval_line = vec![bytes("black_start:9.5 black_end:11.0 black_duration:1.5")];
    let intervals = parse_detect_output(&interval_line).unwrap();
    let state = PipelineState::CheckingTrimmed { intervals };
    let (next, action) = pipeline_step(&config, state, Event::ArtifactChecked { exists: false });
    assert!(matches!(next, PipelineState::Trimming));
    match action {
        Action::RunTool { command: ToolCommand::CutBefore { end, .. } } => {
            assert_eq!(end.whole, 14);
            assert_eq!(end.frac, bytes("5"));
            assert_eq!(render_timestamp(&end), bytes("14.5"));
        }
        other => panic!("expected a cut, got {:?}", other),
    }
}

#[test]
fn several_intervals_fall_back_to_a_full_transcode() {
    let config = default_config();
    let lines = vec![
        bytes("black_start:1.0 black_end:2.0 black_duration:1.0"),
        bytes("black_start:9.5 black_end:11.0 black_duration:1.5"),
    ];
    let intervals = parse_detect_output(&lines).unwrap();
    let state = PipelineState::CheckingTrimmed { intervals };
    let (next, action) = pipeline_step(&config, state, Event::ArtifactChecked { exists: false });
    assert!(matches!(next, PipelineState::Trimming));
    assert!(matches!(
        action,
        Action::RunTool { command: ToolCommand::Transcode { .. } }
    ));
}

#[test]
fn completed_stages_are_skipped_without_invoking_the_tool() {
    // A resumed job whose every artifact already exists never runs the tool.
    let config = default_config();
    let mut tool_invocations = 0;
    let (state, action) = pipeline_start(&config);
    let mut state = state;
    let mut action = action;
    loop {
        let event = match action {
            Action::CheckArtifact { .. } => Event::ArtifactChecked { exists: true },
            Action::ReadDetectOutput { .. } => Event::DetectOutputRead { lines: vec![] },
            Action::CopyToOutput { .. } => Event::OutputCopied { ok: true },
            Action::RunTool { .. } => {
                tool_invocations += 1;
                Event::ToolExited { normal_exit: true, code: Some(0) }
            }
            Action::Finish => break,
            Action::Fail { error } => panic!("job failed: {:?}", error),
        };
        let (next, next_action) = pipeline_step(&config, state, event);
        state = next;
        action = next_action;
    }
    assert_eq!(tool_invocations, 0);
    assert!(matches!(state, PipelineState::Finished));
}

#[test]
fn fresh_job_with_zero_markers_delivers_the_remuxed_recording() {
    // A fake media tool: capture writes raw bytes, detection writes chatter
    // with no marker report, a stream copy rewraps the input behind a fixed
    // prefix.
    let config = default_config();
    let mut fs: HashMap<Vec<u8>, Vec<u8>> = HashMap::new();
    let mut captures = 0;
    let mut detects = 0;
    let mut stream_copies = 0;
    let (state, action) = pipeline_start(&config);
    let mut state = state;
    let mut action = action;
    loop {
        let event = match action {
            Action::CheckArtifact { path } => Event::ArtifactChecked {
                exists: fs.contains_key(&path),
            },
            Action::ReadDetectOutput { path } => {
                let content = fs.get(&path).expect("detect output must exist");
                let lines = content
                    .split(|b| *b == b'\n')
                    .map(|l| l.to_vec())
                    .collect::<Vec<Vec<u8>>>();
                Event::DetectOutputRead { lines }
            }
            Action::CopyToOutput { source, dest } => {
                let content = fs.get(&source).expect("trimmed artifact must exist").clone();
                fs.insert(dest, content);
                Event::OutputCopied { ok: true }
            }
            Action::RunTool { command } => {
                match command {
                    ToolCommand::Capture { dest, .. } => {
                        captures += 1;
                        fs.insert(dest, bytes("RAW-CAPTURE"));
                    }
                    ToolCommand::DetectMarkers { input, sink } => {
                        detects += 1;
                        assert!(fs.contains_key(&input));
                        fs.insert(sink, bytes("frame= 1\nno markers here\n"));
                    }
                    ToolCommand::StreamCopy { input, dest } => {
                        stream_copies += 1;
                        let mut remuxed = bytes("REMUX:");
                        remuxed.extend_from_slice(fs.get(&input).unwrap());
                        fs.insert(dest, remuxed);
                    }
                    other => panic!("unexpected tool invocation: {:?}", other),
                }
                Event::ToolExited { normal_exit: true, code: Some(0) }
            }
            Action::Finish => break,
            Action::Fail { error } => panic!("job failed: {:?}", error),
        };
        let (next, next_action) = pipeline_step(&config, state, event);
        state = next;
        action = next_action;
    }
    assert!(matches!(state, PipelineState::Finished));
    assert_eq!(captures, 1);
    assert_eq!(detects, 1);
    assert_eq!(stream_copies, 1);
    assert_eq!(
        fs.get(&bytes("/out/video.mp4")).unwrap(),
        &bytes("REMUX:RAW-CAPTURE")
    );
}

#[test]
fn failed_tool_exit_fails_the_job_with_its_code() {
    let config = default_config();
    let (state, action) = pipeline_start(&config);
    assert!(matches!(action, Action::CheckArtifact { .. }));
    let (state, action) = pipeline_step(&config, state, Event::ArtifactChecked { exists: false });
    assert!(matches!(action, Action::RunTool { .. }));
    let (state, action) = pipeline_step(
        &config,
        state,
        Event::ToolExited { normal_exit: false, code: Some(1) },
    );
    assert!(matches!(state, PipelineState::Failed));
    match action {
        Action::Fail { error } => assert_eq!(error, Error::CommandFailed { code: Some(1) }),
        other => panic!("expected a failure, got {:?}", other),
    }
}

#[test]
fn failed_final_copy_is_copy_failed() {
    let config = default_config();
    let state = PipelineState::CheckingTrimmed { intervals: vec![] };
    let (state, action) = pipeline_step(&config, state, Event::ArtifactChecked { exists: true });
    assert!(matches!(action, Action::CopyToOutput { .. }));
    let (state, action) = pipeline_step(&config, state, Event::OutputCopied { ok: false });
    assert!(matches!(state, PipelineState::Failed));
    match action {
        Action::Fail { error } => assert_eq!(error, Error::CopyFailed),
        other => panic!("expected a failure, got {:?}", other),
    }
}

#[test]
fn incomplete_marker_pattern_is_ignored_not_fatal() {
    // A space after the label breaks the pattern: ordinary chatter.
    let lines = vec![bytes("black_start: 1.0 black_end:2.0 black_duration:1.0")];
    assert_eq!(parse_detect_output(&lines).unwrap().len(), 0);
}

#[test]
fn matching_starts_at_the_first_position_that_completes() {
    let lines = vec![bytes("black_start:x black_start:1.0 black_end:2.0 black_duration:1.0")];
    let ivs = parse_detect_output(&lines).unwrap();
    assert_eq!(ivs.len(), 1);
    assert_eq!(ivs[0].start.whole, 1);
    assert_eq!(ivs[0].start.frac, bytes("0"));
}
