use netspeed::cli::{usage_message, Invocation};
use netspeed::command::{speedtest_command, SPEEDTEST_BIN_NAME, SPEEDTEST_URL, TARBALL_NAME};
use netspeed::pipeline::{Event, Failure, Run, Stage, Step};

const OUTPUT: &str = r#"{"download":{"bandwidth":125000},"upload":{"bandwidth":62500},"ping":{"latency":12.345},"isp":"ExampleISP","server":{"ip":"1.2.3.4","country":"US","location":"NYC"}}"#;

fn started() -> Run {
    let (run, step) = Run::start(Invocation::DownloadTest, Some("temp_1603000000123".to_string()));
    assert_eq!(step, Step::CreateDirectory);
    assert_eq!(run.stage, Stage::CreatingDirectory);
    run
}

fn at_stage(stage: Stage) -> Run {
    let mut run = started();
    let events = [
        Event::Done,
        Event::Done,
        Event::Done,
        Event::Output(OUTPUT.to_string()),
        Event::Done,
        Event::Done,
    ];
    for event in events {
        if run.stage == stage {
            break;
        }
        run.advance(event);
    }
    assert_eq!(run.stage, stage);
    run
}

#[test]
fn the_arguments_that_name_a_test() {
    assert_eq!(Invocation::parse(Some("-d")), Invocation::DownloadTest);
    assert_eq!(Invocation::parse(Some("-u")), Invocation::UploadTest);
}

#[test]
fn every_other_argument_asks_for_the_usage() {
    assert_eq!(Invocation::parse(None), Invocation::Usage);
    for argument in ["", "-", "-x", "d", "-D", "-d ", " -d", "--d", "-du", "download", "-h"] {
        assert_eq!(Invocation::parse(Some(argument)), Invocation::Usage, "{:?}", argument);
    }
}

#[test]
fn the_usage_message_names_both_tests() {
    let message = usage_message();
    assert!(message.contains("-d"));
    assert!(message.contains("-u"));
}

#[test]
fn a_command_line_without_a_test_touches_nothing() {
    for argument in [None, Some("-x"), Some("")] {
        let (mut run, step) = Run::begin(argument);
        assert_eq!(step, Step::Usage);
        assert_eq!(run.stage, Stage::Finished);
        assert_eq!(run.dir, "");
        assert!(run.lines.is_empty());
        assert_eq!(run.advance(Event::Done), Step::Finish);
        assert_eq!(run.advance(Event::Failed), Step::Finish);
        assert_eq!(run.advance(Event::Output(OUTPUT.to_string())), Step::Finish);
        assert_eq!(run.stage, Stage::Finished);
        assert!(run.lines.is_empty());
    }
    let (run, step) = Run::start(Invocation::Usage, Some("temp_1".to_string()));
    assert_eq!(step, Step::Usage);
    assert_eq!(run.stage, Stage::Finished);
    assert_eq!(run.dir, "");
}

#[test]
fn a_named_test_starts_in_a_workspace_of_its_own() {
    for argument in ["-d", "-u"] {
        let (run, step) = Run::begin(Some(argument));
        assert_eq!(step, Step::CreateDirectory);
        assert_eq!(run.stage, Stage::CreatingDirectory);
        let digits = run.dir.strip_prefix("temp_").expect("the workspace is named temp_...");
        assert!(!digits.is_empty() && digits.chars().all(|c| c.is_ascii_digit()));
    }
}

#[test]
fn a_run_without_a_name_gives_up() {
    let (mut run, step) = Run::start(Invocation::UploadTest, None);
    assert_eq!(step, Step::Abort(Failure::DirectoryName));
    assert_eq!(run.stage, Stage::Finished);
    assert_eq!(run.advance(Event::Done), Step::Finish);
}

#[test]
fn a_run_that_goes_well_takes_every_step_in_order() {
    let mut run = started();
    assert_eq!(run.advance(Event::Done), Step::Download);
    assert_eq!(run.stage, Stage::Downloading);
    assert_eq!(run.advance(Event::Done), Step::Extract);
    assert_eq!(run.stage, Stage::Extracting);
    assert_eq!(run.advance(Event::Done), Step::RunTool);
    assert_eq!(run.stage, Stage::Running);
    assert!(run.lines.is_empty());
    assert_eq!(run.advance(Event::Output(OUTPUT.to_string())), Step::PrintReport);
    assert_eq!(run.stage, Stage::Reporting);
    assert_eq!(
        run.lines,
        vec![
            "isp: ExampleISP".to_string(),
            "download: 1.00 Mbps".to_string(),
            "upload: 0.50 Mbps".to_string(),
            "latency: 12.35 ms".to_string(),
            "test server: NYC, US 1.2.3.4".to_string(),
        ]
    );
    assert_eq!(run.advance(Event::Done), Step::RemoveDirectory);
    assert_eq!(run.stage, Stage::CleaningUp);
    assert_eq!(run.advance(Event::Done), Step::Finish);
    assert_eq!(run.stage, Stage::Finished);
    assert_eq!(run.advance(Event::Done), Step::Finish);
    assert_eq!(run.dir, "temp_1603000000123");
    assert_eq!(run.lines.len(), 5);
}

#[test]
fn a_failed_step_ends_the_run() {
    let cases = [
        (Stage::CreatingDirectory, Failure::Directory),
        (Stage::Downloading, Failure::Download),
        (Stage::Extracting, Failure::Extraction),
        (Stage::Running, Failure::Tool),
    ];
    for (stage, failure) in cases {
        let mut run = at_stage(stage);
        assert_eq!(run.advance(Event::Failed), Step::Abort(failure), "{:?}", stage);
        assert_eq!(run.stage, Stage::Finished);
        assert_eq!(run.dir, "temp_1603000000123");
        assert_eq!(run.advance(Event::Done), Step::Finish);
        assert_eq!(run.advance(Event::Output(OUTPUT.to_string())), Step::Finish);
    }
}

#[test]
fn a_result_that_gives_no_report_ends_the_run() {
    for output in ["", "{", "{}", r#"{"download":{"bandwidth":125000}}"#] {
        let mut run = at_stage(Stage::Running);
        assert_eq!(
            run.advance(Event::Output(output.to_string())),
            Step::Abort(Failure::Results),
            "{:?}",
            output
        );
        assert_eq!(run.stage, Stage::Finished);
        assert!(run.lines.is_empty());
        assert_eq!(run.advance(Event::Done), Step::Finish);
    }
}

#[test]
fn a_tool_that_ends_without_output_has_failed() {
    let mut run = at_stage(Stage::Running);
    assert_eq!(run.advance(Event::Done), Step::Abort(Failure::Tool));
    assert_eq!(run.stage, Stage::Finished);
}

#[test]
fn output_counts_as_done_where_none_is_waited_for() {
    let mut run = started();
    assert_eq!(run.advance(Event::Output(OUTPUT.to_string())), Step::Download);
    assert_eq!(run.advance(Event::Output(String::new())), Step::Extract);
    assert_eq!(run.advance(Event::Output(String::new())), Step::RunTool);
    assert!(run.lines.is_empty());
}

#[test]
fn the_workspace_is_removed_after_the_report_whatever_the_printing_did() {
    for event in [Event::Done, Event::Failed, Event::Output(String::new())] {
        let mut run = at_stage(Stage::Reporting);
        assert_eq!(run.advance(event), Step::RemoveDirectory);
        assert_eq!(run.stage, Stage::CleaningUp);
        assert_eq!(run.lines.len(), 5);
    }
}

#[test]
fn a_failed_cleanup_leaves_the_report_as_it_was() {
    let mut run = at_stage(Stage::CleaningUp);
    let before = run.lines.clone();
    assert_eq!(run.advance(Event::Failed), Step::Warn(Failure::Cleanup));
    assert_eq!(run.lines, before);
    assert_eq!(run.lines[1], "download: 1.00 Mbps");
    assert_eq!(run.stage, Stage::Finished);
    assert_eq!(run.dir, "temp_1603000000123");
    assert_eq!(run.advance(Event::Done), Step::Finish);
    assert_eq!(run.advance(Event::Failed), Step::Finish);
    assert_eq!(run.lines, before);
    assert_eq!(
        Failure::Cleanup.message(&run.dir),
        "Unable to clean files. Please remove directory: temp_1603000000123"
    );
}

#[test]
fn the_messages_of_the_failures() {
    let dir = "temp_7";
    assert_eq!(Failure::DirectoryName.message(dir), "error creating temp directory name");
    assert_eq!(Failure::Directory.message(dir), "error creating temp directory");
    assert_eq!(Failure::Download.message(dir), "error downloading speedtest");
    assert_eq!(Failure::Extraction.message(dir), "error extracting speedtest");
    assert_eq!(Failure::Tool.message(dir), "error running speedtest");
    assert_eq!(Failure::Results.message(dir), "error reading results");
    assert_eq!(
        Failure::Cleanup.message(dir),
        "Unable to clean files. Please remove directory: temp_7"
    );
    assert_eq!(
        Failure::Cleanup.message(""),
        "Unable to clean files. Please remove directory: "
    );
}

#[test]
fn the_command_runs_the_tool_of_the_workspace() {
    assert_eq!(
        speedtest_command("temp_1603000000123", "speedtest"),
        "./temp_1603000000123/speedtest -f json --accept-license --accept-gdpr"
    );
    assert_eq!(speedtest_command("", ""), ".// -f json --accept-license --accept-gdpr");
    assert_eq!(
        speedtest_command("a b", "c;d"),
        "./a b/c;d -f json --accept-license --accept-gdpr"
    );
    assert_eq!(
        started().command(),
        "./temp_1603000000123/speedtest -f json --accept-license --accept-gdpr"
    );
}

#[test]
fn the_names_of_the_files() {
    assert_eq!(TARBALL_NAME, "speedtest.tgz");
    assert_eq!(SPEEDTEST_BIN_NAME, "speedtest");
    assert!(SPEEDTEST_URL.starts_with("https://"));
    assert!(SPEEDTEST_URL.ends_with(".tgz"));
}

#[test]
fn bytes_that_are_text_are_the_output() {
    match Event::from_output(OUTPUT.as_bytes().to_vec()) {
        Event::Output(text) => assert_eq!(text, OUTPUT),
        other => panic!("text is output, not {:?}", other),
    }
    match Event::from_output("caf\u{e9} \u{4e2d}\u{6587} \u{1f600}".as_bytes().to_vec()) {
        Event::Output(text) => assert_eq!(text, "caf\u{e9} \u{4e2d}\u{6587} \u{1f600}"),
        other => panic!("text is output, not {:?}", other),
    }
    match Event::from_output(Vec::new()) {
        Event::Output(text) => assert_eq!(text, ""),
        other => panic!("no bytes are the empty text, not {:?}", other),
    }
}

#[test]
fn bytes_that_are_no_text_are_a_failure() {
    for bytes in [vec![0xff_u8], vec![b'a', 0x80], vec![0xc3], vec![0xed, 0xa0, 0x80], vec![0xc0, 0xaf]] {
        assert!(matches!(Event::from_output(bytes), Event::Failed));
    }
    let mut run = at_stage(Stage::Running);
    assert_eq!(run.advance(Event::from_output(vec![0xff])), Step::Abort(Failure::Tool));
}

#[test]
fn the_output_of_the_tool_becomes_the_report() {
    let mut run = at_stage(Stage::Running);
    assert_eq!(run.advance(Event::from_output(OUTPUT.as_bytes().to_vec())), Step::PrintReport);
    assert_eq!(run.lines[0], "isp: ExampleISP");
    assert_eq!(run.lines[4], "test server: NYC, US 1.2.3.4");
}

#[test]
fn a_failed_cleanup_is_told_and_not_given_up_on() {
    let mut run = started();
    let mut steps = Vec::new();
    let events = [
        Event::Done,
        Event::Done,
        Event::Done,
        Event::from_run(true, OUTPUT.as_bytes().to_vec()),
        Event::Done,
        Event::Failed,
        Event::Done,
    ];
    for event in events {
        steps.push(run.advance(event));
    }
    assert_eq!(
        steps,
        vec![
            Step::Download,
            Step::Extract,
            Step::RunTool,
            Step::PrintReport,
            Step::RemoveDirectory,
            Step::Warn(Failure::Cleanup),
            Step::Finish,
        ]
    );
    assert!(steps.iter().all(|step| !matches!(step, Step::Abort(_))));
    assert_eq!(run.lines.len(), 5);
}

#[test]
fn no_step_after_the_report_gives_up() {
    for stage in [Stage::Reporting, Stage::CleaningUp, Stage::Finished] {
        for event in [Event::Done, Event::Failed, Event::Output(String::new())] {
            let mut run = at_stage(stage);
            let step = run.advance(event);
            assert!(!matches!(step, Step::Abort(_)), "{:?}", stage);
            assert_eq!(run.lines.len(), 5);
        }
    }
}

#[test]
fn a_tool_that_ended_with_a_failure_has_failed_whatever_it_wrote() {
    assert!(matches!(Event::from_run(false, OUTPUT.as_bytes().to_vec()), Event::Failed));
    assert!(matches!(Event::from_run(false, Vec::new()), Event::Failed));
    assert!(matches!(Event::from_run(false, vec![0xff]), Event::Failed));
    let mut run = at_stage(Stage::Running);
    assert_eq!(
        run.advance(Event::from_run(false, OUTPUT.as_bytes().to_vec())),
        Step::Abort(Failure::Tool)
    );
    assert_eq!(run.stage, Stage::Finished);
    assert!(run.lines.is_empty());
}

#[test]
fn a_tool_that_ended_well_hands_on_what_it_wrote() {
    match Event::from_run(true, OUTPUT.as_bytes().to_vec()) {
        Event::Output(text) => assert_eq!(text, OUTPUT),
        other => panic!("text is output, not {:?}", other),
    }
    assert!(matches!(Event::from_run(true, vec![0xff]), Event::Failed));
    let mut run = at_stage(Stage::Running);
    assert_eq!(
        run.advance(Event::from_run(true, OUTPUT.as_bytes().to_vec())),
        Step::PrintReport
    );
    assert_eq!(run.lines[2], "upload: 0.50 Mbps");
}
