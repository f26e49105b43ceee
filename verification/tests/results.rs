use pyrometer_fiesta::dispatch::{poll_action, ChildStatus, Dispatcher, PollAction};
use pyrometer_fiesta::exit_type::ExitType;
use pyrometer_fiesta::metadata::{FiestaMetadata, SourceType};
use pyrometer_fiesta::receive::{waits_for_result, Received, ReceivedResults, RxAction};
use pyrometer_fiesta::results::{ChildOutput, ResultMessage, ResultsRow, ResultsWriter};
use pyrometer_fiesta::seconds::Seconds;
use pyrometer_fiesta::settings::{
    get_jobs, get_num_contracts, get_output_path, job_limit, output_path_at,
};
use pyrometer_fiesta::tally::{result_table, ResultDistribution};

fn metadata(hash: &str) -> FiestaMetadata {
    FiestaMetadata {
        contract_name: "Token".to_string(),
        compiler_version: "v0.8.17".to_string(),
        runs: 200,
        optimization_used: false,
        bytecode_hash: hash.to_string(),
        abs_path_to_dir: "/dir".to_string(),
        source_type: Some(SourceType::SingleMain("contract Token {}".to_string())),
    }
}

fn message(hash: &str, child: Option<(&str, &str)>) -> Received {
    Received::Message(ResultMessage {
        metadata: metadata(hash),
        child: child.map(|(stdout, stderr)| ChildOutput {
            stdout: Some(stdout.to_string()),
            stderr: Some(stderr.to_string()),
        }),
        time: Seconds { millis: 125 },
        size: 1024,
    })
}

fn line(action: RxAction) -> String {
    match action {
        RxAction::Append(line) => line,
        other => panic!("{:?}", other),
    }
}

#[test]
fn a_row_is_five_fields() {
    let row = ResultsRow::from(
        ExitType::Error("no, really".to_string()),
        "0xabc".to_string(),
        SourceType::Multiple(vec![]),
        Seconds { millis: 1500 },
        987654321,
    );
    let text = row.convert_to_csv_string();
    assert_eq!(text, "0xabc,Error: no: really,1.500,MultipleFiles,987654321\n");
    assert_eq!(
        text.trim_end_matches('\n').split(',').collect::<Vec<_>>(),
        vec!["0xabc", "Error: no: really", "1.500", "MultipleFiles", "987654321"]
    );
}

#[test]
fn the_header_names_five_fields() {
    let header = ResultsWriter::convert_fields_to_header();
    assert_eq!(header, "bytecode_hash,result,time (sec),source_type,source_size\n");
    assert_eq!(header.split(',').count(), 5);
}

#[test]
fn a_results_line_is_the_row_of_the_contract() {
    assert_eq!(
        ResultsWriter::results_line(
            metadata("0x1"),
            ExitType::PerformanceTimeout,
            Seconds { millis: 1000 },
            0
        ),
        "0x1,PerformanceTimeout,1.000,SingleFile,0\n"
    );
}

#[test]
fn results_are_written_and_counted() {
    let done = "DONE ANALYZING IN: 3ms. Writing to cli...\n";
    let mut results = ReceivedResults::new();
    assert_eq!(
        line(results.on_received(message("0x1", Some((done, ""))))),
        "0x1,Success,0.125,SingleFile,1024\n"
    );
    assert_eq!(
        line(results.on_received(message("0x2", None))),
        "0x2,PerformanceTimeout,0.125,SingleFile,1024\n"
    );
    assert!(matches!(
        results.on_received(Received::Disconnected),
        RxAction::Continue
    ));
    assert_eq!(
        line(results.on_received(message("0x3", Some((done, ""))))),
        "0x3,Success,0.125,SingleFile,1024\n"
    );
    assert_eq!(
        line(results.on_received(message("0x4", Some(("", "?"))))),
        "0x4,NonInterpreted Error,0.125,SingleFile,1024\n"
    );
    assert!(matches!(results.on_received(Received::Timeout), RxAction::Quit));
    assert_eq!(results.parse_count(), 2);
    assert_eq!(results.total_parsable(), 4);

    let (distribution, total) = results.into_distribution();
    assert_eq!(total, 4);
    assert_eq!(distribution.count(&"Success".to_string()), 2);
    assert_eq!(distribution.count(&"PerformanceTimeout".to_string()), 1);
    assert_eq!(distribution.count(&"Error: ?".to_string()), 0);
    assert_eq!(
        distribution.sorted(),
        vec![
            ("Success".to_string(), 2),
            ("PerformanceTimeout".to_string(), 1),
            ("NonInterpreted Error".to_string(), 1),
        ]
    );
}

#[test]
fn a_result_is_recorded_as_it_is_told() {
    let mut results = ReceivedResults::new();
    let text = results.record_result(
        metadata("0x9"),
        ExitType::ThreadPanic("a,b".to_string()),
        Seconds { millis: 1 },
        12,
    );
    assert_eq!(text, "0x9,ThreadPanic: a:b,0.001,SingleFile,12\n");
    assert_eq!(results.parse_count(), 0);
    assert_eq!(results.total_parsable(), 1);
}

#[test]
fn receiving_goes_on_until_told_otherwise() {
    assert!(waits_for_result(false, false));
    assert!(!waits_for_result(true, false));
    assert!(!waits_for_result(false, true));
    assert!(!waits_for_result(true, true));
}

#[test]
fn each_label_is_counted_apart() {
    let mut distribution = ResultDistribution::new();
    for label in ["a", "b", "a", "c", "b", "a"] {
        distribution.record(label.to_string());
    }
    assert_eq!(distribution.count(&"a".to_string()), 3);
    assert_eq!(distribution.count(&"b".to_string()), 2);
    assert_eq!(distribution.count(&"c".to_string()), 1);
    assert_eq!(distribution.count(&"d".to_string()), 0);
}

#[test]
fn the_table_has_titles_and_a_row_for_each_label() {
    let sorted = vec![("Success".to_string(), 12usize), ("Error: x".to_string(), 3)];
    let percentages = vec!["80.00%".to_string(), "20.00%".to_string()];
    assert_eq!(
        result_table(sorted, &percentages),
        vec![
            vec!["Result Type", "Count", "Percentage"],
            vec!["Success", "12", "80.00%"],
            vec!["Error: x", "3", "20.00%"],
        ]
    );
    assert_eq!(result_table(vec![], &vec![]).len(), 1);
}

#[test]
fn contracts_are_launched_in_order() {
    let mut dispatcher = Dispatcher::new(3);
    assert_eq!(dispatcher.next_contract(false), Some(0));
    assert_eq!(dispatcher.next_contract(false), Some(1));
    assert_eq!(dispatcher.next_contract(false), Some(2));
    assert_eq!(dispatcher.next_contract(false), None);
    assert_eq!(dispatcher.next_contract(false), None);
}

#[test]
fn nothing_is_launched_after_an_early_exit() {
    let mut dispatcher = Dispatcher::new(3);
    assert_eq!(dispatcher.next_contract(false), Some(0));
    assert_eq!(dispatcher.next_contract(true), None);
    assert_eq!(dispatcher.next_contract(false), None);
}

#[test]
fn a_process_is_stopped_past_its_timeout_only() {
    let second = 1_000_000_000u128;
    let timeout = Some(second);
    assert_eq!(poll_action(ChildStatus::Running, second - 1, timeout), PollAction::Wait);
    assert_eq!(poll_action(ChildStatus::Running, second, timeout), PollAction::Wait);
    assert_eq!(
        poll_action(ChildStatus::Running, second + 1, timeout),
        PollAction::KillAndReport
    );
    assert_eq!(
        poll_action(ChildStatus::Exited, 2 * second, timeout),
        PollAction::ReportExit
    );
    assert_eq!(poll_action(ChildStatus::Unknown, 0, timeout), PollAction::GiveUp);
}

#[test]
fn a_process_without_timeout_is_never_stopped() {
    assert_eq!(poll_action(ChildStatus::Running, u128::MAX, None), PollAction::Wait);
    assert_eq!(poll_action(ChildStatus::Exited, u128::MAX, None), PollAction::ReportExit);
    assert_eq!(poll_action(ChildStatus::Unknown, 0, None), PollAction::GiveUp);
}

#[test]
fn every_row_has_the_columns_of_the_header() {
    let header = ResultsWriter::convert_fields_to_header();
    for result in [
        ExitType::Success,
        ExitType::PerformanceTimeout,
        ExitType::Error("a,b,c,d,e,f".to_string()),
        ExitType::ThreadPanic(",".to_string()),
        ExitType::NonInterpreted(",,".to_string(), ",".to_string()),
    ] {
        let row = ResultsRow::from(
            result,
            "0xabc".to_string(),
            SourceType::EtherscanMetadata(",".to_string()),
            Seconds { millis: 1_234_567 },
            1_000_000,
        )
        .convert_to_csv_string();
        assert!(row.ends_with("JSON,1000000\n"));
        assert_eq!(row.matches(',').count(), 4);
        assert_eq!(row.matches(',').count(), header.matches(',').count());
    }
}

#[test]
fn a_process_is_settled_by_the_first_decision() {
    let looks = [
        (ChildStatus::Running, 1u128),
        (ChildStatus::Running, 10),
        (ChildStatus::Running, 11),
        (ChildStatus::Exited, 12),
    ];
    let mut actions = Vec::new();
    for (status, elapsed) in looks {
        let action = poll_action(status, elapsed, Some(10));
        actions.push(action);
        if action != PollAction::Wait {
            break;
        }
    }
    assert_eq!(
        actions,
        vec![PollAction::Wait, PollAction::Wait, PollAction::KillAndReport]
    );
}

#[test]
fn the_number_of_contracts_has_a_default_and_no_limit() {
    assert_eq!(get_num_contracts(None), 1000);
    assert_eq!(get_num_contracts(Some(0)), usize::MAX);
    assert_eq!(get_num_contracts(Some(1)), 1);
    assert_eq!(get_num_contracts(Some(150_000)), 150_000);
}

#[test]
fn jobs_default_to_the_processors() {
    assert_eq!(job_limit(None, 300), 300);
    assert_eq!(job_limit(Some(4), 300), 4);
    assert_eq!(get_jobs(Some(0)), 0);
    assert_eq!(get_jobs(Some(255)), 255);
    assert_eq!(get_jobs(None), num_cpus::get());
}

#[test]
fn the_results_file_is_named_after_the_time() {
    assert_eq!(
        output_path_at(None, "02-03_04-05"),
        "./data/results_02-03_04-05.csv"
    );
    assert_eq!(output_path_at(Some("x.csv".to_string()), "02-03_04-05"), "x.csv");
    assert_eq!(get_output_path(Some("out/x.csv".to_string())), "out/x.csv");

    let path = get_output_path(None);
    let timestamp = path
        .strip_prefix("./data/results_")
        .unwrap()
        .strip_suffix(".csv")
        .unwrap();
    assert_eq!(timestamp.len(), 11);
    let month: u32 = timestamp[0..2].parse().unwrap();
    let day: u32 = timestamp[3..5].parse().unwrap();
    let hour: u32 = timestamp[6..8].parse().unwrap();
    let minute: u32 = timestamp[9..11].parse().unwrap();
    assert!((1..=12).contains(&month));
    assert!((1..=31).contains(&day));
    assert!(hour <= 23 && minute <= 59);
    assert_eq!(&timestamp[2..3], "-");
    assert_eq!(&timestamp[5..6], "_");
    assert_eq!(&timestamp[8..9], "-");
}
