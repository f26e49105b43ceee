use pyrometer_fiesta::exit_type::ExitType;
use pyrometer_fiesta::output::{
    convert_pyrometer_output_to_exit_type, interpret_findings, Findings,
};
use pyrometer_fiesta::results::{check_child_exit, message_exit, ChildOutput};

const DONE: &str = "DONE ANALYZING IN: 12ms. Writing to cli...\n";

const TODO_ERROR: &str = "thread 'main' panicked at crates/solc/src/expr.rs:10:5:\n\
Encountered an error: Todo(File(0, 12, 34), \"assembly blocks in 2 parts, later\")";

const PARSE_ERROR: &str = "thread 'main' panicked at crates/solc/src/expr.rs:10:5:\n\
Encountered an error: ParseError(File(0, 12, 34), \"Could not find contract\")";

const DEBUG_PANIC: &str = "thread 'main' panicked at crates/solc/src/expr.rs:10:5:\n\
Encountered an error: NotConstant(File(0, 1, 2))";

const PANIC: &str =
    "thread 'worker' panicked at crates/graph/src/range.rs:7:9:\nindex out of bounds\n";

const STACK_OVERFLOW: &str = "\nthread 'main' has overflowed its stack\nfatal runtime error\n";

const ERROR: &str = "\u{1b}[31mError:\u{1b}[0m in file\n\u{1b}[31m  Unknown type `Foo`. \u{1b}[0m\n";

fn exit(stdout: &str, stderr: &str) -> ExitType {
    convert_pyrometer_output_to_exit_type(stdout.to_string(), stderr.to_string())
}

fn label(stdout: &str, stderr: &str) -> String {
    exit(stdout, stderr).to_string()
}

fn nothing_found() -> Findings {
    Findings {
        todo_error: None,
        parse_error: None,
        debug_panic: None,
        panic: None,
        stack_overflow: false,
        error: None,
        success: false,
    }
}

fn interpret(findings: Findings) -> String {
    interpret_findings(findings, "out".to_string(), "err".to_string()).to_string()
}

#[test]
fn a_clean_run_is_a_success() {
    assert!(matches!(exit(DONE, ""), ExitType::Success));
    assert!(matches!(exit(&format!("some facts\n{}", DONE), "a warning\n"), ExitType::Success));
}

#[test]
fn a_success_must_close_the_output() {
    assert!(matches!(
        exit(&format!("{}more", DONE), ""),
        ExitType::NonInterpreted(_, _)
    ));
    assert!(matches!(
        exit("DONE ANALYZING IN: ms. Writing to cli...\n", ""),
        ExitType::NonInterpreted(_, _)
    ));
}

#[test]
fn work_left_undone_is_an_error() {
    assert_eq!(label(DONE, TODO_ERROR), "Error: Todo: assembly blocks in 2 parts");
}

#[test]
fn a_parse_error_is_an_error() {
    assert_eq!(label(DONE, PARSE_ERROR), "Error: Could not find contract");
}

#[test]
fn a_caught_error_is_a_panic_of_its_kind() {
    assert_eq!(label(DONE, DEBUG_PANIC), "ThreadPanic: NotConstant");
}

#[test]
fn any_other_panic_is_reported_with_its_place() {
    assert_eq!(
        label(DONE, PANIC),
        "ThreadPanic: crates/graph/src/range.rs:7:9:"
    );
}

#[test]
fn a_stack_overflow_is_a_panic() {
    assert_eq!(label(DONE, STACK_OVERFLOW), "ThreadPanic: Stack overflow");
}

#[test]
fn a_reported_error_is_trimmed() {
    match exit(ERROR, "") {
        ExitType::Error(message) => assert_eq!(message, "Unknown type `Foo`."),
        other => panic!("{:?}", other),
    }
}

#[test]
fn a_reported_error_outranks_a_success() {
    assert_eq!(
        label(&format!("{}{}", ERROR, DONE), ""),
        "Error: Unknown type `Foo`."
    );
}

#[test]
fn standard_error_outranks_standard_output() {
    assert_eq!(label(ERROR, STACK_OVERFLOW), "ThreadPanic: Stack overflow");
    assert_eq!(
        label(ERROR, &format!("{}{}", STACK_OVERFLOW, PANIC)),
        "ThreadPanic: crates/graph/src/range.rs:7:9:"
    );
}

#[test]
fn unknown_output_is_kept() {
    match exit("some\nlines", "and others") {
        ExitType::NonInterpreted(stdout, stderr) => {
            assert_eq!(stdout, "some\nlines");
            assert_eq!(stderr, "and others");
        }
        other => panic!("{:?}", other),
    }
    assert_eq!(label("", ""), "NonInterpreted Error");
}

#[test]
fn digits_of_any_script_close_a_success() {
    for millis in ["0", "12345", "\u{663}", "\u{967}7"] {
        let stdout = format!("DONE ANALYZING IN: {}ms. Writing to cli...\n", millis);
        assert!(matches!(exit(&stdout, ""), ExitType::Success), "{}", millis);
    }
    for millis in ["", "a", "1 ", "1.5", "\u{bd}"] {
        let stdout = format!("DONE ANALYZING IN: {}ms. Writing to cli...\n", millis);
        assert!(
            matches!(exit(&stdout, ""), ExitType::NonInterpreted(_, _)),
            "{}",
            millis
        );
    }
}

#[test]
fn a_stack_overflow_names_its_thread_on_one_line() {
    for name in ["", "main", "it's", "\u{8a9e}\r"] {
        let stderr = format!("xthread '{}' has overflowed its stack\n", name);
        assert_eq!(label("", &stderr), "ThreadPanic: Stack overflow");
    }
    for stderr in [
        "thread 'a\nb' has overflowed its stack\n",
        "thread 'main' has overflowed its stack",
        "Thread 'main' has overflowed its stack\n",
    ] {
        assert_eq!(label("", stderr), "NonInterpreted Error", "{:?}", stderr);
    }
}

#[test]
fn a_panic_names_its_thread_and_its_place_on_one_line() {
    for stderr in [
        "thread 'a\nb' panicked at src/a.rs:1:1:\n",
        "thread 'main' panicked at \n",
        "thread 'main' panicked at src/a.rs:1:1:",
    ] {
        assert_eq!(label("", stderr), "NonInterpreted Error", "{:?}", stderr);
    }
    assert_eq!(label("", "thread '' panicked at x\n"), "ThreadPanic: x");
}

#[test]
fn a_caught_error_that_is_no_word_is_a_panic_at_its_place() {
    assert_eq!(
        label("", "thread 'main' panicked at x\nEncountered an error: (?)"),
        "ThreadPanic: x"
    );
    assert_eq!(
        label("", "thread 'main' panicked at x\nEncountered an error: Todo(File(0, 1), \"a\")"),
        "ThreadPanic: Todo"
    );
    assert_eq!(
        label("", "thread 'main' panicked at x\nEncountered an error: \u{e9}t\u{e9}!"),
        "ThreadPanic: \u{e9}t\u{e9}"
    );
    assert_eq!(
        label("", "thread 'main' panicked at x\nEncountered an error: Todo(File(0, 1, 2), \"\")"),
        "Error: Todo: "
    );
}

#[test]
fn a_message_is_the_words_that_it_begins_with() {
    let stderr = "thread 'main' panicked at x\nEncountered an error: \
ParseError(File(0, 1, 2), \"two\u{2003}words_\n and 3: more\")";
    match exit("", stderr) {
        ExitType::Error(message) => assert_eq!(message, "two\u{2003}words_\n and 3"),
        other => panic!("{:?}", other),
    }
}

#[test]
fn of_two_panics_the_first_is_reported() {
    let stderr = "thread 'a' panicked at first.rs:1:1:\nx\nthread 'b' panicked at second.rs:2:2:\n";
    assert_eq!(label(DONE, stderr), "ThreadPanic: first.rs:1:1:");
}

#[test]
fn a_reported_error_has_five_characters_or_more() {
    assert_eq!(label("Error:\n31mabcde", ""), "Error: abcde");
    assert_eq!(label("Error:31m`. 1A!", ""), "Error: `. 1A");
    assert_eq!(label("Error:31mabcd", ""), "NonInterpreted Error");
    assert_eq!(label("31mabcde Error:", ""), "NonInterpreted Error");
    assert_eq!(label("error:31mabcde", ""), "NonInterpreted Error");
}

#[test]
fn findings_go_by_rank() {
    let mut findings = nothing_found();
    findings.success = true;
    assert_eq!(interpret(findings), "Success");

    let mut findings = nothing_found();
    findings.success = true;
    findings.error = Some(" \tlate\u{3000}".to_string());
    assert_eq!(interpret(findings), "Error: late");

    let mut findings = nothing_found();
    findings.error = Some("late".to_string());
    findings.stack_overflow = true;
    assert_eq!(interpret(findings), "ThreadPanic: Stack overflow");

    let mut findings = nothing_found();
    findings.stack_overflow = true;
    findings.panic = Some(" here ".to_string());
    assert_eq!(interpret(findings), "ThreadPanic:  here ");

    let mut findings = nothing_found();
    findings.panic = Some("here".to_string());
    findings.debug_panic = Some("Kind".to_string());
    assert_eq!(interpret(findings), "ThreadPanic: Kind");

    let mut findings = nothing_found();
    findings.debug_panic = Some("Kind".to_string());
    findings.parse_error = Some("parse".to_string());
    assert_eq!(interpret(findings), "Error: parse");

    let mut findings = nothing_found();
    findings.parse_error = Some("parse".to_string());
    findings.todo_error = Some("".to_string());
    assert_eq!(interpret(findings), "Error: Todo: ");

    assert_eq!(interpret(nothing_found()), "NonInterpreted Error");
}

#[test]
fn labels_hold_no_comma() {
    assert_eq!(ExitType::Error("a,b,,c".to_string()).to_string(), "Error: a:b::c");
    assert_eq!(
        ExitType::ThreadPanic(",é,".to_string()).to_string(),
        "ThreadPanic: :é:"
    );
    assert_eq!(
        ExitType::NonInterpreted(",".to_string(), ",".to_string()).to_string(),
        "NonInterpreted Error"
    );
    assert_eq!(ExitType::PerformanceTimeout.to_string(), "PerformanceTimeout");
    assert_eq!(ExitType::Success.to_string(), "Success");
}

#[test]
fn a_child_is_judged_by_its_output() {
    let child = ChildOutput {
        stdout: Some(DONE.to_string()),
        stderr: Some("".to_string()),
    };
    assert!(matches!(check_child_exit(child.clone()), ExitType::Success));
    assert!(matches!(message_exit(Some(child)), ExitType::Success));
    assert!(matches!(message_exit(None), ExitType::PerformanceTimeout));
}
