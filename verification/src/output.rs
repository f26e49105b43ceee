//! What the output of a pyrometer run says about how the run ended.
use crate::exit_type::{ExitType, ExitTypeView};
use crate::text::{
    contains_text, contains_text_is_transitive, ends_with_text, is_white_space, occurs_at,
    surrounded_text_is_contained, trim_text, trimmed, trimmed_stands_in_text,
    trimming_takes_white_space_only, white_space_is_listed,
};
use vstd::prelude::*;
use vstd::string::*;

verus! {

/// A thread panic that stands for work pyrometer has left undone.
pub const TODO_ERROR_PATTERN: &'static str = r#"thread '.*?' panicked at .+?\nEncountered an error: Todo\(File\(\d+, \d+, \d+\), \"([\w\s]*)"#;

/// A thread panic that stands for source text that could not be parsed.
pub const PARSE_ERROR_PATTERN: &'static str = r#"thread '.*?' panicked at .+?\nEncountered an error: ParseError\(File\(\d+, \d+, \d+\), \"([\w\s]*)"#;

/// A thread panic out of any error that pyrometer catches.
pub const DEBUG_PANIC_PATTERN: &'static str = r#"thread '.*?' panicked at .+?\nEncountered an error: (\w+)"#;

/// Any thread panic.
pub const PANIC_PATTERN: &'static str = r"thread '.*?' panicked at (.+?)\n";

/// A thread that ran out of stack, which is fatal without being a panic.
pub const STACK_OVERFLOW_PATTERN: &'static str = r"thread '.*?' has overflowed its stack\n";

/// An error that pyrometer reports without a panic.
pub const ERROR_PATTERN: &'static str = r"(?s)Error:.*?31m([a-zA-Z0-9` .]{5,})";

/// The closing line of a run that succeeded.
pub const SUCCESS_PATTERN: &'static str = r"DONE ANALYZING IN: \d+ms\. Writing to cli\.\.\.\n$";

/// `pattern` is one of the patterns here, and whenever it matches, its capture
/// group `group` takes part in the match.
pub open spec fn always_captures(pattern: Seq<char>, group: nat) -> bool {
    &&& group == 1
    &&& {
        ||| pattern == TODO_ERROR_PATTERN@
        ||| pattern == PARSE_ERROR_PATTERN@
        ||| pattern == DEBUG_PANIC_PATTERN@
        ||| pattern == PANIC_PATTERN@
        ||| pattern == ERROR_PATTERN@
    }
}

/// A decimal digit.
pub const DIGIT_PATTERN: &'static str = r"\d";

/// A character of a word.
pub const WORD_PATTERN: &'static str = r"\w";

/// `pattern` is one of the patterns here that is only tested for a match.
pub open spec fn is_tested(pattern: Seq<char>) -> bool {
    ||| pattern == STACK_OVERFLOW_PATTERN@
    ||| pattern == SUCCESS_PATTERN@
    ||| pattern == DIGIT_PATTERN@
    ||| pattern == WORD_PATTERN@
}

/// What `regex::Regex::captures` gives for capture group `group` of `pattern`
/// on `haystack`: the text of the group in the leftmost match, or nothing
/// where there is no match.
pub uninterp spec fn regex_capture(
    pattern: Seq<char>,
    haystack: Seq<char>,
    group: nat,
) -> Option<Seq<char>>;

/// What `regex::Regex::is_match` gives for `pattern` on `haystack`.
pub uninterp spec fn regex_is_match(pattern: Seq<char>, haystack: Seq<char>) -> bool;

/// `c` is what `\d` stands for: one of the ten digits, or another character that
/// Unicode counts as a decimal digit.
pub open spec fn is_digit_char(c: char) -> bool {
    if c <= '\u{7f}' {
        '0' <= c <= '9'
    } else {
        regex_is_match(DIGIT_PATTERN@, seq![c])
    }
}

/// `c` is what `\w` stands for: a letter, a digit or `_`, or another character
/// that Unicode counts as part of a word.
pub open spec fn is_word_char(c: char) -> bool {
    if c <= '\u{7f}' {
        'a' <= c <= 'z' || 'A' <= c <= 'Z' || '0' <= c <= '9' || c == '_'
    } else {
        regex_is_match(WORD_PATTERN@, seq![c])
    }
}

/// `text` is a number: one digit or more.
pub open spec fn is_number(text: Seq<char>) -> bool {
    &&& text.len() > 0
    &&& forall|i: int| 0 <= i < text.len() ==> is_digit_char(#[trigger] text[i])
}

/// `text` stands on one line and is not empty.
pub open spec fn is_place(text: Seq<char>) -> bool {
    text.len() > 0 && !text.contains('\n')
}

/// The line in which the thread `name` reports a panic at `place`.
pub open spec fn panic_line(name: Seq<char>, place: Seq<char>) -> Seq<char> {
    "thread '"@ + name + "' panicked at "@ + place + "\n"@
}

/// `text` reports that a thread panicked.
pub open spec fn reports_panic(text: Seq<char>) -> bool {
    exists|name: Seq<char>, place: Seq<char>|
        !name.contains('\n') && is_place(place) && #[trigger] contains_text(
            text,
            panic_line(name, place),
        )
}

/// What follows the line of a panic out of an error that pyrometer caught.
pub open spec fn caught_error(name: Seq<char>, place: Seq<char>, error: Seq<char>) -> Seq<char> {
    panic_line(name, place) + "Encountered an error: "@ + error
}

/// `text` reports a panic out of an error that pyrometer caught.
pub open spec fn reports_caught_error(text: Seq<char>) -> bool {
    exists|name: Seq<char>, place: Seq<char>, c: char|
        !name.contains('\n') && is_place(place) && is_word_char(c) && #[trigger] contains_text(
            text,
            caught_error(name, place, seq![c]),
        )
}

/// An error of the given kind at a spot of the sources, up to its message.
pub open spec fn located_error(kind: Seq<char>, spot: Seq<char>) -> Seq<char> {
    kind + "(File("@ + spot + "), \""@
}

/// `spot` is three numbers: a file, and where something begins and ends in it.
pub open spec fn is_spot(spot: Seq<char>) -> bool {
    exists|file: Seq<char>, start: Seq<char>, end: Seq<char>|
        is_number(file) && is_number(start) && is_number(end) && spot == #[trigger] (file + ", "@
            + start + ", "@ + end)
}

/// `text` reports a panic out of an error of the given kind, caught at a spot of
/// the sources.
pub open spec fn reports_located_error(text: Seq<char>, kind: Seq<char>) -> bool {
    exists|name: Seq<char>, place: Seq<char>, spot: Seq<char>|
        !name.contains('\n') && is_place(place) && is_spot(spot) && #[trigger] contains_text(
            text,
            caught_error(name, place, located_error(kind, spot)),
        )
}

/// `text` reports that a thread ran out of stack.
pub open spec fn reports_stack_overflow(text: Seq<char>) -> bool {
    exists|name: Seq<char>|
        !name.contains('\n') && contains_text(
            text,
            #[trigger] ("thread '"@ + name + "' has overflowed its stack\n"@),
        )
}

/// `c` may stand in the message of an error that is reported without a panic.
pub open spec fn is_message_char(c: char) -> bool {
    'a' <= c <= 'z' || 'A' <= c <= 'Z' || '0' <= c <= '9' || c == '`' || c == ' ' || c == '.'
}

/// `text` reports an error without a panic: a message of five characters or more.
pub open spec fn reports_error(text: Seq<char>) -> bool {
    exists|between: Seq<char>, message: Seq<char>|
        {
            &&& message.len() == 5
            &&& forall|i: int| 0 <= i < message.len() ==> is_message_char(#[trigger] message[i])
            &&& contains_text(text, #[trigger] ("Error:"@ + between + "31m"@ + message))
        }
}

/// `text` closes as the output of a success does.
pub open spec fn closes_as_success(text: Seq<char>) -> bool {
    exists|millis: Seq<char>|
        is_number(millis) && ends_with_text(
            text,
            #[trigger] ("DONE ANALYZING IN: "@ + millis + "ms. Writing to cli...\n"@),
        )
}

/// `text` reports a panic at `place`.
pub open spec fn is_panic_place(text: Seq<char>, place: Seq<char>) -> bool {
    &&& is_place(place)
    &&& exists|name: Seq<char>|
        !name.contains('\n') && #[trigger] contains_text(text, panic_line(name, place))
}

/// `text` reports a panic out of a caught error whose kind is `kind`, a word.
pub open spec fn is_caught_kind(text: Seq<char>, kind: Seq<char>) -> bool {
    &&& kind.len() > 0
    &&& forall|i: int| 0 <= i < kind.len() ==> is_word_char(#[trigger] kind[i])
    &&& exists|name: Seq<char>, place: Seq<char>|
        !name.contains('\n') && is_place(place) && #[trigger] contains_text(
            text,
            caught_error(name, place, kind),
        )
}

/// `text` reports a panic out of an error of the given kind, caught at a spot of
/// the sources, and its message begins with the words `message`.
pub open spec fn is_located_message(
    text: Seq<char>,
    kind: Seq<char>,
    message: Seq<char>,
) -> bool {
    &&& forall|i: int|
        0 <= i < message.len() ==> is_word_char(#[trigger] message[i]) || is_white_space(message[i])
    &&& exists|name: Seq<char>, place: Seq<char>, spot: Seq<char>|
        !name.contains('\n') && is_place(place) && is_spot(spot) && #[trigger] contains_text(
            text,
            caught_error(name, place, located_error(kind, spot) + message),
        )
}

/// `text` reports `message` as an error without a panic.
pub open spec fn is_error_message(text: Seq<char>, message: Seq<char>) -> bool {
    &&& message.len() >= 5
    &&& forall|i: int| 0 <= i < message.len() ==> is_message_char(#[trigger] message[i])
    &&& exists|between: Seq<char>|
        contains_text(text, #[trigger] ("Error:"@ + between + "31m"@ + message))
}

/// Calls `regex::Regex::captures` and picks one capture group. The result is a
/// function of the three arguments, and text that was captured stands in the
/// haystack, in the place and of the form that the pattern gives the group.
/// There is a match exactly where the haystack holds what the pattern
/// describes. The patterns that the precondition admits are well formed, and
/// the group takes part in each of their matches.
#[verifier::external_body]
fn captured_group(pattern: &str, haystack: &str, group: usize) -> (captured: Option<String>)
    requires
        always_captures(pattern@, group as nat),
    ensures
        captured is Some <==> regex_capture(pattern@, haystack@, group as nat) is Some,
        captured matches Some(text) ==> {
            &&& regex_capture(pattern@, haystack@, group as nat) == Some(text@)
            &&& contains_text(haystack@, text@)
            &&& pattern@ == TODO_ERROR_PATTERN@ ==> is_located_message(
                haystack@,
                "Todo"@,
                text@,
            )
            &&& pattern@ == PARSE_ERROR_PATTERN@ ==> is_located_message(
                haystack@,
                "ParseError"@,
                text@,
            )
            &&& pattern@ == DEBUG_PANIC_PATTERN@ ==> is_caught_kind(haystack@, text@)
            &&& pattern@ == PANIC_PATTERN@ ==> is_panic_place(haystack@, text@)
            &&& pattern@ == ERROR_PATTERN@ ==> is_error_message(haystack@, text@)
        },
        pattern@ == TODO_ERROR_PATTERN@ ==> (captured is Some <==> reports_located_error(
            haystack@,
            "Todo"@,
        )),
        pattern@ == PARSE_ERROR_PATTERN@ ==> (captured is Some <==> reports_located_error(
            haystack@,
            "ParseError"@,
        )),
        pattern@ == DEBUG_PANIC_PATTERN@ ==> (captured is Some <==> reports_caught_error(haystack@)),
        pattern@ == PANIC_PATTERN@ ==> (captured is Some <==> reports_panic(haystack@)),
        pattern@ == ERROR_PATTERN@ ==> (captured is Some <==> reports_error(haystack@)),
{
    let regex = regex::Regex::new(pattern).unwrap();
    regex.captures(haystack).map(|captures| captures[group].to_string())
}

/// Calls `regex::Regex::is_match`. The result is a function of the two
/// arguments: there is a match exactly where the haystack holds what the
/// pattern describes. The patterns that the precondition admits are well formed.
#[verifier::external_body]
fn pattern_matches(pattern: &str, haystack: &str) -> (found: bool)
    requires
        is_tested(pattern@),
    ensures
        found == regex_is_match(pattern@, haystack@),
        pattern@ == STACK_OVERFLOW_PATTERN@ ==> found == reports_stack_overflow(haystack@),
        pattern@ == SUCCESS_PATTERN@ ==> found == closes_as_success(haystack@),
{
    regex::Regex::new(pattern).unwrap().is_match(haystack)
}

/// What was found in the output of one run.
pub struct Findings {
    /// The message of work left undone, on standard error.
    pub todo_error: Option<String>,
    /// The message of a parse error, on standard error.
    pub parse_error: Option<String>,
    /// The kind of an error that pyrometer caught, on standard error.
    pub debug_panic: Option<String>,
    /// Where a thread panicked, on standard error.
    pub panic: Option<String>,
    /// A thread ran out of stack, on standard error.
    pub stack_overflow: bool,
    /// The message of a reported error, on standard output.
    pub error: Option<String>,
    /// The closing line of a success, on standard output.
    pub success: bool,
}

/// The mathematical value of [`Findings`].
pub struct FindingsView {
    pub todo_error: Option<Seq<char>>,
    pub parse_error: Option<Seq<char>>,
    pub debug_panic: Option<Seq<char>>,
    pub panic: Option<Seq<char>>,
    pub stack_overflow: bool,
    pub error: Option<Seq<char>>,
    pub success: bool,
}

/// The view of optional text.
pub open spec fn text_view(text: Option<String>) -> Option<Seq<char>> {
    match text {
        Some(found) => Some(found@),
        None => None,
    }
}

impl View for Findings {
    type V = FindingsView;

    open spec fn view(&self) -> FindingsView {
        FindingsView {
            todo_error: text_view(self.todo_error),
            parse_error: text_view(self.parse_error),
            debug_panic: text_view(self.debug_panic),
            panic: text_view(self.panic),
            stack_overflow: self.stack_overflow,
            error: text_view(self.error),
            success: self.success,
        }
    }
}

/// Everything there is to find in the output of one run.
pub open spec fn findings_in(stdout: Seq<char>, stderr: Seq<char>) -> FindingsView {
    FindingsView {
        todo_error: regex_capture(TODO_ERROR_PATTERN@, stderr, 1),
        parse_error: regex_capture(PARSE_ERROR_PATTERN@, stderr, 1),
        debug_panic: regex_capture(DEBUG_PANIC_PATTERN@, stderr, 1),
        panic: regex_capture(PANIC_PATTERN@, stderr, 1),
        stack_overflow: reports_stack_overflow(stderr),
        error: regex_capture(ERROR_PATTERN@, stdout, 1),
        success: closes_as_success(stdout),
    }
}

/// How a run ended, from what was found in its output. What stands on standard
/// error goes before what stands on standard output, the narrower finding
/// before the wider, and an error before a success.
pub open spec fn exit_of(findings: FindingsView, stdout: Seq<char>, stderr: Seq<char>) -> ExitTypeView {
    if findings.todo_error is Some {
        ExitTypeView::Error("Todo: "@ + findings.todo_error->0)
    } else if findings.parse_error is Some {
        ExitTypeView::Error(findings.parse_error->0)
    } else if findings.debug_panic is Some {
        ExitTypeView::ThreadPanic(findings.debug_panic->0)
    } else if findings.panic is Some {
        ExitTypeView::ThreadPanic(findings.panic->0)
    } else if findings.stack_overflow {
        ExitTypeView::ThreadPanic("Stack overflow"@)
    } else if findings.error is Some {
        ExitTypeView::Error(trimmed(findings.error->0))
    } else if findings.success {
        ExitTypeView::Success
    } else {
        ExitTypeView::NonInterpreted(stdout, stderr)
    }
}

/// Tells how a run ended from what was found in its output.
pub fn interpret_findings(findings: Findings, stdout: String, stderr: String) -> (exit: ExitType)
    ensures
        exit@ == exit_of(findings@, stdout@, stderr@),
{
    if let Some(todo_error) = findings.todo_error {
        return ExitType::Error("Todo: ".to_owned().concat(todo_error.as_str()));
    }
    if let Some(parse_error) = findings.parse_error {
        return ExitType::Error(parse_error);
    }
    if let Some(debug_panic) = findings.debug_panic {
        return ExitType::ThreadPanic(debug_panic);
    }
    if let Some(panic) = findings.panic {
        return ExitType::ThreadPanic(panic);
    }
    if findings.stack_overflow {
        return ExitType::ThreadPanic("Stack overflow".to_owned());
    }
    if let Some(error) = findings.error {
        return ExitType::Error(trim_text(error.as_str()));
    }
    if findings.success {
        return ExitType::Success;
    }
    ExitType::NonInterpreted(stdout, stderr)
}

/// The message of an exit, if it has one, is drawn from the output of the run:
/// what it says of an error or a panic stands there word for word.
pub open spec fn is_drawn_from(exit: ExitTypeView, stdout: Seq<char>, stderr: Seq<char>) -> bool {
    match exit {
        ExitTypeView::Error(message) => {
            ||| contains_text(stdout, message)
            ||| contains_text(stderr, message)
            ||| exists|todo: Seq<char>| #[trigger]
                contains_text(stderr, todo) && message == "Todo: "@ + todo
        },
        ExitTypeView::ThreadPanic(reason) => {
            ||| contains_text(stderr, reason)
            ||| reason == "Stack overflow"@
        },
        ExitTypeView::NonInterpreted(out, err) => out == stdout && err == stderr,
        _ => true,
    }
}

/// A text that a longer text begins with stands wherever the longer one does.
proof fn beginning_stands_too(text: Seq<char>, beginning: Seq<char>, rest: Seq<char>)
    requires
        contains_text(text, beginning + rest),
    ensures
        contains_text(text, beginning),
{
    assert((beginning + rest).subrange(0, beginning.len() as int) =~= beginning);
    assert(occurs_at(beginning + rest, beginning, 0));
    contains_text_is_transitive(text, beginning + rest, beginning);
}

/// An error that pyrometer caught is reported by a panic.
pub proof fn caught_errors_are_panics(text: Seq<char>)
    requires
        reports_caught_error(text),
    ensures
        reports_panic(text),
{
    let (name, place, c) = choose|name: Seq<char>, place: Seq<char>, c: char|
        !name.contains('\n') && is_place(place) && is_word_char(c) && #[trigger] contains_text(
            text,
            caught_error(name, place, seq![c]),
        );
    let rest = "Encountered an error: "@ + seq![c];
    assert(caught_error(name, place, seq![c]) =~= panic_line(name, place) + rest);
    beginning_stands_too(text, panic_line(name, place), rest);
}

/// An error at a spot of the sources is one that pyrometer caught. Its kind
/// must begin as a word does.
pub proof fn located_errors_are_caught(text: Seq<char>, kind: Seq<char>)
    requires
        kind.len() > 0,
        is_word_char(kind[0]),
        reports_located_error(text, kind),
    ensures
        reports_caught_error(text),
{
    let (name, place, spot) = choose|name: Seq<char>, place: Seq<char>, spot: Seq<char>|
        !name.contains('\n') && is_place(place) && is_spot(spot) && #[trigger] contains_text(
            text,
            caught_error(name, place, located_error(kind, spot)),
        );
    let error = located_error(kind, spot);
    let first = seq![kind[0]];
    assert(error =~= first + error.drop_first());
    assert(caught_error(name, place, error) =~= caught_error(name, place, first)
        + error.drop_first());
    beginning_stands_too(text, caught_error(name, place, first), error.drop_first());
}

/// The kind of an exit is the one that the output of the run reports. A panic,
/// of whatever kind, goes before a stack overflow, and both before what
/// standard output says. A panic over work left undone or over source text
/// that could not be parsed is an error.
pub open spec fn is_kind_reported(
    exit: ExitTypeView,
    stdout: Seq<char>,
    stderr: Seq<char>,
) -> bool {
    let of_sources = reports_located_error(stderr, "Todo"@) || reports_located_error(
        stderr,
        "ParseError"@,
    );
    let stopped = reports_panic(stderr) || reports_stack_overflow(stderr);
    &&& exit is Error <==> of_sources || (!stopped && reports_error(stdout))
    &&& exit is ThreadPanic <==> stopped && !of_sources
    &&& exit is Success <==> !stopped && !reports_error(stdout) && closes_as_success(stdout)
    &&& exit is NonInterpreted <==> !stopped && !reports_error(stdout) && !closes_as_success(stdout)
    &&& exit !is PerformanceTimeout
}

/// What an exit says is what the output of the run reports: the captured text of
/// the first report that is found, of the form that such a report has.
pub open spec fn is_what_is_reported(
    exit: ExitTypeView,
    stdout: Seq<char>,
    stderr: Seq<char>,
) -> bool {
    if reports_located_error(stderr, "Todo"@) {
        &&& regex_capture(TODO_ERROR_PATTERN@, stderr, 1) matches Some(message)
        &&& is_located_message(stderr, "Todo"@, message)
        &&& exit == ExitTypeView::Error("Todo: "@ + message)
    } else if reports_located_error(stderr, "ParseError"@) {
        &&& regex_capture(PARSE_ERROR_PATTERN@, stderr, 1) matches Some(message)
        &&& is_located_message(stderr, "ParseError"@, message)
        &&& exit == ExitTypeView::Error(message)
    } else if reports_caught_error(stderr) {
        &&& regex_capture(DEBUG_PANIC_PATTERN@, stderr, 1) matches Some(kind)
        &&& is_caught_kind(stderr, kind)
        &&& exit == ExitTypeView::ThreadPanic(kind)
    } else if reports_panic(stderr) {
        &&& regex_capture(PANIC_PATTERN@, stderr, 1) matches Some(place)
        &&& is_panic_place(stderr, place)
        &&& exit == ExitTypeView::ThreadPanic(place)
    } else if reports_stack_overflow(stderr) {
        exit == ExitTypeView::ThreadPanic("Stack overflow"@)
    } else if reports_error(stdout) {
        &&& regex_capture(ERROR_PATTERN@, stdout, 1) matches Some(message)
        &&& is_error_message(stdout, message)
        &&& exit == ExitTypeView::Error(trimmed(message))
    } else if closes_as_success(stdout) {
        exit == ExitTypeView::Success
    } else {
        exit == ExitTypeView::NonInterpreted(stdout, stderr)
    }
}

/// Tells how a run ended from the text of its standard output and standard
/// error. A pattern is only searched for while none that goes before it was
/// found.
pub fn convert_pyrometer_output_to_exit_type(
    stdout_string: String,
    stderr_string: String,
) -> (exit: ExitType)
    ensures
        exit@ == exit_of(
            findings_in(stdout_string@, stderr_string@),
            stdout_string@,
            stderr_string@,
        ),
        is_drawn_from(exit@, stdout_string@, stderr_string@),
        is_kind_reported(exit@, stdout_string@, stderr_string@),
        is_what_is_reported(exit@, stdout_string@, stderr_string@),
{
    proof {
        reveal_strlit("Todo");
        reveal_strlit("ParseError");
        if reports_located_error(stderr_string@, "Todo"@) {
            located_errors_are_caught(stderr_string@, "Todo"@);
        }
        if reports_located_error(stderr_string@, "ParseError"@) {
            located_errors_are_caught(stderr_string@, "ParseError"@);
        }
        if reports_caught_error(stderr_string@) {
            caught_errors_are_panics(stderr_string@);
        }
    }
    let stderr = stderr_string.as_str();
    let stdout = stdout_string.as_str();
    let mut findings = Findings {
        todo_error: captured_group(TODO_ERROR_PATTERN, stderr, 1),
        parse_error: None,
        debug_panic: None,
        panic: None,
        stack_overflow: false,
        error: None,
        success: false,
    };
    if findings.todo_error.is_none() {
        findings.parse_error = captured_group(PARSE_ERROR_PATTERN, stderr, 1);
        if findings.parse_error.is_none() {
            findings.debug_panic = captured_group(DEBUG_PANIC_PATTERN, stderr, 1);
            if findings.debug_panic.is_none() {
                findings.panic = captured_group(PANIC_PATTERN, stderr, 1);
                if findings.panic.is_none() {
                    findings.stack_overflow = pattern_matches(STACK_OVERFLOW_PATTERN, stderr);
                    if !findings.stack_overflow {
                        findings.error = captured_group(ERROR_PATTERN, stdout, 1);
                        proof {
                            if findings.error is Some {
                                let message = findings.error->0@;
                                trimmed_stands_in_text(message);
                                contains_text_is_transitive(stdout@, message, trimmed(message));
                            }
                        }
                        if findings.error.is_none() {
                            findings.success = pattern_matches(SUCCESS_PATTERN, stdout);
                        }
                    }
                }
            }
        }
    }
    interpret_findings(findings, stdout_string, stderr_string)
}

/// A run is a success exactly when its output closes as a success does and
/// reports no panic, no stack overflow and no error, on either stream.
pub proof fn success_is_clean(findings: FindingsView, stdout: Seq<char>, stderr: Seq<char>)
    ensures
        exit_of(findings, stdout, stderr) == ExitTypeView::Success <==> {
            &&& findings.success
            &&& findings.todo_error is None
            &&& findings.parse_error is None
            &&& findings.debug_panic is None
            &&& findings.panic is None
            &&& !findings.stack_overflow
            &&& findings.error is None
        },
{
}

/// Once standard error tells how a run ended, standard output has no say.
pub proof fn stderr_goes_first(
    findings: FindingsView,
    other: FindingsView,
    stdout: Seq<char>,
    other_stdout: Seq<char>,
    stderr: Seq<char>,
)
    requires
        findings.todo_error == other.todo_error,
        findings.parse_error == other.parse_error,
        findings.debug_panic == other.debug_panic,
        findings.panic == other.panic,
        findings.stack_overflow == other.stack_overflow,
        findings.todo_error is Some || findings.parse_error is Some || findings.debug_panic is Some
            || findings.panic is Some || findings.stack_overflow,
    ensures
        exit_of(findings, stdout, stderr) == exit_of(other, other_stdout, stderr),
{
}

/// What stands between two other texts stands wherever the three stand together.
proof fn middle_stands_too(
    text: Seq<char>,
    before: Seq<char>,
    middle: Seq<char>,
    after: Seq<char>,
)
    requires
        contains_text(text, before + middle + after),
    ensures
        contains_text(text, middle),
{
    surrounded_text_is_contained(before, middle, after);
    contains_text_is_transitive(text, before + middle + after, middle);
}

/// Each report holds words that tell it from all others.
proof fn reports_hold_their_words(text: Seq<char>, kind: Seq<char>)
    ensures
        reports_panic(text) ==> contains_text(text, "' panicked at "@),
        reports_caught_error(text) ==> contains_text(text, "Encountered an error: "@),
        reports_located_error(text, kind) ==> contains_text(
            text,
            "Encountered an error: "@ + kind + "(File("@,
        ),
        reports_stack_overflow(text) ==> contains_text(text, "' has overflowed its stack\n"@),
        reports_error(text) ==> contains_text(text, "Error:"@),
        closes_as_success(text) ==> contains_text(text, "DONE ANALYZING IN: "@),
{
    if reports_panic(text) {
        let (name, place) = choose|name: Seq<char>, place: Seq<char>|
            !name.contains('\n') && is_place(place) && #[trigger] contains_text(
                text,
                panic_line(name, place),
            );
        let before = "thread '"@ + name;
        let after = place + "\n"@;
        assert(panic_line(name, place) =~= before + "' panicked at "@ + after);
        middle_stands_too(text, before, "' panicked at "@, after);
    }
    if reports_caught_error(text) {
        let (name, place, c) = choose|name: Seq<char>, place: Seq<char>, c: char|
            !name.contains('\n') && is_place(place) && is_word_char(c) && #[trigger] contains_text(
                text,
                caught_error(name, place, seq![c]),
            );
        middle_stands_too(text, panic_line(name, place), "Encountered an error: "@, seq![c]);
    }
    if reports_located_error(text, kind) {
        let (name, place, spot) = choose|name: Seq<char>, place: Seq<char>, spot: Seq<char>|
            !name.contains('\n') && is_place(place) && is_spot(spot) && #[trigger] contains_text(
                text,
                caught_error(name, place, located_error(kind, spot)),
            );
        let words = "Encountered an error: "@ + kind + "(File("@;
        let after = spot + "), \""@;
        assert(caught_error(name, place, located_error(kind, spot)) =~= panic_line(name, place)
            + words + after);
        middle_stands_too(text, panic_line(name, place), words, after);
    }
    if reports_stack_overflow(text) {
        let name = choose|name: Seq<char>|
            !name.contains('\n') && contains_text(
                text,
                #[trigger] ("thread '"@ + name + "' has overflowed its stack\n"@),
            );
        let words = "' has overflowed its stack\n"@;
        assert("thread '"@ + name + words =~= "thread '"@ + name + words + Seq::<char>::empty());
        middle_stands_too(text, "thread '"@ + name, words, Seq::empty());
    }
    if reports_error(text) {
        let (between, message) = choose|between: Seq<char>, message: Seq<char>|
            {
                &&& message.len() == 5
                &&& forall|i: int| 0 <= i < message.len() ==> is_message_char(#[trigger] message[i])
                &&& contains_text(text, #[trigger] ("Error:"@ + between + "31m"@ + message))
            };
        let after = between + "31m"@ + message;
        assert("Error:"@ + between + "31m"@ + message =~= Seq::<char>::empty() + "Error:"@ + after);
        middle_stands_too(text, Seq::empty(), "Error:"@, after);
    }
    if closes_as_success(text) {
        let millis = choose|millis: Seq<char>|
            is_number(millis) && ends_with_text(
                text,
                #[trigger] ("DONE ANALYZING IN: "@ + millis + "ms. Writing to cli...\n"@),
            );
        let words = "DONE ANALYZING IN: "@;
        let after = millis + "ms. Writing to cli...\n"@;
        assert(words + millis + "ms. Writing to cli...\n"@ =~= Seq::<char>::empty() + words + after);
        assert(contains_text(text, Seq::<char>::empty() + words + after));
        middle_stands_too(text, Seq::empty(), words, after);
    }
}

/// A report at a spot of the sources is one of a caught error, and that one of a
/// panic.
proof fn narrower_reports_are_wider_ones(text: Seq<char>)
    ensures
        reports_located_error(text, "Todo"@) ==> reports_caught_error(text),
        reports_located_error(text, "ParseError"@) ==> reports_caught_error(text),
        reports_caught_error(text) ==> reports_panic(text),
{
    reveal_strlit("Todo");
    reveal_strlit("ParseError");
    if reports_located_error(text, "Todo"@) {
        located_errors_are_caught(text, "Todo"@);
    }
    if reports_located_error(text, "ParseError"@) {
        located_errors_are_caught(text, "ParseError"@);
    }
    if reports_caught_error(text) {
        caught_errors_are_panics(text);
    }
}

/// An error that is reported on standard output keeps the whole message: what
/// was captured is some spaces, the message of the exit and some spaces, and that
/// message neither begins nor ends with a space.
pub proof fn reported_error_keeps_the_whole_message(
    exit: ExitTypeView,
    stdout: Seq<char>,
    stderr: Seq<char>,
)
    requires
        is_what_is_reported(exit, stdout, stderr),
        !reports_panic(stderr),
        !reports_stack_overflow(stderr),
        reports_error(stdout),
    ensures
        exit is Error,
        regex_capture(ERROR_PATTERN@, stdout, 1) is Some,
        regex_capture(ERROR_PATTERN@, stdout, 1)->0.len() >= 5,
        exists|before: Seq<char>, after: Seq<char>|
            {
                &&& regex_capture(ERROR_PATTERN@, stdout, 1)->0 == #[trigger] (before
                    + exit->Error_0 + after)
                &&& contains_text(stdout, "31m"@ + (before + exit->Error_0 + after))
                &&& forall|i: int| 0 <= i < before.len() ==> #[trigger] before[i] == ' '
                &&& forall|i: int| 0 <= i < after.len() ==> #[trigger] after[i] == ' '
            },
        exit->Error_0.len() > 0 ==> exit->Error_0.first() != ' ' && exit->Error_0.last() != ' ',
{
    narrower_reports_are_wider_ones(stderr);
    let captured = regex_capture(ERROR_PATTERN@, stdout, 1)->0;
    let message = trimmed(captured);
    trimming_takes_white_space_only(captured);
    white_space_is_listed(' ');
    assert(is_white_space(' '));
    let (before, after) = choose|before: Seq<char>, after: Seq<char>|
        {
            &&& captured == #[trigger] (before + message + after)
            &&& forall|i: int| 0 <= i < before.len() ==> is_white_space(#[trigger] before[i])
            &&& forall|i: int| 0 <= i < after.len() ==> is_white_space(#[trigger] after[i])
        };
    assert forall|i: int| 0 <= i < before.len() implies #[trigger] before[i] == ' ' by {
        assert(captured[i] == before[i]);
        assert(is_message_char(captured[i]));
    }
    assert forall|i: int| 0 <= i < after.len() implies #[trigger] after[i] == ' ' by {
        let at = before.len() + message.len() + i;
        assert(captured[at] == after[i]);
        assert(is_message_char(captured[at]));
    }
    let between = choose|between: Seq<char>|
        contains_text(stdout, #[trigger] ("Error:"@ + between + "31m"@ + captured));
    let words = "31m"@ + captured;
    let whole = "Error:"@ + between + words + Seq::<char>::empty();
    assert("Error:"@ + between + "31m"@ + captured =~= whole);
    middle_stands_too(stdout, "Error:"@ + between, words, Seq::empty());
    assert(exit == ExitTypeView::Error(message));
    assert(captured == before + exit->Error_0 + after);
}

/// An error on standard output is reported as one, where standard error tells of
/// no panic and no stack overflow: five characters of a message are enough, and
/// whether the closing line of a success follows makes no difference.
pub proof fn an_error_goes_before_a_success(
    exit: ExitTypeView,
    stdout: Seq<char>,
    stderr: Seq<char>,
    before: Seq<char>,
    between: Seq<char>,
    message: Seq<char>,
    after: Seq<char>,
)
    requires
        is_what_is_reported(exit, stdout, stderr),
        stdout == before + "Error:"@ + between + "31m"@ + message + after,
        message.len() == 5,
        forall|i: int| 0 <= i < message.len() ==> is_message_char(#[trigger] message[i]),
        !contains_text(stderr, "' panicked at "@),
        !contains_text(stderr, "' has overflowed its stack\n"@),
    ensures
        exit is Error,
{
    let report = "Error:"@ + between + "31m"@ + message;
    assert(stdout =~= before + report + after);
    surrounded_text_is_contained(before, report, after);
    assert(reports_error(stdout));
    narrower_reports_are_wider_ones(stderr);
    reports_hold_their_words(stderr, "Todo"@);
}

/// The characters that a message on standard output is made of, and those of a
/// word as far as they are ASCII, one by one.
pub proof fn message_and_word_characters_are_listed(c: char)
    ensures
        is_message_char(c)
            <==> "ABCDEFGHIJKLMNOPQRSTUVWXYZabcdefghijklmnopqrstuvwxyz0123456789` ."@.contains(c),
        c <= '\u{7f}' ==> (is_word_char(c)
            <==> "ABCDEFGHIJKLMNOPQRSTUVWXYZabcdefghijklmnopqrstuvwxyz0123456789_"@.contains(c)),
        c <= '\u{7f}' ==> (is_digit_char(c) <==> "0123456789"@.contains(c)),
{
    reveal_strlit("ABCDEFGHIJKLMNOPQRSTUVWXYZabcdefghijklmnopqrstuvwxyz0123456789` .");
    reveal_strlit("ABCDEFGHIJKLMNOPQRSTUVWXYZabcdefghijklmnopqrstuvwxyz0123456789_");
    reveal_strlit("0123456789");
    let message = "ABCDEFGHIJKLMNOPQRSTUVWXYZabcdefghijklmnopqrstuvwxyz0123456789` ."@;
    let word = "ABCDEFGHIJKLMNOPQRSTUVWXYZabcdefghijklmnopqrstuvwxyz0123456789_"@;
    let number = "0123456789"@;
    let code = c as int;
    if 'A' <= c <= 'Z' {
        assert(message[code - 65] == c);
        assert(word[code - 65] == c);
    } else if 'a' <= c <= 'z' {
        assert(message[code - 97 + 26] == c);
        assert(word[code - 97 + 26] == c);
    } else if '0' <= c <= '9' {
        assert(message[code - 48 + 52] == c);
        assert(word[code - 48 + 52] == c);
        assert(number[code - 48] == c);
    } else if c == '`' {
        assert(message[62] == c);
    } else if c == ' ' {
        assert(message[63] == c);
    } else if c == '.' {
        assert(message[64] == c);
    } else if c == '_' {
        assert(word[62] == c);
    }
}

/// Work left undone is reported as an error, with the words that its message
/// begins with, whatever else the output holds.
pub proof fn undone_work_is_an_error(
    exit: ExitTypeView,
    stdout: Seq<char>,
    stderr: Seq<char>,
    before: Seq<char>,
    name: Seq<char>,
    place: Seq<char>,
    spot: (Seq<char>, Seq<char>, Seq<char>),
    after: Seq<char>,
)
    requires
        is_what_is_reported(exit, stdout, stderr),
        stderr == before + "thread '"@ + name + "' panicked at "@ + place + "\n"@
            + "Encountered an error: "@ + "Todo"@ + "(File("@ + spot.0 + ", "@ + spot.1 + ", "@
            + spot.2 + "), \""@ + after,
        !name.contains('\n'),
        place.len() > 0,
        !place.contains('\n'),
        is_number(spot.0),
        is_number(spot.1),
        is_number(spot.2),
    ensures
        exists|message: Seq<char>|
            {
                &&& exit == ExitTypeView::Error("Todo: "@ + message)
                &&& regex_capture(TODO_ERROR_PATTERN@, stderr, 1) == Some(message)
                &&& #[trigger] contains_text(stderr, "), \""@ + message)
                &&& forall|i: int|
                    0 <= i < message.len() ==> is_word_char(#[trigger] message[i])
                        || is_white_space(message[i])
            },
{
    let three = spot.0 + ", "@ + spot.1 + ", "@ + spot.2;
    assert(is_spot(three));
    let report = caught_error(name, place, located_error("Todo"@, three));
    assert(stderr =~= before + report + after);
    surrounded_text_is_contained(before, report, after);
    assert(reports_located_error(stderr, "Todo"@));
    let message = regex_capture(TODO_ERROR_PATTERN@, stderr, 1)->0;
    located_message_stands_behind_its_spot(stderr, "Todo"@, message);
}

proof fn located_message_stands_behind_its_spot(
    text: Seq<char>,
    kind: Seq<char>,
    message: Seq<char>,
)
    requires
        is_located_message(text, kind, message),
    ensures
        contains_text(text, "), \""@ + message),
{
    let (name, place, spot) = choose|name: Seq<char>, place: Seq<char>, spot: Seq<char>|
        !name.contains('\n') && is_place(place) && is_spot(spot) && #[trigger] contains_text(
            text,
            caught_error(name, place, located_error(kind, spot) + message),
        );
    let start = panic_line(name, place) + "Encountered an error: "@ + kind + "(File("@ + spot;
    let words = "), \""@ + message;
    assert(caught_error(name, place, located_error(kind, spot) + message) =~= start + words
        + Seq::<char>::empty());
    middle_stands_too(text, start, words, Seq::empty());
}

/// Source text that could not be parsed is reported as an error, with the words
/// that its message begins with, unless work left undone is reported too.
pub proof fn unparsed_source_is_an_error(
    exit: ExitTypeView,
    stdout: Seq<char>,
    stderr: Seq<char>,
    before: Seq<char>,
    name: Seq<char>,
    place: Seq<char>,
    spot: (Seq<char>, Seq<char>, Seq<char>),
    after: Seq<char>,
)
    requires
        is_what_is_reported(exit, stdout, stderr),
        stderr == before + "thread '"@ + name + "' panicked at "@ + place + "\n"@
            + "Encountered an error: "@ + "ParseError"@ + "(File("@ + spot.0 + ", "@ + spot.1
            + ", "@ + spot.2 + "), \""@ + after,
        !name.contains('\n'),
        place.len() > 0,
        !place.contains('\n'),
        is_number(spot.0),
        is_number(spot.1),
        is_number(spot.2),
        !contains_text(stderr, "Encountered an error: "@ + "Todo"@ + "(File("@),
    ensures
        exists|message: Seq<char>|
            {
                &&& exit == ExitTypeView::Error(message)
                &&& regex_capture(PARSE_ERROR_PATTERN@, stderr, 1) == Some(message)
                &&& #[trigger] contains_text(stderr, "), \""@ + message)
                &&& forall|i: int|
                    0 <= i < message.len() ==> is_word_char(#[trigger] message[i])
                        || is_white_space(message[i])
            },
{
    let three = spot.0 + ", "@ + spot.1 + ", "@ + spot.2;
    assert(is_spot(three));
    let report = caught_error(name, place, located_error("ParseError"@, three));
    assert(stderr =~= before + report + after);
    surrounded_text_is_contained(before, report, after);
    assert(reports_located_error(stderr, "ParseError"@));
    reports_hold_their_words(stderr, "Todo"@);
    let message = regex_capture(PARSE_ERROR_PATTERN@, stderr, 1)->0;
    located_message_stands_behind_its_spot(stderr, "ParseError"@, message);
}

/// Any other error that pyrometer caught is reported as a panic, with a word that
/// stands behind the report.
pub proof fn a_caught_error_is_a_panic_of_its_kind(
    exit: ExitTypeView,
    stdout: Seq<char>,
    stderr: Seq<char>,
    before: Seq<char>,
    name: Seq<char>,
    place: Seq<char>,
    c: char,
    after: Seq<char>,
)
    requires
        is_what_is_reported(exit, stdout, stderr),
        stderr == before + "thread '"@ + name + "' panicked at "@ + place + "\n"@
            + "Encountered an error: "@ + seq![c] + after,
        !name.contains('\n'),
        place.len() > 0,
        !place.contains('\n'),
        is_word_char(c),
        !contains_text(stderr, "Encountered an error: "@ + "Todo"@ + "(File("@),
        !contains_text(stderr, "Encountered an error: "@ + "ParseError"@ + "(File("@),
    ensures
        exit matches ExitTypeView::ThreadPanic(kind) && {
            &&& regex_capture(DEBUG_PANIC_PATTERN@, stderr, 1) == Some(kind)
            &&& kind.len() > 0
            &&& forall|i: int| 0 <= i < kind.len() ==> is_word_char(#[trigger] kind[i])
            &&& contains_text(stderr, "\n"@ + "Encountered an error: "@ + kind)
        },
{
    let report = caught_error(name, place, seq![c]);
    assert(stderr =~= before + report + after);
    surrounded_text_is_contained(before, report, after);
    assert(reports_caught_error(stderr));
    reports_hold_their_words(stderr, "Todo"@);
    reports_hold_their_words(stderr, "ParseError"@);
    let kind = regex_capture(DEBUG_PANIC_PATTERN@, stderr, 1)->0;
    let (by, at) = choose|by: Seq<char>, at: Seq<char>|
        !by.contains('\n') && is_place(at) && #[trigger] contains_text(
            stderr,
            caught_error(by, at, kind),
        );
    let start = "thread '"@ + by + "' panicked at "@ + at;
    let words = "\n"@ + "Encountered an error: "@ + kind;
    assert(caught_error(by, at, kind) =~= start + words + Seq::<char>::empty());
    middle_stands_too(stderr, start, words, Seq::empty());
}

/// Any other panic is reported as one, with a place that closes the line of a
/// panic. Where standard error tells of a panic once only, that is its place.
pub proof fn a_panic_is_reported_with_its_place(
    exit: ExitTypeView,
    stdout: Seq<char>,
    stderr: Seq<char>,
    before: Seq<char>,
    name: Seq<char>,
    place: Seq<char>,
    after: Seq<char>,
)
    requires
        is_what_is_reported(exit, stdout, stderr),
        stderr == before + "thread '"@ + name + "' panicked at "@ + place + "\n"@ + after,
        !name.contains('\n'),
        place.len() > 0,
        !place.contains('\n'),
        !contains_text(stderr, "Encountered an error: "@),
    ensures
        exit matches ExitTypeView::ThreadPanic(found) && {
            &&& regex_capture(PANIC_PATTERN@, stderr, 1) == Some(found)
            &&& found.len() > 0
            &&& !found.contains('\n')
            &&& contains_text(stderr, "' panicked at "@ + found + "\n"@)
            &&& (forall|i: int, j: int| #[trigger]
                occurs_at(stderr, "' panicked at "@, i) && #[trigger] occurs_at(
                    stderr,
                    "' panicked at "@,
                    j,
                ) ==> i == j) ==> found == place
        },
{
    let report = panic_line(name, place);
    assert(stderr =~= before + report + after);
    surrounded_text_is_contained(before, report, after);
    assert(reports_panic(stderr));
    narrower_reports_are_wider_ones(stderr);
    reports_hold_their_words(stderr, "Todo"@);
    let found = regex_capture(PANIC_PATTERN@, stderr, 1)->0;
    let by = choose|by: Seq<char>|
        !by.contains('\n') && #[trigger] contains_text(stderr, panic_line(by, found));
    let words = "' panicked at "@ + found + "\n"@;
    let start = "thread '"@ + by;
    assert(panic_line(by, found) =~= start + words + Seq::<char>::empty());
    middle_stands_too(stderr, start, words, Seq::empty());
    if forall|i: int, j: int| #[trigger]
        occurs_at(stderr, "' panicked at "@, i) && #[trigger] occurs_at(
            stderr,
            "' panicked at "@,
            j,
        ) ==> i == j {
        let at = choose|at: int| occurs_at(stderr, words, at);
        let here = before + "thread '"@ + name;
        one_line_has_one_place(stderr, here.len() as int, at, place, found, here, after);
    }
}

proof fn one_line_has_one_place(
    text: Seq<char>,
    i: int,
    j: int,
    place: Seq<char>,
    found: Seq<char>,
    here: Seq<char>,
    after: Seq<char>,
)
    requires
        text == here + "' panicked at "@ + place + "\n"@ + after,
        i == here.len(),
        occurs_at(text, "' panicked at "@ + found + "\n"@, j),
        !place.contains('\n'),
        !found.contains('\n'),
        forall|i: int, j: int| #[trigger]
            occurs_at(text, "' panicked at "@, i) && #[trigger] occurs_at(
                text,
                "' panicked at "@,
                j,
            ) ==> i == j,
    ensures
        found == place,
{
    reveal_strlit("' panicked at ");
    reveal_strlit("\n");
    let mark = "' panicked at "@;
    let words = mark + found + "\n"@;
    let seen = text.subrange(j, j + words.len());
    assert(text.subrange(i, i + mark.len()) =~= mark);
    assert(occurs_at(text, mark, i));
    assert(text.subrange(j, j + mark.len()) =~= words.subrange(0, mark.len() as int));
    assert(words.subrange(0, mark.len() as int) =~= mark);
    assert(occurs_at(text, mark, j));
    assert(i == j);
    let start = i + mark.len();
    assert forall|k: int| 0 <= k < found.len() implies text[start + k] == #[trigger] found[k] by {
        assert(seen[mark.len() + k] == words[mark.len() + k]);
    }
    assert(text[start + found.len()] == '\n') by {
        assert(seen[mark.len() + found.len() as int] == words[mark.len() + found.len() as int]);
    }
    assert forall|k: int| 0 <= k < place.len() implies text[start + k] == #[trigger] place[k] by {}
    assert(text[start + place.len()] == '\n');
    if found.len() < place.len() {
        assert(place[found.len() as int] == '\n');
        assert(place.contains('\n'));
    }
    if place.len() < found.len() {
        assert(found[place.len() as int] == '\n');
        assert(found.contains('\n'));
    }
    assert(found =~= place);
}

/// A thread that ran out of stack is reported as a panic for that reason, where
/// no thread panicked.
pub proof fn a_stack_overflow_is_a_panic(
    exit: ExitTypeView,
    stdout: Seq<char>,
    stderr: Seq<char>,
    before: Seq<char>,
    name: Seq<char>,
    after: Seq<char>,
)
    requires
        is_what_is_reported(exit, stdout, stderr),
        stderr == before + "thread '"@ + name + "' has overflowed its stack\n"@ + after,
        !name.contains('\n'),
        !contains_text(stderr, "' panicked at "@),
    ensures
        exit == ExitTypeView::ThreadPanic("Stack overflow"@),
{
    let report = "thread '"@ + name + "' has overflowed its stack\n"@;
    assert(stderr =~= before + report + after);
    surrounded_text_is_contained(before, report, after);
    assert(reports_stack_overflow(stderr));
    narrower_reports_are_wider_ones(stderr);
    reports_hold_their_words(stderr, "Todo"@);
}

/// A run whose output closes with the line of a success is one, where standard
/// error tells of no panic and no stack overflow, and standard output of no error.
pub proof fn a_clean_run_is_a_success(
    exit: ExitTypeView,
    stdout: Seq<char>,
    stderr: Seq<char>,
    before: Seq<char>,
    millis: Seq<char>,
)
    requires
        is_what_is_reported(exit, stdout, stderr),
        stdout == before + "DONE ANALYZING IN: "@ + millis + "ms. Writing to cli...\n"@,
        millis.len() > 0,
        forall|i: int| 0 <= i < millis.len() ==> '0' <= #[trigger] millis[i] <= '9',
        !contains_text(stdout, "Error:"@),
        !contains_text(stderr, "' panicked at "@),
        !contains_text(stderr, "' has overflowed its stack\n"@),
    ensures
        exit == ExitTypeView::Success,
{
    let closing = "DONE ANALYZING IN: "@ + millis + "ms. Writing to cli...\n"@;
    assert(stdout =~= before + closing);
    assert(stdout.subrange(before.len() as int, stdout.len() as int) =~= closing);
    assert(is_number(millis));
    assert(closes_as_success(stdout));
    narrower_reports_are_wider_ones(stderr);
    reports_hold_their_words(stderr, "Todo"@);
    reports_hold_their_words(stdout, "Todo"@);
}

/// The output of a success closes with the line of one, and its standard error
/// holds neither the line of a panic nor that of a stack overflow.
pub proof fn a_success_closes_as_one(
    stdout: Seq<char>,
    stderr: Seq<char>,
    name: Seq<char>,
    place: Seq<char>,
)
    requires
        is_what_is_reported(ExitTypeView::Success, stdout, stderr),
        !name.contains('\n'),
        place.len() > 0,
        !place.contains('\n'),
    ensures
        exists|before: Seq<char>, millis: Seq<char>|
            is_number(millis) && stdout == #[trigger] (before + "DONE ANALYZING IN: "@ + millis
                + "ms. Writing to cli...\n"@),
        !contains_text(stderr, "thread '"@ + name + "' panicked at "@ + place + "\n"@),
        !contains_text(stderr, "thread '"@ + name + "' has overflowed its stack\n"@),
{
    assert(panic_line(name, place) == "thread '"@ + name + "' panicked at "@ + place + "\n"@);
    let millis = choose|millis: Seq<char>|
        is_number(millis) && ends_with_text(
            stdout,
            #[trigger] ("DONE ANALYZING IN: "@ + millis + "ms. Writing to cli...\n"@),
        );
    let closing = "DONE ANALYZING IN: "@ + millis + "ms. Writing to cli...\n"@;
    let before = stdout.take(stdout.len() - closing.len());
    assert(stdout =~= before + closing);
    assert(stdout =~= before + "DONE ANALYZING IN: "@ + millis + "ms. Writing to cli...\n"@);
}

/// Where nothing known is found, both texts are kept as they are.
pub proof fn unknown_output_is_kept(exit: ExitTypeView, stdout: Seq<char>, stderr: Seq<char>)
    requires
        is_what_is_reported(exit, stdout, stderr),
        !contains_text(stdout, "Error:"@),
        !contains_text(stdout, "DONE ANALYZING IN: "@),
        !contains_text(stderr, "' panicked at "@),
        !contains_text(stderr, "' has overflowed its stack\n"@),
    ensures
        exit == ExitTypeView::NonInterpreted(stdout, stderr),
{
    narrower_reports_are_wider_ones(stderr);
    reports_hold_their_words(stderr, "Todo"@);
    reports_hold_their_words(stdout, "Todo"@);
}

} // verus!
