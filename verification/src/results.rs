//! The results of the analysis, and the comma separated rows they are written as.
use crate::exit_type::{label_has_no_comma, ExitType, ExitTypeView};
use crate::metadata::{source_labels_differ, FiestaMetadata, SourceType};
use crate::output::{
    convert_pyrometer_output_to_exit_type, exit_of, findings_in, is_drawn_from, is_kind_reported,
    is_what_is_reported,
};
use crate::seconds::{seconds_have_no_comma, seconds_text, Seconds};
use crate::text::{decimal, push_decimal};
use vstd::prelude::*;
use vstd::string::*;

verus! {

/// What a pyrometer process that ended has left behind: the text of its
/// standard output and of its standard error, as far as they were captured.
#[derive(Clone, Debug)]
pub struct ChildOutput {
    pub stdout: Option<String>,
    pub stderr: Option<String>,
}

impl ChildOutput {
    /// Both streams were captured.
    pub open spec fn is_captured(self) -> bool {
        self.stdout is Some && self.stderr is Some
    }

    /// How the process ended.
    pub open spec fn exit(self) -> ExitTypeView {
        exit_of(
            findings_in(self.stdout->0@, self.stderr->0@),
            self.stdout->0@,
            self.stderr->0@,
        )
    }
}

/// The result of one pyrometer process.
#[derive(Clone, Debug)]
pub struct ResultMessage {
    /// The contract that was analysed.
    pub metadata: FiestaMetadata,
    /// What the process left behind, or nothing if it was stopped for taking too long.
    pub child: Option<ChildOutput>,
    /// How long the process ran.
    pub time: Seconds,
    /// The size of the file that was analysed, in bytes.
    pub size: u64,
}

impl ResultMessage {
    /// The sources of the contract are known, and the output of a process that
    /// ended was captured.
    pub open spec fn is_complete(self) -> bool {
        &&& self.metadata.source_type is Some
        &&& self.child matches Some(child) ==> child.is_captured()
    }

    /// How the process ended.
    pub open spec fn exit(self) -> ExitTypeView {
        match self.child {
            Some(child) => child.exit(),
            None => ExitTypeView::PerformanceTimeout,
        }
    }
}

/// A message tells of a timeout exactly where the process was stopped. Of one
/// that ended, it tells what its captured output says.
pub proof fn only_stopped_processes_time_out(message: ResultMessage)
    requires
        message.is_complete(),
    ensures
        message.exit() == ExitTypeView::PerformanceTimeout <==> message.child is None,
        message.child matches Some(child) ==> message.exit() == exit_of(
            findings_in(child.stdout->0@, child.stderr->0@),
            child.stdout->0@,
            child.stderr->0@,
        ),
{
}

/// Tells how a pyrometer process ended.
pub fn check_child_exit(child: ChildOutput) -> (exit: ExitType)
    requires
        child.is_captured(),
    ensures
        exit@ == child.exit(),
        is_drawn_from(exit@, child.stdout->0@, child.stderr->0@),
        is_kind_reported(exit@, child.stdout->0@, child.stderr->0@),
        is_what_is_reported(exit@, child.stdout->0@, child.stderr->0@),
{
    let stdout_string = child.stdout.unwrap();
    let stderr_string = child.stderr.unwrap();
    convert_pyrometer_output_to_exit_type(stdout_string, stderr_string)
}

/// Tells how the process behind a message ended. One that was stopped for
/// taking too long, and no other, ended in a timeout.
pub fn message_exit(child: Option<ChildOutput>) -> (exit: ExitType)
    requires
        child matches Some(output) ==> output.is_captured(),
    ensures
        child matches Some(output) ==> {
            &&& exit@ == output.exit()
            &&& is_kind_reported(exit@, output.stdout->0@, output.stderr->0@)
            &&& is_what_is_reported(exit@, output.stdout->0@, output.stderr->0@)
        },
        exit@ == ExitTypeView::PerformanceTimeout <==> child is None,
{
    match child {
        Some(output) => check_child_exit(output),
        None => ExitType::PerformanceTimeout,
    }
}

/// One row of the results.
pub open spec fn row(
    bytecode_hash: Seq<char>,
    result: ExitTypeView,
    millis: nat,
    source_type: SourceType,
    size: nat,
) -> Seq<char> {
    bytecode_hash + ","@ + result.label() + ","@ + seconds_text(millis) + ","@ + source_type.label() + ","@
        + decimal(size) + "\n"@
}

/// One row of the results.
pub struct ResultsRow {
    /// The hash of the contract's bytecode.
    pub bytecode_hash: String,
    /// How the analysis ended.
    pub result: ExitType,
    /// How long the analysis ran.
    pub time: Seconds,
    /// The sources of the contract.
    pub source_type: SourceType,
    /// The size of the file that was analysed, in bytes.
    pub size: u64,
}

impl ResultsRow {
    /// The row of one result.
    pub fn from(
        result: ExitType,
        bytecode_hash: String,
        source_type: SourceType,
        time: Seconds,
        size: u64,
    ) -> (row: ResultsRow)
        ensures
            row == (ResultsRow { bytecode_hash, result, time, source_type, size }),
    {
        ResultsRow { bytecode_hash, result, time, source_type, size }
    }

    /// The text of the row.
    pub open spec fn text(self) -> Seq<char> {
        row(
            self.bytecode_hash@,
            self.result@,
            self.time.millis as nat,
            self.source_type,
            self.size as nat,
        )
    }

    /// Writes the row out.
    pub fn convert_to_csv_string(&self) -> (text: String)
        ensures
            text@ == self.text(),
    {
        let result = self.result.to_string();
        let time = self.time.to_string();
        let source_type = self.source_type.to_string();
        let mut text = self.bytecode_hash.clone();
        text.append(",");
        text.append(result.as_str());
        text.append(",");
        text.append(time.as_str());
        text.append(",");
        text.append(source_type.as_str());
        text.append(",");
        push_decimal(&mut text, self.size as u128);
        text.append("\n");
        text
    }
}

/// Writes the results of a run to one file.
pub struct ResultsWriter {
    /// The path of the file.
    pub output_path: String,
}

/// The names of the columns of a row.
pub open spec fn header() -> Seq<char> {
    "bytecode_hash,result,time (sec),source_type,source_size\n"@
}

impl ResultsWriter {
    /// The first line of the file: the names of the columns.
    pub fn convert_fields_to_header() -> (text: String)
        ensures
            text@ == header(),
    {
        "bytecode_hash,result,time (sec),source_type,source_size\n".to_owned()
    }

    /// The line that is appended to the file for one result.
    pub fn results_line(
        metadata: FiestaMetadata,
        exit_type: ExitType,
        time: Seconds,
        size: u64,
    ) -> (line: String)
        requires
            metadata.source_type is Some,
        ensures
            line@ == row(
                metadata.bytecode_hash@,
                exit_type@,
                time.millis as nat,
                metadata.source_type->0,
                size as nat,
            ),
    {
        let source_type = metadata.source_type.unwrap();
        let result_row = ResultsRow::from(
            exit_type,
            metadata.bytecode_hash,
            source_type,
            time,
            size,
        );
        result_row.convert_to_csv_string()
    }
}

/// The fields of a line: what stands between its commas.
pub open spec fn fields(line: Seq<char>) -> Seq<Seq<char>>
    decreases line.len(),
{
    if line.len() == 0 {
        seq![Seq::empty()]
    } else {
        let rest = fields(line.drop_last());
        if line.last() == ',' {
            rest.push(Seq::empty())
        } else {
            rest.drop_last().push(rest.last().push(line.last()))
        }
    }
}

proof fn fields_are_never_none(line: Seq<char>)
    ensures
        fields(line).len() > 0,
    decreases line.len(),
{
    if line.len() > 0 {
        fields_are_never_none(line.drop_last());
    }
}

/// A line without a comma is one field.
pub proof fn one_field(line: Seq<char>)
    requires
        !line.contains(','),
    ensures
        fields(line) == seq![line],
    decreases line.len(),
{
    if line.len() > 0 {
        let rest = line.drop_last();
        assert forall|i: int| 0 <= i < rest.len() implies rest[i] != ',' by {
            assert(rest[i] == line[i]);
            assert(line.contains(line[i]));
        }
        one_field(rest);
        assert(line.contains(line.last()));
        assert(fields(line) =~= seq![rest.push(line.last())]);
        assert(rest.push(line.last()) =~= line);
    } else {
        assert(line =~= Seq::empty());
    }
}

/// A comma parts the fields before it from those behind it.
pub proof fn fields_join(a: Seq<char>, b: Seq<char>)
    ensures
        fields(a + ","@ + b) == fields(a) + fields(b),
    decreases b.len(),
{
    reveal_strlit(",");
    let line = a + ","@ + b;
    fields_are_never_none(a);
    if b.len() == 0 {
        assert(line.drop_last() =~= a);
        assert(line.last() == ',');
        assert(fields(line) =~= fields(a) + fields(b));
    } else {
        let rest = b.drop_last();
        fields_join(a, rest);
        fields_are_never_none(rest);
        assert(line.drop_last() =~= a + ","@ + rest);
        assert(line.last() == b.last());
        assert(fields(line) =~= fields(a) + fields(b));
    }
}

proof fn decimal_has_no_comma(n: nat)
    ensures
        !decimal(n).contains(','),
    decreases n,
{
    if n >= 10 {
        decimal_has_no_comma(n / 10);
        let high = decimal(n / 10);
        assert forall|i: int| 0 <= i < decimal(n).len() implies decimal(n)[i] != ',' by {
            if i < high.len() {
                assert(high.contains(high[i]));
            }
        }
    }
}

/// Read at its commas, a row gives back the five values that it was made of,
/// whatever message it reports. The hash must hold no comma.
pub proof fn row_reads_back(
    bytecode_hash: Seq<char>,
    result: ExitTypeView,
    millis: nat,
    source_type: SourceType,
    size: nat,
)
    requires
        !bytecode_hash.contains(','),
    ensures
        ({
            let text = row(bytecode_hash, result, millis, source_type, size);
            &&& text.last() == '\n'
            &&& fields(text.drop_last()) == seq![
                bytecode_hash,
                result.label(),
                seconds_text(millis),
                source_type.label(),
                decimal(size),
            ]
        }),
{
    reveal_strlit("\n");
    let text = row(bytecode_hash, result, millis, source_type, size);
    let time = seconds_text(millis);
    let two = bytecode_hash + ","@ + result.label();
    let three = two + ","@ + time;
    let four = three + ","@ + source_type.label();
    let five = four + ","@ + decimal(size);
    assert(text =~= five + "\n"@);
    assert(text.drop_last() =~= five);
    label_has_no_comma(result);
    seconds_have_no_comma(millis);
    source_labels_differ(source_type, source_type);
    decimal_has_no_comma(size);
    one_field(bytecode_hash);
    one_field(result.label());
    one_field(time);
    one_field(source_type.label());
    one_field(decimal(size));
    fields_join(bytecode_hash, result.label());
    fields_join(two, time);
    fields_join(three, source_type.label());
    fields_join(four, decimal(size));
    assert(fields(five) =~= seq![
        bytecode_hash,
        result.label(),
        time,
        source_type.label(),
        decimal(size),
    ]);
}

/// How many commas a text holds.
pub open spec fn commas(text: Seq<char>) -> nat {
    text.filter(|c: char| c == ',').len()
}

proof fn commas_part_the_fields(line: Seq<char>)
    ensures
        commas(line) + 1 == fields(line).len(),
    decreases line.len(),
{
    reveal(Seq::filter);
    if line.len() > 0 {
        commas_part_the_fields(line.drop_last());
    }
}

/// Every row has the columns of the header, whatever commas its message held:
/// hash, result, time, source type and size, in this order, parted by four
/// commas and closed by the end of the line. The hash must hold no comma.
pub proof fn every_row_has_the_columns_of_the_header(results_row: ResultsRow)
    requires
        !results_row.bytecode_hash@.contains(','),
    ensures
        results_row.text().last() == '\n',
        commas(results_row.text()) == 4,
        commas(header()) == 4,
        fields(results_row.text().drop_last()) == seq![
            results_row.bytecode_hash@,
            results_row.result@.label(),
            results_row.time.text(),
            results_row.source_type.label(),
            decimal(results_row.size as nat),
        ],
        fields(header().drop_last()) == seq![
            "bytecode_hash"@,
            "result"@,
            "time (sec)"@,
            "source_type"@,
            "source_size"@,
        ],
{
    reveal(Seq::filter);
    let text = results_row.text();
    row_reads_back(
        results_row.bytecode_hash@,
        results_row.result@,
        results_row.time.millis as nat,
        results_row.source_type,
        results_row.size as nat,
    );
    header_names_the_columns();
    commas_part_the_fields(text.drop_last());
    commas_part_the_fields(header().drop_last());
}

proof fn header_names_the_columns()
    ensures
        header().len() > 0,
        header().last() == '\n',
        fields(header().drop_last()) == seq![
            "bytecode_hash"@,
            "result"@,
            "time (sec)"@,
            "source_type"@,
            "source_size"@,
        ],
{
    reveal_strlit("bytecode_hash,result,time (sec),source_type,source_size\n");
    reveal_strlit("bytecode_hash");
    reveal_strlit("result");
    reveal_strlit("time (sec)");
    reveal_strlit("source_type");
    reveal_strlit("source_size");
    reveal_strlit(",");
    let two = "bytecode_hash"@ + ","@ + "result"@;
    let three = two + ","@ + "time (sec)"@;
    let four = three + ","@ + "source_type"@;
    let five = four + ","@ + "source_size"@;
    assert(header().drop_last() =~= five);
    one_field("bytecode_hash"@);
    one_field("result"@);
    one_field("time (sec)"@);
    one_field("source_type"@);
    one_field("source_size"@);
    fields_join("bytecode_hash"@, "result"@);
    fields_join(two, "time (sec)"@);
    fields_join(three, "source_type"@);
    fields_join(four, "source_size"@);
    assert(fields(five) =~= seq![
        "bytecode_hash"@,
        "result"@,
        "time (sec)"@,
        "source_type"@,
        "source_size"@,
    ]);
}

} // verus!
