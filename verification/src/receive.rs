//! Taking in the results of the analysis: what is written down, what is counted,
//! and when to stop.
use crate::exit_type::{
    labels_tell_kinds_apart, success_label_means_success, ExitType, ExitTypeView,
};
use crate::metadata::{source_label_names_kind, FiestaMetadata};
use crate::results::{
    fields, message_exit, only_stopped_processes_time_out, row, row_reads_back, ResultMessage,
    ResultsWriter,
};
use crate::seconds::{
    decimal_reads_back, digits_value, has_three_decimals, seconds_read_back,
    whole_seconds_stand_before_the_point, Seconds,
};
use crate::tally::{
    count_is_within_total, count_of, counted, counting_adds_one, labels_differ, tallied, total_of,
    ResultDistribution,
};
use crate::text::decimal;
use vstd::prelude::*;

verus! {

/// The mathematical value of [`ReceivedResults`].
#[verifier::ext_equal]
pub struct ReceivedView {
    /// How often each label came up.
    pub distribution: Seq<(Seq<char>, nat)>,
    /// How many results were successes.
    pub parse_count: nat,
    /// How many results there were.
    pub total_parsable: nat,
}

impl ReceivedView {
    /// Nothing was received yet.
    pub open spec fn initial() -> ReceivedView {
        ReceivedView { distribution: Seq::empty(), parse_count: 0, total_parsable: 0 }
    }

    /// One more result was received.
    pub open spec fn with_result(self, exit: ExitTypeView) -> ReceivedView {
        ReceivedView {
            distribution: counted(self.distribution, exit.label()),
            parse_count: self.parse_count + (if exit == ExitTypeView::Success {
                1nat
            } else {
                0nat
            }),
            total_parsable: self.total_parsable + 1,
        }
    }

    /// The counts fit together: they add up to the number of results, and the
    /// successes are those counted under the label of success.
    pub open spec fn is_consistent(self) -> bool {
        &&& labels_differ(self.distribution)
        &&& total_of(self.distribution) == self.total_parsable
        &&& count_of(self.distribution, "Success"@) == self.parse_count
    }
}

/// What was received so far.
pub struct ReceivedResults {
    distribution: ResultDistribution,
    parse_count: usize,
    total_parsable: usize,
}

impl View for ReceivedResults {
    type V = ReceivedView;

    closed spec fn view(&self) -> ReceivedView {
        ReceivedView {
            distribution: self.distribution@,
            parse_count: self.parse_count as nat,
            total_parsable: self.total_parsable as nat,
        }
    }
}

/// What came of waiting for the next result.
pub enum Received {
    /// A result.
    Message(ResultMessage),
    /// No result came in time.
    Timeout,
    /// No result can come any more.
    Disconnected,
}

/// What to do after waiting for a result.
#[derive(Debug)]
pub enum RxAction {
    /// Append this line to the results, and go on.
    Append(String),
    /// Stop receiving.
    Quit,
    /// Go on.
    Continue,
}

/// Whether to wait for another result: not once the user asked to leave, nor
/// once all the analyses are done.
pub fn waits_for_result(early_exit: bool, stopped: bool) -> (waits: bool)
    ensures
        waits == (!early_exit && !stopped),
{
    !early_exit && !stopped
}

/// The line of a result, as it is written down.
pub open spec fn line_of(message: ResultMessage) -> Seq<char> {
    row(
        message.metadata.bytecode_hash@,
        message.exit(),
        message.time.millis as nat,
        message.metadata.source_type->0,
        message.size as nat,
    )
}

impl ReceivedResults {
    /// The counts fit together.
    pub open spec fn well_formed(self) -> bool {
        self@.is_consistent()
    }

    /// Nothing was received yet.
    pub fn new() -> (results: ReceivedResults)
        ensures
            results.well_formed(),
            results@ == ReceivedView::initial(),
    {
        ReceivedResults { distribution: ResultDistribution::new(), parse_count: 0, total_parsable: 0 }
    }

    /// How many results were successes.
    pub fn parse_count(&self) -> (count: usize)
        ensures
            count == self@.parse_count,
    {
        self.parse_count
    }

    /// How many results there were.
    pub fn total_parsable(&self) -> (count: usize)
        ensures
            count == self@.total_parsable,
    {
        self.total_parsable
    }

    /// Counts a result, and gives the line that is appended for it.
    pub fn record_result(
        &mut self,
        metadata: FiestaMetadata,
        exit_type: ExitType,
        time: Seconds,
        size: u64,
    ) -> (line: String)
        requires
            old(self).well_formed(),
            old(self)@.total_parsable < usize::MAX,
            metadata.source_type is Some,
        ensures
            final(self).well_formed(),
            final(self)@ == old(self)@.with_result(exit_type@),
            line@ == row(
                metadata.bytecode_hash@,
                exit_type@,
                time.millis as nat,
                metadata.source_type->0,
                size as nat,
            ),
    {
        proof {
            received_counts_stay_consistent(self@, exit_type@);
            counting_adds_one(self@.distribution, exit_type@.label(), "Success"@);
            success_label_means_success(exit_type@);
            count_is_within_total(self@.distribution, "Success"@);
        }
        let label = exit_type.to_string();
        if let ExitType::Success = &exit_type {
            self.parse_count += 1;
        }
        self.total_parsable += 1;
        self.distribution.record(label);
        ResultsWriter::results_line(metadata, exit_type, time, size)
    }

    /// Takes in what came of waiting for a result.
    pub fn on_received(&mut self, received: Received) -> (action: RxAction)
        requires
            old(self).well_formed(),
            received matches Received::Message(message) ==> {
                &&& message.is_complete()
                &&& old(self)@.total_parsable < usize::MAX
            },
        ensures
            final(self).well_formed(),
            match received {
                Received::Message(message) => {
                    &&& final(self)@ == old(self)@.with_result(message.exit())
                    &&& action matches RxAction::Append(line)
                    &&& line@ == line_of(message)
                },
                Received::Timeout => {
                    &&& final(self)@ == old(self)@
                    &&& action == RxAction::Quit
                },
                Received::Disconnected => {
                    &&& final(self)@ == old(self)@
                    &&& action == RxAction::Continue
                },
            },
            ({
                let before = RxRun { received: old(self)@, ..RxRun::initial() };
                let after = before.step(RxRound { early_exit: false, stopped: false, received });
                &&& after.received == final(self)@
                &&& after.quit <==> action is Quit
                &&& after.lines == (match action {
                    RxAction::Append(line) => seq![line@],
                    _ => Seq::empty(),
                })
            }),
    {
        match received {
            Received::Message(message) => {
                let exit_type = message_exit(message.child);
                let line = self.record_result(
                    message.metadata,
                    exit_type,
                    message.time,
                    message.size,
                );
                RxAction::Append(line)
            },
            Received::Timeout => RxAction::Quit,
            Received::Disconnected => RxAction::Continue,
        }
    }

    /// The distribution of the results, and how many there were.
    pub fn into_distribution(self) -> (counts: (ResultDistribution, usize))
        requires
            self.well_formed(),
        ensures
            counts.0.well_formed(),
            counts.0@ == self@.distribution,
            counts.1 == self@.total_parsable,
            total_of(counts.0@) == counts.1,
    {
        (self.distribution, self.total_parsable)
    }
}

/// Each result keeps the counts in step: they add up to the number of results,
/// and the successes are those counted under the label of success.
pub proof fn received_counts_stay_consistent(received: ReceivedView, exit: ExitTypeView)
    requires
        received.is_consistent(),
    ensures
        received.with_result(exit).is_consistent(),
{
    counting_adds_one(received.distribution, exit.label(), "Success"@);
    success_label_means_success(exit);
}

/// Read at its commas, the line that is appended for a message gives back the
/// values of that message: the hash, the label of how its process ended, the
/// time as seconds with three decimals, the kind of its sources and the size.
/// The hash must hold no comma.
pub proof fn line_gives_back_its_message(message: ResultMessage)
    requires
        message.is_complete(),
        !message.metadata.bytecode_hash@.contains(','),
    ensures
        ({
            let line = line_of(message);
            let found = fields(line.drop_last());
            let point = found[2].len() - 4;
            let source_type = message.metadata.source_type->0;
            &&& line.last() == '\n'
            &&& found.len() == 5
            &&& found[0] == message.metadata.bytecode_hash@
            &&& found[1] == message.exit().label()
            &&& message.child is None <==> found[1] == "PerformanceTimeout"@
            &&& has_three_decimals(found[2])
            &&& found[2].take(point) == decimal((message.time.millis / 1000) as nat)
            &&& digits_value(found[2].remove(point)) == message.time.millis
            &&& source_type is SingleMain ==> found[3] == "SingleFile"@
            &&& source_type is Multiple ==> found[3] == "MultipleFiles"@
            &&& source_type is EtherscanMetadata ==> found[3] == "JSON"@
            &&& found[4] == decimal(message.size as nat)
            &&& digits_value(found[4]) == message.size
        }),
{
    row_reads_back(
        message.metadata.bytecode_hash@,
        message.exit(),
        message.time.millis as nat,
        message.metadata.source_type->0,
        message.size as nat,
    );
    seconds_read_back(message.time.millis as nat);
    whole_seconds_stand_before_the_point(
        (message.time.millis / 1000) as nat,
        (message.time.millis % 1000) as nat,
    );
    decimal_reads_back(message.size as nat);
    source_label_names_kind(message.metadata.source_type->0);
    only_stopped_processes_time_out(message);
    if message.exit().label() == "PerformanceTimeout"@ {
        labels_tell_kinds_apart(message.exit(), ExitTypeView::PerformanceTimeout);
    }
}

/// Two messages whose lines are the same tell of the same hash, label, time and
/// size. Their hashes must hold no comma.
pub proof fn lines_tell_messages_apart(a: ResultMessage, b: ResultMessage)
    requires
        a.is_complete(),
        b.is_complete(),
        !a.metadata.bytecode_hash@.contains(','),
        !b.metadata.bytecode_hash@.contains(','),
        line_of(a) == line_of(b),
    ensures
        a.metadata.bytecode_hash@ == b.metadata.bytecode_hash@,
        a.exit().label() == b.exit().label(),
        a.time == b.time,
        a.size == b.size,
        a.child is None <==> b.child is None,
{
    line_gives_back_its_message(a);
    line_gives_back_its_message(b);
}

/// A result adds one to the results, one to the count of its own label and to no
/// other, and one to the successes exactly where it is one.
pub proof fn a_result_counts_once_under_its_label(
    received: ReceivedView,
    exit: ExitTypeView,
    label: Seq<char>,
)
    requires
        received.is_consistent(),
    ensures
        ({
            let after = received.with_result(exit);
            &&& after.total_parsable == received.total_parsable + 1
            &&& after.parse_count == received.parse_count + (if exit is Success {
                1nat
            } else {
                0nat
            })
            &&& count_of(after.distribution, label) == count_of(received.distribution, label) + (
            if label == exit.label() {
                1nat
            } else {
                0nat
            })
        }),
{
    counting_adds_one(received.distribution, exit.label(), label);
}

/// One round of receiving: what the two flags said, and what came of waiting.
pub struct RxRound {
    pub early_exit: bool,
    pub stopped: bool,
    pub received: Received,
}

/// Everything that a run of receiving has come to.
#[verifier::ext_equal]
pub struct RxRun {
    /// The counts.
    pub received: ReceivedView,
    /// The lines that were appended to the results.
    pub lines: Seq<Seq<char>>,
    /// The labels that came up, one for each line.
    pub labels: Seq<Seq<char>>,
    /// Receiving has stopped.
    pub quit: bool,
}

impl RxRun {
    /// Nothing has happened yet.
    pub open spec fn initial() -> RxRun {
        RxRun {
            received: ReceivedView::initial(),
            lines: Seq::empty(),
            labels: Seq::empty(),
            quit: false,
        }
    }

    /// After one more round.
    pub open spec fn step(self, round: RxRound) -> RxRun {
        if self.quit {
            self
        } else if round.early_exit || round.stopped {
            RxRun { quit: true, ..self }
        } else {
            match round.received {
                Received::Message(message) => RxRun {
                    received: self.received.with_result(message.exit()),
                    lines: self.lines.push(line_of(message)),
                    labels: self.labels.push(message.exit().label()),
                    quit: false,
                },
                Received::Timeout => RxRun { quit: true, ..self },
                Received::Disconnected => self,
            }
        }
    }

    /// After a list of rounds.
    pub open spec fn run(rounds: Seq<RxRound>) -> RxRun
        decreases rounds.len(),
    {
        if rounds.len() == 0 {
            RxRun::initial()
        } else {
            RxRun::run(rounds.drop_last()).step(rounds.last())
        }
    }
}

/// However the results come in, each one that is received is written down once
/// and counted once under its label: the counts are those of the labels that
/// came up, and the total is the number of lines.
pub proof fn every_result_is_written_and_counted(rounds: Seq<RxRound>)
    ensures
        ({
            let end = RxRun::run(rounds);
            &&& end.received.is_consistent()
            &&& end.received.distribution == tallied(end.labels)
            &&& end.received.total_parsable == end.lines.len()
            &&& end.labels.len() == end.lines.len()
        }),
    decreases rounds.len(),
{
    if rounds.len() == 0 {
        assert(total_of(ReceivedView::initial().distribution) == 0);
    } else {
        every_result_is_written_and_counted(rounds.drop_last());
        let before = RxRun::run(rounds.drop_last());
        let after = RxRun::run(rounds);
        if let Received::Message(message) = rounds.last().received {
            received_counts_stay_consistent(before.received, message.exit());
            if after.labels.len() > before.labels.len() {
                assert(after.labels.drop_last() =~= before.labels);
            }
        }
    }
}

/// The lines of all the results among a list of rounds, in the order of the rounds.
pub open spec fn lines_of(rounds: Seq<RxRound>) -> Seq<Seq<char>>
    decreases rounds.len(),
{
    if rounds.len() == 0 {
        Seq::empty()
    } else {
        match rounds.last().received {
            Received::Message(message) => lines_of(rounds.drop_last()).push(line_of(message)),
            _ => lines_of(rounds.drop_last()),
        }
    }
}

/// As long as receiving goes on, no result is lost: each one is written, in the
/// order in which they come in.
pub proof fn no_result_is_lost(rounds: Seq<RxRound>)
    ensures
        !RxRun::run(rounds).quit ==> RxRun::run(rounds).lines == lines_of(rounds),
    decreases rounds.len(),
{
    if rounds.len() > 0 {
        no_result_is_lost(rounds.drop_last());
    }
}

/// As long as nobody leaves and a message comes in every round, each round
/// writes the line of its own message and counts its label.
pub proof fn every_message_is_written(rounds: Seq<RxRound>)
    requires
        forall|i: int|
            0 <= i < rounds.len() ==> !(#[trigger] rounds[i]).early_exit && !rounds[i].stopped
                && rounds[i].received is Message,
    ensures
        ({
            let end = RxRun::run(rounds);
            &&& !end.quit
            &&& end.lines.len() == rounds.len()
            &&& end.labels.len() == rounds.len()
            &&& forall|i: int|
                0 <= i < rounds.len() ==> {
                    let message = (#[trigger] rounds[i]).received->Message_0;
                    &&& end.lines[i] == line_of(message)
                    &&& end.labels[i] == message.exit().label()
                }
        }),
    decreases rounds.len(),
{
    if rounds.len() > 0 {
        let rest = rounds.drop_last();
        assert forall|i: int| 0 <= i < rest.len() implies rest[i] == #[trigger] rounds[i] by {}
        assert forall|i: int| 0 <= i < rest.len() implies !(#[trigger] rest[i]).early_exit
            && !rest[i].stopped && rest[i].received is Message by {
            assert(rest[i] == rounds[i]);
        }
        every_message_is_written(rest);
    }
}

/// Each label that is counted is the one that the line of its result reports.
/// The hashes must hold no comma.
pub proof fn counted_labels_are_those_written(rounds: Seq<RxRound>)
    requires
        forall|i: int|
            0 <= i < rounds.len() && (#[trigger] rounds[i]).received is Message ==> {
                let message = rounds[i].received->Message_0;
                message.is_complete() && !message.metadata.bytecode_hash@.contains(',')
            },
    ensures
        ({
            let end = RxRun::run(rounds);
            &&& end.lines.len() == end.labels.len()
            &&& forall|i: int|
                0 <= i < end.lines.len() ==> fields((#[trigger] end.lines[i]).drop_last())[1]
                    == end.labels[i]
        }),
    decreases rounds.len(),
{
    if rounds.len() > 0 {
        let rest = rounds.drop_last();
        assert forall|i: int| 0 <= i < rest.len() && (#[trigger] rest[i]).received is Message implies ({
            let message = rest[i].received->Message_0;
            message.is_complete() && !message.metadata.bytecode_hash@.contains(',')
        }) by {
            assert(rest[i] == rounds[i]);
        }
        counted_labels_are_those_written(rest);
        let before = RxRun::run(rest);
        let after = RxRun::run(rounds);
        if let Received::Message(message) = rounds.last().received {
            assert(rounds[rounds.len() - 1].received is Message);
            line_gives_back_its_message(message);
        }
        assert forall|i: int| 0 <= i < after.lines.len() implies fields(
            (#[trigger] after.lines[i]).drop_last(),
        )[1] == after.labels[i] by {
            if i < before.lines.len() {
                assert(after.lines[i] == before.lines[i]);
                assert(after.labels[i] == before.labels[i]);
            }
        }
    }
}

/// Receiving stops when the user asks to leave, when the analyses are done, or
/// when no result comes in time, and nothing is written or counted then.
pub proof fn leaving_stops_receiving(rounds: Seq<RxRound>, round: RxRound)
    requires
        round.early_exit || round.stopped || round.received is Timeout,
    ensures
        RxRun::run(rounds.push(round)).quit,
        RxRun::run(rounds.push(round)).lines == RxRun::run(rounds).lines,
        RxRun::run(rounds.push(round)).received == RxRun::run(rounds).received,
{
    assert(rounds.push(round).drop_last() =~= rounds);
}

/// That no result can come any more stops nothing by itself: such a round
/// changes nothing.
pub proof fn a_disconnection_changes_nothing(rounds: Seq<RxRound>, round: RxRound)
    requires
        !round.early_exit,
        !round.stopped,
        round.received is Disconnected,
    ensures
        RxRun::run(rounds.push(round)) == RxRun::run(rounds),
{
    assert(rounds.push(round).drop_last() =~= rounds);
}

/// Once receiving has stopped, nothing that happens later is written or counted.
pub proof fn nothing_is_received_after_quitting(rounds: Seq<RxRound>, later: Seq<RxRound>)
    requires
        RxRun::run(rounds).quit,
    ensures
        RxRun::run(rounds + later) == RxRun::run(rounds),
    decreases later.len(),
{
    if later.len() == 0 {
        assert(rounds + later =~= rounds);
    } else {
        nothing_is_received_after_quitting(rounds, later.drop_last());
        assert((rounds + later).drop_last() =~= rounds + later.drop_last());
    }
}

} // verus!
