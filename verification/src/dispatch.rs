//! Running the analyses: which contract comes next, and what to do about a
//! process that is being waited for.
use vstd::prelude::*;

verus! {

/// The mathematical value of a [`Dispatcher`].
#[verifier::ext_equal]
pub struct DispatcherView {
    /// The place of the next contract.
    pub next: nat,
    /// How many contracts there are to launch.
    pub total: nat,
}

impl DispatcherView {
    /// The contract to launch now. None is launched once the user asked to leave.
    pub open spec fn launched(self, early_exit: bool) -> Option<nat> {
        if early_exit || self.next >= self.total {
            None
        } else {
            Some(self.next)
        }
    }

    /// What is left to launch after that. Nothing is, once the user asked to leave.
    pub open spec fn advanced(self, early_exit: bool) -> DispatcherView {
        if early_exit {
            DispatcherView { total: self.next, ..self }
        } else if self.next >= self.total {
            self
        } else {
            DispatcherView { next: self.next + 1, ..self }
        }
    }

    /// What is left to launch after a list of requests.
    pub open spec fn after(self, flags: Seq<bool>) -> DispatcherView
        decreases flags.len(),
    {
        if flags.len() == 0 {
            self
        } else {
            self.after(flags.drop_last()).advanced(flags.last())
        }
    }

    /// The contracts launched by a list of requests.
    pub open spec fn all_launched(self, flags: Seq<bool>) -> Seq<nat>
        decreases flags.len(),
    {
        if flags.len() == 0 {
            Seq::empty()
        } else {
            let earlier = self.all_launched(flags.drop_last());
            match self.after(flags.drop_last()).launched(flags.last()) {
                Some(contract) => earlier.push(contract),
                None => earlier,
            }
        }
    }
}

/// Hands out the contracts to analyse, one at a time.
pub struct Dispatcher {
    next: usize,
    total: usize,
}

impl View for Dispatcher {
    type V = DispatcherView;

    closed spec fn view(&self) -> DispatcherView {
        DispatcherView { next: self.next as nat, total: self.total as nat }
    }
}

impl Dispatcher {
    /// Hands out `total` contracts.
    pub fn new(total: usize) -> (dispatcher: Dispatcher)
        ensures
            dispatcher@ == (DispatcherView { next: 0, total: total as nat }),
    {
        Dispatcher { next: 0, total }
    }

    /// The place of the contract to launch now, if there is one. `early_exit`
    /// tells that the user asked to leave.
    pub fn next_contract(&mut self, early_exit: bool) -> (contract: Option<usize>)
        ensures
            match contract {
                Some(i) => old(self)@.launched(early_exit) == Some(i as nat),
                None => old(self)@.launched(early_exit) is None,
            },
            final(self)@ == old(self)@.advanced(early_exit),
    {
        if early_exit {
            self.total = self.next;
            None
        } else if self.next >= self.total {
            None
        } else {
            let contract: usize = self.next;
            self.next += 1;
            Some(contract)
        }
    }
}

/// How many requests go by before the user asks to leave.
pub open spec fn quiet_requests(flags: Seq<bool>) -> nat
    decreases flags.len(),
{
    if flags.len() == 0 {
        0
    } else {
        let earlier = quiet_requests(flags.drop_last());
        if earlier < flags.len() - 1 || flags.last() {
            earlier
        } else {
            flags.len()
        }
    }
}

/// The contracts are launched in their order, each one once, and none after
/// the user asked to leave. Without that, enough requests launch all of them.
pub proof fn contracts_launch_once_in_order(total: nat, flags: Seq<bool>)
    ensures
        ({
            let quiet = quiet_requests(flags);
            let count = if quiet < total { quiet } else { total };
            DispatcherView { next: 0, total }.all_launched(flags) == Seq::new(
                count,
                |i: int| i as nat,
            )
        }),
{
    launch_invariant(total, flags);
}

proof fn launch_invariant(total: nat, flags: Seq<bool>)
    ensures
        ({
            let start = DispatcherView { next: 0, total };
            let quiet = quiet_requests(flags);
            let count = if quiet < total { quiet } else { total };
            &&& quiet <= flags.len()
            &&& start.all_launched(flags) == Seq::new(count, |i: int| i as nat)
            &&& start.after(flags).next == count
            &&& start.after(flags).total == (if quiet < flags.len() { count } else { total })
        }),
    decreases flags.len(),
{
    let start = DispatcherView { next: 0, total };
    if flags.len() == 0 {
        assert(start.all_launched(flags) =~= Seq::new(0, |i: int| i as nat));
    } else {
        launch_invariant(total, flags.drop_last());
        let quiet = quiet_requests(flags);
        let count = if quiet < total { quiet } else { total };
        assert(start.all_launched(flags) =~= Seq::new(count, |i: int| i as nat));
    }
}

/// The requests that go by before the user asks to leave are those before the
/// first that tells so.
pub proof fn quiet_requests_come_first(flags: Seq<bool>)
    ensures
        quiet_requests(flags) <= flags.len(),
        forall|i: int| 0 <= i < quiet_requests(flags) ==> !(#[trigger] flags[i]),
        quiet_requests(flags) < flags.len() ==> flags[quiet_requests(flags) as int],
    decreases flags.len(),
{
    if flags.len() > 0 {
        let rest = flags.drop_last();
        quiet_requests_come_first(rest);
        assert forall|i: int| 0 <= i < quiet_requests(flags) implies !(#[trigger] flags[i]) by {
            if i < rest.len() {
                assert(rest[i] == flags[i]);
            }
        }
    }
}

/// As long as nobody asks to leave, each request launches the contract of its
/// own place, until there is none left.
pub proof fn each_request_launches_its_contract(total: nat, flags: Seq<bool>)
    requires
        forall|i: int| 0 <= i < flags.len() ==> !(#[trigger] flags[i]),
    ensures
        ({
            let launched = DispatcherView { next: 0, total }.all_launched(flags);
            &&& launched.len() == (if flags.len() < total { flags.len() } else { total })
            &&& forall|i: int| 0 <= i < launched.len() ==> #[trigger] launched[i] == i
        }),
{
    quiet_requests_come_first(flags);
    contracts_launch_once_in_order(total, flags);
}

/// From the moment at which the user asks to leave, nothing is launched.
pub proof fn nothing_launches_after_leaving(total: nat, flags: Seq<bool>, at: int)
    requires
        0 <= at < flags.len(),
        flags[at],
    ensures
        ({
            let start = DispatcherView { next: 0, total };
            start.all_launched(flags) == start.all_launched(flags.take(at))
        }),
{
    let earlier = flags.take(at);
    quiet_requests_come_first(flags);
    quiet_requests_come_first(earlier);
    let quiet = quiet_requests(flags) as int;
    let before = quiet_requests(earlier) as int;
    if before < earlier.len() {
        assert(earlier[before] == flags[before]);
    }
    if quiet < earlier.len() {
        assert(earlier[quiet] == flags[quiet]);
    }
    contracts_launch_once_in_order(total, flags);
    contracts_launch_once_in_order(total, earlier);
}

/// What a look at a process tells.
#[derive(Clone, Copy, Debug, PartialEq, Eq, Structural)]
pub enum ChildStatus {
    /// It has ended.
    Exited,
    /// It is still running.
    Running,
    /// It could not be told.
    Unknown,
}

/// What to do about a process.
#[derive(Clone, Copy, Debug, PartialEq, Eq, Structural)]
pub enum PollAction {
    /// Report how it ended, with the time that it took.
    ReportExit,
    /// Stop it and report that it ran out of time.
    KillAndReport,
    /// Look again a little later.
    Wait,
    /// Let go of it without a report.
    GiveUp,
}

/// How long to wait between two looks at a process, in milliseconds.
pub const POLL_INTERVAL_MILLIS: u64 = 2;

/// A process may run for as long: it has no timeout, or is not past it.
pub open spec fn is_within(elapsed_nanos: u128, timeout_nanos: Option<u128>) -> bool {
    timeout_nanos matches Some(timeout) ==> elapsed_nanos <= timeout
}

/// What to do about a process, from what a look at it tells and from the time
/// that it has been running. It is only stopped past its timeout, if it has one.
pub open spec fn poll_decision(
    status: ChildStatus,
    elapsed_nanos: u128,
    timeout_nanos: Option<u128>,
) -> PollAction {
    match status {
        ChildStatus::Exited => PollAction::ReportExit,
        ChildStatus::Running => if is_within(elapsed_nanos, timeout_nanos) {
            PollAction::Wait
        } else {
            PollAction::KillAndReport
        },
        ChildStatus::Unknown => PollAction::GiveUp,
    }
}

/// Decides what to do about a process, from what a look at it tells and from
/// the time that it has been running. Without a timeout it is never stopped.
pub fn poll_action(
    status: ChildStatus,
    elapsed_nanos: u128,
    timeout_nanos: Option<u128>,
) -> (action: PollAction)
    ensures
        action == poll_decision(status, elapsed_nanos, timeout_nanos),
{
    match status {
        ChildStatus::Exited => PollAction::ReportExit,
        ChildStatus::Running => match timeout_nanos {
            Some(timeout) => if elapsed_nanos > timeout {
                PollAction::KillAndReport
            } else {
                PollAction::Wait
            },
            None => PollAction::Wait,
        },
        ChildStatus::Unknown => PollAction::GiveUp,
    }
}

/// One look at a process: what it tells, and how long the process has been running.
pub struct Look {
    pub status: ChildStatus,
    pub elapsed_nanos: u128,
}

/// What is done about a process that is looked at until something other than
/// waiting is decided.
pub open spec fn watched(looks: Seq<Look>, timeout_nanos: Option<u128>) -> Seq<PollAction>
    decreases looks.len(),
{
    if looks.len() == 0 {
        Seq::empty()
    } else {
        let earlier = watched(looks.drop_last(), timeout_nanos);
        if earlier.len() > 0 && earlier.last() != PollAction::Wait {
            earlier
        } else {
            earlier.push(
                poll_decision(looks.last().status, looks.last().elapsed_nanos, timeout_nanos),
            )
        }
    }
}

/// A process is waited for until it is settled, and settled once: it is
/// reported at most once, either as ended or as out of time. It is settled
/// as soon as a look tells anything but that it runs within its timeout.
pub proof fn a_process_is_settled_once(looks: Seq<Look>, timeout_nanos: Option<u128>)
    ensures
        ({
            let actions = watched(looks, timeout_nanos);
            &&& forall|i: int|
                0 <= i < actions.len() - 1 ==> #[trigger] actions[i] == PollAction::Wait
            &&& (looks.len() > 0 && actions.last() == PollAction::Wait) <==> {
                &&& looks.len() > 0
                &&& forall|i: int|
                    0 <= i < looks.len() ==> (#[trigger] looks[i]).status == ChildStatus::Running
                        && is_within(looks[i].elapsed_nanos, timeout_nanos)
            }
        }),
    decreases looks.len(),
{
    if looks.len() > 0 {
        let rest = looks.drop_last();
        a_process_is_settled_once(rest, timeout_nanos);
        let earlier = watched(rest, timeout_nanos);
        let actions = watched(looks, timeout_nanos);
        watched_acts(rest, timeout_nanos);
        assert forall|i: int| 0 <= i < actions.len() - 1 implies #[trigger] actions[i]
            == PollAction::Wait by {
            assert(actions[i] == earlier[i]);
        }
        assert forall|i: int|
            0 <= i < rest.len() && (forall|k: int|
                0 <= k < looks.len() ==> (#[trigger] looks[k]).status == ChildStatus::Running
                    && is_within(looks[k].elapsed_nanos, timeout_nanos)) implies (
        #[trigger] rest[i]).status == ChildStatus::Running && is_within(
            rest[i].elapsed_nanos,
            timeout_nanos,
        ) by {
            assert(rest[i] == looks[i]);
        }
        if actions.last() == PollAction::Wait {
            assert forall|i: int| 0 <= i < looks.len() implies (#[trigger] looks[i]).status
                == ChildStatus::Running && is_within(looks[i].elapsed_nanos, timeout_nanos) by {
                if i < rest.len() {
                    assert(rest[i] == looks[i]);
                }
            }
        }
    }
}

/// Without a timeout, a process is never stopped, however long it runs.
pub proof fn no_process_is_stopped_without_timeout(looks: Seq<Look>)
    ensures
        !watched(looks, None).contains(PollAction::KillAndReport),
    decreases looks.len(),
{
    if looks.len() > 0 {
        let earlier = watched(looks.drop_last(), None);
        no_process_is_stopped_without_timeout(looks.drop_last());
        let actions = watched(looks, None);
        assert forall|i: int| 0 <= i < actions.len() implies actions[i]
            != PollAction::KillAndReport by {
            if i < earlier.len() {
                assert(actions[i] == earlier[i]);
                assert(earlier.contains(earlier[i]));
            }
        }
    }
}

/// A process that has ended is reported as ended, whatever the time and the
/// timeout. It is stopped only where it is still running, has a timeout and is
/// past it, and waited for where it is still running otherwise.
pub proof fn only_overdue_processes_are_stopped(
    status: ChildStatus,
    elapsed_nanos: u128,
    timeout_nanos: Option<u128>,
)
    ensures
        ({
            let action = poll_decision(status, elapsed_nanos, timeout_nanos);
            let overdue = timeout_nanos is Some && elapsed_nanos > timeout_nanos->0;
            &&& action is ReportExit <==> status is Exited
            &&& action is KillAndReport <==> status is Running && overdue
            &&& action is Wait <==> status is Running && !overdue
            &&& action is GiveUp <==> status is Unknown
        }),
{
}

/// Of a whole watch, each action answers the look at the same place. So the
/// last one reports an exit exactly where its look tells of one, and stops the
/// process exactly where its look finds it running past its timeout.
pub proof fn each_action_answers_its_look(looks: Seq<Look>, timeout_nanos: Option<u128>)
    ensures
        ({
            let actions = watched(looks, timeout_nanos);
            &&& actions.len() <= looks.len()
            &&& looks.len() > 0 ==> actions.len() > 0
            &&& forall|i: int|
                0 <= i < actions.len() ==> {
                    let overdue = timeout_nanos is Some && looks[i].elapsed_nanos
                        > timeout_nanos->0;
                    &&& #[trigger] actions[i] is ReportExit <==> looks[i].status is Exited
                    &&& actions[i] is KillAndReport <==> looks[i].status is Running && overdue
                    &&& actions[i] is Wait <==> looks[i].status is Running && !overdue
                    &&& actions[i] is GiveUp <==> looks[i].status is Unknown
                }
            &&& actions.len() < looks.len() ==> actions.last() !is Wait
        }),
    decreases looks.len(),
{
    if looks.len() > 0 {
        each_action_answers_its_look(looks.drop_last(), timeout_nanos);
        a_process_is_settled_once(looks.drop_last(), timeout_nanos);
        let earlier = watched(looks.drop_last(), timeout_nanos);
        let actions = watched(looks, timeout_nanos);
        only_overdue_processes_are_stopped(
            looks.last().status,
            looks.last().elapsed_nanos,
            timeout_nanos,
        );
        assert forall|i: int| 0 <= i < earlier.len() implies #[trigger] actions[i]
            == earlier[i] by {}
        assert forall|i: int| 0 <= i < earlier.len() implies looks.drop_last()[i]
            == #[trigger] looks[i] by {}
    }
}

/// A longer timeout stops no process that a shorter one lets run: where it
/// stops one, the shorter timeout does so too.
pub proof fn a_longer_timeout_stops_no_more(
    status: ChildStatus,
    elapsed_nanos: u128,
    timeout_nanos: u128,
    longer_nanos: u128,
)
    requires
        timeout_nanos <= longer_nanos,
    ensures
        poll_decision(status, elapsed_nanos, Some(longer_nanos)) is KillAndReport ==> poll_decision(
            status,
            elapsed_nanos,
            Some(timeout_nanos),
        ) is KillAndReport,
        poll_decision(status, elapsed_nanos, None) !is KillAndReport,
{
}

/// Something is decided at the first look.
proof fn watched_acts(looks: Seq<Look>, timeout_nanos: Option<u128>)
    ensures
        watched(looks, timeout_nanos).len() > 0 <==> looks.len() > 0,
{
    if looks.len() > 0 {
        assert(watched(looks, timeout_nanos).len() > 0);
    }
}

} // verus!
