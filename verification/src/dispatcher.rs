//! From an event to what the daemon does about it.
//!
//! The dispatcher is the single consumer of the events that the readers send.
//! For each event it either starts the configured command or notes that none
//! is configured; it never drops an event without one of the two, and it
//! takes the events in the order in which they reach it.

use vstd::prelude::*;
use vstd::string::StringExecFns;
use crate::models::config::ActionTable;
use crate::models::config::Config;
use crate::models::device_event::DeviceEvent;
use crate::models::device_event::InterfaceRole;
use crate::reader::emitted;
use crate::reader::event_of;
use crate::reader::lemma_emitted_in_report_order;
use crate::reader::lemma_idle_report_never_emits;

verus! {

/// What the dispatcher does about one event.
#[derive(Clone, Debug, PartialEq, Eq)]
pub enum Dispatch {
    /// Start this command, through a shell, and do not wait for it.
    Spawn(String),
    /// No command is configured for this event: note it and go on.
    Miss(DeviceEvent),
}

/// A `Dispatch` with the command as a sequence of characters.
pub enum DispatchView {
    Spawn(Seq<char>),
    Miss(DeviceEvent),
}

impl View for Dispatch {
    type V = DispatchView;

    open spec fn view(&self) -> DispatchView {
        match self {
            Dispatch::Spawn(command) => DispatchView::Spawn(command@),
            Dispatch::Miss(event) => DispatchView::Miss(*event),
        }
    }
}

/// What `event` leads to under `table`: the command of its entry, or a miss
/// that names the event.
pub open spec fn outcome(table: ActionTable, event: DeviceEvent) -> DispatchView {
    match table.command_for(event) {
        Some(command) => DispatchView::Spawn(command),
        None => DispatchView::Miss(event),
    }
}

/// What a stream of events leads to: the outcome of each event, in the order
/// of the events.
pub open spec fn dispatched(table: ActionTable, events: Seq<DeviceEvent>) -> Seq<DispatchView> {
    events.map_values(|event: DeviceEvent| outcome(table, event))
}

/// The views of a run of decisions.
pub open spec fn dispatch_views(actions: Seq<Dispatch>) -> Seq<DispatchView> {
    actions.map_values(|action: Dispatch| action@)
}

/// Decides what to do about `event`.
pub fn dispatch(config: &Config, event: DeviceEvent) -> (action: Dispatch)
    ensures
        action@ == outcome(config@, event),
{
    match config.command_for(event) {
        Some(command) => Dispatch::Spawn(command.clone()),
        None => Dispatch::Miss(event),
    }
}

/// Decides what to do about each event of a stream, in the order in which the
/// events were received.
pub fn dispatch_all(config: &Config, events: &Vec<DeviceEvent>) -> (actions: Vec<Dispatch>)
    ensures
        dispatch_views(actions@) == dispatched(config@, events@),
{
    let mut actions: Vec<Dispatch> = Vec::new();
    let mut i: usize = 0;
    while i < events.len()
        invariant
            i <= events.len(),
            actions@.len() == i,
            dispatch_views(actions@) == dispatched(config@, events@.take(i as int)),
        decreases events.len() - i,
    {
        let action = dispatch(config, events[i]);
        let ghost before = actions@;
        actions.push(action);
        assert(dispatch_views(actions@) =~= dispatch_views(before).push(action@));
        assert(events@.take(i as int + 1) =~= events@.take(i as int).push(events@[i as int]));
        i += 1;
    }
    assert(events@.take(i as int) =~= events@);
    actions
}

/// Every event is answered, and in its turn: a stream of events leads to as
/// many decisions, and the decision at each place is the one for the event at
/// that place. So of two events, the one received first is dispatched first.
pub proof fn lemma_dispatch_keeps_order(table: ActionTable, events: Seq<DeviceEvent>)
    ensures
        dispatched(table, events).len() == events.len(),
        forall|i: int|
            0 <= i < events.len() ==> #[trigger] dispatched(table, events)[i] == outcome(
                table,
                events[i],
            ),
{
}

/// Dispatching a stream is dispatching its first part and then the rest.
pub proof fn lemma_dispatch_in_arrival_order(
    table: ActionTable,
    first: Seq<DeviceEvent>,
    rest: Seq<DeviceEvent>,
)
    ensures
        dispatched(table, first + rest) == dispatched(table, first) + dispatched(table, rest),
{
    assert(dispatched(table, first + rest) =~= dispatched(table, first) + dispatched(table, rest));
}

/// A command is started only for an event that has an entry, and it is the
/// command of that entry; an event without one is noted as a miss.
pub proof fn lemma_spawn_only_when_configured(table: ActionTable, event: DeviceEvent)
    ensures
        outcome(table, event) is Spawn <==> table.command_for(event) is Some,
        outcome(table, event) is Miss <==> table.command_for(event) is None,
        outcome(table, event) matches DispatchView::Miss(missed) ==> missed == event,
{
}

/// The words with which a command is started: the shell `sh`, its flag `-c`,
/// and the command as one word, so that the command may hold pipes and
/// redirections.
pub fn shell_invocation(command: &str) -> (words: Vec<String>)
    ensures
        words@.len() == 3,
        words@[0]@ == "sh"@,
        words@[1]@ == "-c"@,
        words@[2]@ == command@,
{
    let mut words: Vec<String> = Vec::new();
    words.push(String::from_str("sh"));
    words.push(String::from_str("-c"));
    words.push(String::from_str(command));
    words
}

/// Each event of a stream with the decision made for it, in the order of the
/// stream.
pub open spec fn answered(table: ActionTable, stream: Seq<DeviceEvent>) -> Seq<
    (DeviceEvent, DispatchView),
> {
    stream.map_values(|event: DeviceEvent| (event, outcome(table, event)))
}

/// The events of a stream that the reader of `role` sent, in the order of the
/// stream.
pub open spec fn sent_by(role: InterfaceRole, stream: Seq<DeviceEvent>) -> Seq<DeviceEvent> {
    stream.filter(|event: DeviceEvent| event.source() == role)
}

/// The answers among `answers` that were given to events of the reader of
/// `role`, in the order of `answers`.
pub open spec fn answers_to(role: InterfaceRole, answers: Seq<(DeviceEvent, DispatchView)>) -> Seq<
    (DeviceEvent, DispatchView),
> {
    answers.filter(|answer: (DeviceEvent, DispatchView)| answer.0.source() == role)
}

/// However the events of the two readers are interleaved on their way to the
/// dispatcher, the events of one reader are answered in the order in which
/// they stand in the stream, each with its own decision: the answers to one
/// reader's events are the answers to that reader's events taken alone.
pub proof fn lemma_merged_stream_keeps_reader_order(
    table: ActionTable,
    role: InterfaceRole,
    stream: Seq<DeviceEvent>,
)
    ensures
        answers_to(role, answered(table, stream)) == answered(table, sent_by(role, stream)),
    decreases stream.len(),
{
    reveal(Seq::filter);
    if stream.len() > 0 {
        let earlier = stream.drop_last();
        let last = stream.last();
        lemma_merged_stream_keeps_reader_order(table, role, earlier);
        assert(answered(table, stream).drop_last() =~= answered(table, earlier));
        assert(answered(table, stream).last() == (last, outcome(table, last)));
        if last.source() == role {
            assert(answered(table, sent_by(role, earlier).push(last)) =~= answered(
                table,
                sent_by(role, earlier),
            ).push((last, outcome(table, last))));
        }
    }
}

/// What the reports of one interface lead to, from the first report to the
/// last decision.
pub open spec fn pipeline(table: ActionTable, role: InterfaceRole, reports: Seq<Seq<u8>>) -> Seq<
    DispatchView,
> {
    dispatched(table, emitted(role, reports))
}

/// The order of one reader's reports is the order of the decisions: what a
/// run of reports leads to is what its first part leads to, then what the
/// rest leads to.
pub proof fn lemma_pipeline_keeps_reader_order(
    table: ActionTable,
    role: InterfaceRole,
    first: Seq<Seq<u8>>,
    rest: Seq<Seq<u8>>,
)
    ensures
        pipeline(table, role, first + rest) == pipeline(table, role, first) + pipeline(
            table,
            role,
            rest,
        ),
{
    lemma_emitted_in_report_order(role, first, rest);
    lemma_dispatch_in_arrival_order(table, emitted(role, first), emitted(role, rest));
}

/// A report that holds no event triggers nothing, however often it is
/// repeated: no event is emitted and so no decision is made, not even a miss.
pub proof fn lemma_idle_reports_trigger_nothing(
    table: ActionTable,
    role: InterfaceRole,
    report: Seq<u8>,
    count: nat,
)
    requires
        event_of(role, report) is None,
    ensures
        emitted(role, Seq::new(count, |i: int| report)).len() == 0,
        pipeline(table, role, Seq::new(count, |i: int| report)).len() == 0,
{
    lemma_idle_report_never_emits(role, report, count);
}

} // verus!
