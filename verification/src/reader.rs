//! What a raw report means.
//!
//! Each interface has its own report layout. A reader blocks on the device,
//! gets the bytes of one report, and asks this module whether they amount to
//! an event. A report yields one event or none.

use vstd::prelude::*;
use vstd::slice::slice_subrange;
use crate::models::device_event::DeviceEvent;
use crate::models::device_event::InterfaceRole;

verus! {

/// Size of the buffer that a reader hands to the device for each read.
pub const REPORT_SIZE: usize = 64;

/// Position of the key code in a report of the keys interface.
pub const KEY_CODE_OFFSET: usize = 3;

/// Report identifier that opens every report of the wheel.
pub const WHEEL_REPORT_ID: u8 = 2;

/// The event in a report of the keys interface: byte 3 is the code of the key
/// that is down, and zero when none is.
pub open spec fn keys_event(report: Seq<u8>) -> Option<DeviceEvent> {
    if report.len() > 3 && report[3] != 0 {
        Some(DeviceEvent::Key(report[3]))
    } else {
        None
    }
}

/// The event in a report of the wheel interface: byte 0 must be the report
/// identifier 2, and byte 1 is the movement, zero when there is none.
pub open spec fn wheel_event(report: Seq<u8>) -> Option<DeviceEvent> {
    if report.len() >= 2 && report[0] == 2 && report[1] != 0 {
        Some(DeviceEvent::Wheel(report[1]))
    } else {
        None
    }
}

/// The event in a report that was read from the interface `role`.
pub open spec fn event_of(role: InterfaceRole, report: Seq<u8>) -> Option<DeviceEvent> {
    match role {
        InterfaceRole::Keys => keys_event(report),
        InterfaceRole::Wheel => wheel_event(report),
    }
}

/// The bytes that a read delivered: the first `count` bytes of the buffer. A
/// count beyond the buffer stands for the whole buffer.
pub open spec fn delivered(buf: Seq<u8>, count: nat) -> Seq<u8> {
    if count <= buf.len() {
        buf.take(count as int)
    } else {
        buf
    }
}

/// The event that one turn of a reader's loop sends on: none when the read
/// failed, else what the delivered bytes hold.
pub open spec fn read_event(role: InterfaceRole, buf: Seq<u8>, read: Option<usize>) -> Option<
    DeviceEvent,
> {
    match read {
        Some(count) => event_of(role, delivered(buf, count as nat)),
        None => None,
    }
}

/// The events that a reader of `role` emits for a run of reports: the event
/// of each report that holds one, in the order of the reports.
pub open spec fn emitted(role: InterfaceRole, reports: Seq<Seq<u8>>) -> Seq<DeviceEvent> {
    reports.filter_map(|report: Seq<u8>| event_of(role, report))
}

/// Classifies a report of the keys interface.
pub fn classify_keys(report: &[u8]) -> (event: Option<DeviceEvent>)
    ensures
        event == keys_event(report@),
        report@.len() > 3 && report@[3] != 0 ==> event == Some(DeviceEvent::Key(report@[3])),
        report@.len() <= 3 || report@[3] == 0 ==> event is None,
{
    if report.len() > KEY_CODE_OFFSET && report[KEY_CODE_OFFSET] != 0 {
        Some(DeviceEvent::Key(report[KEY_CODE_OFFSET]))
    } else {
        None
    }
}

/// Classifies a report of the wheel interface.
pub fn classify_wheel(report: &[u8]) -> (event: Option<DeviceEvent>)
    ensures
        event == wheel_event(report@),
        report@.len() >= 2 && report@[0] == 2 && report@[1] != 0 ==> event == Some(
            DeviceEvent::Wheel(report@[1]),
        ),
        !(report@.len() >= 2 && report@[0] == 2 && report@[1] != 0) ==> event is None,
{
    if report.len() >= 2 && report[0] == WHEEL_REPORT_ID && report[1] != 0 {
        Some(DeviceEvent::Wheel(report[1]))
    } else {
        None
    }
}

/// Classifies a report by the layout of the interface it was read from.
pub fn classify(role: InterfaceRole, report: &[u8]) -> (event: Option<DeviceEvent>)
    ensures
        event == event_of(role, report@),
{
    match role {
        InterfaceRole::Keys => classify_keys(report),
        InterfaceRole::Wheel => classify_wheel(report),
    }
}

/// One turn of a reader's loop. `buf` is the buffer that the device filled
/// and `read` the number of bytes it reported, or `None` when the read
/// failed. The result is the event to send on, if there is one; a failed read
/// sends nothing and the loop goes on.
pub fn on_read(role: InterfaceRole, buf: &[u8], read: Option<usize>) -> (event: Option<
    DeviceEvent,
>)
    ensures
        event == read_event(role, buf@, read),
        read is None ==> event is None,
{
    match read {
        Some(count) => {
            let len: usize = if count <= buf.len() {
                count
            } else {
                buf.len()
            };
            let report = slice_subrange(buf, 0, len);
            assert(report@ =~= delivered(buf@, count as nat));
            classify(role, report)
        },
        None => None,
    }
}

/// The views of a run of reports.
pub open spec fn report_views(reports: Seq<Vec<u8>>) -> Seq<Seq<u8>> {
    reports.map_values(|report: Vec<u8>| report@)
}

/// Classifies a run of reports from one interface and returns the events
/// among them in the order of the reports.
pub fn collect_events(role: InterfaceRole, reports: &Vec<Vec<u8>>) -> (events: Vec<DeviceEvent>)
    ensures
        events@ == emitted(role, report_views(reports@)),
{
    let ghost views = report_views(reports@);
    let mut events: Vec<DeviceEvent> = Vec::new();
    let mut i: usize = 0;
    while i < reports.len()
        invariant
            i <= reports.len(),
            views == report_views(reports@),
            events@ == emitted(role, views.take(i as int)),
        decreases reports.len() - i,
    {
        let found = classify(role, reports[i].as_slice());
        proof {
            let upto = views.take(i as int + 1);
            assert(upto.drop_last() =~= views.take(i as int));
            assert(upto.last() == reports@[i as int]@);
        }
        if let Some(event) = found {
            events.push(event);
        }
        i += 1;
    }
    assert(views.take(i as int) =~= views);
    events
}

/// Reports that come one after the other are classified one after the other:
/// the events of a run are those of its first part, then those of the rest.
/// So events leave a reader in the order in which their reports arrived.
pub proof fn lemma_emitted_in_report_order(
    role: InterfaceRole,
    first: Seq<Seq<u8>>,
    rest: Seq<Seq<u8>>,
)
    ensures
        emitted(role, first + rest) == emitted(role, first) + emitted(role, rest),
    decreases rest.len(),
{
    if rest.len() == 0 {
        assert(first + rest =~= first);
    } else {
        let whole = first + rest;
        assert(whole.drop_last() =~= first + rest.drop_last());
        assert(whole.last() == rest.last());
        lemma_emitted_in_report_order(role, first, rest.drop_last());
        assert(emitted(role, whole) =~= emitted(role, first) + emitted(role, rest));
    }
}

/// A report of zeros, of whatever length, holds no event on either interface.
pub proof fn lemma_zero_report_is_idle(role: InterfaceRole, len: nat)
    ensures
        event_of(role, Seq::new(len, |i: int| 0u8)) is None,
{
}

/// A report that holds no event holds none however often it arrives: a run
/// of `count` copies of it emits nothing.
pub proof fn lemma_idle_report_never_emits(role: InterfaceRole, report: Seq<u8>, count: nat)
    requires
        event_of(role, report) is None,
    ensures
        emitted(role, Seq::new(count, |i: int| report)) == Seq::<DeviceEvent>::empty(),
    decreases count,
{
    if count > 0 {
        let run = Seq::new(count, |i: int| report);
        assert(run.drop_last() =~= Seq::new((count - 1) as nat, |i: int| report));
        assert(run.last() == report);
        lemma_idle_report_never_emits(role, report, (count - 1) as nat);
    }
}

/// Whether some report of the run holds `event` for the reader of `role`.
pub open spec fn holds_event(role: InterfaceRole, reports: Seq<Seq<u8>>, event: DeviceEvent) -> bool {
    exists|i: int| 0 <= i < reports.len() && event_of(role, #[trigger] reports[i]) == Some(event)
}

/// A run emits no more events than it has reports, and every event that it
/// emits is held by one of its reports, is of the kind of the reader's
/// interface and carries a payload that is not zero.
pub proof fn lemma_emitted_events_are_classified(role: InterfaceRole, reports: Seq<Seq<u8>>)
    ensures
        emitted(role, reports).len() <= reports.len(),
        forall|k: int|
            0 <= k < emitted(role, reports).len() ==> holds_event(
                role,
                reports,
                #[trigger] emitted(role, reports)[k],
            ),
        forall|k: int|
            0 <= k < emitted(role, reports).len() ==> (#[trigger] emitted(
                role,
                reports,
            )[k]).source() == role,
        forall|k: int|
            0 <= k < emitted(role, reports).len() ==> (#[trigger] emitted(
                role,
                reports,
            )[k]).payload() != 0,
    decreases reports.len(),
{
    if reports.len() > 0 {
        let earlier = reports.drop_last();
        lemma_emitted_events_are_classified(role, earlier);
        assert forall|k: int| 0 <= k < emitted(role, reports).len() implies holds_event(
            role,
            reports,
            #[trigger] emitted(role, reports)[k],
        ) by {
            let event = emitted(role, reports)[k];
            if k < emitted(role, earlier).len() {
                assert(holds_event(role, earlier, emitted(role, earlier)[k]));
                let i = choose|i: int|
                    0 <= i < earlier.len() && event_of(role, #[trigger] earlier[i]) == Some(event);
                assert(reports[i] == earlier[i]);
            } else {
                assert(event_of(role, reports[reports.len() - 1]) == Some(event));
            }
        }
    }
}

} // verus!
