use kboard::models::device_event::DeviceEvent;
use kboard::models::device_event::InterfaceRole;
use kboard::reader::classify;
use kboard::reader::classify_keys;
use kboard::reader::classify_wheel;
use kboard::reader::collect_events;
use kboard::reader::on_read;
use kboard::reader::KEY_CODE_OFFSET;
use kboard::reader::REPORT_SIZE;
use kboard::reader::WHEEL_REPORT_ID;

fn report_with(index: usize, value: u8) -> [u8; 64] {
    let mut report = [0u8; 64];
    report[index] = value;
    report
}

#[test]
fn constants_match_the_report_layout() {
    assert_eq!(REPORT_SIZE, 64);
    assert_eq!(KEY_CODE_OFFSET, 3);
    assert_eq!(WHEEL_REPORT_ID, 2);
}

#[test]
fn interface_numbers_of_the_roles() {
    assert_eq!(InterfaceRole::Keys.interface_number(), 0);
    assert_eq!(InterfaceRole::Wheel.interface_number(), 2);
    assert_eq!(InterfaceRole::from_interface_number(0), Some(InterfaceRole::Keys));
    assert_eq!(InterfaceRole::from_interface_number(2), Some(InterfaceRole::Wheel));
    assert_eq!(InterfaceRole::from_interface_number(1), None);
    assert_eq!(InterfaceRole::from_interface_number(3), None);
    assert_eq!(InterfaceRole::from_interface_number(-1), None);
}

#[test]
fn keys_report_with_code_yields_key_event() {
    assert_eq!(classify_keys(&[0, 0, 0, 3]), Some(DeviceEvent::Key(3)));
    assert_eq!(classify_keys(&[9, 8, 7, 255, 1]), Some(DeviceEvent::Key(255)));
    assert_eq!(classify_keys(&report_with(3, 17)), Some(DeviceEvent::Key(17)));
}

#[test]
fn keys_report_for_every_code() {
    for code in 1..=255u8 {
        assert_eq!(classify_keys(&[1, 2, 3, code, 5, 6]), Some(DeviceEvent::Key(code)));
    }
}

#[test]
fn keys_report_too_short_yields_nothing() {
    assert_eq!(classify_keys(&[]), None);
    assert_eq!(classify_keys(&[1]), None);
    assert_eq!(classify_keys(&[1, 2]), None);
    assert_eq!(classify_keys(&[1, 2, 3]), None);
}

#[test]
fn keys_report_with_zero_code_yields_nothing() {
    assert_eq!(classify_keys(&[1, 2, 3, 0]), None);
    assert_eq!(classify_keys(&[1, 2, 3, 0, 5, 6, 7]), None);
    assert_eq!(classify_keys(&[0u8; 64]), None);
}

#[test]
fn keys_report_ignores_every_byte_but_the_fourth() {
    assert_eq!(classify_keys(&[2, 9, 0, 0]), None);
    assert_eq!(classify_keys(&[2, 9, 0, 4]), Some(DeviceEvent::Key(4)));
    assert_eq!(classify_keys(&[0, 0, 0, 4, 0, 0, 0, 9]), Some(DeviceEvent::Key(4)));
}

#[test]
fn wheel_report_with_movement_yields_wheel_event() {
    assert_eq!(classify_wheel(&[2, 1]), Some(DeviceEvent::Wheel(1)));
    assert_eq!(classify_wheel(&[2, 255, 0, 0]), Some(DeviceEvent::Wheel(255)));
    let mut report = [0u8; 64];
    report[0] = 2;
    report[1] = 7;
    assert_eq!(classify_wheel(&report), Some(DeviceEvent::Wheel(7)));
}

#[test]
fn wheel_report_for_every_value() {
    for value in 1..=255u8 {
        assert_eq!(classify_wheel(&[2, value, 9]), Some(DeviceEvent::Wheel(value)));
    }
}

#[test]
fn wheel_report_with_other_report_id_yields_nothing() {
    assert_eq!(classify_wheel(&[0, 1]), None);
    assert_eq!(classify_wheel(&[1, 1]), None);
    assert_eq!(classify_wheel(&[3, 1]), None);
    assert_eq!(classify_wheel(&[255, 1, 2, 3]), None);
}

#[test]
fn wheel_report_without_movement_yields_nothing() {
    assert_eq!(classify_wheel(&[2, 0]), None);
    assert_eq!(classify_wheel(&[2, 0, 5, 5]), None);
    assert_eq!(classify_wheel(&[0u8; 64]), None);
}

#[test]
fn wheel_report_too_short_yields_nothing() {
    assert_eq!(classify_wheel(&[]), None);
    assert_eq!(classify_wheel(&[2]), None);
}

#[test]
fn classify_goes_by_the_interface() {
    let report = [2u8, 5, 0, 9];
    assert_eq!(classify(InterfaceRole::Keys, &report), Some(DeviceEvent::Key(9)));
    assert_eq!(classify(InterfaceRole::Wheel, &report), Some(DeviceEvent::Wheel(5)));
    assert_eq!(classify(InterfaceRole::Keys, &[2, 5, 0]), None);
    assert_eq!(classify(InterfaceRole::Wheel, &[0, 5, 0, 9]), None);
}

#[test]
fn failed_read_sends_nothing() {
    let buf = report_with(3, 6);
    assert_eq!(on_read(InterfaceRole::Keys, &buf, None), None);
    let mut wheel = [0u8; 64];
    wheel[0] = 2;
    wheel[1] = 4;
    assert_eq!(on_read(InterfaceRole::Wheel, &wheel, None), None);
}

#[test]
fn read_counts_only_the_delivered_bytes() {
    let buf = report_with(3, 6);
    assert_eq!(on_read(InterfaceRole::Keys, &buf, Some(0)), None);
    assert_eq!(on_read(InterfaceRole::Keys, &buf, Some(3)), None);
    assert_eq!(on_read(InterfaceRole::Keys, &buf, Some(4)), Some(DeviceEvent::Key(6)));
    assert_eq!(on_read(InterfaceRole::Keys, &buf, Some(64)), Some(DeviceEvent::Key(6)));
    let mut wheel = [0u8; 64];
    wheel[0] = 2;
    wheel[1] = 4;
    assert_eq!(on_read(InterfaceRole::Wheel, &wheel, Some(1)), None);
    assert_eq!(on_read(InterfaceRole::Wheel, &wheel, Some(2)), Some(DeviceEvent::Wheel(4)));
    assert_eq!(on_read(InterfaceRole::Wheel, &wheel, Some(8)), Some(DeviceEvent::Wheel(4)));
}

#[test]
fn read_count_beyond_the_buffer_means_the_whole_buffer() {
    let buf = report_with(3, 6);
    assert_eq!(on_read(InterfaceRole::Keys, &buf, Some(65)), Some(DeviceEvent::Key(6)));
    assert_eq!(on_read(InterfaceRole::Keys, &buf, Some(usize::MAX)), Some(DeviceEvent::Key(6)));
    assert_eq!(on_read(InterfaceRole::Keys, &[1, 2, 3], Some(10)), None);
    assert_eq!(on_read(InterfaceRole::Keys, &[], Some(10)), None);
}

#[test]
fn reused_buffer_is_read_up_to_the_count() {
    // A long report left a code behind; the next read delivered three bytes.
    let mut buf = [0u8; 64];
    assert_eq!(on_read(InterfaceRole::Keys, &buf, Some(8)), None);
    buf[3] = 12;
    assert_eq!(on_read(InterfaceRole::Keys, &buf, Some(8)), Some(DeviceEvent::Key(12)));
    assert_eq!(on_read(InterfaceRole::Keys, &buf, Some(3)), None);
}

#[test]
fn events_come_out_in_report_order() {
    let reports = vec![
        vec![0, 0, 0, 1],
        vec![0, 0, 0, 0],
        vec![0, 0],
        vec![0, 0, 0, 2, 0],
        vec![0, 0, 0, 1],
    ];
    assert_eq!(
        collect_events(InterfaceRole::Keys, &reports),
        vec![DeviceEvent::Key(1), DeviceEvent::Key(2), DeviceEvent::Key(1)]
    );
    let wheel = vec![vec![2, 9], vec![1, 9], vec![2, 0], vec![2, 3, 3]];
    assert_eq!(
        collect_events(InterfaceRole::Wheel, &wheel),
        vec![DeviceEvent::Wheel(9), DeviceEvent::Wheel(3)]
    );
}

#[test]
fn events_of_a_run_are_those_of_its_parts() {
    let first = vec![vec![0, 0, 0, 4], vec![0, 0, 0, 0]];
    let rest = vec![vec![0, 0, 0, 5], vec![0, 0, 0, 6]];
    let mut whole = first.clone();
    whole.extend(rest.clone());
    let mut expected = collect_events(InterfaceRole::Keys, &first);
    expected.extend(collect_events(InterfaceRole::Keys, &rest));
    assert_eq!(collect_events(InterfaceRole::Keys, &whole), expected);
    assert_eq!(
        expected,
        vec![DeviceEvent::Key(4), DeviceEvent::Key(5), DeviceEvent::Key(6)]
    );
}

#[test]
fn no_reports_no_events() {
    assert_eq!(collect_events(InterfaceRole::Keys, &Vec::new()), Vec::new());
    assert_eq!(collect_events(InterfaceRole::Wheel, &Vec::new()), Vec::new());
}

#[test]
fn idle_reports_never_emit_however_often_repeated() {
    for count in [0usize, 1, 2, 17, 1000] {
        let zeros = vec![vec![0u8; 64]; count];
        assert_eq!(collect_events(InterfaceRole::Keys, &zeros), Vec::new());
        assert_eq!(collect_events(InterfaceRole::Wheel, &zeros), Vec::new());
        let short = vec![vec![7u8, 7, 7]; count];
        assert_eq!(collect_events(InterfaceRole::Keys, &short), Vec::new());
        let other_id = vec![vec![1u8, 7, 7, 0]; count];
        assert_eq!(collect_events(InterfaceRole::Wheel, &other_id), Vec::new());
    }
}

#[test]
fn repeated_report_with_event_emits_each_time() {
    let reports = vec![vec![0u8, 0, 0, 9]; 5];
    assert_eq!(collect_events(InterfaceRole::Keys, &reports), vec![DeviceEvent::Key(9); 5]);
}

#[test]
fn zero_reports_of_any_length_are_idle() {
    for len in 0..=64usize {
        let report = vec![0u8; len];
        assert_eq!(classify(InterfaceRole::Keys, &report), None);
        assert_eq!(classify(InterfaceRole::Wheel, &report), None);
        assert_eq!(on_read(InterfaceRole::Keys, &report, Some(len)), None);
        assert_eq!(on_read(InterfaceRole::Wheel, &report, Some(len)), None);
    }
}

#[test]
fn emitted_events_are_of_the_readers_kind_and_not_zero() {
    let reports = vec![
        vec![2, 0, 0, 0],
        vec![2, 1, 0, 0],
        vec![2, 0, 0, 1],
        vec![2, 3, 0, 4],
        vec![0, 0, 0, 0],
        vec![1, 5, 0, 6],
        vec![2],
    ];
    let keys = collect_events(InterfaceRole::Keys, &reports);
    assert_eq!(keys, vec![DeviceEvent::Key(1), DeviceEvent::Key(4), DeviceEvent::Key(6)]);
    assert!(keys.len() <= reports.len());
    for event in &keys {
        assert!(matches!(event, DeviceEvent::Key(code) if *code != 0));
        assert!(reports.iter().any(|report| classify_keys(report) == Some(*event)));
    }
    let wheel = collect_events(InterfaceRole::Wheel, &reports);
    assert_eq!(wheel, vec![DeviceEvent::Wheel(1), DeviceEvent::Wheel(3)]);
    for event in &wheel {
        assert!(matches!(event, DeviceEvent::Wheel(value) if *value != 0));
        assert!(reports.iter().any(|report| classify_wheel(report) == Some(*event)));
    }
}
