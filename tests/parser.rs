use stickup::event::{ChannelKind, InputKind};
use stickup::hid_values::{
    classify_hat, degrees_to_slot, hat_value_to_slot, normalize_axis_value, usage_name,
};
use stickup::hidp_parser::{split_report, ButtonCap, ValueCap, ValueRead, WinHidpParser};
use stickup::value::AxisValue;

fn axis_cap(lo: i32, hi: i32) -> ValueCap {
    ValueCap {
        report_id: 0,
        usage_page: 1,
        link_collection: 0,
        is_range: false,
        usage_min: 0x30,
        usage_max: 0x30,
        logical_min: lo,
        logical_max: hi,
    }
}

fn hat_cap(lo: i32, hi: i32) -> ValueCap {
    ValueCap {
        report_id: 0,
        usage_page: 1,
        link_collection: 0,
        is_range: false,
        usage_min: 0x39,
        usage_max: 0x39,
        logical_min: lo,
        logical_max: hi,
    }
}

fn button_range(lo: u16, hi: u16) -> ButtonCap {
    ButtonCap { report_id: 0, usage_page: 9, link_collection: 0, is_range: true, usage_min: lo, usage_max: hi }
}

fn av(num: i64, den: i64) -> AxisValue {
    AxisValue { num, den }
}

fn value_of(v: AxisValue) -> f64 {
    v.num as f64 / v.den as f64
}

#[test]
fn single_axis_edge() {
    let mut p = WinHidpParser::new(0x1234, 0x5678, 8, None, Some(vec![axis_cap(0, 1023)])).unwrap();
    let mut out = Vec::new();
    p.parse(0, &vec![], &vec![ValueRead::Read(512)], &mut out);
    assert_eq!(out, vec![InputKind::AxisMoved { axis: 0, value: av(1, 1023) }]);
    let v = match out[0] {
        InputKind::AxisMoved { value, .. } => value_of(value),
        _ => unreachable!(),
    };
    assert!((v - (2.0 * 512.0 / 1023.0 - 1.0)).abs() < 1e-12);
    assert!((v - 0.00098).abs() < 1e-5);
    out.clear();
    p.parse(0, &vec![], &vec![ValueRead::Read(513)], &mut out);
    assert!(out.is_empty());
    p.parse(0, &vec![], &vec![ValueRead::Read(520)], &mut out);
    assert_eq!(out, vec![InputKind::AxisMoved { axis: 0, value: av(17, 1023) }]);
}

#[test]
fn hat_slot_wrap() {
    let mut p = WinHidpParser::new(1, 2, 8, None, Some(vec![hat_cap(0, 7)])).unwrap();
    let mut out = Vec::new();
    for raw in [0u32, 7, 8, 7] {
        p.parse(0, &vec![], &vec![ValueRead::Read(raw)], &mut out);
    }
    assert_eq!(
        out,
        vec![
            InputKind::HatChanged { hat: 0, value: 0 },
            InputKind::HatChanged { hat: 0, value: 7 },
            InputKind::HatChanged { hat: 0, value: -1 },
            InputKind::HatChanged { hat: 0, value: 7 },
        ]
    );
}

#[test]
fn hat_degrees_mapping() {
    assert_eq!(degrees_to_slot(675, 2), 0); // 337.5
    assert_eq!(degrees_to_slot(22499, 1000), 0); // 22.499
    assert_eq!(degrees_to_slot(45, 2), 1); // 22.5
    assert_eq!(degrees_to_slot(359, 1), 0);
    assert_eq!(degrees_to_slot(90, 1), 2);
    assert_eq!(degrees_to_slot(-10, 1), 0);
}

#[test]
fn hat_value_sentinels_are_neutral() {
    assert_eq!(hat_value_to_slot(255, 0, 359, true), -1);
    assert_eq!(hat_value_to_slot(180, 0, 359, true), 4);
    assert_eq!(hat_value_to_slot(15, 0, 359, true), -1);
    assert_eq!(hat_value_to_slot(-1, -1, 7, false), -1);
    assert_eq!(hat_value_to_slot(8, 1, 8, false), -1);
    assert_eq!(hat_value_to_slot(400, 0, 359, true), -1);
    assert_eq!(hat_value_to_slot(3, 0, 7, false), 3);
    assert_eq!(hat_value_to_slot(315, 0, 359, true), 7);
}

#[test]
fn classify_hat_ranges() {
    assert_eq!(classify_hat(1, 0x39, 0, 7), (true, false));
    assert_eq!(classify_hat(1, 0x39, 1, 8), (true, false));
    assert_eq!(classify_hat(1, 0x39, 0, 359), (true, true));
    assert_eq!(classify_hat(1, 0x30, 0, 7), (false, false));
}

#[test]
fn axis_normalization_of_empty_range_is_zero() {
    assert_eq!(normalize_axis_value(5, 3, 3), av(0, 1));
    assert_eq!(normalize_axis_value(0, 0, 1023), av(-1023, 1023));
    assert_eq!(normalize_axis_value(1023, 0, 1023), av(1023, 1023));
    assert_eq!(normalize_axis_value(2000, 0, 1023), av(1023, 1023));
    assert_eq!(normalize_axis_value(0, 10, 0), av(10, 10));
}

#[test]
fn usage_names() {
    assert_eq!(usage_name(1, 0x30), Some("X".to_string()));
    assert_eq!(usage_name(1, 0x3a), Some("GD_0x3a".to_string()));
    assert_eq!(usage_name(2, 0xBB), Some("Throttle".to_string()));
    assert_eq!(usage_name(2, 0x10), Some("Sim".to_string()));
    assert_eq!(usage_name(0xFF01, 3), Some("VendorAxis".to_string()));
    assert_eq!(usage_name(9, 1), Some("UP_0009_U_0001".to_string()));
}

#[test]
fn construction_fails_without_capabilities() {
    assert!(WinHidpParser::new(1, 2, 8, None, None).is_none());
    assert!(WinHidpParser::new(1, 2, 8, Some(vec![]), Some(vec![])).is_none());
    assert!(WinHidpParser::new(1, 2, 8, Some(vec![button_range(1, 2)]), None).is_some());
}

#[test]
fn describe_is_deterministic_and_ordered() {
    let mut p = WinHidpParser::new(
        1,
        2,
        8,
        Some(vec![button_range(1, 3)]),
        Some(vec![axis_cap(0, 255), hat_cap(0, 7)]),
    )
    .unwrap();
    let d1 = p.describe();
    let mut out = Vec::new();
    p.parse(0, &vec![Some(vec![2])], &vec![ValueRead::Read(3), ValueRead::Read(2)], &mut out);
    let d2 = p.describe();
    assert_eq!(d1, d2);
    let kinds: Vec<(ChannelKind, u16)> = d1.iter().map(|d| (d.kind, d.idx)).collect();
    assert_eq!(
        kinds,
        vec![
            (ChannelKind::Axis, 0),
            (ChannelKind::Hat, 0),
            (ChannelKind::Button, 0),
            (ChannelKind::Button, 1),
            (ChannelKind::Button, 2),
        ]
    );
    assert_eq!(d1[0].name, Some("X".to_string()));
    assert_eq!(d1[1].name, Some("Hat".to_string()));
    assert_eq!(d1[1].logical_max, 7);
    // every emitted delta names a described channel
    for e in &out {
        let (k, i) = match *e {
            InputKind::AxisMoved { axis, .. } => (ChannelKind::Axis, axis),
            InputKind::ButtonPressed { button } | InputKind::ButtonReleased { button } => (ChannelKind::Button, button),
            InputKind::HatChanged { hat, .. } => (ChannelKind::Hat, hat),
        };
        assert!(d1.iter().any(|d| d.kind == k && d.idx == i));
    }
}

#[test]
fn button_edges_alternate() {
    let mut p = WinHidpParser::new(1, 2, 8, Some(vec![button_range(1, 4)]), None).unwrap();
    let mut out = Vec::new();
    p.parse(0, &vec![Some(vec![3, 1])], &vec![], &mut out);
    assert_eq!(out, vec![InputKind::ButtonPressed { button: 0 }, InputKind::ButtonPressed { button: 2 }]);
    out.clear();
    p.parse(0, &vec![Some(vec![3])], &vec![], &mut out);
    assert_eq!(out, vec![InputKind::ButtonReleased { button: 0 }]);
    out.clear();
    p.parse(0, &vec![Some(vec![3])], &vec![], &mut out);
    assert!(out.is_empty());
    p.parse(0, &vec![Some(vec![1])], &vec![], &mut out);
    assert_eq!(out, vec![InputKind::ButtonPressed { button: 0 }, InputKind::ButtonReleased { button: 2 }]);
}

#[test]
fn report_id_prefix_and_buffer() {
    let p = WinHidpParser::new(1, 2, 4, None, Some(vec![axis_cap(0, 255)])).unwrap();
    assert!(!p.expects_report_id_prefix());
    assert_eq!(p.input_report_len(), Some(4));
    // a non-zero id on a report-id-0 device is a data byte
    assert_eq!(p.prepare_report(7, &[1, 2]), (0, vec![0, 7, 1, 2]));
    let mut cap = axis_cap(0, 255);
    cap.report_id = 3;
    let q = WinHidpParser::new(1, 2, 4, None, Some(vec![cap])).unwrap();
    assert!(q.expects_report_id_prefix());
    assert_eq!(q.prepare_report(3, &[9, 8, 7, 6, 5]), (3, vec![3, 9, 8, 7]));
    assert_eq!(q.prepare_report(3, &[]), (3, vec![3, 0, 0, 0]));
}

#[test]
fn other_reports_are_ignored() {
    let mut cap = axis_cap(0, 255);
    cap.report_id = 2;
    let mut p = WinHidpParser::new(1, 2, 4, None, Some(vec![cap])).unwrap();
    let mut out = Vec::new();
    p.parse(1, &vec![], &vec![ValueRead::Read(10)], &mut out);
    assert!(out.is_empty());
    p.parse(2, &vec![], &vec![ValueRead::ReadAtRoot(255)], &mut out);
    assert_eq!(out, vec![InputKind::AxisMoved { axis: 0, value: av(255, 255) }]);
}

#[test]
fn axis_values_stay_in_unit_range() {
    let mut p = WinHidpParser::new(1, 2, 8, None, Some(vec![axis_cap(-100, 100)])).unwrap();
    let mut out = Vec::new();
    for raw in [0u32, 50, 100, 0xFFFF_FF9C, 1000, 0x8000_0000] {
        p.parse(0, &vec![], &vec![ValueRead::Read(raw)], &mut out);
    }
    assert!(!out.is_empty());
    for e in &out {
        match *e {
            InputKind::AxisMoved { value, .. } => {
                let v = value_of(value);
                assert!((-1.0..=1.0).contains(&v));
            }
            _ => panic!("unexpected delta"),
        }
    }
}

#[test]
fn link_collection_quirks() {
    let mut cap = axis_cap(0, 255);
    cap.link_collection = 5;
    let rudder = WinHidpParser::new(0x231d, 0x011f, 8, None, Some(vec![cap])).unwrap();
    assert_eq!(rudder.value_query(0), Some((0, 1, 0x30, 0)));
    let mut p = WinHidpParser::new(0x1111, 0x2222, 8, None, Some(vec![cap])).unwrap();
    assert_eq!(p.value_query(0), Some((0, 1, 0x30, 5)));
    let mut out = Vec::new();
    p.parse(0, &vec![], &vec![ValueRead::ReadAtRoot(0)], &mut out);
    assert_eq!(p.value_query(0), Some((0, 1, 0x30, 0)));
    assert_eq!(out, vec![InputKind::AxisMoved { axis: 0, value: av(-255, 255) }]);
    assert_eq!(p.value_query(1), None);
}

#[test]
fn raw_reads_split() {
    assert_eq!(split_report(&[3, 1, 2], true), (3, vec![1, 2]));
    assert_eq!(split_report(&[3, 1, 2], false), (0, vec![3, 1, 2]));
    assert_eq!(split_report(&[], true), (0, vec![]));
}

#[test]
fn button_ranges_expand_in_order() {
    let caps = vec![
        ButtonCap { report_id: 1, usage_page: 9, link_collection: 0, is_range: false, usage_min: 7, usage_max: 0 },
        button_range(1, 2),
        button_range(5, 4),
    ];
    let mut p = WinHidpParser::new(1, 2, 8, Some(caps), None).unwrap();
    let d = p.describe();
    let usages: Vec<Option<u16>> = d.iter().map(|c| c.usage).collect();
    assert_eq!(usages, vec![Some(7), Some(1), Some(2)]);
    assert_eq!(p.button_cap_count(), 3);
    assert_eq!(p.button_query(0), Some((1, 9, 0)));
    // report 2: the report-1 capability does not take part; report-0 usages still resolve
    let mut out = Vec::new();
    p.parse(2, &vec![Some(vec![7]), Some(vec![2])], &vec![], &mut out);
    assert_eq!(out, vec![InputKind::ButtonPressed { button: 2 }]);
    assert!(WinHidpParser::takes_part(0, 9));
    assert!(!WinHidpParser::takes_part(1, 9));
}
