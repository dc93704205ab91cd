use stickup::device::DeviceMeta;
use stickup::event::{ChannelDesc, ChannelKind, InputEvent, InputKind};
use stickup::manager::{DeviceEntry, DeviceManager, ManagedInfo};
use stickup::raw_input::{RawKeyboardPacket, RawMousePacket, raw_device_id};
use stickup::value::AxisValue;

fn desc(kind: ChannelKind, idx: u16, name: Option<&str>) -> ChannelDesc {
    ChannelDesc {
        kind,
        idx,
        name: name.map(|s| s.to_string()),
        logical_min: 0,
        logical_max: 1,
        usage_page: None,
        usage: None,
    }
}

fn entry(id: &str, descriptors: Vec<ChannelDesc>) -> DeviceEntry {
    DeviceEntry {
        info: ManagedInfo { id: id.to_string(), name: id.to_string(), meta: DeviceMeta::default() },
        descriptors,
    }
}

fn stick(id: &str) -> DeviceEntry {
    entry(
        id,
        vec![
            desc(ChannelKind::Axis, 0, Some("X")),
            desc(ChannelKind::Axis, 1, None),
            desc(ChannelKind::Button, 0, Some("Trigger")),
            desc(ChannelKind::Button, 1, None),
            desc(ChannelKind::Hat, 0, None),
        ],
    )
}

fn ev(id: &str, kind: InputKind) -> InputEvent {
    InputEvent { device_id: id.to_string(), kind }
}

const ZERO: AxisValue = AxisValue { num: 0, den: 1 };
const HALF: AxisValue = AxisValue { num: 1, den: 2 };

#[test]
fn discovery_seeds_neutral_state() {
    let m = DeviceManager::from_devices(vec![stick("A")]);
    let snap = m.snapshot();
    let s = snap.get("A").unwrap();
    assert_eq!(s.axis("X"), Some(ZERO));
    assert_eq!(s.axis("axis1"), Some(ZERO));
    assert_eq!(s.button("Trigger"), Some(false));
    assert_eq!(s.button("btn1"), Some(false));
    assert_eq!(s.hat("hat0"), Some(-1));
    assert_eq!(s.axis("Y"), None);
}

#[test]
fn duplicate_ids_keep_the_first() {
    let m = DeviceManager::from_devices(vec![stick("A"), entry("A", vec![]), stick("B")]);
    assert_eq!(m.device_ids(), vec!["A".to_string(), "B".to_string()]);
    assert_eq!(m.channels("A").unwrap().len(), 5);
    assert!(m.channels("C").is_none());
}

#[test]
fn poll_events_applies_and_orders() {
    let mut m = DeviceManager::from_devices(vec![stick("A"), stick("B")]);
    let out = m.poll_events(vec![
        ev("A", InputKind::AxisMoved { axis: 0, value: HALF }),
        ev("B", InputKind::ButtonPressed { button: 0 }),
        ev("B", InputKind::HatChanged { hat: 0, value: 3 }),
        ev("Z", InputKind::ButtonPressed { button: 0 }),
        ev("A", InputKind::ButtonPressed { button: 9 }),
    ]);
    assert_eq!(out.len(), 5);
    assert_eq!(m.get_axis("A.X"), Some(HALF));
    assert!(m.is_pressed("B.Trigger"));
    assert!(!m.is_pressed("A.Trigger"));
    assert!(!m.is_pressed("nodot"));
    assert_eq!(m.get_axis("A.Nope"), None);
    assert_eq!(m.state_of("B").unwrap().hat("hat0"), Some(3));
    // an unlabelled channel leaves the state as it was
    assert_eq!(m.state_of("A").unwrap().button("btn9"), None);
}

#[test]
fn snapshot_matches_state() {
    let mut m = DeviceManager::from_devices(vec![stick("A")]);
    m.apply_event("A", InputKind::AxisMoved { axis: 1, value: HALF });
    let snap = m.snapshot();
    let s = snap.get("A").unwrap();
    let live = m.state_of("A").unwrap();
    assert_eq!(s.axis("axis1"), live.axis("axis1"));
    assert_eq!(s.axis("axis1"), Some(HALF));
    assert_eq!(s.get_axis("missing"), ZERO);
    assert!(!s.get_button("missing"));
    // the snapshot is a copy: later changes do not reach it
    m.apply_event("A", InputKind::AxisMoved { axis: 1, value: ZERO });
    assert_eq!(s.axis("axis1"), Some(HALF));
    assert_eq!(snap.iter().len(), 1);
    assert_eq!(snap.into_inner().len(), 1);
}

#[test]
fn raw_keyboard_injection() {
    let mut m = DeviceManager::from_devices(vec![]);
    let id = raw_device_id("rawkbd:", &Some("\\\\?\\HID#VID_1".to_string()), 7);
    assert_eq!(id, "rawkbd:\\\\?\\HID#VID_1");
    m.inject_keyboard(id.clone(), RawKeyboardPacket { hdevice: 7, scancode: 0x1E, is_extended: false, is_break: false });
    let out = m.poll_events(vec![]);
    assert_eq!(out, vec![ev(&id, InputKind::ButtonPressed { button: 0x001E })]);
    let chans = m.channels(&id).unwrap();
    assert_eq!(chans.len(), 1);
    assert_eq!(chans[0].kind, ChannelKind::Button);
    assert_eq!(chans[0].idx, 0x1E);
    assert_eq!(chans[0].name, Some("key_001e".to_string()));
    assert_eq!(m.state_of(&id).unwrap().button("key_001e"), Some(true));
    // the queue is drained
    assert!(m.poll_events(vec![]).is_empty());
    m.inject_keyboard(id.clone(), RawKeyboardPacket { hdevice: 7, scancode: 0x1D, is_extended: true, is_break: true });
    let out = m.poll_events(vec![]);
    assert_eq!(out, vec![ev(&id, InputKind::ButtonReleased { button: 0x801D })]);
    assert_eq!(m.state_of(&id).unwrap().button("key_801d"), Some(false));
}

#[test]
fn raw_device_id_falls_back_to_handle() {
    assert_eq!(raw_device_id("rawkbd:", &None, 0x2a), "rawkbd:2a");
}

#[test]
fn poll_all_keeps_injected_queue() {
    let mut m = DeviceManager::from_devices(vec![]);
    m.inject_keyboard("k".to_string(), RawKeyboardPacket { hdevice: 1, scancode: 2, is_extended: false, is_break: false });
    assert!(m.poll_all(vec![]).is_empty());
    assert_eq!(m.poll_events(vec![]).len(), 1);
}

#[test]
fn raw_mouse_injection() {
    let mut m = DeviceManager::from_devices(vec![]);
    m.inject_mouse(
        "rawmouse:1".to_string(),
        RawMousePacket { hdevice: 1, dx: 5, dy: 0, buttons_flags: 0x0001 | 0x0008, wheel_delta: -240, hwheel_delta: 0 },
    );
    let out = m.poll_events(vec![]);
    let kinds: Vec<InputKind> = out.iter().map(|e| e.kind).collect();
    assert_eq!(
        kinds,
        vec![
            InputKind::AxisMoved { axis: 0, value: AxisValue { num: 5, den: 1 } },
            InputKind::AxisMoved { axis: 2, value: AxisValue { num: -240, den: 120 } },
            InputKind::ButtonPressed { button: 0 },
            InputKind::ButtonReleased { button: 1 },
        ]
    );
    let s = m.state_of("rawmouse:1").unwrap();
    assert_eq!(s.axis("dx"), Some(AxisValue { num: 5, den: 1 }));
    assert_eq!(s.axis("dy"), Some(ZERO));
    assert_eq!(s.button("L"), Some(true));
    assert_eq!(s.button("R"), Some(false));
}

#[test]
fn rescan_preserves_surviving_state() {
    let mut m = DeviceManager::from_devices(vec![stick("A"), stick("B")]);
    m.apply_event("A", InputKind::AxisMoved { axis: 0, value: HALF });
    let mut a = stick("A");
    a.descriptors.push(desc(ChannelKind::Axis, 2, Some("Z")));
    let report = m.rescan(vec![a]);
    assert_eq!(report.removed, vec!["B".to_string()]);
    assert!(report.added.is_empty());
    let snap = m.snapshot();
    let s = snap.get("A").unwrap();
    assert_eq!(s.axis("X"), Some(HALF));
    assert_eq!(s.axis("Z"), Some(ZERO));
    assert!(snap.get("B").is_none());
    let report = m.rescan(vec![stick("C")]);
    assert_eq!(report.added, vec!["C".to_string()]);
    assert_eq!(report.removed, vec!["A".to_string()]);
    let report = m.rescan(vec![]);
    assert_eq!(report.removed, vec!["C".to_string()]);
    assert!(m.device_ids().is_empty());
}

#[test]
fn add_device_ignores_known_ids() {
    let mut m = DeviceManager::from_devices(vec![stick("A")]);
    m.add_device(entry("A", vec![]));
    m.add_device(entry("V", vec![desc(ChannelKind::Button, 0, None)]));
    assert_eq!(m.device_ids(), vec!["A".to_string(), "V".to_string()]);
    assert_eq!(m.channels("A").unwrap().len(), 5);
    assert_eq!(m.devices().len(), 2);
    assert_eq!(m.devices()[1].id, "V");
}
