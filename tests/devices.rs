use stickup::binding::{ControlPath, ControlType, read_axis, read_button};
use stickup::device::DeviceFingerprint;
use stickup::discovery::{
    HidDeviceInfo, accept_device, caps_summary, debug_info, meta_from_info, xinput_fingerprint, xinput_meta,
};
use stickup::event::{ChannelDesc, ChannelKind, InputEvent, InputKind};
use stickup::eventbus::{EventFilter, InputEventBus, InputListener, should_deliver};
use stickup::logger::Logger;
use stickup::manager::{DeviceEntry, DeviceManager, ManagedInfo};
use stickup::raw_input::{
    RawInputRecord, keyboard_packet, pack_key_index, read_raw_input_bytes, vkey_to_scancode,
};
use stickup::value::AxisValue;
use stickup::virtual_input::{Device, VirtualDevice, create_virtual_devices};
use stickup::xinput::{GamepadState, XInputDevice};

fn pad(buttons: u16) -> GamepadState {
    GamepadState { buttons, left_trigger: 0, right_trigger: 0, thumb_lx: 0, thumb_ly: 0, thumb_rx: 0, thumb_ry: 0 }
}

#[test]
fn xinput_disconnect_keeps_last_state() {
    let mut d = XInputDevice::new(0, xinput_fingerprint(0), xinput_meta(0));
    assert_eq!(d.id(), "045e:0000:xinput:0");
    let out = d.poll(Some(pad(0x1000)));
    assert_eq!(
        out,
        vec![
            InputKind::AxisMoved { axis: 4, value: AxisValue { num: -255, den: 255 } },
            InputKind::AxisMoved { axis: 5, value: AxisValue { num: -255, den: 255 } },
            InputKind::ButtonPressed { button: 0 },
        ]
    );
    assert!(d.poll(None).is_empty());
    // reconnecting with A still held emits no new press
    let out = d.poll(Some(pad(0x1000)));
    assert!(out.is_empty());
    let out = d.poll(Some(pad(0)));
    assert_eq!(out, vec![InputKind::ButtonReleased { button: 0 }]);
}

#[test]
fn xinput_thumb_mapping() {
    assert_eq!(XInputDevice::normalize_thumb(-32768), AxisValue { num: -32768, den: 32768 });
    assert_eq!(XInputDevice::normalize_thumb(32767), AxisValue { num: 32767, den: 32767 });
    assert_eq!(XInputDevice::normalize_trigger(255), AxisValue { num: 255, den: 255 });
    assert_eq!(XInputDevice::normalize_trigger(0), AxisValue { num: -255, den: 255 });
}

#[test]
fn xinput_dpad_and_inverted_sticks() {
    assert_eq!(XInputDevice::compute_hat(0x0001), 0);
    assert_eq!(XInputDevice::compute_hat(0x0001 | 0x0008), 1);
    assert_eq!(XInputDevice::compute_hat(0x0002 | 0x0004), 5);
    assert_eq!(XInputDevice::compute_hat(0x0001 | 0x0002), -1);
    assert_eq!(XInputDevice::compute_hat(0), -1);
    let mut d = XInputDevice::new(1, xinput_fingerprint(1), xinput_meta(1));
    let mut s = pad(0x0004);
    s.thumb_ly = 32767;
    s.left_trigger = 0;
    s.right_trigger = 0;
    let out = d.poll(Some(s));
    assert!(out.contains(&InputKind::AxisMoved { axis: 1, value: AxisValue { num: -32767, den: 32767 } }));
    assert!(out.contains(&InputKind::HatChanged { hat: 0, value: 6 }));
    let descs = d.describe();
    assert_eq!(descs.len(), 17);
    assert_eq!(descs[1].name, Some("LY".to_string()));
    assert_eq!(descs[16].kind, ChannelKind::Hat);
    assert_eq!(descs[16].name, Some("DPad".to_string()));
}

#[test]
fn fingerprint_strings() {
    let fp = DeviceFingerprint { vendor_id: 0x231d, product_id: 0x11f, serial_number: Some("SN1".to_string()), path: Some("a/b".to_string()) };
    assert_eq!(fp.to_string(), "231d:011f:SN1");
    assert_eq!(fp.to_string(), fp.clone().to_string());
    let fp = DeviceFingerprint { vendor_id: 1, product_id: 2, serial_number: None, path: Some("\\\\?\\hid#vid_1\\dev7".to_string()) };
    assert_eq!(fp.to_string(), "0001:0002@dev7");
    let fp = DeviceFingerprint { vendor_id: 0xabcd, product_id: 0xef01, serial_number: None, path: None };
    assert_eq!(fp.to_string(), "abcd:ef01");
}

fn info(page: u16, usage: u16, path: &str) -> HidDeviceInfo {
    HidDeviceInfo {
        vendor_id: 0x044f,
        product_id: 0xb10a,
        serial_number: None,
        product_string: Some("Stick".to_string()),
        path: path.to_string(),
        usage_page: page,
        usage,
        interface_number: -1,
    }
}

#[test]
fn discovery_filter() {
    assert!(accept_device(&info(1, 4, "p")));
    assert!(!accept_device(&info(1, 2, "p")));
    assert!(!accept_device(&info(1, 6, "p")));
    assert!(!accept_device(&info(1, 5, "hid#vid_045e&IG_00")));
    assert!(accept_device(&info(1, 5, "hid#vid_045e")));
    assert!(accept_device(&info(2, 0xBB, "p")));
    assert!(accept_device(&info(0x0F, 0, "p")));
    assert!(accept_device(&info(0xFF00, 1, "p")));
    assert!(!accept_device(&info(0x0C, 1, "p")));
    let m = meta_from_info(&info(1, 4, "p"));
    assert_eq!(m.interface_number, None);
    assert_eq!(m.bus, Some("usb".to_string()));
    let fp = DeviceFingerprint::from_info(&info(1, 4, "x/y"));
    assert_eq!(fp.to_string(), "044f:b10a@y");
    let d = debug_info(&info(1, 4, "p"));
    assert!(!d.accepted_by_filter);
    assert_eq!(d.usage, Some(4));
}

#[test]
fn caps_summary_counts() {
    let d = |kind, idx| ChannelDesc { kind, idx, name: None, logical_min: 0, logical_max: 1, usage_page: None, usage: None };
    let s = caps_summary(&vec![d(ChannelKind::Axis, 0), d(ChannelKind::Button, 0), d(ChannelKind::Button, 1), d(ChannelKind::Hat, 0)]);
    assert_eq!((s.axes, s.buttons, s.hats), (1, 2, 1));
}

#[test]
fn raw_input_bytes() {
    let mut kb = vec![0u8; 40];
    kb[0] = 1; // keyboard
    kb[8] = 0x34;
    kb[24] = 0x1E; // make code
    kb[26] = 0x01; // break
    kb[30] = 0x41; // vkey
    assert_eq!(
        read_raw_input_bytes(&kb),
        Some(RawInputRecord::Keyboard { hdevice: 0x34, make: 0x1E, flags: 1, vkey: 0x41 })
    );
    assert_eq!(read_raw_input_bytes(&kb[..39]), None);
    let p = keyboard_packet(0x34, 0x1E, 1, 0).unwrap();
    assert_eq!((p.scancode, p.is_extended, p.is_break), (0x1E, false, true));
    let p = keyboard_packet(1, 0, 0, 0xE01D).unwrap();
    assert_eq!((p.scancode, p.is_extended), (0x1D, true));
    assert!(keyboard_packet(1, 0, 0, 0).is_none());
    assert_eq!(vkey_to_scancode(0x2A), Some((0x2A, false)));
    let mut ms = vec![0u8; 48];
    ms[28] = 0x00;
    ms[29] = 0x04; // wheel flag
    ms[30] = 0x88;
    ms[31] = 0xFF; // -120
    ms[36] = 0xFB;
    ms[37] = 0xFF;
    ms[38] = 0xFF;
    ms[39] = 0xFF; // dx = -5
    match read_raw_input_bytes(&ms) {
        Some(RawInputRecord::Mouse(m)) => {
            assert_eq!(m.dx, -5);
            assert_eq!(m.wheel_delta, -120);
            assert_eq!(m.hwheel_delta, 0);
        }
        other => panic!("unexpected {:?}", other),
    }
    ms[0] = 2;
    assert_eq!(read_raw_input_bytes(&ms), None);
}

#[test]
fn key_index_packing() {
    assert_eq!(pack_key_index(0x1E, false), 0x001E);
    assert_eq!(pack_key_index(0x1D, true), 0x801D);
    assert_eq!(pack_key_index(0xFFFF, false), 0x7FFF);
}

#[test]
fn virtual_device_queue() {
    let mut devs = create_virtual_devices();
    assert_eq!(devs.len(), 1);
    let d = &mut devs[0];
    assert_eq!(d.id(), "virtual:0");
    assert_eq!(d.name(), "Virtual Input 0");
    d.set_axis(0, AxisValue { num: 1, den: 2 });
    d.press_button(3);
    d.release_button(3);
    assert_eq!(
        d.poll(),
        vec![
            InputKind::AxisMoved { axis: 0, value: AxisValue { num: 1, den: 2 } },
            InputKind::ButtonPressed { button: 3 },
            InputKind::ButtonReleased { button: 3 },
        ]
    );
    assert!(d.poll().is_empty());
    let mut v = VirtualDevice::new("v", "V");
    v.feed(InputKind::HatChanged { hat: 0, value: 2 });
    assert_eq!(v.take_events().len(), 1);
}

#[test]
fn event_bus_filters() {
    let e = InputEvent { device_id: "A".to_string(), kind: InputKind::ButtonPressed { button: 1 } };
    assert!(should_deliver(true, EventFilter::All, &None, &e));
    assert!(!should_deliver(false, EventFilter::All, &None, &e));
    assert!(!should_deliver(true, EventFilter::AxisOnly, &None, &e));
    assert!(should_deliver(true, EventFilter::ButtonsOnly, &Some("A".to_string()), &e));
    assert!(!should_deliver(true, EventFilter::ButtonsOnly, &Some("B".to_string()), &e));
    let mut bus: InputEventBus<Logger> = InputEventBus::new();
    let a = bus.add_listener(Logger::new(), EventFilter::All, None);
    let b = bus.add_listener(Logger::new(), EventFilter::AxisOnly, None);
    assert_eq!((a, b), (0, 1));
    bus.emit_all(&[e.clone()]);
    assert_eq!(bus.listener(a).unwrap().len(), 1);
    assert_eq!(bus.listener(b).unwrap().len(), 0);
    bus.disable(a);
    bus.emit_all(&[e.clone()]);
    assert_eq!(bus.listener(a).unwrap().len(), 1);
    bus.enable(a);
    bus.remove_listener(b);
    assert!(bus.listener(b).is_none());
    bus.emit_all(&[e]);
    assert_eq!(bus.listener(a).unwrap().len(), 2);
    let mut l = Logger::new();
    l.on_input(&InputEvent { device_id: "A".to_string(), kind: InputKind::ButtonPressed { button: 1 } });
    assert_eq!(l.take_logged().len(), 1);
    assert!(l.take_logged().is_empty());
}

#[test]
fn control_reads() {
    let mut m = DeviceManager::from_devices(vec![DeviceEntry {
        info: ManagedInfo { id: "A".to_string(), name: "A".to_string(), meta: Default::default() },
        descriptors: vec![
            ChannelDesc { kind: ChannelKind::Axis, idx: 0, name: Some("X".to_string()), logical_min: 0, logical_max: 1, usage_page: None, usage: None },
            ChannelDesc { kind: ChannelKind::Button, idx: 0, name: Some("Fire".to_string()), logical_min: 0, logical_max: 1, usage_page: None, usage: None },
        ],
    }]);
    m.apply_event("A", InputKind::ButtonPressed { button: 0 });
    let s = m.state_of("A").unwrap();
    let fire = ControlPath { control_id: "Fire".to_string(), control_type: ControlType::Button };
    let x = ControlPath { control_id: "X".to_string(), control_type: ControlType::Axis };
    assert_eq!(read_axis(s, &fire), AxisValue { num: 1, den: 1 });
    assert_eq!(read_axis(s, &x), AxisValue { num: 0, den: 1 });
    assert!(read_button(s, &fire));
    assert!(!read_button(s, &x));
}
