use vstd::prelude::*;

use crate::event::InputKind;
use crate::text::{hex_text, push_hex, push_str, text_of};
use crate::value::AxisValue;

verus! {

/// Byte length of the raw-input header (64-bit layout).
pub const RAW_HEADER_LEN: usize = 24;
/// Byte length of the keyboard record that follows the header.
pub const RAW_KEYBOARD_LEN: usize = 16;
/// Byte length of the mouse record that follows the header.
pub const RAW_MOUSE_LEN: usize = 24;

pub const RIM_TYPEMOUSE: u32 = 0;
pub const RIM_TYPEKEYBOARD: u32 = 1;

pub const RI_KEY_BREAK: u16 = 0x0001;
pub const RI_KEY_E0: u16 = 0x0002;
pub const RI_KEY_E1: u16 = 0x0004;
pub const RI_MOUSE_WHEEL: u16 = 0x0400;
pub const RI_MOUSE_HWHEEL: u16 = 0x0800;

/// A decoded keyboard packet.
#[derive(Clone, Copy, Debug, PartialEq, Eq, Structural)]
pub struct RawKeyboardPacket {
    /// The raw-input device handle that produced the event.
    pub hdevice: u64,
    /// Hardware scancode (layout-independent).
    pub scancode: u16,
    pub is_extended: bool,
    /// `true` for key-up, `false` for key-down.
    pub is_break: bool,
}

/// A decoded mouse packet.
#[derive(Clone, Copy, Debug, PartialEq, Eq, Structural)]
pub struct RawMousePacket {
    pub hdevice: u64,
    /// Relative motion in raw counts.
    pub dx: i32,
    pub dy: i32,
    /// Button transition flags (down/up bit pairs for L, R, M, X1, X2).
    pub buttons_flags: u16,
    /// Wheel deltas, typically 120 per notch.
    pub wheel_delta: i16,
    pub hwheel_delta: i16,
}

/// What a raw-input buffer holds. A keyboard record keeps its virtual key, which the host
/// maps to a scancode when the make code is zero.
#[derive(Clone, Copy, Debug, PartialEq, Eq, Structural)]
pub enum RawInputRecord {
    Keyboard { hdevice: u64, make: u16, flags: u16, vkey: u16 },
    Mouse(RawMousePacket),
}

pub open spec fn le16(b: Seq<u8>, at: int) -> int {
    b[at] + 256 * b[at + 1]
}

pub open spec fn le32(b: Seq<u8>, at: int) -> int {
    le16(b, at) + 65536 * le16(b, at + 2)
}

pub open spec fn le64(b: Seq<u8>, at: int) -> int {
    le32(b, at) + 0x1_0000_0000 * le32(b, at + 4)
}

pub open spec fn as_signed32(v: int) -> int {
    if v < 0x8000_0000 { v } else { v - 0x1_0000_0000 }
}

pub open spec fn as_signed16(v: int) -> int {
    if v < 0x8000 { v } else { v - 0x1_0000 }
}

/// The record that a raw-input buffer decodes to.
pub open spec fn raw_record(b: Seq<u8>) -> Option<RawInputRecord> {
    if b.len() < RAW_HEADER_LEN {
        None
    } else {
        let kind = le32(b, 0);
        let h = le64(b, 8) as u64;
        let d = RAW_HEADER_LEN as int;
        if kind == RIM_TYPEKEYBOARD {
            if b.len() < RAW_HEADER_LEN + RAW_KEYBOARD_LEN {
                None
            } else {
                Some(RawInputRecord::Keyboard {
                    hdevice: h,
                    make: le16(b, d) as u16,
                    flags: le16(b, d + 2) as u16,
                    vkey: le16(b, d + 6) as u16,
                })
            }
        } else if kind == RIM_TYPEMOUSE {
            if b.len() < RAW_HEADER_LEN + RAW_MOUSE_LEN {
                None
            } else {
                let flags = le16(b, d + 4) as u16;
                let data = as_signed16(le16(b, d + 6)) as i16;
                Some(RawInputRecord::Mouse(RawMousePacket {
                    hdevice: h,
                    dx: as_signed32(le32(b, d + 12)) as i32,
                    dy: as_signed32(le32(b, d + 16)) as i32,
                    buttons_flags: flags,
                    wheel_delta: if flags & RI_MOUSE_WHEEL != 0 { data } else { 0 },
                    hwheel_delta: if flags & RI_MOUSE_HWHEEL != 0 { data } else { 0 },
                }))
            }
        } else {
            None
        }
    }
}

fn read16(b: &[u8], at: usize) -> (r: u16)
    requires
        at + 2 <= b@.len(),
        at < 0x2000,
    ensures
        r as int == le16(b@, at as int),
{
    b[at] as u16 + 256 * (b[at + 1] as u16)
}

fn read32(b: &[u8], at: usize) -> (r: u32)
    requires
        at + 4 <= b@.len(),
        at < 0x1800,
    ensures
        r as int == le32(b@, at as int),
{
    read16(b, at) as u32 + 65536 * (read16(b, at + 2) as u32)
}

fn read64(b: &[u8], at: usize) -> (r: u64)
    requires
        at + 8 <= b@.len(),
        at < 0x1000,
    ensures
        r as int == le64(b@, at as int),
{
    read32(b, at) as u64 + 0x1_0000_0000 * (read32(b, at + 4) as u64)
}

fn signed32(v: u32) -> (r: i32)
    ensures
        r as int == as_signed32(v as int),
{
    if v < 0x8000_0000 {
        v as i32
    } else {
        (v as i64 - 0x1_0000_0000) as i32
    }
}

fn signed16(v: u16) -> (r: i16)
    ensures
        r as int == as_signed16(v as int),
{
    if v < 0x8000 {
        v as i16
    } else {
        (v as i32 - 0x1_0000) as i16
    }
}

/// Decodes a raw-input buffer (header, then a keyboard or mouse record). Short buffers and
/// other device types give `None`.
pub fn read_raw_input_bytes(buf: &[u8]) -> (r: Option<RawInputRecord>)
    ensures
        r == raw_record(buf@),
{
    if buf.len() < RAW_HEADER_LEN {
        return None;
    }
    let kind = read32(buf, 0);
    let h = read64(buf, 8);
    let d = RAW_HEADER_LEN;
    if kind == RIM_TYPEKEYBOARD {
        if buf.len() < RAW_HEADER_LEN + RAW_KEYBOARD_LEN {
            return None;
        }
        Some(RawInputRecord::Keyboard {
            hdevice: h,
            make: read16(buf, d),
            flags: read16(buf, d + 2),
            vkey: read16(buf, d + 6),
        })
    } else if kind == RIM_TYPEMOUSE {
        if buf.len() < RAW_HEADER_LEN + RAW_MOUSE_LEN {
            return None;
        }
        let flags = read16(buf, d + 4);
        let data = signed16(read16(buf, d + 6));
        Some(RawInputRecord::Mouse(RawMousePacket {
            hdevice: h,
            dx: signed32(read32(buf, d + 12)),
            dy: signed32(read32(buf, d + 16)),
            buttons_flags: flags,
            wheel_delta: if flags & RI_MOUSE_WHEEL != 0 { data } else { 0 },
            hwheel_delta: if flags & RI_MOUSE_HWHEEL != 0 { data } else { 0 },
        }))
    } else {
        None
    }
}

/// The scancode and extended flag of a virtual-key mapping result: zero means no
/// scancode; a `0xE0` high byte marks an extended key.
pub open spec fn mapped_scancode(sc: u32) -> Option<(u16, bool)> {
    if sc == 0 {
        None
    } else if sc & 0xFF00 == 0xE000 {
        Some(((sc & 0xFF) as u16, true))
    } else {
        Some((sc as u16, false))
    }
}

/// Splits a virtual-key mapping result into scancode and extended flag.
pub fn vkey_to_scancode(sc: u32) -> (r: Option<(u16, bool)>)
    ensures
        r == mapped_scancode(sc),
{
    if sc == 0 {
        None
    } else if sc & 0xFF00 == 0xE000 {
        Some(((sc & 0xFF) as u16, true))
    } else {
        Some((sc as u16, false))
    }
}

/// The keyboard packet of a record. The make code is the scancode; when it is zero the
/// host's mapping of the virtual key (`mapped`, zero for none) is used instead.
pub open spec fn keyboard_packet_of(hdevice: u64, make: u16, flags: u16, mapped: u32) -> Option<RawKeyboardPacket> {
    let is_break = flags & RI_KEY_BREAK != 0;
    let ext_flags = flags & (RI_KEY_E0 | RI_KEY_E1) != 0;
    if make != 0 {
        Some(RawKeyboardPacket { hdevice, scancode: make, is_extended: ext_flags, is_break })
    } else {
        match mapped_scancode(mapped) {
            Some((sc, ext)) => Some(RawKeyboardPacket { hdevice, scancode: sc, is_extended: ext_flags || ext, is_break }),
            None => None,
        }
    }
}

/// Builds the keyboard packet of a record.
pub fn keyboard_packet(hdevice: u64, make: u16, flags: u16, mapped: u32) -> (r: Option<RawKeyboardPacket>)
    ensures
        r == keyboard_packet_of(hdevice, make, flags, mapped),
{
    let is_break = flags & RI_KEY_BREAK != 0;
    let ext_flags = flags & (RI_KEY_E0 | RI_KEY_E1) != 0;
    if make != 0 {
        Some(RawKeyboardPacket { hdevice, scancode: make, is_extended: ext_flags, is_break })
    } else {
        match vkey_to_scancode(mapped) {
            Some((sc, ext)) => Some(RawKeyboardPacket { hdevice, scancode: sc, is_extended: ext_flags || ext, is_break }),
            None => None,
        }
    }
}

/// Packs a keyboard key into a stable index: scancode in bits 0..14, extended flag in bit 15.
pub fn pack_key_index(scancode: u16, is_extended: bool) -> (r: u16)
    ensures
        r as int == (scancode as int % 0x8000) + (if is_extended { 0x8000int } else { 0 }),
{
    let low: u16 = scancode & 0x7FFF;
    assert(scancode & 0x7FFF == scancode % 0x8000) by (bit_vector);
    if is_extended {
        low + 0x8000
    } else {
        low
    }
}

/// The state key of a keyboard key: `key_` and four hexadecimal digits.
pub open spec fn key_label_text(idx: u16) -> Seq<char> {
    "key_"@ + hex_text(idx as nat, 4)
}

pub fn key_label(idx: u16) -> (r: String)
    ensures
        r@ == key_label_text(idx),
{
    let mut s = text_of("key_");
    push_hex(&mut s, idx as u64, 4);
    s
}

/// The id of a raw-input device: `prefix` and the interface path, or the handle in
/// hexadecimal when the path is unknown.
pub open spec fn raw_device_id_text(prefix: Seq<char>, path: Option<Seq<char>>, handle: u64) -> Seq<char> {
    match path {
        Some(p) => prefix + p,
        None => prefix + hex_text(handle as nat, 1),
    }
}

pub fn raw_device_id(prefix: &str, path: &Option<String>, handle: u64) -> (r: String)
    ensures
        r@ == raw_device_id_text(prefix@, crate::device::opt_view(*path), handle),
{
    let mut s = text_of(prefix);
    match path {
        Some(p) => push_str(&mut s, p.as_str()),
        None => push_hex(&mut s, handle, 1),
    }
    s
}

/// The deltas of a mouse packet: motion on axes 0 (dx) and 1 (dy) in counts, wheels on
/// axes 2 and 3 in notches (1/120), then the button edges of L, R, M, X1, X2 (buttons 0..4),
/// each press before its release.
pub open spec fn mouse_events(p: RawMousePacket) -> Seq<InputKind> {
    let axes = (if p.dx != 0 { seq![InputKind::AxisMoved { axis: 0, value: AxisValue { num: p.dx as i64, den: 1 } }] } else { Seq::empty() })
        + (if p.dy != 0 { seq![InputKind::AxisMoved { axis: 1, value: AxisValue { num: p.dy as i64, den: 1 } }] } else { Seq::empty() })
        + (if p.wheel_delta != 0 { seq![InputKind::AxisMoved { axis: 2, value: AxisValue { num: p.wheel_delta as i64, den: 120 } }] } else { Seq::empty() })
        + (if p.hwheel_delta != 0 { seq![InputKind::AxisMoved { axis: 3, value: AxisValue { num: p.hwheel_delta as i64, den: 120 } }] } else { Seq::empty() });
    axes + mouse_button_events(p.buttons_flags, 5)
}

pub open spec fn mouse_button_events(flags: u16, n: int) -> Seq<InputKind>
    decreases n,
{
    if n <= 0 {
        Seq::empty()
    } else {
        let b = n - 1;
        let down = flags & (1u16 << (2 * b) as u16) != 0;
        let up = flags & (1u16 << (2 * b + 1) as u16) != 0;
        mouse_button_events(flags, b)
            + (if down { seq![InputKind::ButtonPressed { button: b as u16 }] } else { Seq::empty() })
            + (if up { seq![InputKind::ButtonReleased { button: b as u16 }] } else { Seq::empty() })
    }
}

/// Turns a mouse packet into deltas.
pub fn mouse_packet_events(p: &RawMousePacket) -> (r: Vec<InputKind>)
    ensures
        r@ == mouse_events(*p),
{
    let mut out: Vec<InputKind> = Vec::new();
    if p.dx != 0 {
        out.push(InputKind::AxisMoved { axis: 0, value: AxisValue { num: p.dx as i64, den: 1 } });
    }
    if p.dy != 0 {
        out.push(InputKind::AxisMoved { axis: 1, value: AxisValue { num: p.dy as i64, den: 1 } });
    }
    if p.wheel_delta != 0 {
        out.push(InputKind::AxisMoved { axis: 2, value: AxisValue { num: p.wheel_delta as i64, den: 120 } });
    }
    if p.hwheel_delta != 0 {
        out.push(InputKind::AxisMoved { axis: 3, value: AxisValue { num: p.hwheel_delta as i64, den: 120 } });
    }
    let ghost axes = out@;
    let mut b: u16 = 0;
    while b < 5
        invariant
            b <= 5,
            out@ == axes + mouse_button_events(p.buttons_flags, b as int),
        decreases 5 - b,
    {
        let down_mask: u16 = 1u16 << (2 * b);
        let up_mask: u16 = 1u16 << (2 * b + 1);
        if p.buttons_flags & down_mask != 0 {
            out.push(InputKind::ButtonPressed { button: b });
        }
        if p.buttons_flags & up_mask != 0 {
            out.push(InputKind::ButtonReleased { button: b });
        }
        b += 1;
        assert(out@ =~= axes + mouse_button_events(p.buttons_flags, b as int));
    }
    assert(out@ =~= mouse_events(*p));
    out
}

} // verus!
