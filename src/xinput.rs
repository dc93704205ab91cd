use vstd::prelude::*;

use crate::device::{DeviceFingerprint, DeviceMeta};
use crate::event::{ChannelDesc, ChannelKind, ChannelView, InputKind, descs_view};
use crate::text::{push_dec, text_of};
use crate::value::{AxisValue, moved_more_than};

verus! {

pub const XINPUT_GAMEPAD_DPAD_UP: u16 = 0x0001;
pub const XINPUT_GAMEPAD_DPAD_DOWN: u16 = 0x0002;
pub const XINPUT_GAMEPAD_DPAD_LEFT: u16 = 0x0004;
pub const XINPUT_GAMEPAD_DPAD_RIGHT: u16 = 0x0008;

/// One reading of an XInput slot's gamepad.
#[derive(Clone, Copy, Debug, PartialEq, Eq, Structural)]
pub struct GamepadState {
    pub buttons: u16,
    pub left_trigger: u8,
    pub right_trigger: u8,
    pub thumb_lx: i16,
    pub thumb_ly: i16,
    pub thumb_rx: i16,
    pub thumb_ry: i16,
}

/// `[-32768, 32767]` onto `[-1, 1]`: positive values over 32767, negative over 32768.
pub open spec fn thumb_value(v: i16) -> AxisValue {
    if v >= 0 {
        AxisValue { num: v as i64, den: 32767 }
    } else {
        AxisValue { num: v as i64, den: 32768 }
    }
}

/// `0..255` onto `[-1, 1]`.
pub open spec fn trigger_value(v: u8) -> AxisValue {
    AxisValue { num: (2 * v - 255) as i64, den: 255 }
}

pub open spec fn negated(a: AxisValue) -> AxisValue {
    AxisValue { num: (-a.num) as i64, den: a.den }
}

/// The six axes of a reading: LX, LY (inverted), RX, RY (inverted), LT, RT.
pub open spec fn gamepad_axes(s: GamepadState) -> Seq<AxisValue> {
    seq![
        thumb_value(s.thumb_lx),
        negated(thumb_value(s.thumb_ly)),
        thumb_value(s.thumb_rx),
        negated(thumb_value(s.thumb_ry)),
        trigger_value(s.left_trigger),
        trigger_value(s.right_trigger),
    ]
}

/// The bit of each of the ten buttons: A, B, X, Y, LB, RB, Back, Start, LThumb, RThumb.
pub open spec fn button_masks() -> Seq<u16> {
    seq![0x1000u16, 0x2000, 0x4000, 0x8000, 0x0100, 0x0200, 0x0020, 0x0010, 0x0040, 0x0080]
}

/// The hat slot of the DPad bits: `-1` when centred or when opposite directions conflict.
pub open spec fn dpad_slot(buttons: u16) -> i8 {
    let up = buttons & XINPUT_GAMEPAD_DPAD_UP != 0;
    let down = buttons & XINPUT_GAMEPAD_DPAD_DOWN != 0;
    let left = buttons & XINPUT_GAMEPAD_DPAD_LEFT != 0;
    let right = buttons & XINPUT_GAMEPAD_DPAD_RIGHT != 0;
    if up && !down && !left && !right {
        0
    } else if up && !down && !left && right {
        1
    } else if !up && !down && !left && right {
        2
    } else if !up && down && !left && right {
        3
    } else if !up && down && !left && !right {
        4
    } else if !up && down && left && !right {
        5
    } else if !up && !down && left && !right {
        6
    } else if up && !down && left && !right {
        7
    } else {
        -1i8
    }
}

/// Axis deltas of a reading, in axis order, for axes that moved more than 1/1000.
pub open spec fn axis_deltas(last: Seq<AxisValue>, now: Seq<AxisValue>, n: int) -> Seq<InputKind>
    decreases n,
{
    if n <= 0 {
        Seq::empty()
    } else {
        let k = n - 1;
        let rest = axis_deltas(last, now, k);
        if now[k].differs_by_more(last[k], 1, 1000) {
            rest.push(InputKind::AxisMoved { axis: k as u16, value: now[k] })
        } else {
            rest
        }
    }
}

/// Button edges of a reading, in button order, for buttons whose bit flipped.
pub open spec fn button_deltas(last: u16, now: u16, n: int) -> Seq<InputKind>
    decreases n,
{
    if n <= 0 {
        Seq::empty()
    } else {
        let k = n - 1;
        let m = button_masks()[k];
        let rest = button_deltas(last, now, k);
        if (last ^ now) & m != 0 {
            if now & m != 0 {
                rest.push(InputKind::ButtonPressed { button: k as u16 })
            } else {
                rest.push(InputKind::ButtonReleased { button: k as u16 })
            }
        } else {
            rest
        }
    }
}

/// An XInput controller slot (0..3) with its last-known reading.
pub struct XInputDevice {
    index: u32,
    fingerprint: DeviceFingerprint,
    fingerprint_str: String,
    name: String,
    meta: DeviceMeta,
    last_axes: Vec<AxisValue>,
    last_buttons: u16,
    last_hat: i8,
    connected: bool,
}

impl XInputDevice {
    pub open spec fn axis_values_unit(evs: Seq<InputKind>) -> bool {
        forall|i: int| 0 <= i < evs.len() ==> (#[trigger] evs[i] matches InputKind::AxisMoved { value, .. } ==> value.is_unit())
    }

    pub closed spec fn wf(self) -> bool {
        &&& self.last_axes.len() == 6
        &&& forall|k: int| 0 <= k < 6 ==> (#[trigger] self.last_axes@[k]).is_unit() && self.last_axes@[k].den <= 32768
    }

    pub closed spec fn last_axes_spec(self) -> Seq<AxisValue> {
        self.last_axes@
    }

    pub closed spec fn last_buttons_spec(self) -> u16 {
        self.last_buttons
    }

    pub closed spec fn last_hat_spec(self) -> i8 {
        self.last_hat
    }

    pub closed spec fn is_connected(self) -> bool {
        self.connected
    }

    pub closed spec fn slot(self) -> u32 {
        self.index
    }

    pub closed spec fn id_spec(self) -> Seq<char> {
        self.fingerprint_str@
    }

    /// A device for slot `index`, with all axes at 0, no button down and the hat centred.
    pub fn new(index: u32, fingerprint: DeviceFingerprint, meta: DeviceMeta) -> (r: XInputDevice)
        ensures
            r.wf(),
            r.slot() == index,
            r.id_spec() == fingerprint.text(),
            r.last_axes_spec() == Seq::new(6, |k: int| AxisValue { num: 0, den: 1 }),
            r.last_buttons_spec() == 0,
            r.last_hat_spec() == -1,
            !r.is_connected(),
    {
        let mut name = text_of("XInput Controller ");
        push_dec(&mut name, index as u64);
        let fingerprint_str = fingerprint.to_string();
        let mut last_axes: Vec<AxisValue> = Vec::new();
        let mut k: usize = 0;
        while k < 6
            invariant
                k <= 6,
                last_axes@ == Seq::new(k as nat, |j: int| AxisValue { num: 0, den: 1 }),
            decreases 6 - k,
        {
            last_axes.push(AxisValue::zero());
            k += 1;
            assert(last_axes@ =~= Seq::new(k as nat, |j: int| AxisValue { num: 0, den: 1 }));
        }
        XInputDevice {
            index,
            fingerprint,
            fingerprint_str,
            name,
            meta,
            last_axes,
            last_buttons: 0,
            last_hat: -1,
            connected: false,
        }
    }

    /// Normalizes a thumbstick reading onto `[-1, 1]`.
    pub fn normalize_thumb(v: i16) -> (r: AxisValue)
        ensures
            r == thumb_value(v),
            r.is_unit(),
    {
        if v >= 0 {
            AxisValue { num: v as i64, den: 32767 }
        } else {
            AxisValue { num: v as i64, den: 32768 }
        }
    }

    /// Normalizes a trigger reading onto `[-1, 1]`: 0 is -1, 255 is +1.
    pub fn normalize_trigger(v: u8) -> (r: AxisValue)
        ensures
            r == trigger_value(v),
            r.is_unit(),
    {
        AxisValue { num: 2 * v as i64 - 255, den: 255 }
    }

    /// The hat slot of the DPad bits.
    pub fn compute_hat(buttons: u16) -> (r: i8)
        ensures
            r == dpad_slot(buttons),
            -1 <= r <= 7,
    {
        let up = buttons & XINPUT_GAMEPAD_DPAD_UP != 0;
        let down = buttons & XINPUT_GAMEPAD_DPAD_DOWN != 0;
        let left = buttons & XINPUT_GAMEPAD_DPAD_LEFT != 0;
        let right = buttons & XINPUT_GAMEPAD_DPAD_RIGHT != 0;
        if up && !down && !left && !right {
            0
        } else if up && !down && !left && right {
            1
        } else if !up && !down && !left && right {
            2
        } else if !up && down && !left && right {
            3
        } else if !up && down && !left && !right {
            4
        } else if !up && down && left && !right {
            5
        } else if !up && !down && left && !right {
            6
        } else if up && !down && left && !right {
            7
        } else {
            -1
        }
    }
}


pub open spec fn plain_channel(kind: ChannelKind, idx: u16, name: Seq<char>, lo: i32, hi: i32) -> ChannelView {
    ChannelView {
        kind,
        idx,
        name: Some(name),
        logical_min: lo,
        logical_max: hi,
        usage_page: None,
        usage: None,
    }
}

/// The fixed channel map of an XInput pad: six axes, ten buttons, the DPad hat.
pub open spec fn xinput_channels() -> Seq<ChannelView> {
    seq![
        plain_channel(ChannelKind::Axis, 0, "LX"@, -1i32, 1),
        plain_channel(ChannelKind::Axis, 1, "LY"@, -1i32, 1),
        plain_channel(ChannelKind::Axis, 2, "RX"@, -1i32, 1),
        plain_channel(ChannelKind::Axis, 3, "RY"@, -1i32, 1),
        plain_channel(ChannelKind::Axis, 4, "LT"@, -1i32, 1),
        plain_channel(ChannelKind::Axis, 5, "RT"@, -1i32, 1),
        plain_channel(ChannelKind::Button, 0, "A"@, 0, 1),
        plain_channel(ChannelKind::Button, 1, "B"@, 0, 1),
        plain_channel(ChannelKind::Button, 2, "X"@, 0, 1),
        plain_channel(ChannelKind::Button, 3, "Y"@, 0, 1),
        plain_channel(ChannelKind::Button, 4, "LB"@, 0, 1),
        plain_channel(ChannelKind::Button, 5, "RB"@, 0, 1),
        plain_channel(ChannelKind::Button, 6, "Back"@, 0, 1),
        plain_channel(ChannelKind::Button, 7, "Start"@, 0, 1),
        plain_channel(ChannelKind::Button, 8, "LThumb"@, 0, 1),
        plain_channel(ChannelKind::Button, 9, "RThumb"@, 0, 1),
        plain_channel(ChannelKind::Hat, 0, "DPad"@, -1i32, 7),
    ]
}

fn plain_desc(kind: ChannelKind, idx: u16, name: &str, lo: i32, hi: i32) -> (r: ChannelDesc)
    ensures
        r@ == plain_channel(kind, idx, name@, lo, hi),
{
    ChannelDesc {
        kind,
        idx,
        name: Some(text_of(name)),
        logical_min: lo,
        logical_max: hi,
        usage_page: None,
        usage: None,
    }
}

fn button_mask(k: usize) -> (r: u16)
    requires
        k < 10,
    ensures
        r == button_masks()[k as int],
{
    match k {
        0 => 0x1000,
        1 => 0x2000,
        2 => 0x4000,
        3 => 0x8000,
        4 => 0x0100,
        5 => 0x0200,
        6 => 0x0020,
        7 => 0x0010,
        8 => 0x0040,
        _ => 0x0080,
    }
}

impl XInputDevice {
    /// Decodes one reading of the slot; `None` means the slot is disconnected.
    ///
    /// A disconnected slot yields nothing and keeps its last-known values. A reading yields
    /// the axes that moved more than 1/1000, the buttons whose bit flipped, and the hat if
    /// its slot changed.
    pub fn poll(&mut self, state: Option<GamepadState>) -> (r: Vec<InputKind>)
        requires
            old(self).wf(),
        ensures
            final(self).wf(),
            final(self).slot() == old(self).slot(),
            final(self).id_spec() == old(self).id_spec(),
            Self::axis_values_unit(r@),
            match state {
                None => {
                    &&& r@.len() == 0
                    &&& !final(self).is_connected()
                    &&& final(self).last_axes_spec() == old(self).last_axes_spec()
                    &&& final(self).last_buttons_spec() == old(self).last_buttons_spec()
                    &&& final(self).last_hat_spec() == old(self).last_hat_spec()
                },
                Some(s) => {
                    let now = gamepad_axes(s);
                    let last = old(self).last_axes_spec();
                    let hat = dpad_slot(s.buttons);
                    &&& final(self).is_connected()
                    &&& r@ == axis_deltas(last, now, 6) + button_deltas(old(self).last_buttons_spec(), s.buttons, 10)
                        + if hat != old(self).last_hat_spec() {
                        seq![InputKind::HatChanged { hat: 0, value: hat as i16 }]
                    } else {
                        Seq::empty()
                    }
                    &&& final(self).last_axes_spec() == Seq::new(
                        6,
                        |k: int| if now[k].differs_by_more(last[k], 1, 1000) { now[k] } else { last[k] },
                    )
                    &&& final(self).last_buttons_spec() == s.buttons
                    &&& final(self).last_hat_spec() == hat
                },
            },
    {
        let mut events: Vec<InputKind> = Vec::new();
        let s = match state {
            None => {
                self.connected = false;
                return events;
            },
            Some(s) => s,
        };
        self.connected = true;
        let mut now: Vec<AxisValue> = Vec::new();
        now.push(Self::normalize_thumb(s.thumb_lx));
        now.push(Self::normalize_thumb(s.thumb_ly).neg());
        now.push(Self::normalize_thumb(s.thumb_rx));
        now.push(Self::normalize_thumb(s.thumb_ry).neg());
        now.push(Self::normalize_trigger(s.left_trigger));
        now.push(Self::normalize_trigger(s.right_trigger));
        let ghost nowv = gamepad_axes(s);
        assert(now@ =~= nowv);
        let ghost last = self.last_axes@;
        let mut i: usize = 0;
        while i < 6
            invariant
                i <= 6,
                now@ == nowv,
                nowv == gamepad_axes(s),
                self.last_axes.len() == 6,
                forall|k: int| 0 <= k < 6 ==> (#[trigger] nowv[k]).is_unit() && nowv[k].den <= 32768,
                forall|k: int| 0 <= k < 6 ==> (#[trigger] last[k]).is_unit() && last[k].den <= 32768,
                forall|k: int| 0 <= k < i ==> #[trigger] self.last_axes@[k] == (if nowv[k].differs_by_more(last[k], 1, 1000) { nowv[k] } else { last[k] }),
                forall|k: int| i <= k < 6 ==> #[trigger] self.last_axes@[k] == last[k],
                events@ == axis_deltas(last, nowv, i as int),
                self.connected,
                self.index == old(self).index,
                self.fingerprint_str@ == old(self).fingerprint_str@,
                self.last_buttons == old(self).last_buttons,
                self.last_hat == old(self).last_hat,
            decreases 6 - i,
        {
            let v = now[i];
            if moved_more_than(v, self.last_axes[i], 1, 1000) {
                self.last_axes.set(i, v);
                events.push(InputKind::AxisMoved { axis: i as u16, value: v });
            }
            i += 1;
        }
        assert(self.last_axes@ =~= Seq::new(
            6,
            |k: int| if nowv[k].differs_by_more(last[k], 1, 1000) { nowv[k] } else { last[k] },
        ));
        let ghost ax = events@;
        let ghost lb = self.last_buttons;
        let buttons = s.buttons;
        let changed = self.last_buttons ^ buttons;
        let mut k: usize = 0;
        while k < 10
            invariant
                k <= 10,
                changed == lb ^ buttons,
                events@ == ax + button_deltas(lb, buttons, k as int),
                self.connected,
                self.index == old(self).index,
                self.fingerprint_str@ == old(self).fingerprint_str@,
                lb == old(self).last_buttons,
                self.last_hat == old(self).last_hat,
                self.last_axes@ == Seq::new(
                    6,
                    |k: int| if nowv[k].differs_by_more(last[k], 1, 1000) { nowv[k] } else { last[k] },
                ),
                forall|k: int| 0 <= k < 6 ==> (#[trigger] self.last_axes@[k]).is_unit() && self.last_axes@[k].den <= 32768,
            decreases 10 - k,
        {
            let m = button_mask(k);
            if changed & m != 0 {
                if buttons & m != 0 {
                    events.push(InputKind::ButtonPressed { button: k as u16 });
                } else {
                    events.push(InputKind::ButtonReleased { button: k as u16 });
                }
            }
            k += 1;
            assert(events@ =~= ax + button_deltas(lb, buttons, k as int));
        }
        let new_hat = Self::compute_hat(buttons);
        if new_hat != self.last_hat {
            self.last_hat = new_hat;
            events.push(InputKind::HatChanged { hat: 0, value: new_hat as i16 });
        }
        self.last_buttons = buttons;
        proof {
            lemma_axis_deltas_unit(last, nowv, 6);
            lemma_button_deltas_no_axes(lb, buttons, 10);
            let hat_part = if new_hat != old(self).last_hat {
                seq![InputKind::HatChanged { hat: 0, value: new_hat as i16 }]
            } else {
                Seq::<InputKind>::empty()
            };
            assert(events@ =~= axis_deltas(last, nowv, 6) + button_deltas(lb, buttons, 10) + hat_part);
            assert forall|i: int| 0 <= i < events@.len() implies (#[trigger] events@[i] matches InputKind::AxisMoved { value, .. } ==> value.is_unit()) by {
                let a = axis_deltas(last, nowv, 6);
                let bd = button_deltas(lb, buttons, 10);
                if i < a.len() {
                    assert(events@[i] == a[i]);
                } else if i < a.len() + bd.len() {
                    assert(events@[i] == bd[i - a.len()]);
                } else {
                    assert(events@[i] == hat_part[i - a.len() - bd.len()]);
                }
            }
        }
        events
    }

    /// The fixed channel map, matching the indices that `poll` emits.
    pub fn describe(&self) -> (r: Vec<ChannelDesc>)
        ensures
            descs_view(r@) == xinput_channels(),
    {
        let mut out: Vec<ChannelDesc> = Vec::new();
        out.push(plain_desc(ChannelKind::Axis, 0, "LX", -1, 1));
        out.push(plain_desc(ChannelKind::Axis, 1, "LY", -1, 1));
        out.push(plain_desc(ChannelKind::Axis, 2, "RX", -1, 1));
        out.push(plain_desc(ChannelKind::Axis, 3, "RY", -1, 1));
        out.push(plain_desc(ChannelKind::Axis, 4, "LT", -1, 1));
        out.push(plain_desc(ChannelKind::Axis, 5, "RT", -1, 1));
        out.push(plain_desc(ChannelKind::Button, 0, "A", 0, 1));
        out.push(plain_desc(ChannelKind::Button, 1, "B", 0, 1));
        out.push(plain_desc(ChannelKind::Button, 2, "X", 0, 1));
        out.push(plain_desc(ChannelKind::Button, 3, "Y", 0, 1));
        out.push(plain_desc(ChannelKind::Button, 4, "LB", 0, 1));
        out.push(plain_desc(ChannelKind::Button, 5, "RB", 0, 1));
        out.push(plain_desc(ChannelKind::Button, 6, "Back", 0, 1));
        out.push(plain_desc(ChannelKind::Button, 7, "Start", 0, 1));
        out.push(plain_desc(ChannelKind::Button, 8, "LThumb", 0, 1));
        out.push(plain_desc(ChannelKind::Button, 9, "RThumb", 0, 1));
        out.push(plain_desc(ChannelKind::Hat, 0, "DPad", -1, 7));
        assert(descs_view(out@) =~= xinput_channels());
        out
    }

    /// The XInput slot this device reads.
    pub fn index(&self) -> (r: u32)
        ensures
            r == self.slot(),
    {
        self.index
    }

    /// The device's display name.
    pub fn name(&self) -> &String {
        &self.name
    }

    /// The device id: the fingerprint's canonical string.
    pub fn id(&self) -> (r: &String)
        ensures
            r@ == self.id_spec(),
    {
        &self.fingerprint_str
    }

    /// The device's metadata.
    pub fn metadata(&self) -> &DeviceMeta {
        &self.meta
    }

    /// The device's fingerprint.
    pub fn fingerprint(&self) -> &DeviceFingerprint {
        &self.fingerprint
    }
}


proof fn lemma_axis_deltas_unit(last: Seq<AxisValue>, now: Seq<AxisValue>, n: int)
    requires
        0 <= n <= now.len(),
        forall|k: int| 0 <= k < n ==> (#[trigger] now[k]).is_unit(),
    ensures
        XInputDevice::axis_values_unit(axis_deltas(last, now, n)),
    decreases n,
{
    if n > 0 {
        lemma_axis_deltas_unit(last, now, n - 1);
        let rest = axis_deltas(last, now, n - 1);
        assert forall|i: int| 0 <= i < axis_deltas(last, now, n).len() implies
            (#[trigger] axis_deltas(last, now, n)[i] matches InputKind::AxisMoved { value, .. } ==> value.is_unit()) by {
            if i < rest.len() {
                assert(axis_deltas(last, now, n)[i] == rest[i]);
            }
        }
    }
}

proof fn lemma_button_deltas_no_axes(last: u16, now: u16, n: int)
    ensures
        forall|i: int| 0 <= i < button_deltas(last, now, n).len() ==> !(#[trigger] button_deltas(last, now, n)[i] is AxisMoved),
    decreases n,
{
    if n > 0 {
        lemma_button_deltas_no_axes(last, now, n - 1);
        let rest = button_deltas(last, now, n - 1);
        assert forall|i: int| 0 <= i < button_deltas(last, now, n).len() implies !(#[trigger] button_deltas(last, now, n)[i] is AxisMoved) by {
            if i < rest.len() {
                assert(button_deltas(last, now, n)[i] == rest[i]);
            }
        }
    }
}

} // verus!
