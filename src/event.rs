use vstd::prelude::*;

use crate::value::AxisValue;

verus! {

/// The kind of an input channel.
#[derive(Clone, Copy, Debug, PartialEq, Eq, Structural)]
pub enum ChannelKind {
    Axis,
    Button,
    Hat,
}

/// One input channel of a device, as `describe()` publishes it.
#[derive(Clone, Debug, PartialEq, Eq)]
pub struct ChannelDesc {
    pub kind: ChannelKind,
    pub idx: u16,
    pub name: Option<String>,
    pub logical_min: i32,
    pub logical_max: i32,
    pub usage_page: Option<u16>,
    pub usage: Option<u16>,
}

/// The mathematical content of a [`ChannelDesc`].
pub struct ChannelView {
    pub kind: ChannelKind,
    pub idx: u16,
    pub name: Option<Seq<char>>,
    pub logical_min: i32,
    pub logical_max: i32,
    pub usage_page: Option<u16>,
    pub usage: Option<u16>,
}

pub open spec fn name_view(n: Option<String>) -> Option<Seq<char>> {
    match n {
        Some(s) => Some(s@),
        None => None,
    }
}

impl View for ChannelDesc {
    type V = ChannelView;

    open spec fn view(&self) -> ChannelView {
        ChannelView {
            kind: self.kind,
            idx: self.idx,
            name: name_view(self.name),
            logical_min: self.logical_min,
            logical_max: self.logical_max,
            usage_page: self.usage_page,
            usage: self.usage,
        }
    }
}

/// The views of a sequence of channel descriptors.
pub open spec fn descs_view(s: Seq<ChannelDesc>) -> Seq<ChannelView> {
    s.map_values(|d: ChannelDesc| d@)
}

/// A device-local input delta.
#[derive(Clone, Copy, Debug, PartialEq, Eq, Structural)]
pub enum InputKind {
    AxisMoved { axis: u16, value: AxisValue },
    ButtonPressed { button: u16 },
    ButtonReleased { button: u16 },
    HatChanged { hat: u16, value: i16 },
}

/// An input delta tagged with the id of the device that produced it.
#[derive(Clone, Debug, PartialEq, Eq)]
pub struct InputEvent {
    pub device_id: String,
    pub kind: InputKind,
}

impl View for InputEvent {
    type V = (Seq<char>, InputKind);

    open spec fn view(&self) -> (Seq<char>, InputKind) {
        (self.device_id@, self.kind)
    }
}

pub open spec fn events_view(s: Seq<InputEvent>) -> Seq<(Seq<char>, InputKind)> {
    s.map_values(|e: InputEvent| e@)
}

/// The channel `(kind, idx)` appears among `descs`.
pub open spec fn described(descs: Seq<ChannelView>, ch: (ChannelKind, u16)) -> bool {
    exists|i: int| 0 <= i < descs.len() && descs[i].kind == ch.0 && descs[i].idx == ch.1
}

/// The channel that an input delta refers to.
pub open spec fn channel_of(k: InputKind) -> (ChannelKind, u16) {
    match k {
        InputKind::AxisMoved { axis, .. } => (ChannelKind::Axis, axis),
        InputKind::ButtonPressed { button } => (ChannelKind::Button, button),
        InputKind::ButtonReleased { button } => (ChannelKind::Button, button),
        InputKind::HatChanged { hat, .. } => (ChannelKind::Hat, hat),
    }
}

/// Copies a channel descriptor, field by field.
pub fn copy_desc(d: &ChannelDesc) -> (r: ChannelDesc)
    ensures
        r@ == d@,
{
    let name = match &d.name {
        Some(s) => Some(s.clone()),
        None => None,
    };
    ChannelDesc {
        kind: d.kind,
        idx: d.idx,
        name,
        logical_min: d.logical_min,
        logical_max: d.logical_max,
        usage_page: d.usage_page,
        usage: d.usage,
    }
}

/// Copies a sequence of channel descriptors.
pub fn copy_descs(v: &Vec<ChannelDesc>) -> (r: Vec<ChannelDesc>)
    ensures
        descs_view(r@) == descs_view(v@),
{
    let mut r: Vec<ChannelDesc> = Vec::new();
    let mut i: usize = 0;
    while i < v.len()
        invariant
            i <= v.len(),
            r.len() == i,
            forall|j: int| 0 <= j < i ==> (#[trigger] r@[j])@ == v@[j]@,
        decreases v.len() - i,
    {
        r.push(copy_desc(&v[i]));
        i += 1;
    }
    assert(descs_view(r@) =~= descs_view(v@));
    r
}

} // verus!
