use vstd::prelude::*;

use crate::label_map::LabelMap;
use crate::value::AxisValue;

verus! {

/// Last-known values of one device, keyed by channel label.
///
/// Hats hold `-1` for neutral and `0..7` for directions (Up = 0, clockwise).
pub struct DeviceState {
    axes: LabelMap<AxisValue>,
    buttons: LabelMap<bool>,
    hats: LabelMap<i16>,
}

/// The mathematical content of a [`DeviceState`].
pub struct DeviceStateView {
    pub axes: Map<Seq<char>, AxisValue>,
    pub buttons: Map<Seq<char>, bool>,
    pub hats: Map<Seq<char>, i16>,
}

impl View for DeviceState {
    type V = DeviceStateView;

    closed spec fn view(&self) -> DeviceStateView {
        DeviceStateView { axes: self.axes.map(), buttons: self.buttons.map(), hats: self.hats.map() }
    }
}

impl DeviceState {
    pub closed spec fn wf(self) -> bool {
        self.axes.wf() && self.buttons.wf() && self.hats.wf()
    }

    /// A state with no channels.
    pub fn new() -> (r: DeviceState)
        ensures
            r.wf(),
            r@.axes == Map::<Seq<char>, AxisValue>::empty(),
            r@.buttons == Map::<Seq<char>, bool>::empty(),
            r@.hats == Map::<Seq<char>, i16>::empty(),
    {
        DeviceState { axes: LabelMap::new(), buttons: LabelMap::new(), hats: LabelMap::new() }
    }

    /// The value of a named axis, 0 if the axis is unknown.
    pub fn get_axis(&self, name: &str) -> (r: AxisValue)
        requires
            self.wf(),
        ensures
            r == (if self@.axes.contains_key(name@) {
                self@.axes[name@]
            } else {
                AxisValue { num: 0, den: 1 }
            }),
    {
        match self.axes.get(name) {
            Some(v) => v,
            None => AxisValue::zero(),
        }
    }

    /// The state of a named button, `false` if the button is unknown.
    pub fn get_button(&self, name: &str) -> (r: bool)
        requires
            self.wf(),
        ensures
            r == (self@.buttons.contains_key(name@) && self@.buttons[name@]),
    {
        match self.buttons.get(name) {
            Some(v) => v,
            None => false,
        }
    }

    /// The value of a named axis, if known.
    pub fn axis(&self, name: &str) -> (r: Option<AxisValue>)
        requires
            self.wf(),
        ensures
            r == (if self@.axes.contains_key(name@) { Some(self@.axes[name@]) } else { None::<AxisValue> }),
    {
        self.axes.get(name)
    }

    /// The state of a named button, if known.
    pub fn button(&self, name: &str) -> (r: Option<bool>)
        requires
            self.wf(),
        ensures
            r == (if self@.buttons.contains_key(name@) { Some(self@.buttons[name@]) } else { None::<bool> }),
    {
        self.buttons.get(name)
    }

    /// The slot of a named hat, if known.
    pub fn hat(&self, name: &str) -> (r: Option<i16>)
        requires
            self.wf(),
        ensures
            r == (if self@.hats.contains_key(name@) { Some(self@.hats[name@]) } else { None::<i16> }),
    {
        self.hats.get(name)
    }

    pub fn set_axis(&mut self, name: &str, v: AxisValue)
        requires
            old(self).wf(),
        ensures
            final(self).wf(),
            final(self)@.axes == old(self)@.axes.insert(name@, v),
            final(self)@.buttons == old(self)@.buttons,
            final(self)@.hats == old(self)@.hats,
    {
        self.axes.set(name, v);
    }

    pub fn set_button(&mut self, name: &str, v: bool)
        requires
            old(self).wf(),
        ensures
            final(self).wf(),
            final(self)@.buttons == old(self)@.buttons.insert(name@, v),
            final(self)@.axes == old(self)@.axes,
            final(self)@.hats == old(self)@.hats,
    {
        self.buttons.set(name, v);
    }

    pub fn set_hat(&mut self, name: &str, v: i16)
        requires
            old(self).wf(),
        ensures
            final(self).wf(),
            final(self)@.hats == old(self)@.hats.insert(name@, v),
            final(self)@.axes == old(self)@.axes,
            final(self)@.buttons == old(self)@.buttons,
    {
        self.hats.set(name, v);
    }

    /// Gives a channel its neutral value unless it already has one.
    pub fn seed_axis(&mut self, name: &str)
        requires
            old(self).wf(),
        ensures
            final(self).wf(),
            final(self)@.axes == (if old(self)@.axes.contains_key(name@) {
                old(self)@.axes
            } else {
                old(self)@.axes.insert(name@, AxisValue { num: 0, den: 1 })
            }),
            final(self)@.buttons == old(self)@.buttons,
            final(self)@.hats == old(self)@.hats,
    {
        self.axes.set_if_absent(name, AxisValue::zero());
    }

    pub fn seed_button(&mut self, name: &str)
        requires
            old(self).wf(),
        ensures
            final(self).wf(),
            final(self)@.buttons == (if old(self)@.buttons.contains_key(name@) {
                old(self)@.buttons
            } else {
                old(self)@.buttons.insert(name@, false)
            }),
            final(self)@.axes == old(self)@.axes,
            final(self)@.hats == old(self)@.hats,
    {
        self.buttons.set_if_absent(name, false);
    }

    pub fn seed_hat(&mut self, name: &str)
        requires
            old(self).wf(),
        ensures
            final(self).wf(),
            final(self)@.hats == (if old(self)@.hats.contains_key(name@) {
                old(self)@.hats
            } else {
                old(self)@.hats.insert(name@, -1i16)
            }),
            final(self)@.axes == old(self)@.axes,
            final(self)@.buttons == old(self)@.buttons,
    {
        self.hats.set_if_absent(name, -1);
    }

    /// A deep copy.
    pub fn duplicate(&self) -> (r: DeviceState)
        requires
            self.wf(),
        ensures
            r.wf(),
            r@ == self@,
    {
        DeviceState {
            axes: self.axes.duplicate(),
            buttons: self.buttons.duplicate(),
            hats: self.hats.duplicate(),
        }
    }
}

} // verus!
