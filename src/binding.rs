use vstd::prelude::*;

use crate::state::{DeviceState, DeviceStateView};
use crate::value::AxisValue;

verus! {

/// Whether a control is read from the axis or the button map.
#[derive(Clone, Copy, Debug, PartialEq, Eq, Hash, Structural)]
pub enum ControlType {
    Axis,
    Button,
}

/// A control of a device: its label and which map it lives in.
#[derive(Clone, Debug, PartialEq, Eq, Hash)]
pub struct ControlPath {
    pub control_id: String,
    pub control_type: ControlType,
}

/// The value of a control in an axis position: an axis reads its value (0 if missing); a
/// button reads 1 when down and 0 otherwise.
pub open spec fn axis_reading(s: DeviceStateView, id: Seq<char>, t: ControlType) -> AxisValue {
    match t {
        ControlType::Axis => if s.axes.contains_key(id) {
            s.axes[id]
        } else {
            AxisValue { num: 0, den: 1 }
        },
        ControlType::Button => if s.buttons.contains_key(id) && s.buttons[id] {
            AxisValue { num: 1, den: 1 }
        } else {
            AxisValue { num: 0, den: 1 }
        },
    }
}

/// The value of a control in a button position: a button reads its state (`false` if
/// missing); an axis reads `false` here, thresholds being the binding layer's business.
pub open spec fn button_reading(s: DeviceStateView, id: Seq<char>, t: ControlType) -> bool {
    match t {
        ControlType::Button => s.buttons.contains_key(id) && s.buttons[id],
        ControlType::Axis => false,
    }
}

/// Reads a control in an axis position.
pub fn read_axis(state: &DeviceState, control: &ControlPath) -> (r: AxisValue)
    requires
        state.wf(),
    ensures
        r == axis_reading(state@, control.control_id@, control.control_type),
{
    match control.control_type {
        ControlType::Axis => state.get_axis(control.control_id.as_str()),
        ControlType::Button => if state.get_button(control.control_id.as_str()) {
            AxisValue { num: 1, den: 1 }
        } else {
            AxisValue::zero()
        },
    }
}

/// Reads a button control.
pub fn read_button(state: &DeviceState, control: &ControlPath) -> (r: bool)
    requires
        state.wf(),
    ensures
        r == button_reading(state@, control.control_id@, control.control_type),
{
    match control.control_type {
        ControlType::Button => state.get_button(control.control_id.as_str()),
        ControlType::Axis => false,
    }
}

} // verus!
