use vstd::prelude::*;

use crate::event::InputKind;
use crate::text::text_of;
use crate::value::AxisValue;

verus! {

/// Polled input source.
pub trait Device {
    /// New deltas since the last poll.
    fn poll(&mut self) -> Vec<InputKind>;

    /// Display name.
    fn name(&self) -> &str;

    /// Persistent id.
    fn id(&self) -> &str;
}

/// A software device: queued deltas come out at the next poll.
pub struct VirtualDevice {
    id: String,
    name: String,
    events: Vec<InputKind>,
}

impl VirtualDevice {
    pub closed spec fn id_spec(self) -> Seq<char> {
        self.id@
    }

    pub closed spec fn name_spec(self) -> Seq<char> {
        self.name@
    }

    /// Deltas waiting for the next poll.
    pub closed spec fn pending(self) -> Seq<InputKind> {
        self.events@
    }

    /// A device with the given id and name and nothing queued.
    pub fn new(id: &str, name: &str) -> (r: VirtualDevice)
        ensures
            r.id_spec() == id@,
            r.name_spec() == name@,
            r.pending().len() == 0,
    {
        VirtualDevice { id: text_of(id), name: text_of(name), events: Vec::new() }
    }

    /// Queues a delta.
    pub fn feed(&mut self, event: InputKind)
        ensures
            final(self).pending() == old(self).pending().push(event),
            final(self).id_spec() == old(self).id_spec(),
            final(self).name_spec() == old(self).name_spec(),
    {
        self.events.push(event);
    }

    /// Queues an axis movement.
    pub fn set_axis(&mut self, axis: u16, value: AxisValue)
        ensures
            final(self).pending() == old(self).pending().push(InputKind::AxisMoved { axis, value }),
            final(self).id_spec() == old(self).id_spec(),
            final(self).name_spec() == old(self).name_spec(),
    {
        self.feed(InputKind::AxisMoved { axis, value });
    }

    /// Queues a button press.
    pub fn press_button(&mut self, button: u16)
        ensures
            final(self).pending() == old(self).pending().push(InputKind::ButtonPressed { button }),
            final(self).id_spec() == old(self).id_spec(),
            final(self).name_spec() == old(self).name_spec(),
    {
        self.feed(InputKind::ButtonPressed { button });
    }

    /// Queues a button release.
    pub fn release_button(&mut self, button: u16)
        ensures
            final(self).pending() == old(self).pending().push(InputKind::ButtonReleased { button }),
            final(self).id_spec() == old(self).id_spec(),
            final(self).name_spec() == old(self).name_spec(),
    {
        self.feed(InputKind::ButtonReleased { button });
    }

    /// Returns the queued deltas, in order, and empties the queue.
    pub fn take_events(&mut self) -> (r: Vec<InputKind>)
        ensures
            r@ == old(self).pending(),
            final(self).pending().len() == 0,
            final(self).id_spec() == old(self).id_spec(),
            final(self).name_spec() == old(self).name_spec(),
    {
        let mut out: Vec<InputKind> = Vec::new();
        std::mem::swap(&mut out, &mut self.events);
        out
    }
}

impl Device for VirtualDevice {
    fn poll(&mut self) -> Vec<InputKind> {
        self.take_events()
    }

    fn name(&self) -> &str {
        self.name.as_str()
    }

    fn id(&self) -> &str {
        self.id.as_str()
    }
}

/// The default software devices: one, `virtual:0`.
pub fn create_virtual_devices() -> (r: Vec<VirtualDevice>)
    ensures
        r@.len() == 1,
        r@[0].id_spec() == "virtual:0"@,
        r@[0].name_spec() == "Virtual Input 0"@,
        r@[0].pending().len() == 0,
{
    let mut v: Vec<VirtualDevice> = Vec::new();
    v.push(VirtualDevice::new("virtual:0", "Virtual Input 0"));
    v
}

} // verus!
