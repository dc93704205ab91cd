use vstd::prelude::*;

use crate::state::{DeviceState, DeviceStateView};

verus! {

/// Owned copy of every device's labelled state at one moment.
pub struct Snapshot {
    entries: Vec<(String, DeviceState)>,
}

impl Snapshot {
    pub open spec fn wf(self) -> bool {
        &&& forall|i: int, j: int| 0 <= i < j < self.entries_spec().len() ==>
            (#[trigger] self.entries_spec()[i]).0@ != (#[trigger] self.entries_spec()[j]).0@
        &&& forall|i: int| 0 <= i < self.entries_spec().len() ==> (#[trigger] self.entries_spec()[i]).1.wf()
    }

    /// Device ids, in the manager's order.
    pub open spec fn ids(self) -> Seq<Seq<char>> {
        Seq::new(self.entries_spec().len(), |i: int| self.entries_spec()[i].0@)
    }

    pub open spec fn has(self, id: Seq<char>) -> bool {
        self.ids().contains(id)
    }

    pub open spec fn state(self, id: Seq<char>) -> DeviceStateView {
        self.entries_spec()[choose|i: int| 0 <= i < self.entries_spec().len() && self.entries_spec()[i].0@ == id].1@
    }

    pub(crate) fn from_entries(entries: Vec<(String, DeviceState)>) -> (r: Snapshot)
        ensures
            r.entries_spec() == entries@,
    {
        Snapshot { entries }
    }

    pub(crate) proof fn lemma_state_at(self, i: int)
        requires
            self.wf(),
            0 <= i < self.entries_spec().len(),
        ensures
            self.state(self.entries_spec()[i].0@) == self.entries_spec()[i].1@,
    {
        let id = self.entries@[i].0@;
        let c = choose|c: int| 0 <= c < self.entries.len() && self.entries@[c].0@ == id;
        if c != i {
            if c < i {
                assert(self.entries@[c].0@ != self.entries@[i].0@);
            } else {
                assert(self.entries@[i].0@ != self.entries@[c].0@);
            }
        }
    }

    pub closed spec fn entries_spec(self) -> Seq<(String, DeviceState)> {
        self.entries@
    }

    /// The state of device `device_id`, if the snapshot holds it.
    pub fn get(&self, device_id: &str) -> (r: Option<&DeviceState>)
        requires
            self.wf(),
        ensures
            match r {
                Some(s) => self.has(device_id@) && s@ == self.state(device_id@) && s.wf(),
                None => !self.has(device_id@),
            },
    {
        let mut i: usize = 0;
        while i < self.entries.len()
            invariant
                self.wf(),
                i <= self.entries.len(),
                forall|j: int| 0 <= j < i ==> (#[trigger] self.entries@[j]).0@ != device_id@,
            decreases self.entries.len() - i,
        {
            if crate::text::str_eq(self.entries[i].0.as_str(), device_id) {
                proof {
                    assert(self.ids()[i as int] == device_id@);
                    let c = choose|c: int| 0 <= c < self.entries.len() && self.entries@[c].0@ == device_id@;
                    if c != i {
                        if c < i {
                            assert(self.entries@[c].0@ != self.entries@[i as int].0@);
                        } else {
                            assert(self.entries@[i as int].0@ != self.entries@[c].0@);
                        }
                    }
                }
                return Some(&self.entries[i].1);
            }
            i += 1;
        }
        proof {
            if self.has(device_id@) {
                let j = choose|j: int| 0 <= j < self.ids().len() && self.ids()[j] == device_id@;
                assert(self.entries@[j].0@ == device_id@);
            }
        }
        None
    }

    /// The `(device_id, state)` pairs, in the manager's order.
    pub fn iter(&self) -> (r: &Vec<(String, DeviceState)>)
        ensures
            r@ == self.entries_spec(),
    {
        &self.entries
    }

    /// The `(device_id, state)` pairs, by value.
    pub fn into_inner(self) -> (r: Vec<(String, DeviceState)>)
        ensures
            r@ == self.entries_spec(),
    {
        self.entries
    }
}

} // verus!
