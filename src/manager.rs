use vstd::prelude::*;

use crate::channel_labels::{ChannelLabels, channel_label, desc_label};
use crate::device::DeviceMeta;
use crate::event::{
    ChannelDesc, ChannelKind, ChannelView, InputEvent, InputKind, channel_of, copy_descs, descs_view,
    events_view,
};
use crate::raw_input::{RawKeyboardPacket, RawMousePacket, key_label, key_label_text, mouse_events, mouse_packet_events, pack_key_index};
use crate::snapshot::Snapshot;
use crate::text::text_of;
use crate::state::{DeviceState, DeviceStateView};
use crate::value::AxisValue;

verus! {

/// What the manager knows of a device besides its state.
pub struct ManagedInfo {
    pub id: String,
    pub name: String,
    pub meta: DeviceMeta,
}

/// A discovered device: its identity and its channel list.
pub struct DeviceEntry {
    pub info: ManagedInfo,
    pub descriptors: Vec<ChannelDesc>,
}

struct DeviceRecord {
    info: ManagedInfo,
    descriptors: Vec<ChannelDesc>,
    labels: ChannelLabels,
    state: DeviceState,
}

/// Ids that appeared and disappeared in a rescan.
pub struct RescanReport {
    pub added: Vec<String>,
    pub removed: Vec<String>,
}

/// Single-threaded owner of the labelled per-device state and of the injected-event queue.
pub struct DeviceManager {
    records: Vec<DeviceRecord>,
    injected: Vec<InputEvent>,
}

/// The neutral value of a channel gets written under its label, unless the label is taken.
pub open spec fn seed_one(s: DeviceStateView, d: ChannelView) -> DeviceStateView {
    let l = desc_label(d);
    match d.kind {
        ChannelKind::Axis => if s.axes.contains_key(l) {
            s
        } else {
            DeviceStateView { axes: s.axes.insert(l, AxisValue { num: 0, den: 1 }), ..s }
        },
        ChannelKind::Button => if s.buttons.contains_key(l) {
            s
        } else {
            DeviceStateView { buttons: s.buttons.insert(l, false), ..s }
        },
        ChannelKind::Hat => if s.hats.contains_key(l) {
            s
        } else {
            DeviceStateView { hats: s.hats.insert(l, -1i16), ..s }
        },
    }
}

/// `s` with every channel of `descs` seeded, in order.
pub open spec fn seed_all(s: DeviceStateView, descs: Seq<ChannelView>) -> DeviceStateView
    decreases descs.len(),
{
    if descs.len() == 0 {
        s
    } else {
        seed_one(seed_all(s, descs.drop_last()), descs.last())
    }
}

/// The label table of one kind after registering `descs` in order; the first label wins.
pub open spec fn labels_of(descs: Seq<ChannelView>, kind: ChannelKind) -> Map<u16, Seq<char>>
    decreases descs.len(),
{
    if descs.len() == 0 {
        Map::empty()
    } else {
        let m = labels_of(descs.drop_last(), kind);
        let d = descs.last();
        if d.kind == kind && !m.contains_key(d.idx) {
            m.insert(d.idx, desc_label(d))
        } else {
            m
        }
    }
}

pub open spec fn empty_state() -> DeviceStateView {
    DeviceStateView { axes: Map::empty(), buttons: Map::empty(), hats: Map::empty() }
}

/// Every value of the state is neutral.
pub open spec fn all_neutral(s: DeviceStateView) -> bool {
    &&& forall|l: Seq<char>| #[trigger] s.axes.contains_key(l) ==> s.axes[l] == AxisValue { num: 0, den: 1 }
    &&& forall|l: Seq<char>| #[trigger] s.buttons.contains_key(l) ==> !s.buttons[l]
    &&& forall|l: Seq<char>| #[trigger] s.hats.contains_key(l) ==> s.hats[l] == -1
}

/// The channel has a key in the proper sub-map of the state.
pub open spec fn has_key_for(s: DeviceStateView, d: ChannelView) -> bool {
    match d.kind {
        ChannelKind::Axis => s.axes.contains_key(desc_label(d)),
        ChannelKind::Button => s.buttons.contains_key(desc_label(d)),
        ChannelKind::Hat => s.hats.contains_key(desc_label(d)),
    }
}

/// The state after one delta, written under the channel's label; unlabelled channels are
/// ignored.
pub open spec fn applied_state(s: DeviceStateView, label: Option<Seq<char>>, k: InputKind) -> DeviceStateView {
    match label {
        None => s,
        Some(l) => match k {
            InputKind::AxisMoved { value, .. } => DeviceStateView { axes: s.axes.insert(l, value), ..s },
            InputKind::ButtonPressed { .. } => DeviceStateView { buttons: s.buttons.insert(l, true), ..s },
            InputKind::ButtonReleased { .. } => DeviceStateView { buttons: s.buttons.insert(l, false), ..s },
            InputKind::HatChanged { value, .. } => DeviceStateView { hats: s.hats.insert(l, value), ..s },
        },
    }
}

pub open spec fn label_in(t: Map<u16, Seq<char>>, idx: u16) -> Option<Seq<char>> {
    if t.contains_key(idx) {
        Some(t[idx])
    } else {
        None
    }
}

proof fn lemma_seed_all_keys(s: DeviceStateView, descs: Seq<ChannelView>)
    ensures
        forall|i: int| 0 <= i < descs.len() ==> has_key_for(seed_all(s, descs), #[trigger] descs[i]),
        all_neutral(s) ==> all_neutral(seed_all(s, descs)),
        forall|l: Seq<char>| #[trigger] s.axes.contains_key(l) ==> seed_all(s, descs).axes.contains_key(l)
            && seed_all(s, descs).axes[l] == s.axes[l],
        forall|l: Seq<char>| #[trigger] s.buttons.contains_key(l) ==> seed_all(s, descs).buttons.contains_key(l)
            && seed_all(s, descs).buttons[l] == s.buttons[l],
        forall|l: Seq<char>| #[trigger] s.hats.contains_key(l) ==> seed_all(s, descs).hats.contains_key(l)
            && seed_all(s, descs).hats[l] == s.hats[l],
    decreases descs.len(),
{
    if descs.len() > 0 {
        lemma_seed_all_keys(s, descs.drop_last());
        let t = seed_all(s, descs.drop_last());
        assert forall|i: int| 0 <= i < descs.len() implies has_key_for(seed_all(s, descs), #[trigger] descs[i]) by {
            if i < descs.len() - 1 {
                assert(descs.drop_last()[i] == descs[i]);
                assert(has_key_for(t, descs[i]));
            }
        }
    }
}


impl DeviceRecord {
    spec fn wf(self) -> bool {
        self.state.wf() && self.labels.wf()
    }
}

/// Builds a device's record: labels from its channels, and its state seeded on `prior`.
fn build_record(info: ManagedInfo, descriptors: Vec<ChannelDesc>, prior: DeviceState) -> (r: DeviceRecord)
    requires
        prior.wf(),
    ensures
        r.wf(),
        r.info.id@ == info.id@,
        descs_view(r.descriptors@) == descs_view(descriptors@),
        r.state@ == seed_all(prior@, descs_view(descriptors@)),
        forall|k: ChannelKind| r.labels.table(k) == labels_of(descs_view(descriptors@), k),
{
    let ghost dv = descs_view(descriptors@);
    let mut labels = ChannelLabels::new();
    let mut state = prior;
    let mut i: usize = 0;
    while i < descriptors.len()
        invariant
            i <= descriptors.len(),
            dv == descs_view(descriptors@),
            state.wf(),
            labels.wf(),
            state@ == seed_all(prior@, dv.take(i as int)),
            forall|k: ChannelKind| labels.table(k) == labels_of(dv.take(i as int), k),
        decreases descriptors.len() - i,
    {
        let d = &descriptors[i];
        let label = channel_label(d.kind, d.idx, &d.name);
        assert(dv.take(i + 1).drop_last() =~= dv.take(i as int));
        assert(dv.take(i + 1).last() == d@);
        match d.kind {
            ChannelKind::Axis => state.seed_axis(label.as_str()),
            ChannelKind::Button => state.seed_button(label.as_str()),
            ChannelKind::Hat => state.seed_hat(label.as_str()),
        }
        labels.set_if_absent(d.kind, d.idx, label);
        i += 1;
        assert forall|k: ChannelKind| labels.table(k) == labels_of(dv.take(i as int), k) by {}
    }
    assert(dv.take(i as int) =~= dv);
    DeviceRecord { info, descriptors, labels, state }
}

impl DeviceManager {
    pub closed spec fn wf(self) -> bool {
        &&& forall|i: int, j: int| 0 <= i < j < self.records.len() ==>
            (#[trigger] self.records@[i]).info.id@ != (#[trigger] self.records@[j]).info.id@
        &&& forall|i: int| 0 <= i < self.records.len() ==> (#[trigger] self.records@[i]).wf()
    }

    /// Device ids, in discovery order.
    pub closed spec fn ids(self) -> Seq<Seq<char>> {
        Seq::new(self.records.len() as nat, |i: int| self.records@[i].info.id@)
    }

    pub open spec fn has(self, id: Seq<char>) -> bool {
        self.ids().contains(id)
    }

    closed spec fn index_of(self, id: Seq<char>) -> int {
        choose|i: int| 0 <= i < self.records.len() && self.records@[i].info.id@ == id
    }

    /// The labelled state of device `id`.
    pub closed spec fn state(self, id: Seq<char>) -> DeviceStateView {
        self.records@[self.index_of(id)].state@
    }

    /// The label table of one kind of channel of device `id`.
    pub closed spec fn labels(self, id: Seq<char>, kind: ChannelKind) -> Map<u16, Seq<char>> {
        self.records@[self.index_of(id)].labels.table(kind)
    }

    /// The channel list of device `id`.
    pub closed spec fn channels_of(self, id: Seq<char>) -> Seq<ChannelView> {
        descs_view(self.records@[self.index_of(id)].descriptors@)
    }

    /// Injected events waiting for the next `poll_events`.
    pub closed spec fn queue(self) -> Seq<(Seq<char>, InputKind)> {
        events_view(self.injected@)
    }

    /// The label under which a delta of device `id` is stored, if any.
    pub open spec fn label_for(self, id: Seq<char>, k: InputKind) -> Option<Seq<char>> {
        label_in(self.labels(id, channel_of(k).0), channel_of(k).1)
    }

    proof fn lemma_index_of(self, i: int)
        requires
            self.wf(),
            0 <= i < self.records.len(),
        ensures
            self.index_of(self.records@[i].info.id@) == i,
            self.has(self.records@[i].info.id@),
    {
        let id = self.records@[i].info.id@;
        assert(self.ids()[i] == id);
        let j = self.index_of(id);
        if j != i {
            if j < i {
                assert(self.records@[j].info.id@ != self.records@[i].info.id@);
            } else {
                assert(self.records@[i].info.id@ != self.records@[j].info.id@);
            }
        }
    }

    fn find(&self, id: &str) -> (r: Option<usize>)
        requires
            self.wf(),
        ensures
            match r {
                Some(i) => i < self.records.len() && self.records@[i as int].info.id@ == id@
                    && self.index_of(id@) == i && self.has(id@),
                None => !self.has(id@),
            },
    {
        let mut i: usize = 0;
        while i < self.records.len()
            invariant
                i <= self.records.len(),
                self.wf(),
                forall|j: int| 0 <= j < i ==> (#[trigger] self.records@[j]).info.id@ != id@,
            decreases self.records.len() - i,
        {
            if crate::text::str_eq(self.records[i].info.id.as_str(), id) {
                proof {
                    self.lemma_index_of(i as int);
                }
                return Some(i);
            }
            i += 1;
        }
        proof {
            if self.has(id@) {
                let j = choose|j: int| 0 <= j < self.ids().len() && self.ids()[j] == id@;
                assert(self.records@[j].info.id@ == id@);
            }
        }
        None
    }
}


/// The state of device `id` after applying `evs` in order to `m`.
pub open spec fn state_after(m: DeviceManager, evs: Seq<(Seq<char>, InputKind)>, id: Seq<char>) -> DeviceStateView
    decreases evs.len(),
{
    if evs.len() == 0 {
        m.state(id)
    } else {
        let s = state_after(m, evs.drop_last(), id);
        let e = evs.last();
        if e.0 == id && m.has(id) {
            applied_state(s, m.label_for(id, e.1), e.1)
        } else {
            s
        }
    }
}

impl DeviceManager {
    /// Everything but the states and the queue is the same in `self` and `o`.
    pub open spec fn same_devices(self, o: DeviceManager) -> bool {
        &&& self.ids() == o.ids()
        &&& forall|id: Seq<char>, k: ChannelKind| o.has(id) ==> #[trigger] self.labels(id, k) == o.labels(id, k)
        &&& forall|id: Seq<char>| o.has(id) ==> #[trigger] self.channels_of(id) == o.channels_of(id)
    }

    /// Every known device other than `id` has the same state, labels and channels in
    /// `self` as in `o`.
    pub open spec fn others_unchanged(self, o: DeviceManager, id: Seq<char>) -> bool {
        forall|d: Seq<char>| d != id && o.has(d) ==> {
            &&& #[trigger] self.state(d) == o.state(d)
            &&& self.channels_of(d) == o.channels_of(d)
            &&& forall|k: ChannelKind| #[trigger] self.labels(d, k) == o.labels(d, k)
        }
    }

    /// A manager with no devices.
    pub fn empty() -> (r: DeviceManager)
        ensures
            r.wf(),
            r.ids().len() == 0,
            r.queue().len() == 0,
    {
        let r = DeviceManager { records: Vec::new(), injected: Vec::new() };
        assert(r.ids() =~= Seq::<Seq<char>>::empty());
        assert(r.queue() =~= Seq::<(Seq<char>, InputKind)>::empty());
        r
    }

    /// Registers a device with a neutral state; a device whose id is already known is ignored.
    pub fn add_device(&mut self, entry: DeviceEntry)
        requires
            old(self).wf(),
        ensures
            final(self).wf(),
            final(self).queue() == old(self).queue(),
            old(self).has(entry.info.id@) ==> *final(self) == *old(self),
            !old(self).has(entry.info.id@) ==> final(self).ids() == old(self).ids().push(entry.info.id@),
            !old(self).has(entry.info.id@) ==> final(self).state(entry.info.id@) == seed_all(empty_state(), descs_view(entry.descriptors@)),
            !old(self).has(entry.info.id@) ==> final(self).channels_of(entry.info.id@) == descs_view(entry.descriptors@),
            !old(self).has(entry.info.id@) ==> forall|k: ChannelKind| #[trigger] final(self).labels(entry.info.id@, k) == labels_of(descs_view(entry.descriptors@), k),
            final(self).others_unchanged(*old(self), entry.info.id@),
    {
        self.add_seeded(entry, DeviceState::new());
    }

    /// Registers a device whose state is `prior` seeded from its channels; a device whose id
    /// is already known is ignored.
    fn add_seeded(&mut self, entry: DeviceEntry, prior: DeviceState)
        requires
            old(self).wf(),
            prior.wf(),
        ensures
            final(self).wf(),
            final(self).queue() == old(self).queue(),
            old(self).has(entry.info.id@) ==> *final(self) == *old(self),
            !old(self).has(entry.info.id@) ==> final(self).ids() == old(self).ids().push(entry.info.id@),
            !old(self).has(entry.info.id@) ==> final(self).state(entry.info.id@) == seed_all(prior@, descs_view(entry.descriptors@)),
            !old(self).has(entry.info.id@) ==> final(self).channels_of(entry.info.id@) == descs_view(entry.descriptors@),
            !old(self).has(entry.info.id@) ==> forall|k: ChannelKind| #[trigger] final(self).labels(entry.info.id@, k) == labels_of(descs_view(entry.descriptors@), k),
            final(self).others_unchanged(*old(self), entry.info.id@),
    {
        let found = self.find(entry.info.id.as_str());
        match found {
            Some(_) => {
                assert(old(self).has(entry.info.id@));
                assert(self.same_devices(*old(self)));
                assert forall|o: Seq<char>| o != entry.info.id@ && old(self).has(o) implies {
                    &&& #[trigger] self.state(o) == old(self).state(o)
                    &&& self.channels_of(o) == old(self).channels_of(o)
                    &&& forall|k: ChannelKind| #[trigger] self.labels(o, k) == old(self).labels(o, k)
                } by {}
            },
            None => {
                assert(!old(self).has(entry.info.id@));
                let ghost old_self = *self;
                let ghost id = entry.info.id@;
                let DeviceEntry { info, descriptors } = entry;
                let rec = build_record(info, descriptors, prior);
                self.records.push(rec);
                let n = self.records.len() - 1;
                proof {
                    assert forall|i: int, j: int| 0 <= i < j < self.records.len() implies
                        (#[trigger] self.records@[i]).info.id@ != (#[trigger] self.records@[j]).info.id@ by {
                        if j == n {
                            assert(old_self.ids()[i] == self.records@[i].info.id@);
                            assert(!old_self.ids().contains(id));
                        }
                    }
                    assert(self.wf());
                    assert(self.ids() =~= old_self.ids().push(id));
                    self.lemma_index_of(n as int);
                    assert(self.index_of(id) == n);
                    assert(self.state(id) == seed_all(prior@, descs_view(entry.descriptors@)));
                    assert(self.channels_of(id) == descs_view(entry.descriptors@));
                    assert forall|k: ChannelKind| #[trigger] self.labels(id, k) == labels_of(descs_view(entry.descriptors@), k) by {}
                    assert(self.ids() == old_self.ids().push(id));
                    assert forall|o: Seq<char>| o != id && old_self.has(o) implies {
                        &&& #[trigger] self.state(o) == old_self.state(o)
                        &&& self.channels_of(o) == old_self.channels_of(o)
                        &&& forall|k: ChannelKind| #[trigger] self.labels(o, k) == old_self.labels(o, k)
                    } by {
                        let j = choose|j: int| 0 <= j < old_self.ids().len() && old_self.ids()[j] == o;
                        assert(old_self.records@[j].info.id@ == o);
                        old_self.lemma_index_of(j);
                        self.lemma_index_of(j);
                    }
                    assert(old_self == *old(self));
                    assert(self.queue() == old(self).queue());
                }
            },
        }
    }
}


impl DeviceManager {
    /// Every known device holds a key for each of its channels, and (when `neutral`) only
    /// neutral values.
    pub open spec fn seeded(self, neutral: bool) -> bool {
        forall|id: Seq<char>| #[trigger] self.has(id) ==> {
            &&& (neutral ==> all_neutral(self.state(id)))
            &&& forall|k: int| 0 <= k < self.channels_of(id).len() ==>
                has_key_for(self.state(id), #[trigger] self.channels_of(id)[k])
        }
    }

    /// A manager over the given devices, each with a neutral state seeded from its channels.
    ///
    /// A device whose id repeats an earlier one is left out.
    pub fn from_devices(entries: Vec<DeviceEntry>) -> (r: DeviceManager)
        ensures
            r.wf(),
            r.queue().len() == 0,
            r.seeded(true),
            forall|i: int| 0 <= i < entries.len() ==> r.has(#[trigger] entries@[i].info.id@),
            forall|id: Seq<char>| #[trigger] r.has(id) ==> exists|i: int|
                0 <= i < entries.len() && entries@[i].info.id@ == id
                    && r.channels_of(id) == descs_view(entries@[i].descriptors@)
                    && r.state(id) == seed_all(empty_state(), descs_view(entries@[i].descriptors@)),
    {
        let ghost all = entries@;
        let mut rest = entries;
        let mut m = DeviceManager::empty();
        let mut n: usize = 0;
        let total = rest.len();
        while rest.len() > 0
            invariant
                m.wf(),
                m.queue().len() == 0,
                m.seeded(true),
                n + rest.len() == total,
                total == all.len(),
                rest@ == all.subrange(n as int, total as int),
                forall|i: int| 0 <= i < n ==> m.has(#[trigger] all[i].info.id@),
                forall|id: Seq<char>| #[trigger] m.has(id) ==> exists|i: int|
                    0 <= i < n && all[i].info.id@ == id
                        && m.channels_of(id) == descs_view(all[i].descriptors@)
                        && m.state(id) == seed_all(empty_state(), descs_view(all[i].descriptors@)),
            decreases rest.len(),
        {
            let e = rest.remove(0);
            let ghost prev = m;
            let ghost eid = e.info.id@;
            let ghost edv = descs_view(e.descriptors@);
            assert(e == all[n as int]);
            m.add_device(e);
            proof {
                lemma_seed_all_keys(empty_state(), edv);
                assert forall|id: Seq<char>| #[trigger] m.has(id) implies {
                    &&& all_neutral(m.state(id))
                    &&& forall|k: int| 0 <= k < m.channels_of(id).len() ==>
                        has_key_for(m.state(id), #[trigger] m.channels_of(id)[k])
                } by {
                    if id == eid && !prev.has(eid) {
                    } else if id == eid {
                        assert(prev.has(id));
                    } else {
                        assert(prev.has(id)) by {
                            if !prev.has(eid) {
                                assert(m.ids() == prev.ids().push(eid));
                                let j = choose|j: int| 0 <= j < m.ids().len() && m.ids()[j] == id;
                                assert(prev.ids()[j] == id);
                            }
                        }
                    }
                }
                assert forall|i: int| 0 <= i < n + 1 implies m.has(#[trigger] all[i].info.id@) by {
                    if i < n {
                        let id = all[i].info.id@;
                        assert(prev.has(id));
                        if !prev.has(eid) {
                            assert(m.ids() == prev.ids().push(eid));
                            let j = choose|j: int| 0 <= j < prev.ids().len() && prev.ids()[j] == id;
                            assert(m.ids()[j] == id);
                        }
                    } else {
                        if !prev.has(eid) {
                            assert(m.ids() == prev.ids().push(eid));
                            assert(m.ids()[prev.ids().len() as int] == eid);
                        }
                    }
                }
                assert forall|id: Seq<char>| #[trigger] m.has(id) implies exists|i: int|
                    0 <= i < n + 1 && all[i].info.id@ == id
                        && m.channels_of(id) == descs_view(all[i].descriptors@)
                        && m.state(id) == seed_all(empty_state(), descs_view(all[i].descriptors@)) by {
                    if id == eid && !prev.has(eid) {
                        assert(all[n as int].info.id@ == id);
                    } else {
                        assert(prev.has(id)) by {
                            if !prev.has(eid) {
                                assert(m.ids() == prev.ids().push(eid));
                                let j = choose|j: int| 0 <= j < m.ids().len() && m.ids()[j] == id;
                                assert(prev.ids()[j] == id);
                            }
                        }
                    }
                }
            }
            n += 1;
            assert(rest@ =~= all.subrange(n as int, total as int));
        }
        m
    }
}


impl DeviceManager {
    /// `self` is `o` with delta `k` of device `id` applied.
    pub open spec fn applied_from(self, o: DeviceManager, id: Seq<char>, k: InputKind) -> bool {
        forall|d: Seq<char>| #[trigger] o.has(d) ==> self.state(d) == (if d == id {
            applied_state(o.state(d), o.label_for(d, k), k)
        } else {
            o.state(d)
        })
    }

    /// Writes a delta of device `id` into its state, under the channel's label. A delta of
    /// an unknown device or an unlabelled channel changes nothing.
    pub fn apply_event(&mut self, id: &str, kind: InputKind)
        requires
            old(self).wf(),
        ensures
            final(self).wf(),
            final(self).queue() == old(self).queue(),
            final(self).same_devices(*old(self)),
            final(self).applied_from(*old(self), id@, kind),
    {
        let ghost s0 = *self;
        let i = match self.find(id) {
            Some(i) => i,
            None => {
                assert(self.same_devices(s0));
                return;
            },
        };
        let (ck, idx): (ChannelKind, u16) = match kind {
            InputKind::AxisMoved { axis, .. } => (ChannelKind::Axis, axis),
            InputKind::ButtonPressed { button } => (ChannelKind::Button, button),
            InputKind::ButtonReleased { button } => (ChannelKind::Button, button),
            InputKind::HatChanged { hat, .. } => (ChannelKind::Hat, hat),
        };
        let label = match self.records[i].labels.get(ck, idx) {
            Some(l) => l.clone(),
            None => {
                assert(self.same_devices(s0));
                return;
            },
        };
        let mut rec = self.records.remove(i);
        match kind {
            InputKind::AxisMoved { value, .. } => rec.state.set_axis(label.as_str(), value),
            InputKind::ButtonPressed { .. } => rec.state.set_button(label.as_str(), true),
            InputKind::ButtonReleased { .. } => rec.state.set_button(label.as_str(), false),
            InputKind::HatChanged { value, .. } => rec.state.set_hat(label.as_str(), value),
        }
        self.records.insert(i, rec);
        proof {
            assert(self.records@ =~= s0.records@.update(i as int, rec));
            assert(self.wf()) by {
                assert forall|a: int, b: int| 0 <= a < b < self.records.len() implies
                    (#[trigger] self.records@[a]).info.id@ != (#[trigger] self.records@[b]).info.id@ by {
                    assert(s0.records@[a].info.id@ != s0.records@[b].info.id@);
                }
            }
            assert(self.ids() =~= s0.ids());
            assert forall|d: Seq<char>| #[trigger] s0.has(d) implies self.index_of(d) == s0.index_of(d) by {
                let j = choose|j: int| 0 <= j < s0.ids().len() && s0.ids()[j] == d;
                assert(s0.records@[j].info.id@ == d);
                s0.lemma_index_of(j);
                self.lemma_index_of(j);
            }
            assert(self.same_devices(s0));
        }
    }

    /// Applies each event in order, then drains the injected queue, applying each queued
    /// event after the device events. Returns the device events followed by the injected ones.
    pub fn poll_events(&mut self, device_events: Vec<InputEvent>) -> (r: Vec<InputEvent>)
        requires
            old(self).wf(),
        ensures
            final(self).wf(),
            events_view(r@) == events_view(device_events@) + old(self).queue(),
            final(self).queue().len() == 0,
            final(self).same_devices(*old(self)),
            final(self).states_after(*old(self), events_view(r@)),
    {
        let mut all = device_events;
        let ghost dv = events_view(all@);
        let ghost qv = self.queue();
        all.append(&mut self.injected);
        assert(events_view(all@) =~= dv + qv);
        assert(self.queue() =~= Seq::<(Seq<char>, InputKind)>::empty());
        let ghost mid = *self;
        self.apply_all(&all);
        proof {
            assert forall|d: Seq<char>| #[trigger] old(self).has(d) implies self.state(d) == state_after(*old(self), events_view(all@), d) by {
                lemma_state_after_same_records(mid, *old(self), events_view(all@), d);
            }
        }
        all
    }

    /// Applies the device events in order, leaving the injected queue as it is.
    pub fn poll_all(&mut self, device_events: Vec<InputEvent>) -> (r: Vec<InputEvent>)
        requires
            old(self).wf(),
        ensures
            final(self).wf(),
            events_view(r@) == events_view(device_events@),
            final(self).queue() == old(self).queue(),
            final(self).same_devices(*old(self)),
            final(self).states_after(*old(self), events_view(r@)),
    {
        self.apply_all(&device_events);
        device_events
    }

    /// Every known device's state in `self` is its state in `o` after `evs`.
    pub open spec fn states_after(self, o: DeviceManager, evs: Seq<(Seq<char>, InputKind)>) -> bool {
        forall|d: Seq<char>| #[trigger] o.has(d) ==> self.state(d) == state_after(o, evs, d)
    }

    fn apply_all(&mut self, evs: &Vec<InputEvent>)
        requires
            old(self).wf(),
        ensures
            final(self).wf(),
            final(self).queue() == old(self).queue(),
            final(self).same_devices(*old(self)),
            final(self).states_after(*old(self), events_view(evs@)),
    {
        let ghost s0 = *self;
        let ghost ev = events_view(evs@);
        let mut i: usize = 0;
        while i < evs.len()
            invariant
                self.wf(),
                s0.wf(),
                i <= evs.len(),
                ev == events_view(evs@),
                self.queue() == s0.queue(),
                self.same_devices(s0),
                self.states_after(s0, ev.take(i as int)),
            decreases evs.len() - i,
        {
            let ghost before = *self;
            let e = &evs[i];
            self.apply_event(e.device_id.as_str(), e.kind);
            proof {
                assert(ev.take(i + 1).drop_last() =~= ev.take(i as int));
                assert(ev.take(i + 1).last() == e@);
                assert forall|d: Seq<char>| #[trigger] s0.has(d) implies self.state(d) == state_after(s0, ev.take(i + 1), d) by {
                    assert(before.has(d));
                    assert(before.labels(d, channel_of(e.kind).0) == s0.labels(d, channel_of(e.kind).0));
                }
                assert forall|d: Seq<char>, k: ChannelKind| s0.has(d) implies #[trigger] self.labels(d, k) == s0.labels(d, k) by {
                    assert(before.has(d));
                }
                assert forall|d: Seq<char>| s0.has(d) implies #[trigger] self.channels_of(d) == s0.channels_of(d) by {
                    assert(before.has(d));
                }
            }
            i += 1;
        }
        assert(ev.take(i as int) =~= ev);
    }
}


proof fn lemma_state_after_same_records(a: DeviceManager, b: DeviceManager, evs: Seq<(Seq<char>, InputKind)>, d: Seq<char>)
    requires
        a.records@ == b.records@,
    ensures
        state_after(a, evs, d) == state_after(b, evs, d),
    decreases evs.len(),
{
    assert(a.ids() =~= b.ids());
    if evs.len() > 0 {
        lemma_state_after_same_records(a, b, evs.drop_last(), d);
    }
}


impl DeviceManager {
    /// An owned copy of every device's state; nothing is polled.
    pub fn snapshot(&self) -> (r: Snapshot)
        requires
            self.wf(),
        ensures
            r.wf(),
            r.ids() == self.ids(),
            forall|d: Seq<char>| #[trigger] self.has(d) ==> r.state(d) == self.state(d),
    {
        let mut entries: Vec<(String, DeviceState)> = Vec::new();
        let mut i: usize = 0;
        while i < self.records.len()
            invariant
                self.wf(),
                i <= self.records.len(),
                entries.len() == i,
                forall|j: int| 0 <= j < i ==> (#[trigger] entries@[j]).0@ == self.records@[j].info.id@
                    && entries@[j].1@ == self.records@[j].state@ && entries@[j].1.wf(),
            decreases self.records.len() - i,
        {
            let rec = &self.records[i];
            entries.push((rec.info.id.clone(), rec.state.duplicate()));
            i += 1;
        }
        let r = Snapshot::from_entries(entries);
        proof {
            assert(r.ids() =~= self.ids());
            assert forall|a: int, b: int| 0 <= a < b < r.entries_spec().len() implies
                (#[trigger] r.entries_spec()[a]).0@ != (#[trigger] r.entries_spec()[b]).0@ by {
                assert(self.records@[a].info.id@ != self.records@[b].info.id@);
            }
            assert(r.wf());
            assert forall|d: Seq<char>| #[trigger] self.has(d) implies r.state(d) == self.state(d) by {
                let j = choose|j: int| 0 <= j < self.ids().len() && self.ids()[j] == d;
                assert(self.records@[j].info.id@ == d);
                self.lemma_index_of(j);
                r.lemma_state_at(j);
            }
        }
        r
    }
}


/// Every value of `old` is kept in `new`.
pub open spec fn preserves(new: DeviceStateView, old: DeviceStateView) -> bool {
    &&& forall|l: Seq<char>| #[trigger] old.axes.contains_key(l) ==> new.axes.contains_key(l) && new.axes[l] == old.axes[l]
    &&& forall|l: Seq<char>| #[trigger] old.buttons.contains_key(l) ==> new.buttons.contains_key(l) && new.buttons[l] == old.buttons[l]
    &&& forall|l: Seq<char>| #[trigger] old.hats.contains_key(l) ==> new.hats.contains_key(l) && new.hats[l] == old.hats[l]
}

/// The ids of `new`, in its order, that `old` does not hold.
pub open spec fn appeared(old: DeviceManager, new: DeviceManager) -> Seq<Seq<char>> {
    new.ids().filter(|d: Seq<char>| !old.has(d))
}

pub open spec fn strings_view(s: Seq<String>) -> Seq<Seq<char>> {
    s.map_values(|x: String| x@)
}

impl DeviceManager {
    /// The state a rescanned device starts from: its previous state if it was known.
    pub open spec fn prior_state(self, id: Seq<char>) -> DeviceStateView {
        if self.has(id) {
            self.state(id)
        } else {
            empty_state()
        }
    }

    /// `self` holds exactly the devices of `entries` (first of each id), each with its state
    /// seeded on `old`'s.
    pub open spec fn rescanned_from(self, old: DeviceManager, entries: Seq<DeviceEntry>) -> bool {
        &&& forall|i: int| 0 <= i < entries.len() ==> self.has(#[trigger] entries[i].info.id@)
        &&& forall|id: Seq<char>| #[trigger] self.has(id) ==> exists|i: int|
            0 <= i < entries.len() && entries[i].info.id@ == id
                && self.channels_of(id) == descs_view(entries[i].descriptors@)
                && self.state(id) == seed_all(old.prior_state(id), descs_view(entries[i].descriptors@))
    }

    /// Every device present before and after keeps all its values.
    pub open spec fn keeps_surviving_states(self, old: DeviceManager) -> bool {
        forall|id: Seq<char>| #[trigger] old.has(id) && self.has(id) ==> preserves(self.state(id), old.state(id))
    }

    /// Replaces the device set with a new probe result.
    ///
    /// A device present before keeps its state, with neutral values added for channels
    /// that are new; a new device starts neutral. The report lists the ids that appeared,
    /// in the new order, and those that went away, in the old order. The injected queue
    /// is kept.
    pub fn rescan(&mut self, entries: Vec<DeviceEntry>) -> (r: RescanReport)
        requires
            old(self).wf(),
        ensures
            final(self).wf(),
            final(self).queue() == old(self).queue(),
            final(self).rescanned_from(*old(self), entries@),
            final(self).keeps_surviving_states(*old(self)),
            strings_view(r.added@) == appeared(*old(self), *final(self)),
            strings_view(r.removed@) == appeared(*final(self), *old(self)),
    {
        let ghost all = entries@;
        let ghost s0 = *self;
        let mut rest = entries;
        let mut m = DeviceManager::empty();
        let mut n: usize = 0;
        let total = rest.len();
        while rest.len() > 0
            invariant
                self.wf(),
                *self == s0,
                m.wf(),
                m.queue().len() == 0,
                n + rest.len() == total,
                total == all.len(),
                rest@ == all.subrange(n as int, total as int),
                forall|i: int| 0 <= i < n ==> m.has(#[trigger] all[i].info.id@),
                forall|id: Seq<char>| #[trigger] m.has(id) ==> exists|i: int|
                    0 <= i < n && all[i].info.id@ == id
                        && m.channels_of(id) == descs_view(all[i].descriptors@)
                        && m.state(id) == seed_all(s0.prior_state(id), descs_view(all[i].descriptors@)),
            decreases rest.len(),
        {
            let e = rest.remove(0);
            let ghost prev = m;
            let ghost eid = e.info.id@;
            assert(e == all[n as int]);
            let prior = match self.find(e.info.id.as_str()) {
                Some(i) => self.records[i].state.duplicate(),
                None => DeviceState::new(),
            };
            assert(prior@ == s0.prior_state(eid));
            m.add_seeded(e, prior);
            proof {
                assert forall|i: int| 0 <= i < n + 1 implies m.has(#[trigger] all[i].info.id@) by {
                    if i < n {
                        let id = all[i].info.id@;
                        assert(prev.has(id));
                        if !prev.has(eid) {
                            assert(m.ids() == prev.ids().push(eid));
                            let j = choose|j: int| 0 <= j < prev.ids().len() && prev.ids()[j] == id;
                            assert(m.ids()[j] == id);
                        }
                    } else {
                        if !prev.has(eid) {
                            assert(m.ids() == prev.ids().push(eid));
                            assert(m.ids()[prev.ids().len() as int] == eid);
                        }
                    }
                }
                assert forall|id: Seq<char>| #[trigger] m.has(id) implies exists|i: int|
                    0 <= i < n + 1 && all[i].info.id@ == id
                        && m.channels_of(id) == descs_view(all[i].descriptors@)
                        && m.state(id) == seed_all(s0.prior_state(id), descs_view(all[i].descriptors@)) by {
                    if id == eid && !prev.has(eid) {
                        assert(all[n as int].info.id@ == id);
                        assert(m.channels_of(id) == descs_view(all[n as int].descriptors@));
                        assert(m.state(id) == seed_all(s0.prior_state(id), descs_view(all[n as int].descriptors@)));
                    } else {
                        assert(prev.has(id)) by {
                            if !prev.has(eid) {
                                assert(m.ids() == prev.ids().push(eid));
                                let j = choose|j: int| 0 <= j < m.ids().len() && m.ids()[j] == id;
                                assert(prev.ids()[j] == id);
                            }
                        }
                        let i = choose|i: int| 0 <= i < n && all[i].info.id@ == id
                            && prev.channels_of(id) == descs_view(all[i].descriptors@)
                            && prev.state(id) == seed_all(s0.prior_state(id), descs_view(all[i].descriptors@));
                        assert(m.state(id) == prev.state(id));
                        assert(m.channels_of(id) == prev.channels_of(id));
                    }
                }
            }
            n += 1;
            assert(rest@ =~= all.subrange(n as int, total as int));
        }
        assert(m.rescanned_from(s0, all));
        // Ids that appeared.
        let ghost fa = |d: Seq<char>| !s0.has(d);
        let mut added: Vec<String> = Vec::new();
        let mut i: usize = 0;
        while i < m.records.len()
            invariant
                self.wf(),
                *self == s0,
                m.wf(),
                i <= m.records.len(),
                fa == (|d: Seq<char>| !s0.has(d)),
                m.rescanned_from(s0, all),
                m.queue().len() == 0,
                strings_view(added@) == m.ids().take(i as int).filter(fa),
            decreases m.records.len() - i,
        {
            let id = &m.records[i].info.id;
            assert(m.ids().take(i + 1) =~= m.ids().take(i as int).push(id@));
            proof {
                m.ids().take(i as int).lemma_filter_push(id@, fa);
            }
            if self.find(id.as_str()).is_none() {
                added.push(id.clone());
            }
            i += 1;
            assert(strings_view(added@) =~= m.ids().take(i as int).filter(fa));
        }
        assert(m.ids().take(i as int) =~= m.ids());
        // Ids that went away.
        let ghost fr = |d: Seq<char>| !m.has(d);
        let mut removed: Vec<String> = Vec::new();
        let mut i: usize = 0;
        while i < self.records.len()
            invariant
                self.wf(),
                *self == s0,
                m.wf(),
                i <= self.records.len(),
                fr == (|d: Seq<char>| !m.has(d)),
                m.rescanned_from(s0, all),
                m.queue().len() == 0,
                strings_view(added@) == m.ids().filter(fa),
                strings_view(removed@) == s0.ids().take(i as int).filter(fr),
            decreases self.records.len() - i,
        {
            let id = &self.records[i].info.id;
            assert(s0.ids().take(i + 1) =~= s0.ids().take(i as int).push(id@));
            proof {
                s0.ids().take(i as int).lemma_filter_push(id@, fr);
            }
            if m.find(id.as_str()).is_none() {
                removed.push(id.clone());
            }
            i += 1;
            assert(strings_view(removed@) =~= s0.ids().take(i as int).filter(fr));
        }
        assert(s0.ids().take(i as int) =~= s0.ids());
        let ghost m0 = m;
        std::mem::swap(&mut m.injected, &mut self.injected);
        assert(m.records == m0.records);
        assert(m.ids() == m0.ids());
        assert(forall|d: Seq<char>| #[trigger] m.has(d) == m0.has(d));
        assert((|d: Seq<char>| !m.has(d)) =~= fr);
        assert(appeared(m, s0) == s0.ids().filter(fr));
        proof {
            assert forall|id: Seq<char>| #[trigger] s0.has(id) && m.has(id) implies preserves(m.state(id), s0.state(id)) by {
                let i = choose|i: int| 0 <= i < all.len() && all[i].info.id@ == id
                    && m.channels_of(id) == descs_view(all[i].descriptors@)
                    && m.state(id) == seed_all(s0.prior_state(id), descs_view(all[i].descriptors@));
                lemma_seed_all_keys(s0.state(id), descs_view(all[i].descriptors@));
            }
        }
        *self = m;
        RescanReport { added, removed }
    }
}


/// The fixed channels of an injected mouse: axes dx, dy, wheel, hwheel; buttons L, R, M, X1, X2.
pub open spec fn mouse_channels() -> Seq<ChannelView> {
    seq![
        ChannelView { kind: ChannelKind::Axis, idx: 0, name: Some("dx"@), logical_min: -1i32, logical_max: 1, usage_page: None, usage: None },
        ChannelView { kind: ChannelKind::Axis, idx: 1, name: Some("dy"@), logical_min: -1i32, logical_max: 1, usage_page: None, usage: None },
        ChannelView { kind: ChannelKind::Axis, idx: 2, name: Some("wheel"@), logical_min: -1i32, logical_max: 1, usage_page: None, usage: None },
        ChannelView { kind: ChannelKind::Axis, idx: 3, name: Some("hwheel"@), logical_min: -1i32, logical_max: 1, usage_page: None, usage: None },
        ChannelView { kind: ChannelKind::Button, idx: 0, name: Some("L"@), logical_min: 0, logical_max: 1, usage_page: None, usage: None },
        ChannelView { kind: ChannelKind::Button, idx: 1, name: Some("R"@), logical_min: 0, logical_max: 1, usage_page: None, usage: None },
        ChannelView { kind: ChannelKind::Button, idx: 2, name: Some("M"@), logical_min: 0, logical_max: 1, usage_page: None, usage: None },
        ChannelView { kind: ChannelKind::Button, idx: 3, name: Some("X1"@), logical_min: 0, logical_max: 1, usage_page: None, usage: None },
        ChannelView { kind: ChannelKind::Button, idx: 4, name: Some("X2"@), logical_min: 0, logical_max: 1, usage_page: None, usage: None },
    ]
}

fn named_desc(kind: ChannelKind, idx: u16, name: &str, lo: i32, hi: i32) -> (r: ChannelDesc)
    ensures
        r@ == (ChannelView { kind, idx, name: Some(name@), logical_min: lo, logical_max: hi, usage_page: None, usage: None }),
{
    ChannelDesc { kind, idx, name: Some(text_of(name)), logical_min: lo, logical_max: hi, usage_page: None, usage: None }
}

fn mouse_descs() -> (r: Vec<ChannelDesc>)
    ensures
        descs_view(r@) == mouse_channels(),
{
    let mut out: Vec<ChannelDesc> = Vec::new();
    out.push(named_desc(ChannelKind::Axis, 0, "dx", -1, 1));
    out.push(named_desc(ChannelKind::Axis, 1, "dy", -1, 1));
    out.push(named_desc(ChannelKind::Axis, 2, "wheel", -1, 1));
    out.push(named_desc(ChannelKind::Axis, 3, "hwheel", -1, 1));
    out.push(named_desc(ChannelKind::Button, 0, "L", 0, 1));
    out.push(named_desc(ChannelKind::Button, 1, "R", 0, 1));
    out.push(named_desc(ChannelKind::Button, 2, "M", 0, 1));
    out.push(named_desc(ChannelKind::Button, 3, "X1", 0, 1));
    out.push(named_desc(ChannelKind::Button, 4, "X2", 0, 1));
    assert(descs_view(out@) =~= mouse_channels());
    out
}

fn raw_meta() -> DeviceMeta {
    DeviceMeta {
        bus: Some(text_of("rawinput")),
        vid: None,
        pid: None,
        product_string: None,
        serial_number: None,
        interface_number: None,
        usage_page: None,
        usage: None,
        path: None,
        container_id: None,
    }
}

/// The key index and delta of a keyboard packet.
pub open spec fn key_event(p: RawKeyboardPacket) -> InputKind {
    let key = ((p.scancode as int % 0x8000) + (if p.is_extended { 0x8000int } else { 0 })) as u16;
    if p.is_break {
        InputKind::ButtonReleased { button: key }
    } else {
        InputKind::ButtonPressed { button: key }
    }
}

pub open spec fn tagged(id: Seq<char>, ks: Seq<InputKind>) -> Seq<(Seq<char>, InputKind)> {
    ks.map_values(|k: InputKind| (id, k))
}

impl DeviceManager {
    /// Registers `id` with `descs` unless it is known; returns its position.
    fn ensure_device(&mut self, id: &String, descs: Vec<ChannelDesc>) -> (r: usize)
        requires
            old(self).wf(),
        ensures
            final(self).wf(),
            final(self).queue() == old(self).queue(),
            final(self).has(id@),
            r < final(self).records.len(),
            final(self).records@[r as int].info.id@ == id@,
            final(self).index_of(id@) == r,
            old(self).has(id@) ==> final(self).state(id@) == old(self).state(id@),
            !old(self).has(id@) ==> final(self).state(id@) == seed_all(empty_state(), descs_view(descs@)),
            !old(self).has(id@) ==> final(self).channels_of(id@) == descs_view(descs@),
            !old(self).has(id@) ==> forall|k: ChannelKind| #[trigger] final(self).labels(id@, k) == labels_of(descs_view(descs@), k),
            old(self).has(id@) ==> *final(self) == *old(self),
            final(self).others_unchanged(*old(self), id@),
            old(self).ids().is_prefix_of(final(self).ids()),
    {
        let ghost s0 = *self;
        match self.find(id.as_str()) {
            Some(i) => {
                assert(self.others_unchanged(s0, id@));
                assert(s0.ids().is_prefix_of(self.ids()));
                i
            },
            None => {
                let info = ManagedInfo { id: id.clone(), name: id.clone(), meta: raw_meta() };
                let ghost dv = descs_view(descs@);
                self.add_seeded(DeviceEntry { info, descriptors: descs }, DeviceState::new());
                assert(self.ids() == s0.ids().push(id@));
                assert(self.ids().len() == self.records.len());
                let r = self.records.len() - 1;
                proof {
                    self.lemma_index_of(r as int);
                    assert(self.ids()[r as int] == id@);
                    assert(s0.ids().is_prefix_of(self.ids())) by {
                        assert(self.ids() == s0.ids().push(id@));
                    }
                }
                r
            },
        }
    }
}


impl DeviceManager {
    proof fn lemma_replace_record(self, s0: DeviceManager, i: int)
        requires
            s0.wf(),
            0 <= i < s0.records.len(),
            self.records.len() == s0.records.len(),
            forall|j: int| 0 <= j < self.records.len() && j != i ==> #[trigger] self.records@[j] == s0.records@[j],
            self.records@[i].info.id@ == s0.records@[i].info.id@,
            self.records@[i].wf(),
        ensures
            self.wf(),
            self.ids() == s0.ids(),
            forall|d: Seq<char>| #[trigger] s0.has(d) ==> self.index_of(d) == s0.index_of(d),
            self.others_unchanged(s0, s0.records@[i].info.id@),
            self.index_of(s0.records@[i].info.id@) == i,
    {
        assert forall|a: int, b: int| 0 <= a < b < self.records.len() implies
            (#[trigger] self.records@[a]).info.id@ != (#[trigger] self.records@[b]).info.id@ by {
            assert(s0.records@[a].info.id@ != s0.records@[b].info.id@);
        }
        assert(self.ids() =~= s0.ids());
        assert forall|d: Seq<char>| #[trigger] s0.has(d) implies self.index_of(d) == s0.index_of(d) by {
            let j = choose|j: int| 0 <= j < s0.ids().len() && s0.ids()[j] == d;
            assert(s0.records@[j].info.id@ == d);
            s0.lemma_index_of(j);
            self.lemma_index_of(j);
        }
        self.lemma_index_of(i);
    }

    /// Queues the key edge of a keyboard packet for device `device_id`, registering the
    /// device (with no channels) and the key's channel (labelled `key_` and four hex digits) when missing.
    pub fn inject_keyboard(&mut self, device_id: String, packet: RawKeyboardPacket)
        requires
            old(self).wf(),
        ensures
            final(self).wf(),
            final(self).has(device_id@),
            final(self).queue() == old(self).queue().push((device_id@, key_event(packet))),
            final(self).state(device_id@) == old(self).prior_state(device_id@),
            final(self).labels(device_id@, ChannelKind::Button).contains_key(channel_of(key_event(packet)).1),
            final(self).labels(device_id@, ChannelKind::Button)[channel_of(key_event(packet)).1] == (
                if old(self).has(device_id@) && old(self).labels(device_id@, ChannelKind::Button).contains_key(channel_of(key_event(packet)).1) {
                    old(self).labels(device_id@, ChannelKind::Button)[channel_of(key_event(packet)).1]
                } else {
                    key_label_text(channel_of(key_event(packet)).1)
                }),
            final(self).others_unchanged(*old(self), device_id@),
    {
        let ghost s0 = *self;
        let ghost idv = device_id@;
        let i = self.ensure_device(&device_id, Vec::new());
        proof {
            if !s0.has(device_id@) {
                assert(descs_view(Seq::<ChannelDesc>::empty()) =~= Seq::<ChannelView>::empty());
                assert(labels_of(Seq::<ChannelView>::empty(), ChannelKind::Button) == Map::<u16, Seq<char>>::empty());
            }
        }
        let ghost s1 = *self;
        let key = pack_key_index(packet.scancode, packet.is_extended);
        let kind = if packet.is_break {
            InputKind::ButtonReleased { button: key }
        } else {
            InputKind::ButtonPressed { button: key }
        };
        assert(kind == key_event(packet));
        let mut rec = self.records.remove(i);
        let ghost t0 = rec.labels.table(ChannelKind::Button);
        assert(t0 == s1.labels(device_id@, ChannelKind::Button));
        if rec.labels.get(ChannelKind::Button, key).is_none() {
            let label = key_label(key);
            rec.descriptors.push(
                ChannelDesc {
                    kind: ChannelKind::Button,
                    idx: key,
                    name: Some(label.clone()),
                    logical_min: 0,
                    logical_max: 1,
                    usage_page: None,
                    usage: None,
                },
            );
            rec.labels.set_if_absent(ChannelKind::Button, key, label);
        }
        let ghost t1 = rec.labels.table(ChannelKind::Button);
        assert(t1.contains_key(key));
        assert(t1[key] == (if t0.contains_key(key) { t0[key] } else { key_label_text(key) }));
        self.records.insert(i, rec);
        proof {
            self.lemma_replace_record(s1, i as int);
            assert(self.labels(device_id@, ChannelKind::Button) == t1);
            assert(self.state(device_id@) == s1.state(device_id@));
        }
        let ghost s2 = *self;
        let ghost q0 = self.injected@;
        self.injected.push(InputEvent { device_id, kind });
        proof {
            assert(self.injected@ == q0.push(InputEvent { device_id: self.injected@.last().device_id, kind }));
            assert(self.queue() =~= s0.queue().push((idv, key_event(packet))));
            assert(self.records == s2.records);
            assert(self.ids() == s2.ids());
            assert forall|d: Seq<char>| d != idv && s0.has(d) implies {
                &&& #[trigger] self.state(d) == s0.state(d)
                &&& self.channels_of(d) == s0.channels_of(d)
                &&& forall|k: ChannelKind| #[trigger] self.labels(d, k) == s0.labels(d, k)
            } by {
                assert(s1.state(d) == s0.state(d));
                assert(s1.channels_of(d) == s0.channels_of(d));
                assert(s1.has(d)) by {
                    let j = choose|j: int| 0 <= j < s0.ids().len() && s0.ids()[j] == d;
                    assert(s1.ids()[j] == d);
                }
                assert(s2.state(d) == s1.state(d));
                assert(s2.channels_of(d) == s1.channels_of(d));
                assert forall|k: ChannelKind| #[trigger] self.labels(d, k) == s0.labels(d, k) by {
                    assert(s1.labels(d, k) == s0.labels(d, k));
                    assert(s2.labels(d, k) == s1.labels(d, k));
                }
            }
            assert(self.others_unchanged(s0, idv));
        }
    }

    /// Queues the deltas of a mouse packet for device `device_id`, registering the device
    /// with the fixed mouse channels when it is unknown.
    pub fn inject_mouse(&mut self, device_id: String, packet: RawMousePacket)
        requires
            old(self).wf(),
        ensures
            final(self).wf(),
            final(self).has(device_id@),
            final(self).queue() == old(self).queue() + tagged(device_id@, mouse_events(packet)),
            old(self).has(device_id@) ==> final(self).state(device_id@) == old(self).state(device_id@),
            !old(self).has(device_id@) ==> final(self).state(device_id@) == seed_all(empty_state(), mouse_channels()),
            !old(self).has(device_id@) ==> final(self).channels_of(device_id@) == mouse_channels(),
            final(self).others_unchanged(*old(self), device_id@),
    {
        let ghost s0 = *self;
        let descs = mouse_descs();
        let _ = self.ensure_device(&device_id, descs);
        let ghost s1 = *self;
        let evs = mouse_packet_events(&packet);
        let mut k: usize = 0;
        while k < evs.len()
            invariant
                k <= evs.len(),
                evs@ == mouse_events(packet),
                self.records == s1.records,
                self.queue() == s1.queue() + tagged(device_id@, evs@.take(k as int)),
            decreases evs.len() - k,
        {
            let ghost q0 = self.injected@;
            let e = InputEvent { device_id: device_id.clone(), kind: evs[k] };
            assert(e@ == (device_id@, evs@[k as int]));
            self.injected.push(e);
            assert(events_view(self.injected@) =~= events_view(q0).push(e@));
            assert(evs@.take(k + 1) =~= evs@.take(k as int).push(evs@[k as int]));
            assert(tagged(device_id@, evs@.take(k + 1)) =~= tagged(device_id@, evs@.take(k as int)).push(e@));
            k += 1;
            assert(self.queue() =~= s1.queue() + tagged(device_id@, evs@.take(k as int)));
        }
        assert(evs@.take(k as int) =~= evs@);
        proof {
            assert(self.ids() == s1.ids());
            assert forall|d: Seq<char>| d != device_id@ && s0.has(d) implies {
                &&& #[trigger] self.state(d) == s0.state(d)
                &&& self.channels_of(d) == s0.channels_of(d)
                &&& forall|k: ChannelKind| #[trigger] self.labels(d, k) == s0.labels(d, k)
            } by {
                assert(s1.state(d) == s0.state(d));
                assert(s1.channels_of(d) == s0.channels_of(d));
                assert forall|k: ChannelKind| #[trigger] self.labels(d, k) == s0.labels(d, k) by {
                    assert(s1.labels(d, k) == s0.labels(d, k));
                }
            }
            assert(self.others_unchanged(s0, device_id@));
        }
    }
}


impl DeviceManager {
    /// The channel list of device `id`, if known.
    pub fn channels(&self, id: &str) -> (r: Option<Vec<ChannelDesc>>)
        requires
            self.wf(),
        ensures
            match r {
                Some(v) => self.has(id@) && descs_view(v@) == self.channels_of(id@),
                None => !self.has(id@),
            },
    {
        match self.find(id) {
            Some(i) => Some(copy_descs(&self.records[i].descriptors)),
            None => None,
        }
    }

    /// The ids of the devices, in discovery order.
    pub fn device_ids(&self) -> (r: Vec<String>)
        ensures
            strings_view(r@) == self.ids(),
    {
        let mut out: Vec<String> = Vec::new();
        let mut i: usize = 0;
        while i < self.records.len()
            invariant
                i <= self.records.len(),
                out.len() == i,
                forall|j: int| 0 <= j < i ==> (#[trigger] out@[j])@ == self.records@[j].info.id@,
            decreases self.records.len() - i,
        {
            out.push(self.records[i].info.id.clone());
            i += 1;
        }
        assert(strings_view(out@) =~= self.ids());
        out
    }

    /// The identity and metadata of each device, in discovery order.
    pub fn devices(&self) -> (r: Vec<&ManagedInfo>)
        ensures
            r@.len() == self.ids().len(),
            forall|i: int| 0 <= i < r@.len() ==> (#[trigger] r@[i]).id@ == self.ids()[i],
    {
        let mut out: Vec<&ManagedInfo> = Vec::new();
        let mut i: usize = 0;
        while i < self.records.len()
            invariant
                i <= self.records.len(),
                out@.len() == i,
                forall|j: int| 0 <= j < i ==> (#[trigger] out@[j]).id@ == self.ids()[j],
            decreases self.records.len() - i,
        {
            out.push(&self.records[i].info);
            i += 1;
        }
        out
    }

    /// The state of device `id`, if known.
    pub fn state_of(&self, id: &str) -> (r: Option<&DeviceState>)
        requires
            self.wf(),
        ensures
            match r {
                Some(s) => self.has(id@) && s@ == self.state(id@) && s.wf(),
                None => !self.has(id@),
            },
    {
        match self.find(id) {
            Some(i) => Some(&self.records[i].state),
            None => None,
        }
    }

    /// The value of an axis named by `"device_id.axis_label"`; `None` when the string has no
    /// dot, the device is unknown or the axis has no value.
    pub fn get_axis(&self, binding: &str) -> (r: Option<AxisValue>)
        requires
            self.wf(),
        ensures
            r == (match crate::text::split_first(binding@, '.') {
                Some((dev, axis)) => if self.has(dev) && self.state(dev).axes.contains_key(axis) {
                    Some(self.state(dev).axes[axis])
                } else {
                    None::<AxisValue>
                },
                None => None::<AxisValue>,
            }),
    {
        match crate::text::split_once(binding, '.') {
            Some((dev, axis)) => match self.state_of(dev.as_str()) {
                Some(st) => st.axis(axis.as_str()),
                None => None,
            },
            None => None,
        }
    }

    /// Whether a button named by `"device_id.button_label"` is down; `false` when the string
    /// has no dot, or the device or button is unknown.
    pub fn is_pressed(&self, binding: &str) -> (r: bool)
        requires
            self.wf(),
        ensures
            r == (match crate::text::split_first(binding@, '.') {
                Some((dev, button)) => self.has(dev) && self.state(dev).buttons.contains_key(button)
                    && self.state(dev).buttons[button],
                None => false,
            }),
    {
        match crate::text::split_once(binding, '.') {
            Some((dev, button)) => match self.state_of(dev.as_str()) {
                Some(st) => st.get_button(button.as_str()),
                None => false,
            },
            None => false,
        }
    }
}

} // verus!
