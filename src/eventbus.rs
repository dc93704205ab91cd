use vstd::prelude::*;

use crate::event::{InputEvent, InputKind};

verus! {

/// Receiver of input events.
pub trait InputListener {
    fn on_input(&mut self, event: &InputEvent);
}

impl<L: InputListener + ?Sized> InputListener for Box<L> {
    fn on_input(&mut self, event: &InputEvent) {
        (**self).on_input(event)
    }
}

/// Which kinds of events a listener wants.
#[derive(Clone, Copy, Debug, PartialEq, Eq, Hash, Structural)]
pub enum EventFilter {
    All,
    AxisOnly,
    ButtonsOnly,
}

struct ListenerEntry<L> {
    id: u64,
    listener: L,
    enabled: bool,
    filter: EventFilter,
    tag: Option<String>,
}

/// Whether an event passes a kind filter.
pub open spec fn filter_passes(f: EventFilter, k: InputKind) -> bool {
    match f {
        EventFilter::All => true,
        EventFilter::AxisOnly => k is AxisMoved,
        EventFilter::ButtonsOnly => k is ButtonPressed || k is ButtonReleased,
    }
}

/// Whether a listener with these settings receives `event`: it is enabled, its tag (if any)
/// is the event's device id, and its filter passes the event.
pub open spec fn delivers(enabled: bool, f: EventFilter, tag: Option<Seq<char>>, event: (Seq<char>, InputKind)) -> bool {
    &&& enabled
    &&& (tag matches Some(t) ==> t == event.0)
    &&& filter_passes(f, event.1)
}

/// Decides whether a listener with these settings receives `event`.
pub fn should_deliver(enabled: bool, filter: EventFilter, tag: &Option<String>, event: &InputEvent) -> (r: bool)
    ensures
        r == delivers(enabled, filter, crate::device::opt_view(*tag), event@),
{
    if !enabled {
        return false;
    }
    if let Some(wanted) = tag {
        if !crate::text::str_eq(event.device_id.as_str(), wanted.as_str()) {
            return false;
        }
    }
    match filter {
        EventFilter::All => true,
        EventFilter::AxisOnly => matches!(event.kind, InputKind::AxisMoved { .. }),
        EventFilter::ButtonsOnly => matches!(
            event.kind,
            InputKind::ButtonPressed { .. } | InputKind::ButtonReleased { .. }
        ),
    }
}

spec fn ids_of<L>(s: Seq<ListenerEntry<L>>) -> Seq<u64> {
    Seq::new(s.len(), |i: int| s[i].id)
}

spec fn settings_of<L>(s: Seq<ListenerEntry<L>>) -> Seq<ListenerSettings> {
    Seq::new(s.len(), |i: int| (s[i].enabled, s[i].filter, crate::device::opt_view(s[i].tag)))
}

/// Registry of listeners, each with an id, an enabled flag, a kind filter and an optional
/// device-id tag.
pub struct InputEventBus<L> {
    next_id: u64,
    listeners: Vec<ListenerEntry<L>>,
}

/// What the bus knows of one listener: `(enabled, filter, tag)`.
pub type ListenerSettings = (bool, EventFilter, Option<Seq<char>>);

impl<L: InputListener> InputEventBus<L> {
    /// The id the next listener will get.
    pub closed spec fn next_id_spec(self) -> u64 {
        self.next_id
    }

    /// The registered listeners' settings, by id.
    pub closed spec fn settings(self) -> Map<u64, ListenerSettings> {
        Map::new(
            |id: u64| exists|i: int| 0 <= i < self.listeners.len() && self.listeners@[i].id == id,
            |id: u64| {
                let i = choose|i: int| 0 <= i < self.listeners.len() && self.listeners@[i].id == id;
                let e = self.listeners@[i];
                (e.enabled, e.filter, crate::device::opt_view(e.tag))
            },
        )
    }

    pub closed spec fn wf(self) -> bool {
        &&& forall|i: int| 0 <= i < self.listeners.len() ==> (#[trigger] self.listeners@[i]).id < self.next_id
        &&& forall|i: int, j: int| 0 <= i < j < self.listeners.len() ==>
            (#[trigger] self.listeners@[i]).id != (#[trigger] self.listeners@[j]).id
    }

    /// An empty bus.
    pub fn new() -> (r: InputEventBus<L>)
        ensures
            r.wf(),
            r.next_id_spec() == 0,
            r.settings() == Map::<u64, ListenerSettings>::empty(),
    {
        let r = InputEventBus { next_id: 0, listeners: Vec::new() };
        assert(r.settings() =~= Map::<u64, ListenerSettings>::empty());
        r
    }

    /// Registers an enabled listener and returns its id.
    pub fn add_listener(&mut self, listener: L, filter: EventFilter, tag: Option<String>) -> (r: u64)
        requires
            old(self).wf(),
            old(self).next_id_spec() < u64::MAX,
        ensures
            final(self).wf(),
            r == old(self).next_id_spec(),
            final(self).next_id_spec() == r + 1,
            final(self).settings() == old(self).settings().insert(r, (true, filter, crate::device::opt_view(tag))),
    {
        let id = self.next_id;
        let ghost before = self.listeners@;
        let ghost tv = crate::device::opt_view(tag);
        self.listeners.push(ListenerEntry { id, listener, enabled: true, filter, tag });
        self.next_id = id + 1;
        proof {
            let n = before.len() as int;
            assert forall|k: u64| #[trigger] self.settings().contains_key(k) == old(self).settings().insert(id, (true, filter, tv)).contains_key(k) by {
                if k != id && self.settings().contains_key(k) {
                    let i = choose|i: int| 0 <= i < self.listeners.len() && self.listeners@[i].id == k;
                    assert(i < n);
                    assert(before[i].id == k);
                }
                if old(self).settings().contains_key(k) {
                    let i = choose|i: int| 0 <= i < before.len() && before[i].id == k;
                    assert(self.listeners@[i].id == k);
                }
                if k == id {
                    assert(self.listeners@[n].id == k);
                }
            }
            assert forall|k: u64| #[trigger] self.settings().contains_key(k) implies self.settings()[k] == old(self).settings().insert(id, (true, filter, tv))[k] by {
                let i = choose|i: int| 0 <= i < self.listeners.len() && self.listeners@[i].id == k;
                if k == id {
                    if i != n {
                        assert(before[i].id < id);
                    }
                } else {
                    assert(i != n);
                    let j = choose|j: int| 0 <= j < before.len() && before[j].id == k;
                    if i != j {
                        if i < j {
                            assert(before[i].id != before[j].id);
                        } else {
                            assert(before[j].id != before[i].id);
                        }
                    }
                }
            }
            assert(self.settings() =~= old(self).settings().insert(id, (true, filter, tv)));
        }
        id
    }

    fn position(&self, id: u64) -> (r: Option<usize>)
        requires
            self.wf(),
        ensures
            match r {
                Some(i) => i < self.listeners.len() && self.listeners@[i as int].id == id,
                None => !self.settings().contains_key(id),
            },
    {
        let mut i: usize = 0;
        while i < self.listeners.len()
            invariant
                i <= self.listeners.len(),
                forall|j: int| 0 <= j < i ==> (#[trigger] self.listeners@[j]).id != id,
            decreases self.listeners.len() - i,
        {
            if self.listeners[i].id == id {
                return Some(i);
            }
            i += 1;
        }
        None
    }

    fn set_enabled(&mut self, id: u64, on: bool)
        requires
            old(self).wf(),
        ensures
            final(self).wf(),
            final(self).next_id_spec() == old(self).next_id_spec(),
            final(self).settings() == (if old(self).settings().contains_key(id) {
                let s = old(self).settings()[id];
                old(self).settings().insert(id, (on, s.1, s.2))
            } else {
                old(self).settings()
            }),
    {
        match self.position(id) {
            Some(i) => {
                let ghost before = self.listeners@;
                let mut e = self.listeners.remove(i);
                e.enabled = on;
                self.listeners.insert(i, e);
                proof {
                    assert(self.listeners@ =~= before.update(i as int, self.listeners@[i as int]));
                    assert forall|a: int, b: int| 0 <= a < b < self.listeners.len() implies
                        (#[trigger] self.listeners@[a]).id != (#[trigger] self.listeners@[b]).id by {
                        assert(before[a].id != before[b].id);
                    }
                    assert(old(self).settings().contains_key(id));
                    let s = old(self).settings()[id];
                    let c = choose|c: int| 0 <= c < before.len() && before[c].id == id;
                    if c != i {
                        if c < i {
                            assert(before[c].id != before[i as int].id);
                        } else {
                            assert(before[i as int].id != before[c].id);
                        }
                    }
                    assert forall|k: u64| #[trigger] self.settings().contains_key(k) == old(self).settings().contains_key(k) by {
                        if self.settings().contains_key(k) {
                            let j = choose|j: int| 0 <= j < self.listeners.len() && self.listeners@[j].id == k;
                            assert(before[j].id == k);
                        }
                        if old(self).settings().contains_key(k) {
                            let j = choose|j: int| 0 <= j < before.len() && before[j].id == k;
                            assert(self.listeners@[j].id == k);
                        }
                    }
                    assert forall|k: u64| #[trigger] self.settings().contains_key(k) implies self.settings()[k] == old(self).settings().insert(id, (on, s.1, s.2))[k] by {
                        let j = choose|j: int| 0 <= j < self.listeners.len() && self.listeners@[j].id == k;
                        let j0 = choose|j0: int| 0 <= j0 < before.len() && before[j0].id == k;
                        if j != j0 {
                            if j < j0 {
                                assert(before[j].id != before[j0].id);
                            } else {
                                assert(before[j0].id != before[j].id);
                            }
                        }
                    }
                    assert(self.settings() =~= old(self).settings().insert(id, (on, s.1, s.2)));
                }
            },
            None => {},
        }
    }

    /// Enables a listener; unknown ids are ignored.
    pub fn enable(&mut self, id: u64)
        requires
            old(self).wf(),
        ensures
            final(self).wf(),
            final(self).next_id_spec() == old(self).next_id_spec(),
            final(self).settings() == (if old(self).settings().contains_key(id) {
                let s = old(self).settings()[id];
                old(self).settings().insert(id, (true, s.1, s.2))
            } else {
                old(self).settings()
            }),
    {
        self.set_enabled(id, true);
    }

    /// Mutes a listener without removing it; unknown ids are ignored.
    pub fn disable(&mut self, id: u64)
        requires
            old(self).wf(),
        ensures
            final(self).wf(),
            final(self).next_id_spec() == old(self).next_id_spec(),
            final(self).settings() == (if old(self).settings().contains_key(id) {
                let s = old(self).settings()[id];
                old(self).settings().insert(id, (false, s.1, s.2))
            } else {
                old(self).settings()
            }),
    {
        self.set_enabled(id, false);
    }

    /// Unregisters a listener; unknown ids are ignored.
    pub fn remove_listener(&mut self, id: u64)
        requires
            old(self).wf(),
        ensures
            final(self).wf(),
            final(self).next_id_spec() == old(self).next_id_spec(),
            final(self).settings() == old(self).settings().remove(id),
    {
        match self.position(id) {
            Some(i) => {
                let ghost before = self.listeners@;
                let _ = self.listeners.remove(i);
                proof {
                    assert(self.listeners@ =~= before.remove(i as int));
                    assert forall|a: int, b: int| 0 <= a < b < self.listeners.len() implies
                        (#[trigger] self.listeners@[a]).id != (#[trigger] self.listeners@[b]).id by {
                        let a0 = if a < i { a } else { a + 1 };
                        let b0 = if b < i { b } else { b + 1 };
                        assert(before[a0].id != before[b0].id);
                    }
                    assert forall|k: u64| #[trigger] self.settings().contains_key(k) == old(self).settings().remove(id).contains_key(k) by {
                        if self.settings().contains_key(k) {
                            let j = choose|j: int| 0 <= j < self.listeners.len() && self.listeners@[j].id == k;
                            let j0 = if j < i { j } else { j + 1 };
                            assert(before[j0].id == k);
                            assert(j0 != i);
                        }
                        if old(self).settings().contains_key(k) && k != id {
                            let j = choose|j: int| 0 <= j < before.len() && before[j].id == k;
                            assert(j != i);
                            let j1 = if j < i { j } else { j - 1 };
                            assert(self.listeners@[j1].id == k);
                        }
                    }
                    assert forall|k: u64| #[trigger] self.settings().contains_key(k) implies self.settings()[k] == old(self).settings()[k] by {
                        let j = choose|j: int| 0 <= j < self.listeners.len() && self.listeners@[j].id == k;
                        let j0 = if j < i { j } else { j + 1 };
                        let c = choose|c: int| 0 <= c < before.len() && before[c].id == k;
                        assert(before[j0].id == k);
                        if c != j0 {
                            if c < j0 {
                                assert(before[c].id != before[j0].id);
                            } else {
                                assert(before[j0].id != before[c].id);
                            }
                        }
                    }
                    assert(self.settings() =~= old(self).settings().remove(id));
                }
            },
            None => {
                assert(self.settings() =~= old(self).settings().remove(id));
            },
        }
    }

    /// The listener registered under `id`, if any.
    pub fn listener(&self, id: u64) -> (r: Option<&L>)
        requires
            self.wf(),
        ensures
            r is Some <==> self.settings().contains_key(id),
    {
        match self.position(id) {
            Some(i) => {
                assert(self.settings().contains_key(id));
                Some(&self.listeners[i].listener)
            },
            None => None,
        }
    }

    /// Hands each event, in order, to every listener that should receive it.
    pub fn emit_all(&mut self, events: &[InputEvent])
        requires
            old(self).wf(),
        ensures
            final(self).wf(),
            final(self).next_id_spec() == old(self).next_id_spec(),
            final(self).settings() == old(self).settings(),
    {
        let ghost ids = ids_of(self.listeners@);
        let ghost setts = settings_of(self.listeners@);
        let mut k: usize = 0;
        while k < events.len()
            invariant
                self.wf(),
                self.next_id == old(self).next_id,
                ids_of(self.listeners@) == ids,
                settings_of(self.listeners@) == setts,
            decreases events.len() - k,
        {
            let event = &events[k];
            let mut i: usize = 0;
            while i < self.listeners.len()
                invariant
                    self.wf(),
                    self.next_id == old(self).next_id,
                    ids_of(self.listeners@) == ids,
                    settings_of(self.listeners@) == setts,
                decreases self.listeners.len() - i,
            {
                let ghost before = self.listeners@;
                let mut e = self.listeners.remove(i);
                if should_deliver(e.enabled, e.filter, &e.tag, event) {
                    e.listener.on_input(event);
                }
                self.listeners.insert(i, e);
                proof {
                    assert(self.listeners@.len() == before.len());
                    assert forall|j: int| 0 <= j < self.listeners.len() implies
                        (#[trigger] self.listeners@[j]).id == before[j].id
                        && self.listeners@[j].enabled == before[j].enabled
                        && self.listeners@[j].filter == before[j].filter
                        && self.listeners@[j].tag == before[j].tag by {
                        if j != i {
                            assert(self.listeners@[j] == before[j]);
                        }
                    }
                    assert(ids_of(self.listeners@) =~= ids_of(before));
                    assert(settings_of(self.listeners@)
                        =~= settings_of(before));
                }
                i += 1;
            }
            k += 1;
        }
        proof {
            lemma_settings_from_views(*old(self), *self);
        }
    }
}

proof fn lemma_settings_from_views<L: InputListener>(a: InputEventBus<L>, b: InputEventBus<L>)
    requires
        a.wf(),
        ids_of(a.listeners@) == ids_of(b.listeners@),
        settings_of(a.listeners@)
            == settings_of(b.listeners@),
    ensures
        a.settings() == b.settings(),
{
    assert(a.listeners.len() == b.listeners.len()) by {
        assert(ids_of(a.listeners@).len() == a.listeners.len());
        assert(ids_of(b.listeners@).len() == b.listeners.len());
    }
    assert forall|j: int| 0 <= j < a.listeners.len() implies (#[trigger] a.listeners@[j]).id == b.listeners@[j].id by {
        assert(ids_of(a.listeners@)[j] == a.listeners@[j].id);
        assert(ids_of(b.listeners@)[j] == b.listeners@[j].id);
        assert(ids_of(a.listeners@)[j] == ids_of(b.listeners@)[j]);
    }
    assert(a.settings() =~= b.settings()) by {
        assert forall|k: u64| #[trigger] a.settings().contains_key(k) == b.settings().contains_key(k) by {
            if a.settings().contains_key(k) {
                let j = choose|j: int| 0 <= j < a.listeners.len() && a.listeners@[j].id == k;
                assert(b.listeners@[j].id == k);
            }
            if b.settings().contains_key(k) {
                let j = choose|j: int| 0 <= j < b.listeners.len() && b.listeners@[j].id == k;
                assert(a.listeners@[j].id == k);
            }
        }
        assert forall|k: u64| #[trigger] a.settings().contains_key(k) implies a.settings()[k] == b.settings()[k] by {
            let ja = choose|j: int| 0 <= j < a.listeners.len() && a.listeners@[j].id == k;
            let jb = choose|j: int| 0 <= j < b.listeners.len() && b.listeners@[j].id == k;
            assert(a.listeners@[jb].id == k);
            assert(settings_of(a.listeners@)[ja] == settings_of(b.listeners@)[ja]);
            if ja != jb {
                if ja < jb {
                    assert(a.listeners@[ja].id != a.listeners@[jb].id);
                } else {
                    assert(a.listeners@[jb].id != a.listeners@[ja].id);
                }
            }
        }
    }
}

} // verus!
