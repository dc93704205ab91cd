use vstd::prelude::*;

use crate::event::{ChannelKind, ChannelView};
use crate::text::{dec_text, push_dec, text_of};

verus! {

/// Labels of one kind of channel, by channel index.
pub struct IndexLabels {
    entries: Vec<(u16, String)>,
}

pub open spec fn index_map(s: Seq<(u16, String)>) -> Map<u16, Seq<char>>
    decreases s.len(),
{
    if s.len() == 0 {
        Map::empty()
    } else {
        index_map(s.drop_last()).insert(s.last().0, s.last().1@)
    }
}

pub open spec fn indices_distinct(s: Seq<(u16, String)>) -> bool {
    forall|i: int, j: int| 0 <= i < j < s.len() ==> (#[trigger] s[i]).0 != (#[trigger] s[j]).0
}

proof fn lemma_index_map_domain(s: Seq<(u16, String)>, k: u16)
    ensures
        index_map(s).contains_key(k) <==> exists|i: int| 0 <= i < s.len() && (#[trigger] s[i]).0 == k,
    decreases s.len(),
{
    if s.len() > 0 {
        lemma_index_map_domain(s.drop_last(), k);
        if index_map(s).contains_key(k) && k != s.last().0 {
            let i = choose|i: int| 0 <= i < s.drop_last().len() && (#[trigger] s.drop_last()[i]).0 == k;
            assert(s[i].0 == k);
        }
        if exists|i: int| 0 <= i < s.len() && (#[trigger] s[i]).0 == k {
            let i = choose|i: int| 0 <= i < s.len() && (#[trigger] s[i]).0 == k;
            if i < s.len() - 1 {
                assert(s.drop_last()[i].0 == k);
            }
        }
    }
}

proof fn lemma_index_map_at(s: Seq<(u16, String)>, i: int)
    requires
        indices_distinct(s),
        0 <= i < s.len(),
    ensures
        index_map(s).contains_key(s[i].0),
        index_map(s)[s[i].0] == s[i].1@,
    decreases s.len(),
{
    if i < s.len() - 1 {
        assert(indices_distinct(s.drop_last()));
        lemma_index_map_at(s.drop_last(), i);
        assert(s[i].0 != s.last().0);
        assert(s.drop_last()[i] == s[i]);
    }
}

impl IndexLabels {
    pub closed spec fn wf(self) -> bool {
        indices_distinct(self.entries@)
    }

    pub closed spec fn map(self) -> Map<u16, Seq<char>> {
        index_map(self.entries@)
    }

    pub fn new() -> (r: IndexLabels)
        ensures
            r.wf(),
            r.map() == Map::<u16, Seq<char>>::empty(),
    {
        IndexLabels { entries: Vec::new() }
    }

    /// The label of channel `idx`, if any.
    pub fn get(&self, idx: u16) -> (r: Option<&String>)
        requires
            self.wf(),
        ensures
            match r {
                Some(s) => self.map().contains_key(idx) && self.map()[idx] == s@,
                None => !self.map().contains_key(idx),
            },
    {
        let mut i: usize = 0;
        while i < self.entries.len()
            invariant
                i <= self.entries.len(),
                self.wf(),
                forall|j: int| 0 <= j < i ==> (#[trigger] self.entries@[j]).0 != idx,
            decreases self.entries.len() - i,
        {
            if self.entries[i].0 == idx {
                proof {
                    lemma_index_map_at(self.entries@, i as int);
                }
                return Some(&self.entries[i].1);
            }
            i += 1;
        }
        proof {
            lemma_index_map_domain(self.entries@, idx);
        }
        None
    }

    /// Gives channel `idx` the label `label` unless it already has one.
    pub fn set_if_absent(&mut self, idx: u16, label: String)
        requires
            old(self).wf(),
        ensures
            final(self).wf(),
            final(self).map() == (if old(self).map().contains_key(idx) {
                old(self).map()
            } else {
                old(self).map().insert(idx, label@)
            }),
    {
        match self.get(idx) {
            Some(_) => {},
            None => {
                let ghost s = self.entries@;
                proof {
                    lemma_index_map_domain(s, idx);
                }
                self.entries.push((idx, label));
                proof {
                    assert(self.entries@.drop_last() =~= s);
                    assert forall|a: int, b: int| 0 <= a < b < self.entries@.len() implies
                        (#[trigger] self.entries@[a]).0 != (#[trigger] self.entries@[b]).0 by {
                        if b == s.len() {
                            assert(s[a].0 != idx);
                        }
                    }
                }
            },
        }
    }
}

/// The labels of a device's channels, one table per kind.
pub struct ChannelLabels {
    pub axes: IndexLabels,
    pub buttons: IndexLabels,
    pub hats: IndexLabels,
}

impl ChannelLabels {
    pub open spec fn wf(self) -> bool {
        self.axes.wf() && self.buttons.wf() && self.hats.wf()
    }

    pub open spec fn table(self, kind: ChannelKind) -> Map<u16, Seq<char>> {
        match kind {
            ChannelKind::Axis => self.axes.map(),
            ChannelKind::Button => self.buttons.map(),
            ChannelKind::Hat => self.hats.map(),
        }
    }

    pub fn new() -> (r: ChannelLabels)
        ensures
            r.wf(),
            forall|k: ChannelKind| r.table(k) == Map::<u16, Seq<char>>::empty(),
    {
        ChannelLabels { axes: IndexLabels::new(), buttons: IndexLabels::new(), hats: IndexLabels::new() }
    }

    pub fn get(&self, kind: ChannelKind, idx: u16) -> (r: Option<&String>)
        requires
            self.wf(),
        ensures
            match r {
                Some(s) => self.table(kind).contains_key(idx) && self.table(kind)[idx] == s@,
                None => !self.table(kind).contains_key(idx),
            },
    {
        match kind {
            ChannelKind::Axis => self.axes.get(idx),
            ChannelKind::Button => self.buttons.get(idx),
            ChannelKind::Hat => self.hats.get(idx),
        }
    }

    pub fn set_if_absent(&mut self, kind: ChannelKind, idx: u16, label: String)
        requires
            old(self).wf(),
        ensures
            final(self).wf(),
            final(self).table(kind) == (if old(self).table(kind).contains_key(idx) {
                old(self).table(kind)
            } else {
                old(self).table(kind).insert(idx, label@)
            }),
            forall|k: ChannelKind| k != kind ==> final(self).table(k) == old(self).table(k),
    {
        match kind {
            ChannelKind::Axis => self.axes.set_if_absent(idx, label),
            ChannelKind::Button => self.buttons.set_if_absent(idx, label),
            ChannelKind::Hat => self.hats.set_if_absent(idx, label),
        }
    }
}

/// The fallback label of a channel without a name: `axisN`, `btnN` or `hatN`.
pub open spec fn fallback_label(kind: ChannelKind, idx: u16) -> Seq<char> {
    match kind {
        ChannelKind::Axis => "axis"@ + dec_text(idx as nat),
        ChannelKind::Button => "btn"@ + dec_text(idx as nat),
        ChannelKind::Hat => "hat"@ + dec_text(idx as nat),
    }
}

/// The state key of a channel: its name, else its fallback label.
pub open spec fn desc_label(d: ChannelView) -> Seq<char> {
    match d.name {
        Some(n) => n,
        None => fallback_label(d.kind, d.idx),
    }
}

/// The state key of a channel.
pub fn channel_label(kind: ChannelKind, idx: u16, name: &Option<String>) -> (r: String)
    ensures
        r@ == (match name {
            Some(n) => n@,
            None => fallback_label(kind, idx),
        }),
{
    match name {
        Some(n) => n.clone(),
        None => {
            let mut s = match kind {
                ChannelKind::Axis => text_of("axis"),
                ChannelKind::Button => text_of("btn"),
                ChannelKind::Hat => text_of("hat"),
            };
            push_dec(&mut s, idx as u64);
            s
        },
    }
}

} // verus!
