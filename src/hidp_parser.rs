use vstd::prelude::*;

use crate::event::{ChannelDesc, ChannelKind, ChannelView, InputKind, descs_view, described, channel_of};
use crate::hid_values::{classify_hat, hat_value_to_slot, normalize_axis_value, usage_label, usage_name};
use crate::text::text_of;
use crate::value::{AxisValue, moved_more_than};

verus! {

/// One button capability of an input report, as the HID parser reports it.
///
/// When `is_range` is false the capability covers the single usage `usage_min`.
#[derive(Clone, Copy, Debug, PartialEq, Eq, Structural)]
pub struct ButtonCap {
    pub report_id: u8,
    pub usage_page: u16,
    pub link_collection: u16,
    pub is_range: bool,
    pub usage_min: u16,
    pub usage_max: u16,
}

/// One value capability of an input report, as the HID parser reports it.
///
/// When `is_range` is false the capability covers the single usage `usage_min`.
#[derive(Clone, Copy, Debug, PartialEq, Eq, Structural)]
pub struct ValueCap {
    pub report_id: u8,
    pub usage_page: u16,
    pub link_collection: u16,
    pub is_range: bool,
    pub usage_min: u16,
    pub usage_max: u16,
    pub logical_min: i32,
    pub logical_max: i32,
}

/// The identity of one button: `(report_id, usage_page, usage, link_collection)`.
#[derive(Clone, Copy, Debug, PartialEq, Eq, Structural)]
pub struct ButtonKey {
    pub report_id: u8,
    pub usage_page: u16,
    pub usage: u16,
    pub link_collection: u16,
}

/// What the host's "get usage value" query gave for one value capability.
#[derive(Clone, Copy, Debug, PartialEq, Eq, Structural)]
pub enum ValueRead {
    /// The query failed, or was not made.
    Failed,
    /// The query succeeded at the capability's link collection.
    Read(u32),
    /// The query failed at the capability's link collection and succeeded at link collection 0.
    ReadAtRoot(u32),
}

/// Concrete usages of a capability, ascending.
pub open spec fn cap_usages(is_range: bool, lo: u16, hi: u16) -> Seq<u16> {
    if !is_range {
        seq![lo]
    } else if lo <= hi {
        Seq::new((hi - lo + 1) as nat, |k: int| (lo + k) as u16)
    } else {
        Seq::empty()
    }
}

/// A capability with report id `cap_rid` takes part in a report with id `rid`.
pub open spec fn cap_selected(cap_rid: u8, rid: u8) -> bool {
    cap_rid == 0 || cap_rid == rid
}

struct ButtonField {
    report_id: u8,
    usage_page: u16,
    link_collection: u16,
    usages: Vec<u16>,
}

#[derive(Clone, Copy)]
struct ValueField {
    report_id: u8,
    usage_page: u16,
    usage: u16,
    link_collection: u16,
    logical_min: i32,
    logical_max: i32,
    is_hat: bool,
    hat_is_degrees: bool,
    index: u16,
}

/// Descriptor-driven decoder of HID input reports.
///
/// Built from the device's button and value capabilities; assigns stable channel
/// indices and turns each report into axis, button and hat deltas.
pub struct WinHidpParser {
    input_report_max_len: u16,
    buttons: Vec<ButtonField>,
    values: Vec<ValueField>,
    buttons_by_index: Vec<ButtonKey>,
    axis_fields_by_index: Vec<usize>,
    hat_fields_by_index: Vec<usize>,
    last_pressed_buttons: Vec<u16>,
    last_axis_value: Vec<Option<AxisValue>>,
    last_hat_value: Vec<Option<i16>>,
    epsilon_den: i64,
    only_rid0: bool,
}

pub open spec fn strictly_ascending(s: Seq<u16>) -> bool {
    forall|i: int, j: int| 0 <= i < j < s.len() ==> s[i] < s[j]
}

/// Views of the axis channels.
spec fn axis_view(v: ValueField, k: int) -> ChannelView {
    ChannelView {
        kind: ChannelKind::Axis,
        idx: k as u16,
        name: Some(usage_label(v.usage_page, v.usage)),
        logical_min: v.logical_min,
        logical_max: v.logical_max,
        usage_page: Some(v.usage_page),
        usage: Some(v.usage),
    }
}

spec fn hat_view(v: ValueField, k: int) -> ChannelView {
    ChannelView {
        kind: ChannelKind::Hat,
        idx: k as u16,
        name: Some("Hat"@),
        logical_min: 0,
        logical_max: 7,
        usage_page: Some(v.usage_page),
        usage: Some(v.usage),
    }
}

pub open spec fn button_view(b: ButtonKey, k: int) -> ChannelView {
    ChannelView {
        kind: ChannelKind::Button,
        idx: k as u16,
        name: Some(usage_label(b.usage_page, b.usage)),
        logical_min: 0,
        logical_max: 1,
        usage_page: Some(b.usage_page),
        usage: Some(b.usage),
    }
}

impl WinHidpParser {
    /// The internal tables agree with one another.
    pub closed spec fn wf(self) -> bool {
        let na = self.axis_fields_by_index.len();
        let nh = self.hat_fields_by_index.len();
        &&& na <= 0x10000
        &&& nh <= 0x10000
        &&& self.buttons_by_index.len() <= 0x10000
        &&& forall|k: int| 0 <= k < na ==> {
            let i = #[trigger] self.axis_fields_by_index@[k];
            &&& i < self.values.len()
            &&& !self.values@[i as int].is_hat
            &&& self.values@[i as int].index == k
        }
        &&& forall|k: int| 0 <= k < nh ==> {
            let i = #[trigger] self.hat_fields_by_index@[k];
            &&& i < self.values.len()
            &&& self.values@[i as int].is_hat
            &&& self.values@[i as int].index == k
        }
        &&& forall|i: int| 0 <= i < self.values.len() ==> {
            let v = #[trigger] self.values@[i];
            if v.is_hat {
                v.index < nh && self.hat_fields_by_index@[v.index as int] == i
            } else {
                v.index < na && self.axis_fields_by_index@[v.index as int] == i
            }
        }
        &&& self.last_axis_value.len() == na
        &&& self.last_hat_value.len() == nh
        &&& forall|k: int| 0 <= k < na && (#[trigger] self.last_axis_value@[k]) is Some ==> {
            let a = self.last_axis_value@[k]->Some_0;
            a.is_unit() && a.den <= 0xFFFF_FFFF
        }
        &&& forall|k: int| 0 <= k < nh && (#[trigger] self.last_hat_value@[k]) is Some ==> {
            let h = self.last_hat_value@[k]->Some_0;
            -1 <= h <= 7
        }
        &&& strictly_ascending(self.last_pressed_buttons@)
        &&& forall|k: int| 0 <= k < self.last_pressed_buttons.len() ==>
            (#[trigger] self.last_pressed_buttons@[k]) < self.buttons_by_index.len()
        &&& 1 <= self.epsilon_den <= 0xFFFF_FFFF
    }

    /// Number of axis channels.
    pub closed spec fn axis_count(self) -> nat {
        self.axis_fields_by_index.len() as nat
    }

    /// Number of hat channels.
    pub closed spec fn hat_count(self) -> nat {
        self.hat_fields_by_index.len() as nat
    }

    /// Number of button channels.
    pub closed spec fn button_count(self) -> nat {
        self.buttons_by_index.len() as nat
    }

    /// The buttons held down at the last report.
    pub closed spec fn pressed(self) -> Seq<u16> {
        self.last_pressed_buttons@
    }

    /// The device's channels: axes, then hats, then buttons, each by ascending index.
    pub closed spec fn channel_views(self) -> Seq<ChannelView> {
        Seq::new(
            self.axis_fields_by_index.len() as nat,
            |k: int| axis_view(self.values@[self.axis_fields_by_index@[k] as int], k),
        ) + Seq::new(
            self.hat_fields_by_index.len() as nat,
            |k: int| hat_view(self.values@[self.hat_fields_by_index@[k] as int], k),
        ) + Seq::new(
            self.buttons_by_index.len() as nat,
            |k: int| button_view(self.buttons_by_index@[k], k),
        )
    }

    /// The noise threshold `4 / epsilon_den` under which axis changes are not reported.
    pub closed spec fn epsilon_den_spec(self) -> int {
        self.epsilon_den as int
    }

    /// Every value field is read at link collection 0.
    pub closed spec fn values_at_root(self) -> bool {
        forall|i: int| 0 <= i < self.values.len() ==> (#[trigger] self.values@[i]).link_collection == 0
    }

    /// Whether the descriptor uses report id 0 only.
    pub closed spec fn only_rid0_spec(self) -> bool {
        self.only_rid0
    }

    pub closed spec fn report_len_spec(self) -> u16 {
        self.input_report_max_len
    }
}


/// The concrete usages of a capability, ascending.
fn expand_usages(is_range: bool, lo: u16, hi: u16) -> (r: Vec<u16>)
    ensures
        r@ == cap_usages(is_range, lo, hi),
{
    let mut r: Vec<u16> = Vec::new();
    if !is_range {
        r.push(lo);
        assert(r@ =~= cap_usages(is_range, lo, hi));
        return r;
    }
    if lo > hi {
        assert(r@ =~= cap_usages(is_range, lo, hi));
        return r;
    }
    let mut u: u32 = lo as u32;
    while u <= hi as u32
        invariant
            lo <= hi,
            lo <= u <= hi as u32 + 1,
            r@ =~= Seq::new((u - lo) as nat, |k: int| (lo + k) as u16),
        decreases hi as u32 + 1 - u,
    {
        r.push(u as u16);
        u += 1;
    }
    r
}

/// One value usage of a capability: what the channel list reports of it.
#[derive(Clone, Copy, Debug, PartialEq, Eq, Structural)]
pub struct ValueUsage {
    pub usage_page: u16,
    pub usage: u16,
    pub logical_min: i32,
    pub logical_max: i32,
}

/// Every button of the capability tables, capabilities in order and usages ascending within
/// each: position `k` is button index `k`.
pub open spec fn flat_buttons(caps: Seq<ButtonCap>) -> Seq<ButtonKey>
    decreases caps.len(),
{
    if caps.len() == 0 {
        Seq::empty()
    } else {
        let c = caps.last();
        flat_buttons(caps.drop_last()) + cap_usages(c.is_range, c.usage_min, c.usage_max).map_values(
            |u: u16| ButtonKey { report_id: c.report_id, usage_page: c.usage_page, usage: u, link_collection: c.link_collection },
        )
    }
}

/// Every value usage of the capability tables, in order; usage page 0 is skipped.
pub open spec fn flat_values(caps: Seq<ValueCap>) -> Seq<ValueUsage>
    decreases caps.len(),
{
    if caps.len() == 0 {
        Seq::empty()
    } else {
        let c = caps.last();
        flat_values(caps.drop_last()) + if c.usage_page != 0 {
            cap_usages(c.is_range, c.usage_min, c.usage_max).map_values(
                |u: u16| ValueUsage { usage_page: c.usage_page, usage: u, logical_min: c.logical_min, logical_max: c.logical_max },
            )
        } else {
            Seq::empty()
        }
    }
}

pub open spec fn is_hat_usage(v: ValueUsage) -> bool {
    v.usage_page == 1 && v.usage == 0x39
}

/// The channel list that the capability tables describe: axes (non-hat values, in order),
/// hats (hat values, in order), then buttons.
pub open spec fn axis_usages(vcaps: Seq<ValueCap>) -> Seq<ValueUsage> {
    flat_values(vcaps).filter(|v: ValueUsage| !is_hat_usage(v))
}

pub open spec fn hat_usages(vcaps: Seq<ValueCap>) -> Seq<ValueUsage> {
    flat_values(vcaps).filter(|v: ValueUsage| is_hat_usage(v))
}

/// The tables are not both empty and no kind has more channels than a `u16` index names.
pub open spec fn tables_fit(bcaps: Seq<ButtonCap>, vcaps: Seq<ValueCap>) -> bool {
    &&& (bcaps.len() > 0 || vcaps.len() > 0)
    &&& axis_usages(vcaps).len() <= 0x10000
    &&& hat_usages(vcaps).len() <= 0x10000
    &&& flat_buttons(bcaps).len() <= 0x10000
}

proof fn lemma_flat_buttons_prefix(caps: Seq<ButtonCap>, i: int)
    requires
        0 <= i <= caps.len(),
    ensures
        flat_buttons(caps.take(i)).len() <= flat_buttons(caps).len(),
    decreases caps.len() - i,
{
    if i < caps.len() {
        lemma_flat_buttons_prefix(caps, i + 1);
        assert(caps.take(i + 1).drop_last() =~= caps.take(i));
    } else {
        assert(caps.take(i) =~= caps);
    }
}

pub open spec fn expected_channels(bcaps: Seq<ButtonCap>, vcaps: Seq<ValueCap>) -> Seq<ChannelView> {
    let axes = axis_usages(vcaps);
    let hats = hat_usages(vcaps);
    let btns = flat_buttons(bcaps);
    Seq::new(axes.len(), |k: int| ChannelView {
        kind: ChannelKind::Axis,
        idx: k as u16,
        name: Some(usage_label(axes[k].usage_page, axes[k].usage)),
        logical_min: axes[k].logical_min,
        logical_max: axes[k].logical_max,
        usage_page: Some(axes[k].usage_page),
        usage: Some(axes[k].usage),
    }) + Seq::new(hats.len(), |k: int| ChannelView {
        kind: ChannelKind::Hat,
        idx: k as u16,
        name: Some("Hat"@),
        logical_min: 0,
        logical_max: 7,
        usage_page: Some(hats[k].usage_page),
        usage: Some(hats[k].usage),
    }) + Seq::new(btns.len(), |k: int| button_view(btns[k], k))
}

spec fn usage_of(v: ValueField) -> ValueUsage {
    ValueUsage { usage_page: v.usage_page, usage: v.usage, logical_min: v.logical_min, logical_max: v.logical_max }
}

spec fn usages_of(s: Seq<ValueField>) -> Seq<ValueUsage> {
    Seq::new(s.len(), |i: int| usage_of(s[i]))
}

/// Expands button capabilities into fields with concrete usages.
fn normalize_buttons(caps: &Vec<ButtonCap>) -> (r: Vec<ButtonField>)
    ensures
        r.len() == caps.len(),
        forall|i: int| 0 <= i < caps.len() ==> {
            let c = caps@[i];
            let b = #[trigger] r@[i];
            &&& b.report_id == c.report_id
            &&& b.usage_page == c.usage_page
            &&& b.link_collection == c.link_collection
            &&& b.usages@ == cap_usages(c.is_range, c.usage_min, c.usage_max)
        },
{
    let mut out: Vec<ButtonField> = Vec::new();
    let mut i: usize = 0;
    while i < caps.len()
        invariant
            i <= caps.len(),
            out.len() == i,
            forall|k: int| 0 <= k < i ==> {
                let c = caps@[k];
                let b = #[trigger] out@[k];
                &&& b.report_id == c.report_id
                &&& b.usage_page == c.usage_page
                &&& b.link_collection == c.link_collection
                &&& b.usages@ == cap_usages(c.is_range, c.usage_min, c.usage_max)
            },
        decreases caps.len() - i,
    {
        let c = caps[i];
        out.push(
            ButtonField {
                report_id: c.report_id,
                usage_page: c.usage_page,
                link_collection: c.link_collection,
                usages: expand_usages(c.is_range, c.usage_min, c.usage_max),
            },
        );
        i += 1;
    }
    out
}

/// Expands value capabilities into one field per usage (skipping usage page 0) and
/// classifies hats.
fn normalize_values(caps: &Vec<ValueCap>, force_root_collection: bool) -> (r: Vec<ValueField>)
    ensures
        usages_of(r@) == flat_values(caps@),
        forall|i: int| 0 <= i < r.len() ==> {
            let v = #[trigger] r@[i];
            &&& v.is_hat == (v.usage_page == 1 && v.usage == 0x39)
            &&& v.hat_is_degrees == (v.is_hat && !crate::hid_values::is_slot_range(v.logical_min, v.logical_max))
            &&& v.usage_page != 0
            &&& force_root_collection ==> v.link_collection == 0
        },
{
    let mut out: Vec<ValueField> = Vec::new();
    let mut i: usize = 0;
    while i < caps.len()
        invariant
            i <= caps.len(),
            usages_of(out@) == flat_values(caps@.take(i as int)),
            forall|k: int| 0 <= k < out.len() ==> {
                let v = #[trigger] out@[k];
                &&& v.is_hat == (v.usage_page == 1 && v.usage == 0x39)
                &&& v.hat_is_degrees == (v.is_hat && !crate::hid_values::is_slot_range(v.logical_min, v.logical_max))
                &&& v.usage_page != 0
                &&& force_root_collection ==> v.link_collection == 0
            },
        decreases caps.len() - i,
    {
        let c = caps[i];
        let ghost before = flat_values(caps@.take(i as int));
        assert(caps@.take(i + 1).drop_last() =~= caps@.take(i as int));
        assert(caps@.take(i + 1).last() == c);
        let ghost part = cap_usages(c.is_range, c.usage_min, c.usage_max).map_values(
            |u: u16| ValueUsage { usage_page: c.usage_page, usage: u, logical_min: c.logical_min, logical_max: c.logical_max },
        );
        if c.usage_page != 0 {
            let usages = expand_usages(c.is_range, c.usage_min, c.usage_max);
            let lc: u16 = if force_root_collection { 0 } else { c.link_collection };
            let mut j: usize = 0;
            while j < usages.len()
                invariant
                    j <= usages.len(),
                    c.usage_page != 0,
                    usages@ == cap_usages(c.is_range, c.usage_min, c.usage_max),
                    part == usages@.map_values(
                        |u: u16| ValueUsage { usage_page: c.usage_page, usage: u, logical_min: c.logical_min, logical_max: c.logical_max },
                    ),
                    usages_of(out@) == before + part.take(j as int),
                    force_root_collection ==> lc == 0,
                    forall|k: int| 0 <= k < out.len() ==> {
                        let v = #[trigger] out@[k];
                        &&& v.is_hat == (v.usage_page == 1 && v.usage == 0x39)
                        &&& v.hat_is_degrees == (v.is_hat && !crate::hid_values::is_slot_range(v.logical_min, v.logical_max))
                        &&& v.usage_page != 0
                        &&& force_root_collection ==> v.link_collection == 0
                    },
                decreases usages.len() - j,
            {
                let u = usages[j];
                let (is_hat, hat_is_degrees) = classify_hat(
                    c.usage_page,
                    u,
                    c.logical_min,
                    c.logical_max,
                );
                let ghost old_out = out@;
                assert(part[j as int] == ValueUsage { usage_page: c.usage_page, usage: u, logical_min: c.logical_min, logical_max: c.logical_max });
                assert(part.take(j + 1) =~= part.take(j as int).push(part[j as int]));
                out.push(
                    ValueField {
                        report_id: c.report_id,
                        usage_page: c.usage_page,
                        usage: u,
                        link_collection: lc,
                        logical_min: c.logical_min,
                        logical_max: c.logical_max,
                        is_hat,
                        hat_is_degrees,
                        index: 0,
                    },
                );
                assert(usages_of(out@) =~= usages_of(old_out).push(usage_of(out@[out@.len() - 1])));
                j += 1;
                assert(usages_of(out@) =~= before + part.take(j as int));
            }
            assert(part.take(j as int) =~= part);
            assert(usages_of(out@) =~= flat_values(caps@.take(i + 1)));
        } else {
            assert(usages_of(out@) =~= flat_values(caps@.take(i + 1)));
        }
        i += 1;
    }
    assert(caps@.take(i as int) =~= caps@);
    out
}

/// The vendor and product of a rudder whose values only decode at link collection 0.
pub open spec fn needs_root_collection(vendor_id: u16, product_id: u16) -> bool {
    vendor_id == 0x231d && product_id == 0x011f
}

/// A capability table whose query failed counts as empty.
pub open spec fn table_view<T>(t: Option<Vec<T>>) -> Seq<T> {
    match t {
        Some(v) => v@,
        None => Seq::empty(),
    }
}

/// The report ids in use are exactly `{0}`.
pub open spec fn uses_only_rid0(bcaps: Seq<ButtonCap>, vcaps: Seq<ValueCap>) -> bool {
    (bcaps.len() > 0 || vcaps.len() > 0)
    && (forall|i: int| 0 <= i < bcaps.len() ==> (#[trigger] bcaps[i]).report_id == 0)
    && (forall|i: int| 0 <= i < vcaps.len() ==> (#[trigger] vcaps[i]).report_id == 0)
}

impl WinHidpParser {
    /// Builds a parser from the device's capability tables.
    ///
    /// A table whose query failed is passed as `None` and counts as empty. Fails when
    /// both tables are empty, or when a kind has more channels than a `u16` index can name.
    pub fn new(
        vendor_id: u16,
        product_id: u16,
        input_report_len: u16,
        button_caps: Option<Vec<ButtonCap>>,
        value_caps: Option<Vec<ValueCap>>,
    ) -> (r: Option<WinHidpParser>)
        ensures
            r is Some <==> tables_fit(table_view(button_caps), table_view(value_caps)),
            r matches Some(p) ==> {
                &&& p.wf()
                &&& p.pressed().len() == 0
                &&& p.only_rid0_spec() == uses_only_rid0(
                    table_view(button_caps),
                    table_view(value_caps),
                )
                &&& p.report_len_spec() == input_report_len
                &&& p.channel_views() == expected_channels(table_view(button_caps), table_view(value_caps))
                &&& (needs_root_collection(vendor_id, product_id) ==> p.values_at_root())
            },
    {
        let bcaps = match button_caps {
            Some(v) => v,
            None => Vec::new(),
        };
        let vcaps = match value_caps {
            Some(v) => v,
            None => Vec::new(),
        };
        if bcaps.len() == 0 && vcaps.len() == 0 {
            return None;
        }
        let mut only_rid0 = true;
        let mut i: usize = 0;
        while i < bcaps.len()
            invariant
                i <= bcaps.len(),
                only_rid0 == (forall|k: int| 0 <= k < i ==> (#[trigger] bcaps@[k]).report_id == 0),
            decreases bcaps.len() - i,
        {
            if bcaps[i].report_id != 0 {
                only_rid0 = false;
            }
            i += 1;
        }
        let mut i: usize = 0;
        let ghost b_only = only_rid0;
        while i < vcaps.len()
            invariant
                i <= vcaps.len(),
                only_rid0 == (b_only && forall|k: int| 0 <= k < i ==> (#[trigger] vcaps@[k]).report_id == 0),
            decreases vcaps.len() - i,
        {
            if vcaps[i].report_id != 0 {
                only_rid0 = false;
            }
            i += 1;
        }

        let buttons = normalize_buttons(&bcaps);
        let mut values = normalize_values(&vcaps, vendor_id == 0x231d && product_id == 0x011f);

        // Axis and hat indices, in descriptor order.
        let mut axis_fields_by_index: Vec<usize> = Vec::new();
        let mut hat_fields_by_index: Vec<usize> = Vec::new();
        let mut max_span: i64 = 1;
        let ghost all = usages_of(values@);
        let ghost n0 = values.len();
        let ghost fa = |v: ValueUsage| !is_hat_usage(v);
        let ghost fh = |v: ValueUsage| is_hat_usage(v);
        let mut i: usize = 0;
        while i < values.len()
            invariant
                i <= values.len(),
                values.len() == n0,
                usages_of(values@) == all,
                all == flat_values(vcaps@),
                vcaps@ == table_view(value_caps),
                bcaps@ == table_view(button_caps),
                fa == (|v: ValueUsage| !is_hat_usage(v)),
                fh == (|v: ValueUsage| is_hat_usage(v)),
                forall|j: int| 0 <= j < values.len() ==> (#[trigger] values@[j]).is_hat == is_hat_usage(usage_of(values@[j])),
                (vendor_id == 0x231d && product_id == 0x011f) ==> forall|j: int| 0 <= j < values.len() ==> (#[trigger] values@[j]).link_collection == 0,
                axis_fields_by_index.len() == all.take(i as int).filter(fa).len(),
                hat_fields_by_index.len() == all.take(i as int).filter(fh).len(),
                forall|k: int| 0 <= k < axis_fields_by_index.len() ==>
                    usage_of(values@[(#[trigger] axis_fields_by_index@[k]) as int]) == all.take(i as int).filter(fa)[k],
                forall|k: int| 0 <= k < hat_fields_by_index.len() ==>
                    usage_of(values@[(#[trigger] hat_fields_by_index@[k]) as int]) == all.take(i as int).filter(fh)[k],
                axis_fields_by_index.len() <= i,
                hat_fields_by_index.len() <= i,
                axis_fields_by_index.len() <= 0x10000,
                hat_fields_by_index.len() <= 0x10000,
                1 <= max_span <= 0xFFFF_FFFF,
                forall|k: int| 0 <= k < axis_fields_by_index.len() ==> {
                    let j = #[trigger] axis_fields_by_index@[k];
                    &&& j < i
                    &&& !values@[j as int].is_hat
                    &&& values@[j as int].index == k
                },
                forall|k: int| 0 <= k < hat_fields_by_index.len() ==> {
                    let j = #[trigger] hat_fields_by_index@[k];
                    &&& j < i
                    &&& values@[j as int].is_hat
                    &&& values@[j as int].index == k
                },
                forall|j: int| 0 <= j < i ==> {
                    let v = #[trigger] values@[j];
                    if v.is_hat {
                        v.index < hat_fields_by_index.len() && hat_fields_by_index@[v.index as int] == j
                    } else {
                        v.index < axis_fields_by_index.len() && axis_fields_by_index@[v.index as int] == j
                    }
                },
            decreases values.len() - i,
        {
            let mut v = values[i];
            assert(all.take(i + 1) =~= all.take(i as int).push(usage_of(v)));
            proof {
                all.take(i as int).lemma_filter_push(usage_of(v), fa);
                all.take(i as int).lemma_filter_push(usage_of(v), fh);
            }
            if v.is_hat {
                if hat_fields_by_index.len() > 0xFFFF {
                    proof {
                        assert(fh(usage_of(v)));
                        assert(all.take(i + 1).filter(fh).len() == hat_fields_by_index.len() + 1);
                        all.lemma_filter_take_len(fh, i + 1);
                        assert(all.filter(fh) == hat_usages(vcaps@));
                    }
                    return None;
                }
                v.index = hat_fields_by_index.len() as u16;
                hat_fields_by_index.push(i);
            } else {
                if axis_fields_by_index.len() > 0xFFFF {
                    proof {
                        assert(fa(usage_of(v)));
                        assert(all.take(i + 1).filter(fa).len() == axis_fields_by_index.len() + 1);
                        all.lemma_filter_take_len(fa, i + 1);
                        assert(all.filter(fa) == axis_usages(vcaps@));
                    }
                    return None;
                }
                v.index = axis_fields_by_index.len() as u16;
                axis_fields_by_index.push(i);
            }
            let span: i64 = v.logical_max as i64 - v.logical_min as i64;
            if span > max_span {
                max_span = span;
            }
            values.set(i, v);
            assert(usages_of(values@) =~= all);
            i += 1;
        }
        assert(all.take(i as int) =~= all);
        assert(all.filter(fa) == axis_usages(vcaps@));
        assert(all.filter(fh) == hat_usages(vcaps@));

        // Button indices: capabilities in order, usages ascending within each.
        let mut buttons_by_index: Vec<ButtonKey> = Vec::new();
        let mut i: usize = 0;
        while i < buttons.len()
            invariant
                i <= buttons.len(),
                buttons.len() == bcaps.len(),
                forall|k: int| 0 <= k < bcaps.len() ==> {
                    let c = bcaps@[k];
                    let b = #[trigger] buttons@[k];
                    &&& b.report_id == c.report_id
                    &&& b.usage_page == c.usage_page
                    &&& b.link_collection == c.link_collection
                    &&& b.usages@ == cap_usages(c.is_range, c.usage_min, c.usage_max)
                },
                buttons_by_index@ == flat_buttons(bcaps@.take(i as int)),
                buttons_by_index.len() <= 0x10000,
                vcaps@ == table_view(value_caps),
                bcaps@ == table_view(button_caps),
                axis_usages(vcaps@).len() <= 0x10000,
                hat_usages(vcaps@).len() <= 0x10000,
            decreases buttons.len() - i,
        {
            let bf = &buttons[i];
            let ghost c = bcaps@[i as int];
            let ghost before = buttons_by_index@;
            let ghost part = cap_usages(c.is_range, c.usage_min, c.usage_max).map_values(
                |u: u16| ButtonKey { report_id: c.report_id, usage_page: c.usage_page, usage: u, link_collection: c.link_collection },
            );
            assert(bcaps@.take(i + 1).drop_last() =~= bcaps@.take(i as int));
            assert(bcaps@.take(i + 1).last() == c);
            assert(flat_buttons(bcaps@.take(i + 1)) == before + part);
            let mut j: usize = 0;
            while j < bf.usages.len()
                invariant
                    j <= bf.usages.len(),
                    *bf == buttons@[i as int],
                    bf.usages@ == cap_usages(c.is_range, c.usage_min, c.usage_max),
                    bf.report_id == c.report_id,
                    bf.usage_page == c.usage_page,
                    bf.link_collection == c.link_collection,
                    part == cap_usages(c.is_range, c.usage_min, c.usage_max).map_values(
                        |u: u16| ButtonKey { report_id: c.report_id, usage_page: c.usage_page, usage: u, link_collection: c.link_collection },
                    ),
                    buttons_by_index@ == before + part.take(j as int),
                    buttons_by_index.len() <= 0x10000,
                    i < bcaps.len(),
                    flat_buttons(bcaps@.take(i + 1)) == before + part,
                    vcaps@ == table_view(value_caps),
                    bcaps@ == table_view(button_caps),
                decreases bf.usages.len() - j,
            {
                if buttons_by_index.len() >= 0x10000 {
                    proof {
                        lemma_flat_buttons_prefix(bcaps@, i + 1);
                        assert(part.take(j as int).len() < part.len());
                        assert(flat_buttons(bcaps@.take(i + 1)) == before + part);
                    }
                    return None;
                }
                buttons_by_index.push(
                    ButtonKey {
                        report_id: bf.report_id,
                        usage_page: bf.usage_page,
                        usage: bf.usages[j],
                        link_collection: bf.link_collection,
                    },
                );
                j += 1;
                assert(buttons_by_index@ =~= before + part.take(j as int));
            }
            assert(part.take(j as int) =~= part);
            assert(buttons_by_index@ =~= flat_buttons(bcaps@.take(i + 1)));
            i += 1;
        }
        assert(bcaps@.take(i as int) =~= bcaps@);

        let mut last_axis_value: Vec<Option<AxisValue>> = Vec::new();
        let mut k: usize = 0;
        while k < axis_fields_by_index.len()
            invariant
                k <= axis_fields_by_index.len(),
                last_axis_value.len() == k,
                forall|j: int| 0 <= j < k ==> (#[trigger] last_axis_value@[j]) is None,
            decreases axis_fields_by_index.len() - k,
        {
            last_axis_value.push(None);
            k += 1;
        }
        let mut last_hat_value: Vec<Option<i16>> = Vec::new();
        let mut k: usize = 0;
        while k < hat_fields_by_index.len()
            invariant
                k <= hat_fields_by_index.len(),
                last_hat_value.len() == k,
                forall|j: int| 0 <= j < k ==> (#[trigger] last_hat_value@[j]) is None,
            decreases hat_fields_by_index.len() - k,
        {
            last_hat_value.push(None);
            k += 1;
        }

        let p = WinHidpParser {
            input_report_max_len: input_report_len,
            buttons,
            values,
            buttons_by_index,
            axis_fields_by_index,
            hat_fields_by_index,
            last_pressed_buttons: Vec::new(),
            last_axis_value,
            last_hat_value,
            epsilon_den: max_span,
            only_rid0,
        };
        assert(p.only_rid0 == uses_only_rid0(bcaps@, vcaps@));
        assert(p.channel_views() =~= expected_channels(bcaps@, vcaps@));
        assert(p.wf());
        assert(needs_root_collection(vendor_id, product_id) ==> p.values_at_root());
        Some(p)
    }
}


/// The last position of `key` in `keys`, if any.
pub open spec fn last_index_of(keys: Seq<ButtonKey>, key: ButtonKey) -> Option<int> {
    if exists|i: int| 0 <= i < keys.len() && keys[i] == key {
        Some(
            choose|i: int|
                0 <= i < keys.len() && keys[i] == key && forall|j: int|
                    i < j < keys.len() ==> keys[j] != key,
        )
    } else {
        None
    }
}

/// The button index of a usage reported in a report with id `rid`: looked up under
/// `rid` first, then under report id 0.
pub open spec fn resolve_button(keys: Seq<ButtonKey>, rid: u8, page: u16, usage: u16, lc: u16) -> Option<int> {
    let exact = ButtonKey { report_id: rid, usage_page: page, usage, link_collection: lc };
    let fallback = ButtonKey { report_id: 0, usage_page: page, usage, link_collection: lc };
    match last_index_of(keys, exact) {
        Some(i) => Some(i),
        None => last_index_of(keys, fallback),
    }
}

/// The report buffer handed to the HID parser: the report id, then the body, zero-padded
/// (or cut) to `len` bytes.
pub open spec fn report_buffer(rid: u8, body: Seq<u8>, len: int) -> Seq<u8> {
    Seq::new(
        len as nat,
        |k: int|
            if k == 0 {
                rid
            } else if k - 1 < body.len() {
                body[k - 1]
            } else {
                0u8
            },
    )
}

/// The report id and body that a report is decoded with: a non-zero id on a device that
/// uses report id 0 only is a stripped data byte.
pub open spec fn effective_report(only_rid0: bool, report_id: u8, payload: Seq<u8>) -> (u8, Seq<u8>) {
    if only_rid0 && report_id != 0 {
        (0u8, seq![report_id] + payload)
    } else {
        (report_id, payload)
    }
}

impl WinHidpParser {
    /// The byte length of the device's input reports.
    pub fn input_report_len(&self) -> (r: Option<usize>)
        ensures
            r == Some(self.report_len_spec() as usize),
    {
        Some(self.input_report_max_len as usize)
    }

    /// Whether raw reads begin with a report-id byte.
    pub fn expects_report_id_prefix(&self) -> (r: bool)
        ensures
            r == !self.only_rid0_spec(),
    {
        !self.only_rid0
    }

    /// The channel list: axes, then hats, then buttons, each by ascending index.
    pub fn describe(&self) -> (r: Vec<ChannelDesc>)
        requires
            self.wf(),
        ensures
            descs_view(r@) == self.channel_views(),
    {
        let ghost cv = self.channel_views();
        let na = self.axis_fields_by_index.len();
        let nh = self.hat_fields_by_index.len();
        let mut out: Vec<ChannelDesc> = Vec::new();
        let mut k: usize = 0;
        while k < na
            invariant
                self.wf(),
                cv == self.channel_views(),
                na == self.axis_fields_by_index.len(),
                nh == self.hat_fields_by_index.len(),
                k <= na,
                out.len() == k,
                forall|j: int| 0 <= j < k ==> (#[trigger] out@[j])@ == cv[j],
            decreases na - k,
        {
            let v = self.values[self.axis_fields_by_index[k]];
            out.push(
                ChannelDesc {
                    kind: ChannelKind::Axis,
                    idx: k as u16,
                    name: usage_name(v.usage_page, v.usage),
                    logical_min: v.logical_min,
                    logical_max: v.logical_max,
                    usage_page: Some(v.usage_page),
                    usage: Some(v.usage),
                },
            );
            k += 1;
        }
        let mut k: usize = 0;
        while k < nh
            invariant
                self.wf(),
                cv == self.channel_views(),
                na == self.axis_fields_by_index.len(),
                nh == self.hat_fields_by_index.len(),
                k <= nh,
                out.len() == na + k,
                forall|j: int| 0 <= j < na + k ==> (#[trigger] out@[j])@ == cv[j],
            decreases nh - k,
        {
            let v = self.values[self.hat_fields_by_index[k]];
            out.push(
                ChannelDesc {
                    kind: ChannelKind::Hat,
                    idx: k as u16,
                    name: Some(text_of("Hat")),
                    logical_min: 0,
                    logical_max: 7,
                    usage_page: Some(v.usage_page),
                    usage: Some(v.usage),
                },
            );
            k += 1;
        }
        let nb = self.buttons_by_index.len();
        let mut k: usize = 0;
        while k < nb
            invariant
                self.wf(),
                cv == self.channel_views(),
                na == self.axis_fields_by_index.len(),
                nh == self.hat_fields_by_index.len(),
                nb == self.buttons_by_index.len(),
                k <= nb,
                out.len() == na + nh + k,
                forall|j: int| 0 <= j < na + nh + k ==> (#[trigger] out@[j])@ == cv[j],
            decreases nb - k,
        {
            let b = self.buttons_by_index[k];
            out.push(
                ChannelDesc {
                    kind: ChannelKind::Button,
                    idx: k as u16,
                    name: usage_name(b.usage_page, b.usage),
                    logical_min: 0,
                    logical_max: 1,
                    usage_page: Some(b.usage_page),
                    usage: Some(b.usage),
                },
            );
            k += 1;
        }
        assert(descs_view(out@) =~= cv);
        out
    }

    /// Builds the buffer that the host's HID parser decodes: `(effective report id, buffer)`.
    pub fn prepare_report(&self, report_id: u8, payload: &[u8]) -> (r: (u8, Vec<u8>))
        ensures
            ({
                let (rid, body) = effective_report(self.only_rid0_spec(), report_id, payload@);
                let len = if self.report_len_spec() == 0 { 1int } else { self.report_len_spec() as int };
                r.0 == rid && r.1@ == report_buffer(rid, body, len)
            }),
    {
        let len: usize = if self.input_report_max_len == 0 { 1 } else { self.input_report_max_len as usize };
        let prefixed = self.only_rid0 && report_id != 0;
        let rid: u8 = if prefixed { 0 } else { report_id };
        let ghost body = effective_report(self.only_rid0, report_id, payload@).1;
        let mut buf: Vec<u8> = Vec::new();
        let mut k: usize = 0;
        while k < len
            invariant
                k <= len,
                buf@ =~= report_buffer(rid, body, k as int),
                body == effective_report(self.only_rid0, report_id, payload@).1,
                prefixed == (self.only_rid0 && report_id != 0),
            decreases len - k,
        {
            let b: u8 = if k == 0 {
                rid
            } else if prefixed {
                if k == 1 {
                    report_id
                } else if k - 2 < payload.len() {
                    payload[k - 2]
                } else {
                    0
                }
            } else if k - 1 < payload.len() {
                payload[k - 1]
            } else {
                0
            };
            buf.push(b);
            k += 1;
        }
        (rid, buf)
    }

    /// The last index whose key is `key`.
    fn find_key(&self, key: ButtonKey) -> (r: Option<u16>)
        requires
            self.buttons_by_index.len() <= 0x10000,
        ensures
            match last_index_of(self.buttons_by_index@, key) {
                Some(i) => r == Some(i as u16) && 0 <= i < self.buttons_by_index.len(),
                None => r is None,
            },
    {
        let mut i: usize = self.buttons_by_index.len();
        while i > 0
            invariant
                i <= self.buttons_by_index.len(),
                self.buttons_by_index.len() <= 0x10000,
                forall|j: int| i <= j < self.buttons_by_index.len() ==> self.buttons_by_index@[j] != key,
            decreases i,
        {
            if self.buttons_by_index[i - 1] == key {
                let ghost w = (i - 1) as int;
                assert(0 <= w < self.buttons_by_index.len() && self.buttons_by_index@[w] == key);
                assert(forall|j: int| w < j < self.buttons_by_index.len() ==> self.buttons_by_index@[j] != key);
                let ghost c = choose|c: int|
                    0 <= c < self.buttons_by_index.len() && self.buttons_by_index@[c] == key && forall|j: int|
                        c < j < self.buttons_by_index.len() ==> self.buttons_by_index@[j] != key;
                assert(last_index_of(self.buttons_by_index@, key) == Some(c));
                assert(c == w) by {
                    if c < w {
                        assert(self.buttons_by_index@[w] != key);
                    } else if c > w {
                        assert(self.buttons_by_index@[c] != key);
                    }
                }
                assert(last_index_of(self.buttons_by_index@, key) == Some(w));
                let r = (i - 1) as u16;
                assert(r == w as u16);
                return Some(r);
            }
            i -= 1;
        }
        None
    }

    /// The button index of `usage` in a report with id `rid`.
    fn lookup_button(&self, rid: u8, page: u16, usage: u16, lc: u16) -> (r: Option<u16>)
        requires
            self.buttons_by_index.len() <= 0x10000,
        ensures
            match resolve_button(self.buttons_by_index@, rid, page, usage, lc) {
                Some(i) => r == Some(i as u16) && 0 <= i < self.buttons_by_index.len(),
                None => r is None,
            },
    {
        let exact = ButtonKey { report_id: rid, usage_page: page, usage, link_collection: lc };
        match self.find_key(exact) {
            Some(i) => Some(i),
            None => {
                let fallback = ButtonKey { report_id: 0, usage_page: page, usage, link_collection: lc };
                self.find_key(fallback)
            },
        }
    }
}


/// Inserts `x` into a strictly ascending vector, keeping it strictly ascending.
fn insert_sorted(items: Vec<u16>, x: u16) -> (r: Vec<u16>)
    requires
        strictly_ascending(items@),
    ensures
        strictly_ascending(r@),
        forall|y: u16| #[trigger] r@.contains(y) <==> (items@.contains(y) || y == x),
{
    let mut v = items;
    let ghost before = v@;
    let mut p: usize = 0;
    while p < v.len() && v[p] < x
        invariant
            p <= v.len(),
            v@ == before,
            before == items@,
            strictly_ascending(before),
            forall|j: int| 0 <= j < p ==> v@[j] < x,
        decreases v.len() - p,
    {
        p += 1;
    }
    if p < v.len() && v[p] == x {
        assert forall|y: u16| #[trigger] v@.contains(y) <==> (before.contains(y) || y == x) by {
            if y == x {
                assert(v@[p as int] == y);
            }
        }
    } else {
        v.insert(p, x);
        assert(forall|j: int| 0 <= j < p ==> v@[j] == before[j]);
        assert(forall|j: int| p < j < v.len() ==> v@[j] == before[j - 1]);
        assert forall|y: u16| #[trigger] v@.contains(y) <==> (before.contains(y) || y == x) by {
            if v@.contains(y) {
                let j = choose|j: int| 0 <= j < v.len() && v@[j] == y;
                if j < p {
                    assert(before[j] == y);
                } else if j > p {
                    assert(before[j - 1] == y);
                }
            }
            if before.contains(y) {
                let j = choose|j: int| 0 <= j < before.len() && before[j] == y;
                if j < p {
                    assert(v@[j] == y);
                } else {
                    assert(v@[j + 1] == y);
                }
            }
            if y == x {
                assert(v@[p as int] == x);
            }
        }
    }
    v
}

/// The button edges between two pressed sets: presses ascending, then releases ascending.
pub open spec fn edge_events(last: Seq<u16>, now: Seq<u16>) -> Seq<InputKind> {
    now.filter(|b: u16| !last.contains(b)).map_values(|b: u16| InputKind::ButtonPressed { button: b })
        + last.filter(|b: u16| !now.contains(b)).map_values(
        |b: u16| InputKind::ButtonReleased { button: b },
    )
}

fn vec_contains(v: &Vec<u16>, x: u16) -> (r: bool)
    ensures
        r == v@.contains(x),
{
    let mut i: usize = 0;
    while i < v.len()
        invariant
            i <= v.len(),
            forall|j: int| 0 <= j < i ==> v@[j] != x,
        decreases v.len() - i,
    {
        if v[i] == x {
            return true;
        }
        i += 1;
    }
    false
}

/// Appends the press and release edges between `last` and `now`.
fn push_edges(last: &Vec<u16>, now: &Vec<u16>, out: &mut Vec<InputKind>)
    ensures
        final(out)@ == old(out)@ + edge_events(last@, now@),
{
    let ghost start = out@;
    let ghost fp = |b: u16| !last@.contains(b);
    let ghost fr = |b: u16| !now@.contains(b);
    let ghost gp = |b: u16| InputKind::ButtonPressed { button: b };
    let ghost gr = |b: u16| InputKind::ButtonReleased { button: b };
    let mut i: usize = 0;
    while i < now.len()
        invariant
            i <= now.len(),
            fp == (|b: u16| !last@.contains(b)),
            gp == (|b: u16| InputKind::ButtonPressed { button: b }),
            out@ == start + now@.take(i as int).filter(fp).map_values(gp),
        decreases now.len() - i,
    {
        let b = now[i];
        assert(now@.take(i + 1) =~= now@.take(i as int).push(b));
        proof {
            now@.take(i as int).lemma_filter_push(b, fp);
        }
        assert(now@.take(i + 1).filter(fp) == if fp(b) {
            now@.take(i as int).filter(fp).push(b)
        } else {
            now@.take(i as int).filter(fp)
        });
        if !vec_contains(last, b) {
            out.push(InputKind::ButtonPressed { button: b });
        }
        i += 1;
        assert(out@ =~= start + now@.take(i as int).filter(fp).map_values(gp));
    }
    assert(now@.take(i as int) =~= now@);
    let ghost mid = out@;
    let mut i: usize = 0;
    while i < last.len()
        invariant
            i <= last.len(),
            fr == (|b: u16| !now@.contains(b)),
            gr == (|b: u16| InputKind::ButtonReleased { button: b }),
            out@ == mid + last@.take(i as int).filter(fr).map_values(gr),
        decreases last.len() - i,
    {
        let b = last[i];
        assert(last@.take(i + 1) =~= last@.take(i as int).push(b));
        proof {
            last@.take(i as int).lemma_filter_push(b, fr);
        }
        assert(last@.take(i + 1).filter(fr) == if fr(b) {
            last@.take(i as int).filter(fr).push(b)
        } else {
            last@.take(i as int).filter(fr)
        });
        if !vec_contains(now, b) {
            out.push(InputKind::ButtonReleased { button: b });
        }
        i += 1;
        assert(out@ =~= mid + last@.take(i as int).filter(fr).map_values(gr));
    }
    assert(last@.take(i as int) =~= last@);
    assert(out@ =~= start + edge_events(last@, now@));
}


fn selected(cap_rid: u8, rid: u8) -> (r: bool)
    ensures
        r == cap_selected(cap_rid, rid),
{
    cap_rid == 0 || cap_rid == rid
}

/// The signed reading of a raw 32-bit usage value.
pub open spec fn signed_reading(raw: u32) -> int {
    if raw <= 0x7FFF_FFFF {
        raw as int
    } else {
        raw as int - 0x1_0000_0000
    }
}

fn reading_as_i32(raw: u32) -> (r: i32)
    ensures
        r as int == signed_reading(raw),
{
    if raw <= 0x7FFF_FFFF {
        raw as i32
    } else {
        (raw as i64 - 0x1_0000_0000) as i32
    }
}

/// A value field with its link collection cleared; the rest is fixed for the parser's life.
spec fn without_collection(v: ValueField) -> ValueField {
    ValueField { link_collection: 0, ..v }
}

impl WinHidpParser {
    /// Button `b` is held down according to reads of a report with id `rid`: some selected
    /// capability returned a usage that resolves to `b`.
    pub closed spec fn pressed_by(self, rid: u8, reads: Seq<Option<Vec<u16>>>, b: u16) -> bool {
        exists|ci: int, uj: int| self.contributes(rid, reads, ci, uj, b)
    }

    pub closed spec fn contributes(self, rid: u8, reads: Seq<Option<Vec<u16>>>, ci: int, uj: int, b: u16) -> bool {
        &&& 0 <= ci < self.buttons.len()
        &&& ci < reads.len()
        &&& cap_selected(self.buttons@[ci].report_id, rid)
        &&& reads[ci] is Some
        &&& 0 <= uj < reads[ci]->Some_0@.len()
        &&& resolve_button(
            self.buttons_by_index@,
            rid,
            self.buttons@[ci].usage_page,
            reads[ci]->Some_0@[uj],
            self.buttons@[ci].link_collection,
        ) == Some(b as int)
    }

    /// A value delta that this parser can emit.
    pub closed spec fn value_event_ok(self, e: InputKind) -> bool {
        match e {
            InputKind::AxisMoved { axis, value } => axis < self.axis_count() && value.is_unit(),
            InputKind::HatChanged { hat, value } => hat < self.hat_count() && -1 <= value <= 7,
            _ => false,
        }
    }

    /// The set of buttons held down according to the reads.
    fn collect_pressed(&self, rid: u8, reads: &Vec<Option<Vec<u16>>>) -> (r: Vec<u16>)
        requires
            self.wf(),
        ensures
            strictly_ascending(r@),
            forall|k: int| 0 <= k < r.len() ==> (#[trigger] r@[k]) < self.button_count(),
            forall|b: u16| r@.contains(b) <==> self.pressed_by(rid, reads@, b),
    {
        let mut now: Vec<u16> = Vec::new();
        let mut i: usize = 0;
        while i < self.buttons.len()
            invariant
                self.wf(),
                i <= self.buttons.len(),
                strictly_ascending(now@),
                forall|k: int| 0 <= k < now.len() ==> (#[trigger] now@[k]) < self.buttons_by_index.len(),
                forall|b: u16| now@.contains(b) ==> exists|ci: int, uj: int| ci < i && self.contributes(rid, reads@, ci, uj, b),
                forall|ci: int, uj: int, b: u16| ci < i && #[trigger] self.contributes(rid, reads@, ci, uj, b) ==> now@.contains(b),
            decreases self.buttons.len() - i,
        {
            let bf = &self.buttons[i];
            if i < reads.len() && selected(bf.report_id, rid) {
                match &reads[i] {
                    Some(us) => {
                        let mut j: usize = 0;
                        while j < us.len()
                            invariant
                                self.wf(),
                                i < self.buttons.len(),
                                i < reads.len(),
                                cap_selected(self.buttons@[i as int].report_id, rid),
                                reads@[i as int] == Some(*us),
                                *bf == self.buttons@[i as int],
                                j <= us.len(),
                                strictly_ascending(now@),
                                forall|k: int| 0 <= k < now.len() ==> (#[trigger] now@[k]) < self.buttons_by_index.len(),
                                forall|b: u16| now@.contains(b) ==> exists|ci: int, uj: int|
                                    (ci < i || (ci == i && uj < j)) && self.contributes(rid, reads@, ci, uj, b),
                                forall|ci: int, uj: int, b: u16|
                                    (ci < i || (ci == i && uj < j)) && #[trigger] self.contributes(rid, reads@, ci, uj, b)
                                        ==> now@.contains(b),
                            decreases us.len() - j,
                        {
                            let u = us[j];
                            let ghost before = now@;
                            match self.lookup_button(rid, bf.usage_page, u, bf.link_collection) {
                                Some(idx) => {
                                    now = insert_sorted(now, idx);
                                    assert(self.contributes(rid, reads@, i as int, j as int, idx));
                                    assert forall|k: int| 0 <= k < now.len() implies (#[trigger] now@[k]) < self.buttons_by_index.len() by {
                                        assert(now@.contains(now@[k]));
                                        if before.contains(now@[k]) {
                                            let q = choose|q: int| 0 <= q < before.len() && before[q] == now@[k];
                                            assert(before[q] < self.buttons_by_index.len());
                                        }
                                    }
                                },
                                None => {
                                    assert forall|b: u16| !self.contributes(rid, reads@, i as int, j as int, b) by {}
                                },
                            }
                            j += 1;
                            assert forall|ci: int, uj: int, b: u16|
                                (ci < i || (ci == i && uj < j)) && #[trigger] self.contributes(rid, reads@, ci, uj, b)
                                    implies now@.contains(b) by {
                                if ci == i && uj == j - 1 {
                                } else {
                                    assert(before.contains(b));
                                }
                            }
                        }
                        assert forall|ci: int, uj: int, b: u16|
                            ci < i + 1 && #[trigger] self.contributes(rid, reads@, ci, uj, b)
                                implies now@.contains(b) by {
                            if ci == i {
                                assert(uj < us@.len());
                            }
                        }
                    },
                    None => {
                        assert forall|ci: int, uj: int, b: u16|
                            ci < i + 1 && #[trigger] self.contributes(rid, reads@, ci, uj, b)
                                implies now@.contains(b) by {
                            if ci == i {
                                assert(false);
                            }
                        }
                    },
                }
            } else {
                assert forall|ci: int, uj: int, b: u16|
                    ci < i + 1 && #[trigger] self.contributes(rid, reads@, ci, uj, b)
                        implies now@.contains(b) by {
                    if ci == i {
                        assert(false);
                    }
                }
            }
            i += 1;
        }
        assert forall|b: u16| self.pressed_by(rid, reads@, b) implies now@.contains(b) by {
            let (ci, uj) = choose|ci: int, uj: int| self.contributes(rid, reads@, ci, uj, b);
            assert(self.contributes(rid, reads@, ci, uj, b));
        }
        now
    }
}


impl WinHidpParser {
    /// The delta that value field `i` contributes to a report with id `rid`, judged against
    /// the field's last emitted value: a hat when its slot changes, an axis the first time and
    /// then when it moves by more than `4 / epsilon_den`.
    pub closed spec fn value_event(self, rid: u8, reads: Seq<ValueRead>, i: int) -> Option<InputKind> {
        let v = self.values@[i];
        if !cap_selected(v.report_id, rid) || i >= reads.len() {
            None
        } else {
            let raw = match reads[i] {
                ValueRead::Failed => None::<u32>,
                ValueRead::Read(x) => Some(x),
                ValueRead::ReadAtRoot(x) => Some(x),
            };
            match raw {
                None => None,
                Some(x) => {
                    let reading = signed_reading(x);
                    if v.is_hat {
                        let slot = crate::hid_values::hat_slot(reading, v.logical_min as int, v.logical_max as int, v.hat_is_degrees) as i16;
                        if self.last_hat_value@[v.index as int] == Some(slot) {
                            None
                        } else {
                            Some(InputKind::HatChanged { hat: v.index, value: slot })
                        }
                    } else {
                        let n = crate::hid_values::normalized_axis(reading, v.logical_min as int, v.logical_max as int);
                        match self.last_axis_value@[v.index as int] {
                            None => Some(InputKind::AxisMoved { axis: v.index, value: n }),
                            Some(l) => if n.differs_by_more(l, 4, self.epsilon_den as int) {
                                Some(InputKind::AxisMoved { axis: v.index, value: n })
                            } else {
                                None
                            },
                        }
                    }
                },
            }
        }
    }

    /// The value deltas of fields `0..n`, in field order.
    pub closed spec fn value_events(self, rid: u8, reads: Seq<ValueRead>, n: int) -> Seq<InputKind>
        decreases n,
    {
        if n <= 0 {
            Seq::empty()
        } else {
            let rest = self.value_events(rid, reads, n - 1);
            match self.value_event(rid, reads, n - 1) {
                Some(e) => rest.push(e),
                None => rest,
            }
        }
    }

    /// Number of value fields.
    pub closed spec fn value_field_count(self) -> int {
        self.values.len() as int
    }

    /// Everything but the link collections, the value caches and the pressed set.
    closed spec fn same_layout(self, o: WinHidpParser) -> bool {
        &&& self.buttons_by_index@ == o.buttons_by_index@
        &&& self.axis_fields_by_index@ == o.axis_fields_by_index@
        &&& self.hat_fields_by_index@ == o.hat_fields_by_index@
        &&& self.values.len() == o.values.len()
        &&& forall|i: int| 0 <= i < self.values.len() ==> without_collection(#[trigger] self.values@[i])
            == without_collection(o.values@[i])
        &&& self.epsilon_den == o.epsilon_den
        &&& self.only_rid0 == o.only_rid0
        &&& self.input_report_max_len == o.input_report_max_len
    }

    proof fn lemma_same_layout_views(self, o: WinHidpParser)
        requires
            self.same_layout(o),
            o.wf(),
        ensures
            self.channel_views() == o.channel_views(),
            self.axis_count() == o.axis_count(),
            self.hat_count() == o.hat_count(),
            self.button_count() == o.button_count(),
    {
        assert forall|k: int| 0 <= k < self.axis_fields_by_index.len() implies
            axis_view(self.values@[self.axis_fields_by_index@[k] as int], k)
                == axis_view(o.values@[o.axis_fields_by_index@[k] as int], k) by {
            let i = self.axis_fields_by_index@[k] as int;
            assert(without_collection(self.values@[i]) == without_collection(o.values@[i]));
        }
        assert forall|k: int| 0 <= k < self.hat_fields_by_index.len() implies
            hat_view(self.values@[self.hat_fields_by_index@[k] as int], k)
                == hat_view(o.values@[o.hat_fields_by_index@[k] as int], k) by {
            let i = self.hat_fields_by_index@[k] as int;
            assert(without_collection(self.values@[i]) == without_collection(o.values@[i]));
        }
        assert(self.channel_views() =~= o.channel_views());
    }

    /// Decodes the value capabilities of one report.
    fn decode_values(&mut self, rid: u8, reads: &Vec<ValueRead>, out: &mut Vec<InputKind>)
        requires
            old(self).wf(),
        ensures
            final(self).wf(),
            final(self).same_layout(*old(self)),
            final(self).last_pressed_buttons@ == old(self).last_pressed_buttons@,
            final(out)@.len() >= old(out)@.len(),
            final(out)@.take(old(out)@.len() as int) == old(out)@,
            forall|k: int| old(out)@.len() <= k < final(out)@.len() ==> old(self).value_event_ok(#[trigger] final(out)@[k]),
            final(out)@ == old(out)@ + old(self).value_events(rid, reads@, old(self).value_field_count()),
    {
        let ghost start = *self;
        let ghost out0 = out@;
        let mut i: usize = 0;
        while i < self.values.len()
            invariant
                out@ == out0 + start.value_events(rid, reads@, i as int),
                forall|j: int| i <= j < self.values.len() ==> {
                    let x = #[trigger] self.values@[j];
                    &&& (x.is_hat ==> self.last_hat_value@[x.index as int] == start.last_hat_value@[x.index as int])
                    &&& (!x.is_hat ==> self.last_axis_value@[x.index as int] == start.last_axis_value@[x.index as int])
                },
                self.epsilon_den == start.epsilon_den,
                self.wf(),
                self.same_layout(start),
                start.wf(),
                self.last_pressed_buttons@ == start.last_pressed_buttons@,
                i <= self.values.len(),
                out@.len() >= out0.len(),
                out@.take(out0.len() as int) == out0,
                forall|k: int| out0.len() <= k < out@.len() ==> start.value_event_ok(#[trigger] out@[k]),
            decreases self.values.len() - i,
        {
            let mut vf = self.values[i];
            let ghost out_i = out@;
            let ghost self_i = *self;
            assert(without_collection(vf) == without_collection(start.values@[i as int]));
            if selected(vf.report_id, rid) && i < reads.len() {
                let raw_opt: Option<u32> = match reads[i] {
                    ValueRead::Failed => None,
                    ValueRead::Read(x) => Some(x),
                    ValueRead::ReadAtRoot(x) => {
                        if vf.link_collection != 0 {
                            vf.link_collection = 0;
                            self.values.set(i, vf);
                            assert(self.values@[i as int].is_hat == vf.is_hat);
                        }
                        Some(x)
                    },
                };
                if let Some(raw) = raw_opt {
                    let reading = reading_as_i32(raw);
                    let ghost oi = out@.len();
                    if vf.is_hat {
                        let slot = hat_value_to_slot(reading, vf.logical_min, vf.logical_max, vf.hat_is_degrees);
                        let h = vf.index as usize;
                        assert(h < self.last_hat_value.len());
                        let changed = match self.last_hat_value[h] {
                            Some(l) => l != slot,
                            None => true,
                        };
                        if changed {
                            self.last_hat_value.set(h, Some(slot));
                            out.push(InputKind::HatChanged { hat: vf.index, value: slot });
                            assert(out@.take(out0.len() as int) =~= out0);
                        }
                    } else {
                        let v = normalize_axis_value(reading, vf.logical_min, vf.logical_max);
                        let a = vf.index as usize;
                        assert(a < self.last_axis_value.len());
                        let changed = match self.last_axis_value[a] {
                            Some(l) => moved_more_than(v, l, 4, self.epsilon_den),
                            None => true,
                        };
                        if changed {
                            self.last_axis_value.set(a, Some(v));
                            out.push(InputKind::AxisMoved { axis: vf.index, value: v });
                            assert(out@.take(out0.len() as int) =~= out0);
                        }
                    }
                }
            }
            proof {
                let e = start.value_event(rid, reads@, i as int);
                assert(start.value_events(rid, reads@, i + 1) == match e {
                    Some(x) => start.value_events(rid, reads@, i as int).push(x),
                    None => start.value_events(rid, reads@, i as int),
                });
                assert(out@ =~= out0 + start.value_events(rid, reads@, i + 1));
                assert forall|j: int| i + 1 <= j < self.values.len() implies {
                    let x = #[trigger] self.values@[j];
                    &&& (x.is_hat ==> self.last_hat_value@[x.index as int] == start.last_hat_value@[x.index as int])
                    &&& (!x.is_hat ==> self.last_axis_value@[x.index as int] == start.last_axis_value@[x.index as int])
                } by {
                    let x = self.values@[j];
                    assert(x == self_i.values@[j]);
                    if x.is_hat && vf.is_hat {
                        assert(self_i.hat_fields_by_index@[x.index as int] == j);
                        assert(self_i.hat_fields_by_index@[vf.index as int] == i);
                    }
                    if !x.is_hat && !vf.is_hat {
                        assert(self_i.axis_fields_by_index@[x.index as int] == j);
                        assert(self_i.axis_fields_by_index@[vf.index as int] == i);
                    }
                }
            }
            i += 1;
        }
    }

    /// Decodes one report.
    ///
    /// `rid` is the effective report id from [`WinHidpParser::prepare_report`];
    /// `button_reads[i]` holds the usages that the host reported pressed for button
    /// capability `i` (`None` when the query failed or was not made), and `value_reads[i]`
    /// the reading of value capability `i`. Capabilities of other reports are ignored.
    pub fn parse(
        &mut self,
        rid: u8,
        button_reads: &Vec<Option<Vec<u16>>>,
        value_reads: &Vec<ValueRead>,
        out: &mut Vec<InputKind>,
    )
        requires
            old(self).wf(),
        ensures
            final(self).wf(),
            final(self).channel_views() == old(self).channel_views(),
            final(self).axis_count() == old(self).axis_count(),
            final(self).hat_count() == old(self).hat_count(),
            final(self).button_count() == old(self).button_count(),
            strictly_ascending(final(self).pressed()),
            forall|b: u16| final(self).pressed().contains(b) <==> old(self).pressed_by(rid, button_reads@, b),
            ({
                let edges = edge_events(old(self).pressed(), final(self).pressed());
                let n = old(out)@.len() + edges.len();
                &&& final(out)@.len() >= n
                &&& final(out)@.take(n as int) == old(out)@ + edges
                &&& forall|k: int| n <= k < final(out)@.len() ==> old(self).value_event_ok(#[trigger] final(out)@[k])
                &&& final(out)@ == old(out)@ + edges + old(self).value_events(rid, value_reads@, old(self).value_field_count())
            }),
            forall|k: int| old(out)@.len() <= k < final(out)@.len() ==>
                described(final(self).channel_views(), channel_of(#[trigger] final(out)@[k])),
    {
        let ghost s0 = *self;
        let now = self.collect_pressed(rid, button_reads);
        let ghost out0 = out@;
        push_edges(&self.last_pressed_buttons, &now, out);
        let ghost out1 = out@;
        self.last_pressed_buttons = now;
        assert(self.same_layout(s0));
        assert(self.wf());
        let ghost s1 = *self;
        self.decode_values(rid, value_reads, out);
        proof {
            lemma_value_events_agree(s1, s0, rid, value_reads@, s0.values.len() as int);
            assert(out@ =~= out0 + edge_events(s0.pressed(), self.pressed()) + s0.value_events(rid, value_reads@, s0.value_field_count()));
            self.lemma_same_layout_views(s0);
            let edges = edge_events(s0.pressed(), self.pressed());
            assert(out1 == out0 + edges);
            assert(out@.take(out1.len() as int) == out1);
            lemma_edges_described(s0, s0.pressed(), self.pressed(), edges);
            assert forall|k: int| out0.len() <= k < out@.len() implies
                described(self.channel_views(), channel_of(#[trigger] out@[k])) by {
                if k < out1.len() {
                    assert(out@[k] == out1[k]);
                    assert(out1[k] == edges[k - out0.len()]);
                } else {
                    s0.lemma_value_event_described(out@[k]);
                }
            }
        }
    }

    proof fn lemma_value_event_described(self, e: InputKind)
        requires
            self.wf(),
            self.value_event_ok(e),
        ensures
            described(self.channel_views(), channel_of(e)),
    {
        let cv = self.channel_views();
        let na = self.axis_fields_by_index.len() as int;
        match e {
            InputKind::AxisMoved { axis, .. } => {
                assert(cv[axis as int].kind == ChannelKind::Axis && cv[axis as int].idx == axis);
            },
            InputKind::HatChanged { hat, .. } => {
                assert(cv[na + hat].kind == ChannelKind::Hat && cv[na + hat].idx == hat);
            },
            _ => {},
        }
    }
}

/// Every edge names a button that the parser describes.
proof fn lemma_edges_described(p: WinHidpParser, last: Seq<u16>, now: Seq<u16>, edges: Seq<InputKind>)
    requires
        p.wf(),
        edges == edge_events(last, now),
        forall|k: int| 0 <= k < last.len() ==> (#[trigger] last[k]) < p.button_count(),
        forall|k: int| 0 <= k < now.len() ==> (#[trigger] now[k]) < p.button_count(),
    ensures
        forall|k: int| 0 <= k < edges.len() ==> described(p.channel_views(), channel_of(#[trigger] edges[k])),
{
    let fp = |b: u16| !last.contains(b);
    let fr = |b: u16| !now.contains(b);
    let pn = now.filter(fp);
    let rl = last.filter(fr);
    let cv = p.channel_views();
    let base = p.axis_count() + p.hat_count();
    assert forall|k: int| 0 <= k < edges.len() implies described(cv, channel_of(#[trigger] edges[k])) by {
        if k < pn.len() {
            now.lemma_filter_contains_rev(fp, pn[k]);
            assert(pn.contains(pn[k]));
            let b = pn[k];
            assert(now.contains(b));
            let q = choose|q: int| 0 <= q < now.len() && now[q] == b;
            assert(b < p.button_count());
            assert(cv[base + b].kind == ChannelKind::Button && cv[base + b].idx == b);
        } else {
            let j = k - pn.len();
            last.lemma_filter_contains_rev(fr, rl[j]);
            assert(rl.contains(rl[j]));
            let b = rl[j];
            assert(last.contains(b));
            let q = choose|q: int| 0 <= q < last.len() && last[q] == b;
            assert(b < p.button_count());
            assert(cv[base + b].kind == ChannelKind::Button && cv[base + b].idx == b);
        }
    }
}


impl WinHidpParser {
    pub closed spec fn button_cap_count_spec(self) -> nat {
        self.buttons.len() as nat
    }

    pub closed spec fn value_count_spec(self) -> nat {
        self.values.len() as nat
    }

    /// Number of button capabilities; `button_reads` of `parse` is indexed by them.
    pub fn button_cap_count(&self) -> (r: usize)
        ensures
            r == self.button_cap_count_spec(),
    {
        self.buttons.len()
    }

    /// `(report_id, usage_page, link_collection)` of button capability `i`, for the host's
    /// "get pressed usages" query.
    pub fn button_query(&self, i: usize) -> (r: Option<(u8, u16, u16)>)
        ensures
            r is Some <==> i < self.button_cap_count_spec(),
    {
        if i < self.buttons.len() {
            let b = &self.buttons[i];
            Some((b.report_id, b.usage_page, b.link_collection))
        } else {
            None
        }
    }

    /// Number of value fields; `value_reads` of `parse` is indexed by them.
    pub fn value_count(&self) -> (r: usize)
        ensures
            r == self.value_count_spec(),
    {
        self.values.len()
    }

    /// `(report_id, usage_page, usage, link_collection)` of value field `i`, for the host's
    /// "get usage value" query.
    pub fn value_query(&self, i: usize) -> (r: Option<(u8, u16, u16, u16)>)
        ensures
            r is Some <==> i < self.value_count_spec(),
    {
        if i < self.values.len() {
            let v = self.values[i];
            Some((v.report_id, v.usage_page, v.usage, v.link_collection))
        } else {
            None
        }
    }

    /// Whether a capability with report id `cap_rid` takes part in a report with id `rid`.
    pub fn takes_part(cap_rid: u8, rid: u8) -> (r: bool)
        ensures
            r == cap_selected(cap_rid, rid),
    {
        selected(cap_rid, rid)
    }
}


/// The edges of button `b` among `evs`, in order: `true` for a press, `false` for a release.
pub open spec fn button_flags(evs: Seq<InputKind>, b: u16) -> Seq<bool>
    decreases evs.len(),
{
    if evs.len() == 0 {
        Seq::empty()
    } else {
        let rest = button_flags(evs.drop_last(), b);
        let e = evs.last();
        if e == (InputKind::ButtonPressed { button: b }) {
            rest.push(true)
        } else if e == (InputKind::ButtonReleased { button: b }) {
            rest.push(false)
        } else {
            rest
        }
    }
}

/// The edges of successive reports whose pressed sets are `sets[0], sets[1], ...`.
pub open spec fn trace_edges(sets: Seq<Seq<u16>>) -> Seq<InputKind>
    decreases sets.len(),
{
    if sets.len() < 2 {
        Seq::empty()
    } else {
        trace_edges(sets.drop_last()) + edge_events(sets[sets.len() - 2], sets.last())
    }
}

proof fn lemma_button_flags_add(a: Seq<InputKind>, c: Seq<InputKind>, b: u16)
    ensures
        button_flags(a + c, b) == button_flags(a, b) + button_flags(c, b),
    decreases c.len(),
{
    if c.len() == 0 {
        assert(a + c =~= a);
        assert(button_flags(a, b) + button_flags(c, b) =~= button_flags(a, b));
    } else {
        assert((a + c).drop_last() =~= a + c.drop_last());
        assert((a + c).last() == c.last());
        lemma_button_flags_add(a, c.drop_last(), b);
        let x = if c.last() == (InputKind::ButtonPressed { button: b }) {
            seq![true]
        } else if c.last() == (InputKind::ButtonReleased { button: b }) {
            seq![false]
        } else {
            Seq::<bool>::empty()
        };
        assert(button_flags(a + c, b) =~= button_flags(a, b) + button_flags(c.drop_last(), b) + x);
        assert(button_flags(c, b) =~= button_flags(c.drop_last(), b) + x);
    }
}

/// A press (or release) of button `x`.
pub open spec fn edge_of(press: bool, x: u16) -> InputKind {
    if press {
        InputKind::ButtonPressed { button: x }
    } else {
        InputKind::ButtonReleased { button: x }
    }
}

/// The buttons of `s` that `f` keeps, each turned into a press (or release).
pub open spec fn kept_edges(s: Seq<u16>, f: spec_fn(u16) -> bool, press: bool) -> Seq<InputKind> {
    s.filter(f).map_values(|x: u16| edge_of(press, x))
}

/// Of a strictly ascending set, the kept buttons turned into presses (or releases) hold at
/// most one edge of `b`: one when `b` is kept.
proof fn lemma_flags_of_kept(s: Seq<u16>, f: spec_fn(u16) -> bool, press: bool, b: u16)
    requires
        strictly_ascending(s),
    ensures
        button_flags(kept_edges(s, f, press), b) == (if s.contains(b) && f(b) {
            seq![press]
        } else {
            Seq::<bool>::empty()
        }),
    decreases s.len(),
{
    if s.len() == 0 {
        assert(s.filter(f) =~= Seq::<u16>::empty()) by {
            reveal(Seq::filter);
        }
        assert(kept_edges(s, f, press) =~= Seq::<InputKind>::empty());
        assert(button_flags(kept_edges(s, f, press), b) =~= Seq::<bool>::empty());
    } else {
        let t = s.drop_last();
        let x = s.last();
        assert(s =~= t.push(x));
        assert(strictly_ascending(t));
        lemma_flags_of_kept(t, f, press, b);
        t.lemma_filter_push(x, f);
        let k = kept_edges(s, f, press);
        if f(x) {
            assert(k =~= kept_edges(t, f, press).push(edge_of(press, x)));
            assert(k.drop_last() =~= kept_edges(t, f, press));
            assert(k.last() == edge_of(press, x));
        } else {
            assert(k =~= kept_edges(t, f, press));
        }
        assert(s.contains(b) == (t.contains(b) || x == b)) by {
            if s.contains(b) {
                let i = choose|i: int| 0 <= i < s.len() && s[i] == b;
                if i < s.len() - 1 {
                    assert(t[i] == b);
                }
            }
            if t.contains(b) {
                let i = choose|i: int| 0 <= i < t.len() && t[i] == b;
                assert(s[i] == b);
            }
        }
        if x == b {
            assert(!t.contains(b)) by {
                if t.contains(b) {
                    let i = choose|i: int| 0 <= i < t.len() && t[i] == b;
                    assert(s[i] < s[s.len() - 1]);
                }
            }
        }
        let want = if s.contains(b) && f(b) { seq![press] } else { Seq::<bool>::empty() };
        assert(button_flags(k, b) =~= want);
    }
}

proof fn lemma_edge_flags(last: Seq<u16>, now: Seq<u16>, b: u16)
    requires
        strictly_ascending(last),
        strictly_ascending(now),
    ensures
        button_flags(edge_events(last, now), b) == (if now.contains(b) && !last.contains(b) {
            seq![true]
        } else if last.contains(b) && !now.contains(b) {
            seq![false]
        } else {
            Seq::<bool>::empty()
        }),
{
    let fp = |x: u16| !last.contains(x);
    let fr = |x: u16| !now.contains(x);
    lemma_flags_of_kept(now, fp, true, b);
    lemma_flags_of_kept(last, fr, false, b);
    let a = kept_edges(now, fp, true);
    let c = kept_edges(last, fr, false);
    assert(a =~= now.filter(fp).map_values(|b: u16| InputKind::ButtonPressed { button: b }));
    assert(c =~= last.filter(fr).map_values(|b: u16| InputKind::ButtonReleased { button: b }));
    assert(edge_events(last, now) =~= a + c);
    lemma_button_flags_add(a, c, b);
    let want = if now.contains(b) && !last.contains(b) {
        seq![true]
    } else if last.contains(b) && !now.contains(b) {
        seq![false]
    } else {
        Seq::<bool>::empty()
    };
    assert(button_flags(edge_events(last, now), b) =~= want);
}

/// Button edges alternate: over any run of reports that starts with no button held, the
/// presses and releases of each button alternate, starting with a press.
///
/// `sets[k]` is the pressed set after report `k` (`sets[0]`, the state at construction, is
/// empty); each report emits `edge_events(sets[k - 1], sets[k])`.
pub proof fn lemma_button_edges_alternate(sets: Seq<Seq<u16>>, b: u16)
    requires
        sets.len() >= 1,
        sets[0].len() == 0,
        forall|k: int| 0 <= k < sets.len() ==> strictly_ascending(#[trigger] sets[k]),
    ensures
        forall|i: int| 0 <= i < button_flags(trace_edges(sets), b).len() ==>
            #[trigger] button_flags(trace_edges(sets), b)[i] == (i % 2 == 0),
        (button_flags(trace_edges(sets), b).len() % 2 == 1) == sets.last().contains(b),
    decreases sets.len(),
{
    if sets.len() == 1 {
        assert(button_flags(trace_edges(sets), b) =~= Seq::<bool>::empty());
        assert(!sets[0].contains(b));
    } else {
        let prev = sets.drop_last();
        assert(forall|k: int| 0 <= k < prev.len() ==> prev[k] == sets[k]);
        lemma_button_edges_alternate(prev, b);
        let l = sets[sets.len() - 2];
        let n = sets.last();
        assert(prev.last() == l);
        lemma_button_flags_add(trace_edges(prev), edge_events(l, n), b);
        lemma_edge_flags(l, n, b);
    }
}

/// Descriptor determinism: the channel list depends on the parser's layout alone, and
/// decoding a report leaves it unchanged.
pub proof fn lemma_describe_stable(
    before: WinHidpParser,
    after: WinHidpParser,
    first: Seq<ChannelDesc>,
    second: Seq<ChannelDesc>,
)
    requires
        before.channel_views() == after.channel_views(),
        descs_view(first) == before.channel_views(),
        descs_view(second) == after.channel_views(),
    ensures
        descs_view(first) == descs_view(second),
{
}


/// How a raw read splits into report id and payload: the first byte is the id when the
/// device uses report ids; otherwise the whole read is payload under id 0.
pub open spec fn split_read(data: Seq<u8>, expects_prefix: bool) -> (u8, Seq<u8>) {
    if expects_prefix && data.len() > 0 {
        (data[0], data.skip(1))
    } else {
        (0u8, data)
    }
}

/// Splits a raw read into report id and payload.
pub fn split_report(data: &[u8], expects_prefix: bool) -> (r: (u8, Vec<u8>))
    ensures
        r.0 == split_read(data@, expects_prefix).0,
        r.1@ == split_read(data@, expects_prefix).1,
{
    let start: usize = if expects_prefix && data.len() > 0 { 1 } else { 0 };
    let rid: u8 = if start == 1 { data[0] } else { 0 };
    let mut payload: Vec<u8> = Vec::new();
    let mut i: usize = start;
    while i < data.len()
        invariant
            start <= i <= data.len(),
            payload@ == data@.subrange(start as int, i as int),
        decreases data.len() - i,
    {
        payload.push(data[i]);
        i += 1;
        assert(payload@ =~= data@.subrange(start as int, i as int));
    }
    assert(data@.subrange(start as int, data@.len() as int) =~= split_read(data@, expects_prefix).1);
    (rid, payload)
}


proof fn lemma_value_events_agree(a: WinHidpParser, b: WinHidpParser, rid: u8, reads: Seq<ValueRead>, n: int)
    requires
        a.values@ == b.values@,
        a.last_axis_value@ == b.last_axis_value@,
        a.last_hat_value@ == b.last_hat_value@,
        a.epsilon_den == b.epsilon_den,
    ensures
        a.value_events(rid, reads, n) == b.value_events(rid, reads, n),
    decreases n,
{
    if n > 0 {
        lemma_value_events_agree(a, b, rid, reads, n - 1);
        assert(a.value_event(rid, reads, n - 1) == b.value_event(rid, reads, n - 1));
    }
}

} // verus!
