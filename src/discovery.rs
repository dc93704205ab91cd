use vstd::prelude::*;

use crate::device::{DeviceFingerprint, DeviceMeta, opt_view};
use crate::event::{ChannelDesc, ChannelKind};
use crate::text::{dec_text, push_dec, text_of};

verus! {

/// What HID enumeration reports of one device interface.
#[derive(Clone, Debug, PartialEq, Eq)]
pub struct HidDeviceInfo {
    pub vendor_id: u16,
    pub product_id: u16,
    pub serial_number: Option<String>,
    pub product_string: Option<String>,
    pub path: String,
    pub usage_page: u16,
    pub usage: u16,
    pub interface_number: i32,
}

/// `s` holds `IG_`, the mark of an XInput-compatible HID endpoint.
pub open spec fn has_ig_marker(s: Seq<char>) -> bool {
    exists|i: int| 0 <= i && i + 3 <= s.len() && #[trigger] s[i] == 'I' && s[i + 1] == 'G' && s[i + 2] == '_'
}

/// The usage pages that carry game controls: Generic Desktop, Simulation Controls, Physical
/// Interface and the vendor-defined pages `0xFFxx`.
pub open spec fn is_game_page(page: u16) -> bool {
    page == 0x01 || page == 0x02 || page == 0x0F || page >= 0xFF00
}

/// The discovery filter: game-control pages only; no Generic Desktop mouse or keyboard; no
/// Generic Desktop gamepad on an XInput-compatible path.
pub open spec fn accepted(page: u16, usage: u16, path: Seq<char>) -> bool {
    &&& is_game_page(page)
    &&& !(page == 0x01 && (usage == 0x02 || usage == 0x06))
    &&& !(page == 0x01 && usage == 0x05 && has_ig_marker(path))
}

fn contains_ig(s: &str) -> (r: bool)
    ensures
        r == has_ig_marker(s@),
{
    let n = s.unicode_len();
    if n < 3 {
        return false;
    }
    let mut i: usize = 0;
    while i <= n - 3
        invariant
            n == s@.len(),
            n >= 3,
            i <= n - 2,
            forall|j: int| 0 <= j < i ==> !(#[trigger] s@[j] == 'I' && s@[j + 1] == 'G' && s@[j + 2] == '_'),
        decreases n - i,
    {
        if s.get_char(i) == 'I' && s.get_char(i + 1) == 'G' && s.get_char(i + 2) == '_' {
            return true;
        }
        i += 1;
    }
    false
}

/// Whether a HID interface should be opened as a game device.
pub fn accept_device(info: &HidDeviceInfo) -> (r: bool)
    ensures
        r == accepted(info.usage_page, info.usage, info.path@),
{
    let up = info.usage_page;
    let u = info.usage;
    let is_generic_desktop = up == 0x01;
    if !(is_generic_desktop || up == 0x02 || up == 0x0F || (up & 0xFF00) == 0xFF00) {
        assert((up & 0xFF00) == 0xFF00 <==> up >= 0xFF00) by (bit_vector);
        return false;
    }
    assert((up & 0xFF00) == 0xFF00 <==> up >= 0xFF00) by (bit_vector);
    if is_generic_desktop && (u == 0x02 || u == 0x06) {
        return false;
    }
    if is_generic_desktop && u == 0x05 && contains_ig(info.path.as_str()) {
        return false;
    }
    true
}

fn copy_opt(o: &Option<String>) -> (r: Option<String>)
    ensures
        opt_view(r) == opt_view(*o),
{
    match o {
        Some(s) => Some(s.clone()),
        None => None,
    }
}

impl DeviceFingerprint {
    /// The fingerprint of a HID interface: its vendor, product, serial and path.
    pub fn from_info(info: &HidDeviceInfo) -> (r: DeviceFingerprint)
        ensures
            r.vendor_id == info.vendor_id,
            r.product_id == info.product_id,
            opt_view(r.serial_number) == opt_view(info.serial_number),
            opt_view(r.path) == Some(info.path@),
    {
        DeviceFingerprint {
            vendor_id: info.vendor_id,
            product_id: info.product_id,
            serial_number: copy_opt(&info.serial_number),
            path: Some(info.path.clone()),
        }
    }
}

/// The metadata of a HID interface; a negative interface number is unknown.
pub fn meta_from_info(info: &HidDeviceInfo) -> (r: DeviceMeta)
    ensures
        r.vid == Some(info.vendor_id),
        r.pid == Some(info.product_id),
        r.usage_page == Some(info.usage_page),
        r.usage == Some(info.usage),
        r.interface_number == (if info.interface_number >= 0 { Some(info.interface_number) } else { None::<i32> }),
        opt_view(r.bus) == Some("usb"@),
        opt_view(r.serial_number) == opt_view(info.serial_number),
        opt_view(r.product_string) == opt_view(info.product_string),
        opt_view(r.path) == Some(info.path@),
        r.container_id is None,
{
    DeviceMeta {
        bus: Some(text_of("usb")),
        vid: Some(info.vendor_id),
        pid: Some(info.product_id),
        product_string: copy_opt(&info.product_string),
        serial_number: copy_opt(&info.serial_number),
        interface_number: if info.interface_number >= 0 { Some(info.interface_number) } else { None },
        usage_page: Some(info.usage_page),
        usage: Some(info.usage),
        path: Some(info.path.clone()),
        container_id: None,
    }
}

/// `xinput:N`, the serial and path of XInput slot `N`.
pub open spec fn xinput_tag(index: u32) -> Seq<char> {
    "xinput:"@ + dec_text(index as nat)
}

fn xinput_tag_string(index: u32) -> (r: String)
    ensures
        r@ == xinput_tag(index),
{
    let mut s = text_of("xinput:");
    push_dec(&mut s, index as u64);
    s
}

/// The synthesized fingerprint of XInput slot `index`.
pub fn xinput_fingerprint(index: u32) -> (r: DeviceFingerprint)
    ensures
        r.vendor_id == 0x045e,
        r.product_id == 0,
        opt_view(r.serial_number) == Some(xinput_tag(index)),
        opt_view(r.path) == Some(xinput_tag(index)),
{
    DeviceFingerprint {
        vendor_id: 0x045e,
        product_id: 0x0000,
        serial_number: Some(xinput_tag_string(index)),
        path: Some(xinput_tag_string(index)),
    }
}

/// The metadata of XInput slot `index`.
pub fn xinput_meta(index: u32) -> (r: DeviceMeta)
    ensures
        opt_view(r.bus) == Some("xinput"@),
        r.vid == Some(0x045eu16),
        r.pid == Some(0u16),
        opt_view(r.product_string) == Some("XInput Controller "@ + dec_text(index as nat)),
        opt_view(r.serial_number) == Some(xinput_tag(index)),
        opt_view(r.path) == Some(xinput_tag(index)),
{
    let mut name = text_of("XInput Controller ");
    push_dec(&mut name, index as u64);
    DeviceMeta {
        bus: Some(text_of("xinput")),
        vid: Some(0x045e),
        pid: Some(0x0000),
        product_string: Some(name),
        serial_number: Some(xinput_tag_string(index)),
        interface_number: None,
        usage_page: None,
        usage: None,
        path: Some(xinput_tag_string(index)),
        container_id: None,
    }
}

/// Why a HID parser could not be built.
#[derive(Clone, Copy, Debug, PartialEq, Eq, Structural)]
pub enum ParserFailKind {
    Unknown,
}

/// Where along discovery a HID interface was dropped.
#[derive(Clone, Debug, PartialEq, Eq)]
pub enum DropStage {
    /// Rejected by the usage-page / usage / XInput filter.
    FilterRejected,
    /// The descriptor-driven parser could not be built.
    ParserFailed(ParserFailKind),
    /// The device could not be opened or wrapped.
    DeviceWrapFailed(String),
}

/// Channel counts of a device.
#[derive(Clone, Debug, PartialEq, Eq)]
pub struct CapsSummary {
    pub axes: usize,
    pub buttons: usize,
    pub hats: usize,
    pub report_ids: Vec<u8>,
    pub only_rid0: bool,
}

/// Debug record of one HID interface's way through discovery.
#[derive(Clone, Debug, PartialEq, Eq)]
pub struct DeviceDebugInfo {
    pub vid: u16,
    pub pid: u16,
    pub serial: Option<String>,
    pub product_string: Option<String>,
    pub path: String,
    pub usage_page: Option<u16>,
    pub usage: Option<u16>,
    pub interface_number: i32,
    pub accepted_by_filter: bool,
    pub drop_stage: Option<DropStage>,
    pub caps: Option<CapsSummary>,
}

pub open spec fn count_kind(descs: Seq<ChannelDesc>, kind: ChannelKind) -> nat {
    descs.filter(|d: ChannelDesc| d.kind == kind).len()
}

/// Counts the axes, buttons and hats among `descs`.
pub fn caps_summary(descs: &Vec<ChannelDesc>) -> (r: CapsSummary)
    ensures
        r.axes == count_kind(descs@, ChannelKind::Axis),
        r.buttons == count_kind(descs@, ChannelKind::Button),
        r.hats == count_kind(descs@, ChannelKind::Hat),
        r.report_ids@.len() == 0,
        !r.only_rid0,
{
    let mut axes: usize = 0;
    let mut buttons: usize = 0;
    let mut hats: usize = 0;
    let ghost fa = |d: ChannelDesc| d.kind == ChannelKind::Axis;
    let ghost fb = |d: ChannelDesc| d.kind == ChannelKind::Button;
    let ghost fh = |d: ChannelDesc| d.kind == ChannelKind::Hat;
    let mut i: usize = 0;
    while i < descs.len()
        invariant
            i <= descs.len(),
            fa == (|d: ChannelDesc| d.kind == ChannelKind::Axis),
            fb == (|d: ChannelDesc| d.kind == ChannelKind::Button),
            fh == (|d: ChannelDesc| d.kind == ChannelKind::Hat),
            axes == descs@.take(i as int).filter(fa).len(),
            buttons == descs@.take(i as int).filter(fb).len(),
            hats == descs@.take(i as int).filter(fh).len(),
            axes + buttons + hats == i,
        decreases descs.len() - i,
    {
        let d = &descs[i];
        assert(descs@.take(i + 1) =~= descs@.take(i as int).push(*d));
        proof {
            descs@.take(i as int).lemma_filter_push(*d, fa);
            descs@.take(i as int).lemma_filter_push(*d, fb);
            descs@.take(i as int).lemma_filter_push(*d, fh);
        }
        match d.kind {
            ChannelKind::Axis => axes += 1,
            ChannelKind::Button => buttons += 1,
            ChannelKind::Hat => hats += 1,
        }
        i += 1;
    }
    assert(descs@.take(i as int) =~= descs@);
    CapsSummary { axes, buttons, hats, report_ids: Vec::new(), only_rid0: false }
}

/// The starting debug record of a HID interface: its identity, nothing decided yet.
pub fn debug_info(info: &HidDeviceInfo) -> (r: DeviceDebugInfo)
    ensures
        r.vid == info.vendor_id,
        r.pid == info.product_id,
        r.path@ == info.path@,
        r.usage_page == Some(info.usage_page),
        r.usage == Some(info.usage),
        r.interface_number == info.interface_number,
        !r.accepted_by_filter,
        r.drop_stage is None,
        r.caps is None,
{
    DeviceDebugInfo {
        vid: info.vendor_id,
        pid: info.product_id,
        serial: copy_opt(&info.serial_number),
        product_string: copy_opt(&info.product_string),
        path: info.path.clone(),
        usage_page: Some(info.usage_page),
        usage: Some(info.usage),
        interface_number: info.interface_number,
        accepted_by_filter: false,
        drop_stage: None,
        caps: None,
    }
}

} // verus!
