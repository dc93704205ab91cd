use vstd::prelude::*;
use vstd::string::*;

use crate::text::{hex_text, push_char, push_hex, push_str};

verus! {

/// Stable identity of a physical device.
#[derive(Clone, Debug, PartialEq, Eq, Hash)]
pub struct DeviceFingerprint {
    pub vendor_id: u16,
    pub product_id: u16,
    pub serial_number: Option<String>,
    pub path: Option<String>,
}

pub open spec fn opt_view(o: Option<String>) -> Option<Seq<char>> {
    match o {
        Some(s) => Some(s@),
        None => None,
    }
}

pub open spec fn is_separator(c: char) -> bool {
    c == '/' || c == '\\'
}

/// What follows the last `/` or `\` of a path (the whole path when it has neither).
pub open spec fn last_segment(p: Seq<char>) -> Seq<char>
    decreases p.len(),
{
    if p.len() == 0 {
        Seq::empty()
    } else if is_separator(p.last()) {
        Seq::empty()
    } else {
        last_segment(p.drop_last()).push(p.last())
    }
}

/// The canonical id string: `vid:pid:serial`, else `vid:pid@segment`, else `vid:pid`,
/// with vid and pid as four lower-case hexadecimal digits.
pub open spec fn fingerprint_text(
    vid: u16,
    pid: u16,
    serial: Option<Seq<char>>,
    path: Option<Seq<char>>,
) -> Seq<char> {
    let head = hex_text(vid as nat, 4) + seq![':'] + hex_text(pid as nat, 4);
    match serial {
        Some(s) => head + seq![':'] + s,
        None => match path {
            Some(p) => head + seq!['@'] + last_segment(p),
            None => head,
        },
    }
}

/// What follows the last `/` or `\` of `p`.
pub fn path_last_segment(p: &str) -> (r: String)
    ensures
        r@ == last_segment(p@),
{
    let n = p.unicode_len();
    let mut seg = String::new();
    let mut i: usize = 0;
    while i < n
        invariant
            n == p@.len(),
            i <= n,
            seg@ == last_segment(p@.take(i as int)),
        decreases n - i,
    {
        let c = p.get_char(i);
        assert(p@.take(i + 1).drop_last() =~= p@.take(i as int));
        assert(p@.take(i + 1).last() == c);
        if c == '/' || c == '\\' {
            seg = String::new();
        } else {
            push_char(&mut seg, c);
        }
        i += 1;
    }
    assert(p@.take(n as int) =~= p@);
    seg
}

impl DeviceFingerprint {
    pub open spec fn text(self) -> Seq<char> {
        fingerprint_text(self.vendor_id, self.product_id, opt_view(self.serial_number), opt_view(self.path))
    }

    /// The canonical id string of the device.
    pub fn to_string(&self) -> (r: String)
        ensures
            r@ == self.text(),
    {
        let mut s = String::new();
        push_hex(&mut s, self.vendor_id as u64, 4);
        push_char(&mut s, ':');
        push_hex(&mut s, self.product_id as u64, 4);
        match &self.serial_number {
            Some(serial) => {
                push_char(&mut s, ':');
                push_str(&mut s, serial.as_str());
            },
            None => match &self.path {
                Some(path) => {
                    push_char(&mut s, '@');
                    let seg = path_last_segment(path.as_str());
                    push_str(&mut s, seg.as_str());
                },
                None => {},
            },
        }
        assert(s@ =~= self.text());
        s
    }
}

/// Two fingerprints whose fields agree have the same id string: the id depends on the
/// fingerprint's fields alone.
pub proof fn lemma_fingerprint_text_depends_on_fields(a: DeviceFingerprint, b: DeviceFingerprint)
    requires
        a.vendor_id == b.vendor_id,
        a.product_id == b.product_id,
        opt_view(a.serial_number) == opt_view(b.serial_number),
        opt_view(a.path) == opt_view(b.path),
    ensures
        a.text() == b.text(),
{
}

/// Best-effort descriptive snapshot of a device; unknown fields are `None`.
#[derive(Clone, Debug, Default, PartialEq, Eq)]
pub struct DeviceMeta {
    pub bus: Option<String>,
    pub vid: Option<u16>,
    pub pid: Option<u16>,
    pub product_string: Option<String>,
    pub serial_number: Option<String>,
    pub interface_number: Option<i32>,
    pub usage_page: Option<u16>,
    pub usage: Option<u16>,
    pub path: Option<String>,
    pub container_id: Option<String>,
}

} // verus!
