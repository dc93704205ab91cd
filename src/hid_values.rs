use vstd::prelude::*;

use crate::text::{dec_text, hex_text, push_hex, push_str, text_of};
use crate::value::AxisValue;

verus! {

/// Generic Desktop usage page.
pub const PAGE_GENERIC_DESKTOP: u16 = 0x01;
/// Simulation Controls usage page.
pub const PAGE_SIMULATION: u16 = 0x02;
/// Hat Switch usage on the Generic Desktop page.
pub const USAGE_HAT_SWITCH: u16 = 0x39;

/// A hat reports eight slots when its logical range is `[0, 7]` or `[1, 8]`.
pub open spec fn is_slot_range(lo: i32, hi: i32) -> bool {
    (lo == 0 && hi == 7) || (lo == 1 && hi == 8)
}

/// Classifies a value usage: `(is_hat, hat_is_degrees)`.
pub fn classify_hat(usage_page: u16, usage: u16, logical_min: i32, logical_max: i32) -> (r: (bool, bool))
    ensures
        r.0 == (usage_page == PAGE_GENERIC_DESKTOP && usage == USAGE_HAT_SWITCH),
        r.1 == (r.0 && !is_slot_range(logical_min, logical_max)),
{
    if usage_page == PAGE_GENERIC_DESKTOP && usage == USAGE_HAT_SWITCH {
        let is_slots = (logical_min == 0 && logical_max == 7) || (logical_min == 1 && logical_max
            == 8);
        (true, !is_slots)
    } else {
        (false, false)
    }
}

/// `x` clamped into `[-d, d]`.
pub open spec fn clamp_to(x: int, d: int) -> int {
    if x < -d {
        -d
    } else if x > d {
        d
    } else {
        x
    }
}

/// The normalization of `v` from `[lo, hi]` onto `[-1, 1]`, clamped:
/// `2 (v - lo) / (hi - lo) - 1`, written over the denominator `|hi - lo|`;
/// zero when the range is empty.
pub open spec fn normalized_axis(v: int, lo: int, hi: int) -> AxisValue {
    if lo == hi {
        AxisValue { num: 0, den: 1 }
    } else if hi > lo {
        AxisValue { num: clamp_to(2 * (v - lo) - (hi - lo), hi - lo) as i64, den: (hi - lo) as i64 }
    } else {
        AxisValue {
            num: clamp_to((hi - lo) - 2 * (v - lo), lo - hi) as i64,
            den: (lo - hi) as i64,
        }
    }
}

/// Normalizes a raw axis reading from the logical range `[lo, hi]` onto `[-1, 1]`.
pub fn normalize_axis_value(v: i32, lo: i32, hi: i32) -> (r: AxisValue)
    ensures
        r == normalized_axis(v as int, lo as int, hi as int),
        r.is_unit(),
        r.den <= 0xFFFF_FFFF,
{
    if lo == hi {
        return AxisValue { num: 0, den: 1 };
    }
    let span: i64 = hi as i64 - lo as i64;
    let t: i64 = 2 * (v as i64 - lo as i64);
    let (raw, den): (i64, i64) = if span > 0 {
        (t - span, span)
    } else {
        (span - t, -span)
    };
    let num: i64 = if raw < -den {
        -den
    } else if raw > den {
        den
    } else {
        raw
    };
    AxisValue { num, den }
}

/// The 45-degree sector of `deg` (Up = 0, clockwise): `floor((deg + 22.5) / 45) mod 8`.
pub open spec fn degree_sector(num: int, den: int) -> int {
    ((2 * num + 45 * den) / (90 * den)) % 8
}

/// Maps an angle `num / den` degrees to a hat slot, with sectors centred on multiples of 45.
pub fn degrees_to_slot(num: i64, den: i64) -> (r: i16)
    requires
        den > 0,
    ensures
        r as int == degree_sector(num as int, den as int),
        0 <= r < 8,
{
    let a: i128 = 2 * num as i128 + 45 * den as i128;
    let b: i128 = 90 * den as i128;
    let q: i128 = if a >= 0 {
        a / b
    } else {
        -((-a + b - 1) / b)
    };
    proof {
        if a < 0 {
            let k: int = (-(a as int) + b - 1) / (b as int);
            assert(k * b <= -a + b - 1 < k * b + b) by (nonlinear_arith)
                requires
                    k == (-(a as int) + b - 1) / (b as int),
                    b > 0,
            ;
            assert(-k * b <= a) by (nonlinear_arith)
                requires
                    -a + b - 1 < k * b + b,
            ;
            assert(a < -k * b + b) by (nonlinear_arith)
                requires
                    k * b <= -a + b - 1,
            ;
            assert(a / b == -k) by (nonlinear_arith)
                requires
                    -k * b <= a < -k * b + b,
                    b > 0,
            ;
        }
    }
    let s: i128 = if q >= 0 {
        q % 8
    } else {
        (8 - (-q) % 8) % 8
    };
    proof {
        if q < 0 {
            let m = (-q) % 8;
            assert(q % 8 == (8 - m) % 8) by (nonlinear_arith)
                requires
                    m == (-q) % 8,
                    q < 0,
            ;
        }
    }
    s as i16
}

/// Raw hat readings that devices use to mean "centred".
pub open spec fn is_neutral_sentinel(raw: int) -> bool {
    raw == -1 || raw == 8 || raw == 15 || raw == 255 || raw == 0xFFFF
}

/// The slot for a raw hat reading: `-1` for neutral, `0..7` for directions.
pub open spec fn hat_slot(raw: int, lo: int, hi: int, is_degrees: bool) -> int {
    if raw < lo || raw > hi || is_neutral_sentinel(raw) {
        -1
    } else if !is_degrees {
        if 0 <= raw <= 7 {
            raw
        } else {
            -1
        }
    } else {
        degree_sector(raw, 1)
    }
}

/// Converts a raw hat reading into a slot (`-1` neutral, `0..7` Up = 0 clockwise).
pub fn hat_value_to_slot(raw: i32, lo: i32, hi: i32, is_degrees: bool) -> (r: i16)
    ensures
        r as int == hat_slot(raw as int, lo as int, hi as int, is_degrees),
        -1 <= r <= 7,
{
    if raw < lo || raw > hi || raw == -1 || raw == 8 || raw == 15 || raw == 255 || raw == 0xFFFF {
        return -1;
    }
    if !is_degrees {
        if raw >= 0 && raw <= 7 {
            return raw as i16;
        }
        return -1;
    }
    degrees_to_slot(raw as i64, 1)
}

/// The friendly label of a usage.
pub open spec fn usage_label(page: u16, usage: u16) -> Seq<char> {
    if page == PAGE_GENERIC_DESKTOP {
        if usage == 0x30 {
            "X"@
        } else if usage == 0x31 {
            "Y"@
        } else if usage == 0x32 {
            "Z"@
        } else if usage == 0x33 {
            "Rx"@
        } else if usage == 0x34 {
            "Ry"@
        } else if usage == 0x35 {
            "Rz"@
        } else if usage == 0x36 {
            "Slider"@
        } else if usage == 0x37 {
            "Dial"@
        } else if usage == 0x38 {
            "Wheel"@
        } else if usage == 0x39 {
            "Hat"@
        } else {
            "GD_0x"@ + hex_text(usage as nat, 2)
        }
    } else if page == PAGE_SIMULATION {
        if usage == 0x00 {
            "SimAxis"@
        } else if usage == 0xB0 {
            "Accelerator"@
        } else if usage == 0xB1 {
            "Brake"@
        } else if usage == 0xB2 {
            "Clutch"@
        } else if usage == 0xBB {
            "Throttle"@
        } else {
            "Sim"@
        }
    } else if page >= 0xFF00 {
        "VendorAxis"@
    } else {
        "UP_"@ + hex_text(page as nat, 4) + "_U_"@ + hex_text(usage as nat, 4)
    }
}

/// A friendly name for common usages (X, Y, Throttle, ...), with a hexadecimal fallback.
pub fn usage_name(usage_page: u16, usage: u16) -> (r: Option<String>)
    ensures
        r == Some(r->Some_0),
        r->Some_0@ == usage_label(usage_page, usage),
{
    let s = if usage_page == PAGE_GENERIC_DESKTOP {
        if usage == 0x30 {
            text_of("X")
        } else if usage == 0x31 {
            text_of("Y")
        } else if usage == 0x32 {
            text_of("Z")
        } else if usage == 0x33 {
            text_of("Rx")
        } else if usage == 0x34 {
            text_of("Ry")
        } else if usage == 0x35 {
            text_of("Rz")
        } else if usage == 0x36 {
            text_of("Slider")
        } else if usage == 0x37 {
            text_of("Dial")
        } else if usage == 0x38 {
            text_of("Wheel")
        } else if usage == 0x39 {
            text_of("Hat")
        } else {
            let mut s = text_of("GD_0x");
            push_hex(&mut s, usage as u64, 2);
            s
        }
    } else if usage_page == PAGE_SIMULATION {
        if usage == 0x00 {
            text_of("SimAxis")
        } else if usage == 0xB0 {
            text_of("Accelerator")
        } else if usage == 0xB1 {
            text_of("Brake")
        } else if usage == 0xB2 {
            text_of("Clutch")
        } else if usage == 0xBB {
            text_of("Throttle")
        } else {
            text_of("Sim")
        }
    } else if usage_page >= 0xFF00 {
        text_of("VendorAxis")
    } else {
        let mut s = text_of("UP_");
        push_hex(&mut s, usage_page as u64, 4);
        push_str(&mut s, "_U_");
        push_hex(&mut s, usage as u64, 4);
        s
    };
    Some(s)
}

} // verus!
