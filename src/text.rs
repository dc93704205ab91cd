use vstd::prelude::*;
use vstd::string::*;

verus! {

/// Lower-case hexadecimal digits.
pub open spec fn hex_alphabet() -> Seq<char> {
    seq!['0', '1', '2', '3', '4', '5', '6', '7', '8', '9', 'a', 'b', 'c', 'd', 'e', 'f']
}

/// `v` in lower-case hexadecimal, left-padded with zeros to at least `w` digits.
pub open spec fn hex_text(v: nat, w: nat) -> Seq<char>
    decreases v + w,
{
    let rest = if v >= 16 || w > 1 {
        hex_text(v / 16, if w > 0 { (w - 1) as nat } else { 0 })
    } else {
        Seq::<char>::empty()
    };
    rest.push(hex_alphabet()[(v % 16) as int])
}

/// `v` in decimal, without leading zeros.
pub open spec fn dec_text(v: nat) -> Seq<char>
    decreases v,
{
    let rest = if v >= 10 {
        dec_text(v / 10)
    } else {
        Seq::<char>::empty()
    };
    rest.push(hex_alphabet()[(v % 10) as int])
}

/// Relies on `String::push`: appends one character.
#[verifier::external_body]
pub(crate) fn push_char(s: &mut String, c: char)
    ensures
        final(s)@ == old(s)@.push(c),
{
    s.push(c);
}

fn digit_char(d: u64) -> (c: char)
    requires
        d < 16,
    ensures
        c == hex_alphabet()[d as int],
{
    match d {
        0 => '0',
        1 => '1',
        2 => '2',
        3 => '3',
        4 => '4',
        5 => '5',
        6 => '6',
        7 => '7',
        8 => '8',
        9 => '9',
        10 => 'a',
        11 => 'b',
        12 => 'c',
        13 => 'd',
        14 => 'e',
        _ => 'f',
    }
}

/// Appends `v` in lower-case hexadecimal, zero-padded to at least `w` digits.
pub fn push_hex(s: &mut String, v: u64, w: u64)
    ensures
        final(s)@ == old(s)@ + hex_text(v as nat, w as nat),
    decreases v + w,
{
    if v >= 16 || w > 1 {
        let nw: u64 = if w > 0 { w - 1 } else { 0 };
        push_hex(s, v / 16, nw);
    }
    push_char(s, digit_char(v % 16));
    assert(final(s)@ =~= old(s)@ + hex_text(v as nat, w as nat));
}

/// Appends `v` in decimal.
pub fn push_dec(s: &mut String, v: u64)
    ensures
        final(s)@ == old(s)@ + dec_text(v as nat),
    decreases v,
{
    if v >= 10 {
        push_dec(s, v / 10);
    }
    push_char(s, digit_char(v % 10));
    assert(final(s)@ =~= old(s)@ + dec_text(v as nat));
}

/// Appends a string slice.
pub fn push_str(s: &mut String, t: &str)
    ensures
        final(s)@ == old(s)@ + t@,
{
    s.append(t);
}

/// A new `String` holding `t`.
pub fn text_of(t: &str) -> (r: String)
    ensures
        r@ == t@,
{
    String::from_str(t)
}


/// Whether two strings hold the same characters.
pub fn str_eq(a: &str, b: &str) -> (r: bool)
    ensures
        r == (a@ == b@),
{
    let n = a.unicode_len();
    if n != b.unicode_len() {
        return false;
    }
    let mut i: usize = 0;
    while i < n
        invariant
            n == a@.len(),
            n == b@.len(),
            i <= n,
            forall|j: int| 0 <= j < i ==> a@[j] == b@[j],
        decreases n - i,
    {
        if a.get_char(i) != b.get_char(i) {
            return false;
        }
        i += 1;
    }
    assert(a@ =~= b@);
    true
}


/// Splits `s` at its first `c`: the text before and the text after.
pub open spec fn split_first(s: Seq<char>, c: char) -> Option<(Seq<char>, Seq<char>)> {
    if exists|i: int| 0 <= i < s.len() && s[i] == c {
        let i = choose|i: int| 0 <= i < s.len() && s[i] == c && forall|j: int| 0 <= j < i ==> s[j] != c;
        Some((s.take(i), s.skip(i + 1)))
    } else {
        None
    }
}

/// Splits `s` at its first `c`.
pub fn split_once(s: &str, c: char) -> (r: Option<(String, String)>)
    ensures
        match (r, split_first(s@, c)) {
            (Some(p), Some(q)) => p.0@ == q.0 && p.1@ == q.1,
            (None, None) => true,
            _ => false,
        },
{
    let n = s.unicode_len();
    let mut head = String::new();
    let mut i: usize = 0;
    while i < n
        invariant
            n == s@.len(),
            i <= n,
            forall|j: int| 0 <= j < i ==> s@[j] != c,
            head@ == s@.take(i as int),
        decreases n - i,
    {
        let ch = s.get_char(i);
        if ch == c {
            let mut tail = String::new();
            let mut k: usize = i + 1;
            while k < n
                invariant
                    n == s@.len(),
                    i < k <= n,
                    tail@ == s@.subrange(i + 1, k as int),
                decreases n - k,
            {
                push_char(&mut tail, s.get_char(k));
                k += 1;
                assert(tail@ =~= s@.subrange(i + 1, k as int));
            }
            proof {
                let w = i as int;
                assert(0 <= w < s@.len() && s@[w] == c);
                let q = choose|q: int| 0 <= q < s@.len() && s@[q] == c && forall|j: int| 0 <= j < q ==> s@[j] != c;
                assert(q == w) by {
                    if q < w {
                        assert(s@[q] != c);
                    } else if q > w {
                        assert(s@[w] != c);
                    }
                }
                assert(tail@ =~= s@.skip(w + 1));
            }
            return Some((head, tail));
        }
        push_char(&mut head, ch);
        i += 1;
        assert(head@ =~= s@.take(i as int));
    }
    None
}

} // verus!
