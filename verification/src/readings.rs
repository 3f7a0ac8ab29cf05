//! The three metric readings that are parsed out of raw text: battery,
//! mixer volume, and backlight level.

use vstd::prelude::*;
use crate::text::{
    contains_seq, contains_bytes, has_segment, has_token, segment, token, without_bytes,
    remove_bytes, nth_segment_bounds, nth_token_bounds, find_from, find_byte_from,
};

verus! {

/// The decimal digits of `n`, most significant first, as ASCII bytes.
pub open spec fn dec_digits(n: nat) -> Seq<u8>
    decreases n,
{
    if n < 10 {
        seq![(48 + n) as u8]
    } else {
        dec_digits(n / 10).push((48 + n % 10) as u8)
    }
}

/// Formats a battery unit id as decimal ASCII digits.
pub fn id_digits(n: u8) -> (r: Vec<u8>)
    ensures
        r@ == dec_digits(n as nat),
{
    let mut v: Vec<u8> = Vec::new();
    if n >= 100 {
        v.push(48 + n / 100);
        v.push(48 + (n / 10) % 10);
        v.push(48 + n % 10);
        proof {
            reveal_with_fuel(dec_digits, 3);
            assert((n as nat) / 10 / 10 == (n as nat) / 100) by (nonlinear_arith);
            assert(v@ =~= dec_digits(n as nat));
        }
    } else if n >= 10 {
        v.push(48 + n / 10);
        v.push(48 + n % 10);
        proof {
            reveal_with_fuel(dec_digits, 2);
            assert(v@ =~= dec_digits(n as nat));
        }
    } else {
        v.push(48 + n);
        proof {
            assert(v@ =~= dec_digits(n as nat));
        }
    }
    v
}

/// Do the bytes of `a` and `b` agree exactly?
pub fn bytes_equal(a: &[u8], b: &[u8]) -> (r: bool)
    ensures
        r == (a@ == b@),
{
    if a.len() != b.len() {
        return false;
    }
    let mut i: usize = 0;
    while i < a.len()
        invariant
            a@.len() == b@.len(),
            i <= a@.len(),
            forall|k: int| 0 <= k < i ==> a@[k] == b@[k],
        decreases a@.len() - i,
    {
        if a[i] != b[i] {
            return false;
        }
        i = i + 1;
    }
    proof {
        assert(a@ =~= b@);
    }
    true
}

/// Appends the bytes of `s` to `out`.
pub fn append_bytes(out: &mut Vec<u8>, s: &[u8])
    ensures
        final(out)@ == old(out)@ + s@,
{
    let mut i: usize = 0;
    while i < s.len()
        invariant
            i <= s@.len(),
            out@ == old(out)@ + s@.subrange(0, i as int),
        decreases s@.len() - i,
    {
        out.push(s[i]);
        proof {
            assert(old(out)@ + s@.subrange(0, i + 1) =~= (old(out)@ + s@.subrange(0, i as int)).push(
                s@[i as int],
            ));
        }
        i = i + 1;
    }
    proof {
        assert(s@.subrange(0, s@.len() as int) =~= s@);
    }
}

/// "Charging", the marker looked for in a battery status file.
pub open spec fn charging_marker() -> Seq<u8> {
    seq![67u8, 104u8, 97u8, 114u8, 103u8, 105u8, 110u8, 103u8]
}

fn charging_bytes() -> (r: Vec<u8>)
    ensures
        r@ == charging_marker(),
{
    let mut v: Vec<u8> = Vec::new();
    v.push(67);
    v.push(104);
    v.push(97);
    v.push(114);
    v.push(103);
    v.push(105);
    v.push(110);
    v.push(103);
    proof {
        assert(v@ =~= charging_marker());
    }
    v
}

/// The battery reading built from one unit's status text and capacity text:
/// `C: <capacity>%` while the unit charges, `<id>: <capacity>%` otherwise.
pub open spec fn spec_battery(id: u8, status: Seq<u8>, capacity: Seq<u8>) -> Seq<u8> {
    (if contains_seq(status, charging_marker()) {
        seq![67u8]
    } else {
        dec_digits(id as nat)
    }) + seq![58u8, 32u8] + capacity + seq![37u8]
}

/// Formats the reading for one battery unit. `status` and `capacity` are the
/// raw contents of the unit's status and capacity files; the unit shows as
/// `C` when `status` mentions `Charging`, and as its numeric id otherwise.
pub fn battery(id: u8, status: &[u8], capacity: &[u8]) -> (r: Vec<u8>)
    ensures
        r@ == spec_battery(id, status@, capacity@),
{
    let marker = charging_bytes();
    let mut out: Vec<u8>;
    if contains_bytes(status, marker.as_slice()) {
        out = Vec::new();
        out.push(67);
        proof {
            assert(out@ =~= seq![67u8]);
        }
    } else {
        out = id_digits(id);
    }
    out.push(58);
    out.push(32);
    append_bytes(&mut out, capacity);
    out.push(37);
    proof {
        assert(out@ =~= spec_battery(id, status@, capacity@));
    }
    out
}

/// "MUTED", the reading published while the mixer is muted.
pub open spec fn muted_marker() -> Seq<u8> {
    seq![77u8, 85u8, 84u8, 69u8, 68u8]
}

/// "off", the mute flag value that means the mixer is muted.
pub open spec fn off_marker() -> Seq<u8> {
    seq![111u8, 102u8, 102u8]
}

fn muted_bytes() -> (r: Vec<u8>)
    ensures
        r@ == muted_marker(),
{
    let mut v: Vec<u8> = Vec::new();
    v.push(77);
    v.push(85);
    v.push(84);
    v.push(69);
    v.push(68);
    proof {
        assert(v@ =~= muted_marker());
    }
    v
}

fn off_bytes() -> (r: Vec<u8>)
    ensures
        r@ == off_marker(),
{
    let mut v: Vec<u8> = Vec::new();
    v.push(111);
    v.push(102);
    v.push(102);
    proof {
        assert(v@ =~= off_marker());
    }
    v
}

/// The line of mixer output that the volume and mute tokens are read from:
/// the fifth line, split at line feeds.
pub open spec fn mixer_line(out: Seq<u8>) -> Seq<u8> {
    segment(out, 10, 4)
}

/// The mixer output has the shape the parse relies on: a fifth line holding
/// at least six whitespace-delimited tokens (the fourth is the volume, the
/// sixth the mute flag).
pub open spec fn mixer_ok(out: Seq<u8>) -> bool {
    &&& has_segment(out, 10, 4)
    &&& has_token(mixer_line(out), 3)
    &&& has_token(mixer_line(out), 5)
}

/// The sound reading parsed from well-shaped mixer output: `MUTED` when the
/// mute flag (sixth token, brackets removed) is `off`, else the volume
/// token (fourth token, brackets removed).
pub open spec fn spec_sound(out: Seq<u8>) -> Seq<u8> {
    let line = mixer_line(out);
    let audible = without_bytes(token(line, 5), 91, 93);
    if audible == off_marker() {
        muted_marker()
    } else {
        without_bytes(token(line, 3), 91, 93)
    }
}

/// Parses the mixer query output into the sound reading. Returns `None`
/// exactly when the output does not have the expected shape.
pub fn sound(out: &[u8]) -> (r: Option<Vec<u8>>)
    ensures
        r is Some <==> mixer_ok(out@),
        mixer_ok(out@) ==> r->Some_0@ == spec_sound(out@),
{
    let line_bounds = nth_segment_bounds(out, 10, 4);
    match line_bounds {
        None => None,
        Some((lo, hi)) => {
            let line = &out[lo..hi];
            let vol_bounds = nth_token_bounds(line, 3);
            let mute_bounds = nth_token_bounds(line, 5);
            match (vol_bounds, mute_bounds) {
                (Some((vlo, vhi)), Some((mlo, mhi))) => {
                    let audible = remove_bytes(&line[mlo..mhi], 91, 93);
                    let off = off_bytes();
                    if bytes_equal(audible.as_slice(), off.as_slice()) {
                        Some(muted_bytes())
                    } else {
                        Some(remove_bytes(&line[vlo..vhi], 91, 93))
                    }
                },
                _ => None,
            }
        },
    }
}

/// While the status text mentions `Charging`, the battery reading shows `C`
/// in place of the unit id; otherwise it shows the id's decimal digits. In
/// both shapes the capacity follows after `: ` and a `%` sign closes the
/// reading.
pub proof fn lemma_battery_prefix(id: u8, status: Seq<u8>, capacity: Seq<u8>)
    ensures
        contains_seq(status, charging_marker()) ==> spec_battery(id, status, capacity) == seq![
            67u8,
            58u8,
            32u8,
        ] + capacity + seq![37u8],
        !contains_seq(status, charging_marker()) ==> spec_battery(id, status, capacity)
            == dec_digits(id as nat) + seq![58u8, 32u8] + capacity + seq![37u8],
{
    if contains_seq(status, charging_marker()) {
        assert(spec_battery(id, status, capacity) =~= seq![67u8, 58u8, 32u8] + capacity
            + seq![37u8]);
    } else {
        assert(spec_battery(id, status, capacity) =~= dec_digits(id as nat) + seq![58u8, 32u8]
            + capacity + seq![37u8]);
    }
}

/// With the parsed mute flag equal to `off`, the sound reading is `MUTED`,
/// whatever the volume token holds.
pub proof fn lemma_sound_muted(out: Seq<u8>)
    requires
        without_bytes(token(mixer_line(out), 5), 91, 93) == off_marker(),
    ensures
        spec_sound(out) == muted_marker(),
{
}

/// The backlight reading built from the backlight query output: everything
/// before the first `.`, suffixed with `%`.
pub open spec fn spec_backlight(out: Seq<u8>) -> Seq<u8> {
    out.subrange(0, find_from(out, 46, 0) as int) + seq![37u8]
}

/// Formats the backlight reading: the integer part of the queried level
/// (the text before the first decimal point) with a `%` sign appended.
pub fn backlight(out: &[u8]) -> (r: Vec<u8>)
    ensures
        r@ == spec_backlight(out@),
{
    let dot = find_byte_from(out, 46, 0);
    let mut v: Vec<u8> = Vec::new();
    append_bytes(&mut v, &out[0..dot]);
    v.push(37);
    proof {
        assert(v@ =~= spec_backlight(out@));
    }
    v
}

} // verus!
