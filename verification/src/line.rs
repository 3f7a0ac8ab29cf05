//! Composition of the published status line out of the four readings.

use vstd::prelude::*;
use crate::readings::append_bytes;
use crate::text::{without_bytes, remove_bytes};

verus! {

/// Two battery readings joined with a single space.
pub open spec fn spec_battery_pair(b0: Seq<u8>, b1: Seq<u8>) -> Seq<u8> {
    b0 + seq![32u8] + b1
}

/// Joins the readings of the two battery units with a space.
pub fn battery_pair(b0: &[u8], b1: &[u8]) -> (r: Vec<u8>)
    ensures
        r@ == spec_battery_pair(b0@, b1@),
{
    let mut v: Vec<u8> = Vec::new();
    append_bytes(&mut v, b0);
    v.push(32);
    append_bytes(&mut v, b1);
    proof {
        assert(v@ =~= spec_battery_pair(b0@, b1@));
    }
    v
}

/// The published line: `[V: <volume>] [B: <brightness>] [<battery>] [<time>]`
/// followed by a terminating NUL byte, with every line feed removed.
pub open spec fn spec_status_line(
    volume: Seq<u8>,
    brightness: Seq<u8>,
    battery: Seq<u8>,
    time: Seq<u8>,
) -> Seq<u8> {
    without_bytes(
        seq![91u8, 86u8, 58u8, 32u8] + volume + seq![93u8, 32u8, 91u8, 66u8, 58u8, 32u8]
            + brightness + seq![93u8, 32u8, 91u8] + battery + seq![93u8, 32u8, 91u8] + time
            + seq![93u8, 0u8],
        10,
        10,
    )
}

/// Builds the line that is published as the root window's name. The four
/// readings are framed as `[V: ..] [B: ..] [..] [..]`, a NUL terminator is
/// appended, and every line feed is stripped, wherever it came from.
pub fn status_line(volume: &[u8], brightness: &[u8], battery: &[u8], time: &[u8]) -> (r: Vec<
    u8,
>)
    ensures
        r@ == spec_status_line(volume@, brightness@, battery@, time@),
        forall|k: int| 0 <= k < r@.len() ==> r@[k] != 10u8,
{
    let mut full: Vec<u8> = Vec::new();
    full.push(91);
    full.push(86);
    full.push(58);
    full.push(32);
    append_bytes(&mut full, volume);
    full.push(93);
    full.push(32);
    full.push(91);
    full.push(66);
    full.push(58);
    full.push(32);
    append_bytes(&mut full, brightness);
    full.push(93);
    full.push(32);
    full.push(91);
    append_bytes(&mut full, battery);
    full.push(93);
    full.push(32);
    full.push(91);
    append_bytes(&mut full, time);
    full.push(93);
    full.push(0);
    proof {
        assert(full@ =~= seq![91u8, 86u8, 58u8, 32u8] + volume@
            + seq![93u8, 32u8, 91u8, 66u8, 58u8, 32u8] + brightness@ + seq![93u8, 32u8, 91u8]
            + battery@ + seq![93u8, 32u8, 91u8] + time@ + seq![93u8, 0u8]);
    }
    remove_bytes(full.as_slice(), 10, 10)
}

} // verus!
