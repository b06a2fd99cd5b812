//! Helpers for the uvfits data format.

use vstd::prelude::*;

use crate::text::{int_text, push_int};

verus! {

/// An instant, as hifitime holds it: a duration since 1900-01-01 in TAI,
/// split into whole centuries and the nanoseconds past them.
#[derive(Debug)]
pub struct TaiEpoch {
    pub centuries: i16,
    pub nanoseconds: u64,
}

/// The Gregorian UTC calendar date and time (year, month, day, hour, minute,
/// second, nanoseconds) that hifitime gives for the TAI instant made of
/// `centuries` and `nanoseconds`.
pub uninterp spec fn gregorian_utc(centuries: i16, nanoseconds: u64) -> (
    i32,
    u8,
    u8,
    u8,
    u8,
    u8,
    u32,
);

/// hifitime's `Epoch::from_tai_parts(..).to_gregorian_utc()`: the result is
/// the value named [`gregorian_utc`] of the two parts; nothing more of it is
/// stated.
#[verifier::external_body]
fn epoch_gregorian_utc(centuries: i16, nanoseconds: u64) -> (r: (i32, u8, u8, u8, u8, u8, u32))
    ensures
        r == gregorian_utc(centuries, nanoseconds),
{
    hifitime::Epoch::from_tai_parts(centuries, nanoseconds).to_gregorian_utc()
}

/// The date text `{year}-{month}-{day}T00:00:00.0`.
pub open spec fn date_text(year: int, month: int, day: int) -> Seq<char> {
    int_text(year) + seq!['-'] + int_text(month) + seq!['-'] + int_text(day) + "T00:00:00.0"@
}

/// A formatted date string with the hours, minutes and seconds set to 0.
pub fn truncated_date_string(year: i32, month: u8, day: u8) -> (s: String)
    ensures
        s@ == date_text(year as int, month as int, day as int),
{
    let mut s = String::new();
    push_int(&mut s, year as i64);
    crate::text::push_char(&mut s, '-');
    push_int(&mut s, month as i64);
    crate::text::push_char(&mut s, '-');
    push_int(&mut s, day as i64);
    s.append("T00:00:00.0");
    assert(s@ =~= date_text(year as int, month as int, day as int));
    s
}

/// From an instant, get a formatted date string (in UTC) with the hours,
/// minutes and seconds set to 0.
pub fn get_truncated_date_string(epoch: &TaiEpoch) -> (s: String)
    ensures
        ({
            let g = gregorian_utc(epoch.centuries, epoch.nanoseconds);
            s@ == date_text(g.0 as int, g.1 as int, g.2 as int)
        }),
{
    let (year, month, day, _, _, _, _) = epoch_gregorian_utc(epoch.centuries, epoch.nanoseconds);
    truncated_date_string(year, month, day)
}

/// The uvfits (miriad convention) baseline number of two antennas. Antenna
/// indices start at 1. Baselines whose second antenna is above 255 use the
/// extended encoding, which handles up to 2048 antennas.
pub open spec fn spec_encode_baseline(ant1: int, ant2: int) -> int {
    if ant2 > 255 {
        ant1 * 2048 + ant2 + 65_536
    } else {
        ant1 * 256 + ant2
    }
}

/// The antenna pair that a uvfits baseline number stands for.
pub open spec fn spec_decode_baseline(bl: int) -> (int, int) {
    if bl < 65_535 {
        (bl / 256, bl % 256)
    } else {
        ((bl - 65_536) / 2048, (bl - 65_536) % 2048)
    }
}

/// Encode a baseline into the uvfits format. Use the miriad convention to
/// handle more than 255 antennas (up to 2048). This is backwards compatible
/// with the standard UVFITS convention. Antenna indices start at 1.
pub fn encode_uvfits_baseline(ant1: usize, ant2: usize) -> (bl: usize)
    requires
        spec_encode_baseline(ant1 as int, ant2 as int) <= usize::MAX,
    ensures
        bl == spec_encode_baseline(ant1 as int, ant2 as int),
{
    if ant2 > 255 {
        assert(ant1 * 2048 <= usize::MAX) by (nonlinear_arith)
            requires ant1 * 2048 + ant2 + 65_536 <= usize::MAX;
        ant1 * 2048 + ant2 + 65_536
    } else {
        assert(ant1 * 256 <= usize::MAX) by (nonlinear_arith)
            requires ant1 * 256 + ant2 <= usize::MAX;
        ant1 * 256 + ant2
    }
}

/// Decode a uvfits baseline into the antennas that formed it. Antenna indices
/// start at 1. The number 65535 lies between the two encodings and is not a
/// baseline.
pub fn decode_uvfits_baseline(bl: usize) -> (ants: (usize, usize))
    requires
        bl != 65_535,
    ensures
        (ants.0 as int, ants.1 as int) == spec_decode_baseline(bl as int),
{
    if bl < 65_535 {
        let ant2 = bl % 256;
        let ant1 = (bl - ant2) / 256;
        assert((bl - ant2) / 256 == bl / 256) by (nonlinear_arith)
            requires ant2 == bl % 256, bl >= 0;
        (ant1, ant2)
    } else {
        let ant2 = (bl - 65_536) % 2048;
        let ant1 = (bl - ant2 - 65_536) / 2048;
        assert((bl - ant2 - 65_536) / 2048 == (bl - 65_536) / 2048) by (nonlinear_arith)
            requires ant2 == (bl - 65_536) % 2048, bl >= 65_536;
        (ant1, ant2)
    }
}

/// Decoding an encoded baseline gives back its antennas, wherever the
/// encoding is unambiguous: a second antenna of at most 255 whose baseline
/// number stays below 65535, or a second antenna from 256 to 2047.
pub proof fn lemma_decode_encode_roundtrip(ant1: nat, ant2: nat)
    requires
        (ant2 <= 255 && ant1 * 256 + ant2 < 65_535) || (256 <= ant2 < 2048),
    ensures
        spec_decode_baseline(spec_encode_baseline(ant1 as int, ant2 as int)) == (
            ant1 as int,
            ant2 as int,
        ),
{
    if ant2 <= 255 {
        assert((ant1 * 256 + ant2) / 256 == ant1 && (ant1 * 256 + ant2) % 256 == ant2)
            by (nonlinear_arith)
            requires ant2 <= 255;
    } else {
        assert((ant1 * 2048 + ant2) / 2048 == ant1 && (ant1 * 2048 + ant2) % 2048 == ant2)
            by (nonlinear_arith)
            requires ant2 < 2048;
    }
}

/// Encoding the antennas of a baseline number gives back that number,
/// wherever the number is one that the encoding makes: below 65535, or
/// from 65536 on with a second antenna above 255.
pub proof fn lemma_encode_decode_roundtrip(bl: nat)
    requires
        bl < 65_535 || (bl >= 65_536 && (bl - 65_536) % 2048 > 255),
    ensures
        spec_encode_baseline(spec_decode_baseline(bl as int).0, spec_decode_baseline(bl as int).1)
            == bl,
{
    if bl < 65_535 {
        assert(bl % 256 <= 255 && (bl / 256) * 256 + bl % 256 == bl) by (nonlinear_arith);
    } else {
        let d: int = bl - 65_536;
        assert((d / 2048) * 2048 + d % 2048 == d) by (nonlinear_arith)
            requires d >= 0;
    }
}

} // verus!
