use crate::address::spec_report_length;
use crate::color::{spec_off, Color};
use vstd::arithmetic::div_mod::{
    lemma_div_multiples_vanish_fancy, lemma_mod_multiples_vanish, lemma_small_mod,
};
use vstd::prelude::*;

verus! {

/// The report id of the all-leds feature report.
pub const ALL_LEDS_REPORT_ID: u8 = 0x6;

/// The report id of the single-led feature report.
pub const SINGLE_LED_REPORT_ID: u8 = 0x5;

/// The device state that shows `color` on every one of `n` leds.
pub open spec fn spec_fill(n: int, color: Color) -> Seq<Color> {
    Seq::new(n as nat, |i: int| color)
}

/// The device state that shows `color` on the listed leds and leaves every
/// other led dark.
pub open spec fn spec_multi_state(max_leds: int, leds: Seq<u8>, color: Color) -> Seq<Color> {
    Seq::new(
        max_leds as nat,
        |i: int|
            if leds.contains(i as u8) {
                color
            } else {
                spec_off()
            },
    )
}

/// The device state that shows `colors[i]` on led `i` and leaves the leds
/// beyond the list dark.
pub open spec fn spec_colors_state(max_leds: int, colors: Seq<Color>) -> Seq<Color> {
    Seq::new(
        max_leds as nat,
        |i: int|
            if i < colors.len() {
                colors[i]
            } else {
                spec_off()
            },
    )
}

/// The all-leds feature report that commands `state`: the report id, one
/// metadata byte, then one triplet per led whose bytes run G, R, B — the
/// device expects that order in this report, not R, G, B.
pub open spec fn spec_encode(state: Seq<Color>) -> Seq<u8> {
    Seq::new(
        (3 * state.len() + 2) as nat,
        |i: int|
            if i == 0 {
                ALL_LEDS_REPORT_ID
            } else if i == 1 {
                0u8
            } else if (i - 2) % 3 == 0 {
                state[(i - 2) / 3].g
            } else if (i - 2) % 3 == 1 {
                state[(i - 2) / 3].r
            } else {
                state[(i - 2) / 3].b
            },
    )
}

/// The per-led colors an all-leds feature report holds: the triplet of led
/// `l` starts at byte `3 l + 2` and runs G, R, B.
pub open spec fn spec_decode(report: Seq<u8>, max_leds: int) -> Seq<Color>
    recommends
        spec_report_length(max_leds) <= report.len(),
{
    Seq::new(
        max_leds as nat,
        |l: int|
            (Color { r: report[3 * l + 3], g: report[3 * l + 2], b: report[3 * l + 4] }),
    )
}

/// The single-led feature report that sets one led: a flat six-byte frame
/// whose channels run R, G, B — this report is not subject to the G, R, B
/// order of the all-leds report.
pub open spec fn spec_single_frame(led: u8, color: Color) -> Seq<u8> {
    seq![SINGLE_LED_REPORT_ID, 0u8, led, color.r, color.g, color.b]
}

/// Where the triplet of led `l` stands in the all-leds report.
proof fn lemma_triplet_indices(state: Seq<Color>, l: int)
    requires
        0 <= l < state.len(),
    ensures
        spec_encode(state)[3 * l + 2] == state[l].g,
        spec_encode(state)[3 * l + 3] == state[l].r,
        spec_encode(state)[3 * l + 4] == state[l].b,
{
    lemma_div_multiples_vanish_fancy(l, 0, 3);
    lemma_div_multiples_vanish_fancy(l, 1, 3);
    lemma_div_multiples_vanish_fancy(l, 2, 3);
    lemma_mod_multiples_vanish(l, 0, 3);
    lemma_mod_multiples_vanish(l, 1, 3);
    lemma_mod_multiples_vanish(l, 2, 3);
    lemma_small_mod(0, 3);
    lemma_small_mod(1, 3);
    lemma_small_mod(2, 3);
}

/// Law: decoding the report that encodes a device state reproduces that
/// state exactly, for every state.
pub proof fn lemma_frame_round_trip(state: Seq<Color>)
    ensures
        spec_decode(spec_encode(state), state.len() as int) == state,
{
    let decoded = spec_decode(spec_encode(state), state.len() as int);
    assert forall|l: int| 0 <= l < state.len() implies decoded[l] == state[l] by {
        lemma_triplet_indices(state, l);
    }
    assert(decoded =~= state);
}

/// Law: a uniformly filled device state survives the report round trip: the
/// report that shows one color on `n` leds decodes back to `n` copies of
/// that color. This is the codec's share of the promise that reading right
/// after setting every led to one color hands the same color back for every
/// led; the rest rests on the device storing the report faithfully.
pub proof fn lemma_uniform_round_trip(color: Color, n: int)
    requires
        n >= 0,
    ensures
        spec_decode(spec_encode(spec_fill(n, color)), n) == spec_fill(n, color),
{
    lemma_frame_round_trip(spec_fill(n, color));
}

/// Builds the all-leds feature report that commands `state`.
pub fn encode_frame(state: &Vec<Color>) -> (report: Vec<u8>)
    requires
        state@.len() <= 32,
    ensures
        report@ == spec_encode(state@),
        report@.len() == spec_report_length(state@.len() as int),
{
    let n = state.len();
    let mut report: Vec<u8> = Vec::new();
    report.push(ALL_LEDS_REPORT_ID);
    report.push(0);
    let mut l: usize = 0;
    while l < n
        invariant
            l <= n,
            n == state@.len() <= 32,
            report@.len() == 3 * l + 2,
            report@ == spec_encode(state@).take(3 * l + 2),
        decreases n - l,
    {
        let entry = state[l];
        report.push(entry.g);
        report.push(entry.r);
        report.push(entry.b);
        proof {
            lemma_triplet_indices(state@, l as int);
            assert(report@ =~= spec_encode(state@).take(3 * (l + 1) + 2));
        }
        l = l + 1;
    }
    proof {
        assert(report@ =~= spec_encode(state@));
    }
    report
}

/// Reads the per-led colors out of an all-leds feature report.
pub fn decode_frame(report: &Vec<u8>, max_leds: u8) -> (colors: Vec<Color>)
    requires
        spec_report_length(max_leds as int) <= report@.len(),
    ensures
        colors@ == spec_decode(report@, max_leds as int),
        colors@.len() == max_leds,
{
    let mut colors: Vec<Color> = Vec::new();
    let mut l: usize = 0;
    while l < max_leds as usize
        invariant
            l <= max_leds,
            spec_report_length(max_leds as int) <= report@.len(),
            colors@.len() == l,
            forall|i: int|
                0 <= i < l ==> colors@[i] == spec_decode(report@, max_leds as int)[i],
        decreases max_leds - l,
    {
        let base = 3 * l + 2;
        colors.push(Color { r: report[base + 1], g: report[base], b: report[base + 2] });
        l = l + 1;
    }
    proof {
        assert(colors@ =~= spec_decode(report@, max_leds as int));
    }
    colors
}

/// Builds the six-byte single-led feature report.
pub fn encode_single_frame(led: u8, color: Color) -> (report: Vec<u8>)
    ensures
        report@ == spec_single_frame(led, color),
{
    let mut report: Vec<u8> = Vec::new();
    report.push(SINGLE_LED_REPORT_ID);
    report.push(0);
    report.push(led);
    report.push(color.r);
    report.push(color.g);
    report.push(color.b);
    proof {
        assert(report@ =~= spec_single_frame(led, color));
    }
    report
}

} // verus!
