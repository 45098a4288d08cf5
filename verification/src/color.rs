use vstd::arithmetic::div_mod::{
    lemma_div_is_ordered, lemma_div_multiples_vanish, lemma_div_pos_is_pos,
};
use vstd::arithmetic::mul::lemma_mul_inequality;
use vstd::prelude::*;

verus! {

/// One RGB color value: an unsigned byte per channel.
#[derive(Debug, Clone, Copy, PartialEq, Eq, Structural)]
pub struct Color {
    pub r: u8,
    pub g: u8,
    pub b: u8,
}

/// The color that leaves a led dark.
pub open spec fn spec_off() -> Color {
    Color { r: 0, g: 0, b: 0 }
}

impl Color {
    /// The color that leaves a led dark.
    pub fn off() -> (c: Color)
        ensures
            c == spec_off(),
    {
        Color { r: 0, g: 0, b: 0 }
    }
}

/// One channel of the gradient entry numbered `step` (counted from 1 to
/// `steps`): the linear blend of `start` and `target` weighted `step / steps`,
/// truncated toward the lower integer.
pub open spec fn spec_channel(start: u8, target: u8, step: int, steps: int) -> u8
    recommends
        1 <= step <= steps,
{
    (((start as int) * (steps - step) + (target as int) * step) / steps) as u8
}

/// The gradient entry numbered `step`, blending every channel independently.
pub open spec fn spec_gradient_color(start: Color, target: Color, step: int, steps: int) -> Color {
    Color {
        r: spec_channel(start.r, target.r, step, steps),
        g: spec_channel(start.g, target.g, step, steps),
        b: spec_channel(start.b, target.b, step, steps),
    }
}

/// The whole gradient from `start` to `target` in `steps` entries: entry `i`
/// holds the blend weighted `(i + 1) / steps`.
pub open spec fn spec_gradient(start: Color, target: Color, steps: int) -> Seq<Color> {
    Seq::new(steps as nat, |i: int| spec_gradient_color(start, target, i + 1, steps))
}

proof fn lemma_blend_in_range(s: int, t: int, step: int, steps: int)
    requires
        0 <= s <= 255,
        0 <= t <= 255,
        1 <= step <= steps,
    ensures
        0 <= (s * (steps - step) + t * step) / steps <= 255,
        step == steps ==> (s * (steps - step) + t * step) / steps == t,
{
    let num = s * (steps - step) + t * step;
    lemma_mul_inequality(0, s, steps - step);
    lemma_mul_inequality(0, t, step);
    lemma_div_pos_is_pos(num, steps);
    lemma_mul_inequality(s, 255, steps - step);
    lemma_mul_inequality(t, 255, step);
    assert(255 * (steps - step) + 255 * step == 255 * steps) by (nonlinear_arith);
    lemma_div_is_ordered(num, 255 * steps, steps);
    lemma_div_multiples_vanish(255, steps);
    if step == steps {
        assert(num == t * steps);
        lemma_div_multiples_vanish(t, steps);
    }
}

/// One channel of one gradient entry, computed exactly as `spec_channel` says.
pub fn channel_value(start: u8, target: u8, step: u16, steps: u16) -> (value: u8)
    requires
        1 <= step <= steps,
    ensures
        value == spec_channel(start, target, step as int, steps as int),
{
    proof {
        lemma_blend_in_range(start as int, target as int, step as int, steps as int);
        lemma_mul_inequality(start as int, 255, steps - step);
        lemma_mul_inequality(target as int, 255, step as int);
        assert(255 * ((steps - step) as int) + 255 * (step as int) == 255 * (steps as int))
            by (nonlinear_arith);
    }
    let numerator: u32 = (start as u32) * ((steps - step) as u32) + (target as u32) * (step as u32);
    let quotient: u32 = numerator / (steps as u32);
    quotient as u8
}

/// The gradient from `start_color` to `target_color`, materialized in order:
/// `steps` entries whose channels blend linearly, truncating toward the lower
/// integer, so that the final entry is exactly `target_color`.
pub fn calculate_gradients(start_color: Color, target_color: Color, steps: u16) -> (gradient: Vec<
    Color,
>)
    requires
        steps >= 1,
    ensures
        gradient@ == spec_gradient(start_color, target_color, steps as int),
        gradient@.len() == steps,
        gradient@.last() == target_color,
{
    let mut gradient: Vec<Color> = Vec::new();
    let mut done: u16 = 0;
    while done < steps
        invariant
            done <= steps,
            gradient@.len() == done,
            forall|i: int|
                0 <= i < gradient@.len() ==> gradient@[i] == spec_gradient_color(
                    start_color,
                    target_color,
                    i + 1,
                    steps as int,
                ),
        decreases steps - done,
    {
        let step = done + 1;
        let entry = Color {
            r: channel_value(start_color.r, target_color.r, step, steps),
            g: channel_value(start_color.g, target_color.g, step, steps),
            b: channel_value(start_color.b, target_color.b, step, steps),
        };
        gradient.push(entry);
        done = step;
    }
    proof {
        assert(gradient@ =~= spec_gradient(start_color, target_color, steps as int));
        lemma_gradient_length_and_target(start_color, target_color, steps as int);
    }
    gradient
}

/// Law: for every pair of endpoints and every step count of at least one, the
/// gradient holds exactly `steps` entries and its last entry is exactly the
/// target color.
pub proof fn lemma_gradient_length_and_target(start: Color, target: Color, steps: int)
    requires
        steps >= 1,
    ensures
        spec_gradient(start, target, steps).len() == steps,
        spec_gradient(start, target, steps).last() == target,
{
    lemma_blend_in_range(start.r as int, target.r as int, steps, steps);
    lemma_blend_in_range(start.g as int, target.g as int, steps, steps);
    lemma_blend_in_range(start.b as int, target.b as int, steps, steps);
}

/// Law: a gradient of a single step is exactly the target color alone.
pub proof fn lemma_gradient_single_step(start: Color, target: Color)
    ensures
        spec_gradient(start, target, 1) == seq![target],
{
    lemma_gradient_length_and_target(start, target, 1);
    assert(spec_gradient(start, target, 1) =~= seq![target]);
}

} // verus!
