use crate::address::validate_leds;
use crate::codec::{spec_colors_state, spec_fill, spec_multi_state};
use crate::color::{calculate_gradients, spec_off, Color};
use crate::device::BlinkStick;
use crate::error::{
    spec_get_error, spec_out_of_range, spec_send_error, FeatureError, FeatureErrorType,
};
use crate::transport::{elapsed_millis, sleep_ms};
use vstd::prelude::*;

verus! {

broadcast use crate::device::lemma_wf_state_len;

/// The pacing sleep left in an animation step: the step's interval less the
/// time the step already took, clamped at zero when the step overran its
/// interval — an overrun never halts an animation.
pub fn remaining_sleep_ms(interval_ms: u64, elapsed_ms: u64) -> (sleep_time: u64)
    ensures
        elapsed_ms >= interval_ms ==> sleep_time == 0,
        elapsed_ms < interval_ms ==> sleep_time == interval_ms - elapsed_ms,
{
    if elapsed_ms >= interval_ms {
        0
    } else {
        interval_ms - elapsed_ms
    }
}

/// Sleeps whatever is left of the step that began when `timer` was taken.
fn pace_step(timer: &std::time::Instant, interval_ms: u64) {
    let elapsed = elapsed_millis(timer);
    let left = remaining_sleep_ms(interval_ms, elapsed);
    if left > 0 {
        sleep_ms(left);
    }
}

/// Led `leds[j]` carries the step color of one of its own gradient rows:
/// when a led is listed more than once, the row written last wins the step.
spec fn overlay_applied(
    leds: Seq<u8>,
    gradients: Seq<Vec<Color>>,
    state: Seq<Color>,
    step: int,
    j: int,
) -> bool {
    exists|jj: int|
        0 <= jj < leds.len() && #[trigger] leds[jj] == leds[j] && state[leds[j] as int]
            == gradients[jj]@[step]
}

impl BlinkStick {
    /// Blinks a single led: `blinks` times in a row, shows `color` for
    /// `delay_ms` milliseconds, then darkens the led for as long again. Any
    /// blink leaves the led dark when it completes.
    pub fn blink_led_color(&mut self, led: u8, delay_ms: u64, blinks: u32, color: Color) -> (outcome:
        Result<(), FeatureError>)
        requires
            old(self).wf(),
        ensures
            final(self).wf(),
            final(self).spec_max_leds() == old(self).spec_max_leds(),
            blinks > 0 && led >= old(self).spec_max_leds() ==> outcome == Err::<(), FeatureError>(
                spec_out_of_range(led, old(self).spec_max_leds()),
            ) && final(self)@ == old(self)@,
            led < old(self).spec_max_leds() && outcome is Err ==> outcome->Err_0
                == spec_send_error(),
            outcome is Ok && blinks > 0 ==> led < old(self).spec_max_leds() && final(self)@ == old(self)@.update(led as int, spec_off()),
            outcome is Ok && blinks == 0 ==> final(self)@ == old(self)@,
    {
        let mut done: u32 = 0;
        while done < blinks
            invariant
                done <= blinks,
                self.wf(),
                old(self).wf(),
                self.spec_max_leds() == old(self).spec_max_leds(),
                done == 0 ==> self@ == old(self)@,
                done > 0 ==> led < old(self).spec_max_leds() && self@ == old(self)@.update(
                    led as int,
                    spec_off(),
                ),
            decreases blinks - done,
        {
            match self.set_led_color(led, color) {
                Ok(_) => {},
                Err(error) => {
                    return Err(error);
                },
            }
            sleep_ms(delay_ms);
            match self.set_led_color(led, Color::off()) {
                Ok(_) => {},
                Err(error) => {
                    return Err(error);
                },
            }
            sleep_ms(delay_ms);
            proof {
                assert(self@ =~= old(self)@.update(led as int, spec_off()));
            }
            done = done + 1;
        }
        Ok(())
    }

    /// Blinks the listed leds together: `blinks` times in a row, shows
    /// `color` on the listed leds for `delay_ms` milliseconds, then darkens
    /// them for as long again. As with `set_multiple_leds_color`, every led
    /// outside the list goes dark as well.
    pub fn blink_multiple_leds_color(
        &mut self,
        leds: &[u8],
        delay_ms: u64,
        blinks: u32,
        color: Color,
    ) -> (outcome: Result<(), FeatureError>)
        requires
            old(self).wf(),
        ensures
            final(self).wf(),
            final(self).spec_max_leds() == old(self).spec_max_leds(),
            blinks > 0 && (exists|i: int|
                0 <= i < leds@.len() && leds@[i] >= old(self).spec_max_leds()) ==> outcome is Err
                && outcome->Err_0.kind is OutOfRange && final(self)@ == old(self)@,
            (forall|i: int| 0 <= i < leds@.len() ==> leds@[i] < old(self).spec_max_leds())
                && outcome is Err ==> outcome->Err_0 == spec_send_error(),
            outcome is Ok && blinks > 0 ==> (forall|i: int|
                0 <= i < leds@.len() ==> leds@[i] < old(self).spec_max_leds()) && final(self)@
                == spec_multi_state(old(self).spec_max_leds() as int, leds@, spec_off()),
            outcome is Ok && blinks == 0 ==> final(self)@ == old(self)@,
    {
        let mut done: u32 = 0;
        while done < blinks
            invariant
                done <= blinks,
                self.wf(),
                old(self).wf(),
                self.spec_max_leds() == old(self).spec_max_leds(),
                done == 0 ==> self@ == old(self)@,
                done > 0 ==> (forall|i: int|
                    0 <= i < leds@.len() ==> leds@[i] < old(self).spec_max_leds()) && self@
                    == spec_multi_state(old(self).spec_max_leds() as int, leds@, spec_off()),
            decreases blinks - done,
        {
            match self.set_multiple_leds_color(leds, color) {
                Ok(_) => {},
                Err(error) => {
                    return Err(error);
                },
            }
            sleep_ms(delay_ms);
            match self.set_multiple_leds_color(leds, Color::off()) {
                Ok(_) => {},
                Err(error) => {
                    return Err(error);
                },
            }
            sleep_ms(delay_ms);
            done = done + 1;
        }
        Ok(())
    }

    /// Blinks every led of the device together: `blinks` times in a row,
    /// shows `color` everywhere for `delay_ms` milliseconds, then darkens
    /// the device for as long again.
    pub fn blink_all_leds_color(&mut self, delay_ms: u64, blinks: u32, color: Color) -> (outcome:
        Result<(), FeatureError>)
        requires
            old(self).wf(),
        ensures
            final(self).wf(),
            final(self).spec_max_leds() == old(self).spec_max_leds(),
            outcome is Err ==> outcome->Err_0 == spec_send_error(),
            outcome is Ok && blinks > 0 ==> final(self)@ == spec_fill(
                old(self).spec_max_leds() as int,
                spec_off(),
            ),
            outcome is Ok && blinks == 0 ==> final(self)@ == old(self)@,
    {
        let mut done: u32 = 0;
        while done < blinks
            invariant
                done <= blinks,
                self.wf(),
                old(self).wf(),
                self.spec_max_leds() == old(self).spec_max_leds(),
                done == 0 ==> self@ == old(self)@,
                done > 0 ==> self@ == spec_fill(old(self).spec_max_leds() as int, spec_off()),
            decreases blinks - done,
        {
            match self.set_all_leds_color(color) {
                Ok(_) => {},
                Err(error) => {
                    return Err(error);
                },
            }
            sleep_ms(delay_ms);
            match self.set_all_leds_color(Color::off()) {
                Ok(_) => {},
                Err(error) => {
                    return Err(error);
                },
            }
            sleep_ms(delay_ms);
            done = done + 1;
        }
        Ok(())
    }

    /// Fades a single led from its current color into `target_color` over
    /// `duration_ms` milliseconds in `steps` evenly paced updates; the last
    /// update is exactly `target_color`.
    pub fn transform_led_color(
        &mut self,
        led: u8,
        duration_ms: u64,
        steps: u16,
        target_color: Color,
    ) -> (outcome: Result<(), FeatureError>)
        requires
            old(self).wf(),
            steps >= 1,
        ensures
            final(self).wf(),
            final(self).spec_max_leds() == old(self).spec_max_leds(),
            led >= old(self).spec_max_leds() ==> outcome == Err::<(), FeatureError>(
                spec_out_of_range(led, old(self).spec_max_leds()),
            ) && final(self)@ == old(self)@,
            led < old(self).spec_max_leds() && outcome is Err ==> (outcome->Err_0
                == spec_send_error() || outcome->Err_0 == spec_get_error()),
            outcome is Ok ==> led < old(self).spec_max_leds() && final(self)@ == old(self)@.update(led as int, target_color),
    {
        let interval_ms = duration_ms / (steps as u64);
        let start_color = match self.get_led_color(led) {
            Ok(color) => color,
            Err(error) => {
                return Err(error);
            },
        };
        let gradient = calculate_gradients(start_color, target_color, steps);
        let mut step: usize = 0;
        while step < gradient.len()
            invariant
                step <= gradient@.len(),
                gradient@.len() == steps,
                self.wf(),
                old(self).wf(),
                self.spec_max_leds() == old(self).spec_max_leds(),
                led < old(self).spec_max_leds(),
                gradient@.last() == target_color,
                step == 0 ==> self@ == old(self)@,
                step > 0 ==> self@ == old(self)@.update(led as int, gradient@[step - 1]),
            decreases gradient@.len() - step,
        {
            let timer = std::time::Instant::now();
            match self.set_led_color(led, gradient[step]) {
                Ok(_) => {},
                Err(error) => {
                    return Err(error);
                },
            }
            proof {
                assert(self@ =~= old(self)@.update(led as int, gradient@[step as int]));
            }
            pace_step(&timer, interval_ms);
            step = step + 1;
        }
        Ok(())
    }

    /// One pacing pass over per-led gradients: at each step, sends the
    /// step's column of colors as one all-leds transaction, then sleeps
    /// whatever is left of the step's share of `duration_ms`.
    fn transform_leds(&mut self, gradients: &Vec<Vec<Color>>, duration_ms: u64, steps: u16) -> (outcome:
        Result<(), FeatureError>)
        requires
            old(self).wf(),
            steps >= 1,
            gradients@.len() <= old(self).spec_max_leds() as int,
            forall|i: int| 0 <= i < gradients@.len() ==> gradients@[i]@.len() == steps as int,
        ensures
            final(self).wf(),
            final(self).spec_max_leds() == old(self).spec_max_leds(),
            outcome is Err ==> outcome->Err_0 == spec_send_error(),
            outcome is Ok ==> final(self)@ == spec_colors_state(
                old(self).spec_max_leds() as int,
                Seq::new(gradients@.len(), |i: int| gradients@[i]@[steps as int - 1]),
            ),
    {
        let interval_ms = duration_ms / (steps as u64);
        let mut step: usize = 0;
        while step < steps as usize
            invariant
                step <= steps,
                steps >= 1,
                self.wf(),
                old(self).wf(),
                self.spec_max_leds() == old(self).spec_max_leds(),
                gradients@.len() <= old(self).spec_max_leds() as int,
                forall|i: int| 0 <= i < gradients@.len() ==> gradients@[i]@.len() == steps as int,
                step > 0 ==> self@ == spec_colors_state(
                    old(self).spec_max_leds() as int,
                    Seq::new(gradients@.len(), |i: int| gradients@[i]@[step - 1]),
                ),
            decreases steps as int - step,
        {
            let timer = std::time::Instant::now();
            let mut column: Vec<Color> = Vec::new();
            let mut row: usize = 0;
            while row < gradients.len()
                invariant
                    row <= gradients@.len(),
                    step < steps,
                    column@.len() == row,
                    forall|i: int| 0 <= i < gradients@.len() ==> gradients@[i]@.len()
                        == steps as int,
                    forall|k: int| 0 <= k < row ==> column@[k] == gradients@[k]@[step as int],
                decreases gradients@.len() - row,
            {
                column.push(gradients[row][step]);
                row = row + 1;
            }
            match self.set_all_leds_colors(column.as_slice()) {
                Ok(_) => {},
                Err(error) => {
                    return Err(error);
                },
            }
            proof {
                assert(column@ =~= Seq::new(
                    gradients@.len(),
                    |i: int| gradients@[i]@[step as int],
                ));
            }
            pace_step(&timer, interval_ms);
            step = step + 1;
        }
        Ok(())
    }

    /// Fades every led at once, each from its current color into its own
    /// target: led `i` fades toward `target_colors[i]`, a led beyond the end
    /// of the list fades out, and each step updates the whole device in one
    /// transaction.
    pub fn transform_all_leds_colors(
        &mut self,
        duration_ms: u64,
        steps: u16,
        target_colors: &[Color],
    ) -> (outcome: Result<(), FeatureError>)
        requires
            old(self).wf(),
            steps >= 1,
        ensures
            final(self).wf(),
            final(self).spec_max_leds() == old(self).spec_max_leds(),
            outcome is Err ==> (outcome->Err_0 == spec_send_error() || outcome->Err_0
                == spec_get_error()),
            outcome is Ok ==> final(self)@ == spec_colors_state(
                old(self).spec_max_leds() as int,
                target_colors@,
            ),
    {
        let max = self.led_count();
        let count: usize = if target_colors.len() < max as usize {
            target_colors.len()
        } else {
            max as usize
        };
        let mut gradients: Vec<Vec<Color>> = Vec::new();
        let mut led: usize = 0;
        while led < count
            invariant
                led <= count,
                steps >= 1,
                count <= old(self).spec_max_leds() as int,
                count <= target_colors@.len(),
                self.wf(),
                old(self).wf(),
                self.spec_max_leds() == old(self).spec_max_leds(),
                self@ == old(self)@,
                gradients@.len() == led,
                forall|i: int|
                    #![trigger gradients@[i]]
                    0 <= i < led ==> gradients@[i]@.len() == steps as int && gradients@[i]@[
                        steps as int - 1] == target_colors@[i],
            decreases count - led,
        {
            let start_color = match self.get_led_color(led as u8) {
                Ok(color) => color,
                Err(error) => {
                    return Err(error);
                },
            };
            let row = calculate_gradients(start_color, target_colors[led], steps);
            let ghost before = gradients@;
            let ghost row_view = row@;
            gradients.push(row);
            proof {
                assert(row_view.len() == steps as int);
                assert(row_view[steps as int - 1] == target_colors@[led as int]);
                assert forall|i: int|
                    #![trigger gradients@[i]]
                    0 <= i < led + 1 implies gradients@[i]@.len() == steps as int && gradients@[i]@[
                    steps as int - 1] == target_colors@[i] by {
                    if i < led {
                        assert(gradients@[i] == before[i]);
                    } else {
                        assert(gradients@[i]@ == row_view);
                    }
                }
            }
            led = led + 1;
        }
        match self.transform_leds(&gradients, duration_ms, steps) {
            Ok(_) => {
                proof {
                    assert(spec_colors_state(
                        old(self).spec_max_leds() as int,
                        Seq::new(count as nat, |i: int| gradients@[i]@[steps as int - 1]),
                    ) =~= spec_colors_state(old(self).spec_max_leds() as int, target_colors@));
                }
                Ok(())
            },
            Err(error) => Err(error),
        }
    }

    /// Fades every led at once from its current color into one shared
    /// target color, updating the whole device in one transaction per step.
    pub fn transform_all_leds_color(
        &mut self,
        duration_ms: u64,
        steps: u16,
        target_color: Color,
    ) -> (outcome: Result<(), FeatureError>)
        requires
            old(self).wf(),
            steps >= 1,
        ensures
            final(self).wf(),
            final(self).spec_max_leds() == old(self).spec_max_leds(),
            outcome is Err ==> (outcome->Err_0 == spec_send_error() || outcome->Err_0
                == spec_get_error()),
            outcome is Ok ==> final(self)@ == spec_fill(
                old(self).spec_max_leds() as int,
                target_color,
            ),
    {
        let max = self.led_count();
        let mut gradients: Vec<Vec<Color>> = Vec::new();
        let mut led: usize = 0;
        while led < max as usize
            invariant
                led <= max as int,
                steps >= 1,
                max == old(self).spec_max_leds(),
                self.wf(),
                old(self).wf(),
                self.spec_max_leds() == old(self).spec_max_leds(),
                self@ == old(self)@,
                gradients@.len() == led,
                forall|i: int|
                    0 <= i < led ==> gradients@[i]@.len() == steps as int && gradients@[i]@[
                        steps as int - 1] == target_color,
            decreases max as int - led,
        {
            let start_color = match self.get_led_color(led as u8) {
                Ok(color) => color,
                Err(error) => {
                    return Err(error);
                },
            };
            let row = calculate_gradients(start_color, target_color, steps);
            let ghost before = gradients@;
            gradients.push(row);
            proof {
                assert forall|i: int|
                    0 <= i < led + 1 implies gradients@[i]@.len() == steps as int && gradients@[i]@[
                    steps as int - 1] == target_color by {
                    if i < led {
                        assert(gradients@[i] == before[i]);
                    } else {
                        assert(gradients@[i] == row);
                    }
                }
            }
            led = led + 1;
        }
        match self.transform_leds(&gradients, duration_ms, steps) {
            Ok(_) => {
                proof {
                    assert(spec_colors_state(
                        old(self).spec_max_leds() as int,
                        Seq::new(max as nat, |i: int| gradients@[i]@[steps as int - 1]),
                    ) =~= spec_fill(old(self).spec_max_leds() as int, target_color));
                }
                Ok(())
            },
            Err(error) => Err(error),
        }
    }

    /// Fades the listed leds together into one target color: each step
    /// reads the device, overlays the listed leds' gradient colors, and
    /// writes the whole device back in one transaction, so the listed leds
    /// move in lockstep while the others keep their reported colors. Every
    /// listed led ends exactly on `target_color`.
    pub fn transform_multiple_leds_color(
        &mut self,
        leds: &[u8],
        duration_ms: u64,
        steps: u16,
        target_color: Color,
    ) -> (outcome: Result<(), FeatureError>)
        requires
            old(self).wf(),
            steps >= 1,
        ensures
            final(self).wf(),
            final(self).spec_max_leds() == old(self).spec_max_leds(),
            (exists|i: int| 0 <= i < leds@.len() && leds@[i] >= old(self).spec_max_leds()) ==>
                outcome is Err && outcome->Err_0.kind is OutOfRange && final(self)@ == old(self)@,
            (forall|i: int| 0 <= i < leds@.len() ==> leds@[i] < old(self).spec_max_leds())
                && outcome is Err ==> (outcome->Err_0 == spec_send_error() || outcome->Err_0
                == spec_get_error()),
            outcome is Ok ==> (forall|i: int|
                0 <= i < leds@.len() ==> leds@[i] < old(self).spec_max_leds()) && final(self)@.len()
                == old(self).spec_max_leds() as int && (forall|i: int|
                0 <= i < leds@.len() ==> final(self)@[leds@[i] as int] == target_color),
    {
        let max = self.led_count();
        match validate_leds(leds, max) {
            Ok(_) => {},
            Err(error) => {
                return Err(error);
            },
        }
        let interval_ms = duration_ms / (steps as u64);
        let mut gradients: Vec<Vec<Color>> = Vec::new();
        let mut listed: usize = 0;
        while listed < leds.len()
            invariant
                listed <= leds@.len(),
                steps >= 1,
                max == old(self).spec_max_leds(),
                forall|i: int| 0 <= i < leds@.len() ==> leds@[i] < max,
                self.wf(),
                old(self).wf(),
                self.spec_max_leds() == old(self).spec_max_leds(),
                self@ == old(self)@,
                gradients@.len() == listed,
                forall|i: int|
                    0 <= i < listed ==> gradients@[i]@.len() == steps as int && gradients@[i]@[
                        steps as int - 1] == target_color,
            decreases leds@.len() - listed,
        {
            let start_color = match self.get_led_color(leds[listed]) {
                Ok(color) => color,
                Err(error) => {
                    return Err(error);
                },
            };
            let row = calculate_gradients(start_color, target_color, steps);
            let ghost before = gradients@;
            gradients.push(row);
            proof {
                assert forall|i: int|
                    0 <= i < listed + 1 implies gradients@[i]@.len() == steps as int && gradients@[
                    i]@[steps as int - 1] == target_color by {
                    if i < listed {
                        assert(gradients@[i] == before[i]);
                    } else {
                        assert(gradients@[i] == row);
                    }
                }
            }
            listed = listed + 1;
        }
        let mut step: usize = 0;
        while step < steps as usize
            invariant
                step <= steps,
                steps >= 1,
                max == old(self).spec_max_leds(),
                forall|i: int| 0 <= i < leds@.len() ==> leds@[i] < max,
                self.wf(),
                old(self).wf(),
                self.spec_max_leds() == old(self).spec_max_leds(),
                gradients@.len() == leds@.len(),
                forall|i: int|
                    0 <= i < gradients@.len() ==> gradients@[i]@.len() == steps as int
                        && gradients@[i]@[steps as int - 1] == target_color,
                step > 0 ==> self@.len() == max as int && (forall|j: int|
                    0 <= j < leds@.len() ==> #[trigger] overlay_applied(
                        leds@,
                        gradients@,
                        self@,
                        step - 1,
                        j,
                    )),
            decreases steps as int - step,
        {
            let timer = std::time::Instant::now();
            let mut device_colors = match self.get_all_led_colors() {
                Ok(colors) => colors,
                Err(error) => {
                    return Err(error);
                },
            };
            let mut overlay: usize = 0;
            while overlay < leds.len()
                invariant
                    overlay <= leds@.len(),
                    step < steps,
                    device_colors@.len() == max as int,
                    forall|i: int| 0 <= i < leds@.len() ==> leds@[i] < max,
                    gradients@.len() == leds@.len(),
                    forall|i: int|
                        0 <= i < gradients@.len() ==> gradients@[i]@.len() == steps as int,
                    forall|j: int|
                        0 <= j < overlay ==> #[trigger] overlay_applied(
                            leds@,
                            gradients@,
                            device_colors@,
                            step as int,
                            j,
                        ),
                decreases leds@.len() - overlay,
            {
                let led = leds[overlay];
                let ghost previous = device_colors@;
                device_colors[led as usize] = gradients[overlay][step];
                proof {
                    assert forall|j: int| 0 <= j < overlay + 1 implies #[trigger] overlay_applied(
                        leds@,
                        gradients@,
                        device_colors@,
                        step as int,
                        j,
                    ) by {
                        if leds@[j] == led {
                            assert(0 <= overlay < leds@.len() && #[trigger] leds@[overlay as int]
                                == leds@[j] && device_colors@[leds@[j] as int] == gradients@[
                                overlay as int]@[step as int]);
                        } else {
                            assert(overlay_applied(leds@, gradients@, previous, step as int, j));
                            let jj = choose|jj: int|
                                0 <= jj < leds@.len() && #[trigger] leds@[jj] == leds@[j]
                                    && previous[leds@[j] as int] == gradients@[jj]@[step as int];
                            assert(device_colors@[leds@[j] as int] == previous[leds@[j] as int]);
                            assert(device_colors@[leds@[j] as int] == gradients@[jj]@[
                                step as int]);
                        }
                    }
                }
                overlay = overlay + 1;
            }
            match self.set_all_leds_colors(device_colors.as_slice()) {
                Ok(_) => {},
                Err(error) => {
                    return Err(error);
                },
            }
            proof {
                assert(self@ =~= device_colors@);
            }
            pace_step(&timer, interval_ms);
            step = step + 1;
        }
        proof {
            assert forall|i: int| 0 <= i < leds@.len() implies self@[leds@[i] as int]
                == target_color by {
                assert(overlay_applied(leds@, gradients@, self@, steps as int - 1, i));
                let jj = choose|jj: int|
                    0 <= jj < leds@.len() && #[trigger] leds@[jj] == leds@[i] && self@[
                        leds@[i] as int] == gradients@[jj]@[steps as int - 1];
                assert(gradients@[jj]@[steps as int - 1] == target_color);
            }
        }
        Ok(())
    }

    /// Pulses a single led: fades it from its current color into `color`
    /// over half of `duration_ms`, then back to the color it reported
    /// before the pulse; every other led keeps its commanded color.
    pub fn pulse_led_color(&mut self, led: u8, duration_ms: u64, steps: u16, color: Color) -> (outcome:
        Result<(), FeatureError>)
        requires
            old(self).wf(),
            steps >= 1,
        ensures
            final(self).wf(),
            final(self).spec_max_leds() == old(self).spec_max_leds(),
            led >= old(self).spec_max_leds() ==> outcome == Err::<(), FeatureError>(
                spec_out_of_range(led, old(self).spec_max_leds()),
            ) && final(self)@ == old(self)@,
            led < old(self).spec_max_leds() && outcome is Err ==> (outcome->Err_0
                == spec_send_error() || outcome->Err_0 == spec_get_error()),
            outcome is Ok ==> led < old(self).spec_max_leds() && final(self)@.len() == old(self)@.len() && (forall|i: int|
                0 <= i < old(self)@.len() && i != led as int ==> final(self)@[i] == old(self)@[i]),
    {
        let old_color = match self.get_led_color(led) {
            Ok(color) => color,
            Err(error) => {
                return Err(error);
            },
        };
        match self.transform_led_color(led, duration_ms / 2, steps, color) {
            Ok(_) => {},
            Err(error) => {
                return Err(error);
            },
        }
        match self.transform_led_color(led, duration_ms / 2, steps, old_color) {
            Ok(_) => {},
            Err(error) => {
                return Err(error);
            },
        }
        Ok(())
    }

    /// Pulses the listed leds: fades them together into `color` over half
    /// of `duration_ms`, then fades every led of the device back to the
    /// color it reported before the pulse.
    pub fn pulse_multiple_leds_color(
        &mut self,
        leds: &[u8],
        duration_ms: u64,
        steps: u16,
        color: Color,
    ) -> (outcome: Result<(), FeatureError>)
        requires
            old(self).wf(),
            steps >= 1,
        ensures
            final(self).wf(),
            final(self).spec_max_leds() == old(self).spec_max_leds(),
            (exists|i: int| 0 <= i < leds@.len() && leds@[i] >= old(self).spec_max_leds()) ==>
                outcome is Err && (outcome->Err_0.kind is OutOfRange || outcome->Err_0
                == spec_get_error()),
            (forall|i: int| 0 <= i < leds@.len() ==> leds@[i] < old(self).spec_max_leds())
                && outcome is Err ==> (outcome->Err_0 == spec_send_error() || outcome->Err_0
                == spec_get_error()),
            outcome is Ok ==> final(self)@.len() == old(self).spec_max_leds() as int,
    {
        let old_colors = match self.get_all_led_colors() {
            Ok(colors) => colors,
            Err(error) => {
                return Err(error);
            },
        };
        match self.transform_multiple_leds_color(leds, duration_ms / 2, steps, color) {
            Ok(_) => {},
            Err(error) => {
                return Err(error);
            },
        }
        match self.transform_all_leds_colors(duration_ms / 2, steps, old_colors.as_slice()) {
            Ok(_) => Ok(()),
            Err(error) => Err(error),
        }
    }

    /// Pulses the whole device: fades every led into `target_color` over
    /// half of `duration_ms`, then fades every led back to the color it
    /// reported before the pulse.
    pub fn pulse_all_leds_color(
        &mut self,
        duration_ms: u64,
        steps: u16,
        target_color: Color,
    ) -> (outcome: Result<(), FeatureError>)
        requires
            old(self).wf(),
            steps >= 1,
        ensures
            final(self).wf(),
            final(self).spec_max_leds() == old(self).spec_max_leds(),
            outcome is Err ==> (outcome->Err_0 == spec_send_error() || outcome->Err_0
                == spec_get_error()),
            outcome is Ok ==> final(self)@.len() == old(self).spec_max_leds() as int,
    {
        let old_colors = match self.get_all_led_colors() {
            Ok(colors) => colors,
            Err(error) => {
                return Err(error);
            },
        };
        match self.transform_all_leds_color(duration_ms / 2, steps, target_color) {
            Ok(_) => {},
            Err(error) => {
                return Err(error);
            },
        }
        match self.transform_all_leds_colors(duration_ms / 2, steps, old_colors.as_slice()) {
            Ok(_) => Ok(()),
            Err(error) => Err(error),
        }
    }

    /// One lap of the carousel: lights led 0 in the first lap color, then
    /// walks the ring — darkening the previous led and lighting the next in
    /// its lap color, `delay_ms` milliseconds apart — and finally darkens
    /// the last led, leaving the device fully dark.
    fn color_lap(&mut self, lap_colors: &Vec<Color>, delay_ms: u64) -> (outcome: Result<
        (),
        FeatureError,
    >)
        requires
            old(self).wf(),
            old(self).spec_max_leds() >= 1,
            lap_colors@.len() == old(self).spec_max_leds() as int,
        ensures
            final(self).wf(),
            final(self).spec_max_leds() == old(self).spec_max_leds(),
            outcome is Err ==> outcome->Err_0 == spec_send_error(),
            outcome is Ok ==> final(self)@ == spec_fill(
                old(self).spec_max_leds() as int,
                spec_off(),
            ),
    {
        let max = self.led_count();
        match self.set_led_color(0, lap_colors[0]) {
            Ok(_) => {},
            Err(error) => {
                return Err(error);
            },
        }
        let mut lit: u8 = 1;
        while lit < max
            invariant
                1 <= lit <= max,
                max == old(self).spec_max_leds(),
                lap_colors@.len() == max as int,
                self.wf(),
                old(self).wf(),
                self.spec_max_leds() == old(self).spec_max_leds(),
                self@ == Seq::new(
                    max as nat,
                    |j: int|
                        if j == lit - 1 {
                            lap_colors@[j]
                        } else if j < lit - 1 {
                            spec_off()
                        } else {
                            old(self)@[j]
                        },
                ),
            decreases max as int - lit,
        {
            sleep_ms(delay_ms);
            match self.turn_off_led(lit - 1) {
                Ok(_) => {},
                Err(error) => {
                    return Err(error);
                },
            }
            match self.set_led_color(lit, lap_colors[lit as usize]) {
                Ok(_) => {},
                Err(error) => {
                    return Err(error);
                },
            }
            proof {
                assert(self@ =~= Seq::new(
                    max as nat,
                    |j: int|
                        if j == lit as int {
                            lap_colors@[j]
                        } else if j < lit as int {
                            spec_off()
                        } else {
                            old(self)@[j]
                        },
                ));
            }
            lit = lit + 1;
        }
        match self.turn_off_led(max - 1) {
            Ok(_) => {},
            Err(error) => {
                return Err(error);
            },
        }
        proof {
            assert(self@ =~= spec_fill(old(self).spec_max_leds() as int, spec_off()));
        }
        Ok(())
    }

    /// Runs the carousel: one lit position sweeps around the ring showing
    /// the gradient from `start_color` to `target_color`, then sweeps back
    /// showing the gradient reversed, `delay_ms` milliseconds per position;
    /// the device ends fully dark.
    pub fn carousel(&mut self, start_color: Color, target_color: Color, delay_ms: u64) -> (outcome:
        Result<(), FeatureError>)
        requires
            old(self).wf(),
        ensures
            final(self).wf(),
            final(self).spec_max_leds() == old(self).spec_max_leds(),
            old(self).spec_max_leds() == 0 ==> outcome == Err::<(), FeatureError>(
                spec_out_of_range(0, 0),
            ) && final(self)@ == old(self)@,
            old(self).spec_max_leds() > 0 && outcome is Err ==> outcome->Err_0
                == spec_send_error(),
            outcome is Ok ==> final(self)@ == spec_fill(
                old(self).spec_max_leds() as int,
                spec_off(),
            ),
    {
        let max = self.led_count();
        if max == 0 {
            return Err(FeatureError { kind: FeatureErrorType::OutOfRange { led: 0, max_leds: 0 } });
        }
        let carousel_colors = calculate_gradients(start_color, target_color, max as u16);
        match self.color_lap(&carousel_colors, delay_ms) {
            Ok(_) => {},
            Err(error) => {
                return Err(error);
            },
        }
        let mut reversed: Vec<Color> = Vec::new();
        let mut left: usize = carousel_colors.len();
        while left > 0
            invariant
                left <= carousel_colors@.len(),
                reversed@.len() == carousel_colors@.len() - left,
                forall|k: int|
                    0 <= k < reversed@.len() ==> reversed@[k] == carousel_colors@[
                        carousel_colors@.len() - 1 - k],
            decreases left,
        {
            left = left - 1;
            reversed.push(carousel_colors[left]);
        }
        self.color_lap(&reversed, delay_ms)
    }
}

} // verus!
