use crate::address::{
    derive_max_leds, report_length, validate_led, validate_leds, MAX_DEVICE_LEDS,
    REPORT_BUFFER_BYTES,
};
use crate::address::spec_report_length;
use crate::codec::{
    decode_frame, encode_frame, encode_single_frame, spec_colors_state, spec_fill,
    spec_multi_state, ALL_LEDS_REPORT_ID,
};
use crate::color::{spec_off, Color};
use crate::error::{
    spec_get_error, spec_open_error, spec_out_of_range, spec_send_error, FeatureError,
    FeatureErrorType,
};
use crate::transport::{get_feature, hid_api_new, hid_open, send_feature};
use rand::Rng;
use vstd::prelude::*;

verus! {

/// The usb vendor id every BlinkStick device carries.
pub const BLINKSTICK_VENDOR_ID: u16 = 0x20a0;

/// The usb product id every BlinkStick device carries.
pub const BLINKSTICK_PRODUCT_ID: u16 = 0x41e5;

/// An open BlinkStick device.
///
/// The handle owns the underlying channel for its whole lifetime, and keeps
/// the led count and report length derived when the device was opened. Its
/// view is the state the device was last commanded into: one color per led,
/// as set by the frames this handle sent.
pub struct BlinkStick {
    device: hidapi::HidDevice,
    /// How many leds the device carries; every valid led index is smaller.
    pub max_leds: u8,
    report_length: usize,
    commanded: Ghost<Seq<Color>>,
}

/// A well-formed handle commands one color per led: its view is as long as
/// the device's led count, which never goes past the largest supported one.
pub broadcast proof fn lemma_wf_state_len(stick: &BlinkStick)
    requires
        stick.wf(),
    ensures
        #[trigger] stick@.len() == stick.spec_max_leds() as int,
        stick.spec_max_leds() <= MAX_DEVICE_LEDS,
{
}

impl View for BlinkStick {
    type V = Seq<Color>;

    closed spec fn view(&self) -> Seq<Color> {
        self.commanded@
    }
}

impl BlinkStick {
    /// The led count of the device, as the contracts speak of it; it equals
    /// the `max_leds` field.
    pub closed spec fn spec_max_leds(&self) -> u8 {
        self.max_leds
    }

    /// A well-formed handle: the report length matches the led count, and
    /// the commanded state holds one color per led.
    pub closed spec fn wf(&self) -> bool {
        &&& self.max_leds <= MAX_DEVICE_LEDS
        &&& self.report_length == spec_report_length(self.max_leds as int)
        &&& self@.len() == self.max_leds as int
    }

    /// The led count of the device; every valid led index is smaller.
    pub fn led_count(&self) -> (count: u8)
        ensures
            count == self.spec_max_leds(),
    {
        self.max_leds
    }

    /// Opens the first attached BlinkStick, derives its led count from the
    /// byte count of its all-leds report, and commands every led off so no
    /// caller inherits stale device state.
    pub fn new() -> (outcome: Result<BlinkStick, FeatureError>)
        ensures
            outcome is Ok ==> outcome->Ok_0.wf() && outcome->Ok_0@ == spec_fill(
                outcome->Ok_0.spec_max_leds() as int,
                spec_off(),
            ),
            outcome is Err ==> (outcome->Err_0 == spec_open_error() || outcome->Err_0
                == spec_get_error() || outcome->Err_0 == spec_send_error()),
    {
        let api = match hid_api_new() {
            Ok(api) => api,
            Err(_) => {
                return Err(FeatureError { kind: FeatureErrorType::Open });
            },
        };
        let device = match hid_open(&api, BLINKSTICK_VENDOR_ID, BLINKSTICK_PRODUCT_ID) {
            Ok(device) => device,
            Err(_) => {
                return Err(FeatureError { kind: FeatureErrorType::Open });
            },
        };
        let reported = match get_feature(&device, ALL_LEDS_REPORT_ID, REPORT_BUFFER_BYTES) {
            Ok(reply) => reply.1,
            Err(error) => {
                return Err(error);
            },
        };
        let max_leds = derive_max_leds(reported);
        let frame_length = report_length(max_leds);
        let mut stick = BlinkStick {
            device,
            max_leds,
            report_length: frame_length,
            commanded: Ghost(spec_fill(max_leds as int, spec_off())),
        };
        match stick.set_all_leds_color(Color::off()) {
            Ok(_) => Ok(stick),
            Err(error) => Err(error),
        }
    }

    /// Sets the color of a single led through the single-led report, leaving
    /// every other led as it was commanded before.
    pub fn set_led_color(&mut self, led: u8, color: Color) -> (outcome: Result<(), FeatureError>)
        requires
            old(self).wf(),
        ensures
            final(self).wf(),
            final(self).spec_max_leds() == old(self).spec_max_leds(),
            led >= old(self).spec_max_leds() ==> outcome == Err::<(), FeatureError>(
                spec_out_of_range(led, old(self).spec_max_leds()),
            ) && final(self)@ == old(self)@,
            led < old(self).spec_max_leds() && outcome is Err ==> outcome->Err_0
                == spec_send_error(),
            outcome is Ok ==> led < old(self).spec_max_leds() && final(self)@ == old(
                self,
            )@.update(led as int, color),
    {
        match validate_led(led, self.max_leds) {
            Ok(_) => {},
            Err(error) => {
                return Err(error);
            },
        }
        let frame = encode_single_frame(led, color);
        match send_feature(&self.device, &frame) {
            Ok(_) => {
                let ghost updated = self.commanded@.update(led as int, color);
                self.commanded = Ghost(updated);
                Ok(())
            },
            Err(error) => Err(error),
        }
    }

    /// Sets the listed leds to one color through a single all-leds report:
    /// the listed leds show `color` and every other led goes dark, all
    /// within one device transaction.
    pub fn set_multiple_leds_color(&mut self, leds: &[u8], color: Color) -> (outcome: Result<
        (),
        FeatureError,
    >)
        requires
            old(self).wf(),
        ensures
            final(self).wf(),
            final(self).spec_max_leds() == old(self).spec_max_leds(),
            (exists|i: int| 0 <= i < leds@.len() && leds@[i] >= old(self).spec_max_leds()) ==> (
            exists|i: int|
                0 <= i < leds@.len() && leds@[i] >= old(self).spec_max_leds() && outcome == Err::<
                    (),
                    FeatureError,
                >(spec_out_of_range(leds@[i], old(self).spec_max_leds()))) && final(self)@ == old(
                self,
            )@,
            (forall|i: int| 0 <= i < leds@.len() ==> leds@[i] < old(self).spec_max_leds())
                && outcome is Err ==> outcome->Err_0 == spec_send_error() && final(self)@ == old(
                self,
            )@,
            outcome is Ok ==> (forall|i: int|
                0 <= i < leds@.len() ==> leds@[i] < old(self).spec_max_leds()) && final(self)@
                == spec_multi_state(old(self).spec_max_leds() as int, leds@, color),
    {
        match validate_leds(leds, self.max_leds) {
            Ok(_) => {},
            Err(error) => {
                return Err(error);
            },
        }
        let max = self.max_leds;
        let mut state: Vec<Color> = Vec::new();
        while state.len() < max as usize
            invariant
                state@.len() <= max as int,
                forall|k: int| 0 <= k < state@.len() ==> state@[k] == spec_off(),
            decreases max as int - state@.len(),
        {
            state.push(Color::off());
        }
        let mut listed: usize = 0;
        while listed < leds.len()
            invariant
                listed <= leds@.len(),
                state@.len() == max as int,
                forall|i: int| 0 <= i < leds@.len() ==> leds@[i] < max,
                forall|k: int|
                    0 <= k < max as int ==> state@[k] == (if leds@.take(listed as int).contains(
                        k as u8,
                    ) {
                        color
                    } else {
                        spec_off()
                    }),
            decreases leds@.len() - listed,
        {
            let led = leds[listed];
            state[led as usize] = color;
            proof {
                let before = leds@.take(listed as int);
                let after = leds@.take(listed as int + 1);
                assert forall|k: int| 0 <= k < max as int implies state@[k] == (if after.contains(
                    k as u8,
                ) {
                    color
                } else {
                    spec_off()
                }) by {
                    if after.contains(k as u8) {
                        let witness = choose|i: int| 0 <= i < after.len() && after[i] == k as u8;
                        if witness < listed as int {
                            assert(before[witness] == k as u8);
                            assert(before.contains(k as u8));
                        }
                    } else {
                        assert(!before.contains(k as u8)) by {
                            if before.contains(k as u8) {
                                let witness = choose|i: int|
                                    0 <= i < before.len() && before[i] == k as u8;
                                assert(after[witness] == k as u8);
                            }
                        }
                        assert(k as u8 != led) by {
                            if k as u8 == led {
                                assert(after[listed as int] == k as u8);
                            }
                        }
                    }
                }
            }
            listed = listed + 1;
        }
        proof {
            assert(leds@.take(leds@.len() as int) =~= leds@);
            assert(state@ =~= spec_multi_state(max as int, leds@, color));
        }
        let frame = encode_frame(&state);
        match send_feature(&self.device, &frame) {
            Ok(_) => {
                let ghost updated = state@;
                self.commanded = Ghost(updated);
                Ok(())
            },
            Err(error) => Err(error),
        }
    }

    /// Sets every led of the device to one color within one device
    /// transaction.
    pub fn set_all_leds_color(&mut self, color: Color) -> (outcome: Result<(), FeatureError>)
        requires
            old(self).wf(),
        ensures
            final(self).wf(),
            final(self).spec_max_leds() == old(self).spec_max_leds(),
            outcome is Ok ==> final(self)@ == spec_fill(old(self).spec_max_leds() as int, color),
            outcome is Err ==> outcome->Err_0 == spec_send_error() && final(self)@ == old(self)@,
    {
        let max = self.max_leds;
        let mut state: Vec<Color> = Vec::new();
        while state.len() < max as usize
            invariant
                state@.len() <= max as int,
                forall|k: int| 0 <= k < state@.len() ==> state@[k] == color,
            decreases max as int - state@.len(),
        {
            state.push(color);
        }
        proof {
            assert(state@ =~= spec_fill(max as int, color));
        }
        let frame = encode_frame(&state);
        match send_feature(&self.device, &frame) {
            Ok(_) => {
                let ghost updated = state@;
                self.commanded = Ghost(updated);
                Ok(())
            },
            Err(error) => Err(error),
        }
    }

    /// Sets every led to its own color within one device transaction: led
    /// `i` shows `colors[i]`, and a led beyond the end of `colors` goes
    /// dark.
    pub fn set_all_leds_colors(&mut self, colors: &[Color]) -> (outcome: Result<(), FeatureError>)
        requires
            old(self).wf(),
        ensures
            final(self).wf(),
            final(self).spec_max_leds() == old(self).spec_max_leds(),
            outcome is Ok ==> final(self)@ == spec_colors_state(
                old(self).spec_max_leds() as int,
                colors@,
            ),
            outcome is Err ==> outcome->Err_0 == spec_send_error() && final(self)@ == old(self)@,
    {
        let max = self.max_leds;
        let mut state: Vec<Color> = Vec::new();
        let mut led: usize = 0;
        while led < max as usize
            invariant
                led <= max as int,
                state@.len() == led,
                forall|k: int|
                    0 <= k < state@.len() ==> state@[k] == spec_colors_state(
                        max as int,
                        colors@,
                    )[k],
            decreases max as int - led,
        {
            if led < colors.len() {
                state.push(colors[led]);
            } else {
                state.push(Color::off());
            }
            led = led + 1;
        }
        proof {
            assert(state@ =~= spec_colors_state(max as int, colors@));
        }
        let frame = encode_frame(&state);
        match send_feature(&self.device, &frame) {
            Ok(_) => {
                let ghost updated = state@;
                self.commanded = Ghost(updated);
                Ok(())
            },
            Err(error) => Err(error),
        }
    }

    /// Turns off a single led, leaving every other led as it was commanded
    /// before.
    pub fn turn_off_led(&mut self, led: u8) -> (outcome: Result<(), FeatureError>)
        requires
            old(self).wf(),
        ensures
            final(self).wf(),
            final(self).spec_max_leds() == old(self).spec_max_leds(),
            led >= old(self).spec_max_leds() ==> outcome == Err::<(), FeatureError>(
                spec_out_of_range(led, old(self).spec_max_leds()),
            ) && final(self)@ == old(self)@,
            led < old(self).spec_max_leds() && outcome is Err ==> outcome->Err_0
                == spec_send_error(),
            outcome is Ok ==> led < old(self).spec_max_leds() && final(self)@ == old(
                self,
            )@.update(led as int, spec_off()),
    {
        self.set_led_color(led, Color::off())
    }

    /// Turns off the listed leds; as with `set_multiple_leds_color`, every
    /// led outside the list goes dark as well.
    pub fn turn_off_multiple_leds(&mut self, leds: &[u8]) -> (outcome: Result<(), FeatureError>)
        requires
            old(self).wf(),
        ensures
            final(self).wf(),
            final(self).spec_max_leds() == old(self).spec_max_leds(),
            (exists|i: int| 0 <= i < leds@.len() && leds@[i] >= old(self).spec_max_leds()) ==>
                outcome is Err && outcome->Err_0.kind is OutOfRange && final(self)@ == old(self)@,
            (forall|i: int| 0 <= i < leds@.len() ==> leds@[i] < old(self).spec_max_leds())
                && outcome is Err ==> outcome->Err_0 == spec_send_error() && final(self)@ == old(
                self,
            )@,
            outcome is Ok ==> final(self)@ == spec_fill(old(self).spec_max_leds() as int, spec_off()),
    {
        let outcome = self.set_multiple_leds_color(leds, Color::off());
        proof {
            if outcome is Ok {
                assert(spec_multi_state(old(self).spec_max_leds() as int, leds@, spec_off())
                    =~= spec_fill(old(self).spec_max_leds() as int, spec_off()));
            }
        }
        outcome
    }

    /// Turns off every led of the device.
    pub fn turn_off_all_leds(&mut self) -> (outcome: Result<(), FeatureError>)
        requires
            old(self).wf(),
        ensures
            final(self).wf(),
            final(self).spec_max_leds() == old(self).spec_max_leds(),
            outcome is Ok ==> final(self)@ == spec_fill(old(self).spec_max_leds() as int, spec_off()),
            outcome is Err ==> outcome->Err_0 == spec_send_error() && final(self)@ == old(self)@,
    {
        self.set_all_leds_color(Color::off())
    }

    /// Reads the color every led currently reports, one entry per led.
    pub fn get_all_led_colors(&self) -> (outcome: Result<Vec<Color>, FeatureError>)
        requires
            self.wf(),
        ensures
            outcome is Ok ==> outcome->Ok_0@.len() == self.spec_max_leds() as int,
            outcome is Err ==> outcome->Err_0 == spec_get_error(),
    {
        let reply = match get_feature(&self.device, ALL_LEDS_REPORT_ID, REPORT_BUFFER_BYTES) {
            Ok(reply) => reply.0,
            Err(error) => {
                return Err(error);
            },
        };
        Ok(decode_frame(&reply, self.max_leds))
    }

    /// Reads the color a single led currently reports.
    pub fn get_led_color(&self, led: u8) -> (outcome: Result<Color, FeatureError>)
        requires
            self.wf(),
        ensures
            led >= self.spec_max_leds() ==> outcome == Err::<Color, FeatureError>(
                spec_out_of_range(led, self.spec_max_leds()),
            ),
            led < self.spec_max_leds() && outcome is Err ==> outcome->Err_0 == spec_get_error(),
    {
        match validate_led(led, self.max_leds) {
            Ok(_) => {},
            Err(error) => {
                return Err(error);
            },
        }
        let colors = match self.get_all_led_colors() {
            Ok(colors) => colors,
            Err(error) => {
                return Err(error);
            },
        };
        Ok(colors[led as usize])
    }

    /// A color vector with one dark entry per led of the device, sized so a
    /// caller can fill it and hand it to `set_all_leds_colors`.
    pub fn get_color_vec(&self) -> (colors: Vec<Color>)
        ensures
            colors@ == spec_fill(self.spec_max_leds() as int, spec_off()),
    {
        let mut colors: Vec<Color> = Vec::new();
        while colors.len() < self.max_leds as usize
            invariant
                colors@.len() <= self.max_leds as int,
                forall|k: int| 0 <= k < colors@.len() ==> colors@[k] == spec_off(),
            decreases self.max_leds as int - colors@.len(),
        {
            colors.push(Color::off());
        }
        proof {
            assert(colors@ =~= spec_fill(self.max_leds as int, spec_off()));
        }
        colors
    }

    /// Relies on rand::Rng::gen_range over rand::thread_rng: every channel
    /// is a uniform draw from 0 (inclusive) up to 255 (exclusive).
    #[verifier::external_body]
    pub fn get_random_color() -> (color: Color)
        ensures
            color.r < 255,
            color.g < 255,
            color.b < 255,
    {
        let mut rng = rand::thread_rng();
        Color {
            r: rng.gen_range(0..255),
            g: rng.gen_range(0..255),
            b: rng.gen_range(0..255),
        }
    }
}

} // verus!
