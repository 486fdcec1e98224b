use vstd::prelude::*;
use crate::animation::{
    spec_spinner_frame, BlinkingDot, Spinner, BLINK_TICKS_HIDDEN, BLINK_TICKS_VISIBLE,
    SPINNER_FRAMES, SPINNER_TICKS_PER_FRAME,
};
use crate::display::{
    encode_u8_into, spec_number_buffer, spec_settings_buffer, Display, POS_D4, SEG_POINT,
    SYM_DELTA,
};
use crate::random::{generate, params_for, spec_generate, spec_params_for, Params};
use crate::scales::{
    detect_zone, detect_zone_change, lemma_quality_scale_wf, lemma_quantity_scale_wf,
    lemma_zone_change_in_scale, quality_scale, quality_zones, quantity_scale, quantity_zones,
    scale_wf, spec_detect_zone_change, zone_containing, Zone, SCALE_MAX,
};
use crate::utils::{lemma_sum_prefix_value_bound, max_prefix, min_prefix, sum_prefix, Agg};

verus! {

/// How many of the latest measurements are stored.
pub const AGG_SIZE: usize = 16;

/// How many roll results can be stored: the largest selectable quantity.
pub const RESULTS_SIZE: usize = 20;

/// Normal scheduling rate.
pub const NORMAL_FREQUENCY: u8 = 200;

/// Reduced scheduling rate used while the device sleeps.
pub const SLEEPING_FREQUENCY: u8 = 50;

/// Minimal force amplitude to be considered a disturbance, measured in
/// converter steps (about 0.156 g).
pub const MIN_FORCE_AMPLITUDE: u16 = 40;

/// Ticks of sustained disturbance that confirm a shake: about a third of a
/// second at the normal rate.
pub const TICKS_TO_DISTURB: u8 = 70;

/// Ticks of sustained balance that settle a roll: about six tenths of a
/// second at the normal rate.
pub const TICKS_TO_BALANCE: u8 = 120;

/// Idle ticks before the device falls asleep: thirty seconds at the normal
/// rate.
pub const TICKS_TO_SLEEP: u16 = 6000;

/// Ticks of sustained disturbance that wake the device: about four tenths
/// of a second at the reduced rate.
pub const TICKS_TO_WAKE: u8 = 20;

/// Hysteresis dead area for the settings knobs, in scale counts.
pub const POT_DEAD_AREA: u16 = 10;

/// Defines things that we measure with the analog-to-digital converter.
#[derive(Clone, Copy, PartialEq, Eq, Structural, Debug)]
pub enum Measurement {
    PotQuantity,
    PotQuality,
    AccX,
    AccY,
    AccZ,
}

/// The scheduling rate the core has most recently commanded of the
/// scheduler collaborator.
#[derive(Clone, Copy, PartialEq, Eq, Structural, Debug)]
pub enum TickRate {
    Normal,
    Reduced,
}

/// Defines specific device states.
#[allow(inconsistent_fields)]
pub enum State {
    Displaying { disturbed_ticks: u8, idle_ticks: u16 },
    Rolling {
        params: Params,
        quantity: u8,
        results: Agg<RESULTS_SIZE>,
        balanced_ticks: u8,
        animation: Spinner,
    },
    Sleeping { disturbed_ticks: u8, animation: BlinkingDot },
}

/// Container for accelerometer measurement aggregations.
pub struct AccLevel {
    pub x: Agg<AGG_SIZE>,
    pub y: Agg<AGG_SIZE>,
    pub z: Agg<AGG_SIZE>,
}

impl AccLevel {
    /// All three axes are well-formed aggregators.
    pub open spec fn wf(self) -> bool {
        self.x.wf() && self.y.wf() && self.z.wf()
    }

    /// Returns a new instance of AccLevel.
    pub fn new() -> (a: Self)
        ensures
            a.wf(),
            a.x.put_count() == 0,
            a.y.put_count() == 0,
            a.z.put_count() == 0,
    {
        Self { x: Agg::new(), y: Agg::new(), z: Agg::new() }
    }
}

/// Every written slot of the aggregator stays at or below the bound.
pub open spec fn slots_bounded<const N: usize>(a: Agg<N>, bound: int) -> bool {
    forall|i: int|
        0 <= i < a.slots().len() ==> (#[trigger] a.slots()[i] matches Some(v) ==> v <= bound)
}

/// Defines general device state and behavior.
pub struct Device {
    /// Model of the display the output collaborator runs.
    pub display: Display,
    /// The active operating state, with its per-state payload.
    pub state: State,
    /// Currently active settings. Uninitialized for the first few moments
    /// after startup, until each knob's averaging window fills.
    pub quantity: Option<Zone>,
    pub quality: Option<Zone>,
    /// What's currently being measured by the converter. At most one
    /// measurement is ever in flight.
    pub adc_measuring: Option<Measurement>,
    /// Aggregations of recent measurement results: the raw accelerometer
    /// window, and the smoothed window fed by its averages.
    pub acc_l1: AccLevel,
    pub acc_l2: AccLevel,
    pub pot_quantity: Agg<AGG_SIZE>,
    pub pot_quality: Agg<AGG_SIZE>,
    /// Bits that constantly get updated by the accelerometer measurement
    /// results, read as a byte when a draw is needed.
    pub entropy: u16,
    /// The rate most recently commanded of the scheduler collaborator.
    pub tick_rate: TickRate,
    /// The two settings scales, built once at startup and never mutated.
    pub quantity_scale: Vec<Zone>,
    pub quality_scale: Vec<Zone>,
}

impl Device {
    /// Per-state payload invariants: counters below their thresholds where
    /// a transition would otherwise have fired, roll parameters matching
    /// their precalculation, and stored results within the die's faces.
    pub open spec fn state_wf(self) -> bool {
        match self.state {
            State::Displaying { disturbed_ticks, idle_ticks } => idle_ticks <= TICKS_TO_SLEEP,
            State::Rolling { params, quantity, results, balanced_ticks, animation } => {
                &&& params == spec_params_for(params.bound)
                &&& 1 <= params.bound <= 20
                &&& 1 <= quantity <= 20
                &&& results.wf()
                &&& forall|i: int|
                    0 <= i < results.slots().len() ==> (#[trigger] results.slots()[i] matches Some(
                        v,
                    ) ==> 1 <= v <= params.bound)
                &&& animation.wf()
            },
            State::Sleeping { .. } => true,
        }
    }

    /// The whole-device invariant every handler preserves.
    pub open spec fn wf(self) -> bool {
        &&& self.display.wf()
        &&& self.quantity_scale@ == quantity_zones()
        &&& self.quality_scale@ == quality_zones()
        &&& self.pot_quantity.wf()
        &&& slots_bounded(self.pot_quantity, SCALE_MAX as int)
        &&& self.pot_quality.wf()
        &&& slots_bounded(self.pot_quality, SCALE_MAX as int)
        &&& self.acc_l1.wf()
        &&& self.acc_l2.wf()
        &&& (self.quantity matches Some(z) ==> quantity_zones().contains(z))
        &&& (self.quality matches Some(z) ==> quality_zones().contains(z))
        &&& self.state_wf()
        &&& (self.tick_rate is Reduced <==> self.state is Sleeping)
    }

    /// Returns a new instance of Device: aggregators empty, settings
    /// unknown, no measurement in flight, displaying at the normal rate.
    pub fn new() -> (d: Device)
        ensures
            d.wf(),
            d.state == (State::Displaying { disturbed_ticks: 0u8, idle_ticks: 0u16 }),
            d.quantity is None,
            d.quality is None,
            d.adc_measuring is None,
            d.entropy == 0,
            d.tick_rate == TickRate::Normal,
            d.display.buffer@ =~= seq![0u8, 0u8, 0u8, 0u8],
            d.display.forced_output is None,
            d.pot_quantity.put_count() == 0,
            d.pot_quality.put_count() == 0,
            d.acc_l1.x.put_count() == 0,
            d.acc_l1.y.put_count() == 0,
            d.acc_l1.z.put_count() == 0,
            d.acc_l2.x.put_count() == 0,
            d.acc_l2.y.put_count() == 0,
            d.acc_l2.z.put_count() == 0,
    {
        Device {
            display: Display::new(),
            adc_measuring: None,
            entropy: 0,
            state: State::Displaying { disturbed_ticks: 0, idle_ticks: 0 },
            pot_quantity: Agg::new(),
            pot_quality: Agg::new(),
            acc_l1: AccLevel::new(),
            acc_l2: AccLevel::new(),
            quantity: None,
            quality: None,
            tick_rate: TickRate::Normal,
            quantity_scale: quantity_scale(),
            quality_scale: quality_scale(),
        }
    }

    /// Everything a state transition leaves untouched.
    pub open spec fn same_but_state(pre: Device, post: Device) -> bool {
        &&& post.quantity == pre.quantity
        &&& post.quality == pre.quality
        &&& post.adc_measuring == pre.adc_measuring
        &&& post.acc_l1 == pre.acc_l1
        &&& post.acc_l2 == pre.acc_l2
        &&& post.pot_quantity == pre.pot_quantity
        &&& post.pot_quality == pre.pot_quality
        &&& post.entropy == pre.entropy
        &&& post.quantity_scale == pre.quantity_scale
        &&& post.quality_scale == pre.quality_scale
    }

    /// Transitions the device into the "Displaying" state, restoring the
    /// normal scheduling rate when it was sleeping.
    pub fn enter_displaying(&mut self)
        requires
            old(self).tick_rate is Reduced <==> old(self).state is Sleeping,
        ensures
            final(self).state == (State::Displaying { disturbed_ticks: 0u8, idle_ticks: 0u16 }),
            final(self).tick_rate == TickRate::Normal,
            final(self).display == old(self).display,
            Self::same_but_state(*old(self), *final(self)),
    {
        if matches!(self.state, State::Sleeping { .. }) {
            self.tick_rate = TickRate::Normal;
        }
        self.state = State::Displaying { disturbed_ticks: 0, idle_ticks: 0 };
    }

    /// Transitions the device into the "Rolling" state and prepares
    /// parameters for the random result generation from the current
    /// settings, restoring the normal scheduling rate when it was sleeping.
    pub fn enter_rolling(&mut self, quantity: u8, quality: u8)
        requires
            1 <= quantity <= 20,
            1 <= quality <= 20,
            old(self).tick_rate is Reduced <==> old(self).state is Sleeping,
        ensures
            final(self).state matches State::Rolling {
                params,
                quantity: q,
                results,
                balanced_ticks,
                animation,
            } && {
                &&& params == spec_params_for(quality)
                &&& q == quantity
                &&& results.wf()
                &&& results.put_count() == 0
                &&& balanced_ticks == 0
                &&& animation == (Spinner { next_frame: 0usize, ticks_left: 0u8 })
            },
            final(self).tick_rate == TickRate::Normal,
            final(self).display == old(self).display,
            Self::same_but_state(*old(self), *final(self)),
    {
        if matches!(self.state, State::Sleeping { .. }) {
            self.tick_rate = TickRate::Normal;
        }
        self.state = State::Rolling {
            quantity,
            params: params_for(quality),
            results: Agg::new(),
            balanced_ticks: 0,
            animation: Spinner::new(),
        };
    }

    /// Transitions the device into the "Sleeping" state: the scheduler is
    /// switched to the reduced rate and the display forced off immediately.
    pub fn enter_sleeping(&mut self)
        ensures
            final(self).state == (State::Sleeping {
                disturbed_ticks: 0u8,
                animation: (BlinkingDot {
                    dot_visible: false,
                    ticks_left: (BLINK_TICKS_HIDDEN - 1) as u16,
                }),
            }),
            final(self).tick_rate == TickRate::Reduced,
            final(self).display.buffer == old(self).display.buffer,
            final(self).display.forced_output == Some((0u8, 0u8)),
            Self::same_but_state(*old(self), *final(self)),
    {
        self.tick_rate = TickRate::Reduced;
        self.state = State::Sleeping { disturbed_ticks: 0, animation: BlinkingDot::new() };
        // turn the display off immediately
        self.display.force_output(0, 0);
    }
}

/// The knob average, once its averaging window has filled.
pub open spec fn spec_avg_full(a: Agg<AGG_SIZE>) -> Option<u16> {
    if a.put_count() >= AGG_SIZE {
        Some((sum_prefix(a.slots(), AGG_SIZE as int) / (AGG_SIZE as int)) as u16)
    } else {
        None
    }
}

/// One knob's decision: nothing before the averaging window fills; the zone
/// containing the average on first detection; afterwards the debounced
/// zone change.
pub open spec fn spec_test_pot(a: Agg<AGG_SIZE>, current: Option<Zone>, zs: Seq<Zone>) -> Option<
    Zone,
> {
    match spec_avg_full(a) {
        None => None,
        Some(avg) => match current {
            None => Some(zone_containing(zs, avg)),
            Some(c) => spec_detect_zone_change(avg, POT_DEAD_AREA, c, zs),
        },
    }
}

/// The settings-evaluation pass: each knob's decision lands in the current
/// settings, and when either knob changed while both settings are known,
/// the device shows the new settings and returns to displaying.
pub open spec fn pots_step(pre: Device, post: Device) -> bool {
    let nq = spec_test_pot(pre.pot_quantity, pre.quantity, quantity_zones());
    let nl = spec_test_pot(pre.pot_quality, pre.quality, quality_zones());
    let quantity = if nq is Some {
        nq
    } else {
        pre.quantity
    };
    let quality = if nl is Some {
        nl
    } else {
        pre.quality
    };
    &&& post.quantity == quantity
    &&& post.quality == quality
    &&& post.adc_measuring == pre.adc_measuring
    &&& post.acc_l1 == pre.acc_l1
    &&& post.acc_l2 == pre.acc_l2
    &&& post.pot_quantity == pre.pot_quantity
    &&& post.pot_quality == pre.pot_quality
    &&& post.entropy == pre.entropy
    &&& post.quantity_scale == pre.quantity_scale
    &&& post.quality_scale == pre.quality_scale
    &&& if (nq is Some || nl is Some) && quantity is Some && quality is Some {
        &&& post.state == (State::Displaying { disturbed_ticks: 0u8, idle_ticks: 0u16 })
        &&& post.tick_rate == TickRate::Normal
        &&& post.display.buffer@ == spec_settings_buffer(
            (quantity->0).value as int,
            (quality->0).value as int,
        )
        &&& post.display.forced_output == pre.display.forced_output
    } else {
        &&& post.state == pre.state
        &&& post.tick_rate == pre.tick_rate
        &&& post.display == pre.display
    }
}

impl Device {
    /// Determine whether the new position reported by the pot should lead
    /// to a change of the current setting.
    fn test_pot(pos: &Agg<AGG_SIZE>, current: Option<Zone>, scale: &Vec<Zone>) -> (r: Option<
        Zone,
    >)
        requires
            pos.wf(),
            slots_bounded(*pos, SCALE_MAX as int),
            scale_wf(scale@),
        ensures
            r == spec_test_pot(*pos, current, scale@),
            r matches Some(z) ==> scale@.contains(z),
    {
        let avg = match pos.avg_full() {
            Some(avg) => avg,
            None => {
                return None;
            },
        };

        proof {
            lemma_sum_prefix_value_bound(pos.slots(), AGG_SIZE as int, SCALE_MAX as int);
            vstd::arithmetic::div_mod::lemma_div_is_ordered(
                sum_prefix(pos.slots(), AGG_SIZE as int),
                AGG_SIZE * (SCALE_MAX as int),
                AGG_SIZE as int,
            );
            vstd::arithmetic::div_mod::lemma_div_multiples_vanish(
                SCALE_MAX as int,
                AGG_SIZE as int,
            );
        }

        match current {
            Some(c) => {
                let r = detect_zone_change(avg, POT_DEAD_AREA, c, scale);
                proof {
                    lemma_zone_change_in_scale(avg, POT_DEAD_AREA, c, scale@);
                }
                r
            },
            None => Some(detect_zone(avg, scale)),
        }
    }

    /// Render the currently active "quantity" and "quality" settings and
    /// write them to the display buffer.
    pub fn render_settings(&mut self, quantity: u8, quality: u8)
        requires
            old(self).display.wf(),
            1 <= quantity <= 99,
            1 <= quality <= 99,
        ensures
            final(self).display.wf(),
            final(self).display.buffer@ == spec_settings_buffer(quantity as int, quality as int),
            final(self).display.forced_output == old(self).display.forced_output,
            final(self).state == old(self).state,
            final(self).tick_rate == old(self).tick_rate,
            Self::same_but_state(*old(self), *final(self)),
    {
        let mut quantity_buf: Vec<u8> = Vec::new();
        quantity_buf.push(0);
        quantity_buf.push(0);
        let quantity_len = encode_u8_into(&mut quantity_buf, quantity);

        let mut quality_buf: Vec<u8> = Vec::new();
        quality_buf.push(0);
        quality_buf.push(0);
        let quality_len = encode_u8_into(&mut quality_buf, quality);

        if quantity_len == 1 && quality_len == 1 {
            self.display.buffer.set(0, 0);
            self.display.buffer.set(1, quantity_buf[0]);
            self.display.buffer.set(2, SYM_DELTA);
            self.display.buffer.set(3, quality_buf[0]);
        } else if quantity_len == 2 && quality_len == 1 {
            self.display.buffer.set(0, quantity_buf[0]);
            self.display.buffer.set(1, quantity_buf[1]);
            self.display.buffer.set(2, SYM_DELTA);
            self.display.buffer.set(3, quality_buf[0]);
        } else if quantity_len == 1 && quality_len == 2 {
            self.display.buffer.set(0, quantity_buf[0]);
            self.display.buffer.set(1, SYM_DELTA);
            self.display.buffer.set(2, quality_buf[0]);
            self.display.buffer.set(3, quality_buf[1]);
        } else {
            let pointed = quantity_buf[1] | SEG_POINT;
            self.display.buffer.set(0, quantity_buf[0]);
            self.display.buffer.set(1, pointed);
            self.display.buffer.set(2, quality_buf[0]);
            self.display.buffer.set(3, quality_buf[1]);
        }
        proof {
            assert(self.display.buffer@ =~= spec_settings_buffer(
                quantity as int,
                quality as int,
            ));
        }
    }

    /// Uses the latest averaged measurements of the potentiometer channels
    /// to detect whether the settings have been changed. If either setting
    /// changed while both are known, displays the new settings.
    pub fn test_pots(&mut self)
        requires
            old(self).wf(),
        ensures
            final(self).wf(),
            pots_step(*old(self), *final(self)),
    {
        let mut render = false;

        if let Some(new_zone) = Self::test_pot(
            &self.pot_quantity,
            self.quantity,
            &self.quantity_scale,
        ) {
            render = true;
            self.quantity = Some(new_zone);
        }

        if let Some(new_zone) = Self::test_pot(
            &self.pot_quality,
            self.quality,
            &self.quality_scale,
        ) {
            render = true;
            self.quality = Some(new_zone);
        }

        if !render {
            return ;
        }

        match (self.quantity, self.quality) {
            (Some(quantity), Some(quality)) => {
                proof {
                    lemma_quantity_scale_wf();
                    lemma_quality_scale_wf();
                    assert(quantity_zones().contains(quantity));
                    assert(quality_zones().contains(quality));
                    let i = choose|i: int|
                        0 <= i < quantity_zones().len() && quantity_zones()[i] == quantity;
                    let j = choose|j: int|
                        0 <= j < quality_zones().len() && quality_zones()[j] == quality;
                    assert(1 <= quantity.value <= 20);
                    assert(1 <= quality.value <= 20);
                }
                self.enter_displaying();
                self.render_settings(quantity.value, quality.value);
            },
            _ => {},
        }
    }
}

impl Device {
    /// The value of every zone of either scale stays between 1 and 20.
    proof fn lemma_setting_values_bounded(self)
        requires
            self.wf(),
        ensures
            self.quantity matches Some(z) ==> 1 <= z.value <= 20,
            self.quality matches Some(z) ==> 1 <= z.value <= 20,
    {
        lemma_quantity_scale_wf();
        lemma_quality_scale_wf();
        if let Some(z) = self.quantity {
            let i = choose|i: int| 0 <= i < quantity_zones().len() && quantity_zones()[i] == z;
            assert(1 <= quantity_zones()[i].value <= 20);
        }
        if let Some(z) = self.quality {
            let j = choose|j: int| 0 <= j < quality_zones().len() && quality_zones()[j] == z;
            assert(1 <= quality_zones()[j].value <= 20);
        }
    }

    /// Uses the latest aggregated measurements of the accelerometer axes to
    /// advance the per-state tick counters and trigger transitions between
    /// the Displaying, Rolling and Sleeping states.
    pub fn test_acceleration(&mut self)
        requires
            old(self).wf(),
        ensures
            final(self).wf(),
            acc_step(*old(self), *final(self)),
    {
        proof {
            old(self).lemma_setting_values_bounded();
        }
        let amps = (
            self.acc_l2.x.amplitude_full(),
            self.acc_l2.y.amplitude_full(),
            self.acc_l2.z.amplitude_full(),
        );
        let (ax, ay, az) = if let (Some(ax), Some(ay), Some(az)) = amps {
            (ax, ay, az)
        } else {
            return ;
        };

        match &mut self.state {
            State::Displaying { disturbed_ticks, idle_ticks } => {
                if acc_has_been_balanced(ax, ay, az) {
                    // the signal amplitudes of all axes have been low, reset
                    // the disturbance counter
                    *disturbed_ticks = 0;
                    *idle_ticks = *idle_ticks + 1;
                    if *idle_ticks > TICKS_TO_SLEEP {
                        self.enter_sleeping();
                    }
                    return ;
                }

                *disturbed_ticks = bump(*disturbed_ticks);
                *idle_ticks = 0;
                if *disturbed_ticks > TICKS_TO_DISTURB {
                    // the signal amplitude of at least one axis has been high
                    // for long enough to trigger a transition to "Rolling".
                    // Abort if settings haven't been initialized yet.
                    if let (Some(quantity), Some(quality)) = (self.quantity, self.quality) {
                        self.enter_rolling(quantity.value, quality.value);
                    }
                }
            },
            State::Rolling { params, quantity, results, balanced_ticks, .. } => {
                if acc_has_been_disturbed(ax, ay, az) {
                    // the signal amplitude of at least one axis has been high
                    // recently, reset the balance counter.
                    *balanced_ticks = 0;
                    return ;
                }

                *balanced_ticks = bump(*balanced_ticks);
                if *balanced_ticks >= TICKS_TO_BALANCE {
                    // the signal amplitudes of all axes have been low for
                    // long enough to exit "Rolling" and display the result.
                    // If the result is not ready, try again on the next tick.
                    if let Some(sum) = results.sum_of_first(*quantity as usize) {
                        proof {
                            lemma_sum_prefix_value_bound(
                                results.slots(),
                                *quantity as int,
                                params.bound as int,
                            );
                            let ghost q = *quantity as int;
                            let ghost b = params.bound as int;
                            assert(q * b <= 400) by (nonlinear_arith)
                                requires
                                    0 <= q <= 20,
                                    0 <= b <= 20,
                            ;
                        }
                        self.display.set_number(sum as u16);
                        self.enter_displaying();
                    }
                }
            },
            State::Sleeping { disturbed_ticks, .. } => {
                if acc_has_been_balanced(ax, ay, az) {
                    // the signal amplitudes of all axes have been low, reset
                    // the disturbance counter
                    *disturbed_ticks = 0;
                    return ;
                }

                *disturbed_ticks = bump(*disturbed_ticks);
                if *disturbed_ticks > TICKS_TO_WAKE {
                    // the signal amplitude of at least one axis has been high
                    // for long enough to wake straight into "Rolling".
                    // Abort if settings haven't been initialized yet.
                    if let (Some(quantity), Some(quality)) = (self.quantity, self.quality) {
                        self.enter_rolling(quantity.value, quality.value);
                    }
                }
            },
        }
    }
}

/// Wrapping 16-bit accumulation of a sample into the entropy pool.
pub open spec fn spec_entropy_add(e: u16, v: u16) -> u16 {
    ((e + v) % 0x10000) as u16
}

/// One aggregator took one put.
pub open spec fn agg_put<const N: usize>(pre: Agg<N>, v: u16, post: Agg<N>) -> bool {
    &&& post.wf()
    &&& post.slots() == pre.slots().update(pre.cursor() as int, Some(v))
    &&& post.put_count() == pre.put_count() + 1
}

/// The smoothed window takes the raw window's average whenever the raw
/// window is full after its put.
pub open spec fn level2_fed(
    l1_after: Agg<AGG_SIZE>,
    l2_pre: Agg<AGG_SIZE>,
    l2_post: Agg<AGG_SIZE>,
) -> bool {
    if l1_after.put_count() >= AGG_SIZE {
        agg_put(
            l2_pre,
            (sum_prefix(l1_after.slots(), AGG_SIZE as int) / (AGG_SIZE as int)) as u16,
            l2_post,
        )
    } else {
        l2_post == l2_pre
    }
}

/// Routing of one completed conversion: the sample lands in its channel's
/// aggregator, accelerometer samples feed the entropy pool and possibly the
/// smoothed window, and the next channel's conversion begins — except after
/// the last channel, where the sweep ends with no conversion in flight.
pub open spec fn route_sample(pre: Device, m: Measurement, result: u16, post: Device) -> bool {
    &&& post.display == pre.display
    &&& post.state == pre.state
    &&& post.quantity == pre.quantity
    &&& post.quality == pre.quality
    &&& post.tick_rate == pre.tick_rate
    &&& post.quantity_scale == pre.quantity_scale
    &&& post.quality_scale == pre.quality_scale
    &&& match m {
        Measurement::PotQuantity => {
            &&& agg_put(pre.pot_quantity, result, post.pot_quantity)
            &&& post.pot_quality == pre.pot_quality
            &&& post.acc_l1 == pre.acc_l1
            &&& post.acc_l2 == pre.acc_l2
            &&& post.entropy == pre.entropy
            &&& post.adc_measuring == Some(Measurement::PotQuality)
        },
        Measurement::PotQuality => {
            &&& post.pot_quantity == pre.pot_quantity
            &&& agg_put(pre.pot_quality, result, post.pot_quality)
            &&& post.acc_l1 == pre.acc_l1
            &&& post.acc_l2 == pre.acc_l2
            &&& post.entropy == pre.entropy
            &&& post.adc_measuring == Some(Measurement::AccX)
        },
        Measurement::AccX => {
            &&& post.pot_quantity == pre.pot_quantity
            &&& post.pot_quality == pre.pot_quality
            &&& post.entropy == spec_entropy_add(pre.entropy, result)
            &&& agg_put(pre.acc_l1.x, result, post.acc_l1.x)
            &&& post.acc_l1.y == pre.acc_l1.y
            &&& post.acc_l1.z == pre.acc_l1.z
            &&& level2_fed(post.acc_l1.x, pre.acc_l2.x, post.acc_l2.x)
            &&& post.acc_l2.y == pre.acc_l2.y
            &&& post.acc_l2.z == pre.acc_l2.z
            &&& post.adc_measuring == Some(Measurement::AccY)
        },
        Measurement::AccY => {
            &&& post.pot_quantity == pre.pot_quantity
            &&& post.pot_quality == pre.pot_quality
            &&& post.entropy == spec_entropy_add(pre.entropy, result)
            &&& agg_put(pre.acc_l1.y, result, post.acc_l1.y)
            &&& post.acc_l1.x == pre.acc_l1.x
            &&& post.acc_l1.z == pre.acc_l1.z
            &&& level2_fed(post.acc_l1.y, pre.acc_l2.y, post.acc_l2.y)
            &&& post.acc_l2.x == pre.acc_l2.x
            &&& post.acc_l2.z == pre.acc_l2.z
            &&& post.adc_measuring == Some(Measurement::AccZ)
        },
        Measurement::AccZ => {
            &&& post.pot_quantity == pre.pot_quantity
            &&& post.pot_quality == pre.pot_quality
            &&& post.entropy == spec_entropy_add(pre.entropy, result)
            &&& agg_put(pre.acc_l1.z, result, post.acc_l1.z)
            &&& post.acc_l1.x == pre.acc_l1.x
            &&& post.acc_l1.y == pre.acc_l1.y
            &&& level2_fed(post.acc_l1.z, pre.acc_l2.z, post.acc_l2.z)
            &&& post.acc_l2.x == pre.acc_l2.x
            &&& post.acc_l2.y == pre.acc_l2.y
            &&& post.adc_measuring is None
        },
    }
}

/// One completed conversion: the sample is routed, and after the final
/// channel one settings-evaluation pass and one motion-evaluation pass run
/// in turn.
pub open spec fn adc_ready_step(pre: Device, m: Measurement, result: u16, post: Device) -> bool {
    if m is AccZ {
        exists|mid1: Device, mid2: Device|
            #![trigger pots_step(mid1, mid2)]
            {
                &&& route_sample(pre, m, result, mid1)
                &&& mid1.wf()
                &&& pots_step(mid1, mid2)
                &&& mid2.wf()
                &&& acc_step(mid2, post)
            }
    } else {
        route_sample(pre, m, result, post)
    }
}

/// The scheduling tick: in Rolling the spinner advances and a draw from the
/// entropy pool is attempted; in Sleeping the blinking dot advances; then a
/// fresh sampling sweep begins on the first channel.
pub open spec fn timer_step(pre: Device, post: Device) -> bool {
    &&& post.quantity == pre.quantity
    &&& post.quality == pre.quality
    &&& post.acc_l1 == pre.acc_l1
    &&& post.acc_l2 == pre.acc_l2
    &&& post.pot_quantity == pre.pot_quantity
    &&& post.pot_quality == pre.pot_quality
    &&& post.entropy == pre.entropy
    &&& post.quantity_scale == pre.quantity_scale
    &&& post.quality_scale == pre.quality_scale
    &&& post.tick_rate == pre.tick_rate
    &&& post.adc_measuring == Some(Measurement::PotQuantity)
    &&& match pre.state {
        State::Displaying { .. } => {
            &&& post.state == pre.state
            &&& post.display == pre.display
        },
        State::Rolling { params, quantity, results, balanced_ticks, animation } => {
            let spun = if animation.ticks_left > 0 {
                pre.display.buffer@
            } else {
                spec_spinner_frame(animation.next_frame as int)
            };
            let next_animation = if animation.ticks_left > 0 {
                Spinner {
                    next_frame: animation.next_frame,
                    ticks_left: (animation.ticks_left - 1) as u8,
                }
            } else {
                Spinner {
                    next_frame: ((animation.next_frame + 1) % (SPINNER_FRAMES as int)) as usize,
                    ticks_left: (SPINNER_TICKS_PER_FRAME - 1) as u8,
                }
            };
            &&& post.display.buffer@ == spun
            &&& post.display.forced_output == pre.display.forced_output
            &&& post.state matches State::Rolling {
                params: p2,
                quantity: q2,
                results: r2,
                balanced_ticks: b2,
                animation: a2,
            } && {
                &&& p2 == params
                &&& q2 == quantity
                &&& b2 == balanced_ticks
                &&& a2 == next_animation
                &&& match spec_generate(params, pre.entropy as u8) {
                    Some(v) => agg_put(results, (v + 1) as u16, r2),
                    None => r2 == results,
                }
            }
        },
        State::Sleeping { disturbed_ticks, animation } => {
            let next_animation = if animation.ticks_left > 0 {
                BlinkingDot {
                    dot_visible: animation.dot_visible,
                    ticks_left: (animation.ticks_left - 1) as u16,
                }
            } else if animation.dot_visible {
                BlinkingDot { dot_visible: false, ticks_left: (BLINK_TICKS_HIDDEN - 1) as u16 }
            } else {
                BlinkingDot { dot_visible: true, ticks_left: (BLINK_TICKS_VISIBLE - 1) as u16 }
            };
            &&& post.state == (State::Sleeping { disturbed_ticks, animation: next_animation })
            &&& post.display.buffer == pre.display.buffer
            &&& post.display.forced_output == (if animation.ticks_left > 0 {
                pre.display.forced_output
            } else if animation.dot_visible {
                Some((0u8, 0u8))
            } else {
                Some((SEG_POINT, POS_D4))
            })
        },
    }
}

impl Device {
    /// Everything the start of a conversion leaves untouched.
    pub open spec fn same_but_adc(pre: Device, post: Device) -> bool {
        &&& post.display == pre.display
        &&& post.state == pre.state
        &&& post.quantity == pre.quantity
        &&& post.quality == pre.quality
        &&& post.acc_l1 == pre.acc_l1
        &&& post.acc_l2 == pre.acc_l2
        &&& post.pot_quantity == pre.pot_quantity
        &&& post.pot_quality == pre.pot_quality
        &&& post.entropy == pre.entropy
        &&& post.tick_rate == pre.tick_rate
        &&& post.quantity_scale == pre.quantity_scale
        &&& post.quality_scale == pre.quality_scale
    }

    /// Marks the specified measurement as in flight; the scheduler
    /// collaborator starts the conversion on the matching channel.
    ///
    /// Starting a second measurement while one is in flight would mean the
    /// timing budget between ticks is too tight, an unrecoverable fault;
    /// callers only start one when none is pending.
    fn adc_start(&mut self, m: Measurement)
        requires
            old(self).adc_measuring is None,
        ensures
            final(self).adc_measuring == Some(m),
            Self::same_but_adc(*old(self), *final(self)),
    {
        self.adc_measuring = Some(m);
    }

    /// The tick event handler. In Rolling it advances the spinner and
    /// attempts one random draw from the entropy pool; in Sleeping it
    /// advances the blinking dot. Either way it begins a fresh sampling
    /// sweep; one must never begin while a measurement is still in flight.
    pub fn timer_interrupt(&mut self)
        requires
            old(self).wf(),
            old(self).adc_measuring is None,
        ensures
            final(self).wf(),
            timer_step(*old(self), *final(self)),
    {
        match &mut self.state {
            State::Rolling { params, results, animation, .. } => {
                // advance the spinning animation.
                animation.advance(&mut self.display.buffer);

                // generate a new random die throw and add it to the results
                // on success.
                if let Some(rnd) = generate(params, self.entropy as u8) {
                    results.put((rnd + 1) as u16);
                }
            },
            State::Sleeping { animation, .. } => {
                animation.advance(&mut self.display);
            },
            _ => {},
        }

        // the ordinary display refresh runs in the output collaborator.
        self.adc_start(Measurement::PotQuantity);
    }

    /// Handles a completed measurement result from the converter.
    fn adc_ready(&mut self, m: Measurement, result: u16)
        requires
            old(self).wf(),
            old(self).adc_measuring is None,
            result <= SCALE_MAX,
        ensures
            final(self).wf(),
            adc_ready_step(*old(self), m, result, *final(self)),
    {
        // accelerometer measurements feed the entropy pool.
        if matches!(m, Measurement::AccX | Measurement::AccY | Measurement::AccZ) {
            let widened = self.entropy as u32 + result as u32;
            self.entropy = (widened % 0x10000) as u16;
        }

        match m {
            Measurement::PotQuantity => {
                self.pot_quantity.put(result);
                self.adc_start(Measurement::PotQuality);
            },
            Measurement::PotQuality => {
                self.pot_quality.put(result);
                self.adc_start(Measurement::AccX);
            },
            Measurement::AccX => {
                self.acc_l1.x.put(result);
                if let Some(avg) = self.acc_l1.x.avg_full() {
                    self.acc_l2.x.put(avg);
                }
                self.adc_start(Measurement::AccY);
            },
            Measurement::AccY => {
                self.acc_l1.y.put(result);
                if let Some(avg) = self.acc_l1.y.avg_full() {
                    self.acc_l2.y.put(avg);
                }
                self.adc_start(Measurement::AccZ);
            },
            Measurement::AccZ => {
                self.acc_l1.z.put(result);
                if let Some(avg) = self.acc_l1.z.avg_full() {
                    self.acc_l2.z.put(avg);
                }

                let ghost mid1 = *self;
                self.test_pots();
                let ghost mid2 = *self;
                self.test_acceleration();
                proof {
                    assert(route_sample(*old(self), m, result, mid1));
                    assert(pots_step(mid1, mid2));
                }
            },
        }
    }

    /// The conversion-complete event handler: hands the raw value to the
    /// stage whose measurement is in flight, if any.
    pub fn adc_interrupt(&mut self, result: u16)
        requires
            old(self).wf(),
            result <= SCALE_MAX,
        ensures
            final(self).wf(),
            old(self).adc_measuring is None ==> *final(self) == *old(self),
            old(self).adc_measuring matches Some(m) ==> adc_ready_step(
                *old(self),
                m,
                result,
                *final(self),
            ),
    {
        match self.adc_measuring {
            Some(m) => {
                self.adc_measuring = None;
                self.adc_ready(m, result);
            },
            None => {},
        }
    }
}

/// Once idleness outlasts the sleep threshold while Displaying, the
/// motion-evaluation pass puts the device to sleep: the reduced rate is
/// commanded and the display forced off.
pub proof fn lemma_idle_falls_asleep(pre: Device, post: Device)
    requires
        acc_step(pre, post),
        spec_amp(pre.acc_l2.x) matches Some(ax) && spec_amp(pre.acc_l2.y) matches Some(ay)
            && spec_amp(pre.acc_l2.z) matches Some(az) && spec_balanced(ax, ay, az),
        pre.state matches State::Displaying { disturbed_ticks, idle_ticks } && idle_ticks
            >= TICKS_TO_SLEEP,
    ensures
        post.state is Sleeping,
        post.tick_rate is Reduced,
        post.display.forced_output == Some((0u8, 0u8)),
{
}

/// From Sleeping, a motion-evaluation pass either stays asleep or wakes
/// straight into Rolling at the normal rate: it never passes through
/// Displaying.
pub proof fn lemma_wake_goes_straight_to_rolling(pre: Device, post: Device)
    requires
        acc_step(pre, post),
        pre.state is Sleeping,
    ensures
        !(post.state is Displaying),
        post.state is Rolling ==> post.tick_rate == TickRate::Normal,
{
}

/// All three smoothed amplitudes stayed below the disturbance threshold.
pub open spec fn spec_balanced(ax: u16, ay: u16, az: u16) -> bool {
    ax < MIN_FORCE_AMPLITUDE && ay < MIN_FORCE_AMPLITUDE && az < MIN_FORCE_AMPLITUDE
}

/// One saturating counter step.
pub open spec fn spec_bump(t: u8) -> u8 {
    if t < 255 {
        (t + 1) as u8
    } else {
        t
    }
}

/// The smoothed amplitude of one axis, once its window has filled.
pub open spec fn spec_amp(a: Agg<AGG_SIZE>) -> Option<u16> {
    if a.put_count() >= AGG_SIZE {
        Some(
            (max_prefix(a.slots(), AGG_SIZE as int) - min_prefix(a.slots(), AGG_SIZE as int))
                as u16,
        )
    } else {
        None
    }
}

/// The device has just entered the "Rolling" state: a fresh results window
/// and animation, parameters derived from the quality setting, and the
/// normal scheduling rate restored.
pub open spec fn rolling_entered(pre: Device, post: Device, quantity: u8, quality: u8) -> bool {
    &&& post.state matches State::Rolling {
        params,
        quantity: q,
        results,
        balanced_ticks,
        animation,
    } && {
        &&& params == spec_params_for(quality)
        &&& q == quantity
        &&& results.wf()
        &&& results.put_count() == 0
        &&& balanced_ticks == 0
        &&& animation == (Spinner { next_frame: 0usize, ticks_left: 0u8 })
    }
    &&& post.tick_rate == TickRate::Normal
    &&& post.display == pre.display
    &&& Device::same_but_state(pre, post)
}

/// The motion-evaluation pass: nothing happens until all three smoothed
/// windows have filled; then sustained balance or disturbance advances the
/// per-state counters and drives the transitions between Displaying,
/// Rolling and Sleeping.
pub open spec fn acc_step(pre: Device, post: Device) -> bool {
    let ax_a = spec_amp(pre.acc_l2.x);
    let ay_a = spec_amp(pre.acc_l2.y);
    let az_a = spec_amp(pre.acc_l2.z);
    if !(ax_a is Some && ay_a is Some && az_a is Some) {
        post == pre
    } else {
        let balanced = spec_balanced(ax_a->0, ay_a->0, az_a->0);
        match pre.state {
            State::Displaying { disturbed_ticks, idle_ticks } => {
                if balanced {
                    if idle_ticks + 1 > TICKS_TO_SLEEP {
                        &&& post.state == (State::Sleeping {
                            disturbed_ticks: 0u8,
                            animation: (BlinkingDot {
                                dot_visible: false,
                                ticks_left: (BLINK_TICKS_HIDDEN - 1) as u16,
                            }),
                        })
                        &&& post.tick_rate == TickRate::Reduced
                        &&& post.display.buffer == pre.display.buffer
                        &&& post.display.forced_output == Some((0u8, 0u8))
                        &&& Device::same_but_state(pre, post)
                    } else {
                        &&& post.state == (State::Displaying {
                            disturbed_ticks: 0u8,
                            idle_ticks: (idle_ticks + 1) as u16,
                        })
                        &&& post.tick_rate == pre.tick_rate
                        &&& post.display == pre.display
                        &&& Device::same_but_state(pre, post)
                    }
                } else {
                    let dt = spec_bump(disturbed_ticks);
                    if dt > TICKS_TO_DISTURB && pre.quantity is Some && pre.quality is Some {
                        rolling_entered(pre, post, (pre.quantity->0).value, (pre.quality->0).value)
                    } else {
                        &&& post.state == (State::Displaying {
                            disturbed_ticks: dt,
                            idle_ticks: 0u16,
                        })
                        &&& post.tick_rate == pre.tick_rate
                        &&& post.display == pre.display
                        &&& Device::same_but_state(pre, post)
                    }
                }
            },
            State::Rolling { params, quantity, results, balanced_ticks, animation } => {
                if !balanced {
                    &&& post.state == (State::Rolling {
                        params,
                        quantity,
                        results,
                        balanced_ticks: 0u8,
                        animation,
                    })
                    &&& post.tick_rate == pre.tick_rate
                    &&& post.display == pre.display
                    &&& Device::same_but_state(pre, post)
                } else {
                    let bt = spec_bump(balanced_ticks);
                    if bt >= TICKS_TO_BALANCE && quantity <= results.put_count() {
                        &&& post.state == (State::Displaying {
                            disturbed_ticks: 0u8,
                            idle_ticks: 0u16,
                        })
                        &&& post.tick_rate == pre.tick_rate
                        &&& post.display.buffer@ == spec_number_buffer(
                            sum_prefix(results.slots(), quantity as int),
                        )
                        &&& post.display.forced_output == pre.display.forced_output
                        &&& Device::same_but_state(pre, post)
                    } else {
                        &&& post.state == (State::Rolling {
                            params,
                            quantity,
                            results,
                            balanced_ticks: bt,
                            animation,
                        })
                        &&& post.tick_rate == pre.tick_rate
                        &&& post.display == pre.display
                        &&& Device::same_but_state(pre, post)
                    }
                }
            },
            State::Sleeping { disturbed_ticks, animation } => {
                if balanced {
                    &&& post.state == (State::Sleeping { disturbed_ticks: 0u8, animation })
                    &&& post.tick_rate == pre.tick_rate
                    &&& post.display == pre.display
                    &&& Device::same_but_state(pre, post)
                } else {
                    let dt = spec_bump(disturbed_ticks);
                    if dt > TICKS_TO_WAKE && pre.quantity is Some && pre.quality is Some {
                        rolling_entered(pre, post, (pre.quantity->0).value, (pre.quality->0).value)
                    } else {
                        &&& post.state == (State::Sleeping { disturbed_ticks: dt, animation })
                        &&& post.tick_rate == pre.tick_rate
                        &&& post.display == pre.display
                        &&& Device::same_but_state(pre, post)
                    }
                }
            },
        }
    }
}

/// Counts one more tick of a condition, holding at the top of the counter's
/// range.
fn bump(t: u8) -> (r: u8)
    ensures
        r == spec_bump(t),
{
    if t < 255 {
        t + 1
    } else {
        t
    }
}

/// Shortcut for checking for sufficient disturbance on any axis.
fn acc_has_been_disturbed(ax: u16, ay: u16, az: u16) -> (b: bool)
    ensures
        b == !spec_balanced(ax, ay, az),
{
    ax >= MIN_FORCE_AMPLITUDE || ay >= MIN_FORCE_AMPLITUDE || az >= MIN_FORCE_AMPLITUDE
}

/// Shortcut for checking for balance on all axes.
fn acc_has_been_balanced(ax: u16, ay: u16, az: u16) -> (b: bool)
    ensures
        b == spec_balanced(ax, ay, az),
{
    ax < MIN_FORCE_AMPLITUDE && ay < MIN_FORCE_AMPLITUDE && az < MIN_FORCE_AMPLITUDE
}

} // verus!

