//! The flour pile and kneading pipeline: button holds and the
//! auto-kneader fill a bar; a full bar turns into one dough ball for the
//! rollers' reserve and the bar starts over.

use vstd::prelude::*;
use crate::audio_events::{AudioEvent, AudioEventChannel};
use crate::core_elements::{
    AutoTicker, ButtonEvents, CoreParameters, CoreState, AUTO_KNEAD_RATE_PPM_PER_MS,
    FILL_SCALE_PPM, FULL_FILL_THRESHOLD_PPM, MAX_TIME_MS,
};
use crate::fill_bar::{FillBar, ScreenRect, SCREEN_COORD_BOUND};

verus! {

/// The fill after one knead tick: clamped to a full bar.
pub open spec fn ticked_fill(fill: u64, tick: u64) -> u64 {
    if fill + tick <= FILL_SCALE_PPM {
        (fill + tick) as u64
    } else {
        FILL_SCALE_PPM as u64
    }
}

/// The flour pile: its fill bar, the auto-kneader, and the visual state
/// of the button indicator and the hired kneaders.
#[derive(Debug)]
pub struct FlourPile {
    fill_bar: FillBar,
    auto_knead: AutoTicker,
    a_button_pressed: bool,
    grans_level: u64,
}

impl FlourPile {
    pub closed spec fn wf(&self) -> bool {
        &&& self.fill_bar.wf()
        &&& self.auto_knead.wf()
        &&& self.auto_knead.spec_base_rate() == AUTO_KNEAD_RATE_PPM_PER_MS
    }

    pub closed spec fn spec_fill_ppm(&self) -> u64 {
        self.fill_bar.spec_fill_ppm()
    }

    pub closed spec fn spec_auto(&self) -> AutoTicker {
        self.auto_knead
    }

    pub closed spec fn spec_button_pressed(&self) -> bool {
        self.a_button_pressed
    }

    pub closed spec fn spec_grans_level(&self) -> u64 {
        self.grans_level
    }

    /// Whether the fill bar still awaits a redraw.
    pub closed spec fn spec_bar_dirty(&self) -> bool {
        self.fill_bar.spec_dirty()
    }

    /// The full rectangle of the fill bar on screen.
    pub closed spec fn spec_bar_rect(&self) -> ScreenRect {
        self.fill_bar.spec_full_rect()
    }

    pub fn new(pos: (i32, i32), now_ms: u64) -> (r: FlourPile)
        requires
            -SCREEN_COORD_BOUND + 200 < pos.0 < SCREEN_COORD_BOUND - 200,
            -SCREEN_COORD_BOUND + 200 < pos.1 < SCREEN_COORD_BOUND - 200,
        ensures
            r.wf(),
            r.spec_fill_ppm() == 0,
            r.spec_auto().spec_level() == 0,
            r.spec_auto().spec_last_tick() == now_ms,
            !r.spec_button_pressed(),
            r.spec_grans_level() == 0,
    {
        let (x, y) = pos;
        FlourPile {
            fill_bar: FillBar::new((x + 55, y - 45)),
            auto_knead: AutoTicker::new(AUTO_KNEAD_RATE_PPM_PER_MS, now_ms),
            a_button_pressed: false,
            grans_level: 0,
        }
    }

    /// The current fill fraction, in parts per million.
    pub fn fill_ppm(&self) -> (r: u64)
        ensures
            r == self.spec_fill_ppm(),
    {
        self.fill_bar.get_fill_pct()
    }

    /// Whether the host must redraw the fill bar this frame; asking
    /// clears the flag until the fill next changes.
    pub fn fill_bar_update(&mut self) -> (redraw: bool)
        requires
            old(self).wf(),
        ensures
            final(self).wf(),
            redraw == old(self).spec_bar_dirty(),
            !final(self).spec_bar_dirty(),
            final(self).spec_fill_ppm() == old(self).spec_fill_ppm(),
            final(self).spec_bar_rect() == old(self).spec_bar_rect(),
            final(self).spec_auto() == old(self).spec_auto(),
            final(self).spec_button_pressed() == old(self).spec_button_pressed(),
            final(self).spec_grans_level() == old(self).spec_grans_level(),
    {
        self.fill_bar.update()
    }

    /// The rectangle the host fills when drawing the bar: the bar's
    /// rectangle scaled by the fill fraction, anchored at the bottom edge.
    pub fn draw_fill_bar(&self) -> (r: ScreenRect)
        requires
            self.wf(),
        ensures
            r.height == self.spec_bar_rect().height * self.spec_fill_ppm() / (
            FILL_SCALE_PPM as int),
            r.y == self.spec_bar_rect().y + (self.spec_bar_rect().height - r.height),
            r.x == self.spec_bar_rect().x,
            r.width == self.spec_bar_rect().width,
    {
        self.fill_bar.get_fill_rect()
    }

    fn tick(&mut self, tick_size: u64)
        requires
            old(self).wf(),
            tick_size <= 0xF000_0000_0000_0000,
        ensures
            final(self).wf(),
            final(self).spec_fill_ppm() == ticked_fill(old(self).spec_fill_ppm(), tick_size),
            final(self).spec_auto() == old(self).spec_auto(),
            final(self).spec_button_pressed() == old(self).spec_button_pressed(),
            final(self).spec_grans_level() == old(self).spec_grans_level(),
    {
        self.fill_bar.incr_fill_pct(tick_size);
        self.fill_bar.update();
    }

    fn is_full(&self) -> (r: bool)
        requires
            self.wf(),
        ensures
            r == (self.spec_fill_ppm() >= FULL_FILL_THRESHOLD_PPM),
    {
        self.fill_bar.get_fill_pct() >= FULL_FILL_THRESHOLD_PPM
    }

    fn reset(&mut self)
        requires
            old(self).wf(),
        ensures
            final(self).wf(),
            final(self).spec_fill_ppm() == 0,
            final(self).spec_auto() == old(self).spec_auto(),
            final(self).spec_button_pressed() == old(self).spec_button_pressed(),
            final(self).spec_grans_level() == old(self).spec_grans_level(),
    {
        self.fill_bar.set_fill_pct(0);
    }

    /// One frame of kneading: a held or released knead button adds a
    /// manual tick, otherwise the auto-kneader's progress counts. A bar
    /// at or past the full threshold yields exactly one dough ball (with
    /// a cue) and starts over at zero; the fill never shows past a full
    /// bar.
    pub fn update(
        &mut self,
        state: &mut CoreState,
        parameters: &CoreParameters,
        events: &mut AudioEventChannel,
        buttons: ButtonEvents,
        now_ms: u64,
    )
        requires
            old(self).wf(),
            old(state).wf(),
            parameters.wf(),
            now_ms <= MAX_TIME_MS,
            old(events)@.len() < usize::MAX,
        ensures
            final(self).wf(),
            final(state).wf(),
            final(self).spec_fill_ppm() <= FILL_SCALE_PPM,
            final(state).money@ == old(state).money@,
            final(state).diamonds@ == old(state).diamonds@,
            final(self).spec_grans_level() == parameters.auto_knead_level,
            ({
                let manual = buttons.a_pressed || buttons.a_released;
                let tick = if manual {
                    parameters.knead_tick_size
                } else {
                    old(self).spec_auto().spec_yield(parameters.auto_knead_level, now_ms)
                };
                let filled = ticked_fill(old(self).spec_fill_ppm(), tick);
                if filled >= FULL_FILL_THRESHOLD_PPM {
                    &&& final(self).spec_fill_ppm() == 0
                    &&& final(state).dough_balls@ == old(state).dough_balls@ + 1
                    &&& final(events)@ == old(events)@.push(AudioEvent::DoughCreated)
                } else {
                    &&& final(self).spec_fill_ppm() == filled
                    &&& final(state).dough_balls@ == old(state).dough_balls@
                    &&& final(events)@ == old(events)@
                }
            }),
            final(self).spec_button_pressed() == (if buttons.a_pressed {
                true
            } else if buttons.a_released {
                false
            } else {
                old(self).spec_button_pressed()
            }),
    {
        self.grans_level = parameters.auto_knead_level;
        let auto_knead: u64 = self.auto_knead.poll(parameters.auto_knead_level, now_ms);
        if buttons.a_pressed {
            self.a_button_pressed = true;
            self.tick(parameters.knead_tick_size);
        } else if buttons.a_released {
            self.a_button_pressed = false;
            self.tick(parameters.knead_tick_size);
        } else {
            self.tick(auto_knead);
        }
        if self.is_full() {
            events.push(AudioEvent::DoughCreated);
            let one = crate::game_value::GameUInt::one();
            state.dough_balls.add_assign(&one);
            self.reset();
        }
    }
}

} // verus!
