//! Shared state of the economy: tunable parameters, currency balances,
//! timers and the auto-tickers that turn elapsed time into idle progress.
//!
//! Fractional quantities of the game (fill percentages, crank degrees)
//! are held in fixed-point integers: fill levels in parts per million of
//! a full bar, crank angles in thousandths of a degree, time in
//! milliseconds.

use vstd::prelude::*;
use crate::game_value::GameUInt;

verus! {

/// One full fill bar, in parts per million.
pub const FILL_SCALE_PPM: u64 = 1_000_000;

/// Fill level at which the bar counts as full (0.99 of the bar).
pub const FULL_FILL_THRESHOLD_PPM: u64 = 990_000;

/// Fill added by one manual knead tick in a fresh game (0.02 of the bar).
pub const DEFAULT_KNEAD_TICK_PPM: u64 = 20_000;

/// What one pasta sells for in a fresh game.
pub const DEFAULT_PASTA_PRICE: u64 = 20;

/// One full crank revolution, in thousandths of a degree.
pub const FULL_TURN_MILLIDEG: u64 = 360_000;

/// Auto-crank speed per level: 40 degrees per second.
pub const AUTO_CRANK_RATE_MILLIDEG_PER_MS: u64 = 40;

/// Auto-knead speed per level: 0.02 of the bar per second.
pub const AUTO_KNEAD_RATE_PPM_PER_MS: u64 = 20;

/// How often the game is saved, in milliseconds.
pub const SAVE_INTERVAL_MS: u64 = 5_000;

/// Upgrades stop selling once their purchase count passes this.
pub const MAX_UPGRADE_COUNT: u64 = 10;

/// Machine limit on clock readings: about 35 years of milliseconds, so
/// rate computations stay inside a `u64`.
pub const MAX_TIME_MS: u64 = 0x100_0000_0000;

/// Machine limit on auto-ticker levels, above every reachable level.
pub const MAX_AUTO_LEVEL: u64 = 16;

/// Machine limit on auto-ticker base rates, above both rates in use.
pub const MAX_AUTO_RATE: u64 = 64;

#[derive(Debug, Copy, Clone, PartialEq, Eq, Structural)]
pub enum GameMode {
    LevelSelect,
    Game,
    Menu,
}

#[derive(Debug, Copy, Clone, PartialEq, Eq, Structural)]
pub enum VisibilityState {
    Visible,
    Hidden,
}

impl VisibilityState {
    /// The opposite visibility.
    pub open spec fn not_spec(self) -> VisibilityState {
        match self {
            VisibilityState::Visible => VisibilityState::Hidden,
            VisibilityState::Hidden => VisibilityState::Visible,
        }
    }

    /// The opposite visibility.
    pub fn not(self) -> (r: VisibilityState)
        ensures
            r == self.not_spec(),
    {
        match self {
            VisibilityState::Visible => VisibilityState::Hidden,
            VisibilityState::Hidden => VisibilityState::Visible,
        }
    }
}

/// One button of the hand-held console.
#[derive(Debug, Copy, Clone, PartialEq, Eq, Structural)]
pub enum Button {
    Up,
    Down,
    Left,
    Right,
    A,
    B,
}

/// The edge state of the buttons for one frame, as the host reports it.
#[derive(Debug, Copy, Clone, PartialEq, Eq, Structural)]
pub struct ButtonEvents {
    pub up_pressed: bool,
    pub down_pressed: bool,
    pub left_pressed: bool,
    pub right_pressed: bool,
    pub a_pressed: bool,
    pub a_released: bool,
    pub b_pressed: bool,
}

impl ButtonEvents {
    pub open spec fn spec_none() -> ButtonEvents {
        ButtonEvents {
            up_pressed: false,
            down_pressed: false,
            left_pressed: false,
            right_pressed: false,
            a_pressed: false,
            a_released: false,
            b_pressed: false,
        }
    }

    /// A frame in which no button changed.
    pub fn none() -> (r: ButtonEvents)
        ensures
            r == ButtonEvents::spec_none(),
    {
        ButtonEvents {
            up_pressed: false,
            down_pressed: false,
            left_pressed: false,
            right_pressed: false,
            a_pressed: false,
            a_released: false,
            b_pressed: false,
        }
    }

    pub open spec fn spec_is_pressed(self, b: Button) -> bool {
        match b {
            Button::Up => self.up_pressed,
            Button::Down => self.down_pressed,
            Button::Left => self.left_pressed,
            Button::Right => self.right_pressed,
            Button::A => self.a_pressed,
            Button::B => self.b_pressed,
        }
    }

    pub fn is_pressed(&self, b: Button) -> (r: bool)
        ensures
            r == self.spec_is_pressed(b),
    {
        match b {
            Button::Up => self.up_pressed,
            Button::Down => self.down_pressed,
            Button::Left => self.left_pressed,
            Button::Right => self.right_pressed,
            Button::A => self.a_pressed,
            Button::B => self.b_pressed,
        }
    }
}

/// Core parameters that upgrades change and the simulation reads.
#[derive(Debug)]
pub struct CoreParameters {
    /// Fill added to the flour bar by one knead tick, in parts per million.
    pub knead_tick_size: u64,
    /// What one finished pasta sells for.
    pub pasta_price: GameUInt,
    /// Level of the auto-cranker (0 = none bought).
    pub auto_crank_level: u64,
    /// Level of the auto-kneader (0 = none bought).
    pub auto_knead_level: u64,
}

impl CoreParameters {
    pub open spec fn wf(&self) -> bool {
        &&& self.pasta_price.wf()
        &&& self.knead_tick_size <= FILL_SCALE_PPM
        &&& self.auto_crank_level <= MAX_UPGRADE_COUNT + 1
        &&& self.auto_knead_level <= MAX_UPGRADE_COUNT + 1
    }
}

impl Default for CoreParameters {
    fn default() -> (r: CoreParameters)
        ensures
            r.wf(),
            r.knead_tick_size == DEFAULT_KNEAD_TICK_PPM,
            r.pasta_price@ == DEFAULT_PASTA_PRICE,
            r.auto_crank_level == 0,
            r.auto_knead_level == 0,
    {
        CoreParameters {
            knead_tick_size: DEFAULT_KNEAD_TICK_PPM,
            pasta_price: GameUInt::from_u64(DEFAULT_PASTA_PRICE),
            auto_crank_level: 0,
            auto_knead_level: 0,
        }
    }
}

impl Clone for CoreParameters {
    fn clone(&self) -> (r: Self)
        ensures
            r.knead_tick_size == self.knead_tick_size,
            r.pasta_price@ == self.pasta_price@,
            r.pasta_price.wf() == self.pasta_price.wf(),
            r.auto_crank_level == self.auto_crank_level,
            r.auto_knead_level == self.auto_knead_level,
            r.wf() == self.wf(),
    {
        CoreParameters {
            knead_tick_size: self.knead_tick_size,
            pasta_price: self.pasta_price.clone(),
            auto_crank_level: self.auto_crank_level,
            auto_knead_level: self.auto_knead_level,
        }
    }
}

/// Core state of the game: the balances that grow over time.
#[derive(Debug)]
pub struct CoreState {
    pub money: GameUInt,
    pub diamonds: GameUInt,
    pub dough_balls: GameUInt,
}

impl CoreState {
    pub open spec fn wf(&self) -> bool {
        self.money.wf() && self.diamonds.wf() && self.dough_balls.wf()
    }

    /// A fresh game: every balance starts at zero.
    pub fn new() -> (r: CoreState)
        ensures
            r.wf(),
            r.money@ == 0,
            r.diamonds@ == 0,
            r.dough_balls@ == 0,
    {
        CoreState::default()
    }

    pub fn add_money(&mut self, amount: usize)
        requires
            old(self).wf(),
        ensures
            final(self).wf(),
            final(self).money@ == old(self).money@ + amount,
            final(self).diamonds == old(self).diamonds,
            final(self).dough_balls == old(self).dough_balls,
    {
        self.money.add_assign_u64(amount as u64);
    }

    pub fn add_money_big(&mut self, amount: GameUInt)
        requires
            old(self).wf(),
            amount.wf(),
        ensures
            final(self).wf(),
            final(self).money@ == old(self).money@ + amount@,
            final(self).diamonds == old(self).diamonds,
            final(self).dough_balls == old(self).dough_balls,
    {
        self.money.add_assign(&amount);
    }
}

impl Default for CoreState {
    fn default() -> (r: CoreState)
        ensures
            r.wf(),
            r.money@ == 0,
            r.diamonds@ == 0,
            r.dough_balls@ == 0,
    {
        CoreState {
            money: GameUInt::default(),
            diamonds: GameUInt::default(),
            dough_balls: GameUInt::default(),
        }
    }
}

impl Clone for CoreState {
    fn clone(&self) -> (r: Self)
        ensures
            r.money@ == self.money@,
            r.diamonds@ == self.diamonds@,
            r.dough_balls@ == self.dough_balls@,
            r.wf() == self.wf(),
    {
        CoreState {
            money: self.money.clone(),
            diamonds: self.diamonds.clone(),
            dough_balls: self.dough_balls.clone(),
        }
    }
}

/// A running total together with the part not yet drained by a reader.
#[derive(Debug)]
pub struct CountStore {
    /// Total count seen.
    count: usize,
    /// Change to the count since it was last drained.
    dirty_count: usize,
}

impl CountStore {
    pub closed spec fn spec_count(&self) -> usize {
        self.count
    }

    pub closed spec fn spec_dirty(&self) -> usize {
        self.dirty_count
    }

    pub fn new() -> (r: CountStore)
        ensures
            r.spec_count() == 0,
            r.spec_dirty() == 0,
    {
        CountStore { count: 0, dirty_count: 0 }
    }

    /// The total count; the dirty part stays untouched.
    pub fn peek_count(&self) -> (r: usize)
        ensures
            r == self.spec_count(),
    {
        self.count
    }

    /// The change since the last drain, which this call resets.
    pub fn drain(&mut self) -> (r: usize)
        ensures
            r == old(self).spec_dirty(),
            final(self).spec_count() == old(self).spec_count(),
            final(self).spec_dirty() == 0,
    {
        let dcount = self.dirty_count;
        self.dirty_count = 0;
        dcount
    }

    pub fn add(&mut self, count: usize)
        requires
            old(self).spec_count() + count <= usize::MAX,
            old(self).spec_dirty() + count <= usize::MAX,
        ensures
            final(self).spec_count() == old(self).spec_count() + count,
            final(self).spec_dirty() == old(self).spec_dirty() + count,
    {
        self.count = self.count + count;
        self.dirty_count = self.dirty_count + count;
    }
}

/// A one-shot timer over the host's monotonic clock.
#[derive(Debug)]
pub struct Timer {
    start_time: u64,
    duration: u64,
    finished: bool,
    just_finished: bool,
}

impl Timer {
    pub closed spec fn spec_finished(&self) -> bool {
        self.finished
    }

    pub closed spec fn spec_just_finished(&self) -> bool {
        self.just_finished
    }

    pub closed spec fn spec_start(&self) -> u64 {
        self.start_time
    }

    pub closed spec fn spec_duration(&self) -> u64 {
        self.duration
    }

    pub fn new(duration: u64, now_ms: u64) -> (r: Timer)
        ensures
            r.spec_start() == now_ms,
            r.spec_duration() == duration,
            !r.spec_finished(),
            !r.spec_just_finished(),
    {
        Timer { start_time: now_ms, duration, finished: false, just_finished: false }
    }

    /// Fires once when more than the duration has passed since the start.
    pub fn update(&mut self, now_ms: u64)
        ensures
            final(self).spec_start() == old(self).spec_start(),
            final(self).spec_duration() == old(self).spec_duration(),
            old(self).spec_finished() ==> final(self).spec_finished() && !final(self).spec_just_finished(),
            !old(self).spec_finished() ==> {
                let fired = now_ms > old(self).spec_start() && now_ms - old(self).spec_start()
                    > old(self).spec_duration();
                &&& final(self).spec_finished() == fired
                &&& final(self).spec_just_finished() == fired
            },
    {
        if self.finished {
            self.just_finished = false;
            return ;
        }
        if now_ms > self.start_time && now_ms - self.start_time > self.duration {
            self.finished = true;
            self.just_finished = true;
        } else {
            self.just_finished = false;
        }
    }

    pub fn just_finished(&mut self) -> (r: bool)
        ensures
            *final(self) == *old(self),
            r == old(self).spec_just_finished(),
    {
        self.just_finished
    }

    pub fn finished(&mut self) -> (r: bool)
        ensures
            *final(self) == *old(self),
            r == old(self).spec_finished(),
    {
        self.finished
    }

    pub fn reset(&mut self, now_ms: u64)
        ensures
            final(self).spec_start() == now_ms,
            final(self).spec_duration() == old(self).spec_duration(),
            !final(self).spec_finished(),
            !final(self).spec_just_finished(),
    {
        self.start_time = now_ms;
        self.finished = false;
        self.just_finished = false;
    }
}

/// Turns elapsed time into synthetic progress: `level * base_rate` units
/// per millisecond. A level of zero produces nothing and leaves the
/// reference time alone, exactly as manual play does.
#[derive(Debug)]
pub struct AutoTicker {
    level: u64,
    last_tick: u64,
    /// Units of progress per millisecond, per level.
    base_rate: u64,
}

impl AutoTicker {
    pub closed spec fn wf(&self) -> bool {
        self.base_rate <= MAX_AUTO_RATE
    }

    pub closed spec fn spec_level(&self) -> u64 {
        self.level
    }

    pub closed spec fn spec_last_tick(&self) -> u64 {
        self.last_tick
    }

    pub closed spec fn spec_base_rate(&self) -> u64 {
        self.base_rate
    }

    /// What one poll yields: the time elapsed since the last poll, at
    /// `level * base_rate` units per millisecond.
    pub open spec fn spec_yield(&self, level: u64, now_ms: u64) -> u64 {
        if level == 0 || now_ms <= self.spec_last_tick() {
            0
        } else {
            ((now_ms - self.spec_last_tick()) * level * self.spec_base_rate()) as u64
        }
    }

    pub fn new(base_rate: u64, now_ms: u64) -> (r: AutoTicker)
        requires
            base_rate <= MAX_AUTO_RATE,
        ensures
            r.wf(),
            r.spec_level() == 0,
            r.spec_last_tick() == now_ms,
            r.spec_base_rate() == base_rate,
    {
        AutoTicker { level: 0, last_tick: now_ms, base_rate }
    }

    /// Progress accumulated since the last poll at the given level.
    pub fn poll(&mut self, level: u64, now_ms: u64) -> (r: u64)
        requires
            old(self).wf(),
            level <= MAX_AUTO_LEVEL,
            now_ms <= MAX_TIME_MS,
        ensures
            final(self).wf(),
            final(self).spec_level() == level,
            final(self).spec_base_rate() == old(self).spec_base_rate(),
            r == old(self).spec_yield(level, now_ms),
            r <= MAX_TIME_MS * MAX_AUTO_LEVEL * MAX_AUTO_RATE,
            level == 0 ==> final(self).spec_last_tick() == old(self).spec_last_tick(),
            level != 0 ==> final(self).spec_last_tick() == now_ms,
    {
        if self.level != level {
            self.level = level;
        }
        if level == 0 {
            return 0;
        }
        let time_diff: u64 = if now_ms > self.last_tick {
            now_ms - self.last_tick
        } else {
            0
        };
        self.last_tick = now_ms;
        proof {
            assert(time_diff * level <= MAX_TIME_MS * MAX_AUTO_LEVEL) by (nonlinear_arith)
                requires
                    time_diff <= MAX_TIME_MS,
                    level <= MAX_AUTO_LEVEL,
            ;
            assert((time_diff * level) * self.base_rate <= (MAX_TIME_MS * MAX_AUTO_LEVEL)
                * MAX_AUTO_RATE) by (nonlinear_arith)
                requires
                    time_diff * level <= MAX_TIME_MS * MAX_AUTO_LEVEL,
                    self.base_rate <= MAX_AUTO_RATE,
            ;
        }
        let rate_progress: u64 = time_diff * level * self.base_rate;
        proof {
            if time_diff == 0 {
                assert(time_diff * level == 0) by (nonlinear_arith)
                    requires
                        time_diff == 0,
                ;
                assert(0 * self.base_rate == 0) by (nonlinear_arith);
            }
        }
        rate_progress
    }
}

/// A stage counter that steps through a fixed number of stages and either
/// wraps around or ends up inactive (the carried unit has left).
#[derive(Debug)]
pub struct StageCounter {
    idx: Option<usize>,
    num_stages: usize,
}

impl StageCounter {
    pub closed spec fn wf(&self) -> bool {
        &&& self.num_stages > 0
        &&& match self.idx {
            Some(i) => i < self.num_stages,
            None => true,
        }
    }

    pub closed spec fn spec_idx(&self) -> Option<usize> {
        self.idx
    }

    pub closed spec fn spec_num_stages(&self) -> usize {
        self.num_stages
    }

    pub fn new(num_stages: usize) -> (r: StageCounter)
        requires
            num_stages > 0,
        ensures
            r.wf(),
            r.spec_idx() == Some(0usize),
            r.spec_num_stages() == num_stages,
    {
        StageCounter { idx: Some(0), num_stages }
    }

    /// Back to the first stage.
    pub fn reset(&mut self)
        requires
            old(self).wf(),
        ensures
            final(self).wf(),
            final(self).spec_idx() == Some(0usize),
            final(self).spec_num_stages() == old(self).spec_num_stages(),
    {
        self.idx = Some(0);
    }

    /// One step forward: wrapping counters loop to the first stage, the
    /// others leave the last stage into the inactive state and stay there.
    pub fn incr(&mut self, wrap: bool)
        requires
            old(self).wf(),
        ensures
            final(self).wf(),
            final(self).spec_num_stages() == old(self).spec_num_stages(),
            final(self).spec_idx() == match old(self).spec_idx() {
                Some(x) => if wrap {
                    Some(((x + 1) as usize % old(self).spec_num_stages()) as usize)
                } else if x + 1 < old(self).spec_num_stages() {
                    Some((x + 1) as usize)
                } else {
                    None::<usize>
                },
                None => None::<usize>,
            },
    {
        self.idx = match (self.idx, wrap) {
            (Some(x), true) => Some((x + 1) % self.num_stages),
            (Some(x), false) => {
                let new_x = x + 1;
                if new_x < self.num_stages {
                    Some(new_x)
                } else {
                    None
                }
            },
            (None, _) => None,
        };
    }

    pub fn get_idx(&self) -> (r: Option<usize>)
        ensures
            r == self.spec_idx(),
    {
        self.idx
    }

    pub fn is_active(&self) -> (r: bool)
        ensures
            r == self.spec_idx() is Some,
    {
        self.idx.is_some()
    }
}

} // verus!
