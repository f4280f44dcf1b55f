//! The pasta machine: crank progress accumulates from manual and
//! automatic cranking, each full revolution advances the dough rollers,
//! and a unit of dough leaving the last roller stage sells one pasta.

use vstd::prelude::*;
use crate::audio_events::{AudioEvent, AudioEventChannel};
use crate::core_elements::{
    AutoTicker, CoreParameters, CoreState, StageCounter, AUTO_CRANK_RATE_MILLIDEG_PER_MS,
    FULL_TURN_MILLIDEG, MAX_TIME_MS,
};

verus! {

/// Saturation cap on accumulated crank progress, far beyond any input a
/// host clock can produce; it keeps the arithmetic inside a `u64`.
pub const PROGRESS_CAP: u64 = 0x4000_0000_0000_0000;

/// How many frames the crank animation has.
pub const CRANK_FRAME_COUNT: usize = 14;

/// How many stages a unit of dough passes through in the rollers.
pub const ROLLER_STAGES: usize = 4;

/// The progress one crank delta contributes: reverse cranking counts as
/// nothing, by design.
pub open spec fn crank_eff(d: i64) -> int {
    if d >= 0 {
        d as int
    } else {
        0
    }
}

/// The progress left after feeding one delta to a tracker at `p`: a
/// reverse delta leaves the tracker alone entirely.
pub open spec fn crank_step_progress(p: int, per: int, d: i64) -> int {
    if d < 0 {
        p
    } else {
        let s = p + d;
        if s >= per {
            s - per
        } else {
            s
        }
    }
}

/// Whether feeding one delta to a tracker at `p` fires a tick.
pub open spec fn crank_step_ticked(p: int, per: int, d: i64) -> bool {
    d >= 0 && p + d >= per
}

/// The progress left after feeding a whole sequence of deltas.
pub open spec fn run_crank_progress(p: int, per: int, ds: Seq<i64>) -> int
    decreases ds.len(),
{
    if ds.len() == 0 {
        p
    } else {
        run_crank_progress(crank_step_progress(p, per, ds[0]), per, ds.drop_first())
    }
}

/// How many ticks a whole sequence of deltas fires.
pub open spec fn run_crank_ticks(p: int, per: int, ds: Seq<i64>) -> nat
    decreases ds.len(),
{
    if ds.len() == 0 {
        0
    } else {
        ((if crank_step_ticked(p, per, ds[0]) {
            1nat
        } else {
            0nat
        }) + run_crank_ticks(crank_step_progress(p, per, ds[0]), per, ds.drop_first())) as nat
    }
}

/// The positive part of a delta sequence: what reaches the tracker.
pub open spec fn pos_sum(ds: Seq<i64>) -> nat
    decreases ds.len(),
{
    if ds.len() == 0 {
        0
    } else {
        (crank_eff(ds[0]) + pos_sum(ds.drop_first())) as nat
    }
}

/// Deltas that contribute nothing leave a tracker alone.
proof fn lemma_run_crank_zero(p: int, per: int, ds: Seq<i64>)
    requires
        0 <= p < per,
        pos_sum(ds) == 0,
    ensures
        run_crank_progress(p, per, ds) == p,
        run_crank_ticks(p, per, ds) == 0,
    decreases ds.len(),
{
    if ds.len() > 0 {
        assert(crank_eff(ds[0]) == 0);
        lemma_run_crank_zero(p, per, ds.drop_first());
    }
}

/// Helper for the full-turn law: when the remaining positive deltas
/// complete the revolution exactly, exactly one tick fires and the
/// tracker comes back to zero.
proof fn lemma_run_crank_completes(p: int, per: int, ds: Seq<i64>)
    requires
        0 <= p < per,
        p + pos_sum(ds) == per,
    ensures
        run_crank_ticks(p, per, ds) == 1,
        run_crank_progress(p, per, ds) == 0,
    decreases ds.len(),
{
    let e = crank_eff(ds[0]);
    let s = p + e;
    if s >= per {
        assert(s == per);
        assert(pos_sum(ds.drop_first()) == 0);
        lemma_run_crank_zero(0, per, ds.drop_first());
    } else {
        lemma_run_crank_completes(s, per, ds.drop_first());
    }
}

/// The full-turn law: starting from a fresh tracker, any sequence of
/// deltas whose positive part sums to exactly one threshold fires
/// exactly one tick, whatever mixture of manual and automatic cranking
/// produced the deltas; negative deltas contribute nothing.
pub proof fn lemma_full_turn_ticks_once(per: int, ds: Seq<i64>)
    requires
        per > 0,
        pos_sum(ds) == per,
    ensures
        run_crank_ticks(0, per, ds) == 1,
        run_crank_progress(0, per, ds) == 0,
{
    lemma_run_crank_completes(0, per, ds);
}

/// Accumulates positive crank deltas and fires a tick for each full
/// threshold reached. Progress saturates at [`PROGRESS_CAP`] instead of
/// overflowing; every physically possible input stays far below the cap.
#[derive(Debug)]
pub struct CrankTracker {
    crank_progress: u64,
    progress_per_tick: u64,
}

impl CrankTracker {
    pub closed spec fn wf(&self) -> bool {
        &&& self.crank_progress <= PROGRESS_CAP
        &&& 0 < self.progress_per_tick <= PROGRESS_CAP
    }

    pub closed spec fn spec_progress(&self) -> u64 {
        self.crank_progress
    }

    pub closed spec fn spec_per_tick(&self) -> u64 {
        self.progress_per_tick
    }

    pub fn new(progress_per_tick: u64) -> (r: CrankTracker)
        requires
            0 < progress_per_tick <= PROGRESS_CAP,
        ensures
            r.wf(),
            r.spec_progress() == 0,
            r.spec_per_tick() == progress_per_tick,
    {
        CrankTracker { crank_progress: 0, progress_per_tick }
    }

    /// Feed one delta; fires at most one tick per call, leftover progress
    /// waits for the next call.
    pub fn update(&mut self, crank_diff: i64) -> (ticked: bool)
        requires
            old(self).wf(),
        ensures
            final(self).wf(),
            final(self).spec_per_tick() == old(self).spec_per_tick(),
            old(self).spec_progress() + crank_eff(crank_diff) <= PROGRESS_CAP ==> {
                &&& final(self).spec_progress() == crank_step_progress(
                    old(self).spec_progress() as int,
                    old(self).spec_per_tick() as int,
                    crank_diff,
                )
                &&& ticked == crank_step_ticked(
                    old(self).spec_progress() as int,
                    old(self).spec_per_tick() as int,
                    crank_diff,
                )
            },
            old(self).spec_progress() + crank_eff(crank_diff) > PROGRESS_CAP ==> {
                &&& ticked
                &&& final(self).spec_progress() == PROGRESS_CAP - old(self).spec_per_tick()
            },
    {
        if crank_diff < 0 {
            return false;
        }
        let add = crank_diff as u64;
        let s: u64 = if add > PROGRESS_CAP - self.crank_progress {
            PROGRESS_CAP
        } else {
            self.crank_progress + add
        };
        if s >= self.progress_per_tick {
            self.crank_progress = s - self.progress_per_tick;
            true
        } else {
            self.crank_progress = s;
            false
        }
    }
}

/// The progress one frame contributes: the manual delta (counted only
/// when the angle reading really moved, and only forward — reverse
/// cranking adds nothing) plus the auto-cranker's yield. Manual and
/// automatic cranking accumulate together.
pub open spec fn crank_frame_delta(angle_changed: bool, crank_change: i64, auto: u64) -> u64 {
    ((if angle_changed && crank_change > 0 {
        crank_change
    } else {
        0
    }) + auto) as u64
}

/// The crank's visual position after a frame's progress, folded into one
/// revolution.
pub open spec fn wrapped_pos(pos: u64, d: u64) -> u64 {
    ((pos + d) % (FULL_TURN_MILLIDEG as int)) as u64
}

/// The animation frame for a crank position.
pub open spec fn spec_crank_frame(pos: u64) -> usize {
    let macro_idx = pos * 28 / (FULL_TURN_MILLIDEG as int);
    if macro_idx >= 14 {
        if macro_idx >= 27 {
            0
        } else {
            (27 - macro_idx) as usize
        }
    } else {
        macro_idx as usize
    }
}

/// The crank itself: its on-screen angle, the tick tracker, and the
/// auto-cranker that keeps it moving while idle.
#[derive(Debug)]
pub struct MachineCrank {
    pos: u64,
    crank_tracker: CrankTracker,
    auto_crank: AutoTicker,
    prev_crank_angle: u64,
}

impl MachineCrank {
    pub closed spec fn wf(&self) -> bool {
        &&& self.pos < FULL_TURN_MILLIDEG
        &&& self.crank_tracker.wf()
        &&& self.crank_tracker.spec_per_tick() == FULL_TURN_MILLIDEG
        &&& self.auto_crank.wf()
        &&& self.auto_crank.spec_base_rate() == AUTO_CRANK_RATE_MILLIDEG_PER_MS
    }

    pub closed spec fn spec_pos(&self) -> u64 {
        self.pos
    }

    pub closed spec fn spec_tracker(&self) -> CrankTracker {
        self.crank_tracker
    }

    pub closed spec fn spec_auto(&self) -> AutoTicker {
        self.auto_crank
    }

    pub closed spec fn spec_prev_angle(&self) -> u64 {
        self.prev_crank_angle
    }

    pub fn new(now_ms: u64, initial_angle_millideg: u64) -> (r: MachineCrank)
        ensures
            r.wf(),
            r.spec_pos() == 0,
            r.spec_tracker().spec_progress() == 0,
            r.spec_auto().spec_level() == 0,
            r.spec_auto().spec_last_tick() == now_ms,
            r.spec_prev_angle() == initial_angle_millideg,
    {
        MachineCrank {
            pos: 0,
            crank_tracker: CrankTracker::new(FULL_TURN_MILLIDEG),
            auto_crank: AutoTicker::new(AUTO_CRANK_RATE_MILLIDEG_PER_MS, now_ms),
            prev_crank_angle: initial_angle_millideg,
        }
    }

    /// The animation frame for the current position.
    pub fn get_idx(&self) -> (r: usize)
        requires
            self.wf(),
        ensures
            r == spec_crank_frame(self.spec_pos()),
            r < CRANK_FRAME_COUNT,
    {
        let macro_idx: u64 = self.pos * 28 / FULL_TURN_MILLIDEG;
        proof {
            assert(self.pos * 28 < FULL_TURN_MILLIDEG * 28) by (nonlinear_arith)
                requires
                    self.pos < FULL_TURN_MILLIDEG,
            ;
            assert(self.pos * 28 / (FULL_TURN_MILLIDEG as int) < 28) by (nonlinear_arith)
                requires
                    self.pos * 28 < FULL_TURN_MILLIDEG * 28,
            ;
        }
        if macro_idx >= 14 {
            if macro_idx >= 27 {
                0
            } else {
                (27 - macro_idx) as usize
            }
        } else {
            macro_idx as usize
        }
    }

    /// One frame of the crank: the manual delta (when the angle reading
    /// really moved) and the auto-cranker's yield accumulate together;
    /// their sum moves the on-screen position and feeds the tick tracker.
    pub fn update(
        &mut self,
        parameters: &CoreParameters,
        crank_change_millideg: i64,
        crank_angle_millideg: u64,
        now_ms: u64,
    ) -> (ticked: bool)
        requires
            old(self).wf(),
            parameters.wf(),
            now_ms <= MAX_TIME_MS,
            -0x1000_0000_0000_0000 < crank_change_millideg < 0x1000_0000_0000_0000,
        ensures
            final(self).wf(),
            final(self).spec_prev_angle() == crank_angle_millideg,
            ({
                let angle_changed = crank_angle_millideg != old(self).spec_prev_angle();
                let auto = old(self).spec_auto().spec_yield(parameters.auto_crank_level, now_ms);
                let d = crank_frame_delta(angle_changed, crank_change_millideg, auto);
                &&& final(self).spec_pos() == wrapped_pos(old(self).spec_pos(), d)
                &&& (old(self).spec_tracker().spec_progress() + d <= PROGRESS_CAP ==> {
                    &&& final(self).spec_tracker().spec_progress() == crank_step_progress(
                        old(self).spec_tracker().spec_progress() as int,
                        FULL_TURN_MILLIDEG as int,
                        d as i64,
                    )
                    &&& ticked == crank_step_ticked(
                        old(self).spec_tracker().spec_progress() as int,
                        FULL_TURN_MILLIDEG as int,
                        d as i64,
                    )
                })
            }),
    {
        let auto: u64 = self.auto_crank.poll(parameters.auto_crank_level, now_ms);
        let angle_changed = crank_angle_millideg != self.prev_crank_angle;
        self.prev_crank_angle = crank_angle_millideg;
        let manual: u64 = if angle_changed && crank_change_millideg > 0 {
            crank_change_millideg as u64
        } else {
            0
        };
        let d: u64 = manual + auto;
        self.pos = (self.pos + d) % FULL_TURN_MILLIDEG;
        self.crank_tracker.update(d as i64)
    }
}

/// The gearbox sprite appears once an auto-cranker is installed.
#[derive(Debug)]
pub struct Gearbox {
    visible: bool,
}

impl Gearbox {
    pub closed spec fn spec_visible(&self) -> bool {
        self.visible
    }

    pub fn new() -> (r: Gearbox)
        ensures
            !r.spec_visible(),
    {
        Gearbox { visible: false }
    }

    /// Returns whether the host must show or hide the sprite.
    pub fn set_visible(&mut self, visible: bool) -> (changed: bool)
        ensures
            final(self).spec_visible() == visible,
            changed == (old(self).spec_visible() != visible),
    {
        if self.visible != visible {
            self.visible = visible;
            true
        } else {
            false
        }
    }
}

/// The whole machine: crank, gearbox and the two synchronized dough
/// rollers with the dough-ball reserve feeding them.
#[derive(Debug)]
pub struct PastaMachineState {
    crank: MachineCrank,
    gearbox: Gearbox,
    top_dough: StageCounter,
    bottom_dough: StageCounter,
}

impl PastaMachineState {
    pub closed spec fn wf(&self) -> bool {
        &&& self.crank.wf()
        &&& self.top_dough.wf()
        &&& self.bottom_dough.wf()
        &&& self.top_dough.spec_num_stages() == ROLLER_STAGES
        &&& self.bottom_dough.spec_num_stages() == ROLLER_STAGES
        &&& self.top_dough.spec_idx() == self.bottom_dough.spec_idx()
    }

    pub closed spec fn spec_crank(&self) -> MachineCrank {
        self.crank
    }

    pub closed spec fn spec_gearbox_visible(&self) -> bool {
        self.gearbox.spec_visible()
    }

    pub closed spec fn spec_roller_idx(&self) -> Option<usize> {
        self.top_dough.spec_idx()
    }

    pub fn new(now_ms: u64, initial_angle_millideg: u64) -> (r: PastaMachineState)
        ensures
            r.wf(),
            r.spec_roller_idx() == Some(0usize),
            !r.spec_gearbox_visible(),
            r.spec_crank().spec_pos() == 0,
            r.spec_crank().spec_tracker().spec_progress() == 0,
    {
        PastaMachineState {
            crank: MachineCrank::new(now_ms, initial_angle_millideg),
            gearbox: Gearbox::new(),
            top_dough: StageCounter::new(ROLLER_STAGES),
            bottom_dough: StageCounter::new(ROLLER_STAGES),
        }
    }

    /// The roller index after one crank tick, when no dough ball refills
    /// the rollers: the dough advances a stage and leaves after the last.
    pub open spec fn advanced_idx(idx: Option<usize>) -> Option<usize> {
        match idx {
            Some(x) => if x + 1 < ROLLER_STAGES {
                Some((x + 1) as usize)
            } else {
                None::<usize>
            },
            None => None::<usize>,
        }
    }

    /// One crank frame. When a full revolution completes, the dough
    /// advances one stage; dough leaving the last stage sells one pasta
    /// for `pasta_price` (with a money-gained cue); empty rollers refill
    /// from the dough-ball reserve, one ball per refill.
    pub fn update_crank(
        &mut self,
        state: &mut CoreState,
        parameters: &CoreParameters,
        events: &mut AudioEventChannel,
        crank_change_millideg: i64,
        crank_angle_millideg: u64,
        now_ms: u64,
    ) -> (ticked: bool)
        requires
            old(self).wf(),
            old(state).wf(),
            parameters.wf(),
            now_ms <= MAX_TIME_MS,
            -0x1000_0000_0000_0000 < crank_change_millideg < 0x1000_0000_0000_0000,
            old(events)@.len() < usize::MAX,
        ensures
            final(self).wf(),
            final(state).wf(),
            final(state).diamonds@ == old(state).diamonds@,
            final(self).spec_crank().spec_prev_angle() == crank_angle_millideg,
            ({
                let d = crank_frame_delta(
                    crank_angle_millideg != old(self).spec_crank().spec_prev_angle(),
                    crank_change_millideg,
                    old(self).spec_crank().spec_auto().spec_yield(
                        parameters.auto_crank_level,
                        now_ms,
                    ),
                );
                old(self).spec_crank().spec_tracker().spec_progress() + d <= PROGRESS_CAP ==> {
                    &&& ticked == crank_step_ticked(
                        old(self).spec_crank().spec_tracker().spec_progress() as int,
                        FULL_TURN_MILLIDEG as int,
                        d as i64,
                    )
                    &&& final(self).spec_crank().spec_pos() == wrapped_pos(
                        old(self).spec_crank().spec_pos(),
                        d,
                    )
                    &&& final(self).spec_crank().spec_tracker().spec_progress()
                        == crank_step_progress(
                        old(self).spec_crank().spec_tracker().spec_progress() as int,
                        FULL_TURN_MILLIDEG as int,
                        d as i64,
                    )
                }
            }),
            !ticked ==> {
                &&& final(self).spec_roller_idx() == old(self).spec_roller_idx()
                &&& final(state).money@ == old(state).money@
                &&& final(state).dough_balls@ == old(state).dough_balls@
                &&& final(events)@ == old(events)@
            },
            ticked ==> {
                let completed = old(self).spec_roller_idx() == Some((ROLLER_STAGES - 1) as usize);
                let advanced = PastaMachineState::advanced_idx(old(self).spec_roller_idx());
                let replenished = advanced is None && old(state).dough_balls@ > 0;
                &&& (completed ==> final(state).money@ == old(state).money@
                    + parameters.pasta_price@ && final(events)@ == old(events)@.push(
                    AudioEvent::MoneyGained,
                ))
                &&& (!completed ==> final(state).money@ == old(state).money@ && final(events)@
                    == old(events)@)
                &&& (replenished ==> final(self).spec_roller_idx() == Some(0usize)
                    && final(state).dough_balls@ == old(state).dough_balls@ - 1)
                &&& (!replenished ==> final(self).spec_roller_idx() == advanced
                    && final(state).dough_balls@ == old(state).dough_balls@)
            },
    {
        let crank_ticked = self.crank.update(
            parameters,
            crank_change_millideg,
            crank_angle_millideg,
            now_ms,
        );
        if crank_ticked {
            let top_dough_pre = self.top_dough.get_idx();
            self.top_dough.incr(false);
            self.bottom_dough.incr(false);
            let completed = match top_dough_pre {
                Some(x) => x == ROLLER_STAGES - 1,
                None => false,
            };
            proof {
                if completed {
                    assert(self.top_dough.spec_idx() is None);
                }
            }
            if completed && !self.top_dough.is_active() {
                let price = parameters.pasta_price.clone();
                state.add_money_big(price);
                events.push(AudioEvent::MoneyGained);
            }
            if !self.top_dough.is_active() {
                if !state.dough_balls.is_zero() {
                    let one = crate::game_value::GameUInt::one();
                    state.dough_balls.sub_assign(&one);
                    self.top_dough.reset();
                    self.bottom_dough.reset();
                }
            }
        }
        crank_ticked
    }

    /// Per-frame housekeeping: the gearbox is visible exactly while an
    /// auto-cranker is installed. Returns whether its sprite changed.
    pub fn update(&mut self, state: &mut CoreState, parameters: &CoreParameters) -> (changed: bool)
        requires
            old(self).wf(),
        ensures
            final(self).wf(),
            *final(state) == *old(state),
            final(self).spec_gearbox_visible() == (parameters.auto_crank_level > 0),
            final(self).spec_roller_idx() == old(self).spec_roller_idx(),
            changed == (old(self).spec_gearbox_visible() != (parameters.auto_crank_level > 0)),
    {
        self.gearbox.set_visible(parameters.auto_crank_level > 0)
    }
}

} // verus!
