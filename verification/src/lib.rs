//! Core engine of an idle pasta-machine game: an arbitrary-precision
//! currency type with humanized formatting, the upgrade economy, the
//! crank/knead production pipelines, and the save-file codec.
//!
//! Rendering and input belong to the host console and stay outside this
//! crate; every function here works on plain values handed in by the host.

pub mod audio_events;
pub mod bottom_bar;
pub mod core_elements;
pub mod digits;
pub mod fill_bar;
pub mod flour_pile;
pub mod game_value;
pub mod helpers;
pub mod info_overlay;
pub mod level_select;
pub mod machine;
pub mod menu;
pub mod save;

use vstd::prelude::*;
use crate::audio_events::AudioEventChannel;
use crate::bottom_bar::BottomBar;
use crate::core_elements::{
    CoreParameters, CoreState, Timer, VisibilityState, MAX_TIME_MS, MAX_UPGRADE_COUNT,
    SAVE_INTERVAL_MS,
};
use crate::flour_pile::FlourPile;
use crate::info_overlay::InfoOverlay;
use crate::machine::PastaMachineState;
use crate::menu::Menu;
use crate::save::SaveState;

verus! {

/// Whether a loaded snapshot can be adopted as-is: its counts must fit
/// the catalog; anything else is treated as a corrupt save and the game
/// starts fresh instead.
pub open spec fn snapshot_adoptable(s: &SaveState) -> bool {
    &&& s.menu_counts@.len() == 4
    &&& forall|i: int| 0 <= i < s.menu_counts@.len() ==> s.menu_counts@[i] <= MAX_UPGRADE_COUNT + 1
}

/// One running game: the balances and parameters, the two production
/// pipelines, the upgrade menu, and the save timer, driven by the host
/// once per frame.
#[derive(Debug)]
pub struct GameState {
    pub parameters: CoreParameters,
    pub state: CoreState,
    pub pasta_machine: PastaMachineState,
    pub bottom_bar: BottomBar,
    pub flour_pile: FlourPile,
    pub menu: Menu,
    pub save_timer: Timer,
    pub audio_event_channel: AudioEventChannel,
    pub save_index: usize,
    pub info_overlay: InfoOverlay,
}

impl GameState {
    pub open spec fn wf(&self) -> bool {
        &&& self.parameters.wf()
        &&& self.state.wf()
        &&& self.pasta_machine.wf()
        &&& self.flour_pile.wf()
        &&& self.menu.wf()
    }

    /// Start one save slot: adopt a loaded snapshot when it is sound,
    /// otherwise begin a fresh game (showing the help overlay).
    pub fn new(save_index: usize, loaded: Option<SaveState>, now_ms: u64, crank_angle_millideg: u64)
        -> (r: GameState)
        requires
            now_ms <= MAX_TIME_MS,
            match loaded {
                Some(s) => s.wf(),
                None => true,
            },
        ensures
            r.wf(),
            r.save_index == save_index,
            r.menu.state == VisibilityState::Hidden,
            r.audio_event_channel@ == Seq::<crate::audio_events::AudioEvent>::empty(),
            !r.save_timer.spec_finished(),
            match loaded {
                Some(s) => if snapshot_adoptable(&s) {
                    &&& r.parameters == s.parameters
                    &&& r.state == s.state
                    &&& r.menu.spec_counts() =~= s.menu_counts@
                    &&& !r.info_overlay.spec_visible()
                } else {
                    GameState::spec_is_fresh(&r)
                },
                None => GameState::spec_is_fresh(&r),
            },
    {
        let mut menu = Menu::new();
        let (parameters, state, is_new_game): (CoreParameters, CoreState, bool) = match loaded {
            Some(s) => {
                let SaveState { parameters, state, menu_counts } = s;
                if menu.init_counts(&menu_counts) {
                    (parameters, state, false)
                } else {
                    (CoreParameters::default(), CoreState::new(), true)
                }
            },
            None => (CoreParameters::default(), CoreState::new(), true),
        };
        GameState {
            parameters,
            state,
            pasta_machine: PastaMachineState::new(now_ms, crank_angle_millideg),
            bottom_bar: BottomBar::new(),
            flour_pile: FlourPile::new((80, 80), now_ms),
            menu,
            save_timer: Timer::new(SAVE_INTERVAL_MS, now_ms),
            audio_event_channel: AudioEventChannel::new(),
            save_index,
            info_overlay: InfoOverlay::new(is_new_game),
        }
    }

    /// A fresh game: default parameters, zero balances, nothing bought,
    /// and the help overlay showing.
    pub open spec fn spec_is_fresh(r: &GameState) -> bool {
        &&& r.parameters.knead_tick_size == crate::core_elements::DEFAULT_KNEAD_TICK_PPM
        &&& r.parameters.pasta_price@ == crate::core_elements::DEFAULT_PASTA_PRICE
        &&& r.parameters.auto_crank_level == 0
        &&& r.parameters.auto_knead_level == 0
        &&& r.state.money@ == 0
        &&& r.state.diamonds@ == 0
        &&& r.state.dough_balls@ == 0
        &&& r.menu.spec_counts() =~= seq![0u64, 0u64, 0u64, 0u64]
        &&& r.info_overlay.spec_visible()
    }

    /// What the periodic save writes: the parameters, the balances, and
    /// the purchase counts.
    pub fn save_snapshot(&self) -> (r: SaveState)
        requires
            self.wf(),
        ensures
            r.wf(),
            r.parameters.knead_tick_size == self.parameters.knead_tick_size,
            r.parameters.pasta_price@ == self.parameters.pasta_price@,
            r.parameters.auto_crank_level == self.parameters.auto_crank_level,
            r.parameters.auto_knead_level == self.parameters.auto_knead_level,
            r.state.money@ == self.state.money@,
            r.state.diamonds@ == self.state.diamonds@,
            r.state.dough_balls@ == self.state.dough_balls@,
            r.menu_counts@ =~= self.menu.spec_counts(),
    {
        SaveState {
            parameters: self.parameters.clone(),
            state: self.state.clone(),
            menu_counts: self.menu.to_counts(),
        }
    }

    /// Per-frame housekeeping: poll the save timer (telling the host to
    /// write a save exactly when the interval elapses, then restarting
    /// it) and let any input dismiss the help overlay.
    pub fn update(&mut self, now_ms: u64, any_input: bool) -> (save_now: bool)
        requires
            old(self).wf(),
        ensures
            final(self).wf(),
            final(self).parameters == old(self).parameters,
            final(self).state == old(self).state,
            final(self).menu == old(self).menu,
            final(self).pasta_machine == old(self).pasta_machine,
            final(self).flour_pile == old(self).flour_pile,
            final(self).bottom_bar == old(self).bottom_bar,
            final(self).audio_event_channel == old(self).audio_event_channel,
            final(self).save_index == old(self).save_index,
            final(self).info_overlay.spec_visible() == (old(self).info_overlay.spec_visible()
                && !any_input),
            final(self).save_timer.spec_duration() == old(self).save_timer.spec_duration(),
            save_now == (!old(self).save_timer.spec_finished()
                && now_ms > old(self).save_timer.spec_start()
                && now_ms - old(self).save_timer.spec_start()
                    > old(self).save_timer.spec_duration()),
            save_now ==> !final(self).save_timer.spec_finished()
                && final(self).save_timer.spec_start() == now_ms
                && !final(self).save_timer.spec_just_finished(),
            !save_now ==> final(self).save_timer.spec_start() == old(self).save_timer.spec_start()
                && final(self).save_timer.spec_finished() == old(self).save_timer.spec_finished()
                && !final(self).save_timer.spec_just_finished(),
    {
        self.save_timer.update(now_ms);
        let fired = self.save_timer.just_finished();
        if fired {
            self.save_timer.reset(now_ms);
        }
        self.info_overlay.update(any_input);
        fired
    }
}

} // verus!
