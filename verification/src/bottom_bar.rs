//! The bottom bar: the money and diamond readouts and the indicator
//! that opens and closes the upgrade menu.

use vstd::prelude::*;
use crate::core_elements::{Button, ButtonEvents, CoreState, VisibilityState};
use crate::menu::Menu;

verus! {

/// The arrow that toggles the menu: which button toggles it depends on
/// which side the menu currently sits.
#[derive(Debug)]
pub struct MenuIndicator {
    state: VisibilityState,
}

impl MenuIndicator {
    pub closed spec fn spec_state(&self) -> VisibilityState {
        self.state
    }

    pub fn new() -> (r: MenuIndicator)
        ensures
            r.spec_state() == VisibilityState::Hidden,
    {
        MenuIndicator { state: VisibilityState::Hidden }
    }

    /// The button that toggles the menu in the current state.
    pub fn get_toggle_button(&self) -> (r: Button)
        ensures
            r == (if self.spec_state() is Visible {
                Button::Right
            } else {
                Button::Left
            }),
    {
        match self.state {
            VisibilityState::Visible => Button::Right,
            VisibilityState::Hidden => Button::Left,
        }
    }

    pub fn toggle(&mut self)
        ensures
            final(self).spec_state() == old(self).spec_state().not_spec(),
    {
        self.state = self.state.not();
    }
}

/// The bar along the bottom of the screen. The currency readouts are
/// labels the host renders from the balances; the bar's own logic is the
/// menu toggle.
#[derive(Debug)]
pub struct BottomBar {
    menu_indicator: MenuIndicator,
}

impl BottomBar {
    pub closed spec fn spec_indicator(&self) -> VisibilityState {
        self.menu_indicator.spec_state()
    }

    pub fn new() -> (r: BottomBar)
        ensures
            r.spec_indicator() == VisibilityState::Hidden,
    {
        BottomBar { menu_indicator: MenuIndicator::new() }
    }

    /// One frame: pressing the indicator's toggle button flips it and
    /// shows or hides the menu with it; any other input leaves both alone.
    pub fn update(&mut self, state: &CoreState, menu: &mut Menu, buttons: ButtonEvents) -> (toggled:
        bool)
        requires
            old(menu).wf(),
        ensures
            final(menu).wf(),
            final(menu).spec_counts() =~= old(menu).spec_counts(),
            final(menu).spec_kinds() =~= old(menu).spec_kinds(),
            ({
                let button = if old(self).spec_indicator() is Visible {
                    Button::Right
                } else {
                    Button::Left
                };
                if buttons.spec_is_pressed(button) {
                    &&& toggled
                    &&& final(self).spec_indicator() == old(self).spec_indicator().not_spec()
                    &&& final(menu).state == final(self).spec_indicator()
                } else {
                    &&& !toggled
                    &&& final(self).spec_indicator() == old(self).spec_indicator()
                    &&& *final(menu) == *old(menu)
                }
            }),
    {
        let toggle_button = self.menu_indicator.get_toggle_button();
        if buttons.is_pressed(toggle_button) {
            self.menu_indicator.toggle();
            menu.set_state(self.menu_indicator.state);
            true
        } else {
            false
        }
    }
}

} // verus!
