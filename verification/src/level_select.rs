//! The level-select screen: one row per save slot, moved with up and
//! down and committed with a press-and-release of the confirm button.

use vstd::prelude::*;
use crate::core_elements::{ButtonEvents, CoreParameters, CoreState};

verus! {

/// What the level select knows of one slot: the loaded balances and
/// parameters, or nothing for a fresh slot.
pub type SlotPreview = Option<(CoreState, CoreParameters)>;

/// The selection state over the loaded save slots.
#[derive(Debug)]
pub struct LevelSelect {
    save_files: Vec<SlotPreview>,
    selected_index: usize,
    pressed_index: Option<usize>,
}

impl LevelSelect {
    pub closed spec fn wf(&self) -> bool {
        &&& 0 < self.save_files@.len() <= 0x7fff_ffff
        &&& self.selected_index < self.save_files@.len()
        &&& match self.pressed_index {
            Some(i) => i < self.save_files@.len(),
            None => true,
        }
    }

    pub closed spec fn spec_selected(&self) -> usize {
        self.selected_index
    }

    pub closed spec fn spec_pressed(&self) -> Option<usize> {
        self.pressed_index
    }

    pub closed spec fn spec_slots(&self) -> Seq<SlotPreview> {
        self.save_files@
    }

    /// A fresh screen over the previews the host loaded, with the first
    /// slot selected.
    pub fn new(save_files: Vec<SlotPreview>) -> (r: LevelSelect)
        requires
            0 < save_files@.len() <= 0x7fff_ffff,
        ensures
            r.wf(),
            r.spec_selected() == 0,
            r.spec_pressed() is None,
            r.spec_slots() == save_files@,
    {
        LevelSelect { save_files, selected_index: 0, pressed_index: None }
    }

    fn change_selected_item(&mut self, diff: i64)
        requires
            old(self).wf(),
            -4 <= diff <= 4,
        ensures
            final(self).wf(),
            final(self).spec_slots() == old(self).spec_slots(),
            final(self).spec_pressed() == old(self).spec_pressed(),
            final(self).spec_selected() == (if old(self).spec_selected() + diff < 0 {
                0
            } else if old(self).spec_selected() + diff > old(self).spec_slots().len() - 1 {
                (old(self).spec_slots().len() - 1) as usize
            } else {
                (old(self).spec_selected() + diff) as usize
            }),
    {
        let len = self.save_files.len();
        let target: i64 = self.selected_index as i64 + diff;
        self.selected_index = if target < 0 {
            0
        } else if target > (len - 1) as i64 {
            len - 1
        } else {
            target as usize
        };
    }

    /// One frame of input. A slot is committed exactly when the confirm
    /// button is released while the row it was pressed on is still the
    /// selected one; until then the screen returns nothing.
    pub fn update(&mut self, buttons: ButtonEvents) -> (r: Option<usize>)
        requires
            old(self).wf(),
        ensures
            final(self).wf(),
            final(self).spec_slots() == old(self).spec_slots(),
            ({
                let sel = if buttons.up_pressed {
                    if old(self).spec_selected() > 0 {
                        (old(self).spec_selected() - 1) as usize
                    } else {
                        0
                    }
                } else if buttons.down_pressed {
                    if old(self).spec_selected() + 1 < old(self).spec_slots().len() {
                        (old(self).spec_selected() + 1) as usize
                    } else {
                        (old(self).spec_slots().len() - 1) as usize
                    }
                } else {
                    old(self).spec_selected()
                };
                let pressed = if buttons.a_pressed {
                    Some(sel)
                } else {
                    old(self).spec_pressed()
                };
                &&& final(self).spec_selected() == sel
                &&& final(self).spec_pressed() == pressed
                &&& r == (if buttons.a_released && pressed is Some && pressed->Some_0 == sel {
                    Some(pressed->Some_0)
                } else {
                    None::<usize>
                })
            }),
    {
        if buttons.up_pressed {
            self.change_selected_item(-1);
        } else if buttons.down_pressed {
            self.change_selected_item(1);
        }
        if buttons.a_pressed {
            self.pressed_index = Some(self.selected_index);
        }
        if buttons.a_released {
            if let Some(idx) = self.pressed_index {
                let still_selecting_pressed_item = idx == self.selected_index;
                if still_selecting_pressed_item {
                    return Some(idx);
                }
            }
        }
        None
    }
}

} // verus!
