//! The upgrade menu: a fixed catalog of four upgrades, each with a cost
//! curve over its purchase count and an effect on the core parameters.
//!
//! The purchase protocol: an upgrade whose cost is exhausted (`None`) or
//! priced at or above the player's money is denied without touching any
//! state; otherwise the count rises by one, the cost leaves the money,
//! and the effect runs with the incremented count (one convention for
//! every upgrade).

use vstd::prelude::*;
use vstd::string::StringExecFns;
use crate::audio_events::{AudioEvent, AudioEventChannel};
use crate::core_elements::{
    ButtonEvents, CoreParameters, CoreState, VisibilityState, MAX_UPGRADE_COUNT,
};
use crate::game_value::{display_bound, display_chars, nat_pow, GameUInt};

verus! {

pub const ITEM_Y_START: i64 = 35;

pub const ITEM_SPACING: i64 = 72;

pub const ITEM_MAX_DISPLAY_Y: i64 = 170;

/// The menu lays out this many item slots when sizing its scroll range,
/// whether or not the catalog fills them.
pub const NUM_ITEM_SLOTS: i64 = 30;

/// The four upgrades of the catalog.
#[derive(Debug, Copy, Clone, PartialEq, Eq, Structural)]
pub enum UpgradeKind {
    /// Raises what a pasta sells for.
    PastaSellPrice,
    /// Makes each manual knead tick fill more of the bar.
    KneadSpeed,
    /// Installs or upgrades the auto-cranker.
    AutoCranker,
    /// Hires kneading grans: the auto-kneader.
    KneadingGrans,
}

/// The base price curve of the sell-price upgrade.
pub open spec fn spec_pasta_cost(count: nat) -> nat {
    20 + nat_pow(20, count)
}

/// What an upgrade costs at a purchase count; `None` once it is maxed.
pub open spec fn spec_cost(kind: UpgradeKind, count: u64) -> Option<nat> {
    if count > MAX_UPGRADE_COUNT {
        None
    } else {
        Some(
            match kind {
                UpgradeKind::PastaSellPrice => spec_pasta_cost(count as nat) * 6,
                UpgradeKind::KneadSpeed => nat_pow(10, count as nat),
                UpgradeKind::AutoCranker => nat_pow(10, count as nat),
                UpgradeKind::KneadingGrans => nat_pow(10, count as nat),
            },
        )
    }
}

/// How an upgrade's effect, run at (post-increment) `count`, rewrites the
/// parameters. Every effect is a pure function of the count, so saved
/// counts replay to the same parameters.
pub open spec fn effect_holds(
    kind: UpgradeKind,
    count: u64,
    old_p: CoreParameters,
    new_p: CoreParameters,
) -> bool {
    match kind {
        UpgradeKind::PastaSellPrice => {
            &&& new_p.pasta_price@ == spec_pasta_cost(count as nat)
            &&& new_p.knead_tick_size == old_p.knead_tick_size
            &&& new_p.auto_crank_level == old_p.auto_crank_level
            &&& new_p.auto_knead_level == old_p.auto_knead_level
        },
        UpgradeKind::KneadSpeed => {
            &&& new_p.knead_tick_size == 10_000 + count * 10_000
            &&& new_p.pasta_price@ == old_p.pasta_price@
            &&& new_p.auto_crank_level == old_p.auto_crank_level
            &&& new_p.auto_knead_level == old_p.auto_knead_level
        },
        UpgradeKind::AutoCranker => {
            &&& new_p.auto_crank_level == count
            &&& new_p.pasta_price@ == old_p.pasta_price@
            &&& new_p.knead_tick_size == old_p.knead_tick_size
            &&& new_p.auto_knead_level == old_p.auto_knead_level
        },
        UpgradeKind::KneadingGrans => {
            &&& new_p.auto_knead_level == count
            &&& new_p.pasta_price@ == old_p.pasta_price@
            &&& new_p.knead_tick_size == old_p.knead_tick_size
            &&& new_p.auto_crank_level == old_p.auto_crank_level
        },
    }
}

/// Exponent monotonicity for bases of at least one.
proof fn lemma_nat_pow_mono_exp(b: nat, e1: nat, e2: nat)
    requires
        b >= 1,
        e1 <= e2,
    ensures
        nat_pow(b, e1) <= nat_pow(b, e2),
    decreases e2,
{
    if e1 < e2 {
        lemma_nat_pow_mono_exp(b, e1, (e2 - 1) as nat);
        assert(nat_pow(b, e2) == nat_pow(b, (e2 - 1) as nat) * b);
        assert(nat_pow(b, (e2 - 1) as nat) * 1 <= nat_pow(b, (e2 - 1) as nat) * b) by (
        nonlinear_arith)
            requires
                b >= 1,
        ;
    }
}

/// Every purchasable cost fits comfortably inside the display catalog.
pub proof fn lemma_cost_in_display_range(kind: UpgradeKind, count: u64)
    requires
        count <= MAX_UPGRADE_COUNT,
    ensures
        spec_cost(kind, count) is Some,
        spec_cost(kind, count)->Some_0 < display_bound(),
{
    lemma_nat_pow_mono_exp(20, count as nat, 10);
    lemma_nat_pow_mono_exp(10, count as nat, 10);
    assert(nat_pow(20, 10) == 10240000000000 && nat_pow(10, 10) == 10000000000) by {
        reveal_with_fuel(nat_pow, 11);
    }
    assert(crate::digits::pow10(14) == 100000000000000) by {
        reveal_with_fuel(crate::digits::pow10, 15);
    }
    crate::digits::lemma_pow10_increases(14, 33);
}

/// The base price curve of the sell-price upgrade: 20 plus 20 to the count.
pub fn pasta_cost(count: u32) -> (r: GameUInt)
    ensures
        r.wf(),
        r@ == spec_pasta_cost(count as nat),
{
    let base = GameUInt::from_u64(20);
    let mut cost = base.pow(count);
    cost.add_assign_u64(20);
    cost
}

/// One entry of the upgrade catalog.
#[derive(Debug)]
pub struct MenuItemData {
    pub name: String,
    pub description: String,
    pub count: u64,
    pub kind: UpgradeKind,
}

impl MenuItemData {
    pub open spec fn wf(&self) -> bool {
        self.count <= MAX_UPGRADE_COUNT + 1
    }

    /// The price of the next purchase; `None` once maxed out.
    pub fn cost(&self) -> (r: Option<GameUInt>)
        ensures
            match spec_cost(self.kind, self.count) {
                None => r is None,
                Some(v) => r is Some && r->Some_0.wf() && r->Some_0@ == v,
            },
    {
        if self.count > MAX_UPGRADE_COUNT {
            return None;
        }
        let c: u32 = self.count as u32;
        match self.kind {
            UpgradeKind::PastaSellPrice => {
                let base = pasta_cost(c);
                Some(base.mul(&GameUInt::from_u64(6)))
            },
            UpgradeKind::KneadSpeed => Some(GameUInt::from_u64(10).pow(c)),
            UpgradeKind::AutoCranker => Some(GameUInt::from_u64(10).pow(c)),
            UpgradeKind::KneadingGrans => Some(GameUInt::from_u64(10).pow(c)),
        }
    }

    /// The price as the menu shows it: humanized, or `Complete` when maxed.
    pub fn cost_str(&self) -> (r: String)
        ensures
            match spec_cost(self.kind, self.count) {
                None => r@ == "Complete"@,
                Some(v) => r@ == display_chars(v),
            },
    {
        let cost = self.cost();
        match cost {
            Some(cost) => {
                proof {
                    lemma_cost_in_display_range(self.kind, self.count);
                }
                cost.to_display_string()
            },
            None => String::from_str("Complete"),
        }
    }

    /// Run the upgrade's effect at the current count.
    pub fn on_buy(&self, state: &mut CoreState, parameters: &mut CoreParameters)
        requires
            old(state).wf(),
            old(parameters).wf(),
            self.wf(),
        ensures
            final(state).wf(),
            final(parameters).wf(),
            *final(state) == *old(state),
            effect_holds(self.kind, self.count, *old(parameters), *final(parameters)),
    {
        match self.kind {
            UpgradeKind::PastaSellPrice => {
                parameters.pasta_price = pasta_cost(self.count as u32);
            },
            UpgradeKind::KneadSpeed => {
                parameters.knead_tick_size = 10_000 + self.count * 10_000;
            },
            UpgradeKind::AutoCranker => {
                parameters.auto_crank_level = self.count;
            },
            UpgradeKind::KneadingGrans => {
                parameters.auto_knead_level = self.count;
            },
        }
    }
}

/// The catalog, in menu order.
pub fn all() -> (r: Vec<MenuItemData>)
    ensures
        r@.len() == 4,
        r@[0].kind == UpgradeKind::PastaSellPrice && r@[0].count == 0,
        r@[1].kind == UpgradeKind::KneadSpeed && r@[1].count == 0,
        r@[2].kind == UpgradeKind::AutoCranker && r@[2].count == 0,
        r@[3].kind == UpgradeKind::KneadingGrans && r@[3].count == 0,
        forall|i: int| 0 <= i < 4 ==> r@[i].wf(),
{
    let mut items: Vec<MenuItemData> = Vec::new();
    items.push(pasta_sell_price());
    items.push(dough_tick());
    items.push(auto_cranker());
    items.push(kneading_grannies());
    items
}

pub fn pasta_sell_price() -> (r: MenuItemData)
    ensures
        r.kind == UpgradeKind::PastaSellPrice,
        r.count == 0,
        r.wf(),
        r.name@ == "Pasta Sell Price"@,
        r.description@ == "Sell pasta for more"@,
{
    MenuItemData {
        name: String::from_str("Pasta Sell Price"),
        description: String::from_str("Sell pasta for more"),
        count: 0,
        kind: UpgradeKind::PastaSellPrice,
    }
}

pub fn dough_tick() -> (r: MenuItemData)
    ensures
        r.kind == UpgradeKind::KneadSpeed,
        r.count == 0,
        r.wf(),
        r.name@ == "Knead for Speed"@,
        r.description@ == "Knead faster"@,
{
    MenuItemData {
        name: String::from_str("Knead for Speed"),
        description: String::from_str("Knead faster"),
        count: 0,
        kind: UpgradeKind::KneadSpeed,
    }
}

pub fn auto_cranker() -> (r: MenuItemData)
    ensures
        r.kind == UpgradeKind::AutoCranker,
        r.count == 0,
        r.wf(),
        r.name@ == "Auto-cranker"@,
        r.description@ == "Automatically crank"@,
{
    MenuItemData {
        name: String::from_str("Auto-cranker"),
        description: String::from_str("Automatically crank"),
        count: 0,
        kind: UpgradeKind::AutoCranker,
    }
}

pub fn kneading_grannies() -> (r: MenuItemData)
    ensures
        r.kind == UpgradeKind::KneadingGrans,
        r.count == 0,
        r.wf(),
        r.name@ == "Kneading Grans"@,
        r.description@ == "Hire Grans to Knead"@,
{
    MenuItemData {
        name: String::from_str("Kneading Grans"),
        description: String::from_str("Hire Grans to Knead"),
        count: 0,
        kind: UpgradeKind::KneadingGrans,
    }
}

/// Bound on menu positions, far beyond the screen.
pub const POSITION_BOUND: i64 = 1_000_000;

/// A position clamped to a fixed band, used for the menu's scroll offset.
#[derive(Debug)]
pub struct BoundedPosition {
    base: i64,
    current: i64,
    min_: i64,
    max_: i64,
}

impl BoundedPosition {
    pub closed spec fn wf(&self) -> bool {
        &&& -POSITION_BOUND <= self.min_ <= self.max_ <= POSITION_BOUND
        &&& self.min_ <= self.current <= self.max_
        &&& self.min_ <= self.base <= self.max_
    }

    pub closed spec fn spec_current(&self) -> i64 {
        self.current
    }

    pub closed spec fn spec_base(&self) -> i64 {
        self.base
    }

    pub closed spec fn spec_min(&self) -> i64 {
        self.min_
    }

    pub closed spec fn spec_max(&self) -> i64 {
        self.max_
    }

    pub fn new(base: i64, min_: i64, max_: i64) -> (r: BoundedPosition)
        requires
            -POSITION_BOUND <= min_ <= max_ <= POSITION_BOUND,
            min_ <= base <= max_,
        ensures
            r.wf(),
            r.spec_base() == base,
            r.spec_current() == base,
            r.spec_min() == min_,
            r.spec_max() == max_,
    {
        BoundedPosition { base, current: base, min_, max_ }
    }

    /// Shift the position, clamped to the band.
    pub fn change(&mut self, change: i64)
        requires
            old(self).wf(),
            -POSITION_BOUND <= change <= POSITION_BOUND,
        ensures
            final(self).wf(),
            final(self).spec_min() == old(self).spec_min(),
            final(self).spec_max() == old(self).spec_max(),
            final(self).spec_base() == old(self).spec_base(),
            final(self).spec_current() == (if old(self).spec_current() + change < old(
                self,
            ).spec_min() {
                old(self).spec_min()
            } else if old(self).spec_current() + change > old(self).spec_max() {
                old(self).spec_max()
            } else {
                (old(self).spec_current() + change) as i64
            }),
    {
        let shifted = self.current + change;
        self.current = if shifted < self.min_ {
            self.min_
        } else if shifted > self.max_ {
            self.max_
        } else {
            shifted
        };
    }

    pub fn reset(&mut self)
        requires
            old(self).wf(),
        ensures
            final(self).wf(),
            final(self).spec_current() == old(self).spec_base(),
            final(self).spec_base() == old(self).spec_base(),
            final(self).spec_min() == old(self).spec_min(),
            final(self).spec_max() == old(self).spec_max(),
    {
        self.current = self.base;
    }

    pub fn get(&self) -> (r: i64)
        ensures
            r == self.spec_current(),
    {
        self.current
    }
}

/// How far the menu snaps to keep a selection at offset `y` on screen:
/// one step up when it sits below the display band, one step down when it
/// sits above, nothing when it is visible.
pub open spec fn snap_shift(y: i64) -> i64 {
    if y > ITEM_MAX_DISPLAY_Y {
        (-ITEM_SPACING) as i64
    } else if y < 0 {
        ITEM_SPACING
    } else {
        0
    }
}

/// A bounded position's offset after one clamped shift.
pub open spec fn shifted_current(b: BoundedPosition, change: i64) -> i64 {
    if b.spec_current() + change < b.spec_min() {
        b.spec_min()
    } else if b.spec_current() + change > b.spec_max() {
        b.spec_max()
    } else {
        (b.spec_current() + change) as i64
    }
}

/// One row of the menu: catalog data plus its visual state. The host
/// draws it from the flags (selected, pressed, visible) and the labels.
#[derive(Debug)]
pub struct MenuItem {
    pub data: MenuItemData,
    pub state: VisibilityState,
    pub y_offset: BoundedPosition,
    pub selected: bool,
    pub pressed: bool,
}

impl MenuItem {
    pub open spec fn wf(&self) -> bool {
        self.data.wf() && self.spec_y_offset().wf()
    }

    pub open spec fn spec_state(&self) -> VisibilityState {
        self.state
    }

    pub open spec fn spec_y_offset(&self) -> BoundedPosition {
        self.y_offset
    }

    pub open spec fn spec_selected(&self) -> bool {
        self.selected
    }

    pub open spec fn spec_pressed(&self) -> bool {
        self.pressed
    }

    pub fn new(data: MenuItemData, y_offset: BoundedPosition) -> (r: MenuItem)
        requires
            data.wf(),
            y_offset.wf(),
        ensures
            r.wf(),
            r.data == data,
            r.spec_state() == VisibilityState::Hidden,
            r.spec_y_offset() == y_offset,
            !r.spec_selected(),
            !r.spec_pressed(),
    {
        MenuItem { data, state: VisibilityState::Hidden, y_offset, selected: false, pressed: false }
    }

    pub fn set_selected(&mut self, selected: bool)
        ensures
            final(self).data == old(self).data,
            final(self).spec_state() == old(self).spec_state(),
            final(self).spec_y_offset() == old(self).spec_y_offset(),
            final(self).spec_selected() == selected,
            final(self).spec_pressed() == old(self).spec_pressed(),
    {
        self.selected = selected;
    }

    /// Press or release the row's visual; a release falls back to the
    /// selected or unselected look.
    pub fn set_pressed(&mut self, pressed: bool, selected: bool)
        ensures
            final(self).data == old(self).data,
            final(self).spec_state() == old(self).spec_state(),
            final(self).spec_y_offset() == old(self).spec_y_offset(),
            final(self).spec_pressed() == pressed,
            final(self).spec_selected() == (if pressed {
                old(self).spec_selected()
            } else {
                selected
            }),
    {
        if pressed {
            self.pressed = true;
        } else {
            self.pressed = false;
            self.set_selected(selected);
        }
    }

    /// The purchase protocol. Buys exactly when the upgrade still has a
    /// price and that price is strictly below the money at hand; then the
    /// count rises by one, the price leaves the money, and the effect
    /// runs at the incremented count. A denied attempt changes nothing.
    pub fn press_and_trigger(
        &mut self,
        state: &mut CoreState,
        parameters: &mut CoreParameters,
    ) -> (bought: bool)
        requires
            old(self).wf(),
            old(state).wf(),
            old(parameters).wf(),
        ensures
            final(self).wf(),
            final(state).wf(),
            final(parameters).wf(),
            final(self).spec_state() == old(self).spec_state(),
            final(self).spec_y_offset() == old(self).spec_y_offset(),
            final(self).spec_selected() == old(self).spec_selected(),
            final(self).spec_pressed() == old(self).spec_pressed(),
            final(self).data.kind == old(self).data.kind,
            final(state).diamonds@ == old(state).diamonds@,
            final(state).dough_balls@ == old(state).dough_balls@,
            bought == (spec_cost(old(self).data.kind, old(self).data.count) is Some && spec_cost(
                old(self).data.kind,
                old(self).data.count,
            )->Some_0 < old(state).money@),
            !bought ==> {
                &&& final(self).data.count == old(self).data.count
                &&& final(state).money@ == old(state).money@
                &&& *final(parameters) == *old(parameters)
            },
            bought ==> {
                &&& final(self).data.count == old(self).data.count + 1
                &&& final(state).money@ == old(state).money@ - spec_cost(
                    old(self).data.kind,
                    old(self).data.count,
                )->Some_0
                &&& effect_holds(
                    old(self).data.kind,
                    (old(self).data.count + 1) as u64,
                    *old(parameters),
                    *final(parameters),
                )
            },
    {
        let cost = self.data.cost();
        match cost {
            Some(cost) => {
                if cost.lt(&state.money) {
                    self.data.count = self.data.count + 1;
                    state.money.sub_assign(&cost);
                    self.data.on_buy(state, parameters);
                    true
                } else {
                    false
                }
            },
            None => false,
        }
    }

    /// Move the row by a scroll step, clamped to its band.
    pub fn scroll(&mut self, change: i64)
        requires
            old(self).wf(),
            -POSITION_BOUND <= change <= POSITION_BOUND,
        ensures
            final(self).wf(),
            final(self).data == old(self).data,
            final(self).spec_state() == old(self).spec_state(),
            final(self).spec_selected() == old(self).spec_selected(),
            final(self).spec_pressed() == old(self).spec_pressed(),
            final(self).spec_y_offset().spec_base() == old(self).spec_y_offset().spec_base(),
            final(self).spec_y_offset().spec_min() == old(self).spec_y_offset().spec_min(),
            final(self).spec_y_offset().spec_max() == old(self).spec_y_offset().spec_max(),
            final(self).spec_y_offset().spec_current() == shifted_current(
                old(self).spec_y_offset(),
                change,
            ),
    {
        self.y_offset.change(change);
    }

    pub fn set_state(&mut self, state: VisibilityState)
        ensures
            final(self).data == old(self).data,
            final(self).spec_state() == state,
            final(self).spec_y_offset() == old(self).spec_y_offset(),
            final(self).spec_selected() == old(self).spec_selected(),
            final(self).spec_pressed() == old(self).spec_pressed(),
    {
        self.state = state;
    }
}

/// Swap one row for a reworked copy; a ghost snapshot of the vector ties
/// the row operations below to plain sequence updates.
fn item_set_selected(items: &mut Vec<MenuItem>, i: usize, selected: bool)
    requires
        i < old(items)@.len(),
    ensures
        final(items)@.len() == old(items)@.len(),
        ({
            let it = final(items)@[i as int];
            let prev = old(items)@[i as int];
            &&& it.data == prev.data
            &&& it.spec_state() == prev.spec_state()
            &&& it.spec_y_offset() == prev.spec_y_offset()
            &&& it.spec_selected() == selected
            &&& it.spec_pressed() == prev.spec_pressed()
            &&& it.wf() == prev.wf()
        }),
        forall|j: int|
            0 <= j < old(items)@.len() && j != i ==> final(items)@[j] == old(items)@[j],
{
    let ghost pre = items@;
    let mut item = items.remove(i);
    item.set_selected(selected);
    let ghost ni = item;
    items.insert(i, item);
    proof {
        assert(items@ =~= pre.update(i as int, ni));
    }
}

/// Like [`item_set_selected`], for the pressed flag.
fn item_set_pressed(items: &mut Vec<MenuItem>, i: usize, pressed: bool, selected: bool)
    requires
        i < old(items)@.len(),
    ensures
        final(items)@.len() == old(items)@.len(),
        ({
            let it = final(items)@[i as int];
            let prev = old(items)@[i as int];
            &&& it.data == prev.data
            &&& it.spec_state() == prev.spec_state()
            &&& it.spec_y_offset() == prev.spec_y_offset()
            &&& it.spec_pressed() == pressed
            &&& it.spec_selected() == (if pressed {
                prev.spec_selected()
            } else {
                selected
            })
            &&& it.wf() == prev.wf()
        }),
        forall|j: int|
            0 <= j < old(items)@.len() && j != i ==> final(items)@[j] == old(items)@[j],
{
    let ghost pre = items@;
    let mut item = items.remove(i);
    item.set_pressed(pressed, selected);
    let ghost ni = item;
    items.insert(i, item);
    proof {
        assert(items@ =~= pre.update(i as int, ni));
    }
}

/// Like [`item_set_selected`], for the visibility state.
fn item_set_state(items: &mut Vec<MenuItem>, i: usize, state: VisibilityState)
    requires
        i < old(items)@.len(),
    ensures
        final(items)@.len() == old(items)@.len(),
        ({
            let it = final(items)@[i as int];
            let prev = old(items)@[i as int];
            &&& it.data == prev.data
            &&& it.spec_state() == state
            &&& it.spec_y_offset() == prev.spec_y_offset()
            &&& it.spec_selected() == prev.spec_selected()
            &&& it.spec_pressed() == prev.spec_pressed()
            &&& it.wf() == prev.wf()
        }),
        forall|j: int|
            0 <= j < old(items)@.len() && j != i ==> final(items)@[j] == old(items)@[j],
{
    let ghost pre = items@;
    let mut item = items.remove(i);
    item.set_state(state);
    let ghost ni = item;
    items.insert(i, item);
    proof {
        assert(items@ =~= pre.update(i as int, ni));
    }
}

/// Like [`item_set_selected`], for one scroll step of a row.
fn item_scroll(items: &mut Vec<MenuItem>, i: usize, change: i64)
    requires
        i < old(items)@.len(),
        old(items)@[i as int].wf(),
        -POSITION_BOUND <= change <= POSITION_BOUND,
    ensures
        final(items)@.len() == old(items)@.len(),
        ({
            let it = final(items)@[i as int];
            let prev = old(items)@[i as int];
            &&& it.data == prev.data
            &&& it.spec_state() == prev.spec_state()
            &&& it.spec_selected() == prev.spec_selected()
            &&& it.spec_pressed() == prev.spec_pressed()
            &&& it.spec_y_offset().spec_base() == prev.spec_y_offset().spec_base()
            &&& it.spec_y_offset().spec_min() == prev.spec_y_offset().spec_min()
            &&& it.spec_y_offset().spec_max() == prev.spec_y_offset().spec_max()
            &&& it.spec_y_offset().spec_current() == shifted_current(prev.spec_y_offset(), change)
            &&& it.wf()
        }),
        forall|j: int|
            0 <= j < old(items)@.len() && j != i ==> final(items)@[j] == old(items)@[j],
{
    let ghost pre = items@;
    let mut item = items.remove(i);
    item.scroll(change);
    let ghost ni = item;
    items.insert(i, item);
    proof {
        assert(items@ =~= pre.update(i as int, ni));
    }
}

/// Like [`item_set_selected`], for one saved purchase count.
fn item_set_count(items: &mut Vec<MenuItem>, i: usize, count: u64)
    requires
        i < old(items)@.len(),
        count <= MAX_UPGRADE_COUNT + 1,
    ensures
        final(items)@.len() == old(items)@.len(),
        ({
            let it = final(items)@[i as int];
            let prev = old(items)@[i as int];
            &&& it.data.count == count
            &&& it.data.kind == prev.data.kind
            &&& it.data.name == prev.data.name
            &&& it.data.description == prev.data.description
            &&& it.spec_state() == prev.spec_state()
            &&& it.spec_y_offset() == prev.spec_y_offset()
            &&& it.spec_selected() == prev.spec_selected()
            &&& it.spec_pressed() == prev.spec_pressed()
            &&& (prev.wf() ==> it.wf())
        }),
        forall|j: int|
            0 <= j < old(items)@.len() && j != i ==> final(items)@[j] == old(items)@[j],
{
    let ghost pre = items@;
    let mut item = items.remove(i);
    item.data.count = count;
    let ghost ni = item;
    items.insert(i, item);
    proof {
        assert(items@ =~= pre.update(i as int, ni));
    }
}

/// Attempt a purchase on one row; see [`MenuItem::press_and_trigger`].
fn item_press_and_trigger(
    items: &mut Vec<MenuItem>,
    i: usize,
    state: &mut CoreState,
    parameters: &mut CoreParameters,
) -> (bought: bool)
    requires
        i < old(items)@.len(),
        old(items)@[i as int].wf(),
        old(state).wf(),
        old(parameters).wf(),
    ensures
        final(items)@.len() == old(items)@.len(),
        final(state).wf(),
        final(parameters).wf(),
        final(state).diamonds@ == old(state).diamonds@,
        final(state).dough_balls@ == old(state).dough_balls@,
        ({
            let it = final(items)@[i as int];
            let prev = old(items)@[i as int];
            &&& it.wf()
            &&& it.data.kind == prev.data.kind
            &&& it.spec_state() == prev.spec_state()
            &&& it.spec_y_offset() == prev.spec_y_offset()
            &&& it.spec_selected() == prev.spec_selected()
            &&& it.spec_pressed() == prev.spec_pressed()
            &&& bought == (spec_cost(prev.data.kind, prev.data.count) is Some && spec_cost(
                prev.data.kind,
                prev.data.count,
            )->Some_0 < old(state).money@)
            &&& (!bought ==> it.data.count == prev.data.count && final(state).money@ == old(
                state,
            ).money@ && *final(parameters) == *old(parameters))
            &&& (bought ==> it.data.count == prev.data.count + 1 && final(state).money@ == old(
                state,
            ).money@ - spec_cost(prev.data.kind, prev.data.count)->Some_0 && effect_holds(
                prev.data.kind,
                (prev.data.count + 1) as u64,
                *old(parameters),
                *final(parameters),
            ))
        }),
        forall|j: int|
            0 <= j < old(items)@.len() && j != i ==> final(items)@[j] == old(items)@[j],
{
    let ghost pre = items@;
    let mut item = items.remove(i);
    let bought = item.press_and_trigger(state, parameters);
    let ghost ni = item;
    items.insert(i, item);
    proof {
        assert(items@ =~= pre.update(i as int, ni));
    }
    bought
}

/// The selection index after one frame of directional input.
pub open spec fn spec_selected_after(sel: usize, len: usize, buttons: ButtonEvents) -> usize {
    if buttons.up_pressed {
        if sel > 0 {
            (sel - 1) as usize
        } else {
            0
        }
    } else if buttons.down_pressed {
        if sel + 1 < len {
            (sel + 1) as usize
        } else {
            (len - 1) as usize
        }
    } else {
        sel
    }
}

/// The scrollable upgrade menu. While hidden it ignores input; while
/// visible, up and down move the selection (scrolling keeps it on
/// screen) and the confirm button attempts a purchase of the selected
/// upgrade, with a bought or denied cue either way.
#[derive(Debug)]
pub struct Menu {
    pub state: VisibilityState,
    pub menu_items: Vec<MenuItem>,
    pub selected_item_index: usize,
    pub pressed_item_index: usize,
}

impl Menu {
    /// Well-formed menus carry the selected mark on exactly the row the
    /// selection index names.
    pub open spec fn wf(&self) -> bool {
        &&& self.menu_items@.len() == 4
        &&& self.selected_item_index < self.menu_items@.len()
        &&& self.pressed_item_index < self.menu_items@.len()
        &&& forall|i: int|
            0 <= i < self.menu_items@.len() ==> (#[trigger] self.menu_items@[i]).wf()
        &&& forall|i: int|
            0 <= i < self.menu_items@.len() ==> ((#[trigger] self.menu_items@[i]).spec_selected()
                <==> i == self.selected_item_index)
    }

    /// The purchase counts, in catalog order: what the save file keeps.
    pub open spec fn spec_counts(&self) -> Seq<u64> {
        Seq::new(self.menu_items@.len(), |i: int| self.menu_items@[i].data.count)
    }

    pub open spec fn spec_kinds(&self) -> Seq<UpgradeKind> {
        Seq::new(self.menu_items@.len(), |i: int| self.menu_items@[i].data.kind)
    }

    /// A fresh menu over the catalog, hidden, with the first row selected.
    pub fn new() -> (r: Menu)
        ensures
            r.wf(),
            r.state == VisibilityState::Hidden,
            r.selected_item_index == 0,
            r.pressed_item_index == 0,
            r.spec_counts() =~= seq![0u64, 0u64, 0u64, 0u64],
            r.spec_kinds() =~= seq![
                UpgradeKind::PastaSellPrice,
                UpgradeKind::KneadSpeed,
                UpgradeKind::AutoCranker,
                UpgradeKind::KneadingGrans,
            ],
    {
        let max_y_offset: i64 = ITEM_Y_START + NUM_ITEM_SLOTS * ITEM_SPACING;
        let max_scroll_amount: i64 = if max_y_offset > ITEM_MAX_DISPLAY_Y {
            max_y_offset - ITEM_MAX_DISPLAY_Y
        } else {
            0
        };
        let mut menu_items: Vec<MenuItem> = Vec::new();
        let d0 = pasta_sell_price();
        let y0: i64 = ITEM_Y_START;
        menu_items.push(MenuItem::new(d0, BoundedPosition::new(y0, y0 - max_scroll_amount, y0)));
        let d1 = dough_tick();
        let y1: i64 = ITEM_Y_START + ITEM_SPACING;
        menu_items.push(MenuItem::new(d1, BoundedPosition::new(y1, y1 - max_scroll_amount, y1)));
        let d2 = auto_cranker();
        let y2: i64 = ITEM_Y_START + 2 * ITEM_SPACING;
        menu_items.push(MenuItem::new(d2, BoundedPosition::new(y2, y2 - max_scroll_amount, y2)));
        let d3 = kneading_grannies();
        let y3: i64 = ITEM_Y_START + 3 * ITEM_SPACING;
        menu_items.push(MenuItem::new(d3, BoundedPosition::new(y3, y3 - max_scroll_amount, y3)));
        item_set_selected(&mut menu_items, 0, true);
        let mut s = Menu {
            state: VisibilityState::Hidden,
            menu_items,
            selected_item_index: 0,
            pressed_item_index: 0,
        };
        s.change_selected_item(0);
        s
    }

    /// Adopt the purchase counts of a save file. Rejected (leaving the
    /// menu alone) when the list does not match the catalog or a count
    /// lies beyond the purchase cap: such a save is treated as corrupt.
    pub fn init_counts(&mut self, counts: &Vec<u64>) -> (ok: bool)
        requires
            old(self).wf(),
        ensures
            final(self).wf(),
            ok == (counts@.len() == old(self).spec_counts().len() && (forall|i: int|
                0 <= i < counts@.len() ==> counts@[i] <= MAX_UPGRADE_COUNT + 1)),
            ok ==> final(self).spec_counts() =~= counts@,
            ok ==> final(self).spec_kinds() =~= old(self).spec_kinds(),
            !ok ==> *final(self) == *old(self),
            final(self).state == old(self).state,
            final(self).selected_item_index == old(self).selected_item_index,
    {
        if counts.len() != self.menu_items.len() {
            return false;
        }
        let mut i: usize = 0;
        while i < counts.len()
            invariant
                old(self).wf(),
                counts@.len() == self.menu_items@.len(),
                i <= counts@.len(),
                forall|j: int| 0 <= j < i ==> counts@[j] <= MAX_UPGRADE_COUNT + 1,
                *self == *old(self),
            decreases counts@.len() - i,
        {
            if counts[i] > MAX_UPGRADE_COUNT + 1 {
                return false;
            }
            i = i + 1;
        }
        let mut k: usize = 0;
        while k < counts.len()
            invariant
                old(self).wf(),
                self.menu_items@.len() == old(self).menu_items@.len(),
                counts@.len() == old(self).menu_items@.len(),
                k <= counts@.len(),
                forall|j: int| 0 <= j < counts@.len() ==> counts@[j] <= MAX_UPGRADE_COUNT + 1,
                self.state == old(self).state,
                self.selected_item_index == old(self).selected_item_index,
                self.pressed_item_index == old(self).pressed_item_index,
                forall|j: int| 0 <= j < counts@.len() ==> (#[trigger] self.menu_items@[j]).wf(),
                forall|j: int|
                    0 <= j < counts@.len() ==> (#[trigger] self.menu_items@[j]).spec_selected()
                        == old(self).menu_items@[j].spec_selected(),
                forall|j: int|
                    0 <= j < k ==> (#[trigger] self.menu_items@[j]).data.count == counts@[j],
                forall|j: int|
                    0 <= j < counts@.len() ==> (#[trigger] self.menu_items@[j]).data.kind == old(
                        self,
                    ).menu_items@[j].data.kind,
            decreases counts@.len() - k,
        {
            item_set_count(&mut self.menu_items, k, counts[k]);
            k = k + 1;
        }
        true
    }

    /// The purchase counts in catalog order, for saving.
    pub fn to_counts(&self) -> (r: Vec<u64>)
        ensures
            r@ =~= self.spec_counts(),
    {
        let mut out: Vec<u64> = Vec::new();
        let mut i: usize = 0;
        while i < self.menu_items.len()
            invariant
                i <= self.menu_items@.len(),
                out@.len() == i,
                forall|j: int| 0 <= j < i ==> out@[j] == self.menu_items@[j].data.count,
            decreases self.menu_items@.len() - i,
        {
            out.push(self.menu_items[i].data.count);
            i = i + 1;
        }
        out
    }

    /// Shift every row by one scroll step.
    fn scroll(&mut self, change: i64)
        requires
            old(self).wf(),
            -POSITION_BOUND <= change <= POSITION_BOUND,
        ensures
            final(self).wf(),
            final(self).state == old(self).state,
            final(self).selected_item_index == old(self).selected_item_index,
            final(self).pressed_item_index == old(self).pressed_item_index,
            final(self).menu_items@.len() == old(self).menu_items@.len(),
            forall|j: int|
                0 <= j < old(self).menu_items@.len() ==> {
                    let it = #[trigger] final(self).menu_items@[j];
                    let prev = old(self).menu_items@[j];
                    &&& it.data == prev.data
                    &&& it.spec_state() == prev.spec_state()
                    &&& it.spec_selected() == prev.spec_selected()
                    &&& it.spec_pressed() == prev.spec_pressed()
                    &&& it.spec_y_offset().spec_base() == prev.spec_y_offset().spec_base()
                    &&& it.spec_y_offset().spec_min() == prev.spec_y_offset().spec_min()
                    &&& it.spec_y_offset().spec_max() == prev.spec_y_offset().spec_max()
                    &&& it.spec_y_offset().spec_current() == shifted_current(
                        prev.spec_y_offset(),
                        change,
                    )
                },
    {
        let mut i: usize = 0;
        while i < self.menu_items.len()
            invariant
                old(self).wf(),
                i <= self.menu_items@.len(),
                self.menu_items@.len() == old(self).menu_items@.len(),
                -POSITION_BOUND <= change <= POSITION_BOUND,
                self.state == old(self).state,
                self.selected_item_index == old(self).selected_item_index,
                self.pressed_item_index == old(self).pressed_item_index,
                forall|j: int|
                    0 <= j < self.menu_items@.len() ==> {
                        let it = #[trigger] self.menu_items@[j];
                        let prev = old(self).menu_items@[j];
                        &&& it.wf()
                        &&& it.data == prev.data
                        &&& it.spec_state() == prev.spec_state()
                        &&& it.spec_selected() == prev.spec_selected()
                        &&& it.spec_pressed() == prev.spec_pressed()
                        &&& it.spec_y_offset().spec_base() == prev.spec_y_offset().spec_base()
                        &&& it.spec_y_offset().spec_min() == prev.spec_y_offset().spec_min()
                        &&& it.spec_y_offset().spec_max() == prev.spec_y_offset().spec_max()
                    },
                forall|j: int|
                    0 <= j < i ==> (#[trigger] self.menu_items@[j]).spec_y_offset().spec_current()
                        == shifted_current(old(self).menu_items@[j].spec_y_offset(), change),
                forall|j: int|
                    i <= j < self.menu_items@.len() ==> (#[trigger] self.menu_items@[j]).spec_y_offset()
                        == old(self).menu_items@[j].spec_y_offset(),
            decreases self.menu_items@.len() - i,
        {
            item_scroll(&mut self.menu_items, i, change);
            i = i + 1;
        }
    }

    /// Move the selection and keep it on screen: a selection that would
    /// sit below the display area scrolls the menu up one step, one above
    /// the top scrolls it down one step.
    fn change_selected_item(&mut self, change: i64)
        requires
            old(self).wf(),
            -4 <= change <= 4,
        ensures
            final(self).wf(),
            final(self).state == old(self).state,
            final(self).pressed_item_index == old(self).pressed_item_index,
            final(self).spec_counts() =~= old(self).spec_counts(),
            final(self).spec_kinds() =~= old(self).spec_kinds(),
            final(self).selected_item_index == (if old(self).selected_item_index + change < 0 {
                0
            } else if old(self).selected_item_index + change > old(self).menu_items@.len() - 1 {
                (old(self).menu_items@.len() - 1) as usize
            } else {
                (old(self).selected_item_index + change) as usize
            }),
            ({
                let shift = snap_shift(
                    old(self).menu_items@[final(self).selected_item_index as int].spec_y_offset().spec_current(),
                );
                forall|j: int|
                    0 <= j < old(self).menu_items@.len() ==> {
                        let b2 = (#[trigger] final(self).menu_items@[j]).spec_y_offset();
                        let b1 = old(self).menu_items@[j].spec_y_offset();
                        &&& b2.spec_current() == shifted_current(b1, shift)
                        &&& b2.spec_base() == b1.spec_base()
                        &&& b2.spec_min() == b1.spec_min()
                        &&& b2.spec_max() == b1.spec_max()
                    }
            }),
    {
        let len = self.menu_items.len();
        let target: i64 = self.selected_item_index as i64 + change;
        let new_index: usize = if target < 0 {
            0
        } else if target > (len - 1) as i64 {
            len - 1
        } else {
            target as usize
        };
        let sel = self.selected_item_index;
        item_set_selected(&mut self.menu_items, sel, false);
        self.selected_item_index = new_index;
        item_set_selected(&mut self.menu_items, new_index, true);
        proof {
            assert forall|j: int| 0 <= j < self.menu_items@.len() implies ((
            #[trigger] self.menu_items@[j]).spec_selected() <==> j == new_index) by {
                assert(old(self).menu_items@[j].spec_selected() <==> j
                    == old(self).selected_item_index);
            }
        }
        let current_items_y = self.menu_items[new_index].y_offset.get();
        if current_items_y > ITEM_MAX_DISPLAY_Y {
            self.scroll(-ITEM_SPACING);
        } else if current_items_y < 0 {
            self.scroll(ITEM_SPACING);
        }
    }

    /// Show or hide the whole menu.
    pub fn set_state(&mut self, state: VisibilityState)
        requires
            old(self).wf(),
        ensures
            final(self).wf(),
            final(self).state == state,
            final(self).selected_item_index == old(self).selected_item_index,
            final(self).pressed_item_index == old(self).pressed_item_index,
            final(self).spec_counts() =~= old(self).spec_counts(),
            final(self).spec_kinds() =~= old(self).spec_kinds(),
            forall|j: int|
                0 <= j < final(self).menu_items@.len() ==> (#[trigger] final(self).menu_items@[j]).spec_state()
                    == state,
            forall|j: int|
                0 <= j < final(self).menu_items@.len() ==> (#[trigger] final(self).menu_items@[j]).spec_y_offset()
                    == old(self).menu_items@[j].spec_y_offset(),
    {
        self.state = state;
        let mut i: usize = 0;
        while i < self.menu_items.len()
            invariant
                old(self).wf(),
                i <= self.menu_items@.len(),
                self.menu_items@.len() == old(self).menu_items@.len(),
                self.state == state,
                self.selected_item_index == old(self).selected_item_index,
                self.pressed_item_index == old(self).pressed_item_index,
                forall|j: int|
                    0 <= j < self.menu_items@.len() ==> {
                        let it = #[trigger] self.menu_items@[j];
                        let prev = old(self).menu_items@[j];
                        &&& it.wf()
                        &&& it.data == prev.data
                        &&& it.spec_y_offset() == prev.spec_y_offset()
                        &&& it.spec_selected() == prev.spec_selected()
                        &&& it.spec_pressed() == prev.spec_pressed()
                    },
                forall|j: int|
                    0 <= j < i ==> (#[trigger] self.menu_items@[j]).spec_state() == state,
            decreases self.menu_items@.len() - i,
        {
            item_set_state(&mut self.menu_items, i, state);
            i = i + 1;
        }
    }

    /// One frame of menu input while visible.
    #[verifier::rlimit(50)]
    fn update_internal(
        &mut self,
        state: &mut CoreState,
        parameters: &mut CoreParameters,
        audio_events: &mut AudioEventChannel,
        buttons: ButtonEvents,
    )
        requires
            old(self).wf(),
            old(state).wf(),
            old(parameters).wf(),
            old(audio_events)@.len() < usize::MAX,
        ensures
            final(self).wf(),
            final(state).wf(),
            final(parameters).wf(),
            final(state).diamonds@ == old(state).diamonds@,
            final(state).dough_balls@ == old(state).dough_balls@,
            final(self).state == old(self).state,
            final(self).spec_kinds() =~= old(self).spec_kinds(),
            ({
                let sel = spec_selected_after(
                    old(self).selected_item_index,
                    old(self).menu_items@.len() as usize,
                    buttons,
                );
                let shift = if buttons.up_pressed || buttons.down_pressed {
                    snap_shift(old(self).menu_items@[sel as int].spec_y_offset().spec_current())
                } else {
                    0
                };
                forall|j: int|
                    0 <= j < old(self).menu_items@.len() ==> {
                        let b2 = (#[trigger] final(self).menu_items@[j]).spec_y_offset();
                        let b1 = old(self).menu_items@[j].spec_y_offset();
                        &&& b2.spec_current() == shifted_current(b1, shift)
                        &&& b2.spec_base() == b1.spec_base()
                        &&& b2.spec_min() == b1.spec_min()
                        &&& b2.spec_max() == b1.spec_max()
                    }
            }),
            ({
                let sel = spec_selected_after(
                    old(self).selected_item_index,
                    old(self).menu_items@.len() as usize,
                    buttons,
                );
                let kind = old(self).spec_kinds()[sel as int];
                let count = old(self).spec_counts()[sel as int];
                let buys = buttons.a_pressed && spec_cost(kind, count) is Some && spec_cost(
                    kind,
                    count,
                )->Some_0 < old(state).money@;
                &&& final(self).selected_item_index == sel
                &&& (buttons.a_pressed && buys ==> {
                    &&& final(state).money@ == old(state).money@ - spec_cost(kind, count)->Some_0
                    &&& final(self).spec_counts() =~= old(self).spec_counts().update(
                        sel as int,
                        (count + 1) as u64,
                    )
                    &&& final(audio_events)@ == old(audio_events)@.push(AudioEvent::UpgradeBought)
                    &&& effect_holds(kind, (count + 1) as u64, *old(parameters), *final(parameters))
                })
                &&& (buttons.a_pressed && !buys ==> {
                    &&& final(state).money@ == old(state).money@
                    &&& final(self).spec_counts() =~= old(self).spec_counts()
                    &&& final(audio_events)@ == old(audio_events)@.push(AudioEvent::UpgradeDenied)
                    &&& *final(parameters) == *old(parameters)
                })
                &&& (!buttons.a_pressed ==> {
                    &&& final(state).money@ == old(state).money@
                    &&& final(self).spec_counts() =~= old(self).spec_counts()
                    &&& final(audio_events)@ == old(audio_events)@
                    &&& *final(parameters) == *old(parameters)
                })
            }),
    {
        if buttons.up_pressed {
            self.change_selected_item(-1);
        } else if buttons.down_pressed {
            self.change_selected_item(1);
        }
        if buttons.a_pressed {
            let sel = self.selected_item_index;
            let bought = item_press_and_trigger(&mut self.menu_items, sel, state, parameters);
            if bought {
                item_set_pressed(&mut self.menu_items, sel, true, true);
                self.pressed_item_index = sel;
                audio_events.push(AudioEvent::UpgradeBought);
            } else {
                audio_events.push(AudioEvent::UpgradeDenied);
            }
        } else if buttons.a_released {
            let pressed_idx = self.pressed_item_index;
            let still_selected = pressed_idx == self.selected_item_index;
            item_set_pressed(&mut self.menu_items, pressed_idx, false, still_selected);
        }
    }

    /// One frame of the menu: input only reaches it while it is visible.
    pub fn update(
        &mut self,
        parameters: &mut CoreParameters,
        state: &mut CoreState,
        audio_events: &mut AudioEventChannel,
        buttons: ButtonEvents,
    )
        requires
            old(self).wf(),
            old(state).wf(),
            old(parameters).wf(),
            old(audio_events)@.len() < usize::MAX,
        ensures
            final(self).wf(),
            final(state).wf(),
            final(parameters).wf(),
            final(state).diamonds@ == old(state).diamonds@,
            final(state).dough_balls@ == old(state).dough_balls@,
            final(self).state == old(self).state,
            old(self).state is Hidden ==> *final(self) == *old(self) && *final(state) == *old(
                state,
            ) && *final(parameters) == *old(parameters) && final(audio_events)@ == old(
                audio_events,
            )@,
            old(self).state is Visible ==> ({
                let sel = spec_selected_after(
                    old(self).selected_item_index,
                    old(self).menu_items@.len() as usize,
                    buttons,
                );
                let kind = old(self).spec_kinds()[sel as int];
                let count = old(self).spec_counts()[sel as int];
                let buys = buttons.a_pressed && spec_cost(kind, count) is Some && spec_cost(
                    kind,
                    count,
                )->Some_0 < old(state).money@;
                &&& final(self).selected_item_index == sel
                &&& final(self).spec_kinds() =~= old(self).spec_kinds()
                &&& ({
                    let shift = if buttons.up_pressed || buttons.down_pressed {
                        snap_shift(
                            old(self).menu_items@[sel as int].spec_y_offset().spec_current(),
                        )
                    } else {
                        0
                    };
                    forall|j: int|
                        0 <= j < old(self).menu_items@.len() ==> {
                            let b2 = (#[trigger] final(self).menu_items@[j]).spec_y_offset();
                            let b1 = old(self).menu_items@[j].spec_y_offset();
                            &&& b2.spec_current() == shifted_current(b1, shift)
                            &&& b2.spec_base() == b1.spec_base()
                            &&& b2.spec_min() == b1.spec_min()
                            &&& b2.spec_max() == b1.spec_max()
                        }
                })
                &&& (buttons.a_pressed && buys ==> {
                    &&& final(state).money@ == old(state).money@ - spec_cost(kind, count)->Some_0
                    &&& final(self).spec_counts() =~= old(self).spec_counts().update(
                        sel as int,
                        (count + 1) as u64,
                    )
                    &&& final(audio_events)@ == old(audio_events)@.push(AudioEvent::UpgradeBought)
                    &&& effect_holds(kind, (count + 1) as u64, *old(parameters), *final(parameters))
                })
                &&& (buttons.a_pressed && !buys ==> {
                    &&& final(state).money@ == old(state).money@
                    &&& final(self).spec_counts() =~= old(self).spec_counts()
                    &&& final(audio_events)@ == old(audio_events)@.push(AudioEvent::UpgradeDenied)
                    &&& *final(parameters) == *old(parameters)
                })
                &&& (!buttons.a_pressed ==> {
                    &&& final(state).money@ == old(state).money@
                    &&& final(self).spec_counts() =~= old(self).spec_counts()
                    &&& final(audio_events)@ == old(audio_events)@
                    &&& *final(parameters) == *old(parameters)
                })
            }),
    {
        match self.state {
            VisibilityState::Hidden => {},
            VisibilityState::Visible => {
                self.update_internal(state, parameters, audio_events, buttons);
            },
        }
    }
}

} // verus!
