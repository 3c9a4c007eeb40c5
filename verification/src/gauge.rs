//! `javax.microedition.lcdui.Gauge`: a bar showing a value between zero and
//! a maximum, or one of the activity states of an indefinite gauge.
use vstd::prelude::*;

use crate::choice_group::{ItemKeyResult, INPUT_CHANGED, INPUT_HANDLED};
use crate::errors::UiError;
use crate::event_queue::{KEY_LEFT, KEY_RIGHT};
use crate::font::{text_wf, MeasuredText};
use crate::geometry::saturate;
use crate::item::{item_wf, max, min, notice, Item, ItemView};

verus! {

/// The maximum value of a gauge without a range.
pub const INDEFINITE: i32 = -1;
/// States of an indefinite gauge.
pub const CONTINUOUS_IDLE: i32 = 0;
pub const INCREMENTAL_IDLE: i32 = 1;
pub const CONTINUOUS_RUNNING: i32 = 2;
pub const INCREMENTAL_UPDATING: i32 = 3;

pub const GAUGE_MINIMUM_WIDTH: i32 = 24;
pub const GAUGE_PREFERRED_WIDTH: i32 = 96;
pub const GAUGE_HEIGHT: i32 = 12;

/// The abstract state of a gauge.
pub struct GaugeView {
    pub item: ItemView,
    pub interactive: bool,
    pub max_value: int,
    pub value: int,
}

/// `javax.microedition.lcdui.Gauge`.
pub struct Gauge {
    pub item: Item,
    interactive: bool,
    max_value: i32,
    value: i32,
}

impl View for Gauge {
    type V = GaugeView;

    closed spec fn view(&self) -> GaugeView {
        GaugeView {
            item: self.item@,
            interactive: self.interactive,
            max_value: self.max_value as int,
            value: self.value as int,
        }
    }
}

/// A maximum a gauge accepts: positive, or `INDEFINITE` for a gauge the
/// user cannot change.
pub open spec fn valid_maximum(interactive: bool, max_value: int) -> bool {
    max_value > 0 || (!interactive && max_value == INDEFINITE)
}

pub open spec fn is_indefinite_state(value: int) -> bool {
    CONTINUOUS_IDLE <= value <= INCREMENTAL_UPDATING
}

/// The value a gauge holds when asked to hold `value`.
pub open spec fn stored_value(max_value: int, value: int) -> int {
    if max_value == INDEFINITE {
        value
    } else if value < 0 {
        0
    } else if value > max_value {
        max_value
    } else {
        value
    }
}

/// A gauge's invariant: its value lies in its range, or is one of the
/// indefinite states.
pub open spec fn gauge_wf(v: GaugeView) -> bool {
    &&& item_wf(v.item)
    &&& i32::MIN <= v.max_value <= i32::MAX
    &&& valid_maximum(v.interactive, v.max_value)
    &&& if v.max_value == INDEFINITE {
        is_indefinite_state(v.value)
    } else {
        0 <= v.value <= v.max_value
    }
}

/// The value a gauge keeps when its maximum changes.
pub open spec fn value_after_new_maximum(old_max: int, old_value: int, new_max: int) -> int {
    if old_max == INDEFINITE && new_max == INDEFINITE {
        old_value
    } else if old_max == INDEFINITE || new_max == INDEFINITE {
        0
    } else if old_value <= new_max {
        old_value
    } else {
        new_max
    }
}

/// A key on a focused gauge: LEFT and RIGHT step an interactive gauge's
/// value, within its range.
pub open spec fn gauge_key(v: GaugeView, key: int) -> (GaugeView, ItemKeyResult) {
    if !v.interactive || (key != KEY_LEFT && key != KEY_RIGHT) {
        (v, ItemKeyResult { flags: 0, invalidate: None })
    } else {
        let new_value = if key == KEY_LEFT {
            if v.value - 1 < 0 {
                0
            } else {
                v.value - 1
            }
        } else {
            if v.value + 1 > v.max_value {
                v.max_value
            } else {
                v.value + 1
            }
        };
        if new_value == v.value {
            (v, ItemKeyResult { flags: INPUT_HANDLED, invalidate: None })
        } else {
            (
                GaugeView { value: new_value, ..v },
                ItemKeyResult { flags: INPUT_HANDLED | INPUT_CHANGED, invalidate: Some(false) },
            )
        }
    }
}

/// LEFT and RIGHT step an interactive gauge by exactly one, stopping at the
/// ends of its range: a step that moves reports a change, one at an end
/// only that the key was handled; nothing but the value changes, and a step
/// one way is undone by a step the other way. A gauge that is not
/// interactive, or another key, leaves the gauge alone and is not handled.
pub proof fn lemma_gauge_keys_step_by_one(v: GaugeView, key: int)
    requires
        gauge_wf(v),
    ensures
        ({
            let (after, r) = gauge_key(v, key);
            &&& !v.interactive || (key != KEY_LEFT && key != KEY_RIGHT) ==> after == v && r.flags == 0
            &&& v.interactive && key == KEY_LEFT ==> after.value == max(v.value - 1, 0)
            &&& v.interactive && key == KEY_RIGHT ==> after.value == min(v.value + 1, v.max_value)
            &&& after == (GaugeView { value: after.value, ..v })
            &&& v.interactive && (key == KEY_LEFT || key == KEY_RIGHT) ==> (after.value != v.value
                <==> r.flags == INPUT_HANDLED | INPUT_CHANGED) && (after.value == v.value <==> r.flags
                == INPUT_HANDLED)
            &&& v.interactive && key == KEY_LEFT && v.value > 0 ==> gauge_key(after, KEY_RIGHT as int).0 == v
            &&& v.interactive && key == KEY_RIGHT && v.value < v.max_value ==> gauge_key(
                after,
                KEY_LEFT as int,
            ).0 == v
        }),
{
    assert(INPUT_HANDLED | INPUT_CHANGED != INPUT_HANDLED) by (bit_vector);
}

/// Where a gauge's bar is drawn in a `width` x `height` content area, as
/// offsets from its top left corner.
pub struct GaugeTrack {
    pub track_x: i32,
    pub track_y: i32,
    pub track_width: i32,
    pub track_height: i32,
    /// Where the filled part starts, and how wide it is (0: nothing filled).
    pub fill_x: i32,
    pub fill_width: i32,
}

pub open spec fn track_width_of(width: int) -> int {
    if width - 4 >= 1 {
        width - 4
    } else {
        1
    }
}

pub open spec fn track_height_of(height: int) -> int {
    if height >= 8 {
        8
    } else if height >= 1 {
        height
    } else {
        1
    }
}

/// The filled part of a bar `tw` wide: proportional to the value, or a
/// pattern for each indefinite state.
pub open spec fn fill_of(max_value: int, value: int, track_x: int, tw: int) -> (int, int) {
    if max_value > 0 {
        (track_x, saturate(tw * value) / max_value)
    } else if value == 1 {
        (track_x, if tw / 4 >= 1 { tw / 4 } else { 1 })
    } else if value == 2 {
        (track_x + tw / 3, if tw / 3 >= 1 { tw / 3 } else { 1 })
    } else if value == 3 {
        (track_x, if tw * 2 / 3 >= 1 { tw * 2 / 3 } else { 1 })
    } else {
        (track_x, 0)
    }
}

impl Gauge {
    /// A gauge; a maximum that is neither positive nor `INDEFINITE` for a
    /// non-interactive gauge, and an indefinite gauge's state outside its
    /// four states, are refused. A ranged gauge's value is clamped into range.
    pub fn new(label: MeasuredText, interactive: bool, max_value: i32, initial_value: i32) -> (r: Result<
        Gauge,
        UiError,
    >)
        requires
            text_wf(label@),
        ensures
            match r {
                Ok(g) => {
                    &&& valid_maximum(interactive, max_value as int)
                    &&& (max_value == INDEFINITE ==> is_indefinite_state(initial_value as int))
                    &&& gauge_wf(g@)
                    &&& g@.item.label == label@
                    &&& g@.item.commands.len() == 0
                    &&& g@.item.preferred_width == -1
                    &&& g@.item.preferred_height == -1
                    &&& g@.item.layout == 0
                    &&& g@.item.owner == crate::item::ItemOwner::Unowned
                    &&& !g@.item.has_listener
                    &&& g@.interactive == interactive
                    &&& g@.max_value == max_value
                    &&& g@.value == stored_value(max_value as int, initial_value as int)
                },
                Err(e) => e == UiError::IllegalArgument && (!valid_maximum(
                    interactive,
                    max_value as int,
                ) || (max_value == INDEFINITE && !is_indefinite_state(initial_value as int))),
            },
    {
        if max_value <= 0 && (interactive || max_value != INDEFINITE) {
            return Err(UiError::IllegalArgument);
        }
        if max_value == INDEFINITE && !(CONTINUOUS_IDLE <= initial_value && initial_value
            <= INCREMENTAL_UPDATING) {
            return Err(UiError::IllegalArgument);
        }
        let value = Self::clamp_value(max_value, initial_value);
        Ok(Gauge { item: Item::new(label), interactive, max_value, value })
    }

    fn clamp_value(max_value: i32, value: i32) -> (r: i32)
        ensures
            r == stored_value(max_value as int, value as int),
    {
        if max_value == INDEFINITE {
            value
        } else if value < 0 {
            0
        } else if value > max_value {
            max_value
        } else {
            value
        }
    }

    pub fn item(&self) -> (r: &Item)
        ensures
            r@ == self@.item,
    {
        &self.item
    }

    /// Records what holds the gauge now.
    pub fn set_owner(&mut self, owner: crate::item::ItemOwner)
        requires
            gauge_wf(old(self)@),
        ensures
            gauge_wf(final(self)@),
            final(self)@ == (GaugeView { item: ItemView { owner, ..old(self)@.item }, ..old(self)@ }),
    {
        self.item.set_owner(owner);
    }

    pub fn get_max_value(&self) -> (r: i32)
        ensures
            r == self@.max_value,
    {
        self.max_value
    }

    pub fn get_value(&self) -> (r: i32)
        ensures
            r == self@.value,
    {
        self.value
    }

    pub fn is_interactive(&self) -> (r: bool)
        ensures
            r == self@.interactive,
    {
        self.interactive
    }

    /// `setMaxValue`: changes the range. The value is kept where it still
    /// fits and reset when the gauge changes between ranged and indefinite.
    pub fn set_max_value(&mut self, max_value: i32) -> (r: Result<Option<bool>, UiError>)
        requires
            gauge_wf(old(self)@),
        ensures
            gauge_wf(final(self)@),
            !valid_maximum(old(self)@.interactive, max_value as int) ==> r == Err::<
                Option<bool>,
                UiError,
            >(UiError::IllegalArgument) && final(self)@ == old(self)@,
            valid_maximum(old(self)@.interactive, max_value as int) ==> r == Ok::<
                Option<bool>,
                UiError,
            >(notice(old(self)@.item.owner, false)) && final(self)@ == (GaugeView {
                max_value: max_value as int,
                value: value_after_new_maximum(
                    old(self)@.max_value,
                    old(self)@.value,
                    max_value as int,
                ),
                ..old(self)@
            }),
    {
        if max_value <= 0 && (self.interactive || max_value != INDEFINITE) {
            return Err(UiError::IllegalArgument);
        }
        let value = if self.max_value == INDEFINITE && max_value == INDEFINITE {
            self.value
        } else if self.max_value == INDEFINITE || max_value == INDEFINITE {
            0
        } else if self.value <= max_value {
            self.value
        } else {
            max_value
        };
        self.max_value = max_value;
        self.value = value;
        Ok(
            if self.item.owner() == crate::item::ItemOwner::Unowned {
                None
            } else {
                Some(false)
            },
        )
    }

    /// `setValue`: a ranged gauge clamps the value into its range; an
    /// indefinite gauge refuses anything but its four states.
    pub fn set_value(&mut self, value: i32) -> (r: Result<Option<bool>, UiError>)
        requires
            gauge_wf(old(self)@),
        ensures
            gauge_wf(final(self)@),
            old(self)@.max_value == INDEFINITE && !is_indefinite_state(value as int) ==> r == Err::<
                Option<bool>,
                UiError,
            >(UiError::IllegalArgument) && final(self)@ == old(self)@,
            !(old(self)@.max_value == INDEFINITE && !is_indefinite_state(value as int)) ==> r == Ok::<
                Option<bool>,
                UiError,
            >(notice(old(self)@.item.owner, false)) && final(self)@ == (GaugeView {
                value: stored_value(old(self)@.max_value, value as int),
                ..old(self)@
            }),
    {
        if self.max_value == INDEFINITE && !(CONTINUOUS_IDLE <= value && value <= INCREMENTAL_UPDATING) {
            return Err(UiError::IllegalArgument);
        }
        self.value = Self::clamp_value(self.max_value, value);
        Ok(
            if self.item.owner() == crate::item::ItemOwner::Unowned {
                None
            } else {
                Some(false)
            },
        )
    }

    /// An interactive gauge takes focus; any gauge with commands does too.
    pub fn is_focusable(&self) -> (r: bool)
        ensures
            r == (self@.interactive || self@.item.commands.len() > 0),
    {
        self.interactive || self.item.is_focusable()
    }

    /// A key while the gauge has focus; see [`gauge_key`].
    pub fn handle_item_key(&mut self, key: i32) -> (r: ItemKeyResult)
        requires
            gauge_wf(old(self)@),
        ensures
            gauge_wf(final(self)@),
            (final(self)@, r) == gauge_key(old(self)@, key as int),
    {
        if !self.interactive || (key != KEY_LEFT && key != KEY_RIGHT) {
            return ItemKeyResult { flags: 0, invalidate: None };
        }
        let new_value = if key == KEY_LEFT {
            if self.value - 1 < 0 {
                0
            } else {
                self.value - 1
            }
        } else {
            if self.value >= self.max_value {
                self.max_value
            } else {
                self.value + 1
            }
        };
        if new_value == self.value {
            return ItemKeyResult { flags: INPUT_HANDLED, invalidate: None };
        }
        self.value = new_value;
        ItemKeyResult { flags: INPUT_HANDLED | INPUT_CHANGED, invalidate: Some(false) }
    }

    pub fn minimum_content_width(&self) -> (r: i32)
        ensures
            r == GAUGE_MINIMUM_WIDTH,
    {
        GAUGE_MINIMUM_WIDTH
    }

    pub fn minimum_content_height(&self) -> (r: i32)
        ensures
            r == GAUGE_HEIGHT,
    {
        GAUGE_HEIGHT
    }

    pub fn preferred_content_width(&self) -> (r: i32)
        ensures
            r == GAUGE_PREFERRED_WIDTH,
    {
        GAUGE_PREFERRED_WIDTH
    }

    /// The bar is one line high at every width.
    pub fn preferred_content_height(&self, width: i32) -> (r: i32)
        ensures
            r == GAUGE_HEIGHT,
    {
        GAUGE_HEIGHT
    }

    /// Where the bar and its filled part go in a `width` x `height` content
    /// area, or `None` when it has no room. A ranged gauge's fill never
    /// passes the end of the bar.
    pub fn track(&self, width: i32, height: i32) -> (r: Option<GaugeTrack>)
        requires
            gauge_wf(self@),
            self@.max_value <= 0 && self@.value == 3 ==> track_width_of(width as int) * 2
                <= i32::MAX,
        ensures
            match r {
                None => width <= 0 || height <= 0,
                Some(t) => {
                    let tx = if width >= 2 {
                        2
                    } else {
                        width as int
                    };
                    let tw = track_width_of(width as int);
                    let th = track_height_of(height as int);
                    &&& width > 0 && height > 0
                    &&& t.track_x == tx
                    &&& t.track_width == tw
                    &&& t.track_height == th
                    &&& t.track_y == (height - th) / 2
                    &&& (t.fill_x as int, t.fill_width as int) == fill_of(
                        self@.max_value,
                        self@.value,
                        tx,
                        tw,
                    )
                    &&& self@.max_value > 0 ==> 0 <= t.fill_width <= t.track_width
                },
            },
    {
        if width <= 0 || height <= 0 {
            return None;
        }
        let track_x = if width >= 2 {
            2
        } else {
            width
        };
        let track_width = if width - 4 >= 1 {
            width - 4
        } else {
            1
        };
        let track_height = if height >= 8 {
            8
        } else {
            height
        };
        let track_y = (height - track_height) / 2;
        let (fill_x, fill_width) = if self.max_value > 0 {
            assert(0 <= track_width as i64 * self.value as i64 <= 0x4000_0000_0000_0000) by (nonlinear_arith)
                requires
                    1 <= track_width <= i32::MAX,
                    0 <= self.value <= i32::MAX,
            ;
            let product = track_width as i64 * self.value as i64;
            let saturated = if product > i32::MAX as i64 {
                i32::MAX
            } else {
                product as i32
            };
            proof {
                lemma_fill_fits(track_width as int, self.value as int, self.max_value as int);
                assert(saturated == saturate(track_width * self.value));
            }
            (track_x, saturated / self.max_value)
        } else if self.value == 1 {
            (track_x, if track_width / 4 >= 1 { track_width / 4 } else { 1 })
        } else if self.value == 2 {
            (track_x + track_width / 3, if track_width / 3 >= 1 { track_width / 3 } else { 1 })
        } else if self.value == 3 {
            let f = track_width * 2 / 3;
            (track_x, if f >= 1 { f } else { 1 })
        } else {
            (track_x, 0)
        };
        Some(GaugeTrack { track_x, track_y, track_width, track_height, fill_x, fill_width })
    }
}

proof fn lemma_fill_fits(tw: int, value: int, max_value: int)
    requires
        1 <= tw <= i32::MAX,
        0 <= value <= max_value,
        max_value > 0,
    ensures
        0 <= saturate(tw * value) / max_value <= tw,
        0 <= tw * value,
{
    assert(0 <= tw * value <= tw * max_value) by (nonlinear_arith)
        requires
            1 <= tw,
            0 <= value <= max_value,
    ;
    let s = saturate(tw * value);
    assert(0 <= s <= tw * max_value);
    assert(s / max_value <= tw) by (nonlinear_arith)
        requires
            0 <= s <= tw * max_value,
            max_value > 0,
    ;
    assert(s / max_value >= 0) by (nonlinear_arith)
        requires
            0 <= s,
            max_value > 0,
    ;
}

} // verus!
