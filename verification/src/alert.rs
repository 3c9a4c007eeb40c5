//! `javax.microedition.lcdui.Alert`: a screen with an image, a text and an
//! activity indicator stacked in a scrolling column, which dismisses itself
//! after a timeout unless the user must act on it.
use vstd::prelude::*;

use crate::displayable::{decorated, displayable_wf, Displayable, DisplayableView};
use crate::errors::UiError;
use crate::event_queue::{KEY_DOWN, KEY_UP};
use crate::font::{opt_int, text_line_count, text_wf, MeasuredText, TextView, FONT_HEIGHT};
use crate::gauge::{gauge_wf, Gauge, GaugeView, GAUGE_HEIGHT};
use crate::geometry::{sat_add, sat_sub, saturate};
use crate::item::{max, min, ItemOwner, ItemView};

verus! {

/// The timeout of an alert that stays until the user dismisses it.
pub const FOREVER: i32 = -2;
pub const DEFAULT_TIMEOUT: i32 = 2000;
/// Vertical gap between the parts of an alert.
pub const CONTENT_GAP: i32 = 4;
/// The identifier of `Alert.DISMISS_COMMAND`, the command an alert offers
/// when it has none of its own.
pub const DISMISS_COMMAND: u64 = 0;

/// Where an alert's parts go in its scrolling column, from the top.
pub struct AlertContentLayout {
    pub image_width: i32,
    pub image_height: i32,
    pub text_lines: i32,
    pub text_y: i32,
    pub indicator_y: i32,
    pub indicator_height: i32,
    /// Height of the whole column.
    pub height: i32,
}

/// The abstract state of an alert.
pub struct AlertView {
    pub displayable: DisplayableView,
    pub text: TextView,
    pub image: Option<(i32, i32)>,
    pub indicator: Option<GaugeView>,
    pub timeout: int,
    pub scroll_y: int,
    /// What the display shows once the alert is dismissed.
    pub next: Option<u64>,
}

/// `javax.microedition.lcdui.Alert`. The image is known by its size; an
/// empty text means none.
pub struct Alert {
    pub displayable: Displayable,
    text: MeasuredText,
    image: Option<(i32, i32)>,
    indicator: Option<Gauge>,
    timeout: i32,
    scroll_y: i32,
    next: Option<u64>,
}

impl View for Alert {
    type V = AlertView;

    closed spec fn view(&self) -> AlertView {
        AlertView {
            displayable: self.displayable@,
            text: self.text@,
            image: self.image,
            indicator: match self.indicator {
                Some(g) => Some(g@),
                None => None,
            },
            timeout: self.timeout as int,
            scroll_y: self.scroll_y as int,
            next: self.next,
        }
    }
}

/// A gauge an alert can show as its indicator: one nobody else holds, that
/// the user cannot change, with no label, commands, listener, size locks or
/// layout of its own.
pub open spec fn indicator_acceptable(g: GaugeView) -> bool {
    &&& !g.interactive
    &&& g.item.owner == ItemOwner::Unowned
    &&& g.item.commands.len() == 0
    &&& !g.item.has_listener
    &&& g.item.label.chars.len() == 0
    &&& g.item.preferred_width == -1
    &&& g.item.preferred_height == -1
    &&& g.item.layout == 0
}

pub open spec fn valid_timeout(timeout: int) -> bool {
    timeout > 0 || timeout == FOREVER
}

pub open spec fn alert_wf(v: AlertView) -> bool {
    &&& displayable_wf(v.displayable)
    &&& text_wf(v.text)
    &&& valid_timeout(v.timeout)
    &&& i32::MIN <= v.scroll_y <= i32::MAX
    &&& (v.indicator matches Some(g) ==> gauge_wf(g) && indicator_acceptable(
        GaugeView { item: ItemView { owner: ItemOwner::Unowned, ..g.item }, ..g },
    ) && g.item.owner == ItemOwner::AlertIndicator)
}

/// How many lines the text takes at `width` (none without a text).
pub open spec fn alert_text_lines(v: AlertView, width: int) -> int {
    if v.text.chars.len() == 0 {
        0
    } else {
        text_line_count(v.text, Some(max(max(width, 0), 1)))
    }
}

/// A part of `height` stacked below `top`, with a gap when `top` is not
/// empty; the result is where the part starts and the new height.
pub open spec fn stack_part(top: int, height: int) -> (int, int) {
    if height == 0 {
        (top, top)
    } else {
        let start = if top > 0 {
            saturate(top + CONTENT_GAP)
        } else {
            top
        };
        (start, saturate(start + height))
    }
}

pub open spec fn alert_layout_of(v: AlertView, width: int) -> AlertContentLayout {
    let (iw, ih) = match v.image {
        Some((w, h)) => (max(w as int, 0), max(h as int, 0)),
        None => (0, 0),
    };
    let lines = alert_text_lines(v, width);
    let text = stack_part(ih, saturate(lines * FONT_HEIGHT));
    let indicator_height = if v.indicator is Some {
        GAUGE_HEIGHT as int
    } else {
        0
    };
    let indicator = stack_part(text.1, indicator_height);
    AlertContentLayout {
        image_width: iw as i32,
        image_height: ih as i32,
        text_lines: lines as i32,
        text_y: text.0 as i32,
        indicator_y: indicator.0 as i32,
        indicator_height: indicator_height as i32,
        height: indicator.1 as i32,
    }
}

/// How far the column can scroll in a viewport `viewport_height` high.
pub open spec fn maximum_scroll_of(content_height: int, viewport_height: int) -> int {
    max(saturate(content_height - max(viewport_height, 0)), 0)
}

/// The timeout that applies: an alert that scrolls, or that offers more
/// than one command, stays until dismissed.
pub open spec fn effective_timeout_of(v: AlertView, maximum_scroll: int) -> int {
    if maximum_scroll > 0 || v.displayable.commands.len() > 1 {
        FOREVER as int
    } else {
        v.timeout
    }
}

/// What dismissing an alert through a command does.
#[derive(Debug, Clone, Copy, PartialEq, Eq, Structural)]
pub enum AlertDispatch {
    /// Tell the command listener of this command.
    NotifyListener(u64),
    /// Show what comes after the alert (`None`: nothing).
    Transition(Option<u64>),
    /// The alert is not shown; nothing happens.
    Nothing,
}

/// The alert's scroll for a key, if the key scrolls it: UP and DOWN
/// pressed or repeated move by a viewport, within the column.
pub open spec fn scroll_key_of(
    scroll_y: int,
    pressed_or_repeated: bool,
    code: int,
    maximum_scroll: int,
    viewport_height: int,
) -> Option<int> {
    if pressed_or_repeated && (code == KEY_UP || code == KEY_DOWN) {
        let vh = max(viewport_height, 0);
        let scroll = if scroll_y < 0 {
            0
        } else if scroll_y > maximum_scroll {
            maximum_scroll
        } else {
            scroll_y
        };
        let step = max(vh, 1);
        let next = if code == KEY_UP {
            max(saturate(scroll - step), 0)
        } else {
            min(saturate(scroll + step), maximum_scroll)
        };
        if next != scroll {
            Some(next)
        } else {
            None
        }
    } else {
        None
    }
}

/// A scroll key moves the alert by one viewport (at least one pixel) and
/// no further: UP from a scrolled position moves up by the viewport's
/// height, or to the top when less than that remains; DOWN moves down by
/// it, or to the bottom when less remains. A key at the end it points to,
/// a release, or any other key does not scroll.
pub proof fn lemma_scroll_keys_move_one_page(
    scroll_y: int,
    pressed_or_repeated: bool,
    code: int,
    maximum_scroll: int,
    viewport_height: int,
)
    requires
        0 <= scroll_y <= maximum_scroll <= i32::MAX,
        i32::MIN <= viewport_height <= i32::MAX,
    ensures
        ({
            let step = if viewport_height < 1 { 1 } else { viewport_height };
            let r = scroll_key_of(scroll_y, pressed_or_repeated, code, maximum_scroll, viewport_height);
            &&& !pressed_or_repeated || (code != KEY_UP && code != KEY_DOWN) ==> r is None
            &&& pressed_or_repeated && code == KEY_UP ==> {
                &&& scroll_y == 0 ==> r is None
                &&& scroll_y > 0 ==> (r matches Some(next) && 0 <= next < scroll_y && scroll_y - next == min(
                    step,
                    scroll_y,
                ))
            }
            &&& pressed_or_repeated && code == KEY_DOWN ==> {
                &&& scroll_y == maximum_scroll ==> r is None
                &&& scroll_y < maximum_scroll ==> (r matches Some(next) && scroll_y < next <= maximum_scroll
                    && next - scroll_y == min(step, maximum_scroll - scroll_y))
            }
        }),
{
}

impl Alert {
    /// An alert with `title`, `text` and an image of `image` size, which
    /// dismisses itself after the default timeout.
    pub fn new(title: Option<MeasuredText>, text: MeasuredText, image: Option<(i32, i32)>) -> (r: Alert)
        requires
            title matches Some(t) ==> text_wf(t@),
            text_wf(text@),
        ensures
            alert_wf(r@),
            r@.displayable == (DisplayableView {
                title: match title {
                    Some(t) => Some(t@),
                    None => None::<TextView>,
                },
                ticker: None,
                commands: Seq::empty(),
                has_listener: false,
                attached: false,
                notified: None,
                size_dirty: true,
                size_notifying: false,
                menu_open: false,
                menu_index: -1,
                fullscreen: false,
            }),
            r@.text == text@,
            r@.image == image,
            r@.indicator is None,
            r@.timeout == DEFAULT_TIMEOUT,
            r@.scroll_y == 0,
            r@.next is None,
    {
        let mut displayable = Displayable::new();
        displayable.set_title(title);
        Alert { displayable, text, image, indicator: None, timeout: DEFAULT_TIMEOUT, scroll_y: 0, next: None }
    }

    pub fn get_default_timeout() -> (r: i32)
        ensures
            r == DEFAULT_TIMEOUT,
    {
        DEFAULT_TIMEOUT
    }

    /// The timeout last set.
    pub fn timeout(&self) -> (r: i32)
        ensures
            r == self@.timeout,
    {
        self.timeout
    }

    pub fn scroll_y(&self) -> (r: i32)
        ensures
            r == self@.scroll_y,
    {
        self.scroll_y
    }

    pub fn text(&self) -> (r: &MeasuredText)
        ensures
            r@ == self@.text,
    {
        &self.text
    }

    pub fn image(&self) -> (r: Option<(i32, i32)>)
        ensures
            r == self@.image,
    {
        self.image
    }

    pub fn indicator(&self) -> (r: Option<&Gauge>)
        ensures
            match r {
                Some(g) => self@.indicator == Some(g@),
                None => self@.indicator is None,
            },
    {
        match &self.indicator {
            Some(g) => Some(g),
            None => None,
        }
    }

    pub fn next(&self) -> (r: Option<u64>)
        ensures
            r == self@.next,
    {
        self.next
    }

    /// `setTimeout`: a timeout is positive or `FOREVER`; others are refused.
    pub fn set_timeout(&mut self, timeout: i32) -> (r: Result<(), UiError>)
        requires
            alert_wf(old(self)@),
        ensures
            alert_wf(final(self)@),
            valid_timeout(timeout as int) ==> r is Ok && final(self)@ == (AlertView {
                timeout: timeout as int,
                ..old(self)@
            }),
            !valid_timeout(timeout as int) ==> r == Err::<(), UiError>(UiError::IllegalArgument)
                && final(self)@ == old(self)@,
    {
        if timeout <= 0 && timeout != FOREVER {
            return Err(UiError::IllegalArgument);
        }
        self.timeout = timeout;
        Ok(())
    }

    /// `setString`.
    pub fn set_string(&mut self, text: MeasuredText)
        requires
            alert_wf(old(self)@),
            text_wf(text@),
        ensures
            alert_wf(final(self)@),
            final(self)@ == (AlertView { text: text@, ..old(self)@ }),
    {
        self.text = text;
    }

    /// `setImage`: shows a snapshot of an image of `image` size.
    pub fn set_image(&mut self, image: Option<(i32, i32)>)
        requires
            alert_wf(old(self)@),
        ensures
            alert_wf(final(self)@),
            final(self)@ == (AlertView { image, ..old(self)@ }),
    {
        self.image = image;
    }

    /// `setIndicator`: shows `indicator` as the activity indicator. A gauge
    /// that is not [`indicator_acceptable`] is refused and handed back; else
    /// the previous indicator is released and handed back.
    pub fn set_indicator(&mut self, indicator: Option<Gauge>) -> (r: (Result<(), UiError>, Option<Gauge>))
        requires
            alert_wf(old(self)@),
            indicator matches Some(g) ==> gauge_wf(g@),
        ensures
            alert_wf(final(self)@),
            match indicator {
                Some(g) => if indicator_acceptable(g@) {
                    &&& r.0 is Ok
                    &&& final(self)@.indicator == Some(
                        GaugeView { item: ItemView { owner: ItemOwner::AlertIndicator, ..g@.item }, ..g@ },
                    )
                    &&& released(old(self)@.indicator, r.1)
                    &&& final(self)@ == (AlertView { indicator: final(self)@.indicator, ..old(self)@ })
                } else {
                    &&& r.0 == Err::<(), UiError>(UiError::IllegalArgument)
                    &&& r.1 matches Some(h) && h@ == g@
                    &&& final(self)@ == old(self)@
                },
                None => {
                    &&& r.0 is Ok
                    &&& final(self)@ == (AlertView { indicator: None, ..old(self)@ })
                    &&& released(old(self)@.indicator, r.1)
                },
            },
    {
        if let Some(g) = &indicator {
            if !Self::acceptable(g) {
                return (Err(UiError::IllegalArgument), indicator);
            }
        }
        let new_indicator = match indicator {
            Some(mut g) => {
                g.set_owner(ItemOwner::AlertIndicator);
                Some(g)
            },
            None => None,
        };
        let old_indicator = self.indicator.take();
        self.indicator = new_indicator;
        let released = match old_indicator {
            Some(mut g) => {
                g.set_owner(ItemOwner::Unowned);
                Some(g)
            },
            None => None,
        };
        (Ok(()), released)
    }

    fn acceptable(g: &Gauge) -> (r: bool)
        ensures
            r == indicator_acceptable(g@),
    {
        let item = g.item();
        !g.is_interactive() && item.owner() == ItemOwner::Unowned && item.commands().len() == 0
            && !item.has_item_command_listener() && item.label().is_empty() && item.locked_width() == -1
            && item.locked_height() == -1 && item.layout() == 0
    }

    /// `addCommand`: the dismiss command is never added.
    pub fn add_command(&mut self, command: Option<u64>) -> (r: Result<bool, UiError>)
        requires
            alert_wf(old(self)@),
        ensures
            alert_wf(final(self)@),
            command is None ==> r == Err::<bool, UiError>(UiError::NullPointer) && final(self)@ == old(self)@,
            command == Some(DISMISS_COMMAND) ==> r == Ok::<bool, UiError>(false) && final(self)@ == old(self)@,
            command is Some && command != Some(DISMISS_COMMAND) ==> r == Ok::<bool, UiError>(
                !old(self)@.displayable.commands.contains(command->Some_0),
            ),
            r == Ok::<bool, UiError>(true) ==> final(self)@ == (AlertView {
                displayable: decorated(
                    DisplayableView {
                        commands: old(self)@.displayable.commands.push(command->Some_0),
                        ..old(self)@.displayable
                    },
                ),
                ..old(self)@
            }),
            r == Ok::<bool, UiError>(false) ==> final(self)@ == old(self)@,
    {
        if command == Some(DISMISS_COMMAND) {
            return Ok(false);
        }
        self.displayable.add_command(command)
    }

    /// `removeCommand`: the dismiss command is never removed.
    pub fn remove_command(&mut self, command: u64) -> (r: bool)
        requires
            alert_wf(old(self)@),
        ensures
            alert_wf(final(self)@),
            command == DISMISS_COMMAND ==> !r && final(self)@ == old(self)@,
            command != DISMISS_COMMAND ==> r == old(self)@.displayable.commands.contains(command)
                && (r ==> final(self)@ == (AlertView {
                displayable: decorated(
                    DisplayableView {
                        commands: old(self)@.displayable.commands.remove(
                            old(self)@.displayable.commands.index_of(command),
                        ),
                        ..old(self)@.displayable
                    },
                ),
                ..old(self)@
            })) && (!r ==> final(self)@ == old(self)@),
    {
        if command == DISMISS_COMMAND {
            return false;
        }
        self.displayable.remove_command(command)
    }

    /// `getCommandCount`: an alert without commands offers the dismiss command.
    pub fn command_count(&self) -> (r: usize)
        ensures
            r == if self@.displayable.commands.len() == 0 {
                1
            } else {
                self@.displayable.commands.len()
            },
    {
        let n = self.displayable.command_count();
        if n == 0 {
            1
        } else {
            n
        }
    }

    /// `getCommandAt`: the dismiss command when the alert has none of its own.
    pub fn command_at(&self, index: i32) -> (r: Result<u64, UiError>)
        ensures
            self@.displayable.commands.len() == 0 && index == 0 ==> r == Ok::<u64, UiError>(
                DISMISS_COMMAND,
            ),
            !(self@.displayable.commands.len() == 0 && index == 0) && 0 <= index
                < self@.displayable.commands.len() ==> r == Ok::<u64, UiError>(
                self@.displayable.commands[index as int],
            ),
            !(self@.displayable.commands.len() == 0 && index == 0) && !(0 <= index
                < self@.displayable.commands.len()) ==> r == Err::<u64, UiError>(
                UiError::IndexOutOfBounds,
            ),
    {
        if self.displayable.command_count() == 0 && index == 0 {
            return Ok(DISMISS_COMMAND);
        }
        self.displayable.command_at(index)
    }

    /// Records what the display shows once the alert is dismissed.
    pub fn set_next(&mut self, next: Option<u64>)
        requires
            alert_wf(old(self)@),
        ensures
            alert_wf(final(self)@),
            final(self)@ == (AlertView { next, ..old(self)@ }),
    {
        self.next = next;
    }

    /// `setDisplay`: an alert a display releases forgets what came next.
    pub fn set_display(&mut self, attached: bool)
        requires
            alert_wf(old(self)@),
        ensures
            alert_wf(final(self)@),
            final(self)@ == (AlertView {
                displayable: decorated(DisplayableView { attached, ..old(self)@.displayable }),
                next: if attached {
                    old(self)@.next
                } else {
                    None
                },
                ..old(self)@
            }),
    {
        if !attached {
            self.next = None;
        }
        self.displayable.set_display(attached);
    }

    /// `dispatchCommandAt`: the command listener is told of the command, if
    /// there is one; else the alert hands over to what comes next, when the
    /// display shows it (`is_current`). What came next is forgotten either way.
    pub fn dispatch_command_at(&mut self, index: i32, is_current: bool) -> (r: Result<
        AlertDispatch,
        UiError,
    >)
        requires
            alert_wf(old(self)@),
        ensures
            alert_wf(final(self)@),
            ({
                let v = old(self)@;
                let none_own = v.displayable.commands.len() == 0 && index == 0;
                let in_range = 0 <= index < v.displayable.commands.len();
                if !none_own && !in_range {
                    r == Err::<AlertDispatch, UiError>(UiError::IndexOutOfBounds) && final(self)@ == v
                } else {
                    let command = if none_own {
                        DISMISS_COMMAND
                    } else {
                        v.displayable.commands[index as int]
                    };
                    if v.displayable.has_listener {
                        r == Ok::<AlertDispatch, UiError>(AlertDispatch::NotifyListener(command))
                            && final(self)@ == v
                    } else {
                        &&& r == Ok::<AlertDispatch, UiError>(
                            if v.displayable.attached && is_current {
                                AlertDispatch::Transition(v.next)
                            } else {
                                AlertDispatch::Nothing
                            },
                        )
                        &&& final(self)@ == (AlertView { next: None, ..v })
                    }
                }
            }),
    {
        let command = self.command_at(index)?;
        if self.displayable.has_command_listener() {
            return Ok(AlertDispatch::NotifyListener(command));
        }
        let next = self.next;
        self.next = None;
        if self.displayable.is_attached() && is_current {
            Ok(AlertDispatch::Transition(next))
        } else {
            Ok(AlertDispatch::Nothing)
        }
    }

    /// The layout of the column at `width`: the image, then the text
    /// wrapped to the width, then the indicator, with gaps between parts
    /// that show; lengths saturate.
    pub fn content_layout(&self, width: i32) -> (r: AlertContentLayout)
        requires
            alert_wf(self@),
            alert_text_lines(self@, width as int) <= i32::MAX,
        ensures
            r == alert_layout_of(self@, width as int),
    {
        let (iw, ih) = match self.image {
            Some((w, h)) => (if w > 0 {
                w
            } else {
                0
            }, if h > 0 {
                h
            } else {
                0
            }),
            None => (0, 0),
        };
        let lines: i32 = if self.text.is_empty() {
            0
        } else {
            let w = if width > 1 {
                width
            } else {
                1
            };
            proof {
                assert(opt_int(Some(w)) == Some(max(max(width as int, 0), 1)));
            }
            self.text.line_count(Some(w)) as i32
        };
        let text_height = crate::geometry::saturate_exec(lines as i64 * FONT_HEIGHT as i64);
        let (text_y, after_text) = stack_part_exec(ih, text_height);
        let indicator_height = if self.indicator.is_some() {
            GAUGE_HEIGHT
        } else {
            0
        };
        let (indicator_y, height) = stack_part_exec(after_text, indicator_height);
        AlertContentLayout {
            image_width: iw,
            image_height: ih,
            text_lines: lines,
            text_y,
            indicator_y,
            indicator_height,
            height,
        }
    }

    /// How far the column can scroll.
    pub fn maximum_scroll(content_height: i32, viewport_height: i32) -> (r: i32)
        ensures
            r == maximum_scroll_of(content_height as int, viewport_height as int),
    {
        let vh = if viewport_height > 0 {
            viewport_height
        } else {
            0
        };
        let m = sat_sub(content_height, vh);
        if m > 0 {
            m
        } else {
            0
        }
    }

    /// `getTimeout`: keeps the scroll inside a column `content_height` high
    /// shown in `viewport_height`, and returns the timeout that applies.
    pub fn effective_timeout(&mut self, content_height: i32, viewport_height: i32) -> (r: i32)
        requires
            alert_wf(old(self)@),
        ensures
            alert_wf(final(self)@),
            ({
                let m = maximum_scroll_of(content_height as int, viewport_height as int);
                &&& r == effective_timeout_of(old(self)@, m)
                &&& final(self)@ == (AlertView {
                    scroll_y: if old(self)@.scroll_y < 0 {
                        0
                    } else if old(self)@.scroll_y > m {
                        m
                    } else {
                        old(self)@.scroll_y
                    },
                    ..old(self)@
                })
            }),
    {
        let m = Self::maximum_scroll(content_height, viewport_height);
        self.scroll_y = if self.scroll_y < 0 {
            0
        } else if self.scroll_y > m {
            m
        } else {
            self.scroll_y
        };
        if m > 0 || self.displayable.command_count() > 1 {
            FOREVER
        } else {
            self.timeout
        }
    }

    /// A key event on the alert: UP and DOWN scroll an overflowing column
    /// by a viewport (see [`scroll_key_of`]); returns `true` when it
    /// scrolled and must repaint, `false` when the key goes on to the
    /// displayable.
    pub fn handle_scroll_key(
        &mut self,
        event_type: i32,
        code: i32,
        content_height: i32,
        viewport_height: i32,
    ) -> (r: bool)
        requires
            alert_wf(old(self)@),
        ensures
            alert_wf(final(self)@),
            ({
                let m = maximum_scroll_of(content_height as int, viewport_height as int);
                let pr = event_type == 1 || event_type == 3;
                match scroll_key_of(old(self)@.scroll_y, pr, code as int, m, viewport_height as int) {
                    Some(next) => r && final(self)@ == (AlertView { scroll_y: next, ..old(self)@ }),
                    None => !r && final(self)@ == old(self)@,
                }
            }),
    {
        let pressed_or_repeated = event_type == 1 || event_type == 3;
        if !(pressed_or_repeated && (code == KEY_UP || code == KEY_DOWN)) {
            return false;
        }
        let vh = if viewport_height > 0 {
            viewport_height
        } else {
            0
        };
        let m = Self::maximum_scroll(content_height, viewport_height);
        let scroll = if self.scroll_y < 0 {
            0
        } else if self.scroll_y > m {
            m
        } else {
            self.scroll_y
        };
        let step = if vh > 1 {
            vh
        } else {
            1
        };
        let next = if code == KEY_UP {
            let s = sat_sub(scroll, step);
            if s > 0 {
                s
            } else {
                0
            }
        } else {
            let s = sat_add(scroll, step);
            if s < m {
                s
            } else {
                m
            }
        };
        if next != scroll {
            self.scroll_y = next;
            true
        } else {
            false
        }
    }

    /// Paint keeps the scroll inside the column; returns the scroll used.
    pub fn clamp_scroll(&mut self, content_height: i32, viewport_height: i32) -> (r: i32)
        requires
            alert_wf(old(self)@),
        ensures
            alert_wf(final(self)@),
            ({
                let m = maximum_scroll_of(content_height as int, viewport_height as int);
                &&& r == (if old(self)@.scroll_y < 0 {
                    0
                } else if old(self)@.scroll_y > m {
                    m
                } else {
                    old(self)@.scroll_y
                })
                &&& final(self)@ == (AlertView { scroll_y: r as int, ..old(self)@ })
            }),
    {
        let m = Self::maximum_scroll(content_height, viewport_height);
        self.scroll_y = if self.scroll_y < 0 {
            0
        } else if self.scroll_y > m {
            m
        } else {
            self.scroll_y
        };
        self.scroll_y
    }

    /// Where the image is drawn across a `width` wide alert: centered, or
    /// at the left edge when wider than the alert.
    pub fn image_x(width: i32, image_width: i32) -> (r: i32)
        requires
            width >= 0,
            image_width >= 0,
        ensures
            r == max(crate::geometry::half_toward_zero(width - image_width), 0),
    {
        let d = width - image_width;
        let half = if d >= 0 {
            d / 2
        } else {
            -((-d) / 2)
        };
        if half > 0 {
            half
        } else {
            0
        }
    }
}

/// Whether `r` hands back `old`, released by the alert.
pub open spec fn released(old: Option<GaugeView>, r: Option<Gauge>) -> bool {
    match old {
        Some(g) => r matches Some(h) && h@ == (GaugeView {
            item: ItemView { owner: ItemOwner::Unowned, ..g.item },
            ..g
        }),
        None => r is None,
    }
}

fn stack_part_exec(top: i32, height: i32) -> (r: (i32, i32))
    ensures
        (r.0 as int, r.1 as int) == stack_part(top as int, height as int),
{
    if height == 0 {
        (top, top)
    } else {
        let start = if top > 0 {
            sat_add(top, CONTENT_GAP)
        } else {
            top
        };
        (start, sat_add(start, height))
    }
}

/// A timeout that [`Alert::set_timeout`] accepted is a timeout the alert
/// keeps: reading it back gives it, unless the alert must stay.
pub proof fn lemma_set_timeout_reads_back(v: AlertView, timeout: int, maximum_scroll: int)
    requires
        valid_timeout(timeout),
        maximum_scroll <= 0,
        v.displayable.commands.len() <= 1,
    ensures
        effective_timeout_of(AlertView { timeout, ..v }, maximum_scroll) == timeout,
{
}

/// An alert that offers more than one command never times out.
pub proof fn lemma_choice_keeps_alert(v: AlertView, maximum_scroll: int)
    requires
        v.displayable.commands.len() > 1,
    ensures
        effective_timeout_of(v, maximum_scroll) == FOREVER,
{
}

} // verus!
