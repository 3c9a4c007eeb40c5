//! `javax.microedition.lcdui.Display`: which displayable the screen shows,
//! the title, ticker and softkey bands around it, and the timers of alerts
//! and tickers.
use vstd::prelude::*;

use crate::errors::UiError;
use crate::font::{opt_int, text_line_count, text_wf, MeasuredText, TextView, FONT_HEIGHT};
use crate::item::{max, min};
use crate::ticker::TITLE_HORIZONTAL_PADDING;

verus! {

pub const TITLE_VERTICAL_PADDING: i32 = 2;
pub const TICKER_HEIGHT: i32 = 16;
pub const TICKER_INTERVAL_MS: u64 = 100;
pub const SOFTKEY_HEIGHT: i32 = 18;

/// The bands of the screen: the title on top, the ticker below it, the
/// softkeys at the bottom, and the displayable's content between.
#[derive(Debug, Clone, Copy, PartialEq, Eq, Structural)]
pub struct ChromeLayout {
    pub content_x: i32,
    pub content_y: i32,
    pub content_width: i32,
    pub content_height: i32,
    pub title_height: i32,
    /// How many lines of title show.
    pub title_lines: i32,
    pub ticker_y: i32,
    pub ticker_height: i32,
    pub softkey_y: i32,
    pub softkey_height: i32,
}

/// How many lines a title takes on a screen `width` wide (0 without one).
pub open spec fn title_line_count(title: Option<TextView>, width: int) -> int {
    match title {
        None => 0,
        Some(t) => text_line_count(t, Some(max(max(width, 0) - 2 * TITLE_HORIZONTAL_PADDING, 1))),
    }
}

pub open spec fn chrome_layout_of(
    width: int,
    height: int,
    fullscreen: bool,
    command_count: int,
    has_ticker: bool,
    title_lines: int,
) -> ChromeLayout {
    let w = max(width, 0);
    let h = max(height, 0);
    if fullscreen {
        ChromeLayout {
            content_x: 0,
            content_y: 0,
            content_width: w as i32,
            content_height: h as i32,
            title_height: 0,
            title_lines: 0,
            ticker_y: 0,
            ticker_height: 0,
            softkey_y: h as i32,
            softkey_height: 0,
        }
    } else {
        let softkey = if command_count > 0 {
            min(SOFTKEY_HEIGHT as int, h)
        } else {
            0
        };
        let ticker = if has_ticker {
            min(TICKER_HEIGHT as int, max(h - softkey, 0))
        } else {
            0
        };
        let desired_title = if title_lines == 0 {
            0
        } else {
            title_lines * FONT_HEIGHT + 2 * TITLE_VERTICAL_PADDING
        };
        let title = min(desired_title, max(h - softkey - ticker, 0));
        let content_y = title + ticker;
        ChromeLayout {
            content_x: 0,
            content_y: content_y as i32,
            content_width: w as i32,
            content_height: max(h - content_y - softkey, 0) as i32,
            title_height: title as i32,
            title_lines: title_lines as i32,
            ticker_y: title as i32,
            ticker_height: ticker as i32,
            softkey_y: (h - softkey) as i32,
            softkey_height: softkey as i32,
        }
    }
}

/// What one paint of the screen does.
#[derive(Debug, Clone, Copy, PartialEq, Eq, Structural)]
pub struct ScreenPaintPlan {
    /// The displayable painted inside its bands, or `None` when the whole
    /// screen is cleared to white.
    pub displayable: Option<u64>,
    /// Whether the picture is handed to the screen afterwards.
    pub present: bool,
}

/// The abstract state of a display.
pub struct DisplayView {
    pub width: int,
    pub height: int,
    pub current: Option<(u64, bool)>,
    pub fullscreen: bool,
    pub repaint_pending: bool,
    pub paint_disabled: bool,
    /// Changes whenever the alert shown or its timing may have changed; a
    /// timer of an older generation is stale.
    pub alert_generation: i32,
    /// The same for the ticker shown.
    pub ticker_generation: i32,
}

/// `javax.microedition.lcdui.Display`. Displayables are named by identifiers.
pub struct Display {
    width: i32,
    height: i32,
    current: Option<(u64, bool)>,
    fullscreen: bool,
    repaint_pending: bool,
    paint_disabled: bool,
    alert_generation: i32,
    ticker_generation: i32,
}

impl View for Display {
    type V = DisplayView;

    closed spec fn view(&self) -> DisplayView {
        DisplayView {
            width: self.width as int,
            height: self.height as int,
            current: self.current,
            fullscreen: self.fullscreen,
            repaint_pending: self.repaint_pending,
            paint_disabled: self.paint_disabled,
            alert_generation: self.alert_generation,
            ticker_generation: self.ticker_generation,
        }
    }
}

/// The next generation: one more, wrapping around.
pub open spec fn next_generation(g: i32) -> i32 {
    if g == i32::MAX {
        i32::MIN
    } else {
        (g + 1) as i32
    }
}

/// What the display does on a transition to another displayable.
#[derive(Debug, Clone, Copy, PartialEq, Eq, Structural)]
pub struct TransitionPlan {
    /// The displayable the display releases, if any.
    pub detach: Option<u64>,
    /// The displayable the display takes, if it was not shown already.
    pub attach: Option<u64>,
    /// The generations a new alert timer and ticker tick are scheduled with.
    pub alert_generation: i32,
    pub ticker_generation: i32,
}

pub open spec fn transition_of(
    v: DisplayView,
    next: Option<(u64, bool)>,
    next_fullscreen: bool,
) -> (DisplayView, TransitionPlan) {
    let same = match (v.current, next) {
        (Some((a, _)), Some((b, _))) => a == b,
        _ => false,
    };
    let ag = next_generation(v.alert_generation);
    let tg = next_generation(v.ticker_generation);
    let detach = match v.current {
        Some((a, _)) => if same {
            None
        } else {
            Some(a)
        },
        None => None,
    };
    let attach = match next {
        Some((b, _)) => if same {
            None
        } else {
            Some(b)
        },
        None => None,
    };
    (
        DisplayView {
            current: next,
            fullscreen: next is Some && next_fullscreen,
            repaint_pending: true,
            alert_generation: ag,
            ticker_generation: tg,
            ..v
        },
        TransitionPlan { detach, attach, alert_generation: ag, ticker_generation: tg },
    )
}

impl Display {
    /// A display of a `width` x `height` screen showing nothing.
    pub fn new(width: i32, height: i32) -> (r: Display)
        ensures
            r@ == (DisplayView {
                width: width as int,
                height: height as int,
                current: None,
                fullscreen: false,
                repaint_pending: false,
                paint_disabled: false,
                alert_generation: 0,
                ticker_generation: 0,
            }),
    {
        Display {
            width,
            height,
            current: None,
            fullscreen: false,
            repaint_pending: false,
            paint_disabled: false,
            alert_generation: 0,
            ticker_generation: 0,
        }
    }

    pub fn get_width(&self) -> (r: i32)
        ensures
            r == self@.width,
    {
        self.width
    }

    pub fn get_height(&self) -> (r: i32)
        ensures
            r == self@.height,
    {
        self.height
    }

    /// The displayable shown, if any.
    pub fn get_current(&self) -> (r: Option<(u64, bool)>)
        ensures
            r == self@.current,
    {
        self.current
    }

    pub fn alert_generation(&self) -> (r: i32)
        ensures
            r == self@.alert_generation,
    {
        self.alert_generation
    }

    pub fn ticker_generation(&self) -> (r: i32)
        ensures
            r == self@.ticker_generation,
    {
        self.ticker_generation
    }

    pub fn is_repaint_pending(&self) -> (r: bool)
        ensures
            r == self@.repaint_pending,
    {
        self.repaint_pending
    }

    pub fn is_full_screen(&self) -> (r: bool)
        ensures
            r == self@.fullscreen,
    {
        self.fullscreen
    }

    /// The bands of a `width` x `height` screen showing a displayable that
    /// wants the whole screen (`fullscreen`) or has `command_count`
    /// commands, a ticker or not, and `title`.
    pub fn chrome_layout(
        width: i32,
        height: i32,
        fullscreen: bool,
        command_count: i32,
        has_ticker: bool,
        title: Option<&MeasuredText>,
    ) -> (r: ChromeLayout)
        requires
            title matches Some(t) ==> text_wf(t@),
            ({
                let n = title_line_count(
                    match title {
                        Some(t) => Some(t@),
                        None => None,
                    },
                    width as int,
                );
                n * FONT_HEIGHT + 2 * TITLE_VERTICAL_PADDING <= i32::MAX
            }),
        ensures
            r == chrome_layout_of(
                width as int,
                height as int,
                fullscreen,
                command_count as int,
                has_ticker,
                if fullscreen {
                    0
                } else {
                    title_line_count(
                        match title {
                            Some(t) => Some(t@),
                            None => None,
                        },
                        width as int,
                    )
                },
            ),
    {
        let w = if width > 0 {
            width
        } else {
            0
        };
        let h = if height > 0 {
            height
        } else {
            0
        };
        if fullscreen {
            return ChromeLayout {
                content_x: 0,
                content_y: 0,
                content_width: w,
                content_height: h,
                title_height: 0,
                title_lines: 0,
                ticker_y: 0,
                ticker_height: 0,
                softkey_y: h,
                softkey_height: 0,
            };
        }
        let lines: i32 = match title {
            None => 0,
            Some(t) => {
                let wrap = if w - 2 * TITLE_HORIZONTAL_PADDING > 1 {
                    w - 2 * TITLE_HORIZONTAL_PADDING
                } else {
                    1
                };
                proof {
                    assert(opt_int(Some(wrap)) == Some(
                        max(max(width as int, 0) - 2 * TITLE_HORIZONTAL_PADDING, 1),
                    ));
                }
                t.line_count(Some(wrap)) as i32
            },
        };
        let softkey = if command_count > 0 {
            if SOFTKEY_HEIGHT <= h {
                SOFTKEY_HEIGHT
            } else {
                h
            }
        } else {
            0
        };
        let ticker = if has_ticker {
            let room = h - softkey;
            if TICKER_HEIGHT <= room {
                TICKER_HEIGHT
            } else {
                room
            }
        } else {
            0
        };
        let desired_title = if lines == 0 {
            0
        } else {
            lines * FONT_HEIGHT + 2 * TITLE_VERTICAL_PADDING
        };
        let room = h - softkey - ticker;
        let title_height = if desired_title <= room {
            desired_title
        } else {
            room
        };
        let content_y = title_height + ticker;
        ChromeLayout {
            content_x: 0,
            content_y,
            content_width: w,
            content_height: h - content_y - softkey,
            title_height,
            title_lines: lines,
            ticker_y: title_height,
            ticker_height: ticker,
            softkey_y: h - softkey,
            softkey_height: softkey,
        }
    }

    /// `setCurrent`: shows `next` (nothing happens for `None`). An alert
    /// cannot follow an alert; when `next` is an alert, it is given the
    /// displayable shown now as what comes after it, returned as `Some`.
    pub fn set_current(&mut self, next: Option<(u64, bool)>, next_fullscreen: bool) -> (r: Result<
        (Option<Option<u64>>, Option<TransitionPlan>),
        UiError,
    >)
        ensures
            match next {
                None => r == Ok::<(Option<Option<u64>>, Option<TransitionPlan>), UiError>((None, None))
                    && final(self)@ == old(self)@,
                Some((id, is_alert)) => {
                    let current_is_alert = old(self)@.current matches Some((_, a)) && a;
                    if is_alert && current_is_alert {
                        r == Err::<(Option<Option<u64>>, Option<TransitionPlan>), UiError>(
                            UiError::IllegalArgument,
                        ) && final(self)@ == old(self)@
                    } else {
                        let (v, plan) = transition_of(old(self)@, next, next_fullscreen);
                        &&& final(self)@ == v
                        &&& r == Ok::<(Option<Option<u64>>, Option<TransitionPlan>), UiError>(
                            (
                                if is_alert {
                                    Some(
                                        match old(self)@.current {
                                            Some((c, _)) => Some(c),
                                            None => None,
                                        },
                                    )
                                } else {
                                    None
                                },
                                Some(plan),
                            ),
                        )
                    }
                },
            },
    {
        let (id, is_alert) = match next {
            None => return Ok((None, None)),
            Some(n) => n,
        };
        let current_is_alert = match self.current {
            Some((_, a)) => a,
            None => false,
        };
        if is_alert && current_is_alert {
            return Err(UiError::IllegalArgument);
        }
        let previous = match self.current {
            Some((c, _)) => Some(c),
            None => None,
        };
        let plan = self.transition(next, next_fullscreen);
        Ok((
            if is_alert {
                Some(previous)
            } else {
                None
            },
            Some(plan),
        ))
    }

    /// `setCurrent(alert, next)`: shows `alert`, after which `next` is
    /// shown. Both must be given, and `next` cannot be an alert.
    pub fn set_current_alert(
        &mut self,
        alert: Option<u64>,
        next: Option<(u64, bool)>,
        alert_fullscreen: bool,
    ) -> (r: Result<TransitionPlan, UiError>)
        ensures
            match (alert, next) {
                (Some(id), Some((_, next_is_alert))) => if next_is_alert {
                    r == Err::<TransitionPlan, UiError>(UiError::IllegalArgument) && final(self)@
                        == old(self)@
                } else {
                    let (v, plan) = transition_of(old(self)@, Some((id, true)), alert_fullscreen);
                    final(self)@ == v && r == Ok::<TransitionPlan, UiError>(plan)
                },
                _ => r == Err::<TransitionPlan, UiError>(UiError::NullPointer) && final(self)@
                    == old(self)@,
            },
    {
        let (id, next) = match (alert, next) {
            (Some(a), Some(n)) => (a, n),
            _ => return Err(UiError::NullPointer),
        };
        if next.1 {
            return Err(UiError::IllegalArgument);
        }
        Ok(self.transition(Some((id, true)), alert_fullscreen))
    }

    /// Shows `next` (or nothing): both generations move on, so timers of
    /// the previous displayable go stale; a displayable shown already is
    /// neither released nor taken again.
    pub fn transition(&mut self, next: Option<(u64, bool)>, next_fullscreen: bool) -> (r: TransitionPlan)
        ensures
            (final(self)@, r) == transition_of(old(self)@, next, next_fullscreen),
    {
        let ag = self.alert_generation.wrapping_add(1);
        let tg = self.ticker_generation.wrapping_add(1);
        self.alert_generation = ag;
        self.ticker_generation = tg;
        let same = match (self.current, next) {
            (Some((a, _)), Some((b, _))) => a == b,
            _ => false,
        };
        let detach = match self.current {
            Some((a, _)) => if same {
                None
            } else {
                Some(a)
            },
            None => None,
        };
        let attach = match next {
            Some((b, _)) => if same {
                None
            } else {
                Some(b)
            },
            None => None,
        };
        self.current = next;
        self.fullscreen = next.is_some() && next_fullscreen;
        self.repaint_pending = true;
        TransitionPlan { detach, attach, alert_generation: ag, ticker_generation: tg }
    }

    /// The alert shown changed: its timer is rescheduled with the returned
    /// generation.
    pub fn alert_changed(&mut self) -> (r: i32)
        ensures
            r == next_generation(old(self)@.alert_generation),
            final(self)@ == (DisplayView { alert_generation: r, ..old(self)@ }),
    {
        self.alert_generation = self.alert_generation.wrapping_add(1);
        self.alert_generation
    }

    /// The ticker shown changed: its ticks are rescheduled with the
    /// returned generation.
    pub fn ticker_changed(&mut self) -> (r: i32)
        ensures
            r == next_generation(old(self)@.ticker_generation),
            final(self)@ == (DisplayView { ticker_generation: r, ..old(self)@ }),
    {
        self.ticker_generation = self.ticker_generation.wrapping_add(1);
        self.ticker_generation
    }

    /// When an alert timer of `generation` fires: only when the generation
    /// is current, an alert attached to this display is shown
    /// (`alert_attached`), and its timeout is positive; `now + timeout`.
    pub fn alert_timer_due(&self, generation: i32, alert_attached: bool, now: u64, timeout: i32) -> (r:
        Option<u64>)
        requires
            timeout > 0 ==> now + timeout <= u64::MAX,
        ensures
            r == (if generation == self@.alert_generation && (self@.current matches Some((_, a))
                && a) && alert_attached && timeout > 0 {
                Some((now + timeout) as u64)
            } else {
                None
            }),
    {
        let current_is_alert = match self.current {
            Some((_, a)) => a,
            None => false,
        };
        if generation == self.alert_generation && current_is_alert && alert_attached && timeout > 0 {
            Some(now + timeout as u64)
        } else {
            None
        }
    }

    /// An alert timer of `generation` fired: whether the alert shown is
    /// dismissed through its first command. A stale timer does nothing.
    pub fn handle_alert_timeout(&self, generation: i32, alert_attached: bool) -> (r: bool)
        ensures
            r == (generation == self@.alert_generation && (self@.current matches Some((_, a)) && a)
                && alert_attached),
    {
        let current_is_alert = match self.current {
            Some((_, a)) => a,
            None => false,
        };
        generation == self.alert_generation && current_is_alert && alert_attached
    }

    /// When the ticker tick of `generation` is due: only when the
    /// generation is current and a ticker with text shows.
    pub fn ticker_tick_due(&self, generation: i32, ticker_visible: bool, text_empty: bool, now: u64) -> (r:
        Option<u64>)
        requires
            now + TICKER_INTERVAL_MS <= u64::MAX,
        ensures
            r == (if generation == self@.ticker_generation && ticker_visible && !text_empty {
                Some((now + TICKER_INTERVAL_MS) as u64)
            } else {
                None
            }),
    {
        if generation == self.ticker_generation && ticker_visible && !text_empty {
            Some(now + TICKER_INTERVAL_MS)
        } else {
            None
        }
    }

    /// A ticker tick of `generation` fired: whether the visible ticker
    /// advances. A stale tick does nothing.
    pub fn handle_ticker_tick(&self, generation: i32, ticker_visible: bool) -> (r: bool)
        ensures
            r == (generation == self@.ticker_generation && ticker_visible),
    {
        generation == self.ticker_generation && ticker_visible
    }

    /// Whether the shown displayable's ticker shows: it must be attached to
    /// this display and its layout must leave the ticker room.
    pub fn ticker_visible(&self, attached_here: bool, layout: &ChromeLayout) -> (r: bool)
        ensures
            r == (self@.current is Some && attached_here && layout.ticker_height != 0
                && layout.content_width != 0),
    {
        self.current.is_some() && attached_here && layout.ticker_height != 0 && layout.content_width != 0
    }

    /// `repaint`: a paint is due.
    pub fn repaint(&mut self)
        ensures
            final(self)@ == (DisplayView { repaint_pending: true, ..old(self)@ }),
    {
        self.repaint_pending = true;
    }

    /// `serviceRepaints`: whether a paint runs now.
    pub fn service_repaints(&self) -> (r: bool)
        ensures
            r == self@.repaint_pending,
    {
        self.repaint_pending
    }

    /// A paint starts: repaints asked for while it runs are for the next
    /// one. Says what is painted and whether the picture is shown.
    pub fn begin_paint(&mut self) -> (r: ScreenPaintPlan)
        ensures
            final(self)@ == (DisplayView { repaint_pending: false, ..old(self)@ }),
            r.displayable == match old(self)@.current {
                Some((id, _)) => Some(id),
                None => None::<u64>,
            },
            r.present == !old(self)@.paint_disabled,
    {
        self.repaint_pending = false;
        let displayable = match self.current {
            Some((id, _)) => Some(id),
            None => None,
        };
        ScreenPaintPlan { displayable, present: !self.paint_disabled }
    }

    /// Programs that draw the screen themselves turn painting off.
    pub fn disable_paint(&mut self)
        ensures
            final(self)@ == (DisplayView { paint_disabled: true, ..old(self)@ }),
    {
        self.paint_disabled = true;
    }

    /// `setFullscreen`: the ticker's ticks are rescheduled with the
    /// returned generation.
    pub fn set_fullscreen(&mut self, fullscreen: bool) -> (r: i32)
        ensures
            r == next_generation(old(self)@.ticker_generation),
            final(self)@ == (DisplayView { fullscreen, ticker_generation: r, ..old(self)@ }),
    {
        self.fullscreen = fullscreen;
        self.ticker_changed()
    }
}

/// The bands of a screen that is not taken whole add up to its height:
/// title, ticker, content and softkeys follow each other with no gap and
/// no overlap, none of them negative.
pub proof fn lemma_chrome_bands_partition(
    width: int,
    height: int,
    command_count: int,
    has_ticker: bool,
    title_lines: int,
)
    requires
        i32::MIN <= width <= i32::MAX,
        i32::MIN <= height <= i32::MAX,
        title_lines >= 0,
        title_lines * FONT_HEIGHT + 2 * TITLE_VERTICAL_PADDING <= i32::MAX,
    ensures
        ({
            let l = chrome_layout_of(width, height, false, command_count, has_ticker, title_lines);
            &&& l.title_height >= 0 && l.ticker_height >= 0 && l.content_height >= 0
                && l.softkey_height >= 0
            &&& l.ticker_y == l.title_height
            &&& l.content_y == l.ticker_y + l.ticker_height
            &&& l.softkey_y == l.content_y + l.content_height
            &&& l.softkey_y + l.softkey_height == max(height, 0)
        }),
{
}

/// A title, a ticker or commands only take room from the content: a
/// screen with them never has taller content than one without, strictly
/// shorter while the content without them has any room, and a screen taken
/// whole gives its content all of it.
pub proof fn lemma_bands_shrink_content(
    width: int,
    height: int,
    command_count: int,
    has_ticker: bool,
    title_lines: int,
)
    requires
        i32::MIN <= width <= i32::MAX,
        i32::MIN <= height <= i32::MAX,
        title_lines >= 0,
        title_lines * FONT_HEIGHT + 2 * TITLE_VERTICAL_PADDING <= i32::MAX,
    ensures
        ({
            let with = chrome_layout_of(width, height, false, command_count, has_ticker, title_lines);
            &&& with.content_height <= chrome_layout_of(width, height, false, 0, has_ticker, title_lines).content_height
            &&& with.content_height <= chrome_layout_of(width, height, false, command_count, false, title_lines).content_height
            &&& with.content_height <= chrome_layout_of(width, height, false, command_count, has_ticker, 0).content_height
            &&& chrome_layout_of(width, height, false, 0, false, 0).content_height == max(height, 0)
            &&& chrome_layout_of(width, height, true, command_count, has_ticker, title_lines).content_height
                == max(height, 0)
            &&& with.content_height <= max(height, 0)
            &&& command_count > 0 && chrome_layout_of(width, height, false, 0, has_ticker, title_lines).content_height > 0
                ==> with.content_height < chrome_layout_of(width, height, false, 0, has_ticker, title_lines).content_height
            &&& has_ticker && chrome_layout_of(width, height, false, command_count, false, title_lines).content_height > 0
                ==> with.content_height < chrome_layout_of(width, height, false, command_count, false, title_lines).content_height
            &&& title_lines > 0 && chrome_layout_of(width, height, false, command_count, has_ticker, 0).content_height > 0
                ==> with.content_height < chrome_layout_of(width, height, false, command_count, has_ticker, 0).content_height
        }),
{
}

/// More title lines never give taller content, and, while the content has
/// any room, strictly shorter content.
pub proof fn lemma_more_title_lines_shrink_content(
    width: int,
    height: int,
    command_count: int,
    has_ticker: bool,
    fewer: int,
    more: int,
)
    requires
        i32::MIN <= width <= i32::MAX,
        i32::MIN <= height <= i32::MAX,
        0 <= fewer <= more,
        more * FONT_HEIGHT + 2 * TITLE_VERTICAL_PADDING <= i32::MAX,
    ensures
        ({
            let a = chrome_layout_of(width, height, false, command_count, has_ticker, fewer).content_height;
            let b = chrome_layout_of(width, height, false, command_count, has_ticker, more).content_height;
            &&& b <= a
            &&& fewer < more && a > 0 ==> b < a
        }),
{
}

/// A change of generation makes every timer scheduled before it stale.
pub proof fn lemma_new_generation_differs(g: i32)
    ensures
        next_generation(g) != g,
{
}

/// After a transition, a timer of the generation before it does nothing.
pub proof fn lemma_transition_stales_timers(
    v: DisplayView,
    next: Option<(u64, bool)>,
    next_fullscreen: bool,
)
    ensures
        transition_of(v, next, next_fullscreen).0.alert_generation != v.alert_generation,
        transition_of(v, next, next_fullscreen).0.ticker_generation != v.ticker_generation,
{
}

} // verus!
