//! The geometry of a `ChoiceGroup`: how wide and high its rows are, which
//! rows show, and where the focused row lies.
use vstd::prelude::*;

use crate::choice_group::{
    choice_wf, first_selected, ChoiceGroup, ChoiceGroupView, POPUP, TEXT_WRAP_OFF,
};
use crate::font::{
    lemma_line_count_at_most_chars, opt_int, text_line_count, text_minimum_width, text_preferred_width,
    text_wf, MeasuredText,
};
use crate::geometry::{half_toward_zero, half_toward_zero_exec};
use crate::item::{fits_i32, max, min};

verus! {

/// Side of the selection mark.
pub const INDICATOR_SIZE: i32 = 10;
/// Gap between the selection mark and the element.
pub const CONTROL_GAP: i32 = 4;
/// Gap between an element's image and its text.
pub const IMAGE_TEXT_GAP: i32 = 3;
/// Room above and below each row.
pub const ROW_VERTICAL_INSET: i32 = 1;
/// Room inside a popup's border.
pub const POPUP_INSET: i32 = 2;

/// The colour behind the highlighted row.
pub const HIGHLIGHT_BACKGROUND: i32 = 0xdcecf7;
/// The colour of selection marks and of the popup arrow.
pub const CONTROL_COLOR: i32 = 0x596773;
/// The colour that fills the mark of a selected element.
pub const SELECTED_COLOR: i32 = 0x2f7eb8;
/// The colour of element text.
pub const TEXT_COLOR: i32 = 0x17212b;

/// What an element of a choice shows, measured: its text in its font, the
/// size of its image (0 x 0 without one), and the height of its font.
pub struct ElementContent {
    pub text: MeasuredText,
    pub image_width: i32,
    pub image_height: i32,
    pub font_height: i32,
}

pub open spec fn content_wf(c: ElementContent) -> bool {
    &&& text_wf(c.text@)
    &&& 0 <= c.image_width
    &&& 0 <= c.image_height
    &&& 1 <= c.font_height
    &&& (c.image_width == 0) == (c.image_height == 0)
}

pub open spec fn gap_after_image(c: ElementContent) -> int {
    if c.image_width > 0 && c.text@.chars.len() > 0 {
        IMAGE_TEXT_GAP as int
    } else {
        0
    }
}

/// Width of an element's image and text, for a text `text_width` wide.
pub open spec fn image_and_text_width(c: ElementContent, text_width: int) -> int {
    c.image_width + gap_after_image(c) + text_width
}

/// The narrowest an element's text can be: its widest character, or its
/// widest line when the fit policy forbids wrapping.
pub open spec fn element_minimum_text_width(c: ElementContent, fit_policy: int) -> int {
    if fit_policy == TEXT_WRAP_OFF {
        text_preferred_width(c.text@)
    } else {
        text_minimum_width(c.text@)
    }
}

/// Where an element's text wraps in a row `width` wide.
pub open spec fn element_wrap(c: ElementContent, width: int, fit_policy: int) -> Option<int> {
    if fit_policy != TEXT_WRAP_OFF {
        Some(max(width - INDICATOR_SIZE - CONTROL_GAP - image_and_text_width(c, 0), 1))
    } else {
        None
    }
}

/// A row's height: its lines, its image or the mark, whichever is highest,
/// with room above and below.
pub open spec fn row_height_for(c: ElementContent, lines: int) -> int {
    max(max(lines * c.font_height, c.image_height as int), INDICATOR_SIZE as int) + 2
        * ROW_VERTICAL_INSET
}

pub open spec fn row_height(c: ElementContent, width: int, fit_policy: int) -> int {
    row_height_for(c, text_line_count(c.text@, element_wrap(c, width, fit_policy)))
}

/// The height of rows `from..to` laid out `width` wide; with `width`
/// `None`, each row takes one line per paragraph.
pub open spec fn rows_height(
    cs: Seq<ElementContent>,
    from: int,
    to: int,
    width: Option<int>,
    fit_policy: int,
) -> int
    decreases to - from,
{
    if to <= from {
        0
    } else {
        rows_height(cs, from, to - 1, width, fit_policy) + match width {
            Some(w) => row_height(cs[to - 1], w, fit_policy),
            None => row_height_for(cs[to - 1], text_line_count(cs[to - 1].text@, None)),
        }
    }
}

/// The widest of the first `n` rows, with the narrowest (`minimum`) or the
/// unwrapped text of each.
pub open spec fn widest_row(cs: Seq<ElementContent>, n: int, fit_policy: int, minimum: bool) -> int
    decreases n,
{
    if n <= 0 {
        0
    } else {
        let c = cs[n - 1];
        let text = if minimum {
            element_minimum_text_width(c, fit_policy)
        } else {
            text_preferred_width(c.text@)
        };
        max(
            widest_row(cs, n - 1, fit_policy, minimum),
            INDICATOR_SIZE + CONTROL_GAP + image_and_text_width(c, text),
        )
    }
}

/// Room a popup's border takes on each axis.
pub open spec fn popup_insets(v: ChoiceGroupView) -> int {
    if v.choice_type == POPUP {
        2 * POPUP_INSET
    } else {
        0
    }
}

/// The rows that show: only the selected one in a closed popup, else all.
pub open spec fn shown_rows(v: ChoiceGroupView) -> (int, int) {
    if v.choice_type == POPUP && !v.popup_open {
        (first_selected(v.selected), first_selected(v.selected) + 1)
    } else {
        (0, v.selected.len() as int)
    }
}

/// The content sizes of a choice group with `cs` for its elements fit an
/// `i32`.
pub open spec fn choice_sizes_fit(v: ChoiceGroupView, cs: Seq<ElementContent>) -> bool {
    &&& cs.len() == v.selected.len()
    &&& forall|i: int| 0 <= i < cs.len() ==> #[trigger] content_wf(cs[i])
    &&& forall|i: int|
        0 <= i < cs.len() ==> INDICATOR_SIZE + CONTROL_GAP + image_and_text_width(
            #[trigger] cs[i],
            max(
                element_minimum_text_width(cs[i], v.fit_policy),
                text_preferred_width(cs[i].text@),
            ),
        ) + 2 * POPUP_INSET <= i32::MAX
    &&& forall|i: int|
        0 <= i < cs.len() ==> INDICATOR_SIZE + CONTROL_GAP + image_and_text_width(#[trigger] cs[i], 0)
            + 2 * POPUP_INSET <= i32::MAX
    &&& forall|i: int|
        0 <= i < cs.len() ==> element_minimum_text_width(#[trigger] cs[i], v.fit_policy) >= 0
            && text_preferred_width(cs[i].text@) >= 0
}

pub proof fn lemma_rows_height_grows(
    cs: Seq<ElementContent>,
    from: int,
    a: int,
    b: int,
    width: Option<int>,
    fit_policy: int,
)
    requires
        from <= a <= b,
    ensures
        0 <= rows_height(cs, from, a, width, fit_policy) <= rows_height(cs, from, b, width, fit_policy),
        a < b ==> rows_height(cs, from, a + 1, width, fit_policy) <= rows_height(cs, from, b, width, fit_policy),
    decreases b - from,
{
    if b > from {
        if a < b {
            lemma_rows_height_grows(cs, from, a, b - 1, width, fit_policy);
        }
        lemma_rows_height_grows(cs, from, from, b - 1, width, fit_policy);
    }
}

impl ChoiceGroup {
    fn text_width_of(c: &ElementContent, fit_policy: i32, minimum: bool) -> (r: i32)
        requires
            content_wf(*c),
        ensures
            r == if minimum {
                element_minimum_text_width(*c, fit_policy as int)
            } else {
                text_preferred_width(c.text@)
            },
    {
        if minimum && fit_policy != TEXT_WRAP_OFF {
            c.text.minimum_width()
        } else {
            c.text.preferred_width()
        }
    }

    fn image_gap(c: &ElementContent) -> (r: i32)
        requires
            content_wf(*c),
        ensures
            r == gap_after_image(*c),
    {
        if c.image_width > 0 && !c.text.is_empty() {
            IMAGE_TEXT_GAP
        } else {
            0
        }
    }

    fn widest(&self, elements: &Vec<ElementContent>, minimum: bool) -> (r: i32)
        requires
            choice_wf(self@),
            choice_sizes_fit(self@, elements@),
        ensures
            r == widest_row(elements@, elements@.len() as int, self@.fit_policy, minimum),
            0 <= r <= i32::MAX - 2 * POPUP_INSET,
    {
        let fit = self.get_fit_policy();
        let mut width: i32 = 0;
        let mut i: usize = 0;
        while i < elements.len()
            invariant
                choice_wf(self@),
                choice_sizes_fit(self@, elements@),
                fit == self@.fit_policy,
                i <= elements@.len(),
                width == widest_row(elements@, i as int, self@.fit_policy, minimum),
                0 <= width <= i32::MAX - 2 * POPUP_INSET,
            decreases elements@.len() - i,
        {
            let c = &elements[i];
            proof {
                assert(content_wf(elements@[i as int]));
                let _ = image_and_text_width(elements@[i as int], 0);
            }
            let text = Self::text_width_of(c, fit, minimum);
            let row = INDICATOR_SIZE + CONTROL_GAP + c.image_width + Self::image_gap(c) + text;
            if row > width {
                width = row;
            }
            i += 1;
        }
        width
    }

    /// The least width of the content: its widest row, with each text as
    /// narrow as the fit policy lets it be.
    pub fn minimum_content_width(&self, elements: &Vec<ElementContent>) -> (r: i32)
        requires
            choice_wf(self@),
            choice_sizes_fit(self@, elements@),
        ensures
            r == if elements@.len() == 0 {
                0
            } else {
                widest_row(elements@, elements@.len() as int, self@.fit_policy, true) + popup_insets(self@)
            },
    {
        if elements.len() == 0 {
            return 0;
        }
        let w = self.widest(elements, true);
        w + if self.choice_type() == POPUP {
            2 * POPUP_INSET
        } else {
            0
        }
    }

    /// The width the content asks for: its widest row with unwrapped text.
    pub fn preferred_content_width(&self, elements: &Vec<ElementContent>) -> (r: i32)
        requires
            choice_wf(self@),
            choice_sizes_fit(self@, elements@),
        ensures
            r == if elements@.len() == 0 {
                0
            } else {
                widest_row(elements@, elements@.len() as int, self@.fit_policy, false) + popup_insets(self@)
            },
    {
        if elements.len() == 0 {
            return 0;
        }
        let w = self.widest(elements, false);
        w + if self.choice_type() == POPUP {
            2 * POPUP_INSET
        } else {
            0
        }
    }

    fn row_height_exec(c: &ElementContent, wrap: Option<i32>, Ghost(bound): Ghost<int>) -> (r: i32)
        requires
            content_wf(*c),
            row_height_for(*c, text_line_count(c.text@, opt_int(wrap))) <= bound <= i32::MAX,
        ensures
            r == row_height_for(*c, text_line_count(c.text@, opt_int(wrap))),
    {
        let lines = c.text.line_count(wrap);
        proof {
            let l = text_line_count(c.text@, opt_int(wrap));
            assert(l * c.font_height <= i32::MAX);
            assert(l <= l * c.font_height) by (nonlinear_arith)
                requires
                    l >= 0,
                    c.font_height >= 1,
            ;
        }
        let text = (lines as i32) * c.font_height;
        let tallest = if text >= c.image_height {
            text
        } else {
            c.image_height
        };
        (if tallest >= INDICATOR_SIZE {
            tallest
        } else {
            INDICATOR_SIZE
        }) + 2 * ROW_VERTICAL_INSET
    }

    /// The height of rows `from..to`; see [`rows_height`].
    fn sum_rows(
        &self,
        elements: &Vec<ElementContent>,
        from: usize,
        to: usize,
        width: Option<i32>,
    ) -> (r: i32)
        requires
            choice_wf(self@),
            choice_sizes_fit(self@, elements@),
            from <= to <= elements@.len(),
            rows_height(elements@, from as int, to as int, opt_int(width), self@.fit_policy) <= i32::MAX,
        ensures
            r == rows_height(elements@, from as int, to as int, opt_int(width), self@.fit_policy),
    {
        let fit = self.get_fit_policy();
        let ghost total = rows_height(elements@, from as int, to as int, opt_int(width), self@.fit_policy);
        let mut sum: i32 = 0;
        let mut i: usize = from;
        while i < to
            invariant
                choice_wf(self@),
                choice_sizes_fit(self@, elements@),
                fit == self@.fit_policy,
                from <= i <= to <= elements@.len(),
                total == rows_height(elements@, from as int, to as int, opt_int(width), self@.fit_policy),
                total <= i32::MAX,
                sum == rows_height(elements@, from as int, i as int, opt_int(width), self@.fit_policy),
            decreases to - i,
        {
            proof {
                lemma_rows_height_grows(elements@, from as int, i as int, to as int, opt_int(width), fit as int);
                assert(content_wf(elements@[i as int]));
            }
            let c = &elements[i];
            let wrap = match width {
                Some(w) => {
                    if fit != TEXT_WRAP_OFF {
                        proof {
                            let _ = image_and_text_width(elements@[i as int], 0);
                        }
                        let base = INDICATOR_SIZE + CONTROL_GAP + c.image_width + Self::image_gap(c);
                        let t = w as i64 - base as i64;
                        Some(
                            if t >= 1 {
                                t as i32
                            } else {
                                1
                            },
                        )
                    } else {
                        None
                    }
                },
                None => None,
            };
            proof {
                match width {
                    Some(w) => assert(opt_int(wrap) == element_wrap(
                        elements@[i as int],
                        w as int,
                        fit as int,
                    )),
                    None => assert(opt_int(wrap) == None::<int>),
                }
            }
            let row = Self::row_height_exec(c, wrap, Ghost(total));
            sum = sum + row;
            i += 1;
        }
        sum
    }

    /// The least height of the content: the rows that show, one line per
    /// paragraph.
    pub fn minimum_content_height(&self, elements: &Vec<ElementContent>) -> (r: i32)
        requires
            choice_wf(self@),
            choice_sizes_fit(self@, elements@),
            ({
                let (from, to) = shown_rows(self@);
                rows_height(elements@, from, to, None, self@.fit_policy) + popup_insets(self@) <= i32::MAX
            }),
        ensures
            ({
                let (from, to) = shown_rows(self@);
                r == if elements@.len() == 0 {
                    0
                } else {
                    rows_height(elements@, from, to, None, self@.fit_policy) + popup_insets(self@)
                }
            }),
    {
        if elements.len() == 0 {
            return 0;
        }
        let (from, to) = self.shown_range();
        let rows = self.sum_rows(elements, from, to, None);
        rows + if self.choice_type() == POPUP {
            2 * POPUP_INSET
        } else {
            0
        }
    }

    /// The content's height laid out `width` wide: the rows that show,
    /// wrapped to the row width inside the popup border.
    pub fn preferred_content_height(&self, elements: &Vec<ElementContent>, width: i32) -> (r: i32)
        requires
            choice_wf(self@),
            choice_sizes_fit(self@, elements@),
            ({
                let (from, to) = shown_rows(self@);
                rows_height(
                    elements@,
                    from,
                    to,
                    Some(max(width - popup_insets(self@), 0)),
                    self@.fit_policy,
                ) + popup_insets(self@) <= i32::MAX
            }),
        ensures
            ({
                let (from, to) = shown_rows(self@);
                r == if elements@.len() == 0 {
                    0
                } else {
                    rows_height(
                        elements@,
                        from,
                        to,
                        Some(max(width - popup_insets(self@), 0)),
                        self@.fit_policy,
                    ) + popup_insets(self@)
                }
            }),
    {
        if elements.len() == 0 {
            return 0;
        }
        let (from, to) = self.shown_range();
        let insets = if self.choice_type() == POPUP {
            2 * POPUP_INSET
        } else {
            0
        };
        let row_width = if width > insets {
            width - insets
        } else {
            0
        };
        let rows = self.sum_rows(elements, from, to, Some(row_width));
        rows + insets
    }

    /// The rows that show; see [`shown_rows`].
    pub fn shown_range(&self) -> (r: (usize, usize))
        requires
            choice_wf(self@),
            self@.selected.len() > 0,
        ensures
            r.0 as int == shown_rows(self@).0,
            r.1 as int == shown_rows(self@).1,
            r.0 < r.1 <= self@.selected.len(),
    {
        if self.choice_type() == POPUP && !self.is_popup_open() {
            let s = self.get_selected_index();
            proof {
                crate::choice_group::lemma_exclusive_choice_selects_exactly_one(self@);
            }
            (s as usize, s as usize + 1)
        } else {
            (0, self.size() as usize)
        }
    }

    /// The span `[top, bottom)` of the content that must show when the
    /// choice group has focus: the highlighted row, or the selected row of
    /// a closed popup; `None` when nothing is highlighted.
    pub fn focus_content_bounds(&self, elements: &Vec<ElementContent>, width: i32) -> (r: Option<(i32, i32)>)
        requires
            choice_wf(self@),
            choice_sizes_fit(self@, elements@),
            self@.selected.len() > 0 ==> ({
                let closed = self@.choice_type == POPUP && !self@.popup_open;
                let active = if closed {
                    first_selected(self@.selected)
                } else {
                    self@.highlighted_index
                };
                let from = if closed {
                    active
                } else {
                    0
                };
                rows_height(
                    elements@,
                    from,
                    active + 1,
                    Some(max(width - popup_insets(self@), 0)),
                    self@.fit_policy,
                ) + popup_insets(self@) <= i32::MAX
            }),
        ensures
            self@.highlighted_index < 0 ==> r is None,
            self@.highlighted_index >= 0 ==> ({
                let closed = self@.choice_type == POPUP && !self@.popup_open;
                let active = if closed {
                    first_selected(self@.selected)
                } else {
                    self@.highlighted_index
                };
                let from = if closed {
                    active
                } else {
                    0
                };
                let inset = popup_insets(self@) / 2;
                let w = Some(max(width - popup_insets(self@), 0));
                r == Some(
                    (
                        (inset + rows_height(elements@, from, active, w, self@.fit_policy)) as i32,
                        (inset + rows_height(elements@, from, active + 1, w, self@.fit_policy)) as i32,
                    ),
                )
            }),
    {
        let highlighted = self.highlighted_index();
        if highlighted < 0 {
            return None;
        }
        let closed = self.choice_type() == POPUP && !self.is_popup_open();
        let active = if closed {
            let s = self.get_selected_index();
            proof {
                crate::choice_group::lemma_exclusive_choice_selects_exactly_one(self@);
            }
            s as usize
        } else {
            highlighted as usize
        };
        let from = if closed {
            active
        } else {
            0
        };
        let inset = if self.choice_type() == POPUP {
            POPUP_INSET
        } else {
            0
        };
        let row_width = if width > 2 * inset {
            width - 2 * inset
        } else {
            0
        };
        proof {
            lemma_rows_height_grows(
                elements@,
                from as int,
                active as int,
                active as int + 1,
                Some(row_width as int),
                self@.fit_policy,
            );
        }
        let top = self.sum_rows(elements, from, active, Some(row_width));
        let bottom = self.sum_rows(elements, from, active + 1, Some(row_width));
        Some((inset + top, inset + bottom))
    }
}

/// A rectangle filled with one colour.
#[derive(Debug, Clone, Copy, PartialEq, Eq, Structural)]
pub struct Fill {
    pub color: i32,
    pub x: i32,
    pub y: i32,
    pub width: i32,
    pub height: i32,
}

/// The selection mark of a row: the outline of a box in a multiple choice
/// (`drawRect`), of a circle in the others (`drawArc` over 360 degrees),
/// `size` wide and high at `(x, y)` in [`CONTROL_COLOR`]; when the element
/// is selected, a smaller box or circle inside it in [`SELECTED_COLOR`].
#[derive(Debug, Clone, Copy, PartialEq, Eq, Structural)]
pub struct Mark {
    pub is_box: bool,
    pub x: i32,
    pub y: i32,
    pub size: i32,
    pub color: i32,
    pub filled: bool,
    /// The selected element's inner mark.
    pub fill: Option<Fill>,
}

/// The selection mark at `(x, y)`.
pub open spec fn mark_of(is_box: bool, x: int, y: int, selected: bool) -> Mark {
    let inset = if is_box { 2int } else { 3int };
    Mark {
        is_box,
        x: x as i32,
        y: y as i32,
        size: (INDICATOR_SIZE - 1) as i32,
        color: CONTROL_COLOR,
        filled: selected,
        fill: if selected {
            Some(
                Fill {
                    color: SELECTED_COLOR,
                    x: (x + inset) as i32,
                    y: (y + inset) as i32,
                    width: (INDICATOR_SIZE - 2 * inset) as i32,
                    height: (INDICATOR_SIZE - 2 * inset) as i32,
                },
            )
        } else {
            None
        },
    }
}

/// Where the parts of one row go, relative to the content's top left
/// corner, in the order they are drawn: the highlight, the mark or the
/// arrow, the image, then the text lines.
#[derive(Debug, Clone, Copy, PartialEq, Eq)]
pub struct RowPaint {
    pub index: i32,
    pub x: i32,
    pub y: i32,
    pub width: i32,
    pub height: i32,
    /// The row's background is highlighted.
    pub highlighted: bool,
    /// The highlight: the whole row in [`HIGHLIGHT_BACKGROUND`].
    pub background: Option<Fill>,
    /// The selection mark, left of the element (not in a closed popup).
    pub mark: Option<Mark>,
    /// The tip of the arrow at the right of a closed popup, drawn in
    /// [`CONTROL_COLOR`] as two lines from three pixels left and right and
    /// two up.
    pub arrow: Option<(i32, i32)>,
    /// The image's top left corner, when the element has an image.
    pub image: Option<(i32, i32)>,
    pub text_x: i32,
    pub text_y: i32,
    /// Where the text wraps (`None`: it does not).
    pub text_wrap: Option<i32>,
    /// How many text lines are drawn, one font height apart from
    /// `text_y` down, in [`TEXT_COLOR`].
    pub text_lines: i32,
}

/// The left edge of an element's text in a row at `row_x`: after the mark
/// (not in a closed popup), the image and the gap behind it.
pub open spec fn element_text_x(c: ElementContent, row_x: int, closed: bool) -> int {
    let content_x0 = row_x + if !closed {
        INDICATOR_SIZE + CONTROL_GAP
    } else {
        0
    };
    if c.image_width > 0 && c.image_height > 0 {
        content_x0 + c.image_width + gap_after_image(c)
    } else {
        content_x0
    }
}

/// Where an element's text wraps when painted in a row at `row_x`,
/// `row_width` wide: at the room left of the arrow of a closed popup.
pub open spec fn element_text_wrap(
    c: ElementContent,
    row_x: int,
    row_width: int,
    fit_policy: int,
    closed: bool,
) -> Option<int> {
    let available_right = row_x + row_width - if closed {
        INDICATOR_SIZE + CONTROL_GAP
    } else {
        0
    };
    if fit_policy != TEXT_WRAP_OFF {
        Some(max(available_right - element_text_x(c, row_x, closed), 1))
    } else {
        None
    }
}

/// How high an element's text lines stack when painted.
pub open spec fn element_text_height(
    c: ElementContent,
    row_x: int,
    row_width: int,
    fit_policy: int,
    closed: bool,
) -> int {
    text_line_count(c.text@, element_text_wrap(c, row_x, row_width, fit_policy, closed)) * c.font_height
}

/// The top of line `k` of lines stacked from `top`, `line_height` apart.
pub open spec fn line_top(top: int, k: int, line_height: int) -> int {
    top + k * line_height
}

/// How many of `n` lines, the first with its top at `top` and each next one
/// `line_height` lower, are drawn above `bottom`: drawing stops at the
/// first line whose top is at or below it.
pub open spec fn lines_drawn(n: int, top: int, bottom: int, line_height: int) -> int
    decreases n,
{
    if n <= 0 || top >= bottom {
        0
    } else {
        1 + lines_drawn(n - 1, top + line_height, bottom, line_height)
    }
}

/// The lines drawn all have their tops above `bottom`; drawing stops only
/// at the last line or at one whose top is not above it; and when every
/// line starts above `bottom`, all of them are drawn.
pub proof fn lemma_lines_drawn(n: int, top: int, bottom: int, line_height: int)
    requires
        n >= 0,
        line_height >= 1,
    ensures
        0 <= lines_drawn(n, top, bottom, line_height) <= n,
        lines_drawn(n, top, bottom, line_height) > 0 ==> top + (lines_drawn(n, top, bottom, line_height) - 1)
            * line_height < bottom,
        lines_drawn(n, top, bottom, line_height) < n ==> top + lines_drawn(n, top, bottom, line_height)
            * line_height >= bottom,
        n > 0 && top + (n - 1) * line_height < bottom ==> lines_drawn(n, top, bottom, line_height) == n,
        forall|k: int|
            0 <= k < lines_drawn(n, top, bottom, line_height) ==> #[trigger] line_top(top, k, line_height) < bottom,
    decreases n,
{
    lemma_lines_drawn_bounds(n, top, bottom, line_height);
    let d = lines_drawn(n, top, bottom, line_height);
    assert forall|k: int| 0 <= k < d implies #[trigger] line_top(top, k, line_height) < bottom by {
        assert(k * line_height <= (d - 1) * line_height) by (nonlinear_arith)
            requires
                k <= d - 1,
                line_height >= 1,
        ;
    }
}

proof fn lemma_lines_drawn_bounds(n: int, top: int, bottom: int, line_height: int)
    requires
        n >= 0,
        line_height >= 1,
    ensures
        0 <= lines_drawn(n, top, bottom, line_height) <= n,
        lines_drawn(n, top, bottom, line_height) > 0 ==> top + (lines_drawn(n, top, bottom, line_height) - 1)
            * line_height < bottom,
        lines_drawn(n, top, bottom, line_height) < n ==> top + lines_drawn(n, top, bottom, line_height)
            * line_height >= bottom,
        n > 0 && top + (n - 1) * line_height < bottom ==> lines_drawn(n, top, bottom, line_height) == n,
    decreases n,
{
    if n > 0 && top < bottom {
        lemma_lines_drawn_bounds(n - 1, top + line_height, bottom, line_height);
        let d = lines_drawn(n - 1, top + line_height, bottom, line_height);
        assert(top + line_height + (d - 1) * line_height == top + d * line_height) by (nonlinear_arith);
        assert(top + line_height + d * line_height == top + (d + 1) * line_height) by (nonlinear_arith);
        assert(top + line_height + (n - 1 - 1) * line_height == top + (n - 1) * line_height) by (nonlinear_arith);
    } else if n > 0 {
        assert(top + (n - 1) * line_height >= top) by (nonlinear_arith)
            requires
                n >= 1,
                line_height >= 1,
        ;
    }
}

/// Where a row `row_height` high at `(row_x, row_y)` and `row_width` wide
/// puts its parts. Halves of negative lengths are rounded toward zero.
pub open spec fn row_paint_of(
    c: ElementContent,
    index: int,
    row_x: int,
    row_y: int,
    row_width: int,
    row_height: int,
    choice_type: int,
    fit_policy: int,
    selected: bool,
    highlighted: bool,
    closed: bool,
) -> RowPaint {
    let content_x0 = row_x + if !closed {
        INDICATOR_SIZE + CONTROL_GAP
    } else {
        0
    };
    let has_image = c.image_width > 0 && c.image_height > 0;
    let text_wrap = element_text_wrap(c, row_x, row_width, fit_policy, closed);
    let lines = text_line_count(c.text@, text_wrap);
    let text_y = row_y + half_toward_zero(row_height - lines * c.font_height);
    RowPaint {
        index: index as i32,
        x: row_x as i32,
        y: row_y as i32,
        width: row_width as i32,
        height: row_height as i32,
        highlighted,
        background: if highlighted {
            Some(
                Fill {
                    color: HIGHLIGHT_BACKGROUND,
                    x: row_x as i32,
                    y: row_y as i32,
                    width: max(row_width, 0) as i32,
                    height: max(row_height, 0) as i32,
                },
            )
        } else {
            None
        },
        mark: if !closed {
            Some(
                mark_of(
                    choice_type == crate::choice_group::MULTIPLE,
                    row_x,
                    row_y + half_toward_zero(row_height - INDICATOR_SIZE),
                    selected,
                ),
            )
        } else {
            None
        },
        arrow: if closed {
            Some(
                (
                    (row_x + row_width - INDICATOR_SIZE / 2 - 1) as i32,
                    (row_y + half_toward_zero(row_height)) as i32,
                ),
            )
        } else {
            None
        },
        image: if has_image {
            Some((content_x0 as i32, (row_y + half_toward_zero(row_height - c.image_height)) as i32))
        } else {
            None
        },
        text_x: element_text_x(c, row_x, closed) as i32,
        text_y: text_y as i32,
        text_wrap: match text_wrap {
            Some(w) => Some(w as i32),
            None => None,
        },
        text_lines: lines_drawn(lines, text_y, row_y + row_height, c.font_height as int) as i32,
    }
}

/// Every value a row painted at `(row_x, row_y)`, `row_width` x
/// `row_height`, computes fits an `i32`.
pub open spec fn row_paint_fits(
    c: ElementContent,
    row_x: int,
    row_y: int,
    row_width: int,
    row_height: int,
    fit_policy: int,
    closed: bool,
) -> bool {
    let text_height = element_text_height(c, row_x, row_width, fit_policy, closed);
    &&& fits_i32(row_x + INDICATOR_SIZE + CONTROL_GAP)
    &&& fits_i32(element_text_x(c, row_x, closed))
    &&& (element_text_wrap(c, row_x, row_width, fit_policy, closed) matches Some(w) ==> fits_i32(w))
    &&& fits_i32(text_height)
    &&& fits_i32(row_y + half_toward_zero(row_height - text_height))
    &&& !closed ==> fits_i32(row_y + half_toward_zero(row_height - INDICATOR_SIZE)) && fits_i32(
        row_y + half_toward_zero(row_height - INDICATOR_SIZE) + 3,
    )
    &&& closed ==> fits_i32(row_x + row_width - INDICATOR_SIZE / 2 - 1) && fits_i32(
        row_y + half_toward_zero(row_height),
    )
    &&& c.image_width > 0 && c.image_height > 0 ==> fits_i32(row_y + half_toward_zero(row_height - c.image_height))
}

impl ChoiceGroup {
    /// Where each row that shows is painted in a content area `width` x
    /// `height`, from the top; nothing when the area or the choice is empty.
    /// A popup draws its rows inside its border. Every text line of a row
    /// lies inside the row, so none is drawn at or below its bottom.
    pub fn paint_rows(&self, elements: &Vec<ElementContent>, width: i32, height: i32, focused: bool) -> (r: Vec<
        RowPaint,
    >)
        requires
            choice_wf(self@),
            choice_sizes_fit(self@, elements@),
            0 <= width <= i32::MAX - 2 * POPUP_INSET,
            ({
                let (from, to) = shown_rows(self@);
                rows_height(
                    elements@,
                    from,
                    to,
                    Some(max(width - popup_insets(self@), 0)),
                    self@.fit_policy,
                ) + popup_insets(self@) <= i32::MAX
            }),
        ensures
            (width <= 0 || height <= 0 || elements@.len() == 0) ==> r@.len() == 0,
            !(width <= 0 || height <= 0 || elements@.len() == 0) ==> ({
                let v = self@;
                let (from, to) = shown_rows(v);
                let inset = popup_insets(v) / 2;
                let row_width = max(width - popup_insets(v), 0);
                let closed = v.choice_type == POPUP && !v.popup_open;
                &&& r@.len() == to - from
                &&& forall|k: int|
                    0 <= k < r@.len() ==> #[trigger] r@[k] == row_paint_of(
                        elements@[from + k],
                        from + k,
                        inset,
                        inset + rows_height(elements@, from, from + k, Some(row_width), v.fit_policy),
                        row_width,
                        row_height(elements@[from + k], row_width, v.fit_policy),
                        v.choice_type,
                        v.fit_policy,
                        v.selected[from + k],
                        from + k == v.highlighted_index && (focused || v.popup_open),
                        closed,
                    )
                &&& forall|k: int|
                    0 <= k < r@.len() ==> (#[trigger] r@[k]).y <= r@[k].text_y && r@[k].text_y + r@[k].text_lines
                        * elements@[from + k].font_height <= r@[k].y + r@[k].height
            }),
    {
        let mut rows: Vec<RowPaint> = Vec::new();
        if width <= 0 || height <= 0 || elements.len() == 0 {
            return rows;
        }
        let (from, to) = self.shown_range();
        let popup = self.choice_type() == POPUP;
        let inset = if popup {
            POPUP_INSET
        } else {
            0
        };
        let row_width = if width > 2 * inset {
            width - 2 * inset
        } else {
            0
        };
        let closed = popup && !self.is_popup_open();
        let highlighted = self.highlighted_index();
        let open = self.is_popup_open();
        let fit = self.get_fit_policy();
        let ghost total = rows_height(elements@, from as int, to as int, Some(row_width as int), self@.fit_policy);
        let mut row_y: i32 = inset;
        let mut i: usize = from;
        while i < to
            invariant
                choice_wf(self@),
                choice_sizes_fit(self@, elements@),
                from as int == shown_rows(self@).0,
                to as int == shown_rows(self@).1,
                from <= i <= to <= elements@.len(),
                fit == self@.fit_policy,
                inset == popup_insets(self@) / 2,
                0 <= inset <= 2,
                row_width == max(width - popup_insets(self@), 0),
                0 <= row_width <= width,
                0 <= width <= i32::MAX - 2 * POPUP_INSET,
                closed == (self@.choice_type == POPUP && !self@.popup_open),
                highlighted == self@.highlighted_index,
                open == self@.popup_open,
                total == rows_height(elements@, from as int, to as int, Some(row_width as int), self@.fit_policy),
                total + 2 * inset <= i32::MAX,
                row_y == inset + rows_height(elements@, from as int, i as int, Some(row_width as int), fit as int),
                rows@.len() == i - from,
                forall|k: int|
                    0 <= k < rows@.len() ==> #[trigger] rows@[k] == row_paint_of(
                        elements@[from + k],
                        from + k,
                        inset as int,
                        inset + rows_height(elements@, from as int, from + k, Some(row_width as int), fit as int),
                        row_width as int,
                        row_height(elements@[from + k], row_width as int, fit as int),
                        self@.choice_type,
                        fit as int,
                        self@.selected[from + k],
                        from + k == self@.highlighted_index && (focused || self@.popup_open),
                        closed,
                    ),
                forall|k: int|
                    0 <= k < rows@.len() ==> (#[trigger] rows@[k]).y <= rows@[k].text_y && rows@[k].text_y
                        + rows@[k].text_lines * elements@[from + k].font_height <= rows@[k].y + rows@[k].height,
            decreases to - i,
        {
            proof {
                lemma_rows_height_grows(elements@, from as int, i as int, to as int, Some(row_width as int), fit as int);
                assert(content_wf(elements@[i as int]));
                let _ = image_and_text_width(elements@[i as int], 0);
            }
            proof {
                assert(rows_height(elements@, i as int, i as int + 1, Some(row_width as int), fit as int)
                    == row_height(elements@[i as int], row_width as int, fit as int)) by {
                    assert(rows_height(elements@, i as int, i as int, Some(row_width as int), fit as int) == 0);
                }
                assert(rows_height(elements@, from as int, i as int + 1, Some(row_width as int), fit as int)
                    == rows_height(elements@, from as int, i as int, Some(row_width as int), fit as int)
                    + row_height(elements@[i as int], row_width as int, fit as int));
            }
            let row_h = self.sum_rows(elements, i, i + 1, Some(row_width));
            let c = &elements[i];
            let selected = match self.is_selected(i as i32) {
                Ok(s) => s,
                Err(_) => false,
            };
            proof {
                Self::lemma_row_fits(c, inset as int, row_y as int, row_width as int, row_h as int, fit as int, closed);
            }
            let paint = Self::paint_element(c, i as i32, inset, row_y, row_width, row_h, self.choice_type(), fit,
                selected, i as i32 == highlighted && (focused || open), closed);
            rows.push(paint);
            row_y = row_y + row_h;
            i += 1;
        }
        rows
    }

    /// A row that [`paint_rows`](ChoiceGroup::paint_rows) lays out fits:
    /// its text lines lie inside it and every value it computes fits.
    proof fn lemma_row_fits(
        c: &ElementContent,
        row_x: int,
        row_y: int,
        row_width: int,
        row_h: int,
        fit_policy: int,
        closed: bool,
    )
        requires
            content_wf(*c),
            0 <= row_x <= 2,
            0 <= row_width <= i32::MAX - 4,
            0 <= row_y,
            row_y + row_h <= i32::MAX,
            row_h == row_height(*c, row_width, fit_policy),
            INDICATOR_SIZE + CONTROL_GAP + image_and_text_width(*c, 0) + 2 * POPUP_INSET <= i32::MAX,
        ensures
            row_paint_fits(*c, row_x, row_y, row_width, row_h, fit_policy, closed),
            element_text_wrap(*c, row_x, row_width, fit_policy, closed) == element_wrap(*c, row_width, fit_policy),
            0 <= element_text_height(*c, row_x, row_width, fit_policy, closed) <= row_h - 2,
    {
        let n = text_line_count(c.text@, element_wrap(*c, row_width, fit_policy));
        lemma_line_count_at_most_chars(c.text@, element_wrap(*c, row_width, fit_policy));
        assert(0 <= n * c.font_height) by (nonlinear_arith)
            requires
                n >= 0,
                c.font_height >= 1,
        ;
        if c.image_width > 0 && c.image_height > 0 {
        } else {
            assert(c.image_width == 0);
        }
    }

    /// What painting an element in a row at `(x, y)`, `width` x `height`,
    /// draws; see [`row_paint_of`]. Whatever the row's height, every text
    /// line drawn has its top above the row's bottom: drawing stops at the
    /// first line that would start at or below it.
    pub fn paint_element(
        c: &ElementContent,
        index: i32,
        x: i32,
        y: i32,
        width: i32,
        height: i32,
        choice_type: i32,
        fit_policy: i32,
        selected: bool,
        highlighted: bool,
        popup_closed: bool,
    ) -> (r: RowPaint)
        requires
            content_wf(*c),
            row_paint_fits(*c, x as int, y as int, width as int, height as int, fit_policy as int, popup_closed),
        ensures
            r == row_paint_of(
                *c,
                index as int,
                x as int,
                y as int,
                width as int,
                height as int,
                choice_type as int,
                fit_policy as int,
                selected,
                highlighted,
                popup_closed,
            ),
            0 <= r.text_lines <= text_line_count(
                c.text@,
                element_text_wrap(*c, x as int, width as int, fit_policy as int, popup_closed),
            ),
            forall|k: int|
                0 <= k < r.text_lines ==> #[trigger] line_top(r.text_y as int, k, c.font_height as int) < r.y
                    + r.height,
            element_text_height(*c, x as int, width as int, fit_policy as int, popup_closed) <= height ==> {
                &&& r.text_lines == text_line_count(
                    c.text@,
                    element_text_wrap(*c, x as int, width as int, fit_policy as int, popup_closed),
                )
                &&& r.y <= r.text_y
                &&& r.text_y + r.text_lines * c.font_height <= r.y + r.height
            },
    {
        let closed = popup_closed;
        let lead: i64 = if !closed {
            (INDICATOR_SIZE + CONTROL_GAP) as i64
        } else {
            0
        };
        let trail: i64 = if closed {
            (INDICATOR_SIZE + CONTROL_GAP) as i64
        } else {
            0
        };
        let content_x0 = x as i64 + lead;
        let has_image = c.image_width > 0 && c.image_height > 0;
        let gap = Self::image_gap(c);
        let text_x: i64 = if has_image {
            content_x0 + c.image_width as i64 + gap as i64
        } else {
            content_x0
        };
        assert(text_x == element_text_x(*c, x as int, closed));
        let wrap = if fit_policy != TEXT_WRAP_OFF {
            let t = x as i64 + width as i64 - trail - text_x;
            Some(
                if t >= 1 {
                    t as i32
                } else {
                    1
                },
            )
        } else {
            None
        };
        assert(opt_int(wrap) == element_text_wrap(*c, x as int, width as int, fit_policy as int, closed));
        let lines = c.text.line_count(wrap);
        let ghost n = text_line_count(c.text@, opt_int(wrap));
        proof {
            assert(n <= n * c.font_height) by (nonlinear_arith)
                requires
                    n >= 0,
                    c.font_height >= 1,
            ;
        }
        let text_height = (lines as i32) * c.font_height;
        let text_y = (y as i64 + half_toward_zero_exec(height as i64 - text_height as i64)) as i32;
        let bottom = y as i64 + height as i64;
        let mut drawn: usize = 0;
        let mut top: i64 = text_y as i64;
        while drawn < lines && top < bottom
            invariant
                0 <= drawn <= lines,
                lines == n,
                n * c.font_height <= i32::MAX,
                c.font_height >= 1,
                top == text_y + drawn * c.font_height,
                lines_drawn(n, text_y as int, bottom as int, c.font_height as int) == drawn + lines_drawn(
                    n - drawn,
                    top as int,
                    bottom as int,
                    c.font_height as int,
                ),
            decreases lines - drawn,
        {
            proof {
                assert(drawn * c.font_height + c.font_height <= n * c.font_height) by (nonlinear_arith)
                    requires
                        drawn + 1 <= n,
                        c.font_height >= 1,
                ;
                assert((drawn + 1) * c.font_height == drawn * c.font_height + c.font_height) by (nonlinear_arith);
            }
            top = top + c.font_height as i64;
            drawn = drawn + 1;
        }
        proof {
            lemma_lines_drawn(n, text_y as int, bottom as int, c.font_height as int);
            if text_height <= height && n > 0 {
                assert((n - 1) * c.font_height == n * c.font_height - c.font_height) by (nonlinear_arith);
            }
        }
        let mark = if !closed {
            let is_box = choice_type == crate::choice_group::MULTIPLE;
            let mark_y = (y as i64 + half_toward_zero_exec(height as i64 - INDICATOR_SIZE as i64)) as i32;
            let inset: i32 = if is_box {
                2
            } else {
                3
            };
            Some(
                Mark {
                    is_box,
                    x,
                    y: mark_y,
                    size: INDICATOR_SIZE - 1,
                    color: CONTROL_COLOR,
                    filled: selected,
                    fill: if selected {
                        Some(
                            Fill {
                                color: SELECTED_COLOR,
                                x: x + inset,
                                y: mark_y + inset,
                                width: INDICATOR_SIZE - 2 * inset,
                                height: INDICATOR_SIZE - 2 * inset,
                            },
                        )
                    } else {
                        None
                    },
                },
            )
        } else {
            None
        };
        let background = if highlighted {
            Some(
                Fill {
                    color: HIGHLIGHT_BACKGROUND,
                    x,
                    y,
                    width: if width > 0 { width } else { 0 },
                    height: if height > 0 { height } else { 0 },
                },
            )
        } else {
            None
        };
        let arrow = if closed {
            Some(
                (
                    (x as i64 + width as i64 - (INDICATOR_SIZE / 2) as i64 - 1) as i32,
                    (y as i64 + half_toward_zero_exec(height as i64)) as i32,
                ),
            )
        } else {
            None
        };
        let image = if has_image {
            Some((content_x0 as i32, (y as i64 + half_toward_zero_exec(height as i64 - c.image_height as i64)) as i32))
        } else {
            None
        };
        RowPaint {
            index,
            x,
            y,
            width,
            height,
            highlighted,
            background,
            mark,
            arrow,
            image,
            text_x: text_x as i32,
            text_y,
            text_wrap: wrap,
            text_lines: drawn as i32,
        }
    }
}

} // verus!
