//! `javax.microedition.lcdui.StringItem`: how much room a text item takes.
use vstd::prelude::*;

use crate::errors::UiError;
use crate::font::{
    lemma_line_count_at_most_chars, lemma_narrower_wraps_into_no_fewer_lines, opt_int, text_line_count, text_minimum_width, text_preferred_width, text_wf, MeasuredText,
    TextView, FONT_HEIGHT,
};
use crate::item::{
    appearance_inset_of, fits_i32, item_wf, label_height, lemma_narrower_measures_no_shorter, max, measured_height_of,
    measured_width_of, minimum_height_of, minimum_width_of, natural_height_of, notice,
    preferred_width_of, Item, ItemView, BUTTON, PLAIN,
};

verus! {

/// The abstract state of a string item.
pub struct StringItemView {
    pub item: ItemView,
    pub text: TextView,
    pub appearance_mode: int,
}

/// `javax.microedition.lcdui.StringItem`: an item showing a text, plainly,
/// as a hyperlink or as a button. An empty text shows nothing.
pub struct StringItem {
    pub item: Item,
    text: MeasuredText,
    appearance_mode: i32,
}

impl View for StringItem {
    type V = StringItemView;

    closed spec fn view(&self) -> StringItemView {
        StringItemView { item: self.item@, text: self.text@, appearance_mode: self.appearance_mode as int }
    }
}

pub open spec fn string_item_wf(v: StringItemView) -> bool {
    &&& item_wf(v.item)
    &&& text_wf(v.text)
    &&& PLAIN <= v.appearance_mode <= BUTTON
}

/// Twice the appearance inset: the room a button border takes.
pub open spec fn insets(v: StringItemView) -> int {
    2 * appearance_inset_of(v.appearance_mode)
}

pub open spec fn string_minimum_content_width(v: StringItemView) -> int {
    if v.text.chars.len() == 0 {
        0
    } else if v.appearance_mode == BUTTON {
        text_preferred_width(v.text) + insets(v)
    } else {
        text_minimum_width(v.text) + insets(v)
    }
}

pub open spec fn string_minimum_content_height(v: StringItemView) -> int {
    if v.text.chars.len() == 0 {
        0
    } else {
        text_line_count(v.text, None) * FONT_HEIGHT + insets(v)
    }
}

pub open spec fn string_preferred_content_width(v: StringItemView) -> int {
    if v.text.chars.len() == 0 {
        0
    } else {
        text_preferred_width(v.text) + insets(v)
    }
}

/// Where the text is wrapped when the content is `width` wide: buttons and
/// unbounded widths do not wrap.
pub open spec fn string_wrap_width(v: StringItemView, width: int) -> Option<int> {
    if v.appearance_mode == BUTTON || width < 0 {
        None
    } else {
        Some(max(width - insets(v), 1))
    }
}

pub open spec fn string_preferred_content_height(v: StringItemView, width: int) -> int {
    if v.text.chars.len() == 0 {
        0
    } else {
        text_line_count(v.text, string_wrap_width(v, width)) * FONT_HEIGHT + insets(v)
    }
}

/// Every length this item computes fits an `i32`. The lengths depend on
/// the width the item is offered; the bound is taken on the widest wrap.
pub open spec fn string_sizes_fit(v: StringItemView) -> bool {
    &&& fits_i32(text_preferred_width(v.text) + insets(v))
    &&& fits_i32(text_minimum_width(v.text) + insets(v))
    &&& forall|m: Option<int>| #[trigger]
        text_line_count(v.text, m) * FONT_HEIGHT + insets(v) <= 0x3fff_0000
    &&& forall|m: Option<int>| label_height(v.item.label, m) <= 0x3fff_0000
}

/// The height of a string item offered `width` (negative: as wide as it
/// likes): measured at the width it takes there, with its text wrapped to
/// that width.
pub open spec fn string_measured_height(v: StringItemView, width: int) -> int {
    let w = measured_width_of(
        v.item,
        width,
        string_minimum_content_width(v),
        string_preferred_content_width(v),
    );
    measured_height_of(v.item, string_minimum_content_height(v), w, string_preferred_content_height(v, w))
}

/// No character of the text or of the label is of negative width.
pub open spec fn widths_non_negative(v: StringItemView) -> bool {
    &&& forall|i: int| 0 <= i < v.text.char_widths.len() ==> #[trigger] v.text.char_widths[i] >= 0
    &&& forall|i: int| 0 <= i < v.item.label.char_widths.len() ==> #[trigger] v.item.label.char_widths[i] >= 0
}

/// A narrower width never gives a string item fewer rows: offered `narrow`
/// it is at least as tall as offered `wide`, for any two widths
/// `0 <= narrow <= wide`.
pub proof fn lemma_narrower_string_item_no_shorter(v: StringItemView, narrow: int, wide: int)
    requires
        string_item_wf(v),
        widths_non_negative(v),
        0 <= narrow <= wide,
    ensures
        string_measured_height(v, narrow) >= string_measured_height(v, wide),
{
    let cmin = string_minimum_content_width(v);
    let cpref = string_preferred_content_width(v);
    let w1 = measured_width_of(v.item, narrow, cmin, cpref);
    let w2 = measured_width_of(v.item, wide, cmin, cpref);
    assert(0 <= w1 <= w2);
    let h1 = string_preferred_content_height(v, w1);
    let h2 = string_preferred_content_height(v, w2);
    if v.text.chars.len() > 0 {
        lemma_line_count_at_most_chars(v.text, string_wrap_width(v, w2));
        if v.appearance_mode != BUTTON {
            lemma_narrower_wraps_into_no_fewer_lines(v.text, max(w1 - insets(v), 1), max(w2 - insets(v), 1));
        }
    }
    assert(h1 >= h2 >= 0);
    lemma_narrower_measures_no_shorter(v.item, string_minimum_content_height(v), w1, h1, w2, h2);
}

/// How many characters a text or label may have for every length a string
/// item computes to fit an `i32`.
pub const MAX_MEASURED_CHARS: usize = 0x0100_0000;

/// What a string item needs for its lengths to fit an `i32`: texts of at
/// most [`MAX_MEASURED_CHARS`] characters, and widths that stay in range
/// with the button border added.
pub open spec fn sizes_in_range(v: StringItemView) -> bool {
    &&& v.text.chars.len() <= MAX_MEASURED_CHARS
    &&& v.item.label.chars.len() <= MAX_MEASURED_CHARS
    &&& fits_i32(text_preferred_width(v.text) + insets(v))
    &&& fits_i32(text_minimum_width(v.text) + insets(v))
}

/// Texts of bounded length with widths in range give lengths that fit.
pub proof fn lemma_string_sizes_fit(v: StringItemView)
    requires
        string_item_wf(v),
        sizes_in_range(v),
    ensures
        string_sizes_fit(v),
{
    assert forall|m: Option<int>| #[trigger]
        text_line_count(v.text, m) * FONT_HEIGHT + insets(v) <= 0x3fff_0000 by {
        lemma_line_count_at_most_chars(v.text, m);
    }
    assert forall|m: Option<int>| label_height(v.item.label, m) <= 0x3fff_0000 by {
        lemma_line_count_at_most_chars(v.item.label, m);
    }
}

impl StringItem {
    /// A string item; appearance modes other than plain, hyperlink and
    /// button are refused.
    pub fn new(label: MeasuredText, text: MeasuredText, appearance_mode: i32) -> (r: Result<
        StringItem,
        UiError,
    >)
        requires
            text_wf(label@),
            text_wf(text@),
        ensures
            match r {
                Ok(s) => {
                    &&& PLAIN <= appearance_mode <= BUTTON
                    &&& string_item_wf(s@)
                    &&& s@.item.label == label@
                    &&& s@.item.commands.len() == 0
                    &&& s@.item.preferred_width == -1
                    &&& s@.item.preferred_height == -1
                    &&& s@.text == text@
                    &&& s@.appearance_mode == appearance_mode
                },
                Err(e) => e == UiError::IllegalArgument && !(PLAIN <= appearance_mode <= BUTTON),
            },
    {
        if appearance_mode < PLAIN || appearance_mode > BUTTON {
            return Err(UiError::IllegalArgument);
        }
        Ok(StringItem { item: Item::new(label), text, appearance_mode })
    }

    pub fn text(&self) -> (r: &MeasuredText)
        ensures
            r@ == self@.text,
    {
        &self.text
    }

    pub fn item(&self) -> (r: &Item)
        ensures
            r@ == self@.item,
    {
        &self.item
    }

    pub fn appearance_mode(&self) -> (r: i32)
        ensures
            r == self@.appearance_mode,
    {
        self.appearance_mode
    }

    /// `setText`: replaces the text; returns what the owner is told.
    pub fn set_text(&mut self, text: MeasuredText) -> (r: Option<bool>)
        requires
            string_item_wf(old(self)@),
            text_wf(text@),
        ensures
            string_item_wf(final(self)@),
            final(self)@ == (StringItemView { text: text@, ..old(self)@ }),
            r == notice(old(self)@.item.owner, true),
    {
        self.text = text;
        if self.item.owner() == crate::item::ItemOwner::Unowned {
            None
        } else {
            Some(true)
        }
    }

    fn inset2(&self) -> (r: i32)
        requires
            string_item_wf(self@),
        ensures
            r == insets(self@),
    {
        2 * Item::appearance_inset(self.appearance_mode)
    }

    fn lines_height(&self, maximum_width: Option<i32>) -> (r: i32)
        requires
            string_item_wf(self@),
            string_sizes_fit(self@),
        ensures
            r == text_line_count(self@.text, opt_int(maximum_width)) * FONT_HEIGHT,
    {
        let n = self.text.line_count(maximum_width);
        assert(text_line_count(self@.text, opt_int(maximum_width)) * FONT_HEIGHT + insets(self@)
            <= 0x3fff_0000);
        (n as i32) * FONT_HEIGHT
    }

    pub fn minimum_content_width(&self) -> (r: i32)
        requires
            string_item_wf(self@),
            string_sizes_fit(self@),
        ensures
            r == string_minimum_content_width(self@),
    {
        if self.text.is_empty() {
            return 0;
        }
        let text_width = if self.appearance_mode == BUTTON {
            self.text.preferred_width()
        } else {
            self.text.minimum_width()
        };
        text_width + self.inset2()
    }

    pub fn minimum_content_height(&self) -> (r: i32)
        requires
            string_item_wf(self@),
            string_sizes_fit(self@),
        ensures
            r == string_minimum_content_height(self@),
    {
        if self.text.is_empty() {
            return 0;
        }
        self.lines_height(None) + self.inset2()
    }

    pub fn preferred_content_width(&self) -> (r: i32)
        requires
            string_item_wf(self@),
            string_sizes_fit(self@),
        ensures
            r == string_preferred_content_width(self@),
    {
        if self.text.is_empty() {
            return 0;
        }
        self.text.preferred_width() + self.inset2()
    }

    pub fn preferred_content_height(&self, width: i32) -> (r: i32)
        requires
            string_item_wf(self@),
            string_sizes_fit(self@),
        ensures
            r == string_preferred_content_height(self@, width as int),
    {
        if self.text.is_empty() {
            return 0;
        }
        let inset2 = self.inset2();
        let wrap = if self.appearance_mode == BUTTON || width < 0 {
            None
        } else {
            let w = width as i64 - inset2 as i64;
            Some(
                if w >= 1 {
                    w as i32
                } else {
                    1
                },
            )
        };
        proof {
            assert(opt_int(wrap) == string_wrap_width(self@, width as int));
        }
        self.lines_height(wrap) + inset2
    }

    /// `getMinimumWidth`.
    pub fn minimum_width(&self) -> (r: i32)
        requires
            string_item_wf(self@),
            string_sizes_fit(self@),
        ensures
            r == minimum_width_of(self@.item, string_minimum_content_width(self@)),
    {
        self.item.minimum_width(self.minimum_content_width())
    }

    /// `getMinimumHeight`.
    pub fn minimum_height(&self) -> (r: i32)
        requires
            string_item_wf(self@),
            string_sizes_fit(self@),
        ensures
            r == minimum_height_of(self@.item, string_minimum_content_height(self@)),
    {
        let c = self.minimum_content_height();
        assert(label_height(self@.item.label, None) <= 0x3fff_0000);
        self.item.minimum_height(c)
    }

    /// `getPreferredWidth`.
    pub fn preferred_width(&self) -> (r: i32)
        requires
            string_item_wf(self@),
            string_sizes_fit(self@),
        ensures
            r == preferred_width_of(
                self@.item,
                string_minimum_content_width(self@),
                string_preferred_content_width(self@),
            ),
    {
        self.item.preferred_width(self.minimum_content_width(), self.preferred_content_width())
    }

    /// `measureHeight`: the item's height when offered `width` (negative:
    /// as wide as it likes).
    pub fn measure_height(&self, width: i32) -> (r: i32)
        requires
            string_item_wf(self@),
            string_sizes_fit(self@),
        ensures
            r == string_measured_height(self@, width as int),
    {
        let w = self.item.measured_width(width, self.minimum_content_width(), self.preferred_content_width());
        let content = self.preferred_content_height(w);
        let minimum = self.minimum_content_height();
        assert(label_height(self@.item.label, None) <= 0x3fff_0000);
        assert(label_height(self@.item.label, Some(max(w as int, 1))) <= 0x3fff_0000);
        self.item.measured_height(minimum, w, content)
    }

    /// `getPreferredHeight`: the height at the item's preferred width.
    pub fn preferred_height(&self) -> (r: i32)
        requires
            string_item_wf(self@),
            string_sizes_fit(self@),
        ensures
            ({
                let v = self@;
                let w = preferred_width_of(
                    v.item,
                    string_minimum_content_width(v),
                    string_preferred_content_width(v),
                );
                r == measured_height_of(
                    v.item,
                    string_minimum_content_height(v),
                    w,
                    string_preferred_content_height(v, w),
                )
            }),
    {
        let w = self.preferred_width();
        let content = self.preferred_content_height(w);
        let minimum = self.minimum_content_height();
        assert(label_height(self@.item.label, None) <= 0x3fff_0000);
        assert(label_height(self@.item.label, Some(max(w as int, 1))) <= 0x3fff_0000);
        self.item.measured_height(minimum, w, content)
    }

    /// Whether every length the item computes fits an `i32`; see
    /// [`sizes_in_range`]. When it does, the sizing functions may be called.
    pub fn sizes_fit(&self) -> (r: bool)
        requires
            string_item_wf(self@),
        ensures
            r == sizes_in_range(self@),
            r ==> string_sizes_fit(self@),
    {
        if self.text.chars.len() > MAX_MEASURED_CHARS || self.item.label().chars.len() > MAX_MEASURED_CHARS {
            return false;
        }
        let inset2 = self.inset2() as i64;
        let preferred = self.text.preferred_width() as i64 + inset2;
        let minimum = self.text.minimum_width() as i64 + inset2;
        let r = preferred <= i32::MAX as i64 && minimum <= i32::MAX as i64;
        proof {
            if r {
                lemma_string_sizes_fit(self@);
            }
        }
        r
    }

    /// A string item takes focus when it has commands.
    pub fn is_focusable(&self) -> (r: bool)
        ensures
            r == (self@.item.commands.len() > 0),
    {
        self.item.is_focusable()
    }
}

} // verus!
