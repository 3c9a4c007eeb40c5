//! `javax.microedition.lcdui.ImageItem`: an item showing an image, or its
//! alternate text where the image does not fit.
use vstd::prelude::*;

use crate::errors::UiError;
use crate::font::{
    opt_int, text_line_count, text_minimum_width, text_wf, MeasuredText, TextView, FONT_HEIGHT,
};
use crate::geometry::half_toward_zero;
use crate::item::{
    appearance_inset_of, item_wf, max, min, notice, Item, ItemOwner, ItemView, BUTTON, LAYOUT_MASK,
    PLAIN,
};

verus! {

/// The abstract state of an image item.
pub struct ImageItemView {
    pub item: ItemView,
    /// Width and height of the image shown, if there is one.
    pub image: Option<(i32, i32)>,
    pub alt_text: TextView,
    pub appearance_mode: int,
}

/// `javax.microedition.lcdui.ImageItem`. The image is known by its size;
/// an empty alternate text means none.
pub struct ImageItem {
    pub item: Item,
    image: Option<(i32, i32)>,
    alt_text: MeasuredText,
    appearance_mode: i32,
}

impl View for ImageItem {
    type V = ImageItemView;

    closed spec fn view(&self) -> ImageItemView {
        ImageItemView {
            item: self.item@,
            image: self.image,
            alt_text: self.alt_text@,
            appearance_mode: self.appearance_mode as int,
        }
    }
}

/// The size of an image an item can show: not negative, and small enough
/// that a border fits around it.
pub open spec fn image_size_ok(image: Option<(i32, i32)>) -> bool {
    match image {
        Some((w, h)) => 0 <= w <= i32::MAX - 6 && 0 <= h <= i32::MAX - 6,
        None => true,
    }
}

/// The alternate text's lines, however wrapped, fit a length.
pub open spec fn alt_text_fits(alt_text: TextView) -> bool {
    forall|m: Option<int>| #[trigger] text_line_count(alt_text, m) * FONT_HEIGHT <= 0x3fff_0000
}

pub open spec fn image_item_wf(v: ImageItemView) -> bool {
    &&& item_wf(v.item)
    &&& text_wf(v.alt_text)
    &&& image_size_ok(v.image)
    &&& alt_text_fits(v.alt_text)
    &&& PLAIN <= v.appearance_mode <= BUTTON
}

pub open spec fn image_insets(v: ImageItemView) -> int {
    2 * appearance_inset_of(v.appearance_mode)
}

pub open spec fn image_minimum_content_width(v: ImageItemView) -> int {
    match v.image {
        None => 0,
        Some((w, _h)) => {
            let alt = text_minimum_width(v.alt_text);
            (if v.alt_text.chars.len() > 0 && alt > 0 {
                min(w as int, alt)
            } else {
                w as int
            }) + image_insets(v)
        },
    }
}

pub open spec fn image_minimum_content_height(v: ImageItemView) -> int {
    match v.image {
        None => 0,
        Some((_w, h)) => {
            let alt = text_line_count(v.alt_text, None) * FONT_HEIGHT;
            (if v.alt_text.chars.len() > 0 && alt > 0 {
                min(h as int, alt)
            } else {
                h as int
            }) + image_insets(v)
        },
    }
}

pub open spec fn image_preferred_content_width(v: ImageItemView) -> int {
    match v.image {
        None => 0,
        Some((w, _h)) => w + image_insets(v),
    }
}

/// The content's height at `width`: the image where it fits, else the
/// alternate text wrapped to the room there is (buttons do not wrap).
pub open spec fn image_preferred_content_height(v: ImageItemView, width: int) -> int {
    match v.image {
        None => 0,
        Some((w, h)) => {
            let available = if width < 0 {
                w as int
            } else {
                max(width - image_insets(v), 0)
            };
            if w <= available || v.alt_text.chars.len() == 0 {
                h + image_insets(v)
            } else {
                text_line_count(
                    v.alt_text,
                    if v.appearance_mode == BUTTON {
                        None
                    } else {
                        Some(max(available, 1))
                    },
                ) * FONT_HEIGHT + image_insets(v)
            }
        },
    }
}

/// What an image item paints in its content area.
pub enum ImagePlacement {
    Nothing,
    /// The alternate text, wrapped at `wrap_width` (`None`: unwrapped),
    /// from `(x, y)`.
    AltText { x: i32, y: i32, wrap_width: Option<i32> },
    /// The image, its top left corner at `(x, y)`.
    Image { x: i32, y: i32 },
}

/// Where an image of `size` goes along an axis of `room` from `start`:
/// `align` 2 is the far end, 3 the middle, anything else the near end.
pub open spec fn align_in(start: int, room: int, size: int, align: int) -> int {
    if align == 2 {
        start + room - size
    } else if align == 3 {
        start + half_toward_zero(room - size)
    } else {
        start
    }
}

pub open spec fn placement_of(v: ImageItemView, width: int, height: int) -> ImagePlacement {
    match v.image {
        None => ImagePlacement::Nothing,
        Some((iw, ih)) => {
            let inset = appearance_inset_of(v.appearance_mode);
            let cw = max(width - 2 * inset, 0);
            let ch = max(height - 2 * inset, 0);
            if cw == 0 || ch == 0 {
                ImagePlacement::Nothing
            } else if (iw > cw || ih > ch) && v.alt_text.chars.len() > 0 {
                ImagePlacement::AltText {
                    x: inset as i32,
                    y: inset as i32,
                    wrap_width: if v.appearance_mode == BUTTON {
                        None
                    } else {
                        Some(cw as i32)
                    },
                }
            } else {
                let layout = v.item.layout as i32;
                ImagePlacement::Image {
                    x: align_in(inset, cw, iw as int, (layout & 3) as int) as i32,
                    y: align_in(
                        inset,
                        ch,
                        ih as int,
                        if layout & 0x30 == 0x20 {
                            2
                        } else if layout & 0x30 == 0x30 {
                            3
                        } else {
                            0
                        },
                    ) as i32,
                }
            }
        },
    }
}

impl ImageItem {
    /// An image item; layouts with bits outside the item layouts and
    /// appearance modes other than plain, hyperlink and button are refused.
    pub fn new(
        label: MeasuredText,
        image: Option<(i32, i32)>,
        layout: i32,
        alt_text: MeasuredText,
        appearance_mode: i32,
    ) -> (r: Result<ImageItem, UiError>)
        requires
            text_wf(label@),
            text_wf(alt_text@),
            image_size_ok(image),
            alt_text_fits(alt_text@),
        ensures
            match r {
                Ok(i) => {
                    &&& layout & !LAYOUT_MASK == 0
                    &&& PLAIN <= appearance_mode <= BUTTON
                    &&& image_item_wf(i@)
                    &&& i@.item.label == label@
                    &&& i@.item.layout == layout
                    &&& i@.item.commands.len() == 0
                    &&& i@.item.preferred_width == -1
                    &&& i@.item.preferred_height == -1
                    &&& i@.item.owner == ItemOwner::Unowned
                    &&& i@.image == image
                    &&& i@.alt_text == alt_text@
                    &&& i@.appearance_mode == appearance_mode
                },
                Err(e) => e == UiError::IllegalArgument && (layout & !LAYOUT_MASK != 0 || !(PLAIN
                    <= appearance_mode <= BUTTON)),
            },
    {
        if layout & !LAYOUT_MASK != 0 {
            return Err(UiError::IllegalArgument);
        }
        if appearance_mode < PLAIN || appearance_mode > BUTTON {
            return Err(UiError::IllegalArgument);
        }
        let mut item = Item::new(label);
        let _ = item.set_layout(layout);
        Ok(ImageItem { item, image, alt_text, appearance_mode })
    }

    pub fn image(&self) -> (r: Option<(i32, i32)>)
        ensures
            r == self@.image,
    {
        self.image
    }

    pub fn alt_text(&self) -> (r: &MeasuredText)
        ensures
            r@ == self@.alt_text,
    {
        &self.alt_text
    }

    pub fn item(&self) -> (r: &Item)
        ensures
            r@ == self@.item,
    {
        &self.item
    }

    pub fn appearance_mode(&self) -> (r: i32)
        ensures
            r == self@.appearance_mode,
    {
        self.appearance_mode
    }

    /// `setImage`: shows another image (a snapshot of it); returns what
    /// the owner is told.
    pub fn set_image(&mut self, image: Option<(i32, i32)>) -> (r: Option<bool>)
        requires
            image_item_wf(old(self)@),
            image_size_ok(image),
        ensures
            image_item_wf(final(self)@),
            final(self)@ == (ImageItemView { image, ..old(self)@ }),
            r == notice(old(self)@.item.owner, true),
    {
        self.image = image;
        if self.item.owner() == ItemOwner::Unowned {
            None
        } else {
            Some(true)
        }
    }

    /// `setAltText`; returns what the owner is told.
    pub fn set_alt_text(&mut self, alt_text: MeasuredText) -> (r: Option<bool>)
        requires
            image_item_wf(old(self)@),
            text_wf(alt_text@),
            alt_text_fits(alt_text@),
        ensures
            image_item_wf(final(self)@),
            final(self)@ == (ImageItemView { alt_text: alt_text@, ..old(self)@ }),
            r == notice(old(self)@.item.owner, true),
    {
        self.alt_text = alt_text;
        if self.item.owner() == ItemOwner::Unowned {
            None
        } else {
            Some(true)
        }
    }

    /// `setLayout`: refuses layouts with bits outside the item layouts
    /// before anything else, then changes the item's layout.
    pub fn set_layout(&mut self, layout: i32) -> (r: Result<Option<bool>, UiError>)
        requires
            image_item_wf(old(self)@),
        ensures
            image_item_wf(final(self)@),
            layout & !LAYOUT_MASK != 0 ==> r == Err::<Option<bool>, UiError>(UiError::IllegalArgument)
                && final(self)@ == old(self)@,
            layout & !LAYOUT_MASK == 0 && old(self)@.item.owner == ItemOwner::AlertIndicator ==> r
                == Err::<Option<bool>, UiError>(UiError::IllegalState) && final(self)@ == old(self)@,
            layout & !LAYOUT_MASK == 0 && old(self)@.item.owner != ItemOwner::AlertIndicator ==> r
                == Ok::<Option<bool>, UiError>(notice(old(self)@.item.owner, true)) && final(self)@ == (
            ImageItemView { item: ItemView { layout: layout as int, ..old(self)@.item }, ..old(self)@ }),
    {
        if layout & !LAYOUT_MASK != 0 {
            return Err(UiError::IllegalArgument);
        }
        self.item.set_layout(layout)
    }

    fn inset2(&self) -> (r: i32)
        requires
            image_item_wf(self@),
        ensures
            r == image_insets(self@),
    {
        2 * Item::appearance_inset(self.appearance_mode)
    }

    fn alt_lines_height(&self, maximum_width: Option<i32>) -> (r: i32)
        requires
            image_item_wf(self@),
        ensures
            r == text_line_count(self@.alt_text, opt_int(maximum_width)) * FONT_HEIGHT,
            0 <= r <= 0x3fff_0000,
    {
        let n = self.alt_text.line_count(maximum_width);
        assert(text_line_count(self@.alt_text, opt_int(maximum_width)) * FONT_HEIGHT <= 0x3fff_0000);
        (n as i32) * FONT_HEIGHT
    }

    pub fn minimum_content_width(&self) -> (r: i32)
        requires
            image_item_wf(self@),
        ensures
            r == image_minimum_content_width(self@),
    {
        match self.image {
            None => 0,
            Some((w, _h)) => {
                let base = if !self.alt_text.is_empty() {
                    let alt = self.alt_text.minimum_width();
                    if alt > 0 && alt < w {
                        alt
                    } else {
                        w
                    }
                } else {
                    w
                };
                base + self.inset2()
            },
        }
    }

    pub fn minimum_content_height(&self) -> (r: i32)
        requires
            image_item_wf(self@),
        ensures
            r == image_minimum_content_height(self@),
    {
        match self.image {
            None => 0,
            Some((_w, h)) => {
                let base = if !self.alt_text.is_empty() {
                    let alt = self.alt_lines_height(None);
                    if alt > 0 && alt < h {
                        alt
                    } else {
                        h
                    }
                } else {
                    h
                };
                base + self.inset2()
            },
        }
    }

    pub fn preferred_content_width(&self) -> (r: i32)
        requires
            image_item_wf(self@),
        ensures
            r == image_preferred_content_width(self@),
    {
        match self.image {
            None => 0,
            Some((w, _h)) => w + self.inset2(),
        }
    }

    pub fn preferred_content_height(&self, width: i32) -> (r: i32)
        requires
            image_item_wf(self@),
        ensures
            r == image_preferred_content_height(self@, width as int),
    {
        match self.image {
            None => 0,
            Some((w, h)) => {
                let inset2 = self.inset2();
                let available = if width < 0 {
                    w
                } else if width - inset2 >= 0 {
                    width - inset2
                } else {
                    0
                };
                if w <= available || self.alt_text.is_empty() {
                    return h + inset2;
                }
                let wrap = if self.appearance_mode == BUTTON {
                    None
                } else {
                    Some(
                        if available >= 1 {
                            available
                        } else {
                            1
                        },
                    )
                };
                self.alt_lines_height(wrap) + inset2
            },
        }
    }

    /// What the item paints in a `width` x `height` content area, with
    /// positions taken from the area's top left corner.
    pub fn placement(&self, width: i32, height: i32) -> (r: ImagePlacement)
        requires
            image_item_wf(self@),
        ensures
            r == placement_of(self@, width as int, height as int),
    {
        match self.image {
            None => ImagePlacement::Nothing,
            Some((iw, ih)) => {
                let inset = Item::appearance_inset(self.appearance_mode);
                let cw = if width > 2 * inset {
                    width - 2 * inset
                } else {
                    0
                };
                let ch = if height > 2 * inset {
                    height - 2 * inset
                } else {
                    0
                };
                if cw == 0 || ch == 0 {
                    return ImagePlacement::Nothing;
                }
                if (iw > cw || ih > ch) && !self.alt_text.is_empty() {
                    return ImagePlacement::AltText {
                        x: inset,
                        y: inset,
                        wrap_width: if self.appearance_mode == BUTTON {
                            None
                        } else {
                            Some(cw)
                        },
                    };
                }
                let layout = self.item.layout();
                let x = align_exec(inset, cw, iw, layout & 3);
                let vertical = if layout & 0x30 == 0x20 {
                    2
                } else if layout & 0x30 == 0x30 {
                    3
                } else {
                    0
                };
                let y = align_exec(inset, ch, ih, vertical);
                ImagePlacement::Image { x, y }
            },
        }
    }

    /// An image item takes focus when it has commands.
    pub fn is_focusable(&self) -> (r: bool)
        ensures
            r == (self@.item.commands.len() > 0),
    {
        self.item.is_focusable()
    }
}

fn align_exec(start: i32, room: i32, size: i32, align: i32) -> (r: i32)
    requires
        0 <= start <= 3,
        0 < room,
        start + room <= i32::MAX,
        0 <= size <= i32::MAX - 6,
    ensures
        r == align_in(start as int, room as int, size as int, align as int),
{
    if align == 2 {
        start + room - size
    } else if align == 3 {
        let d = room - size;
        start + if d >= 0 {
            d / 2
        } else {
            -((-d) / 2)
        }
    } else {
        start
    }
}

} // verus!
