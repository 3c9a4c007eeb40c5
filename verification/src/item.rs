//! `javax.microedition.lcdui.Item`: the label, layout, size locks and
//! commands that every form item shares, and how an item's size is made
//! from its label and its content.
//!
//! The content of an item (its text, image or gauge) is measured by the
//! item type; the functions here take those content measurements as
//! arguments.
use vstd::prelude::*;

use crate::errors::UiError;
use crate::font::{
    lemma_line_count_at_most_chars, lemma_narrower_wraps_into_no_fewer_lines, opt_int, text_line_count, text_minimum_width, text_preferred_width, text_wf, MeasuredText,
    TextView, FONT_HEIGHT,
};

verus! {

/// Vertical gap between a label and the content below it.
pub const LABEL_CONTENT_GAP: i32 = 2;
/// Inset of button content inside its border.
pub const BUTTON_INSET: i32 = 3;
/// The layout bits an item accepts.
pub const LAYOUT_MASK: i32 = 0x7f33;

pub const LAYOUT_DEFAULT: i32 = 0;
pub const LAYOUT_LEFT: i32 = 1;
pub const LAYOUT_RIGHT: i32 = 2;
pub const LAYOUT_CENTER: i32 = 3;
pub const LAYOUT_TOP: i32 = 0x10;
pub const LAYOUT_BOTTOM: i32 = 0x20;
pub const LAYOUT_VCENTER: i32 = 0x30;
pub const LAYOUT_NEWLINE_BEFORE: i32 = 0x100;
pub const LAYOUT_NEWLINE_AFTER: i32 = 0x200;
pub const LAYOUT_SHRINK: i32 = 0x400;
pub const LAYOUT_EXPAND: i32 = 0x800;
pub const LAYOUT_VSHRINK: i32 = 0x1000;
pub const LAYOUT_VEXPAND: i32 = 0x2000;
pub const LAYOUT_2: i32 = 0x4000;

/// Appearance modes.
pub const PLAIN: i32 = 0;
pub const HYPERLINK: i32 = 1;
pub const BUTTON: i32 = 2;

/// Colors items draw with.
pub const TEXT_COLOR: i32 = 0x17212b;
pub const LINK_COLOR: i32 = 0x175ca8;

/// What holds an item.
#[derive(Debug, Clone, Copy, PartialEq, Eq, Structural)]
pub enum ItemOwner {
    Unowned,
    /// A form shows the item.
    Form,
    /// An alert shows the item as its activity indicator; it cannot be
    /// changed while it is there.
    AlertIndicator,
}

/// The abstract state of an item.
pub struct ItemView {
    pub label: TextView,
    pub layout: int,
    /// The locked width, or -1.
    pub preferred_width: int,
    /// The locked height, or -1.
    pub preferred_height: int,
    /// The item's commands, in the order they were added.
    pub commands: Seq<u64>,
    pub default_command: Option<u64>,
    pub owner: ItemOwner,
    pub has_listener: bool,
}

/// `javax.microedition.lcdui.Item`. Commands are named by identifiers.
pub struct Item {
    label: MeasuredText,
    layout: i32,
    preferred_width: i32,
    preferred_height: i32,
    commands: Vec<u64>,
    default_command: Option<u64>,
    owner: ItemOwner,
    has_listener: bool,
}

impl View for Item {
    type V = ItemView;

    closed spec fn view(&self) -> ItemView {
        ItemView {
            label: self.label@,
            layout: self.layout as int,
            preferred_width: self.preferred_width as int,
            preferred_height: self.preferred_height as int,
            commands: self.commands@,
            default_command: self.default_command,
            owner: self.owner,
            has_listener: self.has_listener,
        }
    }
}

pub open spec fn no_duplicates(s: Seq<u64>) -> bool {
    forall|i: int, j: int| 0 <= i < j < s.len() ==> s[i] != s[j]
}

/// An item's invariant.
pub open spec fn item_wf(v: ItemView) -> bool {
    &&& text_wf(v.label)
    &&& i32::MIN <= v.layout <= i32::MAX
    &&& v.layout as i32 & !LAYOUT_MASK == 0
    &&& -1 <= v.preferred_width <= i32::MAX
    &&& -1 <= v.preferred_height <= i32::MAX
    &&& no_duplicates(v.commands)
    &&& (v.default_command matches Some(c) ==> v.commands.contains(c))
}

/// What the owner is told after a change: `Some(layout_changed)` when there
/// is an owner, else nothing.
pub open spec fn notice(owner: ItemOwner, layout_changed: bool) -> Option<bool> {
    if owner == ItemOwner::Unowned {
        None
    } else {
        Some(layout_changed)
    }
}

pub open spec fn max(a: int, b: int) -> int {
    if a >= b {
        a
    } else {
        b
    }
}

pub open spec fn min(a: int, b: int) -> int {
    if a <= b {
        a
    } else {
        b
    }
}

/// Height of the label's lines, wrapped at `maximum_width`; 0 without a label.
pub open spec fn label_height(label: TextView, maximum_width: Option<int>) -> int {
    if label.chars.len() == 0 {
        0
    } else {
        text_line_count(label, maximum_width) * FONT_HEIGHT
    }
}

/// Height of a label stacked over content, with a gap when both show.
pub open spec fn stacked(label_h: int, content_h: int) -> int {
    label_h + content_h + if label_h > 0 && content_h > 0 {
        LABEL_CONTENT_GAP as int
    } else {
        0
    }
}

pub open spec fn fits_i32(v: int) -> bool {
    i32::MIN <= v <= i32::MAX
}

/// The narrowest an item can be.
pub open spec fn minimum_width_of(v: ItemView, content_minimum_width: int) -> int {
    max(
        content_minimum_width,
        if v.label.chars.len() == 0 {
            0
        } else {
            text_minimum_width(v.label)
        },
    )
}

/// The least height of an item: its whole label unwrapped over its least
/// content.
pub open spec fn minimum_height_of(v: ItemView, content_minimum_height: int) -> int {
    stacked(label_height(v.label, None), content_minimum_height)
}

/// The width an item asks for: its width lock (never below its least
/// width), or the wider of its content and its unwrapped label.
pub open spec fn preferred_width_of(
    v: ItemView,
    content_minimum_width: int,
    content_preferred_width: int,
) -> int {
    let minimum = minimum_width_of(v, content_minimum_width);
    if v.preferred_width >= 0 {
        max(v.preferred_width, minimum)
    } else {
        max(
            max(
                content_preferred_width,
                if v.label.chars.len() == 0 {
                    0
                } else {
                    text_preferred_width(v.label)
                },
            ),
            minimum,
        )
    }
}

/// An item asks for room for all of itself: never less than its least
/// width (which holds its content's least width and its label's widest
/// character); unlocked, at least as wide as its content's preferred width
/// and as its whole label on one line, and no wider than the widest of
/// these; locked, its lock, raised to its least width if need be.
pub proof fn lemma_preferred_width_covers_label_and_content(
    v: ItemView,
    content_minimum_width: int,
    content_preferred_width: int,
)
    ensures
        ({
            let minimum = minimum_width_of(v, content_minimum_width);
            let label_width = if v.label.chars.len() == 0 { 0 } else { text_preferred_width(v.label) };
            let r = preferred_width_of(v, content_minimum_width, content_preferred_width);
            &&& minimum >= content_minimum_width
            &&& v.label.chars.len() > 0 ==> minimum >= text_minimum_width(v.label)
            &&& (minimum == content_minimum_width || (v.label.chars.len() > 0 && minimum == text_minimum_width(
                v.label,
            )) || minimum == 0)
            &&& r >= minimum
            &&& v.preferred_width < 0 ==> {
                &&& r >= content_preferred_width
                &&& r >= label_width
                &&& (r == content_preferred_width || r == label_width || r == minimum)
            }
            &&& v.preferred_width >= 0 ==> r >= v.preferred_width && (r == v.preferred_width || r == minimum)
        }),
{
}

/// The height of an item laid out at `width`, given its content's height there.
pub open spec fn natural_height_of(v: ItemView, width: int, content_height: int) -> int {
    stacked(label_height(v.label, Some(max(width, 1))), content_height)
}

/// The height of an item given the width it is measured at: its height
/// lock, or its natural height there; never below its least height.
pub open spec fn measured_height_of(
    v: ItemView,
    content_minimum_height: int,
    width: int,
    content_height: int,
) -> int {
    let minimum = minimum_height_of(v, content_minimum_height);
    if v.preferred_height >= 0 {
        max(v.preferred_height, minimum)
    } else {
        max(natural_height_of(v, width, content_height), minimum)
    }
}

/// An item is never measured below its least height, whatever the width.
pub proof fn lemma_measured_height_at_least_minimum(
    v: ItemView,
    content_minimum_height: int,
    width: int,
    content_height: int,
)
    ensures
        measured_height_of(v, content_minimum_height, width, content_height) >= minimum_height_of(
            v,
            content_minimum_height,
        ),
{
}

/// A label wrapped at a narrower width is never shorter.
pub proof fn lemma_narrower_label_no_shorter(label: TextView, narrow: int, wide: int)
    requires
        text_wf(label),
        narrow <= wide,
        forall|i: int| 0 <= i < label.char_widths.len() ==> #[trigger] label.char_widths[i] >= 0,
    ensures
        label_height(label, Some(max(narrow, 1))) >= label_height(label, Some(max(wide, 1))) >= 0,
{
    lemma_narrower_wraps_into_no_fewer_lines(label, max(narrow, 1), max(wide, 1));
    lemma_line_count_at_most_chars(label, Some(max(wide, 1)));
}

/// Measured at a narrower width, with content no shorter there, an item is
/// never shorter: the label wraps into no fewer rows and the height lock
/// and least height do not depend on the width.
pub proof fn lemma_narrower_measures_no_shorter(
    v: ItemView,
    content_minimum_height: int,
    narrow: int,
    narrow_content_height: int,
    wide: int,
    wide_content_height: int,
)
    requires
        text_wf(v.label),
        forall|i: int| 0 <= i < v.label.char_widths.len() ==> #[trigger] v.label.char_widths[i] >= 0,
        narrow <= wide,
        narrow_content_height >= wide_content_height >= 0,
    ensures
        measured_height_of(v, content_minimum_height, narrow, narrow_content_height)
            >= measured_height_of(v, content_minimum_height, wide, wide_content_height),
{
    lemma_narrower_label_no_shorter(v.label, narrow, wide);
}

/// The width an item is measured at when it is offered `width` (negative:
/// as wide as it likes); a width lock narrows it.
pub open spec fn measured_width_of(
    v: ItemView,
    width: int,
    content_minimum_width: int,
    content_preferred_width: int,
) -> int {
    let available = if width < 0 {
        preferred_width_of(v, content_minimum_width, content_preferred_width)
    } else {
        width
    };
    if v.preferred_width >= 0 {
        min(available, max(v.preferred_width, minimum_width_of(v, content_minimum_width)))
    } else {
        available
    }
}

/// The lock that `set_preferred_size` stores for a requested length.
pub open spec fn size_lock(requested: int, minimum: int) -> int {
    if requested < 0 {
        -1
    } else {
        max(requested, minimum)
    }
}

/// `Item.appearance_inset`: content of a button is inset inside its border.
pub open spec fn appearance_inset_of(appearance_mode: int) -> int {
    if appearance_mode == BUTTON {
        BUTTON_INSET as int
    } else {
        0
    }
}

/// The colour of item labels.
pub const LABEL_COLOR: i32 = 0x52606d;
/// The colour of the border of the item that has focus.
pub const FOCUS_BORDER: i32 = 0x2f6f9f;

/// Where an item's parts go inside the rectangle it is painted in. Offsets
/// are from the top of the rectangle. Painting clips to the rectangle,
/// draws the visible label lines in [`LABEL_COLOR`] one font height apart
/// from the top, then paints the content; see
/// [`ItemPaintLayout::after_content`] for what follows.
pub struct ItemPaintLayout {
    pub width: i32,
    pub height: i32,
    /// Height given to the label.
    pub label_height: i32,
    /// How many label lines show.
    pub visible_label_lines: i32,
    pub content_y: i32,
    pub content_height: i32,
}

/// A call that painting an item makes on the graphics after its content.
#[derive(Debug, Clone, Copy, PartialEq, Eq, Structural)]
pub enum ItemPaintCall {
    SetColor(i32),
    DrawRect { x: i32, y: i32, width: i32, height: i32 },
    FillRect { x: i32, y: i32, width: i32, height: i32 },
    DrawLine { x1: i32, y1: i32, x2: i32, y2: i32 },
    /// The clip is set back to what it was before the item was painted.
    RestoreClip,
}

/// The face of a button.
pub const BUTTON_BACKGROUND: i32 = 0xe7edf2;
/// The border of a button.
pub const BUTTON_BORDER: i32 = 0x65727d;

/// What an appearance draws behind or under content in a rectangle at
/// `(x, y)`, `width` x `height`: a hyperlink is underlined along the bottom
/// row in [`LINK_COLOR`]; a button is filled with [`BUTTON_BACKGROUND`] and
/// framed in [`BUTTON_BORDER`]; a plain item, an unknown mode or an empty
/// rectangle draws nothing.
pub open spec fn appearance_calls(x: int, y: int, width: int, height: int, appearance_mode: int) -> Seq<
    ItemPaintCall,
> {
    if width <= 0 || height <= 0 {
        Seq::empty()
    } else if appearance_mode == HYPERLINK {
        seq![
            ItemPaintCall::SetColor(LINK_COLOR),
            (ItemPaintCall::DrawLine {
                x1: x as i32,
                y1: (y + height - 1) as i32,
                x2: (x + width - 1) as i32,
                y2: (y + height - 1) as i32,
            }),
        ]
    } else if appearance_mode == BUTTON {
        seq![
            ItemPaintCall::SetColor(BUTTON_BACKGROUND),
            (ItemPaintCall::FillRect { x: x as i32, y: y as i32, width: width as i32, height: height as i32 }),
            ItemPaintCall::SetColor(BUTTON_BORDER),
            (ItemPaintCall::DrawRect {
                x: x as i32,
                y: y as i32,
                width: (width - 1) as i32,
                height: (height - 1) as i32,
            }),
        ]
    } else {
        Seq::empty()
    }
}

impl ItemPaintLayout {
    /// What follows the content: when the content painted and the item has
    /// focus, a border round the whole rectangle in [`FOCUS_BORDER`]; then,
    /// whether or not the content painted, the clip is restored. The second
    /// result tells whether painting succeeded: it fails exactly when the
    /// content failed, and only after the clip was restored.
    pub fn after_content(&self, focused: bool, content_painted: bool) -> (r: (Vec<ItemPaintCall>, bool))
        requires
            self.width >= 1,
            self.height >= 1,
        ensures
            r.0@ == if content_painted && focused {
                seq![
                    ItemPaintCall::SetColor(FOCUS_BORDER),
                    (ItemPaintCall::DrawRect {
                        x: 0,
                        y: 0,
                        width: (self.width - 1) as i32,
                        height: (self.height - 1) as i32,
                    }),
                    ItemPaintCall::RestoreClip,
                ]
            } else {
                seq![ItemPaintCall::RestoreClip]
            },
            r.1 == content_painted,
    {
        let mut calls: Vec<ItemPaintCall> = Vec::new();
        if content_painted && focused {
            calls.push(ItemPaintCall::SetColor(FOCUS_BORDER));
            calls.push(ItemPaintCall::DrawRect { x: 0, y: 0, width: self.width - 1, height: self.height - 1 });
        }
        calls.push(ItemPaintCall::RestoreClip);
        proof {
            if content_painted && focused {
                assert(calls@ =~= seq![
                    ItemPaintCall::SetColor(FOCUS_BORDER),
                    ItemPaintCall::DrawRect { x: 0, y: 0, width: (self.width - 1) as i32, height: (self.height - 1) as i32 },
                    ItemPaintCall::RestoreClip,
                ]);
            } else {
                assert(calls@ =~= seq![ItemPaintCall::RestoreClip]);
            }
        }
        (calls, content_painted)
    }
}

impl Item {
    /// The calls that paint `appearance_mode` in a rectangle at `(x, y)`,
    /// `width` x `height`; see [`appearance_calls`].
    pub fn paint_appearance(x: i32, y: i32, width: i32, height: i32, appearance_mode: i32) -> (r: Vec<
        ItemPaintCall,
    >)
        requires
            width > 0 && height > 0 && appearance_mode == HYPERLINK ==> x + width <= i32::MAX && y + height
                <= i32::MAX,
        ensures
            r@ == appearance_calls(x as int, y as int, width as int, height as int, appearance_mode as int),
    {
        let mut calls: Vec<ItemPaintCall> = Vec::new();
        if width <= 0 || height <= 0 {
            assert(calls@ =~= appearance_calls(x as int, y as int, width as int, height as int, appearance_mode as int));
            return calls;
        }
        if appearance_mode == HYPERLINK {
            let bottom = (y as i64 + height as i64 - 1) as i32;
            let right = (x as i64 + width as i64 - 1) as i32;
            calls.push(ItemPaintCall::SetColor(LINK_COLOR));
            calls.push(ItemPaintCall::DrawLine { x1: x, y1: bottom, x2: right, y2: bottom });
        } else if appearance_mode == BUTTON {
            calls.push(ItemPaintCall::SetColor(BUTTON_BACKGROUND));
            calls.push(ItemPaintCall::FillRect { x, y, width, height });
            calls.push(ItemPaintCall::SetColor(BUTTON_BORDER));
            calls.push(ItemPaintCall::DrawRect { x, y, width: width - 1, height: height - 1 });
        }
        assert(calls@ =~= appearance_calls(x as int, y as int, width as int, height as int, appearance_mode as int));
        calls
    }
}

impl Item {
    /// A new item with `label` (empty for none): default layout, no size
    /// locks, no commands, no owner.
    pub fn new(label: MeasuredText) -> (r: Item)
        requires
            text_wf(label@),
        ensures
            item_wf(r@),
            r@.label == label@,
            r@.layout == 0,
            r@.preferred_width == -1,
            r@.preferred_height == -1,
            r@.commands.len() == 0,
            r@.default_command is None,
            r@.owner == ItemOwner::Unowned,
            !r@.has_listener,
    {
        let r = Item {
            label,
            layout: 0,
            preferred_width: -1,
            preferred_height: -1,
            commands: Vec::new(),
            default_command: None,
            owner: ItemOwner::Unowned,
            has_listener: false,
        };
        proof {
            assert(0i32 & !LAYOUT_MASK == 0) by (bit_vector);
        }
        r
    }

    pub fn label(&self) -> (r: &MeasuredText)
        ensures
            r@ == self@.label,
    {
        &self.label
    }

    pub fn layout(&self) -> (r: i32)
        ensures
            r == self@.layout,
    {
        self.layout
    }

    /// The width lock, or -1.
    pub fn locked_width(&self) -> (r: i32)
        ensures
            r == self@.preferred_width,
    {
        self.preferred_width
    }

    /// The height lock, or -1.
    pub fn locked_height(&self) -> (r: i32)
        ensures
            r == self@.preferred_height,
    {
        self.preferred_height
    }

    pub fn commands(&self) -> (r: &Vec<u64>)
        ensures
            r@ == self@.commands,
    {
        &self.commands
    }

    pub fn default_command(&self) -> (r: Option<u64>)
        ensures
            r == self@.default_command,
    {
        self.default_command
    }

    pub fn owner(&self) -> (r: ItemOwner)
        ensures
            r == self@.owner,
    {
        self.owner
    }

    pub fn has_item_command_listener(&self) -> (r: bool)
        ensures
            r == self@.has_listener,
    {
        self.has_listener
    }

    /// Records what holds the item now.
    pub fn set_owner(&mut self, owner: ItemOwner)
        requires
            item_wf(old(self)@),
        ensures
            item_wf(final(self)@),
            final(self)@ == (ItemView { owner, ..old(self)@ }),
    {
        self.owner = owner;
    }

    /// An item may be changed unless an alert shows it as its indicator.
    pub fn check_mutation(&self) -> (r: Result<(), UiError>)
        ensures
            r == (if self@.owner == ItemOwner::AlertIndicator {
                Err(UiError::IllegalState)
            } else {
                Ok(())
            }),
    {
        if self.owner == ItemOwner::AlertIndicator {
            Err(UiError::IllegalState)
        } else {
            Ok(())
        }
    }

    fn find_command(&self, command: u64) -> (r: Option<usize>)
        ensures
            match r {
                Some(i) => i < self@.commands.len() && self@.commands[i as int] == command,
                None => !self@.commands.contains(command),
            },
    {
        let mut i: usize = 0;
        while i < self.commands.len()
            invariant
                i <= self@.commands.len(),
                forall|j: int| 0 <= j < i ==> self@.commands[j] != command,
            decreases self@.commands.len() - i,
        {
            if self.commands[i] == command {
                return Some(i);
            }
            i += 1;
        }
        None
    }

    /// Adds `command` after the item's other commands, unless it is there
    /// already. Returns what the owner is told. An alert's indicator is
    /// refused first; `None` stands for a null command, refused next.
    pub fn add_command(&mut self, command: Option<u64>) -> (r: Result<Option<bool>, UiError>)
        requires
            item_wf(old(self)@),
        ensures
            item_wf(final(self)@),
            old(self)@.owner == ItemOwner::AlertIndicator ==> r == Err::<Option<bool>, UiError>(
                UiError::IllegalState,
            ) && final(self)@ == old(self)@,
            old(self)@.owner != ItemOwner::AlertIndicator && command is None ==> r == Err::<
                Option<bool>,
                UiError,
            >(UiError::NullPointer) && final(self)@ == old(self)@,
            old(self)@.owner != ItemOwner::AlertIndicator && command is Some && old(self)@.commands.contains(
                command->Some_0,
            ) ==> r == Ok::<Option<bool>, UiError>(None) && final(self)@ == old(self)@,
            old(self)@.owner != ItemOwner::AlertIndicator && command is Some && !old(self)@.commands.contains(
                command->Some_0,
            ) ==> r == Ok::<Option<bool>, UiError>(notice(old(self)@.owner, false)) && final(self)@ == (
            ItemView { commands: old(self)@.commands.push(command->Some_0), ..old(self)@ }),
    {
        if self.owner == ItemOwner::AlertIndicator {
            return Err(UiError::IllegalState);
        }
        let command = match command {
            Some(c) => c,
            None => {
                return Err(UiError::NullPointer);
            },
        };
        match self.find_command(command) {
            Some(_) => Ok(None),
            None => {
                let ghost before = self@;
                self.commands.push(command);
                proof {
                    assert forall|i: int, j: int| 0 <= i < j < self@.commands.len() implies self@.commands[i]
                        != self@.commands[j] by {
                        if j == before.commands.len() {
                            assert(before.commands.contains(before.commands[i]));
                        }
                    }
                    if let Some(c) = self.default_command {
                        let k = choose|k: int| 0 <= k < before.commands.len() && before.commands[k] == c;
                        assert(self@.commands[k] == c);
                    }
                }
                Ok(if self.owner == ItemOwner::Unowned {
                    None
                } else {
                    Some(false)
                })
            },
        }
    }

    /// Removes `command`; when it was the default command, the item has no
    /// default command any more. Returns what the owner is told.
    pub fn remove_command(&mut self, command: u64) -> (r: Result<Option<bool>, UiError>)
        requires
            item_wf(old(self)@),
        ensures
            item_wf(final(self)@),
            old(self)@.owner == ItemOwner::AlertIndicator ==> r == Err::<Option<bool>, UiError>(
                UiError::IllegalState,
            ) && final(self)@ == old(self)@,
            old(self)@.owner != ItemOwner::AlertIndicator && !old(self)@.commands.contains(command)
                ==> r == Ok::<Option<bool>, UiError>(None) && final(self)@ == old(self)@,
            old(self)@.owner != ItemOwner::AlertIndicator && old(self)@.commands.contains(command)
                ==> r == Ok::<Option<bool>, UiError>(notice(old(self)@.owner, false))
                && final(self)@ == (ItemView {
                commands: old(self)@.commands.remove(old(self)@.commands.index_of(command)),
                default_command: if old(self)@.default_command == Some(command) {
                    None
                } else {
                    old(self)@.default_command
                },
                ..old(self)@
            }),
    {
        if self.owner == ItemOwner::AlertIndicator {
            return Err(UiError::IllegalState);
        }
        match self.find_command(command) {
            None => Ok(None),
            Some(i) => {
                let ghost before = self@;
                proof {
                    assert(before.commands.index_of(command) == i) by {
                        let k = before.commands.index_of(command);
                        before.commands.index_of_first_ensures(command);
                        assert(before.commands.contains(command));
                        if k != i {
                            assert(before.commands[k] == before.commands[i as int]);
                        }
                    }
                }
                self.commands.remove(i);
                if self.default_command == Some(command) {
                    self.default_command = None;
                }
                proof {
                    let s = self@.commands;
                    assert(s =~= before.commands.remove(i as int));
                    assert forall|a: int, b: int| 0 <= a < b < s.len() implies s[a] != s[b] by {
                        let a2 = if a < i { a } else { a + 1 };
                        let b2 = if b < i { b } else { b + 1 };
                        assert(s[a] == before.commands[a2]);
                        assert(s[b] == before.commands[b2]);
                    }
                    if let Some(c) = self.default_command {
                        let k = choose|k: int| 0 <= k < before.commands.len() && before.commands[k] == c;
                        assert(c != command);
                        assert(k != i);
                        let k2 = if k < i { k } else { k - 1 };
                        assert(s[k2] == c);
                    }
                }
                Ok(if self.owner == ItemOwner::Unowned {
                    None
                } else {
                    Some(false)
                })
            },
        }
    }

    /// Replaces the label (empty for none). Returns what the owner is told.
    pub fn set_label(&mut self, label: MeasuredText) -> (r: Result<Option<bool>, UiError>)
        requires
            item_wf(old(self)@),
            text_wf(label@),
        ensures
            item_wf(final(self)@),
            old(self)@.owner == ItemOwner::AlertIndicator ==> r == Err::<Option<bool>, UiError>(
                UiError::IllegalState,
            ) && final(self)@ == old(self)@,
            old(self)@.owner != ItemOwner::AlertIndicator ==> r == Ok::<Option<bool>, UiError>(
                notice(old(self)@.owner, true),
            ) && final(self)@ == (ItemView { label: label@, ..old(self)@ }),
    {
        if self.owner == ItemOwner::AlertIndicator {
            return Err(UiError::IllegalState);
        }
        self.label = label;
        Ok(if self.owner == ItemOwner::Unowned {
            None
        } else {
            Some(true)
        })
    }

    /// Sets the layout directives; bits outside the item layouts are refused.
    pub fn set_layout(&mut self, layout: i32) -> (r: Result<Option<bool>, UiError>)
        requires
            item_wf(old(self)@),
        ensures
            item_wf(final(self)@),
            old(self)@.owner == ItemOwner::AlertIndicator ==> r == Err::<Option<bool>, UiError>(
                UiError::IllegalState,
            ) && final(self)@ == old(self)@,
            old(self)@.owner != ItemOwner::AlertIndicator && layout & !LAYOUT_MASK != 0 ==> r == Err::<
                Option<bool>,
                UiError,
            >(UiError::IllegalArgument) && final(self)@ == old(self)@,
            old(self)@.owner != ItemOwner::AlertIndicator && layout & !LAYOUT_MASK == 0 ==> r == Ok::<
                Option<bool>,
                UiError,
            >(notice(old(self)@.owner, true)) && final(self)@ == (ItemView {
                layout: layout as int,
                ..old(self)@
            }),
    {
        if self.owner == ItemOwner::AlertIndicator {
            return Err(UiError::IllegalState);
        }
        if layout & !LAYOUT_MASK != 0 {
            return Err(UiError::IllegalArgument);
        }
        self.layout = layout;
        Ok(if self.owner == ItemOwner::Unowned {
            None
        } else {
            Some(true)
        })
    }

    /// Height of the label's lines at `maximum_width` (0 without a label).
    fn label_lines_height(&self, maximum_width: Option<i32>) -> (r: i32)
        requires
            item_wf(self@),
            label_height(self@.label, opt_int(maximum_width)) <= i32::MAX,
        ensures
            r == label_height(self@.label, opt_int(maximum_width)),
    {
        if self.label.is_empty() {
            0
        } else {
            let n = self.label.line_count(maximum_width);
            (n as i32) * FONT_HEIGHT
        }
    }

    /// `getMinimumWidth`, given the content's least width.
    pub fn minimum_width(&self, content_minimum_width: i32) -> (r: i32)
        requires
            item_wf(self@),
        ensures
            r == minimum_width_of(self@, content_minimum_width as int),
    {
        let label_width = if self.label.is_empty() {
            0
        } else {
            self.label.minimum_width()
        };
        if content_minimum_width >= label_width {
            content_minimum_width
        } else {
            label_width
        }
    }

    /// `getMinimumHeight`, given the content's least height.
    pub fn minimum_height(&self, content_minimum_height: i32) -> (r: i32)
        requires
            item_wf(self@),
            label_height(self@.label, None) <= i32::MAX,
            fits_i32(minimum_height_of(self@, content_minimum_height as int)),
        ensures
            r == minimum_height_of(self@, content_minimum_height as int),
    {
        let label_h = self.label_lines_height(None);
        stack(label_h, content_minimum_height)
    }

    /// `getPreferredWidth`, given the content's least and preferred widths.
    pub fn preferred_width(&self, content_minimum_width: i32, content_preferred_width: i32) -> (r: i32)
        requires
            item_wf(self@),
        ensures
            r == preferred_width_of(
                self@,
                content_minimum_width as int,
                content_preferred_width as int,
            ),
    {
        let minimum = self.minimum_width(content_minimum_width);
        if self.preferred_width >= 0 {
            return if self.preferred_width >= minimum {
                self.preferred_width
            } else {
                minimum
            };
        }
        let label_width = if self.label.is_empty() {
            0
        } else {
            self.label.preferred_width()
        };
        let widest = if content_preferred_width >= label_width {
            content_preferred_width
        } else {
            label_width
        };
        if widest >= minimum {
            widest
        } else {
            minimum
        }
    }

    /// The height of the item laid out at `width`, given its content's
    /// height at that width.
    pub fn natural_height(&self, width: i32, content_height: i32) -> (r: i32)
        requires
            item_wf(self@),
            label_height(self@.label, Some(max(width as int, 1))) <= i32::MAX,
            fits_i32(natural_height_of(self@, width as int, content_height as int)),
        ensures
            r == natural_height_of(self@, width as int, content_height as int),
    {
        let wrap_width = if width >= 1 {
            width
        } else {
            1
        };
        let label_h = self.label_lines_height(Some(wrap_width));
        stack(label_h, content_height)
    }

    /// The width the item is measured at when offered `width` (negative:
    /// as wide as it likes).
    pub fn measured_width(&self, width: i32, content_minimum_width: i32, content_preferred_width: i32) -> (r:
        i32)
        requires
            item_wf(self@),
        ensures
            r == measured_width_of(
                self@,
                width as int,
                content_minimum_width as int,
                content_preferred_width as int,
            ),
    {
        let available = if width < 0 {
            self.preferred_width(content_minimum_width, content_preferred_width)
        } else {
            width
        };
        if self.preferred_width >= 0 {
            let minimum = self.minimum_width(content_minimum_width);
            let lock = if self.preferred_width >= minimum {
                self.preferred_width
            } else {
                minimum
            };
            if available <= lock {
                available
            } else {
                lock
            }
        } else {
            available
        }
    }

    /// `measureHeight` and `getPreferredHeight`: the item's height at
    /// `width`, the width it is measured at, given its content's least
    /// height and its content's height at `width`.
    pub fn measured_height(&self, content_minimum_height: i32, width: i32, content_height: i32) -> (r: i32)
        requires
            item_wf(self@),
            label_height(self@.label, None) <= i32::MAX,
            fits_i32(minimum_height_of(self@, content_minimum_height as int)),
            self@.preferred_height < 0 ==> label_height(self@.label, Some(max(width as int, 1)))
                <= i32::MAX,
            self@.preferred_height < 0 ==> fits_i32(
                natural_height_of(self@, width as int, content_height as int),
            ),
        ensures
            r == measured_height_of(
                self@,
                content_minimum_height as int,
                width as int,
                content_height as int,
            ),
    {
        let minimum = self.minimum_height(content_minimum_height);
        if self.preferred_height >= 0 {
            return if self.preferred_height >= minimum {
                self.preferred_height
            } else {
                minimum
            };
        }
        let natural = self.natural_height(width, content_height);
        if natural >= minimum {
            natural
        } else {
            minimum
        }
    }

    /// `setPreferredSize`: locks the width and height (-1 unlocks), never
    /// below the item's least size, which its label and the content's least
    /// size `content_minimum_width` x `content_minimum_height` give; lengths
    /// below -1 are refused.
    pub fn set_preferred_size(
        &mut self,
        width: i32,
        height: i32,
        content_minimum_width: i32,
        content_minimum_height: i32,
    ) -> (r: Result<Option<bool>, UiError>)
        requires
            item_wf(old(self)@),
            label_height(old(self)@.label, None) <= i32::MAX,
            fits_i32(minimum_height_of(old(self)@, content_minimum_height as int)),
        ensures
            item_wf(final(self)@),
            old(self)@.owner == ItemOwner::AlertIndicator ==> r == Err::<Option<bool>, UiError>(
                UiError::IllegalState,
            ) && final(self)@ == old(self)@,
            old(self)@.owner != ItemOwner::AlertIndicator && (width < -1 || height < -1) ==> r == Err::<
                Option<bool>,
                UiError,
            >(UiError::IllegalArgument) && final(self)@ == old(self)@,
            old(self)@.owner != ItemOwner::AlertIndicator && width >= -1 && height >= -1 ==> r == Ok::<
                Option<bool>,
                UiError,
            >(notice(old(self)@.owner, true)) && final(self)@ == (ItemView {
                preferred_width: size_lock(width as int, minimum_width_of(old(self)@, content_minimum_width as int)),
                preferred_height: size_lock(
                    height as int,
                    minimum_height_of(old(self)@, content_minimum_height as int),
                ),
                ..old(self)@
            }),
    {
        if self.owner == ItemOwner::AlertIndicator {
            return Err(UiError::IllegalState);
        }
        if width < -1 || height < -1 {
            return Err(UiError::IllegalArgument);
        }
        let minimum_width = self.minimum_width(content_minimum_width);
        let minimum_height = self.minimum_height(content_minimum_height);
        self.preferred_width = if width < 0 {
            -1
        } else if width >= minimum_width {
            width
        } else {
            minimum_width
        };
        self.preferred_height = if height < 0 {
            -1
        } else if height >= minimum_height {
            height
        } else {
            minimum_height
        };
        Ok(if self.owner == ItemOwner::Unowned {
            None
        } else {
            Some(true)
        })
    }

    /// `setDefaultCommand`: the command becomes one of the item's commands
    /// too; `None` clears the default. Returns what the owner is told.
    pub fn set_default_command(&mut self, command: Option<u64>) -> (r: Result<Option<bool>, UiError>)
        requires
            item_wf(old(self)@),
        ensures
            item_wf(final(self)@),
            old(self)@.owner == ItemOwner::AlertIndicator ==> r == Err::<Option<bool>, UiError>(
                UiError::IllegalState,
            ) && final(self)@ == old(self)@,
            old(self)@.owner != ItemOwner::AlertIndicator ==> r == Ok::<Option<bool>, UiError>(
                notice(old(self)@.owner, false),
            ) && final(self)@ == (ItemView {
                commands: match command {
                    Some(c) => if old(self)@.commands.contains(c) {
                        old(self)@.commands
                    } else {
                        old(self)@.commands.push(c)
                    },
                    None => old(self)@.commands,
                },
                default_command: command,
                ..old(self)@
            }),
    {
        if self.owner == ItemOwner::AlertIndicator {
            return Err(UiError::IllegalState);
        }
        if let Some(c) = command {
            if self.find_command(c).is_none() {
                let ghost before = self@;
                self.commands.push(c);
                proof {
                    assert forall|i: int, j: int| 0 <= i < j < self@.commands.len() implies self@.commands[i]
                        != self@.commands[j] by {
                        if j == before.commands.len() {
                            assert(before.commands.contains(before.commands[i]));
                        }
                    }
                }
            }
            proof {
                assert(self@.commands.contains(c)) by {
                    if !self@.commands.contains(c) {
                        assert(self@.commands[self@.commands.len() - 1] == c);
                    }
                }
            }
        }
        self.default_command = command;
        Ok(if self.owner == ItemOwner::Unowned {
            None
        } else {
            Some(false)
        })
    }

    /// `setItemCommandListener`: whether a listener is set now.
    pub fn set_item_command_listener(&mut self, has_listener: bool) -> (r: Result<Option<bool>, UiError>)
        requires
            item_wf(old(self)@),
        ensures
            item_wf(final(self)@),
            old(self)@.owner == ItemOwner::AlertIndicator ==> r == Err::<Option<bool>, UiError>(
                UiError::IllegalState,
            ) && final(self)@ == old(self)@,
            old(self)@.owner != ItemOwner::AlertIndicator ==> r == Ok::<Option<bool>, UiError>(
                notice(old(self)@.owner, false),
            ) && final(self)@ == (ItemView { has_listener, ..old(self)@ }),
    {
        if self.owner == ItemOwner::AlertIndicator {
            return Err(UiError::IllegalState);
        }
        self.has_listener = has_listener;
        Ok(if self.owner == ItemOwner::Unowned {
            None
        } else {
            Some(false)
        })
    }

    /// `notifyStateChanged`: only a form's item can report a change; the
    /// form then tells its item-state listener.
    pub fn notify_state_changed(&self) -> (r: Result<(), UiError>)
        ensures
            r == (if self@.owner == ItemOwner::Form {
                Ok(())
            } else {
                Err(UiError::IllegalState)
            }),
    {
        if self.owner == ItemOwner::Form {
            Ok(())
        } else {
            Err(UiError::IllegalState)
        }
    }

    /// An item takes focus when it has commands.
    pub fn is_focusable(&self) -> (r: bool)
        ensures
            r == (self@.commands.len() > 0),
    {
        self.commands.len() > 0
    }

    /// `dispatchCommand`: whether an item command listener is told.
    pub fn dispatch_command(&self) -> (r: bool)
        ensures
            r == self@.has_listener,
    {
        self.has_listener
    }

    /// `appearance_inset`: how far a button's content is inset.
    pub fn appearance_inset(appearance_mode: i32) -> (r: i32)
        ensures
            r == appearance_inset_of(appearance_mode as int),
    {
        if appearance_mode == BUTTON {
            BUTTON_INSET
        } else {
            0
        }
    }

    /// The span `[top, bottom)` of the item that must show when it has
    /// focus, in an item of `width` x `height`: the whole item, or the
    /// content-local `content_bounds` moved below the label and cut at the
    /// item's bottom.
    pub fn focus_bounds(&self, width: i32, height: i32, content_bounds: Option<(i32, i32)>) -> (r: (
        i32,
        i32,
    ))
        requires
            item_wf(self@),
            label_height(self@.label, Some(width as int)) <= i32::MAX,
            content_bounds matches Some((top, bottom)) ==> fits_i32(
                focus_content_y(self@, width as int, height as int) + top,
            ) && fits_i32(focus_content_y(self@, width as int, height as int) + bottom),
        ensures
            (r.0 as int, r.1 as int) == focus_bounds_of(self@, width as int, height as int, content_bounds),
    {
        match content_bounds {
            None => (0, height),
            Some((top, bottom)) => {
                let lines = self.label_lines_height(Some(width));
                let label_h = if lines <= height {
                    lines
                } else {
                    height
                };
                let content_y = if label_h > 0 {
                    let rest = height - label_h;
                    label_h + if LABEL_CONTENT_GAP <= rest {
                        LABEL_CONTENT_GAP
                    } else {
                        rest
                    }
                } else {
                    label_h
                };
                let a = content_y + top;
                let b = content_y + bottom;
                (if a <= height {
                    a
                } else {
                    height
                }, if b <= height {
                    b
                } else {
                    height
                })
            },
        }
    }

    /// Where the label and the content go when the item is painted in a
    /// `width` x `height` rectangle, or `None` when nothing shows.
    /// `content_height` is the content's preferred height at the painted width.
    pub fn paint_layout(&self, width: i32, height: i32, content_height: i32) -> (r: Option<
        ItemPaintLayout,
    >)
        requires
            item_wf(self@),
            label_height(self@.label, Some(max(width as int, 0))) <= i32::MAX,
        ensures
            match r {
                None => width <= 0 || height <= 0,
                Some(p) => {
                    let w = width as int;
                    let h = height as int;
                    let lh = min(label_height(self@.label, Some(w)), h);
                    let gap = if lh > 0 && content_height > 0 {
                        min(LABEL_CONTENT_GAP as int, h - lh)
                    } else {
                        0
                    };
                    &&& width > 0 && height > 0
                    &&& p.width == w && p.height == h
                    &&& p.label_height == lh
                    &&& p.visible_label_lines == (lh + FONT_HEIGHT - 1) / (FONT_HEIGHT as int)
                    &&& p.content_y == lh + gap
                    &&& p.content_height == h - lh - gap
                },
            },
    {
        if width <= 0 || height <= 0 {
            return None;
        }
        let lines = self.label_lines_height(Some(width));
        let label_h = if lines <= height {
            lines
        } else {
            height
        };
        let gap = if label_h > 0 && content_height > 0 {
            let rest = height - label_h;
            if LABEL_CONTENT_GAP <= rest {
                LABEL_CONTENT_GAP
            } else {
                rest
            }
        } else {
            0
        };
        let visible = label_h / FONT_HEIGHT + if label_h % FONT_HEIGHT != 0 {
            1
        } else {
            0
        };
        Some(
            ItemPaintLayout {
                width,
                height,
                label_height: label_h,
                visible_label_lines: visible,
                content_y: label_h + gap,
                content_height: height - label_h - gap,
            },
        )
    }
}

/// Where the content starts below the label when focus bounds are taken.
pub open spec fn focus_content_y(v: ItemView, width: int, height: int) -> int {
    let lh = min(label_height(v.label, Some(width)), height);
    if lh > 0 {
        lh + min(LABEL_CONTENT_GAP as int, height - lh)
    } else {
        lh
    }
}

pub open spec fn focus_bounds_of(
    v: ItemView,
    width: int,
    height: int,
    content_bounds: Option<(i32, i32)>,
) -> (int, int) {
    match content_bounds {
        None => (0, height),
        Some((top, bottom)) => {
            let y = focus_content_y(v, width, height);
            (min(y + top, height), min(y + bottom, height))
        },
    }
}

/// A label height stacked over a content height.
fn stack(label_h: i32, content_h: i32) -> (r: i32)
    requires
        fits_i32(stacked(label_h as int, content_h as int)),
    ensures
        r == stacked(label_h as int, content_h as int),
{
    if label_h > 0 && content_h > 0 {
        label_h + content_h + LABEL_CONTENT_GAP
    } else {
        label_h + content_h
    }
}

} // verus!
