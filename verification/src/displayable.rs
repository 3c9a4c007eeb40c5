//! `javax.microedition.lcdui.Displayable` and its plain subclasses
//! `Screen` and `Canvas`: commands, decorations and the size callback.
use vstd::prelude::*;

use crate::errors::UiError;
use crate::event_queue::{
    keyboard_event_type_of, midp_key_code, KeyboardEventType, MIDPKeyCode, KEY_DOWN, KEY_FIRE, KEY_LEFT, KEY_RIGHT,
    KEY_UP,
};
use crate::font::{text_wf, MeasuredText, TextView};
use crate::item::no_duplicates;

verus! {

/// The abstract state of a displayable.
pub struct DisplayableView {
    pub title: Option<TextView>,
    pub ticker: Option<u64>,
    /// Commands, in the order they were added.
    pub commands: Seq<u64>,
    pub has_listener: bool,
    /// Whether a display holds this displayable.
    pub attached: bool,
    /// The size last reported to the size callback, if one was.
    pub notified: Option<(i32, i32)>,
    /// The size may have changed since it was last reported.
    pub size_dirty: bool,
    /// The size callback is running.
    pub size_notifying: bool,
    pub menu_open: bool,
    pub menu_index: int,
    pub fullscreen: bool,
}

/// `javax.microedition.lcdui.Displayable`. Commands and tickers are named
/// by identifiers.
pub struct Displayable {
    title: Option<MeasuredText>,
    ticker: Option<u64>,
    commands: Vec<u64>,
    has_listener: bool,
    attached: bool,
    notified: Option<(i32, i32)>,
    size_dirty: bool,
    size_notifying: bool,
    menu_open: bool,
    menu_index: i32,
    fullscreen: bool,
}

impl View for Displayable {
    type V = DisplayableView;

    closed spec fn view(&self) -> DisplayableView {
        DisplayableView {
            title: match self.title {
                Some(t) => Some(t@),
                None => None,
            },
            ticker: self.ticker,
            commands: self.commands@,
            has_listener: self.has_listener,
            attached: self.attached,
            notified: self.notified,
            size_dirty: self.size_dirty,
            size_notifying: self.size_notifying,
            menu_open: self.menu_open,
            menu_index: self.menu_index as int,
            fullscreen: self.fullscreen,
        }
    }
}

pub open spec fn displayable_wf(v: DisplayableView) -> bool {
    &&& no_duplicates(v.commands)
    &&& (v.title matches Some(t) ==> text_wf(t))
    &&& -1 <= v.menu_index <= i32::MAX
}

/// What a change of decorations does: the size must be reported again and
/// the command menu closes.
pub open spec fn decorated(v: DisplayableView) -> DisplayableView {
    DisplayableView { size_dirty: true, menu_open: false, menu_index: -1, ..v }
}

/// One step of reporting the size to the size callback.
#[derive(Debug, Clone, Copy, PartialEq, Eq, Structural)]
pub enum SizeStep {
    /// Nothing (more) to report.
    Done,
    /// Call the size callback with this width and height, then
    /// `end_size_notification`, then step again.
    Notify(i32, i32),
}

/// The size callback step: while the callback runs nothing is reported;
/// a displayable the display does not show reports nothing; a size already
/// reported is not reported twice.
pub open spec fn size_step(v: DisplayableView, is_current: bool, width: i32, height: i32) -> (
    DisplayableView,
    SizeStep,
) {
    if v.size_notifying || !v.size_dirty || !v.attached || !is_current {
        (v, SizeStep::Done)
    } else if v.notified == Some((width, height)) {
        (DisplayableView { size_dirty: false, ..v }, SizeStep::Done)
    } else {
        (
            DisplayableView {
                size_dirty: false,
                notified: Some((width, height)),
                size_notifying: true,
                ..v
            },
            SizeStep::Notify(width, height),
        )
    }
}

impl Displayable {
    /// A displayable with no title, ticker, commands or listener, not
    /// shown, whose size has not been reported yet.
    pub fn new() -> (r: Displayable)
        ensures
            displayable_wf(r@),
            r@ == (DisplayableView {
                title: None,
                ticker: None,
                commands: Seq::empty(),
                has_listener: false,
                attached: false,
                notified: None,
                size_dirty: true,
                size_notifying: false,
                menu_open: false,
                menu_index: -1,
                fullscreen: false,
            }),
    {
        let r = Displayable {
            title: None,
            ticker: None,
            commands: Vec::new(),
            has_listener: false,
            attached: false,
            notified: None,
            size_dirty: true,
            size_notifying: false,
            menu_open: false,
            menu_index: -1,
            fullscreen: false,
        };
        proof {
            assert(r@.commands =~= Seq::<u64>::empty());
        }
        r
    }

    pub fn title(&self) -> (r: Option<&MeasuredText>)
        ensures
            match r {
                Some(t) => self@.title == Some(t@),
                None => self@.title is None,
            },
    {
        match &self.title {
            Some(t) => Some(t),
            None => None,
        }
    }

    pub fn ticker(&self) -> (r: Option<u64>)
        ensures
            r == self@.ticker,
    {
        self.ticker
    }

    pub fn commands(&self) -> (r: &Vec<u64>)
        ensures
            r@ == self@.commands,
    {
        &self.commands
    }

    pub fn has_command_listener(&self) -> (r: bool)
        ensures
            r == self@.has_listener,
    {
        self.has_listener
    }

    pub fn is_attached(&self) -> (r: bool)
        ensures
            r == self@.attached,
    {
        self.attached
    }

    pub fn is_full_screen(&self) -> (r: bool)
        ensures
            r == self@.fullscreen,
    {
        self.fullscreen
    }

    /// `isShown`: the display that holds this displayable shows it.
    pub fn is_shown(&self, is_current: bool) -> (r: bool)
        ensures
            r == (self@.attached && is_current),
    {
        self.attached && is_current
    }

    /// `decorationChanged`: the size is reported again and the command menu
    /// closes. Returns whether a display holds the displayable, which must
    /// then report the size and repaint.
    pub fn decoration_changed(&mut self) -> (r: bool)
        requires
            displayable_wf(old(self)@),
        ensures
            displayable_wf(final(self)@),
            final(self)@ == decorated(old(self)@),
            r == old(self)@.attached,
    {
        self.size_dirty = true;
        self.menu_open = false;
        self.menu_index = -1;
        self.attached
    }

    /// `setTitle`, followed by `decoration_changed`.
    pub fn set_title(&mut self, title: Option<MeasuredText>) -> (r: bool)
        requires
            displayable_wf(old(self)@),
            title matches Some(t) ==> text_wf(t@),
        ensures
            displayable_wf(final(self)@),
            final(self)@ == decorated(
                DisplayableView {
                    title: match title {
                        Some(t) => Some(t@),
                        None => None,
                    },
                    ..old(self)@
                },
            ),
            r == old(self)@.attached,
    {
        self.title = title;
        self.decoration_changed()
    }

    /// `setTicker`. Setting the ticker it has already does nothing (`None`);
    /// otherwise the decorations change and the result says whether the
    /// display must be told of a new visible ticker.
    pub fn set_ticker(&mut self, ticker: Option<u64>, is_current: bool) -> (r: Option<bool>)
        requires
            displayable_wf(old(self)@),
        ensures
            displayable_wf(final(self)@),
            old(self)@.ticker == ticker ==> r is None && final(self)@ == old(self)@,
            old(self)@.ticker != ticker ==> r == Some(old(self)@.attached && is_current)
                && final(self)@ == decorated(DisplayableView { ticker, ..old(self)@ }),
    {
        if self.ticker == ticker {
            return None;
        }
        self.ticker = ticker;
        let shown = self.attached && is_current;
        self.decoration_changed();
        Some(shown)
    }

    fn find_command(&self, command: u64) -> (r: Option<usize>)
        ensures
            match r {
                Some(i) => i < self@.commands.len() && self@.commands[i as int] == command,
                None => !self@.commands.contains(command),
            },
    {
        let mut i: usize = 0;
        while i < self.commands.len()
            invariant
                i <= self@.commands.len(),
                forall|j: int| 0 <= j < i ==> self@.commands[j] != command,
            decreases self@.commands.len() - i,
        {
            if self.commands[i] == command {
                return Some(i);
            }
            i += 1;
        }
        None
    }

    /// `addCommand`: adds `command` after the others unless it is there
    /// already; returns whether it was added (the decorations then change).
    /// `None` stands for a null command, which is refused.
    pub fn add_command(&mut self, command: Option<u64>) -> (r: Result<bool, UiError>)
        requires
            displayable_wf(old(self)@),
        ensures
            displayable_wf(final(self)@),
            command is None ==> r == Err::<bool, UiError>(UiError::NullPointer) && final(self)@ == old(self)@,
            command is Some ==> r == Ok::<bool, UiError>(!old(self)@.commands.contains(command->Some_0)),
            r == Ok::<bool, UiError>(true) ==> final(self)@ == decorated(
                DisplayableView { commands: old(self)@.commands.push(command->Some_0), ..old(self)@ },
            ),
            r == Ok::<bool, UiError>(false) ==> final(self)@ == old(self)@,
    {
        let command = match command {
            Some(c) => c,
            None => {
                return Err(UiError::NullPointer);
            },
        };
        if self.find_command(command).is_some() {
            return Ok(false);
        }
        let ghost before = self@;
        self.commands.push(command);
        proof {
            assert forall|i: int, j: int| 0 <= i < j < self@.commands.len() implies self@.commands[i]
                != self@.commands[j] by {
                if j == before.commands.len() {
                    assert(before.commands.contains(before.commands[i]));
                }
            }
        }
        self.decoration_changed();
        Ok(true)
    }

    /// `removeCommand`: removes `command`; returns whether it was there
    /// (the decorations then change).
    pub fn remove_command(&mut self, command: u64) -> (r: bool)
        requires
            displayable_wf(old(self)@),
        ensures
            displayable_wf(final(self)@),
            r == old(self)@.commands.contains(command),
            r ==> final(self)@ == decorated(
                DisplayableView {
                    commands: old(self)@.commands.remove(old(self)@.commands.index_of(command)),
                    ..old(self)@
                },
            ),
            !r ==> final(self)@ == old(self)@,
    {
        match self.find_command(command) {
            None => false,
            Some(i) => {
                let ghost before = self@;
                proof {
                    let k = before.commands.index_of(command);
                    before.commands.index_of_first_ensures(command);
                    if k != i {
                        assert(before.commands[k] == before.commands[i as int]);
                    }
                }
                self.commands.remove(i);
                proof {
                    let s = self@.commands;
                    assert forall|a: int, b: int| 0 <= a < b < s.len() implies s[a] != s[b] by {
                        let a2 = if a < i { a } else { a + 1 };
                        let b2 = if b < i { b } else { b + 1 };
                        assert(s[a] == before.commands[a2]);
                        assert(s[b] == before.commands[b2]);
                    }
                }
                self.decoration_changed();
                true
            },
        }
    }

    /// `setCommandListener`: whether a listener is set now.
    pub fn set_command_listener(&mut self, has_listener: bool)
        requires
            displayable_wf(old(self)@),
        ensures
            displayable_wf(final(self)@),
            final(self)@ == (DisplayableView { has_listener, ..old(self)@ }),
    {
        self.has_listener = has_listener;
    }

    /// `getCommandCount`.
    pub fn command_count(&self) -> (r: usize)
        ensures
            r == self@.commands.len(),
    {
        self.commands.len()
    }

    /// `getCommandAt`: an index outside the commands is refused.
    pub fn command_at(&self, index: i32) -> (r: Result<u64, UiError>)
        ensures
            0 <= index < self@.commands.len() ==> r == Ok::<u64, UiError>(
                self@.commands[index as int],
            ),
            !(0 <= index < self@.commands.len()) ==> r == Err::<u64, UiError>(
                UiError::IndexOutOfBounds,
            ),
    {
        if index < 0 || index as usize >= self.commands.len() {
            return Err(UiError::IndexOutOfBounds);
        }
        Ok(self.commands[index as usize])
    }

    /// `dispatchCommandAt`: the command at `index`, paired with whether the
    /// command listener is told of it.
    pub fn dispatch_command_at(&self, index: i32) -> (r: Result<(u64, bool), UiError>)
        ensures
            0 <= index < self@.commands.len() ==> r == Ok::<(u64, bool), UiError>(
                (self@.commands[index as int], self@.has_listener),
            ),
            !(0 <= index < self@.commands.len()) ==> r == Err::<(u64, bool), UiError>(
                UiError::IndexOutOfBounds,
            ),
    {
        let command = self.command_at(index)?;
        Ok((command, self.has_listener))
    }

    /// `setDisplay`: a display takes (`true`) or releases the displayable;
    /// its size must be reported again and the command menu closes.
    pub fn set_display(&mut self, attached: bool)
        requires
            displayable_wf(old(self)@),
        ensures
            displayable_wf(final(self)@),
            final(self)@ == decorated(DisplayableView { attached, ..old(self)@ }),
    {
        self.attached = attached;
        self.size_dirty = true;
        self.menu_open = false;
        self.menu_index = -1;
    }

    /// `requestRepaint`: whether a display is asked to repaint.
    pub fn request_repaint(&self) -> (r: bool)
        ensures
            r == self@.attached,
    {
        self.attached
    }

    /// `itemStateChanged`: only a form has items that report changes.
    pub fn item_state_changed(&self) -> (r: Result<(), UiError>)
        ensures
            r == Err::<(), UiError>(UiError::IllegalState),
    {
        Err(UiError::IllegalState)
    }

    /// One step of `notifySizeChanged`; see [`size_step`].
    pub fn size_notification(&mut self, is_current: bool, width: i32, height: i32) -> (r: SizeStep)
        requires
            displayable_wf(old(self)@),
        ensures
            displayable_wf(final(self)@),
            (final(self)@, r) == size_step(old(self)@, is_current, width, height),
    {
        if self.size_notifying || !self.size_dirty || !self.attached || !is_current {
            return SizeStep::Done;
        }
        self.size_dirty = false;
        if self.notified == Some((width, height)) {
            return SizeStep::Done;
        }
        self.notified = Some((width, height));
        self.size_notifying = true;
        SizeStep::Notify(width, height)
    }

    /// The size callback has returned.
    pub fn end_size_notification(&mut self)
        requires
            displayable_wf(old(self)@),
        ensures
            displayable_wf(final(self)@),
            final(self)@ == (DisplayableView { size_notifying: false, ..old(self)@ }),
    {
        self.size_notifying = false;
    }

    /// Records whether the displayable wants the whole screen; returns
    /// whether that changed.
    pub fn set_full_screen(&mut self, fullscreen: bool) -> (r: bool)
        requires
            displayable_wf(old(self)@),
        ensures
            displayable_wf(final(self)@),
            final(self)@ == (DisplayableView { fullscreen, ..old(self)@ }),
            r == (old(self)@.fullscreen != fullscreen),
    {
        let changed = self.fullscreen != fullscreen;
        self.fullscreen = fullscreen;
        changed
    }
}

/// A size reported once is not reported again until the decorations
/// change: after a step that reported `(width, height)` and the callback's
/// end, the next step at the same size reports nothing.
pub proof fn lemma_size_reported_once(v: DisplayableView, width: i32, height: i32)
    requires
        size_step(v, true, width, height).1 == SizeStep::Notify(width, height),
    ensures
        ({
            let after = DisplayableView { size_notifying: false, ..size_step(v, true, width, height).0 };
            size_step(after, true, width, height).1 == SizeStep::Done
        }),
{
}

/// While the size callback runs, no size is reported: the callback is
/// never entered again from inside itself.
pub proof fn lemma_no_nested_size_callback(v: DisplayableView, is_current: bool, width: i32, height: i32)
    requires
        v.size_notifying,
    ensures
        size_step(v, is_current, width, height) == (v, SizeStep::Done),
{
}

/// Adding a command twice is adding it once.
pub proof fn lemma_add_command_idempotent(v: DisplayableView, command: u64)
    requires
        displayable_wf(v),
        !v.commands.contains(command),
    ensures
        v.commands.push(command).contains(command),
{
    assert(v.commands.push(command)[v.commands.len() as int] == command);
}

/// Removing a command just added gives back the commands there were.
pub proof fn lemma_remove_undoes_add(v: DisplayableView, command: u64)
    requires
        displayable_wf(v),
        !v.commands.contains(command),
    ensures
        v.commands.push(command).remove(v.commands.push(command).index_of(command)) == v.commands,
{
    let s = v.commands.push(command);
    let n = v.commands.len() as int;
    assert(s[n] == command);
    s.index_of_first_ensures(command);
    let k = s.index_of(command);
    if k < n {
        assert(v.commands[k] == command);
        assert(v.commands.contains(command));
    }
    assert(s.remove(n) =~= v.commands);
}

/// `javax.microedition.lcdui.Screen`: a screen paints its background white
/// before its content, and draws in black.
pub struct Screen;

pub const SCREEN_BACKGROUND: i32 = 0xffffff;
pub const SCREEN_FOREGROUND: i32 = 0;

impl Screen {
    /// The rectangle a screen clears in its background color before its
    /// content paints: the whole content area.
    pub fn background(width: i32, height: i32) -> (r: (i32, i32, i32, i32))
        ensures
            r == (0i32, 0i32, width, height),
    {
        (0, 0, width, height)
    }
}

/// Which `Canvas` callback a key event goes to.
#[derive(Debug, Clone, Copy, PartialEq, Eq, Structural)]
pub enum CanvasKey {
    Pressed,
    Released,
    Repeated,
}

/// Game actions.
pub const GAME_UP: i32 = 1;
pub const GAME_LEFT: i32 = 2;
pub const GAME_RIGHT: i32 = 5;
pub const GAME_DOWN: i32 = 6;
pub const GAME_FIRE: i32 = 8;

/// The game action of a key code: the direction keys and FIRE have one,
/// other keys none (0).
pub open spec fn game_action_of(key: i32) -> i32 {
    if key == KEY_UP {
        GAME_UP
    } else if key == KEY_DOWN {
        GAME_DOWN
    } else if key == KEY_LEFT {
        GAME_LEFT
    } else if key == KEY_RIGHT {
        GAME_RIGHT
    } else if key == KEY_FIRE {
        GAME_FIRE
    } else {
        0
    }
}

/// `javax.microedition.lcdui.Canvas`: a displayable that paints itself and
/// receives key events.
pub struct Canvas {
    pub displayable: Displayable,
}

impl Canvas {
    pub fn new() -> (r: Canvas)
        ensures
            displayable_wf(r.displayable@),
            !r.displayable@.fullscreen,
            !r.displayable@.attached,
            r.displayable@.commands.len() == 0,
    {
        Canvas { displayable: Displayable::new() }
    }

    /// `getGameAction`.
    pub fn get_game_action(key: i32) -> (r: i32)
        ensures
            r == game_action_of(key),
    {
        let k = MIDPKeyCode::from_raw(key);
        proof {
            if k is None {
                assert(midp_key_code(MIDPKeyCode::UP) != key);
                assert(midp_key_code(MIDPKeyCode::DOWN) != key);
                assert(midp_key_code(MIDPKeyCode::LEFT) != key);
                assert(midp_key_code(MIDPKeyCode::RIGHT) != key);
                assert(midp_key_code(MIDPKeyCode::FIRE) != key);
            }
        }
        match k {
            Some(MIDPKeyCode::UP) => GAME_UP,
            Some(MIDPKeyCode::DOWN) => GAME_DOWN,
            Some(MIDPKeyCode::LEFT) => GAME_LEFT,
            Some(MIDPKeyCode::RIGHT) => GAME_RIGHT,
            Some(MIDPKeyCode::FIRE) => GAME_FIRE,
            _ => 0,
        }
    }

    /// Which callback a key event of kind `event_type` goes to: typed keys
    /// go to none; an unknown kind is refused.
    pub fn key_callback(event_type: i32) -> (r: Result<Option<CanvasKey>, UiError>)
        ensures
            r == (match keyboard_event_type_of(event_type) {
                None => Err(UiError::IllegalArgument),
                Some(KeyboardEventType::KeyPressed) => Ok(Some(CanvasKey::Pressed)),
                Some(KeyboardEventType::KeyReleased) => Ok(Some(CanvasKey::Released)),
                Some(KeyboardEventType::KeyRepeated) => Ok(Some(CanvasKey::Repeated)),
                Some(KeyboardEventType::KeyTyped) => Ok(None),
            }),
    {
        match KeyboardEventType::from_raw(event_type) {
            None => Err(UiError::IllegalArgument),
            Some(KeyboardEventType::KeyPressed) => Ok(Some(CanvasKey::Pressed)),
            Some(KeyboardEventType::KeyReleased) => Ok(Some(CanvasKey::Released)),
            Some(KeyboardEventType::KeyRepeated) => Ok(Some(CanvasKey::Repeated)),
            Some(KeyboardEventType::KeyTyped) => Ok(None),
        }
    }

    /// `setFullScreenMode`: returns whether the display holding the canvas
    /// must change its mode too.
    pub fn set_full_screen_mode(&mut self, mode: bool) -> (r: bool)
        requires
            displayable_wf(old(self).displayable@),
        ensures
            displayable_wf(final(self).displayable@),
            final(self).displayable@ == (DisplayableView { fullscreen: mode, ..old(self).displayable@ }),
            r == (old(self).displayable@.fullscreen != mode && old(self).displayable@.attached),
    {
        let changed = self.displayable.set_full_screen(mode);
        changed && self.displayable.is_attached()
    }

    /// A canvas is always double buffered.
    pub fn is_double_buffered(&self) -> (r: bool)
        ensures
            r,
    {
        true
    }
}

} // verus!
