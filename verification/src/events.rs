//! The events the platform queues for a MIDlet's listeners: a command
//! chosen on a screen or an item, and a change of an item's state.
use vstd::prelude::*;

verus! {

/// `javax.microedition.lcdui.CommandListener`: told of commands chosen on a
/// screen. Programs implement it.
pub trait CommandListener {
    fn command_action(&mut self, command: u64, displayable: u64);
}

/// `javax.microedition.lcdui.ItemCommandListener`: told of commands chosen
/// on an item. Programs implement it.
pub trait ItemCommandListener {
    fn command_action(&mut self, command: u64, item: u64);
}

/// Whom a command event is for.
#[derive(Debug, Clone, Copy, PartialEq, Eq, Structural)]
pub enum CommandTarget {
    /// The command listener of this displayable.
    Displayable(u64),
    /// The item command listener of this item.
    Item(u64),
}

/// `net.wie.CommandEvent`: a command chosen on a screen or an item, run
/// later from the event queue.
pub struct CommandEvent {
    command: u64,
    target: CommandTarget,
}

impl CommandEvent {
    /// A command chosen on `displayable`.
    pub fn new(command: u64, displayable: u64) -> (r: CommandEvent)
        ensures
            r.spec_command() == command,
            r.spec_target() == CommandTarget::Displayable(displayable),
    {
        CommandEvent { command, target: CommandTarget::Displayable(displayable) }
    }

    /// A command chosen on `item`.
    pub fn new_item(command: u64, item: u64) -> (r: CommandEvent)
        ensures
            r.spec_command() == command,
            r.spec_target() == CommandTarget::Item(item),
    {
        CommandEvent { command, target: CommandTarget::Item(item) }
    }

    pub closed spec fn spec_command(&self) -> u64 {
        self.command
    }

    pub closed spec fn spec_target(&self) -> CommandTarget {
        self.target
    }

    pub fn command(&self) -> (r: u64)
        ensures
            r == self.spec_command(),
    {
        self.command
    }

    pub fn target(&self) -> (r: CommandTarget)
        ensures
            r == self.spec_target(),
    {
        self.target
    }

    /// `run`: tells the listener the event is for, and only that one, and
    /// returns the call it made: the command with the displayable to the
    /// command listener, or the command with the item to the item command
    /// listener.
    pub fn run<L: CommandListener, I: ItemCommandListener>(&self, listener: &mut L, item_listener: &mut I) -> (r: (
        u64,
        CommandTarget,
    ))
        ensures
            r == (self.spec_command(), self.spec_target()),
    {
        match self.target {
            CommandTarget::Displayable(d) => listener.command_action(self.command, d),
            CommandTarget::Item(i) => item_listener.command_action(self.command, i),
        }
        (self.command, self.target)
    }
}

/// `net.wie.ItemStateEvent`: an item of a form changed state; run later,
/// it has the form tell its item-state listener.
pub struct ItemStateEvent {
    form: u64,
    item: u64,
}

impl ItemStateEvent {
    pub fn new(form: u64, item: u64) -> (r: ItemStateEvent)
        ensures
            r.spec_form() == form,
            r.spec_item() == item,
    {
        ItemStateEvent { form, item }
    }

    pub closed spec fn spec_form(&self) -> u64 {
        self.form
    }

    pub closed spec fn spec_item(&self) -> u64 {
        self.item
    }

    /// `run`: the form that dispatches the change, and the item that changed.
    pub fn run(&self) -> (r: (u64, u64))
        ensures
            r == (self.spec_form(), self.spec_item()),
    {
        (self.form, self.item)
    }
}

} // verus!
