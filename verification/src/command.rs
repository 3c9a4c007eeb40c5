//! `javax.microedition.lcdui.Command`.
use vstd::prelude::*;

use crate::errors::UiError;

verus! {

/// Command types.
pub const SCREEN: i32 = 1;
pub const BACK: i32 = 2;
pub const CANCEL: i32 = 3;
pub const OK: i32 = 4;
pub const HELP: i32 = 5;
pub const STOP: i32 = 6;
pub const EXIT: i32 = 7;
pub const ITEM: i32 = 8;

/// `javax.microedition.lcdui.Command`: a labelled action of a screen or an item.
pub struct Command {
    label: Vec<char>,
    long_label: Option<Vec<char>>,
    command_type: i32,
    priority: i32,
}

pub open spec fn valid_command_type(command_type: int) -> bool {
    SCREEN <= command_type <= ITEM
}

impl Command {
    /// A command. A missing short label and a type outside `SCREEN..=ITEM`
    /// are refused, in that order.
    pub fn new(label: Option<Vec<char>>, long_label: Option<Vec<char>>, command_type: i32, priority: i32) -> (r:
        Result<Command, UiError>)
        ensures
            match r {
                Ok(c) => {
                    &&& label matches Some(l) && c.spec_label() == l@
                    &&& valid_command_type(command_type as int)
                    &&& c.spec_long_label() == (match long_label {
                        Some(l) => Some(l@),
                        None => None::<Seq<char>>,
                    })
                    &&& c.spec_command_type() == command_type
                    &&& c.spec_priority() == priority
                },
                Err(e) => (label is None && e == UiError::NullPointer) || (label is Some && e
                    == UiError::IllegalArgument && !valid_command_type(command_type as int)),
            },
    {
        let label = match label {
            Some(l) => l,
            None => return Err(UiError::NullPointer),
        };
        if command_type < SCREEN || command_type > ITEM {
            return Err(UiError::IllegalArgument);
        }
        Ok(Command { label, long_label, command_type, priority })
    }

    /// The command an alert offers when it has no command of its own: an
    /// `OK` command with an empty label.
    pub fn dismiss() -> (r: Command)
        ensures
            r.spec_label().len() == 0,
            r.spec_long_label() is None,
            r.spec_command_type() == OK,
            r.spec_priority() == 0,
    {
        Command { label: Vec::new(), long_label: None, command_type: OK, priority: 0 }
    }

    pub closed spec fn spec_label(&self) -> Seq<char> {
        self.label@
    }

    pub closed spec fn spec_long_label(&self) -> Option<Seq<char>> {
        match self.long_label {
            Some(l) => Some(l@),
            None => None,
        }
    }

    pub closed spec fn spec_command_type(&self) -> int {
        self.command_type as int
    }

    pub closed spec fn spec_priority(&self) -> int {
        self.priority as int
    }

    pub fn label(&self) -> (r: &Vec<char>)
        ensures
            r@ == self.spec_label(),
    {
        &self.label
    }

    pub fn long_label(&self) -> (r: Option<&Vec<char>>)
        ensures
            match r {
                Some(l) => self.spec_long_label() == Some(l@),
                None => self.spec_long_label() is None,
            },
    {
        match &self.long_label {
            Some(l) => Some(l),
            None => None,
        }
    }

    pub fn command_type(&self) -> (r: i32)
        ensures
            r == self.spec_command_type(),
    {
        self.command_type
    }

    pub fn priority(&self) -> (r: i32)
        ensures
            r == self.spec_priority(),
    {
        self.priority
    }
}

} // verus!
