//! `org.kwis.msp.db`: errors of the WIPI record database.
use vstd::prelude::*;

verus! {

/// `org.kwis.msp.db.DataBaseRecordException`: a record of the database
/// could not be read or written; it may carry a message.
pub struct DataBaseRecordException {
    message: Option<Vec<char>>,
}

impl DataBaseRecordException {
    pub fn new() -> (r: DataBaseRecordException)
        ensures
            r.spec_message() is None,
    {
        DataBaseRecordException { message: None }
    }

    pub fn with_message(message: Option<Vec<char>>) -> (r: DataBaseRecordException)
        ensures
            r.spec_message() == (match message {
                Some(m) => Some(m@),
                None => None::<Seq<char>>,
            }),
    {
        DataBaseRecordException { message }
    }

    pub closed spec fn spec_message(&self) -> Option<Seq<char>> {
        match self.message {
            Some(m) => Some(m@),
            None => None,
        }
    }

    pub fn message(&self) -> (r: Option<&Vec<char>>)
        ensures
            match r {
                Some(m) => self.spec_message() == Some(m@),
                None => self.spec_message() is None,
            },
    {
        match &self.message {
            Some(m) => Some(m),
            None => None,
        }
    }
}

} // verus!
