//! The errors the user-interface models report, one per Java exception
//! class that the platform raises for them.
use vstd::prelude::*;

verus! {

/// A rejected call, named after the Java exception it is reported as.
#[derive(Debug, Clone, Copy, PartialEq, Eq, Structural)]
pub enum UiError {
    /// `java.lang.IllegalArgumentException`
    IllegalArgument,
    /// `java.lang.IndexOutOfBoundsException`
    IndexOutOfBounds,
    /// `java.lang.IllegalStateException`
    IllegalState,
    /// `java.lang.NullPointerException`
    NullPointer,
    /// `javax.microedition.media.MediaException`
    Media,
}

} // verus!
