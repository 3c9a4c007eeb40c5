//! `javax.microedition.lcdui.Ticker`: a line of text scrolling across the
//! ticker band of the screen.
use vstd::prelude::*;

use crate::errors::UiError;

verus! {

/// Room left of the ticker text.
pub const TITLE_HORIZONTAL_PADDING: i32 = 4;
/// How far the text moves on each tick.
pub const TICKER_SCROLL_STEP: i32 = 2;

/// The text as the ticker shows it: on one line, each line ending
/// (`"\r\n"`, `'\r'` or `'\n'`) turned into a space.
pub open spec fn display_text(s: Seq<char>) -> Seq<char>
    decreases s.len(),
{
    if s.len() == 0 {
        Seq::empty()
    } else if s.len() >= 2 && s[0] == '\r' && s[1] == '\n' {
        seq![' '] + display_text(s.skip(2))
    } else if s[0] == '\r' || s[0] == '\n' {
        seq![' '] + display_text(s.skip(1))
    } else {
        seq![s[0]] + display_text(s.skip(1))
    }
}

/// The offset after one tick: the text moves left by a step, and once it
/// has scrolled out it reenters from the right edge of a `width` wide band.
pub open spec fn next_offset(offset: int, text_width: int, width: int) -> int {
    if offset + TICKER_SCROLL_STEP >= text_width + TITLE_HORIZONTAL_PADDING {
        TITLE_HORIZONTAL_PADDING - width
    } else {
        offset + TICKER_SCROLL_STEP
    }
}

/// `javax.microedition.lcdui.Ticker`.
pub struct Ticker {
    text: Vec<char>,
    scroll_offset: i32,
}

impl Ticker {
    pub closed spec fn spec_text(&self) -> Seq<char> {
        self.text@
    }

    pub closed spec fn spec_scroll_offset(&self) -> int {
        self.scroll_offset as int
    }

    /// A ticker showing `text` from its start; a missing text is refused.
    pub fn new(text: Option<Vec<char>>) -> (r: Result<Ticker, UiError>)
        ensures
            match r {
                Ok(t) => text matches Some(s) && t.spec_text() == s@ && t.spec_scroll_offset() == 0,
                Err(e) => text is None && e == UiError::NullPointer,
            },
    {
        match text {
            Some(text) => Ok(Ticker { text, scroll_offset: 0 }),
            None => Err(UiError::NullPointer),
        }
    }

    /// `getString`.
    pub fn get_string(&self) -> (r: &Vec<char>)
        ensures
            r@ == self.spec_text(),
    {
        &self.text
    }

    pub fn scroll_offset(&self) -> (r: i32)
        ensures
            r == self.spec_scroll_offset(),
    {
        self.scroll_offset
    }

    /// `setString`: shows `text` from its start; a missing text is refused
    /// and changes nothing. A display showing this ticker restarts its ticks.
    pub fn set_string(&mut self, text: Option<Vec<char>>) -> (r: Result<(), UiError>)
        ensures
            match text {
                Some(s) => r is Ok && final(self).spec_text() == s@ && final(self).spec_scroll_offset() == 0,
                None => r == Err::<(), UiError>(UiError::NullPointer) && final(self).spec_text()
                    == old(self).spec_text() && final(self).spec_scroll_offset()
                    == old(self).spec_scroll_offset(),
            },
    {
        match text {
            Some(text) => {
                self.text = text;
                self.scroll_offset = 0;
                Ok(())
            },
            None => Err(UiError::NullPointer),
        }
    }

    /// The text as the ticker shows it; see [`display_text`].
    pub fn display_string(&self) -> (r: Vec<char>)
        ensures
            r@ == display_text(self.spec_text()),
    {
        let n = self.text.len();
        let mut out: Vec<char> = Vec::new();
        let mut i: usize = 0;
        proof {
            assert(self.text@.subrange(0, n as int) =~= self.text@);
            assert(out@ + display_text(self.text@) =~= display_text(self.text@));
        }
        while i < n
            invariant
                n == self.text@.len(),
                i <= n,
                out@ + display_text(self.text@.subrange(i as int, n as int)) == display_text(self.text@),
            decreases n - i,
        {
            let ghost rest = self.text@.subrange(i as int, n as int);
            let c = self.text[i];
            if c == '\r' && i + 1 < n && self.text[i + 1] == '\n' {
                proof {
                    assert(rest.skip(2) =~= self.text@.subrange(i + 2, n as int));
                    assert(out@.push(' ') + display_text(rest.skip(2)) =~= out@ + display_text(rest));
                }
                out.push(' ');
                i += 2;
            } else {
                proof {
                    assert(rest.skip(1) =~= self.text@.subrange(i + 1, n as int));
                }
                if c == '\r' || c == '\n' {
                    proof {
                        assert(out@.push(' ') + display_text(rest.skip(1)) =~= out@ + display_text(rest));
                    }
                    out.push(' ');
                } else {
                    proof {
                        assert(out@.push(c) + display_text(rest.skip(1)) =~= out@ + display_text(rest));
                    }
                    out.push(c);
                }
                i += 1;
            }
        }
        proof {
            assert(self.text@.subrange(n as int, n as int) =~= Seq::<char>::empty());
            assert(out@ + Seq::<char>::empty() =~= out@);
        }
        out
    }

    /// `advance`: one tick of a ticker `width` wide whose shown text is
    /// `text_width` wide. An empty ticker does not move and asks for no
    /// more ticks (`false`).
    pub fn advance(&mut self, text_width: i32, width: i32) -> (r: bool)
        requires
            old(self).spec_scroll_offset() + TICKER_SCROLL_STEP <= i32::MAX,
            text_width + TITLE_HORIZONTAL_PADDING <= i32::MAX,
            TITLE_HORIZONTAL_PADDING - width <= i32::MAX,
        ensures
            final(self).spec_text() == old(self).spec_text(),
            r == (old(self).spec_text().len() > 0),
            r ==> final(self).spec_scroll_offset() == next_offset(
                old(self).spec_scroll_offset(),
                text_width as int,
                width as int,
            ),
            !r ==> final(self).spec_scroll_offset() == old(self).spec_scroll_offset(),
    {
        if self.text.len() == 0 {
            return false;
        }
        let offset = self.scroll_offset + TICKER_SCROLL_STEP;
        self.scroll_offset = if offset >= text_width + TITLE_HORIZONTAL_PADDING {
            TITLE_HORIZONTAL_PADDING - width
        } else {
            offset
        };
        true
    }

    /// Where the text is drawn in a ticker band starting at `y`.
    pub fn text_origin(&self, y: i32) -> (r: (i32, i32))
        requires
            i32::MIN <= TITLE_HORIZONTAL_PADDING - self.spec_scroll_offset(),
            TITLE_HORIZONTAL_PADDING - self.spec_scroll_offset() <= i32::MAX,
            y + 2 <= i32::MAX,
        ensures
            r.0 == TITLE_HORIZONTAL_PADDING - self.spec_scroll_offset(),
            r.1 == y + 2,
    {
        (TITLE_HORIZONTAL_PADDING - self.scroll_offset, y + 2)
    }
}

/// The shown text is empty exactly when the text is: line endings become
/// spaces, nothing is dropped.
pub proof fn lemma_display_text_empty(s: Seq<char>)
    ensures
        (display_text(s).len() == 0) == (s.len() == 0),
{
}

/// After a tick the text is either still scrolling through its width or
/// has just reentered from the right.
pub proof fn lemma_offset_stays_in_band(offset: int, text_width: int, width: int)
    ensures
        next_offset(offset, text_width, width) < text_width + TITLE_HORIZONTAL_PADDING
            || next_offset(offset, text_width, width) == TITLE_HORIZONTAL_PADDING - width,
{
}

} // verus!
