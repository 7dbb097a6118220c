//! A cursor over an immutable character sequence: the input that a command
//! argument parser consumes. It supports peeking at the next character,
//! consuming one character, and skipping leading whitespace; the position
//! only ever moves forward.

use vstd::prelude::*;
use vstd::string::StrSliceExecFns;

verus! {

/// The whitespace characters that `skip_whitespace` consumes: ASCII blanks.
pub open spec fn is_ws_char(c: char) -> bool {
    c == ' ' || c == '\t' || c == '\n' || c == '\r'
}

/// A position into a borrowed character sequence. The buffer itself is never
/// changed; parsers advance `pos` and leave everything past it for the next
/// reader.
pub struct ParseInput<'a> {
    pub text: &'a str,
    pub pos: usize,
}

impl<'a> ParseInput<'a> {
    /// The position never passes the end of the buffer.
    pub open spec fn wf(self) -> bool {
        self.pos <= self.text@.len()
    }

    /// The characters not yet consumed.
    pub open spec fn remaining(self) -> Seq<char> {
        self.text@.skip(self.pos as int)
    }

    /// A cursor at the start of `s`.
    pub fn new(s: &'a str) -> (r: ParseInput<'a>)
        ensures
            r.text@ == s@,
            r.pos == 0,
            r.wf(),
    {
        ParseInput { text: s, pos: 0 }
    }

    /// The next character, if any, without consuming it.
    pub fn peek(&self) -> (r: Option<char>)
        requires
            self.wf(),
        ensures
            self.remaining().len() > 0 ==> r == Some(self.remaining()[0]),
            self.remaining().len() == 0 ==> r is None,
    {
        let n = self.text.unicode_len();
        if self.pos < n {
            Some(self.text.get_char(self.pos))
        } else {
            None
        }
    }

    /// Consume and return the next character; `None` once the input is
    /// exhausted, in which case the cursor does not move.
    pub fn pop(&mut self) -> (r: Option<char>)
        requires
            old(self).wf(),
        ensures
            final(self).wf(),
            final(self).text@ == old(self).text@,
            old(self).remaining().len() > 0 ==> r == Some(old(self).remaining()[0])
                && final(self).pos == old(self).pos + 1,
            old(self).remaining().len() == 0 ==> r is None && final(self).pos == old(self).pos,
    {
        let n = self.text.unicode_len();
        if self.pos < n {
            let c = self.text.get_char(self.pos);
            self.pos = self.pos + 1;
            Some(c)
        } else {
            None
        }
    }

    /// Advance past every leading whitespace character: afterwards the cursor
    /// stands on the first non-whitespace character (or at the end), and only
    /// whitespace was consumed.
    pub fn skip_whitespace(&mut self)
        requires
            old(self).wf(),
        ensures
            final(self).wf(),
            final(self).text@ == old(self).text@,
            old(self).pos <= final(self).pos,
            forall|i: int|
                old(self).pos <= i < final(self).pos ==> is_ws_char(old(self).text@[i]),
            final(self).pos < old(self).text@.len() ==> !is_ws_char(
                old(self).text@[final(self).pos as int],
            ),
    {
        let n = self.text.unicode_len();
        loop
            invariant
                self.wf(),
                self.text@ == old(self).text@,
                n == self.text@.len(),
                old(self).pos <= self.pos,
                forall|i: int| old(self).pos <= i < self.pos ==> is_ws_char(old(self).text@[i]),
            ensures
                self.wf(),
                self.text@ == old(self).text@,
                old(self).pos <= self.pos,
                forall|i: int| old(self).pos <= i < self.pos ==> is_ws_char(old(self).text@[i]),
                self.pos < old(self).text@.len() ==> !is_ws_char(
                    old(self).text@[self.pos as int],
                ),
            decreases n - self.pos,
        {
            if self.pos < n {
                let c = self.text.get_char(self.pos);
                if c == ' ' || c == '\t' || c == '\n' || c == '\r' {
                    self.pos = self.pos + 1;
                } else {
                    break;
                }
            } else {
                break;
            }
        }
    }
}

} // verus!
