use vstd::prelude::*;
use crate::text::string_of;

verus! {

/// The greatest number of characters that the input line holds.
pub const MAX_INPUT: usize = 65535;

/// Where the word before position `at` starts: the spaces before `at` are passed over,
/// and then the characters before them that are no spaces.
pub open spec fn word_start(text: Seq<char>, at: int) -> int {
    skip_back(text, skip_back_spaces(text, at), false)
}

/// The position reached from `at` by going back over spaces.
pub open spec fn skip_back_spaces(text: Seq<char>, at: int) -> int {
    skip_back(text, at, true)
}

/// The position reached from `at` by going back while the character before is a space,
/// where `spaces` is set, or is no space, where it is not.
pub open spec fn skip_back(text: Seq<char>, at: int, spaces: bool) -> int
    decreases at,
{
    if 0 < at <= text.len() && (text[at - 1] == ' ') == spaces {
        skip_back(text, at - 1, spaces)
    } else {
        at
    }
}

/// A line of text with a cursor: the filter that the user types.
#[derive(Debug, Clone, PartialEq, Eq)]
pub struct InputLine {
    text: Vec<char>,
    cursor: usize,
}

impl InputLine {
    /// The characters of the line.
    pub closed spec fn text(&self) -> Seq<char> {
        self.text@
    }

    /// The position of the cursor: the number of characters before it.
    pub closed spec fn cursor(&self) -> nat {
        self.cursor as nat
    }

    /// The cursor stands within the line, and the line is not longer than allowed.
    pub closed spec fn wf(&self) -> bool {
        self.cursor <= self.text@.len() <= MAX_INPUT
    }

    /// The empty line.
    pub fn new() -> (line: InputLine)
        ensures
            line.wf(),
            line.text() == Seq::<char>::empty(),
            line.cursor() == 0,
    {
        InputLine { text: Vec::new(), cursor: 0 }
    }

    /// The line as a string.
    pub fn as_string(&self) -> (text: String)
        ensures
            text@ == self.text(),
    {
        string_of(&self.text)
    }

    pub fn cursor_pos(&self) -> (cursor: usize)
        ensures
            cursor == self.cursor(),
    {
        self.cursor
    }

    pub fn len(&self) -> (len: usize)
        ensures
            len == self.text().len(),
    {
        self.text.len()
    }

    /// Puts `c` in at the cursor and moves the cursor behind it. A full line stays as it
    /// is. Returns whether the text changed.
    pub fn insert(&mut self, c: char) -> (changed: bool)
        requires
            old(self).wf(),
        ensures
            final(self).wf(),
            changed == (old(self).text().len() < MAX_INPUT),
            changed == (final(self).text() != old(self).text()),
            changed ==> final(self).text() == old(self).text().insert(old(self).cursor() as int, c)
                && final(self).cursor() == old(self).cursor() + 1,
            !changed ==> *final(self) == *old(self),
    {
        if self.text.len() >= MAX_INPUT {
            return false;
        }
        self.text.insert(self.cursor, c);
        self.cursor += 1;
        assert(self.text@.len() != old(self).text@.len());
        true
    }

    /// Removes the character before the cursor, where there is one.
    pub fn backspace(&mut self) -> (changed: bool)
        requires
            old(self).wf(),
        ensures
            final(self).wf(),
            changed == (old(self).cursor() > 0),
            changed == (final(self).text() != old(self).text()),
            changed ==> final(self).text() == old(self).text().remove(old(self).cursor() - 1)
                && final(self).cursor() == old(self).cursor() - 1,
            !changed ==> *final(self) == *old(self),
    {
        if self.cursor == 0 {
            return false;
        }
        self.text.remove(self.cursor - 1);
        self.cursor -= 1;
        assert(self.text@.len() != old(self).text@.len());
        true
    }

    /// Removes the character at the cursor, where there is one.
    pub fn delete(&mut self) -> (changed: bool)
        requires
            old(self).wf(),
        ensures
            final(self).wf(),
            changed == (old(self).cursor() < old(self).text().len()),
            changed == (final(self).text() != old(self).text()),
            changed ==> final(self).text() == old(self).text().remove(old(self).cursor() as int)
                && final(self).cursor() == old(self).cursor(),
            !changed ==> *final(self) == *old(self),
    {
        if self.cursor == self.text.len() {
            return false;
        }
        self.text.remove(self.cursor);
        assert(self.text@.len() != old(self).text@.len());
        true
    }

    /// Removes the word before the cursor, with the spaces between it and the cursor.
    pub fn delete_word(&mut self) -> (changed: bool)
        requires
            old(self).wf(),
        ensures
            final(self).wf(),
            final(self).cursor() == word_start(old(self).text(), old(self).cursor() as int),
            final(self).text() == old(self).text().take(final(self).cursor() as int) + old(
                self,
            ).text().skip(old(self).cursor() as int),
            changed == (final(self).cursor() < old(self).cursor()),
            changed == (final(self).text() != old(self).text()),
    {
        let end = self.cursor;
        let mut start = end;
        while start > 0 && self.text[start - 1] == ' '
            invariant
                start <= end <= self.text@.len(),
                self.text@ == old(self).text@,
                skip_back(self.text@, start as int, true) == skip_back(self.text@, end as int, true),
            decreases start,
        {
            start -= 1;
        }
        let ghost middle = start;
        while start > 0 && self.text[start - 1] != ' '
            invariant
                start <= middle <= self.text@.len(),
                self.text@ == old(self).text@,
                skip_back(self.text@, start as int, false) == skip_back(
                    self.text@,
                    middle as int,
                    false,
                ),
            decreases start,
        {
            start -= 1;
        }
        self.remove_range(start, end);
        self.cursor = start;
        proof {
            if start < end {
                assert(self.text@.len() != old(self).text@.len());
            } else {
                assert(self.text@ =~= old(self).text@);
            }
        }
        start < end
    }

    fn remove_range(&mut self, start: usize, end: usize)
        requires
            start <= end <= old(self).text@.len(),
        ensures
            final(self).text@ == old(self).text@.take(start as int) + old(self).text@.skip(
                end as int,
            ),
            final(self).cursor == old(self).cursor,
    {
        let mut kept: Vec<char> = Vec::new();
        let mut i: usize = 0;
        while i < start
            invariant
                i <= start <= self.text@.len(),
                self.text@ == old(self).text@,
                kept@ == self.text@.take(i as int),
            decreases start - i,
        {
            kept.push(self.text[i]);
            assert(self.text@.take(i + 1) =~= self.text@.take(i as int).push(self.text@[i as int]));
            i += 1;
        }
        let mut j: usize = end;
        while j < self.text.len()
            invariant
                start <= end <= j <= self.text@.len(),
                self.text@ == old(self).text@,
                kept@ == self.text@.take(start as int) + self.text@.subrange(end as int, j as int),
            decreases self.text.len() - j,
        {
            kept.push(self.text[j]);
            assert(self.text@.subrange(end as int, j + 1) =~= self.text@.subrange(
                end as int,
                j as int,
            ).push(self.text@[j as int]));
            j += 1;
        }
        assert(self.text@.subrange(end as int, self.text@.len() as int) =~= self.text@.skip(
            end as int,
        ));
        self.text = kept;
    }

    /// Removes what stands behind the cursor, where `forward` is set, or what stands
    /// before it.
    pub fn delete_to_line(&mut self, forward: bool) -> (changed: bool)
        requires
            old(self).wf(),
        ensures
            final(self).wf(),
            forward ==> final(self).text() == old(self).text().take(old(self).cursor() as int)
                && final(self).cursor() == old(self).cursor(),
            !forward ==> final(self).text() == old(self).text().skip(old(self).cursor() as int)
                && final(self).cursor() == 0,
            changed == (final(self).text().len() < old(self).text().len()),
            changed == (final(self).text() != old(self).text()),
    {
        let before = self.text.len();
        if forward {
            self.remove_range(self.cursor, before);
            assert(self.text@ =~= old(self).text@.take(old(self).cursor as int));
        } else {
            self.remove_range(0, self.cursor);
            self.cursor = 0;
            assert(self.text@ =~= old(self).text@.skip(old(self).cursor as int));
        }
        proof {
            if self.text@.len() == old(self).text@.len() {
                assert(self.text@ =~= old(self).text@);
            }
        }
        self.text.len() < before
    }

    /// Moves the cursor one character to the left, where it is not at the start.
    pub fn move_cursor_left(&mut self)
        requires
            old(self).wf(),
        ensures
            final(self).wf(),
            final(self).text() == old(self).text(),
            final(self).cursor() == if old(self).cursor() > 0 {
                (old(self).cursor() - 1) as nat
            } else {
                0
            },
    {
        if self.cursor > 0 {
            self.cursor -= 1;
        }
    }

    /// Moves the cursor one character to the right, where it is not at the end.
    pub fn move_cursor_right(&mut self)
        requires
            old(self).wf(),
        ensures
            final(self).wf(),
            final(self).text() == old(self).text(),
            final(self).cursor() == if old(self).cursor() < old(self).text().len() {
                old(self).cursor() + 1
            } else {
                old(self).cursor()
            },
    {
        if self.cursor < self.text.len() {
            self.cursor += 1;
        }
    }

    pub fn move_to_start(&mut self)
        requires
            old(self).wf(),
        ensures
            final(self).wf(),
            final(self).text() == old(self).text(),
            final(self).cursor() == 0,
    {
        self.cursor = 0;
    }

    pub fn move_to_end(&mut self)
        requires
            old(self).wf(),
        ensures
            final(self).wf(),
            final(self).text() == old(self).text(),
            final(self).cursor() == old(self).text().len(),
    {
        self.cursor = self.text.len();
    }
}

} // verus!
