//! The input line: a character buffer with a cursor, supporting
//! word-wise movement and deletion. The cursor always stays within the
//! buffer, and every edit is specified against the buffer's sequence.

use vstd::prelude::*;
use vstd::string::StrSliceExecFns;

verus! {

/// The characters a word-wise movement stops at.
pub open spec fn is_word_boundary(c: char) -> bool {
    c == ' ' || c == ';' || c == ':' || c == '\\' || c == '/' || c == '-' || c == '='
}

/// Executable form of [`is_word_boundary`].
pub fn is_boundary_char(c: char) -> (r: bool)
    ensures
        r == is_word_boundary(c),
{
    c == ' ' || c == ';' || c == ':' || c == '\\' || c == '/' || c == '-' || c == '='
}

/// The largest index below `i` holding a non-boundary character, or 0
/// when there is none.
pub open spec fn back_to_non_boundary(s: Seq<char>, i: int) -> int
    decreases i,
{
    if i <= 0 {
        0
    } else if !is_word_boundary(s[i - 1]) {
        i - 1
    } else {
        back_to_non_boundary(s, i - 1)
    }
}

/// One past the largest index below `i` holding a boundary character, or
/// 0 when there is none.
pub open spec fn back_to_boundary(s: Seq<char>, i: int) -> int
    decreases i,
{
    if i <= 0 {
        0
    } else if is_word_boundary(s[i - 1]) {
        i
    } else {
        back_to_boundary(s, i - 1)
    }
}

/// Where a backward word movement from `pos` lands: skip boundary
/// characters, then the word they end.
pub open spec fn spec_backward_find_word(s: Seq<char>, pos: int) -> int {
    back_to_boundary(s, back_to_non_boundary(s, pos))
}

/// The smallest index at or above `i` holding a non-boundary character,
/// or the length when there is none.
pub open spec fn fwd_to_non_boundary(s: Seq<char>, i: int) -> int
    decreases s.len() - i,
{
    if i < 0 || i >= s.len() {
        s.len() as int
    } else if !is_word_boundary(s[i]) {
        i
    } else {
        fwd_to_non_boundary(s, i + 1)
    }
}

/// The smallest index at or above `i` holding a boundary character, or
/// the length when there is none.
pub open spec fn fwd_to_boundary(s: Seq<char>, i: int) -> int
    decreases s.len() - i,
{
    if i < 0 || i >= s.len() {
        s.len() as int
    } else if is_word_boundary(s[i]) {
        i
    } else {
        fwd_to_boundary(s, i + 1)
    }
}

/// Where a forward word movement from `pos` lands: from the position
/// after the cursor, skip boundary characters, then the word they begin.
pub open spec fn spec_forward_find_word(s: Seq<char>, pos: int) -> int {
    fwd_to_boundary(s, fwd_to_non_boundary(s, pos + 1))
}

fn scan_back_non_boundary(s: &Vec<char>, from: usize) -> (r: usize)
    requires
        from <= s@.len(),
    ensures
        r == back_to_non_boundary(s@, from as int),
        r <= from,
{
    let mut i: usize = from;
    while i > 0
        invariant
            0 <= i <= from <= s@.len(),
            back_to_non_boundary(s@, from as int) == back_to_non_boundary(s@, i as int),
        decreases i,
    {
        if !is_boundary_char(s[i - 1]) {
            return i - 1;
        }
        i = i - 1;
    }
    0
}

fn scan_back_boundary(s: &Vec<char>, from: usize) -> (r: usize)
    requires
        from <= s@.len(),
    ensures
        r == back_to_boundary(s@, from as int),
        r <= from,
{
    let mut i: usize = from;
    while i > 0
        invariant
            0 <= i <= from <= s@.len(),
            back_to_boundary(s@, from as int) == back_to_boundary(s@, i as int),
        decreases i,
    {
        if is_boundary_char(s[i - 1]) {
            return i;
        }
        i = i - 1;
    }
    0
}

fn scan_fwd_non_boundary(s: &Vec<char>, from: usize) -> (r: usize)
    requires
        from <= s@.len(),
    ensures
        r == fwd_to_non_boundary(s@, from as int),
        from <= r <= s@.len(),
{
    let n = s.len();
    let mut i: usize = from;
    while i < n
        invariant
            from <= i <= n == s@.len(),
            fwd_to_non_boundary(s@, from as int) == fwd_to_non_boundary(s@, i as int),
        decreases n - i,
    {
        if !is_boundary_char(s[i]) {
            return i;
        }
        i = i + 1;
    }
    n
}

fn scan_fwd_boundary(s: &Vec<char>, from: usize) -> (r: usize)
    requires
        from <= s@.len(),
    ensures
        r == fwd_to_boundary(s@, from as int),
        from <= r <= s@.len(),
{
    let n = s.len();
    let mut i: usize = from;
    while i < n
        invariant
            from <= i <= n == s@.len(),
            fwd_to_boundary(s@, from as int) == fwd_to_boundary(s@, i as int),
        decreases n - i,
    {
        if is_boundary_char(s[i]) {
            return i;
        }
        i = i + 1;
    }
    n
}

/// The editable line: a character buffer and a cursor within it.
pub struct InputLine {
    pub buffer: Vec<char>,
    pub pos: usize,
}

impl Default for InputLine {
    /// An empty line with the cursor at its start.
    fn default() -> (r: Self)
        ensures
            r.buffer@ == Seq::<char>::empty(),
            r.pos == 0,
    {
        InputLine { buffer: Vec::new(), pos: 0 }
    }
}

impl InputLine {
    /// The cursor stays within the buffer.
    pub open spec fn wf(self) -> bool {
        self.pos <= self.buffer@.len()
    }

    /// Empty the line and reset the cursor.
    pub fn clear(&mut self)
        ensures
            final(self).buffer@ == Seq::<char>::empty(),
            final(self).pos == 0,
    {
        self.buffer.clear();
        self.pos = 0;
    }

    /// Append a character at the end, leaving the cursor alone.
    pub fn push(&mut self, ch: char)
        ensures
            final(self).buffer@ == old(self).buffer@.push(ch),
            final(self).pos == old(self).pos,
    {
        self.buffer.push(ch);
    }

    /// Insert a character at the cursor and move the cursor past it.
    pub fn insert(&mut self, ch: char)
        requires
            old(self).wf(),
        ensures
            final(self).wf(),
            final(self).buffer@ == old(self).buffer@.insert(old(self).pos as int, ch),
            final(self).pos == old(self).pos + 1,
    {
        self.buffer.insert(self.pos, ch);
        let n = self.buffer.len();
        self.pos = self.pos + 1;
    }

    /// Delete the character before the cursor, if any.
    pub fn backward_remove_cursor(&mut self)
        requires
            old(self).wf(),
        ensures
            final(self).wf(),
            old(self).pos == 0 ==> *final(self) == *old(self),
            old(self).pos > 0 ==> final(self).buffer@ == old(self).buffer@.remove(
                old(self).pos - 1,
            ) && final(self).pos == old(self).pos - 1,
    {
        if self.pos > 0 {
            self.pos = self.pos - 1;
            self.buffer.remove(self.pos);
        }
    }

    /// Delete the character under the cursor, if any.
    pub fn forward_remove_cursor(&mut self)
        requires
            old(self).wf(),
        ensures
            final(self).wf(),
            old(self).pos == old(self).buffer@.len() ==> *final(self) == *old(self),
            old(self).pos < old(self).buffer@.len() ==> final(self).buffer@ == old(
                self,
            ).buffer@.remove(old(self).pos as int) && final(self).pos == old(self).pos,
    {
        if self.pos < self.buffer.len() {
            self.buffer.remove(self.pos);
        }
    }

    /// The start of the word the cursor sits after.
    pub fn backward_find_word(&self) -> (r: usize)
        requires
            self.wf(),
        ensures
            r == spec_backward_find_word(self.buffer@, self.pos as int),
            r <= self.pos,
    {
        let past_boundary = scan_back_non_boundary(&self.buffer, self.pos);
        scan_back_boundary(&self.buffer, past_boundary)
    }

    /// Delete from the start of the current word to the cursor and land
    /// the cursor there.
    pub fn backward_kill_word(&mut self)
        requires
            old(self).wf(),
        ensures
            final(self).wf(),
            ({
                let i = spec_backward_find_word(old(self).buffer@, old(self).pos as int);
                &&& final(self).buffer@ == old(self).buffer@.subrange(0, i) + old(
                    self,
                ).buffer@.skip(old(self).pos as int)
                &&& final(self).pos == i
            }),
    {
        let i = self.backward_find_word();
        let ghost start = self.buffer@;
        let ghost p = self.pos as int;
        let mut k: usize = self.pos;
        while k > i
            invariant
                i <= k <= p,
                p <= start.len(),
                self.pos == old(self).pos,
                self.buffer@ == start.subrange(0, k as int) + start.skip(p),
            decreases k,
        {
            self.buffer.remove(k - 1);
            proof {
                assert(self.buffer@ =~= start.subrange(0, k - 1) + start.skip(p));
            }
            k = k - 1;
        }
        self.pos = i;
    }

    /// The position just past the word the cursor sits before.
    pub fn forward_find_word(&self) -> (r: usize)
        requires
            self.wf(),
        ensures
            r == spec_forward_find_word(self.buffer@, self.pos as int),
            self.pos <= r <= self.buffer@.len(),
    {
        let n = self.buffer.len();
        let start = if self.pos < n {
            self.pos + 1
        } else {
            n
        };
        proof {
            assert(fwd_to_non_boundary(self.buffer@, self.pos + 1) == fwd_to_non_boundary(
                self.buffer@,
                start as int,
            ));
        }
        let past_boundary = scan_fwd_non_boundary(&self.buffer, start);
        scan_fwd_boundary(&self.buffer, past_boundary)
    }

    /// Delete from the cursor to the end of the next word.
    pub fn forward_kill_word(&mut self)
        requires
            old(self).wf(),
        ensures
            final(self).wf(),
            ({
                let i = spec_forward_find_word(old(self).buffer@, old(self).pos as int);
                &&& final(self).buffer@ == old(self).buffer@.take(old(self).pos as int) + old(
                    self,
                ).buffer@.skip(i)
                &&& final(self).pos == old(self).pos
            }),
    {
        let i = self.forward_find_word();
        let ghost start = self.buffer@;
        let ghost p = self.pos as int;
        let mut k: usize = i;
        while k > self.pos
            invariant
                p == self.pos <= k,
                k <= i <= start.len(),
                self.pos == old(self).pos,
                self.buffer@ == start.take(k as int) + start.skip(i as int),
            decreases k,
        {
            self.buffer.remove(k - 1);
            proof {
                assert(self.buffer@ =~= start.take(k - 1) + start.skip(i as int));
            }
            k = k - 1;
        }
    }

    /// Delete everything before the cursor.
    pub fn backward_kill_line(&mut self)
        requires
            old(self).wf(),
        ensures
            final(self).wf(),
            final(self).buffer@ == old(self).buffer@.skip(old(self).pos as int),
            final(self).pos == 0,
    {
        let ghost start = self.buffer@;
        let ghost p = self.pos as int;
        let mut k: usize = self.pos;
        while k > 0
            invariant
                0 <= k <= p <= start.len(),
                self.pos == old(self).pos,
                self.buffer@ == start.subrange(0, k as int) + start.skip(p),
            decreases k,
        {
            self.buffer.remove(k - 1);
            proof {
                assert(self.buffer@ =~= start.subrange(0, k - 1) + start.skip(p));
            }
            k = k - 1;
        }
        self.pos = 0;
        proof {
            assert(self.buffer@ =~= start.skip(p));
        }
    }

    /// Delete everything from the cursor on.
    pub fn forward_kill_line(&mut self)
        requires
            old(self).wf(),
        ensures
            final(self).wf(),
            final(self).buffer@ == old(self).buffer@.take(old(self).pos as int),
            final(self).pos == old(self).pos,
    {
        self.buffer.truncate(self.pos);
    }

    /// Move the cursor to the start of the current word.
    pub fn backward_word(&mut self)
        requires
            old(self).wf(),
        ensures
            final(self).wf(),
            final(self).buffer@ == old(self).buffer@,
            final(self).pos == spec_backward_find_word(old(self).buffer@, old(self).pos as int),
    {
        self.pos = self.backward_find_word();
    }

    /// Move the cursor past the next word.
    pub fn forward_word(&mut self)
        requires
            old(self).wf(),
        ensures
            final(self).wf(),
            final(self).buffer@ == old(self).buffer@,
            final(self).pos == spec_forward_find_word(old(self).buffer@, old(self).pos as int),
    {
        self.pos = self.forward_find_word();
    }

    /// Move the cursor to the end of the line.
    pub fn cursor_end(&mut self)
        ensures
            final(self).wf(),
            final(self).buffer@ == old(self).buffer@,
            final(self).pos == old(self).buffer@.len(),
    {
        self.pos = self.buffer.len();
    }

    /// Move the cursor to the start of the line.
    pub fn cursor_begin(&mut self)
        ensures
            final(self).buffer@ == old(self).buffer@,
            final(self).pos == 0,
    {
        self.pos = 0;
    }

    /// Move the cursor by `delta`, only if it stays within the line.
    pub fn cursor_move(&mut self, delta: isize)
        requires
            old(self).wf(),
        ensures
            final(self).wf(),
            final(self).buffer@ == old(self).buffer@,
            ({
                let target = old(self).pos as int + delta as int;
                if 0 <= target <= old(self).buffer@.len() {
                    final(self).pos == target
                } else {
                    final(self).pos == old(self).pos
                }
            }),
    {
        if delta >= 0 {
            let d = delta as usize;
            if d <= self.buffer.len() - self.pos {
                self.pos = self.pos + d;
            }
        } else {
            let d = ((-(delta + 1)) as usize) + 1;
            if d <= self.pos {
                self.pos = self.pos - d;
            }
        }
    }

    /// Where the cursor stands.
    pub fn cursor_pos(&self) -> (r: usize)
        ensures
            r == self.pos,
    {
        self.pos
    }

    /// How many characters the line holds.
    pub fn len(&self) -> (r: usize)
        ensures
            r == self.buffer@.len(),
    {
        self.buffer.len()
    }

    /// Insert a character at an arbitrary index, leaving the cursor.
    pub fn _insert_at(&mut self, index: usize, element: char)
        requires
            index <= old(self).buffer@.len(),
        ensures
            final(self).buffer@ == old(self).buffer@.insert(index as int, element),
            final(self).pos == old(self).pos,
    {
        self.buffer.insert(index, element);
    }

    /// Replace the line with the given text and put the cursor at its
    /// end.
    pub fn reset_buffer(&mut self, s: &str)
        ensures
            final(self).wf(),
            final(self).buffer@ == s@,
            final(self).pos == s@.len(),
    {
        self.buffer.clear();
        let n = s.unicode_len();
        let mut i: usize = 0;
        while i < n
            invariant
                0 <= i <= n,
                n == s@.len(),
                self.buffer@ == s@.take(i as int),
            decreases n - i,
        {
            self.buffer.push(s.get_char(i));
            proof {
                assert(self.buffer@ =~= s@.take(i + 1));
            }
            i = i + 1;
        }
        proof {
            assert(self.buffer@ =~= s@);
        }
        self.pos = n;
    }

    /// Insert text at the cursor and move the cursor past it.
    pub fn insert_string(&mut self, s: &str)
        requires
            old(self).wf(),
            old(self).buffer@.len() + s@.len() <= usize::MAX,
        ensures
            final(self).wf(),
            final(self).buffer@ == old(self).buffer@.take(old(self).pos as int) + s@ + old(
                self,
            ).buffer@.skip(old(self).pos as int),
            final(self).pos == old(self).pos + s@.len(),
    {
        let ghost start = self.buffer@;
        let ghost p = self.pos as int;
        let n = s.unicode_len();
        let mut i: usize = 0;
        while i < n
            invariant
                0 <= i <= n,
                n == s@.len(),
                p == self.pos <= start.len(),
                start.len() + n <= usize::MAX,
                self.buffer@ == start.take(p) + s@.take(i as int) + start.skip(p),
            decreases n - i,
        {
            self.buffer.insert(self.pos + i, s.get_char(i));
            proof {
                assert(self.buffer@ =~= start.take(p) + s@.take(i + 1) + start.skip(p));
            }
            i = i + 1;
        }
        proof {
            assert(self.buffer@ =~= start.take(p) + s@ + start.skip(p));
        }
        self.pos = self.pos + n;
    }
}

} // verus!
