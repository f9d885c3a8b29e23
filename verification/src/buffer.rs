//! The line buffer: an ordered document of lines where the line under the
//! cursor is held split in two pieces (text before the split point, text
//! after it), so that edits at the cursor touch only the ends of the pieces.

use std::collections::VecDeque;
use vstd::prelude::*;

verus! {

/// The sequence of line contents denoted by a sequence of character vectors.
pub open spec fn views_of(s: Seq<Vec<char>>) -> Seq<Seq<char>> {
    s.map_values(|l: Vec<char>| l@)
}

/// A document of lines. The line the cursor is on is kept as
/// `current_front + current_back`, split at the cursor's column; the lines
/// above it are `pre` (nearest last) and the lines below are `post`
/// (nearest first).
pub struct Buffer {
    pub pre: VecDeque<Vec<char>>,
    pub current_front: Vec<char>,
    pub current_back: Vec<char>,
    pub post: VecDeque<Vec<char>>,
}

impl Buffer {
    /// The full text of the current line, ignoring the split.
    pub open spec fn current_line(self) -> Seq<char> {
        self.current_front@ + self.current_back@
    }

    /// The lines strictly above the current line, in document order.
    pub open spec fn pre_lines(self) -> Seq<Seq<char>> {
        views_of(self.pre@)
    }

    /// The lines strictly below the current line, in document order.
    pub open spec fn post_lines(self) -> Seq<Seq<char>> {
        views_of(self.post@)
    }

    /// The whole document, in order.
    pub open spec fn lines(self) -> Seq<Seq<char>> {
        self.pre_lines() + seq![self.current_line()] + self.post_lines()
    }

    /// Index of the current line within the document.
    pub open spec fn line_index(self) -> int {
        self.pre@.len() as int
    }

    /// The column at which the current line is split.
    pub open spec fn cursor_split(self) -> int {
        self.current_front@.len() as int
    }

    /// The two pieces of the current line together never exceed what a
    /// single character vector could hold.
    pub open spec fn wf(self) -> bool {
        self.current_line().len() <= usize::MAX
    }

    /// An empty document: one empty current line.
    pub fn new() -> (buf: Buffer)
        ensures
            buf.wf(),
            buf.lines() == seq![Seq::<char>::empty()],
            buf.line_index() == 0,
            buf.cursor_split() == 0,
            buf.current_line() == Seq::<char>::empty(),
    {
        let buf = Buffer {
            pre: VecDeque::new(),
            current_front: Vec::new(),
            current_back: Vec::new(),
            post: VecDeque::new(),
        };
        proof {
            assert(buf.current_line() =~= Seq::<char>::empty());
            assert(buf.lines() =~= seq![Seq::<char>::empty()]);
        }
        buf
    }

    /// Build a document from the given lines: the first line becomes
    /// current with the split at its end, the rest follow below.
    /// No lines at all yield a single empty current line.
    pub fn from_lines(lines: Vec<Vec<char>>) -> (buf: Buffer)
        ensures
            buf.wf(),
            lines@.len() == 0 ==> buf.lines() == seq![Seq::<char>::empty()],
            lines@.len() > 0 ==> buf.lines() == views_of(lines@),
            lines@.len() > 0 ==> buf.current_line() == lines@[0]@,
            buf.line_index() == 0,
            buf.cursor_split() == buf.current_line().len(),
    {
        let ghost orig: Seq<Vec<char>> = lines@;
        let mut lines = lines;
        let mut post: VecDeque<Vec<char>> = VecDeque::new();
        while lines.len() > 1
            invariant
                lines@ + post@ =~= orig,
                orig.len() > 0 ==> lines@.len() >= 1,
            decreases lines@.len(),
        {
            let last = lines.pop().unwrap();
            post.push_front(last);
            proof {
                assert(lines@ + post@ =~= orig);
            }
        }
        let current_front = match lines.pop() {
            Some(l) => l,
            None => Vec::new(),
        };
        let buf = Buffer {
            pre: VecDeque::new(),
            current_front,
            current_back: Vec::new(),
            post,
        };
        proof {
            assert(buf.current_front.len() <= usize::MAX);
            assert(buf.current_line() =~= buf.current_front@);
            if orig.len() == 0 {
                assert(buf.lines() =~= seq![Seq::<char>::empty()]);
            } else {
                assert(buf.post@ =~= orig.skip(1));
                assert(buf.lines() =~= views_of(orig));
            }
        }
        buf
    }

    /// Make the current line whole in `current_front`, leaving
    /// `current_back` empty; the line's text is unchanged.
    fn merge_current_to_front(&mut self)
        ensures
            final(self).current_front@ == old(self).current_line(),
            final(self).current_back@ == Seq::<char>::empty(),
            final(self).current_line() == old(self).current_line(),
            final(self).pre == old(self).pre,
            final(self).post == old(self).post,
    {
        let mut back = Vec::new();
        core::mem::swap(&mut back, &mut self.current_back);
        self.current_front.append(&mut back);
        proof {
            assert(final(self).current_line() =~= old(self).current_line());
        }
    }

    /// Move the current line one line up. At the top of the document
    /// nothing moves and nothing changes. On a move the document's lines
    /// are untouched: the line above becomes current (split at its end)
    /// and the old current line becomes the first line below.
    pub fn up(&mut self) -> (moved: bool)
        requires
            old(self).wf(),
        ensures
            final(self).wf(),
            moved == (old(self).line_index() > 0),
            !moved ==> *final(self) == *old(self),
            moved ==> final(self).lines() == old(self).lines(),
            moved ==> final(self).line_index() == old(self).line_index() - 1,
            moved ==> final(self).current_line() == old(self).pre_lines().last(),
            moved ==> final(self).cursor_split() == final(self).current_line().len(),
            moved ==> final(self).pre_lines() == old(self).pre_lines().drop_last(),
            moved ==> final(self).post_lines() == seq![old(self).current_line()]
                + old(self).post_lines(),
    {
        if self.pre.len() == 0 {
            return false;
        }
        let ghost pre0 = *self;
        let mut line = self.pre.pop_back().unwrap();
        self.merge_current_to_front();
        core::mem::swap(&mut line, &mut self.current_front);
        self.post.push_front(line);
        proof {
            lemma_views_len(final(self).pre@);
            assert(final(self).pre_lines() =~= pre0.pre_lines().drop_last());
            assert(final(self).current_line() =~= pre0.pre_lines().last());
            assert(final(self).post_lines() =~= seq![pre0.current_line()]
                + pre0.post_lines());
            assert(final(self).lines() =~= pre0.lines());
            assert(self.current_front.len() == final(self).current_line().len());
        }
        true
    }

    /// Move the current line one line down. At the bottom of the document
    /// nothing moves and nothing changes. On a move the document's lines
    /// are untouched: the line below becomes current (split at its end)
    /// and the old current line becomes the last line above.
    pub fn down(&mut self) -> (moved: bool)
        requires
            old(self).wf(),
        ensures
            final(self).wf(),
            moved == (old(self).post_lines().len() > 0),
            !moved ==> *final(self) == *old(self),
            moved ==> final(self).lines() == old(self).lines(),
            moved ==> final(self).line_index() == old(self).line_index() + 1,
            moved ==> final(self).current_line() == old(self).post_lines()[0],
            moved ==> final(self).cursor_split() == final(self).current_line().len(),
            moved ==> final(self).pre_lines() == old(self).pre_lines().push(
                old(self).current_line(),
            ),
            moved ==> final(self).post_lines() == old(self).post_lines().skip(1),
    {
        if self.post.len() == 0 {
            return false;
        }
        let ghost pre0 = *self;
        let mut line = self.post.pop_front().unwrap();
        self.merge_current_to_front();
        core::mem::swap(&mut line, &mut self.current_front);
        self.pre.push_back(line);
        proof {
            lemma_views_len(final(self).post@);
            assert(final(self).post_lines() =~= pre0.post_lines().skip(1));
            assert(final(self).current_line() =~= pre0.post_lines()[0]);
            assert(final(self).pre_lines() =~= pre0.pre_lines().push(
                pre0.current_line(),
            ));
            assert(final(self).lines() =~= pre0.lines());
            assert(self.current_front.len() == final(self).current_line().len());
        }
        true
    }

    /// Move the split point of the current line to `position`, shifting
    /// characters between the two pieces; the line's text is unchanged.
    fn rebalance_at(&mut self, position: usize)
        requires
            position <= old(self).current_line().len(),
        ensures
            final(self).current_line() == old(self).current_line(),
            final(self).current_front@ == old(self).current_line().take(position as int),
            final(self).current_back@ == old(self).current_line().skip(position as int),
            final(self).pre == old(self).pre,
            final(self).post == old(self).post,
    {
        let ghost line0 = old(self).current_line();
        let current_front_len = self.current_front.len();
        if position > current_front_len {
            let new_back = self.current_back.split_off(position - current_front_len);
            self.current_front.append(&mut self.current_back);
            self.current_back = new_back;
            proof {
                assert(final(self).current_front@ =~= line0.take(position as int));
                assert(final(self).current_back@ =~= line0.skip(position as int));
                assert(final(self).current_line() =~= line0);
            }
        } else if position < current_front_len {
            let mut new_back = self.current_front.split_off(position);
            new_back.append(&mut self.current_back);
            self.current_back = new_back;
            proof {
                assert(final(self).current_front@ =~= line0.take(position as int));
                assert(final(self).current_back@ =~= line0.skip(position as int));
                assert(final(self).current_line() =~= line0);
            }
        } else {
            proof {
                assert(final(self).current_front@ =~= line0.take(position as int));
                assert(final(self).current_back@ =~= line0.skip(position as int));
            }
        }
    }

    /// Insert `c` at column `position` of the current line; the split
    /// point ends up just after the new character. Only the current line
    /// changes, and it changes exactly as inserting into the whole line
    /// would.
    pub fn insert(&mut self, position: usize, c: char)
        requires
            position <= old(self).current_line().len(),
            old(self).current_line().len() < usize::MAX,
        ensures
            final(self).wf(),
            final(self).current_line() == old(self).current_line().insert(
                position as int,
                c,
            ),
            final(self).current_line().len() == old(self).current_line().len() + 1,
            final(self).cursor_split() == position + 1,
            final(self).pre == old(self).pre,
            final(self).post == old(self).post,
            final(self).line_index() == old(self).line_index(),
            final(self).lines().len() == old(self).lines().len(),
    {
        let ghost line0 = old(self).current_line();
        self.rebalance_at(position);
        self.current_front.push(c);
        proof {
            assert(final(self).current_line() =~= line0.insert(position as int, c));
            lemma_views_len(self.pre@);
        }
    }

    /// Delete the character at column `position` of the current line; the
    /// split point ends up at `position`. Only the current line changes,
    /// and it changes exactly as removing from the whole line would.
    pub fn delete(&mut self, position: usize)
        requires
            old(self).wf(),
            position < old(self).current_line().len(),
        ensures
            final(self).wf(),
            final(self).current_line() == old(self).current_line().remove(position as int),
            final(self).current_line().len() == old(self).current_line().len() - 1,
            final(self).cursor_split() == position,
            final(self).pre == old(self).pre,
            final(self).post == old(self).post,
            final(self).line_index() == old(self).line_index(),
            final(self).lines().len() == old(self).lines().len(),
    {
        let ghost line0 = old(self).current_line();
        self.rebalance_at(position + 1);
        self.current_front.pop();
        proof {
            assert(final(self).current_line() =~= line0.remove(position as int));
            lemma_views_len(self.pre@);
        }
    }

    /// Push the current line (made whole) above and make an empty line
    /// current: the empty line appears right after the old current line's
    /// place and becomes current.
    pub fn new_empty_line(&mut self)
        ensures
            final(self).wf(),
            final(self).pre_lines() == old(self).pre_lines().push(old(self).current_line()),
            final(self).current_line() == Seq::<char>::empty(),
            final(self).cursor_split() == 0,
            final(self).post == old(self).post,
            final(self).line_index() == old(self).line_index() + 1,
            final(self).lines() == old(self).lines().insert(
                old(self).line_index() + 1,
                Seq::<char>::empty(),
            ),
            final(self).lines().len() == old(self).lines().len() + 1,
    {
        let ghost pre0 = *old(self);
        self.merge_current_to_front();
        let mut line = Vec::new();
        core::mem::swap(&mut line, &mut self.current_front);
        self.pre.push_back(line);
        proof {
            assert(final(self).pre_lines() =~= pre0.pre_lines().push(pre0.current_line()));
            assert(final(self).current_line() =~= Seq::<char>::empty());
            assert(final(self).lines() =~= pre0.lines().insert(
                pre0.line_index() + 1,
                Seq::<char>::empty(),
            ));
        }
    }

    /// Cut the current line at column `position`: the text left of the cut
    /// becomes a finished line above, the text right of it becomes the new
    /// current line with the split at its start. The line count grows by
    /// exactly one.
    pub fn new_line(&mut self, position: usize)
        requires
            old(self).wf(),
            position <= old(self).current_line().len(),
        ensures
            final(self).wf(),
            final(self).pre_lines() == old(self).pre_lines().push(
                old(self).current_line().take(position as int),
            ),
            final(self).current_line() == old(self).current_line().skip(position as int),
            final(self).cursor_split() == final(self).current_line().len(),
            final(self).post == old(self).post,
            final(self).line_index() == old(self).line_index() + 1,
            final(self).lines().len() == old(self).lines().len() + 1,
    {
        let ghost pre0 = *old(self);
        self.rebalance_at(position);
        let mut holder = Vec::new();
        core::mem::swap(&mut holder, &mut self.current_back);
        core::mem::swap(&mut holder, &mut self.current_front);
        self.pre.push_back(holder);
        proof {
            assert(final(self).pre_lines() =~= pre0.pre_lines().push(
                pre0.current_line().take(position as int),
            ));
            assert(final(self).current_line() =~= pre0.current_line().skip(position as int));
            lemma_views_len(final(self).pre@);
            lemma_views_len(pre0.pre@);
        }
    }

    /// Merge the current line onto the end of the line above, make the
    /// merged line current with the split at the seam, and report the
    /// length of the old line above (where a cursor should land). At the
    /// top of the document nothing changes and nothing is reported. The
    /// line count shrinks by exactly one on success.
    pub fn merge_line_to_prev(&mut self) -> (r: Option<usize>)
        requires
            old(self).wf(),
            old(self).line_index() > 0 ==> old(self).pre_lines().last().len()
                + old(self).current_line().len() <= usize::MAX,
        ensures
            final(self).wf(),
            old(self).line_index() == 0 ==> r is None && *final(self) == *old(self),
            old(self).line_index() > 0 ==> ({
                let prev = old(self).pre_lines().last();
                &&& r == Some((prev.len() as usize))
                &&& final(self).current_line() == prev + old(self).current_line()
                &&& final(self).cursor_split() == prev.len()
                &&& final(self).pre_lines() == old(self).pre_lines().drop_last()
                &&& final(self).post == old(self).post
                &&& final(self).line_index() == old(self).line_index() - 1
                &&& final(self).lines().len() == old(self).lines().len() - 1
            }),
    {
        if self.pre.len() == 0 {
            return None;
        }
        let ghost pre0 = *old(self);
        let prev_line = self.pre.pop_back().unwrap();
        self.merge_current_to_front();
        core::mem::swap(&mut self.current_front, &mut self.current_back);
        let n = prev_line.len();
        self.current_front = prev_line;
        proof {
            lemma_views_len(final(self).pre@);
            lemma_views_len(pre0.pre@);
            assert(final(self).current_line() =~= pre0.pre_lines().last()
                + pre0.current_line());
            assert(final(self).pre_lines() =~= pre0.pre_lines().drop_last());
            assert(self.current_front.len() <= usize::MAX);
            assert(self.current_back.len() <= usize::MAX);
        }
        Some(n)
    }

    /// The length of the current line, split ignored.
    pub fn current_line_len(&self) -> (n: usize)
        requires
            self.wf(),
        ensures
            n == self.current_line().len(),
    {
        self.current_front.len() + self.current_back.len()
    }

    /// The length of the line just above the current one, if any.
    pub fn prev_line_len(&self) -> (r: Option<usize>)
        ensures
            self.line_index() == 0 ==> r is None,
            self.line_index() > 0 ==> r == Some((self.pre_lines().last().len() as usize)),
    {
        let n = self.pre.len();
        if n == 0 {
            None
        } else {
            let len = self.pre[n - 1].len();
            Some(len)
        }
    }

    /// The whole document as a fresh list of lines, in order, the current
    /// line made whole.
    pub fn serialize(&self) -> (out: Vec<Vec<char>>)
        ensures
            views_of(out@) == self.lines(),
            out@.len() == self.lines().len(),
    {
        let mut out: Vec<Vec<char>> = Vec::new();
        proof {
            assert(views_of(out@) =~= self.pre_lines().take(0));
        }
        let pre_len = self.pre.len();
        let mut i: usize = 0;
        while i < pre_len
            invariant
                i <= pre_len,
                pre_len == self.pre@.len(),
                views_of(out@) == self.pre_lines().take(i as int),
            decreases pre_len - i,
        {
            let ghost out0 = out@;
            let line = copy_line(&self.pre[i]);
            out.push(line);
            i = i + 1;
            proof {
                lemma_views_push(out0, line);
                assert(self.pre_lines()[i - 1] == self.pre@[i - 1]@);
                assert(self.pre_lines().take(i as int) =~= self.pre_lines().take(
                    i - 1,
                ).push(self.pre_lines()[i - 1]));
            }
        }
        let ghost out1 = out@;
        let mut cur = copy_line(&self.current_front);
        let mut back_copy = copy_line(&self.current_back);
        cur.append(&mut back_copy);
        let ghost cur_snap: Vec<char> = cur;
        out.push(cur);
        proof {
            lemma_views_push(out1, cur_snap);
            lemma_views_len(self.pre@);
            assert(self.pre_lines().take(pre_len as int) =~= self.pre_lines());
            assert(views_of(out@) =~= self.pre_lines() + seq![self.current_line()]);
        }
        let post_len = self.post.len();
        let mut j: usize = 0;
        while j < post_len
            invariant
                j <= post_len,
                post_len == self.post@.len(),
                views_of(out@) == self.pre_lines() + seq![self.current_line()]
                    + self.post_lines().take(j as int),
            decreases post_len - j,
        {
            let ghost out2 = out@;
            let line = copy_line(&self.post[j]);
            out.push(line);
            j = j + 1;
            proof {
                lemma_views_push(out2, line);
                assert(self.post_lines()[j - 1] == self.post@[j - 1]@);
                assert(self.post_lines().take(j as int) =~= self.post_lines().take(
                    j - 1,
                ).push(self.post_lines()[j - 1]));
                assert(views_of(out@) =~= self.pre_lines() + seq![self.current_line()]
                    + self.post_lines().take(j as int));
            }
        }
        proof {
            lemma_views_len(self.post@);
            assert(self.post_lines().take(post_len as int) =~= self.post_lines());
            assert(views_of(out@) =~= self.lines());
            lemma_views_len(out@);
        }
        out
    }

    /// The window that a screen of `height` rows shows when the current
    /// line is drawn at screen row `row`: the nearest lines above (at most
    /// `row` of them), the current line, and the nearest lines below (at
    /// most the rows that remain), in document order. Missing lines at
    /// either edge simply shorten the window.
    pub open spec fn window_spec(self, height: int, row: int) -> Seq<Seq<char>> {
        let above = if row <= self.pre_lines().len() {
            row
        } else {
            self.pre_lines().len() as int
        };
        let wanted_below = height - row - 1;
        let below = if wanted_below <= self.post_lines().len() {
            wanted_below
        } else {
            self.post_lines().len() as int
        };
        self.pre_lines().skip(self.pre_lines().len() - above)
            + seq![self.current_line()] + self.post_lines().take(below)
    }

    /// Compute the window of lines to draw. The window never exceeds
    /// `drawable_height` rows, and whenever enough lines stand above, the
    /// current line sits exactly at index `current_line_screen_pos`.
    pub fn visible_lines(&self, drawable_height: usize, current_line_screen_pos: usize)
        -> (win: Vec<Vec<char>>)
        requires
            current_line_screen_pos < drawable_height,
        ensures
            views_of(win@) == self.window_spec(
                drawable_height as int,
                current_line_screen_pos as int,
            ),
            win@.len() <= drawable_height,
            current_line_screen_pos <= self.line_index() ==> views_of(
                win@,
            )[current_line_screen_pos as int] == self.current_line(),
    {
        let pre_len = self.pre.len();
        let above: usize = if current_line_screen_pos <= pre_len {
            current_line_screen_pos
        } else {
            pre_len
        };
        let start = pre_len - above;
        let mut win: Vec<Vec<char>> = Vec::new();
        proof {
            lemma_views_len(self.pre@);
            assert(views_of(win@) =~= self.pre_lines().subrange(
                start as int,
                start as int,
            ));
        }
        let mut i: usize = start;
        while i < pre_len
            invariant
                start <= i <= pre_len,
                pre_len == self.pre@.len(),
                views_of(win@) == self.pre_lines().subrange(start as int, i as int),
            decreases pre_len - i,
        {
            let ghost win0 = win@;
            let line = copy_line(&self.pre[i]);
            win.push(line);
            i = i + 1;
            proof {
                lemma_views_push(win0, line);
                assert(self.pre_lines()[i - 1] == self.pre@[i - 1]@);
                assert(self.pre_lines().subrange(start as int, i as int)
                    =~= self.pre_lines().subrange(start as int, i - 1).push(
                    self.pre_lines()[i - 1],
                ));
            }
        }
        let ghost win1 = win@;
        let mut cur = copy_line(&self.current_front);
        let mut back_copy = copy_line(&self.current_back);
        cur.append(&mut back_copy);
        let ghost cur_snap: Vec<char> = cur;
        win.push(cur);
        proof {
            lemma_views_push(win1, cur_snap);
            assert(self.pre_lines().subrange(start as int, pre_len as int)
                =~= self.pre_lines().skip(start as int));
            assert(views_of(win@) =~= self.pre_lines().skip(start as int)
                + seq![self.current_line()]);
        }
        let post_len = self.post.len();
        let wanted_below = drawable_height - current_line_screen_pos - 1;
        let below: usize = if wanted_below <= post_len {
            wanted_below
        } else {
            post_len
        };
        let mut j: usize = 0;
        while j < below
            invariant
                j <= below,
                below <= post_len,
                post_len == self.post@.len(),
                views_of(win@) == self.pre_lines().skip(start as int)
                    + seq![self.current_line()] + self.post_lines().take(j as int),
            decreases below - j,
        {
            let ghost win2 = win@;
            let line = copy_line(&self.post[j]);
            win.push(line);
            j = j + 1;
            proof {
                lemma_views_push(win2, line);
                assert(self.post_lines()[j - 1] == self.post@[j - 1]@);
                assert(self.post_lines().take(j as int) =~= self.post_lines().take(
                    j - 1,
                ).push(self.post_lines()[j - 1]));
                assert(views_of(win@) =~= self.pre_lines().skip(start as int)
                    + seq![self.current_line()] + self.post_lines().take(j as int));
            }
        }
        proof {
            lemma_views_len(win@);
            assert(views_of(win@) =~= self.window_spec(
                drawable_height as int,
                current_line_screen_pos as int,
            ));
            if current_line_screen_pos <= self.line_index() {
                assert(views_of(win@)[current_line_screen_pos as int]
                    == self.current_line());
            }
        }
        win
    }
}

/// A fresh character vector with the same contents.
pub(crate) fn copy_line(line: &Vec<char>) -> (out: Vec<char>)
    ensures
        out@ == line@,
{
    let mut out: Vec<char> = Vec::new();
    let n = line.len();
    let mut i: usize = 0;
    while i < n
        invariant
            i <= n,
            n == line@.len(),
            out@ =~~= line@.take(i as int),
        decreases n - i,
    {
        out.push(line[i]);
        i = i + 1;
        proof {
            assert(out@ =~~= line@.take(i as int));
        }
    }
    proof {
        assert(out@ =~~= line@);
    }
    out
}

/// Merging after splitting is the identity. If `b1` is `b0` after its
/// current line was split at column `c` (as `new_line(c)` leaves it), and
/// `b2` is `b1` after the current line was merged into the line above
/// with `n` reported as the seam (as a successful `merge_line_to_prev`
/// leaves it), then `b2` has the lines of `b0` back: the same current
/// line, the same lines above and below — and the reported seam `n` is
/// exactly the split column `c`.
pub proof fn lemma_split_then_merge(b0: Buffer, b1: Buffer, b2: Buffer, c: int, n: int)
    requires
        0 <= c <= b0.current_line().len(),
        b1.pre_lines() == b0.pre_lines().push(b0.current_line().take(c)),
        b1.current_line() == b0.current_line().skip(c),
        b1.post_lines() == b0.post_lines(),
        n == b1.pre_lines().last().len(),
        b2.current_line() == b1.pre_lines().last() + b1.current_line(),
        b2.pre_lines() == b1.pre_lines().drop_last(),
        b2.post_lines() == b1.post_lines(),
    ensures
        b2.current_line() == b0.current_line(),
        b2.pre_lines() == b0.pre_lines(),
        b2.post_lines() == b0.post_lines(),
        b2.lines() == b0.lines(),
        n == c,
{
    assert(b1.pre_lines().last() == b0.current_line().take(c));
    assert(b2.current_line() =~= b0.current_line());
    assert(b2.pre_lines() =~= b0.pre_lines());
    assert(b2.lines() =~= b0.lines());
}

/// Taking views distributes over appending one more character vector.
pub proof fn lemma_views_push(s: Seq<Vec<char>>, v: Vec<char>)
    ensures
        views_of(s.push(v)) == views_of(s).push(v@),
{
    assert(views_of(s.push(v)) =~= views_of(s).push(v@));
}

/// The view of a sequence of character vectors keeps its length.
pub proof fn lemma_views_len(s: Seq<Vec<char>>)
    ensures
        views_of(s).len() == s.len(),
{
}

} // verus!
