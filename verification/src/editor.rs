//! The modal editor controller: a three-mode state machine that turns
//! decoded key events into buffer and cursor operations. File reading and
//! writing are left to the surrounding program, which is told what to do
//! through the action returned by `update`.

use vstd::prelude::*;

use crate::buffer::Buffer;
use crate::buffer::copy_line;
use crate::cursor::RelativePosition;

verus! {

/// The three input modes.
#[derive(Clone, Copy, PartialEq, Eq, Structural, Debug)]
pub enum EditorMode {
    Normal,
    Insert,
    Command,
}

/// A decoded key event, as the input decoder hands it to the controller.
#[derive(Clone, Copy, PartialEq, Eq, Structural, Debug)]
pub enum InputKey {
    Char(char),
    Up,
    Down,
    Left,
    Right,
    Esc,
    Backspace,
    Delete,
}

/// What the surrounding program must do after an update: nothing, write
/// the document to the named file, or load the named file as the new
/// document (handing the lines back through `load_lines`).
#[derive(PartialEq, Eq, Debug)]
pub enum EditorAction {
    Nothing,
    WriteFile(Vec<char>),
    LoadFile(Vec<char>),
}

/// The file name as a sequence of characters, if one is remembered.
pub open spec fn name_view(o: Option<Vec<char>>) -> Option<Seq<char>> {
    match o {
        Some(v) => Some(v@),
        None => None,
    }
}

/// Where a cursor column lands after clamping against a line of length
/// `len`: insert mode may rest one past the last character, the other
/// modes may not; an empty line forces column zero.
pub open spec fn trimmed_column(x: int, len: int, mode: EditorMode) -> int {
    if len == 0 {
        0
    } else {
        let bound = if mode == EditorMode::Insert {
            len
        } else {
            len - 1
        };
        if x <= bound {
            x
        } else {
            bound
        }
    }
}

/// Index of the first space in `s`, or its length if there is none.
pub open spec fn space_index(s: Seq<char>) -> int
    decreases s.len(),
{
    if s.len() == 0 {
        0
    } else if s[0] == ' ' {
        0
    } else {
        1 + space_index(s.skip(1))
    }
}

/// `space_index` points at the first space: everything before it is not a
/// space, and it is a space unless the whole text is space-free.
pub proof fn lemma_space_index(s: Seq<char>)
    ensures
        0 <= space_index(s) <= s.len(),
        forall|k: int| 0 <= k < space_index(s) ==> s[k] != ' ',
        space_index(s) < s.len() ==> s[space_index(s)] == ' ',
    decreases s.len(),
{
    if s.len() != 0 && s[0] != ' ' {
        lemma_space_index(s.skip(1));
        assert forall|k: int| 0 <= k < space_index(s) implies s[k] != ' ' by {
            if k > 0 {
                assert(s.skip(1)[k - 1] == s[k]);
            }
        }
        if space_index(s) < s.len() {
            assert(s.skip(1)[space_index(s) - 1] == s[space_index(s)]);
        }
    }
}

/// Any index with the properties of `space_index` is `space_index`.
pub proof fn lemma_space_index_unique(s: Seq<char>, i: int)
    requires
        0 <= i <= s.len(),
        forall|k: int| 0 <= k < i ==> s[k] != ' ',
        i < s.len() ==> s[i] == ' ',
    ensures
        i == space_index(s),
{
    lemma_space_index(s);
    if i < space_index(s) {
        assert(s[i] != ' ');
    } else if space_index(s) < i {
        assert(s[space_index(s)] != ' ');
    }
}

/// The command word: the characters before the first space.
pub open spec fn first_token(s: Seq<char>) -> Seq<char> {
    s.take(space_index(s))
}

/// The argument: the characters between the first space and the next
/// space (or the end), if there is a first space at all.
pub open spec fn arg_token(s: Seq<char>) -> Option<Seq<char>> {
    if space_index(s) == s.len() {
        None
    } else {
        Some(first_token(s.skip(space_index(s) + 1)))
    }
}

/// `p` is an initial segment of `s`.
pub open spec fn is_prefix_of(p: Seq<char>, s: Seq<char>) -> bool {
    p.len() <= s.len() && p == s.take(p.len() as int)
}

/// The name of the command that ends the editor.
pub open spec fn quit_name() -> Seq<char> {
    seq!['q', 'u', 'i', 't']
}

/// The name of the command that saves the document.
pub open spec fn write_name() -> Seq<char> {
    seq!['w', 'r', 'i', 't', 'e']
}

/// The name of the command that loads a document.
pub open spec fn edit_name() -> Seq<char> {
    seq!['e', 'd', 'i', 't']
}

/// Whether `a` orders a write to the file called `name`.
pub open spec fn is_write_action(a: EditorAction, name: Seq<char>) -> bool {
    match a {
        EditorAction::WriteFile(v) => v@ == name,
        _ => false,
    }
}

/// Whether `a` orders a load from the file called `name`.
pub open spec fn is_load_action(a: EditorAction, name: Seq<char>) -> bool {
    match a {
        EditorAction::LoadFile(v) => v@ == name,
        _ => false,
    }
}

/// What executing the typed command line does, mode aside: the command
/// line is cleared; a (prefix of) `quit` raises the exit flag; a prefix
/// of `write` or `edit` first remembers the argument as the file name if
/// one was given, then orders the write or load if any file name is known
/// by now; an empty or unknown command does nothing. The buffer and the
/// cursor are never touched.
pub open spec fn exec_cmd_spec(
    pre: EditorState,
    post: EditorState,
    action: EditorAction,
) -> bool {
    let s = pre.command_buffer@;
    let cmd = first_token(s);
    let arg = arg_token(s);
    &&& post.command_buffer@ == Seq::<char>::empty()
    &&& post.command_cursor == 0
    &&& post.buffer == pre.buffer
    &&& post.cursor == pre.cursor
    &&& post.current_line_screen_pos == pre.current_line_screen_pos
    &&& if cmd.len() > 0 && is_prefix_of(cmd, quit_name()) {
        &&& post.exit
        &&& name_view(post.file_name) == name_view(pre.file_name)
        &&& action == EditorAction::Nothing
    } else if cmd.len() > 0 && is_prefix_of(cmd, write_name()) {
        &&& post.exit == pre.exit
        &&& name_view(post.file_name) == (if arg is Some {
            arg
        } else {
            name_view(pre.file_name)
        })
        &&& match name_view(post.file_name) {
            Some(n) => is_write_action(action, n),
            None => action == EditorAction::Nothing,
        }
    } else if cmd.len() > 0 && is_prefix_of(cmd, edit_name()) {
        &&& post.exit == pre.exit
        &&& name_view(post.file_name) == (if arg is Some {
            arg
        } else {
            name_view(pre.file_name)
        })
        &&& match name_view(post.file_name) {
            Some(n) => is_load_action(action, n),
            None => action == EditorAction::Nothing,
        }
    } else {
        &&& post.exit == pre.exit
        &&& name_view(post.file_name) == name_view(pre.file_name)
        &&& action == EditorAction::Nothing
    }
}

/// Find the first space at or after `from`, or the end.
fn find_space(v: &Vec<char>, from: usize) -> (idx: usize)
    requires
        from <= v@.len(),
    ensures
        from <= idx <= v@.len(),
        idx - from == space_index(v@.skip(from as int)),
{
    let n = v.len();
    let mut i = from;
    while i < n
        invariant
            from <= i <= n,
            n == v@.len(),
            forall|k: int| from <= k < i ==> v@[k] != ' ',
        decreases n - i,
    {
        if v[i] == ' ' {
            proof {
                assert forall|k: int| 0 <= k < i - from implies v@.skip(from as int)[k]
                    != ' ' by {
                    assert(v@.skip(from as int)[k] == v@[from + k]);
                }
                assert(v@.skip(from as int)[i - from] == v@[i as int]);
                lemma_space_index_unique(v@.skip(from as int), i - from);
            }
            return i;
        }
        i = i + 1;
    }
    proof {
        assert forall|k: int| 0 <= k < n - from implies v@.skip(from as int)[k] != ' ' by {
            assert(v@.skip(from as int)[k] == v@[from + k]);
        }
        lemma_space_index_unique(v@.skip(from as int), n - from);
    }
    n
}

/// Copy the characters of `v` in `[from, to)` into a fresh vector.
fn copy_range(v: &Vec<char>, from: usize, to: usize) -> (out: Vec<char>)
    requires
        from <= to <= v@.len(),
    ensures
        out@ == v@.subrange(from as int, to as int),
{
    let mut out: Vec<char> = Vec::new();
    let mut i = from;
    while i < to
        invariant
            from <= i <= to <= v@.len(),
            out@ =~= v@.subrange(from as int, i as int),
        decreases to - i,
    {
        out.push(v[i]);
        i = i + 1;
        proof {
            assert(out@ =~= v@.subrange(from as int, i as int));
        }
    }
    out
}

/// Split the typed command line into the command word and the argument,
/// if one follows.
fn split_command(v: &Vec<char>) -> (r: (Vec<char>, Option<Vec<char>>))
    ensures
        r.0@ == first_token(v@),
        match r.1 {
            Some(a) => arg_token(v@) == Some(a@),
            None => arg_token(v@) is None,
        },
{
    let n = v.len();
    let i = find_space(v, 0);
    proof {
        assert(v@.skip(0) =~= v@);
        assert(v@.subrange(0, i as int) =~= first_token(v@));
    }
    let cmd = copy_range(v, 0, i);
    if i == n {
        (cmd, None)
    } else {
        let j = find_space(v, i + 1);
        let arg = copy_range(v, i + 1, j);
        proof {
            let rest = v@.skip(i + 1);
            assert(v@.subrange(i + 1, j as int) =~= rest.take(space_index(rest)));
        }
        (cmd, Some(arg))
    }
}

/// `p` is an initial segment of `s`.
fn is_prefix(p: &Vec<char>, s: &Vec<char>) -> (r: bool)
    ensures
        r == is_prefix_of(p@, s@),
{
    let pn = p.len();
    let sn = s.len();
    if pn > sn {
        return false;
    }
    let mut i: usize = 0;
    while i < pn
        invariant
            i <= pn,
            pn == p@.len(),
            sn == s@.len(),
            pn <= sn,
            forall|k: int| 0 <= k < i ==> p@[k] == s@[k],
        decreases pn - i,
    {
        if p[i] != s[i] {
            proof {
                assert(s@.take(pn as int)[i as int] == s@[i as int]);
            }
            return false;
        }
        i = i + 1;
    }
    proof {
        assert(p@ =~= s@.take(pn as int));
    }
    true
}

/// The characters of the `quit` command name.
fn quit_word() -> (v: Vec<char>)
    ensures
        v@ == quit_name(),
{
    let mut v: Vec<char> = Vec::new();
    v.push('q');
    v.push('u');
    v.push('i');
    v.push('t');
    proof {
        assert(v@ =~= quit_name());
    }
    v
}

/// The characters of the `write` command name.
fn write_word() -> (v: Vec<char>)
    ensures
        v@ == write_name(),
{
    let mut v: Vec<char> = Vec::new();
    v.push('w');
    v.push('r');
    v.push('i');
    v.push('t');
    v.push('e');
    proof {
        assert(v@ =~= write_name());
    }
    v
}

/// The characters of the `edit` command name.
fn edit_word() -> (v: Vec<char>)
    ensures
        v@ == edit_name(),
{
    let mut v: Vec<char> = Vec::new();
    v.push('e');
    v.push('d');
    v.push('i');
    v.push('t');
    proof {
        assert(v@ =~= edit_name());
    }
    v
}

/// Cursor bookkeeping after a successful move up: the screen row steps
/// up unless already at the top edge, the column is clamped to the new
/// current line.
pub open spec fn cursor_up_rel(pre: EditorState, post: EditorState) -> bool {
    &&& post.current_line_screen_pos == (if pre.current_line_screen_pos != 0 {
        pre.current_line_screen_pos - 1
    } else {
        0int
    })
    &&& post.cursor.y == post.current_line_screen_pos
    &&& post.cursor.x == trimmed_column(
        pre.cursor.x as int,
        post.buffer.current_line().len() as int,
        pre.mode,
    )
}

/// Cursor bookkeeping after a successful move down on a screen of `dh`
/// drawable rows: the screen row steps down unless already at the bottom
/// edge, the column is clamped to the new current line.
pub open spec fn cursor_down_rel(pre: EditorState, post: EditorState, dh: int) -> bool {
    &&& post.current_line_screen_pos == (if pre.current_line_screen_pos != dh - 1 {
        pre.current_line_screen_pos + 1
    } else {
        pre.current_line_screen_pos as int
    })
    &&& post.cursor.y == post.current_line_screen_pos
    &&& post.cursor.x == trimmed_column(
        pre.cursor.x as int,
        post.buffer.current_line().len() as int,
        pre.mode,
    )
}

/// The parts of the state that navigation and editing never touch.
pub open spec fn same_surroundings(pre: EditorState, post: EditorState) -> bool {
    &&& post.exit == pre.exit
    &&& post.file_name == pre.file_name
    &&& post.command_buffer == pre.command_buffer
    &&& post.command_cursor == pre.command_cursor
}

/// A move up: nothing happens at the top of the document; otherwise the
/// line above becomes current and the document's lines are untouched.
pub open spec fn move_up_rel(pre: EditorState, post: EditorState) -> bool {
    &&& post.mode == pre.mode
    &&& same_surroundings(pre, post)
    &&& post.buffer.lines() == pre.buffer.lines()
    &&& (pre.buffer.line_index() == 0 ==> post == pre)
    &&& (pre.buffer.line_index() > 0 ==> {
        &&& post.buffer.line_index() == pre.buffer.line_index() - 1
        &&& post.buffer.current_line() == pre.buffer.pre_lines().last()
        &&& cursor_up_rel(pre, post)
    })
}

/// A move down: nothing happens at the bottom of the document; otherwise
/// the line below becomes current and the document's lines are untouched.
pub open spec fn move_down_rel(pre: EditorState, post: EditorState, dh: int) -> bool {
    &&& post.mode == pre.mode
    &&& same_surroundings(pre, post)
    &&& post.buffer.lines() == pre.buffer.lines()
    &&& (pre.buffer.post_lines().len() == 0 ==> post == pre)
    &&& (pre.buffer.post_lines().len() > 0 ==> {
        &&& post.buffer.line_index() == pre.buffer.line_index() + 1
        &&& post.buffer.current_line() == pre.buffer.post_lines()[0]
        &&& cursor_down_rel(pre, post, dh)
    })
}

/// One column left, stopping at the left edge; nothing else changes.
pub open spec fn left_rel(pre: EditorState, post: EditorState) -> bool {
    &&& post.cursor.x == (if pre.cursor.x == 0 {
        0int
    } else {
        pre.cursor.x - 1
    })
    &&& post.cursor.y == pre.cursor.y
    &&& post.buffer == pre.buffer
    &&& post.mode == pre.mode
    &&& post.current_line_screen_pos == pre.current_line_screen_pos
    &&& same_surroundings(pre, post)
}

/// One column right, clamped by the mode's rule; nothing else changes.
pub open spec fn right_rel(pre: EditorState, post: EditorState) -> bool {
    &&& post.cursor.x == trimmed_column(
        pre.cursor.x + 1,
        pre.buffer.current_line().len() as int,
        pre.mode,
    )
    &&& post.cursor.y == pre.cursor.y
    &&& post.buffer == pre.buffer
    &&& post.mode == pre.mode
    &&& post.current_line_screen_pos == pre.current_line_screen_pos
    &&& same_surroundings(pre, post)
}

/// Opening a new line: the current line is finished and kept above, an
/// empty line becomes current, the cursor moves down with it and lands in
/// column zero.
pub open spec fn open_line_rel(pre: EditorState, post: EditorState, dh: int) -> bool {
    &&& same_surroundings(pre, post)
    &&& post.buffer.pre_lines() == pre.buffer.pre_lines().push(pre.buffer.current_line())
    &&& post.buffer.current_line() == Seq::<char>::empty()
    &&& post.buffer.post_lines() == pre.buffer.post_lines()
    &&& post.buffer.lines().len() == pre.buffer.lines().len() + 1
    &&& post.current_line_screen_pos == (if pre.current_line_screen_pos != dh - 1 {
        pre.current_line_screen_pos + 1
    } else {
        pre.current_line_screen_pos as int
    })
    &&& post.cursor.y == post.current_line_screen_pos
    &&& post.cursor.x == 0
}

/// A line break at the cursor: the text left of the cursor is finished
/// and kept above, the text right of it becomes the current line, the
/// cursor moves down with it and lands in column zero.
pub open spec fn split_line_rel(pre: EditorState, post: EditorState, dh: int) -> bool {
    &&& post.mode == pre.mode
    &&& same_surroundings(pre, post)
    &&& post.buffer.pre_lines() == pre.buffer.pre_lines().push(
        pre.buffer.current_line().take(pre.cursor.x as int),
    )
    &&& post.buffer.current_line() == pre.buffer.current_line().skip(pre.cursor.x as int)
    &&& post.buffer.post_lines() == pre.buffer.post_lines()
    &&& post.buffer.lines().len() == pre.buffer.lines().len() + 1
    &&& post.current_line_screen_pos == (if pre.current_line_screen_pos != dh - 1 {
        pre.current_line_screen_pos + 1
    } else {
        pre.current_line_screen_pos as int
    })
    &&& post.cursor.y == post.current_line_screen_pos
    &&& post.cursor.x == 0
}

/// Typing a character: it is inserted at the cursor's column and the
/// cursor steps right past it; the other lines are untouched.
pub open spec fn insert_char_rel(pre: EditorState, post: EditorState, c: char) -> bool {
    &&& post.mode == pre.mode
    &&& same_surroundings(pre, post)
    &&& post.buffer.current_line() == pre.buffer.current_line().insert(
        pre.cursor.x as int,
        c,
    )
    &&& post.buffer.pre_lines() == pre.buffer.pre_lines()
    &&& post.buffer.post_lines() == pre.buffer.post_lines()
    &&& post.cursor.x == pre.cursor.x + 1
    &&& post.cursor.y == pre.cursor.y
    &&& post.current_line_screen_pos == pre.current_line_screen_pos
}

/// Backspace inside a line: the character before the cursor goes away and
/// the cursor steps left onto its place.
pub open spec fn backspace_rel(pre: EditorState, post: EditorState) -> bool {
    &&& post.mode == pre.mode
    &&& same_surroundings(pre, post)
    &&& post.buffer.current_line() == pre.buffer.current_line().remove(pre.cursor.x - 1)
    &&& post.buffer.pre_lines() == pre.buffer.pre_lines()
    &&& post.buffer.post_lines() == pre.buffer.post_lines()
    &&& post.cursor.x == pre.cursor.x - 1
    &&& post.cursor.y == pre.cursor.y
    &&& post.current_line_screen_pos == pre.current_line_screen_pos
}

/// Backspace in column zero: the current line is appended to the line
/// above, which becomes current, and the cursor lands at the seam; at the
/// top of the document nothing happens.
pub open spec fn merge_rel(pre: EditorState, post: EditorState) -> bool {
    &&& post.mode == pre.mode
    &&& same_surroundings(pre, post)
    &&& (pre.buffer.line_index() == 0 ==> post == pre)
    &&& (pre.buffer.line_index() > 0 ==> {
        &&& post.buffer.current_line() == pre.buffer.pre_lines().last()
            + pre.buffer.current_line()
        &&& post.buffer.pre_lines() == pre.buffer.pre_lines().drop_last()
        &&& post.buffer.post_lines() == pre.buffer.post_lines()
        &&& post.buffer.lines().len() == pre.buffer.lines().len() - 1
        &&& post.current_line_screen_pos == (if pre.current_line_screen_pos != 0 {
            pre.current_line_screen_pos - 1
        } else {
            0int
        })
        &&& post.cursor.y == post.current_line_screen_pos
        &&& post.cursor.x == pre.buffer.pre_lines().last().len()
    })
}

/// Forward delete: the character under the cursor goes away and the
/// cursor stays; the other lines are untouched.
pub open spec fn forward_delete_rel(pre: EditorState, post: EditorState) -> bool {
    &&& post.mode == pre.mode
    &&& same_surroundings(pre, post)
    &&& post.buffer.current_line() == pre.buffer.current_line().remove(pre.cursor.x as int)
    &&& post.buffer.pre_lines() == pre.buffer.pre_lines()
    &&& post.buffer.post_lines() == pre.buffer.post_lines()
    &&& post.cursor == pre.cursor
    &&& post.current_line_screen_pos == pre.current_line_screen_pos
}

/// Normal mode: navigation, entry into insert or command mode, opening a
/// line; everything else is ignored. No action is ever ordered.
pub open spec fn normal_step(
    pre: EditorState,
    post: EditorState,
    evt: InputKey,
    dh: int,
    action: EditorAction,
) -> bool {
    &&& action == EditorAction::Nothing
    &&& match evt {
        InputKey::Char(c) => {
            if c == 'j' {
                move_down_rel(pre, post, dh)
            } else if c == 'k' {
                move_up_rel(pre, post)
            } else if c == 'h' {
                left_rel(pre, post)
            } else if c == 'l' {
                right_rel(pre, post)
            } else if c == 'i' {
                post == (EditorState { mode: EditorMode::Insert, ..pre })
            } else if c == 'a' {
                &&& post.mode == EditorMode::Insert
                &&& post.cursor.x == trimmed_column(
                    pre.cursor.x + 1,
                    pre.buffer.current_line().len() as int,
                    pre.mode,
                )
                &&& post.cursor.y == pre.cursor.y
                &&& post.buffer == pre.buffer
                &&& post.current_line_screen_pos == pre.current_line_screen_pos
                &&& same_surroundings(pre, post)
            } else if c == 'o' {
                &&& post.mode == EditorMode::Insert
                &&& open_line_rel(pre, post, dh)
            } else if c == ':' {
                &&& post.mode == EditorMode::Command
                &&& post.command_buffer@ == Seq::<char>::empty()
                &&& post.command_cursor == 0
                &&& post.buffer == pre.buffer
                &&& post.cursor == pre.cursor
                &&& post.current_line_screen_pos == pre.current_line_screen_pos
                &&& post.exit == pre.exit
                &&& post.file_name == pre.file_name
            } else {
                post == pre
            }
        },
        InputKey::Down => move_down_rel(pre, post, dh),
        InputKey::Up => move_up_rel(pre, post),
        InputKey::Left => left_rel(pre, post),
        InputKey::Right => right_rel(pre, post),
        _ => post == pre,
    }
}

/// Insert mode: leaving with escape (clamping the cursor to the normal
/// bound), navigation, line breaks, typing, backspace and forward delete
/// (ignored at the end of the line). No action is ever ordered.
pub open spec fn insert_step(
    pre: EditorState,
    post: EditorState,
    evt: InputKey,
    dh: int,
    action: EditorAction,
) -> bool {
    &&& action == EditorAction::Nothing
    &&& match evt {
        InputKey::Esc => {
            &&& post.mode == EditorMode::Normal
            &&& post.cursor.x == trimmed_column(
                pre.cursor.x as int,
                pre.buffer.current_line().len() as int,
                EditorMode::Normal,
            )
            &&& post.cursor.y == pre.cursor.y
            &&& post.buffer == pre.buffer
            &&& post.current_line_screen_pos == pre.current_line_screen_pos
            &&& same_surroundings(pre, post)
        },
        InputKey::Up => move_up_rel(pre, post),
        InputKey::Down => move_down_rel(pre, post, dh),
        InputKey::Left => left_rel(pre, post),
        InputKey::Right => right_rel(pre, post),
        InputKey::Char(c) => {
            if c == '\n' {
                split_line_rel(pre, post, dh)
            } else {
                insert_char_rel(pre, post, c)
            }
        },
        InputKey::Backspace => {
            if pre.cursor.x != 0 {
                backspace_rel(pre, post)
            } else {
                merge_rel(pre, post)
            }
        },
        InputKey::Delete => {
            if pre.cursor.x < pre.buffer.current_line().len() {
                forward_delete_rel(pre, post)
            } else {
                post == pre
            }
        },
    }
}

/// Command mode: escape abandons the command line, enter executes it and
/// returns to normal mode, characters and backspace edit it; everything
/// else is ignored.
pub open spec fn command_step(
    pre: EditorState,
    post: EditorState,
    evt: InputKey,
    action: EditorAction,
) -> bool {
    match evt {
        InputKey::Esc => {
            &&& post == (EditorState { mode: EditorMode::Normal, ..pre })
            &&& action == EditorAction::Nothing
        },
        InputKey::Char(c) => {
            if c == '\n' {
                &&& exec_cmd_spec(pre, post, action)
                &&& post.mode == EditorMode::Normal
            } else {
                &&& action == EditorAction::Nothing
                &&& post.command_buffer@ == pre.command_buffer@.insert(
                    pre.command_cursor as int,
                    c,
                )
                &&& post.command_cursor == pre.command_cursor + 1
                &&& post.mode == pre.mode
                &&& post.buffer == pre.buffer
                &&& post.cursor == pre.cursor
                &&& post.current_line_screen_pos == pre.current_line_screen_pos
                &&& post.exit == pre.exit
                &&& post.file_name == pre.file_name
            }
        },
        InputKey::Backspace => {
            &&& action == EditorAction::Nothing
            &&& (pre.command_cursor == 0 ==> post == pre)
            &&& (pre.command_cursor > 0 ==> {
                &&& post.command_buffer@ == pre.command_buffer@.remove(
                    pre.command_cursor - 1,
                )
                &&& post.command_cursor == pre.command_cursor - 1
                &&& post.mode == pre.mode
                &&& post.buffer == pre.buffer
                &&& post.cursor == pre.cursor
                &&& post.current_line_screen_pos == pre.current_line_screen_pos
                &&& post.exit == pre.exit
                &&& post.file_name == pre.file_name
            })
        },
        _ => post == pre && action == EditorAction::Nothing,
    }
}

/// One step of the editor: what `update` does to the whole state for
/// each mode and key, with `dh` drawable screen rows.
pub open spec fn update_spec(
    pre: EditorState,
    post: EditorState,
    evt: InputKey,
    dh: int,
    action: EditorAction,
) -> bool {
    match pre.mode {
        EditorMode::Normal => normal_step(pre, post, evt, dh, action),
        EditorMode::Insert => insert_step(pre, post, evt, dh, action),
        EditorMode::Command => command_step(pre, post, evt, action),
    }
}

/// The editor: one buffer, one cursor, the current mode, and the line of
/// command text being typed.
pub struct EditorState {
    pub mode: EditorMode,
    pub file_name: Option<Vec<char>>,
    pub exit: bool,
    pub buffer: Buffer,
    pub cursor: RelativePosition,
    pub current_line_screen_pos: usize,
    pub command_buffer: Vec<char>,
    pub command_cursor: usize,
}

impl EditorState {
    /// The cursor-to-buffer synchronisation contract: the column never
    /// passes the end of the current line, the current line's screen row
    /// never exceeds the number of lines above it, and the cursor's row
    /// mirrors that screen row.
    pub open spec fn wf(self) -> bool {
        &&& self.buffer.wf()
        &&& self.cursor.x <= self.buffer.current_line().len()
        &&& self.current_line_screen_pos <= self.buffer.line_index()
        &&& self.cursor.y == self.current_line_screen_pos
        &&& self.command_cursor <= self.command_buffer@.len()
    }

    /// A fresh editor: normal mode, an empty document, the cursor at the
    /// origin, no file name, nothing typed.
    pub fn new() -> (st: EditorState)
        ensures
            st.wf(),
            st.mode == EditorMode::Normal,
            st.file_name is None,
            !st.exit,
            st.buffer.lines() == seq![Seq::<char>::empty()],
            st.buffer.current_line() == Seq::<char>::empty(),
            st.buffer.line_index() == 0,
            st.cursor.x == 0,
            st.cursor.y == 0,
            st.current_line_screen_pos == 0,
            st.command_buffer@ == Seq::<char>::empty(),
            st.command_cursor == 0,
    {
        EditorState {
            mode: EditorMode::Normal,
            file_name: None,
            exit: false,
            buffer: Buffer::new(),
            cursor: RelativePosition::new(),
            current_line_screen_pos: 0,
            command_buffer: Vec::new(),
            command_cursor: 0,
        }
    }

    /// Replace the document with freshly loaded lines and put the cursor
    /// back at the origin; mode, file name and command line are kept.
    pub fn load_lines(&mut self, lines: Vec<Vec<char>>)
        requires
            old(self).command_cursor <= old(self).command_buffer@.len(),
        ensures
            final(self).wf(),
            lines@.len() == 0 ==> final(self).buffer.lines() == seq![Seq::<char>::empty()],
            lines@.len() > 0 ==> final(self).buffer.lines() == crate::buffer::views_of(
                lines@,
            ),
            final(self).buffer.line_index() == 0,
            final(self).cursor.x == 0,
            final(self).cursor.y == 0,
            final(self).current_line_screen_pos == 0,
            final(self).mode == old(self).mode,
            final(self).exit == old(self).exit,
            name_view(final(self).file_name) == name_view(old(self).file_name),
            final(self).command_buffer@ == old(self).command_buffer@,
            final(self).command_cursor == old(self).command_cursor,
    {
        self.buffer = Buffer::from_lines(lines);
        self.cursor = RelativePosition::new();
        self.current_line_screen_pos = 0;
    }

    /// Clamp the cursor column to the current line, per the mode's rule.
    fn trim_cursor(&mut self)
        requires
            old(self).buffer.wf(),
        ensures
            final(self).cursor.x == trimmed_column(
                old(self).cursor.x as int,
                old(self).buffer.current_line().len() as int,
                old(self).mode,
            ),
            final(self).cursor.y == old(self).cursor.y,
            final(self).buffer == old(self).buffer,
            final(self).mode == old(self).mode,
            final(self).exit == old(self).exit,
            final(self).file_name == old(self).file_name,
            final(self).current_line_screen_pos == old(self).current_line_screen_pos,
            final(self).command_buffer == old(self).command_buffer,
            final(self).command_cursor == old(self).command_cursor,
    {
        let len = self.buffer.current_line_len();
        if len == 0 {
            self.cursor.full_left();
        } else {
            let bound = match self.mode {
                EditorMode::Insert => len,
                _ => len - 1,
            };
            if self.cursor.x > bound {
                self.cursor.go_to_x(bound);
            }
        }
    }

    /// Screen bookkeeping after the buffer moved a line up: the current
    /// line's screen row steps up unless already at the top edge, and the
    /// column is clamped to the new current line.
    fn cursor_up(&mut self)
        requires
            old(self).buffer.wf(),
            old(self).cursor.y == old(self).current_line_screen_pos,
        ensures
            final(self).current_line_screen_pos == (if old(self).current_line_screen_pos
                != 0 {
                old(self).current_line_screen_pos - 1
            } else {
                0int
            }),
            final(self).cursor.y == final(self).current_line_screen_pos,
            final(self).cursor.x == trimmed_column(
                old(self).cursor.x as int,
                old(self).buffer.current_line().len() as int,
                old(self).mode,
            ),
            final(self).buffer == old(self).buffer,
            final(self).mode == old(self).mode,
            final(self).exit == old(self).exit,
            final(self).file_name == old(self).file_name,
            final(self).command_buffer == old(self).command_buffer,
            final(self).command_cursor == old(self).command_cursor,
    {
        if self.current_line_screen_pos != 0 {
            self.current_line_screen_pos = self.current_line_screen_pos - 1;
            self.cursor.up();
        }
        self.trim_cursor();
    }

    /// Screen bookkeeping after the buffer moved a line down: the current
    /// line's screen row steps down unless already at the bottom edge,
    /// and the column is clamped to the new current line.
    fn cursor_down(&mut self, drawable_height: u16)
        requires
            old(self).buffer.wf(),
            old(self).cursor.y == old(self).current_line_screen_pos,
            drawable_height >= 1,
            old(self).current_line_screen_pos < usize::MAX,
        ensures
            final(self).current_line_screen_pos == (if old(self).current_line_screen_pos
                != drawable_height - 1 {
                old(self).current_line_screen_pos + 1
            } else {
                old(self).current_line_screen_pos as int
            }),
            final(self).cursor.y == final(self).current_line_screen_pos,
            final(self).cursor.x == trimmed_column(
                old(self).cursor.x as int,
                old(self).buffer.current_line().len() as int,
                old(self).mode,
            ),
            final(self).buffer == old(self).buffer,
            final(self).mode == old(self).mode,
            final(self).exit == old(self).exit,
            final(self).file_name == old(self).file_name,
            final(self).command_buffer == old(self).command_buffer,
            final(self).command_cursor == old(self).command_cursor,
    {
        let bottom = (drawable_height - 1) as usize;
        if self.current_line_screen_pos != bottom {
            self.current_line_screen_pos = self.current_line_screen_pos + 1;
            self.cursor.down();
        }
        self.trim_cursor();
    }

    /// Move to the line above, if any, keeping the cursor in sync.
    fn up(&mut self)
        requires
            old(self).wf(),
        ensures
            final(self).wf(),
            move_up_rel(*old(self), *final(self)),
    {
        if self.buffer.up() {
            self.cursor_up();
        }
    }

    /// Move to the line below, if any, keeping the cursor in sync.
    fn down(&mut self, drawable_height: u16)
        requires
            old(self).wf(),
            drawable_height >= 1,
        ensures
            final(self).wf(),
            move_down_rel(*old(self), *final(self), drawable_height as int),
    {
        if self.buffer.down() {
            proof {
                assert(self.buffer.pre.len() <= usize::MAX);
            }
            self.cursor_down(drawable_height);
        }
    }

    /// One column left, stopping at the left edge.
    fn left(&mut self)
        requires
            old(self).wf(),
        ensures
            final(self).wf(),
            left_rel(*old(self), *final(self)),
    {
        self.cursor.left();
    }

    /// One column right, clamped by the mode's rule.
    fn right(&mut self)
        requires
            old(self).wf(),
        ensures
            final(self).wf(),
            right_rel(*old(self), *final(self)),
    {
        let len = self.buffer.current_line_len();
        if len == 0 {
            self.cursor.full_left();
        } else {
            let bound = match self.mode {
                EditorMode::Insert => len,
                _ => len - 1,
            };
            if self.cursor.x < bound {
                let nx = self.cursor.x + 1;
                self.cursor.go_to_x(nx);
            } else {
                self.cursor.go_to_x(bound);
            }
        }
    }

    /// Execute the typed command line and clear it; the mode is left to
    /// the caller.
    fn execute_command(&mut self) -> (action: EditorAction)
        ensures
            exec_cmd_spec(*old(self), *final(self), action),
            final(self).mode == old(self).mode,
    {
        let (cmd, arg) = split_command(&self.command_buffer);
        let mut action = EditorAction::Nothing;
        let quit_w = quit_word();
        let write_w = write_word();
        let edit_w = edit_word();
        if cmd.len() > 0 && is_prefix(&cmd, &quit_w) {
            self.exit = true;
        } else if cmd.len() > 0 && is_prefix(&cmd, &write_w) {
            match arg {
                Some(a) => {
                    self.file_name = Some(a);
                },
                None => {},
            }
            match &self.file_name {
                Some(name) => {
                    action = EditorAction::WriteFile(copy_line(name));
                },
                None => {},
            }
        } else if cmd.len() > 0 && is_prefix(&cmd, &edit_w) {
            match arg {
                Some(a) => {
                    self.file_name = Some(a);
                },
                None => {},
            }
            match &self.file_name {
                Some(name) => {
                    action = EditorAction::LoadFile(copy_line(name));
                },
                None => {},
            }
        }
        self.command_buffer.clear();
        self.command_cursor = 0;
        action
    }

    /// One step of the editor: dispatch a key event against the current
    /// mode, mutate the buffer, the cursor and the command line as the
    /// mode prescribes, and return the file operation the surrounding
    /// program must now carry out, if any.
    pub fn update(&mut self, evt: InputKey, term_height: u16) -> (action: EditorAction)
        requires
            old(self).wf(),
            term_height >= 3,
            old(self).buffer.current_line().len() < usize::MAX,
            old(self).command_buffer@.len() < usize::MAX,
            old(self).buffer.line_index() > 0 ==> old(self).buffer.pre_lines().last().len()
                + old(self).buffer.current_line().len() <= usize::MAX,
        ensures
            final(self).wf(),
            update_spec(
                *old(self),
                *final(self),
                evt,
                term_height - 2,
                action,
            ),
    {
        let drawable_height = term_height - 2;
        match self.mode {
            EditorMode::Normal => {
                match evt {
                    InputKey::Char(c) => {
                        if c == 'j' {
                            self.down(drawable_height);
                        } else if c == 'k' {
                            self.up();
                        } else if c == 'h' {
                            self.left();
                        } else if c == 'l' {
                            self.right();
                        } else if c == 'i' {
                            self.mode = EditorMode::Insert;
                        } else if c == 'a' {
                            self.right();
                            self.mode = EditorMode::Insert;
                        } else if c == 'o' {
                            self.buffer.new_empty_line();
                            proof {
                                assert(self.buffer.pre.len() <= usize::MAX);
                            }
                            self.cursor_down(drawable_height);
                            self.cursor.full_left();
                            self.mode = EditorMode::Insert;
                        } else if c == ':' {
                            self.mode = EditorMode::Command;
                            self.command_buffer.clear();
                            self.command_cursor = 0;
                        }
                    },
                    InputKey::Down => self.down(drawable_height),
                    InputKey::Up => self.up(),
                    InputKey::Left => self.left(),
                    InputKey::Right => self.right(),
                    _ => {},
                }
                EditorAction::Nothing
            },
            EditorMode::Insert => {
                match evt {
                    InputKey::Esc => {
                        self.mode = EditorMode::Normal;
                        self.trim_cursor();
                    },
                    InputKey::Up => self.up(),
                    InputKey::Down => self.down(drawable_height),
                    InputKey::Left => self.left(),
                    InputKey::Right => self.right(),
                    InputKey::Char(c) => {
                        if c == '\n' {
                            let x = self.cursor.x;
                            self.buffer.new_line(x);
                            proof {
                                assert(self.buffer.pre.len() <= usize::MAX);
                            }
                            self.cursor_down(drawable_height);
                            self.cursor.full_left();
                            self.mode = EditorMode::Insert;
                        } else {
                            let x = self.cursor.x;
                            self.buffer.insert(x, c);
                            self.cursor.right();
                        }
                    },
                    InputKey::Backspace => {
                        if self.cursor.x != 0 {
                            self.cursor.left();
                            let x = self.cursor.x;
                            self.buffer.delete(x);
                        } else {
                            match self.buffer.merge_line_to_prev() {
                                Some(new_cursor_x) => {
                                    self.cursor_up();
                                    self.cursor.go_to_x(new_cursor_x);
                                },
                                None => {},
                            }
                        }
                    },
                    InputKey::Delete => {
                        let x = self.cursor.x;
                        let len = self.buffer.current_line_len();
                        if x < len {
                            self.buffer.delete(x);
                        }
                    },
                }
                EditorAction::Nothing
            },
            EditorMode::Command => {
                match evt {
                    InputKey::Esc => {
                        self.mode = EditorMode::Normal;
                        EditorAction::Nothing
                    },
                    InputKey::Char(c) => {
                        if c == '\n' {
                            let action = self.execute_command();
                            self.mode = EditorMode::Normal;
                            action
                        } else {
                            let cc = self.command_cursor;
                            self.command_buffer.insert(cc, c);
                            self.command_cursor = cc + 1;
                            EditorAction::Nothing
                        }
                    },
                    InputKey::Backspace => {
                        if self.command_cursor != 0 {
                            self.command_cursor = self.command_cursor - 1;
                            let cc = self.command_cursor;
                            self.command_buffer.remove(cc);
                        }
                        EditorAction::Nothing
                    },
                    InputKey::Delete => {
                        // Under the synchronisation contract this guard can
                        // never hold, so the key leaves the command line
                        // unchanged.
                        if self.command_buffer.len() < self.command_cursor {
                            let cc = self.command_cursor;
                            self.command_buffer.remove(cc);
                        }
                        EditorAction::Nothing
                    },
                    _ => EditorAction::Nothing,
                }
            },
        }
    }
}

} // verus!
