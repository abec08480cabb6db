//! A single- or multi-line text editor with a cursor and a selection.
use vstd::prelude::*;
use crate::chars::{
    take_upto, skip_from, newlines, line_begin, next_newline, last_newline, to_chars, from_chars,
    cut, insert_at, count_newlines, line_start, find_newline, lemma_next_newline_bounds,
    lemma_last_newline_bounds,
};
use crate::keys::{KeyCode, KeyInput};

verus! {

/// An editable piece of text. `cursor` and `selection_anchor` are positions
/// counted in characters.
#[derive(Clone)]
pub struct TextInput {
    pub input: String,
    pub cursor: usize,
    pub focused: bool,
    pub multiline: bool,
    pub selection_anchor: Option<usize>,
}

/// The abstract state of a [`TextInput`].
pub struct InputModel {
    pub text: Seq<char>,
    pub cursor: usize,
    pub focused: bool,
    pub multiline: bool,
    pub anchor: Option<usize>,
}

impl View for TextInput {
    type V = InputModel;

    open spec fn view(&self) -> InputModel {
        InputModel {
            text: self.input@,
            cursor: self.cursor,
            focused: self.focused,
            multiline: self.multiline,
            anchor: self.selection_anchor,
        }
    }
}

/// The selection between the anchor and the cursor, smaller end first.
pub open spec fn selection_of(anchor: Option<usize>, cursor: usize) -> Option<(usize, usize)> {
    match anchor {
        Some(a) => if a <= cursor { Some((a, cursor)) } else { Some((cursor, a)) },
        None => None,
    }
}

/// Whether a non-empty stretch of text is selected.
pub open spec fn selecting(m: InputModel) -> bool {
    match selection_of(m.anchor, m.cursor) {
        Some((s, e)) => s != e,
        None => false,
    }
}

/// The state after the selected text is removed: the cursor goes to where the
/// selection started, and no anchor is left.
pub open spec fn without_selection(m: InputModel) -> InputModel {
    match selection_of(m.anchor, m.cursor) {
        Some((s, e)) => if s != e {
            InputModel {
                text: take_upto(m.text, s as int) + skip_from(m.text, e as int),
                cursor: s,
                anchor: None,
                ..m
            }
        } else {
            InputModel { anchor: None, ..m }
        },
        None => InputModel { anchor: None, ..m },
    }
}

/// The state after typing `c`: it replaces the selection, if any, and goes in
/// at the cursor, which moves past it.
pub open spec fn typed(m: InputModel, c: char) -> InputModel {
    let b = if selecting(m) { without_selection(m) } else { m };
    InputModel {
        text: take_upto(b.text, b.cursor as int) + seq![c] + skip_from(b.text, b.cursor as int),
        cursor: if b.cursor < usize::MAX { (b.cursor + 1) as usize } else { b.cursor },
        ..b
    }
}

/// The anchor after a cursor movement: kept (or set at the cursor) while
/// shift is held, dropped otherwise.
pub open spec fn anchor_after_move(m: InputModel, shift: bool) -> Option<usize> {
    if shift {
        if m.anchor is None { Some(m.cursor) } else { m.anchor }
    } else {
        None
    }
}

/// The column of `cursor`: its distance from the start of its line.
pub open spec fn column(text: Seq<char>, cursor: usize) -> int {
    cursor - line_begin(text, cursor as int)
}

/// Where the cursor goes on the line above: the same column, or the end of
/// that line when it is shorter. On the first line it stays.
pub open spec fn cursor_above(text: Seq<char>, cursor: usize) -> int {
    let b = line_begin(text, cursor as int);
    if b == 0 {
        cursor as int
    } else {
        let prev_start = line_begin(text, b - 1);
        let prev_len = b - 1 - prev_start;
        let col = cursor - b;
        prev_start + if col < prev_len { col } else { prev_len }
    }
}

/// Where the cursor goes on the line below: the same column, or the end of
/// that line when it is shorter. On the last line it stays.
pub open spec fn cursor_below(text: Seq<char>, cursor: usize) -> int {
    let q = next_newline(text, cursor as int);
    if cursor > text.len() || q >= text.len() {
        cursor as int
    } else {
        let next_start = q + 1;
        let next_len = next_newline(text, next_start) - next_start;
        let col = column(text, cursor);
        next_start + if col < next_len { col } else { next_len }
    }
}

/// What a key does to an editor: the new state, and whether it submitted the
/// input (Enter on a single-line editor). An editor without focus ignores keys.
pub open spec fn key_step(m: InputModel, k: KeyInput) -> (InputModel, bool) {
    if !m.focused {
        (m, false)
    } else {
        match k.code {
            KeyCode::Char(c) => (typed(m, c), false),
            KeyCode::Backspace => if selecting(m) {
                (without_selection(m), false)
            } else if m.cursor > 0 {
                (InputModel {
                    text: take_upto(m.text, m.cursor - 1) + skip_from(m.text, m.cursor as int),
                    cursor: (m.cursor - 1) as usize,
                    ..m
                }, false)
            } else {
                (m, false)
            },
            KeyCode::Delete => if selecting(m) {
                (without_selection(m), false)
            } else if m.cursor < m.text.len() {
                (InputModel {
                    text: take_upto(m.text, m.cursor as int) + skip_from(m.text, m.cursor + 1),
                    ..m
                }, false)
            } else {
                (m, false)
            },
            KeyCode::Left => (InputModel {
                anchor: anchor_after_move(m, k.shift),
                cursor: if m.cursor > 0 { (m.cursor - 1) as usize } else { 0 },
                ..m
            }, false),
            KeyCode::Right => (InputModel {
                anchor: anchor_after_move(m, k.shift),
                cursor: if m.cursor + 1 < m.text.len() { (m.cursor + 1) as usize } else { m.text.len() as usize },
                ..m
            }, false),
            KeyCode::Up => if m.multiline {
                (InputModel {
                    anchor: anchor_after_move(m, k.shift),
                    cursor: cursor_above(m.text, m.cursor) as usize,
                    ..m
                }, false)
            } else {
                (m, false)
            },
            KeyCode::Down => if m.multiline {
                (InputModel {
                    anchor: anchor_after_move(m, k.shift),
                    cursor: cursor_below(m.text, m.cursor) as usize,
                    ..m
                }, false)
            } else {
                (m, false)
            },
            KeyCode::Enter => if m.multiline {
                (typed(m, '\n'), false)
            } else {
                (m, true)
            },
            _ => (m, false),
        }
    }
}

/// Whether position `i` lies inside a non-empty selection.
pub open spec fn in_selection(sel: Option<(usize, usize)>, i: int) -> bool {
    match sel {
        Some((s, e)) => s != e && s <= i < e,
        None => false,
    }
}

/// A line of runs after one more character with selection state `f`: it
/// extends the last run when that run has the same state, else starts a run.
pub open spec fn runs_push(line: Seq<(Seq<char>, bool)>, c: char, f: bool) -> Seq<(Seq<char>, bool)> {
    if line.len() > 0 && line.last().1 == f {
        line.update(line.len() - 1, (line.last().0.push(c), f))
    } else {
        line.push((seq![c], f))
    }
}

/// The text split into lines at its line breaks, each line split into maximal
/// runs of characters that are all selected or all unselected.
pub open spec fn layout(s: Seq<char>, sel: Option<(usize, usize)>) -> Seq<Seq<(Seq<char>, bool)>>
    decreases s.len(),
{
    if s.len() == 0 {
        seq![Seq::empty()]
    } else {
        let prev = layout(s.drop_last(), sel);
        if s.last() == '\n' {
            prev.push(Seq::empty())
        } else {
            prev.update(prev.len() - 1, runs_push(prev.last(), s.last(), in_selection(sel, s.len() - 1)))
        }
    }
}

/// The characters of a line of runs, in order.
pub open spec fn runs_text(line: Seq<(Seq<char>, bool)>) -> Seq<char>
    decreases line.len(),
{
    if line.len() == 0 {
        Seq::empty()
    } else {
        runs_text(line.drop_last()) + line.last().0
    }
}

/// Lines of runs put back together, with a line break between lines.
pub open spec fn joined_text(lines: Seq<Seq<(Seq<char>, bool)>>) -> Seq<char>
    decreases lines.len(),
{
    if lines.len() == 0 {
        Seq::empty()
    } else if lines.len() == 1 {
        runs_text(lines[0])
    } else {
        joined_text(lines.drop_last()) + seq!['\n'] + runs_text(lines.last())
    }
}

/// The abstract value of a line of runs held in strings.
pub open spec fn line_view(line: Seq<(String, bool)>) -> Seq<(Seq<char>, bool)> {
    line.map_values(|p: (String, bool)| (p.0@, p.1))
}

/// The abstract value of lines of runs held in strings.
pub open spec fn lines_view(lines: Seq<Vec<(String, bool)>>) -> Seq<Seq<(Seq<char>, bool)>> {
    lines.map_values(|l: Vec<(String, bool)>| line_view(l@))
}

proof fn lemma_line_view_push(line: Seq<(String, bool)>, p: (String, bool))
    ensures
        line_view(line.push(p)) =~= line_view(line).push((p.0@, p.1)),
{
    assert(line_view(line.push(p)).len() == line_view(line).len() + 1);
    assert forall|j: int| 0 <= j < line.len() + 1 implies line_view(line.push(p))[j] == line_view(line).push((p.0@, p.1))[j] by {
        if j < line.len() {
            assert(line.push(p)[j] == line[j]);
        }
    }
}

proof fn lemma_lines_view_push(lines: Seq<Vec<(String, bool)>>, x: Vec<(String, bool)>)
    ensures
        lines_view(lines.push(x)) =~= lines_view(lines).push(line_view(x@)),
{
    assert forall|j: int| 0 <= j < lines.len() + 1 implies lines_view(lines.push(x))[j] == lines_view(lines).push(line_view(x@))[j] by {
        if j < lines.len() {
            assert(lines.push(x)[j] == lines[j]);
        }
    }
}

proof fn lemma_layout_len(s: Seq<char>, sel: Option<(usize, usize)>)
    ensures
        layout(s, sel).len() == newlines(s) + 1,
    decreases s.len(),
{
    if s.len() > 0 {
        lemma_layout_len(s.drop_last(), sel);
    }
}

proof fn lemma_runs_push_text(line: Seq<(Seq<char>, bool)>, c: char, f: bool)
    ensures
        runs_text(runs_push(line, c, f)) == runs_text(line).push(c),
{
    let r = runs_push(line, c, f);
    if line.len() > 0 && line.last().1 == f {
        assert(r.drop_last() =~= line.drop_last());
        assert(runs_text(r) =~= runs_text(line).push(c));
    } else {
        assert(r.drop_last() =~= line);
        assert(runs_text(r) =~= runs_text(line).push(c));
    }
}

/// The lines of the selection layout number one more than the line breaks.
pub proof fn law_layout_line_count(s: Seq<char>, sel: Option<(usize, usize)>)
    ensures
        layout(s, sel).len() == newlines(s) + 1,
{
    lemma_layout_len(s, sel);
}

/// Putting the lines of the selection layout back together, with line breaks
/// between them, gives the text again.
pub proof fn law_layout_reproduces_text(s: Seq<char>, sel: Option<(usize, usize)>)
    ensures
        joined_text(layout(s, sel)) == s,
    decreases s.len(),
{
    if s.len() > 0 {
        let prev = layout(s.drop_last(), sel);
        law_layout_reproduces_text(s.drop_last(), sel);
        lemma_layout_len(s.drop_last(), sel);
        let l = layout(s, sel);
        if s.last() == '\n' {
            assert(l.drop_last() =~= prev);
            assert(runs_text(l.last()) =~= Seq::<char>::empty());
            assert(joined_text(l) =~= s);
        } else {
            let f = in_selection(sel, s.len() - 1);
            lemma_runs_push_text(prev.last(), s.last(), f);
            assert(l.last() == runs_push(prev.last(), s.last(), f));
            assert(s =~= s.drop_last().push(s.last()));
            if prev.len() == 1 {
                assert(l[0] == l.last());
                assert(joined_text(l) == runs_text(l[0]));
                assert(joined_text(prev) == runs_text(prev[0]));
                assert(joined_text(l) =~= s);
            } else {
                assert(l.drop_last() =~= prev.drop_last());
                assert(joined_text(l) == joined_text(l.drop_last()) + seq!['\n'] + runs_text(l.last()));
                assert(joined_text(prev) == joined_text(prev.drop_last()) + seq!['\n'] + runs_text(prev.last()));
                assert(joined_text(l) =~= s);
            }
        }
    }
}

proof fn lemma_line_begin_bounds(text: Seq<char>, n: int)
    requires
        0 <= n,
    ensures
        0 <= line_begin(text, n) <= take_upto(text, n).len(),
        line_begin(text, n) > 0 ==> text[line_begin(text, n) - 1] == '\n',
{
    crate::chars::lemma_last_newline_bounds(take_upto(text, n));
    let t = take_upto(text, n);
    if last_newline(t) >= 0 {
        assert(t[last_newline(t)] == text[last_newline(t)]);
    }
}

fn cursor_up_target(chars: &Vec<char>, cursor: usize) -> (r: usize)
    ensures
        r == cursor_above(chars@, cursor),
        r <= cursor,
{
    let b = line_start(chars, cursor);
    if b == 0 {
        cursor
    } else {
        let prev_start = line_start(chars, b - 1);
        let prev_len = b - 1 - prev_start;
        let col = cursor - b;
        prev_start + if col < prev_len { col } else { prev_len }
    }
}

fn cursor_down_target(chars: &Vec<char>, cursor: usize) -> (r: usize)
    ensures
        r == cursor_below(chars@, cursor),
        cursor <= chars@.len() ==> r <= chars@.len(),
{
    let q = find_newline(chars, cursor);
    proof {
        lemma_next_newline_bounds(chars@, cursor as int);
    }
    if cursor > chars.len() || q >= chars.len() {
        cursor
    } else {
        let next_start = q + 1;
        let next_end = find_newline(chars, next_start);
        proof {
            lemma_next_newline_bounds(chars@, next_start as int);
        }
        let next_len = next_end - next_start;
        let b = line_start(chars, cursor);
        let col = cursor - b;
        next_start + if col < next_len { col } else { next_len }
    }
}

/// An editor that does not have the focus ignores every key and never submits.
pub proof fn law_unfocused_ignores_keys(m: InputModel, k: KeyInput)
    requires
        !m.focused,
    ensures
        key_step(m, k) == (m, false),
{
}

/// A key submits the input exactly when it is Enter on a focused single-line editor.
pub proof fn law_submit_only_on_enter(m: InputModel, k: KeyInput)
    ensures
        key_step(m, k).1 <==> (m.focused && !m.multiline && k.code == KeyCode::Enter),
{
}

/// Typing a character and then pressing Backspace gives back the text and the
/// cursor position that were there before, when nothing was selected.
pub proof fn law_type_then_backspace_restores(m: InputModel, c: char, k1: KeyInput, k2: KeyInput)
    requires
        m.focused,
        !selecting(m),
        m.cursor <= m.text.len(),
        m.text.len() < usize::MAX,
        k1.code == KeyCode::Char(c),
        k2.code == KeyCode::Backspace,
    ensures
        key_step(key_step(m, k1).0, k2).0.text == m.text,
        key_step(key_step(m, k1).0, k2).0.cursor == m.cursor,
{
    let n = m.cursor as int;
    let m1 = typed(m, c);
    assert(key_step(m, k1).0 == m1);
    assert(m1.text =~= m.text.take(n) + seq![c] + skip_from(m.text, n));
    assert(m1.cursor == m.cursor + 1);
    assert(m1.anchor == m.anchor);
    assert(take_upto(m1.text, n) =~= m.text.take(n));
    assert(skip_from(m1.text, n + 1) =~= skip_from(m.text, n));
    assert(m.text =~= m.text.take(n) + skip_from(m.text, n));
    let m2 = key_step(m1, k2).0;
    if selecting(m1) {
        assert(m1.anchor == Some(m.cursor));
        assert(m2 == without_selection(m1));
        assert(m2.text =~= take_upto(m1.text, n) + skip_from(m1.text, n + 1));
    } else {
        assert(m2.text =~= take_upto(m1.text, n) + skip_from(m1.text, n + 1));
    }
}

proof fn lemma_cursor_above_bounds(text: Seq<char>, cursor: usize)
    ensures
        0 <= cursor_above(text, cursor) <= cursor,
        cursor <= text.len() ==> cursor_above(text, cursor) <= text.len(),
{
    lemma_line_begin_bounds(text, cursor as int);
    let b = line_begin(text, cursor as int);
    if b > 0 {
        lemma_line_begin_bounds(text, b - 1);
    }
}

proof fn lemma_cursor_below_bounds(text: Seq<char>, cursor: usize)
    ensures
        cursor_below(text, cursor) >= 0,
        cursor <= text.len() ==> cursor_below(text, cursor) <= text.len(),
{
    lemma_next_newline_bounds(text, cursor as int);
    let q = next_newline(text, cursor as int);
    if cursor <= text.len() && q < text.len() {
        lemma_next_newline_bounds(text, q + 1);
        lemma_line_begin_bounds(text, cursor as int);
    }
}

/// Every key keeps the cursor within the text, when it was within the text before.
pub proof fn law_cursor_stays_within_text(m: InputModel, k: KeyInput)
    requires
        m.cursor <= m.text.len(),
        m.text.len() < usize::MAX,
        m.anchor matches Some(a) ==> a <= m.text.len(),
    ensures
        key_step(m, k).0.cursor <= key_step(m, k).0.text.len(),
{
    lemma_cursor_above_bounds(m.text, m.cursor);
    lemma_cursor_below_bounds(m.text, m.cursor);
    let d = without_selection(m);
    if selecting(m) {
        assert(d.cursor <= d.text.len());
    }
}

/// Left then Right (without shift) brings the cursor back when it was inside the text.
pub proof fn law_left_then_right_returns(m: InputModel, k1: KeyInput, k2: KeyInput)
    requires
        m.focused,
        0 < m.cursor <= m.text.len(),
        k1.code == KeyCode::Left,
        k2.code == KeyCode::Right,
    ensures
        key_step(key_step(m, k1).0, k2).0.cursor == m.cursor,
        key_step(key_step(m, k1).0, k2).0.text == m.text,
{
}

impl TextInput {
    /// A single-line editor holding `input`, cursor at the start, without focus.
    pub fn new(input: String) -> (r: TextInput)
        ensures
            r@ == (InputModel { text: input@, cursor: 0, focused: false, multiline: false, anchor: None }),
    {
        TextInput { input, cursor: 0, focused: false, multiline: false, selection_anchor: None }
    }

    /// A multi-line editor holding `input`, cursor at the start, without focus.
    pub fn new_multiline(input: String) -> (r: TextInput)
        ensures
            r@ == (InputModel { text: input@, cursor: 0, focused: false, multiline: true, anchor: None }),
    {
        TextInput { input, cursor: 0, focused: false, multiline: true, selection_anchor: None }
    }

    /// A copy of this editor.
    pub fn duplicate(&self) -> (r: TextInput)
        ensures
            r@ == self@,
    {
        TextInput {
            input: self.input.clone(),
            cursor: self.cursor,
            focused: self.focused,
            multiline: self.multiline,
            selection_anchor: self.selection_anchor,
        }
    }

    pub fn focus(&mut self)
        ensures
            final(self)@ == (InputModel { focused: true, ..old(self)@ }),
    {
        self.focused = true;
    }

    pub fn blur(&mut self)
        ensures
            final(self)@ == (InputModel { focused: false, ..old(self)@ }),
    {
        self.focused = false;
    }

    /// The text being edited.
    pub fn value(&self) -> (r: &str)
        ensures
            r@ == self.input@,
    {
        self.input.as_str()
    }

    /// Returns (start, end) of selection sorted, or None if no selection.
    pub fn selection_range(&self) -> (r: Option<(usize, usize)>)
        ensures
            r == selection_of(self.selection_anchor, self.cursor),
            r matches Some((s, e)) ==> s <= e,
    {
        match self.selection_anchor {
            Some(anchor) => if anchor <= self.cursor {
                Some((anchor, self.cursor))
            } else {
                Some((self.cursor, anchor))
            },
            None => None,
        }
    }

    pub fn has_selection(&self) -> (r: bool)
        ensures
            r == selecting(self@),
    {
        match self.selection_range() {
            Some((s, e)) => s != e,
            None => false,
        }
    }

    fn delete_selection(&mut self)
        ensures
            final(self)@ == without_selection(old(self)@),
    {
        match self.selection_range() {
            Some((start, end)) => {
                if start != end {
                    let chars = to_chars(self.input.as_str());
                    let rest = cut(&chars, start, end);
                    self.input = from_chars(&rest);
                    self.cursor = start;
                }
            },
            None => {},
        }
        self.selection_anchor = None;
    }

    fn type_char(&mut self, c: char)
        ensures
            final(self)@ == typed(old(self)@, c),
    {
        if self.has_selection() {
            self.delete_selection();
        }
        let chars = to_chars(self.input.as_str());
        let updated = insert_at(&chars, self.cursor, c);
        self.input = from_chars(&updated);
        self.cursor = self.cursor.saturating_add(1);
    }

    fn move_anchor(&mut self, shift: bool)
        ensures
            final(self)@ == (InputModel { anchor: anchor_after_move(old(self)@, shift), ..old(self)@ }),
    {
        if shift {
            if self.selection_anchor.is_none() {
                self.selection_anchor = Some(self.cursor);
            }
        } else {
            self.selection_anchor = None;
        }
    }

    /// Handle a key event. Returns true if Enter was pressed (submitted).
    pub fn handle_key_event(&mut self, key: KeyInput) -> (submitted: bool)
        requires
            key.code == KeyCode::Right ==> old(self).cursor < usize::MAX,
        ensures
            (final(self)@, submitted) == key_step(old(self)@, key),
    {
        if !self.focused {
            return false;
        }
        let shift = key.shift;
        match key.code {
            KeyCode::Char(c) => {
                self.type_char(c);
            },
            KeyCode::Backspace => {
                if self.has_selection() {
                    self.delete_selection();
                } else if self.cursor > 0 {
                    let chars = to_chars(self.input.as_str());
                    let rest = cut(&chars, self.cursor - 1, self.cursor);
                    self.input = from_chars(&rest);
                    self.cursor = self.cursor - 1;
                }
            },
            KeyCode::Delete => {
                if self.has_selection() {
                    self.delete_selection();
                } else {
                    let chars = to_chars(self.input.as_str());
                    if self.cursor < chars.len() {
                        let rest = cut(&chars, self.cursor, self.cursor + 1);
                        self.input = from_chars(&rest);
                    }
                }
            },
            KeyCode::Left => {
                self.move_anchor(shift);
                self.cursor = self.cursor.saturating_sub(1);
            },
            KeyCode::Right => {
                self.move_anchor(shift);
                let count = to_chars(self.input.as_str()).len();
                self.cursor = if self.cursor + 1 < count { self.cursor + 1 } else { count };
            },
            KeyCode::Up => {
                if self.multiline {
                    self.move_anchor(shift);
                    let chars = to_chars(self.input.as_str());
                    self.cursor = cursor_up_target(&chars, self.cursor);
                }
            },
            KeyCode::Down => {
                if self.multiline {
                    self.move_anchor(shift);
                    let chars = to_chars(self.input.as_str());
                    self.cursor = cursor_down_target(&chars, self.cursor);
                }
            },
            KeyCode::Enter => {
                if self.multiline {
                    self.type_char('\n');
                } else {
                    return true;
                }
            },
            _ => {},
        }
        false
    }

    /// The text as lines of runs, each run marked with whether it is selected.
    pub fn selection_runs(&self) -> (r: Vec<Vec<(String, bool)>>)
        ensures
            lines_view(r@) == layout(self.input@, selection_of(self.selection_anchor, self.cursor)),
    {
        let ghost sel = selection_of(self.selection_anchor, self.cursor);
        let range = self.selection_range();
        let chars = to_chars(self.input.as_str());
        let mut lines: Vec<Vec<(String, bool)>> = Vec::new();
        let mut spans: Vec<(String, bool)> = Vec::new();
        let mut buf: Vec<char> = Vec::new();
        let mut in_sel = false;
        let mut i: usize = 0;
        proof {
            lemma_layout_len(chars@.take(0), sel);
        }
        while i < chars.len()
            invariant
                range == sel,
                i <= chars.len(),
                layout(chars@.take(i as int), sel).len() == lines@.len() + 1,
                lines_view(lines@) =~= layout(chars@.take(i as int), sel).drop_last(),
                line_view(spans@) + (if buf@.len() > 0 { seq![(buf@, in_sel)] } else { Seq::empty() })
                    =~= layout(chars@.take(i as int), sel).last(),
                buf@.len() == 0 ==> spans@.len() == 0,
            decreases chars.len() - i,
        {
            let ghost prev = layout(chars@.take(i as int), sel);
            let ch = chars[i];
            let now_sel = match range {
                Some((s, e)) => s != e && s <= i && i < e,
                None => false,
            };
            proof {
                assert(chars@.take(i + 1).drop_last() =~= chars@.take(i as int));
                assert(chars@.take(i + 1).last() == ch);
                assert(now_sel == in_selection(sel, i as int));
            }
            let ghost next = layout(chars@.take(i + 1), sel);
            proof {
                lemma_layout_len(chars@.take(i as int), sel);
            }
            if ch == '\n' {
                if buf.len() > 0 {
                    let text = from_chars(&buf);
                    proof {
                        lemma_line_view_push(spans@, (text, in_sel));
                    }
                    spans.push((text, in_sel));
                    buf = Vec::new();
                }
                assert(line_view(spans@) =~= prev.last());
                proof {
                    lemma_lines_view_push(lines@, spans);
                    assert(prev =~= prev.drop_last().push(prev.last()));
                    assert(next =~= prev.push(Seq::empty()));
                    assert(next.drop_last() =~= prev);
                }
                lines.push(spans);
                spans = Vec::new();
                in_sel = now_sel;
                proof {
                    assert(lines_view(lines@) =~= prev);
                    assert(line_view(spans@) =~= Seq::<(Seq<char>, bool)>::empty());
                }
            } else {
                proof {
                    assert(next =~= prev.update(prev.len() - 1, runs_push(prev.last(), ch, now_sel)));
                    assert(next.drop_last() =~= prev.drop_last());
                }
                if buf.len() > 0 && now_sel == in_sel {
                    let ghost old_buf = buf@;
                    buf.push(ch);
                    proof {
                        let pl = prev.last();
                        assert(pl =~= line_view(spans@) + seq![(old_buf, in_sel)]);
                        assert(pl.len() > 0);
                        assert(pl.last() == (old_buf, in_sel));
                        assert(pl.update(pl.len() - 1, (old_buf.push(ch), in_sel))
                            =~= line_view(spans@) + seq![(buf@, in_sel)]);
                        assert(runs_push(pl, ch, now_sel) =~= line_view(spans@) + seq![(buf@, in_sel)]);
                    }
                } else if buf.len() > 0 {
                    let text = from_chars(&buf);
                    proof {
                        lemma_line_view_push(spans@, (text, in_sel));
                    }
                    spans.push((text, in_sel));
                    buf = Vec::new();
                    in_sel = now_sel;
                    buf.push(ch);
                    proof {
                        let pl = prev.last();
                        assert(pl =~= line_view(spans@));
                        assert(runs_push(pl, ch, now_sel) =~= line_view(spans@) + seq![(buf@, in_sel)]);
                    }
                } else {
                    in_sel = now_sel;
                    buf.push(ch);
                    proof {
                        let pl = prev.last();
                        assert(pl =~= Seq::<(Seq<char>, bool)>::empty());
                        assert(line_view(spans@) =~= Seq::<(Seq<char>, bool)>::empty());
                        assert(buf@ =~= seq![ch]);
                        assert(runs_push(pl, ch, now_sel) =~= line_view(spans@) + seq![(buf@, in_sel)]);
                    }
                }
            }
            i = i + 1;
        }
        if buf.len() > 0 {
            let text = from_chars(&buf);
            proof {
                lemma_line_view_push(spans@, (text, in_sel));
            }
            spans.push((text, in_sel));
        }
        proof {
            assert(chars@.take(chars@.len() as int) =~= chars@);
            assert(line_view(spans@) =~= layout(chars@, sel).last());
            lemma_lines_view_push(lines@, spans);
            lemma_layout_len(chars@, sel);
            let l = layout(chars@, sel);
            assert(l =~= l.drop_last().push(l.last()));
        }
        lines.push(spans);
        proof {
            assert(lines_view(lines@) =~= layout(chars@, sel));
        }
        lines
    }

    /// Returns styled text with selection highlighted: the lines of runs, each
    /// run carrying `selection` when it is selected and `normal` otherwise.
    pub fn styled_text<S: Copy>(&self, normal: S, selection: S) -> (r: Vec<Vec<(String, S)>>)
        ensures
            r@.len() == layout(self.input@, selection_of(self.selection_anchor, self.cursor)).len(),
            forall|k: int| 0 <= k < r@.len() ==> {
                let l = #[trigger] layout(self.input@, selection_of(self.selection_anchor, self.cursor))[k];
                &&& r@[k]@.len() == l.len()
                &&& forall|j: int| 0 <= j < l.len() ==> {
                    &&& (#[trigger] r@[k]@[j]).0@ == l[j].0
                    &&& r@[k]@[j].1 == if l[j].1 { selection } else { normal }
                }
            },
    {
        let runs = self.selection_runs();
        let ghost lv = lines_view(runs@);
        let mut out: Vec<Vec<(String, S)>> = Vec::new();
        let mut k: usize = 0;
        while k < runs.len()
            invariant
                k <= runs@.len(),
                lv == lines_view(runs@),
                out@.len() == k,
                forall|a: int| 0 <= a < k ==> {
                    &&& (#[trigger] out@[a])@.len() == lv[a].len()
                    &&& forall|j: int| 0 <= j < lv[a].len() ==> {
                        &&& (#[trigger] out@[a]@[j]).0@ == lv[a][j].0
                        &&& out@[a]@[j].1 == if lv[a][j].1 { selection } else { normal }
                    }
                },
            decreases runs@.len() - k,
        {
            let line = &runs[k];
            let mut styled: Vec<(String, S)> = Vec::new();
            let mut j: usize = 0;
            while j < line.len()
                invariant
                    j <= line@.len(),
                    line == runs@[k as int],
                    lv[k as int] == line_view(line@),
                    styled@.len() == j,
                    forall|b: int| 0 <= b < j ==> {
                        &&& (#[trigger] styled@[b]).0@ == lv[k as int][b].0
                        &&& styled@[b].1 == if lv[k as int][b].1 { selection } else { normal }
                    },
                decreases line@.len() - j,
            {
                let text = line[j].0.clone();
                let style = if line[j].1 { selection } else { normal };
                styled.push((text, style));
                j = j + 1;
            }
            out.push(styled);
            k = k + 1;
        }
        out
    }

    /// The line the cursor is on, counted from 0.
    pub fn cursor_row(&self) -> (r: usize)
        ensures
            r == newlines(take_upto(self.input@, self.cursor as int)),
    {
        let chars = to_chars(self.input.as_str());
        count_newlines(&chars, self.cursor)
    }

    /// The cursor's distance from the start of its line.
    pub fn cursor_col(&self) -> (r: usize)
        ensures
            r == column(self.input@, self.cursor),
    {
        let chars = to_chars(self.input.as_str());
        let b = line_start(&chars, self.cursor);
        self.cursor - b
    }
}

/// Delete with a non-empty selection removes exactly the selected characters:
/// what stood before the selection, then what stood after it. The cursor goes
/// to where the selection began and the anchor is dropped, just as Backspace
/// does with the same selection.
pub proof fn law_delete_removes_selection(m: InputModel, a: usize, k: KeyInput, kb: KeyInput)
    requires
        m.focused,
        m.anchor == Some(a),
        a != m.cursor,
        a <= m.text.len(),
        m.cursor <= m.text.len(),
        k.code == KeyCode::Delete,
        kb.code == KeyCode::Backspace,
    ensures
        ({
            let s: int = if a < m.cursor { a as int } else { m.cursor as int };
            let e: int = if a < m.cursor { m.cursor as int } else { a as int };
            let r = key_step(m, k);
            &&& r.0.text == m.text.subrange(0, s) + m.text.subrange(e, m.text.len() as int)
            &&& r.0.text.len() == m.text.len() - (e - s)
            &&& r.0.cursor == s
            &&& r.0.anchor is None
            &&& r.0.focused && r.0.multiline == m.multiline
            &&& !r.1
            &&& r == key_step(m, kb)
        }),
{
    let s: int = if a < m.cursor { a as int } else { m.cursor as int };
    let e: int = if a < m.cursor { m.cursor as int } else { a as int };
    assert(take_upto(m.text, s) =~= m.text.subrange(0, s));
    assert(skip_from(m.text, e) =~= m.text.subrange(e, m.text.len() as int));
}

/// Typing a character with nothing selected puts it at the cursor, between
/// what stood before and after the cursor, and moves the cursor past it.
/// With a selection, the character takes the selection's place.
pub proof fn law_typing_inserts_at_cursor(m: InputModel, c: char, k: KeyInput)
    requires
        m.focused,
        m.cursor <= m.text.len(),
        m.text.len() < usize::MAX,
        k.code == KeyCode::Char(c),
        m.anchor matches Some(a) ==> a <= m.text.len(),
    ensures
        ({
            let r = key_step(m, k);
            let n = m.text.len() as int;
            &&& !r.1
            &&& m.anchor is None ==> {
                &&& r.0.text == m.text.subrange(0, m.cursor as int) + seq![c] + m.text.subrange(m.cursor as int, n)
                &&& r.0.cursor == m.cursor + 1
                &&& r.0.anchor is None
            }
            &&& m.anchor matches Some(a) ==> (a != m.cursor ==> {
                let s: int = if a < m.cursor { a as int } else { m.cursor as int };
                let e: int = if a < m.cursor { m.cursor as int } else { a as int };
                &&& r.0.text == m.text.subrange(0, s) + seq![c] + m.text.subrange(e, n)
                &&& r.0.cursor == s + 1
                &&& r.0.anchor is None
            })
        }),
{
    let n = m.text.len() as int;
    assert(take_upto(m.text, m.cursor as int) =~= m.text.subrange(0, m.cursor as int));
    assert(skip_from(m.text, m.cursor as int) =~= m.text.subrange(m.cursor as int, n));
    if let Some(a) = m.anchor {
        if a != m.cursor {
            let s: int = if a < m.cursor { a as int } else { m.cursor as int };
            let e: int = if a < m.cursor { m.cursor as int } else { a as int };
            let t = take_upto(m.text, s) + skip_from(m.text, e);
            assert(take_upto(m.text, s) =~= m.text.subrange(0, s));
            assert(skip_from(m.text, e) =~= m.text.subrange(e, n));
            assert(take_upto(t, s) =~= m.text.subrange(0, s));
            assert(skip_from(t, s) =~= m.text.subrange(e, n));
        }
    }
}

/// With nothing selected, Backspace removes the character just before the
/// cursor and moves the cursor back over it; at the start it does nothing.
/// Delete removes the character just after the cursor and leaves the cursor
/// where it is; at the end it does nothing.
pub proof fn law_backspace_and_delete_remove_one_character(m: InputModel, k: KeyInput)
    requires
        m.focused,
        m.anchor is None,
        m.cursor <= m.text.len(),
        k.code == KeyCode::Backspace || k.code == KeyCode::Delete,
    ensures
        ({
            let r = key_step(m, k).0;
            let n = m.text.len() as int;
            let c = m.cursor as int;
            &&& !key_step(m, k).1
            &&& r.anchor is None
            &&& (k.code == KeyCode::Backspace && c > 0) ==> {
                &&& r.text == m.text.subrange(0, c - 1) + m.text.subrange(c, n)
                &&& r.cursor == c - 1
            }
            &&& (k.code == KeyCode::Delete && c < n) ==> {
                &&& r.text == m.text.subrange(0, c) + m.text.subrange(c + 1, n)
                &&& r.cursor == c
            }
            &&& ((k.code == KeyCode::Backspace && c == 0) || (k.code == KeyCode::Delete && c == n)) ==> r == m
        }),
{
    let n = m.text.len() as int;
    let c = m.cursor as int;
    if c > 0 {
        assert(take_upto(m.text, c - 1) =~= m.text.subrange(0, c - 1));
    }
    assert(take_upto(m.text, c) =~= m.text.subrange(0, c));
    assert(skip_from(m.text, c) =~= m.text.subrange(c, n));
    if c < n {
        assert(skip_from(m.text, c + 1) =~= m.text.subrange(c + 1, n));
    }
}

/// Moving the cursor sideways never changes the text. With shift held it
/// keeps the selection's other end, starting it at the old cursor when there
/// was none; without shift it drops the selection.
pub proof fn law_sideways_moves_select_with_shift(m: InputModel, k: KeyInput)
    requires
        m.focused,
        m.cursor <= m.text.len(),
        m.text.len() <= usize::MAX,
        k.code == KeyCode::Left || k.code == KeyCode::Right,
    ensures
        ({
            let r = key_step(m, k).0;
            &&& r.text == m.text
            &&& k.shift && m.anchor is None ==> r.anchor == Some(m.cursor)
            &&& k.shift && m.anchor is Some ==> r.anchor == m.anchor
            &&& !k.shift ==> r.anchor is None
            &&& k.code == KeyCode::Left ==> r.cursor == if m.cursor > 0 { m.cursor - 1 } else { 0 }
            &&& k.code == KeyCode::Right ==> r.cursor == if m.cursor < m.text.len() { m.cursor + 1 } else { m.text.len() as int }
        }),
{
}

/// The line holding position `n` starts at `b` when `b` follows a line break
/// (or is 0) and no line break stands between `b` and `n`.
pub proof fn lemma_line_begin_at(text: Seq<char>, n: int, b: int)
    requires
        0 <= b <= n <= text.len(),
        b > 0 ==> text[b - 1] == '\n',
        forall|j: int| b <= j < n ==> text[j] != '\n',
    ensures
        line_begin(text, n) == b,
{
    let t = take_upto(text, n);
    assert(t.len() == n);
    lemma_last_newline_bounds(t);
    let l = last_newline(t);
    if b > 0 {
        assert(t[b - 1] == text[b - 1]);
    }
    if l >= b {
        assert(t[l] == text[l]);
    }
}

/// The first line break at or after `i` is at `q` when `q` holds one (or is
/// the end of the text) and none stands between `i` and `q`.
pub proof fn lemma_next_newline_at(text: Seq<char>, i: int, q: int)
    requires
        0 <= i <= q <= text.len(),
        q < text.len() ==> text[q] == '\n',
        forall|j: int| i <= j < q ==> text[j] != '\n',
    ensures
        next_newline(text, i) == q,
{
    lemma_next_newline_bounds(text, i);
}

/// Up in a multi-line editor moves the cursor to the line above, at the same
/// column, or at the end of that line when it is shorter; on the first line
/// the cursor stays. Here `b` is where the cursor's line starts and `p`
/// where the line above starts. The text is not changed.
pub proof fn law_up_moves_to_the_line_above(m: InputModel, k: KeyInput, b: int, p: int)
    requires
        m.focused,
        m.multiline,
        m.cursor <= m.text.len(),
        k.code == KeyCode::Up,
        0 <= b <= m.cursor,
        b > 0 ==> m.text[b - 1] == '\n',
        forall|j: int| b <= j < m.cursor ==> m.text[j] != '\n',
        b > 0 ==> 0 <= p < b,
        b > 0 && p > 0 ==> m.text[p - 1] == '\n',
        forall|j: int| p <= j < b - 1 ==> m.text[j] != '\n',
    ensures
        key_step(m, k).0.text == m.text,
        b == 0 ==> key_step(m, k).0.cursor == m.cursor,
        b > 0 ==> key_step(m, k).0.cursor == p + if m.cursor - b < b - 1 - p { m.cursor - b } else { b - 1 - p },
{
    lemma_line_begin_at(m.text, m.cursor as int, b);
    if b > 0 {
        lemma_line_begin_at(m.text, b - 1, p);
    }
}

/// Down in a multi-line editor moves the cursor to the line below, at the
/// same column, or at the end of that line when it is shorter; on the last
/// line the cursor stays. Here `b` is where the cursor's line starts, `q`
/// where it ends (its line break, or the end of the text) and `e` where the
/// line below ends. The text is not changed.
pub proof fn law_down_moves_to_the_line_below(m: InputModel, k: KeyInput, b: int, q: int, e: int)
    requires
        m.focused,
        m.multiline,
        m.cursor <= m.text.len(),
        m.text.len() <= usize::MAX,
        k.code == KeyCode::Down,
        0 <= b <= m.cursor,
        b > 0 ==> m.text[b - 1] == '\n',
        forall|j: int| b <= j < m.cursor ==> m.text[j] != '\n',
        m.cursor <= q <= m.text.len(),
        q < m.text.len() ==> m.text[q] == '\n',
        forall|j: int| m.cursor <= j < q ==> m.text[j] != '\n',
        q < m.text.len() ==> q + 1 <= e <= m.text.len(),
        e < m.text.len() ==> m.text[e] == '\n',
        forall|j: int| q + 1 <= j < e ==> m.text[j] != '\n',
    ensures
        key_step(m, k).0.text == m.text,
        q == m.text.len() ==> key_step(m, k).0.cursor == m.cursor,
        q < m.text.len() ==> key_step(m, k).0.cursor
            == q + 1 + if m.cursor - b < e - (q + 1) { m.cursor - b } else { e - (q + 1) },
{
    lemma_line_begin_at(m.text, m.cursor as int, b);
    lemma_next_newline_at(m.text, m.cursor as int, q);
    if q < m.text.len() {
        lemma_next_newline_at(m.text, q + 1, e);
    }
}

/// Enter in a multi-line editor breaks the line: it does what typing a line
/// break does, and never submits.
pub proof fn law_enter_breaks_the_line_when_multiline(m: InputModel, k: KeyInput, kc: KeyInput)
    requires
        m.focused,
        m.multiline,
        k.code == KeyCode::Enter,
        kc.code == KeyCode::Char('\n'),
    ensures
        key_step(m, k) == key_step(m, kc),
        !key_step(m, k).1,
{
}

} // verus!
