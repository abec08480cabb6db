//! Key handling: each key press, by which part of the client has the focus.
use vstd::prelude::*;
use crate::chars::{
    to_chars,
    count_newlines,
    line_start,
    find_newline,
    push_char,
    take_upto,
    skip_from,
};
use crate::keys::{KeyCode, KeyInput};
use crate::text_input::TextInput;
use crate::app::{
    AppState,
    Effect,
    editors_view,
    history_view,
    saved_view,
};
use crate::app_model::{
    AppModel,
    EffectView,
    app_step,
    step_allowed,
    response_key,
    response_move,
    response_text_of,
    url_key,
    body_key,
    headers_key,
    sidebar_key,
    normal_key,
    back_run,
    forward_run,
    moved_anchor,
    response_cursor_above,
    response_cursor_below,
    blurred,
    focused,
    selected_blurred,
    header_editing,
    header_field_switched,
    header_added,
    header_deleted,
    header_entered,
    header_typed,
};

verus! {

proof fn lemma_editors_update(hs: Seq<(TextInput, TextInput)>, i: int, x: (TextInput, TextInput))
    requires
        0 <= i < hs.len(),
    ensures
        editors_view(hs.remove(i).insert(i, x)) =~= editors_view(hs).update(i, (x.0@, x.1@)),
{
    assert(hs.remove(i).insert(i, x) =~= hs.update(i, x));
}

proof fn lemma_editors_remove(hs: Seq<(TextInput, TextInput)>, i: int)
    requires
        0 <= i < hs.len(),
    ensures
        editors_view(hs.remove(i)) =~= editors_view(hs).remove(i),
{
}

proof fn lemma_editors_push(hs: Seq<(TextInput, TextInput)>, x: (TextInput, TextInput))
    ensures
        editors_view(hs.push(x)) =~= editors_view(hs).push((x.0@, x.1@)),
{
}

proof fn lemma_history_remove(hs: Seq<crate::app::HistoryEntry>, i: int)
    requires
        0 <= i < hs.len(),
    ensures
        history_view(hs.remove(i)) =~= history_view(hs).remove(i),
{
}

proof fn lemma_saved_remove(hs: Seq<crate::request::SavedRequest>, i: int)
    requires
        0 <= i < hs.len(),
    ensures
        saved_view(hs.remove(i)) =~= saved_view(hs).remove(i),
{
}

/// A move in the response pane leaves the response text as it was.
proof fn lemma_response_move_keeps_text(m: AppModel, k: KeyInput)
    ensures
        response_text_of(response_move(m, k).0) == response_text_of(m),
{
}

/// The characters before position `n` on its line (counting at most the whole text).
fn back_run_of(v: &Vec<char>, n: usize) -> (r: usize)
    ensures
        r == back_run(v@, n as int),
        r <= n,
{
    let end = if n < v.len() { n } else { v.len() };
    let b = line_start(v, n);
    end - b
}

/// The characters from position `n` to the end of its line.
fn forward_run_of(v: &Vec<char>, n: usize) -> (r: usize)
    ensures
        r == forward_run(v@, n as int),
        n < v@.len() ==> n + r <= v@.len(),
{
    if n < v.len() {
        let q = find_newline(v, n);
        proof {
            crate::chars::lemma_next_newline_bounds(v@, n as int);
        }
        q - n
    } else {
        0
    }
}

fn response_up(v: &Vec<char>, cursor: usize) -> (r: usize)
    ensures
        r == response_cursor_above(v@, cursor),
{
    let col = back_run_of(v, cursor);
    let line_start = cursor - col;
    if line_start > 0 {
        let prev_end = line_start - 1;
        let prev_col = back_run_of(v, prev_end);
        prev_end - prev_col + if col < prev_col { col } else { prev_col }
    } else {
        cursor
    }
}

fn response_down(v: &Vec<char>, cursor: usize) -> (r: usize)
    ensures
        r == response_cursor_below(v@, cursor),
{
    let col = back_run_of(v, cursor);
    let fr = forward_run_of(v, cursor);
    if cursor >= v.len() {
        return cursor;
    }
    let line_end = cursor + fr;
    if line_end < v.len() {
        let next_start = line_end + 1;
        let next_len = forward_run_of(v, next_start);
        next_start + if col < next_len { col } else { next_len }
    } else {
        cursor
    }
}

/// The characters from `start` up to `end` as a string (clamped to the text).
fn chars_between(v: &Vec<char>, start: usize, end: usize) -> (s: String)
    requires
        start <= end,
    ensures
        s@ == take_upto(skip_from(v@, start as int), end - start),
{
    let mut s = String::new();
    if start >= v.len() {
        return s;
    }
    let stop = if end < v.len() { end } else { v.len() };
    let mut j: usize = start;
    while j < stop
        invariant
            start <= j <= stop,
            stop <= v@.len(),
            start < v@.len(),
            s@ == v@.subrange(start as int, j as int),
        decreases stop - j,
    {
        push_char(&mut s, v[j]);
        proof {
            assert(v@.subrange(start as int, j + 1) =~= v@.subrange(start as int, j as int).push(v@[j as int]));
        }
        j = j + 1;
    }
    proof {
        assert(v@.subrange(start as int, stop as int) =~= take_upto(skip_from(v@, start as int), end - start));
    }
    s
}

impl AppState {
    fn move_response_anchor(&mut self, shift: bool)
        ensures
            final(self)@ == (AppModel {
                response_selection_anchor: moved_anchor(old(self).response_selection_anchor, old(self).response_cursor, shift),
                ..old(self)@
            }),
    {
        if shift && self.response_selection_anchor.is_none() {
            self.response_selection_anchor = Some(self.response_cursor);
        } else if !shift {
            self.response_selection_anchor = None;
        }
    }

    /// Where the response cursor and scroll stand after a key, before the
    /// scroll follows the cursor.
    fn response_moved(&self, chars: &Vec<char>, key: KeyInput) -> (r: (usize, u16))
        requires
            chars@ == response_text_of(self@),
            key.code == KeyCode::Right ==> self.response_cursor < usize::MAX,
        ensures
            r.0 == response_move(self@, key).0.response_cursor,
            r.1 == response_move(self@, key).0.response_scroll,
    {
        let n = chars.len();
        let c = self.response_cursor;
        let s = self.response_scroll;
        match key.code {
            KeyCode::Left => (c.saturating_sub(1), s),
            KeyCode::Right => (if c + 1 < n { c + 1 } else { n }, s),
            KeyCode::Up => (response_up(chars, c), s),
            KeyCode::Down => (response_down(chars, c), s),
            KeyCode::PageDown => (c, s.saturating_add(2)),
            KeyCode::PageUp => (c, s.saturating_sub(2)),
            KeyCode::Home => (0, s),
            KeyCode::End => (n, s),
            KeyCode::Char(ch) => if ch == 'a' && key.ctrl { (n, s) } else { (c, s) },
            _ => (c, s),
        }
    }

    #[verifier::rlimit(60)]
    fn response_move_key(&mut self, key: KeyInput) -> (e: Effect)
        requires
            key.code == KeyCode::Right ==> old(self).response_cursor < usize::MAX,
        ensures
            (final(self)@, e@) == response_move(old(self)@, key),
    {
        let text = self.response_text();
        let chars = to_chars(text.as_str());
        let (cursor, scroll) = self.response_moved(&chars, key);
        let mut e = Effect::Nothing;
        match key.code {
            KeyCode::Esc => {
                self.response_focused = false;
                self.response_selection_anchor = None;
            },
            KeyCode::Left | KeyCode::Right | KeyCode::Up | KeyCode::Down | KeyCode::Home | KeyCode::End => {
                self.move_response_anchor(key.shift);
            },
            KeyCode::Char(c) => {
                if c == 'c' && key.ctrl {
                    if let Some(anchor) = self.response_selection_anchor {
                        let start = if anchor <= self.response_cursor { anchor } else { self.response_cursor };
                        let end = if anchor <= self.response_cursor { self.response_cursor } else { anchor };
                        if start != end {
                            e = Effect::CopyText(chars_between(&chars, start, end));
                        }
                    }
                } else if c == 'a' && key.ctrl {
                    self.response_selection_anchor = Some(0);
                }
            },
            _ => {},
        }
        self.response_cursor = cursor;
        self.response_scroll = scroll;
        e
    }

    fn handle_response_key(&mut self, key: KeyInput) -> (e: Effect)
        requires
            old(self).response_focused,
            step_allowed(old(self)@, key),
        ensures
            (final(self)@, e@) == response_key(old(self)@, key),
    {
        let e = self.response_move_key(key);
        let text = self.response_text();
        let chars = to_chars(text.as_str());
        let row = count_newlines(&chars, self.response_cursor) as u16;
        if row < self.response_scroll {
            self.response_scroll = row;
        }
        if row >= self.response_scroll + 20 {
            self.response_scroll = row.saturating_sub(19);
        }
        e
    }

    fn handle_url_key(&mut self, key: KeyInput) -> (e: Effect)
        requires
            !old(self).response_focused,
            old(self).url_input.focused,
            step_allowed(old(self)@, key),
        ensures
            (final(self)@, e@) == url_key(old(self)@, key),
    {
        match key.code {
            KeyCode::Esc => {
                if self.show_suggestions {
                    self.show_suggestions = false;
                } else {
                    self.url_input.blur();
                }
                Effect::Nothing
            },
            KeyCode::Tab if self.show_suggestions => {
                self.accept_suggestion();
                Effect::Nothing
            },
            KeyCode::Down if self.show_suggestions && self.url_suggestions.len() > 0 => {
                let next = self.url_suggestion_selected + 1;
                let last = self.url_suggestions.len() - 1;
                self.url_suggestion_selected = if next < last { next } else { last };
                Effect::Nothing
            },
            KeyCode::Up if self.show_suggestions => {
                self.url_suggestion_selected = self.url_suggestion_selected.saturating_sub(1);
                Effect::Nothing
            },
            _ => {
                if self.url_input.handle_key_event(key) {
                    self.show_suggestions = false;
                    let url = self.url_input.value().to_owned();
                    if !url.as_str().is_empty() {
                        let plan = self.send_request(url);
                        return Effect::Send(plan);
                    }
                    Effect::Nothing
                } else {
                    self.update_suggestions();
                    Effect::Nothing
                }
            },
        }
    }

    fn handle_body_key(&mut self, key: KeyInput) -> (e: Effect)
        requires
            !old(self).response_focused,
            !old(self).url_input.focused,
            old(self).request_body_input.focused,
            step_allowed(old(self)@, key),
        ensures
            (final(self)@, e@) == body_key(old(self)@, key),
    {
        match key.code {
            KeyCode::Esc => {
                self.request_body_input.blur();
            },
            KeyCode::PageDown => {
                self.body_scroll = self.body_scroll.saturating_add(2);
            },
            KeyCode::PageUp => {
                self.body_scroll = self.body_scroll.saturating_sub(2);
            },
            _ => {
                self.request_body_input.handle_key_event(key);
                let row = self.request_body_input.cursor_row() as u16;
                if row < self.body_scroll {
                    self.body_scroll = row;
                } else if row >= self.body_scroll + 10 {
                    self.body_scroll = row.saturating_sub(9);
                }
            },
        }
        Effect::Nothing
    }

    fn blur_selected_header(&mut self)
        ensures
            final(self)@ == (AppModel { request_headers: selected_blurred(old(self)@), ..old(self)@ }),
    {
        let i = self.headers_selected;
        if i < self.request_headers.len() {
            let ghost before = self.request_headers@;
            let (mut k, mut v) = self.request_headers.remove(i);
            k.blur();
            v.blur();
            self.request_headers.insert(i, (k, v));
            proof {
                lemma_editors_update(before, i as int, (k, v));
            }
        }
    }

    fn blur_all_headers(&mut self)
        ensures
            final(self)@ == (AppModel {
                request_headers: old(self)@.request_headers.map_values(|p: (crate::text_input::InputModel, crate::text_input::InputModel)| (blurred(p.0), blurred(p.1))),
                ..old(self)@
            }),
    {
        let ghost old_view = editors_view(self.request_headers@);
        let n = self.request_headers.len();
        let mut i: usize = 0;
        while i < n
            invariant
                n == self.request_headers@.len(),
                old_view.len() == n,
                i <= n,
                forall|j: int| 0 <= j < n ==> #[trigger] editors_view(self.request_headers@)[j]
                    == if j < i { (blurred(old_view[j].0), blurred(old_view[j].1)) } else { old_view[j] },
                self@ == (AppModel { request_headers: editors_view(self.request_headers@), ..old(self)@ }),
            decreases n - i,
        {
            let ghost before = self.request_headers@;
            let (mut k, mut v) = self.request_headers.remove(i);
            k.blur();
            v.blur();
            self.request_headers.insert(i, (k, v));
            proof {
                lemma_editors_update(before, i as int, (k, v));
                assert(editors_view(before)[i as int] == old_view[i as int]);
                assert(editors_view(before)[i as int] == (before[i as int].0@, before[i as int].1@));
                assert forall|j: int| 0 <= j < n implies #[trigger] editors_view(self.request_headers@)[j]
                    == if j < i + 1 { (blurred(old_view[j].0), blurred(old_view[j].1)) } else { old_view[j] } by {
                    if j != i {
                        assert(editors_view(self.request_headers@)[j] == editors_view(before)[j]);
                    } else {
                        assert(editors_view(self.request_headers@)[j] == (k@, v@));
                    }
                }
            }
            i = i + 1;
        }
        proof {
            assert(editors_view(self.request_headers@) =~= old_view.map_values(
                |p: (crate::text_input::InputModel, crate::text_input::InputModel)| (blurred(p.0), blurred(p.1))));
        }
    }

    fn headers_tab(&mut self, key: KeyInput)
        requires
            key.code == KeyCode::Tab,
        ensures
            final(self)@ == header_field_switched(old(self)@),
    {
        let i = self.headers_selected;
        let ghost before = self.request_headers@;
        if i < self.request_headers.len() {
            let (mut k, mut v) = self.request_headers.remove(i);
            if self.header_field == 0 {
                k.blur();
                v.focus();
                self.header_field = 1;
            } else {
                v.blur();
                k.focus();
                self.header_field = 0;
            }
            self.request_headers.insert(i, (k, v));
            proof {
                lemma_editors_update(before, i as int, (k, v));
                assert(editors_view(before)[i as int] == (before[i as int].0@, before[i as int].1@));
            }
        }
    }

    fn headers_enter(&mut self, key: KeyInput)
        requires
            key.code == KeyCode::Enter,
        ensures
            final(self)@ == header_entered(old(self)@),
    {
        let i = self.headers_selected;
        let ghost before = self.request_headers@;
        if i < self.request_headers.len() && !self.request_headers[i].0.focused && !self.request_headers[i].1.focused {
            let (mut k, mut v) = self.request_headers.remove(i);
            if self.header_field == 0 {
                k.focus();
            } else {
                v.focus();
            }
            self.request_headers.insert(i, (k, v));
            proof {
                lemma_editors_update(before, i as int, (k, v));
                assert(editors_view(before)[i as int] == (before[i as int].0@, before[i as int].1@));
            }
        }
    }

    fn headers_add(&mut self, key: KeyInput)
        requires
            key.code == KeyCode::Char('a'),
            !header_editing(old(self)@),
        ensures
            final(self)@ == header_added(old(self)@),
    {
        let ghost before = self.request_headers@;
        let mut k = TextInput::new(String::new());
        k.focus();
        let v = TextInput::new(String::new());
        self.request_headers.push((k, v));
        proof {
            lemma_editors_push(before, (k, v));
        }
        self.headers_selected = self.request_headers.len() - 1;
        self.header_field = 0;
    }

    fn headers_delete(&mut self, key: KeyInput)
        requires
            key.code == KeyCode::Char('d'),
            !header_editing(old(self)@),
            old(self).request_headers.len() > 0 ==> old(self).headers_selected < old(self).request_headers.len(),
        ensures
            final(self)@ == header_deleted(old(self)@),
    {
        let ghost before = self.request_headers@;
        let i = self.headers_selected;
        if self.request_headers.len() > 0 {
            self.request_headers.remove(i);
            proof {
                lemma_editors_remove(before, i as int);
            }
            if self.headers_selected > 0 && self.headers_selected >= self.request_headers.len() {
                self.headers_selected = self.headers_selected - 1;
            }
        }
    }

    fn headers_forward(&mut self, key: KeyInput)
        requires
            (key.code == KeyCode::Right && old(self).headers_selected < old(self).request_headers.len()) ==> {
                let p = old(self)@.request_headers[old(self).headers_selected as int];
                &&& p.0.focused ==> p.0.cursor < usize::MAX
                &&& (!p.0.focused && p.1.focused) ==> p.1.cursor < usize::MAX
            },
        ensures
            final(self)@ == header_typed(old(self)@, key),
    {
        let i = self.headers_selected;
        let ghost before = self.request_headers@;
        if i < self.request_headers.len() {
            let (mut k, mut v) = self.request_headers.remove(i);
            let ghost k0 = k@;
            let ghost v0 = v@;
            proof {
                assert(editors_view(before)[i as int] == (k@, v@));
            }
            if k.focused {
                k.handle_key_event(key);
                assert(k@ == crate::text_input::key_step(k0, key).0);
                assert(v@ == v0);
            } else if v.focused {
                v.handle_key_event(key);
                assert(v@ == crate::text_input::key_step(v0, key).0);
            }
            self.request_headers.insert(i, (k, v));
            proof {
                lemma_editors_update(before, i as int, (k, v));
                assert(self@.request_headers == header_typed(old(self)@, key).request_headers);
            }
        }
    }

    fn handle_headers_key(&mut self, key: KeyInput) -> (e: Effect)
        requires
            !old(self).response_focused,
            !old(self).url_input.focused,
            !old(self).request_body_input.focused,
            old(self).headers_focused,
            step_allowed(old(self)@, key),
        ensures
            (final(self)@, e@) == headers_key(old(self)@, key),
    {
        let i = self.headers_selected;
        let n = self.request_headers.len();
        let editing = i < n && (self.request_headers[i].0.focused || self.request_headers[i].1.focused);
        assert(editing == header_editing(self@));
        match key.code {
            KeyCode::Esc => {
                self.blur_all_headers();
                self.headers_focused = false;
            },
            KeyCode::Up => {
                self.blur_selected_header();
                self.headers_selected = self.headers_selected.saturating_sub(1);
            },
            KeyCode::Down => {
                self.blur_selected_header();
                if n > 0 {
                    let next = i + 1;
                    self.headers_selected = if next < n - 1 { next } else { n - 1 };
                }
            },
            KeyCode::Tab => {
                self.headers_tab(key);
            },
            KeyCode::Char(c) if c == 'a' && !editing => {
                self.headers_add(key);
            },
            KeyCode::Char(c) if c == 'd' && !editing => {
                self.headers_delete(key);
            },
            KeyCode::Enter => {
                self.headers_enter(key);
            },
            _ => {
                self.headers_forward(key);
            },
        }
        Effect::Nothing
    }

    fn sidebar_delete(&mut self, key: KeyInput) -> (e: Effect)
        requires
            key.code == KeyCode::Delete || key.code == KeyCode::Char('d'),
            (old(self).selected_tab == 0 && old(self).requests_history.len() > 0) ==> old(self).history_selected < old(self).requests_history.len(),
            (old(self).selected_tab == 1 && old(self).saved_requests.len() > 0) ==> old(self).saved_selected < old(self).saved_requests.len(),
        ensures
            (final(self)@, e@) == sidebar_key(old(self)@, key),
    {
        if self.selected_tab == 0 {
            if self.requests_history.len() > 0 {
                let ghost before = self.requests_history@;
                self.requests_history.remove(self.history_selected);
                proof {
                    lemma_history_remove(before, self.history_selected as int);
                }
                if self.history_selected > 0 && self.history_selected >= self.requests_history.len() {
                    self.history_selected = self.history_selected - 1;
                }
            }
            Effect::Nothing
        } else if self.selected_tab == 1 {
            if self.saved_requests.len() > 0 {
                let ghost before = self.saved_requests@;
                self.saved_requests.remove(self.saved_selected);
                proof {
                    lemma_saved_remove(before, self.saved_selected as int);
                }
                if self.saved_selected > 0 && self.saved_selected >= self.saved_requests.len() {
                    self.saved_selected = self.saved_selected - 1;
                }
                return Effect::PersistSaved;
            }
            Effect::Nothing
        } else {
            Effect::Nothing
        }
    }

    fn handle_sidebar_key(&mut self, key: KeyInput) -> (e: Effect)
        requires
            !old(self).response_focused,
            !old(self).url_input.focused,
            !old(self).request_body_input.focused,
            !old(self).headers_focused,
            old(self).sidebar_focused,
            step_allowed(old(self)@, key),
        ensures
            (final(self)@, e@) == sidebar_key(old(self)@, key),
    {
        match key.code {
            KeyCode::Esc => {
                self.sidebar_focused = false;
                Effect::Nothing
            },
            KeyCode::Tab => {
                self.selected_tab = (self.selected_tab + 1) % 3;
                Effect::Nothing
            },
            KeyCode::BackTab => {
                self.selected_tab = (self.selected_tab + 2) % 3;
                Effect::Nothing
            },
            KeyCode::Up => {
                if self.selected_tab == 0 {
                    self.history_selected = self.history_selected.saturating_sub(1);
                } else if self.selected_tab == 1 {
                    self.saved_selected = self.saved_selected.saturating_sub(1);
                }
                Effect::Nothing
            },
            KeyCode::Down => {
                if self.selected_tab == 0 {
                    let n = self.requests_history.len();
                    if n > 0 {
                        let next = self.history_selected + 1;
                        self.history_selected = if next < n - 1 { next } else { n - 1 };
                    }
                } else if self.selected_tab == 1 {
                    let n = self.saved_requests.len();
                    if n > 0 {
                        let next = self.saved_selected + 1;
                        self.saved_selected = if next < n - 1 { next } else { n - 1 };
                    }
                }
                Effect::Nothing
            },
            KeyCode::Enter => {
                if self.selected_tab == 0 {
                    self.load_from_history();
                    Effect::Nothing
                } else if self.selected_tab == 1 {
                    self.load_from_saved();
                    Effect::Nothing
                } else if self.selected_tab == 2 {
                    self.load_sample_requests()
                } else {
                    Effect::Nothing
                }
            },
            KeyCode::Delete => self.sidebar_delete(key),
            KeyCode::Char(c) => {
                if c == 'd' {
                    self.sidebar_delete(key)
                } else if c == 'r' {
                    self.save_response()
                } else if c == 'q' {
                    self.exit();
                    Effect::Nothing
                } else {
                    Effect::Nothing
                }
            },
            _ => Effect::Nothing,
        }
    }

    fn open_headers(&mut self)
        ensures
            (final(self)@, EffectView::Nothing) == normal_key(old(self)@, KeyInput { code: KeyCode::Char('e'), shift: false, ctrl: false }),
    {
        self.headers_focused = true;
        if self.request_headers.len() == 0 {
            let ghost before = self.request_headers@;
            let mut k = TextInput::new(String::new());
            k.focus();
            let v = TextInput::new(String::new());
            self.request_headers.push((k, v));
            proof {
                lemma_editors_push(before, (k, v));
                assert(editors_view(self.request_headers@) =~= seq![(k@, v@)]);
            }
            self.headers_selected = 0;
            self.header_field = 0;
        }
    }

    fn handle_letter_key(&mut self, key: KeyInput, c: char) -> (e: Effect)
        requires
            key.code == KeyCode::Char(c),
            c == 'n' ==> old(self).method_i <= 5,
        ensures
            (final(self)@, e@) == normal_key(old(self)@, key),
    {
        if c == 'q' {
            self.exit();
        } else if c == 'u' {
            self.request_body_input.blur();
            self.url_input.focus();
        } else if c == 'b' {
            self.url_input.blur();
            self.request_body_input.focus();
        } else if c == 'r' {
            return self.save_response();
        } else if c == 't' {
            self.show_response_headers = !self.show_response_headers;
            self.response_scroll = 0;
        } else if c == 'f' {
            if self.response.is_some() {
                self.response_focused = true;
                self.response_cursor = 0;
                self.response_selection_anchor = None;
            }
        } else if c == 'e' {
            self.open_headers();
        } else if c == 's' {
            self.sidebar_focused = true;
        } else if c == 'w' {
            return self.save_current_request();
        } else if c == 'm' {
            self.switch_method(true);
        } else if c == 'n' {
            self.switch_method(false);
        } else if c == 'h' {
            self.help_window = !self.help_window;
        } else if c == 'c' {
            if self.selected_tab == 0 {
                self.requests_history = Vec::new();
                self.history_selected = 0;
                proof {
                    assert(history_view(self.requests_history@) =~= Seq::<crate::app_model::HistoryView>::empty());
                }
            }
        }
        Effect::Nothing
    }

    fn handle_normal_key(&mut self, key: KeyInput) -> (e: Effect)
        requires
            !old(self).response_focused,
            !old(self).url_input.focused,
            !old(self).request_body_input.focused,
            !old(self).headers_focused,
            !old(self).sidebar_focused,
            step_allowed(old(self)@, key),
        ensures
            (final(self)@, e@) == normal_key(old(self)@, key),
    {
        match key.code {
            KeyCode::Char(c) => self.handle_letter_key(key, c),
            KeyCode::Tab => {
                self.selected_tab = (self.selected_tab + 1) % 3;
                Effect::Nothing
            },
            KeyCode::BackTab => {
                self.selected_tab = (self.selected_tab + 2) % 3;
                Effect::Nothing
            },
            KeyCode::Right => {
                if self.left_section_w < 100 {
                    self.left_section_w = self.left_section_w + 1;
                }
                Effect::Nothing
            },
            KeyCode::Left => {
                if self.left_section_w > 0 {
                    self.left_section_w = self.left_section_w - 1;
                }
                Effect::Nothing
            },
            KeyCode::Down => {
                if self.top_section_h < 100 {
                    self.top_section_h = self.top_section_h + 5;
                }
                Effect::Nothing
            },
            KeyCode::Up => {
                if self.top_section_h > 0 {
                    self.top_section_h = self.top_section_h - 5;
                }
                Effect::Nothing
            },
            KeyCode::PageDown => {
                self.response_scroll = self.response_scroll.saturating_add(2);
                Effect::Nothing
            },
            KeyCode::PageUp => {
                self.response_scroll = self.response_scroll.saturating_sub(2);
                Effect::Nothing
            },
            KeyCode::Enter => {
                let url = self.url_input.value().to_owned();
                if !url.as_str().is_empty() {
                    let plan = self.send_request(url);
                    Effect::Send(plan)
                } else {
                    Effect::Nothing
                }
            },
            _ => Effect::Nothing,
        }
    }

    /// Handles a key press: what it does to the client, and what the
    /// surrounding program is to do about it.
    pub fn handle_key(&mut self, key: KeyInput) -> (e: Effect)
        requires
            step_allowed(old(self)@, key),
        ensures
            (final(self)@, e@) == app_step(old(self)@, key),
    {
        if self.response_focused {
            self.handle_response_key(key)
        } else if self.url_input.focused {
            self.handle_url_key(key)
        } else if self.request_body_input.focused {
            self.handle_body_key(key)
        } else if self.headers_focused {
            self.handle_headers_key(key)
        } else if self.sidebar_focused {
            self.handle_sidebar_key(key)
        } else {
            self.handle_normal_key(key)
        }
    }

    /// Whether the client can handle `key` now: false exactly on the presses
    /// that would overflow a counter or remove an entry that is not there.
    pub fn key_allowed(&self, key: KeyInput) -> (r: bool)
        ensures
            r == step_allowed(self@, key),
    {
        let code = key.code;
        if self.response_focused {
            if code == KeyCode::Right && self.response_cursor == usize::MAX {
                return false;
            }
            let text = self.response_text();
            let chars = to_chars(text.as_str());
            let (cursor, scroll) = self.response_moved(&chars, key);
            proof {
                lemma_response_move_keeps_text(self@, key);
            }
            let row = count_newlines(&chars, cursor) as u16;
            let first = if row < scroll { row } else { scroll };
            first <= u16::MAX - 20
        } else if self.url_input.focused {
            let down_ok = !(code == KeyCode::Down && self.show_suggestions && self.url_suggestions.len() > 0)
                || self.url_suggestion_selected < usize::MAX;
            let right_ok = code != KeyCode::Right || self.url_input.cursor < usize::MAX;
            down_ok && right_ok
        } else if self.request_body_input.focused {
            if code == KeyCode::Right && self.request_body_input.cursor == usize::MAX {
                return false;
            }
            if code == KeyCode::Esc || code == KeyCode::PageDown || code == KeyCode::PageUp {
                return true;
            }
            let mut b = self.request_body_input.duplicate();
            b.handle_key_event(key);
            let row = b.cursor_row() as u16;
            row < self.body_scroll || self.body_scroll <= u16::MAX - 10
        } else if self.headers_focused {
            let n = self.request_headers.len();
            let i = self.headers_selected;
            let editing = i < n && (self.request_headers[i].0.focused || self.request_headers[i].1.focused);
            assert(editing == crate::app_model::header_editing(self@));
            let down_ok = !(code == KeyCode::Down && n > 0) || i < usize::MAX;
            let delete_ok = !(code == KeyCode::Char('d') && !editing && n > 0) || i < n;
            let right_ok = if code == KeyCode::Right && i < n {
                let k = &self.request_headers[i].0;
                let v = &self.request_headers[i].1;
                (!k.focused || k.cursor < usize::MAX) && (k.focused || !v.focused || v.cursor < usize::MAX)
            } else {
                true
            };
            down_ok && delete_ok && right_ok
        } else if self.sidebar_focused {
            let tab = self.selected_tab;
            let deleting = code == KeyCode::Delete || code == KeyCode::Char('d');
            (code != KeyCode::Tab || tab < usize::MAX)
                && (code != KeyCode::BackTab || tab < usize::MAX - 1)
                && (!(code == KeyCode::Down && tab == 0 && self.requests_history.len() > 0) || self.history_selected < usize::MAX)
                && (!(code == KeyCode::Down && tab == 1 && self.saved_requests.len() > 0) || self.saved_selected < usize::MAX)
                && (!(deleting && tab == 0 && self.requests_history.len() > 0) || self.history_selected < self.requests_history.len())
                && (!(deleting && tab == 1 && self.saved_requests.len() > 0) || self.saved_selected < self.saved_requests.len())
        } else {
            (code != KeyCode::Tab || self.selected_tab < usize::MAX)
                && (code != KeyCode::BackTab || self.selected_tab < usize::MAX - 1)
                && (!(code == KeyCode::Up && self.top_section_h > 0) || self.top_section_h >= 5)
                && (code != KeyCode::Char('n') || self.method_i <= 5)
        }
    }
}

} // verus!
