//! The response pane's text with its cursor and selection marked, line by line.
use vstd::prelude::*;
use crate::chars::{to_chars, from_chars};
use crate::text_input::{in_selection, selection_of};

verus! {

/// How a character of the response pane is shown.
#[derive(Clone, Copy, Debug, PartialEq, Eq, Structural)]
pub enum HighlightKind {
    Normal,
    Selected,
    Cursor,
}

/// The cursor's character stands out first, then the selection.
pub open spec fn kind_at(cursor: usize, sel: Option<(usize, usize)>, i: int) -> HighlightKind {
    if i == cursor {
        HighlightKind::Cursor
    } else if in_selection(sel, i) {
        HighlightKind::Selected
    } else {
        HighlightKind::Normal
    }
}

/// A line of runs after one more character of kind `k`.
pub open spec fn kind_runs_push(line: Seq<(Seq<char>, HighlightKind)>, c: char, k: HighlightKind) -> Seq<(Seq<char>, HighlightKind)> {
    if line.len() > 0 && line.last().1 == k {
        line.update(line.len() - 1, (line.last().0.push(c), k))
    } else {
        line.push((seq![c], k))
    }
}

/// The text split into lines at its line breaks, each line split into maximal
/// runs of characters of one kind.
pub open spec fn kind_layout(s: Seq<char>, cursor: usize, sel: Option<(usize, usize)>) -> Seq<Seq<(Seq<char>, HighlightKind)>>
    decreases s.len(),
{
    if s.len() == 0 {
        seq![Seq::empty()]
    } else {
        let prev = kind_layout(s.drop_last(), cursor, sel);
        if s.last() == '\n' {
            prev.push(Seq::empty())
        } else {
            prev.update(prev.len() - 1, kind_runs_push(prev.last(), s.last(), kind_at(cursor, sel, s.len() - 1)))
        }
    }
}

/// The lines shown: a cursor past the end shows as a highlighted space at the
/// end, and an empty last line is left out.
pub open spec fn highlighted_lines(s: Seq<char>, cursor: usize, anchor: Option<usize>) -> Seq<Seq<(Seq<char>, HighlightKind)>> {
    let l = kind_layout(s, cursor, selection_of(anchor, cursor));
    let l2 = if cursor == s.len() {
        l.update(l.len() - 1, l.last().push((seq![' '], HighlightKind::Cursor)))
    } else {
        l
    };
    if l2.last().len() == 0 { l2.drop_last() } else { l2 }
}

pub open spec fn kind_line_view(line: Seq<(String, HighlightKind)>) -> Seq<(Seq<char>, HighlightKind)> {
    line.map_values(|p: (String, HighlightKind)| (p.0@, p.1))
}

pub open spec fn kind_lines_view(lines: Seq<Vec<(String, HighlightKind)>>) -> Seq<Seq<(Seq<char>, HighlightKind)>> {
    lines.map_values(|l: Vec<(String, HighlightKind)>| kind_line_view(l@))
}

proof fn lemma_kind_layout_len(s: Seq<char>, cursor: usize, sel: Option<(usize, usize)>)
    ensures
        kind_layout(s, cursor, sel).len() >= 1,
    decreases s.len(),
{
    if s.len() > 0 {
        lemma_kind_layout_len(s.drop_last(), cursor, sel);
    }
}

proof fn lemma_kind_line_view_push(line: Seq<(String, HighlightKind)>, p: (String, HighlightKind))
    ensures
        kind_line_view(line.push(p)) =~= kind_line_view(line).push((p.0@, p.1)),
{
    assert forall|j: int| 0 <= j < line.len() + 1 implies kind_line_view(line.push(p))[j] == kind_line_view(line).push((p.0@, p.1))[j] by {
        if j < line.len() {
            assert(line.push(p)[j] == line[j]);
        }
    }
}

proof fn lemma_kind_lines_view_push(lines: Seq<Vec<(String, HighlightKind)>>, x: Vec<(String, HighlightKind)>)
    ensures
        kind_lines_view(lines.push(x)) =~= kind_lines_view(lines).push(kind_line_view(x@)),
{
    assert forall|j: int| 0 <= j < lines.len() + 1 implies kind_lines_view(lines.push(x))[j] == kind_lines_view(lines).push(kind_line_view(x@))[j] by {
        if j < lines.len() {
            assert(lines.push(x)[j] == lines[j]);
        }
    }
}

/// The response pane's text, line by line, in runs marked with how they are
/// shown: the character under the cursor, the selected ones, the others.
pub fn response_highlight(text: &str, cursor: usize, anchor: Option<usize>) -> (r: Vec<Vec<(String, HighlightKind)>>)
    ensures
        kind_lines_view(r@) == highlighted_lines(text@, cursor, anchor),
{
    let ghost sel = selection_of(anchor, cursor);
    let range: Option<(usize, usize)> = match anchor {
        Some(a) => if a <= cursor { Some((a, cursor)) } else { Some((cursor, a)) },
        None => None,
    };
    let chars = to_chars(text);
    let mut lines: Vec<Vec<(String, HighlightKind)>> = Vec::new();
    let mut spans: Vec<(String, HighlightKind)> = Vec::new();
    let mut buf: Vec<char> = Vec::new();
    let mut current = HighlightKind::Normal;
    let mut i: usize = 0;
    proof {
        lemma_kind_layout_len(chars@.take(0), cursor, sel);
    }
    while i < chars.len()
        invariant
            range == sel,
            i <= chars.len(),
            kind_layout(chars@.take(i as int), cursor, sel).len() == lines@.len() + 1,
            kind_lines_view(lines@) =~= kind_layout(chars@.take(i as int), cursor, sel).drop_last(),
            kind_line_view(spans@) + (if buf@.len() > 0 { seq![(buf@, current)] } else { Seq::empty() })
                =~= kind_layout(chars@.take(i as int), cursor, sel).last(),
            buf@.len() == 0 ==> spans@.len() == 0,
        decreases chars.len() - i,
    {
        let ghost prev = kind_layout(chars@.take(i as int), cursor, sel);
        let ch = chars[i];
        let in_sel = match range {
            Some((s, e)) => s != e && s <= i && i < e,
            None => false,
        };
        let kind = if i == cursor {
            HighlightKind::Cursor
        } else if in_sel {
            HighlightKind::Selected
        } else {
            HighlightKind::Normal
        };
        proof {
            assert(chars@.take(i + 1).drop_last() =~= chars@.take(i as int));
            assert(chars@.take(i + 1).last() == ch);
            assert(kind == kind_at(cursor, sel, i as int));
            lemma_kind_layout_len(chars@.take(i as int), cursor, sel);
        }
        let ghost next = kind_layout(chars@.take(i + 1), cursor, sel);
        let ghost spans0 = spans@;
        let ghost buf0 = buf@;
        let ghost cur0 = current;
        if kind != current {
            if buf.len() > 0 {
                let t = from_chars(&buf);
                proof {
                    lemma_kind_line_view_push(spans@, (t, current));
                }
                spans.push((t, current));
                buf = Vec::new();
            }
            current = kind;
        }
        if ch == '\n' {
            if buf.len() > 0 {
                let t = from_chars(&buf);
                proof {
                    lemma_kind_line_view_push(spans@, (t, current));
                }
                spans.push((t, current));
                buf = Vec::new();
            }
            assert(kind_line_view(spans@) =~= prev.last());
            proof {
                lemma_kind_lines_view_push(lines@, spans);
                assert(prev =~= prev.drop_last().push(prev.last()));
                assert(next =~= prev.push(Seq::empty()));
                assert(next.drop_last() =~= prev);
            }
            lines.push(spans);
            spans = Vec::new();
            current = HighlightKind::Normal;
            proof {
                assert(kind_lines_view(lines@) =~= prev);
                assert(kind_line_view(spans@) =~= Seq::<(Seq<char>, HighlightKind)>::empty());
            }
        } else {
            let ghost before_buf = buf@;
            buf.push(ch);
            proof {
                assert(next =~= prev.update(prev.len() - 1, kind_runs_push(prev.last(), ch, kind)));
                assert(next.drop_last() =~= prev.drop_last());
                let pl = prev.last();
                if before_buf.len() > 0 {
                    assert(pl =~= kind_line_view(spans@) + seq![(before_buf, kind)]);
                    assert(pl.last() == (before_buf, kind));
                    assert(pl.update(pl.len() - 1, (before_buf.push(ch), kind))
                        =~= kind_line_view(spans@) + seq![(buf@, kind)]);
                } else {
                    assert(buf@ =~= seq![ch]);
                    if buf0.len() > 0 {
                        assert(cur0 != kind);
                        assert(spans@.last().1 == cur0);
                        assert(pl =~= kind_line_view(spans@));
                        assert(pl.last().1 == cur0);
                    } else {
                        assert(spans@.len() == 0);
                        assert(pl =~= kind_line_view(spans@));
                    }
                    assert(kind_runs_push(pl, ch, kind) =~= kind_line_view(spans@) + seq![(buf@, kind)]);
                }
            }
        }
        i = i + 1;
    }
    proof {
        assert(chars@.take(chars@.len() as int) =~= chars@);
        lemma_kind_layout_len(chars@, cursor, sel);
    }
    let ghost l = kind_layout(chars@, cursor, sel);
    if cursor == chars.len() {
        if buf.len() > 0 {
            let t = from_chars(&buf);
            proof {
                lemma_kind_line_view_push(spans@, (t, current));
            }
            spans.push((t, current));
            buf = Vec::new();
        }
        let space = from_chars(&vec![' ']);
        proof {
            lemma_kind_line_view_push(spans@, (space, HighlightKind::Cursor));
            assert(space@ =~= seq![' ']);
        }
        spans.push((space, HighlightKind::Cursor));
    }
    if buf.len() > 0 {
        let t = from_chars(&buf);
        proof {
            lemma_kind_line_view_push(spans@, (t, current));
        }
        spans.push((t, current));
    }
    let ghost l2 = if cursor == chars@.len() {
        l.update(l.len() - 1, l.last().push((seq![' '], HighlightKind::Cursor)))
    } else {
        l
    };
    proof {
        assert(kind_line_view(spans@) =~= l2.last());
        assert(l2.drop_last() =~= l.drop_last());
        assert(l2 =~= l2.drop_last().push(l2.last()));
    }
    if spans.len() > 0 {
        proof {
            lemma_kind_lines_view_push(lines@, spans);
        }
        lines.push(spans);
        proof {
            assert(kind_lines_view(lines@) =~= l2);
        }
    } else {
        proof {
            assert(l2.last().len() == 0);
            assert(kind_lines_view(lines@) =~= l2.drop_last());
        }
    }
    lines
}

} // verus!
