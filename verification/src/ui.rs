//! What the screen shows, as data: the rows of the command list and where a
//! command lands among them, word wrapping, line styles, scroll offsets, the
//! installed-crate list, the status bar and the detail panel.

use vstd::prelude::*;
use crate::app::{App, Cmd, CmdView, Focus, Tab, cmd_views};
use crate::crates_io::CrateDetail;
use crate::workspace::{concat_all, Dep, DepKind, section_name};
use crate::text::{chars_of, joined, push_char, push_chars, push_str, string_from_chars, string_of};

verus! {

broadcast use vstd::string::group_string_axioms;

// ── Command list rows ─────────────────────────────────────────

/// A row of a command list: a separator between sections, a section header, or
/// the command at a position of the command list.
#[derive(Debug, Clone)]
pub enum ListRow {
    Separator,
    Header(String),
    Command(usize),
}

/// A row as text.
pub enum RowView {
    Separator,
    Header(Seq<char>),
    Command(usize),
}

impl View for ListRow {
    type V = RowView;

    open spec fn view(&self) -> RowView {
        match self {
            ListRow::Separator => RowView::Separator,
            ListRow::Header(s) => RowView::Header(s@),
            ListRow::Command(i) => RowView::Command(*i),
        }
    }
}

/// The section of the command before position `i` (none before the first).
pub open spec fn prev_section(secs: Seq<Seq<char>>, i: int) -> Seq<char> {
    if i == 0 {
        Seq::empty()
    } else {
        secs[i - 1]
    }
}

/// The rows shown before command `i` when it starts a new section: a separator
/// (unless it is the first section) and the section's header.
pub open spec fn heading_rows(secs: Seq<Seq<char>>, i: int) -> Seq<RowView> {
    if secs[i] != prev_section(secs, i) {
        (if prev_section(secs, i).len() > 0 { seq![RowView::Separator] } else { Seq::empty() }) + seq![
            RowView::Header(secs[i]),
        ]
    } else {
        Seq::empty()
    }
}

/// The rows of the first `n` commands.
pub open spec fn rows_upto(secs: Seq<Seq<char>>, n: int) -> Seq<RowView>
    decreases n,
{
    if n <= 0 {
        Seq::empty()
    } else {
        rows_upto(secs, n - 1) + heading_rows(secs, n - 1) + seq![RowView::Command((n - 1) as usize)]
    }
}

/// The sections of the commands.
pub open spec fn sections(cs: Seq<CmdView>) -> Seq<Seq<char>> {
    cs.map_values(|c: CmdView| c.3)
}

/// Where command `i` lands among the rows (the number of rows for a position past the end).
pub open spec fn list_index(secs: Seq<Seq<char>>, i: int) -> int {
    if 0 <= i < secs.len() {
        (rows_upto(secs, i).len() + heading_rows(secs, i).len()) as int
    } else {
        rows_upto(secs, secs.len() as int).len() as int
    }
}

pub proof fn lemma_rows_upto_len(secs: Seq<Seq<char>>, n: int)
    requires
        0 <= n <= secs.len(),
    ensures
        rows_upto(secs, n).len() <= 3 * n,
    decreases n,
{
    if n > 0 {
        lemma_rows_upto_len(secs, n - 1);
    }
}

fn same_chars(a: &String, b: &String) -> (res: bool)
    ensures
        res == (a@ == b@),
{
    crate::workspace::chars_equal(&chars_of(a.as_str()), &chars_of(b.as_str()))
}

/// The rows of a command list: each section opens with its header, sections
/// after the first are set apart by a separator, and each command has a row.
pub fn command_rows(cmds: &Vec<Cmd>) -> (res: Vec<ListRow>)
    ensures
        res@.map_values(|r: ListRow| r@) == rows_upto(sections(cmd_views(cmds@)), cmds@.len() as int),
{
    let ghost secs = sections(cmd_views(cmds@));
    let mut rows: Vec<ListRow> = Vec::new();
    let mut last = String::new();
    let mut i: usize = 0;
    while i < cmds.len()
        invariant
            0 <= i <= cmds@.len(),
            secs == sections(cmd_views(cmds@)),
            last@ == prev_section(secs, i as int),
            rows@.map_values(|r: ListRow| r@) == rows_upto(secs, i as int),
        decreases cmds.len() - i,
    {
        let ghost before = rows@.map_values(|r: ListRow| r@);
        let sec = &cmds[i].section;
        assert(secs[i as int] == sec@);
        if !same_chars(sec, &last) {
            if last.as_str().is_empty() == false {
                rows.push(ListRow::Separator);
            }
            rows.push(ListRow::Header(sec.clone()));
            last = sec.clone();
        }
        rows.push(ListRow::Command(i));
        assert(rows@.map_values(|r: ListRow| r@) =~= before + heading_rows(secs, i as int) + seq![RowView::Command(i)]);
        i += 1;
    }
    rows
}

/// Convert a command index to the corresponding row index (skipping section headers).
pub fn cmd_to_list_idx(cmd_idx: usize, cmds: &[Cmd]) -> (res: usize)
    requires
        3 * cmds@.len() <= usize::MAX,
    ensures
        res == list_index(sections(cmd_views(cmds@)), cmd_idx as int),
{
    let ghost secs = sections(cmd_views(cmds@));
    let mut offset: usize = 0;
    let mut last = String::new();
    let mut i: usize = 0;
    while i < cmds.len()
        invariant
            0 <= i <= cmds@.len(),
            3 * cmds@.len() <= usize::MAX,
            secs == sections(cmd_views(cmds@)),
            last@ == prev_section(secs, i as int),
            offset == rows_upto(secs, i as int).len(),
            cmd_idx >= i,
        decreases cmds.len() - i,
    {
        proof {
            lemma_rows_upto_len(secs, i as int);
        }
        let sec = &cmds[i].section;
        assert(secs[i as int] == sec@);
        let mut head: usize = 0;
        if !same_chars(sec, &last) {
            if last.as_str().is_empty() == false {
                head = head + 1; // separator
            }
            head = head + 1; // header
            last = sec.clone();
        }
        assert(head == heading_rows(secs, i as int).len());
        offset = offset + head;
        if i == cmd_idx {
            return offset;
        }
        offset = offset + 1;
        i += 1;
    }
    offset
}

/// The row `cmd_to_list_idx` gives for a command is that command's row.
pub proof fn lemma_list_index_selects_command(secs: Seq<Seq<char>>, i: int)
    requires
        0 <= i < secs.len(),
    ensures
        list_index(secs, i) < rows_upto(secs, secs.len() as int).len(),
        rows_upto(secs, secs.len() as int)[list_index(secs, i)] == RowView::Command(i as usize),
{
    lemma_rows_prefix(secs, i + 1, secs.len() as int);
    let r = rows_upto(secs, i + 1);
    assert(r == rows_upto(secs, i) + heading_rows(secs, i) + seq![RowView::Command(i as usize)]);
    assert(r[list_index(secs, i)] == RowView::Command(i as usize));
}

/// From one command to the next the row moves down by one, plus the heading
/// rows of the next command, which it has exactly when its section differs.
proof fn lemma_list_index_step(secs: Seq<Seq<char>>, i: int)
    requires
        0 <= i,
        i + 1 < secs.len(),
    ensures
        list_index(secs, i + 1) == list_index(secs, i) + 1 + heading_rows(secs, i + 1).len(),
        (heading_rows(secs, i + 1).len() == 0) <==> secs[i + 1] == secs[i],
{
    assert(rows_upto(secs, i + 1) == rows_upto(secs, i) + heading_rows(secs, i) + seq![RowView::Command(i as usize)]);
    assert(prev_section(secs, i + 1) == secs[i]);
}

/// Commands further down the list land on rows further down: the rows of two
/// commands are at least as far apart as the commands, and exactly as far
/// apart when every command from the one to the other is in the same section.
pub proof fn law_list_index_increasing(secs: Seq<Seq<char>>, i: int, j: int)
    requires
        0 <= i < j < secs.len(),
    ensures
        list_index(secs, j) - list_index(secs, i) >= j - i,
        (list_index(secs, j) - list_index(secs, i) == j - i) <==> (forall|k: int| i <= k <= j ==> #[trigger] secs[k] == secs[i]),
    decreases j - i,
{
    lemma_list_index_step(secs, j - 1);
    if j == i + 1 {
        if secs[j] == secs[i] {
            assert forall|k: int| i <= k <= j implies #[trigger] secs[k] == secs[i] by {
                if k == j {
                } else {
                    assert(k == i);
                }
            }
        } else {
            assert(!(secs[j] == secs[i]));
        }
    } else {
        law_list_index_increasing(secs, i, j - 1);
        if list_index(secs, j) - list_index(secs, i) == j - i {
            assert(list_index(secs, j - 1) - list_index(secs, i) == j - 1 - i);
            assert(forall|k: int| i <= k <= j - 1 ==> #[trigger] secs[k] == secs[i]);
            assert(secs[j - 1] == secs[i]);
            assert forall|k: int| i <= k <= j implies #[trigger] secs[k] == secs[i] by {
                if k < j {
                    assert(i <= k <= j - 1);
                }
            }
        }
        if forall|k: int| i <= k <= j ==> #[trigger] secs[k] == secs[i] {
            assert forall|k: int| i <= k <= j - 1 implies #[trigger] secs[k] == secs[i] by {
                assert(i <= k <= j);
            }
            assert(secs[j - 1] == secs[i]);
            assert(secs[j] == secs[i]);
        }
    }
}

/// The rows of fewer commands are a prefix of the rows of more.
pub proof fn lemma_rows_prefix(secs: Seq<Seq<char>>, m: int, n: int)
    requires
        0 <= m <= n,
    ensures
        rows_upto(secs, m).len() <= rows_upto(secs, n).len(),
        forall|k: int| 0 <= k < rows_upto(secs, m).len() ==> #[trigger] rows_upto(secs, n)[k] == rows_upto(secs, m)[k],
    decreases n - m,
{
    if m < n {
        lemma_rows_prefix(secs, m, n - 1);
        assert forall|k: int| 0 <= k < rows_upto(secs, m).len() implies #[trigger] rows_upto(secs, n)[k] == rows_upto(secs, m)[k] by {
            assert(rows_upto(secs, n)[k] == rows_upto(secs, n - 1)[k]);
        }
    }
}

// ── Word wrapping ─────────────────────────────────────────────

/// `char::is_whitespace`: the Unicode White_Space property.
pub open spec fn is_white(c: char) -> bool {
    let u = c as u32;
    ||| 0x09 <= u <= 0x0d
    ||| u == 0x20
    ||| u == 0x85
    ||| u == 0xa0
    ||| u == 0x1680
    ||| 0x2000 <= u <= 0x200a
    ||| u == 0x2028
    ||| u == 0x2029
    ||| u == 0x202f
    ||| u == 0x205f
    ||| u == 0x3000
}

fn white(c: char) -> (res: bool)
    ensures
        res == is_white(c),
{
    let u = c as u32;
    (0x09 <= u && u <= 0x0d) || u == 0x20 || u == 0x85 || u == 0xa0 || u == 0x1680 || (0x2000 <= u && u <= 0x200a)
        || u == 0x2028 || u == 0x2029 || u == 0x202f || u == 0x205f || u == 0x3000
}

/// Scanning `s` for words: the words completed so far and the word being read.
pub open spec fn word_scan(s: Seq<char>) -> (Seq<Seq<char>>, Seq<char>)
    decreases s.len(),
{
    if s.len() == 0 {
        (Seq::empty(), Seq::empty())
    } else {
        let (done, cur) = word_scan(s.drop_last());
        if is_white(s.last()) {
            if cur.len() > 0 {
                (done.push(cur), Seq::empty())
            } else {
                (done, Seq::empty())
            }
        } else {
            (done, cur.push(s.last()))
        }
    }
}

/// `s.split_whitespace()`: the maximal runs of non-whitespace characters.
pub open spec fn words_of(s: Seq<char>) -> Seq<Seq<char>> {
    let (done, cur) = word_scan(s);
    if cur.len() > 0 {
        done.push(cur)
    } else {
        done
    }
}

/// Greedy filling: the completed groups of words and the group being filled. A
/// word joins the current group when the group's text, a space and the word fit
/// in `width` characters; otherwise it starts a new group.
pub open spec fn pack(ws: Seq<Seq<char>>, width: nat) -> (Seq<Seq<Seq<char>>>, Seq<Seq<char>>)
    decreases ws.len(),
{
    if ws.len() == 0 {
        (Seq::empty(), Seq::empty())
    } else {
        let (gs, cur) = pack(ws.drop_last(), width);
        let w = ws.last();
        if cur.len() == 0 {
            (gs, seq![w])
        } else if joined(cur, " "@).len() + 1 + w.len() > width {
            (gs.push(cur), seq![w])
        } else {
            (gs, cur.push(w))
        }
    }
}

/// A word cut into pieces of `width` characters, the last one possibly
/// shorter; a word that fits (or a zero width) leaves it whole.
pub open spec fn chunks(w: Seq<char>, width: nat) -> Seq<Seq<char>>
    decreases w.len(),
{
    if width == 0 || w.len() <= width {
        seq![w]
    } else {
        seq![w.take(width as int)] + chunks(w.skip(width as int), width)
    }
}

/// The words, each cut into pieces that fit in `width`, in order.
pub open spec fn pieces_of(ws: Seq<Seq<char>>, width: nat) -> Seq<Seq<char>>
    decreases ws.len(),
{
    if ws.len() == 0 {
        Seq::empty()
    } else {
        pieces_of(ws.drop_last(), width) + chunks(ws.last(), width)
    }
}

/// The groups of word pieces of the wrapped text.
pub open spec fn groups(text: Seq<char>, width: nat) -> Seq<Seq<Seq<char>>> {
    let (gs, cur) = pack(pieces_of(words_of(text), width), width);
    if cur.len() > 0 {
        gs.push(cur)
    } else {
        gs
    }
}

/// The lines of the wrapped text: each group's pieces separated by single
/// spaces; a zero width leaves the text as one line.
pub open spec fn wrapped(text: Seq<char>, width: nat) -> Seq<Seq<char>> {
    if width == 0 {
        seq![text]
    } else {
        groups(text, width).map_values(|g: Seq<Seq<char>>| joined(g, " "@))
    }
}

/// The pieces of a word, one after the other, are the word; each piece of a
/// non-empty word is non-empty, and for a non-zero width no piece is longer than it.
pub proof fn lemma_chunks(w: Seq<char>, width: nat)
    ensures
        concat_all(chunks(w, width)) == w,
        w.len() > 0 ==> forall|i: int| 0 <= i < chunks(w, width).len() ==> (#[trigger] chunks(w, width)[i]).len() > 0,
        width > 0 ==> forall|i: int| 0 <= i < chunks(w, width).len() ==> (#[trigger] chunks(w, width)[i]).len() <= width,
    decreases w.len(),
{
    if width == 0 || w.len() <= width {
        assert(seq![w].drop_last() =~= Seq::<Seq<char>>::empty());
        assert(concat_all(Seq::<Seq<char>>::empty()) + w =~= w);
    } else {
        let rest = w.skip(width as int);
        lemma_chunks(rest, width);
        let c = chunks(w, width);
        assert(c == seq![w.take(width as int)] + chunks(rest, width));
        lemma_concat_all_prepend(w.take(width as int), chunks(rest, width));
        assert(w.take(width as int) + rest =~= w);
        assert forall|i: int| 0 <= i < c.len() implies (#[trigger] c[i]).len() > 0 && c[i].len() <= width by {
            if i > 0 {
                assert(c[i] == chunks(rest, width)[i - 1]);
            }
        }
    }
}

/// Concatenating a sequence with one more in front puts that one in front.
proof fn lemma_concat_all_prepend<T>(x: Seq<T>, ss: Seq<Seq<T>>)
    ensures
        concat_all(seq![x] + ss) == x + concat_all(ss),
    decreases ss.len(),
{
    if ss.len() == 0 {
        assert(seq![x] + ss =~= seq![x]);
        assert(seq![x].drop_last() =~= Seq::<Seq<T>>::empty());
        assert(concat_all(Seq::<Seq<T>>::empty()) + x =~= x);
        assert(x + concat_all(ss) =~= x);
    } else {
        lemma_concat_all_prepend(x, ss.drop_last());
        assert((seq![x] + ss).drop_last() =~= seq![x] + ss.drop_last());
        assert((seq![x] + ss).last() == ss.last());
        assert(x + concat_all(ss.drop_last()) + ss.last() =~= x + (concat_all(ss.drop_last()) + ss.last()));
    }
}

/// The pieces of non-empty words are non-empty and, for a non-zero width, fit in it.
pub proof fn lemma_pieces(ws: Seq<Seq<char>>, width: nat)
    requires
        width > 0,
        forall|i: int| 0 <= i < ws.len() ==> (#[trigger] ws[i]).len() > 0,
    ensures
        forall|i: int| 0 <= i < pieces_of(ws, width).len() ==> (#[trigger] pieces_of(ws, width)[i]).len() > 0
            && pieces_of(ws, width)[i].len() <= width,
    decreases ws.len(),
{
    if ws.len() > 0 {
        let init = ws.drop_last();
        assert forall|i: int| 0 <= i < init.len() implies (#[trigger] init[i]).len() > 0 by {
            assert(init[i] == ws[i]);
        }
        lemma_pieces(init, width);
        lemma_chunks(ws.last(), width);
        let p = pieces_of(ws, width);
        let a = pieces_of(init, width);
        let c = chunks(ws.last(), width);
        assert forall|i: int| 0 <= i < p.len() implies (#[trigger] p[i]).len() > 0 && p[i].len() <= width by {
            if i < a.len() {
                assert(p[i] == a[i]);
            } else {
                assert(p[i] == c[i - a.len()]);
            }
        }
    }
}

pub proof fn lemma_words_nonempty(s: Seq<char>)
    ensures
        forall|i: int| 0 <= i < words_of(s).len() ==> (#[trigger] words_of(s)[i]).len() > 0,
        forall|i: int| 0 <= i < word_scan(s).0.len() ==> (#[trigger] word_scan(s).0[i]).len() > 0,
    decreases s.len(),
{
    if s.len() > 0 {
        lemma_words_nonempty(s.drop_last());
        let (d, c) = word_scan(s.drop_last());
        let (d2, c2) = word_scan(s);
        assert forall|i: int| 0 <= i < d2.len() implies (#[trigger] d2[i]).len() > 0 by {
            if i < d.len() {
                assert(d2[i] == d[i]);
            }
        }
    }
    let (d2, c2) = word_scan(s);
    assert forall|i: int| 0 <= i < words_of(s).len() implies (#[trigger] words_of(s)[i]).len() > 0 by {
        if i < d2.len() {
            assert(words_of(s)[i] == d2[i]);
        }
    }
}

fn words(cs: &Vec<char>) -> (res: Vec<Vec<char>>)
    ensures
        res@.map_values(|w: Vec<char>| w@) == words_of(cs@),
{
    let mut done: Vec<Vec<char>> = Vec::new();
    let mut cur: Vec<char> = Vec::new();
    let mut i: usize = 0;
    assert(cs@.take(0) =~= Seq::<char>::empty());
    while i < cs.len()
        invariant
            0 <= i <= cs@.len(),
            (done@.map_values(|w: Vec<char>| w@), cur@) == word_scan(cs@.take(i as int)),
        decreases cs.len() - i,
    {
        assert(cs@.take(i + 1).drop_last() =~= cs@.take(i as int));
        assert(cs@.take(i + 1).last() == cs@[i as int]);
        let ghost before = done@.map_values(|w: Vec<char>| w@);
        if white(cs[i]) {
            if cur.len() > 0 {
                let w = cur;
                cur = Vec::new();
                let ghost wv = w@;
                done.push(w);
                assert(done@.map_values(|w: Vec<char>| w@) =~= before.push(wv));
            } else {
                cur = Vec::new();
            }
        } else {
            cur.push(cs[i]);
        }
        i += 1;
    }
    assert(cs@.take(cs@.len() as int) =~= cs@);
    if cur.len() > 0 {
        let ghost before = done@.map_values(|w: Vec<char>| w@);
        let ghost wv = cur@;
        done.push(cur);
        assert(done@.map_values(|w: Vec<char>| w@) =~= before.push(wv));
    }
    done
}

/// The characters `w[from..to]`.
fn sub_chars(w: &Vec<char>, from: usize, to: usize) -> (res: Vec<char>)
    requires
        from <= to <= w@.len(),
    ensures
        res@ == w@.subrange(from as int, to as int),
{
    let mut res: Vec<char> = Vec::new();
    let mut i = from;
    while i < to
        invariant
            from <= i <= to <= w@.len(),
            res@ == w@.subrange(from as int, i as int),
        decreases to - i,
    {
        res.push(w[i]);
        i += 1;
        assert(res@ =~= w@.subrange(from as int, i as int));
    }
    res
}

/// A word cut into pieces of `width` characters.
fn chunks_of(w: &Vec<char>, width: usize) -> (res: Vec<Vec<char>>)
    requires
        width > 0,
    ensures
        res@.map_values(|p: Vec<char>| p@) == chunks(w@, width as nat),
{
    let mut res: Vec<Vec<char>> = Vec::new();
    let mut start: usize = 0;
    assert(w@.skip(0) =~= w@);
    assert(res@.map_values(|p: Vec<char>| p@) + chunks(w@, width as nat) =~= chunks(w@, width as nat));
    while w.len() - start > width
        invariant
            start <= w@.len(),
            width > 0,
            res@.map_values(|p: Vec<char>| p@) + chunks(w@.skip(start as int), width as nat) == chunks(w@, width as nat),
        decreases w.len() - start,
    {
        let ghost rest = w@.skip(start as int);
        let ghost before = res@.map_values(|p: Vec<char>| p@);
        let piece = sub_chars(w, start, start + width);
        assert(rest.take(width as int) =~= piece@);
        assert(rest.skip(width as int) =~= w@.skip(start + width));
        assert(chunks(rest, width as nat) == seq![rest.take(width as int)] + chunks(rest.skip(width as int), width as nat));
        res.push(piece);
        start = start + width;
        assert(res@.map_values(|p: Vec<char>| p@) =~= before.push(piece@));
        assert(before.push(piece@) + chunks(w@.skip(start as int), width as nat) =~= before + (seq![piece@] + chunks(
            w@.skip(start as int),
            width as nat,
        )));
    }
    let ghost rest = w@.skip(start as int);
    let ghost before = res@.map_values(|p: Vec<char>| p@);
    let last = sub_chars(w, start, w.len());
    assert(rest =~= last@);
    assert(chunks(rest, width as nat) == seq![rest]);
    res.push(last);
    assert(res@.map_values(|p: Vec<char>| p@) =~= before + seq![last@]);
    res
}

/// The words cut into pieces of `width` characters, in order.
fn pieces(ws: &Vec<Vec<char>>, width: usize) -> (res: Vec<Vec<char>>)
    requires
        width > 0,
    ensures
        res@.map_values(|p: Vec<char>| p@) == pieces_of(ws@.map_values(|w: Vec<char>| w@), width as nat),
{
    let ghost wv = ws@.map_values(|w: Vec<char>| w@);
    let mut res: Vec<Vec<char>> = Vec::new();
    let mut j: usize = 0;
    assert(wv.take(0) =~= Seq::<Seq<char>>::empty());
    while j < ws.len()
        invariant
            0 <= j <= ws@.len(),
            width > 0,
            wv == ws@.map_values(|w: Vec<char>| w@),
            res@.map_values(|p: Vec<char>| p@) == pieces_of(wv.take(j as int), width as nat),
        decreases ws.len() - j,
    {
        assert(wv.take(j + 1).drop_last() =~= wv.take(j as int));
        assert(wv.take(j + 1).last() == ws@[j as int]@);
        let ghost before = res@.map_values(|p: Vec<char>| p@);
        let mut c = chunks_of(&ws[j], width);
        let ghost cv = c@.map_values(|p: Vec<char>| p@);
        res.append(&mut c);
        assert(res@.map_values(|p: Vec<char>| p@) =~= before + cv);
        j += 1;
    }
    assert(wv.take(wv.len() as int) =~= wv);
    res
}

/// Word-wrap `text` to lines of at most `width` characters: words are separated by
/// single spaces, and a word longer than `width` is cut into pieces of `width`
/// characters. A zero width leaves the text as it is.
pub fn wrap_text(text: &str, width: usize) -> (res: Vec<String>)
    ensures
        res@.map_values(|l: String| l@) == wrapped(text@, width as nat),
        width > 0 ==> forall|i: int| 0 <= i < res@.len() ==> (#[trigger] res@[i])@.len() <= width,
{
    if width == 0 {
        let mut one: Vec<String> = Vec::new();
        one.push(string_of(text));
        assert(one@.map_values(|l: String| l@) =~= seq![text@]);
        return one;
    }
    let cs = chars_of(text);
    let wds = words(&cs);
    let ws = pieces(&wds, width);
    let ghost wv = ws@.map_values(|w: Vec<char>| w@);
    proof {
        lemma_words_nonempty(cs@);
        lemma_pieces(words_of(cs@), width as nat);
    }
    let mut lines: Vec<String> = Vec::new();
    let mut cur = String::new();
    let mut cur_len: usize = 0;
    let ghost mut gs: Seq<Seq<Seq<char>>> = Seq::empty();
    let ghost mut cg: Seq<Seq<char>> = Seq::empty();
    let mut j: usize = 0;
    assert(wv.take(0) =~= Seq::<Seq<char>>::empty());
    while j < ws.len()
        invariant
            0 <= j <= ws@.len(),
            wv == ws@.map_values(|w: Vec<char>| w@),
            wv == pieces_of(words_of(cs@), width as nat),
            cs@ == text@,
            width > 0,
            forall|i: int| 0 <= i < wv.len() ==> (#[trigger] wv[i]).len() > 0,
            pack(wv.take(j as int), width as nat) == (gs, cg),
            lines@.map_values(|l: String| l@) == gs.map_values(|g: Seq<Seq<char>>| joined(g, " "@)),
            cur@ == joined(cg, " "@),
            cur_len == cur@.len(),
            (cg.len() == 0) == (cur@.len() == 0),
            forall|i: int| 0 <= i < cg.len() ==> (#[trigger] cg[i]).len() > 0,
        decreases ws.len() - j,
    {
        assert(wv.take(j + 1).drop_last() =~= wv.take(j as int));
        assert(wv.take(j + 1).last() == wv[j as int]);
        let w = &ws[j];
        let wl = w.len();
        assert(w@.len() == wl);
        assert(w@ == wv[j as int]);
        assert(w@.len() > 0);
        let ghost prev_cg = cg;
        if cur.as_str().is_empty() {
            cur = string_from_chars(w, 0, w.len());
            assert(w@.subrange(0, w@.len() as int) =~= w@);
            cur_len = wl;
            proof {
                cg = seq![w@];
            }
            assert(joined(cg, " "@) == w@);
        } else if (cur_len as u128) + 1 + (wl as u128) > width as u128 {
            let ghost before = lines@;
            let ghost old_gs = gs;
            let done = cur;
            let ghost dv = done@;
            assert(dv == joined(prev_cg, " "@));
            lines.push(done);
            proof {
                gs = gs.push(prev_cg);
                assert(lines@ == before.push(done));
                assert(lines@.map_values(|l: String| l@) =~= before.map_values(|l: String| l@).push(dv));
                assert(gs.map_values(|g: Seq<Seq<char>>| joined(g, " "@)) =~= old_gs.map_values(
                    |g: Seq<Seq<char>>| joined(g, " "@),
                ).push(joined(prev_cg, " "@)));
            }
            cur = string_from_chars(w, 0, w.len());
            assert(w@.subrange(0, w@.len() as int) =~= w@);
            cur_len = wl;
            proof {
                cg = seq![w@];
            }
            assert(joined(cg, " "@) == w@);
        } else {
            let ghost old_cur = cur@;
            push_char(&mut cur, ' ');
            push_chars(&mut cur, w);
            proof {
                reveal_strlit(" ");
                assert(cur@ =~= old_cur + " "@ + w@);
                assert(" "@.len() == 1);
                cg = prev_cg.push(w@);
                assert(cg.drop_last() =~= prev_cg);
            }
            cur_len = cur_len + 1 + wl;
        }
        j += 1;
    }
    assert(wv.take(wv.len() as int) =~= wv);
    if cur.as_str().is_empty() == false {
        let ghost before = lines@;
        let ghost old_gs = gs;
        let ghost cv = cur@;
        lines.push(cur);
        proof {
            gs = gs.push(cg);
            assert(lines@.map_values(|l: String| l@) =~= before.map_values(|l: String| l@).push(cv));
            assert(gs.map_values(|g: Seq<Seq<char>>| joined(g, " "@)) =~= old_gs.map_values(
                |g: Seq<Seq<char>>| joined(g, " "@),
            ).push(joined(cg, " "@)));
        }
    }
    assert(lines@.map_values(|l: String| l@) =~= wrapped(text@, width as nat));
    proof {
        lemma_wrap_lines_fit(text@, width as nat);
        assert forall|i: int| 0 <= i < lines@.len() implies (#[trigger] lines@[i])@.len() <= width by {
            assert(lines@.map_values(|l: String| l@)[i] == lines@[i]@);
            assert(wrapped(text@, width as nat)[i] == lines@[i]@);
        }
    }
    lines
}

proof fn lemma_concat_single<T>(x: Seq<T>)
    ensures
        concat_all(seq![x]) == x,
{
    assert(seq![x].drop_last() =~= Seq::<Seq<T>>::empty());
    assert(concat_all(Seq::<Seq<T>>::empty()) + x =~= x);
}

proof fn lemma_pack(ws: Seq<Seq<char>>, width: nat)
    ensures
        concat_all(pack(ws, width).0) + concat_all(seq![pack(ws, width).1])
            == ws,
        (pack(ws, width).1.len() == 0) == (ws.len() == 0),
        forall|i: int| 0 <= i < pack(ws, width).0.len() ==> (#[trigger] pack(ws, width).0[i]).len() > 0,
        (forall|i: int| 0 <= i < ws.len() ==> (#[trigger] ws[i]).len() <= width) ==> {
            &&& forall|i: int| 0 <= i < pack(ws, width).0.len() ==> joined(#[trigger] pack(ws, width).0[i], " "@).len() <= width
            &&& joined(pack(ws, width).1, " "@).len() <= width
        },
    decreases ws.len(),
{
    if ws.len() == 0 {
        lemma_concat_single(Seq::<Seq<char>>::empty());
        assert(concat_all(Seq::<Seq<Seq<char>>>::empty()) =~= Seq::<Seq<char>>::empty());
    } else {
        lemma_pack(ws.drop_last(), width);
        let (gs, cur) = pack(ws.drop_last(), width);
        let w = ws.last();
        if forall|i: int| 0 <= i < ws.len() ==> (#[trigger] ws[i]).len() <= width {
            assert forall|i: int| 0 <= i < ws.drop_last().len() implies (#[trigger] ws.drop_last()[i]).len() <= width by {
                assert(ws.drop_last()[i] == ws[i]);
            }
            assert(w.len() <= width);
        }
        assert(joined(seq![w], " "@) == w);
        lemma_concat_single(cur);
        assert(concat_all(gs) + cur == ws.drop_last());
        if cur.len() == 0 {
            lemma_concat_single(seq![w]);
            assert(concat_all(gs) + seq![w] =~= ws);
        } else if joined(cur, " "@).len() + 1 + w.len() > width {
            let gs2 = gs.push(cur);
            assert(gs2.drop_last() =~= gs);
            lemma_concat_single(seq![w]);
            assert(concat_all(gs2) + seq![w] =~= ws);
            assert forall|i: int| 0 <= i < gs2.len() implies (#[trigger] gs2[i]).len() > 0 by {
                if i < gs.len() {
                    assert(gs2[i] == gs[i]);
                }
            }
            if forall|i: int| 0 <= i < ws.len() ==> (#[trigger] ws[i]).len() <= width {
                assert forall|i: int| 0 <= i < gs2.len() implies joined(#[trigger] gs2[i], " "@).len() <= width by {
                    if i < gs.len() {
                        assert(gs2[i] == gs[i]);
                    }
                }
            }
        } else {
            let c2 = cur.push(w);
            assert(c2.drop_last() =~= cur);
            lemma_concat_single(c2);
            assert((concat_all(gs) + cur).push(w) =~= concat_all(gs) + c2);
            assert(ws.drop_last().push(w) =~= ws);
            reveal_strlit(" ");
            assert(joined(c2, " "@) == joined(cur, " "@) + " "@ + w);
            assert(" "@.len() == 1);
        }
    }
}

/// Wrapping keeps the words of the text, in order: the groups, one after the
/// other, are exactly the pieces of its words (see `lemma_chunks`: the pieces of
/// a word, one after the other, are the word).
pub proof fn lemma_wrap_keeps_words(text: Seq<char>, width: nat)
    ensures
        concat_all(groups(text, width)) == pieces_of(words_of(text), width),
{
    let ws = pieces_of(words_of(text), width);
    lemma_pack(ws, width);
    let (gs, cur) = pack(ws, width);
    lemma_concat_single(cur);
    if cur.len() > 0 {
        assert(gs.push(cur).drop_last() =~= gs);
    } else {
        assert(concat_all(gs) + cur =~= concat_all(gs));
    }
}

/// For a non-zero width, every line of a wrapped text fits in `width` characters.
pub proof fn lemma_wrap_lines_fit(text: Seq<char>, width: nat)
    requires
        width > 0,
    ensures
        forall|i: int| 0 <= i < wrapped(text, width).len() ==> (#[trigger] wrapped(text, width)[i]).len() <= width,
{
    lemma_words_nonempty(text);
    lemma_pieces(words_of(text), width);
    let ws = pieces_of(words_of(text), width);
    lemma_pack(ws, width);
    let (gs, cur) = pack(ws, width);
    let g = groups(text, width);
    assert forall|i: int| 0 <= i < g.len() implies joined(#[trigger] g[i], " "@).len() <= width by {
        if cur.len() > 0 && i == gs.len() {
            assert(g[i] == cur);
        } else {
            assert(g[i] == gs[i]);
        }
    }
    assert forall|i: int| 0 <= i < wrapped(text, width).len() implies (#[trigger] wrapped(text, width)[i]).len() <= width by {
        assert(wrapped(text, width)[i] == joined(g[i], " "@));
    }
}

// ── Output lines ──────────────────────────────────────────────

/// How an output line is highlighted.
#[derive(Debug, Clone, Copy, PartialEq, Eq, Structural)]
pub enum LineStyle {
    Error,
    Warning,
    Success,
    Plain,
}

/// Whether `s` starts with `p`.
pub open spec fn starts_with(s: Seq<char>, p: Seq<char>) -> bool {
    s.len() >= p.len() && s.subrange(0, p.len() as int) == p
}

/// Whether `p` occurs somewhere in `s`.
pub open spec fn contains(s: Seq<char>, p: Seq<char>) -> bool {
    exists|i: int| 0 <= i && i + p.len() <= s.len() && #[trigger] s.subrange(i, i + p.len()) == p
}

/// Errors red, warnings yellow, finished builds and successful exits green.
pub open spec fn line_style(s: Seq<char>) -> LineStyle {
    if starts_with(s, "error"@) {
        LineStyle::Error
    } else if starts_with(s, "warning"@) {
        LineStyle::Warning
    } else if contains(s, "Finished"@) || starts_with(s, "  ✓"@) {
        LineStyle::Success
    } else {
        LineStyle::Plain
    }
}

fn occurs_in(cs: &Vec<char>, pat: &str) -> (res: bool)
    ensures
        res == contains(cs@, pat@),
{
    let p = chars_of(pat);
    if p.len() > cs.len() {
        return false;
    }
    if p.len() == 0 {
        assert(cs@.subrange(0, 0 + pat@.len() as int) =~= pat@);
        return true;
    }
    let last: usize = cs.len() - p.len();
    let mut i: usize = 0;
    while i <= last
        invariant
            p@ == pat@,
            0 < p@.len() <= cs@.len(),
            cs@.len() == cs.len(),
            last == cs@.len() - p@.len(),
            0 <= i <= last + 1,
            forall|j: int| 0 <= j < i ==> #[trigger] cs@.subrange(j, j + p@.len()) != p@,
        decreases last + 1 - i,
    {
        if crate::text::matches_at(cs, i, pat) {
            return true;
        }
        i += 1;
    }
    proof {
        assert forall|j: int| 0 <= j && j + pat@.len() <= cs@.len() implies #[trigger] cs@.subrange(j, j + pat@.len()) != pat@ by {
            assert(j < i);
        }
    }
    false
}

/// How an output line is highlighted.
pub fn output_line_style(line: &str) -> (res: LineStyle)
    ensures
        res == line_style(line@),
{
    let cs = chars_of(line);
    if crate::text::matches_at(&cs, 0, "error") {
        LineStyle::Error
    } else if crate::text::matches_at(&cs, 0, "warning") {
        LineStyle::Warning
    } else if occurs_in(&cs, "Finished") || crate::text::matches_at(&cs, 0, "  ✓") {
        LineStyle::Success
    } else {
        LineStyle::Plain
    }
}

// ── Scroll offsets ────────────────────────────────────────────

/// `a - b`, or 0.
pub open spec fn sat_sub16(a: u16, b: u16) -> u16 {
    if a >= b {
        (a - b) as u16
    } else {
        0
    }
}

/// The output pane follows the tail: it scrolls past the lines that do not fit
/// in the pane (its height less the two border rows). The line count is taken
/// modulo 2^16, as the pane's arithmetic is 16-bit.
pub fn output_scroll(n_lines: usize, area_height: u16) -> (res: u16)
    ensures
        res == sat_sub16(n_lines as u16, sat_sub16(area_height, 2)),
{
    let total: u16 = n_lines as u16;
    let inner: u16 = if area_height >= 2 { area_height - 2 } else { 0 };
    if total >= inner {
        total - inner
    } else {
        0
    }
}

/// Where the right pane is scrolled to: while it has focus, where the user
/// scrolled it (vertically and horizontally); otherwise it follows the tail of
/// its `n_lines` lines at the left edge.
pub fn pane_scroll(focus: Focus, v_scroll: u16, h_scroll: u16, n_lines: usize, area_height: u16) -> (res: (u16, u16))
    ensures
        res == if focus == Focus::Right {
            (v_scroll, h_scroll)
        } else {
            (sat_sub16(n_lines as u16, sat_sub16(area_height, 2)), 0u16)
        },
{
    if focus == Focus::Right {
        (v_scroll, h_scroll)
    } else {
        (output_scroll(n_lines, area_height), 0)
    }
}

/// Where the detail pane is scrolled to: while it has focus, where the user
/// scrolled it; otherwise it shows the top of the page.
pub fn detail_scroll(focus: Focus, v_scroll: u16, h_scroll: u16) -> (res: (u16, u16))
    ensures
        res == if focus == Focus::Right {
            (v_scroll, h_scroll)
        } else {
            (0u16, 0u16)
        },
{
    if focus == Focus::Right {
        (v_scroll, h_scroll)
    } else {
        (0, 0)
    }
}

/// Whether search hit `i` is shown as selected: only the selected hit, and only
/// while the search list is the active one.
pub fn search_hit_selected(active: bool, i: usize, sel: usize) -> (res: bool)
    ensures
        res == (active && i == sel),
{
    active && i == sel
}

/// The search list scrolls so that the selected hit (below the search bar and
/// a blank line) stays inside the pane; it does not scroll when inactive.
pub fn search_scroll(sel: usize, area_height: u16, active: bool) -> (res: u16)
    requires
        sel + 3 <= usize::MAX,
    ensures
        res == if active && sel + 3 > sat_sub16(area_height, 2) {
            (sel + 3 - sat_sub16(area_height, 2)) as u16
        } else {
            0u16
        },
{
    let inner: usize = if area_height >= 2 { (area_height - 2) as usize } else { 0 };
    if active && sel + 3 > inner {
        (sel + 3 - inner) as u16
    } else {
        0
    }
}

/// The row of the Test list that shows command `sel` (below the COMMANDS header).
pub fn test_list_index(sel: usize) -> (res: usize)
    requires
        sel < usize::MAX,
    ensures
        res == sel + 1,
{
    sel + 1
}

// ── Installed crates ──────────────────────────────────────────

/// A row of the installed list: a section header, or the dependency at a position.
#[derive(Debug, Clone, Copy, PartialEq, Eq, Structural)]
pub enum InstalledRow {
    Header(DepKind),
    Crate(usize),
}

/// The header shown before dependency `i`: one whenever its section differs from the one before.
pub open spec fn kind_heading(kinds: Seq<DepKind>, i: int) -> Seq<InstalledRow> {
    if i == 0 || kinds[i] != kinds[i - 1] {
        seq![InstalledRow::Header(kinds[i])]
    } else {
        Seq::empty()
    }
}

/// The rows of the first `n` dependencies.
pub open spec fn installed_upto(kinds: Seq<DepKind>, n: int) -> Seq<InstalledRow>
    decreases n,
{
    if n <= 0 {
        Seq::empty()
    } else {
        installed_upto(kinds, n - 1) + kind_heading(kinds, n - 1) + seq![InstalledRow::Crate((n - 1) as usize)]
    }
}

/// The sections of the dependencies.
pub open spec fn dep_kinds(ds: Seq<Dep>) -> Seq<DepKind> {
    ds.map_values(|d: Dep| d.kind)
}

/// The installed list, grouped by section, and the row of the selected
/// dependency (0 when the selection is past the end).
pub fn installed_rows(deps: &Vec<Dep>, sel: usize) -> (res: (Vec<InstalledRow>, usize))
    requires
        2 * deps@.len() <= usize::MAX,
    ensures
        res.0@ == installed_upto(dep_kinds(deps@), deps@.len() as int),
        res.1 == if sel < deps@.len() {
            (installed_upto(dep_kinds(deps@), sel as int).len() + kind_heading(dep_kinds(deps@), sel as int).len()) as usize
        } else {
            0usize
        },
{
    let ghost ks = dep_kinds(deps@);
    let mut rows: Vec<InstalledRow> = Vec::new();
    let mut sel_idx: usize = 0;
    let mut i: usize = 0;
    while i < deps.len()
        invariant
            0 <= i <= deps@.len(),
            2 * deps@.len() <= usize::MAX,
            ks == dep_kinds(deps@),
            rows@ == installed_upto(ks, i as int),
            rows@.len() <= 2 * i,
            sel_idx == if sel < i {
                (installed_upto(ks, sel as int).len() + kind_heading(ks, sel as int).len()) as usize
            } else {
                0usize
            },
        decreases deps.len() - i,
    {
        assert(ks[i as int] == deps@[i as int].kind);
        if i > 0 {
            assert(ks[i - 1] == deps@[i - 1].kind);
        }
        if i == 0 || deps[i].kind != deps[i - 1].kind {
            rows.push(InstalledRow::Header(deps[i].kind));
        }
        if i == sel {
            sel_idx = rows.len();
        }
        rows.push(InstalledRow::Crate(i));
        assert(rows@ =~= installed_upto(ks, i as int) + kind_heading(ks, i as int) + seq![InstalledRow::Crate(i)]);
        i += 1;
    }
    (rows, sel_idx)
}

/// The row of the installed list to highlight: the selected crate's row, and
/// only while the installed list is active and holds crates.
pub fn installed_highlight(active: bool, n_deps: usize, sel_row: usize) -> (res: Option<usize>)
    ensures
        res == if active && n_deps > 0 {
            Some(sel_row)
        } else {
            None::<usize>
        },
{
    if active && n_deps > 0 {
        Some(sel_row)
    } else {
        None
    }
}

// ── Status bar ────────────────────────────────────────────────

/// The status bar: the open prompt with its input, the query-editing keys while editing, the kill key while a
/// process runs, the Crate tab's keys (naming the section crates are added to),
/// or the common keys.
pub open spec fn status_line(a: App) -> Seq<char> {
    if a.prompt_args is Some {
        " "@ + a.prompt_label@ + ": "@ + a.prompt_text@ + "▌  [Enter] run  [Esc] cancel"@
    } else if a.pkg_search_mode {
        " Searching: [Esc/Enter] done  [BS] delete"@
    } else if a.running {
        " Running...  [K] kill"@
    } else if a.tab == Tab::Crate {
        " [s] Search  [Enter] Add→"@ + section_name(a.pkg_add_kind)
            + "  [p] Section  [d] Remove  [Tab] Switch  [q] Quit"@
    } else {
        " [Enter] Run  [r] Re-run  [K] Kill  []/[] Tab  [q] Quit"@
    }
}

/// The status bar's text.
pub fn status_text(app: &App) -> (res: String)
    ensures
        res@ == status_line(*app),
{
    if app.prompt_args.is_some() {
        let mut s = string_of(" ");
        push_str(&mut s, app.prompt_label.as_str());
        push_str(&mut s, ": ");
        push_str(&mut s, app.prompt_text.as_str());
        push_str(&mut s, "▌  [Enter] run  [Esc] cancel");
        s
    } else if app.pkg_search_mode {
        string_of(" Searching: [Esc/Enter] done  [BS] delete")
    } else if app.running {
        string_of(" Running...  [K] kill")
    } else if app.tab == Tab::Crate {
        let mut s = string_of(" [s] Search  [Enter] Add→");
        push_str(&mut s, app.pkg_add_kind.section());
        push_str(&mut s, "  [p] Section  [d] Remove  [Tab] Switch  [q] Quit");
        s
    } else {
        string_of(" [Enter] Run  [r] Re-run  [K] Kill  []/[] Tab  [q] Quit")
    }
}

// ── Padding ───────────────────────────────────────────────────

/// `s` padded with spaces to at least `width` characters (the `{:<width}` format).
pub open spec fn padded(s: Seq<char>, width: nat) -> Seq<char> {
    if s.len() >= width {
        s
    } else {
        s + Seq::new((width - s.len()) as nat, |i: int| ' ')
    }
}

/// `format!("{:<width$}", s)`.
pub fn pad_right(s: &str, width: usize) -> (res: String)
    ensures
        res@ == padded(s@, width as nat),
{
    let cs = chars_of(s);
    let mut out = string_of(s);
    let mut n: usize = cs.len();
    while n < width
        invariant
            cs@ == s@,
            cs@.len() <= n,
            n <= width || n == cs@.len(),
            out@ == s@ + Seq::new((n - cs@.len()) as nat, |i: int| ' '),
        decreases width - n,
    {
        push_char(&mut out, ' ');
        n += 1;
        assert(out@ =~= s@ + Seq::new((n - cs@.len()) as nat, |i: int| ' '));
    }
    if cs.len() >= width {
        assert(Seq::new((n - cs@.len()) as nat, |i: int| ' ') =~= Seq::<char>::empty());
    }
    assert(out@ =~= padded(s@, width as nat));
    out
}

// ── Detail panel ──────────────────────────────────────────────

/// How a line of the detail panel is shown.
#[derive(Debug, Clone, Copy, PartialEq, Eq, Structural)]
pub enum DetailStyle {
    Header,
    Muted,
    Plain,
}

/// The description part: a heading, the text wrapped to the width and
/// indented by two spaces, and a blank line; nothing for an empty description.
pub open spec fn description_part(desc: Seq<char>, width: nat) -> Seq<(Seq<char>, DetailStyle)> {
    if desc.len() == 0 {
        Seq::empty()
    } else {
        seq![("## description"@, DetailStyle::Muted)] + wrapped(desc, width).map_values(
            |l: Seq<char>| ("  "@ + l, DetailStyle::Plain),
        ) + seq![(Seq::empty(), DetailStyle::Plain)]
    }
}

/// The authors part: a heading, one indented line per author, and a blank line.
pub open spec fn authors_part(authors: Seq<Seq<char>>) -> Seq<(Seq<char>, DetailStyle)> {
    if authors.len() == 0 {
        Seq::empty()
    } else {
        seq![("### author(s)"@, DetailStyle::Muted)] + authors.map_values(|a: Seq<char>| ("  "@ + a, DetailStyle::Plain))
            + seq![(Seq::empty(), DetailStyle::Plain)]
    }
}

/// The dependencies part: a heading, one line per dependency with its name
/// padded to 20 characters, and a blank line.
pub open spec fn deps_part(deps: Seq<(Seq<char>, Seq<char>)>) -> Seq<(Seq<char>, DetailStyle)> {
    if deps.len() == 0 {
        Seq::empty()
    } else {
        seq![("## dependencies"@, DetailStyle::Muted)] + deps.map_values(
            |d: (Seq<char>, Seq<char>)| ("  "@ + padded(d.0, 20) + " "@ + d.1, DetailStyle::Plain),
        ) + seq![(Seq::empty(), DetailStyle::Plain)]
    }
}

/// The detail panel of a crate for a pane `width` columns wide: name, version,
/// a blank line, then description, authors, dependencies and repository, each
/// only when present.
pub open spec fn detail_text(d: CrateDetail, width: u16) -> Seq<(Seq<char>, DetailStyle)> {
    seq![
        ("# "@ + d.name@, DetailStyle::Header),
        ("  v"@ + d.version@, DetailStyle::Muted),
        (Seq::empty(), DetailStyle::Plain),
    ] + description_part(d.description@, sat_sub16(width, 4) as nat) + authors_part(
        d.authors@.map_values(|a: String| a@),
    ) + deps_part(d.deps@.map_values(|x: crate::crates_io::DepInfo| (x.name@, x.req@))) + if d.repository@.len() > 0 {
        seq![(d.repository@, DetailStyle::Muted)]
    } else {
        Seq::empty()
    }
}

/// The lines as text.
pub open spec fn styled_views(v: Seq<(String, DetailStyle)>) -> Seq<(Seq<char>, DetailStyle)> {
    v.map_values(|x: (String, DetailStyle)| (x.0@, x.1))
}

fn push_line(out: &mut Vec<(String, DetailStyle)>, text: String, style: DetailStyle)
    ensures
        styled_views(final(out)@) == styled_views(old(out)@).push((text@, style)),
{
    let ghost before = out@;
    out.push((text, style));
    assert(styled_views(out@) =~= styled_views(before).push((text@, style)));
}

fn push_description(out: &mut Vec<(String, DetailStyle)>, desc: &String, width: u16)
    ensures
        styled_views(final(out)@) == styled_views(old(out)@) + description_part(desc@, sat_sub16(width, 4) as nat),
{
    let ghost head = styled_views(out@);
    if desc.as_str().is_empty() == false {
        push_line(out, string_of("## description"), DetailStyle::Muted);
        let inner: usize = if width >= 4 { (width - 4) as usize } else { 0 };
        let lines = wrap_text(desc.as_str(), inner);
        let ghost wl = lines@.map_values(|l: String| l@);
        let ghost start = styled_views(out@);
        let mut i: usize = 0;
        while i < lines.len()
            invariant
                0 <= i <= lines@.len(),
                wl == lines@.map_values(|l: String| l@),
                styled_views(out@) == start + wl.take(i as int).map_values(|l: Seq<char>| ("  "@ + l, DetailStyle::Plain)),
            decreases lines.len() - i,
        {
            push_line(out, crate::text::concat("  ", lines[i].as_str()), DetailStyle::Plain);
            assert(wl.take(i + 1) =~= wl.take(i as int).push(wl[i as int]));
            i += 1;
        }
        assert(wl.take(wl.len() as int) =~= wl);
        push_line(out, String::new(), DetailStyle::Plain);
    }
    assert(styled_views(out@) =~= head + description_part(desc@, sat_sub16(width, 4) as nat));
}

fn push_authors(out: &mut Vec<(String, DetailStyle)>, authors: &Vec<String>)
    ensures
        styled_views(final(out)@) == styled_views(old(out)@) + authors_part(authors@.map_values(|a: String| a@)),
{
    let ghost head = styled_views(out@);
    let ghost av = authors@.map_values(|a: String| a@);
    if authors.len() > 0 {
        push_line(out, string_of("### author(s)"), DetailStyle::Muted);
        let ghost start = styled_views(out@);
        let mut i: usize = 0;
        while i < authors.len()
            invariant
                0 <= i <= authors@.len(),
                av == authors@.map_values(|a: String| a@),
                styled_views(out@) == start + av.take(i as int).map_values(|a: Seq<char>| ("  "@ + a, DetailStyle::Plain)),
            decreases authors.len() - i,
        {
            push_line(out, crate::text::concat("  ", authors[i].as_str()), DetailStyle::Plain);
            assert(av.take(i + 1) =~= av.take(i as int).push(av[i as int]));
            i += 1;
        }
        assert(av.take(av.len() as int) =~= av);
        push_line(out, String::new(), DetailStyle::Plain);
    }
    assert(styled_views(out@) =~= head + authors_part(av));
}

fn push_deps(out: &mut Vec<(String, DetailStyle)>, deps: &Vec<crate::crates_io::DepInfo>)
    ensures
        styled_views(final(out)@) == styled_views(old(out)@) + deps_part(
            deps@.map_values(|x: crate::crates_io::DepInfo| (x.name@, x.req@)),
        ),
{
    let ghost head = styled_views(out@);
    let ghost dv = deps@.map_values(|x: crate::crates_io::DepInfo| (x.name@, x.req@));
    if deps.len() > 0 {
        push_line(out, string_of("## dependencies"), DetailStyle::Muted);
        let ghost start = styled_views(out@);
        let mut i: usize = 0;
        while i < deps.len()
            invariant
                0 <= i <= deps@.len(),
                dv == deps@.map_values(|x: crate::crates_io::DepInfo| (x.name@, x.req@)),
                styled_views(out@) == start + dv.take(i as int).map_values(
                    |x: (Seq<char>, Seq<char>)| ("  "@ + padded(x.0, 20) + " "@ + x.1, DetailStyle::Plain),
                ),
            decreases deps.len() - i,
        {
            let mut line = string_of("  ");
            let name = pad_right(deps[i].name.as_str(), 20);
            push_str(&mut line, name.as_str());
            push_str(&mut line, " ");
            push_str(&mut line, deps[i].req.as_str());
            push_line(out, line, DetailStyle::Plain);
            assert(dv.take(i + 1) =~= dv.take(i as int).push(dv[i as int]));
            i += 1;
        }
        assert(dv.take(dv.len() as int) =~= dv);
        push_line(out, String::new(), DetailStyle::Plain);
    }
    assert(styled_views(out@) =~= head + deps_part(dv));
}

/// The lines of a crate's detail panel, with their styles.
pub fn detail_lines(d: &CrateDetail, width: u16) -> (res: Vec<(String, DetailStyle)>)
    ensures
        styled_views(res@) == detail_text(*d, width),
{
    let mut out: Vec<(String, DetailStyle)> = Vec::new();
    assert(styled_views(out@) =~= Seq::empty());
    push_line(&mut out, crate::text::concat("# ", d.name.as_str()), DetailStyle::Header);
    push_line(&mut out, crate::text::concat("  v", d.version.as_str()), DetailStyle::Muted);
    push_line(&mut out, String::new(), DetailStyle::Plain);
    push_description(&mut out, &d.description, width);
    push_authors(&mut out, &d.authors);
    push_deps(&mut out, &d.deps);
    if d.repository.as_str().is_empty() == false {
        push_line(&mut out, d.repository.clone(), DetailStyle::Muted);
    }
    assert(styled_views(out@) =~= detail_text(*d, width));
    out
}

/// A line of the search list: the selection marker, then name padded to 28
/// characters, version padded to 14, and the download count after an arrow.
pub open spec fn search_line_text(name: Seq<char>, version: Seq<char>, downloads: Seq<char>) -> Seq<char> {
    padded(name, 28) + " "@ + padded(version, 14) + " ↓"@ + downloads
}

/// The text of a search hit's line (without the selection marker).
pub fn search_line(name: &str, version: &str, downloads: &str) -> (res: String)
    ensures
        res@ == search_line_text(name@, version@, downloads@),
{
    let mut s = pad_right(name, 28);
    push_str(&mut s, " ");
    let v = pad_right(version, 14);
    push_str(&mut s, v.as_str());
    push_str(&mut s, " ↓");
    push_str(&mut s, downloads);
    s
}

} // verus!
