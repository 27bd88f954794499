//! The screen: one slot per source line, filled from the document tree, and
//! the projection of the cursor onto the rows the slots take up.
use vstd::prelude::*;

use crate::latex::render_latex;
use crate::text::{owned, push_char, push_text, repeat_char};
use crate::editor::Cursor;
use crate::tree::{
    inline_text, inlines_text, List, ListItem, Node, Position, EM, END_EM, END_STRIKE,
    END_STRONG, STRIKE, STRONG,
};
use vstd::string::StrSliceExecFns;

verus! {

/// Switches a terminal line to the top half of double-height text.
pub const DOUBLE_TOP: &'static str = "\x1b#3";

/// Switches a terminal line to the bottom half of double-height text.
pub const DOUBLE_BOTTOM: &'static str = "\x1b#4";

/// Grey foreground.
pub const GREY: &'static str = "\x1b[90m";

/// White foreground.
pub const WHITE: &'static str = "\x1b[37m";

/// The bullet glyph of an unordered list item.
pub const BULLET: &'static str = "\u{f444}";

/// One screen slot: its text and how many terminal rows it takes.
#[derive(Debug)]
pub struct Line {
    pub inner: String,
    pub size: usize,
}

/// What a slot holds.
pub struct Slot {
    pub text: Seq<char>,
    pub height: nat,
}

impl View for Line {
    type V = Slot;

    open spec fn view(&self) -> Slot {
        Slot { text: self.inner@, height: self.size as nat }
    }
}

impl Line {
    /// An empty slot, one row high.
    pub fn new() -> (r: Line)
        ensures
            r@ == blank_slot(),
    {
        Line { inner: String::new(), size: 1 }
    }

    /// A slot of one row holding `s`.
    pub fn from(s: String) -> (r: Line)
        ensures
            r@ == text_slot(s@),
    {
        Line { inner: s, size: 1 }
    }

    /// A slot of two rows holding `s`.
    pub fn double(s: String) -> (r: Line)
        ensures
            r@ == (Slot { text: s@, height: 2 }),
    {
        Line { inner: s, size: 2 }
    }
}

/// An empty slot one row high.
pub open spec fn blank_slot() -> Slot {
    Slot { text: Seq::empty(), height: 1 }
}

/// A slot one row high holding `t`.
pub open spec fn text_slot(t: Seq<char>) -> Slot {
    Slot { text: t, height: 1 }
}

/// What each of a sequence of slots holds.
pub open spec fn slots_of(v: Seq<Line>) -> Seq<Slot> {
    v.map_values(|l: Line| l@)
}

/// The slots, grown with blank ones to at least `n + 1`.
pub open spec fn grown(s: Seq<Slot>, n: nat) -> Seq<Slot> {
    if s.len() > n {
        s
    } else {
        s + Seq::new((n + 1 - s.len()) as nat, |_i: int| blank_slot())
    }
}

/// The slots with slot `i` set, grown first where needed.
pub open spec fn put(s: Seq<Slot>, i: nat, slot: Slot) -> Seq<Slot> {
    grown(s, i).update(i as int, slot)
}

/// The slot index of a 1-based source line (line 0 is taken as line 1).
pub open spec fn line_index(line: usize) -> nat {
    if line == 0 {
        0
    } else {
        (line - 1) as nat
    }
}

/// `lines[j]` written to slot `first + j`, for those `j` with `first + j <= last`:
/// lines past the end of a block's span are dropped.
pub open spec fn put_lines(s: Seq<Slot>, first: nat, last: nat, lines: Seq<Seq<char>>) -> Seq<
    Slot,
>
    decreases lines.len(),
{
    if lines.len() == 0 {
        s
    } else {
        let j = (lines.len() - 1) as nat;
        let s1 = put_lines(s, first, last, lines.drop_last());
        if first + j <= last {
            put(s1, first + j, text_slot(lines.last()))
        } else {
            s1
        }
    }
}

/// The text split at each `'\n'`; there is always at least one piece.
pub open spec fn pieces(t: Seq<char>) -> Seq<Seq<char>>
    decreases t.len(),
{
    if t.len() == 0 {
        seq![Seq::empty()]
    } else {
        let p = pieces(t.drop_last());
        if t.last() == '\n' {
            p.push(Seq::empty())
        } else {
            p.update(p.len() - 1, p.last().push(t.last()))
        }
    }
}

/// `p` without a final `'\r'`.
pub open spec fn strip_cr(p: Seq<char>) -> Seq<char> {
    if p.len() > 0 && p.last() == '\r' {
        p.drop_last()
    } else {
        p
    }
}

/// The lines of a text as `str::lines` gives them: split at `'\n'`, a `'\r'`
/// before the `'\n'` dropped, and no empty line after a final `'\n'`.
pub open spec fn text_lines(t: Seq<char>) -> Seq<Seq<char>> {
    let p = pieces(t);
    let n = p.len();
    let kept = if p[n - 1].len() == 0 {
        n - 1
    } else {
        n as int
    };
    Seq::new(kept as nat, |i: int| if i < n - 1 { strip_cr(p[i]) } else { p[i] })
}

/// The two rows of a heading: the same text as the top and the bottom half
/// of double-height letters.
pub open spec fn double_rows(t: Seq<char>) -> Seq<char> {
    DOUBLE_TOP@ + t + "\r\n"@ + DOUBLE_BOTTOM@ + t
}

/// A horizontal rule for a screen `width` columns wide.
pub open spec fn rule_text(width: nat) -> Seq<char> {
    let n: nat = if width >= 2 {
        (width - 2) as nat
    } else {
        0
    };
    seq![' '] + Seq::new(n, |_i: int| '─') + seq![' ']
}

/// The decimal digit `d`.
pub open spec fn digit(d: nat) -> char {
    if d == 0 {
        '0'
    } else if d == 1 {
        '1'
    } else if d == 2 {
        '2'
    } else if d == 3 {
        '3'
    } else if d == 4 {
        '4'
    } else if d == 5 {
        '5'
    } else if d == 6 {
        '6'
    } else if d == 7 {
        '7'
    } else if d == 8 {
        '8'
    } else {
        '9'
    }
}

/// `n` written in decimal.
pub open spec fn decimal(n: nat) -> Seq<char>
    decreases n,
{
    if n < 10 {
        seq![digit(n)]
    } else {
        decimal(n / 10).push(digit(n % 10))
    }
}

/// The marker of the `n`-th item of a list (counted from 1): `n.` in an
/// ordered list, a grey bullet otherwise.
pub open spec fn marker_text(ordered: bool, n: nat) -> Seq<char> {
    if ordered {
        decimal(n) + "."@
    } else {
        GREY@ + BULLET@ + WHITE@
    }
}

/// A paragraph: its rendered lines from its first source line on.
pub open spec fn para_layout(s: Seq<Slot>, p: Position, text: Seq<char>) -> Seq<Slot> {
    put_lines(grown(s, line_index(p.end)), line_index(p.start), line_index(p.end), text_lines(text))
}

/// A heading: one double-height slot at its first line.
pub open spec fn heading_layout(s: Seq<Slot>, p: Position, text: Seq<char>) -> Seq<Slot> {
    put(grown(s, line_index(p.end)), line_index(p.start), Slot { text: double_rows(text), height: 2 })
}

/// A thematic break: a rule at its first line.
pub open spec fn break_layout(s: Seq<Slot>, p: Position, width: nat) -> Seq<Slot> {
    put(grown(s, line_index(p.end)), line_index(p.start), text_slot(rule_text(width)))
}

/// A list item: the marker, a space and the item's text, from its first line on.
pub open spec fn item_layout(s: Seq<Slot>, item: ListItem, marker: Seq<char>) -> Seq<Slot> {
    let p = item.position;
    put_lines(
        grown(s, line_index(p.end)),
        line_index(p.start),
        line_index(p.end),
        text_lines(marker + seq![' '] + inlines_text(item.children@)),
    )
}

/// The items of a list, in order, the `n`-th with its marker.
pub open spec fn items_layout(s: Seq<Slot>, items: Seq<ListItem>, ordered: bool) -> Seq<Slot>
    decreases items.len(),
{
    if items.len() == 0 {
        s
    } else {
        item_layout(
            items_layout(s, items.drop_last(), ordered),
            items.last(),
            marker_text(ordered, items.len()),
        )
    }
}

/// Every block of a sequence laid out in turn.
pub open spec fn layout_nodes(s: Seq<Slot>, ns: Seq<Node>, width: nat) -> Seq<Slot>
    decreases ns,
{
    if ns.len() == 0 {
        s
    } else {
        layout_node(layout_nodes(s, ns.drop_last(), width), ns.last(), width)
    }
}

/// The slots after laying out one block on them.
pub open spec fn layout_node(s: Seq<Slot>, node: Node, width: nat) -> Seq<Slot>
    decreases node,
{
    match node {
        Node::Root(c) => layout_nodes(s, c@, width),
        Node::Paragraph(c, p) => para_layout(s, p, inlines_text(c@)),
        Node::Heading(c, p) => heading_layout(s, p, inlines_text(c@)),
        Node::List(l) => items_layout(s, l.children@, l.ordered),
        Node::Table(t) => crate::table::table_layout(s, t),
        Node::ThematicBreak(p) => break_layout(s, p, width),
        _ => s,
    }
}

/// The screen being drawn: the slots and the width a rule spans.
pub struct Drawer {
    screen: Vec<Line>,
    max_width: usize,
}

/// The decimal digit `d` (below 10).
fn digit_char(d: usize) -> (r: char)
    requires
        d < 10,
    ensures
        r == digit(d as nat),
{
    if d == 0 {
        '0'
    } else if d == 1 {
        '1'
    } else if d == 2 {
        '2'
    } else if d == 3 {
        '3'
    } else if d == 4 {
        '4'
    } else if d == 5 {
        '5'
    } else if d == 6 {
        '6'
    } else if d == 7 {
        '7'
    } else if d == 8 {
        '8'
    } else {
        '9'
    }
}

/// Appends `n` in decimal.
fn push_decimal(s: &mut String, n: usize)
    ensures
        final(s)@ == old(s)@ + decimal(n as nat),
    decreases n,
{
    if n >= 10 {
        push_decimal(s, n / 10);
    }
    push_char(s, digit_char(n % 10));
    proof {
        if n >= 10 {
            assert(decimal(n as nat) == decimal((n / 10) as nat).push(digit((n % 10) as nat)));
        } else {
            assert(decimal(n as nat) == seq![digit(n as nat)]);
        }
    }
}

/// The lines of a text as `str::lines` gives them (see `text_lines`).
pub fn split_lines(t: &str) -> (r: Vec<String>)
    ensures
        r@.map_values(|s: String| s@) == text_lines(t@),
{
    let n = t.unicode_len();
    let mut done: Vec<String> = Vec::new();
    let mut cur = String::new();
    let mut i: usize = 0;
    while i < n
        invariant
            n == t@.len(),
            i <= n,
            done@.len() + 1 == pieces(t@.subrange(0, i as int)).len(),
            forall|k: int|
                0 <= k < done@.len() ==> #[trigger] done@[k]@ == strip_cr(
                    pieces(t@.subrange(0, i as int))[k],
                ),
            cur@ == pieces(t@.subrange(0, i as int)).last(),
        decreases n - i,
    {
        let c = t.get_char(i);
        let ghost before = t@.subrange(0, i as int);
        assert(t@.subrange(0, i + 1).drop_last() == before);
        if c == '\n' {
            let piece = strip_last_cr(&cur);
            done.push(piece);
            cur = String::new();
        } else {
            push_char(&mut cur, c);
        }
        i += 1;
    }
    assert(t@.subrange(0, n as int) == t@);
    if cur.as_str().unicode_len() > 0 {
        done.push(cur);
    }
    assert(done@.map_values(|s: String| s@) =~= text_lines(t@));
    done
}

/// `s` without a final `'\r'`.
fn strip_last_cr(s: &String) -> (r: String)
    ensures
        r@ == strip_cr(s@),
{
    let n = s.as_str().unicode_len();
    if n > 0 && s.as_str().get_char(n - 1) == '\r' {
        owned(s.as_str().substring_char(0, n - 1))
    } else {
        owned(s.as_str())
    }
}

impl Drawer {
    /// The slots as they stand.
    pub closed spec fn slots(&self) -> Seq<Slot> {
        slots_of(self.screen@)
    }

    /// The width a rule spans.
    pub closed spec fn width(&self) -> nat {
        self.max_width as nat
    }

    /// The slots as they stand.
    pub fn screen(&self) -> (r: &Vec<Line>)
        ensures
            slots_of(r@) == self.slots(),
    {
        &self.screen
    }

    /// No slots yet, and rules ten columns wide.
    pub fn new() -> (r: Drawer)
        ensures
            r.slots() == Seq::<Slot>::empty(),
            r.width() == 10,
    {
        let r = Drawer { screen: Vec::new(), max_width: 10 };
        assert(r.slots() =~= Seq::<Slot>::empty());
        r
    }

    /// Takes the terminal's new size: rules span its columns.
    pub fn resize(&mut self, rows: usize, cols: usize)
        ensures
            final(self).slots() == old(self).slots(),
            final(self).width() == cols,
    {
        self.max_width = cols;
    }

    /// Grows the slots with blank ones to at least `lines + 1`; never removes any.
    pub fn ensure_scr_lines(&mut self, lines: usize)
        requires
            lines < usize::MAX,
        ensures
            final(self).slots() == grown(old(self).slots(), lines as nat),
            final(self).width() == old(self).width(),
    {
        let ghost s0 = self.slots();
        if self.screen.len() > lines {
            return;
        }
        while self.screen.len() <= lines
            invariant
                lines < usize::MAX,
                s0.len() <= lines,
                self.width() == old(self).width(),
                self.slots().len() <= lines + 1,
                self.slots() == s0 + Seq::new(
                    (self.slots().len() - s0.len()) as nat,
                    |_i: int| blank_slot(),
                ),
            decreases lines + 1 - self.screen.len(),
        {
            let ghost before = self.slots();
            self.screen.push(Line::new());
            assert(self.slots() =~= before.push(blank_slot()));
            assert(self.slots() =~= s0 + Seq::new(
                (self.slots().len() - s0.len()) as nat,
                |_i: int| blank_slot(),
            ));
        }
    }

    /// Sets slot `i`, which exists.
    pub(crate) fn set_slot(&mut self, i: usize, line: Line)
        requires
            i < old(self).slots().len(),
        ensures
            final(self).slots() == old(self).slots().update(i as int, line@),
            final(self).width() == old(self).width(),
    {
        self.screen.set(i, line);
        assert(self.slots() =~= old(self).slots().update(i as int, line@));
    }

    /// Writes `lines` from slot `first` on, dropping those past slot `last`.
    fn put_lines(&mut self, first: usize, last: usize, lines: &Vec<String>)
        requires
            last < old(self).slots().len(),
        ensures
            final(self).slots() == put_lines(
                old(self).slots(),
                first as nat,
                last as nat,
                lines@.map_values(|s: String| s@),
            ),
            final(self).width() == old(self).width(),
    {
        let ghost s0 = self.slots();
        let ghost texts = lines@.map_values(|s: String| s@);
        let mut j: usize = 0;
        while j < lines.len()
            invariant
                j <= lines@.len(),
                last < s0.len(),
                texts == lines@.map_values(|s: String| s@),
                self.width() == old(self).width(),
                self.slots() == put_lines(s0, first as nat, last as nat, texts.subrange(0, j as int)),
                self.slots().len() == s0.len(),
            decreases lines@.len() - j,
        {
            let ghost sub = texts.subrange(0, j + 1);
            assert(sub.drop_last() == texts.subrange(0, j as int));
            if first <= last && j <= last - first {
                let t = lines[j].clone();
                self.set_slot(first + j, Line::from(t));
            }
            j += 1;
        }
        assert(texts.subrange(0, lines@.len() as int) == texts);
    }

    /// The 0-based slot of a 1-based line.
    pub(crate) fn slot_of(line: usize) -> (r: usize)
        ensures
            r as nat == line_index(line),
    {
        if line == 0 {
            0
        } else {
            line - 1
        }
    }

    /// The text of a sequence of inline nodes (see `inlines_text`).
    pub fn render_children(&self, nodes: &Vec<Node>) -> (r: String)
        ensures
            r@ == inlines_text(nodes@),
        decreases nodes, 0nat,
    {
        let mut out = String::new();
        let mut i: usize = 0;
        while i < nodes.len()
            invariant
                i <= nodes@.len(),
                out@ == inlines_text(nodes@.subrange(0, i as int)),
            decreases nodes@.len() - i,
        {
            assert(decreases_to!(nodes => nodes@[i as int]));
            let t = self.render_child(&nodes[i]);
            push_text(&mut out, t.as_str());
            proof {
                let s = nodes@.subrange(0, i + 1);
                assert(s.drop_last() == nodes@.subrange(0, i as int));
            }
            i += 1;
        }
        assert(nodes@.subrange(0, nodes@.len() as int) == nodes@);
        out
    }

    /// `open`, the text of `nodes`, then `close`.
    fn styled(&self, open: &str, nodes: &Vec<Node>, close: &str) -> (r: String)
        ensures
            r@ == open@ + inlines_text(nodes@) + close@,
        decreases nodes, 1nat,
    {
        let mut out = owned(open);
        let inner = self.render_children(nodes);
        push_text(&mut out, inner.as_str());
        push_text(&mut out, close);
        out
    }

    /// The text of one inline node (see `inline_text`).
    pub fn render_child(&self, child: &Node) -> (r: String)
        ensures
            r@ == inline_text(*child),
        decreases child, 2nat,
    {
        match child {
            Node::Text(s) => owned(s.as_str()),
            Node::Emphasis(c) => self.styled(EM, c, END_EM),
            Node::Strong(c) => self.styled(STRONG, c, END_STRONG),
            Node::Delete(c) => self.styled(STRIKE, c, END_STRIKE),
            Node::InlineMath(m) => render_latex(m),
            Node::Math(m) => render_latex(m),
            Node::Root(c) => self.render_children(c),
            Node::Paragraph(c, _) => self.render_children(c),
            Node::Heading(c, _) => self.render_children(c),
            _ => String::new(),
        }
    }

    /// Lays out a paragraph (see `para_layout`).
    pub fn render_para(&mut self, children: &Vec<Node>, position: Position)
        ensures
            final(self).slots() == para_layout(old(self).slots(), position, inlines_text(children@)),
            final(self).width() == old(self).width(),
    {
        let first = Self::slot_of(position.start);
        let last = Self::slot_of(position.end);
        self.ensure_scr_lines(last);
        let text = self.render_children(children);
        let lines = split_lines(text.as_str());
        self.put_lines(first, last, &lines);
    }

    /// Lays out a heading (see `heading_layout`).
    pub fn render_header(&mut self, children: &Vec<Node>, position: Position)
        ensures
            final(self).slots() == heading_layout(old(self).slots(), position, inlines_text(children@)),
            final(self).width() == old(self).width(),
    {
        let first = Self::slot_of(position.start);
        let last = Self::slot_of(position.end);
        self.ensure_scr_lines(last);
        self.ensure_scr_lines(first);
        let inner = self.render_children(children);
        let mut t = owned(DOUBLE_TOP);
        push_text(&mut t, inner.as_str());
        push_text(&mut t, "\r\n");
        push_text(&mut t, DOUBLE_BOTTOM);
        push_text(&mut t, inner.as_str());
        self.set_slot(first, Line::double(t));
    }

    /// Lays out a thematic break (see `break_layout`).
    pub fn render_break(&mut self, position: Position)
        ensures
            final(self).slots() == break_layout(old(self).slots(), position, old(self).width()),
            final(self).width() == old(self).width(),
    {
        let first = Self::slot_of(position.start);
        let last = Self::slot_of(position.end);
        self.ensure_scr_lines(last);
        self.ensure_scr_lines(first);
        let n: usize = if self.max_width >= 2 {
            self.max_width - 2
        } else {
            0
        };
        let mut t = owned(" ");
        let dashes = repeat_char('─', n);
        push_text(&mut t, dashes.as_str());
        push_char(&mut t, ' ');
        proof {
            reveal_strlit(" ");
        }
        assert(t@ =~= rule_text(self.width()));
        self.set_slot(first, Line::from(t));
    }

    /// Lays out one list item with its marker (see `item_layout`).
    pub fn render_list_item(&mut self, item: &ListItem, marker: &str)
        ensures
            final(self).slots() == item_layout(old(self).slots(), *item, marker@),
            final(self).width() == old(self).width(),
    {
        let first = Self::slot_of(item.position.start);
        let last = Self::slot_of(item.position.end);
        self.ensure_scr_lines(last);
        let mut t = owned(marker);
        push_char(&mut t, ' ');
        let inner = self.render_children(&item.children);
        push_text(&mut t, inner.as_str());
        assert(t@ =~= marker@ + seq![' '] + inlines_text(item.children@));
        let lines = split_lines(t.as_str());
        self.put_lines(first, last, &lines);
    }

    /// Lays out a list: each item with `n.` in an ordered list, a bullet otherwise.
    pub fn render_list(&mut self, list: &List)
        ensures
            final(self).slots() == items_layout(old(self).slots(), list.children@, list.ordered),
            final(self).width() == old(self).width(),
    {
        let ghost s0 = self.slots();
        let items = &list.children;
        let mut i: usize = 0;
        while i < items.len()
            invariant
                i <= items@.len(),
                self.width() == old(self).width(),
                self.slots() == items_layout(s0, items@.subrange(0, i as int), list.ordered),
            decreases items@.len() - i,
        {
            let marker = if list.ordered {
                let mut m = String::new();
                push_decimal(&mut m, i + 1);
                push_text(&mut m, ".");
                m
            } else {
                let mut m = owned(GREY);
                push_text(&mut m, BULLET);
                push_text(&mut m, WHITE);
                m
            };
            self.render_list_item(&items[i], marker.as_str());
            proof {
                let s = items@.subrange(0, i + 1);
                assert(s.drop_last() == items@.subrange(0, i as int));
            }
            i += 1;
        }
        assert(items@.subrange(0, items@.len() as int) == items@);
    }
}


/// What a render pass hands to the terminal: a text for each slot, and the
/// row and column where the cursor is drawn.
pub struct Frame {
    pub lines: Vec<String>,
    pub cursor_row: usize,
    pub cursor_col: usize,
}

/// A render pass: the slots it leaves, the texts shown, and the cursor's
/// row and column on the terminal.
pub struct FrameView {
    pub slots: Seq<Slot>,
    pub lines: Seq<Seq<char>>,
    pub cursor_row: nat,
    pub cursor_col: nat,
}

/// The terminal rows taken by the first `n` slots.
pub open spec fn rows_before(s: Seq<Slot>, n: nat) -> nat
    decreases n,
{
    if n == 0 || n > s.len() {
        0
    } else {
        rows_before(s, (n - 1) as nat) + s[n - 1].height
    }
}

/// The text shown for each slot: the source line itself on the cursor's line,
/// the slot's rendered text elsewhere.
pub open spec fn shown_lines(s: Seq<Slot>, file: Seq<Seq<char>>, line: nat) -> Seq<Seq<char>> {
    Seq::new(s.len(), |i: int| if i == line { file[i] } else { s[i].text })
}

/// The slots after a pass: the tree laid out on an empty screen, then grown
/// to one slot per source line.
pub open spec fn pass_slots(tree: Node, file: Seq<Seq<char>>, width: nat) -> Seq<Slot> {
    let s = layout_node(Seq::empty(), tree, width);
    if file.len() == 0 {
        s
    } else {
        grown(s, (file.len() - 1) as nat)
    }
}

/// A render pass over slots `before`: the slots are rebuilt from the tree,
/// and the cursor is drawn below all the rows of the slots above its line.
pub open spec fn render_pass(
    before: Seq<Slot>,
    tree: Node,
    file: Seq<Seq<char>>,
    cursor: Cursor,
    width: nat,
) -> FrameView {
    let s = pass_slots(tree, file, width);
    FrameView {
        slots: s,
        lines: shown_lines(s, file, cursor.line as nat),
        cursor_row: rows_before(s, cursor.line as nat),
        cursor_col: cursor.col as nat,
    }
}

/// A slot one row high, or a heading's two rows.
pub open spec fn height_ok(slot: Slot) -> bool {
    slot.height == 1 || (slot.height == 2 && exists|t: Seq<char>| slot.text == double_rows(t))
}

/// Every slot is one row high or a heading's two rows.
pub open spec fn heights_ok(s: Seq<Slot>) -> bool {
    forall|i: int| 0 <= i < s.len() ==> #[trigger] height_ok(s[i])
}

pub(crate) proof fn lemma_grown_heights(s: Seq<Slot>, n: nat)
    requires
        heights_ok(s),
    ensures
        heights_ok(grown(s, n)),
{
    let g = grown(s, n);
    assert forall|i: int| 0 <= i < g.len() implies #[trigger] height_ok(g[i]) by {
        if i < s.len() {
            assert(g[i] == s[i]);
        }
    }
}

pub(crate) proof fn lemma_put_heights(s: Seq<Slot>, i: nat, slot: Slot)
    requires
        heights_ok(s),
        height_ok(slot),
    ensures
        heights_ok(put(s, i, slot)),
{
    lemma_grown_heights(s, i);
    let g = put(s, i, slot);
    assert forall|k: int| 0 <= k < g.len() implies #[trigger] height_ok(g[k]) by {
        if k != i {
            assert(g[k] == grown(s, i)[k]);
        }
    }
}

proof fn lemma_put_lines_heights(s: Seq<Slot>, first: nat, last: nat, lines: Seq<Seq<char>>)
    requires
        heights_ok(s),
    ensures
        heights_ok(put_lines(s, first, last, lines)),
    decreases lines.len(),
{
    if lines.len() > 0 {
        lemma_put_lines_heights(s, first, last, lines.drop_last());
        let s1 = put_lines(s, first, last, lines.drop_last());
        lemma_put_heights(s1, (first + lines.len() - 1) as nat, text_slot(lines.last()));
    }
}

proof fn lemma_items_heights(s: Seq<Slot>, items: Seq<ListItem>, ordered: bool)
    requires
        heights_ok(s),
    ensures
        heights_ok(items_layout(s, items, ordered)),
    decreases items.len(),
{
    if items.len() > 0 {
        lemma_items_heights(s, items.drop_last(), ordered);
        let s1 = items_layout(s, items.drop_last(), ordered);
        let p = items.last().position;
        lemma_grown_heights(s1, line_index(p.end));
        lemma_put_lines_heights(
            grown(s1, line_index(p.end)),
            line_index(p.start),
            line_index(p.end),
            text_lines(marker_text(ordered, items.len()) + seq![' '] + inlines_text(
                items.last().children@,
            )),
        );
    }
}

proof fn lemma_node_heights(s: Seq<Slot>, node: Node, width: nat)
    requires
        heights_ok(s),
    ensures
        heights_ok(layout_node(s, node, width)),
    decreases node,
{
    match node {
        Node::Root(c) => {
            lemma_nodes_heights(s, c@, width);
        },
        Node::Paragraph(c, p) => {
            lemma_grown_heights(s, line_index(p.end));
            lemma_put_lines_heights(
                grown(s, line_index(p.end)),
                line_index(p.start),
                line_index(p.end),
                text_lines(inlines_text(c@)),
            );
        },
        Node::Heading(c, p) => {
            lemma_grown_heights(s, line_index(p.end));
            let slot = Slot { text: double_rows(inlines_text(c@)), height: 2 };
            assert(slot.text == double_rows(inlines_text(c@)));
            lemma_put_heights(grown(s, line_index(p.end)), line_index(p.start), slot);
        },
        Node::List(l) => {
            lemma_items_heights(s, l.children@, l.ordered);
        },
        Node::Table(t) => {
            crate::table::lemma_table_heights(s, t);
        },
        Node::ThematicBreak(p) => {
            lemma_grown_heights(s, line_index(p.end));
            lemma_put_heights(
                grown(s, line_index(p.end)),
                line_index(p.start),
                text_slot(rule_text(width)),
            );
        },
        _ => {},
    }
}

proof fn lemma_nodes_heights(s: Seq<Slot>, ns: Seq<Node>, width: nat)
    requires
        heights_ok(s),
    ensures
        heights_ok(layout_nodes(s, ns, width)),
    decreases ns,
{
    if ns.len() > 0 {
        lemma_nodes_heights(s, ns.drop_last(), width);
        lemma_node_heights(layout_nodes(s, ns.drop_last(), width), ns.last(), width);
    }
}

/// After a render pass every slot is one row high, except heading slots,
/// which are two rows high and hold the heading's text twice, as the top and
/// bottom half of double-height letters.
pub proof fn lemma_slot_heights(
    before: Seq<Slot>,
    tree: Node,
    file: Seq<Seq<char>>,
    cursor: Cursor,
    width: nat,
)
    ensures
        heights_ok(render_pass(before, tree, file, cursor, width).slots),
{
    let e = Seq::<Slot>::empty();
    assert(heights_ok(e));
    lemma_node_heights(e, tree, width);
    if file.len() > 0 {
        lemma_grown_heights(layout_node(e, tree, width), (file.len() - 1) as nat);
    }
}

/// A render pass gives the same slots and the same cursor position whatever
/// the screen held before: run twice on the same tree, text and cursor, the
/// second pass repeats the first.
pub proof fn lemma_layout_repeatable(
    before: Seq<Slot>,
    tree: Node,
    file: Seq<Seq<char>>,
    cursor: Cursor,
    width: nat,
)
    ensures
        render_pass(render_pass(before, tree, file, cursor, width).slots, tree, file, cursor, width)
            == render_pass(before, tree, file, cursor, width),
{
}

proof fn lemma_rows_before_bound(s: Seq<Slot>, n: nat)
    requires
        heights_ok(s),
        n <= s.len(),
    ensures
        rows_before(s, n) <= 2 * n,
    decreases n,
{
    if n > 0 {
        lemma_rows_before_bound(s, (n - 1) as nat);
        assert(height_ok(s[n - 1]));
    }
}

impl Drawer {
    /// Lays out each block of `nodes` in turn (see `layout_nodes`).
    pub fn render_nodes(&mut self, nodes: &Vec<Node>)
        ensures
            final(self).slots() == layout_nodes(old(self).slots(), nodes@, old(self).width()),
            final(self).width() == old(self).width(),
        decreases nodes, 0nat,
    {
        let ghost s0 = self.slots();
        let mut i: usize = 0;
        while i < nodes.len()
            invariant
                i <= nodes@.len(),
                self.width() == old(self).width(),
                self.slots() == layout_nodes(s0, nodes@.subrange(0, i as int), self.width()),
            decreases nodes@.len() - i,
        {
            assert(decreases_to!(nodes => nodes@[i as int]));
            self.render_node(&nodes[i]);
            proof {
                let sub = nodes@.subrange(0, i + 1);
                assert(sub.drop_last() == nodes@.subrange(0, i as int));
            }
            i += 1;
        }
        assert(nodes@.subrange(0, nodes@.len() as int) == nodes@);
    }

    /// Lays out one block (see `layout_node`).
    pub fn render_node(&mut self, node: &Node)
        ensures
            final(self).slots() == layout_node(old(self).slots(), *node, old(self).width()),
            final(self).width() == old(self).width(),
        decreases node, 1nat,
    {
        match node {
            Node::Root(c) => self.render_nodes(c),
            Node::Paragraph(c, p) => self.render_para(c, *p),
            Node::Heading(c, p) => self.render_header(c, *p),
            Node::List(l) => self.render_list(l),
            Node::Table(t) => self.render_table(t),
            Node::ThematicBreak(p) => self.render_break(*p),
            _ => {},
        }
    }

    /// One render pass (see `render_pass`): the slots are rebuilt from `tree`
    /// and grown to one per line of `file`; each slot's text is shown but on
    /// the cursor's line, which shows the source line as typed; the cursor
    /// goes below the rows of all slots above its line, in its own column.
    pub fn render_md(&mut self, tree: &Node, file: &Vec<String>, cursor: Cursor) -> (r: Frame)
        requires
            cursor.line < file@.len(),
            cursor.line <= usize::MAX / 2,
        ensures
            (FrameView {
                slots: final(self).slots(),
                lines: r.lines@.map_values(|s: String| s@),
                cursor_row: r.cursor_row as nat,
                cursor_col: r.cursor_col as nat,
            }) == render_pass(
                old(self).slots(),
                *tree,
                file@.map_values(|s: String| s@),
                cursor,
                old(self).width(),
            ),
            final(self).slots().len() >= file@.len(),
            final(self).width() == old(self).width(),
    {
        let ghost fl = file@.map_values(|s: String| s@);
        self.screen = Vec::new();
        assert(self.slots() =~= Seq::<Slot>::empty());
        self.render_node(tree);
        self.ensure_scr_lines(file.len() - 1);
        let ghost s = self.slots();
        assert(s == pass_slots(*tree, fl, self.width()));
        proof {
            lemma_slot_heights(s, *tree, fl, cursor, self.width());
        }
        let mut lines: Vec<String> = Vec::new();
        let mut row: usize = 0;
        let mut i: usize = 0;
        while i < self.screen.len()
            invariant
                s == self.slots(),
                heights_ok(s),
                cursor.line < fl.len(),
                fl.len() <= s.len(),
                fl == file@.map_values(|s: String| s@),
                cursor.line <= usize::MAX / 2,
                i <= s.len(),
                lines@.map_values(|s: String| s@) == shown_lines(s, fl, cursor.line as nat).subrange(
                    0,
                    i as int,
                ),
                row as nat == rows_before(s, if i <= cursor.line { i as nat } else { cursor.line as nat }),
            decreases s.len() - i,
        {
            let ghost lv = lines@;
            if i == cursor.line {
                let t = file[i].clone();
                lines.push(t);
            } else {
                let t = self.screen[i].inner.clone();
                lines.push(t);
                if i < cursor.line {
                    proof {
                        lemma_rows_before_bound(s, (i + 1) as nat);
                        assert(height_ok(s[i as int]));
                    }
                    row = row + self.screen[i].size;
                }
            }
            assert(lines@.map_values(|s: String| s@) =~= lv.map_values(|s: String| s@).push(
                lines@[i as int]@,
            ));
            assert(lines@.map_values(|s: String| s@) =~= shown_lines(s, fl, cursor.line as nat).subrange(
                0,
                i + 1,
            ));
            i += 1;
        }
        assert(shown_lines(s, fl, cursor.line as nat).subrange(0, s.len() as int) =~= shown_lines(
            s,
            fl,
            cursor.line as nat,
        ));
        Frame { lines, cursor_row: row, cursor_col: cursor.col }
    }
}

} // verus!
