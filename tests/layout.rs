use md_editor::editor::Cursor;
use md_editor::latex::{Math, TexNode};
use md_editor::render::{split_lines, Drawer, Frame, Line};
use md_editor::tree::{List, ListItem, Node, Position, Table, TableCell, TableRow};

fn pos(start: usize, end: usize) -> Position {
    Position { start, end }
}

fn text(s: &str) -> Node {
    Node::Text(s.to_string())
}

fn para(children: Vec<Node>, start: usize, end: usize) -> Node {
    Node::Paragraph(children, pos(start, end))
}

fn file(lines: &[&str]) -> Vec<String> {
    lines.iter().map(|l| l.to_string()).collect()
}

fn cursor(line: usize, col: usize) -> Cursor {
    Cursor { line, col, max_col: 0 }
}

fn item(s: &str, line: usize) -> ListItem {
    ListItem { children: vec![para(vec![text(s)], line, line)], position: pos(line, line) }
}

fn row(cells: &[&str], line: usize) -> TableRow {
    TableRow {
        children: cells.iter().map(|c| TableCell { children: vec![text(c)] }).collect(),
        position: pos(line, line),
    }
}

fn render(tree: &Node, lines: &[&str], cur: Cursor) -> (Frame, Drawer) {
    let mut d = Drawer::new();
    let f = d.render_md(tree, &file(lines), cur);
    (f, d)
}

fn slot_texts(d: &Drawer) -> Vec<String> {
    d.screen().iter().map(|l: &Line| l.inner.clone()).collect()
}

#[test]
fn heading_blank_and_cursor_line() {
    let tree = Node::Root(vec![
        Node::Heading(vec![text("Title")], pos(1, 1)),
        para(vec![text("Hello "), Node::Emphasis(vec![text("world")])], 3, 3),
    ]);
    let lines = ["# Title", "", "Hello *world*"];
    let (f, d) = render(&tree, &lines, cursor(2, 5));
    assert_eq!(d.screen().len(), 3);
    assert_eq!(d.screen()[0].size, 2);
    assert_eq!(d.screen()[0].inner, "\x1b#3Title\r\n\x1b#4Title");
    assert_eq!(d.screen()[1].inner, "");
    assert_eq!(d.screen()[1].size, 1);
    assert_eq!(d.screen()[2].inner, "Hello \x1b[3mworld\x1b[23m");
    assert_eq!(f.lines[0], "\x1b#3Title\r\n\x1b#4Title");
    assert_eq!(f.lines[1], "");
    assert_eq!(f.lines[2], "Hello *world*");
    assert!(f.lines[2].starts_with("Hello "));
    assert_eq!(f.cursor_row, 3);
    assert_eq!(f.cursor_col, 5);
}

#[test]
fn cursor_on_heading_shows_source() {
    let tree = Node::Root(vec![Node::Heading(vec![text("Title")], pos(1, 1))]);
    let (f, _) = render(&tree, &["# Title", "x"], cursor(0, 3));
    assert_eq!(f.lines, vec!["# Title".to_string(), String::new()]);
    assert_eq!(f.cursor_row, 0);
    assert_eq!(f.cursor_col, 3);
}

#[test]
fn unordered_list_items_share_a_bullet() {
    let list = List { ordered: false, children: vec![item("a", 1), item("b", 2), item("c", 3)] };
    let tree = Node::Root(vec![Node::List(list)]);
    let (_, d) = render(&tree, &["- a", "- b", "- c", ""], cursor(3, 0));
    let bullet = "\x1b[90m\u{f444}\x1b[37m ";
    assert_eq!(
        slot_texts(&d)[0..3].to_vec(),
        vec![format!("{bullet}a"), format!("{bullet}b"), format!("{bullet}c")]
    );
}

#[test]
fn ordered_list_items_are_numbered() {
    let list = List { ordered: true, children: vec![item("a", 1), item("b", 2), item("c", 3)] };
    let tree = Node::Root(vec![Node::List(list)]);
    let (_, d) = render(&tree, &["1. a", "2. b", "3. c", ""], cursor(3, 0));
    assert_eq!(slot_texts(&d)[0..3].to_vec(), vec!["1. a", "2. b", "3. c"]);
}

#[test]
fn ordered_list_numbers_past_nine() {
    let items: Vec<ListItem> = (1..=12).map(|i| item("x", i)).collect();
    let tree = Node::Root(vec![Node::List(List { ordered: true, children: items })]);
    let lines: Vec<&str> = vec!["x"; 13];
    let (_, d) = render(&tree, &lines, cursor(12, 0));
    assert_eq!(slot_texts(&d)[9], "10. x");
    assert_eq!(slot_texts(&d)[11], "12. x");
}

#[test]
fn table_columns_take_widest_cell() {
    let table = Table {
        children: vec![row(&["abc", "defghij", "k"], 1), row(&["a", "b", "c"], 3)],
        position: pos(1, 3),
    };
    let tree = Node::Root(vec![Node::Table(table)]);
    let (_, d) = render(&tree, &["| abc | defghij | k |", "|-|-|-|", "| a | b | c |", ""], cursor(3, 0));
    let t = slot_texts(&d);
    assert_eq!(t[0], "│ abc │ defghij │ k │");
    assert_eq!(t[1], "├─────┼─────────┼───┤");
    assert_eq!(t[2], "│  a  │    b    │ c │");
    let segments: Vec<usize> =
        t[1].trim_start_matches('├').trim_end_matches('┤').split('┼').map(|s| s.chars().count()).collect();
    assert_eq!(segments, vec![5, 9, 3]);
}

#[test]
fn table_sep_and_row_directly() {
    let d = Drawer::new();
    assert_eq!(d.table_sep(&vec![3, 7, 1]), "├─────┼─────────┼───┤");
    assert_eq!(d.table_sep(&Vec::new()), "├┤");
    let cells = vec!["ab".to_string(), "x".to_string()];
    assert_eq!(d.render_table_row(&cells, &vec![5, 4]), "│  ab   │  x   │");
}

#[test]
fn thematic_break_spans_width() {
    let tree = Node::Root(vec![Node::ThematicBreak(pos(1, 1))]);
    let mut d = Drawer::new();
    d.resize(24, 12);
    let f = d.render_md(&tree, &file(&["---", ""]), cursor(1, 0));
    assert_eq!(f.lines[0], format!(" {} ", "─".repeat(10)));
}

#[test]
fn thematic_break_default_width() {
    let tree = Node::Root(vec![Node::ThematicBreak(pos(1, 1))]);
    let (f, _) = render(&tree, &["***", ""], cursor(1, 0));
    assert_eq!(f.lines[0], format!(" {} ", "─".repeat(8)));
}

#[test]
fn inline_styles() {
    let d = Drawer::new();
    let strong = Node::Strong(vec![text("b")]);
    assert_eq!(d.render_child(&strong), "\x1b[1mb\x1b[22m");
    let struck = Node::Delete(vec![text("s")]);
    assert_eq!(d.render_child(&struck), "\x1b[9ms\x1b[29m");
    assert_eq!(d.render_child(&Node::Other), "");
}

#[test]
fn inline_math_with_unknown_macro_is_flagged() {
    let math = Math {
        source: "\\foo".to_string(),
        parsed: Some(TexNode::Root(vec![TexNode::Macro("foo".to_string(), Vec::new())])),
    };
    let tree = Node::Root(vec![para(vec![text("a "), Node::InlineMath(math)], 1, 1)]);
    let (_, d) = render(&tree, &["a $\\foo$", ""], cursor(1, 0));
    assert_eq!(slot_texts(&d)[0], "a \x1b[31m\\foo[[]]\x1b[m");
}

#[test]
fn paragraph_lines_fill_its_span() {
    let tree = Node::Root(vec![para(vec![text("one\ntwo")], 1, 2)]);
    let (_, d) = render(&tree, &["one", "two", ""], cursor(2, 0));
    assert_eq!(slot_texts(&d), vec!["one", "two", ""]);
}

#[test]
fn paragraph_lines_past_its_span_are_dropped() {
    let tree = Node::Root(vec![para(vec![text("one\ntwo")], 1, 1), para(vec![text("x")], 2, 2)]);
    let (_, d) = render(&tree, &["one", "x", ""], cursor(2, 0));
    assert_eq!(slot_texts(&d), vec!["one", "x", ""]);
}

#[test]
fn heights_are_two_only_for_headings() {
    let tree = Node::Root(vec![
        Node::Heading(vec![text("H")], pos(1, 1)),
        para(vec![text("p")], 2, 2),
        Node::ThematicBreak(pos(3, 3)),
        Node::Heading(vec![text("I")], pos(4, 4)),
    ]);
    let (_, d) = render(&tree, &["# H", "p", "---", "# I", ""], cursor(4, 0));
    let heights: Vec<usize> = d.screen().iter().map(|l| l.size).collect();
    assert_eq!(heights, vec![2, 1, 1, 2, 1]);
}

#[test]
fn cursor_row_counts_heading_rows() {
    let tree = Node::Root(vec![
        Node::Heading(vec![text("H")], pos(1, 1)),
        Node::Heading(vec![text("I")], pos(2, 2)),
    ]);
    let (f, _) = render(&tree, &["# H", "# I", "z"], cursor(2, 1));
    assert_eq!(f.cursor_row, 4);
    assert_eq!(f.lines[2], "z");
}

#[test]
fn layout_is_repeatable() {
    let tree = Node::Root(vec![
        Node::Heading(vec![text("T")], pos(1, 1)),
        para(vec![text("p")], 3, 3),
    ]);
    let lines = file(&["# T", "", "p", "q"]);
    let mut d = Drawer::new();
    let first = d.render_md(&tree, &lines, cursor(3, 1));
    let slots_first = slot_texts(&d);
    let second = d.render_md(&tree, &lines, cursor(3, 1));
    assert_eq!(first.lines, second.lines);
    assert_eq!(first.cursor_row, second.cursor_row);
    assert_eq!(first.cursor_col, second.cursor_col);
    assert_eq!(slot_texts(&d), slots_first);
}

#[test]
fn screen_covers_every_source_line() {
    let tree = Node::Root(vec![para(vec![text("a")], 1, 1)]);
    let (f, d) = render(&tree, &["a", "", "", ""], cursor(0, 0));
    assert_eq!(d.screen().len(), 4);
    assert_eq!(f.lines.len(), 4);
}

#[test]
fn ensure_scr_lines_only_grows() {
    let mut d = Drawer::new();
    d.ensure_scr_lines(2);
    assert_eq!(d.screen().len(), 3);
    d.ensure_scr_lines(0);
    assert_eq!(d.screen().len(), 3);
}

#[test]
fn lines_split_like_str_lines() {
    assert_eq!(split_lines("a\r\nb\n"), vec!["a".to_string(), "b".to_string()]);
    assert_eq!(split_lines(""), Vec::<String>::new());
    assert_eq!(split_lines("\n\nc\r"), vec!["".to_string(), "".to_string(), "c\r".to_string()]);
}

#[test]
fn line_constructors() {
    assert_eq!(Line::new().size, 1);
    assert_eq!(Line::from("a".to_string()).size, 1);
    let d = Line::double("h".to_string());
    assert_eq!((d.inner.as_str(), d.size), ("h", 2));
}
