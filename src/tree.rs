//! The parsed document as the layout reads it: blocks that carry the source
//! lines they came from, and the inline content inside them.
use vstd::prelude::*;

use crate::latex::{math_text, Math};

verus! {

/// The source lines of a block, 1-based and inclusive.
#[derive(Debug, Copy, Clone, PartialEq, Eq, Structural)]
pub struct Position {
    pub start: usize,
    pub end: usize,
}

/// A node of the document tree.
#[derive(Debug)]
pub enum Node {
    /// The whole document.
    Root(Vec<Node>),
    Paragraph(Vec<Node>, Position),
    Heading(Vec<Node>, Position),
    List(List),
    Table(Table),
    ThematicBreak(Position),
    Text(String),
    Emphasis(Vec<Node>),
    Strong(Vec<Node>),
    /// Struck-through text.
    Delete(Vec<Node>),
    InlineMath(Math),
    /// A math block.
    Math(Math),
    /// Any kind of node this editor does not show.
    Other,
}

#[derive(Debug)]
pub struct List {
    pub ordered: bool,
    pub children: Vec<ListItem>,
}

#[derive(Debug)]
pub struct ListItem {
    pub children: Vec<Node>,
    pub position: Position,
}

#[derive(Debug)]
pub struct Table {
    pub children: Vec<TableRow>,
    pub position: Position,
}

#[derive(Debug)]
pub struct TableRow {
    pub children: Vec<TableCell>,
    pub position: Position,
}

#[derive(Debug)]
pub struct TableCell {
    pub children: Vec<Node>,
}

/// Turns italics on.
pub const EM: &'static str = "\x1b[3m";

/// Turns italics off.
pub const END_EM: &'static str = "\x1b[23m";

/// Turns bold on.
pub const STRONG: &'static str = "\x1b[1m";

/// Turns bold off.
pub const END_STRONG: &'static str = "\x1b[22m";

/// Turns strike-through on.
pub const STRIKE: &'static str = "\x1b[9m";

/// Turns strike-through off.
pub const END_STRIKE: &'static str = "\x1b[29m";

/// The text of an inline node, with the terminal's style switches around
/// emphasis, strong and struck-through text, and math replaced by its text.
/// Block kinds that hold inline content give that content; lists, tables,
/// rules and unknown kinds give nothing.
pub open spec fn inline_text(node: Node) -> Seq<char>
    decreases node,
{
    match node {
        Node::Text(s) => s@,
        Node::Emphasis(c) => EM@ + inlines_text(c@) + END_EM@,
        Node::Strong(c) => STRONG@ + inlines_text(c@) + END_STRONG@,
        Node::Delete(c) => STRIKE@ + inlines_text(c@) + END_STRIKE@,
        Node::InlineMath(m) => math_text(m),
        Node::Math(m) => math_text(m),
        Node::Root(c) => inlines_text(c@),
        Node::Paragraph(c, _) => inlines_text(c@),
        Node::Heading(c, _) => inlines_text(c@),
        Node::List(_) => Seq::empty(),
        Node::Table(_) => Seq::empty(),
        Node::ThematicBreak(_) => Seq::empty(),
        Node::Other => Seq::empty(),
    }
}

/// The texts of a sequence of inline nodes, one after another.
pub open spec fn inlines_text(ns: Seq<Node>) -> Seq<char>
    decreases ns,
{
    if ns.len() == 0 {
        Seq::empty()
    } else {
        inlines_text(ns.drop_last()) + inline_text(ns.last())
    }
}

} // verus!
