//! A live markdown editor's core: the editable line buffer with its cursor,
//! the projection of a parsed document onto terminal screen slots, and the
//! symbol substitution that turns inline math into text.

pub mod text;
pub mod latex;
pub mod editor;
pub mod tree;
pub mod render;
pub mod table;
