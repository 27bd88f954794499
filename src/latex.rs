//! Inline math to text: macros with a known symbol become that symbol,
//! unknown macros are shown as a visibly flagged placeholder.
use vstd::prelude::*;

use crate::text::{owned, push_text, same_text};

verus! {

/// A parsed piece of LaTeX math, as far as rendering reads it.
#[derive(Debug)]
pub enum TexNode {
    /// The whole parsed source.
    Root(Vec<TexNode>),
    /// Literal text.
    Text(String),
    /// Any run of white space.
    WhiteSpace,
    /// A macro `\name` with its arguments.
    Macro(String, Vec<TexNode>),
    /// One argument of a macro.
    Argument(Vec<TexNode>),
    /// Anything else (comments, environments, groups): not shown.
    Other,
}

/// A math span of the document: its source and, where it could be parsed, its tree.
#[derive(Debug)]
pub struct Math {
    pub source: String,
    pub parsed: Option<TexNode>,
}

/// The outcome of looking a macro name up.
pub enum Symbol {
    /// The name stands for this text.
    Resolved(String),
    /// The name is not known; it is kept with its rendered arguments.
    Unknown(String, Vec<String>),
    /// This table does not know the name.
    NoMatch,
}

/// What a `Symbol` holds, as character sequences.
pub enum SymbolView {
    Resolved(Seq<char>),
    Unknown(Seq<char>, Seq<Seq<char>>),
    NoMatch,
}

/// The characters of each string.
pub open spec fn texts_of(v: Seq<String>) -> Seq<Seq<char>> {
    v.map_values(|s: String| s@)
}

impl View for Symbol {
    type V = SymbolView;

    open spec fn view(&self) -> SymbolView {
        match self {
            Symbol::Resolved(s) => SymbolView::Resolved(s@),
            Symbol::Unknown(s, args) => SymbolView::Unknown(s@, texts_of(args@)),
            Symbol::NoMatch => SymbolView::NoMatch,
        }
    }
}

/// Result of `str::to_lowercase`.
pub uninterp spec fn lower_of(s: Seq<char>) -> Seq<char>;

/// Result of `str::to_uppercase`.
pub uninterp spec fn upper_of(s: Seq<char>) -> Seq<char>;

/// Result of `char::is_uppercase`.
pub uninterp spec fn upper_char(c: char) -> bool;

/// Result of formatting a list of strings with `Debug`.
pub uninterp spec fn debug_list_of(items: Seq<Seq<char>>) -> Seq<char>;

/// Relies on `str::to_lowercase`: the result depends on the characters alone.
#[verifier::external_body]
fn lowercase(s: &str) -> (r: String)
    ensures
        r@ == lower_of(s@),
{
    s.to_lowercase()
}

/// Relies on `str::to_uppercase`: the result depends on the characters alone.
#[verifier::external_body]
fn uppercase(s: &str) -> (r: String)
    ensures
        r@ == upper_of(s@),
{
    s.to_uppercase()
}

/// Relies on `char::is_uppercase`: the Unicode `Uppercase` property of the character.
#[verifier::external_body]
fn is_uppercase(c: char) -> (r: bool)
    ensures
        r == upper_char(c),
{
    c.is_uppercase()
}

/// Relies on `Debug` for `Vec<String>`: the list in brackets, each item quoted.
#[verifier::external_body]
fn debug_list(items: &Vec<String>) -> (r: String)
    ensures
        r@ == debug_list_of(texts_of(items@)),
{
    format!("{:?}", items)
}

/// Lower-case Greek letter names and their letters.
pub open spec fn greek_table(name: Seq<char>) -> Option<Seq<char>> {
    if name == "alpha"@ {
        Some("α"@)
    } else if name == "beta"@ {
        Some("β"@)
    } else if name == "gamma"@ {
        Some("γ"@)
    } else if name == "delta"@ {
        Some("δ"@)
    } else if name == "epsilon"@ {
        Some("ε"@)
    } else if name == "zeta"@ {
        Some("ζ"@)
    } else if name == "eta"@ {
        Some("η"@)
    } else if name == "theta"@ {
        Some("θ"@)
    } else if name == "iota"@ {
        Some("ι"@)
    } else if name == "kappa"@ {
        Some("κ"@)
    } else if name == "lambda"@ {
        Some("λ"@)
    } else if name == "mu"@ {
        Some("μ"@)
    } else if name == "nu"@ {
        Some("ν"@)
    } else if name == "xi"@ {
        Some("ξ"@)
    } else if name == "omicron"@ {
        Some("ο"@)
    } else if name == "pi"@ {
        Some("π"@)
    } else if name == "rho"@ {
        Some("ρ"@)
    } else if name == "sigma"@ {
        Some("σ"@)
    } else if name == "tau"@ {
        Some("τ"@)
    } else if name == "upsilon"@ {
        Some("υ"@)
    } else if name == "phi"@ {
        Some("φ"@)
    } else if name == "chi"@ {
        Some("χ"@)
    } else if name == "psi"@ {
        Some("ψ"@)
    } else if name == "omega"@ {
        Some("ω"@)
    } else {
        None
    }
}

/// Whether the name starts with an upper-case character.
pub open spec fn starts_upper(name: Seq<char>) -> bool {
    name.len() > 0 && upper_char(name[0])
}

/// The Greek letter a macro name stands for: the name is matched without case,
/// and a name that starts upper-case gives the upper-case letter.
pub open spec fn greek_symbol(name: Seq<char>) -> SymbolView {
    match greek_table(lower_of(name)) {
        Some(g) => SymbolView::Resolved(if starts_upper(name) { upper_of(g) } else { g }),
        None => SymbolView::NoMatch,
    }
}

/// Ordinary symbols.
pub open spec fn ord_symbol(name: Seq<char>) -> SymbolView {
    if name == "ned"@ {
        SymbolView::Resolved("¬"@)
    } else if name == "mp"@ {
        SymbolView::Resolved(""@)
    } else {
        SymbolView::NoMatch
    }
}

/// Binary operators.
pub open spec fn bin_symbol(name: Seq<char>) -> SymbolView {
    if name == "pm"@ {
        SymbolView::Resolved("±"@)
    } else if name == "mp"@ {
        SymbolView::Resolved(""@)
    } else {
        SymbolView::NoMatch
    }
}

/// The symbol of a macro with the given rendered arguments: the Greek table
/// first, then ordinary symbols, then binary operators; else unknown.
pub open spec fn macro_symbol(name: Seq<char>, args: Seq<Seq<char>>) -> SymbolView {
    if !(greek_symbol(name) is NoMatch) {
        greek_symbol(name)
    } else if !(ord_symbol(name) is NoMatch) {
        ord_symbol(name)
    } else if !(bin_symbol(name) is NoMatch) {
        bin_symbol(name)
    } else {
        SymbolView::Unknown(name, args)
    }
}

/// The text shown for a symbol: an unknown one in red, as `\name` followed by
/// its arguments in brackets.
pub open spec fn symbol_text(s: SymbolView) -> Seq<char> {
    match s {
        SymbolView::Resolved(t) => t,
        SymbolView::Unknown(name, args) => "\x1b[31m\\"@ + name + "["@ + debug_list_of(args) + "]\x1b[m"@,
        SymbolView::NoMatch => Seq::empty(),
    }
}

/// The text a math tree renders to.
pub open spec fn tex_text(node: TexNode) -> Seq<char>
    decreases node,
{
    match node {
        TexNode::Root(c) => texs_text(c@),
        TexNode::Text(s) => s@,
        TexNode::WhiteSpace => seq![' '],
        TexNode::Macro(name, args) => symbol_text(macro_symbol(name@, tex_texts(args@))),
        TexNode::Argument(c) => texs_text(c@),
        TexNode::Other => Seq::empty(),
    }
}

/// The texts of a sequence of math trees, joined.
pub open spec fn texs_text(ns: Seq<TexNode>) -> Seq<char>
    decreases ns,
{
    if ns.len() == 0 {
        Seq::empty()
    } else {
        texs_text(ns.drop_last()) + tex_text(ns.last())
    }
}

/// The text of each of a sequence of math trees.
pub open spec fn tex_texts(ns: Seq<TexNode>) -> Seq<Seq<char>>
    decreases ns,
{
    if ns.len() == 0 {
        Seq::empty()
    } else {
        tex_texts(ns.drop_last()).push(tex_text(ns.last()))
    }
}

/// The text a math span renders to: its tree's text, or its source where it
/// could not be parsed.
pub open spec fn math_text(m: Math) -> Seq<char> {
    match m.parsed {
        Some(t) => tex_text(t),
        None => m.source@,
    }
}

/// Looks up an ordinary symbol.
pub fn check_ord(ord: &str) -> (r: Symbol)
    ensures
        r@ == ord_symbol(ord@),
{
    if same_text(ord, "ned") {
        Symbol::Resolved(owned("¬"))
    } else if same_text(ord, "mp") {
        Symbol::Resolved(owned(""))
    } else {
        Symbol::NoMatch
    }
}

/// Looks up a binary operator.
pub fn check_bin(bin: &str) -> (r: Symbol)
    ensures
        r@ == bin_symbol(bin@),
{
    if same_text(bin, "pm") {
        Symbol::Resolved(owned("±"))
    } else if same_text(bin, "mp") {
        Symbol::Resolved(owned(""))
    } else {
        Symbol::NoMatch
    }
}

/// The Greek letter of a lower-case name, if it is one.
pub fn greek_letter(name: &str) -> (r: Option<String>)
    ensures
        r.is_some() == greek_table(name@).is_some(),
        r.is_some() ==> r.unwrap()@ == greek_table(name@).unwrap(),
{
    let g = if same_text(name, "alpha") {
        "α"
    } else if same_text(name, "beta") {
        "β"
    } else if same_text(name, "gamma") {
        "γ"
    } else if same_text(name, "delta") {
        "δ"
    } else if same_text(name, "epsilon") {
        "ε"
    } else if same_text(name, "zeta") {
        "ζ"
    } else if same_text(name, "eta") {
        "η"
    } else if same_text(name, "theta") {
        "θ"
    } else if same_text(name, "iota") {
        "ι"
    } else if same_text(name, "kappa") {
        "κ"
    } else if same_text(name, "lambda") {
        "λ"
    } else if same_text(name, "mu") {
        "μ"
    } else if same_text(name, "nu") {
        "ν"
    } else if same_text(name, "xi") {
        "ξ"
    } else if same_text(name, "omicron") {
        "ο"
    } else if same_text(name, "pi") {
        "π"
    } else if same_text(name, "rho") {
        "ρ"
    } else if same_text(name, "sigma") {
        "σ"
    } else if same_text(name, "tau") {
        "τ"
    } else if same_text(name, "upsilon") {
        "υ"
    } else if same_text(name, "phi") {
        "φ"
    } else if same_text(name, "chi") {
        "χ"
    } else if same_text(name, "psi") {
        "ψ"
    } else if same_text(name, "omega") {
        "ω"
    } else {
        return None;
    };
    Some(owned(g))
}

/// Whether the first character of `s` is upper-case (false when `s` is empty).
fn first_is_upper(s: &str) -> (r: bool)
    ensures
        r == starts_upper(s@),
{
    if s.unicode_len() == 0 {
        false
    } else {
        is_uppercase(s.get_char(0))
    }
}

/// Looks up a Greek letter by name, without regard to case; a name that
/// starts upper-case gives the upper-case letter.
pub fn check_greek(letter: &str) -> (r: Symbol)
    ensures
        r@ == greek_symbol(letter@),
{
    let upper = first_is_upper(letter);
    let lowered = lowercase(letter);
    match greek_letter(lowered.as_str()) {
        None => Symbol::NoMatch,
        Some(g) => {
            if upper {
                Symbol::Resolved(uppercase(g.as_str()))
            } else {
                Symbol::Resolved(g)
            }
        },
    }
}

impl Symbol {
    /// The text shown for this symbol.
    pub fn as_str(self) -> (r: String)
        requires
            !(self@ is NoMatch),
        ensures
            r@ == symbol_text(self@),
    {
        match self {
            Symbol::Resolved(s) => s,
            Symbol::Unknown(s, args) => {
                let mut out = owned("\x1b[31m\\");
                push_text(&mut out, s.as_str());
                push_text(&mut out, "[");
                let listed = debug_list(&args);
                push_text(&mut out, listed.as_str());
                push_text(&mut out, "]\x1b[m");
                out
            },
            Symbol::NoMatch => owned(""),
        }
    }
}

/// Looks a macro up: Greek letters, then ordinary symbols, then binary
/// operators; a name none of them knows is kept with its rendered arguments.
pub fn render_macro(content: &String, args: &Vec<TexNode>) -> (r: Symbol)
    ensures
        r@ == macro_symbol(content@, tex_texts(args@)),
    decreases args, 0nat,
{
    let mut rendered_args: Vec<String> = Vec::new();
    let mut i: usize = 0;
    while i < args.len()
        invariant
            i <= args@.len(),
            texts_of(rendered_args@) == tex_texts(args@.subrange(0, i as int)),
        decreases args@.len() - i,
    {
        assert(decreases_to!(args => args@[i as int]));
        let t = render_node(&args[i]);
        rendered_args.push(t);
        proof {
            let s = args@.subrange(0, i + 1);
            assert(s.drop_last() == args@.subrange(0, i as int));
            assert(texts_of(rendered_args@) =~= texts_of(rendered_args@.drop_last()).push(t@));
        }
        i += 1;
    }
    assert(args@.subrange(0, args@.len() as int) == args@);
    let greek = check_greek(content.as_str());
    if !matches!(greek, Symbol::NoMatch) {
        return greek;
    }
    let ord = check_ord(content.as_str());
    if !matches!(ord, Symbol::NoMatch) {
        return ord;
    }
    let bin = check_bin(content.as_str());
    if !matches!(bin, Symbol::NoMatch) {
        return bin;
    }
    Symbol::Unknown(content.clone(), rendered_args)
}

/// The text of a sequence of math trees, one after another.
pub fn render_nodes(nodes: &Vec<TexNode>) -> (r: String)
    ensures
        r@ == texs_text(nodes@),
    decreases nodes, 0nat,
{
    let mut out = String::new();
    let mut i: usize = 0;
    while i < nodes.len()
        invariant
            i <= nodes@.len(),
            out@ == texs_text(nodes@.subrange(0, i as int)),
        decreases nodes@.len() - i,
    {
        assert(decreases_to!(nodes => nodes@[i as int]));
        let t = render_node(&nodes[i]);
        push_text(&mut out, t.as_str());
        proof {
            let s = nodes@.subrange(0, i + 1);
            assert(s.drop_last() == nodes@.subrange(0, i as int));
        }
        i += 1;
    }
    assert(nodes@.subrange(0, nodes@.len() as int) == nodes@);
    out
}

/// The text of a math tree: text as it is, white space as one space, and each
/// macro as its symbol.
pub fn render_node(node: &TexNode) -> (r: String)
    ensures
        r@ == tex_text(*node),
    decreases node, 1nat,
{
    match node {
        TexNode::Root(content) => render_nodes(content),
        TexNode::Text(content) => owned(content.as_str()),
        TexNode::WhiteSpace => {
            proof {
                reveal_strlit(" ");
            }
            owned(" ")
        },
        TexNode::Macro(content, args) => {
            let sym = render_macro(content, args);
            sym.as_str()
        },
        TexNode::Argument(content) => render_nodes(content),
        TexNode::Other => String::new(),
    }
}

/// The text of a math span: its tree's text, or its source where it could
/// not be parsed.
pub fn render_latex(input: &Math) -> (r: String)
    ensures
        r@ == math_text(*input),
{
    match &input.parsed {
        Some(t) => render_node(t),
        None => owned(input.source.as_str()),
    }
}

} // verus!
