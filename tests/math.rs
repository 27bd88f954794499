use md_editor::latex::{
    check_bin, check_greek, check_ord, greek_letter, render_latex, render_macro, render_node,
    Math, Symbol, TexNode,
};

fn text_of(s: Symbol) -> Option<String> {
    match s {
        Symbol::Resolved(t) => Some(t),
        _ => None,
    }
}

#[test]
fn greek_lower_case() {
    assert_eq!(text_of(check_greek("alpha")), Some("α".to_string()));
    assert_eq!(text_of(check_greek("omega")), Some("ω".to_string()));
}

#[test]
fn greek_capitalised_gives_upper_case_letter() {
    assert_eq!(text_of(check_greek("Delta")), Some("Δ".to_string()));
    assert_eq!(text_of(check_greek("Alpha")), Some("Α".to_string()));
}

#[test]
fn greek_matched_without_case() {
    assert_eq!(text_of(check_greek("SIGMA")), Some("Σ".to_string()));
    assert_eq!(text_of(check_greek("pI")), Some("π".to_string()));
}

#[test]
fn greek_unknown_name() {
    assert!(matches!(check_greek("frac"), Symbol::NoMatch));
    assert!(matches!(check_greek(""), Symbol::NoMatch));
}

#[test]
fn greek_letter_table() {
    assert_eq!(greek_letter("lambda"), Some("λ".to_string()));
    assert_eq!(greek_letter("Lambda"), None);
}

#[test]
fn ordinary_symbols() {
    assert_eq!(text_of(check_ord("ned")), Some("¬".to_string()));
    assert_eq!(text_of(check_ord("mp")), Some(String::new()));
    assert!(matches!(check_ord("pm"), Symbol::NoMatch));
}

#[test]
fn binary_operators() {
    assert_eq!(text_of(check_bin("pm")), Some("±".to_string()));
    assert_eq!(text_of(check_bin("mp")), Some(String::new()));
    assert!(matches!(check_bin("ned"), Symbol::NoMatch));
}

#[test]
fn known_macro_resolves() {
    let s = render_macro(&"pm".to_string(), &Vec::new());
    assert_eq!(s.as_str(), "±");
}

#[test]
fn unknown_macro_is_flagged_with_its_name() {
    let args = vec![TexNode::Argument(vec![TexNode::Text("a".to_string())])];
    let s = render_macro(&"frac".to_string(), &args);
    assert!(matches!(s, Symbol::Unknown(_, _)));
    let shown = s.as_str();
    assert_eq!(shown, "\x1b[31m\\frac[[\"a\"]]\x1b[m");
    assert!(shown.contains("frac"));
}

#[test]
fn unknown_macro_without_arguments() {
    let shown = render_node(&TexNode::Macro("foo".to_string(), Vec::new()));
    assert_eq!(shown, "\x1b[31m\\foo[[]]\x1b[m");
}

#[test]
fn math_tree_renders_text_space_and_symbols() {
    let tree = TexNode::Root(vec![
        TexNode::Text("x".to_string()),
        TexNode::WhiteSpace,
        TexNode::Macro("pm".to_string(), Vec::new()),
        TexNode::WhiteSpace,
        TexNode::Macro("beta".to_string(), Vec::new()),
        TexNode::Other,
    ]);
    assert_eq!(render_node(&tree), "x ± β");
}

#[test]
fn math_span_uses_tree_or_source() {
    let parsed = Math {
        source: "\\alpha".to_string(),
        parsed: Some(TexNode::Root(vec![TexNode::Macro("alpha".to_string(), Vec::new())])),
    };
    assert_eq!(render_latex(&parsed), "α");
    let unparsed = Math { source: "\\alpha{".to_string(), parsed: None };
    assert_eq!(render_latex(&unparsed), "\\alpha{");
}
