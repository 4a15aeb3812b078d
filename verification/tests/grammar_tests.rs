use azul_css_parser::from_kv;
use azul_css_parser::new_from_str;
use azul_css_parser::node_type_path_from_str;
use azul_css_parser::pseudo_selector_from_str;
use azul_css_parser::Css;
use azul_css_parser::determine_static_or_dynamic_css_property;
use azul_css_parser::CssDeclaration;
use azul_css_parser::CssParseError;
use azul_css_parser::CssParsingError;
use azul_css_parser::CssPathPseudoSelector;
use azul_css_parser::CssProperty;
use azul_css_parser::ColorU;
use azul_css_parser::DynamicCssParseError;
use azul_css_parser::NodeTypePath;
use azul_css_parser::NodeTypePathParseError;
use azul_css_parser::StyleBackgroundColor;
use azul_css_parser::StyleTextAlignmentHorz;
use azul_css_parser::pseudo::CssPseudoSelectorParseError;

#[test]
fn test_empty_input_yields_empty_stylesheet() {
    assert_eq!(new_from_str("").unwrap(), Css { rules: Vec::new() });
    assert_eq!(new_from_str("   \n\t  ").unwrap(), Css { rules: Vec::new() });
}

#[test]
fn test_unclosed_block_fails() {
    assert_eq!(new_from_str("div { ").unwrap_err(), CssParseError::UnclosedBlock);
}

#[test]
fn test_doubly_nested_block_fails() {
    // The lexer never yields a second block start inside a block: the inner
    // `p {` is rejected by the lexer itself and surfaces as a syntax error.
    let r = new_from_str("div { p { } }");
    assert!(matches!(r, Err(CssParseError::ParseError(_))));
}

#[test]
fn test_at_rule_fails_with_syntax_error() {
    let r = new_from_str("@media screen { }");
    assert!(matches!(r, Err(CssParseError::ParseError(_))));
}

#[test]
fn test_unknown_node_type_fails() {
    assert_eq!(
        new_from_str("span { }").unwrap_err(),
        CssParseError::NodeTypePath(NodeTypePathParseError::Invalid(String::from("span")))
    );
}

#[test]
fn test_unknown_pseudo_selector_fails() {
    assert_eq!(
        new_from_str("div:asdf { }").unwrap_err(),
        CssParseError::PseudoSelectorParseError(CssPseudoSelectorParseError::UnknownSelector(
            String::from("asdf")
        ))
    );
}

#[test]
fn test_dynamic_error_propagates_through_parse() {
    assert_eq!(
        new_from_str("div { text-align: [[ abc ]]; }").unwrap_err(),
        CssParseError::DynamicCssParseError(DynamicCssParseError::NoDefaultCase)
    );
}

#[test]
fn test_comma_list_expands_to_independent_blocks() {
    // One rule with two comma-separated selector groups yields two rule
    // blocks, in source order, with equal declarations held by value.
    let mut parsed = new_from_str("div, p { background-color: red; }").unwrap();
    assert_eq!(parsed.rules.len(), 2);
    assert_eq!(parsed.rules[0].path.selectors, vec![azul_css_parser::CssPathSelector::Type(
        NodeTypePath::Div
    )]);
    assert_eq!(parsed.rules[1].path.selectors, vec![azul_css_parser::CssPathSelector::Type(
        NodeTypePath::P
    )]);
    assert_eq!(parsed.rules[0].declarations, parsed.rules[1].declarations);

    // The copies are independent: mutating one block's list leaves the other.
    let before = parsed.rules[1].declarations.clone();
    parsed.rules[0].declarations.clear();
    assert_eq!(parsed.rules[1].declarations, before);
    assert_eq!(parsed.rules[0].declarations.len(), 0);
}

#[test]
fn test_node_type_vocabulary() {
    assert_eq!(node_type_path_from_str("div"), Ok(NodeTypePath::Div));
    assert_eq!(node_type_path_from_str("p"), Ok(NodeTypePath::P));
    assert_eq!(node_type_path_from_str("img"), Ok(NodeTypePath::Img));
    assert_eq!(node_type_path_from_str("texture"), Ok(NodeTypePath::Texture));
    assert_eq!(node_type_path_from_str("iframe"), Ok(NodeTypePath::IFrame));
    assert_eq!(
        node_type_path_from_str("body"),
        Err(NodeTypePathParseError::Invalid(String::from("body")))
    );
}

#[test]
fn test_nth_child_trims_its_argument() {
    assert_eq!(
        pseudo_selector_from_str("nth-child( 42 )"),
        Ok(CssPathPseudoSelector::NthChild(42))
    );
    assert_eq!(pseudo_selector_from_str("nth-child (7)"), Ok(CssPathPseudoSelector::NthChild(7)));
}

#[test]
fn test_nth_child_rejects_bad_arguments() {
    assert!(matches!(
        pseudo_selector_from_str("nth-child(-3)"),
        Err(CssPseudoSelectorParseError::InvalidNthChild(_))
    ));
    assert!(matches!(
        pseudo_selector_from_str("nth-child(99999999999999999999999)"),
        Err(CssPseudoSelectorParseError::InvalidNthChild(_))
    ));
    assert!(matches!(
        pseudo_selector_from_str("nth-child()"),
        Err(CssPseudoSelectorParseError::InvalidNthChild(_))
    ));
    assert!(matches!(
        pseudo_selector_from_str("nth-child 4"),
        Err(CssPseudoSelectorParseError::UnclosedBracesNthChild(_))
    ));
}

#[test]
fn test_hex_colors() {
    assert_eq!(
        from_kv("background-color", "#ff0000"),
        Ok(CssProperty::BackgroundColor(StyleBackgroundColor(ColorU {
            r: 255,
            g: 0,
            b: 0,
            a: 255
        })))
    );
    assert_eq!(
        from_kv("background-color", "#abc"),
        Ok(CssProperty::BackgroundColor(StyleBackgroundColor(ColorU {
            r: 0xaa,
            g: 0xbb,
            b: 0xcc,
            a: 255
        })))
    );
    assert_eq!(
        from_kv("background-color", "#11223344"),
        Ok(CssProperty::BackgroundColor(StyleBackgroundColor(ColorU {
            r: 0x11,
            g: 0x22,
            b: 0x33,
            a: 0x44
        })))
    );
    assert!(matches!(
        from_kv("background-color", "#ggg"),
        Err(CssParsingError::InvalidValueErr(_))
    ));
    assert!(matches!(
        from_kv("background-color", "#12345"),
        Err(CssParsingError::InvalidValueErr(_))
    ));
}

#[test]
fn test_unsupported_property_key() {
    assert!(matches!(from_kv("width", "400px"), Err(CssParsingError::UnsupportedProperty(_))));
}

#[test]
fn test_dynamic_declaration_through_parse() {
    let parsed = new_from_str("div { text-align: [[ my_binding | auto ]]; }").unwrap();
    assert_eq!(parsed.rules.len(), 1);
    assert_eq!(parsed.rules[0].declarations.len(), 1);
    match &parsed.rules[0].declarations[0] {
        CssDeclaration::Dynamic(d) => {
            assert_eq!(d.dynamic_id, "my_binding");
            assert_eq!(d.default, azul_css_parser::DynamicCssPropertyDefault::Auto);
        },
        other => panic!("expected a dynamic declaration, got {:?}", other),
    }
}

#[test]
fn test_ignored_tokens_are_skipped() {
    // Attribute selectors and the `+` combinator are lexed but carry no
    // selector step; comments carry no token at all.
    let parsed = new_from_str("div[id] { }").unwrap();
    assert_eq!(
        parsed.rules[0].path.selectors,
        vec![azul_css_parser::CssPathSelector::Type(NodeTypePath::Div)]
    );

    let parsed = new_from_str("div + p { }").unwrap();
    assert_eq!(
        parsed.rules[0].path.selectors,
        vec![
            azul_css_parser::CssPathSelector::Type(NodeTypePath::Div),
            azul_css_parser::CssPathSelector::Type(NodeTypePath::P),
        ]
    );

    let parsed = new_from_str("/* note */ div { /* also */ }").unwrap();
    assert_eq!(
        parsed.rules[0].path.selectors,
        vec![azul_css_parser::CssPathSelector::Type(NodeTypePath::Div)]
    );
    assert_eq!(parsed.rules[0].declarations.len(), 0);
}

#[test]
fn test_non_ascii_input_rejected() {
    // The lexer is ASCII-only; the first character outside ASCII is
    // reported before any token is read.
    assert_eq!(
        new_from_str("div { background-color: réd; }").unwrap_err(),
        CssParseError::NonAsciiInput('é')
    );
    assert_eq!(new_from_str("дiv { }").unwrap_err(), CssParseError::NonAsciiInput('д'));
    assert_eq!(new_from_str("div { }").unwrap().rules.len(), 1);
}

#[test]
fn test_classifier_trims_unicode_whitespace() {
    // The classifier trims the full Unicode White_Space set, as str::trim
    // does; it is not limited to ASCII input.
    assert_eq!(
        determine_static_or_dynamic_css_property("text-align", "\u{000B}center\u{3000}"),
        Ok(CssDeclaration::Static(CssProperty::TextAlign(StyleTextAlignmentHorz::Center)))
    );
    assert_eq!(
        determine_static_or_dynamic_css_property("\u{00A0}text-align ", " center "),
        Ok(CssDeclaration::Static(CssProperty::TextAlign(StyleTextAlignmentHorz::Center)))
    );
}

#[test]
fn test_parsing_error_converts_into_dynamic_error() {
    let e = CssParsingError::UnsupportedProperty(String::from("width"));
    assert_eq!(
        DynamicCssParseError::from(e.clone()),
        DynamicCssParseError::UnexpectedValue(e)
    );
}
