use azul_css_parser::new_from_str;
use azul_css_parser::determine_static_or_dynamic_css_property;
use azul_css_parser::pseudo_selector_from_str;
use azul_css_parser::Css;
use azul_css_parser::CssDeclaration;
use azul_css_parser::CssParsingError;
use azul_css_parser::CssPath;
use azul_css_parser::CssPathPseudoSelector;
use azul_css_parser::CssPathSelector;
use azul_css_parser::CssProperty;
use azul_css_parser::CssRuleBlock;
use azul_css_parser::ColorU;
use azul_css_parser::DynamicCssParseError;
use azul_css_parser::DynamicCssProperty;
use azul_css_parser::DynamicCssPropertyDefault;
use azul_css_parser::InvalidValueErr;
use azul_css_parser::NodeTypePath;
use azul_css_parser::StyleBackgroundColor;
use azul_css_parser::StyleTextAlignmentHorz;
use azul_css_parser::pseudo::CssPseudoSelectorParseError;

#[test]
fn test_css_pseudo_selector_parse() {
    let ok_res = [
        ("first", CssPathPseudoSelector::First),
        ("last", CssPathPseudoSelector::Last),
        ("nth-child(4)", CssPathPseudoSelector::NthChild(4)),
        ("hover", CssPathPseudoSelector::Hover),
        ("active", CssPathPseudoSelector::Active),
        ("focus", CssPathPseudoSelector::Focus),
    ];

    let err = [
        ("asdf", CssPseudoSelectorParseError::UnknownSelector(String::from("asdf"))),
        ("", CssPseudoSelectorParseError::UnknownSelector(String::from(""))),
        ("nth-child(", CssPseudoSelectorParseError::UnclosedBracesNthChild(String::from("nth-child("))),
        ("nth-child)", CssPseudoSelectorParseError::UnclosedBracesNthChild(String::from("nth-child)"))),
    ];

    for (s, a) in &ok_res {
        assert_eq!(pseudo_selector_from_str(s), Ok(*a));
    }

    for (s, e) in &err {
        assert_eq!(pseudo_selector_from_str(s), Err(e.clone()));
    }
}

#[test]
fn test_detect_static_or_dynamic_property() {
    assert_eq!(
        determine_static_or_dynamic_css_property("text-align", " center   "),
        Ok(CssDeclaration::Static(CssProperty::TextAlign(StyleTextAlignmentHorz::Center)))
    );

    assert_eq!(
        determine_static_or_dynamic_css_property("text-align", "[[    400px ]]"),
        Err(DynamicCssParseError::NoDefaultCase)
    );

    assert_eq!(
        determine_static_or_dynamic_css_property("text-align", "[[  400px"),
        Err(DynamicCssParseError::UnclosedBraces)
    );

    assert_eq!(
        determine_static_or_dynamic_css_property("text-align", "[[  400px | center ]]"),
        Err(DynamicCssParseError::InvalidId)
    );

    assert_eq!(
        determine_static_or_dynamic_css_property("text-align", "[[  hello | center ]]"),
        Ok(CssDeclaration::Dynamic(DynamicCssProperty {
            default: DynamicCssPropertyDefault::Exact(CssProperty::TextAlign(
                StyleTextAlignmentHorz::Center
            )),
            dynamic_id: String::from("hello"),
        }))
    );

    assert_eq!(
        determine_static_or_dynamic_css_property("text-align", "[[  hello | auto ]]"),
        Ok(CssDeclaration::Dynamic(DynamicCssProperty {
            default: DynamicCssPropertyDefault::Auto,
            dynamic_id: String::from("hello"),
        }))
    );

    assert_eq!(
        determine_static_or_dynamic_css_property("text-align", "[[  abc | hello ]]"),
        Err(DynamicCssParseError::UnexpectedValue(CssParsingError::InvalidValueErr(
            InvalidValueErr(String::from("hello"))
        )))
    );

    assert_eq!(
        determine_static_or_dynamic_css_property("text-align", "[[ ]]"),
        Err(DynamicCssParseError::EmptyBraces)
    );
    assert_eq!(
        determine_static_or_dynamic_css_property("text-align", "[[]]"),
        Err(DynamicCssParseError::EmptyBraces)
    );

    assert_eq!(
        determine_static_or_dynamic_css_property("text-align", "[[ center ]]"),
        Err(DynamicCssParseError::NoId)
    );

    assert_eq!(
        determine_static_or_dynamic_css_property("text-align", "[[ hello |  ]]"),
        Err(DynamicCssParseError::NoDefaultCase)
    );

    assert_eq!(
        determine_static_or_dynamic_css_property("text-align", "[[ |  ]]"),
        Err(DynamicCssParseError::EmptyBraces)
    );
}

#[test]
fn test_css_parse_1() {
    let parsed_css = new_from_str(
        "
        div#my_id .my_class:first {
            background-color: red;
        }
    ",
    )
    .unwrap();

    let expected_css_rules = vec![CssRuleBlock {
        path: CssPath {
            selectors: vec![
                CssPathSelector::Type(NodeTypePath::Div),
                CssPathSelector::Id(String::from("my_id")),
                CssPathSelector::Children,
                CssPathSelector::Class(String::from("my_class")),
                CssPathSelector::PseudoSelector(CssPathPseudoSelector::First),
            ],
        },
        declarations: vec![CssDeclaration::Static(CssProperty::BackgroundColor(
            StyleBackgroundColor(ColorU { r: 255, g: 0, b: 0, a: 255 }),
        ))],
    }];

    assert_eq!(parsed_css, expected_css_rules.into());
}

#[test]
fn test_css_simple_selector_parse() {
    let css = "div#id.my_class > p .new { }";
    let parsed = vec![
        CssPathSelector::Type(NodeTypePath::Div),
        CssPathSelector::Id("id".into()),
        CssPathSelector::Class("my_class".into()),
        CssPathSelector::DirectChildren,
        CssPathSelector::Type(NodeTypePath::P),
        CssPathSelector::Children,
        CssPathSelector::Class("new".into()),
    ];
    assert_eq!(
        new_from_str(css).unwrap(),
        Css {
            rules: vec![CssRuleBlock {
                path: CssPath { selectors: parsed },
                declarations: Vec::new(),
            }],
        }
    );
}

fn check_css(css: &str, expected: Vec<CssRuleBlock>) {
    let css = new_from_str(css).unwrap();
    assert_eq!(css, expected.into());
}

// Tests that an element with a single class always gets the CSS element applied properly
#[test]
fn test_apply_css_pure_class() {
    let red = CssProperty::BackgroundColor(StyleBackgroundColor(ColorU {
        r: 255,
        g: 0,
        b: 0,
        a: 255,
    }));
    let blue = CssProperty::BackgroundColor(StyleBackgroundColor(ColorU {
        r: 0,
        g: 0,
        b: 255,
        a: 255,
    }));
    let black = CssProperty::BackgroundColor(StyleBackgroundColor(ColorU {
        r: 0,
        g: 0,
        b: 0,
        a: 255,
    }));

    // Simple example
    {
        let css_1 = ".my_class { background-color: red; }";
        let expected_rules = vec![CssRuleBlock {
            path: CssPath { selectors: vec![CssPathSelector::Class("my_class".into())] },
            declarations: vec![CssDeclaration::Static(red.clone())],
        }];
        check_css(css_1, expected_rules);
    }

    // Slightly more complex example
    {
        let css_2 = "#my_id { background-color: red; } .my_class { background-color: blue; }";
        let expected_rules = vec![
            CssRuleBlock {
                path: CssPath { selectors: vec![CssPathSelector::Id("my_id".into())] },
                declarations: vec![CssDeclaration::Static(red.clone())],
            },
            CssRuleBlock {
                path: CssPath { selectors: vec![CssPathSelector::Class("my_class".into())] },
                declarations: vec![CssDeclaration::Static(blue.clone())],
            },
        ];
        check_css(css_2, expected_rules);
    }

    // Even more complex example
    {
        let css_3 = "* { background-color: black; } .my_class#my_id { background-color: red; } .my_class { background-color: blue; }";
        let expected_rules = vec![
            CssRuleBlock {
                path: CssPath { selectors: vec![CssPathSelector::Global] },
                declarations: vec![CssDeclaration::Static(black.clone())],
            },
            CssRuleBlock {
                path: CssPath {
                    selectors: vec![
                        CssPathSelector::Class("my_class".into()),
                        CssPathSelector::Id("my_id".into()),
                    ],
                },
                declarations: vec![CssDeclaration::Static(red.clone())],
            },
            CssRuleBlock {
                path: CssPath { selectors: vec![CssPathSelector::Class("my_class".into())] },
                declarations: vec![CssDeclaration::Static(blue.clone())],
            },
        ];
        check_css(css_3, expected_rules);
    }
}

// Assert that order of the style rules is correct (in same order as provided in CSS form)
#[test]
fn test_multiple_rules() {
    let parsed_css = new_from_str(
        "
        * { }
        * div.my_class#my_id { }
        * div#my_id { }
        * #my_id { }
        div.my_class.specific#my_id { }
    ",
    )
    .unwrap();

    let expected_rules = vec![
        // Rules are sorted by order of appearance in source string
        CssRuleBlock { path: CssPath { selectors: vec![CssPathSelector::Global] }, declarations: Vec::new() },
        CssRuleBlock {
            path: CssPath {
                selectors: vec![
                    CssPathSelector::Global,
                    CssPathSelector::Type(NodeTypePath::Div),
                    CssPathSelector::Class("my_class".into()),
                    CssPathSelector::Id("my_id".into()),
                ],
            },
            declarations: Vec::new(),
        },
        CssRuleBlock {
            path: CssPath {
                selectors: vec![CssPathSelector::Global, CssPathSelector::Type(NodeTypePath::Div), CssPathSelector::Id("my_id".into())],
            },
            declarations: Vec::new(),
        },
        CssRuleBlock {
            path: CssPath { selectors: vec![CssPathSelector::Global, CssPathSelector::Id("my_id".into())] },
            declarations: Vec::new(),
        },
        CssRuleBlock {
            path: CssPath {
                selectors: vec![
                    CssPathSelector::Type(NodeTypePath::Div),
                    CssPathSelector::Class("my_class".into()),
                    CssPathSelector::Class("specific".into()),
                    CssPathSelector::Id("my_id".into()),
                ],
            },
            declarations: Vec::new(),
        },
    ];

    assert_eq!(parsed_css, expected_rules.into());
}
