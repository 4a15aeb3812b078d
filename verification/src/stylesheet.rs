//! The data model of a parsed stylesheet: an ordered sequence of rule blocks,
//! each an ordered selector path plus an ordered list of declarations.
//!
//! Order is cascade order, equal to source appearance order, and is preserved
//! exactly: no re-sorting and no deduplication. Every type has a mathematical
//! view (`Spec...`) over `Seq<char>` and plain values, which the contracts of
//! the parser speak of.

use vstd::prelude::*;

verus! {

/// The closed vocabulary of node type names a selector may target.
#[derive(Debug, Copy, Clone, PartialEq, Eq, Structural)]
pub enum NodeTypePath {
    Div,
    P,
    Img,
    Texture,
    IFrame,
}

/// The restricted set of supported pseudo-classes.
#[derive(Debug, Copy, Clone, PartialEq, Eq, Structural)]
pub enum CssPathPseudoSelector {
    First,
    Last,
    Hover,
    Active,
    Focus,
    NthChild(usize),
}

/// An RGBA color with 8 bits per channel.
#[derive(Debug, Copy, Clone, PartialEq, Eq, Structural)]
pub struct ColorU {
    pub r: u8,
    pub g: u8,
    pub b: u8,
    pub a: u8,
}

/// A background color property value.
#[derive(Debug, Copy, Clone, PartialEq, Eq, Structural)]
pub struct StyleBackgroundColor(pub ColorU);

/// A horizontal text alignment property value.
#[derive(Debug, Copy, Clone, PartialEq, Eq, Structural)]
pub enum StyleTextAlignmentHorz {
    Center,
    Left,
    Right,
}

/// A strongly typed CSS property value.
#[derive(Debug, Copy, Clone, PartialEq, Eq, Structural)]
pub enum CssProperty {
    TextAlign(StyleTextAlignmentHorz),
    BackgroundColor(StyleBackgroundColor),
}

/// The fallback of a dynamic property, used when the runtime binding is absent.
#[derive(Debug, Copy, Clone, PartialEq, Eq, Structural)]
pub enum DynamicCssPropertyDefault {
    Auto,
    Exact(CssProperty),
}

/// A declaration whose effective value is resolved at runtime from a named
/// binding, with a fallback default.
#[derive(Debug, Clone, PartialEq)]
pub struct DynamicCssProperty {
    pub dynamic_id: String,
    pub default: DynamicCssPropertyDefault,
}

/// Mathematical view of a `DynamicCssProperty`.
#[verifier::ext_equal]
pub struct SpecDynamicProperty {
    pub dynamic_id: Seq<char>,
    pub default: DynamicCssPropertyDefault,
}

impl View for DynamicCssProperty {
    type V = SpecDynamicProperty;

    open spec fn view(&self) -> SpecDynamicProperty {
        SpecDynamicProperty { dynamic_id: self.dynamic_id@, default: self.default }
    }
}

/// One parsed declaration: either a statically resolved value or a
/// dynamically substitutable one.
#[derive(Debug, Clone, PartialEq)]
pub enum CssDeclaration {
    Static(CssProperty),
    Dynamic(DynamicCssProperty),
}

/// Mathematical view of a `CssDeclaration`.
#[verifier::ext_equal]
pub enum SpecDeclaration {
    Static(CssProperty),
    Dynamic(SpecDynamicProperty),
}

impl View for CssDeclaration {
    type V = SpecDeclaration;

    open spec fn view(&self) -> SpecDeclaration {
        match self {
            CssDeclaration::Static(p) => SpecDeclaration::Static(*p),
            CssDeclaration::Dynamic(d) => SpecDeclaration::Dynamic(d@),
        }
    }
}

/// One step of a selector path, read left-to-right as ancestor-to-target.
#[derive(Debug, Clone, PartialEq)]
pub enum CssPathSelector {
    /// The universal selector `*`.
    Global,
    Type(NodeTypePath),
    Class(String),
    Id(String),
    PseudoSelector(CssPathPseudoSelector),
    /// The `>` combinator: direct children only.
    DirectChildren,
    /// The descendant (space) combinator: children at any depth.
    Children,
}

/// Mathematical view of a `CssPathSelector`.
#[verifier::ext_equal]
pub enum SpecSelector {
    Global,
    Type(NodeTypePath),
    Class(Seq<char>),
    Id(Seq<char>),
    PseudoSelector(CssPathPseudoSelector),
    DirectChildren,
    Children,
}

impl View for CssPathSelector {
    type V = SpecSelector;

    open spec fn view(&self) -> SpecSelector {
        match self {
            CssPathSelector::Global => SpecSelector::Global,
            CssPathSelector::Type(t) => SpecSelector::Type(*t),
            CssPathSelector::Class(s) => SpecSelector::Class(s@),
            CssPathSelector::Id(s) => SpecSelector::Id(s@),
            CssPathSelector::PseudoSelector(p) => SpecSelector::PseudoSelector(*p),
            CssPathSelector::DirectChildren => SpecSelector::DirectChildren,
            CssPathSelector::Children => SpecSelector::Children,
        }
    }
}

/// An ordered selector path describing which DOM nodes a rule targets.
#[derive(Debug, Clone, PartialEq)]
pub struct CssPath {
    pub selectors: Vec<CssPathSelector>,
}

impl View for CssPath {
    type V = Seq<SpecSelector>;

    open spec fn view(&self) -> Seq<SpecSelector> {
        self.selectors@.map_values(|s: CssPathSelector| s@)
    }
}

/// One selector path plus its declarations: the atomic unit of the stylesheet.
#[derive(Debug, Clone, PartialEq)]
pub struct CssRuleBlock {
    pub path: CssPath,
    pub declarations: Vec<CssDeclaration>,
}

/// Mathematical view of a `CssRuleBlock`.
#[verifier::ext_equal]
pub struct SpecRuleBlock {
    pub path: Seq<SpecSelector>,
    pub declarations: Seq<SpecDeclaration>,
}

impl View for CssRuleBlock {
    type V = SpecRuleBlock;

    open spec fn view(&self) -> SpecRuleBlock {
        SpecRuleBlock {
            path: self.path@,
            declarations: self.declarations@.map_values(|d: CssDeclaration| d@),
        }
    }
}

/// A parsed stylesheet: rule blocks in source order.
#[derive(Debug, Clone, PartialEq)]
pub struct Css {
    pub rules: Vec<CssRuleBlock>,
}

impl View for Css {
    type V = Seq<SpecRuleBlock>;

    open spec fn view(&self) -> Seq<SpecRuleBlock> {
        self.rules@.map_values(|r: CssRuleBlock| r@)
    }
}

impl From<Vec<CssRuleBlock>> for Css {
    fn from(rules: Vec<CssRuleBlock>) -> (r: Css) {
        Css { rules }
    }
}

impl vstd::std_specs::convert::FromSpecImpl<Vec<CssRuleBlock>> for Css {
    open spec fn obeys_from_spec() -> bool {
        true
    }

    open spec fn from_spec(rules: Vec<CssRuleBlock>) -> Css {
        Css { rules }
    }
}

/// Copies one selector step, preserving its view exactly.
pub fn copy_selector(s: &CssPathSelector) -> (r: CssPathSelector)
    ensures
        r@ == s@,
{
    match s {
        CssPathSelector::Global => CssPathSelector::Global,
        CssPathSelector::Type(t) => CssPathSelector::Type(*t),
        CssPathSelector::Class(c) => CssPathSelector::Class(c.clone()),
        CssPathSelector::Id(i) => CssPathSelector::Id(i.clone()),
        CssPathSelector::PseudoSelector(p) => CssPathSelector::PseudoSelector(*p),
        CssPathSelector::DirectChildren => CssPathSelector::DirectChildren,
        CssPathSelector::Children => CssPathSelector::Children,
    }
}

/// Copies a selector path by value, preserving its view exactly.
pub fn copy_path(p: &CssPath) -> (r: CssPath)
    ensures
        r@ == p@,
{
    let mut sel: Vec<CssPathSelector> = Vec::new();
    let mut i: usize = 0;
    while i < p.selectors.len()
        invariant
            i <= p.selectors.len(),
            sel@.len() == i,
            forall|j: int| 0 <= j < i ==> sel@[j]@ == p.selectors@[j]@,
        decreases p.selectors.len() - i,
    {
        sel.push(copy_selector(&p.selectors[i]));
        i += 1;
    }
    let r = CssPath { selectors: sel };
    proof {
        assert(r@ =~= p@);
    }
    r
}

/// Copies one declaration, preserving its view exactly.
pub fn copy_declaration(d: &CssDeclaration) -> (r: CssDeclaration)
    ensures
        r@ == d@,
{
    match d {
        CssDeclaration::Static(p) => CssDeclaration::Static(*p),
        CssDeclaration::Dynamic(dp) => CssDeclaration::Dynamic(
            DynamicCssProperty { dynamic_id: dp.dynamic_id.clone(), default: dp.default },
        ),
    }
}

/// Copies a declaration list by value, preserving the sequence of views.
///
/// Blocks expanded from a comma-separated selector list each receive such an
/// independent copy: mutating one block's list can never affect another's.
pub fn copy_declarations(v: &Vec<CssDeclaration>) -> (r: Vec<CssDeclaration>)
    ensures
        r@.map_values(|d: CssDeclaration| d@) == v@.map_values(|d: CssDeclaration| d@),
{
    let mut r: Vec<CssDeclaration> = Vec::new();
    let mut i: usize = 0;
    while i < v.len()
        invariant
            i <= v.len(),
            r@.len() == i,
            forall|j: int| 0 <= j < i ==> r@[j]@ == v@[j]@,
        decreases v.len() - i,
    {
        r.push(copy_declaration(&v[i]));
        i += 1;
    }
    proof {
        assert(r@.map_values(|d: CssDeclaration| d@) =~= v@.map_values(
            |d: CssDeclaration| d@,
        ));
    }
    r
}

} // verus!
