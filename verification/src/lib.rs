//! A stylesheet front-end for a retained-mode UI toolkit: it turns CSS source
//! text into an ordered stylesheet (rule blocks of selector paths and
//! declarations), and classifies each declaration as a statically resolved
//! value or a dynamically substitutable value bound to a runtime identifier.

pub mod css;
pub mod dom;
pub mod dynamic;
pub mod properties;
pub mod pseudo;
pub mod stylesheet;
pub mod text;
pub mod tokens;

pub use css::CssParseError;
pub use css::new_from_str;
pub use dom::NodeTypePathParseError;
pub use dom::node_type_path_from_str;
pub use dynamic::DynamicCssParseError;
pub use dynamic::determine_static_or_dynamic_css_property;
pub use properties::CssParsingError;
pub use properties::InvalidValueErr;
pub use properties::from_kv;
pub use pseudo::CssPseudoSelectorParseError;
pub use pseudo::pseudo_selector_from_str;
pub use tokens::CssSyntaxError;
pub use stylesheet::Css;
pub use stylesheet::CssDeclaration;
pub use stylesheet::CssPath;
pub use stylesheet::CssPathPseudoSelector;
pub use stylesheet::CssPathSelector;
pub use stylesheet::CssProperty;
pub use stylesheet::CssRuleBlock;
pub use stylesheet::ColorU;
pub use stylesheet::DynamicCssProperty;
pub use stylesheet::DynamicCssPropertyDefault;
pub use stylesheet::NodeTypePath;
pub use stylesheet::StyleBackgroundColor;
pub use stylesheet::StyleTextAlignmentHorz;
