//! The declaration classifier: decides whether a `key: value` declaration is
//! a statically resolved value or a dynamically substitutable value written
//! `[[ identifier | default ]]`, and parses accordingly.

use vstd::prelude::*;
use vstd::string::*;
use crate::properties::CssParsingError;
use crate::properties::SpecParsingError;
use crate::properties::from_kv;
use crate::properties::spec_from_kv;
use crate::stylesheet::CssDeclaration;
use crate::stylesheet::DynamicCssProperty;
use crate::stylesheet::DynamicCssPropertyDefault;
use crate::stylesheet::SpecDeclaration;
use crate::stylesheet::SpecDynamicProperty;
use crate::text::find_char;
use crate::text::is_digit;
use crate::text::spec_find;
use crate::text::spec_trim;
use crate::text::str_eq;
use crate::text::trim_str;

verus! {

/// Why a declaration value is neither a valid static value nor a valid
/// dynamic property.
#[derive(Debug, Clone, PartialEq)]
pub enum DynamicCssParseError {
    /// The `[[` / `]]` markers are mismatched or partial.
    UnclosedBraces,
    /// An identifier was given, but no default value followed.
    NoDefaultCase,
    /// No identifier was given, only a value.
    NoId,
    /// The identifier starts with a digit or is itself a valid value.
    InvalidId,
    /// The braces are empty.
    EmptyBraces,
    /// The typed-value vocabulary rejected a value.
    UnexpectedValue(CssParsingError),
}

/// Mathematical view of a `DynamicCssParseError`.
pub enum SpecDynError {
    UnclosedBraces,
    NoDefaultCase,
    NoId,
    InvalidId,
    EmptyBraces,
    UnexpectedValue(SpecParsingError),
}

impl View for DynamicCssParseError {
    type V = SpecDynError;

    open spec fn view(&self) -> SpecDynError {
        match self {
            DynamicCssParseError::UnclosedBraces => SpecDynError::UnclosedBraces,
            DynamicCssParseError::NoDefaultCase => SpecDynError::NoDefaultCase,
            DynamicCssParseError::NoId => SpecDynError::NoId,
            DynamicCssParseError::InvalidId => SpecDynError::InvalidId,
            DynamicCssParseError::EmptyBraces => SpecDynError::EmptyBraces,
            DynamicCssParseError::UnexpectedValue(e) => SpecDynError::UnexpectedValue(e@),
        }
    }
}

impl From<CssParsingError> for DynamicCssParseError {
    fn from(e: CssParsingError) -> (r: DynamicCssParseError) {
        DynamicCssParseError::UnexpectedValue(e)
    }
}

impl vstd::std_specs::convert::FromSpecImpl<CssParsingError> for DynamicCssParseError {
    open spec fn obeys_from_spec() -> bool {
        true
    }

    open spec fn from_spec(e: CssParsingError) -> DynamicCssParseError {
        DynamicCssParseError::UnexpectedValue(e)
    }
}

/// Whether `s` starts with the two-character marker `[[`.
pub open spec fn starts_with_braces(s: Seq<char>) -> bool {
    s.len() >= 2 && s[0] == '[' && s[1] == '['
}

/// Whether `s` ends with the two-character marker `]]`.
pub open spec fn ends_with_braces(s: Seq<char>) -> bool {
    s.len() >= 2 && s[s.len() - 2] == ']' && s[s.len() - 1] == ']'
}

/// The dynamic-property grammar, applied to a trimmed value that starts
/// with `[[` and ends with `]]`: the markers are stripped, the inside is
/// trimmed and split on the first `|` into identifier and default; empty
/// parts and identifiers that shadow a valid value or start with a digit
/// are rejected; the default is `auto` or a typed value for `key`.
pub open spec fn spec_dynamic(key: Seq<char>, value: Seq<char>) -> Result<
    SpecDynamicProperty,
    SpecDynError,
> {
    let inner = spec_trim(value.subrange(2, value.len() - 2));
    match spec_find(inner, '|') {
        None => {
            if inner.len() == 0 {
                Err(SpecDynError::EmptyBraces)
            } else if spec_from_kv(key, inner) is Ok {
                Err(SpecDynError::NoId)
            } else {
                Err(SpecDynError::NoDefaultCase)
            }
        },
        Some(p) => {
            let id = spec_trim(inner.subrange(0, p));
            let def = spec_trim(inner.subrange(p + 1, inner.len() as int));
            if id.len() == 0 && def.len() == 0 {
                Err(SpecDynError::EmptyBraces)
            } else if id.len() == 0 {
                Err(SpecDynError::NoId)
            } else if def.len() == 0 {
                Err(SpecDynError::NoDefaultCase)
            } else if is_digit(id[0]) || spec_from_kv(key, id) is Ok {
                Err(SpecDynError::InvalidId)
            } else if def == "auto"@ {
                Ok(SpecDynamicProperty { dynamic_id: id, default: DynamicCssPropertyDefault::Auto })
            } else {
                match spec_from_kv(key, def) {
                    Ok(v) => Ok(
                        SpecDynamicProperty {
                            dynamic_id: id,
                            default: DynamicCssPropertyDefault::Exact(v),
                        },
                    ),
                    Err(e) => Err(SpecDynError::UnexpectedValue(e)),
                }
            }
        },
    }
}

/// The classifier: both key and value are trimmed; mismatched `[[` / `]]`
/// markers are an error; matched markers select the dynamic-property
/// grammar; no markers select the typed-value vocabulary, whose error is
/// wrapped as `UnexpectedValue`.
pub open spec fn spec_classify(key: Seq<char>, value: Seq<char>) -> Result<
    SpecDeclaration,
    SpecDynError,
> {
    let k = spec_trim(key);
    let v = spec_trim(value);
    if starts_with_braces(v) != ends_with_braces(v) {
        Err(SpecDynError::UnclosedBraces)
    } else if starts_with_braces(v) {
        match spec_dynamic(k, v) {
            Ok(d) => Ok(SpecDeclaration::Dynamic(d)),
            Err(e) => Err(e),
        }
    } else {
        match spec_from_kv(k, v) {
            Ok(p) => Ok(SpecDeclaration::Static(p)),
            Err(e) => Err(SpecDynError::UnexpectedValue(e)),
        }
    }
}

/// Parses the dynamic-property form `[[ identifier | default ]]`.
///
/// `key` and `value` are already trimmed, and `value` still carries its
/// matched `[[` / `]]` markers.
fn parse_dynamic_css_property(key: &str, value: &str) -> (r: Result<
    DynamicCssProperty,
    DynamicCssParseError,
>)
    requires
        starts_with_braces(value@),
        ends_with_braces(value@),
    ensures
        match r {
            Ok(d) => spec_dynamic(key@, value@) == Ok::<SpecDynamicProperty, SpecDynError>(d@),
            Err(e) => spec_dynamic(key@, value@) == Err::<SpecDynamicProperty, SpecDynError>(e@),
        },
{
    let n = value.unicode_len();
    proof {
        if n < 4 {
            assert(value@[0] == '[' && value@[1] == '[');
            assert(value@[n - 2] == ']' && value@[n - 1] == ']');
        }
    }
    let inner = trim_str(value.substring_char(2, n - 2));
    let inner_len = inner.unicode_len();
    match find_char(inner, '|') {
        None => {
            if inner_len == 0 {
                Err(DynamicCssParseError::EmptyBraces)
            } else if from_kv(key, inner).is_ok() {
                Err(DynamicCssParseError::NoId)
            } else {
                Err(DynamicCssParseError::NoDefaultCase)
            }
        },
        Some(p) => {
            let id = trim_str(inner.substring_char(0, p));
            let def = trim_str(inner.substring_char(p + 1, inner_len));
            let id_len = id.unicode_len();
            let def_len = def.unicode_len();
            if id_len == 0 && def_len == 0 {
                Err(DynamicCssParseError::EmptyBraces)
            } else if id_len == 0 {
                Err(DynamicCssParseError::NoId)
            } else if def_len == 0 {
                Err(DynamicCssParseError::NoDefaultCase)
            } else {
                let first = id.get_char(0) as u32;
                let id_is_value = from_kv(key, id).is_ok();
                if (48 <= first && first <= 57) || id_is_value {
                    Err(DynamicCssParseError::InvalidId)
                } else if str_eq(def, "auto") {
                    Ok(
                        DynamicCssProperty {
                            dynamic_id: String::from_str(id),
                            default: DynamicCssPropertyDefault::Auto,
                        },
                    )
                } else {
                    match from_kv(key, def) {
                        Ok(v) => Ok(
                            DynamicCssProperty {
                                dynamic_id: String::from_str(id),
                                default: DynamicCssPropertyDefault::Exact(v),
                            },
                        ),
                        Err(e) => Err(DynamicCssParseError::UnexpectedValue(e)),
                    }
                }
            }
        },
    }
}

/// Classifies a declaration as static or dynamic, exactly as
/// `spec_classify` says.
pub fn determine_static_or_dynamic_css_property(key: &str, value: &str) -> (r: Result<
    CssDeclaration,
    DynamicCssParseError,
>)
    ensures
        match r {
            Ok(d) => spec_classify(key@, value@) == Ok::<SpecDeclaration, SpecDynError>(d@),
            Err(e) => spec_classify(key@, value@) == Err::<SpecDeclaration, SpecDynError>(e@),
        },
{
    let key = trim_str(key);
    let value = trim_str(value);
    let n = value.unicode_len();
    let starts = n >= 2 && value.get_char(0) == '[' && value.get_char(1) == '[';
    let ends = n >= 2 && value.get_char(n - 2) == ']' && value.get_char(n - 1) == ']';
    if starts != ends {
        Err(DynamicCssParseError::UnclosedBraces)
    } else if starts {
        match parse_dynamic_css_property(key, value) {
            Ok(d) => Ok(CssDeclaration::Dynamic(d)),
            Err(e) => Err(e),
        }
    } else {
        match from_kv(key, value) {
            Ok(p) => Ok(CssDeclaration::Static(p)),
            Err(e) => Err(DynamicCssParseError::UnexpectedValue(e)),
        }
    }
}

} // verus!
