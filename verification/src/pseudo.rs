//! The pseudo-selector grammar: the fixed tokens `first`, `last`, `hover`,
//! `active`, `focus`, and the parameterized `nth-child(n)` form.

use vstd::prelude::*;
use vstd::string::*;
use crate::stylesheet::CssPathPseudoSelector;
use crate::text::spec_is_prefix;
use crate::text::spec_parse_usize;
use crate::text::spec_trim;
use crate::text::parse_usize_digits;
use crate::text::str_eq;
use crate::text::str_starts_with;
use crate::text::trim_str;

verus! {

/// Why a pseudo-class token is not a supported pseudo-selector; each variant
/// carries the offending text.
#[derive(Debug, Clone, PartialEq, Eq)]
pub enum CssPseudoSelectorParseError {
    /// The token is not in the supported vocabulary.
    UnknownSelector(String),
    /// The `nth-child` argument does not parse as a non-negative integer.
    InvalidNthChild(String),
    /// The `nth-child` argument is not wrapped in a matched parenthesis pair.
    UnclosedBracesNthChild(String),
}

/// Mathematical view of a `CssPseudoSelectorParseError`.
pub enum SpecPseudoError {
    UnknownSelector(Seq<char>),
    InvalidNthChild(Seq<char>),
    UnclosedBracesNthChild(Seq<char>),
}

impl View for CssPseudoSelectorParseError {
    type V = SpecPseudoError;

    open spec fn view(&self) -> SpecPseudoError {
        match self {
            CssPseudoSelectorParseError::UnknownSelector(s) => SpecPseudoError::UnknownSelector(
                s@,
            ),
            CssPseudoSelectorParseError::InvalidNthChild(s) => SpecPseudoError::InvalidNthChild(
                s@,
            ),
            CssPseudoSelectorParseError::UnclosedBracesNthChild(
                s,
            ) => SpecPseudoError::UnclosedBracesNthChild(s@),
        }
    }
}

/// The pseudo-selector grammar. The five fixed tokens match exactly; any
/// other text starting with `nth-child` must continue, after trimming, with
/// a matched parenthesis pair whose trimmed content is a non-negative
/// integer. Everything else is unknown.
pub open spec fn spec_pseudo(s: Seq<char>) -> Result<CssPathPseudoSelector, SpecPseudoError> {
    if s == "first"@ {
        Ok(CssPathPseudoSelector::First)
    } else if s == "last"@ {
        Ok(CssPathPseudoSelector::Last)
    } else if s == "hover"@ {
        Ok(CssPathPseudoSelector::Hover)
    } else if s == "active"@ {
        Ok(CssPathPseudoSelector::Active)
    } else if s == "focus"@ {
        Ok(CssPathPseudoSelector::Focus)
    } else if spec_is_prefix("nth-child"@, s) {
        let t = spec_trim(s.subrange("nth-child"@.len() as int, s.len() as int));
        if t.len() >= 2 && t[0] == '(' && t[t.len() - 1] == ')' {
            let inner = spec_trim(t.subrange(1, t.len() - 1));
            match spec_parse_usize(inner) {
                Some(v) => Ok(CssPathPseudoSelector::NthChild(v)),
                None => Err(SpecPseudoError::InvalidNthChild(inner)),
            }
        } else {
            Err(SpecPseudoError::UnclosedBracesNthChild(s))
        }
    } else {
        Err(SpecPseudoError::UnknownSelector(s))
    }
}

/// Parses a pseudo-class token into a pseudo-selector, exactly as
/// `spec_pseudo` says.
pub fn pseudo_selector_from_str(data: &str) -> (r: Result<
    CssPathPseudoSelector,
    CssPseudoSelectorParseError,
>)
    ensures
        match r {
            Ok(p) => spec_pseudo(data@) == Ok::<CssPathPseudoSelector, SpecPseudoError>(p),
            Err(e) => spec_pseudo(data@) == Err::<CssPathPseudoSelector, SpecPseudoError>(e@),
        },
{
    if str_eq(data, "first") {
        Ok(CssPathPseudoSelector::First)
    } else if str_eq(data, "last") {
        Ok(CssPathPseudoSelector::Last)
    } else if str_eq(data, "hover") {
        Ok(CssPathPseudoSelector::Hover)
    } else if str_eq(data, "active") {
        Ok(CssPathPseudoSelector::Active)
    } else if str_eq(data, "focus") {
        Ok(CssPathPseudoSelector::Focus)
    } else if str_starts_with(data, "nth-child") {
        let plen = "nth-child".unicode_len();
        let n = data.unicode_len();
        let t = trim_str(data.substring_char(plen, n));
        let tn = t.unicode_len();
        if tn >= 2 && t.get_char(0) == '(' && t.get_char(tn - 1) == ')' {
            let inner = trim_str(t.substring_char(1, tn - 1));
            match parse_usize_digits(inner) {
                Some(v) => Ok(CssPathPseudoSelector::NthChild(v)),
                None => Err(
                    CssPseudoSelectorParseError::InvalidNthChild(String::from_str(inner)),
                ),
            }
        } else {
            Err(CssPseudoSelectorParseError::UnclosedBracesNthChild(String::from_str(data)))
        }
    } else {
        Err(CssPseudoSelectorParseError::UnknownSelector(String::from_str(data)))
    }
}

} // verus!
