//! Resolution of selector type names against the closed node-type vocabulary.

use vstd::prelude::*;
use crate::stylesheet::NodeTypePath;
use crate::text::str_eq;

verus! {

/// A selector type name outside the node-type vocabulary; carries the text.
#[derive(Debug, Clone, PartialEq, Eq)]
pub enum NodeTypePathParseError {
    Invalid(String),
}

/// Mathematical view of a `NodeTypePathParseError`.
pub enum SpecNodeTypeError {
    Invalid(Seq<char>),
}

impl View for NodeTypePathParseError {
    type V = SpecNodeTypeError;

    open spec fn view(&self) -> SpecNodeTypeError {
        match self {
            NodeTypePathParseError::Invalid(s) => SpecNodeTypeError::Invalid(s@),
        }
    }
}

/// The node type a selector type name denotes: exactly `div`, `p`, `img`,
/// `texture` or `iframe`; any other text is invalid and carried back.
pub open spec fn spec_node_type(s: Seq<char>) -> Result<NodeTypePath, SpecNodeTypeError> {
    if s == "div"@ {
        Ok(NodeTypePath::Div)
    } else if s == "p"@ {
        Ok(NodeTypePath::P)
    } else if s == "img"@ {
        Ok(NodeTypePath::Img)
    } else if s == "texture"@ {
        Ok(NodeTypePath::Texture)
    } else if s == "iframe"@ {
        Ok(NodeTypePath::IFrame)
    } else {
        Err(SpecNodeTypeError::Invalid(s))
    }
}

/// Parses the node type from a CSS type-selector token such as `"div"`.
pub fn node_type_path_from_str(data: &str) -> (r: Result<NodeTypePath, NodeTypePathParseError>)
    ensures
        match r {
            Ok(t) => spec_node_type(data@) == Ok::<NodeTypePath, SpecNodeTypeError>(t),
            Err(e) => spec_node_type(data@) == Err::<NodeTypePath, SpecNodeTypeError>(e@),
        },
{
    if str_eq(data, "div") {
        Ok(NodeTypePath::Div)
    } else if str_eq(data, "p") {
        Ok(NodeTypePath::P)
    } else if str_eq(data, "img") {
        Ok(NodeTypePath::Img)
    } else if str_eq(data, "texture") {
        Ok(NodeTypePath::Texture)
    } else if str_eq(data, "iframe") {
        Ok(NodeTypePath::IFrame)
    } else {
        Err(NodeTypePathParseError::Invalid(String::from_str(data)))
    }
}

} // verus!
