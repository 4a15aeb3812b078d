//! The selector-path builder: a finite state machine over the CSS token
//! stream that accumulates selector paths and declarations and emits rule
//! blocks in source order.
//!
//! The machine has two states, outside and inside a declaration block, plus
//! a nesting counter, the pending selector paths of the current rule (one
//! per comma-separated group), the accumulating path, and the accumulating
//! declaration list. `spec_step` is the transition function; a parse is its
//! fold over the token stream, as `spec_parses_to` states.

use vstd::prelude::*;
use crate::dom::NodeTypePathParseError;
use crate::dom::SpecNodeTypeError;
use crate::dom::node_type_path_from_str;
use crate::dom::spec_node_type;
use crate::dynamic::DynamicCssParseError;
use crate::dynamic::SpecDynError;
use crate::dynamic::determine_static_or_dynamic_css_property;
use crate::dynamic::spec_classify;
use crate::properties::CssParsingError;
use crate::properties::SpecParsingError;
use crate::pseudo::CssPseudoSelectorParseError;
use crate::pseudo::SpecPseudoError;
use crate::pseudo::pseudo_selector_from_str;
use crate::pseudo::spec_pseudo;
use crate::stylesheet::Css;
use crate::stylesheet::CssDeclaration;
use crate::stylesheet::CssPath;
use crate::stylesheet::CssPathSelector;
use crate::stylesheet::CssRuleBlock;
use crate::stylesheet::SpecDeclaration;
use crate::stylesheet::SpecRuleBlock;
use crate::stylesheet::SpecSelector;
use crate::stylesheet::copy_declarations;
use crate::stylesheet::copy_path;
use crate::tokens::CssSyntaxError;
use crate::tokens::CssToken;
use crate::tokens::SpecToken;
use crate::tokens::TokenStep;
use crate::tokens::TokenStream;
use crate::tokens::spec_token_at;
use crate::tokens::token_stream_new;
use crate::tokens::token_stream_next;
use crate::text::spec_first_non_ascii;
use crate::text::spec_trim;
use crate::text::first_non_ascii;
use crate::text::lemma_trim_last_not_space;
use crate::text::lemma_trim_preserves_ascii;
use crate::text::trim_str;
use crate::tokens::lexable;

verus! {

/// Error that can happen during the parsing of a CSS value.
#[derive(Debug, Clone, PartialEq)]
pub enum CssParseError {
    /// A hard error in the CSS syntax, reported by the lexer.
    ParseError(CssSyntaxError),
    /// Block nesting never returned to zero.
    UnclosedBlock,
    /// Invalid structure: a selector token inside a block, a declaration
    /// outside a block, a double block open, or an unmatched block close.
    MalformedCss,
    /// A declaration value was neither a valid static value nor a valid
    /// dynamic property.
    DynamicCssParseError(DynamicCssParseError),
    /// A value the typed-value vocabulary rejected.
    UnexpectedValue(CssParsingError),
    /// A pseudo-class token outside the supported pseudo-selector grammar.
    PseudoSelectorParseError(CssPseudoSelectorParseError),
    /// A selector type name outside the node-type vocabulary.
    NodeTypePath(NodeTypePathParseError),
    /// A character outside ASCII, which the lexer does not support; carries
    /// the first such character of the text.
    NonAsciiInput(char),
}

/// Mathematical view of a `CssParseError`.
pub enum SpecCssError {
    ParseError(CssSyntaxError),
    UnclosedBlock,
    MalformedCss,
    DynamicCssParseError(SpecDynError),
    UnexpectedValue(SpecParsingError),
    PseudoSelectorParseError(SpecPseudoError),
    NodeTypePath(SpecNodeTypeError),
    NonAsciiInput(char),
}

impl View for CssParseError {
    type V = SpecCssError;

    open spec fn view(&self) -> SpecCssError {
        match self {
            CssParseError::ParseError(e) => SpecCssError::ParseError(*e),
            CssParseError::UnclosedBlock => SpecCssError::UnclosedBlock,
            CssParseError::MalformedCss => SpecCssError::MalformedCss,
            CssParseError::DynamicCssParseError(e) => SpecCssError::DynamicCssParseError(e@),
            CssParseError::UnexpectedValue(e) => SpecCssError::UnexpectedValue(e@),
            CssParseError::PseudoSelectorParseError(e) => SpecCssError::PseudoSelectorParseError(
                e@,
            ),
            CssParseError::NodeTypePath(e) => SpecCssError::NodeTypePath(e@),
            CssParseError::NonAsciiInput(c) => SpecCssError::NonAsciiInput(*c),
        }
    }
}

/// The parser state: outside or inside a declaration block, the nesting
/// counter, the pending selector paths of the current rule, the
/// accumulating path, the accumulating declarations, and the rule blocks
/// emitted so far.
#[verifier::ext_equal]
pub struct SpecParseState {
    pub in_block: bool,
    pub nesting: nat,
    pub pending: Seq<Seq<SpecSelector>>,
    pub current_path: Seq<SpecSelector>,
    pub decls: Seq<SpecDeclaration>,
    pub blocks: Seq<SpecRuleBlock>,
}

/// The initial parser state: outside any block, with everything empty.
pub open spec fn init_state() -> SpecParseState {
    SpecParseState {
        in_block: false,
        nesting: 0,
        pending: Seq::empty(),
        current_path: Seq::empty(),
        decls: Seq::empty(),
        blocks: Seq::empty(),
    }
}

/// One rule block per pending selector path, in order, all sharing the same
/// declaration sequence.
pub open spec fn expand_pending(
    pending: Seq<Seq<SpecSelector>>,
    decls: Seq<SpecDeclaration>,
) -> Seq<SpecRuleBlock> {
    pending.map_values(|p: Seq<SpecSelector>| SpecRuleBlock { path: p, declarations: decls })
}

/// `st` with `sel` appended to the accumulating selector path.
pub open spec fn push_selector(st: SpecParseState, sel: SpecSelector) -> SpecParseState {
    SpecParseState {
        in_block: st.in_block,
        nesting: st.nesting,
        pending: st.pending,
        current_path: st.current_path.push(sel),
        decls: st.decls,
        blocks: st.blocks,
    }
}

/// `st` with the accumulating path moved into the pending list.
pub open spec fn push_pending(st: SpecParseState) -> SpecParseState {
    SpecParseState {
        in_block: st.in_block,
        nesting: st.nesting,
        pending: st.pending.push(st.current_path),
        current_path: Seq::empty(),
        decls: st.decls,
        blocks: st.blocks,
    }
}

/// The transition function of the parser.
///
/// A block start moves the accumulating path into the pending list and
/// enters the block (a second open is malformed); a comma moves the
/// accumulating path into the pending list; a block end emits one rule
/// block per pending path, in order, each with a copy of the accumulated
/// declarations (a close outside a block is malformed); selector tokens
/// extend the accumulating path and are illegal inside a block;
/// declarations are classified and are illegal outside a block; ignored
/// tokens and the end of the stream change nothing.
#[verifier::opaque]
pub open spec fn spec_step(st: SpecParseState, t: SpecToken) -> Result<
    SpecParseState,
    SpecCssError,
> {
    match t {
        SpecToken::BlockStart => {
            if st.in_block {
                Err(SpecCssError::MalformedCss)
            } else {
                Ok(
                    SpecParseState {
                        in_block: true,
                        nesting: st.nesting + 1,
                        pending: st.pending.push(st.current_path),
                        current_path: Seq::empty(),
                        decls: st.decls,
                        blocks: st.blocks,
                    },
                )
            }
        },
        SpecToken::Comma => Ok(push_pending(st)),
        SpecToken::BlockEnd => {
            if !st.in_block || st.nesting == 0 {
                Err(SpecCssError::MalformedCss)
            } else {
                Ok(
                    SpecParseState {
                        in_block: false,
                        nesting: (st.nesting - 1) as nat,
                        pending: Seq::empty(),
                        current_path: Seq::empty(),
                        decls: Seq::empty(),
                        blocks: st.blocks + expand_pending(st.pending, st.decls),
                    },
                )
            }
        },
        SpecToken::UniversalSelector => {
            if st.in_block {
                Err(SpecCssError::MalformedCss)
            } else {
                Ok(push_selector(st, SpecSelector::Global))
            }
        },
        SpecToken::TypeSelector(s) => {
            if st.in_block {
                Err(SpecCssError::MalformedCss)
            } else {
                match spec_node_type(s) {
                    Ok(ty) => Ok(push_selector(st, SpecSelector::Type(ty))),
                    Err(e) => Err(SpecCssError::NodeTypePath(e)),
                }
            }
        },
        SpecToken::IdSelector(s) => {
            if st.in_block {
                Err(SpecCssError::MalformedCss)
            } else {
                Ok(push_selector(st, SpecSelector::Id(s)))
            }
        },
        SpecToken::ClassSelector(s) => {
            if st.in_block {
                Err(SpecCssError::MalformedCss)
            } else {
                Ok(push_selector(st, SpecSelector::Class(s)))
            }
        },
        SpecToken::DirectChildCombinator => {
            if st.in_block {
                Err(SpecCssError::MalformedCss)
            } else {
                Ok(push_selector(st, SpecSelector::DirectChildren))
            }
        },
        SpecToken::DescendantCombinator => {
            if st.in_block {
                Err(SpecCssError::MalformedCss)
            } else {
                Ok(push_selector(st, SpecSelector::Children))
            }
        },
        SpecToken::PseudoClass(s) => {
            if st.in_block {
                Err(SpecCssError::MalformedCss)
            } else {
                match spec_pseudo(s) {
                    Ok(p) => Ok(push_selector(st, SpecSelector::PseudoSelector(p))),
                    Err(e) => Err(SpecCssError::PseudoSelectorParseError(e)),
                }
            }
        },
        SpecToken::Declaration(k, v) => {
            if !st.in_block {
                Err(SpecCssError::MalformedCss)
            } else {
                match spec_classify(k, v) {
                    Ok(d) => Ok(
                        SpecParseState {
                            in_block: st.in_block,
                            nesting: st.nesting,
                            pending: st.pending,
                            current_path: st.current_path,
                            decls: st.decls.push(d),
                            blocks: st.blocks,
                        },
                    ),
                    Err(e) => Err(SpecCssError::DynamicCssParseError(e)),
                }
            }
        },
        SpecToken::EndOfStream => Ok(st),
        SpecToken::Ignored => Ok(st),
    }
}

/// The state after folding `spec_step` over `toks` from the initial state;
/// the first failing transition aborts the whole parse.
pub open spec fn spec_state_after(toks: Seq<SpecToken>) -> Result<SpecParseState, SpecCssError>
    decreases toks.len(),
{
    if toks.len() == 0 {
        Ok(init_state())
    } else {
        match spec_state_after(toks.drop_last()) {
            Ok(st) => spec_step(st, toks.last()),
            Err(e) => Err(e),
        }
    }
}

/// After the token loop: nesting must have returned to zero, else the
/// whole parse fails with `UnclosedBlock`.
pub open spec fn spec_finish(st: SpecParseState) -> Result<Seq<SpecRuleBlock>, SpecCssError> {
    if st.nesting != 0 {
        Err(SpecCssError::UnclosedBlock)
    } else {
        Ok(st.blocks)
    }
}

/// The tokens at indices `0 .. toks.len()` of the stream of `src` are
/// exactly `toks`, none of them the end of the stream or a lexer error.
pub open spec fn tokens_match(src: Seq<char>, toks: Seq<SpecToken>) -> bool {
    forall|j: int|
        0 <= j < toks.len() ==> #[trigger] spec_token_at(src, j) == TokenStep::Tok(toks[j]) && !(
        toks[j] is EndOfStream)
}

/// How the run over `toks` ends: at the first failing transition, whose
/// error is returned; at a lexer error, passed through; or at the end of
/// the stream, where the nesting check decides.
pub open spec fn run_ends(
    src: Seq<char>,
    toks: Seq<SpecToken>,
    r: Result<Seq<SpecRuleBlock>, SpecCssError>,
) -> bool {
    match spec_state_after(toks) {
        Err(e) => r == Err::<Seq<SpecRuleBlock>, SpecCssError>(e),
        Ok(st) => match spec_token_at(src, toks.len() as int) {
            TokenStep::Fail(e) => r == Err::<Seq<SpecRuleBlock>, SpecCssError>(
                SpecCssError::ParseError(e),
            ),
            TokenStep::Tok(t) => t == SpecToken::EndOfStream && r == spec_finish(st),
        },
    }
}

/// What parsing `src` returns: the fold of the transition function over the
/// consumed prefix of the token stream of `src`.
pub open spec fn spec_parses_to(
    src: Seq<char>,
    r: Result<Seq<SpecRuleBlock>, SpecCssError>,
) -> bool {
    exists|toks: Seq<SpecToken>| #[trigger] tokens_match(src, toks) && run_ends(src, toks, r)
}

/// What parsing the raw text returns: a text holding a character outside
/// ASCII is rejected up front, carrying the first such character (the
/// lexer is ASCII-only); any other text is trimmed — whitespace at either
/// end carries no tokens — and the result is the fold over its token
/// stream, as `spec_parses_to` states.
pub open spec fn spec_parse_outcome(
    src: Seq<char>,
    r: Result<Seq<SpecRuleBlock>, SpecCssError>,
) -> bool {
    match spec_first_non_ascii(src) {
        Some(c) => r == Err::<Seq<SpecRuleBlock>, SpecCssError>(SpecCssError::NonAsciiInput(c)),
        None => spec_parses_to(spec_trim(src), r),
    }
}

/// The view of a parse result.
pub open spec fn result_view(r: Result<Css, CssParseError>) -> Result<
    Seq<SpecRuleBlock>,
    SpecCssError,
> {
    match r {
        Ok(c) => Ok(c@),
        Err(e) => Err(e@),
    }
}

/// The executable parser state; its view is a `SpecParseState`.
struct ParserState {
    in_block: bool,
    nesting: usize,
    pending: Vec<CssPath>,
    current_path: Vec<CssPathSelector>,
    decls: Vec<CssDeclaration>,
    blocks: Vec<CssRuleBlock>,
}

impl View for ParserState {
    type V = SpecParseState;

    closed spec fn view(&self) -> SpecParseState {
        SpecParseState {
            in_block: self.in_block,
            nesting: self.nesting as nat,
            pending: self.pending@.map_values(|p: CssPath| p@),
            current_path: self.current_path@.map_values(|s: CssPathSelector| s@),
            decls: self.decls@.map_values(|d: CssDeclaration| d@),
            blocks: self.blocks@.map_values(|b: CssRuleBlock| b@),
        }
    }
}

/// Whether the machine invariant holds: single-level nesting, and the
/// inside-a-block flag agrees with the nesting counter.
pub open spec fn state_wf(st: SpecParseState) -> bool {
    st.nesting <= 1 && (st.in_block <==> st.nesting == 1)
}

/// Applies one token to the parser state, exactly as `spec_step` says.
fn parse_step(state: &mut ParserState, tok: CssToken) -> (r: Result<(), CssParseError>)
    requires
        state_wf(old(state)@),
    ensures
        match r {
            Ok(_) => spec_step(old(state)@, tok@) == Ok::<SpecParseState, SpecCssError>(
                final(state)@,
            ) && state_wf(final(state)@),
            Err(e) => spec_step(old(state)@, tok@) == Err::<SpecParseState, SpecCssError>(e@),
        },
{
    proof {
        reveal(spec_step);
    }
    let ghost st0 = old(state)@;
    match tok {
        CssToken::BlockStart => {
            if state.in_block {
                return Err(CssParseError::MalformedCss);
            }
            state.in_block = true;
            state.nesting = state.nesting + 1;
            let mut taken: Vec<CssPathSelector> = Vec::new();
            core::mem::swap(&mut taken, &mut state.current_path);
            state.pending.push(CssPath { selectors: taken });
            proof {
                assert(state@.pending =~= st0.pending.push(st0.current_path));
                assert(state@.current_path =~= Seq::<SpecSelector>::empty());
                assert(state@ =~~= (SpecParseState {
                    in_block: true,
                    nesting: st0.nesting + 1,
                    pending: st0.pending.push(st0.current_path),
                    current_path: Seq::empty(),
                    decls: st0.decls,
                    blocks: st0.blocks,
                }));
            }
            Ok(())
        },
        CssToken::Comma => {
            let mut taken: Vec<CssPathSelector> = Vec::new();
            core::mem::swap(&mut taken, &mut state.current_path);
            state.pending.push(CssPath { selectors: taken });
            proof {
                assert(state@.pending =~= st0.pending.push(st0.current_path));
                assert(state@.current_path =~= Seq::<SpecSelector>::empty());
                assert(state@ =~~= push_pending(st0));
            }
            Ok(())
        },
        CssToken::BlockEnd => {
            if !state.in_block || state.nesting == 0 {
                return Err(CssParseError::MalformedCss);
            }
            state.in_block = false;
            state.nesting = state.nesting - 1;
            let mut i: usize = 0;
            proof {
                assert(st0.pending.take(0) =~= Seq::<Seq<SpecSelector>>::empty());
                assert(state@.blocks =~~= st0.blocks + expand_pending(
                    st0.pending.take(0),
                    st0.decls,
                ));
            }
            while i < state.pending.len()
                invariant
                    i <= state.pending.len(),
                    state@.in_block == false,
                    st0.nesting >= 1,
                    state@.nesting == st0.nesting - 1,
                    state@.pending == st0.pending,
                    state@.current_path == st0.current_path,
                    state@.decls == st0.decls,
                    state@.blocks == st0.blocks + expand_pending(
                        st0.pending.take(i as int),
                        st0.decls,
                    ),
                decreases state.pending.len() - i,
            {
                let path = copy_path(&state.pending[i]);
                let d = copy_declarations(&state.decls);
                proof {
                    assert(state@.pending[i as int] == st0.pending[i as int]);
                    assert(path@ == st0.pending[i as int]);
                    assert(d@.map_values(|x: CssDeclaration| x@) =~= st0.decls);
                }
                let ghost blocks0 = state@.blocks;
                state.blocks.push(CssRuleBlock { path, declarations: d });
                proof {
                    assert(state@.blocks =~= blocks0.push(CssRuleBlock { path, declarations: d }@));
                    assert((CssRuleBlock { path, declarations: d })@ =~~= (SpecRuleBlock {
                        path: st0.pending[i as int],
                        declarations: st0.decls,
                    }));
                    assert(state@.blocks =~~= st0.blocks + expand_pending(
                        st0.pending.take(i + 1 as int),
                        st0.decls,
                    ));
                }
                i += 1;
            }
            state.pending = Vec::new();
            state.current_path = Vec::new();
            state.decls = Vec::new();
            proof {
                assert(st0.pending.take(st0.pending.len() as int) =~= st0.pending);
                assert(expand_pending(st0.pending.take(st0.pending.len() as int), st0.decls)
                    =~= expand_pending(st0.pending, st0.decls));
                assert(state@.pending =~= Seq::<Seq<SpecSelector>>::empty());
                assert(state@.current_path =~= Seq::<SpecSelector>::empty());
                assert(state@.decls =~= Seq::<SpecDeclaration>::empty());
                assert(state@ =~~= (SpecParseState {
                    in_block: false,
                    nesting: (st0.nesting - 1) as nat,
                    pending: Seq::empty(),
                    current_path: Seq::empty(),
                    decls: Seq::empty(),
                    blocks: st0.blocks + expand_pending(st0.pending, st0.decls),
                }));
            }
            Ok(())
        },
        CssToken::UniversalSelector => {
            if state.in_block {
                return Err(CssParseError::MalformedCss);
            }
            state.current_path.push(CssPathSelector::Global);
            proof {
                assert(state@.current_path =~= st0.current_path.push(SpecSelector::Global));
                assert(state@ =~~= push_selector(st0, SpecSelector::Global));
            }
            Ok(())
        },
        CssToken::TypeSelector(s) => {
            if state.in_block {
                return Err(CssParseError::MalformedCss);
            }
            match node_type_path_from_str(s.as_str()) {
                Ok(ty) => {
                    state.current_path.push(CssPathSelector::Type(ty));
                    proof {
                        assert(state@.current_path =~= st0.current_path.push(SpecSelector::Type(ty)));
                assert(state@ =~~= push_selector(st0, SpecSelector::Type(ty)));
                    }
                    Ok(())
                },
                Err(e) => Err(CssParseError::NodeTypePath(e)),
            }
        },
        CssToken::IdSelector(s) => {
            if state.in_block {
                return Err(CssParseError::MalformedCss);
            }
            let ghost sv = s@;
            state.current_path.push(CssPathSelector::Id(s));
            proof {
                assert(state@.current_path =~= st0.current_path.push(SpecSelector::Id(sv)));
                assert(state@ =~~= push_selector(st0, SpecSelector::Id(sv)));
            }
            Ok(())
        },
        CssToken::ClassSelector(s) => {
            if state.in_block {
                return Err(CssParseError::MalformedCss);
            }
            let ghost sv = s@;
            state.current_path.push(CssPathSelector::Class(s));
            proof {
                assert(state@.current_path =~= st0.current_path.push(SpecSelector::Class(sv)));
                assert(state@ =~~= push_selector(st0, SpecSelector::Class(sv)));
            }
            Ok(())
        },
        CssToken::DirectChildCombinator => {
            if state.in_block {
                return Err(CssParseError::MalformedCss);
            }
            state.current_path.push(CssPathSelector::DirectChildren);
            proof {
                assert(state@.current_path =~= st0.current_path.push(SpecSelector::DirectChildren));
                assert(state@ =~~= push_selector(st0, SpecSelector::DirectChildren));
            }
            Ok(())
        },
        CssToken::DescendantCombinator => {
            if state.in_block {
                return Err(CssParseError::MalformedCss);
            }
            state.current_path.push(CssPathSelector::Children);
            proof {
                assert(state@.current_path =~= st0.current_path.push(SpecSelector::Children));
                assert(state@ =~~= push_selector(st0, SpecSelector::Children));
            }
            Ok(())
        },
        CssToken::PseudoClass(s) => {
            if state.in_block {
                return Err(CssParseError::MalformedCss);
            }
            match pseudo_selector_from_str(s.as_str()) {
                Ok(p) => {
                    state.current_path.push(CssPathSelector::PseudoSelector(p));
                    proof {
                        assert(state@.current_path =~= st0.current_path.push(SpecSelector::PseudoSelector(p)));
                assert(state@ =~~= push_selector(st0, SpecSelector::PseudoSelector(p)));
                    }
                    Ok(())
                },
                Err(e) => Err(CssParseError::PseudoSelectorParseError(e)),
            }
        },
        CssToken::Declaration(k, v) => {
            if !state.in_block {
                return Err(CssParseError::MalformedCss);
            }
            match determine_static_or_dynamic_css_property(k.as_str(), v.as_str()) {
                Ok(d) => {
                    let ghost dv = d@;
                    state.decls.push(d);
                    proof {
                        assert(state@.decls =~= st0.decls.push(dv));
                        assert(state@ =~~= (SpecParseState {
                            in_block: st0.in_block,
                            nesting: st0.nesting,
                            pending: st0.pending,
                            current_path: st0.current_path,
                            decls: st0.decls.push(dv),
                            blocks: st0.blocks,
                        }));
                    }
                    Ok(())
                },
                Err(e) => Err(CssParseError::DynamicCssParseError(e)),
            }
        },
        CssToken::EndOfStream => Ok(()),
        CssToken::Ignored => Ok(()),
    }
}

/// Parses a CSS string and returns the parsed rules as a stylesheet, rule
/// blocks in source order, as `spec_parses_to` states.
/// Order invariant, one step: a successful transition only appends to the
/// emitted rule blocks; every block already emitted keeps its index.
pub proof fn lemma_step_preserves_block_order(
    st: SpecParseState,
    t: SpecToken,
    st2: SpecParseState,
)
    requires
        spec_step(st, t) == Ok::<SpecParseState, SpecCssError>(st2),
    ensures
        st.blocks.is_prefix_of(st2.blocks),
{
    reveal(spec_step);
    assert(st.blocks =~= st.blocks.subrange(0, st.blocks.len() as int));
    if st2.blocks.len() > st.blocks.len() {
        assert(st.blocks =~= st2.blocks.subrange(0, st.blocks.len() as int));
    } else {
        assert(st.blocks =~= st2.blocks.subrange(0, st.blocks.len() as int));
    }
}

/// Order invariant, whole runs: the blocks standing after any prefix of
/// the token stream stand unchanged, in the same order and at the same
/// indices, at the start of the blocks of the whole run. Rule blocks are
/// emitted in source order and never re-sorted.
pub proof fn lemma_run_preserves_block_order(
    toks: Seq<SpecToken>,
    i: int,
    sti: SpecParseState,
    stn: SpecParseState,
)
    requires
        0 <= i <= toks.len(),
        spec_state_after(toks.take(i)) == Ok::<SpecParseState, SpecCssError>(sti),
        spec_state_after(toks) == Ok::<SpecParseState, SpecCssError>(stn),
    ensures
        sti.blocks.is_prefix_of(stn.blocks),
        stn.blocks == sti.blocks + stn.blocks.skip(sti.blocks.len() as int),
    decreases toks.len() - i,
{
    if i == toks.len() {
        assert(toks.take(i) =~= toks);
        assert(sti.blocks =~= stn.blocks.subrange(0, sti.blocks.len() as int));
        assert(stn.blocks =~= sti.blocks + stn.blocks.skip(sti.blocks.len() as int));
    } else {
        let shorter = toks.drop_last();
        let stm = match spec_state_after(shorter) {
            Ok(m) => m,
            Err(_) => arbitrary(),
        };
        assert(spec_state_after(shorter) == Ok::<SpecParseState, SpecCssError>(stm));
        assert(spec_step(stm, toks.last()) == Ok::<SpecParseState, SpecCssError>(stn));
        assert(shorter.take(i) =~= toks.take(i));
        lemma_run_preserves_block_order(shorter, i, sti, stm);
        lemma_step_preserves_block_order(stm, toks.last(), stn);
        assert(sti.blocks =~= stn.blocks.subrange(0, sti.blocks.len() as int));
        assert(stn.blocks =~= sti.blocks + stn.blocks.skip(sti.blocks.len() as int));
    }
}

/// Comma expansion, accumulation: from outside a block, a comma and the
/// block start each move exactly one accumulated selector group into the
/// pending list, which therefore holds one path per comma-separated group,
/// in source order.
pub proof fn lemma_groups_accumulate(st: SpecParseState, t: SpecToken, st2: SpecParseState)
    requires
        spec_step(st, t) == Ok::<SpecParseState, SpecCssError>(st2),
        t is Comma || t is BlockStart,
    ensures
        st2.pending == st.pending.push(st.current_path),
        st2.current_path == Seq::<SpecSelector>::empty(),
        st2.decls == st.decls,
        st2.blocks == st.blocks,
{
    reveal(spec_step);
}

/// Comma expansion, group preservation: a selector token, an ignored
/// token or the end of the stream never changes the pending group list,
/// the accumulated declarations or the emitted blocks — so over one rule,
/// the pending list grows by exactly one path per comma-separated group
/// and by nothing else.
pub proof fn lemma_selector_token_keeps_groups(
    st: SpecParseState,
    t: SpecToken,
    st2: SpecParseState,
)
    requires
        spec_step(st, t) == Ok::<SpecParseState, SpecCssError>(st2),
        !(t is Comma),
        !(t is BlockStart),
        !(t is BlockEnd),
        !(t is Declaration),
    ensures
        st2.pending == st.pending,
        st2.decls == st.decls,
        st2.blocks == st.blocks,
{
    reveal(spec_step);
}

/// Comma expansion, emission: closing a block emits exactly one rule block
/// per pending selector group, in order, and every one of them carries the
/// same declaration sequence.
pub proof fn lemma_block_end_expands_groups(st: SpecParseState, st2: SpecParseState)
    requires
        spec_step(st, SpecToken::BlockEnd) == Ok::<SpecParseState, SpecCssError>(st2),
    ensures
        st2.blocks.len() == st.blocks.len() + st.pending.len(),
        forall|i: int|
            0 <= i < st.pending.len() ==> st2.blocks[st.blocks.len() + i] == (SpecRuleBlock {
                path: st.pending[i],
                declarations: st.decls,
            }),
{
    reveal(spec_step);
}

/// The state after folding the transition function over `toks`, starting
/// from the outcome `r`; an error is final.
pub open spec fn spec_run_from(
    r: Result<SpecParseState, SpecCssError>,
    toks: Seq<SpecToken>,
) -> Result<SpecParseState, SpecCssError>
    decreases toks.len(),
{
    if toks.len() == 0 {
        r
    } else {
        match spec_run_from(r, toks.drop_last()) {
            Ok(st) => spec_step(st, toks.last()),
            Err(e) => Err(e),
        }
    }
}

proof fn lemma_state_after_is_run_from(toks: Seq<SpecToken>)
    ensures
        spec_state_after(toks) == spec_run_from(Ok(init_state()), toks),
    decreases toks.len(),
{
    if toks.len() > 0 {
        lemma_state_after_is_run_from(toks.drop_last());
    }
}

proof fn lemma_run_from_err(e: SpecCssError, toks: Seq<SpecToken>)
    ensures
        spec_run_from(Err(e), toks) == Err::<SpecParseState, SpecCssError>(e),
    decreases toks.len(),
{
    if toks.len() > 0 {
        lemma_run_from_err(e, toks.drop_last());
    }
}

proof fn lemma_run_from_concat(
    r: Result<SpecParseState, SpecCssError>,
    a: Seq<SpecToken>,
    b: Seq<SpecToken>,
)
    ensures
        spec_run_from(r, a + b) == spec_run_from(spec_run_from(r, a), b),
    decreases b.len(),
{
    if b.len() == 0 {
        assert(a + b =~= a);
    } else {
        assert((a + b).drop_last() =~= a + b.drop_last());
        assert((a + b).last() == b.last());
        lemma_run_from_concat(r, a, b.drop_last());
    }
}

/// Tokens that only build selector paths: everything but the block
/// delimiters and declarations.
pub open spec fn is_selector_run(toks: Seq<SpecToken>) -> bool {
    forall|j: int|
        0 <= j < toks.len() ==> !((#[trigger] toks[j]) is BlockStart) && !(toks[j] is BlockEnd)
            && !(toks[j] is Declaration)
}

/// Declaration and ignored tokens only.
pub open spec fn is_declaration_run(toks: Seq<SpecToken>) -> bool {
    forall|j: int|
        0 <= j < toks.len() ==> ((#[trigger] toks[j]) is Declaration) || toks[j] is Ignored
}

/// How many commas `toks` holds.
pub open spec fn count_commas(toks: Seq<SpecToken>) -> int
    decreases toks.len(),
{
    if toks.len() == 0 {
        0
    } else {
        count_commas(toks.drop_last()) + if toks.last() is Comma {
            1int
        } else {
            0int
        }
    }
}

/// The selector path of the group still open after `toks`: the path `c0`
/// accumulated before them, extended by the selector steps after the last
/// comma (a comma clears it).
pub open spec fn spec_open_group_path(
    c0: Seq<SpecSelector>,
    toks: Seq<SpecToken>,
) -> Seq<SpecSelector>
    decreases toks.len(),
{
    if toks.len() == 0 {
        c0
    } else {
        let p = spec_open_group_path(c0, toks.drop_last());
        match toks.last() {
            SpecToken::Comma => Seq::empty(),
            SpecToken::UniversalSelector => p.push(SpecSelector::Global),
            SpecToken::TypeSelector(s) => match spec_node_type(s) {
                Ok(t) => p.push(SpecSelector::Type(t)),
                Err(_) => p,
            },
            SpecToken::IdSelector(s) => p.push(SpecSelector::Id(s)),
            SpecToken::ClassSelector(s) => p.push(SpecSelector::Class(s)),
            SpecToken::DirectChildCombinator => p.push(SpecSelector::DirectChildren),
            SpecToken::DescendantCombinator => p.push(SpecSelector::Children),
            SpecToken::PseudoClass(s) => match spec_pseudo(s) {
                Ok(q) => p.push(SpecSelector::PseudoSelector(q)),
                Err(_) => p,
            },
            _ => p,
        }
    }
}

/// The selector paths of the groups `toks` closes with commas, in source
/// order.
pub open spec fn spec_closed_group_paths(
    c0: Seq<SpecSelector>,
    toks: Seq<SpecToken>,
) -> Seq<Seq<SpecSelector>>
    decreases toks.len(),
{
    if toks.len() == 0 {
        Seq::empty()
    } else if toks.last() is Comma {
        spec_closed_group_paths(c0, toks.drop_last()).push(
            spec_open_group_path(c0, toks.drop_last()),
        )
    } else {
        spec_closed_group_paths(c0, toks.drop_last())
    }
}

/// One selector path per comma-separated group of a rule's selector
/// tokens: the groups closed by commas, then the group the block start
/// closes.
pub open spec fn spec_rule_paths(toks: Seq<SpecToken>) -> Seq<Seq<SpecSelector>> {
    spec_closed_group_paths(Seq::empty(), toks).push(
        spec_open_group_path(Seq::empty(), toks),
    )
}

/// The declarations of a block, classified from its declaration tokens in
/// source order, appended to `d0`.
pub open spec fn spec_decl_list(
    d0: Seq<SpecDeclaration>,
    toks: Seq<SpecToken>,
) -> Seq<SpecDeclaration>
    decreases toks.len(),
{
    if toks.len() == 0 {
        d0
    } else {
        let d = spec_decl_list(d0, toks.drop_last());
        match toks.last() {
            SpecToken::Declaration(k, v) => match spec_classify(k, v) {
                Ok(x) => d.push(x),
                Err(_) => d,
            },
            _ => d,
        }
    }
}

proof fn lemma_closed_group_paths_len(c0: Seq<SpecSelector>, toks: Seq<SpecToken>)
    ensures
        spec_closed_group_paths(c0, toks).len() == count_commas(toks),
    decreases toks.len(),
{
    if toks.len() > 0 {
        lemma_closed_group_paths_len(c0, toks.drop_last());
    }
}

#[verifier::rlimit(60)]
proof fn lemma_selector_run_groups(st: SpecParseState, toks: Seq<SpecToken>, st2: SpecParseState)
    requires
        is_selector_run(toks),
        spec_run_from(Ok(st), toks) == Ok::<SpecParseState, SpecCssError>(st2),
    ensures
        st2.pending == st.pending + spec_closed_group_paths(st.current_path, toks),
        st2.current_path == spec_open_group_path(st.current_path, toks),
        st2.in_block == st.in_block,
        st2.nesting == st.nesting,
        st2.decls == st.decls,
        st2.blocks == st.blocks,
    decreases toks.len(),
{
    reveal(spec_step);
    if toks.len() == 0 {
        assert(st.pending + spec_closed_group_paths(st.current_path, toks) =~= st.pending);
    } else {
        let a = toks.drop_last();
        assert(is_selector_run(a)) by {
            assert(forall|j: int| 0 <= j < a.len() ==> a[j] == toks[j]);
        }
        let stm = match spec_run_from(Ok(st), a) {
            Ok(m) => m,
            Err(e) => arbitrary(),
        };
        if spec_run_from(Ok(st), a) is Err {
            assert(false);
        }
        assert(spec_run_from(Ok(st), a) == Ok::<SpecParseState, SpecCssError>(stm));
        lemma_selector_run_groups(st, a, stm);
        assert(spec_step(stm, toks.last()) == Ok::<SpecParseState, SpecCssError>(st2));
        if toks.last() is Comma {
            assert(st2.pending =~= st.pending + spec_closed_group_paths(st.current_path, toks));
        } else {
            assert(spec_closed_group_paths(st.current_path, toks) == spec_closed_group_paths(
                st.current_path,
                a,
            ));
        }
    }
}

#[verifier::rlimit(60)]
proof fn lemma_declaration_run_groups(st: SpecParseState, toks: Seq<SpecToken>, st2: SpecParseState)
    requires
        is_declaration_run(toks),
        spec_run_from(Ok(st), toks) == Ok::<SpecParseState, SpecCssError>(st2),
    ensures
        st2.pending == st.pending,
        st2.current_path == st.current_path,
        st2.in_block == st.in_block,
        st2.nesting == st.nesting,
        st2.decls == spec_decl_list(st.decls, toks),
        st2.blocks == st.blocks,
    decreases toks.len(),
{
    reveal(spec_step);
    if toks.len() > 0 {
        let a = toks.drop_last();
        assert(is_declaration_run(a)) by {
            assert(forall|j: int| 0 <= j < a.len() ==> a[j] == toks[j]);
        }
        let stm = match spec_run_from(Ok(st), a) {
            Ok(m) => m,
            Err(e) => arbitrary(),
        };
        if spec_run_from(Ok(st), a) is Err {
            assert(false);
        }
        assert(spec_run_from(Ok(st), a) == Ok::<SpecParseState, SpecCssError>(stm));
        lemma_declaration_run_groups(st, a, stm);
        assert(spec_step(stm, toks.last()) == Ok::<SpecParseState, SpecCssError>(st2));
    }
}

/// For every well-formed single-rule token run — selector tokens holding
/// `k` commas, a block start, declarations, a block end — run from any
/// state that stands outside a block with no pending rule, the machine
/// appends exactly `k + 1` rule blocks after the blocks already emitted:
/// block `i` carries the path of the `i`-th comma-separated selector
/// group, in source order, and every block carries the same declaration
/// sequence, classified from the block's declarations in source order.
/// The machine returns to a state outside any block with no pending rule,
/// so consecutive rules compose: a stylesheet's blocks are its rules'
/// expansions, concatenated in source order.
#[verifier::rlimit(100)]
pub proof fn lemma_single_block_expansion(
    st0: SpecParseState,
    sel: Seq<SpecToken>,
    decls: Seq<SpecToken>,
    stn: SpecParseState,
)
    requires
        st0.in_block == false,
        st0.pending == Seq::<Seq<SpecSelector>>::empty(),
        st0.current_path == Seq::<SpecSelector>::empty(),
        st0.decls == Seq::<SpecDeclaration>::empty(),
        is_selector_run(sel),
        is_declaration_run(decls),
        spec_run_from(
            Ok(st0),
            sel + seq![SpecToken::BlockStart] + decls + seq![SpecToken::BlockEnd],
        ) == Ok::<SpecParseState, SpecCssError>(stn),
    ensures
        stn.blocks == st0.blocks + expand_pending(
            spec_rule_paths(sel),
            spec_decl_list(Seq::empty(), decls),
        ),
        stn.blocks.len() == st0.blocks.len() + count_commas(sel) + 1,
        stn.in_block == false,
        stn.nesting == st0.nesting,
        stn.pending == Seq::<Seq<SpecSelector>>::empty(),
        stn.current_path == Seq::<SpecSelector>::empty(),
        stn.decls == Seq::<SpecDeclaration>::empty(),
{
    let whole = sel + seq![SpecToken::BlockStart] + decls + seq![SpecToken::BlockEnd];
    let r0 = Ok::<SpecParseState, SpecCssError>(st0);
    lemma_run_from_concat(r0, sel + seq![SpecToken::BlockStart] + decls, seq![SpecToken::BlockEnd]);
    lemma_run_from_concat(r0, sel + seq![SpecToken::BlockStart], decls);
    lemma_run_from_concat(r0, sel, seq![SpecToken::BlockStart]);

    let r1 = spec_run_from(r0, sel);
    let st1 = match r1 {
        Ok(m) => m,
        Err(e) => arbitrary(),
    };
    if r1 is Err {
        let e = match r1 {
            Ok(m) => arbitrary(),
            Err(e) => e,
        };
        lemma_run_from_err(e, seq![SpecToken::BlockStart]);
        lemma_run_from_err(e, decls);
        lemma_run_from_err(e, seq![SpecToken::BlockEnd]);
        assert(false);
    }
    lemma_selector_run_groups(st0, sel, st1);
    lemma_closed_group_paths_len(st0.current_path, sel);

    let r2 = spec_run_from(r1, seq![SpecToken::BlockStart]);
    let bstart = seq![SpecToken::BlockStart];
    assert(bstart.len() == 1);
    assert(bstart.drop_last() =~= Seq::<SpecToken>::empty());
    assert(spec_run_from(r1, bstart.drop_last()) == r1);
    assert(bstart.last() == SpecToken::BlockStart);
    assert(r2 == spec_step(st1, SpecToken::BlockStart));
    let st2 = match r2 {
        Ok(m) => m,
        Err(e) => arbitrary(),
    };
    if r2 is Err {
        let e = match r2 {
            Ok(m) => arbitrary(),
            Err(e) => e,
        };
        lemma_run_from_err(e, decls);
        lemma_run_from_err(e, seq![SpecToken::BlockEnd]);
        assert(false);
    }
    assert(st2.pending =~= spec_rule_paths(sel) && st2.in_block && st2.nesting == st0.nesting + 1
        && st2.blocks == st0.blocks && st2.decls == st0.decls) by {
        reveal(spec_step);
    }

    let r3 = spec_run_from(r2, decls);
    let st3 = match r3 {
        Ok(m) => m,
        Err(e) => arbitrary(),
    };
    if r3 is Err {
        let e = match r3 {
            Ok(m) => arbitrary(),
            Err(e) => e,
        };
        lemma_run_from_err(e, seq![SpecToken::BlockEnd]);
        assert(false);
    }
    lemma_declaration_run_groups(st2, decls, st3);
    assert(st3.decls == spec_decl_list(Seq::empty(), decls));

    let bend = seq![SpecToken::BlockEnd];
    assert(bend.len() == 1);
    assert(bend.drop_last() =~= Seq::<SpecToken>::empty());
    assert(spec_run_from(r3, bend.drop_last()) == r3);
    assert(bend.last() == SpecToken::BlockEnd);
    assert(spec_run_from(r3, bend) == Ok::<SpecParseState, SpecCssError>(stn));
    assert(spec_step(st3, SpecToken::BlockEnd) == Ok::<SpecParseState, SpecCssError>(stn));
    assert(stn.blocks == st3.blocks + expand_pending(st3.pending, st3.decls) && !stn.in_block
        && stn.nesting == st0.nesting && stn.pending =~= Seq::<Seq<SpecSelector>>::empty()
        && stn.current_path =~= Seq::<SpecSelector>::empty() && stn.decls
        =~= Seq::<SpecDeclaration>::empty()) by {
        reveal(spec_step);
    }
}

proof fn lemma_extend_run(src: Seq<char>, toks: Seq<SpecToken>, t: SpecToken)
    requires
        tokens_match(src, toks),
        spec_token_at(src, toks.len() as int) == TokenStep::Tok(t),
        !(t is EndOfStream),
    ensures
        tokens_match(src, toks.push(t)),
        spec_state_after(toks.push(t)) == (match spec_state_after(toks) {
            Ok(st) => spec_step(st, t),
            Err(e) => Err(e),
        }),
{
    let toks2 = toks.push(t);
    assert(toks2.drop_last() =~= toks);
    assert(toks2.last() == t);
    assert forall|j: int| 0 <= j < toks2.len() implies #[trigger] spec_token_at(src, j)
        == TokenStep::Tok(toks2[j]) && !(toks2[j] is EndOfStream) by {
        if j < toks.len() {
            assert(spec_token_at(src, j) == TokenStep::Tok(toks[j]) && !(toks[j] is EndOfStream));
            assert(toks2[j] == toks[j]);
        } else {
            assert(j == toks.len());
            assert(toks2[j] == t);
        }
    }
}

proof fn lemma_parses_to(
    src: Seq<char>,
    toks: Seq<SpecToken>,
    r: Result<Seq<SpecRuleBlock>, SpecCssError>,
)
    requires
        tokens_match(src, toks),
        run_ends(src, toks, r),
    ensures
        spec_parses_to(src, r),
{
}

/// Parses a CSS string and returns the parsed rules as a stylesheet, rule
/// blocks in source order, as `spec_parse_outcome` states.
///
/// The lexer is ASCII-only and panics on some other texts, so text holding
/// a character outside ASCII is rejected up front as `NonAsciiInput`.
/// Whitespace at either end carries no tokens and is trimmed before the
/// text is handed to the lexer, which reads one character past an
/// all-space tail inside an open block; an unclosed block is reported as
/// `UnclosedBlock` instead.
#[verifier::rlimit(100)]
pub fn new_from_str(css_string: &str) -> (r: Result<Css, CssParseError>)
    ensures
        spec_parse_outcome(css_string@, result_view(r)),
{
    match first_non_ascii(css_string) {
        Some(c) => {
            return Err(CssParseError::NonAsciiInput(c));
        },
        None => {},
    }
    let trimmed = trim_str(css_string);
    let ghost src = trimmed@;
    proof {
        lemma_trim_preserves_ascii(css_string@);
        lemma_trim_last_not_space(css_string@);
        assert(lexable(src));
    }
    let mut ts: TokenStream<'_> = token_stream_new(trimmed);
    let mut state = ParserState {
        in_block: false,
        nesting: 0,
        pending: Vec::new(),
        current_path: Vec::new(),
        decls: Vec::new(),
        blocks: Vec::new(),
    };
    let ghost mut toks: Seq<SpecToken> = Seq::empty();
    proof {
        assert(state@ =~~= init_state());
    }
    loop
        invariant
            spec_first_non_ascii(css_string@) is None,
            src == spec_trim(css_string@),
            lexable(src),
            ts.src() == src,
            ts.pos() == toks.len(),
            tokens_match(src, toks),
            spec_state_after(toks) == Ok::<SpecParseState, SpecCssError>(state@),
            state_wf(state@),
        decreases ts.remaining(),
    {
        match token_stream_next(&mut ts) {
            Err(e) => {
                let r = Err(CssParseError::ParseError(e));
                proof {
                    assert(run_ends(src, toks, result_view(r)));
                    lemma_parses_to(src, toks, result_view(r));
                }
                return r;
            },
            Ok(tok) => {
                let is_end = match &tok {
                    CssToken::EndOfStream => true,
                    _ => false,
                };
                if is_end {
                    proof {
                        assert(tok@ is EndOfStream);
                        assert(spec_token_at(src, toks.len() as int) == TokenStep::Tok(
                            SpecToken::EndOfStream,
                        ));
                    }
                    if state.nesting != 0 {
                        let r = Err(CssParseError::UnclosedBlock);
                        proof {
                            assert(run_ends(src, toks, result_view(r)));
                            lemma_parses_to(src, toks, result_view(r));
                        }
                        return r;
                    }
                    let ghost stv = state@;
                    let r = Ok(Css { rules: state.blocks });
                    proof {
                        assert((match r {
                            Ok(c) => c@,
                            Err(_) => Seq::empty(),
                        }) =~= stv.blocks);
                        assert(result_view(r) == Ok::<Seq<SpecRuleBlock>, SpecCssError>(
                            stv.blocks,
                        ));
                        assert(run_ends(src, toks, result_view(r)));
                        lemma_parses_to(src, toks, result_view(r));
                    }
                    return r;
                }
                proof {
                    assert(!(tok@ is EndOfStream));
                    lemma_extend_run(src, toks, tok@);
                }
                let ghost t = tok@;
                let ghost toks2 = toks.push(t);
                match parse_step(&mut state, tok) {
                    Ok(_) => {
                        proof {
                            toks = toks2;
                        }
                    },
                    Err(e) => {
                        let r = Err(e);
                        proof {
                            assert(spec_state_after(toks2) == Err::<SpecParseState, SpecCssError>(
                                e@,
                            ));
                            assert(run_ends(src, toks2, result_view(r)));
                            lemma_parses_to(src, toks2, result_view(r));
                        }
                        return r;
                    },
                }
            },
        }
    }
}

} // verus!
