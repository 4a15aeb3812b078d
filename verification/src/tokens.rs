//! The boundary to the CSS token lexer: the `simplecss` tokenizer emits the
//! flat token stream this library's grammar consumes.
//!
//! The tokenizer is deterministic: its whole state is its position in the
//! source text, a rule-or-declaration mode and two flags, all advanced as a
//! function of the text alone. The token the `idx`-th call yields on a
//! stream over `src` is therefore named by the uninterpreted function
//! `spec_token_at(src, idx)`, and every contract of the parser speaks
//! through that name.

use vstd::prelude::*;
use simplecss::Combinator;
use simplecss::Token;
use crate::text::all_ascii;
use crate::text::is_whitespace_char;

verus! {

/// The texts the lexer is relied on for: ASCII only, and not ending in a
/// whitespace character. On any other text `parse_next` can panic: after a
/// declaration name it skips one byte assuming a colon, which on multi-byte
/// text can land inside a character and make a later slice start off a
/// character boundary, and on an all-space tail inside an open block it
/// reads one byte past the end.
pub open spec fn lexable(src: Seq<char>) -> bool {
    all_ascii(src) && (src.len() > 0 ==> !is_whitespace_char(src.last()))
}

/// Position of a tokenizer error: row and column, starting at 1:1.
#[derive(Debug, Copy, Clone, PartialEq, Eq, Structural)]
pub struct ErrorPosition {
    pub row: usize,
    pub col: usize,
}

/// A hard error in the CSS syntax, reported by the tokenizer.
#[derive(Debug, Copy, Clone, PartialEq, Eq, Structural)]
pub enum CssSyntaxError {
    /// The stream ended earlier than expected.
    UnexpectedEndOfStream(ErrorPosition),
    /// An advance past the end of the stream.
    InvalidAdvance { expected: isize, total: usize, pos: ErrorPosition },
    /// A token the lexer does not support, such as an at-rule.
    UnsupportedToken(ErrorPosition),
    /// A token the lexer does not know.
    UnknownToken(ErrorPosition),
}

/// One token of the CSS token stream, with owned text.
#[derive(Debug, Clone, PartialEq, Eq)]
pub enum CssToken {
    /// The universal selector `*`.
    UniversalSelector,
    /// A type selector such as `div`.
    TypeSelector(String),
    /// An id selector, without the `#`.
    IdSelector(String),
    /// A class selector, without the `.`.
    ClassSelector(String),
    /// A pseudo-class, without the `:`.
    PseudoClass(String),
    /// The `>` combinator.
    DirectChildCombinator,
    /// The descendant (space) combinator.
    DescendantCombinator,
    /// The `,` separating selector groups.
    Comma,
    /// `{`.
    BlockStart,
    /// `}`.
    BlockEnd,
    /// A `key: value` declaration.
    Declaration(String, String),
    /// The end of the stream; parsing is finished.
    EndOfStream,
    /// Attribute selectors, language pseudo-classes and the `+` combinator:
    /// recognized by the lexer, silently ignored by this grammar.
    Ignored,
}

/// Mathematical view of a `CssToken`.
pub enum SpecToken {
    UniversalSelector,
    TypeSelector(Seq<char>),
    IdSelector(Seq<char>),
    ClassSelector(Seq<char>),
    PseudoClass(Seq<char>),
    DirectChildCombinator,
    DescendantCombinator,
    Comma,
    BlockStart,
    BlockEnd,
    Declaration(Seq<char>, Seq<char>),
    EndOfStream,
    Ignored,
}

impl View for CssToken {
    type V = SpecToken;

    open spec fn view(&self) -> SpecToken {
        match self {
            CssToken::UniversalSelector => SpecToken::UniversalSelector,
            CssToken::TypeSelector(s) => SpecToken::TypeSelector(s@),
            CssToken::IdSelector(s) => SpecToken::IdSelector(s@),
            CssToken::ClassSelector(s) => SpecToken::ClassSelector(s@),
            CssToken::PseudoClass(s) => SpecToken::PseudoClass(s@),
            CssToken::DirectChildCombinator => SpecToken::DirectChildCombinator,
            CssToken::DescendantCombinator => SpecToken::DescendantCombinator,
            CssToken::Comma => SpecToken::Comma,
            CssToken::BlockStart => SpecToken::BlockStart,
            CssToken::BlockEnd => SpecToken::BlockEnd,
            CssToken::Declaration(k, v) => SpecToken::Declaration(k@, v@),
            CssToken::EndOfStream => SpecToken::EndOfStream,
            CssToken::Ignored => SpecToken::Ignored,
        }
    }
}

/// The outcome of one tokenizer call: a token, or a syntax error.
pub enum TokenStep {
    Tok(SpecToken),
    Fail(CssSyntaxError),
}

/// The outcome of the `idx`-th `parse_next` call on a tokenizer freshly
/// made from `src`.
pub uninterp spec fn spec_token_at(src: Seq<char>, idx: int) -> TokenStep;

/// The view of a tokenizer call's result as a `TokenStep`.
pub open spec fn step_view(r: Result<CssToken, CssSyntaxError>) -> TokenStep {
    match r {
        Ok(t) => TokenStep::Tok(t@),
        Err(e) => TokenStep::Fail(e),
    }
}

#[verifier::external_type_specification]
#[verifier::external_body]
pub struct ExTokenizer<'a>(simplecss::Tokenizer<'a>);

#[verifier::external_type_specification]
#[verifier::external_body]
pub struct ExToken<'a>(Token<'a>);

#[verifier::external_type_specification]
#[verifier::external_body]
pub struct ExError(simplecss::Error);

/// The token stream of one CSS source text, read one token per call.
pub struct TokenStream<'a> {
    inner: simplecss::Tokenizer<'a>,
    src: Ghost<Seq<char>>,
    pos: Ghost<int>,
    remaining: Ghost<nat>,
}

impl<'a> TokenStream<'a> {
    /// The source text this stream was made from.
    pub closed spec fn src(self) -> Seq<char> {
        self.src@
    }

    /// How many tokens have been read so far.
    pub closed spec fn pos(self) -> int {
        self.pos@
    }

    /// An upper bound on the tokens the stream can still yield: the
    /// characters of the text not yet consumed.
    pub closed spec fn remaining(self) -> nat {
        self.remaining@
    }
}

/// Relies on simplecss::Tokenizer::new: a fresh tokenizer over `text`,
/// positioned before the first token.
#[verifier::external_body]
fn tokenizer_new<'a>(text: &'a str) -> simplecss::Tokenizer<'a> {
    simplecss::Tokenizer::new(text)
}

/// Opens the token stream of `text`, positioned before the first token.
pub fn token_stream_new<'a>(text: &'a str) -> (ts: TokenStream<'a>)
    ensures
        ts.src() == text@,
        ts.pos() == 0,
        ts.remaining() == text@.len(),
{
    TokenStream {
        inner: tokenizer_new(text),
        src: Ghost(text@),
        pos: Ghost(0int),
        remaining: Ghost(text@.len()),
    }
}

/// Relies on simplecss::Token: renames each lexer token into this library's
/// owned token, moving the borrowed text; the variants this grammar ignores
/// collapse into `Ignored`.
#[verifier::external_body]
fn convert_token(t: Token<'_>) -> CssToken {
    match t {
        Token::UniversalSelector => CssToken::UniversalSelector,
        Token::TypeSelector(s) => CssToken::TypeSelector(s.to_owned()),
        Token::IdSelector(s) => CssToken::IdSelector(s.to_owned()),
        Token::ClassSelector(s) => CssToken::ClassSelector(s.to_owned()),
        Token::PseudoClass(s) => CssToken::PseudoClass(s.to_owned()),
        Token::Combinator(Combinator::GreaterThan) => CssToken::DirectChildCombinator,
        Token::Combinator(Combinator::Space) => CssToken::DescendantCombinator,
        Token::Comma => CssToken::Comma,
        Token::BlockStart => CssToken::BlockStart,
        Token::BlockEnd => CssToken::BlockEnd,
        Token::Declaration(k, v) => CssToken::Declaration(k.to_owned(), v.to_owned()),
        Token::EndOfStream => CssToken::EndOfStream,
        _ => CssToken::Ignored,
    }
}

/// Relies on simplecss::Error: copies each error variant and its position.
#[verifier::external_body]
fn convert_error(e: simplecss::Error) -> CssSyntaxError {
    match e {
        simplecss::Error::UnexpectedEndOfStream(p) => CssSyntaxError::UnexpectedEndOfStream(ErrorPosition { row: p.row, col: p.col }),
        simplecss::Error::InvalidAdvance { expected, total, pos } => CssSyntaxError::InvalidAdvance { expected, total, pos: ErrorPosition { row: pos.row, col: pos.col } },
        simplecss::Error::UnsupportedToken(p) => CssSyntaxError::UnsupportedToken(ErrorPosition { row: p.row, col: p.col }),
        simplecss::Error::UnknownToken(p) => CssSyntaxError::UnknownToken(ErrorPosition { row: p.row, col: p.col }),
    }
}

/// Relies on simplecss::Tokenizer::parse_next, in three ways. First, on a
/// `lexable` text the call cannot panic: every read is bounds-checked
/// before it happens (`at_end` treats any overshot position as the end, so
/// the one blind byte skip past an assumed declaration colon is caught by
/// the checked reads that follow), the one unchecked read — at the start of
/// a declaration, after skipping spaces — cannot be at the end because the
/// text does not end in whitespace, and on ASCII text every slice lies on
/// character boundaries. Second, the token or error of one call is a
/// function of the source text and of how many calls were made before: the
/// tokenizer's whole state is its position in the text, its
/// rule-or-declaration mode and two flags, all advanced deterministically
/// from the text alone. Third, every token other than the end of the
/// stream consumes at least one character of the text, so the characters
/// not yet consumed strictly decrease.
#[verifier::external_body]
pub fn token_stream_next<'a>(ts: &mut TokenStream<'a>) -> (r: Result<CssToken, CssSyntaxError>)
    requires
        lexable(old(ts).src()),
    ensures
        final(ts).src() == old(ts).src(),
        final(ts).pos() == old(ts).pos() + 1,
        step_view(r) == spec_token_at(old(ts).src(), old(ts).pos()),
        match r {
            Ok(t) => !(t@ is EndOfStream) ==> final(ts).remaining() < old(ts).remaining(),
            Err(e) => true,
        },
{
    match ts.inner.parse_next() {
        Ok(t) => Ok(convert_token(t)),
        Err(e) => Err(convert_error(e)),
    }
}

} // verus!
