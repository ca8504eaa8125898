//! Grammar primitives: what it means to parse a node, and repetition.

use crate::error::ClassError;
use crate::error::ErrorKind;
use crate::error::Failure;
use crate::syntax::Outcome;
use crate::syntax::Parsed;
use crate::syntax::SyntaxError;
use crate::syntax::outcome;
use crate::token::erase;
use crate::token::is_tail;
use crate::token::Token;
use crate::token::TokenTree;
use vstd::prelude::*;
use vstd::string::*;

verus! {

/// Whether `result` is what the grammar gives: the node with that view and the position
/// after it, or the error that `expected` describes.
pub open spec fn gives<T: View>(
    result: Result<(T, usize), ClassError>,
    expected: Result<(T::V, int), Failure>,
) -> bool {
    match result {
        Ok((node, end)) => expected == Ok::<(T::V, int), Failure>((node@, end as int)),
        Err(error) => expected is Err && error.conforms(expected->Err_0),
    }
}

/// A node of the class grammar, parsed from token trees.
pub trait Parse: View + Sized {
    /// What the grammar makes of `tokens` from position `start` on: the node and the
    /// position after its last token, or an error. `site` is the span of the macro call,
    /// which tokens that the parser adds carry.
    spec fn parsed(tokens: Seq<TokenTree>, start: int, site: proc_macro2::Span) -> Result<
        (Self::V, int),
        Failure,
    >;

    /// Parses one node that begins at `start`.
    fn parse(tokens: &Vec<TokenTree>, start: usize, site: proc_macro2::Span) -> (r: Result<
        (Self, usize),
        ClassError,
    >)
        requires
            start <= tokens.len(),
        ensures
            gives(r, Self::parsed(tokens@, start as int, site)),
            r matches Ok((_, end)) ==> start <= end <= tokens.len(),
    ;
}

/// A node of the class tree that can be written out as tokens.
pub trait ToTokens {
    /// The tokens that stand for the node in generated code.
    spec fn rendering(&self) -> Seq<Token>;

    /// Appends the node's tokens to `tokens`. Tokens that are made here, and not taken
    /// from the node, carry the span `site`.
    fn to_tokens(&self, tokens: &mut Vec<TokenTree>, site: proc_macro2::Span)
        ensures
            erase(final(tokens)@) == erase(old(tokens)@) + self.rendering(),
    ;
}

/// The span at which a parser that stands at `pos` reports what it misses: that of the
/// tree there, and `site` at the end of the input.
pub open spec fn span_at(tokens: Seq<TokenTree>, pos: int, site: proc_macro2::Span)
    -> proc_macro2::Span {
    if 0 <= pos < tokens.len() {
        tokens[pos].span()
    } else {
        site
    }
}

/// The error of a parser that stands at `pos` and misses `what`. At the end of the
/// input the message says so.
pub open spec fn expected(
    tokens: Seq<TokenTree>,
    pos: int,
    site: proc_macro2::Span,
    what: Seq<char>,
) -> Failure {
    if 0 <= pos < tokens.len() {
        Failure::syntax(what, Some(tokens[pos].span()))
    } else {
        Failure::syntax("unexpected end of input, "@ + what, Some(site))
    }
}

/// Builds the error of a parser that stands at `pos` and misses `what`.
pub fn expected_error(
    tokens: &Vec<TokenTree>,
    pos: usize,
    site: proc_macro2::Span,
    what: &str,
) -> (e: ClassError)
    ensures
        e.conforms(expected(tokens@, pos as int, site, what@)),
{
    if pos < tokens.len() {
        ClassError::syntax(String::from_str(what), tokens[pos].span())
    } else {
        let mut message = String::from_str("unexpected end of input, ");
        message.append(what);
        ClassError::syntax(message, site)
    }
}

/// The error for input in which a punctuation token holds a character that is no
/// punctuation. No lexer makes such a token.
pub open spec fn malformed(site: proc_macro2::Span) -> Failure {
    Failure::syntax("expected punctuation token"@, Some(site))
}

/// Builds the error for input with a punctuation token that is none.
pub fn malformed_error(site: proc_macro2::Span) -> (e: ClassError)
    ensures
        e.conforms(malformed(site)),
{
    ClassError::syntax(String::from_str("expected punctuation token"), site)
}

/// The error for a parser whose unread tokens are not the end of what it was given. It
/// arises where the parser stops inside a group without brackets.
pub open spec fn overrun() -> Failure {
    Failure::syntax("parser stopped inside a group without delimiters"@, None)
}

/// Where the outcome of an outside parser leads when it was given the tokens of `input`
/// from `start` on: to the printed tokens and the position after what it read, or to a
/// syntax error with the parser's message. The position is taken from the unread
/// tokens, which must be the end of `input`, tree for tree.
pub open spec fn extent(outcome: Outcome, input: Seq<Token>, start: int) -> Result<
    (Seq<Token>, int),
    Failure,
> {
    match outcome {
        Err(message) => Err(Failure::syntax(message, None)),
        Ok((tokens, rest)) => {
            if rest.len() <= input.len() - start && rest == input.skip(input.len() - rest.len()) {
                Ok((tokens, input.len() - rest.len()))
            } else {
                Err(overrun())
            }
        },
    }
}

/// The error of this library for the error of an outside parser: the same message at
/// the same span.
pub fn syntax_error(error: SyntaxError) -> (e: ClassError)
    ensures
        e.conforms(Failure::syntax(error.message@, None)),
        e.span == error.span,
{
    ClassError::syntax(error.message, error.span)
}

/// Turns what an outside parser reported for the tokens of `tokens` from `start` on
/// into the printed tokens and the position after what it read. An error of the parser
/// keeps its span; an error of this function's own carries the span `site`.
pub fn advance(
    result: Result<Parsed, SyntaxError>,
    tokens: &Vec<TokenTree>,
    start: usize,
    site: proc_macro2::Span,
) -> (r: Result<(Vec<TokenTree>, usize), ClassError>)
    requires
        start <= tokens.len(),
    ensures
        match r {
            Ok((printed, end)) => extent(outcome(result), erase(tokens@), start as int) == Ok::<
                (Seq<Token>, int),
                Failure,
            >((erase(printed@), end as int)) && start <= end <= tokens.len(),
            Err(error) => extent(outcome(result), erase(tokens@), start as int) is Err
                && error.conforms(extent(outcome(result), erase(tokens@), start as int)->Err_0),
        },
        result matches Err(failure) ==> r matches Err(error) && error.span == failure.span,
        result is Ok ==> (r matches Err(error) ==> error.span == site),
{
    match result {
        Err(error) => Err(syntax_error(error)),
        Ok(parsed) => {
            let len = tokens.len();
            if parsed.rest.len() <= len - start && is_tail(
                &parsed.rest,
                tokens,
                len - parsed.rest.len(),
            ) {
                Ok((parsed.tokens, len - parsed.rest.len()))
            } else {
                Err(
                    ClassError::syntax(
                        String::from_str("parser stopped inside a group without delimiters"),
                        site,
                    ),
                )
            }
        },
    }
}

/// The error for a node that was parsed from no token at all, at the span of the tree
/// at which it was tried: repeating it would never end.
pub open spec fn no_progress(span: proc_macro2::Span) -> Failure {
    Failure { kind: ErrorKind::Syntax, message: "parser read no token"@, span: Some(span) }
}

/// `T` taken from `tokens` again and again, from `start` until no token is left: the
/// nodes in order, or the first error.
pub open spec fn repeated<T: Parse>(
    tokens: Seq<TokenTree>,
    start: int,
    site: proc_macro2::Span,
) -> Result<Seq<T::V>, Failure>
    decreases tokens.len() - start,
{
    if start >= tokens.len() || start < 0 {
        Ok(Seq::empty())
    } else {
        match T::parsed(tokens, start, site) {
            Err(failure) => Err(failure),
            Ok((node, end)) => {
                if start < end <= tokens.len() {
                    match repeated::<T>(tokens, end, site) {
                        Err(failure) => Err(failure),
                        Ok(nodes) => Ok(seq![node] + nodes),
                    }
                } else {
                    Err(no_progress(tokens[start].span()))
                }
            },
        }
    }
}

/// The views of a vector of nodes, in order.
pub open spec fn views<T: View>(nodes: Seq<T>) -> Seq<T::V> {
    nodes.map_values(|node: T| node@)
}

/// Parses `T` repeatedly until every token of `tokens` is used. Strict: the first error
/// ends the parse and is returned.
pub fn parse_zero_or_more<T: Parse>(tokens: &Vec<TokenTree>, site: proc_macro2::Span) -> (r:
    Result<Vec<T>, ClassError>)
    ensures
        match r {
            Ok(nodes) => repeated::<T>(tokens@, 0, site) == Ok::<Seq<T::V>, Failure>(
                views(nodes@),
            ),
            Err(error) => repeated::<T>(tokens@, 0, site) is Err && error.conforms(
                repeated::<T>(tokens@, 0, site)->Err_0,
            ),
        },
{
    let mut result: Vec<T> = Vec::new();
    let mut pos: usize = 0;
    assert(views(result@) =~= Seq::<T::V>::empty());
    while pos < tokens.len()
        invariant
            pos <= tokens.len(),
            match repeated::<T>(tokens@, pos as int, site) {
                Ok(nodes) => repeated::<T>(tokens@, 0, site) == Ok::<Seq<T::V>, Failure>(
                    views(result@) + nodes,
                ),
                Err(failure) => repeated::<T>(tokens@, 0, site) == Err::<Seq<T::V>, Failure>(
                    failure,
                ),
            },
        decreases tokens.len() - pos,
    {
        match T::parse(tokens, pos, site) {
            Err(error) => {
                return Err(error);
            },
            Ok((node, end)) => {
                if end <= pos {
                    return Err(
                        ClassError {
                            kind: ErrorKind::Syntax,
                            message: String::from_str("parser read no token"),
                            span: tokens[pos].span(),
                        },
                    );
                }
                proof {
                    let ghost rest = repeated::<T>(tokens@, end as int, site);
                    if rest is Ok {
                        assert(views(result@.push(node)) + rest->Ok_0 =~= views(result@) + (
                        seq![node@] + rest->Ok_0));
                    }
                }
                result.push(node);
                pos = end;
            },
        }
    }
    proof {
        assert(views(result@) + Seq::<T::V>::empty() =~= views(result@));
    }
    Ok(result)
}

} // verus!
