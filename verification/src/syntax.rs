//! The boundary to `syn`, `quote` and `proc_macro2`.
//!
//! The class grammar is this library's own, but attributes, visibilities, identifiers,
//! generics, signatures and blocks are Rust's, and `syn` parses them. Each function
//! below turns token trees into a `proc_macro2::TokenStream`, runs one parser of `syn`
//! on its front, and brings back plain values: the tokens that `syn` prints for what it
//! parsed, and the tokens that it left unread.
//! Nothing in this file is proved. What each contract claims is that the outcome depends
//! on what the tokens say and not on their spans; the outcome itself is only named.
//! What is named is always the whole of what the function does: the conversion, the
//! parser, and the printing. An identifier or literal whose text is none (no lexer
//! makes such a token; a caller can build one by hand) is refused by the lexer on the
//! way in, and that refusal is part of the named outcome too.

use crate::token::erase;
use crate::token::is_punctuation;
use crate::token::well_punctuated;
use crate::token::Adjacency;
use crate::token::Delim;
use crate::token::Token;
use crate::token::TokenTree;
use proc_macro2::TokenStream;
use quote::ToTokens;
use syn::ext::IdentExt;
use syn::parse::ParseStream;
use syn::parse::Parser;
use vstd::prelude::*;

verus! {

/// `proc_macro2::TokenStream`, into which token trees are turned on their way to `syn`.
#[verifier::external_type_specification]
#[verifier::external_body]
pub struct ExTokenStream(proc_macro2::TokenStream);

/// `proc_macro2::Punct`, a punctuation character on its way to `syn`.
#[verifier::external_type_specification]
#[verifier::external_body]
pub struct ExPunct(proc_macro2::Punct);

/// `proc_macro2::Group`, a delimited group on its way to `syn`.
#[verifier::external_type_specification]
#[verifier::external_body]
pub struct ExGroup(proc_macro2::Group);

/// `syn::Error`, as the parsers of `syn` return it.
#[verifier::external_type_specification]
#[verifier::external_body]
pub struct ExError(syn::Error);

/// What a parser of `syn` made of the front of a token sequence.
#[derive(Debug)]
pub struct Parsed {
    /// The tokens that `syn` prints for the syntax tree it built.
    pub tokens: Vec<TokenTree>,
    /// The tokens that it left unread, as it hands them back.
    pub rest: Vec<TokenTree>,
}

/// The two forms in which generic parameters are written again after their
/// declaration.
#[derive(Debug)]
pub struct Split {
    /// After `impl`: the parameters with their bounds, without defaults.
    pub for_impl: Vec<TokenTree>,
    /// After the name of the type: the names of the parameters alone.
    pub for_type: Vec<TokenTree>,
}

/// Why a parser of `syn` gave up.
#[derive(Debug)]
pub struct SyntaxError {
    pub message: String,
    pub span: proc_macro2::Span,
}

/// The outcome of a parser as a value: printed tokens and unread tokens, or the message.
pub type Outcome = Result<(Seq<Token>, Seq<Token>), Seq<char>>;

/// What `result` says, spans apart.
pub open spec fn outcome(result: Result<Parsed, SyntaxError>) -> Outcome {
    match result {
        Ok(parsed) => Ok((erase(parsed.tokens@), erase(parsed.rest@))),
        Err(error) => Err(error.message@),
    }
}

/// What `result` says, spans apart.
pub open spec fn split_outcome(result: Result<Split, SyntaxError>) -> Result<
    (Seq<Token>, Seq<Token>),
    Seq<char>,
> {
    match result {
        Ok(split) => Ok((erase(split.for_impl@), erase(split.for_type@))),
        Err(error) => Err(error.message@),
    }
}

/// What `result` says, spans apart.
pub open spec fn printed(result: Result<Vec<TokenTree>, SyntaxError>) -> Result<
    Seq<Token>,
    Seq<char>,
> {
    match result {
        Ok(tokens) => Ok(erase(tokens@)),
        Err(error) => Err(error.message@),
    }
}

/// What comes of `input` when it is made a token stream and `syn::Attribute::parse_outer`
/// runs on it: the tokens that `quote` prints for the attributes it read together with
/// the tokens it left, or the message of the error, be it the parser's or that of the
/// lexer which refused the text of a token.
pub uninterp spec fn syn_outer_attributes(input: Seq<Token>) -> Outcome;

/// The same for the parser of `syn::Visibility`: conversion, parser, printing and unread
/// tokens, or the message.
pub uninterp spec fn syn_visibility(input: Seq<Token>) -> Outcome;

/// The same for the parser of `syn::Ident`, which refuses keywords.
pub uninterp spec fn syn_ident(input: Seq<Token>) -> Outcome;

/// The same for the parser of `syn::Generics`, which reads `<...>` and no `where`
/// clause. What is printed is the declaration, lifetimes first.
pub uninterp spec fn syn_generics(input: Seq<Token>) -> Outcome;

/// The same for the parser of `syn::Signature`.
pub uninterp spec fn syn_signature(input: Seq<Token>) -> Outcome;

/// The same for the parser of `syn::Block`.
pub uninterp spec fn syn_block(input: Seq<Token>) -> Outcome;

/// What comes of `input` when it is made a token stream, the parser of `syn::Generics`
/// reads its front, and `syn::Generics::split_for_impl` splits what was read: the tokens
/// that `quote` prints for the impl generics and for the type generics, or the message
/// of the error. There is no `where` clause, since the parser reads none.
pub uninterp spec fn syn_split_for_impl(input: Seq<Token>) -> Result<
    (Seq<Token>, Seq<Token>),
    Seq<char>,
>;

/// Whether, when `input` is made a token stream and the parser of `syn::Signature` reads
/// its front, `syn::Signature::receiver` finds a receiver in what was read. It finds
/// none where no signature can be read.
pub uninterp spec fn syn_has_receiver(input: Seq<Token>) -> bool;

/// The span of the first token of that receiver. Every token that `syn` prints for a
/// receiver is one that it read, with the span it had, so this is the span of a tree of
/// `input`. Where there is no receiver the value says nothing.
pub uninterp spec fn syn_receiver_span(input: Seq<TokenTree>) -> proc_macro2::Span;

/// The receiver of the signature at the front of `input`, as the span at which it
/// begins.
pub open spec fn receiver_at(input: Seq<TokenTree>) -> Option<proc_macro2::Span> {
    if syn_has_receiver(erase(input)) {
        Some(syn_receiver_span(input))
    } else {
        None
    }
}

/// What comes of `input` and `argument` when both are made token streams, the parser of
/// `syn::Signature` reads the front of the one, the parser of `syn::FnArg` reads the
/// other, and `syn::punctuated::Punctuated::insert` puts the argument in front of the
/// signature's inputs: the tokens that `quote` prints for the signature then, or the
/// message of the error.
pub uninterp spec fn syn_with_first_input(input: Seq<Token>, argument: Seq<Token>) -> Result<
    Seq<Token>,
    Seq<char>,
>;

/// Builds the `proc_macro2::Punct` for a punctuation character.
/// `proc_macro2::Punct::new` panics on any other character, which `requires` leaves out.
#[verifier::external_body]
fn to_punct(ch: char, spacing: Adjacency) -> proc_macro2::Punct
    requires
        is_punctuation(ch),
{
    match spacing {
        Adjacency::Alone => proc_macro2::Punct::new(ch, proc_macro2::Spacing::Alone),
        Adjacency::Joint => proc_macro2::Punct::new(ch, proc_macro2::Spacing::Joint),
    }
}

/// Builds the `proc_macro2::Group` with the given delimiter around `stream`.
#[verifier::external_body]
fn to_group(delimiter: Delim, stream: &[TokenTree]) -> syn::Result<proc_macro2::Group>
    requires
        well_punctuated(erase(stream@)),
{
    let inner = to_stream(stream)?;
    Ok(match delimiter {
        Delim::Parenthesis => proc_macro2::Group::new(proc_macro2::Delimiter::Parenthesis, inner),
        Delim::Brace => proc_macro2::Group::new(proc_macro2::Delimiter::Brace, inner),
        Delim::Bracket => proc_macro2::Group::new(proc_macro2::Delimiter::Bracket, inner),
        Delim::Invisible => proc_macro2::Group::new(proc_macro2::Delimiter::None, inner),
    })
}

/// Builds the `proc_macro2::TokenStream` that `tokens` spell, spans included. The text of
/// an identifier or a literal goes through the parsers of `syn` and `proc_macro2`, which
/// refuse what is none, where the constructors would panic.
#[verifier::external_body]
fn to_stream(tokens: &[TokenTree]) -> syn::Result<TokenStream>
    requires
        well_punctuated(erase(tokens@)),
{
    let mut out = TokenStream::new();
    for tree in tokens {
        let (mut tree, span): (proc_macro2::TokenTree, _) = match tree {
            TokenTree::Ident { text, span } => (syn::Ident::parse_any.parse_str(text)?.into(), span),
            TokenTree::Punct { ch, spacing, span } => (to_punct(*ch, *spacing).into(), span),
            TokenTree::Literal { text, span } => (text.parse::<proc_macro2::Literal>()?.into(), span),
            TokenTree::Group { delimiter, stream, span } => (to_group(*delimiter, stream)?.into(), span),
        };
        tree.set_span(*span);
        out.extend([tree]);
    }
    Ok(out)
}

/// Reads a `proc_macro2::Punct` into a punctuation token.
#[verifier::external_body]
fn from_punct(punct: proc_macro2::Punct) -> TokenTree {
    match punct.spacing() {
        proc_macro2::Spacing::Alone => TokenTree::Punct {
            ch: punct.as_char(),
            spacing: Adjacency::Alone,
            span: punct.span(),
        },
        proc_macro2::Spacing::Joint => TokenTree::Punct {
            ch: punct.as_char(),
            spacing: Adjacency::Joint,
            span: punct.span(),
        },
    }
}

/// Reads a `proc_macro2::Group` into a group token.
#[verifier::external_body]
fn from_group(group: proc_macro2::Group) -> TokenTree {
    let (stream, span) = (from_stream(group.stream()), group.span());
    match group.delimiter() {
        proc_macro2::Delimiter::Parenthesis => TokenTree::Group { delimiter: Delim::Parenthesis, stream, span },
        proc_macro2::Delimiter::Brace => TokenTree::Group { delimiter: Delim::Brace, stream, span },
        proc_macro2::Delimiter::Bracket => TokenTree::Group { delimiter: Delim::Bracket, stream, span },
        proc_macro2::Delimiter::None => TokenTree::Group { delimiter: Delim::Invisible, stream, span },
    }
}

/// Reads a `proc_macro2::TokenStream` into token trees, one for one, spans included.
#[verifier::external_body]
fn from_stream(stream: TokenStream) -> Vec<TokenTree> {
    let convert = |tree: proc_macro2::TokenTree| match tree {
        proc_macro2::TokenTree::Ident(i) => TokenTree::Ident { text: i.to_string(), span: i.span() },
        proc_macro2::TokenTree::Punct(p) => from_punct(p),
        proc_macro2::TokenTree::Literal(l) => TokenTree::Literal { text: l.to_string(), span: l.span() },
        proc_macro2::TokenTree::Group(g) => from_group(g),
    };
    stream.into_iter().map(convert).collect()
}

/// Turns a `syn::Error` into its message and span.
#[verifier::external_body]
fn failure(error: syn::Error) -> SyntaxError {
    SyntaxError { message: error.to_string(), span: error.span() }
}

/// Turns what a parser returned into plain values: the printed tokens and the unread
/// tokens, or the message and span of the `syn::Error`.
#[verifier::external_body]
fn report(result: syn::Result<(TokenStream, TokenStream)>) -> Result<Parsed, SyntaxError> {
    match result {
        Ok((value, rest)) => Ok(Parsed { tokens: from_stream(value), rest: from_stream(rest) }),
        Err(error) => Err(failure(error)),
    }
}

/// Makes a token stream of the tokens from `start` on and runs `syn::Attribute::parse_outer` on
/// it. Returns what `quote` prints for what was read, and the tokens that were left.
/// The outcome is [`syn_outer_attributes`] of what the tokens say.
#[verifier::external_body]
pub(crate) fn parse_outer_attributes(tokens: &Vec<TokenTree>, start: usize) -> (r: Result<
    Parsed,
    SyntaxError,
>)
    requires
        start <= tokens.len(),
        well_punctuated(erase(tokens@.skip(start as int))),
    ensures
        outcome(r) == syn_outer_attributes(erase(tokens@.skip(start as int))),
{
    let parser = |input: ParseStream| -> syn::Result<(TokenStream, TokenStream)> {
        let value = input.call(syn::Attribute::parse_outer)?;
        Ok((value.iter().map(ToTokens::to_token_stream).collect(), input.parse()?))
    };
    report(to_stream(&tokens[start..]).and_then(|stream| parser.parse2(stream)))
}

/// Makes a token stream of the tokens from `start` on and runs the parser of `syn::Visibility` on
/// it. Returns what `quote` prints for what was read, and the tokens that were left.
/// The outcome is [`syn_visibility`] of what the tokens say.
#[verifier::external_body]
pub(crate) fn parse_visibility(tokens: &Vec<TokenTree>, start: usize) -> (r: Result<
    Parsed,
    SyntaxError,
>)
    requires
        start <= tokens.len(),
        well_punctuated(erase(tokens@.skip(start as int))),
    ensures
        outcome(r) == syn_visibility(erase(tokens@.skip(start as int))),
{
    let parser = |input: ParseStream| -> syn::Result<(TokenStream, TokenStream)> {
        let value = input.parse::<syn::Visibility>()?;
        Ok((value.into_token_stream(), input.parse()?))
    };
    report(to_stream(&tokens[start..]).and_then(|stream| parser.parse2(stream)))
}

/// Makes a token stream of the tokens from `start` on and runs the parser of `syn::Ident` on
/// it. Returns what `quote` prints for what was read, and the tokens that were left.
/// The outcome is [`syn_ident`] of what the tokens say.
#[verifier::external_body]
pub(crate) fn parse_ident(tokens: &Vec<TokenTree>, start: usize) -> (r: Result<
    Parsed,
    SyntaxError,
>)
    requires
        start <= tokens.len(),
        well_punctuated(erase(tokens@.skip(start as int))),
    ensures
        outcome(r) == syn_ident(erase(tokens@.skip(start as int))),
{
    let parser = |input: ParseStream| -> syn::Result<(TokenStream, TokenStream)> {
        let value = input.parse::<syn::Ident>()?;
        Ok((value.into_token_stream(), input.parse()?))
    };
    report(to_stream(&tokens[start..]).and_then(|stream| parser.parse2(stream)))
}

/// Makes a token stream of the tokens from `start` on and runs the parser of `syn::Generics` on
/// it. Returns what `quote` prints for what was read, and the tokens that were left.
/// The outcome is [`syn_generics`] of what the tokens say.
#[verifier::external_body]
pub(crate) fn parse_generics(tokens: &Vec<TokenTree>, start: usize) -> (r: Result<
    Parsed,
    SyntaxError,
>)
    requires
        start <= tokens.len(),
        well_punctuated(erase(tokens@.skip(start as int))),
    ensures
        outcome(r) == syn_generics(erase(tokens@.skip(start as int))),
{
    let parser = |input: ParseStream| -> syn::Result<(TokenStream, TokenStream)> {
        let value = input.parse::<syn::Generics>()?;
        Ok((value.into_token_stream(), input.parse()?))
    };
    report(to_stream(&tokens[start..]).and_then(|stream| parser.parse2(stream)))
}

/// Makes a token stream of the tokens from `start` on and runs the parser of `syn::Signature` on
/// it. Returns what `quote` prints for what was read, and the tokens that were left.
/// The outcome is [`syn_signature`] of what the tokens say.
#[verifier::external_body]
pub(crate) fn parse_signature(tokens: &Vec<TokenTree>, start: usize) -> (r: Result<
    Parsed,
    SyntaxError,
>)
    requires
        start <= tokens.len(),
        well_punctuated(erase(tokens@.skip(start as int))),
    ensures
        outcome(r) == syn_signature(erase(tokens@.skip(start as int))),
{
    let parser = |input: ParseStream| -> syn::Result<(TokenStream, TokenStream)> {
        let value = input.parse::<syn::Signature>()?;
        Ok((value.into_token_stream(), input.parse()?))
    };
    report(to_stream(&tokens[start..]).and_then(|stream| parser.parse2(stream)))
}

/// Makes a token stream of the tokens from `start` on and runs the parser of `syn::Block` on
/// it. Returns what `quote` prints for what was read, and the tokens that were left.
/// The outcome is [`syn_block`] of what the tokens say.
#[verifier::external_body]
pub(crate) fn parse_block(tokens: &Vec<TokenTree>, start: usize) -> (r: Result<
    Parsed,
    SyntaxError,
>)
    requires
        start <= tokens.len(),
        well_punctuated(erase(tokens@.skip(start as int))),
    ensures
        outcome(r) == syn_block(erase(tokens@.skip(start as int))),
{
    let parser = |input: ParseStream| -> syn::Result<(TokenStream, TokenStream)> {
        let value = input.parse::<syn::Block>()?;
        Ok((value.into_token_stream(), input.parse()?))
    };
    report(to_stream(&tokens[start..]).and_then(|stream| parser.parse2(stream)))
}

/// Makes a token stream of the tokens from `start` on, reads a `syn::Generics` from its
/// front and splits it with `syn::Generics::split_for_impl`. Returns what `quote` prints
/// for the impl generics and for the type generics: [`syn_split_for_impl`] of what the
/// tokens say.
#[verifier::external_body]
pub(crate) fn split_generics(tokens: &Vec<TokenTree>, start: usize) -> (r: Result<
    Split,
    SyntaxError,
>)
    requires
        start <= tokens.len(),
        well_punctuated(erase(tokens@.skip(start as int))),
    ensures
        split_outcome(r) == syn_split_for_impl(erase(tokens@.skip(start as int))),
{
    let parser = |input: ParseStream| -> syn::Result<(TokenStream, TokenStream)> {
        let value = input.parse::<syn::Generics>()?;
        input.parse::<TokenStream>()?;
        let (for_impl, for_type, _) = value.split_for_impl();
        Ok((for_impl.into_token_stream(), for_type.into_token_stream()))
    };
    match to_stream(&tokens[start..]).and_then(|stream| parser.parse2(stream)) {
        Ok((a, b)) => Ok(Split { for_impl: from_stream(a), for_type: from_stream(b) }),
        Err(error) => Err(failure(error)),
    }
}

/// Makes a token stream of the tokens from `start` on, reads a `syn::Signature` from its
/// front and asks `syn::Signature::receiver` for its receiver. Returns the span of the
/// first token that `quote` prints for the receiver, and `None` where there is no
/// receiver or no signature: [`receiver_at`] of the tokens.
#[verifier::external_body]
pub(crate) fn signature_receiver(tokens: &Vec<TokenTree>, start: usize) -> (r: Option<
    proc_macro2::Span,
>)
    requires
        start <= tokens.len(),
        well_punctuated(erase(tokens@.skip(start as int))),
    ensures
        r.is_some() == syn_has_receiver(erase(tokens@.skip(start as int))),
        r matches Some(span) ==> span == syn_receiver_span(tokens@.skip(start as int)),
{
    let parser = |input: ParseStream| -> syn::Result<Option<proc_macro2::TokenTree>> {
        let value = input.parse::<syn::Signature>()?;
        input.parse::<TokenStream>()?;
        Ok(value.receiver().and_then(|receiver| receiver.to_token_stream().into_iter().next()))
    };
    let first = to_stream(&tokens[start..]).and_then(|stream| parser.parse2(stream));
    first.ok().flatten().map(|tree| tree.span())
}

/// Makes a token stream of the tokens from `start` on and one of `argument`, reads a
/// `syn::Signature` from the front of the first and a `syn::FnArg` from the second, and
/// puts the argument in front of the signature's inputs with `Punctuated::insert` at
/// index 0, which is never out of range. Returns what `quote` prints for the signature
/// then: [`syn_with_first_input`] of what the two say.
#[verifier::external_body]
pub(crate) fn signature_with_first_input(
    tokens: &Vec<TokenTree>,
    start: usize,
    argument: &Vec<TokenTree>,
) -> (r: Result<Vec<TokenTree>, SyntaxError>)
    requires
        start <= tokens.len(),
        well_punctuated(erase(tokens@.skip(start as int))),
        well_punctuated(erase(argument@)),
    ensures
        printed(r) == syn_with_first_input(erase(tokens@.skip(start as int)), erase(argument@)),
{
    let parser = |input: ParseStream| -> syn::Result<syn::Signature> {
        let value = input.parse::<syn::Signature>()?;
        input.parse::<TokenStream>()?;
        Ok(value)
    };
    let inserted = to_stream(&tokens[start..]).and_then(|s| parser.parse2(s)).and_then(|mut value| {
        value.inputs.insert(0, syn::parse2::<syn::FnArg>(to_stream(argument)?)?);
        Ok(value.into_token_stream())
    });
    inserted.map(from_stream).map_err(failure)
}

} // verus!
