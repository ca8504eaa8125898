//! The members of a class: methods, and data fields, which are reserved.

use crate::error::ClassError;
use crate::error::Failure;
use crate::modifiers::scan_modifiers;
use crate::modifiers::ClassModifiers;
use crate::modifiers::ClassVisibility;
use crate::modifiers::Modifiers;
use crate::syntax::parse_block;
use crate::syntax::parse_outer_attributes;
use crate::syntax::parse_signature;
use crate::syntax::receiver_at;
use crate::syntax::signature_receiver;
use crate::syntax::signature_with_first_input;
use crate::syntax::syn_block;
use crate::syntax::syn_has_receiver;
use crate::syntax::syn_outer_attributes;
use crate::syntax::syn_signature;
use crate::syntax::syn_with_first_input;
use crate::token::append_tokens;
use crate::token::check_punctuation;
use crate::token::erase;
use crate::token::lemma_erase_empty;
use crate::token::lemma_erase_push;
use crate::token::lemma_well_punctuated_tail;
use crate::token::well_punctuated;
use crate::token::word_token;
use crate::token::Adjacency;
use crate::token::Name;
use crate::token::Token;
use crate::token::TokenTree;
use crate::utils::advance;
use crate::utils::extent;
use crate::utils::malformed;
use crate::utils::malformed_error;
use crate::utils::span_at;
use crate::utils::syntax_error;
use crate::utils::Parse;
use crate::utils::ToTokens;
use crate::validate::Validate;
use vstd::prelude::*;

verus! {

/// A method of a class.
#[derive(Debug)]
pub struct ClassMethod {
    pub modifiers: ClassModifiers,
    /// The outer attributes, `#[...]`, in order.
    pub attrs: Vec<TokenTree>,
    pub vis: ClassVisibility,
    /// The signature, from its qualifiers to its `where` clause. A method that is not
    /// static and was written without a receiver has `&mut self` as its first input
    /// here.
    pub sig: Vec<TokenTree>,
    /// Where the receiver of the signature begins, if it has one. For a receiver that
    /// was added it is the span of the macro call.
    pub receiver: Option<proc_macro2::Span>,
    /// The body.
    pub block: Vec<TokenTree>,
}

/// A method as values.
pub ghost struct Method {
    pub modifiers: Modifiers,
    pub attrs: Seq<Token>,
    pub vis: ClassVisibility,
    pub sig: Seq<Token>,
    pub receiver: Option<proc_macro2::Span>,
    pub block: Seq<Token>,
}

impl View for ClassMethod {
    type V = Method;

    open spec fn view(&self) -> Method {
        Method {
            modifiers: self.modifiers@,
            attrs: erase(self.attrs@),
            vis: self.vis,
            sig: erase(self.sig@),
            receiver: self.receiver,
            block: erase(self.block@),
        }
    }
}

/// The tokens of the receiver that a method gets where it declares none: `&mut self`.
pub open spec fn mutable_self() -> Seq<Token> {
    seq![Token::Punct('&', Adjacency::Alone), word_token("mut"@), word_token("self"@)]
}

impl Method {
    /// Attributes, visibility, signature and body, in this order.
    pub open spec fn rendering(self) -> Seq<Token> {
        self.attrs + self.vis.rendering() + self.sig + self.block
    }

    /// The modifiers must be in order, and a static method must have no receiver. A
    /// receiver on a static method is reported where the receiver begins.
    pub open spec fn validation(self) -> Result<(), Failure> {
        match self.modifiers.validation() {
            Err(failure) => Err(failure),
            Ok(_) => match self.receiver {
                Some(span) => {
                    if self.modifiers.is_static {
                        Err(Failure::static_receiver(span))
                    } else {
                        Ok(())
                    }
                },
                None => Ok(()),
            },
        }
    }
}

/// Builds the tokens `&mut self`, each with the span `site`.
fn mutable_self_tokens(site: proc_macro2::Span) -> (r: Vec<TokenTree>)
    ensures
        erase(r@) == mutable_self(),
{
    let mut tokens: Vec<TokenTree> = Vec::new();
    let ampersand = TokenTree::punct('&', Adjacency::Alone, site);
    let mutable = TokenTree::word("mut", site);
    let receiver = TokenTree::word("self", site);
    proof {
        lemma_erase_empty();
        lemma_erase_push(tokens@, ampersand);
        lemma_erase_push(tokens@.push(ampersand), mutable);
        lemma_erase_push(tokens@.push(ampersand).push(mutable), receiver);
    }
    tokens.push(ampersand);
    tokens.push(mutable);
    tokens.push(receiver);
    assert(erase(tokens@) =~= mutable_self());
    tokens
}

/// A method as it is written, and where its signature and its end were found.
pub ghost struct Written {
    pub method: Method,
    /// The position at which the signature begins.
    pub signature_at: int,
    /// The position after the body.
    pub end: int,
}

/// The method that is written at `start`, before the receiver rule: outer attributes,
/// visibility, modifiers, signature and body, in this order. The first part that does
/// not parse is the error. Input with a punctuation token that is none is refused
/// before anything is parsed.
pub open spec fn written_method(tokens: Seq<TokenTree>, start: int, site: proc_macro2::Span)
    -> Result<Written, Failure> {
    let input = erase(tokens);
    if !well_punctuated(erase(tokens.skip(start))) {
        Err(malformed(site))
    } else {
        match extent(syn_outer_attributes(erase(tokens.skip(start))), input, start) {
            Err(failure) => Err(failure),
            Ok((attrs, after_attrs)) => {
                let (vis, after_vis) = ClassVisibility::read(tokens, after_attrs);
                let (modifiers, signature_at) = scan_modifiers(
                    tokens,
                    after_vis,
                    Modifiers::none(),
                );
                match extent(
                    syn_signature(erase(tokens.skip(signature_at))),
                    input,
                    signature_at,
                ) {
                    Err(failure) => Err(failure),
                    Ok((sig, after_sig)) => match extent(
                        syn_block(erase(tokens.skip(after_sig))),
                        input,
                        after_sig,
                    ) {
                        Err(failure) => Err(failure),
                        Ok((block, end)) => Ok(
                            Written {
                                method: Method {
                                    modifiers,
                                    attrs,
                                    vis,
                                    sig,
                                    receiver: receiver_at(tokens.skip(signature_at)),
                                    block,
                                },
                                signature_at,
                                end,
                            },
                        ),
                    },
                }
            },
        }
    }
}

impl Parse for ClassMethod {
    /// The method as it is written, after the receiver rule: a method that is not
    /// static and has no receiver gets `&mut self` in front of its inputs, at the span
    /// of the macro call; any other method stays as it is written.
    open spec fn parsed(tokens: Seq<TokenTree>, start: int, site: proc_macro2::Span) -> Result<
        (Method, int),
        Failure,
    > {
        match written_method(tokens, start, site) {
            Err(failure) => Err(failure),
            Ok(written) => {
                let method = written.method;
                if !method.modifiers.is_static && method.receiver is None {
                    match syn_with_first_input(
                        erase(tokens.skip(written.signature_at)),
                        mutable_self(),
                    ) {
                        Err(message) => Err(Failure::syntax(message, None)),
                        Ok(sig) => Ok(
                            (Method { sig, receiver: Some(site), ..method }, written.end),
                        ),
                    }
                } else {
                    Ok((method, written.end))
                }
            },
        }
    }

    fn parse(tokens: &Vec<TokenTree>, start: usize, site: proc_macro2::Span) -> (r: Result<
        (Self, usize),
        ClassError,
    >) {
        if !check_punctuation(tokens, start) {
            return Err(malformed_error(site));
        }
        let (attrs, after_attrs) = match advance(
            parse_outer_attributes(tokens, start),
            tokens,
            start,
            site,
        ) {
            Ok(found) => found,
            Err(error) => {
                return Err(error);
            },
        };
        let (vis, after_vis) = match ClassVisibility::parse(tokens, after_attrs, site) {
            Ok(found) => found,
            Err(error) => {
                return Err(error);
            },
        };
        let (modifiers, signature_at) = match ClassModifiers::parse(tokens, after_vis, site) {
            Ok(found) => found,
            Err(error) => {
                return Err(error);
            },
        };
        proof {
            lemma_well_punctuated_tail(tokens@, start as int, signature_at as int);
        }
        let (sig, after_sig) = match advance(
            parse_signature(tokens, signature_at),
            tokens,
            signature_at,
            site,
        ) {
            Ok(found) => found,
            Err(error) => {
                return Err(error);
            },
        };
        proof {
            lemma_well_punctuated_tail(tokens@, start as int, after_sig as int);
        }
        let (block, end) = match advance(parse_block(tokens, after_sig), tokens, after_sig, site) {
            Ok(found) => found,
            Err(error) => {
                return Err(error);
            },
        };
        let receiver = signature_receiver(tokens, signature_at);
        if !modifiers.is_static && receiver.is_none() {
            let argument = mutable_self_tokens(site);
            assert(well_punctuated(mutable_self()));
            match signature_with_first_input(tokens, signature_at, &argument) {
                Ok(sig) => Ok(
                    (ClassMethod { modifiers, attrs, vis, sig, receiver: Some(site), block }, end),
                ),
                Err(error) => Err(syntax_error(error)),
            }
        } else {
            Ok((ClassMethod { modifiers, attrs, vis, sig, receiver, block }, end))
        }
    }
}

impl ToTokens for ClassMethod {
    open spec fn rendering(&self) -> Seq<Token> {
        self@.rendering()
    }

    fn to_tokens(&self, tokens: &mut Vec<TokenTree>, site: proc_macro2::Span) {
        append_tokens(tokens, &self.attrs);
        self.vis.to_tokens(tokens, site);
        append_tokens(tokens, &self.sig);
        append_tokens(tokens, &self.block);
        assert(erase(tokens@) =~= erase(old(tokens)@) + self@.rendering());
    }
}

impl Validate for ClassMethod {
    open spec fn validation(&self) -> Result<(), Failure> {
        self@.validation()
    }

    fn validate(&self) -> (r: Result<(), ClassError>) {
        match self.modifiers.validate() {
            Err(error) => {
                return Err(error);
            },
            Ok(_) => {},
        }
        if let Some(receiver) = self.receiver {
            if self.modifiers.is_static {
                return Err(ClassError::static_receiver(receiver));
            }
        }
        Ok(())
    }
}

/// A data field of a class. The grammar reserves the form and accepts none yet: parsing
/// one and validating one both end in an error.
#[derive(Debug)]
pub struct ClassAttribute {
    pub modifiers: ClassModifiers,
    pub attrs: Vec<TokenTree>,
    pub vis: ClassVisibility,
    pub is_static: bool,
    /// The field's name.
    pub ident: Name,
    /// The field's type.
    pub ty: Vec<TokenTree>,
}

/// A data field as values.
pub ghost struct Attribute {
    pub modifiers: Modifiers,
    pub attrs: Seq<Token>,
    pub vis: ClassVisibility,
    pub is_static: bool,
    pub ident: Seq<char>,
    /// Where the name is written.
    pub span: proc_macro2::Span,
    pub ty: Seq<Token>,
}

impl Attribute {
    /// Always the error that data fields are not accepted yet, at the field's name.
    pub open spec fn validation(self) -> Result<(), Failure> {
        Err(Failure::unimplemented(self.span))
    }
}

impl View for ClassAttribute {
    type V = Attribute;

    open spec fn view(&self) -> Attribute {
        Attribute {
            modifiers: self.modifiers@,
            attrs: erase(self.attrs@),
            vis: self.vis,
            is_static: self.is_static,
            ident: self.ident@,
            span: self.ident.span,
            ty: erase(self.ty@),
        }
    }
}

impl Parse for ClassAttribute {
    /// Always the error that data fields are not accepted yet.
    open spec fn parsed(tokens: Seq<TokenTree>, start: int, site: proc_macro2::Span) -> Result<
        (Attribute, int),
        Failure,
    > {
        Err(Failure::unimplemented(span_at(tokens, start, site)))
    }

    fn parse(tokens: &Vec<TokenTree>, start: usize, site: proc_macro2::Span) -> (r: Result<
        (Self, usize),
        ClassError,
    >) {
        if start < tokens.len() {
            Err(ClassError::unimplemented(tokens[start].span()))
        } else {
            Err(ClassError::unimplemented(site))
        }
    }
}

impl Validate for ClassAttribute {
    open spec fn validation(&self) -> Result<(), Failure> {
        self@.validation()
    }

    fn validate(&self) -> (r: Result<(), ClassError>) {
        Err(ClassError::unimplemented(self.ident.span))
    }
}

/// One member of a class.
#[derive(Debug)]
pub enum ClassField {
    ClassAttribute(ClassAttribute),
    ClassMethod(ClassMethod),
}

/// A member as values.
pub ghost enum Member {
    Attribute(Attribute),
    Method(Method),
}

impl View for ClassField {
    type V = Member;

    open spec fn view(&self) -> Member {
        match self {
            ClassField::ClassAttribute(attribute) => Member::Attribute(attribute@),
            ClassField::ClassMethod(method) => Member::Method(method@),
        }
    }
}

impl Member {
    /// A method is written out in full. A data field has no tokens.
    pub open spec fn rendering(self) -> Seq<Token> {
        match self {
            Member::Attribute(_) => Seq::empty(),
            Member::Method(method) => method.rendering(),
        }
    }

    /// What holds of the variant that the member is.
    pub open spec fn validation(self) -> Result<(), Failure> {
        match self {
            Member::Attribute(attribute) => attribute.validation(),
            Member::Method(method) => method.validation(),
        }
    }
}

impl Parse for ClassField {
    /// Every member is parsed as a method.
    open spec fn parsed(tokens: Seq<TokenTree>, start: int, site: proc_macro2::Span) -> Result<
        (Member, int),
        Failure,
    > {
        match ClassMethod::parsed(tokens, start, site) {
            Err(failure) => Err(failure),
            Ok((method, end)) => Ok((Member::Method(method), end)),
        }
    }

    fn parse(tokens: &Vec<TokenTree>, start: usize, site: proc_macro2::Span) -> (r: Result<
        (Self, usize),
        ClassError,
    >) {
        match ClassMethod::parse(tokens, start, site) {
            Err(error) => Err(error),
            Ok((method, end)) => Ok((ClassField::ClassMethod(method), end)),
        }
    }
}

impl ToTokens for ClassField {
    open spec fn rendering(&self) -> Seq<Token> {
        self@.rendering()
    }

    fn to_tokens(&self, tokens: &mut Vec<TokenTree>, site: proc_macro2::Span) {
        match self {
            ClassField::ClassMethod(method) => {
                method.to_tokens(tokens, site);
            },
            ClassField::ClassAttribute(_) => {
                assert(erase(tokens@) + Seq::<Token>::empty() =~= erase(tokens@));
            },
        }
    }
}

impl Validate for ClassField {
    open spec fn validation(&self) -> Result<(), Failure> {
        self@.validation()
    }

    fn validate(&self) -> (r: Result<(), ClassError>) {
        match self {
            ClassField::ClassAttribute(attribute) => attribute.validate(),
            ClassField::ClassMethod(method) => method.validate(),
        }
    }
}

/// A method that is not static and is written without a receiver is parsed with
/// `&mut self` put in front of its inputs, and then has a receiver. Every other method
/// keeps the signature and the receiver that it was written with: nothing is injected
/// into a static method, nor into one that names its receiver. Nothing else of the
/// method changes. So every method that is not static has a receiver once it is parsed.
pub proof fn lemma_receiver_injection(tokens: Seq<TokenTree>, start: int, site: proc_macro2::Span)
    requires
        ClassMethod::parsed(tokens, start, site) is Ok,
    ensures
        ({
            let (method, end) = ClassMethod::parsed(tokens, start, site)->Ok_0;
            &&& written_method(tokens, start, site) is Ok
            &&& ({
                let written = written_method(tokens, start, site)->Ok_0;
                let signature = tokens.skip(written.signature_at);
                &&& end == written.end
                &&& method == Method { sig: method.sig, receiver: method.receiver, ..written.method }
                &&& written.method.receiver == receiver_at(signature)
                &&& !method.modifiers.is_static && !syn_has_receiver(erase(signature)) ==> {
                    &&& syn_with_first_input(erase(signature), mutable_self()) == Ok::<
                        Seq<Token>,
                        Seq<char>,
                    >(method.sig)
                    &&& method.receiver == Some(site)
                }
                &&& method.modifiers.is_static || syn_has_receiver(erase(signature)) ==> {
                    &&& method.sig == written.method.sig
                    &&& method.receiver == written.method.receiver
                }
                &&& !method.modifiers.is_static ==> method.receiver is Some
                &&& method.modifiers.is_static ==> (method.receiver is Some <==> syn_has_receiver(
                    erase(signature),
                ))
            })
        }),
{
}

/// A static method is not permitted a receiver: if it passes validation, it has none.
pub proof fn lemma_static_has_no_receiver(method: Method)
    requires
        method.modifiers.is_static,
        method.validation() is Ok,
    ensures
        method.receiver is None,
{
}

/// A static method with a receiver always fails validation, whatever its visibility and
/// whether or not it is `const`. Where no modifier is repeated, the error is the
/// receiver conflict, at the span where the receiver begins; a repeated modifier is
/// found first and reported in its place.
pub proof fn lemma_static_receiver_conflict(method: Method)
    requires
        method.modifiers.is_static,
        method.receiver is Some,
    ensures
        method.validation() is Err,
        method.modifiers.validation() is Ok ==> method.validation() == Err::<(), Failure>(
            Failure::static_receiver(method.receiver->Some_0),
        ),
        method.modifiers.validation() is Err ==> method.validation()
            == method.modifiers.validation(),
{
}

} // verus!
