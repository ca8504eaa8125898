//! The class declaration as a whole: its grammar, its validation, and the four
//! declarations that it is rewritten into.

use crate::error::ClassError;
use crate::error::Failure;
use crate::fields::ClassField;
use crate::fields::Member;
use crate::modifiers::ClassVisibility;
use crate::syntax::parse_generics;
use crate::syntax::parse_ident;
use crate::syntax::parse_outer_attributes;
use crate::syntax::parse_visibility;
use crate::syntax::split_generics;
use crate::syntax::syn_split_for_impl;
use crate::syntax::syn_generics;
use crate::syntax::syn_ident;
use crate::syntax::syn_outer_attributes;
use crate::syntax::syn_visibility;
use crate::token::append_tokens;
use crate::token::check_punctuation;
use crate::token::erase;
use crate::token::lemma_well_punctuated_tail;
use crate::token::well_punctuated;
use crate::token::is_word;
use crate::token::lemma_erase_empty;
use crate::token::push_token;
use crate::token::word_token;
use crate::token::Delim;
use crate::token::Name;
use crate::token::Token;
use crate::token::TokenTree;
use crate::utils::advance;
use crate::utils::expected;
use crate::utils::expected_error;
use crate::utils::extent;
use crate::utils::malformed;
use crate::utils::malformed_error;
use crate::utils::syntax_error;
use crate::utils::parse_zero_or_more;
use crate::utils::repeated;
use crate::utils::views;
use crate::utils::Parse;
use crate::utils::ToTokens;
use crate::validate::Validate;
use vstd::prelude::*;
use vstd::string::*;

verus! {

/// The generic parameters of a class, in the three forms in which Rust writes them.
#[derive(Debug)]
pub struct ClassGenerics {
    /// As they are declared, `<'a, T: Bound = Default>`; empty where there are none.
    pub declared: Vec<TokenTree>,
    /// As they stand after `impl`: with their bounds, without defaults.
    pub for_impl: Vec<TokenTree>,
    /// As they stand after the name of the type: the names alone.
    pub for_type: Vec<TokenTree>,
}

/// The generic parameters of a class as values.
pub ghost struct Generics {
    pub declared: Seq<Token>,
    pub for_impl: Seq<Token>,
    pub for_type: Seq<Token>,
}

impl View for ClassGenerics {
    type V = Generics;

    open spec fn view(&self) -> Generics {
        Generics {
            declared: erase(self.declared@),
            for_impl: erase(self.for_impl@),
            for_type: erase(self.for_type@),
        }
    }
}

/// A class declaration: `#[attr]* vis class Name<generics> { member* }`.
#[derive(Debug)]
pub struct ClassDef {
    /// The outer attributes, `#[...]`, in order.
    pub attrs: Vec<TokenTree>,
    /// The visibility of the class, as Rust writes it for a struct.
    pub vis: Vec<TokenTree>,
    /// The name of the class.
    pub ident: Name,
    /// The generic parameters.
    pub generics: ClassGenerics,
    /// The members in declaration order.
    pub fields: Vec<ClassField>,
}

/// A class declaration as values.
pub ghost struct Class {
    pub attrs: Seq<Token>,
    pub vis: Seq<Token>,
    pub ident: Seq<char>,
    pub generics: Generics,
    pub fields: Seq<Member>,
}

impl View for ClassDef {
    type V = Class;

    open spec fn view(&self) -> Class {
        Class {
            attrs: erase(self.attrs@),
            vis: erase(self.vis@),
            ident: self.ident@,
            generics: self.generics@,
            fields: views(self.fields@),
        }
    }
}

/// The three places that a member can go to.
#[derive(Clone, Copy, PartialEq, Eq, Debug, Structural)]
pub enum Bucket {
    /// The fields of the struct: data fields.
    Fields,
    /// The impl block of the struct: methods that are not protected.
    Public,
    /// The generated trait: protected methods.
    Protected,
}

/// Where a member goes.
pub open spec fn bucket_of(member: Member) -> Bucket {
    match member {
        Member::Attribute(_) => Bucket::Fields,
        Member::Method(method) => {
            if method.vis == ClassVisibility::Protected {
                Bucket::Protected
            } else {
                Bucket::Public
            }
        },
    }
}

/// The members that go to `bucket`, in declaration order.
pub open spec fn bucket(members: Seq<Member>, bucket: Bucket) -> Seq<Member>
    decreases members.len(),
{
    if members.len() == 0 {
        Seq::empty()
    } else {
        let before = self::bucket(members.drop_last(), bucket);
        if bucket_of(members.last()) == bucket {
            before.push(members.last())
        } else {
            before
        }
    }
}

/// The tokens of `members`, one member after the other without a separator.
pub open spec fn body(members: Seq<Member>) -> Seq<Token>
    decreases members.len(),
{
    if members.len() == 0 {
        Seq::empty()
    } else {
        body(members.drop_last()) + members.last().rendering()
    }
}

/// The first error that validation finds in the members from `from` on.
pub open spec fn first_failure(members: Seq<Member>, from: int) -> Result<(), Failure>
    decreases members.len() - from,
{
    if from < 0 || from >= members.len() {
        Ok(())
    } else {
        match members[from].validation() {
            Err(failure) => Err(failure),
            Ok(_) => first_failure(members, from + 1),
        }
    }
}

/// An identifier without the raw marker `r#` that may stand before it.
pub open spec fn unraw(name: Seq<char>) -> Seq<char> {
    if name.len() >= 2 && name[0] == 'r' && name[1] == '#' {
        name.skip(2)
    } else {
        name
    }
}

/// The name of the trait that holds the protected methods of the class `name`: two
/// underscores, the name, and `Protected`.
pub open spec fn protected_name(name: Seq<char>) -> Seq<char> {
    "__"@ + unraw(name) + "Protected"@
}

/// A group in braces.
pub open spec fn braces(inner: Seq<Token>) -> Token {
    Token::Group(Delim::Brace, inner)
}

impl Class {
    /// `#[attr]* vis struct Name<declared> { fields }`
    pub open spec fn struct_item(self) -> Seq<Token> {
        self.attrs + self.vis + seq![word_token("struct"@), Token::Ident(self.ident)]
            + self.generics.declared + seq![braces(body(bucket(self.fields, Bucket::Fields)))]
    }

    /// `impl<for impl> Name<for type> { methods that are not protected }`
    pub open spec fn impl_item(self) -> Seq<Token> {
        seq![word_token("impl"@)] + self.generics.for_impl + seq![Token::Ident(self.ident)]
            + self.generics.for_type + seq![braces(body(bucket(self.fields, Bucket::Public)))]
    }

    /// `trait __NameProtected<declared> { protected methods }`
    pub open spec fn trait_item(self) -> Seq<Token> {
        seq![word_token("trait"@), Token::Ident(protected_name(self.ident))]
            + self.generics.declared + seq![
            braces(body(bucket(self.fields, Bucket::Protected))),
        ]
    }

    /// `impl<for impl> __NameProtected<for type> for Name<for type> {}`: every instance
    /// of the struct has the protected methods.
    pub open spec fn trait_impl_item(self) -> Seq<Token> {
        seq![word_token("impl"@)] + self.generics.for_impl + seq![
            Token::Ident(protected_name(self.ident)),
        ] + self.generics.for_type + seq![word_token("for"@), Token::Ident(self.ident)]
            + self.generics.for_type + seq![braces(Seq::empty())]
    }

    /// The four declarations, in the order in which later ones name earlier ones.
    pub open spec fn rendering(self) -> Seq<Token> {
        self.struct_item() + self.impl_item() + self.trait_item() + self.trait_impl_item()
    }

    /// Every member is validated in declaration order; the first error is the result.
    pub open spec fn validation(self) -> Result<(), Failure> {
        first_failure(self.fields, 0)
    }
}

/// The identifier that `tokens` consist of, if they are exactly one identifier.
pub open spec fn single_ident(tokens: Seq<Token>) -> Option<Seq<char>> {
    if tokens.len() == 1 && tokens[0] is Ident {
        Some(tokens[0]->Ident_0)
    } else {
        None
    }
}

/// The trees inside the brace group at `pos`, if one stands there.
pub open spec fn braced(tokens: Seq<TokenTree>, pos: int) -> Option<Seq<TokenTree>> {
    if 0 <= pos < tokens.len() && tokens[pos] is Group && tokens[pos]->delimiter == Delim::Brace {
        Some(tokens[pos]->stream@)
    } else {
        None
    }
}

pub proof fn lemma_bucket_push(members: Seq<Member>, member: Member, which: Bucket)
    ensures
        bucket(members.push(member), which) == if bucket_of(member) == which {
            bucket(members, which).push(member)
        } else {
            bucket(members, which)
        },
{
    assert(members.push(member).drop_last() =~= members);
}

pub proof fn lemma_body_push(members: Seq<Member>, member: Member)
    ensures
        body(members.push(member)) == body(members) + member.rendering(),
{
    assert(members.push(member).drop_last() =~= members);
}

/// Reads the name out of the tokens that the identifier parser printed.
fn single_name(tokens: &Vec<TokenTree>) -> (r: Option<Name>)
    ensures
        match r {
            Some(name) => single_ident(erase(tokens@)) == Some(name@),
            None => single_ident(erase(tokens@)) is None,
        },
{
    if tokens.len() == 1 {
        match &tokens[0] {
            TokenTree::Ident { text, span } => Some(Name { text: text.clone(), span: *span }),
            _ => None,
        }
    } else {
        None
    }
}

/// Builds the identifier of the trait that holds the protected methods. It carries the
/// span of the class name.
fn protected_ident(name: &Name) -> (r: TokenTree)
    ensures
        r@ == Token::Ident(protected_name(name@)),
{
    let text = name.text.as_str();
    let len = text.unicode_len();
    let mut out = String::from_str("__");
    if len >= 2 && text.get_char(0) == 'r' && text.get_char(1) == '#' {
        out.append(text.substring_char(2, len));
        assert(text@.subrange(2, len as int) =~= text@.skip(2));
    } else {
        out.append(text);
    }
    out.append("Protected");
    TokenTree::Ident { text: out, span: name.span }
}

/// The generic parameters that are written at `start`, in their three forms, and the
/// position after them.
pub open spec fn generics_at(tokens: Seq<TokenTree>, start: int) -> Result<(Generics, int), Failure> {
    match extent(syn_generics(erase(tokens.skip(start))), erase(tokens), start) {
        Err(failure) => Err(failure),
        Ok((declared, end)) => match syn_split_for_impl(erase(tokens.skip(start))) {
            Err(message) => Err(Failure::syntax(message, None)),
            Ok((for_impl, for_type)) => Ok((Generics { declared, for_impl, for_type }, end)),
        },
    }
}

/// The members in the brace group at `pos`, parsed until none is left, or the error
/// that braces are missing there.
pub open spec fn members_at(tokens: Seq<TokenTree>, pos: int, site: proc_macro2::Span) -> Result<
    Seq<Member>,
    Failure,
> {
    match braced(tokens, pos) {
        None => Err(expected(tokens, pos, site, "expected curly braces"@)),
        Some(inner) => repeated::<ClassField>(inner, 0, site),
    }
}

impl Parse for ClassDef {
    /// Outer attributes, visibility, the keyword `class`, the name, generic parameters,
    /// and the members in braces, which are parsed until none is left. A class that
    /// parses is validated at once; a class that does not pass gives the error that
    /// validation found. Input with a punctuation token that is none is refused before
    /// anything is parsed.
    open spec fn parsed(tokens: Seq<TokenTree>, start: int, site: proc_macro2::Span) -> Result<
        (Class, int),
        Failure,
    > {
        let input = erase(tokens);
        if !well_punctuated(erase(tokens.skip(start))) {
            Err(malformed(site))
        } else {
            match extent(syn_outer_attributes(erase(tokens.skip(start))), input, start) {
                Err(failure) => Err(failure),
                Ok((attrs, after_attrs)) => match extent(
                    syn_visibility(erase(tokens.skip(after_attrs))),
                    input,
                    after_attrs,
                ) {
                    Err(failure) => Err(failure),
                    Ok((vis, after_vis)) => {
                        if !is_word(tokens, after_vis, "class"@) {
                            Err(expected(tokens, after_vis, site, "expected `class`"@))
                        } else {
                            match extent(
                                syn_ident(erase(tokens.skip(after_vis + 1))),
                                input,
                                after_vis + 1,
                            ) {
                                Err(failure) => Err(failure),
                                Ok((name, after_name)) => match single_ident(name) {
                                    None => Err(
                                        Failure::syntax("expected identifier"@, Some(site)),
                                    ),
                                    Some(ident) => match generics_at(tokens, after_name) {
                                        Err(failure) => Err(failure),
                                        Ok((generics, after_generics)) => match members_at(
                                            tokens,
                                            after_generics,
                                            site,
                                        ) {
                                            Err(failure) => Err(failure),
                                            Ok(fields) => {
                                                let class = Class {
                                                    attrs,
                                                    vis,
                                                    ident,
                                                    generics,
                                                    fields,
                                                };
                                                match class.validation() {
                                                    Err(failure) => Err(failure),
                                                    Ok(_) => Ok((class, after_generics + 1)),
                                                }
                                            },
                                        },
                                    },
                                },
                            }
                        }
                    },
                },
            }
        }
    }

    fn parse(tokens: &Vec<TokenTree>, start: usize, site: proc_macro2::Span) -> (r: Result<
        (Self, usize),
        ClassError,
    >) {
        let len = tokens.len();
        if !check_punctuation(tokens, start) {
            return Err(malformed_error(site));
        }
        let (attrs, after_attrs) = match advance(
            parse_outer_attributes(tokens, start),
            tokens,
            start,
            site,
        ) {
            Ok(found) => found,
            Err(error) => {
                return Err(error);
            },
        };
        proof {
            lemma_well_punctuated_tail(tokens@, start as int, after_attrs as int);
        }
        let (vis, after_vis) = match advance(
            parse_visibility(tokens, after_attrs),
            tokens,
            after_attrs,
            site,
        ) {
            Ok(found) => found,
            Err(error) => {
                return Err(error);
            },
        };
        if !(after_vis < len && tokens[after_vis].is_word("class")) {
            return Err(expected_error(tokens, after_vis, site, "expected `class`"));
        }
        proof {
            lemma_well_punctuated_tail(tokens@, start as int, after_vis + 1);
        }
        let (name, after_name) = match advance(
            parse_ident(tokens, after_vis + 1),
            tokens,
            after_vis + 1,
            site,
        ) {
            Ok(found) => found,
            Err(error) => {
                return Err(error);
            },
        };
        let ident = match single_name(&name) {
            Some(ident) => ident,
            None => {
                return Err(ClassError::syntax(String::from_str("expected identifier"), site));
            },
        };
        proof {
            lemma_well_punctuated_tail(tokens@, start as int, after_name as int);
        }
        let (declared, after_generics) = match advance(
            parse_generics(tokens, after_name),
            tokens,
            after_name,
            site,
        ) {
            Ok(found) => found,
            Err(error) => {
                return Err(error);
            },
        };
        let generics = match split_generics(tokens, after_name) {
            Ok(split) => ClassGenerics {
                declared,
                for_impl: split.for_impl,
                for_type: split.for_type,
            },
            Err(error) => {
                return Err(syntax_error(error));
            },
        };
        if after_generics >= len {
            return Err(expected_error(tokens, after_generics, site, "expected curly braces"));
        }
        let fields = match &tokens[after_generics] {
            TokenTree::Group { delimiter: Delim::Brace, stream, .. } => {
                match parse_zero_or_more::<ClassField>(stream, site) {
                    Ok(fields) => fields,
                    Err(error) => {
                        return Err(error);
                    },
                }
            },
            _ => {
                return Err(
                    expected_error(tokens, after_generics, site, "expected curly braces"),
                );
            },
        };
        let output = ClassDef { attrs, vis, ident, generics, fields };
        match output.validate() {
            Ok(_) => Ok((output, after_generics + 1)),
            Err(error) => Err(error),
        }
    }
}

impl ToTokens for ClassDef {
    open spec fn rendering(&self) -> Seq<Token> {
        self@.rendering()
    }

    fn to_tokens(&self, tokens: &mut Vec<TokenTree>, site: proc_macro2::Span) {
        let mut in_struct: Vec<TokenTree> = Vec::new();
        let mut in_trait: Vec<TokenTree> = Vec::new();
        let mut in_protected: Vec<TokenTree> = Vec::new();
        let ghost members = self@.fields;
        let mut i: usize = 0;
        proof {
            lemma_erase_empty();
            assert(members.take(0) =~= Seq::<Member>::empty());
        }
        while i < self.fields.len()
            invariant
                i <= self.fields.len(),
                members == views(self.fields@),
                erase(in_struct@) == body(bucket(members.take(i as int), Bucket::Fields)),
                erase(in_trait@) == body(bucket(members.take(i as int), Bucket::Public)),
                erase(in_protected@) == body(bucket(members.take(i as int), Bucket::Protected)),
            decreases self.fields.len() - i,
        {
            let field = &self.fields[i];
            proof {
                let seen = members.take(i as int);
                assert(seen.push(members[i as int]) =~= members.take(i + 1));
                assert(members[i as int] == field@);
                lemma_bucket_push(seen, field@, Bucket::Fields);
                lemma_bucket_push(seen, field@, Bucket::Public);
                lemma_bucket_push(seen, field@, Bucket::Protected);
                lemma_body_push(bucket(seen, Bucket::Fields), field@);
                lemma_body_push(bucket(seen, Bucket::Public), field@);
                lemma_body_push(bucket(seen, Bucket::Protected), field@);
            }
            match field {
                ClassField::ClassAttribute(_) => {
                    field.to_tokens(&mut in_struct, site);
                },
                ClassField::ClassMethod(method) => {
                    if method.vis == ClassVisibility::Protected {
                        field.to_tokens(&mut in_protected, site);
                    } else {
                        field.to_tokens(&mut in_trait, site);
                    }
                },
            }
            i += 1;
        }
        assert(members.take(self.fields.len() as int) =~= members);

        append_tokens(tokens, &self.attrs);
        append_tokens(tokens, &self.vis);
        push_token(tokens, TokenTree::word("struct", site));
        push_token(tokens, self.ident.token());
        append_tokens(tokens, &self.generics.declared);
        push_token(tokens, TokenTree::group(Delim::Brace, in_struct, site));
        assert(erase(tokens@) =~= erase(old(tokens)@) + self@.struct_item());

        push_token(tokens, TokenTree::word("impl", site));
        append_tokens(tokens, &self.generics.for_impl);
        push_token(tokens, self.ident.token());
        append_tokens(tokens, &self.generics.for_type);
        push_token(tokens, TokenTree::group(Delim::Brace, in_trait, site));
        assert(erase(tokens@) =~= erase(old(tokens)@) + self@.struct_item() + self@.impl_item());

        push_token(tokens, TokenTree::word("trait", site));
        push_token(tokens, protected_ident(&self.ident));
        append_tokens(tokens, &self.generics.declared);
        push_token(tokens, TokenTree::group(Delim::Brace, in_protected, site));
        assert(erase(tokens@) =~= erase(old(tokens)@) + self@.struct_item() + self@.impl_item()
            + self@.trait_item());

        push_token(tokens, TokenTree::word("impl", site));
        append_tokens(tokens, &self.generics.for_impl);
        push_token(tokens, protected_ident(&self.ident));
        append_tokens(tokens, &self.generics.for_type);
        push_token(tokens, TokenTree::word("for", site));
        push_token(tokens, self.ident.token());
        append_tokens(tokens, &self.generics.for_type);
        push_token(tokens, TokenTree::group(Delim::Brace, Vec::new(), site));
        assert(erase(tokens@) =~= erase(old(tokens)@) + self@.struct_item() + self@.impl_item()
            + self@.trait_item() + self@.trait_impl_item());
        assert(erase(tokens@) =~= erase(old(tokens)@) + self@.rendering());
    }
}

impl Validate for ClassDef {
    open spec fn validation(&self) -> Result<(), Failure> {
        self@.validation()
    }

    fn validate(&self) -> (r: Result<(), ClassError>) {
        let mut i: usize = 0;
        while i < self.fields.len()
            invariant
                i <= self.fields.len(),
                first_failure(views(self.fields@), 0) == first_failure(
                    views(self.fields@),
                    i as int,
                ),
            decreases self.fields.len() - i,
        {
            match self.fields[i].validate() {
                Err(error) => {
                    return Err(error);
                },
                Ok(_) => {},
            }
            i += 1;
        }
        Ok(())
    }
}

/// What the macro makes of the tokens of one invocation: the four declarations of the
/// class that the tokens spell, or the first error. Tokens after the class are an error.
pub open spec fn expansion(item: Seq<TokenTree>, site: proc_macro2::Span) -> Result<
    Seq<Token>,
    Failure,
> {
    match ClassDef::parsed(item, 0, site) {
        Err(failure) => Err(failure),
        Ok((class, end)) => {
            if end < item.len() {
                Err(Failure::syntax("unexpected token"@, Some(item[end].span())))
            } else {
                Ok(class.rendering())
            }
        },
    }
}

/// Rewrites a class declaration into a struct, an impl block, the trait of its
/// protected methods and the impl of that trait for the struct. `site` is the span of
/// the macro call; the tokens that are made here carry it.
pub fn class(item: &Vec<TokenTree>, site: proc_macro2::Span) -> (r: Result<
    Vec<TokenTree>,
    ClassError,
>)
    ensures
        match r {
            Ok(tokens) => expansion(item@, site) == Ok::<Seq<Token>, Failure>(erase(tokens@)),
            Err(error) => expansion(item@, site) is Err && error.conforms(
                expansion(item@, site)->Err_0,
            ),
        },
{
    let (class_value, end) = match ClassDef::parse(item, 0, site) {
        Ok(found) => found,
        Err(error) => {
            return Err(error);
        },
    };
    if end < item.len() {
        return Err(ClassError::syntax(String::from_str("unexpected token"), item[end].span()));
    }
    let mut tokens: Vec<TokenTree> = Vec::new();
    proof {
        lemma_erase_empty();
    }
    class_value.to_tokens(&mut tokens, site);
    assert(Seq::<Token>::empty() + class_value@.rendering() =~= class_value@.rendering());
    Ok(tokens)
}

/// The positions of the members that go to `which`, in ascending order.
pub open spec fn bucket_positions(members: Seq<Member>, which: Bucket) -> Seq<int>
    decreases members.len(),
{
    if members.len() == 0 {
        Seq::empty()
    } else {
        let before = bucket_positions(members.drop_last(), which);
        if bucket_of(members.last()) == which {
            before.push(members.len() - 1)
        } else {
            before
        }
    }
}

/// A bucket holds the members that belong to it, each once, in the order in which the
/// class declares them: its members stand at strictly ascending positions of the
/// declaration, and these are all the positions of members that go to the bucket.
pub proof fn lemma_bucket_keeps_order(members: Seq<Member>, which: Bucket)
    ensures
        ({
            let positions = bucket_positions(members, which);
            let chosen = bucket(members, which);
            &&& chosen.len() == positions.len()
            &&& forall|k: int|
                0 <= k < positions.len() ==> 0 <= #[trigger] positions[k] < members.len()
                    && chosen[k] == members[positions[k]]
            &&& forall|j: int, k: int|
                0 <= j < k < positions.len() ==> positions[j] < positions[k]
            &&& forall|i: int|
                0 <= i < members.len() ==> (bucket_of(members[i]) == which
                    <==> positions.contains(i))
        }),
    decreases members.len(),
{
    if members.len() > 0 {
        let front = members.drop_last();
        lemma_bucket_keeps_order(front, which);
        let before = bucket_positions(front, which);
        let positions = bucket_positions(members, which);
        assert forall|i: int| 0 <= i < members.len() implies (bucket_of(members[i]) == which
            <==> positions.contains(i)) by {
            if i < members.len() - 1 {
                assert(members[i] == front[i]);
                if before.contains(i) {
                    let k = choose|k: int| 0 <= k < before.len() && before[k] == i;
                    assert(positions[k] == i);
                }
                if positions.contains(i) {
                    let k = choose|k: int| 0 <= k < positions.len() && positions[k] == i;
                    assert(before[k] == i);
                }
            } else {
                if bucket_of(members[i]) == which {
                    assert(positions[positions.len() - 1] == i);
                }
            }
        }
    }
}

/// A protected method never stands in the impl block of the struct: it stands in the
/// generated trait, and only there. Every member of the impl block is a method that is
/// not protected, every member of the trait is a protected method, and no method is
/// among the fields of the struct. The last declaration implements the trait, with the
/// class's own parameters, for the struct with those parameters, with an empty body.
pub proof fn lemma_visibility_routing(class: Class, i: int)
    requires
        0 <= i < class.fields.len(),
        class.fields[i] is Method,
    ensures
        class.fields[i]->Method_0.vis == ClassVisibility::Protected ==> {
            &&& bucket_positions(class.fields, Bucket::Protected).contains(i)
            &&& !bucket_positions(class.fields, Bucket::Public).contains(i)
            &&& !bucket_positions(class.fields, Bucket::Fields).contains(i)
        },
        class.fields[i]->Method_0.vis != ClassVisibility::Protected ==> {
            &&& bucket_positions(class.fields, Bucket::Public).contains(i)
            &&& !bucket_positions(class.fields, Bucket::Protected).contains(i)
            &&& !bucket_positions(class.fields, Bucket::Fields).contains(i)
        },
        forall|k: int|
            0 <= k < bucket(class.fields, Bucket::Public).len() ==> {
                let member = #[trigger] bucket(class.fields, Bucket::Public)[k];
                member is Method && member->Method_0.vis != ClassVisibility::Protected
            },
        forall|k: int|
            0 <= k < bucket(class.fields, Bucket::Protected).len() ==> {
                let member = #[trigger] bucket(class.fields, Bucket::Protected)[k];
                member is Method && member->Method_0.vis == ClassVisibility::Protected
            },
        class.impl_item().last() == braces(body(bucket(class.fields, Bucket::Public))),
        class.trait_item().last() == braces(body(bucket(class.fields, Bucket::Protected))),
        class.rendering() == class.struct_item() + class.impl_item() + class.trait_item()
            + seq![word_token("impl"@)] + class.generics.for_impl + seq![
            Token::Ident(protected_name(class.ident)),
        ] + class.generics.for_type + seq![word_token("for"@), Token::Ident(class.ident)]
            + class.generics.for_type + seq![braces(Seq::empty())],
{
    lemma_bucket_keeps_order(class.fields, Bucket::Public);
    lemma_bucket_keeps_order(class.fields, Bucket::Protected);
    lemma_bucket_keeps_order(class.fields, Bucket::Fields);
    assert forall|k: int| 0 <= k < bucket(class.fields, Bucket::Public).len() implies {
        let member = #[trigger] bucket(class.fields, Bucket::Public)[k];
        member is Method && member->Method_0.vis != ClassVisibility::Protected
    } by {
        let positions = bucket_positions(class.fields, Bucket::Public);
        assert(positions.contains(positions[k]));
    }
    assert forall|k: int| 0 <= k < bucket(class.fields, Bucket::Protected).len() implies {
        let member = #[trigger] bucket(class.fields, Bucket::Protected)[k];
        member is Method && member->Method_0.vis == ClassVisibility::Protected
    } by {
        let positions = bucket_positions(class.fields, Bucket::Protected);
        assert(positions.contains(positions[k]));
    }
    assert(class.rendering() =~= class.struct_item() + class.impl_item() + class.trait_item()
        + seq![word_token("impl"@)] + class.generics.for_impl + seq![
        Token::Ident(protected_name(class.ident)),
    ] + class.generics.for_type + seq![word_token("for"@), Token::Ident(class.ident)]
        + class.generics.for_type + seq![braces(Seq::empty())]);
}

/// A class passes validation exactly when each of its members does, and a class that
/// does not pass is not parsed: there is no output for it.
pub proof fn lemma_validation_is_member_wise(class: Class)
    ensures
        class.validation() is Ok <==> forall|i: int|
            0 <= i < class.fields.len() ==> (#[trigger] class.fields[i]).validation() is Ok,
{
    lemma_first_failure(class.fields, 0);
}

proof fn lemma_first_failure(members: Seq<Member>, from: int)
    requires
        0 <= from,
    ensures
        first_failure(members, from) is Ok <==> forall|i: int|
            from <= i < members.len() ==> (#[trigger] members[i]).validation() is Ok,
        first_failure(members, from) is Err ==> exists|i: int|
            from <= i < members.len() && (#[trigger] members[i]).validation() == first_failure(
                members,
                from,
            ) && forall|j: int| from <= j < i ==> (#[trigger] members[j]).validation() is Ok,
    decreases members.len() - from,
{
    if from < members.len() {
        lemma_first_failure(members, from + 1);
        if members[from].validation() is Ok {
            if first_failure(members, from) is Err {
                let i = choose|i: int|
                    from + 1 <= i < members.len() && (#[trigger] members[i]).validation()
                        == first_failure(members, from + 1) && forall|j: int|
                        from + 1 <= j < i ==> (#[trigger] members[j]).validation() is Ok;
                assert(from <= i < members.len() && members[i].validation() == first_failure(
                    members,
                    from,
                ) && forall|j: int| from <= j < i ==> (#[trigger] members[j]).validation() is Ok);
            }
        } else {
            assert(from <= from < members.len() && members[from].validation() == first_failure(
                members,
                from,
            ) && forall|j: int| from <= j < from ==> (#[trigger] members[j]).validation() is Ok);
        }
    }
}

/// Validation reports the error of the first member, in declaration order, that does
/// not pass.
pub proof fn lemma_first_error_wins(class: Class)
    requires
        class.validation() is Err,
    ensures
        exists|i: int|
            0 <= i < class.fields.len() && (#[trigger] class.fields[i]).validation()
                == class.validation() && forall|j: int|
                0 <= j < i ==> (#[trigger] class.fields[j]).validation() is Ok,
{
    lemma_first_failure(class.fields, 0);
}

/// There is output only for a class that parses and passes validation: the output is
/// then the four declarations of that class, the class takes up the whole input, and
/// each of its members passes validation. An input that fails has no output at all.
pub proof fn lemma_output_is_of_a_valid_class(item: Seq<TokenTree>, site: proc_macro2::Span)
    requires
        expansion(item, site) is Ok,
    ensures
        ClassDef::parsed(item, 0, site) is Ok,
        ({
            let (class, end) = ClassDef::parsed(item, 0, site)->Ok_0;
            &&& end >= item.len()
            &&& class.validation() is Ok
            &&& forall|i: int|
                0 <= i < class.fields.len() ==> (#[trigger] class.fields[i]).validation() is Ok
            &&& expansion(item, site) == Ok::<Seq<Token>, Failure>(
                class.struct_item() + class.impl_item() + class.trait_item()
                    + class.trait_impl_item(),
            )
        }),
{
    let (class, end) = ClassDef::parsed(item, 0, site)->Ok_0;
    lemma_validation_is_member_wise(class);
}

} // verus!
