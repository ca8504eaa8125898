//! Visibility and the `const` / `static` modifiers of a member.

use crate::error::ClassError;
use crate::error::Failure;
use crate::token::erase;
use crate::token::is_word;
use crate::token::lemma_erase_empty;
use crate::token::push_token;
use crate::token::Delim;
use crate::token::lemma_erase_push;
use crate::token::word_token;
use crate::token::Token;
use crate::token::TokenTree;
use crate::utils::Parse;
use crate::utils::ToTokens;
use crate::validate::Validate;
use vstd::prelude::*;

verus! {

/// Who may use a member.
#[derive(Clone, Copy, PartialEq, Eq, Hash, Debug, Structural)]
pub enum ClassVisibility {
    /// Written `pub`.
    Public,
    /// Written `prot`: usable from the class's own methods only.
    Protected,
    /// No keyword.
    Private,
}

impl View for ClassVisibility {
    type V = ClassVisibility;

    open spec fn view(&self) -> ClassVisibility {
        *self
    }
}

impl ClassVisibility {
    /// The tokens that stand for the visibility in generated code: `pub` for a public
    /// member and `pub(self)`, the narrowest visibility that Rust can name, for a private
    /// one. `prot` has none: a protected member is told apart by where it is put.
    pub open spec fn rendering(self) -> Seq<Token> {
        match self {
            ClassVisibility::Public => seq![word_token("pub"@)],
            ClassVisibility::Private => seq![
                word_token("pub"@),
                Token::Group(Delim::Parenthesis, seq![word_token("self"@)]),
            ],
            ClassVisibility::Protected => Seq::empty(),
        }
    }

    /// The visibility that is written at `pos`, and the position after it: `pub` is
    /// public, `prot` is protected, and anything else is private and uses no token.
    pub open spec fn read(tokens: Seq<TokenTree>, pos: int) -> (ClassVisibility, int) {
        if is_word(tokens, pos, "pub"@) {
            (ClassVisibility::Public, pos + 1)
        } else if is_word(tokens, pos, "prot"@) {
            (ClassVisibility::Protected, pos + 1)
        } else {
            (ClassVisibility::Private, pos)
        }
    }
}

impl ToTokens for ClassVisibility {
    open spec fn rendering(&self) -> Seq<Token> {
        ClassVisibility::rendering(*self)
    }

    fn to_tokens(&self, tokens: &mut Vec<TokenTree>, site: proc_macro2::Span) {
        match self {
            ClassVisibility::Public => {
                let word = TokenTree::word("pub", site);
                proof {
                    lemma_erase_push(tokens@, word);
                    assert(erase(tokens@).push(word@) =~= erase(tokens@) + seq![
                        word_token("pub"@),
                    ]);
                }
                tokens.push(word);
            },
            ClassVisibility::Private => {
                let mut inner: Vec<TokenTree> = Vec::new();
                push_token(&mut inner, TokenTree::word("self", site));
                proof {
                    lemma_erase_empty();
                    assert(erase(inner@) =~= seq![word_token("self"@)]);
                }
                push_token(tokens, TokenTree::word("pub", site));
                push_token(tokens, TokenTree::group(Delim::Parenthesis, inner, site));
                assert(erase(tokens@) =~= erase(old(tokens)@) + self.rendering());
            },
            ClassVisibility::Protected => {
                assert(erase(tokens@) + Seq::<Token>::empty() =~= erase(tokens@));
            },
        }
    }
}

impl Parse for ClassVisibility {
    /// The visibility written at `start`. Never an error.
    open spec fn parsed(tokens: Seq<TokenTree>, start: int, site: proc_macro2::Span) -> Result<
        (ClassVisibility, int),
        Failure,
    > {
        Ok(ClassVisibility::read(tokens, start))
    }

    fn parse(tokens: &Vec<TokenTree>, start: usize, site: proc_macro2::Span) -> (r: Result<
        (Self, usize),
        ClassError,
    >) {
        if start < tokens.len() && tokens[start].is_word("pub") {
            Ok((ClassVisibility::Public, start + 1))
        } else if start < tokens.len() && tokens[start].is_word("prot") {
            Ok((ClassVisibility::Protected, start + 1))
        } else {
            Ok((ClassVisibility::Private, start))
        }
    }
}

/// The `const` and `static` flags of a member. A keyword that is written again does not
/// change its flag: its span is kept, and validation rejects the member for it.
#[derive(Debug)]
pub struct ClassModifiers {
    pub is_constant: bool,
    pub is_static: bool,
    /// The spans of every `const` after the first, in order.
    pub dup_constant: Vec<proc_macro2::Span>,
    /// The spans of every `static` after the first, in order.
    pub dup_static: Vec<proc_macro2::Span>,
}

/// The modifiers of a member as values.
pub ghost struct Modifiers {
    pub is_constant: bool,
    pub is_static: bool,
    pub dup_constant: Seq<proc_macro2::Span>,
    pub dup_static: Seq<proc_macro2::Span>,
}

impl View for ClassModifiers {
    type V = Modifiers;

    open spec fn view(&self) -> Modifiers {
        Modifiers {
            is_constant: self.is_constant,
            is_static: self.is_static,
            dup_constant: self.dup_constant@,
            dup_static: self.dup_static@,
        }
    }
}

impl Modifiers {
    /// No modifier at all.
    pub open spec fn none() -> Modifiers {
        Modifiers {
            is_constant: false,
            is_static: false,
            dup_constant: Seq::empty(),
            dup_static: Seq::empty(),
        }
    }

    /// After one more `const`, written at `span`.
    pub open spec fn with_constant(self, span: proc_macro2::Span) -> Modifiers {
        if self.is_constant {
            Modifiers { dup_constant: self.dup_constant.push(span), ..self }
        } else {
            Modifiers { is_constant: true, ..self }
        }
    }

    /// After one more `static`, written at `span`.
    pub open spec fn with_static(self, span: proc_macro2::Span) -> Modifiers {
        if self.is_static {
            Modifiers { dup_static: self.dup_static.push(span), ..self }
        } else {
            Modifiers { is_static: true, ..self }
        }
    }

    /// A repeated `const` is reported at its first repetition; else a repeated `static`
    /// at its first repetition; else the modifiers are in order.
    pub open spec fn validation(self) -> Result<(), Failure> {
        if self.dup_constant.len() > 0 {
            Err(Failure::duplicate_constant(self.dup_constant[0]))
        } else if self.dup_static.len() > 0 {
            Err(Failure::duplicate_static(self.dup_static[0]))
        } else {
            Ok(())
        }
    }
}

/// Whether the tree at `pos` is one of the two modifier keywords.
pub open spec fn is_modifier(tokens: Seq<TokenTree>, pos: int) -> bool {
    is_word(tokens, pos, "const"@) || is_word(tokens, pos, "static"@)
}

/// Reads modifier keywords from `pos` on, having found `found` so far, up to the first
/// tree that is neither `const` nor `static`.
pub open spec fn scan_modifiers(tokens: Seq<TokenTree>, pos: int, found: Modifiers) -> (
    Modifiers,
    int,
)
    decreases tokens.len() - pos,
{
    if is_word(tokens, pos, "const"@) {
        scan_modifiers(tokens, pos + 1, found.with_constant(tokens[pos].span()))
    } else if is_word(tokens, pos, "static"@) {
        scan_modifiers(tokens, pos + 1, found.with_static(tokens[pos].span()))
    } else {
        (found, pos)
    }
}

impl Parse for ClassModifiers {
    /// Every `const` and `static` from `start` on, in any order and number. Never an
    /// error: a repeated keyword is recorded, not refused.
    open spec fn parsed(tokens: Seq<TokenTree>, start: int, site: proc_macro2::Span) -> Result<
        (Modifiers, int),
        Failure,
    > {
        Ok(scan_modifiers(tokens, start, Modifiers::none()))
    }

    fn parse(tokens: &Vec<TokenTree>, start: usize, site: proc_macro2::Span) -> (r: Result<
        (Self, usize),
        ClassError,
    >) {
        let mut output = ClassModifiers {
            is_constant: false,
            is_static: false,
            dup_constant: Vec::new(),
            dup_static: Vec::new(),
        };
        let mut pos: usize = start;
        while pos < tokens.len() && (tokens[pos].is_word("const") || tokens[pos].is_word("static"))
            invariant
                start <= pos <= tokens.len(),
                scan_modifiers(tokens@, start as int, Modifiers::none()) == scan_modifiers(
                    tokens@,
                    pos as int,
                    output@,
                ),
            decreases tokens.len() - pos,
        {
            if tokens[pos].is_word("const") {
                if output.is_constant {
                    output.dup_constant.push(tokens[pos].span());
                } else {
                    output.is_constant = true;
                }
            } else {
                if output.is_static {
                    output.dup_static.push(tokens[pos].span());
                } else {
                    output.is_static = true;
                }
            }
            pos += 1;
        }
        Ok((output, pos))
    }
}

impl Validate for ClassModifiers {
    open spec fn validation(&self) -> Result<(), Failure> {
        self@.validation()
    }

    fn validate(&self) -> (r: Result<(), ClassError>) {
        if self.dup_constant.len() > 0 {
            return Err(ClassError::duplicate_constant(self.dup_constant[0]));
        }
        if self.dup_static.len() > 0 {
            return Err(ClassError::duplicate_static(self.dup_static[0]));
        }
        Ok(())
    }
}

/// The positions from `from` up to `to`, `to` left out, that hold the identifier `word`,
/// in order.
pub open spec fn occurrences(tokens: Seq<TokenTree>, from: int, to: int, word: Seq<char>) -> Seq<
    int,
>
    decreases to - from,
{
    if to <= from {
        Seq::empty()
    } else {
        let before = occurrences(tokens, from, to - 1, word);
        if is_word(tokens, to - 1, word) {
            before.push(to - 1)
        } else {
            before
        }
    }
}

/// The spans of the trees at all of `positions` but the first.
pub open spec fn repeated_spans(tokens: Seq<TokenTree>, positions: Seq<int>) -> Seq<
    proc_macro2::Span,
> {
    if positions.len() == 0 {
        Seq::empty()
    } else {
        positions.skip(1).map_values(|i: int| tokens[i].span())
    }
}

/// Whether `found` is what the keywords from `from` up to `to` amount to: a flag is set
/// where its keyword occurs, and every occurrence after the first is recorded with its
/// span, in order.
pub open spec fn records(found: Modifiers, tokens: Seq<TokenTree>, from: int, to: int) -> bool {
    let consts = occurrences(tokens, from, to, "const"@);
    let statics = occurrences(tokens, from, to, "static"@);
    &&& found.is_constant == (consts.len() >= 1)
    &&& found.is_static == (statics.len() >= 1)
    &&& found.dup_constant == repeated_spans(tokens, consts)
    &&& found.dup_static == repeated_spans(tokens, statics)
}

proof fn lemma_keywords_differ()
    ensures
        "const"@ != "static"@,
{
    reveal_strlit("const");
    reveal_strlit("static");
    assert("const"@.len() == 5);
    assert("static"@.len() == 6);
}

proof fn lemma_scan_records(tokens: Seq<TokenTree>, start: int, pos: int, found: Modifiers)
    requires
        0 <= start <= pos <= tokens.len(),
        records(found, tokens, start, pos),
        forall|i: int| start <= i < pos ==> is_modifier(tokens, i),
    ensures
        ({
            let (modifiers, end) = scan_modifiers(tokens, pos, found);
            &&& pos <= end <= tokens.len()
            &&& records(modifiers, tokens, start, end)
            &&& forall|i: int| start <= i < end ==> is_modifier(tokens, i)
            &&& !is_modifier(tokens, end)
        }),
    decreases tokens.len() - pos,
{
    lemma_keywords_differ();
    let consts = occurrences(tokens, start, pos, "const"@);
    let statics = occurrences(tokens, start, pos, "static"@);
    if is_word(tokens, pos, "const"@) {
        let next = found.with_constant(tokens[pos].span());
        assert(occurrences(tokens, start, pos + 1, "const"@) == consts.push(pos));
        assert(occurrences(tokens, start, pos + 1, "static"@) == statics);
        if consts.len() > 0 {
            assert(consts.push(pos).skip(1) =~= consts.skip(1).push(pos));
            assert(repeated_spans(tokens, consts.push(pos)) =~= repeated_spans(
                tokens,
                consts,
            ).push(tokens[pos].span()));
        } else {
            assert(repeated_spans(tokens, consts.push(pos)) =~= Seq::empty());
        }
        assert(records(next, tokens, start, pos + 1));
        lemma_scan_records(tokens, start, pos + 1, next);
    } else if is_word(tokens, pos, "static"@) {
        let next = found.with_static(tokens[pos].span());
        assert(occurrences(tokens, start, pos + 1, "static"@) == statics.push(pos));
        assert(occurrences(tokens, start, pos + 1, "const"@) == consts);
        if statics.len() > 0 {
            assert(statics.push(pos).skip(1) =~= statics.skip(1).push(pos));
            assert(repeated_spans(tokens, statics.push(pos)) =~= repeated_spans(
                tokens,
                statics,
            ).push(tokens[pos].span()));
        } else {
            assert(repeated_spans(tokens, statics.push(pos)) =~= Seq::empty());
        }
        assert(records(next, tokens, start, pos + 1));
        lemma_scan_records(tokens, start, pos + 1, next);
    }
}

/// The modifiers of a member are the longest run of `const` and `static` at its place.
/// A flag is set exactly where its keyword occurs in the run. Validation passes exactly
/// where neither keyword occurs twice. A second `const` is reported as a duplicate at
/// the span of that second `const`; where `const` is not repeated, a second `static` is
/// reported at the span of that second `static`.
pub proof fn lemma_duplicate_modifiers(tokens: Seq<TokenTree>, start: int)
    requires
        0 <= start <= tokens.len(),
    ensures
        ({
            let (modifiers, end) = scan_modifiers(tokens, start, Modifiers::none());
            let consts = occurrences(tokens, start, end, "const"@);
            let statics = occurrences(tokens, start, end, "static"@);
            &&& start <= end <= tokens.len()
            &&& forall|i: int| start <= i < end ==> is_modifier(tokens, i)
            &&& !is_modifier(tokens, end)
            &&& modifiers.is_constant == (consts.len() >= 1)
            &&& modifiers.is_static == (statics.len() >= 1)
            &&& modifiers.validation() is Ok <==> consts.len() <= 1 && statics.len() <= 1
            &&& consts.len() >= 2 ==> modifiers.validation() == Err::<(), Failure>(
                Failure::duplicate_constant(tokens[consts[1]].span()),
            )
            &&& consts.len() <= 1 && statics.len() >= 2 ==> modifiers.validation() == Err::<
                (),
                Failure,
            >(Failure::duplicate_static(tokens[statics[1]].span()))
        }),
{
    assert(records(Modifiers::none(), tokens, start, start)) by {
        assert(repeated_spans(tokens, Seq::<int>::empty()) =~= Seq::empty());
    }
    lemma_scan_records(tokens, start, start, Modifiers::none());
}

} // verus!
