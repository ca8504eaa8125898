//! Token trees as plain values.
//!
//! A class declaration reaches this library as a sequence of token trees: identifiers,
//! punctuation characters, literals and delimited groups. Every tree carries the source
//! span it came from. The span is only handed on, so that diagnostics and generated code
//! point at the right text: the view of a tree leaves it out and what the grammar
//! accepts never depends on it.

use vstd::prelude::*;

verus! {

/// A region of source code, as the compiler handed it to the macro. Nothing is known of
/// its inside.
#[verifier::external_type_specification]
#[verifier::external_body]
pub struct ExSpan(proc_macro2::Span);

/// The kind of bracket around a group.
#[derive(Clone, Copy, PartialEq, Eq, Debug, Structural)]
pub enum Delim {
    /// `( ... )`
    Parenthesis,
    /// `{ ... }`
    Brace,
    /// `[ ... ]`
    Bracket,
    /// A group without written brackets, as macro substitution makes them.
    Invisible,
}

/// Whether a punctuation character is directly followed by another one.
#[derive(Clone, Copy, PartialEq, Eq, Debug, Structural)]
pub enum Adjacency {
    Alone,
    Joint,
}

/// One token tree together with its span.
#[derive(Debug)]
pub enum TokenTree {
    Ident { text: String, span: proc_macro2::Span },
    Punct { ch: char, spacing: Adjacency, span: proc_macro2::Span },
    Literal { text: String, span: proc_macro2::Span },
    Group { delimiter: Delim, stream: Vec<TokenTree>, span: proc_macro2::Span },
}

/// An identifier together with its span.
#[derive(Debug)]
pub struct Name {
    pub text: String,
    pub span: proc_macro2::Span,
}

impl View for Name {
    type V = Seq<char>;

    open spec fn view(&self) -> Seq<char> {
        self.text@
    }
}

impl Name {
    /// The identifier as a token, at its own span.
    pub fn token(&self) -> (r: TokenTree)
        ensures
            r@ == Token::Ident(self@),
            r.span() == self.span,
    {
        TokenTree::Ident { text: self.text.clone(), span: self.span }
    }
}

/// What a token tree says, without where it stands.
pub ghost enum Token {
    Ident(Seq<char>),
    Punct(char, Adjacency),
    Literal(Seq<char>),
    Group(Delim, Seq<Token>),
}

impl View for TokenTree {
    type V = Token;

    open spec fn view(&self) -> Token
        decreases self,
    {
        match self {
            TokenTree::Ident { text, .. } => Token::Ident(text@),
            TokenTree::Punct { ch, spacing, .. } => Token::Punct(*ch, *spacing),
            TokenTree::Literal { text, .. } => Token::Literal(text@),
            TokenTree::Group { delimiter, stream, .. } => Token::Group(*delimiter, erase(stream@)),
        }
    }
}

/// The views of a sequence of token trees, in order.
pub open spec fn erase(tokens: Seq<TokenTree>) -> Seq<Token>
    decreases tokens,
{
    Seq::new(
        tokens.len(),
        |i: int|
            if 0 <= i < tokens.len() {
                tokens[i].view()
            } else {
                Token::Group(Delim::Invisible, Seq::empty())
            },
    )
}

/// The identifier token spelled `word`.
pub open spec fn word_token(word: Seq<char>) -> Token {
    Token::Ident(word)
}

/// Whether the tree at `pos` is the identifier spelled `word`. Past the end there is none.
pub open spec fn is_word(tokens: Seq<TokenTree>, pos: int, word: Seq<char>) -> bool {
    0 <= pos < tokens.len() && tokens[pos]@ == word_token(word)
}

/// Whether `ch` is one of the characters that Rust's punctuation is made of.
pub open spec fn is_punctuation(ch: char) -> bool {
    ||| ch == '!'
    ||| ch == '#'
    ||| ch == '$'
    ||| ch == '%'
    ||| ch == '&'
    ||| ch == '\''
    ||| ch == '*'
    ||| ch == '+'
    ||| ch == ','
    ||| ch == '-'
    ||| ch == '.'
    ||| ch == '/'
    ||| ch == ':'
    ||| ch == ';'
    ||| ch == '<'
    ||| ch == '='
    ||| ch == '>'
    ||| ch == '?'
    ||| ch == '@'
    ||| ch == '^'
    ||| ch == '|'
    ||| ch == '~'
}

/// Whether every punctuation token in `token`, at any depth, holds a punctuation
/// character.
pub open spec fn punctuated(token: Token) -> bool
    decreases token,
{
    match token {
        Token::Punct(ch, _) => is_punctuation(ch),
        Token::Group(_, inner) => well_punctuated(inner),
        _ => true,
    }
}

/// Whether every punctuation token in `tokens`, at any depth, holds a punctuation
/// character.
pub open spec fn well_punctuated(tokens: Seq<Token>) -> bool
    decreases tokens,
{
    forall|i: int| 0 <= i < tokens.len() ==> punctuated(#[trigger] tokens[i])
}

/// From a sequence that is well punctuated, any tail is.
pub proof fn lemma_well_punctuated_tail(tokens: Seq<TokenTree>, from: int, to: int)
    requires
        0 <= from <= to <= tokens.len(),
        well_punctuated(erase(tokens.skip(from))),
    ensures
        well_punctuated(erase(tokens.skip(to))),
{
    let whole = erase(tokens.skip(from));
    let tail = erase(tokens.skip(to));
    assert forall|i: int| 0 <= i < tail.len() implies punctuated(#[trigger] tail[i]) by {
        assert(tail[i] == whole[i + to - from]);
    }
}

pub proof fn lemma_erase_empty()
    ensures
        erase(Seq::<TokenTree>::empty()) == Seq::<Token>::empty(),
{
    assert(erase(Seq::<TokenTree>::empty()) =~= Seq::<Token>::empty());
}

pub proof fn lemma_erase_push(tokens: Seq<TokenTree>, tree: TokenTree)
    ensures
        erase(tokens.push(tree)) == erase(tokens).push(tree@),
{
    assert(erase(tokens.push(tree)) =~= erase(tokens).push(tree@));
}

pub proof fn lemma_erase_skip(tokens: Seq<TokenTree>, n: int)
    requires
        0 <= n <= tokens.len(),
    ensures
        erase(tokens.skip(n)) == erase(tokens).skip(n),
{
    assert(erase(tokens.skip(n)) =~= erase(tokens).skip(n));
}

impl TokenTree {
    pub open spec fn spec_span(&self) -> proc_macro2::Span {
        match self {
            TokenTree::Ident { span, .. } => *span,
            TokenTree::Punct { span, .. } => *span,
            TokenTree::Literal { span, .. } => *span,
            TokenTree::Group { span, .. } => *span,
        }
    }

    /// The span that the tree carries.
    #[verifier::when_used_as_spec(spec_span)]
    pub fn span(&self) -> (r: proc_macro2::Span)
        ensures
            r == self.spec_span(),
    {
        match self {
            TokenTree::Ident { span, .. } => *span,
            TokenTree::Punct { span, .. } => *span,
            TokenTree::Literal { span, .. } => *span,
            TokenTree::Group { span, .. } => *span,
        }
    }

    /// An identifier token.
    pub fn word(text: &str, span: proc_macro2::Span) -> (r: TokenTree)
        ensures
            r@ == word_token(text@),
            r.span() == span,
    {
        TokenTree::Ident { text: String::from_str(text), span }
    }

    /// A punctuation token.
    pub fn punct(ch: char, spacing: Adjacency, span: proc_macro2::Span) -> (r: TokenTree)
        ensures
            r@ == Token::Punct(ch, spacing),
            r.span() == span,
    {
        TokenTree::Punct { ch, spacing, span }
    }

    /// A delimited group around `stream`.
    pub fn group(delimiter: Delim, stream: Vec<TokenTree>, span: proc_macro2::Span) -> (r:
        TokenTree)
        ensures
            r@ == Token::Group(delimiter, erase(stream@)),
            r.span() == span,
    {
        TokenTree::Group { delimiter, stream, span }
    }

    /// Whether the tree is the identifier spelled `word`.
    pub fn is_word(&self, word: &str) -> (r: bool)
        ensures
            r == (self@ == word_token(word@)),
    {
        match self {
            TokenTree::Ident { text, .. } => {
                let wanted = String::from_str(word);
                *text == wanted
            },
            _ => false,
        }
    }

    /// Whether every punctuation token in the tree holds a punctuation character.
    pub fn is_punctuated(&self) -> (r: bool)
        ensures
            r == punctuated(self@),
        decreases self,
    {
        match self {
            TokenTree::Punct { ch, .. } => punctuation(*ch),
            TokenTree::Group { stream, .. } => {
                let mut i: usize = 0;
                while i < stream.len()
                    invariant
                        i <= stream.len(),
                        self is Group,
                        self->stream == *stream,
                        forall|j: int| 0 <= j < i ==> punctuated(#[trigger] erase(stream@)[j]),
                    decreases stream.len() - i,
                {
                    assert(erase(stream@)[i as int] == stream@[i as int]@);
                    if !stream[i].is_punctuated() {
                        assert(!well_punctuated(erase(stream@)));
                        return false;
                    }
                    i += 1;
                }
                assert(well_punctuated(erase(stream@)));
                true
            },
            _ => true,
        }
    }

    /// Whether the two trees say the same, whatever their spans.
    pub fn says(&self, other: &TokenTree) -> (r: bool)
        ensures
            r == (self@ == other@),
        decreases self,
    {
        match (self, other) {
            (TokenTree::Ident { text: a, .. }, TokenTree::Ident { text: b, .. }) => *a == *b,
            (TokenTree::Literal { text: a, .. }, TokenTree::Literal { text: b, .. }) => *a == *b,
            (
                TokenTree::Punct { ch: a, spacing: s, .. },
                TokenTree::Punct { ch: b, spacing: t, .. },
            ) => *a == *b && *s == *t,
            (
                TokenTree::Group { delimiter: d, stream: a, .. },
                TokenTree::Group { delimiter: e, stream: b, .. },
            ) => {
                if *d != *e || a.len() != b.len() {
                    assert(erase(a@).len() != erase(b@).len() || *d != *e);
                    return false;
                }
                let mut i: usize = 0;
                while i < a.len()
                    invariant
                        i <= a.len(),
                        a.len() == b.len(),
                        self is Group,
                        self->stream == *a,
                        other is Group,
                        other->stream == *b,
                        self->delimiter == other->delimiter,
                        forall|j: int| 0 <= j < i ==> (#[trigger] a@[j])@ == b@[j]@,
                    decreases a.len() - i,
                {
                    if !a[i].says(&b[i]) {
                        assert(erase(a@)[i as int] == a@[i as int]@);
                        assert(erase(b@)[i as int] == b@[i as int]@);
                        assert(erase(a@) != erase(b@));
                        return false;
                    }
                    i += 1;
                }
                assert(erase(a@) =~= erase(b@));
                true
            },
            _ => false,
        }
    }

    /// A copy of the tree, span included.
    pub fn duplicate(&self) -> (r: TokenTree)
        ensures
            r@ == self@,
            r.span() == self.span(),
        decreases self,
    {
        match self {
            TokenTree::Ident { text, span } => TokenTree::Ident { text: text.clone(), span: *span },
            TokenTree::Punct { ch, spacing, span } => TokenTree::Punct {
                ch: *ch,
                spacing: *spacing,
                span: *span,
            },
            TokenTree::Literal { text, span } => TokenTree::Literal {
                text: text.clone(),
                span: *span,
            },
            TokenTree::Group { delimiter, stream, span } => {
                let mut copy: Vec<TokenTree> = Vec::new();
                let mut i: usize = 0;
                proof {
                    lemma_erase_empty();
                }
                while i < stream.len()
                    invariant
                        i <= stream.len(),
                        copy.len() == i,
                        erase(copy@) == erase(stream@.take(i as int)),
                        self is Group,
                        self->stream == *stream,
                    decreases stream.len() - i,
                {
                    let tree = stream[i].duplicate();
                    proof {
                        lemma_erase_push(copy@, tree);
                        lemma_erase_push(stream@.take(i as int), stream@[i as int]);
                        assert(stream@.take(i as int).push(stream@[i as int]) =~= stream@.take(
                            i + 1,
                        ));
                    }
                    copy.push(tree);
                    i += 1;
                }
                assert(stream@.take(stream.len() as int) =~= stream@);
                TokenTree::Group { delimiter: *delimiter, stream: copy, span: *span }
            },
        }
    }
}

/// Whether `ch` is one of the characters that Rust's punctuation is made of.
pub fn punctuation(ch: char) -> (r: bool)
    ensures
        r == is_punctuation(ch),
{
    ch == '!' || ch == '#' || ch == '$' || ch == '%' || ch == '&' || ch == '\'' || ch == '*'
        || ch == '+' || ch == ',' || ch == '-' || ch == '.' || ch == '/' || ch == ':' || ch
        == ';' || ch == '<' || ch == '=' || ch == '>' || ch == '?' || ch == '@' || ch == '^'
        || ch == '|' || ch == '~'
}

/// Whether every punctuation token from `start` on, at any depth, holds a punctuation
/// character.
pub fn check_punctuation(tokens: &Vec<TokenTree>, start: usize) -> (r: bool)
    requires
        start <= tokens.len(),
    ensures
        r == well_punctuated(erase(tokens@.skip(start as int))),
{
    let ghost tail = erase(tokens@.skip(start as int));
    let mut i: usize = start;
    while i < tokens.len()
        invariant
            start <= i <= tokens.len(),
            tail == erase(tokens@.skip(start as int)),
            forall|j: int| 0 <= j < i - start ==> punctuated(#[trigger] tail[j]),
        decreases tokens.len() - i,
    {
        if !tokens[i].is_punctuated() {
            assert(tail[i - start] == tokens@[i as int]@);
            return false;
        }
        assert(tail[i - start] == tokens@[i as int]@);
        i += 1;
    }
    true
}

/// Whether `rest` says what the tokens of `tokens` from `from` on say.
pub fn is_tail(rest: &Vec<TokenTree>, tokens: &Vec<TokenTree>, from: usize) -> (r: bool)
    requires
        from <= tokens.len(),
    ensures
        r == (erase(rest@) == erase(tokens@).skip(from as int)),
{
    if rest.len() != tokens.len() - from {
        assert(erase(rest@).len() != erase(tokens@).skip(from as int).len());
        return false;
    }
    let mut i: usize = 0;
    while i < rest.len()
        invariant
            i <= rest.len(),
            from <= tokens.len(),
            rest.len() == tokens.len() - from,
            forall|j: int| 0 <= j < i ==> (#[trigger] rest@[j])@ == tokens@[from + j]@,
        decreases rest.len() - i,
    {
        if !rest[i].says(&tokens[from + i]) {
            assert(erase(rest@)[i as int] != erase(tokens@).skip(from as int)[i as int]);
            return false;
        }
        i += 1;
    }
    assert(erase(rest@) =~= erase(tokens@).skip(from as int));
    true
}

/// Appends `tree` to `target`.
pub fn push_token(target: &mut Vec<TokenTree>, tree: TokenTree)
    ensures
        final(target)@ == old(target)@.push(tree),
        erase(final(target)@) == erase(old(target)@) + seq![tree@],
{
    proof {
        lemma_erase_push(target@, tree);
        assert(erase(target@).push(tree@) =~= erase(target@) + seq![tree@]);
    }
    target.push(tree);
}

/// Appends copies of the trees of `source` to `target`.
pub fn append_tokens(target: &mut Vec<TokenTree>, source: &Vec<TokenTree>)
    ensures
        final(target)@.len() == old(target)@.len() + source@.len(),
        erase(final(target)@) == erase(old(target)@) + erase(source@),
{
    let mut i: usize = 0;
    assert(erase(source@.take(0)) =~= Seq::<Token>::empty());
    assert(erase(target@) + Seq::<Token>::empty() =~= erase(target@));
    while i < source.len()
        invariant
            i <= source.len(),
            target@.len() == old(target)@.len() + i,
            erase(target@) == erase(old(target)@) + erase(source@.take(i as int)),
        decreases source.len() - i,
    {
        let tree = source[i].duplicate();
        proof {
            lemma_erase_push(target@, tree);
            lemma_erase_push(source@.take(i as int), source@[i as int]);
            assert(source@.take(i as int).push(source@[i as int]) =~= source@.take(i + 1));
            assert((erase(old(target)@) + erase(source@.take(i as int))).push(tree@) =~= erase(
                old(target)@,
            ) + erase(source@.take(i as int)).push(tree@));
        }
        target.push(tree);
        i += 1;
    }
    assert(source@.take(source.len() as int) =~= source@);
}

} // verus!
