use oop_macros::class::ClassDef;
use oop_macros::class::ClassGenerics;
use oop_macros::error::ErrorKind;
use oop_macros::fields::ClassAttribute;
use oop_macros::fields::ClassField;
use oop_macros::fields::ClassMethod;
use oop_macros::modifiers::ClassModifiers;
use oop_macros::modifiers::ClassVisibility;
use oop_macros::syntax::Parsed;
use oop_macros::syntax::SyntaxError;
use oop_macros::token::append_tokens;
use oop_macros::token::check_punctuation;
use oop_macros::token::is_tail;
use oop_macros::token::punctuation;
use oop_macros::token::push_token;
use oop_macros::token::Adjacency;
use oop_macros::token::Delim;
use oop_macros::token::Name;
use oop_macros::token::TokenTree;
use oop_macros::utils::advance;
use oop_macros::utils::expected_error;
use oop_macros::utils::syntax_error;
use oop_macros::utils::parse_zero_or_more;
use oop_macros::utils::Parse;
use oop_macros::utils::ToTokens;
use oop_macros::validate::Validate;
use proc_macro2::Span;
use proc_macro2::TokenStream;

fn convert(stream: TokenStream) -> Vec<TokenTree> {
    let mut out = Vec::new();
    for tree in stream {
        out.push(match tree {
            proc_macro2::TokenTree::Ident(i) => TokenTree::Ident { text: i.to_string(), span: i.span() },
            proc_macro2::TokenTree::Punct(p) => TokenTree::Punct {
                ch: p.as_char(),
                spacing: match p.spacing() {
                    proc_macro2::Spacing::Alone => Adjacency::Alone,
                    proc_macro2::Spacing::Joint => Adjacency::Joint,
                },
                span: p.span(),
            },
            proc_macro2::TokenTree::Literal(l) => TokenTree::Literal { text: l.to_string(), span: l.span() },
            proc_macro2::TokenTree::Group(g) => TokenTree::Group {
                delimiter: match g.delimiter() {
                    proc_macro2::Delimiter::Parenthesis => Delim::Parenthesis,
                    proc_macro2::Delimiter::Brace => Delim::Brace,
                    proc_macro2::Delimiter::Bracket => Delim::Bracket,
                    proc_macro2::Delimiter::None => Delim::Invisible,
                },
                stream: convert(g.stream()),
                span: g.span(),
            },
        });
    }
    out
}

fn lex(text: &str) -> Vec<TokenTree> {
    convert(text.parse::<TokenStream>().unwrap())
}

fn text(tokens: &[TokenTree]) -> String {
    let mut out = String::new();
    for tree in tokens {
        match tree {
            TokenTree::Ident { text, .. } => {
                out.push_str(text);
                out.push(' ');
            },
            TokenTree::Punct { ch, spacing, .. } => {
                out.push(*ch);
                if *spacing == Adjacency::Alone {
                    out.push(' ');
                }
            },
            TokenTree::Literal { text, .. } => {
                out.push_str(text);
                out.push(' ');
            },
            TokenTree::Group { delimiter, stream, .. } => {
                let (open, close) = match delimiter {
                    Delim::Parenthesis => ("( ", ") "),
                    Delim::Brace => ("{ ", "} "),
                    Delim::Bracket => ("[ ", "] "),
                    Delim::Invisible => ("", ""),
                };
                out.push_str(open);
                out.push_str(&text(stream));
                out.push_str(close);
            },
        }
    }
    out
}

fn same(source: &str) -> String {
    text(&lex(source))
}

fn site() -> Span {
    Span::call_site()
}

fn column(source: &str, needle: &str, occurrence: usize) -> usize {
    source.match_indices(needle).nth(occurrence).unwrap().0
}

fn rendered<T: ToTokens>(node: &T) -> String {
    let mut tokens = Vec::new();
    node.to_tokens(&mut tokens, site());
    text(&tokens)
}

#[test]
fn visibility_pub_is_public() {
    let (vis, end) = ClassVisibility::parse(&lex("pub fn a() { }"), 0, site()).unwrap();
    assert_eq!(vis, ClassVisibility::Public);
    assert_eq!(end, 1);
}

#[test]
fn visibility_prot_is_protected() {
    let (vis, end) = ClassVisibility::parse(&lex("x prot fn a() { }"), 1, site()).unwrap();
    assert_eq!(vis, ClassVisibility::Protected);
    assert_eq!(end, 2);
}

#[test]
fn visibility_defaults_to_private_and_reads_nothing() {
    let (vis, end) = ClassVisibility::parse(&lex("fn a() { }"), 0, site()).unwrap();
    assert_eq!(vis, ClassVisibility::Private);
    assert_eq!(end, 0);
    let (vis, end) = ClassVisibility::parse(&lex("pub"), 1, site()).unwrap();
    assert_eq!(vis, ClassVisibility::Private);
    assert_eq!(end, 1);
}

#[test]
fn visibility_keywords_are_whole_identifiers() {
    for source in ["public", "protected", "r#pub", "\"pub\"", "(pub)", "Pub"] {
        let (vis, end) = ClassVisibility::parse(&lex(source), 0, site()).unwrap();
        assert_eq!(vis, ClassVisibility::Private, "{}", source);
        assert_eq!(end, 0);
    }
}

#[test]
fn visibility_rendering() {
    assert_eq!(rendered(&ClassVisibility::Public), "pub ");
    assert_eq!(rendered(&ClassVisibility::Private), "pub ( self ) ");
    assert_eq!(rendered(&ClassVisibility::Protected), "");
}

#[test]
fn rendering_appends_to_what_is_there() {
    let mut tokens = lex("a b");
    ClassVisibility::Public.to_tokens(&mut tokens, site());
    ClassVisibility::Protected.to_tokens(&mut tokens, site());
    ClassVisibility::Private.to_tokens(&mut tokens, site());
    assert_eq!(text(&tokens), "a b pub pub ( self ) ");
}

#[test]
fn modifiers_none() {
    let (modifiers, end) = ClassModifiers::parse(&lex("fn a() { }"), 0, site()).unwrap();
    assert!(!modifiers.is_constant);
    assert!(!modifiers.is_static);
    assert!(modifiers.dup_constant.is_empty());
    assert!(modifiers.dup_static.is_empty());
    assert_eq!(end, 0);
    assert!(modifiers.validate().is_ok());
}

#[test]
fn modifiers_at_the_end_of_the_input() {
    let tokens = lex("pub static");
    let (modifiers, end) = ClassModifiers::parse(&tokens, 1, site()).unwrap();
    assert!(modifiers.is_static);
    assert_eq!(end, 2);
    let (modifiers, end) = ClassModifiers::parse(&tokens, 2, site()).unwrap();
    assert!(!modifiers.is_static);
    assert_eq!(end, 2);
}

#[test]
fn modifiers_in_any_order() {
    for source in ["const static fn", "static const fn"] {
        let (modifiers, end) = ClassModifiers::parse(&lex(source), 0, site()).unwrap();
        assert!(modifiers.is_constant && modifiers.is_static);
        assert!(modifiers.dup_constant.is_empty() && modifiers.dup_static.is_empty());
        assert_eq!(end, 2);
        assert!(modifiers.validate().is_ok());
    }
}

#[test]
fn modifiers_stop_at_the_first_other_token() {
    let (modifiers, end) = ClassModifiers::parse(&lex("const fn static"), 0, site()).unwrap();
    assert!(modifiers.is_constant);
    assert!(!modifiers.is_static);
    assert_eq!(end, 1);
}

#[test]
fn modifiers_record_every_repetition_in_order() {
    let source = "static const static const const static fn";
    let (modifiers, end) = ClassModifiers::parse(&lex(source), 0, site()).unwrap();
    assert_eq!(end, 6);
    assert!(modifiers.is_constant && modifiers.is_static);
    let consts: Vec<usize> = modifiers.dup_constant.iter().map(|s| s.start().column).collect();
    let statics: Vec<usize> = modifiers.dup_static.iter().map(|s| s.start().column).collect();
    assert_eq!(consts, vec![column(source, "const", 1), column(source, "const", 2)]);
    assert_eq!(statics, vec![column(source, "static", 1), column(source, "static", 2)]);
    let error = modifiers.validate().unwrap_err();
    assert_eq!(error.kind, ErrorKind::DuplicateConstant);
    assert_eq!(error.message, "Duplicate modifier `const`.");
    assert_eq!(error.span.start().column, column(source, "const", 1));
}

#[test]
fn modifiers_validation_by_hand() {
    let modifiers = ClassModifiers {
        is_constant: false,
        is_static: true,
        dup_constant: vec![],
        dup_static: vec![site()],
    };
    let error = modifiers.validate().unwrap_err();
    assert_eq!(error.kind, ErrorKind::DuplicateStatic);
    assert_eq!(error.message, "Duplicate modifier `static`.");
}

#[test]
fn method_parts() {
    let source = "#[inline] pub static fn make<T>(n: T) -> T where T: Copy { n } fn next() { }";
    let tokens = lex(source);
    let (method, end) = ClassMethod::parse(&tokens, 0, site()).unwrap();
    assert_eq!(text(&method.attrs), same("#[inline]"));
    assert_eq!(method.vis, ClassVisibility::Public);
    assert!(method.modifiers.is_static && !method.modifiers.is_constant);
    assert_eq!(text(&method.sig), same("fn make<T>(n: T) -> T where T: Copy"));
    assert_eq!(text(&method.block), same("{ n }"));
    assert!(method.receiver.is_none());
    assert_eq!(end, 18);
    assert_eq!(rendered(&method), same("#[inline] pub fn make<T>(n: T) -> T where T: Copy { n }"));
    assert!(method.validate().is_ok());
    let (next, end) = ClassMethod::parse(&tokens, end, site()).unwrap();
    assert_eq!(end, tokens.len());
    assert_eq!(rendered(&next), same("pub(self) fn next(&mut self) { }"));
}

#[test]
fn method_receiver_is_recorded() {
    let source = "x fn a(&self) { }";
    let (method, _) = ClassMethod::parse(&lex(source), 1, site()).unwrap();
    assert_eq!(method.receiver.unwrap().start().column, column(source, "&self", 0));
    let (method, _) = ClassMethod::parse(&lex("static fn a(n: u8) { }"), 0, site()).unwrap();
    assert!(method.receiver.is_none());
    let (method, _) = ClassMethod::parse(&lex("fn a(n: u8) { }"), 0, site()).unwrap();
    assert!(method.receiver.is_some());
}

#[test]
fn method_receiver_rule() {
    let cases = [
        ("fn a() { }", "fn a(&mut self)"),
        ("fn a(n: u8,) { }", "fn a(&mut self, n: u8,)"),
        ("fn a(&self) { }", "fn a(&self)"),
        ("fn a(mut self) { }", "fn a(mut self)"),
        ("fn a(self: &Self) { }", "fn a(self: &Self)"),
        ("static fn a() { }", "fn a()"),
        ("static fn a(n: u8) { }", "fn a(n: u8)"),
        ("static fn a(&self) { }", "fn a(&self)"),
        ("const unsafe fn a<F: Fn(u8) -> u8>(f: F) { }", "unsafe fn a<F: Fn(u8) -> u8>(&mut self, f: F)"),
    ];
    for (source, signature) in cases {
        let (method, _) = ClassMethod::parse(&lex(source), 0, site()).unwrap();
        assert_eq!(text(&method.sig), same(signature), "{}", source);
    }
}

#[test]
fn method_validation() {
    let (method, _) = ClassMethod::parse(&lex("static fn a(&self) { }"), 0, site()).unwrap();
    let error = method.validate().unwrap_err();
    assert_eq!(error.kind, ErrorKind::StaticReceiver);
    assert_eq!(error.message, "Static class methods cannot have a reciever.");
    let (method, _) = ClassMethod::parse(&lex("static static fn a(&self) { }"), 0, site()).unwrap();
    assert_eq!(method.validate().unwrap_err().kind, ErrorKind::DuplicateStatic);
    let (method, _) = ClassMethod::parse(&lex("const fn a(&self) { }"), 0, site()).unwrap();
    assert!(method.validate().is_ok());
}

#[test]
fn method_validation_by_hand() {
    let method = |is_static: bool, receiver: Option<Span>| ClassMethod {
        modifiers: ClassModifiers { is_constant: false, is_static, dup_constant: vec![], dup_static: vec![] },
        attrs: vec![],
        vis: ClassVisibility::Private,
        sig: lex("fn a(&self)"),
        receiver,
        block: lex("{ }"),
    };
    assert!(method(true, None).validate().is_ok());
    assert!(method(false, None).validate().is_ok());
    assert!(method(false, Some(site())).validate().is_ok());
    let source = "  mark";
    let mark = lex(source)[0].span();
    let error = method(true, Some(mark)).validate().unwrap_err();
    assert_eq!(error.kind, ErrorKind::StaticReceiver);
    assert_eq!(error.span.start().column, 2);
    assert_eq!(rendered(&method(true, None)), same("pub(self) fn a(&self) { }"));
}

#[test]
fn method_syntax_errors() {
    for (source, message) in [
        ("", "unexpected end of input, expected `fn`"),
        ("pub", "unexpected end of input, expected `fn`"),
        ("pub struct A;", "expected `fn`"),
        ("fn a()", "unexpected end of input, expected curly braces"),
        ("fn a();", "expected curly braces"),
        ("#inline fn a() { }", "expected square brackets"),
        ("fn a(self, self) { }", "unexpected second method receiver"),
        ("fn a(n: u8, self) { }", "unexpected method receiver"),
    ] {
        let error = match ClassMethod::parse(&lex(source), 0, site()) {
            Ok(_) => panic!("{}", source),
            Err(error) => error,
        };
        assert_eq!(error.kind, ErrorKind::Syntax, "{}", source);
        assert_eq!(error.message, message, "{}", source);
    }
    assert!(ClassMethod::parse(&lex("fn a() -> { }"), 0, site()).is_err());
    assert!(ClassMethod::parse(&lex("fn a() { let }"), 0, site()).is_err());
}

#[test]
fn field_is_parsed_as_a_method() {
    let (field, end) = ClassField::parse(&lex("prot fn a() { }"), 0, site()).unwrap();
    assert_eq!(end, 5);
    match &field {
        ClassField::ClassMethod(method) => assert_eq!(method.vis, ClassVisibility::Protected),
        ClassField::ClassAttribute(_) => panic!("a data field"),
    }
    assert_eq!(rendered(&field), same("fn a(&mut self) { }"));
    assert!(field.validate().is_ok());
    assert!(ClassField::parse(&lex("pub n: u32;"), 0, site()).is_err());
}

fn data_field() -> ClassAttribute {
    ClassAttribute {
        modifiers: ClassModifiers { is_constant: false, is_static: false, dup_constant: vec![], dup_static: vec![] },
        attrs: vec![],
        vis: ClassVisibility::Public,
        is_static: false,
        ident: Name { text: String::from("n"), span: site() },
        ty: lex("u32"),
    }
}

#[test]
fn data_field_is_not_accepted_yet() {
    let error = match ClassAttribute::parse(&lex("pub n: u32;"), 0, site()) {
        Ok(_) => panic!("a data field was parsed"),
        Err(error) => error,
    };
    assert_eq!(error.kind, ErrorKind::Unimplemented);
    assert_eq!(error.message, "ClassAttribute not implemented yet.");
    assert!(ClassAttribute::parse(&lex(""), 0, site()).is_err());
    let error = data_field().validate().unwrap_err();
    assert_eq!(error.kind, ErrorKind::Unimplemented);
    let field = ClassField::ClassAttribute(data_field());
    assert_eq!(field.validate().unwrap_err().kind, ErrorKind::Unimplemented);
    assert_eq!(rendered(&field), "");
}

#[test]
fn repetition_of_nothing_is_empty() {
    let fields = parse_zero_or_more::<ClassField>(&lex(""), site()).unwrap();
    assert!(fields.is_empty());
}

#[test]
fn repetition_uses_every_token() {
    let fields = parse_zero_or_more::<ClassField>(&lex("fn a() { } pub fn b() { } prot fn c() { }"), site()).unwrap();
    assert_eq!(fields.len(), 3);
    let names: Vec<String> = fields.iter().map(|f| rendered(f)).collect();
    assert_eq!(
        names,
        vec![same("pub(self) fn a(&mut self) { }"), same("pub fn b(&mut self) { }"), same("fn c(&mut self) { }")]
    );
}

#[test]
fn repetition_stops_at_the_first_error() {
    let error = match parse_zero_or_more::<ClassField>(&lex("fn a() { } fn b() ; fn c() { }"), site()) {
        Ok(_) => panic!("parsed"),
        Err(error) => error,
    };
    assert_eq!(error.message, "expected curly braces");
    assert!(parse_zero_or_more::<ClassField>(&lex("fn a() { } ;"), site()).is_err());
}

#[test]
fn repetition_of_a_node_that_reads_nothing_is_an_error() {
    let tokens = lex("fn a() { }");
    let error = match parse_zero_or_more::<ClassVisibility>(&tokens, site()) {
        Ok(_) => panic!("parsed"),
        Err(error) => error,
    };
    assert_eq!(error.kind, ErrorKind::Syntax);
    assert_eq!(error.message, "parser read no token");
    let all = parse_zero_or_more::<ClassVisibility>(&lex("pub prot pub"), site()).unwrap();
    assert_eq!(all, vec![ClassVisibility::Public, ClassVisibility::Protected, ClassVisibility::Public]);
}

#[test]
fn class_parts() {
    let source = "x #[derive(Debug)] pub(crate) class Stack<T> { pub fn push(item: T) { } prot fn grow() { } } y";
    let tokens = lex(source);
    let (class, end) = ClassDef::parse(&tokens, 1, site()).unwrap();
    assert_eq!(end, tokens.len() - 1);
    assert_eq!(text(&class.attrs), same("#[derive(Debug)]"));
    assert_eq!(text(&class.vis), same("pub(crate)"));
    assert_eq!(class.ident.text, "Stack");
    assert_eq!(class.ident.span.start().column, column(source, "Stack", 0));
    assert_eq!(text(&class.generics.declared), same("<T>"));
    assert_eq!(text(&class.generics.for_impl), same("<T>"));
    assert_eq!(text(&class.generics.for_type), same("<T>"));
    assert_eq!(class.fields.len(), 2);
    assert!(class.validate().is_ok());
}

#[test]
fn class_is_validated_when_it_is_parsed() {
    let error = match ClassDef::parse(&lex("class A { fn a() { } static fn b(self) { } }"), 0, site()) {
        Ok(_) => panic!("parsed"),
        Err(error) => error,
    };
    assert_eq!(error.kind, ErrorKind::StaticReceiver);
}

#[test]
fn class_built_by_hand_is_validated_member_by_member() {
    let (good, _) = ClassField::parse(&lex("fn a() { }"), 0, site()).unwrap();
    let (bad, _) = ClassField::parse(&lex("const const fn b() { }"), 0, site()).unwrap();
    let class = ClassDef {
        attrs: vec![],
        vis: vec![],
        ident: Name { text: String::from("A"), span: site() },
        generics: ClassGenerics { declared: vec![], for_impl: vec![], for_type: vec![] },
        fields: vec![good, ClassField::ClassAttribute(data_field()), bad],
    };
    assert_eq!(class.validate().unwrap_err().kind, ErrorKind::Unimplemented);
    assert_eq!(
        rendered(&class),
        same("struct A { } impl A { pub(self) fn a(&mut self) { } pub(self) fn b(&mut self) { } } trait __AProtected { } impl __AProtected for A { }")
    );
}

#[test]
fn trait_name_is_built_from_the_class_name() {
    for (name, wanted) in [("A", "__AProtected"), ("r#fn", "__fnProtected"), ("r", "__rProtected"), ("r_", "__r_Protected"), ("_x", "___xProtected")] {
        let class = ClassDef {
            attrs: vec![],
            vis: vec![],
            ident: Name { text: String::from(name), span: site() },
            generics: ClassGenerics { declared: vec![], for_impl: vec![], for_type: vec![] },
            fields: vec![],
        };
        let mut tokens = Vec::new();
        class.to_tokens(&mut tokens, site());
        match &tokens[7] {
            TokenTree::Ident { text, .. } => assert_eq!(text, wanted),
            other => panic!("{:?}", other),
        }
        assert_eq!(tokens.len(), 14);
    }
}

#[test]
fn class_generics_by_hand_are_written_in_their_places() {
    let class = ClassDef {
        attrs: vec![],
        vis: lex("pub"),
        ident: Name { text: String::from("A"), span: site() },
        generics: ClassGenerics { declared: lex("<T: Copy = u8>"), for_impl: lex("<T: Copy>"), for_type: lex("<T>") },
        fields: vec![],
    };
    assert_eq!(
        rendered(&class),
        same("pub struct A<T: Copy = u8> { } impl<T: Copy> A<T> { } trait __AProtected<T: Copy = u8> { } impl<T: Copy> __AProtected<T> for A<T> { }")
    );
}

#[test]
fn advance_finds_the_position_from_the_unread_tokens() {
    let tokens = lex("a b c d e f");
    let parsed = Parsed { tokens: lex("x"), rest: lex("d e f") };
    let (printed, end) = advance(Ok(parsed), &tokens, 1, site()).unwrap();
    assert_eq!(text(&printed), "x ");
    assert_eq!(end, 3);
    let (_, end) = advance(Ok(Parsed { tokens: vec![], rest: lex("b c d e f") }), &tokens, 1, site()).unwrap();
    assert_eq!(end, 1);
    let (_, end) = advance(Ok(Parsed { tokens: vec![], rest: vec![] }), &tokens, 1, site()).unwrap();
    assert_eq!(end, 6);
}

#[test]
fn advance_refuses_unread_tokens_that_are_not_the_end_of_the_input() {
    let tokens = lex("a b c d e f");
    for rest in ["a b c d e f", "d e g", "d e f g", "x a b c d e f", "d (e) f"] {
        let error = advance(Ok(Parsed { tokens: vec![], rest: lex(rest) }), &tokens, 1, site()).unwrap_err();
        assert_eq!(error.kind, ErrorKind::Syntax, "{}", rest);
        assert_eq!(error.message, "parser stopped inside a group without delimiters");
    }
}

#[test]
fn advance_hands_on_the_message_and_span_of_the_parser() {
    let mark = lex("   mark")[0].span();
    let failure = SyntaxError { message: String::from("expected `fn`"), span: mark };
    let error = advance(Err(failure), &lex("a b"), 1, site()).unwrap_err();
    assert_eq!(error.kind, ErrorKind::Syntax);
    assert_eq!(error.message, "expected `fn`");
    assert_eq!(error.span.start().column, 3);
    let failure = SyntaxError { message: String::from("m"), span: mark };
    let error = syntax_error(failure);
    assert_eq!(error.message, "m");
    assert_eq!(error.span.start().column, 3);
}

#[test]
fn expected_error_names_the_end_of_the_input() {
    let source = "a b";
    let tokens = lex(source);
    let error = expected_error(&tokens, 1, site(), "expected `class`");
    assert_eq!(error.message, "expected `class`");
    assert_eq!(error.span.start().column, 2);
    let error = expected_error(&tokens, 2, site(), "expected `class`");
    assert_eq!(error.message, "unexpected end of input, expected `class`");
}

#[test]
fn token_helpers() {
    let word = TokenTree::word("impl", site());
    assert!(word.is_word("impl"));
    assert!(!word.is_word("imp"));
    assert!(!word.is_word("impl "));
    assert!(!TokenTree::punct('#', Adjacency::Alone, site()).is_word("#"));
    assert!(!TokenTree::Literal { text: String::from("impl"), span: site() }.is_word("impl"));
    let group = TokenTree::group(Delim::Bracket, lex("a (b 'c) 1.5"), site());
    assert!(!group.is_word("a"));
    let copy = group.duplicate();
    assert_eq!(text(&[copy]), same("[a (b 'c) 1.5]"));
    let mut tokens = lex("x");
    push_token(&mut tokens, group);
    append_tokens(&mut tokens, &lex("y { z }"));
    assert_eq!(text(&tokens), same("x [a (b 'c) 1.5] y { z }"));
    let source = "  here";
    let tokens = lex(source);
    assert_eq!(tokens[0].span().start().column, 2);
    assert_eq!(tokens[0].duplicate().span().start().column, 2);
    let name = Name { text: String::from("r#x"), span: tokens[0].span() };
    assert!(name.token().says(&lex("r#x")[0]));
    assert_eq!(name.token().span().start().column, 2);
}

#[test]
fn punctuation_characters() {
    for ch in "!#$%&'*+,-./:;<=>?@^|~".chars() {
        assert!(punctuation(ch), "{}", ch);
    }
    assert_eq!("!#$%&'*+,-./:;<=>?@^|~".chars().count(), 22);
    for ch in "a1_ (){}[]\"`\u{2192}".chars() {
        assert!(!punctuation(ch), "{}", ch);
    }
}

#[test]
fn punctuation_is_checked_at_every_depth() {
    let good = lex("a + (b, [c; 'd]) -> { e :: f }");
    assert!(check_punctuation(&good, 0));
    assert!(good[2].is_punctuated());
    let bad = |ch: char| TokenTree::Punct { ch, spacing: Adjacency::Alone, span: site() };
    let mut tokens = lex("a b");
    tokens.insert(1, bad('x'));
    assert!(!check_punctuation(&tokens, 0));
    assert!(!check_punctuation(&tokens, 1));
    assert!(check_punctuation(&tokens, 2));
    assert!(check_punctuation(&tokens, 3));
    let deep = TokenTree::group(Delim::Brace, vec![TokenTree::group(Delim::Invisible, vec![bad('{')], site())], site());
    assert!(!deep.is_punctuated());
    assert!(!check_punctuation(&vec![TokenTree::word("a", site()), deep], 0));
}

#[test]
fn trees_are_compared_by_what_they_say() {
    let a = lex("f(x, 1.5) 'a += \"s\"");
    let b = lex("f ( x , 1.5 )   'a    += \"s\"");
    assert_eq!(a.len(), b.len());
    for (left, right) in a.iter().zip(b.iter()) {
        assert!(left.says(right));
    }
    let differ = [("a", "b"), ("1", "1u8"), ("a", "\"a\""), ("(a)", "[a]"), ("(a)", "(a b)"), ("(a b)", "(a c)"), ("+", "-"), ("a", "(a)")];
    for (left, right) in differ {
        assert!(!lex(left)[0].says(&lex(right)[0]), "{} {}", left, right);
    }
    assert!(!lex("+=")[0].says(&lex("+ =")[0]));
    assert!(lex("+=")[1].says(&lex("+ =")[1]));
}

#[test]
fn tail_of_a_sequence() {
    let tokens = lex("a (b c) d");
    assert!(is_tail(&lex("(b c) d"), &tokens, 1));
    assert!(is_tail(&lex("a (b c) d"), &tokens, 0));
    assert!(is_tail(&lex(""), &tokens, 3));
    assert!(!is_tail(&lex("(b c) d"), &tokens, 0));
    assert!(!is_tail(&lex("(b c) d"), &tokens, 2));
    assert!(!is_tail(&lex("(b x) d"), &tokens, 1));
    assert!(!is_tail(&lex("d"), &tokens, 3));
}
