//! Spans do not matter: what the macro makes of its input depends only on what the
//! tokens say. Two inputs that spell the same text give the same declarations, token for
//! token, or fail with the same kind of error and the same message.

use crate::class::body;
use crate::class::braced;
use crate::class::bucket;
use crate::class::bucket_of;
use crate::class::expansion;
use crate::class::first_failure;
use crate::class::generics_at;
use crate::class::lemma_body_push;
use crate::class::members_at;
use crate::class::single_ident;
use crate::class::Bucket;
use crate::class::Class;
use crate::class::ClassDef;
use crate::error::Failure;
use crate::fields::written_method;
use crate::fields::Attribute;
use crate::fields::ClassField;
use crate::fields::Member;
use crate::fields::Method;
use crate::modifiers::lemma_duplicate_modifiers;
use crate::modifiers::scan_modifiers;
use crate::modifiers::ClassVisibility;
use crate::modifiers::Modifiers;
use crate::syntax::syn_ident;
use crate::syntax::syn_outer_attributes;
use crate::syntax::syn_signature;
use crate::syntax::syn_visibility;
use crate::token::erase;
use crate::token::is_word;
use crate::token::lemma_erase_skip;
use crate::token::well_punctuated;
use crate::token::TokenTree;
use crate::utils::extent;
use crate::utils::repeated;
use crate::utils::Parse;
use vstd::prelude::*;

verus! {

/// Two failures with the same kind and message.
pub open spec fn same_failure(first: Failure, second: Failure) -> bool {
    first.kind == second.kind && first.message == second.message
}

/// Two sets of modifiers with the same flags and as many repetitions of each keyword.
pub open spec fn same_modifiers(first: Modifiers, second: Modifiers) -> bool {
    &&& first.is_constant == second.is_constant
    &&& first.is_static == second.is_static
    &&& first.dup_constant.len() == second.dup_constant.len()
    &&& first.dup_static.len() == second.dup_static.len()
}

/// Two methods that differ in spans at most.
pub open spec fn same_method(first: Method, second: Method) -> bool {
    &&& same_modifiers(first.modifiers, second.modifiers)
    &&& first.attrs == second.attrs
    &&& first.vis == second.vis
    &&& first.sig == second.sig
    &&& first.receiver is Some <==> second.receiver is Some
    &&& first.block == second.block
}

/// Two data fields that differ in spans at most.
pub open spec fn same_attribute(first: Attribute, second: Attribute) -> bool {
    &&& same_modifiers(first.modifiers, second.modifiers)
    &&& first.attrs == second.attrs
    &&& first.vis == second.vis
    &&& first.is_static == second.is_static
    &&& first.ident == second.ident
    &&& first.ty == second.ty
}

/// Two members that differ in spans at most.
pub open spec fn same_member(first: Member, second: Member) -> bool {
    match (first, second) {
        (Member::Method(first), Member::Method(second)) => same_method(first, second),
        (Member::Attribute(first), Member::Attribute(second)) => same_attribute(first, second),
        _ => false,
    }
}

/// Two member lists that differ in spans at most.
pub open spec fn same_members(first: Seq<Member>, second: Seq<Member>) -> bool {
    &&& first.len() == second.len()
    &&& forall|i: int| 0 <= i < first.len() ==> same_member(#[trigger] first[i], second[i])
}

/// Two classes that differ in spans at most.
pub open spec fn same_class(first: Class, second: Class) -> bool {
    &&& first.attrs == second.attrs
    &&& first.vis == second.vis
    &&& first.ident == second.ident
    &&& first.generics == second.generics
    &&& same_members(first.fields, second.fields)
}

/// Two outcomes of validation that are both a success, or the same failure.
pub open spec fn same_verdict(first: Result<(), Failure>, second: Result<(), Failure>) -> bool {
    match (first, second) {
        (Ok(_), Ok(_)) => true,
        (Err(first), Err(second)) => same_failure(first, second),
        _ => false,
    }
}

proof fn lemma_same_trees(first: Seq<TokenTree>, second: Seq<TokenTree>)
    requires
        erase(first) == erase(second),
    ensures
        first.len() == second.len(),
        forall|i: int| 0 <= i < first.len() ==> (#[trigger] first[i])@ == second[i]@,
{
    assert(erase(first).len() == first.len());
    assert(erase(second).len() == second.len());
    assert forall|i: int| 0 <= i < first.len() implies (#[trigger] first[i])@ == second[i]@ by {
        assert(erase(first)[i] == first[i]@);
        assert(erase(second)[i] == second[i]@);
    }
}

proof fn lemma_same_suffix(first: Seq<TokenTree>, second: Seq<TokenTree>, n: int)
    requires
        erase(first) == erase(second),
        0 <= n <= first.len(),
    ensures
        erase(first.skip(n)) == erase(second.skip(n)),
{
    lemma_same_trees(first, second);
    lemma_erase_skip(first, n);
    lemma_erase_skip(second, n);
}

proof fn lemma_same_scan(
    first: Seq<TokenTree>,
    second: Seq<TokenTree>,
    pos: int,
    found_first: Modifiers,
    found_second: Modifiers,
)
    requires
        erase(first) == erase(second),
        same_modifiers(found_first, found_second),
        0 <= pos,
    ensures
        scan_modifiers(first, pos, found_first).1 == scan_modifiers(second, pos, found_second).1,
        same_modifiers(
            scan_modifiers(first, pos, found_first).0,
            scan_modifiers(second, pos, found_second).0,
        ),
    decreases first.len() - pos,
{
    lemma_same_trees(first, second);
    if is_word(first, pos, "const"@) {
        lemma_same_scan(
            first,
            second,
            pos + 1,
            found_first.with_constant(first[pos].span()),
            found_second.with_constant(second[pos].span()),
        );
    } else if is_word(first, pos, "static"@) {
        lemma_same_scan(
            first,
            second,
            pos + 1,
            found_first.with_static(first[pos].span()),
            found_second.with_static(second[pos].span()),
        );
    }
}

proof fn lemma_same_written_method(
    first: Seq<TokenTree>,
    second: Seq<TokenTree>,
    start: int,
    first_site: proc_macro2::Span,
    second_site: proc_macro2::Span,
)
    requires
        erase(first) == erase(second),
        0 <= start <= first.len(),
    ensures
        match (
            written_method(first, start, first_site),
            written_method(second, start, second_site),
        ) {
            (Ok(a), Ok(b)) => {
                &&& a.end == b.end
                &&& a.signature_at == b.signature_at
                &&& same_method(a.method, b.method)
                &&& start <= a.signature_at <= first.len()
                &&& start <= a.end <= first.len()
            },
            (Err(a), Err(b)) => same_failure(a, b),
            _ => false,
        },
{
    lemma_same_trees(first, second);
    lemma_same_suffix(first, second, start);
    let input = erase(first);
    let attrs = extent(syn_outer_attributes(erase(first.skip(start))), input, start);
    if well_punctuated(erase(first.skip(start))) && attrs is Ok {
        let after_attrs = attrs->Ok_0.1;
        let after_vis = ClassVisibility::read(first, after_attrs).1;
        assert(ClassVisibility::read(first, after_attrs) == ClassVisibility::read(
            second,
            after_attrs,
        ));
        lemma_same_scan(first, second, after_vis, Modifiers::none(), Modifiers::none());
        lemma_duplicate_modifiers(first, after_vis);
        let signature_at = scan_modifiers(first, after_vis, Modifiers::none()).1;
        lemma_same_suffix(first, second, signature_at);
        let sig = extent(syn_signature(erase(first.skip(signature_at))), input, signature_at);
        if sig is Ok {
            let after_sig = sig->Ok_0.1;
            lemma_same_suffix(first, second, after_sig);
        }
    }
}

proof fn lemma_same_member(
    first: Seq<TokenTree>,
    second: Seq<TokenTree>,
    start: int,
    first_site: proc_macro2::Span,
    second_site: proc_macro2::Span,
)
    requires
        erase(first) == erase(second),
        0 <= start <= first.len(),
    ensures
        match (
            ClassField::parsed(first, start, first_site),
            ClassField::parsed(second, start, second_site),
        ) {
            (Ok((a, end_a)), Ok((b, end_b))) => end_a == end_b && same_member(a, b) && start
                <= end_a <= first.len(),
            (Err(a), Err(b)) => same_failure(a, b),
            _ => false,
        },
{
    lemma_same_written_method(first, second, start, first_site, second_site);
    let written = written_method(first, start, first_site);
    if written is Ok {
        lemma_same_suffix(first, second, written->Ok_0.signature_at);
    }
}

proof fn lemma_same_repeated(
    first: Seq<TokenTree>,
    second: Seq<TokenTree>,
    start: int,
    first_site: proc_macro2::Span,
    second_site: proc_macro2::Span,
)
    requires
        erase(first) == erase(second),
        0 <= start,
    ensures
        match (
            repeated::<ClassField>(first, start, first_site),
            repeated::<ClassField>(second, start, second_site),
        ) {
            (Ok(a), Ok(b)) => same_members(a, b),
            (Err(a), Err(b)) => same_failure(a, b),
            _ => false,
        },
    decreases first.len() - start,
{
    lemma_same_trees(first, second);
    if start < first.len() {
        lemma_same_member(first, second, start, first_site, second_site);
        let a = ClassField::parsed(first, start, first_site);
        let b = ClassField::parsed(second, start, second_site);
        if a is Ok {
            let end = a->Ok_0.1;
            if start < end <= first.len() {
                lemma_same_repeated(first, second, end, first_site, second_site);
                let rest_a = repeated::<ClassField>(first, end, first_site);
                let rest_b = repeated::<ClassField>(second, end, second_site);
                if rest_a is Ok {
                    let all_a = seq![a->Ok_0.0] + rest_a->Ok_0;
                    let all_b = seq![b->Ok_0.0] + rest_b->Ok_0;
                    assert forall|i: int| 0 <= i < all_a.len() implies same_member(
                        #[trigger] all_a[i],
                        all_b[i],
                    ) by {
                        if i > 0 {
                            assert(all_a[i] == rest_a->Ok_0[i - 1]);
                            assert(all_b[i] == rest_b->Ok_0[i - 1]);
                        }
                    }
                }
            }
        }
    }
}

proof fn lemma_same_first_failure(first: Seq<Member>, second: Seq<Member>, from: int)
    requires
        same_members(first, second),
        0 <= from,
    ensures
        same_verdict(first_failure(first, from), first_failure(second, from)),
    decreases first.len() - from,
{
    if from < first.len() {
        assert(same_member(first[from], second[from]));
        lemma_same_first_failure(first, second, from + 1);
    }
}

proof fn lemma_same_body(first: Seq<Member>, second: Seq<Member>, which: Bucket)
    requires
        same_members(first, second),
    ensures
        body(bucket(first, which)) == body(bucket(second, which)),
    decreases first.len(),
{
    if first.len() > 0 {
        let front_a = first.drop_last();
        let front_b = second.drop_last();
        assert(same_members(front_a, front_b)) by {
            assert forall|i: int| 0 <= i < front_a.len() implies same_member(
                #[trigger] front_a[i],
                front_b[i],
            ) by {
                assert(same_member(first[i], second[i]));
            }
        }
        lemma_same_body(front_a, front_b, which);
        assert(same_member(first[first.len() - 1], second[first.len() - 1]));
        assert(first.last().rendering() == second.last().rendering());
        assert(bucket_of(first.last()) == bucket_of(second.last()));
        if bucket_of(first.last()) == which {
            lemma_body_push(bucket(front_a, which), first.last());
            lemma_body_push(bucket(front_b, which), second.last());
        }
    }
}

proof fn lemma_same_rendering(first: Class, second: Class)
    requires
        same_class(first, second),
    ensures
        first.rendering() == second.rendering(),
        same_verdict(first.validation(), second.validation()),
{
    lemma_same_body(first.fields, second.fields, Bucket::Fields);
    lemma_same_body(first.fields, second.fields, Bucket::Public);
    lemma_same_body(first.fields, second.fields, Bucket::Protected);
    lemma_same_first_failure(first.fields, second.fields, 0);
}

proof fn lemma_same_members_at(
    first: Seq<TokenTree>,
    second: Seq<TokenTree>,
    pos: int,
    first_site: proc_macro2::Span,
    second_site: proc_macro2::Span,
)
    requires
        erase(first) == erase(second),
    ensures
        match (members_at(first, pos, first_site), members_at(second, pos, second_site)) {
            (Ok(a), Ok(b)) => same_members(a, b),
            (Err(a), Err(b)) => same_failure(a, b),
            _ => false,
        },
{
    lemma_same_trees(first, second);
    if 0 <= pos < first.len() {
        assert(first[pos]@ == second[pos]@);
        if braced(first, pos) is Some {
            let inner_a = first[pos]->stream@;
            let inner_b = second[pos]->stream@;
            assert(erase(inner_a) == erase(inner_b));
            lemma_same_repeated(inner_a, inner_b, 0, first_site, second_site);
        }
    }
}

proof fn lemma_same_class(
    first: Seq<TokenTree>,
    second: Seq<TokenTree>,
    first_site: proc_macro2::Span,
    second_site: proc_macro2::Span,
)
    requires
        erase(first) == erase(second),
    ensures
        match (ClassDef::parsed(first, 0, first_site), ClassDef::parsed(second, 0, second_site)) {
            (Ok((a, end_a)), Ok((b, end_b))) => end_a == end_b && same_class(a, b),
            (Err(a), Err(b)) => same_failure(a, b),
            _ => false,
        },
{
    lemma_same_trees(first, second);
    lemma_same_suffix(first, second, 0);
    let input = erase(first);
    let attrs = extent(syn_outer_attributes(erase(first.skip(0))), input, 0);
    if well_punctuated(erase(first.skip(0))) && attrs is Ok {
        let after_attrs = attrs->Ok_0.1;
        lemma_same_suffix(first, second, after_attrs);
        let vis = extent(syn_visibility(erase(first.skip(after_attrs))), input, after_attrs);
        if vis is Ok {
            let after_vis = vis->Ok_0.1;
            if is_word(first, after_vis, "class"@) {
                lemma_same_suffix(first, second, after_vis + 1);
                let name = extent(
                    syn_ident(erase(first.skip(after_vis + 1))),
                    input,
                    after_vis + 1,
                );
                if name is Ok && single_ident(name->Ok_0.0) is Some {
                    let after_name = name->Ok_0.1;
                    lemma_same_suffix(first, second, after_name);
                    let generics = generics_at(first, after_name);
                    assert(generics == generics_at(second, after_name));
                    if generics is Ok {
                        let after_generics = generics->Ok_0.1;
                        lemma_same_members_at(
                            first,
                            second,
                            after_generics,
                            first_site,
                            second_site,
                        );
                        let fields_a = members_at(first, after_generics, first_site);
                        let fields_b = members_at(second, after_generics, second_site);
                        if fields_a is Ok {
                            let a = Class {
                                attrs: attrs->Ok_0.0,
                                vis: vis->Ok_0.0,
                                ident: single_ident(name->Ok_0.0)->Some_0,
                                generics: generics->Ok_0.0,
                                fields: fields_a->Ok_0,
                            };
                            let b = Class { fields: fields_b->Ok_0, ..a };
                            lemma_same_rendering(a, b);
                        }
                    }
                }
            }
        }
    }
}

/// What the macro makes of its input depends on what the tokens say and on nothing
/// else: two inputs that spell the same text, whatever their spans and the span of the
/// call, give the same declarations, or they both fail, with the same kind of error and
/// the same message.
pub proof fn lemma_expansion_ignores_spans(
    first: Seq<TokenTree>,
    second: Seq<TokenTree>,
    first_site: proc_macro2::Span,
    second_site: proc_macro2::Span,
)
    requires
        erase(first) == erase(second),
    ensures
        match (expansion(first, first_site), expansion(second, second_site)) {
            (Ok(a), Ok(b)) => a == b,
            (Err(a), Err(b)) => same_failure(a, b),
            _ => false,
        },
{
    lemma_same_trees(first, second);
    lemma_same_class(first, second, first_site, second_site);
    let a = ClassDef::parsed(first, 0, first_site);
    let b = ClassDef::parsed(second, 0, second_site);
    if a is Ok {
        lemma_same_rendering(a->Ok_0.0, b->Ok_0.0);
    }
}

} // verus!
