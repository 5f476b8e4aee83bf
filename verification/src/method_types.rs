//! What the signature of a method tells about the code that mocks it.

use crate::ast::{Arg, Pattern, Signature, Ty};
use crate::generics::{has_no_params, split_for_impl};
use crate::tokens::{
    copy, is_empty, is_word, join, put, put_colon2, put_path3, put_punct, put_word, start_word,
    stream,
};
use crate::words::gen_matcher_ident;
use proc_macro2::TokenStream;
use vstd::prelude::*;

verus! {

use crate::ast::{arg_views, ArgView, PatternView, SignatureView, TyView};
use crate::tokens::{
    all_contents, colon2, contents, lemma_punctuation, nothing, path3, punct, separated, word,
    Token,
};
use crate::words::{lemma_words, matcher_name};

/// A parameter without the `mut` that only its body would see.
pub open spec fn demutified(arg: ArgView) -> ArgView {
    match arg {
        ArgView::SelfValue { self_token, .. } => ArgView::SelfValue {
            mutability: nothing(),
            self_token,
        },
        ArgView::Captured { pat: PatternView::Binding { by_ref, name, subpattern, .. }, ty } =>
        ArgView::Captured {
            pat: PatternView::Binding { by_ref, mutability: nothing(), name, subpattern },
            ty,
        },
        other => other,
    }
}

pub open spec fn all_demutified(args: Seq<ArgView>) -> Seq<ArgView> {
    Seq::new(args.len(), |i: int| demutified(args[i]))
}

/// Removes any mutability qualifiers from a method's argument list.
pub fn demutify(inputs: &Vec<Arg>) -> (r: Vec<Arg>)
    ensures
        arg_views(r@) == all_demutified(arg_views(inputs@)),
{
    let mut r: Vec<Arg> = Vec::new();
    let mut i: usize = 0;
    while i < inputs.len()
        invariant
            i <= inputs.len(),
            r@.len() == i,
            forall|j: int| 0 <= j < i ==> (#[trigger] r@[j])@ == demutified(inputs@[j]@),
        decreases inputs.len() - i,
    {
        let mut arg = inputs[i].copy();
        match &mut arg {
            Arg::SelfValue { mutability, .. } => {
                *mutability = stream();
            },
            Arg::Captured { pat: Pattern::Binding { mutability, .. }, .. } => {
                *mutability = stream();
            },
            _ => {},
        }
        r.push(arg);
        i += 1;
    }
    assert(arg_views(r@) =~= all_demutified(arg_views(inputs@)));
    r
}

/// A type with a box in the place of a type that is only known by its traits.
pub open spec fn deimplified(ty: TyView) -> TyView {
    match ty {
        TyView::ImplTrait { bounds, .. } => TyView::Other(
            word("Box"@) + punct('<') + word("dyn"@) + bounds + punct('>'),
        ),
        other => other,
    }
}

/// Turns `impl Trait` into a boxed trait object.
pub fn deimplify(ty: &mut Ty)
    ensures
        final(ty)@ == deimplified(old(ty)@),
{
    proof {
        lemma_punctuation();
        lemma_words();
    }
    if let Ty::ImplTrait { bounds, .. } = ty {
        let mut out = start_word("Box");
        put_punct(&mut out, '<');
        put_word(&mut out, "dyn");
        put(&mut out, bounds);
        put_punct(&mut out, '>');
        *ty = Ty::Other(out);
    }
}

/// A type with an owned string behind a reference that is to a string slice.
pub open spec fn destrified(ty: TyView) -> TyView {
    match ty {
        TyView::Reference { lifetime, mutability, elem } if elem == word("str"@) =>
        TyView::Reference {
            lifetime,
            mutability,
            elem: path3("std"@, "string"@, "String"@),
        },
        other => other,
    }
}

/// Turns `&str` into `&String`.
pub fn destrify(ty: &mut Ty)
    ensures
        final(ty)@ == destrified(old(ty)@),
{
    proof {
        lemma_words();
    }
    if let Ty::Reference { elem, .. } = ty {
        if is_word(elem, "str") {
            let mut string = stream();
            put_path3(&mut string, "std", "string", "String");
            assert(contents(string) =~= path3("std"@, "string"@, "String"@));
            *elem = string;
        }
    }
}

/// Whether no parameter is a `self`.
pub open spec fn is_static(inputs: Seq<ArgView>) -> bool {
    forall|i: int|
        0 <= i < inputs.len() ==> !(#[trigger] inputs[i] is SelfRef) && !(inputs[i] is SelfValue)
}

/// The type in which a matcher gets an argument: always a reference.
pub open spec fn matcher_type(ty: TyView) -> Seq<Token> {
    match ty {
        TyView::Reference { .. } => ty.written(),
        _ => punct('&') + ty.written(),
    }
}

/// The expression that hands an argument to a matcher.
pub open spec fn matcher_expr(pat: PatternView, ty: TyView) -> Seq<Token> {
    match ty {
        TyView::Reference { .. } => pat.written(),
        _ => punct('&') + pat.written(),
    }
}

/// The parameters of a matcher: one for each argument but `self`, named by its position.
pub open spec fn matcher_params(inputs: Seq<ArgView>) -> Seq<Seq<Token>>
    decreases inputs.len(),
{
    if inputs.len() == 0 {
        Seq::empty()
    } else {
        let before = matcher_params(inputs.drop_last());
        match inputs.last() {
            ArgView::Captured { ty, .. } => before.push(
                word(matcher_name((inputs.len() - 1) as nat)) + punct(':') + matcher_type(ty),
            ),
            _ => before,
        }
    }
}

/// The arguments of a matcher: one for each argument but `self`.
pub open spec fn matcher_args(inputs: Seq<ArgView>) -> Seq<Seq<Token>>
    decreases inputs.len(),
{
    if inputs.len() == 0 {
        Seq::empty()
    } else {
        let before = matcher_args(inputs.drop_last());
        match demutified(inputs.last()) {
            ArgView::Captured { pat, ty } => before.push(matcher_expr(pat, ty)),
            _ => before,
        }
    }
}

/// The method of the expectations that a call is handed to.
pub open spec fn call_name(output: Option<TyView>) -> Seq<char> {
    match output {
        Some(TyView::Reference { mutability, .. }) if mutability.len() > 0 => "call_mut"@,
        _ => "call"@,
    }
}

/// What the signature of a method tells about the code that mocks it.  The types are
/// relative to the module of the mock structure.
#[derive(Debug)]
pub struct MethodTypes {
    pub is_static: bool,
    /// The type of one expectation.
    pub expectation: TokenStream,
    /// The type of all expectations together, without generic arguments.
    pub expectations: TokenStream,
    /// The type of the object that holds the expectations.
    pub expect_obj: TokenStream,
    /// The method that a call is handed to.
    pub call: &'static str,
    /// The parameters of a matcher.
    pub altargs: TokenStream,
    /// The arguments of a matcher.
    pub matchexprs: TokenStream,
}

pub struct MethodTypesView {
    pub is_static: bool,
    pub expectation: Seq<Token>,
    pub expectations: Seq<Token>,
    pub expect_obj: Seq<Token>,
    pub call: Seq<char>,
    pub altargs: Seq<Token>,
    pub matchexprs: Seq<Token>,
}

impl View for MethodTypes {
    type V = MethodTypesView;

    open spec fn view(&self) -> MethodTypesView {
        MethodTypesView {
            is_static: self.is_static,
            expectation: contents(self.expectation),
            expectations: contents(self.expectations),
            expect_obj: contents(self.expect_obj),
            call: self.call@,
            altargs: contents(self.altargs),
            matchexprs: contents(self.matchexprs),
        }
    }
}

/// The expectations of a method are generic where the method is.
pub open spec fn expectations_type(sig: SignatureView) -> Seq<Token> {
    let plain = "Expectations"@;
    let generic = "GenericExpectations"@;
    sig.ident + colon2() + word(
        if sig.generics.params.len() == 0 {
            plain
        } else {
            generic
        },
    )
}

pub open spec fn types_of(sig: SignatureView) -> MethodTypesView {
    MethodTypesView {
        is_static: is_static(sig.inputs),
        expectation: sig.ident + colon2() + word("Expectation"@) + sig.generics.for_type(),
        expectations: expectations_type(sig),
        expect_obj: expectations_type(sig),
        call: call_name(sig.output),
        altargs: separated(matcher_params(sig.inputs)),
        matchexprs: separated(matcher_args(sig.inputs)),
    }
}

/// Reads off the signature of a method what its mock needs.
pub fn method_types(sig: &Signature) -> (r: MethodTypes)
    ensures
        r@ == types_of(sig@),
{
    proof {
        lemma_punctuation();
        lemma_words();
    }
    let inputs = demutify(&sig.inputs);
    let ghost all = sig@.inputs;
    assert(arg_views(inputs@).len() == all.len());
    let mut is_static = true;
    let mut params: Vec<TokenStream> = Vec::new();
    let mut args: Vec<TokenStream> = Vec::new();
    let mut i: usize = 0;
    while i < inputs.len()
        invariant
            i <= inputs.len() == all.len(),
            arg_views(inputs@) == all_demutified(all),
            is_static == self::is_static(all.take(i as int)),
            all_contents(params@) == matcher_params(all.take(i as int)),
            all_contents(args@) == matcher_args(all.take(i as int)),
        decreases inputs.len() - i,
    {
        let ghost arg = all[i as int];
        proof {
            lemma_punctuation();
            assert(inputs@[i as int]@ == arg_views(inputs@)[i as int]);
            assert(inputs@[i as int]@ == demutified(arg));
            assert(all.take(i + 1).drop_last() =~= all.take(i as int));
            assert(all.take(i + 1)[i as int] == arg);
            assert(forall|j: int|
                0 <= j < i ==> #[trigger] all.take(i + 1)[j] == all.take(i as int)[j]);
        }
        match &inputs[i] {
            Arg::SelfRef(_) | Arg::SelfValue { .. } => {
                is_static = false;
            },
            Arg::Captured { pat, ty } => {
                let mut param = start_word(gen_matcher_ident(i).as_str());
                put_punct(&mut param, ':');
                let mut matched = stream();
                let mut arg = stream();
                match ty {
                    Ty::Reference { .. } => {},
                    _ => {
                        put_punct(&mut matched, '&');
                        put_punct(&mut arg, '&');
                    },
                }
                put(&mut matched, &ty.to_tokens());
                put(&mut arg, &pat.to_tokens());
                assert(contents(matched) =~= matcher_type(ty@));
                assert(contents(arg) =~= matcher_expr(pat@, ty@));
                put(&mut param, &matched);
                let ghost old_params = params@;
                let ghost old_args = args@;
                params.push(param);
                args.push(arg);
                assert(all_contents(params@) =~= all_contents(old_params).push(contents(param)));
                assert(all_contents(args@) =~= all_contents(old_args).push(contents(arg)));
            },
            Arg::Other(_) => {},
        }
        i += 1;
    }
    assert(all.take(i as int) =~= all);
    let generic = !has_no_params(&sig.generics.params);
    let mut expectations = copy(&sig.ident);
    put_colon2(&mut expectations);
    if generic {
        put_word(&mut expectations, "GenericExpectations");
    } else {
        put_word(&mut expectations, "Expectations");
    }
    let call = match &sig.output {
        Some(Ty::Reference { mutability, .. }) => if is_empty(mutability) {
            "call"
        } else {
            "call_mut"
        },
        _ => "call",
    };
    let (_, for_type) = split_for_impl(&sig.generics.params);
    let mut expectation = copy(&sig.ident);
    put_colon2(&mut expectation);
    put_word(&mut expectation, "Expectation");
    put(&mut expectation, &for_type);
    MethodTypes {
        is_static,
        expectation,
        expect_obj: copy(&expectations),
        expectations,
        call,
        altargs: join(&params),
        matchexprs: join(&args),
    }
}

} // verus!
