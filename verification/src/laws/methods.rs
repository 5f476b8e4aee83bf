//! What holds of the code that mocks one method.

use crate::laws::lists::{lemma_filter_map, lemma_flat_map};
use vstd::prelude::*;

verus! {

use crate::ast::{ArgView, AttributeView, PatternView, SignatureView, TyView};
use crate::generics::{angled, with_lifetime, Form};
use crate::method::{
    all_written, call_args, checkpoint, expectation_access, expectation_method, kept_attrs,
    mock_method, written_inputs, written_output,
};
use crate::method_types::{
    all_demutified, deimplified, demutified, destrified, is_static, matcher_args, matcher_params,
    types_of,
};
use crate::tokens::{
    arrow, braces, colon2, joint, nothing, parens, punct, separated, text, word, Delimiter, Token,
};
use crate::words::decimal;

/// The body of every mock method hands all arguments to the expectations of the method.
/// These are in a field named like the method, or in a field of the field for its trait; in a
/// static where there is no `self`.  A result that is a mutable reference is asked of
/// `call_mut`, and any other of `call`.  There is an argument for every parameter but `self`,
/// in their order: its pattern, without a `mut`.
pub proof fn calls_reach_the_expectations(
    mock_ident: Seq<char>,
    attrs: Seq<AttributeView>,
    vis: Seq<Token>,
    sig: SignatureView,
    sub: Option<Seq<char>>,
)
    ensures
        ({
            let has_self = exists|i: int|
                0 <= i < sig.inputs.len() && (#[trigger] sig.inputs[i] is SelfRef || sig.inputs[i]
                    is SelfValue);
            let object = if has_self {
                match sub {
                    Some(sub) => word("self"@) + punct('.') + word(sub + "_expectations"@) + punct(
                        '.',
                    ) + sig.ident,
                    None => word("self"@) + punct('.') + sig.ident,
                }
            } else {
                word(
                    match sub {
                        Some(sub) => mock_ident + "_"@ + sub + "_"@ + text(sig.ident)
                            + "_expectation"@,
                        None => mock_ident + "_"@ + text(sig.ident) + "_expectation"@,
                    },
                ) + punct('.') + word("lock"@) + parens(nothing()) + punct('.') + word("unwrap"@)
                    + parens(nothing())
            };
            let call = match sig.output {
                Some(TyView::Reference { mutability, .. }) if mutability.len() > 0 => "call_mut"@,
                _ => "call"@,
            };
            let params = sig.generics.params;
            let generics = if params.len() == 0 {
                nothing()
            } else {
                colon2() + angled(params, Form::Name)
            };
            let args = sig.inputs.filter_map(
                |arg: ArgView|
                    match arg {
                        ArgView::Captured {
                            pat: PatternView::Binding { by_ref, name, subpattern, .. },
                            ..
                        } => Some(
                            by_ref + name + match subpattern {
                                Some(subpattern) => punct('@') + subpattern,
                                None => nothing(),
                            },
                        ),
                        ArgView::Captured { pat: PatternView::Other(tokens), .. } => Some(tokens),
                        _ => None,
                    },
            );
            mock_method(mock_ident, attrs, vis, sig, sub).last() == Token::Group(
                Delimiter::Brace,
                object + punct('.') + word(call) + generics + parens(separated(args)),
            )
        }),
{
    lemma_call_args(sig.inputs);
}

pub(crate) proof fn lemma_call_args(inputs: Seq<ArgView>)
    ensures
        call_args(inputs) == inputs.filter_map(
            |arg: ArgView|
                match arg {
                    ArgView::Captured {
                        pat: PatternView::Binding { by_ref, name, subpattern, .. },
                        ..
                    } => Some(
                        by_ref + name + match subpattern {
                            Some(subpattern) => punct('@') + subpattern,
                            None => nothing(),
                        },
                    ),
                    ArgView::Captured { pat: PatternView::Other(tokens), .. } => Some(tokens),
                    _ => None,
                },
        ),
{
    let f = |arg: ArgView|
        match arg {
            ArgView::Captured {
                pat: PatternView::Binding { by_ref, name, subpattern, .. },
                ..
            } => Some(
                by_ref + name + match subpattern {
                    Some(subpattern) => punct('@') + subpattern,
                    None => nothing(),
                },
            ),
            ArgView::Captured { pat: PatternView::Other(tokens), .. } => Some(tokens),
            _ => None,
        };
    let g = |inputs: Seq<ArgView>| call_args(inputs);
    assert forall|s: Seq<ArgView>| s.len() > 0 implies g(s) == match f(s.last()) {
        Some(made) => (#[trigger] g(s.drop_last())).push(made),
        None => g(s.drop_last()),
    } by {
        if let ArgView::Captured {
            pat: PatternView::Binding { by_ref, name, subpattern, .. },
            ..
        } = s.last() {
            let tail = match subpattern {
                Some(subpattern) => punct('@') + subpattern,
                None => nothing(),
            };
            assert(by_ref + nothing() + name =~= by_ref + name);
            if let Some(subpattern) = subpattern {
                assert(by_ref + name + punct('@') + subpattern =~= by_ref + name + tail);
            } else {
                assert(by_ref + name =~= by_ref + name + tail);
            }
        }
    }
    lemma_filter_map(inputs, f, g);
}

/// Two mock methods with one signature differ in nothing but the object that holds the
/// expectations, whatever the structures and the traits that they belong to.
pub proof fn objects_alone_differ(
    attrs: Seq<AttributeView>,
    vis: Seq<Token>,
    sig: SignatureView,
    mock_ident: Seq<char>,
    sub: Option<Seq<char>>,
    other_mock_ident: Seq<char>,
    other_sub: Option<Seq<char>>,
)
    ensures
        ({
            let a = mock_method(mock_ident, attrs, vis, sig, sub);
            let b = mock_method(other_mock_ident, attrs, vis, sig, other_sub);
            &&& a.drop_last() == b.drop_last()
            &&& exists|tail: Seq<Token>|
                {
                    &&& a.last() == Token::Group(
                        Delimiter::Brace,
                        expectation_access(mock_ident, sig, sub) + tail,
                    )
                    &&& b.last() == Token::Group(
                        Delimiter::Brace,
                        #[trigger] (expectation_access(other_mock_ident, sig, other_sub) + tail),
                    )
                }
        }),
{
    let a = mock_method(mock_ident, attrs, vis, sig, sub);
    let b = mock_method(other_mock_ident, attrs, vis, sig, other_sub);
    let here = expectation_access(mock_ident, sig, sub);
    let there = expectation_access(other_mock_ident, sig, other_sub);
    calls_reach_the_expectations(mock_ident, attrs, vis, sig, sub);
    signatures_are_kept(mock_ident, attrs, vis, sig, sub);
    signatures_are_kept(other_mock_ident, attrs, vis, sig, other_sub);
    let body = a.last()->Group_1;
    let tail = body.skip(here.len() as int);
    assert(a.last() == Token::Group(Delimiter::Brace, body));
    assert(body =~= here + tail);
    assert(b.last()->Group_1 =~= there + tail);
}

/// A mock method is declared as the method is: with its attributes but documentation, the
/// visibility, and its signature without the `mut` of parameters.
pub proof fn signatures_are_kept(
    mock_ident: Seq<char>,
    attrs: Seq<AttributeView>,
    vis: Seq<Token>,
    sig: SignatureView,
    sub: Option<Seq<char>>,
)
    ensures
        ({
            let inputs = sig.inputs.map_values(
                |arg: ArgView|
                    match arg {
                        ArgView::SelfRef(tokens) => tokens,
                        ArgView::SelfValue { self_token, .. } => self_token,
                        ArgView::Captured {
                            pat: PatternView::Binding { by_ref, name, subpattern, .. },
                            ty,
                        } => by_ref + name + (match subpattern {
                            Some(subpattern) => punct('@') + subpattern,
                            None => nothing(),
                        }) + punct(':') + ty.written(),
                        ArgView::Captured { pat: PatternView::Other(tokens), ty } => tokens
                            + punct(':') + ty.written(),
                        ArgView::Other(tokens) => tokens,
                    },
            );
            let comma = if sig.trailing_comma {
                punct(',')
            } else {
                nothing()
            };
            let output = match sig.output {
                Some(ty) => arrow() + ty.written(),
                None => nothing(),
            };
            mock_method(mock_ident, attrs, vis, sig, sub).drop_last() == kept_attrs(attrs) + vis
                + sig.constness + sig.unsafety + sig.asyncness + sig.abi + sig.fn_token + sig.ident
                + angled(sig.generics.params, Form::Bare) + parens(separated(inputs) + comma)
                + output + sig.generics.where_clause
        }),
{
    let inputs = sig.inputs.map_values(
        |arg: ArgView|
            match arg {
                ArgView::SelfRef(tokens) => tokens,
                ArgView::SelfValue { self_token, .. } => self_token,
                ArgView::Captured {
                    pat: PatternView::Binding { by_ref, name, subpattern, .. },
                    ty,
                } => by_ref + name + (match subpattern {
                    Some(subpattern) => punct('@') + subpattern,
                    None => nothing(),
                }) + punct(':') + ty.written(),
                ArgView::Captured { pat: PatternView::Other(tokens), ty } => tokens + punct(':')
                    + ty.written(),
                ArgView::Other(tokens) => tokens,
            },
    );
    let all = all_demutified(sig.inputs);
    assert forall|i: int| 0 <= i < all.len() implies (#[trigger] all[i]).written() == inputs[i] by {
        match sig.inputs[i] {
            ArgView::SelfValue { self_token, .. } => {
                assert(nothing() + self_token =~= self_token);
            },
            ArgView::Captured {
                pat: PatternView::Binding { by_ref, name, subpattern, .. },
                ty,
            } => {
                assert(by_ref + nothing() + name =~= by_ref + name);
                match subpattern {
                    Some(subpattern) => {
                        assert(by_ref + name + punct('@') + subpattern =~= by_ref + name + (punct(
                            '@',
                        ) + subpattern));
                    },
                    None => {
                        assert(by_ref + name + nothing() =~= by_ref + name);
                    },
                }
            },
            _ => {},
        }
    }
    assert(all_written(all) =~= inputs);
    assert(separated(inputs) + nothing() =~= separated(inputs));
    let code = mock_method(mock_ident, attrs, vis, sig, sub);
    let head = kept_attrs(attrs) + vis + sig.constness + sig.unsafety + sig.asyncness + sig.abi
        + sig.fn_token + sig.ident + sig.generics.for_impl() + parens(
        written_inputs(all, sig.trailing_comma),
    ) + written_output(sig.output) + sig.generics.where_clause;
    assert(code =~= head + seq![code.last()]);
    assert(code.drop_last() =~= head);
}

/// Every parameter but `self` has one place in the arguments of the call, in the parameters
/// of a matcher and in the arguments of a matcher: behind the places of those before it.  A
/// matcher gets it under a name that its position among all parameters makes, always as a
/// reference.
pub proof fn arguments_have_one_place(inputs: Seq<ArgView>, i: int)
    requires
        0 <= i < inputs.len(),
    ensures
        ({
            let count = inputs.filter(|arg: ArgView| arg is Captured).len();
            let place = inputs.take(i).filter(|arg: ArgView| arg is Captured).len() as int;
            &&& call_args(inputs).len() == count
            &&& matcher_params(inputs).len() == count
            &&& matcher_args(inputs).len() == count
            &&& inputs[i] matches ArgView::Captured { ty, .. } ==> {
                let arg = call_args(inputs)[place];
                &&& place < count
                &&& matcher_params(inputs)[place] == word("p"@ + decimal(i as nat)) + punct(':')
                    + if ty is Reference {
                    ty.written()
                } else {
                    punct('&') + ty.written()
                }
                &&& matcher_args(inputs)[place] == if ty is Reference {
                    arg
                } else {
                    punct('&') + arg
                }
            }
        }),
    decreases inputs.len(),
{
    reveal(Seq::filter);
    let before = inputs.drop_last();
    let captured = |arg: ArgView| arg is Captured;
    lemma_argument_counts(inputs);
    lemma_argument_counts(before);
    if i < before.len() {
        arguments_have_one_place(before, i);
        assert(before[i] == inputs[i]);
        assert(before.take(i) =~= inputs.take(i));
    } else {
        assert(inputs.take(i) =~= before);
        assert(inputs[i] == inputs.last());
        if let ArgView::Captured { pat, ty } = inputs[i] {
            let place = before.filter(captured).len() as int;
            assert(call_args(inputs)[place] == demutified(inputs[i])->Captured_pat.written());
        }
    }
}

proof fn lemma_argument_counts(inputs: Seq<ArgView>)
    ensures
        ({
            let count = inputs.filter(|arg: ArgView| arg is Captured).len();
            &&& call_args(inputs).len() == count
            &&& matcher_params(inputs).len() == count
            &&& matcher_args(inputs).len() == count
        }),
    decreases inputs.len(),
{
    reveal(Seq::filter);
    if inputs.len() > 0 {
        lemma_argument_counts(inputs.drop_last());
    }
}

/// A signature whose parameters are all patterns with types, but for `self`, has an argument
/// for each of them.
pub proof fn all_arguments_are_handed_on(inputs: Seq<ArgView>)
    requires
        forall|i: int| 0 <= i < inputs.len() ==> !(#[trigger] inputs[i] is Other),
    ensures
        call_args(inputs).len() == inputs.filter(
            |arg: ArgView| !(arg is SelfRef) && !(arg is SelfValue),
        ).len(),
        is_static(inputs) ==> call_args(inputs).len() == inputs.len(),
    decreases inputs.len(),
{
    reveal(Seq::filter);
    if inputs.len() > 0 {
        let before = inputs.drop_last();
        let last = inputs.len() - 1;
        assert(!(inputs[last] is Other));
        assert(forall|i: int| 0 <= i < before.len() ==> #[trigger] before[i] == inputs[i]);
        assert forall|i: int| 0 <= i < before.len() implies !(#[trigger] before[i] is Other) by {
            assert(!(inputs[i] is Other));
        }
        all_arguments_are_handed_on(before);
        if is_static(inputs) {
            assert(!(inputs[last] is SelfRef) && !(inputs[last] is SelfValue));
            assert forall|i: int| 0 <= i < before.len() implies !(#[trigger] before[i] is SelfRef)
                && !(before[i] is SelfValue) by {
                assert(!(inputs[i] is SelfRef));
            }
        }
    }
}

/// The method that sets expectations on a method with a `self` lends out the expectation
/// that it asks the object of the method for.
pub proof fn expectations_are_lent(
    mod_ident: Seq<Token>,
    mock_ident: Seq<char>,
    attrs: Seq<AttributeView>,
    vis: Seq<Token>,
    sig: SignatureView,
    sub: Option<Seq<char>>,
)
    requires
        exists|i: int|
            0 <= i < sig.inputs.len() && (#[trigger] sig.inputs[i] is SelfRef || sig.inputs[i]
                is SelfValue),
    ensures
        ({
            let params = sig.generics.params;
            let object = match sub {
                Some(sub) => word("self"@) + punct('.') + word(sub + "_expectations"@) + punct('.')
                    + sig.ident,
                None => word("self"@) + punct('.') + sig.ident,
            };
            let generics = if params.len() == 0 {
                nothing()
            } else {
                colon2() + angled(params, Form::Name)
            };
            expectation_method(Some(mod_ident), mock_ident, attrs, vis, sig, sub) == kept_attrs(
                attrs,
            ) + vis + word("fn"@) + word("expect_"@ + text(sig.ident)) + angled(params, Form::Bare)
                + parens(punct('&') + word("mut"@) + word("self"@)) + arrow() + punct('&') + word(
                "mut"@,
            ) + mod_ident + colon2() + (sig.ident + colon2() + word("Expectation"@) + angled(
                params,
                Form::Name,
            )) + sig.generics.where_clause + braces(
                object + punct('.') + word("expect"@) + generics + parens(nothing()),
            )
        }),
{
}

/// The method that sets expectations on a method without a `self` makes a guard of the
/// locked static of the method.
pub proof fn expectations_are_guarded(
    mod_ident: Seq<Token>,
    mock_ident: Seq<char>,
    attrs: Seq<AttributeView>,
    vis: Seq<Token>,
    sig: SignatureView,
    sub: Option<Seq<char>>,
)
    requires
        forall|i: int|
            0 <= i < sig.inputs.len() ==> !(#[trigger] sig.inputs[i] is SelfRef)
                && !(sig.inputs[i] is SelfValue),
    ensures
        ({
            let params = sig.generics.params;
            let object = word(
                match sub {
                    Some(sub) => mock_ident + "_"@ + sub + "_"@ + text(sig.ident)
                        + "_expectation"@,
                    None => mock_ident + "_"@ + text(sig.ident) + "_expectation"@,
                },
            );
            let guard = mod_ident + colon2() + sig.ident + colon2() + if params.len() == 0 {
                word("ExpectationGuard"@)
            } else {
                word("GenericExpectationGuard"@)
            };
            let lifetime = joint('\'') + word("guard"@);
            let body = guard + colon2() + word("new"@) + parens(
                object + punct('.') + word("lock"@) + parens(nothing()) + punct('.') + word(
                    "unwrap"@,
                ) + parens(nothing()),
            );
            expectation_method(Some(mod_ident), mock_ident, attrs, vis, sig, sub) == kept_attrs(
                attrs,
            ) + vis + word("fn"@) + word("expect_"@ + text(sig.ident)) + angled(
                with_lifetime(params, "guard"@),
                Form::Full,
            ) + parens(nothing()) + arrow() + guard + punct('<') + lifetime + punct('>')
                + sig.generics.where_clause + braces(body)
        }),
{
}

/// Where there is no module, none is written before the parts of one.
pub proof fn modules_can_be_absent(
    mock_ident: Seq<char>,
    attrs: Seq<AttributeView>,
    vis: Seq<Token>,
    sig: SignatureView,
    sub: Option<Seq<char>>,
)
    ensures
        expectation_method(None, mock_ident, attrs, vis, sig, sub) == expectation_method(
            Some(nothing()),
            mock_ident,
            attrs,
            vis,
            sig,
            sub,
        ),
{
}

/// The part of a `checkpoint` method that belongs to a method checks the object that holds
/// the expectations of that method.
pub proof fn checkpoints_check_the_object(
    mock_ident: Seq<char>,
    attrs: Seq<AttributeView>,
    sig: SignatureView,
    sub: Option<Seq<char>>,
)
    ensures
        ({
            let has_self = exists|i: int|
                0 <= i < sig.inputs.len() && (#[trigger] sig.inputs[i] is SelfRef || sig.inputs[i]
                    is SelfValue);
            let object = if has_self {
                match sub {
                    Some(sub) => word("self"@) + punct('.') + word(sub + "_expectations"@) + punct(
                        '.',
                    ) + sig.ident,
                    None => word("self"@) + punct('.') + sig.ident,
                }
            } else {
                word(
                    match sub {
                        Some(sub) => mock_ident + "_"@ + sub + "_"@ + text(sig.ident)
                            + "_expectation"@,
                        None => mock_ident + "_"@ + text(sig.ident) + "_expectation"@,
                    },
                ) + punct('.') + word("lock"@) + parens(nothing()) + punct('.') + word("unwrap"@)
                    + parens(nothing())
            };
            checkpoint(mock_ident, attrs, sig, sub) == kept_attrs(attrs) + braces(
                object + punct('.') + word("checkpoint"@) + parens(nothing()) + punct(';'),
            )
        }),
{
}

/// The attributes that are kept are all but `doc`, each whole and in their order.
pub proof fn only_documentation_is_dropped(attrs: Seq<AttributeView>)
    ensures
        kept_attrs(attrs) == attrs.flat_map(
            |attr: AttributeView|
                if attr.path == seq!["doc"@] {
                    nothing()
                } else {
                    attr.tokens
                },
        ),
{
    let f = |attr: AttributeView|
        if attr.path == seq!["doc"@] {
            nothing()
        } else {
            attr.tokens
        };
    let g = |attrs: Seq<AttributeView>| kept_attrs(attrs);
    assert forall|s: Seq<AttributeView>| s.len() > 0 implies g(s) == #[trigger] g(s.drop_last())
        + f(s.last()) by {
        let path = s.last().path;
        if path.len() == 1 && path[0] == "doc"@ {
            assert(path =~= seq!["doc"@]);
        }
        assert(g(s.drop_last()) + nothing() =~= g(s.drop_last()));
    }
    lemma_flat_map(attrs, f, g);
}

/// A comma stands between what two lists hold, and nowhere else.
pub proof fn commas_separate(a: Seq<Seq<Token>>, b: Seq<Seq<Token>>, item: Seq<Token>)
    ensures
        separated(Seq::empty()) == nothing(),
        separated(seq![item]) == item,
        a.len() > 0 && b.len() > 0 ==> separated(a + b) == separated(a) + punct(',') + separated(b),
    decreases b.len(),
{
    if a.len() > 0 && b.len() > 0 {
        assert((a + b).drop_last() =~= a + b.drop_last());
        assert((a + b).last() == b.last());
        if b.len() == 1 {
            assert(a + b.drop_last() =~= a);
        } else {
            commas_separate(a, b.drop_last(), item);
            assert(separated(a + b) =~= separated(a) + punct(',') + separated(b));
        }
    }
}

/// Patterns, types and parameters are written by their parts.
pub proof fn parts_are_written(pat: PatternView, ty: TyView, arg: ArgView)
    ensures
        match pat {
            PatternView::Binding { by_ref, mutability, name, subpattern } => pat.written()
                == by_ref + mutability + name + match subpattern {
                Some(subpattern) => punct('@') + subpattern,
                None => nothing(),
            },
            PatternView::Other(tokens) => pat.written() == tokens,
        },
        match ty {
            TyView::Reference { lifetime, mutability, elem } => ty.written() == punct('&')
                + lifetime + mutability + elem,
            TyView::ImplTrait { impl_token, bounds } => ty.written() == impl_token + bounds,
            TyView::Other(tokens) => ty.written() == tokens,
        },
        match arg {
            ArgView::SelfRef(tokens) => arg.written() == tokens,
            ArgView::SelfValue { mutability, self_token } => arg.written() == mutability
                + self_token,
            ArgView::Captured { pat, ty } => arg.written() == pat.written() + punct(':')
                + ty.written(),
            ArgView::Other(tokens) => arg.written() == tokens,
        },
{
    if let PatternView::Binding { by_ref, mutability, name, subpattern } = pat {
        let binding = by_ref + mutability + name;
        match subpattern {
            Some(subpattern) => {
                assert(binding + punct('@') + subpattern =~= binding + (punct('@') + subpattern));
            },
            None => {
                assert(binding + nothing() =~= binding);
            },
        }
    }
}

/// Only a `mut` is taken off a parameter, and only where it is one of its own.
pub proof fn only_mut_is_taken_off(arg: ArgView)
    ensures
        match arg {
            ArgView::SelfValue { mutability, self_token } => {
                &&& arg.written() == mutability + self_token
                &&& demutified(arg).written() == self_token
                &&& demutified(arg) is SelfValue
            },
            ArgView::Captured { pat: PatternView::Binding { by_ref, mutability, .. }, ty } => {
                &&& demutified(arg) is Captured
                &&& demutified(arg)->Captured_ty == ty
                &&& exists|rest: Seq<Token>|
                    {
                        &&& arg.written() == by_ref + mutability + rest
                        &&& demutified(arg).written() == #[trigger] (by_ref + rest)
                    }
            },
            _ => demutified(arg) == arg,
        },
{
    match arg {
        ArgView::SelfValue { mutability, self_token } => {
            assert(nothing() + self_token =~= self_token);
        },
        ArgView::Captured { pat: PatternView::Binding { by_ref, mutability, .. }, ty } => {
            let rest = arg.written().skip((by_ref + mutability).len() as int);
            assert(arg.written() =~= by_ref + mutability + rest);
            assert(demutified(arg).written() =~= by_ref + rest);
        },
        _ => {},
    }
}

/// A signature tells whether there is a `self`, under which names in its module the
/// expectations of the method are, and what is asked of them.
pub proof fn signatures_tell(sig: SignatureView)
    ensures
        ({
            let types = types_of(sig);
            let generic = sig.generics.params.len() > 0;
            &&& types.is_static <==> forall|i: int|
                0 <= i < sig.inputs.len() ==> !(#[trigger] sig.inputs[i] is SelfRef)
                    && !(sig.inputs[i] is SelfValue)
            &&& types.expectation == sig.ident + colon2() + word("Expectation"@) + angled(
                sig.generics.params,
                Form::Name,
            )
            &&& types.expectations == sig.ident + colon2() + word(
                if generic {
                    "GenericExpectations"@
                } else {
                    "Expectations"@
                },
            )
            &&& types.expect_obj == types.expectations
            &&& types.call == match sig.output {
                Some(TyView::Reference { mutability, .. }) if mutability.len() > 0 => "call_mut"@,
                _ => "call"@,
            }
            &&& types.altargs == separated(matcher_params(sig.inputs))
            &&& types.matchexprs == separated(matcher_args(sig.inputs))
        }),
{
}

/// A type that is only known by its traits is put in a box, a string slice behind a reference
/// becomes an owned string there, and no other type changes.
pub proof fn results_become_types_that_can_be_held(ty: TyView)
    ensures
        match ty {
            TyView::ImplTrait { bounds, .. } => deimplified(ty).written() == word("Box"@) + punct(
                '<',
            ) + word("dyn"@) + bounds + punct('>') && destrified(ty) == ty,
            TyView::Reference { lifetime, mutability, elem } => {
                &&& deimplified(ty) == ty
                &&& elem != word("str"@) ==> destrified(ty) == ty
                &&& elem == word("str"@) ==> destrified(ty).written() == punct('&') + lifetime
                    + mutability + (colon2() + word("std"@) + colon2() + word("string"@) + colon2()
                    + word("String"@))
            },
            TyView::Other(_) => deimplified(ty) == ty && destrified(ty) == ty,
        },
        destrified(destrified(ty)) == destrified(ty),
        deimplified(deimplified(ty)) == deimplified(ty),
{
    let string = colon2() + word("std"@) + colon2() + word("string"@) + colon2() + word("String"@);
    assert(string.len() == 9 && word("str"@).len() == 1);
}

} // verus!
