//! The code that mocks one method.

use crate::ast::{Arg, Attribute, Signature, Ty};
use crate::error::MockError;
use crate::generics::{
    as_turbofish, copy_params, declaration, has_no_params, push_lifetime, split_for_impl,
};
use crate::method_types::{demutify, method_types};
use crate::tokens::{
    check_ident, copy, ident_string, join, put, put_apostrophe, put_arrow, put_braces, put_colon2,
    put_parens, put_punct, put_word, start_word, stream, try_word,
};
use crate::words::{gen_expect_ident, gen_static_ident, gen_sub_field};
use proc_macro2::TokenStream;
use vstd::prelude::*;

verus! {

use crate::ast::{
    arg_views, attribute_views, output_view, ArgView, AttributeView, SignatureView, TyView,
};
use crate::error::comes_to;
use crate::generics::{angled, lifetime, turbofish, with_lifetime, Form};
use crate::method_types::{all_demutified, demutified, types_of};
use crate::tokens::{
    all_contents, arrow, braces, colon2, contents, is_fixed, is_ident, is_plain, lemma_punctuation,
    nothing, parens, punct, separated, text, word, Token,
};
use crate::words::{
    expect_name, lemma_names, lemma_plain_names, lemma_words, static_name, sub_field_name,
};

/// Whether an attribute is documentation.
pub open spec fn is_doc(attr: AttributeView) -> bool {
    attr.path.len() == 1 && attr.path[0] == "doc"@
}

/// The attributes that a mock keeps, one after the other: all that are no documentation.
pub open spec fn kept_attrs(attrs: Seq<AttributeView>) -> Seq<Token>
    decreases attrs.len(),
{
    if attrs.len() == 0 {
        nothing()
    } else if is_doc(attrs.last()) {
        kept_attrs(attrs.drop_last())
    } else {
        kept_attrs(attrs.drop_last()) + attrs.last().tokens
    }
}

/// The attributes of a mocked item.  Documentation is discarded, as it would cause
/// warnings on the mock object.
pub fn format_attrs(attrs: &Vec<Attribute>) -> (r: TokenStream)
    ensures
        contents(r) == kept_attrs(attribute_views(attrs@)),
{
    let ghost all = attribute_views(attrs@);
    let mut out = stream();
    let mut i: usize = 0;
    while i < attrs.len()
        invariant
            i <= attrs.len() == all.len(),
            all == attribute_views(attrs@),
            contents(out) == kept_attrs(all.take(i as int)),
        decreases attrs.len() - i,
    {
        assert(all.take(i + 1).drop_last() =~= all.take(i as int));
        let attr = &attrs[i];
        assert(all[i as int] == attr@);
        let doc = attr.path.len() == 1 && attr.path[0] == "doc".to_owned();
        if !doc {
            put(&mut out, &attr.tokens);
        }
        i += 1;
    }
    assert(all.take(i as int) =~= all);
    out
}

pub open spec fn text_of(text: Option<&str>) -> Option<Seq<char>> {
    match text {
        Some(text) => Some(text@),
        None => None,
    }
}

pub open spec fn tokens_of(stream: Option<&TokenStream>) -> Option<Seq<Token>> {
    match stream {
        Some(stream) => Some(contents(*stream)),
        None => None,
    }
}

pub open spec fn all_written(args: Seq<ArgView>) -> Seq<Seq<Token>> {
    Seq::new(args.len(), |i: int| args[i].written())
}

/// A parameter list, without the parentheses.
pub open spec fn written_inputs(args: Seq<ArgView>, trailing_comma: bool) -> Seq<Token> {
    if trailing_comma {
        separated(all_written(args)) + punct(',')
    } else {
        separated(all_written(args))
    }
}

/// The declaration of a method's result.
pub open spec fn written_output(output: Option<TyView>) -> Seq<Token> {
    match output {
        Some(ty) => arrow() + ty.written(),
        None => nothing(),
    }
}

/// What a method hands on: the patterns of its parameters but `self`.
pub open spec fn call_args(inputs: Seq<ArgView>) -> Seq<Seq<Token>>
    decreases inputs.len(),
{
    if inputs.len() == 0 {
        Seq::empty()
    } else {
        let before = call_args(inputs.drop_last());
        match demutified(inputs.last()) {
            ArgView::Captured { pat, .. } => before.push(pat.written()),
            _ => before,
        }
    }
}

/// `receiver.method()`
pub open spec fn plain_call(receiver: Seq<Token>, method: Seq<char>) -> Seq<Token> {
    receiver + punct('.') + word(method) + parens(nothing())
}

/// `object.lock().unwrap()`
pub open spec fn locked(object: Seq<Token>) -> Seq<Token> {
    plain_call(plain_call(object, "lock"@), "unwrap"@)
}

/// The object that holds the expectations of a method: a static, a field, or a field of
/// the field that belongs to a trait.
pub open spec fn expectation_object(
    mock_ident: Seq<char>,
    sig: SignatureView,
    sub: Option<Seq<char>>,
) -> Seq<Token> {
    if types_of(sig).is_static {
        word(static_name(mock_ident, sub, text(sig.ident)))
    } else {
        match sub {
            Some(sub) => word("self"@) + punct('.') + word(sub_field_name(sub)) + punct('.')
                + sig.ident,
            None => word("self"@) + punct('.') + sig.ident,
        }
    }
}

/// Access to the expectations of a method.
pub open spec fn expectation_access(
    mock_ident: Seq<char>,
    sig: SignatureView,
    sub: Option<Seq<char>>,
) -> Seq<Token> {
    let object = expectation_object(mock_ident, sig, sub);
    if types_of(sig).is_static {
        locked(object)
    } else {
        object
    }
}

/// The mock method: it hands its arguments to the expectations.
pub open spec fn mock_method(
    mock_ident: Seq<char>,
    attrs: Seq<AttributeView>,
    vis: Seq<Token>,
    sig: SignatureView,
    sub: Option<Seq<char>>,
) -> Seq<Token> {
    let body = expectation_access(mock_ident, sig, sub) + punct('.') + word(types_of(sig).call)
        + turbofish(sig.generics.params) + parens(separated(call_args(sig.inputs)));
    kept_attrs(attrs) + vis + sig.constness + sig.unsafety + sig.asyncness + sig.abi + sig.fn_token
        + sig.ident + sig.generics.for_impl() + parens(
        written_inputs(all_demutified(sig.inputs), sig.trailing_comma),
    ) + written_output(sig.output) + sig.generics.where_clause + braces(body)
}

/// The name of a module, where there is one.
pub open spec fn module(mod_ident: Option<Seq<Token>>) -> Seq<Token> {
    match mod_ident {
        Some(mod_ident) => mod_ident,
        None => nothing(),
    }
}

/// The guard through which the expectations of a static method are set.
pub open spec fn guard_path(mod_ident: Option<Seq<Token>>, sig: SignatureView) -> Seq<Token> {
    let plain = "ExpectationGuard"@;
    let generic = "GenericExpectationGuard"@;
    module(mod_ident) + colon2() + sig.ident + colon2() + word(
        if sig.generics.params.len() == 0 {
            plain
        } else {
            generic
        },
    )
}

/// The method that sets expectations on a method without a `self`.
pub open spec fn static_expectation_method(
    mod_ident: Option<Seq<Token>>,
    mock_ident: Seq<char>,
    attrs: Seq<AttributeView>,
    vis: Seq<Token>,
    sig: SignatureView,
    sub: Option<Seq<char>>,
) -> Seq<Token> {
    let body = guard_path(mod_ident, sig) + colon2() + word("new"@) + parens(
        locked(expectation_object(mock_ident, sig, sub)),
    );
    kept_attrs(attrs) + vis + word("fn"@) + word(expect_name(text(sig.ident))) + angled(
        with_lifetime(sig.generics.params, "guard"@),
        Form::Full,
    ) + parens(nothing()) + arrow() + guard_path(mod_ident, sig) + punct('<') + lifetime("guard"@)
        + punct('>') + sig.generics.where_clause + braces(body)
}

/// The method that sets expectations on a method with a `self`.
pub open spec fn self_expectation_method(
    mod_ident: Option<Seq<Token>>,
    mock_ident: Seq<char>,
    attrs: Seq<AttributeView>,
    vis: Seq<Token>,
    sig: SignatureView,
    sub: Option<Seq<char>>,
) -> Seq<Token> {
    let body = expectation_object(mock_ident, sig, sub) + punct('.') + word("expect"@) + turbofish(
        sig.generics.params,
    ) + parens(nothing());
    kept_attrs(attrs) + vis + word("fn"@) + word(expect_name(text(sig.ident)))
        + sig.generics.for_impl() + parens(punct('&') + word("mut"@) + word("self"@)) + arrow()
        + punct('&') + word("mut"@)
        + module(mod_ident) + colon2() + types_of(sig).expectation + sig.generics.where_clause
        + braces(body)
}

/// The method that sets expectations.
pub open spec fn expectation_method(
    mod_ident: Option<Seq<Token>>,
    mock_ident: Seq<char>,
    attrs: Seq<AttributeView>,
    vis: Seq<Token>,
    sig: SignatureView,
    sub: Option<Seq<char>>,
) -> Seq<Token> {
    if types_of(sig).is_static {
        static_expectation_method(mod_ident, mock_ident, attrs, vis, sig, sub)
    } else {
        self_expectation_method(mod_ident, mock_ident, attrs, vis, sig, sub)
    }
}

/// The part of a `checkpoint` method that belongs to a method.
pub open spec fn checkpoint(
    mock_ident: Seq<char>,
    attrs: Seq<AttributeView>,
    sig: SignatureView,
    sub: Option<Seq<char>>,
) -> Seq<Token> {
    kept_attrs(attrs) + braces(
        plain_call(expectation_access(mock_ident, sig, sub), "checkpoint"@) + punct(';'),
    )
}

pub open spec fn is_ident_if(text: Option<Seq<char>>) -> bool {
    text matches Some(text) ==> is_ident(text)
}

/// Why a method cannot be mocked.  The names that are made for it must be identifiers.
pub open spec fn method_error(
    mock_ident: Seq<char>,
    sig: SignatureView,
    sub: Option<Seq<char>>,
) -> Option<MockError> {
    let named = is_ident(text(sig.ident));
    if sig.variadic {
        Some(MockError::Variadic)
    } else if !is_ident_if(sub) || (types_of(sig).is_static && !(is_ident(mock_ident) && named)) {
        Some(MockError::Name)
    } else if exists|i: int| 0 <= i < sig.inputs.len() && #[trigger] sig.inputs[i] is Other {
        Some(MockError::Argument)
    } else if !named {
        Some(MockError::Name)
    } else {
        None
    }
}

pub open spec fn is_plain_if(text: Option<Seq<char>>) -> bool {
    text matches Some(text) ==> is_plain(text)
}

/// Whether all names that names are made of for a method are plain.
pub open spec fn method_plain(
    mock_ident: Seq<char>,
    sig: SignatureView,
    sub: Option<Seq<char>>,
) -> bool {
    &&& is_plain(text(sig.ident))
    &&& is_plain_if(sub)
    &&& types_of(sig).is_static ==> is_plain(mock_ident)
}

fn put_output(out: &mut TokenStream, output: &Option<Ty>)
    ensures
        contents(*final(out)) == contents(*old(out)) + written_output(output_view(*output)),
{
    match output {
        Some(ty) => {
            let mut result = stream();
            put_arrow(&mut result);
            put(&mut result, &ty.to_tokens());
            assert(contents(result) =~= arrow() + ty@.written());
            put(out, &result);
        },
        None => {
            assert(contents(*out) + nothing() =~= contents(*out));
        },
    }
}

/// A parameter list, without the parentheses.
pub(crate) fn inputs_tokens(inputs: &Vec<Arg>, trailing_comma: bool) -> (r: TokenStream)
    ensures
        contents(r) == written_inputs(arg_views(inputs@), trailing_comma),
{
    let mut items: Vec<TokenStream> = Vec::new();
    let mut i: usize = 0;
    while i < inputs.len()
        invariant
            i <= inputs.len(),
            items@.len() == i,
            forall|j: int| 0 <= j < i ==> contents(#[trigger] items@[j]) == inputs@[j]@.written(),
        decreases inputs.len() - i,
    {
        items.push(inputs[i].to_tokens());
        i += 1;
    }
    assert(all_contents(items@) =~= all_written(arg_views(inputs@)));
    let mut out = join(&items);
    if trailing_comma {
        proof {
            lemma_punctuation();
        }
        put_punct(&mut out, ',');
    }
    out
}

/// What a method hands on; nothing where a parameter is not a pattern with a type.
fn args_tokens(inputs: &Vec<Arg>, Ghost(all): Ghost<Seq<ArgView>>) -> (r: Option<TokenStream>)
    requires
        arg_views(inputs@) == all_demutified(all),
    ensures
        match r {
            Some(args) => contents(args) == separated(call_args(all)) && forall|i: int|
                0 <= i < all.len() ==> !(#[trigger] all[i] is Other),
            None => exists|i: int| 0 <= i < all.len() && #[trigger] all[i] is Other,
        },
{
    assert(arg_views(inputs@).len() == all.len());
    let mut args: Vec<TokenStream> = Vec::new();
    let mut i: usize = 0;
    while i < inputs.len()
        invariant
            i <= inputs.len() == all.len(),
            arg_views(inputs@) == all_demutified(all),
            all_contents(args@) == call_args(all.take(i as int)),
            forall|j: int| 0 <= j < i ==> !(#[trigger] all[j] is Other),
        decreases inputs.len() - i,
    {
        proof {
            assert(inputs@[i as int]@ == arg_views(inputs@)[i as int]);
            assert(inputs@[i as int]@ == demutified(all[i as int]));
            assert(all.take(i + 1).drop_last() =~= all.take(i as int));
        }
        match &inputs[i] {
            Arg::SelfRef(_) | Arg::SelfValue { .. } => {},
            Arg::Captured { pat, .. } => {
                let ghost before = args@;
                let arg = pat.to_tokens();
                args.push(arg);
                assert(all_contents(args@) =~= all_contents(before).push(contents(arg)));
            },
            Arg::Other(_) => {
                assert(all[i as int] is Other);
                return None;
            },
        }
        i += 1;
    }
    assert(all.take(i as int) =~= all);
    Some(join(&args))
}

/// `receiver.method()`
pub(crate) fn call_plain(receiver: TokenStream, method: &str) -> (r: TokenStream)
    requires
        is_fixed(method@),
    ensures
        contents(r) == plain_call(contents(receiver), method@),
{
    proof {
        lemma_punctuation();
    }
    let mut out = receiver;
    put_punct(&mut out, '.');
    put_word(&mut out, method);
    put_parens(&mut out, &stream());
    out
}

/// `object.lock().unwrap()`
fn lock(object: TokenStream) -> (r: TokenStream)
    ensures
        contents(r) == locked(contents(object)),
{
    proof {
        lemma_words();
    }
    call_plain(call_plain(object, "lock"), "unwrap")
}

/// The name of a module, where there is one.
fn module_tokens(mod_ident: Option<&TokenStream>) -> (r: TokenStream)
    ensures
        contents(r) == module(tokens_of(mod_ident)),
{
    match mod_ident {
        Some(mod_ident) => copy(mod_ident),
        None => stream(),
    }
}

/// `'guard`
fn guard_lifetime() -> (r: TokenStream)
    ensures
        contents(r) == lifetime("guard"@),
{
    proof {
        lemma_words();
    }
    let mut out = stream();
    put_apostrophe(&mut out);
    put_word(&mut out, "guard");
    assert(contents(out) =~= lifetime("guard"@));
    out
}

/// The method that sets expectations on a method without a `self`, given its name and
/// the object that holds them.
fn static_expectation(
    mod_ident: Option<&TokenStream>,
    attrs: &TokenStream,
    vis: &TokenStream,
    sig: &Signature,
    name: &TokenStream,
    object: TokenStream,
) -> (r: TokenStream)
    requires
        contents(*name) == word(expect_name(text(sig@.ident))),
    ensures
        forall|mock_ident: Seq<char>, all: Seq<AttributeView>, sub: Option<Seq<char>>|
            contents(*attrs) == kept_attrs(all) && contents(object) == expectation_object(
                mock_ident,
                sig@,
                sub,
            ) ==> contents(r) == #[trigger] static_expectation_method(
                tokens_of(mod_ident),
                mock_ident,
                all,
                contents(*vis),
                sig@,
                sub,
            ),
{
    proof {
        lemma_punctuation();
        lemma_words();
        reveal_strlit("'guard");
        reveal_strlit("guard");
        assert("'guard"@.skip(1) =~= "guard"@);
    }
    let mut guard = module_tokens(mod_ident);
    put_colon2(&mut guard);
    put(&mut guard, &sig.ident);
    put_colon2(&mut guard);
    if has_no_params(&sig.generics.params) {
        put_word(&mut guard, "ExpectationGuard");
    } else {
        put_word(&mut guard, "GenericExpectationGuard");
    }
    let mut g = copy_params(&sig.generics.params);
    push_lifetime(&mut g, "'guard");

    let mut body = copy(&guard);
    put_colon2(&mut body);
    put_word(&mut body, "new");
    put_parens(&mut body, &lock(object));
    let mut out = copy(attrs);
    put(&mut out, vis);
    put_word(&mut out, "fn");
    put(&mut out, name);
    put(&mut out, &declaration(&g));
    put_parens(&mut out, &stream());
    put_arrow(&mut out);
    put(&mut out, &guard);
    put_punct(&mut out, '<');
    put(&mut out, &guard_lifetime());
    put_punct(&mut out, '>');
    put(&mut out, &sig.generics.where_clause);
    put_braces(&mut out, &body);
    out
}

/// The method that sets expectations on a method with a `self`, given its name and
/// the object that holds them.
fn self_expectation(
    mod_ident: Option<&TokenStream>,
    attrs: &TokenStream,
    vis: &TokenStream,
    sig: &Signature,
    name: &TokenStream,
    object: TokenStream,
) -> (r: TokenStream)
    requires
        contents(*name) == word(expect_name(text(sig@.ident))),
    ensures
        forall|mock_ident: Seq<char>, all: Seq<AttributeView>, sub: Option<Seq<char>>|
            contents(*attrs) == kept_attrs(all) && contents(object) == expectation_object(
                mock_ident,
                sig@,
                sub,
            ) ==> contents(r) == #[trigger] self_expectation_method(
                tokens_of(mod_ident),
                mock_ident,
                all,
                contents(*vis),
                sig@,
                sub,
            ),
{
    proof {
        lemma_punctuation();
        lemma_words();
    }
    let types = method_types(sig);
    let (ig, _) = split_for_impl(&sig.generics.params);
    let mut receiver = stream();
    put_punct(&mut receiver, '&');
    assert(contents(receiver) =~= punct('&'));
    put_word(&mut receiver, "mut");
    put_word(&mut receiver, "self");

    let mut body = object;
    put_punct(&mut body, '.');
    put_word(&mut body, "expect");
    put(&mut body, &as_turbofish(&sig.generics.params));
    put_parens(&mut body, &stream());
    let mut out = copy(attrs);
    put(&mut out, vis);
    put_word(&mut out, "fn");
    put(&mut out, name);
    put(&mut out, &ig);
    put_parens(&mut out, &receiver);
    put_arrow(&mut out);
    put_punct(&mut out, '&');
    put_word(&mut out, "mut");
    put(&mut out, &module_tokens(mod_ident));
    put_colon2(&mut out);
    put(&mut out, &types.expectation);
    put(&mut out, &sig.generics.where_clause);
    put_braces(&mut out, &body);
    out
}

fn ident_if(text: Option<&str>) -> (r: bool)
    ensures
        r == is_ident_if(text_of(text)),
{
    match text {
        Some(text) => check_ident(text),
        None => true,
    }
}

/// The object that holds the expectations of a method; nothing where a name would be spelt
/// otherwise.
fn object_tokens(mock_ident: &str, sig: &Signature, is_static: bool, sub: Option<&str>) -> (r:
    Option<TokenStream>)
    requires
        is_static == types_of(sig@).is_static,
        is_ident(text(sig@.ident)),
        is_ident_if(text_of(sub)),
        is_static ==> is_ident(mock_ident@),
    ensures
        r matches Some(object) ==> contents(object) == expectation_object(
            mock_ident@,
            sig@,
            text_of(sub),
        ),
        method_plain(mock_ident@, sig@, text_of(sub)) ==> r is Some,
{
    let ident = ident_string(&sig.ident);
    let ident = ident.as_str();
    proof {
        lemma_punctuation();
        lemma_words();
        let other = match sub {
            Some(sub) => sub@,
            None => ident@,
        };
        lemma_names(other, ident@, ident@);
        if is_ident(mock_ident@) {
            lemma_names(mock_ident@, ident@, ident@);
            lemma_names(mock_ident@, other, ident@);
        }
        if method_plain(mock_ident@, sig@, text_of(sub)) {
            lemma_plain_names(other, ident@, ident@);
            if is_static {
                lemma_plain_names(mock_ident@, ident@, ident@);
                lemma_plain_names(mock_ident@, other, ident@);
            }
        }
    }
    if is_static {
        return try_word(gen_static_ident(mock_ident, sub, ident).as_str(), &stream());
    }
    let mut object = start_word("self");
    put_punct(&mut object, '.');
    if let Some(sub) = sub {
        match try_word(gen_sub_field(sub).as_str(), &stream()) {
            Some(field) => {
                put(&mut object, &field);
            },
            None => {
                return None;
            },
        }
        put_punct(&mut object, '.');
    }
    put(&mut object, &sig.ident);
    Some(object)
}

/// Generates a mock method, its expectation method, and its part of the `checkpoint`
/// method.
pub fn gen_mock_method(
    mod_ident: Option<&TokenStream>,
    mock_ident: &str,
    meth_attrs: &Vec<Attribute>,
    meth_vis: &TokenStream,
    expect_vis: &TokenStream,
    sig: &Signature,
    sub: Option<&str>,
) -> (r: Result<(TokenStream, TokenStream, TokenStream), MockError>)
    ensures
        comes_to(
            r,
            method_error(mock_ident@, sig@, text_of(sub)),
            method_plain(mock_ident@, sig@, text_of(sub)),
        ),
        r matches Ok((mock, expect, cp)) ==> {
            &&& contents(mock) == mock_method(
                mock_ident@,
                attribute_views(meth_attrs@),
                contents(*meth_vis),
                sig@,
                text_of(sub),
            )
            &&& contents(expect) == expectation_method(
                tokens_of(mod_ident),
                mock_ident@,
                attribute_views(meth_attrs@),
                contents(*expect_vis),
                sig@,
                text_of(sub),
            )
            &&& contents(cp) == checkpoint(
                mock_ident@,
                attribute_views(meth_attrs@),
                sig@,
                text_of(sub),
            )
        },
{
    if sig.variadic {
        return Err(MockError::Variadic);
    }
    let ident = ident_string(&sig.ident);
    let ident = ident.as_str();
    let types = method_types(sig);
    let named = check_ident(ident);
    if !ident_if(sub) || (types.is_static && !(check_ident(mock_ident) && named)) {
        return Err(MockError::Name);
    }
    let inputs = demutify(&sig.inputs);
    let args = match args_tokens(&inputs, Ghost(sig@.inputs)) {
        Some(args) => args,
        None => {
            return Err(MockError::Argument);
        },
    };
    if !named {
        return Err(MockError::Name);
    }
    proof {
        lemma_punctuation();
        lemma_words();
        lemma_names(ident@, ident@, ident@);
        if is_plain(ident@) {
            lemma_plain_names(ident@, ident@, ident@);
        }
    }
    let attrs = format_attrs(meth_attrs);
    let (ig, _) = split_for_impl(&sig.generics.params);
    let call_turbofish = as_turbofish(&sig.generics.params);
    let wc = &sig.generics.where_clause;

    let object = match object_tokens(mock_ident, sig, types.is_static, sub) {
        Some(object) => object,
        None => {
            return Err(MockError::Name);
        },
    };
    let expect_ident = match try_word(gen_expect_ident(ident).as_str(), &sig.ident) {
        Some(expect_ident) => expect_ident,
        None => {
            return Err(MockError::Name);
        },
    };
    let access = if types.is_static {
        lock(copy(&object))
    } else {
        copy(&object)
    };

    // First the mock method
    let mut body = copy(&access);
    put_punct(&mut body, '.');
    put_word(&mut body, types.call);
    put(&mut body, &call_turbofish);
    put_parens(&mut body, &args);
    let mut mock_output = copy(&attrs);
    put(&mut mock_output, meth_vis);
    put(&mut mock_output, &sig.constness);
    put(&mut mock_output, &sig.unsafety);
    put(&mut mock_output, &sig.asyncness);
    put(&mut mock_output, &sig.abi);
    put(&mut mock_output, &sig.fn_token);
    put(&mut mock_output, &sig.ident);
    put(&mut mock_output, &ig);
    put_parens(&mut mock_output, &inputs_tokens(&inputs, sig.trailing_comma));
    put_output(&mut mock_output, &sig.output);
    put(&mut mock_output, wc);
    put_braces(&mut mock_output, &body);

    // Then the expectation method
    let expect_output = if types.is_static {
        static_expectation(mod_ident, &attrs, expect_vis, sig, &expect_ident, object)
    } else {
        self_expectation(mod_ident, &attrs, expect_vis, sig, &expect_ident, object)
    };

    // Finally this method's contribution to the checkpoint method
    let mut statement = call_plain(access, "checkpoint");
    put_punct(&mut statement, ';');
    let mut cp_output = attrs;
    put_braces(&mut cp_output, &statement);

    Ok((mock_output, expect_output, cp_output))
}

} // verus!
