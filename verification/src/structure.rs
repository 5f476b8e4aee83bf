//! The mock structure: its fields, its module and its statics.

use crate::ast::ImplItemMethod;
use crate::error::MockError;
use crate::generics::{
    has_no_params, read_params, split_for_impl, GenericList, GenericParam, ParamKind,
};
use crate::method::{format_attrs, inputs_tokens};
use crate::method_types::{deimplify, destrify, method_types, MethodTypes};
use crate::tokens::{
    check_ident, copy, ident_string, put, put_arrow, put_braces, put_brackets, put_colon2,
    put_parens, put_path2, put_path3, put_punct, put_word, start_word, stream, try_word,
};
use crate::words::{
    gen_mock_ident, gen_mod_ident, gen_phantom_ident, gen_static_ident, gen_sub_field,
    gen_sub_ident,
};
use proc_macro2::TokenStream;
use vstd::prelude::*;

verus! {

use crate::ast::{method_views, ImplItemMethodView, TyView};
use crate::error::comes_to;
use crate::generics::{angled, Form, GenericListView, ParamView};
use crate::method::{kept_attrs, written_inputs};
use crate::method_types::{deimplified, destrified, types_of};
use crate::tokens::{
    arrow, braces, brackets, colon2, contents, is_fixed, is_ident, is_plain, lemma_punctuation,
    nothing, parens, path2, path3, punct, text, word, Token,
};
use crate::words::{
    lemma_names, lemma_plain_names, lemma_words, mock_name, mod_name, phantom_name, static_name,
    sub_field_name, sub_name,
};

/// A field of a generated structure, and the value that it starts with.
#[derive(Debug)]
pub struct Field {
    pub attrs: TokenStream,
    pub name: TokenStream,
    pub ty: TokenStream,
    pub init: TokenStream,
}

pub struct FieldView {
    pub attrs: Seq<Token>,
    pub name: Seq<Token>,
    pub ty: Seq<Token>,
    pub init: Seq<Token>,
}

impl View for Field {
    type V = FieldView;

    open spec fn view(&self) -> FieldView {
        FieldView {
            attrs: contents(self.attrs),
            name: contents(self.name),
            ty: contents(self.ty),
            init: contents(self.init),
        }
    }
}

impl FieldView {
    /// The field as the structure declares it.
    pub open spec fn declared(self) -> Seq<Token> {
        self.attrs + self.name + punct(':') + self.ty + punct(',')
    }

    /// The field as an expression gives its first value.
    pub open spec fn initialised(self) -> Seq<Token> {
        self.attrs + self.name + punct(':') + self.init + punct(',')
    }
}

pub open spec fn field_views(fields: Seq<Field>) -> Seq<FieldView> {
    Seq::new(fields.len(), |i: int| fields[i]@)
}

/// The declarations of all fields.
pub open spec fn all_declared(fields: Seq<FieldView>) -> Seq<Token>
    decreases fields.len(),
{
    if fields.len() == 0 {
        nothing()
    } else {
        all_declared(fields.drop_last()) + fields.last().declared()
    }
}

/// The first values of all fields.
pub open spec fn all_initialised(fields: Seq<FieldView>) -> Seq<Token>
    decreases fields.len(),
{
    if fields.len() == 0 {
        nothing()
    } else {
        all_initialised(fields.drop_last()) + fields.last().initialised()
    }
}

/// `path::method()`
pub open spec fn path_call(path: Seq<Token>, method: Seq<char>) -> Seq<Token> {
    path + colon2() + word(method) + parens(nothing())
}

/// The traits of a structure: the name of each, and its generic parameters.
pub open spec fn sub_views(subs: Seq<(String, GenericList)>) -> Seq<(Seq<char>, GenericListView)> {
    Seq::new(subs.len(), |i: int| (subs[i].0@, subs[i].1@))
}

/// The field that holds the expectations of a trait.
pub open spec fn sub_field(mock_ident: Seq<char>, sub: (Seq<char>, GenericListView)) -> FieldView {
    FieldView {
        attrs: nothing(),
        name: word(sub_field_name(sub.0)),
        ty: word(sub_name(mock_ident, sub.0)) + sub.1.for_type(),
        init: path_call(word(sub_name(mock_ident, sub.0)), "default"@),
    }
}

pub open spec fn sub_fields(
    mock_ident: Seq<char>,
    subs: Seq<(Seq<char>, GenericListView)>,
) -> Seq<FieldView> {
    Seq::new(subs.len(), |i: int| sub_field(mock_ident, subs[i]))
}

/// The field that holds the expectations of a method.
pub open spec fn method_field(mod_ident: Seq<char>, method: ImplItemMethodView) -> FieldView {
    let types = types_of(method.sig);
    FieldView {
        attrs: kept_attrs(method.attrs),
        name: method.sig.ident,
        ty: word(mod_ident) + colon2() + types.expect_obj,
        init: path_call(word(mod_ident) + colon2() + types.expectations, "default"@),
    }
}

/// The fields for all methods that have a `self`.
pub open spec fn method_fields(
    mod_ident: Seq<char>,
    methods: Seq<ImplItemMethodView>,
) -> Seq<FieldView>
    decreases methods.len(),
{
    if methods.len() == 0 {
        Seq::empty()
    } else {
        let before = method_fields(mod_ident, methods.drop_last());
        if types_of(methods.last().sig).is_static {
            before
        } else {
            before.push(method_field(mod_ident, methods.last()))
        }
    }
}

/// A type that makes use of a generic parameter.
pub open spec fn phantom_type(param: ParamView) -> Seq<Token> {
    match param.kind {
        ParamKind::Lifetime => punct('&') + param.name + parens(nothing()),
        _ => param.name,
    }
}

/// The field that makes use of a generic parameter, given its position.
pub open spec fn phantom_field(index: nat, param: ParamView) -> FieldView {
    FieldView {
        attrs: nothing(),
        name: word(phantom_name(index)),
        ty: path3("std"@, "marker"@, "PhantomData"@) + punct('<') + phantom_type(param) + punct(
            '>',
        ),
        init: path3("std"@, "marker"@, "PhantomData"@),
    }
}

pub open spec fn phantom_fields(params: Seq<ParamView>) -> Seq<FieldView> {
    Seq::new(params.len(), |i: int| phantom_field(i as nat, params[i]))
}

/// The fields of the mock structure: those for its traits, those for its methods, and
/// those that make use of its generic parameters.
pub open spec fn struct_fields(
    ident: Seq<char>,
    generics: GenericListView,
    subs: Seq<(Seq<char>, GenericListView)>,
    methods: Seq<ImplItemMethodView>,
) -> Seq<FieldView> {
    sub_fields(mock_name(ident), subs) + method_fields(mod_name(ident, None), methods)
        + phantom_fields(generics.params)
}

/// The generic parameters of a method for `expectation!`, which needs the angle brackets
/// even around nothing.
pub open spec fn macro_generics(params: Seq<ParamView>) -> Seq<Token> {
    if params.len() == 0 {
        punct('<') + punct('>')
    } else {
        angled(params, Form::Name)
    }
}

/// The type of what an expectation returns.
pub open spec fn return_type(output: Option<TyView>) -> Seq<Token> {
    match output {
        Some(ty) => destrified(deimplified(ty)).written(),
        None => parens(nothing()),
    }
}

/// The expectations of a method.
pub open spec fn expectation_item(method: ImplItemMethodView) -> Seq<Token> {
    let sig = method.sig;
    let types = types_of(sig);
    path2("mockall"@, "expectation"@) + punct('!') + braces(
        word("fn"@) + sig.ident + macro_generics(sig.generics.params) + parens(
            written_inputs(sig.inputs, sig.trailing_comma),
        ) + arrow() + return_type(sig.output) + braces(
            word("let"@) + parens(types.altargs) + punct('=') + parens(types.matchexprs) + punct(
                ';',
            ),
        ),
    )
}

/// The expectations of all methods.
pub open spec fn expectation_items(methods: Seq<ImplItemMethodView>) -> Seq<Token>
    decreases methods.len(),
{
    if methods.len() == 0 {
        nothing()
    } else {
        expectation_items(methods.drop_last()) + expectation_item(methods.last())
    }
}

/// The static that holds the expectations of a method without a `self`.
pub open spec fn static_item(
    mod_ident: Seq<char>,
    mock_ident: Seq<char>,
    method: ImplItemMethodView,
) -> Seq<Token> {
    let types = types_of(method.sig);
    kept_attrs(method.attrs) + path2("mockall"@, "lazy_static"@) + punct('!') + braces(
        word("static"@) + word("ref"@) + word(static_name(mock_ident, None, text(method.sig.ident)))
            + punct(':') + path3("std"@, "sync"@, "Mutex"@) + punct('<') + word(mod_ident)
            + colon2() + types.expect_obj + punct('>') + punct('=') + path3(
            "std"@,
            "sync"@,
            "Mutex"@,
        ) + colon2() + word("new"@) + parens(
            path_call(word(mod_ident) + colon2() + types.expectations, "new"@),
        ) + punct(';'),
    )
}

/// The statics for all methods that have no `self`.
pub open spec fn static_items(
    mod_ident: Seq<char>,
    mock_ident: Seq<char>,
    methods: Seq<ImplItemMethodView>,
) -> Seq<Token>
    decreases methods.len(),
{
    if methods.len() == 0 {
        nothing()
    } else {
        let before = static_items(mod_ident, mock_ident, methods.drop_last());
        if types_of(methods.last().sig).is_static {
            before + static_item(mod_ident, mock_ident, methods.last())
        } else {
            before
        }
    }
}

/// The mock structure, with the module of its expectations before it and its statics and
/// its `Default` after it.
pub open spec fn struct_items(
    vis: Seq<Token>,
    ident: Seq<char>,
    generics: GenericListView,
    subs: Seq<(Seq<char>, GenericListView)>,
    methods: Seq<ImplItemMethodView>,
) -> Seq<Token> {
    let mod_ident = mod_name(ident, None);
    let mock_ident = mock_name(ident);
    let fields = struct_fields(ident, generics, subs, methods);
    let default_fn = word("fn"@) + word("default"@) + parens(nothing()) + arrow() + word("Self"@)
        + braces(word("Self"@) + braces(all_initialised(fields)));
    punct('#') + brackets(word("allow"@) + parens(word("non_snake_case"@))) + word("mod"@) + word(
        mod_ident,
    ) + braces(expectation_items(methods)) + vis + word("struct"@) + word(mock_ident)
        + generics.for_impl() + generics.where_clause + braces(all_declared(fields))
        + static_items(mod_ident, mock_ident, methods) + word("impl"@) + generics.for_impl()
        + path3("std"@, "default"@, "Default"@) + word("for"@) + word(mock_ident)
        + generics.for_type() + generics.where_clause + braces(default_fn)
}

/// Why no structure can make use of a generic parameter.
pub open spec fn param_error(param: ParamView) -> Option<MockError> {
    match param.kind {
        ParamKind::Lifetime => if param.bounded {
            Some(MockError::LifetimeBounds)
        } else {
            None
        },
        ParamKind::Type => None,
        ParamKind::Const => Some(MockError::ConstParameter),
    }
}

/// What the first offending generic parameter is refused for.
pub open spec fn params_error(params: Seq<ParamView>) -> Option<MockError>
    decreases params.len(),
{
    if params.len() == 0 {
        None
    } else {
        match params_error(params.drop_last()) {
            Some(error) => Some(error),
            None => param_error(params.last()),
        }
    }
}

pub open spec fn names_of_subs(subs: Seq<(Seq<char>, GenericListView)>) -> bool {
    forall|i: int| 0 <= i < subs.len() ==> is_ident((#[trigger] subs[i]).0)
}

/// Whether all methods without a `self`, for which statics are named, have names that are
/// identifiers.
pub open spec fn names_of_statics(methods: Seq<ImplItemMethodView>) -> bool {
    forall|i: int|
        0 <= i < methods.len() && types_of((#[trigger] methods[i]).sig).is_static ==> is_ident(
            text(methods[i].sig.ident),
        )
}

/// Why there is no mock structure.  The names that are made for it must be identifiers.
pub open spec fn struct_error(
    ident: Seq<char>,
    generics: GenericListView,
    subs: Seq<(Seq<char>, GenericListView)>,
    methods: Seq<ImplItemMethodView>,
) -> Option<MockError> {
    if !is_ident(ident) || !names_of_subs(subs) || !names_of_statics(methods) {
        Some(MockError::Name)
    } else {
        params_error(generics.params)
    }
}

pub open spec fn plain_subs(subs: Seq<(Seq<char>, GenericListView)>) -> bool {
    forall|i: int| 0 <= i < subs.len() ==> is_plain((#[trigger] subs[i]).0)
}

/// Whether all methods without a `self` have plain names.
pub open spec fn plain_statics(methods: Seq<ImplItemMethodView>) -> bool {
    forall|i: int|
        0 <= i < methods.len() && types_of((#[trigger] methods[i]).sig).is_static ==> is_plain(
            text(methods[i].sig.ident),
        )
}

/// Whether all names that names are made of for a structure are plain.
pub open spec fn struct_plain(
    ident: Seq<char>,
    subs: Seq<(Seq<char>, GenericListView)>,
    methods: Seq<ImplItemMethodView>,
) -> bool {
    is_plain(ident) && plain_subs(subs) && plain_statics(methods)
}

/// What one parameter is refused for, where none before it is, is what the list is
/// refused for.
proof fn lemma_params_error(params: Seq<ParamView>, i: int)
    requires
        0 <= i < params.len(),
        params_error(params.take(i)) is None,
        param_error(params[i]) is Some,
    ensures
        params_error(params) == param_error(params[i]),
    decreases params.len(),
{
    if i == params.len() - 1 {
        assert(params.take(i) =~= params.drop_last());
    } else {
        assert(params.drop_last().take(i) =~= params.take(i));
        lemma_params_error(params.drop_last(), i);
    }
}

/// `path::method()`
fn call_path(path: TokenStream, method: &str) -> (r: TokenStream)
    requires
        is_fixed(method@),
    ensures
        contents(r) == path_call(contents(path), method@),
{
    let mut out = path;
    put_colon2(&mut out);
    put_word(&mut out, method);
    put_parens(&mut out, &stream());
    out
}

impl Field {
    fn declare(&self) -> (r: TokenStream)
        ensures
            contents(r) == self@.declared(),
    {
        proof {
            lemma_punctuation();
        }
        let mut out = copy(&self.attrs);
        put(&mut out, &self.name);
        put_punct(&mut out, ':');
        put(&mut out, &self.ty);
        put_punct(&mut out, ',');
        out
    }

    fn initialise(&self) -> (r: TokenStream)
        ensures
            contents(r) == self@.initialised(),
    {
        proof {
            lemma_punctuation();
        }
        let mut out = copy(&self.attrs);
        put(&mut out, &self.name);
        put_punct(&mut out, ':');
        put(&mut out, &self.init);
        put_punct(&mut out, ',');
        out
    }
}

/// The declarations and the first values of all fields.
fn fields_tokens(fields: &Vec<Field>) -> (r: (TokenStream, TokenStream))
    ensures
        contents(r.0) == all_declared(field_views(fields@)),
        contents(r.1) == all_initialised(field_views(fields@)),
{
    let ghost all = field_views(fields@);
    let mut body = stream();
    let mut default_body = stream();
    let mut i: usize = 0;
    while i < fields.len()
        invariant
            i <= fields.len() == all.len(),
            all == field_views(fields@),
            contents(body) == all_declared(all.take(i as int)),
            contents(default_body) == all_initialised(all.take(i as int)),
        decreases fields.len() - i,
    {
        assert(all.take(i + 1).drop_last() =~= all.take(i as int));
        put(&mut body, &fields[i].declare());
        put(&mut default_body, &fields[i].initialise());
        i += 1;
    }
    assert(all.take(i as int) =~= all);
    (body, default_body)
}

/// The field that holds the expectations of a trait; nothing where a name would be spelt
/// otherwise.
fn make_sub_field(mock_ident: &str, sub: &str, generics: &GenericList) -> (r: Option<Field>)
    requires
        is_ident(mock_ident@),
        is_ident(sub@),
    ensures
        r matches Some(field) ==> field@ == sub_field(mock_ident@, (sub@, generics@)),
        is_plain(mock_ident@) && is_plain(sub@) ==> r is Some,
{
    proof {
        lemma_words();
        lemma_names(mock_ident@, sub@, sub@);
        lemma_names(sub@, sub@, sub@);
        if is_plain(mock_ident@) && is_plain(sub@) {
            lemma_plain_names(mock_ident@, sub@, sub@);
            lemma_plain_names(sub@, sub@, sub@);
        }
    }
    let (_, tg) = split_for_impl(&generics.params);
    match (
        try_word(gen_sub_ident(mock_ident, sub).as_str(), &stream()),
        try_word(gen_sub_field(sub).as_str(), &stream()),
    ) {
        (Some(sub_mock), Some(name)) => {
            let mut ty = copy(&sub_mock);
            put(&mut ty, &tg);
            let init = call_path(sub_mock, "default");
            Some(Field { attrs: stream(), name, ty, init })
        },
        _ => None,
    }
}

/// The field that holds the expectations of a method.
fn make_method_field(
    mod_ident: &TokenStream,
    method: &ImplItemMethod,
    types: &MethodTypes,
    Ghost(mod_name): Ghost<Seq<char>>,
) -> (r: Field)
    requires
        contents(*mod_ident) == word(mod_name),
        types@ == types_of(method@.sig),
    ensures
        r@ == method_field(mod_name, method@),
{
    proof {
        lemma_words();
    }
    let mut ty = copy(mod_ident);
    put_colon2(&mut ty);
    put(&mut ty, &types.expect_obj);
    let mut path = copy(mod_ident);
    put_colon2(&mut path);
    put(&mut path, &types.expectations);
    let init = call_path(path, "default");
    Field { attrs: format_attrs(&method.attrs), name: copy(&method.sig.ident), ty, init }
}

/// The field that makes use of a generic parameter.
fn make_phantom_field(
    index: usize,
    param: &GenericParam,
    Ghost(view): Ghost<ParamView>,
) -> (r: Field)
    requires
        param.reads(view),
    ensures
        r@ == phantom_field(index as nat, view),
{
    proof {
        lemma_punctuation();
        lemma_words();
    }
    let mut init = stream();
    put_path3(&mut init, "std", "marker", "PhantomData");
    assert(contents(init) =~= path3("std"@, "marker"@, "PhantomData"@));
    let mut used = stream();
    if param.kind == ParamKind::Lifetime {
        put_punct(&mut used, '&');
        put(&mut used, &param.name);
        put_parens(&mut used, &stream());
    } else {
        put(&mut used, &param.name);
    }
    assert(contents(used) =~= phantom_type(view));
    let mut ty = copy(&init);
    put_punct(&mut ty, '<');
    put(&mut ty, &used);
    put_punct(&mut ty, '>');
    let name = start_word(gen_phantom_ident(index).as_str());
    Field { attrs: stream(), name, ty, init }
}

/// The expectations of a method.
fn make_expectation_item(method: &ImplItemMethod, types: &MethodTypes) -> (r: TokenStream)
    requires
        types@ == types_of(method@.sig),
    ensures
        contents(r) == expectation_item(method@),
{
    proof {
        lemma_punctuation();
        lemma_words();
    }
    let sig = &method.sig;
    let result = match &sig.output {
        Some(ty) => {
            let mut rt = ty.copy();
            deimplify(&mut rt);
            destrify(&mut rt);
            rt.to_tokens()
        },
        None => {
            let mut unit = stream();
            put_parens(&mut unit, &stream());
            assert(contents(unit) =~= parens(nothing()));
            unit
        },
    };
    assert(contents(result) == return_type(method@.sig.output));
    let mut macro_g = stream();
    if has_no_params(&sig.generics.params) {
        // expectation! requires the <> even if it's empty
        put_punct(&mut macro_g, '<');
        put_punct(&mut macro_g, '>');
    } else {
        let (_, tg) = split_for_impl(&sig.generics.params);
        put(&mut macro_g, &tg);
    }
    assert(contents(macro_g) =~= macro_generics(method@.sig.generics.params));
    let mut binding = start_word("let");
    put_parens(&mut binding, &types.altargs);
    put_punct(&mut binding, '=');
    put_parens(&mut binding, &types.matchexprs);
    put_punct(&mut binding, ';');
    let mut body = start_word("fn");
    put(&mut body, &sig.ident);
    put(&mut body, &macro_g);
    put_parens(&mut body, &inputs_tokens(&sig.inputs, sig.trailing_comma));
    put_arrow(&mut body);
    put(&mut body, &result);
    put_braces(&mut body, &binding);
    let mut out = stream();
    put_path2(&mut out, "mockall", "expectation");
    assert(contents(out) =~= path2("mockall"@, "expectation"@));
    put_punct(&mut out, '!');
    put_braces(&mut out, &body);
    out
}

/// The static that holds the expectations of a method without a `self`; nothing where its
/// name would be spelt otherwise.
fn make_static_item(
    mod_ident: &TokenStream,
    mock_ident: &str,
    method: &ImplItemMethod,
    types: &MethodTypes,
    Ghost(mod_name): Ghost<Seq<char>>,
) -> (r: Option<TokenStream>)
    requires
        contents(*mod_ident) == word(mod_name),
        is_ident(mock_ident@),
        is_ident(text(method@.sig.ident)),
        types@ == types_of(method@.sig),
    ensures
        r matches Some(item) ==> contents(item) == static_item(mod_name, mock_ident@, method@),
        is_plain(mock_ident@) && is_plain(text(method@.sig.ident)) ==> r is Some,
{
    let ident = ident_string(&method.sig.ident);
    let ident = ident.as_str();
    proof {
        lemma_punctuation();
        lemma_words();
        lemma_names(mock_ident@, ident@, ident@);
        if is_plain(mock_ident@) && is_plain(ident@) {
            lemma_plain_names(mock_ident@, ident@, ident@);
        }
    }
    let name = match try_word(gen_static_ident(mock_ident, None, ident).as_str(), &stream()) {
        Some(name) => name,
        None => {
            return None;
        },
    };
    let mut path = copy(mod_ident);
    put_colon2(&mut path);
    put(&mut path, &types.expectations);
    let mut body = start_word("static");
    put_word(&mut body, "ref");
    put(&mut body, &name);
    put_punct(&mut body, ':');
    put_path3(&mut body, "std", "sync", "Mutex");
    put_punct(&mut body, '<');
    put(&mut body, mod_ident);
    put_colon2(&mut body);
    put(&mut body, &types.expect_obj);
    put_punct(&mut body, '>');
    put_punct(&mut body, '=');
    put_path3(&mut body, "std", "sync", "Mutex");
    put_colon2(&mut body);
    put_word(&mut body, "new");
    put_parens(&mut body, &call_path(path, "new"));
    put_punct(&mut body, ';');
    let mut out = format_attrs(&method.attrs);
    put_path2(&mut out, "mockall", "lazy_static");
    put_punct(&mut out, '!');
    put_braces(&mut out, &body);
    Some(out)
}

/// Whether all names that a structure is made of are identifiers.
fn check_names(
    ident: &str,
    subs: &Vec<(String, GenericList)>,
    methods: &Vec<ImplItemMethod>,
) -> (r: bool)
    ensures
        r == (is_ident(ident@) && names_of_subs(sub_views(subs@)) && names_of_statics(
            method_views(methods@),
        )),
{
    if !check_ident(ident) {
        return false;
    }
    let ghost all = sub_views(subs@);
    let mut i: usize = 0;
    while i < subs.len()
        invariant
            i <= subs.len() == all.len(),
            all == sub_views(subs@),
            forall|j: int| 0 <= j < i ==> is_ident((#[trigger] all[j]).0),
        decreases subs.len() - i,
    {
        assert(all[i as int].0 == subs@[i as int].0@);
        if !check_ident(subs[i].0.as_str()) {
            return false;
        }
        i += 1;
    }
    let ghost all = method_views(methods@);
    let mut i: usize = 0;
    while i < methods.len()
        invariant
            i <= methods.len() == all.len(),
            all == method_views(methods@),
            forall|j: int|
                0 <= j < i && types_of((#[trigger] all[j]).sig).is_static ==> is_ident(
                    text(all[j].sig.ident),
                ),
        decreases methods.len() - i,
    {
        assert(all[i as int] == methods@[i as int]@);
        let sig = &methods[i].sig;
        if method_types(sig).is_static && !check_ident(ident_string(&sig.ident).as_str()) {
            return false;
        }
        i += 1;
    }
    true
}

/// Adds the fields for all traits; stops where a name would be spelt otherwise.
fn push_sub_fields(
    fields: &mut Vec<Field>,
    mock_ident: &str,
    subs: &Vec<(String, GenericList)>,
) -> (r: bool)
    requires
        is_ident(mock_ident@),
        names_of_subs(sub_views(subs@)),
    ensures
        r ==> field_views(final(fields)@) == field_views(old(fields)@) + sub_fields(
            mock_ident@,
            sub_views(subs@),
        ),
        is_plain(mock_ident@) && plain_subs(sub_views(subs@)) ==> r,
{
    let ghost before = field_views(fields@);
    let ghost all = sub_views(subs@);
    let mut i: usize = 0;
    assert(field_views(fields@) =~= before + sub_fields(mock_ident@, all.take(0)));
    while i < subs.len()
        invariant
            i <= subs.len() == all.len(),
            all == sub_views(subs@),
            is_ident(mock_ident@),
            names_of_subs(all),
            field_views(fields@) == before + sub_fields(mock_ident@, all.take(i as int)),
        decreases subs.len() - i,
    {
        let ghost done = field_views(fields@);
        assert(all[i as int] == (subs@[i as int].0@, subs@[i as int].1@));
        let field = match make_sub_field(mock_ident, subs[i].0.as_str(), &subs[i].1) {
            Some(field) => field,
            None => {
                return false;
            },
        };
        fields.push(field);
        assert(field_views(fields@) =~= done.push(field@));
        assert(field_views(fields@) =~= before + sub_fields(mock_ident@, all.take(i + 1)));
        i += 1;
    }
    assert(all.take(i as int) =~= all);
    true
}

/// Adds the fields for all methods that have a `self`; returns the expectations of all
/// methods, and the statics for those that have no `self`.  Stops where the name of a
/// static would be spelt otherwise.
fn push_method_fields(
    fields: &mut Vec<Field>,
    mod_ident: &TokenStream,
    mock_ident: &str,
    methods: &Vec<ImplItemMethod>,
    Ghost(mod_name): Ghost<Seq<char>>,
) -> (r: Option<(TokenStream, TokenStream)>)
    requires
        contents(*mod_ident) == word(mod_name),
        is_ident(mock_ident@),
        names_of_statics(method_views(methods@)),
    ensures
        r matches Some((mod_body, statics)) ==> {
            &&& field_views(final(fields)@) == field_views(old(fields)@) + method_fields(
                mod_name,
                method_views(methods@),
            )
            &&& contents(mod_body) == expectation_items(method_views(methods@))
            &&& contents(statics) == static_items(mod_name, mock_ident@, method_views(methods@))
        },
        is_plain(mock_ident@) && plain_statics(method_views(methods@)) ==> r is Some,
{
    let ghost before = field_views(fields@);
    let ghost all = method_views(methods@);
    let mut mod_body = stream();
    let mut statics = stream();
    let mut i: usize = 0;
    assert(field_views(fields@) =~= before + method_fields(mod_name, all.take(0)));
    while i < methods.len()
        invariant
            i <= methods.len() == all.len(),
            all == method_views(methods@),
            contents(*mod_ident) == word(mod_name),
            is_ident(mock_ident@),
            names_of_statics(all),
            field_views(fields@) == before + method_fields(mod_name, all.take(i as int)),
            contents(mod_body) == expectation_items(all.take(i as int)),
            contents(statics) == static_items(mod_name, mock_ident@, all.take(i as int)),
        decreases methods.len() - i,
    {
        let ghost done = field_views(fields@);
        let method = &methods[i];
        assert(all[i as int] == method@);
        assert(all.take(i + 1).drop_last() =~= all.take(i as int));
        let types = method_types(&method.sig);
        put(&mut mod_body, &make_expectation_item(method, &types));
        if types.is_static {
            match make_static_item(mod_ident, mock_ident, method, &types, Ghost(mod_name)) {
                Some(item) => {
                    put(&mut statics, &item);
                },
                None => {
                    return None;
                },
            }
        } else {
            let field = make_method_field(mod_ident, method, &types, Ghost(mod_name));
            fields.push(field);
            assert(field_views(fields@) =~= done.push(field@));
        }
        assert(field_views(fields@) =~= before + method_fields(mod_name, all.take(i + 1)));
        i += 1;
    }
    assert(all.take(i as int) =~= all);
    Some((mod_body, statics))
}

/// Adds the fields that make use of the generic parameters.
fn push_phantom_fields(fields: &mut Vec<Field>, generics: &GenericList) -> (r: Result<
    (),
    MockError,
>)
    ensures
        match params_error(generics@.params) {
            Some(error) => r == Err::<(), MockError>(error),
            None => {
                &&& r is Ok
                &&& field_views(final(fields)@) == field_views(old(fields)@) + phantom_fields(
                    generics@.params,
                )
            },
        },
{
    let ghost before = field_views(fields@);
    let ghost all = generics@.params;
    let params = read_params(&generics.params);
    let mut i: usize = 0;
    assert(field_views(fields@) =~= before + phantom_fields(all.take(0)));
    while i < params.len()
        invariant
            i <= params.len() == all.len(),
            forall|j: int| 0 <= j < params@.len() ==> (#[trigger] params@[j]).reads(all[j]),
            all == generics@.params,
            field_views(fields@) == before + phantom_fields(all.take(i as int)),
            params_error(all.take(i as int)) is None,
        decreases params.len() - i,
    {
        let ghost done = field_views(fields@);
        let param = &params[i];
        assert(param.reads(all[i as int]));
        assert(all.take(i + 1).drop_last() =~= all.take(i as int));
        match param.kind {
            ParamKind::Lifetime => {
                if param.bounded {
                    proof {
                        lemma_params_error(all, i as int);
                    }
                    return Err(MockError::LifetimeBounds);
                }
            },
            ParamKind::Type => {},
            ParamKind::Const => {
                proof {
                    lemma_params_error(all, i as int);
                }
                return Err(MockError::ConstParameter);
            },
        }
        let field = make_phantom_field(i, param, Ghost(all[i as int]));
        fields.push(field);
        assert(field_views(fields@) =~= done.push(field@));
        assert(field_views(fields@) =~= before + phantom_fields(all.take(i + 1)));
        i += 1;
    }
    assert(all.take(i as int) =~= all);
    Ok(())
}

/// Generates the mock structure of a type.
pub fn gen_struct(
    vis: &TokenStream,
    ident: &str,
    generics: &GenericList,
    subs: &Vec<(String, GenericList)>,
    methods: &Vec<ImplItemMethod>,
) -> (r: Result<TokenStream, MockError>)
    ensures
        comes_to(
            r,
            struct_error(ident@, generics@, sub_views(subs@), method_views(methods@)),
            struct_plain(ident@, sub_views(subs@), method_views(methods@)),
        ),
        r matches Ok(code) ==> contents(code) == struct_items(
            contents(*vis),
            ident@,
            generics@,
            sub_views(subs@),
            method_views(methods@),
        ),
{
    if !check_names(ident, subs, methods) {
        return Err(MockError::Name);
    }
    proof {
        lemma_punctuation();
        lemma_words();
        lemma_names(ident@, ident@, ident@);
        if is_plain(ident@) {
            lemma_plain_names(ident@, ident@, ident@);
        }
    }
    let mock_name = gen_mock_ident(ident);
    let mock_name = mock_name.as_str();
    let ghost mod_name = mod_name(ident@, None);
    let (mod_ident, mock_ident) = match (
        try_word(gen_mod_ident(ident, None).as_str(), &stream()),
        try_word(mock_name, &stream()),
    ) {
        (Some(mod_ident), Some(mock_ident)) => (mod_ident, mock_ident),
        _ => {
            return Err(MockError::Name);
        },
    };

    // Make Expectation fields for each method
    let mut fields: Vec<Field> = Vec::new();
    if !push_sub_fields(&mut fields, mock_name, subs) {
        return Err(MockError::Name);
    }
    let (mod_body, statics) = match push_method_fields(
        &mut fields,
        &mod_ident,
        mock_name,
        methods,
        Ghost(mod_name),
    ) {
        Some(bodies) => bodies,
        None => {
            return Err(MockError::Name);
        },
    };
    // Make PhantomData fields, if necessary
    match push_phantom_fields(&mut fields, generics) {
        Ok(()) => {},
        Err(error) => {
            return Err(error);
        },
    }
    assert(field_views(fields@) =~= struct_fields(
        ident@,
        generics@,
        sub_views(subs@),
        method_views(methods@),
    ));
    let (body, default_body) = fields_tokens(&fields);
    let (ig, tg) = split_for_impl(&generics.params);
    let wc = &generics.where_clause;

    let mut lint = start_word("allow");
    put_parens(&mut lint, &start_word("non_snake_case"));
    let mut output = stream();
    put_punct(&mut output, '#');
    assert(contents(output) =~= punct('#'));
    put_brackets(&mut output, &lint);
    put_word(&mut output, "mod");
    put(&mut output, &mod_ident);
    put_braces(&mut output, &mod_body);
    put(&mut output, vis);
    put_word(&mut output, "struct");
    put(&mut output, &mock_ident);
    put(&mut output, &ig);
    put(&mut output, wc);
    put_braces(&mut output, &body);
    put(&mut output, &statics);
    let mut init = start_word("Self");
    put_braces(&mut init, &default_body);
    let mut default_fn = start_word("fn");
    put_word(&mut default_fn, "default");
    put_parens(&mut default_fn, &stream());
    put_arrow(&mut default_fn);
    put_word(&mut default_fn, "Self");
    put_braces(&mut default_fn, &init);
    put_word(&mut output, "impl");
    put(&mut output, &ig);
    put_path3(&mut output, "std", "default", "Default");
    put_word(&mut output, "for");
    put(&mut output, &mock_ident);
    put(&mut output, &tg);
    put(&mut output, wc);
    put_braces(&mut output, &default_fn);
    Ok(output)
}

} // verus!
