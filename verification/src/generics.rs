//! Generic parameter lists.
//!
//! The list itself is a [`syn::Generics`].  The contracts speak of it through
//! [`generic_params`], the sequence of the parameters that it holds.

use crate::tokens::copy;
use proc_macro2::TokenStream;
use quote::ToTokens;
use vstd::prelude::*;

verus! {

use crate::tokens::{colon2, contents, joint, nothing, punct, word, Token};

/// What a generic parameter stands for.
#[derive(Clone, Copy, PartialEq, Eq, Structural, Debug)]
pub enum ParamKind {
    Lifetime,
    Type,
    Const,
}

/// One generic parameter, as the tokens that it is written with.
pub struct ParamView {
    pub kind: ParamKind,
    /// Whether it is declared with bounds.
    pub bounded: bool,
    /// Its bare name, as in a use of the parameter.
    pub name: Seq<Token>,
    /// Its declaration without a default value.
    pub bare: Seq<Token>,
    /// Its whole declaration.
    pub full: Seq<Token>,
    /// Whether a comma follows it in the list.
    pub comma: bool,
}

/// How much of each parameter is written.
pub enum Form {
    Name,
    Bare,
    Full,
}

pub open spec fn written(param: ParamView, form: Form) -> Seq<Token> {
    match form {
        Form::Name => param.name,
        Form::Bare => param.bare,
        Form::Full => param.full,
    }
}

/// The lifetimes of a parameter list, or all that is not a lifetime, each with the
/// comma that follows it.
pub open spec fn listed(params: Seq<ParamView>, form: Form, lifetimes: bool) -> Seq<Token>
    decreases params.len(),
{
    if params.len() == 0 {
        nothing()
    } else {
        let before = listed(params.drop_last(), form, lifetimes);
        let param = params.last();
        if (param.kind == ParamKind::Lifetime) != lifetimes {
            before
        } else if param.comma {
            before + written(param, form) + punct(',')
        } else {
            before + written(param, form)
        }
    }
}

/// Whether there is a lifetime in the list, and no comma follows the last one.
pub open spec fn lifetimes_open(params: Seq<ParamView>) -> bool {
    exists|i: int|
        {
            &&& 0 <= i < params.len()
            &&& (#[trigger] params[i]).kind == ParamKind::Lifetime
            &&& !params[i].comma
            &&& forall|j: int| i < j < params.len() ==> (#[trigger] params[j]).kind
                != ParamKind::Lifetime
        }
}

/// Whether all parameters of the list are lifetimes.
pub open spec fn only_lifetimes(params: Seq<ParamView>) -> bool {
    forall|i: int| 0 <= i < params.len() ==> (#[trigger] params[i]).kind == ParamKind::Lifetime
}

/// The list in angle brackets, lifetimes first; nothing at all for an empty list.
pub open spec fn angled(params: Seq<ParamView>, form: Form) -> Seq<Token> {
    let gap = if lifetimes_open(params) && !only_lifetimes(params) {
        punct(',')
    } else {
        nothing()
    };
    if params.len() == 0 {
        nothing()
    } else {
        punct('<') + listed(params, form, true) + gap + listed(params, form, false) + punct('>')
    }
}

/// The parameters as the generic arguments of a call.
pub open spec fn turbofish(params: Seq<ParamView>) -> Seq<Token> {
    if params.len() == 0 {
        nothing()
    } else {
        colon2() + angled(params, Form::Name)
    }
}

/// A lifetime; the name is without the apostrophe.
pub open spec fn lifetime(name: Seq<char>) -> Seq<Token> {
    joint('\'') + word(name)
}

/// The list with a lifetime without bounds at its end, and a comma before that.
pub open spec fn with_lifetime(params: Seq<ParamView>, name: Seq<char>) -> Seq<ParamView> {
    let added = ParamView {
        kind: ParamKind::Lifetime,
        bounded: false,
        name: lifetime(name),
        bare: lifetime(name),
        full: lifetime(name),
        comma: false,
    };
    let before = if params.len() == 0 {
        params
    } else {
        params.drop_last().push(ParamView { comma: true, ..params.last() })
    };
    before.push(added)
}

/// `syn::Generics`, a list of generic parameters.
#[verifier::external_type_specification]
#[verifier::external_body]
pub struct ExGenerics(syn::Generics);

/// The parameters that a list holds, in order.
pub uninterp spec fn generic_params(generics: syn::Generics) -> Seq<ParamView>;

/// What the logic reads of one generic parameter.
#[derive(Debug)]
pub struct GenericParam {
    pub kind: ParamKind,
    /// Whether it is declared with bounds.
    pub bounded: bool,
    /// Its bare name.
    pub name: TokenStream,
}

impl GenericParam {
    /// Whether this is the parameter of the list.
    pub open spec fn reads(self, param: ParamView) -> bool {
        &&& self.kind == param.kind
        &&& self.bounded == param.bounded
        &&& contents(self.name) == param.name
    }
}

/// The items of `syn::Generics::params`, each as what the logic reads of it.
#[verifier::external_body]
pub(crate) fn read_params(generics: &syn::Generics) -> (r: Vec<GenericParam>)
    ensures
        r@.len() == generic_params(*generics).len(),
        forall|i: int|
            0 <= i < r@.len() ==> (#[trigger] r@[i]).reads(generic_params(*generics)[i]),
{
    let read = |p: &syn::GenericParam| match p {
        syn::GenericParam::Lifetime(p) => GenericParam {
            kind: ParamKind::Lifetime, bounded: !p.bounds.is_empty(),
            name: (&p.lifetime).into_token_stream(),
        },
        syn::GenericParam::Type(p) => GenericParam {
            kind: ParamKind::Type, bounded: !p.bounds.is_empty(),
            name: (&p.ident).into_token_stream(),
        },
        syn::GenericParam::Const(p) => GenericParam {
            kind: ParamKind::Const, bounded: false, name: (&p.ident).into_token_stream(),
        },
    };
    generics.params.iter().map(read).collect()
}

/// `syn::punctuated::Punctuated::is_empty` of the list.
#[verifier::external_body]
pub(crate) fn has_no_params(generics: &syn::Generics) -> (r: bool)
    ensures
        r == (generic_params(*generics).len() == 0),
{
    generics.params.is_empty()
}

/// `syn::Generics::split_for_impl`: the list as it stands after `impl`, and as it stands
/// after the name of a type.
#[verifier::external_body]
pub(crate) fn split_for_impl(generics: &syn::Generics) -> (r: (TokenStream, TokenStream))
    ensures
        contents(r.0) == angled(generic_params(*generics), Form::Bare),
        contents(r.1) == angled(generic_params(*generics), Form::Name),
{
    let (for_impl, for_type, _) = generics.split_for_impl();
    (for_impl.into_token_stream(), for_type.into_token_stream())
}

/// `syn::TypeGenerics::as_turbofish`: the list as the generic arguments of a call.
#[verifier::external_body]
pub(crate) fn as_turbofish(generics: &syn::Generics) -> (r: TokenStream)
    ensures
        contents(r) == turbofish(generic_params(*generics)),
{
    generics.split_for_impl().1.as_turbofish().into_token_stream()
}

/// `quote::ToTokens` of `syn::Generics`: the whole list, without a `where` clause.
#[verifier::external_body]
pub(crate) fn declaration(generics: &syn::Generics) -> (r: TokenStream)
    ensures
        contents(r) == angled(generic_params(*generics), Form::Full),
{
    generics.into_token_stream()
}

/// `syn::punctuated::Punctuated::push` on the list, of a `syn::LifetimeDef::new`.
/// `syn::Lifetime::new` panics on a name that is not an apostrophe and an identifier.
#[verifier::external_body]
pub(crate) fn push_lifetime(generics: &mut syn::Generics, symbol: &str)
    requires
        symbol@.len() > 1,
        symbol@[0] == '\'',
        forall|i: int| 1 <= i < symbol@.len() ==> 'a' <= #[trigger] symbol@[i] <= 'z',
    ensures
        generic_params(*final(generics)) == with_lifetime(
            generic_params(*old(generics)),
            symbol@.skip(1),
        ),
{
    let added = syn::Lifetime::new(symbol, proc_macro2::Span::call_site());
    generics.params.push(syn::GenericParam::Lifetime(syn::LifetimeDef::new(added)))
}

/// `syn::Generics::clone`: a list with the same parameters.
#[verifier::external_body]
pub(crate) fn copy_params(generics: &syn::Generics) -> (r: syn::Generics)
    ensures
        generic_params(r) == generic_params(*generics),
{
    generics.clone()
}

/// A generic parameter list with its `where` clause.
#[derive(Debug)]
pub struct GenericList {
    pub params: syn::Generics,
    /// The `where` clause; no tokens where there is none.
    pub where_clause: TokenStream,
}

pub struct GenericListView {
    pub params: Seq<ParamView>,
    pub where_clause: Seq<Token>,
}

impl GenericListView {
    /// The list as it stands after `impl`.
    pub open spec fn for_impl(self) -> Seq<Token> {
        angled(self.params, Form::Bare)
    }

    /// The list as it stands after the name of a type.
    pub open spec fn for_type(self) -> Seq<Token> {
        angled(self.params, Form::Name)
    }
}

impl View for GenericList {
    type V = GenericListView;

    open spec fn view(&self) -> GenericListView {
        GenericListView {
            params: generic_params(self.params),
            where_clause: contents(self.where_clause),
        }
    }
}

impl GenericList {
    pub fn copy(&self) -> (r: Self)
        ensures
            r@ == self@,
    {
        GenericList { params: copy_params(&self.params), where_clause: copy(&self.where_clause) }
    }
}

} // verus!
