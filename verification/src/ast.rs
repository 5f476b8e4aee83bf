//! The parts of a mock description, as plain values over token streams.

use crate::generics::{GenericList, GenericListView};
use crate::tokens::{copy, put, put_punct, stream};
use proc_macro2::TokenStream;
use vstd::prelude::*;

verus! {

use crate::tokens::{contents, lemma_punctuation, punct, Token};

pub open spec fn texts(strings: Seq<String>) -> Seq<Seq<char>> {
    Seq::new(strings.len(), |i: int| strings[i]@)
}

/// An attribute: the segments of its path, and all its tokens.
#[derive(Debug)]
pub struct Attribute {
    pub path: Vec<String>,
    pub tokens: TokenStream,
}

pub struct AttributeView {
    pub path: Seq<Seq<char>>,
    pub tokens: Seq<Token>,
}

impl View for Attribute {
    type V = AttributeView;

    open spec fn view(&self) -> AttributeView {
        AttributeView { path: texts(self.path@), tokens: contents(self.tokens) }
    }
}

pub open spec fn attribute_views(attrs: Seq<Attribute>) -> Seq<AttributeView> {
    Seq::new(attrs.len(), |i: int| attrs[i]@)
}

/// A pattern that binds an argument.
#[derive(Debug)]
pub enum Pattern {
    /// `ref mut name @ subpattern`, with all but the name optional.
    Binding {
        by_ref: TokenStream,
        mutability: TokenStream,
        name: TokenStream,
        subpattern: Option<TokenStream>,
    },
    Other(TokenStream),
}

pub enum PatternView {
    Binding {
        by_ref: Seq<Token>,
        mutability: Seq<Token>,
        name: Seq<Token>,
        subpattern: Option<Seq<Token>>,
    },
    Other(Seq<Token>),
}

pub open spec fn optional(tokens: Option<TokenStream>) -> Option<Seq<Token>> {
    match tokens {
        Some(tokens) => Some(contents(tokens)),
        None => None,
    }
}

impl View for Pattern {
    type V = PatternView;

    open spec fn view(&self) -> PatternView {
        match *self {
            Pattern::Binding { by_ref, mutability, name, subpattern } => PatternView::Binding {
                by_ref: contents(by_ref),
                mutability: contents(mutability),
                name: contents(name),
                subpattern: optional(subpattern),
            },
            Pattern::Other(tokens) => PatternView::Other(contents(tokens)),
        }
    }
}

impl PatternView {
    /// The pattern as it is written.
    pub open spec fn written(self) -> Seq<Token> {
        match self {
            PatternView::Binding { by_ref, mutability, name, subpattern } => {
                let binding = by_ref + mutability + name;
                match subpattern {
                    Some(subpattern) => binding + punct('@') + subpattern,
                    None => binding,
                }
            },
            PatternView::Other(tokens) => tokens,
        }
    }
}

/// A type, taken apart as far as mocking looks into it.
#[derive(Debug)]
pub enum Ty {
    /// `&'lifetime mut elem`
    Reference { lifetime: TokenStream, mutability: TokenStream, elem: TokenStream },
    /// `impl bounds`
    ImplTrait { impl_token: TokenStream, bounds: TokenStream },
    Other(TokenStream),
}

pub enum TyView {
    Reference { lifetime: Seq<Token>, mutability: Seq<Token>, elem: Seq<Token> },
    ImplTrait { impl_token: Seq<Token>, bounds: Seq<Token> },
    Other(Seq<Token>),
}

impl View for Ty {
    type V = TyView;

    open spec fn view(&self) -> TyView {
        match *self {
            Ty::Reference { lifetime, mutability, elem } => TyView::Reference {
                lifetime: contents(lifetime),
                mutability: contents(mutability),
                elem: contents(elem),
            },
            Ty::ImplTrait { impl_token, bounds } => TyView::ImplTrait {
                impl_token: contents(impl_token),
                bounds: contents(bounds),
            },
            Ty::Other(tokens) => TyView::Other(contents(tokens)),
        }
    }
}

impl TyView {
    /// The type as it is written.
    pub open spec fn written(self) -> Seq<Token> {
        match self {
            TyView::Reference { lifetime, mutability, elem } => punct('&') + lifetime + mutability
                + elem,
            TyView::ImplTrait { impl_token, bounds } => impl_token + bounds,
            TyView::Other(tokens) => tokens,
        }
    }
}

/// A parameter of a method.
#[derive(Debug)]
pub enum Arg {
    /// `&self` or `&mut self`, with or without a lifetime.
    SelfRef(TokenStream),
    /// `self` or `mut self`.
    SelfValue { mutability: TokenStream, self_token: TokenStream },
    /// `pattern: type`
    Captured { pat: Pattern, ty: Ty },
    /// A pattern or a type alone.
    Other(TokenStream),
}

pub enum ArgView {
    SelfRef(Seq<Token>),
    SelfValue { mutability: Seq<Token>, self_token: Seq<Token> },
    Captured { pat: PatternView, ty: TyView },
    Other(Seq<Token>),
}

impl View for Arg {
    type V = ArgView;

    open spec fn view(&self) -> ArgView {
        match *self {
            Arg::SelfRef(tokens) => ArgView::SelfRef(contents(tokens)),
            Arg::SelfValue { mutability, self_token } => ArgView::SelfValue {
                mutability: contents(mutability),
                self_token: contents(self_token),
            },
            Arg::Captured { pat, ty } => ArgView::Captured { pat: pat@, ty: ty@ },
            Arg::Other(tokens) => ArgView::Other(contents(tokens)),
        }
    }
}

impl ArgView {
    /// The parameter as it is written.
    pub open spec fn written(self) -> Seq<Token> {
        match self {
            ArgView::SelfRef(tokens) => tokens,
            ArgView::SelfValue { mutability, self_token } => mutability + self_token,
            ArgView::Captured { pat, ty } => pat.written() + punct(':') + ty.written(),
            ArgView::Other(tokens) => tokens,
        }
    }
}

pub open spec fn arg_views(args: Seq<Arg>) -> Seq<ArgView> {
    Seq::new(args.len(), |i: int| args[i]@)
}

/// The signature of a method.
#[derive(Debug)]
pub struct Signature {
    pub constness: TokenStream,
    pub unsafety: TokenStream,
    pub asyncness: TokenStream,
    pub abi: TokenStream,
    pub fn_token: TokenStream,
    pub ident: TokenStream,
    pub generics: GenericList,
    pub inputs: Vec<Arg>,
    /// Whether a comma follows the last parameter.
    pub trailing_comma: bool,
    /// Whether the parameters end in `...`.
    pub variadic: bool,
    /// The type after `->`.
    pub output: Option<Ty>,
}

pub struct SignatureView {
    pub constness: Seq<Token>,
    pub unsafety: Seq<Token>,
    pub asyncness: Seq<Token>,
    pub abi: Seq<Token>,
    pub fn_token: Seq<Token>,
    pub ident: Seq<Token>,
    pub generics: GenericListView,
    pub inputs: Seq<ArgView>,
    pub trailing_comma: bool,
    pub variadic: bool,
    pub output: Option<TyView>,
}

pub open spec fn output_view(output: Option<Ty>) -> Option<TyView> {
    match output {
        Some(ty) => Some(ty@),
        None => None,
    }
}

impl View for Signature {
    type V = SignatureView;

    open spec fn view(&self) -> SignatureView {
        SignatureView {
            constness: contents(self.constness),
            unsafety: contents(self.unsafety),
            asyncness: contents(self.asyncness),
            abi: contents(self.abi),
            fn_token: contents(self.fn_token),
            ident: contents(self.ident),
            generics: self.generics@,
            inputs: arg_views(self.inputs@),
            trailing_comma: self.trailing_comma,
            variadic: self.variadic,
            output: output_view(self.output),
        }
    }
}

/// A method as a trait declares it.
#[derive(Debug)]
pub struct ItemMethod {
    pub attrs: Vec<Attribute>,
    pub sig: Signature,
}

pub struct ItemMethodView {
    pub attrs: Seq<AttributeView>,
    pub sig: SignatureView,
}

impl View for ItemMethod {
    type V = ItemMethodView;

    open spec fn view(&self) -> ItemMethodView {
        ItemMethodView { attrs: attribute_views(self.attrs@), sig: self.sig@ }
    }
}

/// A method as an `impl` block declares it.
#[derive(Debug)]
pub struct ImplItemMethod {
    pub attrs: Vec<Attribute>,
    pub vis: TokenStream,
    pub defaultness: TokenStream,
    pub sig: Signature,
    pub block: TokenStream,
}

pub struct ImplItemMethodView {
    pub attrs: Seq<AttributeView>,
    pub vis: Seq<Token>,
    pub defaultness: Seq<Token>,
    pub sig: SignatureView,
    pub block: Seq<Token>,
}

impl View for ImplItemMethod {
    type V = ImplItemMethodView;

    open spec fn view(&self) -> ImplItemMethodView {
        ImplItemMethodView {
            attrs: attribute_views(self.attrs@),
            vis: contents(self.vis),
            defaultness: contents(self.defaultness),
            sig: self.sig@,
            block: contents(self.block),
        }
    }
}

pub open spec fn method_views(methods: Seq<ImplItemMethod>) -> Seq<ImplItemMethodView> {
    Seq::new(methods.len(), |i: int| methods[i]@)
}

/// An associated type of a trait.
#[derive(Debug)]
pub struct TraitItemType {
    /// All its tokens.
    pub tokens: TokenStream,
    /// Whether it has generic parameters.
    pub generic: bool,
    /// Whether a type is given for it.
    pub concrete: bool,
}

pub struct TraitItemTypeView {
    pub tokens: Seq<Token>,
    pub generic: bool,
    pub concrete: bool,
}

impl View for TraitItemType {
    type V = TraitItemTypeView;

    open spec fn view(&self) -> TraitItemTypeView {
        TraitItemTypeView {
            tokens: contents(self.tokens),
            generic: self.generic,
            concrete: self.concrete,
        }
    }
}

/// An item of a trait.
#[derive(Debug)]
pub enum Item {
    Const,
    Method(ItemMethod),
    Type(TraitItemType),
    Other,
}

pub enum ItemView {
    Const,
    Method(ItemMethodView),
    Type(TraitItemTypeView),
    Other,
}

impl View for Item {
    type V = ItemView;

    open spec fn view(&self) -> ItemView {
        match *self {
            Item::Const => ItemView::Const,
            Item::Method(method) => ItemView::Method(method@),
            Item::Type(ty) => ItemView::Type(ty@),
            Item::Other => ItemView::Other,
        }
    }
}

pub open spec fn item_views(items: Seq<Item>) -> Seq<ItemView> {
    Seq::new(items.len(), |i: int| items[i]@)
}

/// A trait whose implementation is mocked.
#[derive(Debug)]
pub struct ItemTrait {
    pub unsafety: TokenStream,
    pub ident: TokenStream,
    pub generics: GenericList,
    pub items: Vec<Item>,
}

pub struct ItemTraitView {
    pub unsafety: Seq<Token>,
    pub ident: Seq<Token>,
    pub generics: GenericListView,
    pub items: Seq<ItemView>,
}

impl View for ItemTrait {
    type V = ItemTraitView;

    open spec fn view(&self) -> ItemTraitView {
        ItemTraitView {
            unsafety: contents(self.unsafety),
            ident: contents(self.ident),
            generics: self.generics@,
            items: item_views(self.items@),
        }
    }
}

pub open spec fn trait_views(traits: Seq<ItemTrait>) -> Seq<ItemTraitView> {
    Seq::new(traits.len(), |i: int| traits[i]@)
}

impl Attribute {
    pub fn copy(&self) -> (r: Self)
        ensures
            r@ == self@,
    {
        let mut path: Vec<String> = Vec::new();
        let mut i: usize = 0;
        while i < self.path.len()
            invariant
                i <= self.path.len(),
                path@.len() == i,
                forall|j: int| 0 <= j < i ==> (#[trigger] path@[j])@ == self.path@[j]@,
            decreases self.path.len() - i,
        {
            path.push(self.path[i].clone());
            i += 1;
        }
        assert(texts(path@) =~= texts(self.path@));
        Attribute { path, tokens: copy(&self.tokens) }
    }
}

pub fn copy_attributes(attrs: &Vec<Attribute>) -> (r: Vec<Attribute>)
    ensures
        attribute_views(r@) == attribute_views(attrs@),
{
    let mut r: Vec<Attribute> = Vec::new();
    let mut i: usize = 0;
    while i < attrs.len()
        invariant
            i <= attrs.len(),
            r@.len() == i,
            forall|j: int| 0 <= j < i ==> (#[trigger] r@[j])@ == attrs@[j]@,
        decreases attrs.len() - i,
    {
        r.push(attrs[i].copy());
        i += 1;
    }
    assert(attribute_views(r@) =~= attribute_views(attrs@));
    r
}

fn copy_optional(tokens: &Option<TokenStream>) -> (r: Option<TokenStream>)
    ensures
        optional(r) == optional(*tokens),
{
    match tokens {
        Some(tokens) => Some(copy(tokens)),
        None => None,
    }
}

impl Pattern {
    pub fn copy(&self) -> (r: Self)
        ensures
            r@ == self@,
    {
        match self {
            Pattern::Binding { by_ref, mutability, name, subpattern } => Pattern::Binding {
                by_ref: copy(by_ref),
                mutability: copy(mutability),
                name: copy(name),
                subpattern: copy_optional(subpattern),
            },
            Pattern::Other(tokens) => Pattern::Other(copy(tokens)),
        }
    }

    /// The pattern as it is written.
    pub fn to_tokens(&self) -> (r: TokenStream)
        ensures
            contents(r) == self@.written(),
    {
        proof {
            lemma_punctuation();
        }
        match self {
            Pattern::Binding { by_ref, mutability, name, subpattern } => {
                let mut out = copy(by_ref);
                put(&mut out, mutability);
                put(&mut out, name);
                if let Some(subpattern) = subpattern {
                    put_punct(&mut out, '@');
                    put(&mut out, subpattern);
                }
                out
            },
            Pattern::Other(tokens) => copy(tokens),
        }
    }
}

impl Ty {
    pub fn copy(&self) -> (r: Self)
        ensures
            r@ == self@,
    {
        match self {
            Ty::Reference { lifetime, mutability, elem } => Ty::Reference {
                lifetime: copy(lifetime),
                mutability: copy(mutability),
                elem: copy(elem),
            },
            Ty::ImplTrait { impl_token, bounds } => Ty::ImplTrait {
                impl_token: copy(impl_token),
                bounds: copy(bounds),
            },
            Ty::Other(tokens) => Ty::Other(copy(tokens)),
        }
    }

    /// The type as it is written.
    pub fn to_tokens(&self) -> (r: TokenStream)
        ensures
            contents(r) == self@.written(),
    {
        proof {
            lemma_punctuation();
        }
        match self {
            Ty::Reference { lifetime, mutability, elem } => {
                let mut out = stream();
                put_punct(&mut out, '&');
                assert(contents(out) =~= punct('&'));
                put(&mut out, lifetime);
                put(&mut out, mutability);
                put(&mut out, elem);
                out
            },
            Ty::ImplTrait { impl_token, bounds } => {
                let mut out = copy(impl_token);
                put(&mut out, bounds);
                out
            },
            Ty::Other(tokens) => copy(tokens),
        }
    }
}

impl Arg {
    pub fn copy(&self) -> (r: Self)
        ensures
            r@ == self@,
    {
        match self {
            Arg::SelfRef(tokens) => Arg::SelfRef(copy(tokens)),
            Arg::SelfValue { mutability, self_token } => Arg::SelfValue {
                mutability: copy(mutability),
                self_token: copy(self_token),
            },
            Arg::Captured { pat, ty } => Arg::Captured { pat: pat.copy(), ty: ty.copy() },
            Arg::Other(tokens) => Arg::Other(copy(tokens)),
        }
    }

    /// The parameter as it is written.
    pub fn to_tokens(&self) -> (r: TokenStream)
        ensures
            contents(r) == self@.written(),
    {
        proof {
            lemma_punctuation();
        }
        match self {
            Arg::SelfRef(tokens) => copy(tokens),
            Arg::SelfValue { mutability, self_token } => {
                let mut out = copy(mutability);
                put(&mut out, self_token);
                out
            },
            Arg::Captured { pat, ty } => {
                let mut out = pat.to_tokens();
                put_punct(&mut out, ':');
                put(&mut out, &ty.to_tokens());
                out
            },
            Arg::Other(tokens) => copy(tokens),
        }
    }
}

impl Signature {
    pub fn copy(&self) -> (r: Self)
        ensures
            r@ == self@,
    {
        let mut inputs: Vec<Arg> = Vec::new();
        let mut i: usize = 0;
        while i < self.inputs.len()
            invariant
                i <= self.inputs.len(),
                inputs@.len() == i,
                forall|j: int| 0 <= j < i ==> (#[trigger] inputs@[j])@ == self.inputs@[j]@,
            decreases self.inputs.len() - i,
        {
            inputs.push(self.inputs[i].copy());
            i += 1;
        }
        assert(arg_views(inputs@) =~= arg_views(self.inputs@));
        Signature {
            constness: copy(&self.constness),
            unsafety: copy(&self.unsafety),
            asyncness: copy(&self.asyncness),
            abi: copy(&self.abi),
            fn_token: copy(&self.fn_token),
            ident: copy(&self.ident),
            generics: self.generics.copy(),
            inputs,
            trailing_comma: self.trailing_comma,
            variadic: self.variadic,
            output: match &self.output {
                Some(ty) => Some(ty.copy()),
                None => None,
            },
        }
    }
}

} // verus!
