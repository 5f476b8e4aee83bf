//! Reading Rust syntax out of token streams.
//!
//! The grammar of Rust is that of the `syn` crate.  What `syn` makes of a sequence of
//! tokens is given a name here, and what mocking looks into is taken out of the parts that
//! `syn` hands over.

use crate::ast::{Arg, Attribute, Item, ItemMethod, Pattern, Signature, TraitItemType, Ty};
use crate::generics::GenericList;
use crate::readable::{check_header, check_readable};
use crate::tokens::{trees, Delimiter, Tree};
use proc_macro2::TokenStream;
use quote::ToTokens;
use syn::parse::{ParseStream, Parser};
use vstd::prelude::*;

verus! {

use crate::ast::{
    arg_views, attribute_views, ArgView, ItemMethodView, ItemTraitView, ItemView, PatternView,
    SignatureView, TyView,
};
use crate::generics::{generic_params, ParamView};
use crate::readable::{is_reserved, readable, readable_header};
use crate::tokens::{braces, contents, is_tree, nothing, punct, weight, word, Token};

/// `syn::Error`, what is wrong with a sequence of tokens.
#[verifier::external_type_specification]
#[verifier::external_body]
pub struct ExError(syn::Error);

/// The text that an error holds.
pub uninterp spec fn message(error: syn::Error) -> Seq<char>;

/// Why a description cannot be read.
#[derive(Debug)]
pub enum ParseError {
    /// The parser gives up on the tokens without an error.
    Unreadable,
    Syntax(syn::Error),
}

pub enum ParseErrorView {
    Unreadable,
    Syntax(Seq<char>),
}

impl View for ParseError {
    type V = ParseErrorView;

    open spec fn view(&self) -> ParseErrorView {
        match *self {
            ParseError::Unreadable => ParseErrorView::Unreadable,
            ParseError::Syntax(error) => ParseErrorView::Syntax(message(error)),
        }
    }
}

/// The text of an error at the start of some tokens.
pub open spec fn message_at(rest: Seq<Token>, text: Seq<char>) -> Seq<char> {
    if rest.len() == 0 {
        "unexpected end of input, "@ + text
    } else {
        text
    }
}

/// The tokens, without the group around the first ones where it has no delimiters.
pub open spec fn entered(tokens: Seq<Token>) -> Seq<Token> {
    if tokens.len() > 0 {
        match tokens[0] {
            Token::Group(Delimiter::Invisible, inner) => inner + tokens.drop_first(),
            _ => tokens,
        }
    } else {
        tokens
    }
}

/// What is read off the start of some tokens: the part that was read, the tokens that
/// follow it, and whether tokens were left over inside a group of that part.  The other
/// outcome is the text of an error.
pub type Prefix<T> = Result<(T, Seq<Token>, bool), Seq<char>>;

/// The same, where the parser is only asked for what it can read.
pub open spec fn guarded<T>(can_read: bool, outcome: Prefix<T>) -> Result<
    (T, Seq<Token>, bool),
    ParseErrorView,
> {
    if !can_read {
        Err(ParseErrorView::Unreadable)
    } else {
        match outcome {
            Ok(read) => Ok(read),
            Err(text) => Err(ParseErrorView::Syntax(text)),
        }
    }
}

/// The same, for a part that may be absent, given whether it is there.  Nothing is read
/// where it is not.
pub open spec fn optional<T>(
    there: bool,
    absent: T,
    tokens: Seq<Token>,
    outcome: Prefix<T>,
) -> Prefix<T> {
    if there {
        outcome
    } else {
        Ok((absent, tokens, false))
    }
}

/// Whether the error is about tokens that were left over.
pub open spec fn is_stray(error: Option<syn::Error>, stray: bool) -> bool {
    match error {
        Some(error) => stray && message(error) == "unexpected token"@,
        None => !stray,
    }
}

/// Whether some tokens start with the keyword of a visibility.
pub open spec fn opens_visibility(tokens: Seq<Token>) -> bool {
    let found = entered(tokens);
    found.len() > 0 && (found[0] == Token::Ident("pub"@) || found[0] == Token::Ident("crate"@))
}

/// Whether some tokens start with a `pub` that no group follows.
pub open spec fn opens_public(tokens: Seq<Token>) -> bool {
    let found = entered(tokens);
    &&& found.len() > 0 && found[0] == Token::Ident("pub"@)
    &&& found.len() > 1 ==> !(found[1] is Group)
}

/// What is read as a visibility, given what is read where a keyword and a group, or
/// `crate`, come first.
pub open spec fn visibility(tokens: Seq<Token>, outcome: Prefix<Seq<Token>>) -> Prefix<Seq<Token>> {
    if opens_public(tokens) {
        Ok((word("pub"@), entered(tokens).drop_first(), false))
    } else {
        optional(opens_visibility(tokens), nothing(), tokens, outcome)
    }
}

/// A visibility at the start of some tokens.
pub uninterp spec fn visibility_prefix(tokens: Seq<Token>) -> Prefix<Seq<Token>>;

/// `syn::Visibility::parse`: reads a visibility, which may be absent.  Nothing is read where
/// neither `pub` nor `crate` comes first, and a lone `pub` where no group follows it.
#[verifier::external_body]
pub(crate) fn parse_visibility(input: TokenStream) -> (r: Result<
    (TokenStream, TokenStream, Option<syn::Error>),
    syn::Error,
>)
    ensures
        match visibility(contents(input), visibility_prefix(contents(input))) {
            Ok((node, rest, stray)) => {
                &&& r is Ok
                &&& contents(r->Ok_0.0) == node
                &&& contents(r->Ok_0.1) == rest
                &&& is_stray(r->Ok_0.2, stray)
            },
            Err(text) => r is Err && message(r->Err_0) == text,
        },
{
    let mut found = None;
    let parse = |s: ParseStream| Ok(found = Some((s.parse::<syn::Visibility>()?, s.parse()?)));
    let checked = parse.parse2(input).err();
    match found {
        Some((node, rest)) => Ok((node.into_token_stream(), rest, checked)),
        None => Err(checked.unwrap()),
    }
}

/// An identifier at the start of some tokens, and what follows it.
pub open spec fn ident_prefix(tokens: Seq<Token>) -> Result<
    (Seq<Token>, Seq<Token>),
    Seq<char>,
> {
    let found = entered(tokens);
    if found.len() > 0 && found[0] is Ident && !is_reserved(found[0]->Ident_0) {
        Ok((found.take(1), found.drop_first()))
    } else {
        Err(message_at(tokens, "expected identifier"@))
    }
}

/// `syn::Ident::parse`: reads an identifier that is not reserved.
#[verifier::external_body]
pub(crate) fn parse_ident(input: TokenStream) -> (r: Result<
    (TokenStream, TokenStream),
    syn::Error,
>)
    ensures
        match ident_prefix(contents(input)) {
            Ok((ident, rest)) => {
                &&& r is Ok
                &&& contents(r->Ok_0.0) == ident
                &&& contents(r->Ok_0.1) == rest
            },
            Err(text) => r is Err && message(r->Err_0) == text,
        },
{
    let parse = |s: ParseStream| Ok((s.parse::<syn::Ident>()?.into_token_stream(), s.parse()?));
    parse.parse2(input)
}

/// Whether some tokens start with a generic parameter list.
pub open spec fn opens_generics(tokens: Seq<Token>) -> bool {
    let found = entered(tokens);
    found.len() > 0 && (found[0] matches Token::Punct(c, _) && c == '<')
}

/// Whether some tokens start with a `where` clause.
pub open spec fn opens_where_clause(tokens: Seq<Token>) -> bool {
    let found = entered(tokens);
    found.len() > 0 && found[0] == Token::Ident("where"@)
}

/// A generic parameter list at the start of some tokens.
pub uninterp spec fn generics_prefix(tokens: Seq<Token>) -> Prefix<Seq<ParamView>>;

/// `syn::Generics::parse`: reads a generic parameter list, which is absent where no `<` comes
/// first.  Where there is one, the parser can panic on a header that is not readable.
#[verifier::external_body]
pub(crate) fn parse_generics(input: TokenStream) -> (r: Result<
    (syn::Generics, TokenStream, Option<syn::Error>),
    syn::Error,
>)
    requires
        opens_generics(contents(input)) ==> readable_header(contents(input)),
    ensures
        match optional(
            opens_generics(contents(input)),
            Seq::empty(),
            contents(input),
            generics_prefix(contents(input)),
        ) {
            Ok((node, rest, stray)) => {
                &&& r is Ok
                &&& generic_params(r->Ok_0.0) == node
                &&& contents(r->Ok_0.1) == rest
                &&& is_stray(r->Ok_0.2, stray)
            },
            Err(text) => r is Err && message(r->Err_0) == text,
        },
{
    let mut found = None;
    let parse = |s: ParseStream| Ok(found = Some((s.parse::<syn::Generics>()?, s.parse()?)));
    let checked = parse.parse2(input).err();
    match found {
        Some((node, rest)) => Ok((node, rest, checked)),
        None => Err(checked.unwrap()),
    }
}

/// A `where` clause at the start of some tokens.
pub uninterp spec fn where_prefix(tokens: Seq<Token>) -> Prefix<Seq<Token>>;

/// `Option::<syn::WhereClause>::parse`: reads a `where` clause, which is absent where no
/// `where` comes first.  Where there is one, the parser can panic on a header that is not
/// readable.
#[verifier::external_body]
pub(crate) fn parse_where_clause(input: TokenStream) -> (r: Result<
    (TokenStream, TokenStream, Option<syn::Error>),
    syn::Error,
>)
    requires
        opens_where_clause(contents(input)) ==> readable_header(contents(input)),
    ensures
        match optional(
            opens_where_clause(contents(input)),
            nothing(),
            contents(input),
            where_prefix(contents(input)),
        ) {
            Ok((node, rest, stray)) => {
                &&& r is Ok
                &&& contents(r->Ok_0.0) == node
                &&& contents(r->Ok_0.1) == rest
                &&& is_stray(r->Ok_0.2, stray)
            },
            Err(text) => r is Err && message(r->Err_0) == text,
        },
{
    let mut found: Option<(Option<syn::WhereClause>, _)> = None;
    let parse = |s: ParseStream| Ok(found = Some((s.parse()?, s.parse()?)));
    let checked = parse.parse2(input).err();
    match found {
        Some((node, rest)) => Ok((node.into_token_stream(), rest, checked)),
        None => Err(checked.unwrap()),
    }
}

/// A group in braces at the start of some tokens: what is in it, and what follows it.
pub open spec fn braces_prefix(tokens: Seq<Token>) -> Result<(Seq<Token>, Seq<Token>), Seq<char>> {
    let found = entered(tokens);
    if found.len() > 0 && (found[0] matches Token::Group(Delimiter::Brace, _)) {
        Ok((found[0]->Group_1, found.drop_first()))
    } else {
        Err(message_at(tokens, "expected curly braces"@))
    }
}

/// `syn::group::parse_braces`, which is what `syn::braced` calls: reads a group in
/// braces.
#[verifier::external_body]
pub(crate) fn parse_braces(input: TokenStream) -> (r: Result<
    (TokenStream, TokenStream),
    syn::Error,
>)
    ensures
        match braces_prefix(contents(input)) {
            Ok((inner, rest)) => {
                &&& r is Ok
                &&& contents(r->Ok_0.0) == inner
                &&& contents(r->Ok_0.1) == rest
            },
            Err(text) => r is Err && message(r->Err_0) == text,
        },
{
    let parse = |s: ParseStream| Ok((syn::group::parse_braces(s)?.content.parse()?, s.parse()?));
    parse.parse2(input)
}

/// `syn::TraitItem`, an item of a trait.
#[verifier::external_type_specification]
#[verifier::external_body]
pub struct ExTraitItem(syn::TraitItem);

/// `syn::TraitItemMethod`, a method of a trait.
#[verifier::external_type_specification]
#[verifier::external_body]
pub struct ExTraitItemMethod(syn::TraitItemMethod);

/// `syn::FnArg`, a parameter of a method.
#[verifier::external_type_specification]
#[verifier::external_body]
pub struct ExFnArg(syn::FnArg);

/// `syn::Pat`, a pattern.
#[verifier::external_type_specification]
#[verifier::external_body]
pub struct ExPat(syn::Pat);

/// `syn::Type`, a type.
#[verifier::external_type_specification]
#[verifier::external_body]
pub struct ExType(syn::Type);

/// What an item of a trait holds that mocking looks into.
pub uninterp spec fn item_in(item: syn::TraitItem) -> ItemView;

/// What a method of a trait holds that mocking looks into; its default body is not.
pub uninterp spec fn method_in(method: syn::TraitItemMethod) -> ItemMethodView;

/// What a parameter of a method holds.
pub uninterp spec fn argument_in(arg: syn::FnArg) -> ArgView;

/// What a pattern holds that mocking looks into.
pub uninterp spec fn pattern_in(pat: syn::Pat) -> PatternView;

/// What a type holds that mocking looks into.
pub uninterp spec fn type_in(ty: syn::Type) -> TyView;

/// An item of a trait at the start of some tokens.
pub uninterp spec fn item_prefix(tokens: Seq<Token>) -> Prefix<ItemView>;

/// `syn::TraitItem::parse`: reads a constant, a method, a type or a macro of a trait.
/// Each of them takes up at least one token.  The parser can panic on tokens that are not
/// readable.
#[verifier::external_body]
pub(crate) fn parse_trait_item(input: TokenStream) -> (r: Result<
    (syn::TraitItem, TokenStream, Option<syn::Error>),
    syn::Error,
>)
    requires
        readable(contents(input)),
    ensures
        match item_prefix(contents(input)) {
            Ok((node, rest, stray)) => {
                &&& r is Ok
                &&& item_in(r->Ok_0.0) == node
                &&& contents(r->Ok_0.1) == rest
                &&& is_stray(r->Ok_0.2, stray)
                &&& weight(rest) < weight(contents(input))
            },
            Err(text) => r is Err && message(r->Err_0) == text,
        },
{
    let mut found = None;
    let parse = |s: ParseStream| Ok(found = Some((s.parse::<syn::TraitItem>()?, s.parse()?)));
    let checked = parse.parse2(input).err();
    match found {
        Some((node, rest)) => Ok((node, rest, checked)),
        None => Err(checked.unwrap()),
    }
}

/// A trait, with its items as they were read.
pub struct RawTrait {
    pub unsafety: TokenStream,
    pub ident: TokenStream,
    pub generics: GenericList,
    pub items: Vec<syn::TraitItem>,
}

impl View for RawTrait {
    type V = ItemTraitView;

    open spec fn view(&self) -> ItemTraitView {
        ItemTraitView {
            unsafety: contents(self.unsafety),
            ident: contents(self.ident),
            generics: self.generics@,
            items: Seq::new(self.items@.len(), |i: int| item_in(self.items@[i])),
        }
    }
}

/// A trait at the start of some tokens.
pub uninterp spec fn trait_prefix(tokens: Seq<Token>) -> Prefix<ItemTraitView>;

/// `syn::ItemTrait::parse`: reads a trait, which takes up at least one token.  The parser can
/// panic on tokens that are not readable.
#[verifier::external_body]
pub(crate) fn parse_item_trait(input: TokenStream) -> (r: Result<
    (RawTrait, TokenStream, Option<syn::Error>),
    syn::Error,
>)
    requires
        readable(contents(input)),
    ensures
        match trait_prefix(contents(input)) {
            Ok((node, rest, stray)) => {
                &&& r is Ok
                &&& r->Ok_0.0@ == node
                &&& contents(r->Ok_0.1) == rest
                &&& is_stray(r->Ok_0.2, stray)
                &&& weight(rest) < weight(contents(input))
            },
            Err(text) => r is Err && message(r->Err_0) == text,
        },
{
    let mut found = None;
    let parse = |s: ParseStream| Ok(found = Some((s.parse::<syn::ItemTrait>()?, s.parse()?)));
    let checked = parse.parse2(input).err();
    let (item, rest) = match found {
        Some(found) => found,
        None => return Err(checked.unwrap()),
    };
    let where_clause = (&item.generics.where_clause).into_token_stream();
    Ok((RawTrait {
        unsafety: item.unsafety.into_token_stream(), ident: item.ident.into_token_stream(),
        generics: GenericList { params: item.generics, where_clause }, items: item.items,
    }, rest, checked))
}

/// An item of a trait by its kind, with a method as it was read.
pub enum RawItem {
    Const,
    Method(syn::TraitItemMethod),
    Type(TraitItemType),
    Other,
}

impl View for RawItem {
    type V = ItemView;

    open spec fn view(&self) -> ItemView {
        match *self {
            RawItem::Const => ItemView::Const,
            RawItem::Method(method) => ItemView::Method(method_in(method)),
            RawItem::Type(ty) => ItemView::Type(ty@),
            RawItem::Other => ItemView::Other,
        }
    }
}

/// The variants of `syn::TraitItem`.
#[verifier::external_body]
pub(crate) fn open_item(item: syn::TraitItem) -> (r: RawItem)
    ensures
        r@ == item_in(item),
{
    match item {
        syn::TraitItem::Const(_) => RawItem::Const,
        syn::TraitItem::Method(item) => RawItem::Method(item),
        syn::TraitItem::Type(item) => RawItem::Type(TraitItemType {
            generic: !item.generics.params.is_empty(),
            concrete: item.default.is_some(),
            tokens: item.into_token_stream(),
        }),
        _ => RawItem::Other,
    }
}

/// The field `attrs` of `syn::TraitItemMethod`, each attribute with the names in its path.
#[verifier::external_body]
pub(crate) fn read_attributes(method: &syn::TraitItemMethod) -> (r: Vec<Attribute>)
    ensures
        attribute_views(r@) == method_in(*method).attrs,
{
    let segments = |path: &syn::Path| path.segments.iter().map(|s| s.ident.to_string()).collect();
    let read = |attr: &syn::Attribute| Attribute {
        path: segments(&attr.path), tokens: attr.into_token_stream(),
    };
    method.attrs.iter().map(read).collect()
}

/// The signature of a method, with its parameters and its result as they were read.
pub struct RawSignature {
    pub constness: TokenStream,
    pub unsafety: TokenStream,
    pub asyncness: TokenStream,
    pub abi: TokenStream,
    pub fn_token: TokenStream,
    pub ident: TokenStream,
    pub generics: GenericList,
    pub inputs: Vec<syn::FnArg>,
    pub trailing_comma: bool,
    pub variadic: bool,
    pub output: Option<syn::Type>,
}

impl View for RawSignature {
    type V = SignatureView;

    open spec fn view(&self) -> SignatureView {
        SignatureView {
            constness: contents(self.constness),
            unsafety: contents(self.unsafety),
            asyncness: contents(self.asyncness),
            abi: contents(self.abi),
            fn_token: contents(self.fn_token),
            ident: contents(self.ident),
            generics: self.generics@,
            inputs: Seq::new(self.inputs@.len(), |i: int| argument_in(self.inputs@[i])),
            trailing_comma: self.trailing_comma,
            variadic: self.variadic,
            output: match self.output {
                Some(ty) => Some(type_in(ty)),
                None => None,
            },
        }
    }
}

/// The field `sig` of `syn::TraitItemMethod`.
#[verifier::external_body]
pub(crate) fn read_signature(method: &syn::TraitItemMethod) -> (r: RawSignature)
    ensures
        r@ == method_in(*method).sig,
{
    let syn::MethodSig { constness, unsafety, asyncness, abi, ident, decl } = method.sig.clone();
    let where_clause = (&decl.generics.where_clause).into_token_stream();
    let (trailing_comma, variadic) = (decl.inputs.trailing_punct(), decl.variadic.is_some());
    let output = match decl.output {
        syn::ReturnType::Default => None,
        syn::ReturnType::Type(_, ty) => Some(*ty),
    };
    RawSignature {
        constness: constness.into_token_stream(), unsafety: unsafety.into_token_stream(),
        asyncness: asyncness.into_token_stream(), abi: abi.into_token_stream(),
        fn_token: decl.fn_token.into_token_stream(), ident: ident.into_token_stream(),
        generics: GenericList { params: decl.generics, where_clause },
        inputs: decl.inputs.into_iter().collect(), trailing_comma, variadic, output,
    }
}

/// A parameter of a method, with its pattern and its type as they were read.
pub enum RawArg {
    SelfRef(TokenStream),
    SelfValue { mutability: TokenStream, self_token: TokenStream },
    Captured { pat: syn::Pat, ty: syn::Type },
    Other(TokenStream),
}

impl View for RawArg {
    type V = ArgView;

    open spec fn view(&self) -> ArgView {
        match *self {
            RawArg::SelfRef(tokens) => ArgView::SelfRef(contents(tokens)),
            RawArg::SelfValue { mutability, self_token } => ArgView::SelfValue {
                mutability: contents(mutability),
                self_token: contents(self_token),
            },
            RawArg::Captured { pat, ty } => ArgView::Captured {
                pat: pattern_in(pat),
                ty: type_in(ty),
            },
            RawArg::Other(tokens) => ArgView::Other(contents(tokens)),
        }
    }
}

/// The variants of `syn::FnArg`.
#[verifier::external_body]
pub(crate) fn open_argument(arg: syn::FnArg) -> (r: RawArg)
    ensures
        r@ == argument_in(arg),
{
    match arg {
        syn::FnArg::SelfRef(arg) => RawArg::SelfRef(arg.into_token_stream()),
        syn::FnArg::SelfValue(arg) => RawArg::SelfValue {
            mutability: arg.mutability.into_token_stream(),
            self_token: arg.self_token.into_token_stream(),
        },
        syn::FnArg::Captured(arg) => RawArg::Captured { pat: arg.pat, ty: arg.ty },
        syn::FnArg::Inferred(arg) => RawArg::Other(arg.into_token_stream()),
        syn::FnArg::Ignored(arg) => RawArg::Other(arg.into_token_stream()),
    }
}

/// The variants of `syn::Pat`: a binding by its parts, all else as it is written.
#[verifier::external_body]
pub(crate) fn read_pattern(pat: syn::Pat) -> (r: Pattern)
    ensures
        r@ == pattern_in(pat),
{
    match pat {
        syn::Pat::Ident(pat) => Pattern::Binding {
            by_ref: pat.by_ref.into_token_stream(),
            mutability: pat.mutability.into_token_stream(),
            name: pat.ident.into_token_stream(),
            subpattern: pat.subpat.map(|sub| sub.1.into_token_stream()),
        },
        other => Pattern::Other(other.into_token_stream()),
    }
}

/// The variants of `syn::Type`: a reference and an `impl` type by their parts, all else as
/// it is written.
#[verifier::external_body]
pub(crate) fn read_type(ty: syn::Type) -> (r: Ty)
    ensures
        r@ == type_in(ty),
{
    match ty {
        syn::Type::Reference(ty) => Ty::Reference {
            lifetime: ty.lifetime.into_token_stream(),
            mutability: ty.mutability.into_token_stream(),
            elem: ty.elem.into_token_stream(),
        },
        syn::Type::ImplTrait(ty) => Ty::ImplTrait {
            impl_token: ty.impl_token.into_token_stream(),
            bounds: ty.bounds.into_token_stream(),
        },
        other => Ty::Other(other.into_token_stream()),
    }
}

/// `syn::parse::ParseBuffer::error`: an error at the start of the tokens.
#[verifier::external_body]
pub(crate) fn error_at(rest: &TokenStream, text: &str) -> (r: syn::Error)
    ensures
        message(r) == message_at(contents(*rest), text@),
{
    let mut found = None;
    let _ = (|s: ParseStream| Ok(found = Some(s.error(text)))).parse2(rest.clone());
    found.unwrap()
}

/// Whether a string literal holds the text as it stands, without escapes.
pub open spec fn is_printable(text: Seq<char>) -> bool {
    forall|i: int|
        0 <= i < text.len() ==> {
            &&& ' ' <= #[trigger] text[i] <= '~'
            &&& text[i] != '"' && text[i] != '\\' && text[i] != '\''
        }
}

/// Whether some tokens are an invocation of `compile_error!` on a literal, and on the text
/// in quotes where that needs no escapes.
pub open spec fn reports(tokens: Seq<Token>, text: Seq<char>) -> bool {
    &&& exists|literal: Seq<char>| tokens == #[trigger] error_call(literal)
    &&& is_printable(text) ==> tokens == error_call(seq!['"'] + text + seq!['"'])
}

/// `syn::Error::to_compile_error`: an invocation of `compile_error!` on the text of the
/// error, as `proc_macro2::Literal::string` writes it.  Which characters are escaped, among
/// those that are not plain printable ones, differs inside a compiler and is left unsaid.
#[verifier::external_body]
pub(crate) fn to_compile_error(error: &syn::Error) -> (r: TokenStream)
    ensures
        reports(contents(r), message(*error)),
{
    error.to_compile_error()
}

/// An invocation of `compile_error!` on a literal.
pub open spec fn error_call(literal: Seq<char>) -> Seq<Token> {
    word("compile_error"@) + punct('!') + braces(seq![Token::Literal(literal)])
}

fn read_arg(arg: syn::FnArg) -> (r: Arg)
    ensures
        r@ == argument_in(arg),
{
    match open_argument(arg) {
        RawArg::SelfRef(tokens) => Arg::SelfRef(tokens),
        RawArg::SelfValue { mutability, self_token } => Arg::SelfValue { mutability, self_token },
        RawArg::Captured { pat, ty } => Arg::Captured { pat: read_pattern(pat), ty: read_type(ty) },
        RawArg::Other(tokens) => Arg::Other(tokens),
    }
}

/// Takes the parameters and the result of a signature apart.
fn read_parts(raw: RawSignature) -> (r: Signature)
    ensures
        r@ == raw@,
{
    let ghost all = raw@.inputs;
    let mut left = raw.inputs;
    let ghost given = left@;
    let mut inputs: Vec<Arg> = Vec::new();
    while left.len() > 0
        invariant
            all.len() == given.len() == inputs@.len() + left@.len(),
            forall|j: int| 0 <= j < given.len() ==> #[trigger] all[j] == argument_in(given[j]),
            left@ == given.skip(inputs@.len() as int),
            forall|j: int| 0 <= j < inputs@.len() ==> (#[trigger] inputs@[j])@ == all[j],
        decreases left.len(),
    {
        let ghost n = inputs@.len() as int;
        let arg = left.remove(0);
        assert(arg == given[n] && all[n] == argument_in(given[n]));
        inputs.push(read_arg(arg));
        assert(left@ =~= given.skip(n + 1));
    }
    assert(arg_views(inputs@) =~= all);
    let output = match raw.output {
        Some(ty) => Some(read_type(ty)),
        None => None,
    };
    Signature {
        constness: raw.constness,
        unsafety: raw.unsafety,
        asyncness: raw.asyncness,
        abi: raw.abi,
        fn_token: raw.fn_token,
        ident: raw.ident,
        generics: raw.generics,
        inputs,
        trailing_comma: raw.trailing_comma,
        variadic: raw.variadic,
        output,
    }
}

/// Takes out of an item of a trait what mocking looks into.
pub fn read_item(item: syn::TraitItem) -> (r: Item)
    ensures
        r@ == item_in(item),
{
    match open_item(item) {
        RawItem::Const => Item::Const,
        RawItem::Method(method) => Item::Method(
            ItemMethod {
                attrs: read_attributes(&method),
                sig: read_parts(read_signature(&method)),
            },
        ),
        RawItem::Type(ty) => Item::Type(ty),
        RawItem::Other => Item::Other,
    }
}

/// A visibility, which may be absent, at the start of some tokens.
pub open spec fn visibility_at(tokens: Seq<Token>) -> Prefix<Seq<Token>> {
    visibility(tokens, visibility_prefix(tokens))
}

/// A generic parameter list, which may be absent, at the start of some tokens.
pub open spec fn generics_at(tokens: Seq<Token>) -> Result<
    (Seq<ParamView>, Seq<Token>, bool),
    ParseErrorView,
> {
    let there = opens_generics(tokens);
    guarded(
        there ==> readable_header(tokens),
        optional(there, Seq::empty(), tokens, generics_prefix(tokens)),
    )
}

/// A `where` clause, which may be absent, at the start of some tokens.
pub open spec fn where_clause_at(tokens: Seq<Token>) -> Result<
    (Seq<Token>, Seq<Token>, bool),
    ParseErrorView,
> {
    let there = opens_where_clause(tokens);
    guarded(
        there ==> readable_header(tokens),
        optional(there, nothing(), tokens, where_prefix(tokens)),
    )
}

/// An item of a trait, at the start of some tokens.
pub open spec fn item_at(tokens: Seq<Token>) -> Result<
    (ItemView, Seq<Token>, bool),
    ParseErrorView,
> {
    guarded(readable(tokens), item_prefix(tokens))
}

/// A trait, at the start of some tokens.
pub open spec fn trait_at(tokens: Seq<Token>) -> Result<
    (ItemTraitView, Seq<Token>, bool),
    ParseErrorView,
> {
    guarded(readable(tokens), trait_prefix(tokens))
}

/// The first token of a stream, behind the start of a group without delimiters.
fn first_tree(stream: &TokenStream) -> (r: Option<Tree>)
    ensures
        match r {
            Some(tree) => entered(contents(*stream)).len() > 0 && is_tree(
                tree,
                entered(contents(*stream))[0],
            ),
            None => entered(contents(*stream)).len() == 0,
        },
{
    let ghost tokens = contents(*stream);
    let mut outer = trees(stream);
    if outer.len() == 0 {
        return None;
    }
    assert(is_tree(outer@[0], tokens[0]));
    if let Tree::Group(Delimiter::Invisible, group) = &outer[0] {
        let mut inner = trees(group);
        if inner.len() > 0 {
            assert(is_tree(inner@[0], contents(*group)[0]));
            return Some(inner.remove(0));
        }
        if outer.len() == 1 {
            return None;
        }
        assert(is_tree(outer@[1], tokens[1]));
        return Some(outer.remove(1));
    }
    Some(outer.remove(0))
}

/// Whether a generic parameter list comes first.
fn generics_ahead(stream: &TokenStream) -> (r: bool)
    ensures
        r == opens_generics(contents(*stream)),
{
    match first_tree(stream) {
        Some(Tree::Punct(c, _)) => c == '<',
        _ => false,
    }
}

/// Whether a `where` clause comes first.
fn where_clause_ahead(stream: &TokenStream) -> (r: bool)
    ensures
        r == opens_where_clause(contents(*stream)),
{
    match first_tree(stream) {
        Some(Tree::Ident(text)) => text == "where".to_owned(),
        _ => false,
    }
}

/// Reads a generic parameter list, which may be absent.
pub(crate) fn next_generics(input: TokenStream) -> (r: Result<
    (syn::Generics, TokenStream, Option<syn::Error>),
    ParseError,
>)
    ensures
        match generics_at(contents(input)) {
            Ok((node, rest, stray)) => {
                &&& r is Ok
                &&& generic_params(r->Ok_0.0) == node
                &&& contents(r->Ok_0.1) == rest
                &&& is_stray(r->Ok_0.2, stray)
            },
            Err(error) => r is Err && r->Err_0@ == error,
        },
{
    if generics_ahead(&input) && !check_header(&input) {
        return Err(ParseError::Unreadable);
    }
    match parse_generics(input) {
        Ok(read) => Ok(read),
        Err(error) => Err(ParseError::Syntax(error)),
    }
}

/// Reads a `where` clause, which may be absent.
pub(crate) fn next_where_clause(input: TokenStream) -> (r: Result<
    (TokenStream, TokenStream, Option<syn::Error>),
    ParseError,
>)
    ensures
        match where_clause_at(contents(input)) {
            Ok((node, rest, stray)) => {
                &&& r is Ok
                &&& contents(r->Ok_0.0) == node
                &&& contents(r->Ok_0.1) == rest
                &&& is_stray(r->Ok_0.2, stray)
            },
            Err(error) => r is Err && r->Err_0@ == error,
        },
{
    if where_clause_ahead(&input) && !check_header(&input) {
        return Err(ParseError::Unreadable);
    }
    match parse_where_clause(input) {
        Ok(read) => Ok(read),
        Err(error) => Err(ParseError::Syntax(error)),
    }
}

/// Reads an item of a trait.
pub(crate) fn next_item(input: TokenStream) -> (r: Result<
    (syn::TraitItem, TokenStream, Option<syn::Error>),
    ParseError,
>)
    ensures
        match item_at(contents(input)) {
            Ok((node, rest, stray)) => {
                &&& r is Ok
                &&& item_in(r->Ok_0.0) == node
                &&& contents(r->Ok_0.1) == rest
                &&& is_stray(r->Ok_0.2, stray)
                &&& weight(rest) < weight(contents(input))
            },
            Err(error) => r is Err && r->Err_0@ == error,
        },
{
    if !check_readable(&input) {
        return Err(ParseError::Unreadable);
    }
    match parse_trait_item(input) {
        Ok(read) => Ok(read),
        Err(error) => Err(ParseError::Syntax(error)),
    }
}

/// Reads a trait.
pub(crate) fn next_trait(input: TokenStream) -> (r: Result<
    (RawTrait, TokenStream, Option<syn::Error>),
    ParseError,
>)
    ensures
        match trait_at(contents(input)) {
            Ok((node, rest, stray)) => {
                &&& r is Ok
                &&& r->Ok_0.0@ == node
                &&& contents(r->Ok_0.1) == rest
                &&& is_stray(r->Ok_0.2, stray)
                &&& weight(rest) < weight(contents(input))
            },
            Err(error) => r is Err && r->Err_0@ == error,
        },
{
    if !check_readable(&input) {
        return Err(ParseError::Unreadable);
    }
    match parse_item_trait(input) {
        Ok(read) => Ok(read),
        Err(error) => Err(ParseError::Syntax(error)),
    }
}

} // verus!
