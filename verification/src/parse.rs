//! Reading the description of a mock.
//!
//! A description is the visibility, the name and the generic parameters of a structure,
//! its methods in braces, and the traits that it implements.

use crate::ast::{ImplItemMethod, Item, ItemTrait};
use crate::generics::GenericList;
use crate::mock::{tim2iim, Mock};
use crate::syntax::{
    error_at, next_generics, next_item, next_trait, next_where_clause, parse_braces, parse_ident,
    parse_visibility, read_item, ParseError, RawTrait,
};
use crate::tokens::is_empty;
use proc_macro2::TokenStream;
use vstd::prelude::*;

verus! {

use crate::ast::{
    item_views, method_views, trait_views, ImplItemMethodView, ItemTraitView, ItemView,
};
use crate::generics::GenericListView;
use crate::mock::{as_impl_method, MockView};
use crate::syntax::{
    braces_prefix, generics_at, ident_prefix, is_stray, item_at, item_in, message, message_at,
    trait_at, visibility_at, where_clause_at, ParseErrorView,
};
use crate::tokens::{braces, contents, nothing, weight, word, Token};

/// A structure's own item: only a method can be one.  The error is at the tokens that
/// follow the braces.
pub open spec fn own_method(item: ItemView, rest: Seq<Token>) -> Result<
    ImplItemMethodView,
    Seq<char>,
> {
    match item {
        ItemView::Method(method) => Ok(as_impl_method(method)),
        _ => Err(message_at(rest, "Unsupported in this context"@)),
    }
}

/// Takes an item as a method of the structure itself.
pub fn inherent_method(item: &Item, rest: &TokenStream) -> (r: Result<
    ImplItemMethod,
    syn::Error,
>)
    ensures
        match own_method(item@, contents(*rest)) {
            Ok(method) => r is Ok && r->Ok_0@ == method,
            Err(text) => r is Err && message(r->Err_0) == text,
        },
{
    match item {
        Item::Method(method) => Ok(tim2iim(method)),
        _ => Err(error_at(rest, "Unsupported in this context")),
    }
}

/// What reading a list comes to: what was read, and whether tokens were left over inside
/// a group.
pub type Listed<T> = Result<(Seq<T>, bool), ParseErrorView>;

/// The outcome with some more read before it.
pub open spec fn after<T>(read: Seq<T>, stray: bool, outcome: Listed<T>) -> Listed<T> {
    match outcome {
        Ok((more, strays)) => Ok((read + more, stray || strays)),
        Err(error) => Err(error),
    }
}

/// The methods of the structure itself, given what is in the braces and what follows.
pub open spec fn own_methods(content: Seq<Token>, rest: Seq<Token>) -> Listed<ImplItemMethodView>
    decreases weight(content),
{
    if content.len() == 0 {
        Ok((Seq::empty(), false))
    } else {
        match item_at(content) {
            Ok((item, more, stray)) => match own_method(item, rest) {
                Ok(method) => if weight(more) < weight(content) {
                    after(seq![method], stray, own_methods(more, rest))
                } else {
                    Ok((seq![method], stray))
                },
                Err(text) => Err(ParseErrorView::Syntax(text)),
            },
            Err(error) => Err(error),
        }
    }
}

/// The traits that the structure implements.
pub open spec fn trait_list(tokens: Seq<Token>) -> Listed<ItemTraitView>
    decreases weight(tokens),
{
    if tokens.len() == 0 {
        Ok((Seq::empty(), false))
    } else {
        match trait_at(tokens) {
            Ok((item, more, stray)) => if weight(more) < weight(tokens) {
                after(seq![item], stray, trait_list(more))
            } else {
                Ok((seq![item], stray))
            },
            Err(error) => Err(error),
        }
    }
}

/// What some tokens describe, or what is wrong with them.  Tokens that are left over
/// inside a group count only where nothing else is wrong.
pub open spec fn described(tokens: Seq<Token>) -> Result<MockView, ParseErrorView> {
    match visibility_at(tokens) {
        Ok((vis, tokens, stray)) => match ident_prefix(tokens) {
            Ok((name, tokens)) => described_generics(vis, name, stray, tokens),
            Err(text) => Err(ParseErrorView::Syntax(text)),
        },
        Err(text) => Err(ParseErrorView::Syntax(text)),
    }
}

/// What the tokens from the generic parameters on describe, given what stands before them.
pub open spec fn described_generics(
    vis: Seq<Token>,
    name: Seq<Token>,
    strays: bool,
    tokens: Seq<Token>,
) -> Result<MockView, ParseErrorView> {
    match generics_at(tokens) {
        Ok((params, tokens, stray_generics)) => match where_clause_at(tokens) {
            Ok((where_clause, tokens, stray_where)) => described_body(
                vis,
                name,
                GenericListView { params, where_clause },
                strays || stray_generics || stray_where,
                tokens,
            ),
            Err(error) => Err(error),
        },
        Err(error) => Err(error),
    }
}

/// What the tokens from the braces on describe, given what stands before them.
pub open spec fn described_body(
    vis: Seq<Token>,
    name: Seq<Token>,
    generics: GenericListView,
    strays: bool,
    tokens: Seq<Token>,
) -> Result<MockView, ParseErrorView> {
    match braces_prefix(tokens) {
        Ok((content, rest)) => match own_methods(content, rest) {
            Ok((methods, stray_methods)) => match trait_list(rest) {
                Ok((traits, stray_traits)) => if strays || stray_methods || stray_traits {
                    Err(ParseErrorView::Syntax("unexpected token"@))
                } else {
                    Ok(MockView { vis, name, generics, methods, traits })
                },
                Err(error) => Err(error),
            },
            Err(error) => Err(error),
        },
        Err(text) => Err(ParseErrorView::Syntax(text)),
    }
}

/// The methods that are read are public and not defaults, and their blocks are empty.
pub(crate) proof fn lemma_own_methods(content: Seq<Token>, rest: Seq<Token>)
    ensures
        own_methods(content, rest) matches Ok((methods, _)) ==> forall|i: int|
            0 <= i < methods.len() ==> {
                &&& (#[trigger] methods[i]).block == braces(nothing())
                &&& methods[i].vis == word("pub"@)
                &&& methods[i].defaultness == nothing()
            },
    decreases weight(content),
{
    if content.len() > 0 {
        if let Ok((item, more, stray)) = item_at(content) {
            if weight(more) < weight(content) {
                lemma_own_methods(more, rest);
            }
        }
    }
}

/// The first of two errors.
fn first(a: Option<syn::Error>, b: Option<syn::Error>) -> (r: Option<syn::Error>)
    ensures
        r == if a is Some {
            a
        } else {
            b
        },
{
    match a {
        Some(error) => Some(error),
        None => b,
    }
}

fn parse_own_methods(content: TokenStream, rest: &TokenStream) -> (r: Result<
    (Vec<ImplItemMethod>, Option<syn::Error>),
    ParseError,
>)
    ensures
        match own_methods(contents(content), contents(*rest)) {
            Ok((methods, stray)) => {
                &&& r is Ok
                &&& method_views(r->Ok_0.0@) == methods
                &&& is_stray(r->Ok_0.1, stray)
            },
            Err(error) => r is Err && r->Err_0@ == error,
        },
{
    let ghost whole = own_methods(contents(content), contents(*rest));
    let mut left = content;
    let mut methods: Vec<ImplItemMethod> = Vec::new();
    let mut stray: Option<syn::Error> = None;
    proof {
        assert(method_views(methods@) =~= Seq::empty());
        if let Ok((more, strays)) = whole {
            assert(Seq::empty() + more =~= more);
        }
    }
    while !is_empty(&left)
        invariant
            whole == own_methods(contents(content), contents(*rest)),
            is_stray(stray, stray is Some),
            whole == after(
                method_views(methods@),
                stray is Some,
                own_methods(contents(left), contents(*rest)),
            ),
        decreases weight(contents(left)),
    {
        let ghost before = method_views(methods@);
        let ghost was_stray = stray is Some;
        let (item, more, new_stray) = match next_item(left) {
            Ok(parsed) => parsed,
            Err(error) => {
                return Err(error);
            },
        };
        match inherent_method(&read_item(item), rest) {
            Ok(method) => {
                methods.push(method);
                assert(method_views(methods@) =~= before.push(method@));
                proof {
                    if let Ok((read, strays)) = own_methods(contents(more), contents(*rest)) {
                        assert(before.push(method@) + read =~= before + (seq![method@] + read));
                    }
                }
            },
            Err(error) => {
                return Err(ParseError::Syntax(error));
            },
        }
        stray = first(stray, new_stray);
        left = more;
    }
    assert(method_views(methods@) + Seq::empty() =~= method_views(methods@));
    Ok((methods, stray))
}

/// Takes out of a trait what mocking looks into.
fn read_trait(raw: RawTrait) -> (r: ItemTrait)
    ensures
        r@ == raw@,
{
    let ghost all = raw@.items;
    let mut left = raw.items;
    let ghost given = left@;
    let mut items: Vec<Item> = Vec::new();
    while left.len() > 0
        invariant
            all.len() == given.len() == items@.len() + left@.len(),
            forall|j: int| 0 <= j < given.len() ==> #[trigger] all[j] == item_in(given[j]),
            left@ == given.skip(items@.len() as int),
            forall|j: int| 0 <= j < items@.len() ==> (#[trigger] items@[j])@ == all[j],
        decreases left.len(),
    {
        let ghost n = items@.len() as int;
        let item = left.remove(0);
        assert(item == given[n] && all[n] == item_in(given[n]));
        items.push(read_item(item));
        assert(left@ =~= given.skip(n + 1));
    }
    assert(item_views(items@) =~= all);
    ItemTrait { unsafety: raw.unsafety, ident: raw.ident, generics: raw.generics, items }
}

fn parse_traits(tokens: TokenStream) -> (r: Result<
    (Vec<ItemTrait>, Option<syn::Error>),
    ParseError,
>)
    ensures
        match trait_list(contents(tokens)) {
            Ok((traits, stray)) => {
                &&& r is Ok
                &&& trait_views(r->Ok_0.0@) == traits
                &&& is_stray(r->Ok_0.1, stray)
            },
            Err(error) => r is Err && r->Err_0@ == error,
        },
{
    let ghost whole = trait_list(contents(tokens));
    let mut left = tokens;
    let mut traits: Vec<ItemTrait> = Vec::new();
    let mut stray: Option<syn::Error> = None;
    proof {
        assert(trait_views(traits@) =~= Seq::empty());
        if let Ok((more, strays)) = whole {
            assert(Seq::empty() + more =~= more);
        }
    }
    while !is_empty(&left)
        invariant
            whole == trait_list(contents(tokens)),
            is_stray(stray, stray is Some),
            whole == after(trait_views(traits@), stray is Some, trait_list(contents(left))),
        decreases weight(contents(left)),
    {
        let ghost before = trait_views(traits@);
        let (raw, more, new_stray) = match next_trait(left) {
            Ok(parsed) => parsed,
            Err(error) => {
                return Err(error);
            },
        };
        let item = read_trait(raw);
        traits.push(item);
        proof {
            assert(trait_views(traits@) =~= before.push(item@));
            if let Ok((read, strays)) = trait_list(contents(more)) {
                assert(before.push(item@) + read =~= before + (seq![item@] + read));
            }
        }
        stray = first(stray, new_stray);
        left = more;
    }
    assert(trait_views(traits@) + Seq::empty() =~= trait_views(traits@));
    Ok((traits, stray))
}

impl Mock {
    /// Reads the description of a mock.
    pub fn parse(input: TokenStream) -> (r: Result<Self, ParseError>)
        ensures
            match described(contents(input)) {
                Ok(mock) => r is Ok && r->Ok_0@ == mock && mock.well_formed(),
                Err(error) => r is Err && r->Err_0@ == error,
            },
    {
        let (vis, input, stray_vis) = match parse_visibility(input) {
            Ok(parsed) => parsed,
            Err(error) => {
                return Err(ParseError::Syntax(error));
            },
        };
        let (name, input) = match parse_ident(input) {
            Ok(parsed) => parsed,
            Err(error) => {
                return Err(ParseError::Syntax(error));
            },
        };
        let (params, input, stray_generics) = match next_generics(input) {
            Ok(parsed) => parsed,
            Err(error) => {
                return Err(error);
            },
        };
        let (where_clause, input, stray_where) = match next_where_clause(input) {
            Ok(parsed) => parsed,
            Err(error) => {
                return Err(error);
            },
        };
        let (impl_content, input) = match parse_braces(input) {
            Ok(parsed) => parsed,
            Err(error) => {
                return Err(ParseError::Syntax(error));
            },
        };
        proof {
            lemma_own_methods(contents(impl_content), contents(input));
        }
        let (methods, stray_methods) = match parse_own_methods(impl_content, &input) {
            Ok(parsed) => parsed,
            Err(error) => {
                return Err(error);
            },
        };
        let (traits, stray_traits) = match parse_traits(input) {
            Ok(parsed) => parsed,
            Err(error) => {
                return Err(error);
            },
        };
        let stray = first(
            first(first(stray_vis, stray_generics), stray_where),
            first(stray_methods, stray_traits),
        );
        match stray {
            Some(error) => Err(ParseError::Syntax(error)),
            None => Ok(
                Mock { vis, name, generics: GenericList { params, where_clause }, methods, traits },
            ),
        }
    }
}

} // verus!
