//! The mock implementation of a trait.

use crate::ast::{Item, ItemTrait};
use crate::error::MockError;
use crate::generics::{split_for_impl, GenericList};
use crate::method::gen_mock_method;
use crate::tokens::{
    check_ident, copy, ident_string, put, put_braces, put_word, start_word, stream, try_word,
};
use crate::words::{gen_mock_ident, gen_mod_ident};
use proc_macro2::TokenStream;
use vstd::prelude::*;

verus! {

use crate::ast::{item_views, ItemTraitView, ItemView};
use crate::error::comes_to;
use crate::generics::GenericListView;
use crate::method::{expectation_method, method_error, mock_method};
use crate::tokens::{braces, contents, is_ident, is_plain, nothing, text, word, Token};
use crate::words::{lemma_names, lemma_plain_names, lemma_words, mock_name, mod_name};

/// What an item of a trait adds to the implementation of the trait.
pub open spec fn mock_item(
    struct_ident: Seq<char>,
    trait_ident: Seq<char>,
    item: ItemView,
) -> Seq<Token> {
    match item {
        // trait methods must have inherited visibility
        ItemView::Method(method) => mock_method(
            mock_name(struct_ident),
            method.attrs,
            nothing(),
            method.sig,
            Some(trait_ident),
        ),
        ItemView::Type(ty) => ty.tokens,
        _ => nothing(),
    }
}

pub open spec fn mock_items(
    struct_ident: Seq<char>,
    trait_ident: Seq<char>,
    items: Seq<ItemView>,
) -> Seq<Token>
    decreases items.len(),
{
    if items.len() == 0 {
        nothing()
    } else {
        mock_items(struct_ident, trait_ident, items.drop_last()) + mock_item(
            struct_ident,
            trait_ident,
            items.last(),
        )
    }
}

/// What an item of a trait adds to the inherent methods of the mock structure.
pub open spec fn expect_item(
    struct_ident: Seq<char>,
    trait_ident: Seq<char>,
    item: ItemView,
) -> Seq<Token> {
    match item {
        ItemView::Method(method) => expectation_method(
            Some(word(mod_name(struct_ident, Some(trait_ident)))),
            mock_name(struct_ident),
            method.attrs,
            word("pub"@),
            method.sig,
            Some(trait_ident),
        ),
        _ => nothing(),
    }
}

pub open spec fn expect_items(
    struct_ident: Seq<char>,
    trait_ident: Seq<char>,
    items: Seq<ItemView>,
) -> Seq<Token>
    decreases items.len(),
{
    if items.len() == 0 {
        nothing()
    } else {
        expect_items(struct_ident, trait_ident, items.drop_last()) + expect_item(
            struct_ident,
            trait_ident,
            items.last(),
        )
    }
}

/// Why an item of a trait cannot be mocked.
pub open spec fn item_error(
    struct_ident: Seq<char>,
    trait_ident: Seq<char>,
    item: ItemView,
) -> Option<MockError> {
    match item {
        ItemView::Const => None,
        ItemView::Method(method) => if is_ident(trait_ident) {
            method_error(mock_name(struct_ident), method.sig, Some(trait_ident))
        } else {
            Some(MockError::Name)
        },
        ItemView::Type(ty) => if ty.generic {
            Some(MockError::GenericAssociatedType)
        } else if ty.concrete {
            None
        } else {
            Some(MockError::OpenAssociatedType)
        },
        ItemView::Other => Some(MockError::TraitItem),
    }
}

/// What the first offending item is refused for.
pub open spec fn items_error(
    struct_ident: Seq<char>,
    trait_ident: Seq<char>,
    items: Seq<ItemView>,
) -> Option<MockError>
    decreases items.len(),
{
    if items.len() == 0 {
        None
    } else {
        match items_error(struct_ident, trait_ident, items.drop_last()) {
            Some(error) => Some(error),
            None => item_error(struct_ident, trait_ident, items.last()),
        }
    }
}

/// Why a trait cannot be mocked.
pub open spec fn trait_error(struct_ident: Seq<char>, item: ItemTraitView) -> Option<MockError> {
    if !is_ident(struct_ident) {
        Some(MockError::Name)
    } else {
        items_error(struct_ident, text(item.ident), item.items)
    }
}

/// Whether all methods among the items of a trait have plain names.
pub open spec fn plain_items(items: Seq<ItemView>) -> bool {
    forall|i: int|
        0 <= i < items.len() ==> (#[trigger] items[i] matches ItemView::Method(method) ==> is_plain(
            text(method.sig.ident),
        ))
}

/// Whether all names that names are made of for a trait are plain.
pub open spec fn trait_plain(struct_ident: Seq<char>, item: ItemTraitView) -> bool {
    is_plain(struct_ident) && is_plain(text(item.ident)) && plain_items(item.items)
}

/// The implementation of a trait by the mock structure, and the methods that set its
/// expectations in a block of their own: nothing can be added to the implementation of a
/// trait.
pub open spec fn trait_impls(
    struct_ident: Seq<char>,
    struct_generics: Option<GenericListView>,
    item: ItemTraitView,
) -> Seq<Token> {
    let mock_ident = mock_name(struct_ident);
    let generics = match struct_generics {
        Some(generics) => generics,
        None => item.generics,
    };
    item.unsafety + word("impl"@) + generics.for_impl() + item.ident
        + item.generics.for_type() + word("for"@) + word(mock_ident) + generics.for_type()
        + generics.where_clause + braces(
        mock_items(struct_ident, text(item.ident), item.items),
    ) + word("impl"@) + generics.for_impl() + word(mock_ident) + generics.for_type()
        + generics.where_clause
        + braces(expect_items(struct_ident, text(item.ident), item.items))
}

pub open spec fn generics_view(generics: Option<&GenericList>) -> Option<GenericListView> {
    match generics {
        Some(generics) => Some(generics@),
        None => None,
    }
}

/// What one item is refused for, where none before it is, is what the trait is refused
/// for.
proof fn lemma_items_error(
    struct_ident: Seq<char>,
    trait_ident: Seq<char>,
    items: Seq<ItemView>,
    i: int,
)
    requires
        0 <= i < items.len(),
        items_error(struct_ident, trait_ident, items.take(i)) is None,
        item_error(struct_ident, trait_ident, items[i]) is Some,
    ensures
        items_error(struct_ident, trait_ident, items) == item_error(
            struct_ident,
            trait_ident,
            items[i],
        ),
    decreases items.len(),
{
    if i == items.len() - 1 {
        assert(items.take(i) =~= items.drop_last());
    } else {
        assert(items.drop_last().take(i) =~= items.take(i));
        lemma_items_error(struct_ident, trait_ident, items.drop_last(), i);
    }
}

/// The two bodies that the items of a trait make up.
fn gen_items(struct_ident: &str, trait_ident: &str, items: &Vec<Item>) -> (r: Result<
    (TokenStream, TokenStream),
    MockError,
>)
    requires
        is_ident(struct_ident@),
    ensures
        comes_to(
            r,
            items_error(struct_ident@, trait_ident@, item_views(items@)),
            is_plain(struct_ident@) && is_plain(trait_ident@) && plain_items(item_views(items@)),
        ),
        r matches Ok((mock_body, expect_body)) ==> {
            &&& contents(mock_body) == mock_items(struct_ident@, trait_ident@, item_views(items@))
            &&& contents(expect_body) == expect_items(
                struct_ident@,
                trait_ident@,
                item_views(items@),
            )
        },
{
    let mock_ident = gen_mock_ident(struct_ident);
    let mod_ident = gen_mod_ident(struct_ident, Some(trait_ident));
    proof {
        lemma_words();
        if is_plain(struct_ident@) && is_plain(trait_ident@) {
            lemma_plain_names(struct_ident@, trait_ident@, trait_ident@);
        }
    }
    let pub_vis = start_word("pub");
    let inherited = stream();
    let mut mock_body = stream();
    let mut expect_body = stream();
    let ghost all = item_views(items@);
    let mut i: usize = 0;
    while i < items.len()
        invariant
            i <= items.len() == all.len(),
            all == item_views(items@),
            mock_ident@ == mock_name(struct_ident@),
            mod_ident@ == mod_name(struct_ident@, Some(trait_ident@)),
            is_ident(struct_ident@),
            is_plain(struct_ident@) && is_plain(trait_ident@) ==> is_plain(mock_ident@) && is_plain(
                mod_ident@,
            ),
            contents(pub_vis) == word("pub"@),
            contents(inherited) == nothing(),
            items_error(struct_ident@, trait_ident@, all.take(i as int)) is None,
            contents(mock_body) == mock_items(struct_ident@, trait_ident@, all.take(i as int)),
            contents(expect_body) == expect_items(struct_ident@, trait_ident@, all.take(i as int)),
        decreases items.len() - i,
    {
        let ghost before = (contents(mock_body), contents(expect_body));
        proof {
            assert(all[i as int] == items@[i as int]@);
            assert(all.take(i + 1).drop_last() =~= all.take(i as int));
            assert(before.0 + nothing() =~= before.0);
            assert(before.1 + nothing() =~= before.1);
            if item_error(struct_ident@, trait_ident@, all[i as int]) is Some {
                lemma_items_error(struct_ident@, trait_ident@, all, i as int);
            }
        }
        match &items[i] {
            Item::Const => {
                // Nothing to implement
            },
            Item::Method(method) => {
                if !check_ident(trait_ident) {
                    return Err(MockError::Name);
                }
                proof {
                    lemma_names(struct_ident@, trait_ident@, trait_ident@);
                }
                let mod_ident = match try_word(mod_ident.as_str(), &stream()) {
                    Some(mod_ident) => mod_ident,
                    None => {
                        return Err(MockError::Name);
                    },
                };
                let generated = gen_mock_method(
                    Some(&mod_ident),
                    mock_ident.as_str(),
                    &method.attrs,
                    &inherited,
                    &pub_vis,
                    &method.sig,
                    Some(trait_ident),
                );
                match generated {
                    Ok((mock_meth, expect_meth, _)) => {
                        // trait methods must have inherited visibility.  Expectation
                        // methods should have public, for lack of any clearer option.
                        put(&mut mock_body, &mock_meth);
                        put(&mut expect_body, &expect_meth);
                    },
                    Err(error) => {
                        return Err(error);
                    },
                }
            },
            Item::Type(ty) => {
                if ty.generic {
                    return Err(MockError::GenericAssociatedType);
                }
                if !ty.concrete {
                    return Err(MockError::OpenAssociatedType);
                }
                put(&mut mock_body, &ty.tokens);
            },
            Item::Other => {
                return Err(MockError::TraitItem);
            },
        }
        i += 1;
    }
    assert(all.take(i as int) =~= all);
    Ok((mock_body, expect_body))
}

/// Generates mock methods for a trait.
///
/// # Parameters
///
/// * `struct_ident`: name of the structure to mock
/// * `struct_generics`: if provided, the generic parameters of the mock structure;
///   otherwise they are those of the trait
/// * `item`: the trait whose methods are being mocked
pub fn mock_trait_methods(
    struct_ident: &str,
    struct_generics: Option<&GenericList>,
    item: &ItemTrait,
) -> (r: Result<TokenStream, MockError>)
    ensures
        comes_to(r, trait_error(struct_ident@, item@), trait_plain(struct_ident@, item@)),
        r matches Ok(code) ==> contents(code) == trait_impls(
            struct_ident@,
            generics_view(struct_generics),
            item@,
        ),
{
    let ident = ident_string(&item.ident);
    let ident = ident.as_str();
    if !check_ident(struct_ident) {
        return Err(MockError::Name);
    }
    let (mock_body, expect_body) = match gen_items(struct_ident, ident, &item.items) {
        Ok(bodies) => bodies,
        Err(error) => {
            return Err(error);
        },
    };
    proof {
        lemma_words();
        lemma_names(struct_ident@, struct_ident@, struct_ident@);
        if is_plain(struct_ident@) {
            lemma_plain_names(struct_ident@, struct_ident@, struct_ident@);
        }
    }
    let mock_ident = match try_word(gen_mock_ident(struct_ident).as_str(), &stream()) {
        Some(mock_ident) => mock_ident,
        None => {
            return Err(MockError::Name);
        },
    };
    let generics = match struct_generics {
        Some(generics) => generics,
        None => &item.generics,
    };
    let (s_ig, s_tg) = split_for_impl(&generics.params);
    let s_wc = &generics.where_clause;
    let (_, t_tg) = split_for_impl(&item.generics.params);

    // Put all mock methods in one impl block
    let mut output = copy(&item.unsafety);
    put_word(&mut output, "impl");
    put(&mut output, &s_ig);
    put(&mut output, &item.ident);
    put(&mut output, &t_tg);
    put_word(&mut output, "for");
    put(&mut output, &mock_ident);
    put(&mut output, &s_tg);
    put(&mut output, s_wc);
    put_braces(&mut output, &mock_body);

    // Put all expect methods in a separate impl block.  This is necessary when
    // mocking a trait impl, where we can't add any new methods
    put_word(&mut output, "impl");
    put(&mut output, &s_ig);
    put(&mut output, &mock_ident);
    put(&mut output, &s_tg);
    put(&mut output, s_wc);
    put_braces(&mut output, &expect_body);
    Ok(output)
}

} // verus!
