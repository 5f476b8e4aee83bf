//! What holds of a whole mock: the structure, its methods and its traits.

use crate::laws::lists::{
    lemma_filter_map, lemma_flat_map, lemma_occurs, lemma_occurs_in_flat_map, lemma_occurs_within,
};
use crate::laws::methods::checkpoints_check_the_object;
use vstd::prelude::*;

verus! {

use crate::ast::{ImplItemMethodView, ItemTraitView, ItemView};
use crate::generics::{angled, Form, GenericListView};
use crate::laws::lists::occurs_in;
use crate::method::{checkpoint, expectation_method, kept_attrs, mock_method};
use crate::mock::{
    all_sub_items, all_trait_impls, checkpoints, inherent_methods, sub_items, trait_checkpoints,
    trait_methods, MockView,
};
use crate::structure::struct_items;
use crate::tokens::{arrow, braces, colon2, nothing, parens, punct, text, word, Token};
use crate::trait_impl::{expect_items, mock_items, trait_impls};

/// A trait is implemented by the mock structure, item by item: its methods by mock methods
/// without a visibility, its types by themselves, its constants not at all.  Another block
/// has a public method for each of its methods that sets the expectations.  The generic
/// parameters are those of the structure where they are given, and else those of the trait.
pub proof fn traits_are_implemented(
    struct_ident: Seq<char>,
    struct_generics: Option<GenericListView>,
    item: ItemTraitView,
)
    ensures
        ({
            let mock = "Mock"@ + struct_ident;
            let name = text(item.ident);
            let module = word("__mock_"@ + struct_ident + "_"@ + name);
            let generics = match struct_generics {
                Some(generics) => generics,
                None => item.generics,
            };
            let mocked = item.items.flat_map(
                |item: ItemView|
                    match item {
                        ItemView::Method(method) => mock_method(
                            mock,
                            method.attrs,
                            nothing(),
                            method.sig,
                            Some(name),
                        ),
                        ItemView::Type(ty) => ty.tokens,
                        ItemView::Const | ItemView::Other => nothing(),
                    },
            );
            let expected = item.items.flat_map(
                |item: ItemView|
                    match item {
                        ItemView::Method(method) => expectation_method(
                            Some(module),
                            mock,
                            method.attrs,
                            word("pub"@),
                            method.sig,
                            Some(name),
                        ),
                        _ => nothing(),
                    },
            );
            trait_impls(struct_ident, struct_generics, item) == item.unsafety + word("impl"@)
                + angled(generics.params, Form::Bare) + item.ident + angled(
                item.generics.params,
                Form::Name,
            ) + word("for"@) + word(mock) + angled(generics.params, Form::Name)
                + generics.where_clause + braces(mocked) + word("impl"@) + angled(
                generics.params,
                Form::Bare,
            ) + word(mock) + angled(generics.params, Form::Name) + generics.where_clause + braces(
                expected,
            )
        }),
{
    let mock = "Mock"@ + struct_ident;
    let name = text(item.ident);
    let module = word("__mock_"@ + struct_ident + "_"@ + name);
    lemma_flat_map(
        item.items,
        |item: ItemView|
            match item {
                ItemView::Method(method) => mock_method(
                    mock,
                    method.attrs,
                    nothing(),
                    method.sig,
                    Some(name),
                ),
                ItemView::Type(ty) => ty.tokens,
                ItemView::Const | ItemView::Other => nothing(),
            },
        |items: Seq<ItemView>| mock_items(struct_ident, name, items),
    );
    lemma_flat_map(
        item.items,
        |item: ItemView|
            match item {
                ItemView::Method(method) => expectation_method(
                    Some(module),
                    mock,
                    method.attrs,
                    word("pub"@),
                    method.sig,
                    Some(name),
                ),
                _ => nothing(),
            },
        |items: Seq<ItemView>| expect_items(struct_ident, name, items),
    );
}

/// The methods of a trait are taken over as they stand, in their order, as public methods
/// with empty blocks.
pub proof fn trait_methods_are_taken_over(items: Seq<ItemView>)
    ensures
        trait_methods(items) == items.filter_map(
            |item: ItemView|
                match item {
                    ItemView::Method(method) => Some(
                        ImplItemMethodView {
                            attrs: method.attrs,
                            vis: word("pub"@),
                            defaultness: nothing(),
                            sig: method.sig,
                            block: braces(nothing()),
                        },
                    ),
                    _ => None,
                },
        ),
{
    lemma_filter_map(
        items,
        |item: ItemView|
            match item {
                ItemView::Method(method) => Some(
                    ImplItemMethodView {
                        attrs: method.attrs,
                        vis: word("pub"@),
                        defaultness: nothing(),
                        sig: method.sig,
                        block: braces(nothing()),
                    },
                ),
                _ => None,
            },
        |items: Seq<ItemView>| trait_methods(items),
    );
}

/// A structure is generated for each trait that has the methods of that trait and the
/// generic parameters of the mock structure, and that checks all of these methods.
pub proof fn traits_have_structures(
    name: Seq<char>,
    generics: GenericListView,
    trait_: ItemTraitView,
)
    ensures
        ({
            let ident = name + "_"@ + text(trait_.ident);
            let methods = trait_methods(trait_.items);
            let body = methods.flat_map(
                |method: ImplItemMethodView|
                    checkpoint("Mock"@ + ident, method.attrs, method.sig, None),
            );
            sub_items(name, generics, trait_) == struct_items(
                nothing(),
                ident,
                generics,
                Seq::empty(),
                methods,
            ) + (word("impl"@) + angled(generics.params, Form::Bare) + word("Mock"@ + ident)
                + angled(generics.params, Form::Name) + generics.where_clause + braces(
                word("fn"@) + word("checkpoint"@) + parens(
                    punct('&') + word("mut"@) + word("self"@),
                ) + braces(body),
            ))
        }),
{
    let mock = "Mock"@ + (name + "_"@ + text(trait_.ident));
    lemma_flat_map(
        trait_methods(trait_.items),
        |method: ImplItemMethodView| checkpoint(mock, method.attrs, method.sig, None),
        |methods: Seq<ImplItemMethodView>| checkpoints(mock, methods),
    );
}

/// The mock structure has each of the methods with the one that sets its expectations, both
/// as visible as the method is; a `checkpoint` that checks all traits and then all methods;
/// and a `new`, unless one of the methods is named so.
pub proof fn structures_have_methods(mock: MockView)
    ensures
        ({
            let name = text(mock.name);
            let methods = mock.methods.flat_map(
                |method: ImplItemMethodView|
                    mock_method("Mock"@ + name, method.attrs, method.vis, method.sig, None)
                        + expectation_method(
                        Some(word("__mock_"@ + name)),
                        "Mock"@ + name,
                        method.attrs,
                        method.vis,
                        method.sig,
                        None,
                    ),
            );
            let of_traits = mock.traits.flat_map(
                |trait_: ItemTraitView|
                    word("self"@) + punct('.') + word(text(trait_.ident) + "_expectations"@)
                        + punct('.') + word("checkpoint"@) + parens(nothing()) + punct(';'),
            );
            let of_methods = mock.methods.flat_map(
                |method: ImplItemMethodView|
                    checkpoint("Mock"@ + name, method.attrs, method.sig, None),
            );
            let new = if exists|i: int|
                0 <= i < mock.methods.len() && text((#[trigger] mock.methods[i]).sig.ident)
                    == "new"@ {
                nothing()
            } else {
                word("pub"@) + word("fn"@) + word("new"@) + parens(nothing()) + arrow() + word(
                    "Self"@,
                ) + braces(word("Self"@) + colon2() + word("default"@) + parens(nothing()))
            };
            mock.body() == methods + word("pub"@) + (word("fn"@) + word("checkpoint"@) + parens(
                punct('&') + word("mut"@) + word("self"@),
            ) + braces(of_traits + of_methods)) + new
        }),
{
    let name = text(mock.name);
    let f = |method: ImplItemMethodView|
        mock_method("Mock"@ + name, method.attrs, method.vis, method.sig, None)
            + expectation_method(
            Some(word("__mock_"@ + name)),
            "Mock"@ + name,
            method.attrs,
            method.vis,
            method.sig,
            None,
        );
    let g = |methods: Seq<ImplItemMethodView>|
        inherent_methods(word("__mock_"@ + name), "Mock"@ + name, methods);
    assert forall|s: Seq<ImplItemMethodView>| s.len() > 0 implies g(s) == #[trigger] g(
        s.drop_last(),
    ) + f(s.last()) by {
        assert(g(s) =~= g(s.drop_last()) + f(s.last()));
    }
    lemma_flat_map(mock.methods, f, g);
    lemma_flat_map(
        mock.traits,
        |trait_: ItemTraitView|
            word("self"@) + punct('.') + word(text(trait_.ident) + "_expectations"@) + punct('.')
                + word("checkpoint"@) + parens(nothing()) + punct(';'),
        |traits: Seq<ItemTraitView>| trait_checkpoints(traits),
    );
    lemma_flat_map(
        mock.methods,
        |method: ImplItemMethodView| checkpoint("Mock"@ + name, method.attrs, method.sig, None),
        |methods: Seq<ImplItemMethodView>| checkpoints("Mock"@ + name, methods),
    );
    assert(mock.given_body() + nothing() =~= mock.given_body());
}

/// The generated code: the mock structure, the structures of all traits, the methods of the
/// mock structure, and the implementations of all traits.
pub proof fn mocks_are_made_of_parts(mock: MockView)
    ensures
        ({
            let name = text(mock.name);
            let params = mock.generics.params;
            let subs = mock.traits.map_values(
                |trait_: ItemTraitView| (text(trait_.ident), mock.generics),
            );
            mock.generated() == struct_items(mock.vis, name, mock.generics, subs, mock.methods)
                + mock.traits.flat_map(
                |trait_: ItemTraitView| sub_items(name, mock.generics, trait_),
            ) + (word("impl"@) + angled(params, Form::Bare) + word("Mock"@ + name) + angled(
                params,
                Form::Name,
            ) + mock.generics.where_clause + braces(mock.body())) + mock.traits.flat_map(
                |trait_: ItemTraitView| trait_impls(name, Some(mock.generics), trait_),
            )
        }),
{
    let name = text(mock.name);
    assert(mock.subs() =~= mock.traits.map_values(
        |trait_: ItemTraitView| (text(trait_.ident), mock.generics),
    ));
    lemma_flat_map(
        mock.traits,
        |trait_: ItemTraitView| sub_items(name, mock.generics, trait_),
        |traits: Seq<ItemTraitView>| all_sub_items(name, mock.generics, traits),
    );
    lemma_flat_map(
        mock.traits,
        |trait_: ItemTraitView| trait_impls(name, Some(mock.generics), trait_),
        |traits: Seq<ItemTraitView>| all_trait_impls(name, mock.generics, traits),
    );
}

/// The `checkpoint` of the structure that is generated for a trait has, for every method of
/// that trait, the statement that checks the expectations of that method: in the field that
/// is named like it, or in its static.
pub proof fn checkpoints_of_traits_check_all_methods(mock: MockView, k: int, i: int)
    requires
        0 <= k < mock.traits.len(),
        0 <= i < mock.traits[k].items.len(),
        mock.traits[k].items[i] is Method,
    ensures
        ({
            let method = mock.traits[k].items[i]->Method_0;
            let sig = method.sig;
            let ident = "Mock"@ + text(mock.name) + "_"@ + text(mock.traits[k].ident);
            let has_self = exists|j: int|
                0 <= j < sig.inputs.len() && (#[trigger] sig.inputs[j] is SelfRef || sig.inputs[j]
                    is SelfValue);
            let object = if has_self {
                word("self"@) + punct('.') + sig.ident
            } else {
                word(ident + "_"@ + text(sig.ident) + "_expectation"@) + punct('.') + word(
                    "lock"@,
                ) + parens(nothing()) + punct('.') + word("unwrap"@) + parens(nothing())
            };
            let statement = kept_attrs(method.attrs) + braces(
                object + punct('.') + word("checkpoint"@) + parens(nothing()) + punct(';'),
            );
            let params = mock.generics.params;
            exists|body: Seq<Token>|
                {
                    &&& occurs_in(statement, body)
                    &&& occurs_in(
                        word("impl"@) + angled(params, Form::Bare) + word(ident) + angled(
                            params,
                            Form::Name,
                        ) + mock.generics.where_clause + braces(
                            word("fn"@) + word("checkpoint"@) + parens(
                                punct('&') + word("mut"@) + word("self"@),
                            ) + #[trigger] braces(body),
                        ),
                        mock.generated(),
                    )
                }
        }),
{
    let trait_ = mock.traits[k];
    let method = trait_.items[i]->Method_0;
    let name = text(mock.name);
    let ident = "Mock"@ + (name + "_"@ + text(trait_.ident));
    assert(ident =~= "Mock"@ + name + "_"@ + text(trait_.ident));
    let params = mock.generics.params;
    let f = |method: ImplItemMethodView| checkpoint(ident, method.attrs, method.sig, None);
    let methods = trait_methods(trait_.items);
    let body = methods.flat_map(f);
    let block = word("impl"@) + angled(params, Form::Bare) + word(ident) + angled(
        params,
        Form::Name,
    ) + mock.generics.where_clause + braces(
        word("fn"@) + word("checkpoint"@) + parens(punct('&') + word("mut"@) + word("self"@))
            + braces(body),
    );
    lemma_place_of_method(trait_.items, i);
    let place = trait_methods(trait_.items.take(i)).len() as int;
    lemma_occurs_in_flat_map(methods, f, place);
    checkpoints_check_the_object(ident, method.attrs, method.sig, None);
    traits_have_structures(name, mock.generics, trait_);
    let sub = sub_items(name, mock.generics, trait_);
    assert(sub =~= sub.take(sub.len() - block.len()) + block + nothing());
    lemma_occurs(sub.take(sub.len() - block.len()), block, nothing());
    lemma_sub_items_occur(mock, k);
    lemma_occurs_within(block, sub, mock.generated());
    assert(occurs_in(f(methods[place]), body));
}

/// The place of a method of a trait among the methods of that trait.
proof fn lemma_place_of_method(items: Seq<ItemView>, i: int)
    requires
        0 <= i < items.len(),
        items[i] is Method,
    ensures
        ({
            let place = trait_methods(items.take(i)).len() as int;
            let methods = trait_methods(items);
            &&& 0 <= place < methods.len()
            &&& methods[place].attrs == items[i]->Method_0.attrs
            &&& methods[place].sig == items[i]->Method_0.sig
        }),
    decreases items.len(),
{
    if i == items.len() - 1 {
        assert(items.take(i) =~= items.drop_last());
    } else {
        assert(items.drop_last().take(i) =~= items.take(i));
        lemma_place_of_method(items.drop_last(), i);
    }
}

proof fn lemma_sub_items_occur(mock: MockView, k: int)
    requires
        0 <= k < mock.traits.len(),
    ensures
        occurs_in(sub_items(text(mock.name), mock.generics, mock.traits[k]), mock.generated()),
{
    let name = text(mock.name);
    mocks_are_made_of_parts(mock);
    let f = |trait_: ItemTraitView| sub_items(name, mock.generics, trait_);
    lemma_occurs_in_flat_map(mock.traits, f, k);
    let all = mock.traits.flat_map(f);
    let subs = mock.traits.map_values(
        |trait_: ItemTraitView| (text(trait_.ident), mock.generics),
    );
    let first = struct_items(mock.vis, name, mock.generics, subs, mock.methods);
    let code = mock.generated();
    let rest = code.skip((first.len() + all.len()) as int);
    assert(code =~= first + all + rest);
    lemma_occurs(first, all, rest);
    lemma_occurs_within(f(mock.traits[k]), all, code);
}

/// Every method of every trait is mocked in an implementation of that trait, and has a public
/// method that sets its expectations.
pub proof fn methods_of_traits_are_mocked(mock: MockView, k: int, i: int)
    requires
        0 <= k < mock.traits.len(),
        0 <= i < mock.traits[k].items.len(),
        mock.traits[k].items[i] is Method,
    ensures
        ({
            let item = mock.traits[k];
            let method = item.items[i]->Method_0;
            let name = text(item.ident);
            let params = mock.generics.params;
            let ident = "Mock"@ + text(mock.name);
            let module = word("__mock_"@ + text(mock.name) + "_"@ + name);
            exists|mocked: Seq<Token>, expected: Seq<Token>|
                {
                    &&& occurs_in(
                        mock_method(ident, method.attrs, nothing(), method.sig, Some(name)),
                        mocked,
                    )
                    &&& occurs_in(
                        expectation_method(
                            Some(module),
                            ident,
                            method.attrs,
                            word("pub"@),
                            method.sig,
                            Some(name),
                        ),
                        expected,
                    )
                    &&& occurs_in(
                        item.unsafety + word("impl"@) + angled(params, Form::Bare) + item.ident
                            + angled(item.generics.params, Form::Name) + word("for"@) + word(ident)
                            + angled(params, Form::Name) + mock.generics.where_clause
                            + #[trigger] braces(mocked) + word("impl"@) + angled(
                            params,
                            Form::Bare,
                        ) + word(ident) + angled(params, Form::Name) + mock.generics.where_clause
                            + #[trigger] braces(expected),
                        mock.generated(),
                    )
                }
        }),
{
    let item = mock.traits[k];
    let method = item.items[i]->Method_0;
    let name = text(item.ident);
    let ident = "Mock"@ + text(mock.name);
    let module = word("__mock_"@ + text(mock.name) + "_"@ + name);
    let f = |item: ItemView|
        match item {
            ItemView::Method(method) => mock_method(
                ident,
                method.attrs,
                nothing(),
                method.sig,
                Some(name),
            ),
            ItemView::Type(ty) => ty.tokens,
            ItemView::Const | ItemView::Other => nothing(),
        };
    let g = |item: ItemView|
        match item {
            ItemView::Method(method) => expectation_method(
                Some(module),
                ident,
                method.attrs,
                word("pub"@),
                method.sig,
                Some(name),
            ),
            _ => nothing(),
        };
    traits_are_implemented(text(mock.name), Some(mock.generics), item);
    lemma_occurs_in_flat_map(item.items, f, i);
    lemma_occurs_in_flat_map(item.items, g, i);
    lemma_trait_impls_occur(mock, k);
    let mocked = item.items.flat_map(f);
    let expected = item.items.flat_map(g);
    assert(occurs_in(f(item.items[i]), mocked));
    assert(occurs_in(g(item.items[i]), expected));
    assert(braces(mocked).len() == 1 && braces(expected).len() == 1);
}

proof fn lemma_trait_impls_occur(mock: MockView, k: int)
    requires
        0 <= k < mock.traits.len(),
    ensures
        occurs_in(
            trait_impls(text(mock.name), Some(mock.generics), mock.traits[k]),
            mock.generated(),
        ),
{
    let name = text(mock.name);
    mocks_are_made_of_parts(mock);
    let f = |trait_: ItemTraitView| trait_impls(name, Some(mock.generics), trait_);
    lemma_occurs_in_flat_map(mock.traits, f, k);
    let all = mock.traits.flat_map(f);
    let code = mock.generated();
    let first = code.take(code.len() - all.len());
    assert(code =~= first + all + nothing());
    lemma_occurs(first, all, nothing());
    lemma_occurs_within(f(mock.traits[k]), all, code);
}

/// One `checkpoint` of the mock structure checks the expectations of all its methods, and
/// calls the `checkpoint` of the structure of each of its traits.
pub proof fn checkpoints_check_everything(mock: MockView, k: int, i: int)
    ensures
        ({
            let ident = "Mock"@ + text(mock.name);
            let params = mock.generics.params;
            &&& occurs_in(
                word("impl"@) + angled(params, Form::Bare) + word(ident) + angled(
                    params,
                    Form::Name,
                ) + mock.generics.where_clause + braces(mock.body()),
                mock.generated(),
            )
            &&& exists|body: Seq<Token>|
                {
                    &&& 0 <= k < mock.traits.len() ==> occurs_in(
                        word("self"@) + punct('.') + word(
                            text(mock.traits[k].ident) + "_expectations"@,
                        ) + punct('.') + word("checkpoint"@) + parens(nothing()) + punct(';'),
                        body,
                    )
                    &&& 0 <= i < mock.methods.len() ==> occurs_in(
                        checkpoint(ident, mock.methods[i].attrs, mock.methods[i].sig, None),
                        body,
                    )
                    &&& occurs_in(
                        word("pub"@) + (word("fn"@) + word("checkpoint"@) + parens(
                            punct('&') + word("mut"@) + word("self"@),
                        ) + #[trigger] braces(body)),
                        mock.body(),
                    )
                }
        }),
{
    let name = text(mock.name);
    let ident = "Mock"@ + name;
    let params = mock.generics.params;
    let code = mock.generated();
    mocks_are_made_of_parts(mock);
    let subs = mock.traits.map_values(
        |trait_: ItemTraitView| (text(trait_.ident), mock.generics),
    );
    let first = struct_items(mock.vis, name, mock.generics, subs, mock.methods)
        + mock.traits.flat_map(|trait_: ItemTraitView| sub_items(name, mock.generics, trait_));
    let block = word("impl"@) + angled(params, Form::Bare) + word(ident) + angled(
        params,
        Form::Name,
    ) + mock.generics.where_clause + braces(mock.body());
    let last = code.skip((first.len() + block.len()) as int);
    assert(code =~= first + block + last);
    lemma_occurs(first, block, last);

    structures_have_methods(mock);
    let f = |trait_: ItemTraitView|
        word("self"@) + punct('.') + word(text(trait_.ident) + "_expectations"@) + punct('.')
            + word("checkpoint"@) + parens(nothing()) + punct(';');
    let g = |method: ImplItemMethodView| checkpoint(ident, method.attrs, method.sig, None);
    let of_traits = mock.traits.flat_map(f);
    let of_methods = mock.methods.flat_map(g);
    let body = of_traits + of_methods;
    if 0 <= k < mock.traits.len() {
        lemma_occurs_in_flat_map(mock.traits, f, k);
        assert(body =~= nothing() + of_traits + of_methods);
        lemma_occurs(nothing(), of_traits, of_methods);
        lemma_occurs_within(f(mock.traits[k]), of_traits, body);
    }
    if 0 <= i < mock.methods.len() {
        lemma_occurs_in_flat_map(mock.methods, g, i);
        assert(body =~= of_traits + of_methods + nothing());
        lemma_occurs(of_traits, of_methods, nothing());
        lemma_occurs_within(g(mock.methods[i]), of_methods, body);
    }
    let part = word("pub"@) + (word("fn"@) + word("checkpoint"@) + parens(
        punct('&') + word("mut"@) + word("self"@),
    ) + braces(body));
    let methods = mock.methods.flat_map(
        |method: ImplItemMethodView|
            mock_method(ident, method.attrs, method.vis, method.sig, None) + expectation_method(
                Some(word("__mock_"@ + name)),
                ident,
                method.attrs,
                method.vis,
                method.sig,
                None,
            ),
    );
    let new = mock.body().skip((methods.len() + part.len()) as int);
    assert(mock.body() =~= methods + part + new);
    lemma_occurs(methods, part, new);
}

/// Every method of the structure itself is mocked, with the method that sets its
/// expectations directly behind it, and both are as visible as it is.
pub proof fn own_methods_are_mocked(mock: MockView, i: int)
    requires
        0 <= i < mock.methods.len(),
    ensures
        ({
            let ident = "Mock"@ + text(mock.name);
            let method = mock.methods[i];
            occurs_in(
                mock_method(ident, method.attrs, method.vis, method.sig, None)
                    + expectation_method(
                    Some(word("__mock_"@ + text(mock.name))),
                    ident,
                    method.attrs,
                    method.vis,
                    method.sig,
                    None,
                ),
                mock.body(),
            )
        }),
{
    let name = text(mock.name);
    let ident = "Mock"@ + name;
    structures_have_methods(mock);
    let f = |method: ImplItemMethodView|
        mock_method(ident, method.attrs, method.vis, method.sig, None) + expectation_method(
            Some(word("__mock_"@ + name)),
            ident,
            method.attrs,
            method.vis,
            method.sig,
            None,
        );
    let methods = mock.methods.flat_map(f);
    let rest = mock.body().skip(methods.len() as int);
    lemma_occurs_in_flat_map(mock.methods, f, i);
    assert(mock.body() =~= nothing() + methods + rest);
    lemma_occurs(nothing(), methods, rest);
    lemma_occurs_within(f(mock.methods[i]), methods, mock.body());
}

} // verus!
