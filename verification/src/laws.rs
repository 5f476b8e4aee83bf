//! What holds of the generated code as a whole.

mod lists;
pub mod methods;
pub mod mocks;
pub mod names;
pub mod readability;
pub mod reading;
pub mod refusals;
pub mod results;
pub mod structures;

use crate::error::MockError;
use proc_macro2::TokenStream;
use vstd::prelude::*;

verus! {

use crate::ast::{
    ArgView, AttributeView, ImplItemMethodView, ItemTraitView, ItemView, SignatureView,
};
use crate::error::comes_to;
use crate::generics::{GenericListView, ParamKind, ParamView};
use crate::method::{
    call_args, checkpoint, expectation_method, expectation_object, is_doc, kept_attrs, method_error,
    mock_method,
};
use crate::method_types::{
    all_demutified, demutified, is_static, matcher_args, matcher_params, types_of,
};
use crate::mock::{
    all_sub_items, all_trait_impls, as_impl_method, checkpoints, has_new, inherent_methods,
    methods_error, new_fn, plain_methods, sub_error, subs_error, trait_checkpoint,
    trait_checkpoints, trait_methods, traits_error, MockView,
};
use crate::parse::{described, lemma_own_methods, own_methods, trait_list};
use crate::readable::is_reserved;
use crate::structure::{
    expectation_items, macro_generics, method_field, method_fields, names_of_statics, names_of_subs,
    params_error, static_item, static_items, struct_error, struct_fields, struct_items, sub_fields,
};
use crate::syntax::{
    braces_prefix, error_call, generics_at, ident_prefix, is_printable, item_at,
    message_at, reports, visibility_at, where_clause_at, ParseErrorView,
};
use crate::tokens::{braces, colon2, is_ident, is_plain, nothing, punct, text, weight, word, Token};
use crate::trait_impl::{
    expect_items, item_error, items_error, mock_items, plain_items, trait_error, trait_plain,
};
use crate::words::{lemma_names, mock_name, mod_name, static_name, sub_field_name, sub_name};

/// The field for a trait has the structure for its type that is generated for that trait.
pub proof fn sub_structures_agree(ident: Seq<char>, trait_: Seq<char>)
    ensures
        sub_name(mock_name(ident), trait_) == mock_name(sub_name(ident, trait_)),
{
    assert(sub_name(mock_name(ident), trait_) =~= mock_name(sub_name(ident, trait_)));
}

/// The methods that set the expectations of a trait look for them in the module that is
/// generated for that trait.
pub proof fn sub_modules_agree(ident: Seq<char>, trait_: Seq<char>)
    ensures
        mod_name(ident, Some(trait_)) == mod_name(sub_name(ident, trait_), None),
{
    assert(mod_name(ident, Some(trait_)) =~= mod_name(sub_name(ident, trait_), None));
}

/// A static method of a trait uses the static that is generated for it.
pub proof fn sub_statics_agree(ident: Seq<char>, trait_: Seq<char>, method: Seq<char>)
    ensures
        static_name(mock_name(ident), Some(trait_), method) == static_name(
            mock_name(sub_name(ident, trait_)),
            None,
            method,
        ),
{
    assert(static_name(mock_name(ident), Some(trait_), method) =~= static_name(
        mock_name(sub_name(ident, trait_)),
        None,
        method,
    ));
}

/// The attributes of two lists are kept as those of one list.
pub proof fn attributes_are_kept_in_order(a: Seq<AttributeView>, b: Seq<AttributeView>)
    ensures
        kept_attrs(a + b) == kept_attrs(a) + kept_attrs(b),
    decreases b.len(),
{
    if b.len() == 0 {
        assert(a + b =~= a);
        assert(kept_attrs(a) + nothing() =~= kept_attrs(a));
    } else {
        attributes_are_kept_in_order(a, b.drop_last());
        assert((a + b).drop_last() =~= a + b.drop_last());
        assert((a + b).last() == b.last());
        assert(kept_attrs(a + b) =~= kept_attrs(a) + kept_attrs(b));
    }
}

/// Documentation is dropped from wherever it stands among the attributes.
pub proof fn documentation_is_dropped(
    before: Seq<AttributeView>,
    doc: AttributeView,
    after: Seq<AttributeView>,
)
    requires
        is_doc(doc),
    ensures
        kept_attrs(before.push(doc) + after) == kept_attrs(before + after),
{
    attributes_are_kept_in_order(before.push(doc), after);
    attributes_are_kept_in_order(before, after);
    assert(before.push(doc).drop_last() =~= before);
}

/// Whether two methods differ in nothing but documentation and blocks.
pub open spec fn same_method(a: ImplItemMethodView, b: ImplItemMethodView) -> bool {
    a.sig == b.sig && a.vis == b.vis && kept_attrs(a.attrs) == kept_attrs(b.attrs)
}

pub open spec fn same_methods(a: Seq<ImplItemMethodView>, b: Seq<ImplItemMethodView>) -> bool {
    a.len() == b.len() && forall|i: int| 0 <= i < a.len() ==> same_method(#[trigger] a[i], b[i])
}

/// Whether two items of traits differ in nothing but documentation of methods.
pub open spec fn same_item(a: ItemView, b: ItemView) -> bool {
    match (a, b) {
        (ItemView::Method(a), ItemView::Method(b)) => a.sig == b.sig && kept_attrs(a.attrs)
            == kept_attrs(b.attrs),
        _ => a == b,
    }
}

pub open spec fn same_items(a: Seq<ItemView>, b: Seq<ItemView>) -> bool {
    a.len() == b.len() && forall|i: int| 0 <= i < a.len() ==> same_item(#[trigger] a[i], b[i])
}

pub open spec fn same_trait(a: ItemTraitView, b: ItemTraitView) -> bool {
    a.unsafety == b.unsafety && a.ident == b.ident && a.generics == b.generics && same_items(
        a.items,
        b.items,
    )
}

pub open spec fn same_traits(a: Seq<ItemTraitView>, b: Seq<ItemTraitView>) -> bool {
    a.len() == b.len() && forall|i: int| 0 <= i < a.len() ==> same_trait(#[trigger] a[i], b[i])
}

/// Whether two descriptions differ in nothing but documentation and blocks of methods.
pub open spec fn same_mock(a: MockView, b: MockView) -> bool {
    a.vis == b.vis && a.name == b.name && a.generics == b.generics && same_methods(
        a.methods,
        b.methods,
    ) && same_traits(a.traits, b.traits)
}

proof fn lemma_same_methods(
    mod_ident: Seq<char>,
    mock_ident: Seq<char>,
    a: Seq<ImplItemMethodView>,
    b: Seq<ImplItemMethodView>,
)
    requires
        same_methods(a, b),
    ensures
        method_fields(mod_ident, a) == method_fields(mod_ident, b),
        expectation_items(a) == expectation_items(b),
        static_items(mod_ident, mock_ident, a) == static_items(mod_ident, mock_ident, b),
        checkpoints(mock_ident, a) == checkpoints(mock_ident, b),
        inherent_methods(word(mod_ident), mock_ident, a) == inherent_methods(
            word(mod_ident),
            mock_ident,
            b,
        ),
        methods_error(mock_ident, a) == methods_error(mock_ident, b),
        names_of_statics(a) == names_of_statics(b),
        has_new(a) == has_new(b),
        plain_methods(a) == plain_methods(b),
    decreases a.len(),
{
    if a.len() > 0 {
        let n = a.len() - 1;
        assert(same_method(a[n], b[n]));
        assert forall|i: int| 0 <= i < n implies same_method(
            #[trigger] a.drop_last()[i],
            b.drop_last()[i],
        ) by {
            assert(same_method(a[i], b[i]));
        }
        lemma_same_methods(mod_ident, mock_ident, a.drop_last(), b.drop_last());
    }
    assert forall|i: int| 0 <= i < a.len() implies (#[trigger] a[i]).sig == b[i].sig by {
        assert(same_method(a[i], b[i]));
    }
    assert(forall|i: int| 0 <= i < b.len() ==> (#[trigger] b[i]).sig == a[i].sig);
}

proof fn lemma_same_struct(
    vis: Seq<Token>,
    ident: Seq<char>,
    generics: GenericListView,
    subs: Seq<(Seq<char>, GenericListView)>,
    a: Seq<ImplItemMethodView>,
    b: Seq<ImplItemMethodView>,
)
    requires
        same_methods(a, b),
    ensures
        struct_items(vis, ident, generics, subs, a) == struct_items(vis, ident, generics, subs, b),
        struct_error(ident, generics, subs, a) == struct_error(ident, generics, subs, b),
{
    lemma_same_methods(mod_name(ident, None), mock_name(ident), a, b);
}

proof fn lemma_same_names(a: Seq<ItemView>, b: Seq<ItemView>)
    requires
        same_items(a, b),
    ensures
        plain_items(a) ==> plain_items(b),
{
    if plain_items(a) {
        assert forall|i: int| 0 <= i < b.len() implies (
            #[trigger] b[i] matches ItemView::Method(method) ==> is_plain(text(method.sig.ident))
        ) by {
            assert(same_item(a[i], b[i]));
        }
    }
}

proof fn lemma_same_items(
    struct_ident: Seq<char>,
    trait_ident: Seq<char>,
    a: Seq<ItemView>,
    b: Seq<ItemView>,
)
    requires
        same_items(a, b),
    ensures
        same_methods(trait_methods(a), trait_methods(b)),
        mock_items(struct_ident, trait_ident, a) == mock_items(struct_ident, trait_ident, b),
        expect_items(struct_ident, trait_ident, a) == expect_items(struct_ident, trait_ident, b),
        items_error(struct_ident, trait_ident, a) == items_error(struct_ident, trait_ident, b),
        plain_items(a) == plain_items(b),
    decreases a.len(),
{
    lemma_same_names(a, b);
    assert(same_items(b, a)) by {
        assert forall|i: int| 0 <= i < b.len() implies same_item(#[trigger] b[i], a[i]) by {
            assert(same_item(a[i], b[i]));
        }
    }
    lemma_same_names(b, a);
    if a.len() > 0 {
        let n = a.len() - 1;
        assert(same_item(a[n], b[n]));
        assert forall|i: int| 0 <= i < n implies same_item(
            #[trigger] a.drop_last()[i],
            b.drop_last()[i],
        ) by {
            assert(same_item(a[i], b[i]));
        }
        lemma_same_items(struct_ident, trait_ident, a.drop_last(), b.drop_last());
    }
}

proof fn lemma_same_traits(
    name: Seq<char>,
    generics: GenericListView,
    a: Seq<ItemTraitView>,
    b: Seq<ItemTraitView>,
)
    requires
        same_traits(a, b),
    ensures
        all_sub_items(name, generics, a) == all_sub_items(name, generics, b),
        subs_error(name, generics, a) == subs_error(name, generics, b),
        trait_checkpoints(a) == trait_checkpoints(b),
        all_trait_impls(name, generics, a) == all_trait_impls(name, generics, b),
        traits_error(name, a) == traits_error(name, b),
    decreases a.len(),
{
    if a.len() > 0 {
        let n = a.len() - 1;
        assert(same_trait(a[n], b[n]));
        assert forall|i: int| 0 <= i < n implies same_trait(
            #[trigger] a.drop_last()[i],
            b.drop_last()[i],
        ) by {
            assert(same_trait(a[i], b[i]));
        }
        lemma_same_traits(name, generics, a.drop_last(), b.drop_last());
        let sub_mock = sub_name(name, text(a[n].ident));
        let (x, y) = (trait_methods(a[n].items), trait_methods(b[n].items));
        lemma_same_items(name, text(a[n].ident), a[n].items, b[n].items);
        lemma_same_struct(nothing(), sub_mock, generics, Seq::empty(), x, y);
        lemma_same_methods(mod_name(name, None), mock_name(sub_mock), x, y);
    }
}

/// Neither documentation nor blocks of methods reach the generated code, or decide
/// whether there is any.
pub proof fn documentation_and_blocks_leave_no_trace(a: MockView, b: MockView)
    requires
        same_mock(a, b),
    ensures
        a.generated() == b.generated(),
        a.error() == b.error(),
        a.plain() == b.plain(),
{
    let name = text(a.name);
    assert forall|i: int| 0 <= i < a.traits.len() implies #[trigger] trait_plain(
        name,
        a.traits[i],
    ) == trait_plain(name, b.traits[i]) by {
        assert(same_trait(a.traits[i], b.traits[i]));
        lemma_same_items(name, text(a.traits[i].ident), a.traits[i].items, b.traits[i].items);
    }
    if a.plain() {
        assert forall|i: int| 0 <= i < b.traits.len() implies trait_plain(
            name,
            #[trigger] b.traits[i],
        ) by {
            assert(trait_plain(name, a.traits[i]));
        }
    }
    if b.plain() {
        assert forall|i: int| 0 <= i < a.traits.len() implies trait_plain(
            name,
            #[trigger] a.traits[i],
        ) by {
            assert(trait_plain(name, b.traits[i]));
        }
    }
    assert(a.subs() =~= b.subs()) by {
        assert forall|i: int| 0 <= i < a.traits.len() implies (#[trigger] a.traits[i]).ident
            == b.traits[i].ident by {
            assert(same_trait(a.traits[i], b.traits[i]));
        }
    }
    lemma_same_struct(a.vis, name, a.generics, a.subs(), a.methods, b.methods);
    lemma_same_methods(mod_name(name, None), mock_name(name), a.methods, b.methods);
    lemma_same_traits(name, a.generics, a.traits, b.traits);
}

/// A signature without the `mut` of its parameters.
pub open spec fn immutable(sig: SignatureView) -> SignatureView {
    SignatureView { inputs: all_demutified(sig.inputs), ..sig }
}

proof fn lemma_immutable(inputs: Seq<ArgView>)
    ensures
        all_demutified(all_demutified(inputs)) == all_demutified(inputs),
        is_static(all_demutified(inputs)) == is_static(inputs),
        call_args(all_demutified(inputs)) == call_args(inputs),
        matcher_params(all_demutified(inputs)) == matcher_params(inputs),
        matcher_args(all_demutified(inputs)) == matcher_args(inputs),
    decreases inputs.len(),
{
    let all = all_demutified(inputs);
    assert(all_demutified(all) =~= all);
    assert forall|i: int| 0 <= i < inputs.len() implies (#[trigger] all[i] is SelfRef || all[i]
        is SelfValue) == (inputs[i] is SelfRef || inputs[i] is SelfValue) by {
        assert(all[i] == demutified(inputs[i]));
    }
    if is_static(all) {
        assert forall|i: int| 0 <= i < inputs.len() implies !(#[trigger] inputs[i] is SelfRef)
            && !(inputs[i] is SelfValue) by {
            assert(!(all[i] is SelfRef) && !(all[i] is SelfValue));
        }
    }
    if inputs.len() > 0 {
        lemma_immutable(inputs.drop_last());
        assert(all.drop_last() =~= all_demutified(inputs.drop_last()));
    }
}

/// A `mut` on a parameter leaves no trace in the methods of the mock.
pub proof fn mutability_is_dropped(
    attrs: Seq<AttributeView>,
    mod_ident: Option<Seq<Token>>,
    mock_ident: Seq<char>,
    vis: Seq<Token>,
    sig: SignatureView,
    sub: Option<Seq<char>>,
)
    ensures
        mock_method(mock_ident, attrs, vis, immutable(sig), sub) == mock_method(
            mock_ident,
            attrs,
            vis,
            sig,
            sub,
        ),
        expectation_method(mod_ident, mock_ident, attrs, vis, immutable(sig), sub)
            == expectation_method(mod_ident, mock_ident, attrs, vis, sig, sub),
        checkpoint(mock_ident, attrs, immutable(sig), sub) == checkpoint(
            mock_ident,
            attrs,
            sig,
            sub,
        ),
{
    lemma_immutable(sig.inputs);
}

proof fn lemma_checkpoints(
    mock_ident: Seq<char>,
    a: Seq<ImplItemMethodView>,
    b: Seq<ImplItemMethodView>,
)
    ensures
        checkpoints(mock_ident, a + b) == checkpoints(mock_ident, a) + checkpoints(mock_ident, b),
    decreases b.len(),
{
    if b.len() == 0 {
        assert(a + b =~= a);
        assert(checkpoints(mock_ident, a) + nothing() =~= checkpoints(mock_ident, a));
    } else {
        lemma_checkpoints(mock_ident, a, b.drop_last());
        assert((a + b).drop_last() =~= a + b.drop_last());
        assert((a + b).last() == b.last());
        assert(checkpoints(mock_ident, a + b) =~= checkpoints(mock_ident, a) + checkpoints(
            mock_ident,
            b,
        ));
    }
}

/// Every method has its part in the `checkpoint` method of its structure.
pub proof fn checkpoint_covers_methods(
    mock_ident: Seq<char>,
    methods: Seq<ImplItemMethodView>,
    i: int,
)
    requires
        0 <= i < methods.len(),
    ensures
        checkpoints(mock_ident, methods) == checkpoints(mock_ident, methods.take(i)) + checkpoint(
            mock_ident,
            methods[i].attrs,
            methods[i].sig,
            None,
        ) + checkpoints(mock_ident, methods.skip(i + 1)),
{
    assert(methods =~= methods.take(i + 1) + methods.skip(i + 1));
    lemma_checkpoints(mock_ident, methods.take(i + 1), methods.skip(i + 1));
    assert(methods.take(i + 1).drop_last() =~= methods.take(i));
}

proof fn lemma_trait_checkpoints(a: Seq<ItemTraitView>, b: Seq<ItemTraitView>)
    ensures
        trait_checkpoints(a + b) == trait_checkpoints(a) + trait_checkpoints(b),
    decreases b.len(),
{
    if b.len() == 0 {
        assert(a + b =~= a);
        assert(trait_checkpoints(a) + nothing() =~= trait_checkpoints(a));
    } else {
        lemma_trait_checkpoints(a, b.drop_last());
        assert((a + b).drop_last() =~= a + b.drop_last());
        assert((a + b).last() == b.last());
        assert(trait_checkpoints(a + b) =~= trait_checkpoints(a) + trait_checkpoints(b));
    }
}

/// Every trait has its part in the `checkpoint` method of the structure.
pub proof fn checkpoint_covers_traits(traits: Seq<ItemTraitView>, i: int)
    requires
        0 <= i < traits.len(),
    ensures
        trait_checkpoints(traits) == trait_checkpoints(traits.take(i)) + trait_checkpoint(
            text(traits[i].ident),
        ) + trait_checkpoints(traits.skip(i + 1)),
{
    assert(traits =~= traits.take(i + 1) + traits.skip(i + 1));
    lemma_trait_checkpoints(traits.take(i + 1), traits.skip(i + 1));
    assert(traits.take(i + 1).drop_last() =~= traits.take(i));
}

/// A mock structure has a `new` method of its own or is given one, and the traits have
/// no say in it.
pub proof fn new_is_added_unless_present(mock: MockView, traits: Seq<ItemTraitView>)
    ensures
        has_new(mock.methods) ==> mock.body() == mock.given_body(),
        !has_new(mock.methods) ==> mock.body() == mock.given_body() + new_fn(),
        ({
            let other = MockView { traits, ..mock };
            (mock.body() == mock.given_body()) == (other.body() == other.given_body())
        }),
{
    let other = MockView { traits, ..mock };
    let added = new_fn();
    assert(added.len() > 0);
    assert((mock.given_body() + added).len() != mock.given_body().len());
    assert((other.given_body() + added).len() != other.given_body().len());
}

/// The place of a method among the fields: after those of the methods before it.
proof fn lemma_method_fields(mod_ident: Seq<char>, methods: Seq<ImplItemMethodView>, i: int)
    requires
        0 <= i < methods.len(),
        !types_of(methods[i].sig).is_static,
    ensures
        ({
            let fields = method_fields(mod_ident, methods);
            let place = method_fields(mod_ident, methods.take(i)).len() as int;
            place < fields.len() && fields[place] == method_field(mod_ident, methods[i])
        }),
    decreases methods.len(),
{
    if i == methods.len() - 1 {
        assert(methods.take(i) =~= methods.drop_last());
    } else {
        assert(methods.drop_last().take(i) =~= methods.take(i));
        lemma_method_fields(mod_ident, methods.drop_last(), i);
    }
}

proof fn lemma_static_items(
    mod_ident: Seq<char>,
    mock_ident: Seq<char>,
    a: Seq<ImplItemMethodView>,
    b: Seq<ImplItemMethodView>,
)
    ensures
        static_items(mod_ident, mock_ident, a + b) == static_items(mod_ident, mock_ident, a)
            + static_items(mod_ident, mock_ident, b),
    decreases b.len(),
{
    if b.len() == 0 {
        assert(a + b =~= a);
        assert(static_items(mod_ident, mock_ident, a) + nothing() =~= static_items(
            mod_ident,
            mock_ident,
            a,
        ));
    } else {
        lemma_static_items(mod_ident, mock_ident, a, b.drop_last());
        assert((a + b).drop_last() =~= a + b.drop_last());
        assert((a + b).last() == b.last());
        assert(static_items(mod_ident, mock_ident, a + b) =~= static_items(mod_ident, mock_ident, a)
            + static_items(mod_ident, mock_ident, b));
    }
}

/// The expectations of a method with a `self` are in a field of the structure, which is
/// named like the method; those of another method are in a static.
pub proof fn methods_have_a_home(
    ident: Seq<char>,
    generics: GenericListView,
    subs: Seq<(Seq<char>, GenericListView)>,
    methods: Seq<ImplItemMethodView>,
    i: int,
)
    requires
        0 <= i < methods.len(),
    ensures
        !types_of(methods[i].sig).is_static ==> struct_fields(
            ident,
            generics,
            subs,
            methods,
        ).contains(method_field(mod_name(ident, None), methods[i])),
        types_of(methods[i].sig).is_static ==> ({
            let mod_ident = mod_name(ident, None);
            let mock_ident = mock_name(ident);
            static_items(mod_ident, mock_ident, methods) == static_items(
                mod_ident,
                mock_ident,
                methods.take(i),
            ) + static_item(mod_ident, mock_ident, methods[i]) + static_items(
                mod_ident,
                mock_ident,
                methods.skip(i + 1),
            )
        }),
{
    let mod_ident = mod_name(ident, None);
    let mock_ident = mock_name(ident);
    if types_of(methods[i].sig).is_static {
        assert(methods =~= methods.take(i + 1) + methods.skip(i + 1));
        lemma_static_items(mod_ident, mock_ident, methods.take(i + 1), methods.skip(i + 1));
        assert(methods.take(i + 1).drop_last() =~= methods.take(i));
    } else {
        lemma_method_fields(mod_ident, methods, i);
        let place = method_fields(mod_ident, methods.take(i)).len() as int;
        let fields = struct_fields(ident, generics, subs, methods);
        assert(fields[sub_fields(mock_ident, subs).len() + place] == method_field(
            mod_ident,
            methods[i],
        ));
    }
}

/// The place of a method of a trait among the methods of that trait.
proof fn lemma_trait_methods(items: Seq<ItemView>, i: int)
    requires
        0 <= i < items.len(),
        items[i] is Method,
    ensures
        ({
            let methods = trait_methods(items);
            let place = trait_methods(items.take(i)).len() as int;
            place < methods.len() && methods[place] == as_impl_method(items[i]->Method_0)
        }),
    decreases items.len(),
{
    if i == items.len() - 1 {
        assert(items.take(i) =~= items.drop_last());
    } else {
        assert(items.drop_last().take(i) =~= items.take(i));
        lemma_trait_methods(items.drop_last(), i);
    }
}

/// The method of a trait finds its expectations: the structure has the field that the
/// method goes through, that field has the type of the structure that is generated for
/// the trait, and that structure has a field for the method, in the module in which the
/// expectations are set.
pub proof fn trait_methods_find_their_expectations(mock: MockView, k: int, i: int)
    requires
        0 <= k < mock.traits.len(),
        0 <= i < mock.traits[k].items.len(),
        mock.traits[k].items[i] is Method,
        !types_of(mock.traits[k].items[i]->Method_0.sig).is_static,
    ensures
        ({
            let trait_ = mock.traits[k];
            let name = text(mock.name);
            let sub_mock = sub_name(name, text(trait_.ident));
            let sig = trait_.items[i]->Method_0.sig;
            let fields = struct_fields(name, mock.generics, mock.subs(), mock.methods);
            let sub_fields = struct_fields(
                sub_mock,
                mock.generics,
                Seq::empty(),
                trait_methods(trait_.items),
            );
            &&& 0 <= k < fields.len()
            &&& fields[k].name == word(sub_field_name(text(trait_.ident)))
            &&& fields[k].ty == word(mock_name(sub_mock)) + mock.generics.for_type()
            &&& exists|j: int|
                {
                    &&& 0 <= j < sub_fields.len()
                    &&& (#[trigger] sub_fields[j]).name == sig.ident
                    &&& sub_fields[j].ty == word(mod_name(name, Some(text(trait_.ident))))
                        + colon2() + types_of(sig).expect_obj
                }
        }),
{
    let trait_ = mock.traits[k];
    let sub_mock = sub_name(text(mock.name), text(trait_.ident));
    sub_structures_agree(text(mock.name), text(trait_.ident));
    sub_modules_agree(text(mock.name), text(trait_.ident));
    let methods = trait_methods(trait_.items);
    lemma_trait_methods(trait_.items, i);
    let place = trait_methods(trait_.items.take(i)).len() as int;
    methods_have_a_home(sub_mock, mock.generics, Seq::empty(), methods, place);
    let fields = struct_fields(sub_mock, mock.generics, Seq::empty(), methods);
    let field = method_field(mod_name(sub_mock, None), methods[place]);
    let j = choose|j: int| 0 <= j < fields.len() && fields[j] == field;
    assert(fields[j] == field);
}

/// The static method of a trait finds its expectations: the static that the method goes
/// through is declared along with the structure that is generated for the trait, in terms
/// of the module in which the expectations are set.
pub proof fn static_trait_methods_find_their_expectations(mock: MockView, k: int, i: int)
    requires
        0 <= k < mock.traits.len(),
        0 <= i < mock.traits[k].items.len(),
        mock.traits[k].items[i] is Method,
        types_of(mock.traits[k].items[i]->Method_0.sig).is_static,
    ensures
        ({
            let trait_ = mock.traits[k];
            let method = trait_.items[i]->Method_0;
            let sub_mock = sub_name(text(mock.name), text(trait_.ident));
            let mock_ident = mock_name(sub_mock);
            let mod_ident = mod_name(sub_mock, None);
            let methods = trait_methods(trait_.items);
            let place = trait_methods(trait_.items.take(i)).len() as int;
            &&& expectation_object(
                mock_name(text(mock.name)),
                method.sig,
                Some(text(trait_.ident)),
            ) == word(static_name(mock_ident, None, text(method.sig.ident)))
            &&& mod_ident == mod_name(text(mock.name), Some(text(trait_.ident)))
            &&& static_items(mod_ident, mock_ident, methods) == static_items(
                mod_ident,
                mock_ident,
                methods.take(place),
            ) + static_item(mod_ident, mock_ident, as_impl_method(method)) + static_items(
                mod_ident,
                mock_ident,
                methods.skip(place + 1),
            )
        }),
{
    let trait_ = mock.traits[k];
    let sub_mock = sub_name(text(mock.name), text(trait_.ident));
    let methods = trait_methods(trait_.items);
    let ident = text(trait_.items[i]->Method_0.sig.ident);
    sub_modules_agree(text(mock.name), text(trait_.ident));
    sub_statics_agree(text(mock.name), text(trait_.ident), ident);
    lemma_trait_methods(trait_.items, i);
    let place = trait_methods(trait_.items.take(i)).len() as int;
    methods_have_a_home(sub_mock, mock.generics, Seq::empty(), methods, place);
}

/// `expectation!` gets the generic parameters of a method in angle brackets, even where
/// there are none.
pub proof fn expectation_generics_are_bracketed(params: Seq<ParamView>)
    ensures
        macro_generics(params).len() >= 2,
        macro_generics(params).first() == punct('<')[0],
        macro_generics(params).last() == punct('>')[0],
{
}

/// What is read as a description has public inherent methods that are not defaults and have
/// empty blocks.
pub proof fn described_methods_are_public_and_empty(tokens: Seq<Token>)
    ensures
        described(tokens) matches Ok(mock) ==> {
            &&& mock.well_formed()
            &&& forall|i: int|
                0 <= i < mock.methods.len() ==> {
                    &&& (#[trigger] mock.methods[i]).vis == word("pub"@)
                    &&& mock.methods[i].defaultness == nothing()
                }
        },
{
    if let Ok((_, tokens, _)) = visibility_at(tokens) {
        if let Ok((_, tokens)) = ident_prefix(tokens) {
            if let Ok((_, tokens, _)) = generics_at(tokens) {
                if let Ok((_, tokens, _)) = where_clause_at(tokens) {
                    if let Ok((content, rest)) = braces_prefix(tokens) {
                        lemma_own_methods(content, rest);
                    }
                }
            }
        }
    }
}

/// An item of the structure itself that is no method is reported as unsupported, at the
/// tokens behind the braces, whatever methods stand before it.
pub proof fn own_items_are_methods(
    content: Seq<Token>,
    rest: Seq<Token>,
    item: ItemView,
    more: Seq<Token>,
    stray: bool,
)
    requires
        content.len() > 0,
        item_at(content) == Ok::<
            (ItemView, Seq<Token>, bool),
            ParseErrorView,
        >((item, more, stray)),
        weight(more) < weight(content),
    ensures
        !(item is Method) ==> own_methods(content, rest) == Err::<
            (Seq<ImplItemMethodView>, bool),
            ParseErrorView,
        >(ParseErrorView::Syntax(message_at(rest, "Unsupported in this context"@))),
        item is Method && own_methods(more, rest) is Err ==> own_methods(content, rest)
            == own_methods(more, rest),
{
}

/// A name that is not reserved and empty braces describe a structure that has nothing, and
/// is public where `pub` stands before the name.
pub proof fn bare_structures_are_described(public: bool, name: Seq<char>)
    requires
        !is_reserved(name),
    ensures
        ({
            let vis = if public {
                word("pub"@)
            } else {
                nothing()
            };
            let generics = GenericListView { params: Seq::empty(), where_clause: nothing() };
            described(vis + word(name) + braces(nothing())) == Ok::<MockView, ParseErrorView>(
                MockView {
                    vis,
                    name: word(name),
                    generics,
                    methods: Seq::empty(),
                    traits: Seq::empty(),
                },
            )
        }),
{
    let vis = if public {
        word("pub"@)
    } else {
        nothing()
    };
    let body = braces(nothing());
    let named = word(name) + body;
    let tokens = vis + word(name) + body;
    assert(tokens =~= vis + named);
    assert(public ==> tokens.drop_first() =~= named);
    assert(!public ==> tokens =~= named);
    assert(visibility_at(tokens) matches Ok((v, t, false)) && v == vis && t == named);
    assert(named.take(1) =~= word(name));
    assert(named.drop_first() =~= body);
    assert(body.drop_first() =~= nothing());
    assert(own_methods(nothing(), nothing()) == Ok::<
        (Seq<ImplItemMethodView>, bool),
        ParseErrorView,
    >((Seq::empty(), false)));
    assert(trait_list(nothing()) == Ok::<(Seq<ItemTraitView>, bool), ParseErrorView>(
        (Seq::empty(), false),
    ));
}

/// The messages that are the library's own are reported word for word.
pub proof fn own_messages_are_reported(code: Seq<Token>, rest: Seq<Token>, text: Seq<char>)
    requires
        ({
            ||| text == message_at(rest, "Unsupported in this context"@)
            ||| text == message_at(rest, "expected identifier"@)
            ||| text == message_at(rest, "expected curly braces"@)
            ||| text == "unexpected token"@
        }),
        reports(code, text),
    ensures
        code == error_call(seq!['"'] + text + seq!['"']),
{
    reveal_strlit("unexpected end of input, ");
    reveal_strlit("Unsupported in this context");
    reveal_strlit("expected identifier");
    reveal_strlit("expected curly braces");
    reveal_strlit("unexpected token");
    assert(is_printable(text));
}

/// Whether a generic parameter of a structure is one that a mock can make use of.
pub open spec fn supported_param(param: ParamView) -> bool {
    match param.kind {
        ParamKind::Lifetime => !param.bounded,
        ParamKind::Type => true,
        ParamKind::Const => false,
    }
}

/// Whether a method is one that can be mocked.
pub open spec fn supported_method(sig: SignatureView) -> bool {
    &&& !sig.variadic
    &&& is_ident(text(sig.ident))
    &&& forall|i: int| 0 <= i < sig.inputs.len() ==> !(#[trigger] sig.inputs[i] is Other)
}

/// Whether an item of a trait is one that can be mocked.
pub open spec fn supported_item(item: ItemView) -> bool {
    match item {
        ItemView::Const => true,
        ItemView::Method(method) => supported_method(method.sig),
        ItemView::Type(ty) => !ty.generic && ty.concrete,
        ItemView::Other => false,
    }
}

pub open spec fn supported_trait(trait_: ItemTraitView) -> bool {
    &&& is_ident(text(trait_.ident))
    &&& forall|i: int| 0 <= i < trait_.items.len() ==> supported_item(#[trigger] trait_.items[i])
}

/// Whether all parts of a description can be mocked.
pub open spec fn supported(mock: MockView) -> bool {
    &&& is_ident(text(mock.name))
    &&& forall|i: int|
        0 <= i < mock.generics.params.len() ==> supported_param(#[trigger] mock.generics.params[i])
    &&& forall|i: int|
        0 <= i < mock.methods.len() ==> supported_method((#[trigger] mock.methods[i]).sig)
    &&& forall|i: int| 0 <= i < mock.traits.len() ==> supported_trait(#[trigger] mock.traits[i])
}

proof fn lemma_params(params: Seq<ParamView>)
    ensures
        params_error(params) is None <==> forall|i: int|
            0 <= i < params.len() ==> supported_param(#[trigger] params[i]),
    decreases params.len(),
{
    if params.len() > 0 {
        let before = params.drop_last();
        lemma_params(before);
        assert(forall|i: int| 0 <= i < before.len() ==> #[trigger] params[i] == before[i]);
        if params_error(params) is None {
            assert forall|i: int| 0 <= i < params.len() implies supported_param(
                #[trigger] params[i],
            ) by {
                if i < before.len() {
                    assert(supported_param(before[i]));
                }
            }
        }
        if forall|i: int| 0 <= i < params.len() ==> supported_param(#[trigger] params[i]) {
            assert forall|i: int| 0 <= i < before.len() implies supported_param(
                #[trigger] before[i],
            ) by {
                assert(supported_param(params[i]));
            }
            assert(supported_param(params[params.len() - 1]));
        }
    }
}

proof fn lemma_methods(mock_ident: Seq<char>, methods: Seq<ImplItemMethodView>)
    requires
        is_ident(mock_ident),
    ensures
        methods_error(mock_ident, methods) is None <==> forall|i: int|
            0 <= i < methods.len() ==> supported_method((#[trigger] methods[i]).sig),
    decreases methods.len(),
{
    if methods.len() > 0 {
        let before = methods.drop_last();
        let last = methods[methods.len() - 1];
        lemma_methods(mock_ident, before);
        assert(forall|i: int| 0 <= i < before.len() ==> #[trigger] methods[i] == before[i]);
        assert(method_error(mock_ident, last.sig, None) is None
            <==> supported_method(last.sig));
        if methods_error(mock_ident, methods) is None {
            assert forall|i: int| 0 <= i < methods.len() implies supported_method(
                (#[trigger] methods[i]).sig,
            ) by {
                if i < before.len() {
                    assert(supported_method(before[i].sig));
                }
            }
        }
        if forall|i: int| 0 <= i < methods.len() ==> supported_method((#[trigger] methods[i]).sig) {
            assert forall|i: int| 0 <= i < before.len() implies supported_method(
                (#[trigger] before[i]).sig,
            ) by {
                assert(supported_method(methods[i].sig));
            }
            assert(supported_method(methods[methods.len() - 1].sig));
        }
    }
}

/// The methods of a trait can be mocked where all its items can.
proof fn lemma_trait_methods_supported(items: Seq<ItemView>)
    requires
        forall|i: int| 0 <= i < items.len() ==> supported_item(#[trigger] items[i]),
    ensures
        forall|i: int|
            0 <= i < trait_methods(items).len() ==> supported_method(
                (#[trigger] trait_methods(items)[i]).sig,
            ),
    decreases items.len(),
{
    if items.len() > 0 {
        let before = items.drop_last();
        assert forall|i: int| 0 <= i < before.len() implies supported_item(
            #[trigger] before[i],
        ) by {
            assert(supported_item(items[i]));
        }
        lemma_trait_methods_supported(before);
        assert(supported_item(items[items.len() - 1]));
    }
}

proof fn lemma_items(struct_ident: Seq<char>, trait_ident: Seq<char>, items: Seq<ItemView>)
    requires
        is_ident(struct_ident),
        is_ident(trait_ident),
    ensures
        items_error(struct_ident, trait_ident, items) is None <==> forall|i: int|
            0 <= i < items.len() ==> supported_item(#[trigger] items[i]),
    decreases items.len(),
{
    if items.len() > 0 {
        let before = items.drop_last();
        let last = items[items.len() - 1];
        lemma_names(struct_ident, trait_ident, trait_ident);
        lemma_items(struct_ident, trait_ident, before);
        assert(forall|i: int| 0 <= i < before.len() ==> #[trigger] items[i] == before[i]);
        assert(item_error(struct_ident, trait_ident, last) is None <==> supported_item(last));
        if items_error(struct_ident, trait_ident, items) is None {
            assert forall|i: int| 0 <= i < items.len() implies supported_item(
                #[trigger] items[i],
            ) by {
                if i < before.len() {
                    assert(supported_item(before[i]));
                }
            }
        }
        if forall|i: int| 0 <= i < items.len() ==> supported_item(#[trigger] items[i]) {
            assert forall|i: int| 0 <= i < before.len() implies supported_item(
                #[trigger] before[i],
            ) by {
                assert(supported_item(items[i]));
            }
            assert(supported_item(items[items.len() - 1]));
        }
    }
}

proof fn lemma_traits(name: Seq<char>, traits: Seq<ItemTraitView>)
    requires
        is_ident(name),
        forall|i: int| 0 <= i < traits.len() ==> is_ident(text((#[trigger] traits[i]).ident)),
    ensures
        traits_error(name, traits) is None <==> forall|i: int|
            0 <= i < traits.len() ==> supported_trait(#[trigger] traits[i]),
    decreases traits.len(),
{
    if traits.len() > 0 {
        let before = traits.drop_last();
        let last = traits[traits.len() - 1];
        assert forall|i: int| 0 <= i < before.len() implies is_ident(
            text((#[trigger] before[i]).ident),
        ) by {
            assert(is_ident(text(traits[i].ident)));
        }
        lemma_traits(name, before);
        assert(is_ident(text(last.ident)));
        lemma_items(name, text(last.ident), last.items);
        assert(forall|i: int| 0 <= i < before.len() ==> #[trigger] traits[i] == before[i]);
        assert(trait_error(name, last) is None <==> supported_trait(last));
        if traits_error(name, traits) is None {
            assert forall|i: int| 0 <= i < traits.len() implies supported_trait(
                #[trigger] traits[i],
            ) by {
                if i < before.len() {
                    assert(supported_trait(before[i]));
                }
            }
        }
        if forall|i: int| 0 <= i < traits.len() ==> supported_trait(#[trigger] traits[i]) {
            assert forall|i: int| 0 <= i < before.len() implies supported_trait(
                #[trigger] before[i],
            ) by {
                assert(supported_trait(traits[i]));
            }
            assert(supported_trait(traits[traits.len() - 1]));
        }
    }
}

/// Traits that can be mocked have structures that hold their expectations.
proof fn lemma_subs(name: Seq<char>, generics: GenericListView, traits: Seq<ItemTraitView>)
    requires
        is_ident(name),
        params_error(generics.params) is None,
        forall|i: int| 0 <= i < traits.len() ==> supported_trait(#[trigger] traits[i]),
    ensures
        subs_error(name, generics, traits) is None,
    decreases traits.len(),
{
    if traits.len() > 0 {
        let before = traits.drop_last();
        let last = traits[traits.len() - 1];
        assert forall|i: int| 0 <= i < before.len() implies supported_trait(
            #[trigger] before[i],
        ) by {
            assert(supported_trait(traits[i]));
        }
        lemma_subs(name, generics, before);
        assert(supported_trait(last));
        let ident = text(last.ident);
        let sub_mock = sub_name(name, ident);
        let methods = trait_methods(last.items);
        lemma_names(name, ident, ident);
        lemma_names(sub_mock, sub_mock, sub_mock);
        lemma_trait_methods_supported(last.items);
        lemma_methods(mock_name(sub_mock), methods);
        assert(names_of_statics(methods));
        assert(sub_error(name, generics, last) is None);
    }
}

/// Code is generated for no description but one whose parts can all be mocked, and for
/// each of these whose names are plain.
pub proof fn supported_descriptions_are_mocked(
    mock: MockView,
    r: Result<TokenStream, MockError>,
)
    requires
        comes_to(r, mock.error(), mock.plain()),
    ensures
        mock.error() is None <==> supported(mock),
        r is Ok ==> supported(mock),
        supported(mock) && mock.plain() ==> r is Ok,
{
    let name = text(mock.name);
    let subs = mock.subs();
    lemma_params(mock.generics.params);
    if is_ident(name) {
        lemma_names(name, name, name);
        lemma_methods(mock_name(name), mock.methods);
    }
    assert(forall|i: int|
        0 <= i < subs.len() ==> #[trigger] subs[i].0 == text(mock.traits[i].ident));
    if supported(mock) {
        assert forall|i: int| 0 <= i < mock.traits.len() implies is_ident(
            text((#[trigger] mock.traits[i]).ident),
        ) by {
            assert(supported_trait(mock.traits[i]));
        }
        lemma_subs(name, mock.generics, mock.traits);
        lemma_traits(name, mock.traits);
        assert(names_of_subs(subs));
        assert forall|i: int|
            0 <= i < mock.methods.len() && types_of(
                (#[trigger] mock.methods[i]).sig,
            ).is_static implies is_ident(text(mock.methods[i].sig.ident)) by {
            assert(supported_method(mock.methods[i].sig));
        }
        assert(names_of_statics(mock.methods));
    }
    if mock.error() is None {
        assert forall|i: int| 0 <= i < mock.traits.len() implies is_ident(
            text((#[trigger] mock.traits[i]).ident),
        ) by {
            assert(is_ident(subs[i].0));
        }
        lemma_traits(name, mock.traits);
    }
}

} // verus!
