//! What holds of the reasons for which there is no mock.

use crate::error::MockError;
use proc_macro2::TokenStream;
use vstd::prelude::*;

verus! {

use crate::ast::{ImplItemMethodView, ItemTraitView, ItemView, SignatureView};
use crate::error::comes_to;
use crate::generics::{GenericListView, ParamKind, ParamView};
use crate::method::{method_error, method_plain};
use crate::mock::{methods_error, subs_error, trait_methods, traits_error, MockView};
use crate::structure::{params_error, struct_error, struct_plain};
use crate::tokens::{is_ident, is_plain, text};
use crate::trait_impl::{items_error, trait_error, trait_plain};

/// A method is refused for a variable number of arguments before all else, for a name that
/// is needed and is no identifier, and for a parameter that is not a pattern with a type; for
/// nothing else.  A method without a `self` needs the name of the structure and its own name
/// for its static, before its parameters are looked at.
pub proof fn methods_are_refused_for_reasons(
    mock_ident: Seq<char>,
    sig: SignatureView,
    sub: Option<Seq<char>>,
)
    ensures
        ({
            let error = method_error(mock_ident, sig, sub);
            let named = is_ident(text(sig.ident));
            let without_self = forall|i: int|
                0 <= i < sig.inputs.len() ==> !(#[trigger] sig.inputs[i] is SelfRef)
                    && !(sig.inputs[i] is SelfValue);
            let ready = (sub matches Some(sub) ==> is_ident(sub)) && (without_self ==> named
                && is_ident(mock_ident));
            let captured = forall|i: int|
                0 <= i < sig.inputs.len() ==> !(#[trigger] sig.inputs[i] is Other);
            &&& error is None <==> !sig.variadic && ready && captured && named
            &&& error == Some(MockError::Variadic) <==> sig.variadic
            &&& error == Some(MockError::Argument) <==> !sig.variadic && ready && !captured
            &&& error == Some(MockError::Name) <==> !sig.variadic && (!ready || captured && !named)
        }),
{
}

/// A generic parameter of a structure is refused where it is a lifetime with bounds or a
/// constant, and the first one that is refused decides.
pub proof fn first_parameter_decides(a: Seq<ParamView>, b: Seq<ParamView>, param: ParamView)
    ensures
        params_error(Seq::empty()) is None,
        params_error(seq![param]) == if param.kind == ParamKind::Const {
            Some(MockError::ConstParameter)
        } else if param.kind == ParamKind::Lifetime && param.bounded {
            Some(MockError::LifetimeBounds)
        } else {
            None
        },
        params_error(a + b) == if params_error(a) is Some {
            params_error(a)
        } else {
            params_error(b)
        },
    decreases b.len(),
{
    assert(seq![param].drop_last() =~= Seq::empty());
    if b.len() == 0 {
        assert(a + b =~= a);
    } else {
        assert((a + b).drop_last() =~= a + b.drop_last());
        assert((a + b).last() == b.last());
        first_parameter_decides(a, b.drop_last(), param);
    }
}

/// The first method of a structure that is refused decides.
pub proof fn first_method_decides(
    mock_ident: Seq<char>,
    a: Seq<ImplItemMethodView>,
    b: Seq<ImplItemMethodView>,
    method: ImplItemMethodView,
)
    ensures
        methods_error(mock_ident, Seq::empty()) is None,
        methods_error(mock_ident, seq![method]) == method_error(mock_ident, method.sig, None),
        methods_error(mock_ident, a + b) == if methods_error(mock_ident, a) is Some {
            methods_error(mock_ident, a)
        } else {
            methods_error(mock_ident, b)
        },
    decreases b.len(),
{
    assert(seq![method].drop_last() =~= Seq::empty());
    if b.len() == 0 {
        assert(a + b =~= a);
    } else {
        assert((a + b).drop_last() =~= a + b.drop_last());
        assert((a + b).last() == b.last());
        first_method_decides(mock_ident, a, b.drop_last(), method);
    }
}

/// Of the items of a trait a constant is never refused, a method for its own reasons or for
/// the name of the trait, a type where it has generic parameters or is not given, and
/// anything else always.  The first item that is refused decides.
pub proof fn first_item_decides(
    struct_ident: Seq<char>,
    trait_ident: Seq<char>,
    a: Seq<ItemView>,
    b: Seq<ItemView>,
    item: ItemView,
)
    ensures
        items_error(struct_ident, trait_ident, Seq::empty()) is None,
        items_error(struct_ident, trait_ident, seq![item]) == match item {
            ItemView::Const => None,
            ItemView::Method(method) => if is_ident(trait_ident) {
                method_error("Mock"@ + struct_ident, method.sig, Some(trait_ident))
            } else {
                Some(MockError::Name)
            },
            ItemView::Type(ty) => if ty.generic {
                Some(MockError::GenericAssociatedType)
            } else if !ty.concrete {
                Some(MockError::OpenAssociatedType)
            } else {
                None
            },
            ItemView::Other => Some(MockError::TraitItem),
        },
        items_error(struct_ident, trait_ident, a + b) == if items_error(
            struct_ident,
            trait_ident,
            a,
        ) is Some {
            items_error(struct_ident, trait_ident, a)
        } else {
            items_error(struct_ident, trait_ident, b)
        },
    decreases b.len(),
{
    assert(seq![item].drop_last() =~= Seq::empty());
    if b.len() == 0 {
        assert(a + b =~= a);
    } else {
        assert((a + b).drop_last() =~= a + b.drop_last());
        assert((a + b).last() == b.last());
        first_item_decides(struct_ident, trait_ident, a, b.drop_last(), item);
    }
}

/// A structure is refused for a name first: its own, that of a trait, or that of a method
/// without a `self`.  Its generic parameters come after that.
pub proof fn structures_are_refused_for_reasons(
    ident: Seq<char>,
    generics: GenericListView,
    subs: Seq<(Seq<char>, GenericListView)>,
    methods: Seq<ImplItemMethodView>,
)
    ensures
        ({
            let named = is_ident(ident) && (forall|i: int|
                0 <= i < subs.len() ==> is_ident((#[trigger] subs[i]).0)) && forall|i: int|
                0 <= i < methods.len() && (forall|j: int|
                    0 <= j < methods[i].sig.inputs.len() ==> !(
                    #[trigger] methods[i].sig.inputs[j] is SelfRef) && !(methods[i].sig.inputs[j]
                        is SelfValue)) ==> is_ident(text((#[trigger] methods[i]).sig.ident));
            struct_error(ident, generics, subs, methods) == if named {
                params_error(generics.params)
            } else {
                Some(MockError::Name)
            }
        }),
{
}

/// A trait is refused for the name of the structure, and then for its items.
pub proof fn traits_are_refused_for_reasons(struct_ident: Seq<char>, item: ItemTraitView)
    ensures
        trait_error(struct_ident, item) == if is_ident(struct_ident) {
            items_error(struct_ident, text(item.ident), item.items)
        } else {
            Some(MockError::Name)
        },
{
}

/// The first trait decides that is refused, be it for the structure that would hold its
/// expectations or for its implementation.
pub proof fn first_trait_decides(
    name: Seq<char>,
    generics: GenericListView,
    a: Seq<ItemTraitView>,
    b: Seq<ItemTraitView>,
    trait_: ItemTraitView,
)
    ensures
        subs_error(name, generics, Seq::empty()) is None,
        subs_error(name, generics, seq![trait_]) == ({
            let ident = name + "_"@ + text(trait_.ident);
            let methods = trait_methods(trait_.items);
            let error = struct_error(ident, generics, Seq::empty(), methods);
            if error is Some {
                error
            } else {
                methods_error("Mock"@ + ident, methods)
            }
        }),
        subs_error(name, generics, a + b) == if subs_error(name, generics, a) is Some {
            subs_error(name, generics, a)
        } else {
            subs_error(name, generics, b)
        },
        traits_error(name, Seq::empty()) is None,
        traits_error(name, seq![trait_]) == trait_error(name, trait_),
        traits_error(name, a + b) == if traits_error(name, a) is Some {
            traits_error(name, a)
        } else {
            traits_error(name, b)
        },
    decreases b.len(),
{
    assert(seq![trait_].drop_last() =~= Seq::empty());
    assert(seq![trait_].last() == trait_);
    if b.len() == 0 {
        assert(a + b =~= a);
    } else {
        assert((a + b).drop_last() =~= a + b.drop_last());
        assert((a + b).last() == b.last());
        first_trait_decides(name, generics, a, b.drop_last(), trait_);
    }
}

/// A description is refused for the mock structure, for the structures of its traits, for
/// its methods and for the implementations of its traits, and the first of these decides.
pub proof fn first_reason_decides(mock: MockView)
    ensures
        ({
            let name = text(mock.name);
            let subs = mock.traits.map_values(
                |trait_: ItemTraitView| (text(trait_.ident), mock.generics),
            );
            let reasons = seq![
                struct_error(name, mock.generics, subs, mock.methods),
                subs_error(name, mock.generics, mock.traits),
                methods_error("Mock"@ + name, mock.methods),
                traits_error(name, mock.traits),
            ];
            &&& mock.error() is None <==> forall|i: int|
                0 <= i < reasons.len() ==> #[trigger] reasons[i] is None
            &&& forall|i: int|
                0 <= i < reasons.len() && #[trigger] reasons[i] is Some && (forall|j: int|
                    0 <= j < i ==> #[trigger] reasons[j] is None) ==> mock.error() == reasons[i]
        }),
{
    let name = text(mock.name);
    let subs = mock.traits.map_values(
        |trait_: ItemTraitView| (text(trait_.ident), mock.generics),
    );
    assert(mock.subs() =~= subs);
    let reasons = seq![
        struct_error(name, mock.generics, subs, mock.methods),
        subs_error(name, mock.generics, mock.traits),
        methods_error("Mock"@ + name, mock.methods),
        traits_error(name, mock.traits),
    ];
    assert(mock.error() == if reasons[0] is Some {
        reasons[0]
    } else if reasons[1] is Some {
        reasons[1]
    } else if reasons[2] is Some {
        reasons[2]
    } else {
        reasons[3]
    });
    assert forall|i: int|
        0 <= i < reasons.len() && #[trigger] reasons[i] is Some && (forall|j: int|
            0 <= j < i ==> #[trigger] reasons[j] is None) implies mock.error() == reasons[i] by {
        assert(i > 0 ==> reasons[0] is None);
        assert(i > 1 ==> reasons[1] is None);
        assert(i > 2 ==> reasons[2] is None);
    }
    if forall|i: int| 0 <= i < reasons.len() ==> #[trigger] reasons[i] is None {
        assert(reasons[0] is None && reasons[1] is None && reasons[2] is None && reasons[3]
            is None);
    }
}

/// A refusal is one for the reason that there is, and success comes where there is none.
/// Nothing but names that are not plain can be refused beyond that, and then for the name.
pub proof fn plain_names_leave_no_choice(
    r: Result<TokenStream, MockError>,
    error: Option<MockError>,
    plain: bool,
)
    requires
        comes_to(r, error, plain),
    ensures
        r is Ok ==> error is None,
        plain ==> match error {
            Some(error) => r == Err::<TokenStream, MockError>(error),
            None => r is Ok,
        },
        r matches Err(e) ==> error == Some(e) || e == MockError::Name,
{
}

/// The names that have to be plain are those that other names are made of.
pub proof fn names_are_plain_throughout(
    mock: MockView,
    item: ItemTraitView,
    sig: SignatureView,
    ident: Seq<char>,
    sub: Seq<char>,
    subs: Seq<(Seq<char>, GenericListView)>,
)
    ensures
        is_plain(ident) && is_plain(text(sig.ident)) ==> method_plain(ident, sig, None),
        is_plain(ident) && is_plain(text(sig.ident)) && is_plain(sub) ==> method_plain(
            ident,
            sig,
            Some(sub),
        ),
        is_plain(ident) && (forall|i: int|
            0 <= i < subs.len() ==> is_plain((#[trigger] subs[i]).0)) && (forall|i: int|
            0 <= i < mock.methods.len() ==> is_plain(
                text((#[trigger] mock.methods[i]).sig.ident),
            )) ==> struct_plain(ident, subs, mock.methods),
        is_plain(ident) && is_plain(text(item.ident)) && (forall|i: int|
            0 <= i < item.items.len() && #[trigger] item.items[i] is Method ==> is_plain(
                text(item.items[i]->Method_0.sig.ident),
            )) ==> trait_plain(ident, item),
        is_plain(text(mock.name)) && (forall|i: int|
            0 <= i < mock.methods.len() ==> is_plain(
                text((#[trigger] mock.methods[i]).sig.ident),
            )) && (forall|k: int|
            0 <= k < mock.traits.len() ==> trait_plain(
                text(mock.name),
                #[trigger] mock.traits[k],
            )) ==> mock.plain(),
{
}

} // verus!
