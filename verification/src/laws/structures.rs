//! What holds of the mock structure: its fields, its module and its statics.

use crate::laws::lists::{lemma_filter_map, lemma_flat_map};
use crate::laws::names::numbered_names_differ;
use vstd::prelude::*;

verus! {

use crate::ast::{ArgView, ImplItemMethodView, TyView};
use crate::generics::{angled, Form, GenericListView, ParamKind};
use crate::method::{all_written, kept_attrs};
use crate::method_types::{matcher_args, matcher_params};
use crate::structure::{
    all_declared, all_initialised, expectation_item, expectation_items, method_fields, static_item,
    static_items, struct_fields, struct_items, FieldView,
};
use crate::tokens::{
    arrow, braces, brackets, colon2, nothing, parens, punct, separated, text, word, Token,
};
use crate::words::decimal;

/// The expectations of every method return what the method declares, whatever its
/// parameters: in a box where that is only known by its traits, as an owned string behind
/// the reference where it is a string slice, and the empty tuple where nothing is declared.
/// They have the generic parameters and the parameters of the method, and a matcher gets all
/// of its arguments.
pub proof fn expectations_return_what_is_declared(method: ImplItemMethodView)
    ensures
        ({
            let sig = method.sig;
            let params = sig.generics.params;
            let generics = if params.len() == 0 {
                punct('<') + punct('>')
            } else {
                angled(params, Form::Name)
            };
            let comma = if sig.trailing_comma {
                punct(',')
            } else {
                nothing()
            };
            let result = match sig.output {
                None => parens(nothing()),
                Some(TyView::ImplTrait { bounds, .. }) => word("Box"@) + punct('<') + word("dyn"@)
                    + bounds + punct('>'),
                Some(TyView::Reference { lifetime, mutability, elem }) => punct('&') + lifetime
                    + mutability + if elem == word("str"@) {
                    colon2() + word("std"@) + colon2() + word("string"@) + colon2() + word(
                        "String"@,
                    )
                } else {
                    elem
                },
                Some(TyView::Other(tokens)) => tokens,
            };
            let matcher = word("let"@) + parens(separated(matcher_params(sig.inputs))) + punct('=')
                + parens(separated(matcher_args(sig.inputs))) + punct(';');
            expectation_item(method) == colon2() + word("mockall"@) + colon2() + word(
                "expectation"@,
            ) + punct('!') + braces(
                word("fn"@) + sig.ident + generics + parens(
                    separated(sig.inputs.map_values(|arg: ArgView| arg.written())) + comma,
                ) + arrow() + result + braces(matcher),
            )
        }),
{
    let inputs = method.sig.inputs.map_values(|arg: ArgView| arg.written());
    assert(all_written(method.sig.inputs) =~= inputs);
    assert(separated(inputs) + nothing() =~= separated(inputs));
}

/// The static of a method without a `self` holds the expectations of that method behind a
/// lock.
pub proof fn statics_hold_expectations(
    mod_ident: Seq<char>,
    mock_ident: Seq<char>,
    method: ImplItemMethodView,
)
    ensures
        ({
            let sig = method.sig;
            let expectations = word(mod_ident) + colon2() + (sig.ident + colon2() + word(
                if sig.generics.params.len() == 0 {
                    "Expectations"@
                } else {
                    "GenericExpectations"@
                },
            ));
            let mutex = colon2() + word("std"@) + colon2() + word("sync"@) + colon2() + word(
                "Mutex"@,
            );
            let path = colon2() + word("mockall"@) + colon2() + word("lazy_static"@);
            static_item(mod_ident, mock_ident, method) == kept_attrs(method.attrs) + path + punct(
                '!',
            ) + braces(
                word("static"@) + word("ref"@) + word(
                    mock_ident + "_"@ + text(sig.ident) + "_expectation"@,
                ) + punct(':') + mutex + punct('<') + expectations + punct('>') + punct('=') + mutex
                    + colon2() + word("new"@) + parens(
                    expectations + colon2() + word("new"@) + parens(nothing()),
                ) + punct(';'),
            )
        }),
{
    let sig = method.sig;
    let ty = sig.ident + colon2() + word(
        if sig.generics.params.len() == 0 {
            "Expectations"@
        } else {
            "GenericExpectations"@
        },
    );
    let head = word("static"@) + word("ref"@) + word(
        mock_ident + "_"@ + text(sig.ident) + "_expectation"@,
    ) + punct(':') + (colon2() + word("std"@) + colon2() + word("sync"@) + colon2() + word(
        "Mutex"@,
    )) + punct('<');
    assert(head + word(mod_ident) + colon2() + ty =~= head + (word(mod_ident) + colon2() + ty));
}

/// The fields of a structure: for each trait one that holds the structure of that trait, for
/// each method with a `self` one that holds its expectations, and for each generic parameter
/// one that makes use of it, in their order.
pub proof fn structures_have_fields(
    ident: Seq<char>,
    generics: GenericListView,
    subs: Seq<(Seq<char>, GenericListView)>,
    methods: Seq<ImplItemMethodView>,
)
    ensures
        ({
            let module = word("__mock_"@ + ident);
            let phantom = colon2() + word("std"@) + colon2() + word("marker"@) + colon2() + word(
                "PhantomData"@,
            );
            let of_subs = subs.map_values(
                |sub: (Seq<char>, GenericListView)|
                    FieldView {
                        attrs: nothing(),
                        name: word(sub.0 + "_expectations"@),
                        ty: word("Mock"@ + ident + "_"@ + sub.0) + angled(sub.1.params, Form::Name),
                        init: word("Mock"@ + ident + "_"@ + sub.0) + colon2() + word("default"@)
                            + parens(nothing()),
                    },
            );
            let of_methods = methods.filter_map(
                |method: ImplItemMethodView|
                    {
                        let sig = method.sig;
                        let ty = module + colon2() + (sig.ident + colon2() + word(
                            if sig.generics.params.len() == 0 {
                                "Expectations"@
                            } else {
                                "GenericExpectations"@
                            },
                        ));
                        if exists|i: int|
                            0 <= i < sig.inputs.len() && (#[trigger] sig.inputs[i] is SelfRef
                                || sig.inputs[i] is SelfValue) {
                            Some(
                                FieldView {
                                    attrs: kept_attrs(method.attrs),
                                    name: sig.ident,
                                    ty,
                                    init: ty + colon2() + word("default"@) + parens(nothing()),
                                },
                            )
                        } else {
                            None
                        }
                    },
            );
            let of_params = Seq::new(
                generics.params.len(),
                |i: int|
                    FieldView {
                        attrs: nothing(),
                        name: word("_t"@ + decimal(i as nat)),
                        ty: phantom + punct('<') + (if generics.params[i].kind
                            == ParamKind::Lifetime {
                            punct('&') + generics.params[i].name + parens(nothing())
                        } else {
                            generics.params[i].name
                        }) + punct('>'),
                        init: phantom,
                    },
            );
            struct_fields(ident, generics, subs, methods) == of_subs + of_methods + of_params
        }),
{
    let module = word("__mock_"@ + ident);
    let f = |method: ImplItemMethodView|
        {
            let sig = method.sig;
            let ty = module + colon2() + (sig.ident + colon2() + word(
                if sig.generics.params.len() == 0 {
                    "Expectations"@
                } else {
                    "GenericExpectations"@
                },
            ));
            if exists|i: int|
                0 <= i < sig.inputs.len() && (#[trigger] sig.inputs[i] is SelfRef || sig.inputs[i]
                    is SelfValue) {
                Some(
                    FieldView {
                        attrs: kept_attrs(method.attrs),
                        name: sig.ident,
                        ty,
                        init: ty + colon2() + word("default"@) + parens(nothing()),
                    },
                )
            } else {
                None
            }
        };
    let g = |methods: Seq<ImplItemMethodView>| method_fields("__mock_"@ + ident, methods);
    lemma_filter_map(methods, f, g);
}

/// The fields that make use of generic parameters are the last ones, each named by the
/// position of its parameter, so no two have the same name.
pub proof fn phantom_fields_differ(
    ident: Seq<char>,
    generics: GenericListView,
    subs: Seq<(Seq<char>, GenericListView)>,
    methods: Seq<ImplItemMethodView>,
    i: int,
    j: int,
)
    requires
        0 <= i < j < generics.params.len(),
    ensures
        ({
            let fields = struct_fields(ident, generics, subs, methods);
            let first = fields.len() - generics.params.len();
            &&& first >= 0
            &&& fields[first + i].name == word("_t"@ + decimal(i as nat))
            &&& fields[first + j].name == word("_t"@ + decimal(j as nat))
            &&& fields[first + i].name != fields[first + j].name
        }),
{
    structures_have_fields(ident, generics, subs, methods);
    numbered_names_differ(i as nat, j as nat);
    let (a, b) = ("_t"@ + decimal(i as nat), "_t"@ + decimal(j as nat));
    assert(word(a)[0] != word(b)[0]);
}

/// The code of a structure: a module with the expectations of all its methods, the structure
/// with all its fields, the statics of the methods without a `self`, and a `Default` that
/// gives each field its first value.
pub proof fn structures_are_made_of_parts(
    vis: Seq<Token>,
    ident: Seq<char>,
    generics: GenericListView,
    subs: Seq<(Seq<char>, GenericListView)>,
    methods: Seq<ImplItemMethodView>,
)
    ensures
        ({
            let module = "__mock_"@ + ident;
            let mock = "Mock"@ + ident;
            let fields = struct_fields(ident, generics, subs, methods);
            let declared = fields.flat_map(
                |field: FieldView| field.attrs + field.name + punct(':') + field.ty + punct(','),
            );
            let initialised = fields.flat_map(
                |field: FieldView| field.attrs + field.name + punct(':') + field.init + punct(','),
            );
            let statics = methods.flat_map(
                |method: ImplItemMethodView|
                    if exists|i: int|
                        0 <= i < method.sig.inputs.len() && (
                        #[trigger] method.sig.inputs[i] is SelfRef || method.sig.inputs[i]
                            is SelfValue) {
                        nothing()
                    } else {
                        static_item(module, mock, method)
                    },
            );
            let default = colon2() + word("std"@) + colon2() + word("default"@) + colon2() + word(
                "Default"@,
            );
            let default_fn = word("fn"@) + word("default"@) + parens(nothing()) + arrow() + word(
                "Self"@,
            ) + braces(word("Self"@) + braces(initialised));
            struct_items(vis, ident, generics, subs, methods) == punct('#') + brackets(
                word("allow"@) + parens(word("non_snake_case"@)),
            ) + word("mod"@) + word(module) + braces(
                methods.flat_map(|method: ImplItemMethodView| expectation_item(method)),
            ) + vis + word("struct"@) + word(mock) + angled(generics.params, Form::Bare)
                + generics.where_clause + braces(declared) + statics + word("impl"@) + angled(
                generics.params,
                Form::Bare,
            ) + default + word("for"@) + word(mock) + angled(generics.params, Form::Name)
                + generics.where_clause + braces(default_fn)
        }),
{
    let module = "__mock_"@ + ident;
    let mock = "Mock"@ + ident;
    let fields = struct_fields(ident, generics, subs, methods);
    lemma_flat_map(
        fields,
        |field: FieldView| field.attrs + field.name + punct(':') + field.ty + punct(','),
        |fields: Seq<FieldView>| all_declared(fields),
    );
    lemma_flat_map(
        fields,
        |field: FieldView| field.attrs + field.name + punct(':') + field.init + punct(','),
        |fields: Seq<FieldView>| all_initialised(fields),
    );
    lemma_flat_map(
        methods,
        |method: ImplItemMethodView| expectation_item(method),
        |methods: Seq<ImplItemMethodView>| expectation_items(methods),
    );
    let f = |method: ImplItemMethodView|
        if exists|i: int|
            0 <= i < method.sig.inputs.len() && (#[trigger] method.sig.inputs[i] is SelfRef
                || method.sig.inputs[i] is SelfValue) {
            nothing()
        } else {
            static_item(module, mock, method)
        };
    let g = |methods: Seq<ImplItemMethodView>| static_items(module, mock, methods);
    assert forall|s: Seq<ImplItemMethodView>| s.len() > 0 implies g(s) == #[trigger] g(
        s.drop_last(),
    ) + f(s.last()) by {
        assert(g(s.drop_last()) + nothing() =~= g(s.drop_last()));
    }
    lemma_flat_map(methods, f, g);
}

} // verus!
