//! What holds of reading a description.

use vstd::prelude::*;

verus! {

use crate::ast::{
    arg_views, attribute_views, item_views, method_views, trait_views, Arg, Attribute,
    ImplItemMethod, ImplItemMethodView, Item, ItemMethodView, ItemTrait, ItemTraitView, ItemView,
    Pattern, Signature, Ty,
};
use crate::generics::{generic_params, ParamView};
use crate::mock::{as_impl_method, Mock, MockView};
use crate::parse::{described, own_method, own_methods, trait_list};
use crate::readable::{readable, readable_header};
use crate::syntax::{
    argument_in, braces_prefix, entered, generics_at, generics_prefix, ident_prefix, item_at,
    item_in, item_prefix, message, message_at, method_in, opens_generics, opens_visibility,
    opens_where_clause, pattern_in, trait_at, trait_prefix, type_in, visibility_at,
    where_clause_at, where_prefix, ParseError, ParseErrorView, Prefix, RawArg, RawItem,
    RawSignature, RawTrait,
};
use crate::tokens::{braces, contents, nothing, weight, word, Delimiter, Token};

/// A method is taken over with its attributes and its signature, as a public one with an
/// empty block; any other item is unsupported, at the tokens that follow the braces.
pub proof fn methods_are_taken_over(method: ItemMethodView, item: ItemView, rest: Seq<Token>)
    ensures
        as_impl_method(method).attrs == method.attrs,
        as_impl_method(method).sig == method.sig,
        as_impl_method(method).vis == word("pub"@),
        as_impl_method(method).defaultness == nothing(),
        as_impl_method(method).block == braces(nothing()),
        own_method(item, rest) == match item {
            ItemView::Method(method) => Ok(as_impl_method(method)),
            _ => Err(message_at(rest, "Unsupported in this context"@)),
        },
{
}

/// The methods of a structure are read one after the other: a method is added before those
/// that are read behind it, and the first error ends the list.
pub proof fn methods_are_read_in_order(
    content: Seq<Token>,
    rest: Seq<Token>,
    item: ItemView,
    more: Seq<Token>,
    stray: bool,
)
    requires
        content.len() > 0,
        weight(more) < weight(content),
    ensures
        own_methods(nothing(), rest) == Ok::<(Seq<ImplItemMethodView>, bool), ParseErrorView>(
            (Seq::empty(), false),
        ),
        item_at(content) == Ok::<(ItemView, Seq<Token>, bool), ParseErrorView>((item, more, stray))
            ==> own_methods(content, rest) == match (item, own_methods(more, rest)) {
            (ItemView::Method(method), Ok((methods, strays))) => Ok(
                (seq![as_impl_method(method)] + methods, stray || strays),
            ),
            (ItemView::Method(_), Err(error)) => Err(error),
            _ => Err(
                ParseErrorView::Syntax(message_at(rest, "Unsupported in this context"@)),
            ),
        },
        item_at(content) matches Err(error) ==> own_methods(content, rest) == Err::<
            (Seq<ImplItemMethodView>, bool),
            ParseErrorView,
        >(error),
{
}

/// The traits are read one after the other, and the first error ends the list.
pub proof fn traits_are_read_in_order(
    tokens: Seq<Token>,
    item: ItemTraitView,
    more: Seq<Token>,
    stray: bool,
)
    requires
        tokens.len() > 0,
        weight(more) < weight(tokens),
    ensures
        trait_list(nothing()) == Ok::<(Seq<ItemTraitView>, bool), ParseErrorView>(
            (Seq::empty(), false),
        ),
        trait_at(tokens) == Ok::<(ItemTraitView, Seq<Token>, bool), ParseErrorView>(
            (item, more, stray),
        ) ==> trait_list(tokens) == match trait_list(more) {
            Ok((traits, strays)) => Ok((seq![item] + traits, stray || strays)),
            Err(error) => Err(error),
        },
        trait_at(tokens) matches Err(error) ==> trait_list(tokens) == Err::<
            (Seq<ItemTraitView>, bool),
            ParseErrorView,
        >(error),
{
}

/// A description is what its parts are read as: a visibility, a name, generic parameters
/// with their `where` clause, methods in braces, and traits.  Tokens that are left over in any
/// of them are an error.
pub proof fn descriptions_are_read_in_order(
    tokens: Seq<Token>,
    vis: (Seq<Token>, Seq<Token>, bool),
    name: (Seq<Token>, Seq<Token>),
    params: (Seq<ParamView>, Seq<Token>, bool),
    where_clause: (Seq<Token>, Seq<Token>, bool),
    body: (Seq<Token>, Seq<Token>),
    methods: (Seq<ImplItemMethodView>, bool),
    traits: (Seq<ItemTraitView>, bool),
)
    requires
        visibility_at(tokens) == Prefix::<Seq<Token>>::Ok(vis),
        ident_prefix(vis.1) == Ok::<(Seq<Token>, Seq<Token>), Seq<char>>(name),
        generics_at(name.1) == Ok::<(Seq<ParamView>, Seq<Token>, bool), ParseErrorView>(params),
        where_clause_at(params.1) == Ok::<(Seq<Token>, Seq<Token>, bool), ParseErrorView>(
            where_clause,
        ),
        braces_prefix(where_clause.1) == Ok::<(Seq<Token>, Seq<Token>), Seq<char>>(body),
        own_methods(body.0, body.1) == Ok::<(Seq<ImplItemMethodView>, bool), ParseErrorView>(
            methods,
        ),
        trait_list(body.1) == Ok::<(Seq<ItemTraitView>, bool), ParseErrorView>(traits),
    ensures
        vis.2 || params.2 || where_clause.2 || methods.1 || traits.1 ==> described(tokens) == Err::<
            MockView,
            ParseErrorView,
        >(ParseErrorView::Syntax("unexpected token"@)),
        !(vis.2 || params.2 || where_clause.2 || methods.1 || traits.1) ==> {
            &&& described(tokens) is Ok
            &&& described(tokens)->Ok_0.vis == vis.0
            &&& described(tokens)->Ok_0.name == name.0
            &&& described(tokens)->Ok_0.generics.params == params.0
            &&& described(tokens)->Ok_0.generics.where_clause == where_clause.0
            &&& described(tokens)->Ok_0.methods == methods.0
            &&& described(tokens)->Ok_0.traits == traits.0
        },
{
}

/// The first part of a description that cannot be read is what the description is refused
/// for.
pub proof fn first_error_is_reported(
    tokens: Seq<Token>,
    vis: (Seq<Token>, Seq<Token>, bool),
    name: (Seq<Token>, Seq<Token>),
    params: (Seq<ParamView>, Seq<Token>, bool),
    where_clause: (Seq<Token>, Seq<Token>, bool),
    body: (Seq<Token>, Seq<Token>),
    methods: (Seq<ImplItemMethodView>, bool),
)
    ensures
        visibility_at(tokens) matches Err(error) ==> described(tokens) == Err::<
            MockView,
            ParseErrorView,
        >(ParseErrorView::Syntax(error)),
        visibility_at(tokens) == Prefix::<Seq<Token>>::Ok(vis) ==> {
            &&& ident_prefix(vis.1) matches Err(error) ==> described(tokens) == Err::<
                MockView,
                ParseErrorView,
            >(ParseErrorView::Syntax(error))
            &&& ident_prefix(vis.1) == Ok::<(Seq<Token>, Seq<Token>), Seq<char>>(name) ==> {
                &&& generics_at(name.1) matches Err(error) ==> described(tokens) == Err::<
                    MockView,
                    ParseErrorView,
                >(error)
                &&& generics_at(name.1) == Ok::<
                    (Seq<ParamView>, Seq<Token>, bool),
                    ParseErrorView,
                >(params) ==> {
                    &&& where_clause_at(params.1) matches Err(error) ==> described(tokens) == Err::<
                        MockView,
                        ParseErrorView,
                    >(error)
                    &&& where_clause_at(params.1) == Ok::<
                        (Seq<Token>, Seq<Token>, bool),
                        ParseErrorView,
                    >(where_clause) ==> {
                        &&& braces_prefix(where_clause.1) matches Err(error) ==> described(tokens)
                            == Err::<MockView, ParseErrorView>(ParseErrorView::Syntax(error))
                        &&& braces_prefix(where_clause.1) == Ok::<
                            (Seq<Token>, Seq<Token>),
                            Seq<char>,
                        >(body) ==> {
                            &&& own_methods(body.0, body.1) matches Err(error) ==> described(tokens)
                                == Err::<MockView, ParseErrorView>(error)
                            &&& own_methods(body.0, body.1) is Ok && trait_list(
                                body.1,
                            ) is Err ==> described(tokens) == Err::<MockView, ParseErrorView>(
                                trait_list(body.1)->Err_0,
                            )
                        }
                    }
                }
            }
        },
{
}

/// What the parser reads counts wherever it can read; what it cannot read is unreadable; and
/// a generic parameter list or a `where` clause that is absent is nothing at all.
pub proof fn readable_parts_are_read(tokens: Seq<Token>)
    ensures
        !opens_generics(tokens) ==> generics_at(tokens) == Ok::<
            (Seq<ParamView>, Seq<Token>, bool),
            ParseErrorView,
        >((Seq::empty(), tokens, false)),
        !opens_where_clause(tokens) ==> where_clause_at(tokens) == Ok::<
            (Seq<Token>, Seq<Token>, bool),
            ParseErrorView,
        >((nothing(), tokens, false)),
        opens_generics(tokens) ==> generics_at(tokens) == match generics_prefix(tokens) {
            _ if !readable_header(tokens) => Err(ParseErrorView::Unreadable),
            Ok(read) => Ok(read),
            Err(text) => Err(ParseErrorView::Syntax(text)),
        },
        opens_where_clause(tokens) ==> where_clause_at(tokens) == match where_prefix(tokens) {
            _ if !readable_header(tokens) => Err(ParseErrorView::Unreadable),
            Ok(read) => Ok(read),
            Err(text) => Err(ParseErrorView::Syntax(text)),
        },
        item_at(tokens) == match item_prefix(tokens) {
            _ if !readable(tokens) => Err(ParseErrorView::Unreadable),
            Ok(read) => Ok(read),
            Err(text) => Err(ParseErrorView::Syntax(text)),
        },
        trait_at(tokens) == match trait_prefix(tokens) {
            _ if !readable(tokens) => Err(ParseErrorView::Unreadable),
            Ok(read) => Ok(read),
            Err(text) => Err(ParseErrorView::Syntax(text)),
        },
{
}

/// Lists are looked at element by element, each in its place.
pub proof fn lists_are_looked_at_whole(
    attrs: Seq<Attribute>,
    args: Seq<Arg>,
    methods: Seq<ImplItemMethod>,
    items: Seq<Item>,
    traits: Seq<ItemTrait>,
    i: int,
)
    ensures
        attribute_views(attrs).len() == attrs.len(),
        0 <= i < attrs.len() ==> attribute_views(attrs)[i] == attrs[i]@,
        arg_views(args).len() == args.len(),
        0 <= i < args.len() ==> arg_views(args)[i] == args[i]@,
        method_views(methods).len() == methods.len(),
        0 <= i < methods.len() ==> method_views(methods)[i] == methods[i]@,
        item_views(items).len() == items.len(),
        0 <= i < items.len() ==> item_views(items)[i] == items[i]@,
        trait_views(traits).len() == traits.len(),
        0 <= i < traits.len() ==> trait_views(traits)[i] == traits[i]@,
{
}

/// A description is looked at with all its parts.
pub proof fn descriptions_are_looked_at_whole(mock: Mock, i: int)
    ensures
        mock@.vis == contents(mock.vis),
        mock@.name == contents(mock.name),
        mock@.generics == mock.generics@,
        mock@.methods.len() == mock.methods@.len(),
        0 <= i < mock.methods@.len() ==> mock@.methods[i] == mock.methods@[i]@,
        mock@.traits.len() == mock.traits@.len(),
        0 <= i < mock.traits@.len() ==> mock@.traits[i] == mock.traits@[i]@,
{
}

/// A signature is looked at with all its parts, an attribute with its whole path.
pub proof fn signatures_are_looked_at_whole(sig: Signature, attr: Attribute, i: int)
    ensures
        sig@.constness == contents(sig.constness),
        sig@.unsafety == contents(sig.unsafety),
        sig@.asyncness == contents(sig.asyncness),
        sig@.abi == contents(sig.abi),
        sig@.fn_token == contents(sig.fn_token),
        sig@.ident == contents(sig.ident),
        sig@.generics.params == generic_params(sig.generics.params),
        sig@.generics.where_clause == contents(sig.generics.where_clause),
        sig@.inputs.len() == sig.inputs@.len(),
        0 <= i < sig.inputs@.len() ==> sig@.inputs[i] == sig.inputs@[i]@,
        sig@.trailing_comma == sig.trailing_comma,
        sig@.variadic == sig.variadic,
        sig@.output == match sig.output {
            Some(ty) => Some(ty@),
            None => None,
        },
        attr@.path.len() == attr.path@.len(),
        0 <= i < attr.path@.len() ==> attr@.path[i] == attr.path@[i]@,
        attr@.tokens == contents(attr.tokens),
{
}

/// Methods, types and traits are looked at with all their parts, parameters by their kinds.
pub proof fn parts_are_looked_at_whole(
    method: ImplItemMethod,
    item: Item,
    trait_: ItemTrait,
    arg: Arg,
    pat: Pattern,
    ty: Ty,
)
    ensures
        method@.attrs == attribute_views(method.attrs@),
        method@.vis == contents(method.vis),
        method@.defaultness == contents(method.defaultness),
        method@.sig == method.sig@,
        method@.block == contents(method.block),
        match item {
            Item::Const => item@ is Const,
            Item::Method(method) => item@ is Method && item@->Method_0.sig == method.sig@
                && item@->Method_0.attrs == attribute_views(method.attrs@),
            Item::Type(ty) => item@ is Type && item@->Type_0.tokens == contents(ty.tokens)
                && item@->Type_0.generic == ty.generic && item@->Type_0.concrete == ty.concrete,
            Item::Other => item@ is Other,
        },
        trait_@.unsafety == contents(trait_.unsafety),
        trait_@.ident == contents(trait_.ident),
        trait_@.generics == trait_.generics@,
        trait_@.items == item_views(trait_.items@),
        match arg {
            Arg::SelfRef(tokens) => arg@ is SelfRef && arg@->SelfRef_0 == contents(tokens),
            Arg::SelfValue { mutability, self_token } => arg@ is SelfValue
                && arg@->SelfValue_mutability == contents(mutability)
                && arg@->SelfValue_self_token == contents(self_token),
            Arg::Captured { pat, ty } => arg@ is Captured && arg@->Captured_pat == pat@
                && arg@->Captured_ty == ty@,
            Arg::Other(tokens) => arg@ is Other && arg@->Other_0 == contents(tokens),
        },
        match pat {
            Pattern::Binding { by_ref, mutability, name, subpattern } => pat@ is Binding
                && pat@->by_ref == contents(by_ref) && pat@->mutability == contents(mutability)
                && pat@->name == contents(name) && match subpattern {
                Some(tokens) => pat@->subpattern == Some(contents(tokens)),
                None => pat@->subpattern is None,
            },
            Pattern::Other(tokens) => pat@ is Other && pat@->Other_0 == contents(tokens),
        },
        match ty {
            Ty::Reference { lifetime, mutability, elem } => ty@ is Reference && ty@->lifetime
                == contents(lifetime) && ty@->mutability == contents(mutability) && ty@->elem
                == contents(elem),
            Ty::ImplTrait { impl_token, bounds } => ty@ is ImplTrait && ty@->impl_token == contents(
                impl_token,
            ) && ty@->bounds == contents(bounds),
            Ty::Other(tokens) => ty@ is Other && ty@->Other_0 == contents(tokens),
        },
{
}

/// A visibility starts with `pub` or `crate`, a generic parameter list with `<`, and a
/// `where` clause with `where`, as the first token or as the first one of a group without
/// delimiters; they do not depend on what follows.
pub proof fn parts_are_known_by_their_start(
    token: Token,
    inner: Seq<Token>,
    rest: Seq<Token>,
    other: Seq<Token>,
)
    requires
        !(token matches Token::Group(Delimiter::Invisible, _)),
    ensures
        !opens_visibility(nothing()) && !opens_generics(nothing()) && !opens_where_clause(
            nothing(),
        ),
        opens_visibility(seq![token] + rest) <==> (token == Token::Ident("pub"@) || token
            == Token::Ident("crate"@)),
        opens_generics(seq![token] + rest) <==> (token == Token::Punct('<', true) || token
            == Token::Punct('<', false)),
        opens_where_clause(seq![token] + rest) <==> token == Token::Ident("where"@),
        ({
            let group = seq![Token::Group(Delimiter::Invisible, seq![token] + inner)];
            &&& opens_visibility(group + rest) == opens_visibility(seq![token] + other)
            &&& opens_generics(group + rest) == opens_generics(seq![token] + other)
            &&& opens_where_clause(group + rest) == opens_where_clause(seq![token] + other)
        }),
{
    let group = seq![Token::Group(Delimiter::Invisible, seq![token] + inner)];
    assert((seq![token] + rest)[0] == token);
    assert((seq![token] + other)[0] == token);
    assert(entered(seq![token] + rest)[0] == token);
    assert(entered(seq![token] + other)[0] == token);
    assert((group + rest)[0] == group[0]);
    assert(entered(group + rest)[0] == token);
}

/// What the parser hands over is looked at with all its parts.
pub proof fn raw_parts_are_looked_at_whole(
    trait_: RawTrait,
    sig: RawSignature,
    item: RawItem,
    arg: RawArg,
    error: ParseError,
    i: int,
)
    ensures
        trait_@.unsafety == contents(trait_.unsafety),
        trait_@.ident == contents(trait_.ident),
        trait_@.generics == trait_.generics@,
        trait_@.items.len() == trait_.items@.len(),
        0 <= i < trait_.items@.len() ==> trait_@.items[i] == item_in(trait_.items@[i]),
        sig@.constness == contents(sig.constness),
        sig@.unsafety == contents(sig.unsafety),
        sig@.asyncness == contents(sig.asyncness),
        sig@.abi == contents(sig.abi),
        sig@.fn_token == contents(sig.fn_token),
        sig@.ident == contents(sig.ident),
        sig@.generics == sig.generics@,
        sig@.inputs.len() == sig.inputs@.len(),
        0 <= i < sig.inputs@.len() ==> sig@.inputs[i] == argument_in(sig.inputs@[i]),
        sig@.trailing_comma == sig.trailing_comma,
        sig@.variadic == sig.variadic,
        sig@.output == match sig.output {
            Some(ty) => Some(type_in(ty)),
            None => None,
        },
        match item {
            RawItem::Const => item@ is Const,
            RawItem::Method(method) => item@ is Method && item@->Method_0 == method_in(method),
            RawItem::Type(ty) => item@ is Type && item@->Type_0.tokens == contents(ty.tokens)
                && item@->Type_0.generic == ty.generic && item@->Type_0.concrete == ty.concrete,
            RawItem::Other => item@ is Other,
        },
        match arg {
            RawArg::SelfRef(tokens) => arg@ is SelfRef && arg@->SelfRef_0 == contents(tokens),
            RawArg::SelfValue { mutability, self_token } => arg@ is SelfValue
                && arg@->SelfValue_mutability == contents(mutability)
                && arg@->SelfValue_self_token == contents(self_token),
            RawArg::Captured { pat, ty } => arg@ is Captured && arg@->Captured_pat == pattern_in(
                pat,
            ) && arg@->Captured_ty == type_in(ty),
            RawArg::Other(tokens) => arg@ is Other && arg@->Other_0 == contents(tokens),
        },
        error@ == match error {
            ParseError::Unreadable => ParseErrorView::Unreadable,
            ParseError::Syntax(error) => ParseErrorView::Syntax(message(error)),
        },
{
}

} // verus!
