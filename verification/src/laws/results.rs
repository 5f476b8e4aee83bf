//! What holds of the results of the library's functions.

use crate::ast::{
    copy_attributes, Arg, Attribute, ImplItemMethod, Item, ItemMethod, ItemTrait, Pattern,
    Signature, Ty,
};
use crate::error::MockError;
use crate::generics::GenericList;
use crate::laws::methods::objects_alone_differ;
use crate::method::{format_attrs, gen_mock_method};
use crate::method_types::{demutify, method_types, MethodTypes};
use crate::mock::{do_mock, tim2iim, Mock};
use crate::parse::inherent_method;
use crate::readable::{check_header, check_literal, check_readable};
use crate::structure::gen_struct;
use crate::syntax::{read_item, ParseError};
use crate::tokens::check_ident;
use crate::trait_impl::mock_trait_methods;
use crate::words::{gen_mock_ident, gen_mod_ident};
use proc_macro2::TokenStream;
use vstd::prelude::*;

verus! {

use crate::ast::{arg_views, attribute_views, method_views};
use crate::method::{
    checkpoint, expectation_method, kept_attrs, method_error, method_plain, mock_method,
};
use crate::method_types::{all_demutified, types_of};
use crate::parse::described;
use crate::readable::{is_known, readable, readable_header};
use crate::structure::{struct_error, struct_items, struct_plain, sub_views};
use crate::syntax::{item_in, message, message_at, reports};
use crate::tokens::{braces, contents, is_ident, nothing, word};
use crate::trait_impl::{trait_error, trait_impls, trait_plain};

/// A method is mocked where there is no reason to refuse it and its names are plain, and only
/// where there is no reason.  Whether it belongs to a trait decides the object and nothing
/// else.
pub proof fn methods_are_mocked(
    mod_ident: &TokenStream,
    mock_ident: &str,
    attrs: &Vec<Attribute>,
    vis: &TokenStream,
    expect_vis: &TokenStream,
    sig: &Signature,
    sub: &str,
    own: Result<(TokenStream, TokenStream, TokenStream), MockError>,
    of_trait: Result<(TokenStream, TokenStream, TokenStream), MockError>,
)
    requires
        call_ensures(
            gen_mock_method,
            (Some(mod_ident), mock_ident, attrs, vis, expect_vis, sig, None),
            own,
        ),
        call_ensures(
            gen_mock_method,
            (Some(mod_ident), mock_ident, attrs, vis, expect_vis, sig, Some(sub)),
            of_trait,
        ),
    ensures
        own is Ok ==> method_error(mock_ident@, sig@, None) is None,
        of_trait is Ok ==> method_error(mock_ident@, sig@, Some(sub@)) is None,
        method_plain(mock_ident@, sig@, None) ==> match method_error(mock_ident@, sig@, None) {
            Some(error) => own matches Err(e) && e == error,
            None => own is Ok,
        },
        method_plain(mock_ident@, sig@, Some(sub@)) ==> match method_error(
            mock_ident@,
            sig@,
            Some(sub@),
        ) {
            Some(error) => of_trait matches Err(e) && e == error,
            None => of_trait is Ok,
        },
        own matches Ok((mock, expect, cp)) ==> ({
            let attrs = attribute_views(attrs@);
            let module = Some(contents(*mod_ident));
            &&& contents(mock) == mock_method(mock_ident@, attrs, contents(*vis), sig@, None)
            &&& contents(expect) == expectation_method(
                module,
                mock_ident@,
                attrs,
                contents(*expect_vis),
                sig@,
                None,
            )
            &&& contents(cp) == checkpoint(mock_ident@, attrs, sig@, None)
        }),
        of_trait matches Ok((mock, expect, cp)) ==> ({
            let attrs = attribute_views(attrs@);
            let module = Some(contents(*mod_ident));
            let sub = Some(sub@);
            &&& contents(mock) == mock_method(mock_ident@, attrs, contents(*vis), sig@, sub)
            &&& contents(expect) == expectation_method(
                module,
                mock_ident@,
                attrs,
                contents(*expect_vis),
                sig@,
                sub,
            )
            &&& contents(cp) == checkpoint(mock_ident@, attrs, sig@, sub)
        }),
        own is Ok && of_trait is Ok ==> contents(own->Ok_0.0).drop_last() == contents(
            of_trait->Ok_0.0,
        ).drop_last(),
{
    objects_alone_differ(
        attribute_views(attrs@),
        contents(*vis),
        sig@,
        mock_ident@,
        None,
        mock_ident@,
        Some(sub@),
    );
}

/// A structure is generated where there is no reason to refuse it and its names are plain,
/// and only where there is no reason.
pub proof fn structures_are_generated(
    vis: &TokenStream,
    ident: &str,
    generics: &GenericList,
    subs: &Vec<(String, GenericList)>,
    methods: &Vec<ImplItemMethod>,
    r: Result<TokenStream, MockError>,
)
    requires
        call_ensures(gen_struct, (vis, ident, generics, subs, methods), r),
    ensures
        ({
            let (subs, methods) = (sub_views(subs@), method_views(methods@));
            let error = struct_error(ident@, generics@, subs, methods);
            &&& r matches Ok(code) ==> error is None && contents(code) == struct_items(
                contents(*vis),
                ident@,
                generics@,
                subs,
                methods,
            )
            &&& struct_plain(ident@, subs, methods) ==> match error {
                Some(error) => r matches Err(e) && e == error,
                None => r is Ok,
            }
        }),
        sub_views(subs@).len() == subs@.len(),
        forall|i: int|
            0 <= i < subs@.len() ==> #[trigger] sub_views(subs@)[i] == (
                subs@[i].0@,
                subs@[i].1@,
            ),
{
}

/// A trait is implemented where there is no reason to refuse it and its names are plain, and
/// only where there is no reason.
pub proof fn traits_are_mocked(
    ident: &str,
    generics: &GenericList,
    item: &ItemTrait,
    given: Result<TokenStream, MockError>,
    own: Result<TokenStream, MockError>,
)
    requires
        call_ensures(mock_trait_methods, (ident, Some(generics), item), given),
        call_ensures(mock_trait_methods, (ident, None, item), own),
    ensures
        given matches Ok(code) ==> trait_error(ident@, item@) is None && contents(code)
            == trait_impls(ident@, Some(generics@), item@),
        own matches Ok(code) ==> trait_error(ident@, item@) is None && contents(code)
            == trait_impls(ident@, None, item@),
        trait_plain(ident@, item@) ==> match trait_error(ident@, item@) {
            Some(error) => given matches Err(e) && e == error && own is Err && own->Err_0 == error,
            None => given is Ok && own is Ok,
        },
{
}

/// What is generated for a description is what is generated for the mock that it is read
/// as.  An error in the syntax is reported, and what cannot be read is refused.
pub proof fn descriptions_are_mocked(
    input: TokenStream,
    mock: Mock,
    read: Result<Mock, ParseError>,
    generated: Result<TokenStream, MockError>,
    r: Result<TokenStream, MockError>,
)
    requires
        call_ensures(Mock::parse, (input,), read),
        read is Ok ==> mock == read->Ok_0,
        call_ensures(Mock::gen, (&mock,), generated),
        call_ensures(do_mock, (input,), r),
    ensures
        match described(contents(input)) {
            Ok(description) => {
                &&& read is Ok
                &&& mock@ == description
                &&& description.well_formed()
                &&& generated matches Ok(code) ==> contents(code) == description.generated()
                &&& r matches Ok(code) ==> contents(code) == description.generated()
                &&& generated is Ok || r is Ok ==> description.error() is None
                &&& description.plain() ==> match description.error() {
                    Some(error) => r matches Err(e) && e == error && generated is Err
                        && generated->Err_0 == error,
                    None => r is Ok && generated is Ok,
                }
            },
            Err(error) => {
                &&& read is Err
                &&& read->Err_0@ == error
                &&& match read->Err_0 {
                    ParseError::Syntax(error) => r matches Ok(code) && reports(
                        contents(code),
                        message(error),
                    ),
                    ParseError::Unreadable => r matches Err(e) && e == MockError::Unreadable,
                }
            },
        },
{
}

/// A method of a trait becomes a public one with an empty block and is the same otherwise,
/// and so does an item that is one; any other item is an error.
pub proof fn methods_become_inherent(
    method: &ItemMethod,
    item: &Item,
    rest: &TokenStream,
    made: ImplItemMethod,
    r: Result<ImplItemMethod, syn::Error>,
)
    requires
        call_ensures(tim2iim, (method,), made),
        call_ensures(inherent_method, (item, rest), r),
    ensures
        made@.attrs == method@.attrs,
        made@.sig == method@.sig,
        made@.vis == word("pub"@),
        made@.defaultness == nothing(),
        made@.block == braces(nothing()),
        r is Ok <==> item@ is Method,
        *item == Item::Method(*method) ==> r is Ok && r->Ok_0@ == made@,
        r matches Err(error) ==> message(error) == message_at(
            contents(*rest),
            "Unsupported in this context"@,
        ),
{
}

/// What else is computed, is computed as the laws on it say.
pub proof fn parts_are_computed(
    attrs: &Vec<Attribute>,
    inputs: &Vec<Arg>,
    sig: &Signature,
    kept: TokenStream,
    unmuted: Vec<Arg>,
    types: MethodTypes,
)
    requires
        call_ensures(format_attrs, (attrs,), kept),
        call_ensures(demutify, (inputs,), unmuted),
        call_ensures(method_types, (sig,), types),
    ensures
        contents(kept) == kept_attrs(attribute_views(attrs@)),
        arg_views(unmuted@) == all_demutified(arg_views(inputs@)),
        types@ == types_of(sig@),
        types.is_static == types_of(sig@).is_static,
        types.call@ == types_of(sig@).call,
        contents(types.expectation) == types_of(sig@).expectation,
        contents(types.expectations) == types_of(sig@).expectations,
        contents(types.expect_obj) == types_of(sig@).expect_obj,
        contents(types.altargs) == types_of(sig@).altargs,
        contents(types.matchexprs) == types_of(sig@).matchexprs,
{
}

/// Names are made of their parts, and tests answer what they ask.
pub proof fn names_are_made(
    ident: &str,
    sub: &str,
    stream: &TokenStream,
    mock: String,
    module: String,
    sub_module: String,
    accepted: bool,
    known: bool,
    read: bool,
    read_header: bool,
)
    requires
        call_ensures(gen_mock_ident, (ident,), mock),
        call_ensures(gen_mod_ident, (ident, None), module),
        call_ensures(gen_mod_ident, (ident, Some(sub)), sub_module),
        call_ensures(check_ident, (ident,), accepted),
        call_ensures(check_literal, (ident,), known),
        call_ensures(check_readable, (stream,), read),
        call_ensures(check_header, (stream,), read_header),
    ensures
        mock@ == "Mock"@ + ident@,
        module@ == "__mock_"@ + ident@,
        sub_module@ == module@ + "_"@ + sub@,
        accepted == is_ident(ident@),
        known == is_known(ident@),
        read == readable(contents(*stream)),
        read_header == readable_header(contents(*stream)),
{
}

/// Copies are the same, and what is written is what the parts are written as.
pub proof fn parts_are_copied_and_written(
    pat: &Pattern,
    ty: &Ty,
    arg: &Arg,
    sig: &Signature,
    generics: &GenericList,
    attrs: &Vec<Attribute>,
    copies: (Pattern, Ty, Arg, Signature, GenericList, Vec<Attribute>),
    written: (TokenStream, TokenStream, TokenStream),
)
    requires
        call_ensures(Pattern::copy, (pat,), copies.0),
        call_ensures(Ty::copy, (ty,), copies.1),
        call_ensures(Arg::copy, (arg,), copies.2),
        call_ensures(Signature::copy, (sig,), copies.3),
        call_ensures(GenericList::copy, (generics,), copies.4),
        call_ensures(copy_attributes, (attrs,), copies.5),
        call_ensures(Pattern::to_tokens, (pat,), written.0),
        call_ensures(Ty::to_tokens, (ty,), written.1),
        call_ensures(Arg::to_tokens, (arg,), written.2),
    ensures
        copies.0@ == pat@,
        copies.1@ == ty@,
        copies.2@ == arg@,
        copies.3@ == sig@,
        copies.4@ == generics@,
        attribute_views(copies.5@) == attribute_views(attrs@),
        contents(written.0) == pat@.written(),
        contents(written.1) == ty@.written(),
        contents(written.2) == arg@.written(),
{
}

/// An item of a trait is taken apart into what it holds.
pub proof fn items_are_taken_apart(item: syn::TraitItem, r: Item)
    requires
        call_ensures(read_item, (item,), r),
    ensures
        r@ == item_in(item),
{
}

/// Without a module the method that sets expectations is the one for a module that is
/// nothing, and the other parts are the same.
pub proof fn methods_are_mocked_without_a_module(
    empty: &TokenStream,
    mock_ident: &str,
    attrs: &Vec<Attribute>,
    vis: &TokenStream,
    expect_vis: &TokenStream,
    sig: &Signature,
    sub: Option<&str>,
    without: Result<(TokenStream, TokenStream, TokenStream), MockError>,
    with: Result<(TokenStream, TokenStream, TokenStream), MockError>,
)
    requires
        contents(*empty) == nothing(),
        call_ensures(
            gen_mock_method,
            (None, mock_ident, attrs, vis, expect_vis, sig, sub),
            without,
        ),
        call_ensures(
            gen_mock_method,
            (Some(empty), mock_ident, attrs, vis, expect_vis, sig, sub),
            with,
        ),
        without is Ok,
        with is Ok,
    ensures
        contents(without->Ok_0.0) == contents(with->Ok_0.0),
        contents(without->Ok_0.1) == contents(with->Ok_0.1),
        contents(without->Ok_0.2) == contents(with->Ok_0.2),
{
}

} // verus!
