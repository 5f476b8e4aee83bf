//! The mock of a structure and of the traits that it implements.

use crate::ast::{copy_attributes, ImplItemMethod, Item, ItemMethod, ItemTrait};
use crate::error::MockError;
use crate::generics::{split_for_impl, GenericList};
use crate::method::{call_plain, gen_mock_method};
use crate::structure::gen_struct;
use crate::syntax::{to_compile_error, ParseError};
use crate::tokens::{
    ident_string, put, put_arrow, put_braces, put_colon2, put_parens, put_punct, put_word,
    start_word, stream, try_word,
};
use crate::trait_impl::mock_trait_methods;
use crate::words::{gen_mock_ident, gen_mod_ident, gen_sub_field, gen_sub_ident};
use proc_macro2::TokenStream;
use vstd::prelude::*;

verus! {

use crate::ast::{
    item_views, method_views, trait_views, ImplItemMethodView, ItemMethodView, ItemTraitView,
    ItemView,
};
use crate::error::comes_to;
use crate::generics::GenericListView;
use crate::method::{checkpoint, expectation_method, method_error, mock_method, plain_call};
use crate::parse::described;
use crate::structure::{path_call, struct_error, struct_items, struct_plain, sub_views};
use crate::syntax::{reports, ParseErrorView};
use crate::tokens::{
    arrow, braces, contents, is_ident, is_plain, lemma_punctuation, nothing, parens, punct, text,
    word, Token,
};
use crate::trait_impl::{plain_items, trait_error, trait_impls, trait_plain};
use crate::words::{
    lemma_names, lemma_plain_names, lemma_words, mock_name, mod_name, sub_field_name, sub_name,
};

/// What is to be mocked.
#[derive(Debug)]
pub struct Mock {
    pub vis: TokenStream,
    pub name: TokenStream,
    pub generics: GenericList,
    /// The mock structure's inherent methods.  The blocks will all be empty.
    pub methods: Vec<ImplItemMethod>,
    pub traits: Vec<ItemTrait>,
}

pub struct MockView {
    pub vis: Seq<Token>,
    pub name: Seq<Token>,
    pub generics: GenericListView,
    pub methods: Seq<ImplItemMethodView>,
    pub traits: Seq<ItemTraitView>,
}

impl View for Mock {
    type V = MockView;

    open spec fn view(&self) -> MockView {
        MockView {
            vis: contents(self.vis),
            name: contents(self.name),
            generics: self.generics@,
            methods: method_views(self.methods@),
            traits: trait_views(self.traits@),
        }
    }
}

/// A method of a trait as an inherent method: public, and with an empty block.
pub open spec fn as_impl_method(method: ItemMethodView) -> ImplItemMethodView {
    ImplItemMethodView {
        attrs: method.attrs,
        vis: word("pub"@),
        defaultness: nothing(),
        sig: method.sig,
        block: braces(nothing()),
    }
}

/// Turns a method of a trait into an inherent method.
pub fn tim2iim(m: &ItemMethod) -> (r: ImplItemMethod)
    ensures
        r@ == as_impl_method(m@),
{
    proof {
        lemma_words();
    }
    let mut block = stream();
    put_braces(&mut block, &stream());
    assert(contents(block) =~= braces(nothing()));
    ImplItemMethod {
        attrs: copy_attributes(&m.attrs),
        vis: start_word("pub"),
        defaultness: stream(),
        sig: m.sig.copy(),
        block,
    }
}

/// The methods among the items of a trait.
pub open spec fn trait_methods(items: Seq<ItemView>) -> Seq<ImplItemMethodView>
    decreases items.len(),
{
    if items.len() == 0 {
        Seq::empty()
    } else {
        let before = trait_methods(items.drop_last());
        match items.last() {
            ItemView::Method(method) => before.push(as_impl_method(method)),
            _ => before,
        }
    }
}

fn methods_of(items: &Vec<Item>) -> (r: Vec<ImplItemMethod>)
    ensures
        method_views(r@) == trait_methods(item_views(items@)),
{
    let ghost all = item_views(items@);
    let mut r: Vec<ImplItemMethod> = Vec::new();
    let mut i: usize = 0;
    assert(method_views(r@) =~= trait_methods(all.take(0)));
    while i < items.len()
        invariant
            i <= items.len() == all.len(),
            all == item_views(items@),
            method_views(r@) == trait_methods(all.take(i as int)),
        decreases items.len() - i,
    {
        let ghost before = r@;
        assert(all[i as int] == items@[i as int]@);
        assert(all.take(i + 1).drop_last() =~= all.take(i as int));
        if let Item::Method(method) = &items[i] {
            let method = tim2iim(method);
            r.push(method);
            assert(method_views(r@) =~= method_views(before).push(method@));
        }
        i += 1;
    }
    assert(all.take(i as int) =~= all);
    r
}

/// The parts of a `checkpoint` method that belong to the methods of a structure itself.
pub open spec fn checkpoints(
    mock_ident: Seq<char>,
    methods: Seq<ImplItemMethodView>,
) -> Seq<Token>
    decreases methods.len(),
{
    if methods.len() == 0 {
        nothing()
    } else {
        let method = methods.last();
        checkpoints(mock_ident, methods.drop_last()) + checkpoint(
            mock_ident,
            method.attrs,
            method.sig,
            None,
        )
    }
}

/// The methods of the mock structure itself, each followed by the one that sets its
/// expectations.  Both have the visibility of the method.
pub open spec fn inherent_methods(
    mod_ident: Seq<Token>,
    mock_ident: Seq<char>,
    methods: Seq<ImplItemMethodView>,
) -> Seq<Token>
    decreases methods.len(),
{
    if methods.len() == 0 {
        nothing()
    } else {
        let method = methods.last();
        inherent_methods(mod_ident, mock_ident, methods.drop_last()) + mock_method(
            mock_ident,
            method.attrs,
            method.vis,
            method.sig,
            None,
        ) + expectation_method(
            Some(mod_ident),
            mock_ident,
            method.attrs,
            method.vis,
            method.sig,
            None,
        )
    }
}

/// What the first offending method is refused for.
pub open spec fn methods_error(
    mock_ident: Seq<char>,
    methods: Seq<ImplItemMethodView>,
) -> Option<MockError>
    decreases methods.len(),
{
    if methods.len() == 0 {
        None
    } else {
        match methods_error(mock_ident, methods.drop_last()) {
            Some(error) => Some(error),
            None => method_error(mock_ident, methods.last().sig, None),
        }
    }
}

/// Whether all methods have plain names.
pub open spec fn plain_methods(methods: Seq<ImplItemMethodView>) -> bool {
    forall|i: int| 0 <= i < methods.len() ==> is_plain(text((#[trigger] methods[i]).sig.ident))
}

proof fn lemma_plain_methods(items: Seq<ItemView>)
    requires
        plain_items(items),
    ensures
        plain_methods(trait_methods(items)),
    decreases items.len(),
{
    if items.len() > 0 {
        let before = items.drop_last();
        assert forall|i: int| 0 <= i < before.len() implies (
            #[trigger] before[i] matches ItemView::Method(method) ==> is_plain(
            text(method.sig.ident),
        )) by {
            assert(before[i] == items[i]);
        }
        lemma_plain_methods(before);
        assert(items.last() == items[items.len() - 1]);
    }
}

proof fn lemma_methods_error(mock_ident: Seq<char>, methods: Seq<ImplItemMethodView>, i: int)
    requires
        0 <= i < methods.len(),
        methods_error(mock_ident, methods.take(i)) is None,
        method_error(mock_ident, methods[i].sig, None) is Some,
    ensures
        methods_error(mock_ident, methods) == method_error(mock_ident, methods[i].sig, None),
    decreases methods.len(),
{
    if i == methods.len() - 1 {
        assert(methods.take(i) =~= methods.drop_last());
    } else {
        assert(methods.drop_last().take(i) =~= methods.take(i));
        lemma_methods_error(mock_ident, methods.drop_last(), i);
    }
}

/// The methods of a structure itself, and their parts of its `checkpoint` method.
fn gen_methods(
    mod_ident: &TokenStream,
    mock_ident: &str,
    methods: &Vec<ImplItemMethod>,
) -> (r: Result<(TokenStream, TokenStream), MockError>)
    ensures
        comes_to(
            r,
            methods_error(mock_ident@, method_views(methods@)),
            is_plain(mock_ident@) && plain_methods(method_views(methods@)),
        ),
        r matches Ok((mock_body, cp_body)) ==> {
            &&& contents(mock_body) == inherent_methods(
                contents(*mod_ident),
                mock_ident@,
                method_views(methods@),
            )
            &&& contents(cp_body) == checkpoints(mock_ident@, method_views(methods@))
        },
{
    let mut mock_body = stream();
    let mut cp_body = stream();
    let ghost all = method_views(methods@);
    let mut i: usize = 0;
    while i < methods.len()
        invariant
            i <= methods.len() == all.len(),
            all == method_views(methods@),
            methods_error(mock_ident@, all.take(i as int)) is None,
            contents(mock_body) == inherent_methods(
                contents(*mod_ident),
                mock_ident@,
                all.take(i as int),
            ),
            contents(cp_body) == checkpoints(mock_ident@, all.take(i as int)),
        decreases methods.len() - i,
    {
        proof {
            assert(all[i as int] == methods@[i as int]@);
            assert(all.take(i + 1).drop_last() =~= all.take(i as int));
            if method_error(mock_ident@, all[i as int].sig, None) is Some {
                lemma_methods_error(mock_ident@, all, i as int);
            }
        }
        let method = &methods[i];
        // For inherent methods, use the same visibility for the mock and
        // expectation method as for the original.
        match gen_mock_method(
            Some(mod_ident),
            mock_ident,
            &method.attrs,
            &method.vis,
            &method.vis,
            &method.sig,
            None,
        ) {
            Ok((mm, em, cp)) => {
                put(&mut mock_body, &mm);
                put(&mut mock_body, &em);
                put(&mut cp_body, &cp);
            },
            Err(error) => {
                return Err(error);
            },
        }
        i += 1;
    }
    assert(all.take(i as int) =~= all);
    Ok((mock_body, cp_body))
}

/// `fn checkpoint(&mut self) { body }`
pub open spec fn checkpoint_fn(body: Seq<Token>) -> Seq<Token> {
    word("fn"@) + word("checkpoint"@) + parens(punct('&') + word("mut"@) + word("self"@)) + braces(
        body,
    )
}

/// `impl ident { body }`, with the generic parameters.
pub open spec fn inherent_impl(
    generics: GenericListView,
    ident: Seq<char>,
    body: Seq<Token>,
) -> Seq<Token> {
    word("impl"@) + generics.for_impl() + word(ident) + generics.for_type() + generics.where_clause
        + braces(body)
}

fn make_checkpoint_fn(body: &TokenStream) -> (r: TokenStream)
    ensures
        contents(r) == checkpoint_fn(contents(*body)),
{
    proof {
        lemma_punctuation();
        lemma_words();
    }
    let mut receiver = stream();
    put_punct(&mut receiver, '&');
    assert(contents(receiver) =~= punct('&'));
    put_word(&mut receiver, "mut");
    put_word(&mut receiver, "self");
    let mut out = start_word("fn");
    put_word(&mut out, "checkpoint");
    put_parens(&mut out, &receiver);
    put_braces(&mut out, body);
    out
}

fn make_inherent_impl(
    generics: &GenericList,
    ident: &TokenStream,
    body: &TokenStream,
    Ghost(name): Ghost<Seq<char>>,
) -> (r: TokenStream)
    requires
        contents(*ident) == word(name),
    ensures
        contents(r) == inherent_impl(generics@, name, contents(*body)),
{
    proof {
        lemma_words();
    }
    let (ig, tg) = split_for_impl(&generics.params);
    let mut out = start_word("impl");
    put(&mut out, &ig);
    put(&mut out, ident);
    put(&mut out, &tg);
    put(&mut out, &generics.where_clause);
    put_braces(&mut out, body);
    out
}

/// The structure that holds the expectations of one trait, with its `checkpoint` method.
pub open spec fn sub_items(
    name: Seq<char>,
    generics: GenericListView,
    trait_: ItemTraitView,
) -> Seq<Token> {
    let sub_mock = sub_name(name, text(trait_.ident));
    let methods = trait_methods(trait_.items);
    struct_items(nothing(), sub_mock, generics, Seq::empty(), methods) + inherent_impl(
        generics,
        mock_name(sub_mock),
        checkpoint_fn(checkpoints(mock_name(sub_mock), methods)),
    )
}

pub open spec fn sub_error(
    name: Seq<char>,
    generics: GenericListView,
    trait_: ItemTraitView,
) -> Option<MockError> {
    let sub_mock = sub_name(name, text(trait_.ident));
    let methods = trait_methods(trait_.items);
    match struct_error(sub_mock, generics, Seq::empty(), methods) {
        Some(error) => Some(error),
        None => methods_error(mock_name(sub_mock), methods),
    }
}

/// The structures that hold the expectations of all traits.
pub open spec fn all_sub_items(
    name: Seq<char>,
    generics: GenericListView,
    traits: Seq<ItemTraitView>,
) -> Seq<Token>
    decreases traits.len(),
{
    if traits.len() == 0 {
        nothing()
    } else {
        all_sub_items(name, generics, traits.drop_last()) + sub_items(
            name,
            generics,
            traits.last(),
        )
    }
}

/// What the first trait is refused for whose expectations no structure can hold.
pub open spec fn subs_error(
    name: Seq<char>,
    generics: GenericListView,
    traits: Seq<ItemTraitView>,
) -> Option<MockError>
    decreases traits.len(),
{
    if traits.len() == 0 {
        None
    } else {
        match subs_error(name, generics, traits.drop_last()) {
            Some(error) => Some(error),
            None => sub_error(name, generics, traits.last()),
        }
    }
}

/// `self.trait_expectations.checkpoint();`
pub open spec fn trait_checkpoint(trait_: Seq<char>) -> Seq<Token> {
    let field = word("self"@) + punct('.') + word(sub_field_name(trait_));
    plain_call(field, "checkpoint"@) + punct(';')
}

/// The parts of a `checkpoint` method that belong to the traits.
pub open spec fn trait_checkpoints(traits: Seq<ItemTraitView>) -> Seq<Token>
    decreases traits.len(),
{
    if traits.len() == 0 {
        nothing()
    } else {
        trait_checkpoints(traits.drop_last()) + trait_checkpoint(text(traits.last().ident))
    }
}

/// The implementations of all traits.
pub open spec fn all_trait_impls(
    name: Seq<char>,
    generics: GenericListView,
    traits: Seq<ItemTraitView>,
) -> Seq<Token>
    decreases traits.len(),
{
    if traits.len() == 0 {
        nothing()
    } else {
        all_trait_impls(name, generics, traits.drop_last()) + trait_impls(
            name,
            Some(generics),
            traits.last(),
        )
    }
}

/// What the first offending trait is refused for.
pub open spec fn traits_error(name: Seq<char>, traits: Seq<ItemTraitView>) -> Option<MockError>
    decreases traits.len(),
{
    if traits.len() == 0 {
        None
    } else {
        match traits_error(name, traits.drop_last()) {
            Some(error) => Some(error),
            None => trait_error(name, traits.last()),
        }
    }
}

proof fn lemma_subs_error(
    name: Seq<char>,
    generics: GenericListView,
    traits: Seq<ItemTraitView>,
    i: int,
)
    requires
        0 <= i < traits.len(),
        subs_error(name, generics, traits.take(i)) is None,
        sub_error(name, generics, traits[i]) is Some,
    ensures
        subs_error(name, generics, traits) == sub_error(name, generics, traits[i]),
    decreases traits.len(),
{
    if i == traits.len() - 1 {
        assert(traits.take(i) =~= traits.drop_last());
    } else {
        assert(traits.drop_last().take(i) =~= traits.take(i));
        lemma_subs_error(name, generics, traits.drop_last(), i);
    }
}

proof fn lemma_traits_error(name: Seq<char>, traits: Seq<ItemTraitView>, i: int)
    requires
        0 <= i < traits.len(),
        traits_error(name, traits.take(i)) is None,
        trait_error(name, traits[i]) is Some,
    ensures
        traits_error(name, traits) == trait_error(name, traits[i]),
    decreases traits.len(),
{
    if i == traits.len() - 1 {
        assert(traits.take(i) =~= traits.drop_last());
    } else {
        assert(traits.drop_last().take(i) =~= traits.take(i));
        lemma_traits_error(name, traits.drop_last(), i);
    }
}

/// Whether a method is named `new`.
pub open spec fn has_new(methods: Seq<ImplItemMethodView>) -> bool {
    exists|i: int| 0 <= i < methods.len() && text((#[trigger] methods[i]).sig.ident) == "new"@
}

/// `pub fn new() -> Self { Self::default() }`
pub open spec fn new_fn() -> Seq<Token> {
    word("pub"@) + word("fn"@) + word("new"@) + parens(nothing()) + arrow() + word("Self"@)
        + braces(path_call(word("Self"@), "default"@))
}

fn make_new_fn() -> (r: TokenStream)
    ensures
        contents(r) == new_fn(),
{
    proof {
        lemma_words();
    }
    let mut body = start_word("Self");
    put_colon2(&mut body);
    put_word(&mut body, "default");
    put_parens(&mut body, &stream());
    let mut out = start_word("pub");
    put_word(&mut out, "fn");
    put_word(&mut out, "new");
    put_parens(&mut out, &stream());
    put_arrow(&mut out);
    put_word(&mut out, "Self");
    put_braces(&mut out, &body);
    out
}

impl MockView {
    /// The traits by name, each with the generic parameters of the structure.
    pub open spec fn subs(self) -> Seq<(Seq<char>, GenericListView)> {
        Seq::new(self.traits.len(), |i: int| (text(self.traits[i].ident), self.generics))
    }

    /// The inherent methods that every mock structure has: those of the description, and
    /// `checkpoint`.
    pub open spec fn given_body(self) -> Seq<Token> {
        let mod_ident = word(mod_name(text(self.name), None));
        let mock_ident = mock_name(text(self.name));
        inherent_methods(mod_ident, mock_ident, self.methods) + word("pub"@) + checkpoint_fn(
            trait_checkpoints(self.traits) + checkpoints(mock_ident, self.methods),
        )
    }

    /// The inherent methods of the mock structure.  A `new` method is added unless the
    /// structure has one itself, whatever its traits have.
    pub open spec fn body(self) -> Seq<Token> {
        if has_new(self.methods) {
            self.given_body()
        } else {
            self.given_body() + new_fn()
        }
    }

    /// The generated code.
    pub open spec fn generated(self) -> Seq<Token> {
        let name = text(self.name);
        struct_items(self.vis, name, self.generics, self.subs(), self.methods) + all_sub_items(
            name,
            self.generics,
            self.traits,
        ) + inherent_impl(self.generics, mock_name(name), self.body()) + all_trait_impls(
            name,
            self.generics,
            self.traits,
        )
    }

    /// Whether all names that names are made of are plain.
    pub open spec fn plain(self) -> bool {
        &&& is_plain(text(self.name))
        &&& plain_methods(self.methods)
        &&& forall|i: int|
            0 <= i < self.traits.len() ==> trait_plain(text(self.name), #[trigger] self.traits[i])
    }

    /// Whether the blocks of all inherent methods are empty.
    pub open spec fn well_formed(self) -> bool {
        forall|i: int|
            0 <= i < self.methods.len() ==> (#[trigger] self.methods[i]).block == braces(nothing())
    }

    /// Why there is no code for a description.
    pub open spec fn error(self) -> Option<MockError> {
        let name = text(self.name);
        match struct_error(name, self.generics, self.subs(), self.methods) {
            Some(error) => Some(error),
            None => match subs_error(name, self.generics, self.traits) {
                Some(error) => Some(error),
                None => match methods_error(mock_name(name), self.methods) {
                    Some(error) => Some(error),
                    None => traits_error(name, self.traits),
                },
            },
        }
    }
}

impl Mock {
    /// The traits by name, each with the generic parameters of the structure.
    fn list_subs(&self) -> (r: Vec<(String, GenericList)>)
        ensures
            sub_views(r@) == self@.subs(),
    {
        let mut subs: Vec<(String, GenericList)> = Vec::new();
        let mut i: usize = 0;
        while i < self.traits.len()
            invariant
                i <= self.traits.len(),
                subs@.len() == i,
                forall|j: int|
                    0 <= j < i ==> (#[trigger] subs@[j]).0@ == text(self.traits@[j]@.ident)
                        && subs@[j].1@ == self.generics@,
            decreases self.traits.len() - i,
        {
            subs.push((ident_string(&self.traits[i].ident), self.generics.copy()));
            i += 1;
        }
        assert(sub_views(subs@) =~= self@.subs());
        subs
    }

    /// The structure that holds the expectations of one trait.
    fn gen_sub(&self, trait_: &ItemTrait) -> (r: Result<TokenStream, MockError>)
        requires
            is_ident(text(self@.name)),
        ensures
            comes_to(
                r,
                sub_error(text(self@.name), self@.generics, trait_@),
                trait_plain(text(self@.name), trait_@),
            ),
            r matches Ok(code) ==> contents(code) == sub_items(
                text(self@.name),
                self@.generics,
                trait_@,
            ),
    {
        let name = ident_string(&self.name);
        let name = name.as_str();
        let mod_ident = gen_mod_ident(name, None);
        let sub_mock = gen_sub_ident(name, ident_string(&trait_.ident).as_str());
        let mock_sub_name = gen_mock_ident(sub_mock.as_str());
        let methods = methods_of(&trait_.items);
        let inherited = stream();
        let none: Vec<(String, GenericList)> = Vec::new();
        assert(sub_views(none@) =~= Seq::empty());
        proof {
            let ident = text(trait_@.ident);
            if trait_plain(name@, trait_@) {
                lemma_plain_names(name@, ident, ident);
                lemma_plain_names(sub_mock@, sub_mock@, sub_mock@);
                lemma_plain_methods(trait_@.items);
            }
        }
        let mut output = match gen_struct(
            &inherited,
            sub_mock.as_str(),
            &self.generics,
            &none,
            &methods,
        ) {
            Ok(output) => output,
            Err(error) => {
                return Err(error);
            },
        };
        proof {
            lemma_names(name@, name@, name@);
            lemma_names(sub_mock@, sub_mock@, sub_mock@);
        }
        let (mod_ident, mock_sub_ident) = match (
            try_word(mod_ident.as_str(), &stream()),
            try_word(mock_sub_name.as_str(), &stream()),
        ) {
            (Some(mod_ident), Some(mock_sub_ident)) => (mod_ident, mock_sub_ident),
            _ => {
                return Err(MockError::Name);
            },
        };
        let (_, sub_cp_body) = match gen_methods(&mod_ident, mock_sub_name.as_str(), &methods) {
            Ok(bodies) => bodies,
            Err(error) => {
                return Err(error);
            },
        };
        put(
            &mut output,
            &make_inherent_impl(
                &self.generics,
                &mock_sub_ident,
                &make_checkpoint_fn(&sub_cp_body),
                Ghost(mock_sub_name@),
            ),
        );
        Ok(output)
    }

    /// The structures that hold the expectations of all traits, and their parts of the
    /// `checkpoint` method.
    fn gen_subs(&self) -> (r: Result<(TokenStream, TokenStream), MockError>)
        requires
            is_ident(text(self@.name)),
            forall|i: int|
                0 <= i < self@.traits.len() ==> is_ident(text((#[trigger] self@.traits[i]).ident)),
        ensures
            comes_to(
                r,
                subs_error(text(self@.name), self@.generics, self@.traits),
                self@.plain(),
            ),
            r matches Ok((items, cp_body)) ==> {
                &&& contents(items) == all_sub_items(
                    text(self@.name),
                    self@.generics,
                    self@.traits,
                )
                &&& contents(cp_body) == trait_checkpoints(self@.traits)
            },
    {
        let mut output = stream();
        let mut cp_body = stream();
        let ghost all = self@.traits;
        let mut i: usize = 0;
        while i < self.traits.len()
            invariant
                i <= self.traits.len() == all.len(),
                all == self@.traits,
                is_ident(text(self@.name)),
                forall|j: int| 0 <= j < all.len() ==> is_ident(text((#[trigger] all[j]).ident)),
                subs_error(text(self@.name), self@.generics, all.take(i as int)) is None,
                contents(output) == all_sub_items(
                    text(self@.name),
                    self@.generics,
                    all.take(i as int),
                ),
                contents(cp_body) == trait_checkpoints(all.take(i as int)),
            decreases self.traits.len() - i,
        {
            let trait_ = &self.traits[i];
            proof {
                lemma_punctuation();
                lemma_words();
                assert(all[i as int] == trait_@);
                let ident = text(trait_@.ident);
                lemma_names(ident, ident, ident);
                if self@.plain() {
                    assert(trait_plain(text(self@.name), all[i as int]));
                    lemma_plain_names(ident, ident, ident);
                }
                assert(all.take(i + 1).drop_last() =~= all.take(i as int));
                if sub_error(text(self@.name), self@.generics, trait_@) is Some {
                    lemma_subs_error(text(self@.name), self@.generics, all, i as int);
                }
            }
            match self.gen_sub(trait_) {
                Ok(items) => {
                    put(&mut output, &items);
                },
                Err(error) => {
                    return Err(error);
                },
            }
            let mut field = start_word("self");
            put_punct(&mut field, '.');
            let ident = ident_string(&trait_.ident);
            match try_word(gen_sub_field(ident.as_str()).as_str(), &stream()) {
                Some(name) => {
                    put(&mut field, &name);
                },
                None => {
                    return Err(MockError::Name);
                },
            }
            let mut statement = call_plain(field, "checkpoint");
            put_punct(&mut statement, ';');
            put(&mut cp_body, &statement);
            i += 1;
        }
        assert(all.take(i as int) =~= all);
        Ok((output, cp_body))
    }

    /// The implementations of all traits.
    fn gen_trait_impls(&self) -> (r: Result<TokenStream, MockError>)
        ensures
            comes_to(r, traits_error(text(self@.name), self@.traits), self@.plain()),
            r matches Ok(code) ==> contents(code) == all_trait_impls(
                text(self@.name),
                self@.generics,
                self@.traits,
            ),
    {
        let name = ident_string(&self.name);
        let mut output = stream();
        let ghost all = self@.traits;
        let mut i: usize = 0;
        while i < self.traits.len()
            invariant
                i <= self.traits.len() == all.len(),
                all == self@.traits,
                name@ == text(self@.name),
                traits_error(text(self@.name), all.take(i as int)) is None,
                contents(output) == all_trait_impls(
                    text(self@.name),
                    self@.generics,
                    all.take(i as int),
                ),
            decreases self.traits.len() - i,
        {
            let trait_ = &self.traits[i];
            proof {
                assert(all[i as int] == trait_@);
                assert(all.take(i + 1).drop_last() =~= all.take(i as int));
                if self@.plain() {
                    assert(trait_plain(text(self@.name), all[i as int]));
                }
                if trait_error(text(self@.name), trait_@) is Some {
                    lemma_traits_error(text(self@.name), all, i as int);
                }
            }
            match mock_trait_methods(name.as_str(), Some(&self.generics), trait_) {
                Ok(impls) => {
                    put(&mut output, &impls);
                },
                Err(error) => {
                    return Err(error);
                },
            }
            i += 1;
        }
        assert(all.take(i as int) =~= all);
        Ok(output)
    }

    fn has_new_method(&self) -> (r: bool)
        ensures
            r == has_new(self@.methods),
    {
        let ghost all = self@.methods;
        let mut i: usize = 0;
        while i < self.methods.len()
            invariant
                i <= self.methods.len() == all.len(),
                all == self@.methods,
                forall|j: int| 0 <= j < i ==> text((#[trigger] all[j]).sig.ident) != "new"@,
            decreases self.methods.len() - i,
        {
            assert(all[i as int] == self.methods@[i as int]@);
            if ident_string(&self.methods[i].sig.ident) == "new".to_owned() {
                return true;
            }
            i += 1;
        }
        false
    }

    /// Generates the code of the mock.
    pub fn gen(&self) -> (r: Result<TokenStream, MockError>)
        ensures
            comes_to(r, self@.error(), self@.plain()),
            r matches Ok(code) ==> contents(code) == self@.generated(),
    {
        let name = ident_string(&self.name);
        let name = name.as_str();
        let mock_struct_name = gen_mock_ident(name);
        let mock_mod_ident = gen_mod_ident(name, None);
        let subs = self.list_subs();
        proof {
            if self@.plain() {
                lemma_plain_names(name@, name@, name@);
                assert forall|i: int| 0 <= i < self@.subs().len() implies is_plain(
                    (#[trigger] self@.subs()[i]).0,
                ) by {
                    assert(trait_plain(name@, self@.traits[i]));
                }
                assert(struct_plain(name@, self@.subs(), self@.methods));
            }
        }
        // generate the mock structure
        let mut output = match gen_struct(
            &self.vis,
            name,
            &self.generics,
            &subs,
            &self.methods,
        ) {
            Ok(output) => output,
            Err(error) => {
                return Err(error);
            },
        };
        proof {
            lemma_words();
            lemma_names(name@, name@, name@);
            assert forall|i: int| 0 <= i < self@.traits.len() implies is_ident(
                text((#[trigger] self@.traits[i]).ident),
            ) by {
                assert(self@.subs()[i].0 == text(self@.traits[i].ident));
            }
        }
        // generate sub structures
        let (sub_output, mut cp_body) = match self.gen_subs() {
            Ok(bodies) => bodies,
            Err(error) => {
                return Err(error);
            },
        };
        put(&mut output, &sub_output);
        // generate methods on the mock structure itself
        let (mod_ident, mock_ident) = match (
            try_word(mock_mod_ident.as_str(), &stream()),
            try_word(mock_struct_name.as_str(), &stream()),
        ) {
            (Some(mod_ident), Some(mock_ident)) => (mod_ident, mock_ident),
            _ => {
                return Err(MockError::Name);
            },
        };
        let (mut mock_body, method_cps) = match gen_methods(
            &mod_ident,
            mock_struct_name.as_str(),
            &self.methods,
        ) {
            Ok(bodies) => bodies,
            Err(error) => {
                return Err(error);
            },
        };
        put(&mut cp_body, &method_cps);
        // generate the mock struct's inherent methods
        put_word(&mut mock_body, "pub");
        put(&mut mock_body, &make_checkpoint_fn(&cp_body));
        // Add a "new" method if the struct doesn't already have one.  Add it
        // even if the struct implements a trait that has a new method.  The
        // trait's new method can still be called as `<MockX as TraitY>::new`
        if !self.has_new_method() {
            put(&mut mock_body, &make_new_fn());
        }
        put(
            &mut output,
            &make_inherent_impl(
                &self.generics,
                &mock_ident,
                &mock_body,
                Ghost(mock_struct_name@),
            ),
        );
        // generate methods on traits
        match self.gen_trait_impls() {
            Ok(impls) => {
                put(&mut output, &impls);
            },
            Err(error) => {
                return Err(error);
            },
        }
        Ok(output)
    }
}

/// Generates the code of the mock that some tokens describe.  Tokens that describe none
/// become an invocation of `compile_error!`.
pub fn do_mock(input: TokenStream) -> (r: Result<TokenStream, MockError>)
    ensures
        match described(contents(input)) {
            Ok(mock) => {
                &&& comes_to(r, mock.error(), mock.plain())
                &&& r matches Ok(code) ==> contents(code) == mock.generated()
            },
            Err(ParseErrorView::Syntax(text)) => r is Ok && reports(contents(r->Ok_0), text),
            Err(ParseErrorView::Unreadable) => r == Err::<TokenStream, MockError>(
                MockError::Unreadable,
            ),
        },
{
    match Mock::parse(input) {
        Ok(mock) => mock.gen(),
        Err(ParseError::Syntax(error)) => Ok(to_compile_error(&error)),
        Err(ParseError::Unreadable) => Err(MockError::Unreadable),
    }
}

} // verus!
